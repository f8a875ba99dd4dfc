//! Clips: how an ingest request is resolved before it is handed to the capture
//! sidecar, the query defaults, and the markdown summary a finished clip is filed
//! with.
use vstd::prelude::*;
use crate::text::{
    CharClass, append_chars, chars_of, decimal2, eq_chars, push_decimal2, starts_with,
    starts_with_chars, string_of, trim_ws, trimmed, trimmed_or, trimmed_or_default,
};

verus! {

/// Body of `POST /api/clips/ingest`.
pub struct IngestBody {
    /// A URL (`http`/`https`) to download, or a local video file path.
    pub source: String,
    /// Detail mode: `transcript`, `efficient`, `balanced` or `tokenBurner`.
    pub detail: Option<String>,
    /// Optional trim start (ms).
    pub start: Option<u64>,
    /// Optional trim end (ms).
    pub end: Option<u64>,
}

impl Default for IngestBody {
    fn default() -> (r: IngestBody)
        ensures
            r.source@.len() == 0,
            r.detail is None,
            r.start is None,
            r.end is None,
    {
        IngestBody { source: String::new(), detail: None, start: None, end: None }
    }
}

/// Query of `GET /api/clips/:id/frame`.
pub struct FrameQuery {
    /// The frame's time offset (ms).
    pub at_ms: u64,
}

/// Query of `GET /api/clips/recent-activity`.
pub struct RecentActivityQuery {
    pub minutes: Option<u32>,
}

/// How an ingest runs: where the video comes from, which trim the downloader
/// applies, which trim the capture sidecar applies, and the detail mode.
pub struct IngestPlan {
    /// The trimmed source.
    pub source: String,
    /// An `http://` or `https://` URL (downloaded first) rather than a local file.
    pub is_url: bool,
    /// The trim the downloader applies (URLs only).
    pub download_start: Option<u64>,
    pub download_end: Option<u64>,
    /// The trim forwarded to the capture sidecar.
    pub forward_start: Option<u64>,
    pub forward_end: Option<u64>,
    /// The detail mode, `balanced` when none is given.
    pub detail: String,
}

pub open spec fn is_url_source(s: Seq<char>) -> bool {
    starts_with(s, "http://"@) || starts_with(s, "https://"@)
}

/// A single trim is applied: a URL with both ends bounded is trimmed while it
/// downloads (and nothing is forwarded); anything else is trimmed by the sidecar.
pub open spec fn trims_at_download(is_url: bool, start: Option<u64>, end: Option<u64>) -> bool {
    is_url && start is Some && end is Some
}

pub open spec fn opt_view(o: Option<String>) -> Option<Seq<char>> {
    match o {
        Some(s) => Some(s@),
        None => None,
    }
}

/// Resolve an ingest request. The source is trimmed; an empty one is refused.
pub fn plan_ingest(body: &IngestBody) -> (r: Result<IngestPlan, String>)
    ensures
        r is Err <==> trim_ws(body.source@).len() == 0,
        r matches Err(e) ==> e@ == "missing `source` (a video URL or local file path)"@,
        r matches Ok(p) ==> {
            let at_dl = trims_at_download(p.is_url, body.start, body.end);
            &&& p.source@ == trim_ws(body.source@)
            &&& p.is_url == is_url_source(p.source@)
            &&& (p.download_start, p.download_end) == if at_dl {
                (body.start, body.end)
            } else {
                (None, None)
            }
            &&& (p.forward_start, p.forward_end) == if at_dl {
                (None, None)
            } else {
                (body.start, body.end)
            }
            &&& p.detail@ == trimmed_or(opt_view(body.detail), "balanced"@)
        },
{
    let src = trimmed(&chars_of(body.source.as_str()), CharClass::Whitespace);
    if src.len() == 0 {
        return Err("missing `source` (a video URL or local file path)".to_owned());
    }
    let is_url = starts_with_chars(&src, &chars_of("http://")) || starts_with_chars(
        &src,
        &chars_of("https://"),
    );
    let at_download = is_url && body.start.is_some() && body.end.is_some();
    let (download_start, download_end) = if at_download {
        (body.start, body.end)
    } else {
        (None, None)
    };
    let (forward_start, forward_end) = if at_download {
        (None, None)
    } else {
        (body.start, body.end)
    };
    let detail = match &body.detail {
        Some(d) => trimmed_or_default(Some(d.as_str()), "balanced"),
        None => trimmed_or_default(None, "balanced"),
    };
    Ok(
        IngestPlan {
            source: string_of(&src),
            is_url,
            download_start,
            download_end,
            forward_start,
            forward_end,
            detail,
        },
    )
}

/// A clip is trimmed once: never both while downloading and in the sidecar, and
/// a requested trim is applied by one of the two.
pub proof fn lemma_single_trim(is_url: bool, start: Option<u64>, end: Option<u64>)
    ensures
        ({
            let at_dl = trims_at_download(is_url, start, end);
            let download = if at_dl { (start, end) } else { (None, None) };
            let forward = if at_dl { (None, None) } else { (start, end) };
            &&& download == (None::<u64>, None::<u64>) || forward == (None::<u64>, None::<u64>)
            &&& (download.0 is Some || forward.0 is Some) <==> start is Some
            &&& (download.1 is Some || forward.1 is Some) <==> end is Some
        }),
{
}

/// The local video types a file ingest accepts.
pub open spec fn video_ext_ok(ext: Seq<char>) -> bool {
    let e = ext.map_values(|c: char| crate::self_api::lower_ascii_char(c));
    e == "mp4"@ || e == "mov"@ || e == "mkv"@ || e == "webm"@
}

/// Whether a local file's extension (compared ASCII-case-insensitively) is a
/// supported video type: `mp4`, `mov`, `mkv` or `webm`. No extension is refused.
pub fn local_video_ext_ok(ext: Option<&str>) -> (r: bool)
    ensures
        r == match ext {
            Some(e) => video_ext_ok(e@),
            None => false,
        },
{
    match ext {
        None => false,
        Some(e) => {
            let v = chars_of(e);
            let mut lower: Vec<char> = Vec::new();
            let mut i: usize = 0;
            while i < v.len()
                invariant
                    i <= v.len(),
                    lower@ == v@.take(i as int).map_values(
                        |c: char| crate::self_api::lower_ascii_char(c),
                    ),
                decreases v.len() - i,
            {
                lower.push(crate::self_api::to_ascii_lower_char(v[i]));
                proof {
                    assert(v@.take(i + 1) =~= v@.take(i as int).push(v@[i as int]));
                    assert(lower@ =~= v@.take(i + 1).map_values(
                        |c: char| crate::self_api::lower_ascii_char(c),
                    ));
                }
                i = i + 1;
            }
            proof {
                assert(v@.take(v.len() as int) =~= v@);
            }
            eq_chars(&lower, &chars_of("mp4")) || eq_chars(&lower, &chars_of("mov")) || eq_chars(
                &lower,
                &chars_of("mkv"),
            ) || eq_chars(&lower, &chars_of("webm"))
        },
    }
}

/// The speech-to-text engine for a clip transcript: the configured one when set
/// and non-blank, else `gateway`.
pub fn stt_engine(configured: Option<&str>) -> (r: String)
    ensures
        r@ == trimmed_or(
            match configured {
                Some(s) => Some(s@),
                None => None,
            },
            "gateway"@,
        ),
{
    trimmed_or_default(configured, "gateway")
}

/// The recent-activity window: the requested minutes (3 when absent) clamped to
/// `1..=15`.
pub fn recent_activity_minutes(minutes: Option<u32>) -> (r: u32)
    ensures
        r == match minutes {
            Some(m) => if m < 1 {
                1
            } else if m > 15 {
                15
            } else {
                m
            },
            None => 3,
        },
{
    let m = match minutes {
        Some(m) => m,
        None => 3,
    };
    if m < 1 {
        1
    } else if m > 15 {
        15
    } else {
        m
    }
}

/// Where the desktop fetches a clip's frames from this node.
pub fn frames_endpoint(id: &str) -> (r: String)
    ensures
        r@ == "/api/clips/"@ + id@ + "/frame"@,
{
    let mut v = chars_of("/api/clips/");
    append_chars(&mut v, &chars_of(id));
    append_chars(&mut v, &chars_of("/frame"));
    string_of(&v)
}

/// The title a clip is filed under: its own when non-blank, else `Clip`.
pub fn clip_title(title: Option<&str>) -> (r: String)
    ensures
        r@ == match title {
            Some(t) => if trim_ws(t@).len() > 0 {
                t@
            } else {
                "Clip"@
            },
            None => "Clip"@,
        },
{
    match title {
        Some(t) => {
            if trimmed(&chars_of(t), CharClass::Whitespace).len() > 0 {
                t.to_owned()
            } else {
                "Clip".to_owned()
            }
        },
        None => "Clip".to_owned(),
    }
}

/// One recommended moment of a clip.
pub struct ClipMoment {
    /// Offset (ms).
    pub at_ms: u64,
    pub reason: String,
}

pub open spec fn moment_line(m: ClipMoment) -> Seq<char> {
    "- "@ + decimal2((m.at_ms / 1000) as nat) + "s: "@ + m.reason@ + "\n"@
}

pub open spec fn moment_lines(ms: Seq<ClipMoment>) -> Seq<char>
    decreases ms.len(),
{
    if ms.len() == 0 {
        seq![]
    } else {
        moment_lines(ms.drop_last()) + moment_line(ms.last())
    }
}

/// The markdown summary of a finished clip: a heading, the duration as `mm:ss`,
/// the coverage warning when there is one, and the highlights when there are any.
pub open spec fn clip_summary(
    title: Seq<char>,
    duration_ms: nat,
    scan_warning: Option<Seq<char>>,
    moments: Seq<ClipMoment>,
) -> Seq<char> {
    let secs = duration_ms / 1000;
    let head = "# "@ + title + "\n\n- Duration: "@ + decimal2(secs / 60) + ":"@ + decimal2(
        secs % 60,
    ) + "\n"@;
    let coverage = match scan_warning {
        Some(w) => "- Coverage: "@ + w + "\n"@,
        None => seq![],
    };
    let highlights = if moments.len() > 0 {
        "\n## Highlights\n"@ + moment_lines(moments)
    } else {
        seq![]
    };
    head + coverage + highlights
}

/// Render the markdown summary a finished clip is filed with (see `clip_summary`).
pub fn build_clip_summary_md(
    title: &str,
    duration_ms: u64,
    scan_warning: Option<&str>,
    moments: &Vec<ClipMoment>,
) -> (r: String)
    ensures
        r@ == clip_summary(
            title@,
            duration_ms as nat,
            match scan_warning {
                Some(w) => Some(w@),
                None => None,
            },
            moments@,
        ),
{
    let secs = duration_ms / 1000;
    let mut md = chars_of("# ");
    append_chars(&mut md, &chars_of(title));
    append_chars(&mut md, &chars_of("\n\n- Duration: "));
    push_decimal2(&mut md, secs / 60);
    append_chars(&mut md, &chars_of(":"));
    push_decimal2(&mut md, secs % 60);
    append_chars(&mut md, &chars_of("\n"));
    let ghost head = md@;
    match scan_warning {
        Some(w) => {
            append_chars(&mut md, &chars_of("- Coverage: "));
            append_chars(&mut md, &chars_of(w));
            append_chars(&mut md, &chars_of("\n"));
        },
        None => {},
    }
    let ghost with_cov = md@;
    if moments.len() > 0 {
        append_chars(&mut md, &chars_of("\n## Highlights\n"));
        let ghost base = md@;
        let mut i: usize = 0;
        while i < moments.len()
            invariant
                i <= moments.len(),
                md@ == base + moment_lines(moments@.take(i as int)),
            decreases moments.len() - i,
        {
            let m = &moments[i];
            let ghost before = md@;
            append_chars(&mut md, &chars_of("- "));
            push_decimal2(&mut md, m.at_ms / 1000);
            append_chars(&mut md, &chars_of("s: "));
            append_chars(&mut md, &chars_of(m.reason.as_str()));
            append_chars(&mut md, &chars_of("\n"));
            proof {
                assert(moments@.take(i + 1).drop_last() =~= moments@.take(i as int));
                assert(moments@.take(i + 1).last() == moments@[i as int]);
                assert(md@ =~= before + moment_line(moments@[i as int]));
            }
            i = i + 1;
        }
        proof {
            assert(moments@.take(moments.len() as int) =~= moments@);
        }
    }
    proof {
        assert(head =~= "# "@ + title@ + "\n\n- Duration: "@ + decimal2(((duration_ms / 1000) / 60) as nat)
            + ":"@ + decimal2(((duration_ms / 1000) % 60) as nat) + "\n"@);
    }
    string_of(&md)
}

} // verus!
