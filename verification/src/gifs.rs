//! GIF search: which provider and key a node uses, the request bounds, and how each
//! provider's reply is normalised into results.
use vstd::prelude::*;
use crate::text::{CharClass, chars_of, eq_chars, string_of, trim_ws, trimmed};
use crate::titles::{lowercase, to_lowercase};
use crate::numbers::{parse_decimal_u32, parse_u32};

verus! {

/// Query of `GET /api/gifs/search`; an empty `q` asks for trending GIFs.
pub struct GifSearchQuery {
    pub q: String,
    pub limit: Option<u32>,
}

impl Default for GifSearchQuery {
    /// A bare query: trending GIFs at the default limit.
    fn default() -> (r: GifSearchQuery)
        ensures
            r.q@.len() == 0,
            r.limit is None,
    {
        GifSearchQuery { q: String::new(), limit: None }
    }
}

/// One normalised GIF: a small looping preview for the grid and the full GIF.
pub struct GifResult {
    pub id: String,
    pub title: String,
    pub preview_url: String,
    pub url: String,
    pub width: u32,
    pub height: u32,
}

/// The number of results asked of a provider: the requested limit (24 when
/// absent) clamped to `1..=50`.
pub fn search_limit(limit: Option<u32>) -> (r: u32)
    ensures
        r == match limit {
            Some(l) => if l < 1 {
                1
            } else if l > 50 {
                50
            } else {
                l
            },
            None => 24,
        },
{
    let l = match limit {
        Some(l) => l,
        None => 24,
    };
    if l < 1 {
        1
    } else if l > 50 {
        50
    } else {
        l
    }
}

/// The provider a configured value names: trimmed and lowercased, when that
/// leaves something.
pub open spec fn configured_provider(v: Option<Seq<char>>) -> Option<Seq<char>> {
    match v {
        Some(p) => if lowercase(trim_ws(p)).len() > 0 {
            Some(lowercase(trim_ws(p)))
        } else {
            None
        },
        None => None,
    }
}

fn provider_from(v: Option<&str>) -> (r: Option<String>)
    ensures
        match r {
            Some(p) => configured_provider(
                match v {
                    Some(s) => Some(s@),
                    None => None,
                },
            ) == Some(p@),
            None => configured_provider(
                match v {
                    Some(s) => Some(s@),
                    None => None,
                },
            ) is None,
        },
{
    match v {
        None => None,
        Some(s) => {
            let t = string_of(&trimmed(&chars_of(s), CharClass::Whitespace));
            let l = to_lowercase(t.as_str());
            if l.as_str().unicode_len() > 0 {
                Some(l)
            } else {
                None
            }
        },
    }
}

/// The provider a node uses: the preference when it names one, else the
/// environment's, else `klipy`.
pub fn resolve_provider(pref: Option<&str>, env: Option<&str>) -> (r: String)
    ensures
        r@ == match configured_provider(
            match pref {
                Some(s) => Some(s@),
                None => None,
            },
        ) {
            Some(p) => p,
            None => match configured_provider(
                match env {
                    Some(s) => Some(s@),
                    None => None,
                },
            ) {
                Some(p) => p,
                None => "klipy"@,
            },
        },
{
    match provider_from(pref) {
        Some(p) => p,
        None => match provider_from(env) {
            Some(p) => p,
            None => "klipy".to_owned(),
        },
    }
}

/// The conventional environment variable holding a provider's key.
pub fn provider_key_env(provider: &str) -> (r: &'static str)
    ensures
        r@ == if provider@ == "tenor"@ {
            "TENOR_API_KEY"@
        } else if provider@ == "giphy"@ {
            "GIPHY_API_KEY"@
        } else {
            "KLIPY_API_KEY"@
        },
{
    let v = chars_of(provider);
    if eq_chars(&v, &chars_of("tenor")) {
        "TENOR_API_KEY"
    } else if eq_chars(&v, &chars_of("giphy")) {
        "GIPHY_API_KEY"
    } else {
        "KLIPY_API_KEY"
    }
}

/// The first non-blank key, trimmed, among the candidates in order (the
/// preference, `RYU_GIF_API_KEY`, the provider's own variable).
pub open spec fn first_key(cands: Seq<Option<String>>) -> Option<Seq<char>>
    decreases cands.len(),
{
    if cands.len() == 0 {
        None
    } else {
        match cands[0] {
            Some(k) => if trim_ws(k@).len() > 0 {
                Some(trim_ws(k@))
            } else {
                first_key(cands.drop_first())
            },
            None => first_key(cands.drop_first()),
        }
    }
}

/// The provider key: the first non-blank candidate, trimmed; `None` when nothing
/// is configured.
pub fn resolve_key(candidates: &Vec<Option<String>>) -> (r: Option<String>)
    ensures
        match r {
            Some(k) => first_key(candidates@) == Some(k@),
            None => first_key(candidates@) is None,
        },
{
    let mut i: usize = 0;
    assert(candidates@.skip(0) =~= candidates@);
    while i < candidates.len()
        invariant
            i <= candidates.len(),
            first_key(candidates@) == first_key(candidates@.skip(i as int)),
        decreases candidates.len() - i,
    {
        proof {
            assert(candidates@.skip(i as int).drop_first() =~= candidates@.skip(i + 1));
            assert(candidates@.skip(i as int)[0] == candidates@[i as int]);
        }
        match &candidates[i] {
            Some(k) => {
                let t = trimmed(&chars_of(k.as_str()), CharClass::Whitespace);
                if t.len() > 0 {
                    return Some(string_of(&t));
                }
            },
            None => {},
        }
        i = i + 1;
    }
    proof {
        assert(candidates@.skip(candidates.len() as int) =~= Seq::<Option<String>>::empty());
    }
    None
}

// ── Dimensions ───────────────────────────────────────────────────────────────

/// A dimension as a provider sends it.
pub enum DimValue {
    /// A JSON string.
    Text(String),
    /// A JSON unsigned integer.
    Unsigned(u64),
    /// Anything else (a float, a negative number, a boolean, null, …).
    Other,
}

/// A dimension read leniently: a numeric string parsed as `u32`, an unsigned
/// integer cut to its low 32 bits; anything else is no dimension.
pub open spec fn dim_of(v: DimValue) -> Option<u32> {
    match v {
        DimValue::Text(s) => parse_u32(s@),
        DimValue::Unsigned(n) => Some((n % 4294967296) as u32),
        DimValue::Other => None,
    }
}

/// Read a provider dimension leniently (see `dim_of`).
pub fn str_num(v: &DimValue) -> (r: Option<u32>)
    ensures
        r == dim_of(*v),
{
    match v {
        DimValue::Text(s) => parse_decimal_u32(s.as_str()),
        DimValue::Unsigned(n) => Some((*n % 4294967296) as u32),
        DimValue::Other => None,
    }
}

fn dim_or_zero(v: &Option<DimValue>) -> (r: u32)
    ensures
        r == match *v {
            Some(d) => match dim_of(d) {
                Some(x) => x,
                None => 0,
            },
            None => 0,
        },
{
    match v {
        Some(d) => match str_num(d) {
            Some(x) => x,
            None => 0,
        },
        None => 0,
    }
}

pub open spec fn ov(o: Option<String>) -> Option<Seq<char>> {
    match o {
        Some(s) => Some(s@),
        None => None,
    }
}

fn text_or(o: &Option<String>, d: &str) -> (r: String)
    ensures
        r@ == match *o {
            Some(s) => s@,
            None => d@,
        },
{
    match o {
        Some(s) => s.clone(),
        None => d.to_owned(),
    }
}

// ── Provider replies ─────────────────────────────────────────────────────────

pub open spec fn result_view(g: GifResult) -> (Seq<char>, Seq<char>, Seq<char>, Seq<char>, u32, u32) {
    (g.id@, g.title@, g.preview_url@, g.url@, g.width, g.height)
}

/// One Giphy item: `id`, `title`, `images.fixed_width.url`, `images.original.url`
/// (each when a string) and the original's dimensions.
pub struct GiphyItem {
    pub id: Option<String>,
    pub title: Option<String>,
    pub preview_url: Option<String>,
    pub original_url: Option<String>,
    pub width: Option<DimValue>,
    pub height: Option<DimValue>,
}

/// A Giphy item's result, when it has both a preview and a full URL.
pub open spec fn giphy_result(it: GiphyItem) -> Option<(Seq<char>, Seq<char>, Seq<char>, Seq<char>, u32, u32)> {
    match (it.preview_url, it.original_url) {
        (Some(p), Some(f)) => Some(
            (
                match it.id {
                    Some(s) => s@,
                    None => ""@,
                },
                match it.title {
                    Some(s) => s@,
                    None => "GIF"@,
                },
                p@,
                f@,
                match it.width {
                    Some(d) => match dim_of(d) {
                        Some(x) => x,
                        None => 0,
                    },
                    None => 0,
                },
                match it.height {
                    Some(d) => match dim_of(d) {
                        Some(x) => x,
                        None => 0,
                    },
                    None => 0,
                },
            ),
        ),
        _ => None,
    }
}

/// The results of a list of items, in order, skipping the items without both URLs.
pub open spec fn giphy_results(items: Seq<GiphyItem>) -> Seq<(Seq<char>, Seq<char>, Seq<char>, Seq<char>, u32, u32)>
    decreases items.len(),
{
    if items.len() == 0 {
        seq![]
    } else {
        match giphy_result(items.last()) {
            Some(r) => giphy_results(items.drop_last()).push(r),
            None => giphy_results(items.drop_last()),
        }
    }
}

/// Normalise Giphy's `data` items.
pub fn normalize_giphy(items: &Vec<GiphyItem>) -> (r: Vec<GifResult>)
    ensures
        r@.map_values(|g: GifResult| result_view(g)) == giphy_results(items@),
{
    let mut out: Vec<GifResult> = Vec::new();
    let mut i: usize = 0;
    while i < items.len()
        invariant
            i <= items.len(),
            out@.map_values(|g: GifResult| result_view(g)) == giphy_results(items@.take(i as int)),
        decreases items.len() - i,
    {
        let it = &items[i];
        proof {
            assert(items@.take(i + 1).drop_last() =~= items@.take(i as int));
            assert(items@.take(i + 1).last() == items@[i as int]);
        }
        match (&it.preview_url, &it.original_url) {
            (Some(p), Some(f)) => {
                let g = GifResult {
                    id: text_or(&it.id, ""),
                    title: text_or(&it.title, "GIF"),
                    preview_url: p.clone(),
                    url: f.clone(),
                    width: dim_or_zero(&it.width),
                    height: dim_or_zero(&it.height),
                };
                let ghost before = out@;
                out.push(g);
                proof {
                    assert(out@.map_values(|g: GifResult| result_view(g)) =~= before.map_values(
                        |g: GifResult| result_view(g),
                    ).push(result_view(g)));
                }
            },
            _ => {},
        }
        i = i + 1;
    }
    proof {
        assert(items@.take(items.len() as int) =~= items@);
    }
    out
}

/// One Tenor item: `id`, `content_description`, `media_formats.tinygif.url`,
/// `media_formats.gif.url` (each when a string), and the first two entries of
/// `media_formats.gif.dims` when they are unsigned integers.
pub struct TenorItem {
    pub id: Option<String>,
    pub description: Option<String>,
    pub preview_url: Option<String>,
    pub gif_url: Option<String>,
    pub width: Option<u64>,
    pub height: Option<u64>,
}

/// A Tenor item's result, when it has both URLs (dimensions cut to 32 bits).
pub open spec fn tenor_result(it: TenorItem) -> Option<(Seq<char>, Seq<char>, Seq<char>, Seq<char>, u32, u32)> {
    match (it.preview_url, it.gif_url) {
        (Some(p), Some(f)) => Some(
            (
                match it.id {
                    Some(s) => s@,
                    None => ""@,
                },
                match it.description {
                    Some(s) => s@,
                    None => "GIF"@,
                },
                p@,
                f@,
                match it.width {
                    Some(w) => (w % 4294967296) as u32,
                    None => 0,
                },
                match it.height {
                    Some(h) => (h % 4294967296) as u32,
                    None => 0,
                },
            ),
        ),
        _ => None,
    }
}

pub open spec fn tenor_results(items: Seq<TenorItem>) -> Seq<(Seq<char>, Seq<char>, Seq<char>, Seq<char>, u32, u32)>
    decreases items.len(),
{
    if items.len() == 0 {
        seq![]
    } else {
        match tenor_result(items.last()) {
            Some(r) => tenor_results(items.drop_last()).push(r),
            None => tenor_results(items.drop_last()),
        }
    }
}

/// Normalise Tenor's `results` items.
pub fn normalize_tenor(items: &Vec<TenorItem>) -> (r: Vec<GifResult>)
    ensures
        r@.map_values(|g: GifResult| result_view(g)) == tenor_results(items@),
{
    let mut out: Vec<GifResult> = Vec::new();
    let mut i: usize = 0;
    while i < items.len()
        invariant
            i <= items.len(),
            out@.map_values(|g: GifResult| result_view(g)) == tenor_results(items@.take(i as int)),
        decreases items.len() - i,
    {
        let it = &items[i];
        proof {
            assert(items@.take(i + 1).drop_last() =~= items@.take(i as int));
            assert(items@.take(i + 1).last() == items@[i as int]);
        }
        match (&it.preview_url, &it.gif_url) {
            (Some(p), Some(f)) => {
                let g = GifResult {
                    id: text_or(&it.id, ""),
                    title: text_or(&it.description, "GIF"),
                    preview_url: p.clone(),
                    url: f.clone(),
                    width: match it.width {
                        Some(w) => (w % 4294967296) as u32,
                        None => 0,
                    },
                    height: match it.height {
                        Some(h) => (h % 4294967296) as u32,
                        None => 0,
                    },
                };
                let ghost before = out@;
                out.push(g);
                proof {
                    assert(out@.map_values(|g: GifResult| result_view(g)) =~= before.map_values(
                        |g: GifResult| result_view(g),
                    ).push(result_view(g)));
                }
            },
            _ => {},
        }
        i = i + 1;
    }
    proof {
        assert(items@.take(items.len() as int) =~= items@);
    }
    out
}

/// One format of a Klipy file: its `gif` object, when present, with `url` (when a
/// string) and dimensions.
pub struct KlipyFormat {
    pub gif: Option<KlipyGif>,
}

pub struct KlipyGif {
    pub url: Option<String>,
    pub width: Option<DimValue>,
    pub height: Option<DimValue>,
}

/// One Klipy item: its id as text (a string id as is, any other JSON value in its
/// JSON text), `title` when a string, and the formats of its `file` present.
pub struct KlipyItem {
    pub id: Option<String>,
    pub title: Option<String>,
    pub sm: Option<KlipyFormat>,
    pub xs: Option<KlipyFormat>,
    pub hd: Option<KlipyFormat>,
    pub md: Option<KlipyFormat>,
}

/// The preview's format: `sm` when present, else `xs`.
pub open spec fn klipy_preview_format(it: KlipyItem) -> Option<KlipyFormat> {
    if it.sm is Some {
        it.sm
    } else {
        it.xs
    }
}

/// The full GIF's format: `hd` when present, else `md`, else `sm`.
pub open spec fn klipy_full_format(it: KlipyItem) -> Option<KlipyFormat> {
    if it.hd is Some {
        it.hd
    } else if it.md is Some {
        it.md
    } else {
        it.sm
    }
}

pub open spec fn gif_url_of(f: Option<KlipyFormat>) -> Option<Seq<char>> {
    match f {
        Some(fm) => match fm.gif {
            Some(g) => ov(g.url),
            None => None,
        },
        None => None,
    }
}

pub open spec fn gif_dim(d: Option<DimValue>) -> u32 {
    match d {
        Some(v) => match dim_of(v) {
            Some(x) => x,
            None => 0,
        },
        None => 0,
    }
}

/// A Klipy item's result, when both its preview and full GIF have URLs.
pub open spec fn klipy_result(it: KlipyItem) -> Option<(Seq<char>, Seq<char>, Seq<char>, Seq<char>, u32, u32)> {
    match (gif_url_of(klipy_preview_format(it)), gif_url_of(klipy_full_format(it))) {
        (Some(p), Some(f)) => {
            let g = klipy_full_format(it)->0.gif->0;
            Some(
                (
                    match it.id {
                        Some(s) => s@,
                        None => ""@,
                    },
                    match it.title {
                        Some(s) => s@,
                        None => "GIF"@,
                    },
                    p,
                    f,
                    gif_dim(g.width),
                    gif_dim(g.height),
                ),
            )
        },
        _ => None,
    }
}

pub open spec fn klipy_results(items: Seq<KlipyItem>) -> Seq<(Seq<char>, Seq<char>, Seq<char>, Seq<char>, u32, u32)>
    decreases items.len(),
{
    if items.len() == 0 {
        seq![]
    } else {
        match klipy_result(items.last()) {
            Some(r) => klipy_results(items.drop_last()).push(r),
            None => klipy_results(items.drop_last()),
        }
    }
}

fn pick_format<'a>(first: &'a Option<KlipyFormat>, second: &'a Option<KlipyFormat>) -> (r: &'a Option<
    KlipyFormat,
>)
    ensures
        *r == if first is Some {
            *first
        } else {
            *second
        },
{
    if first.is_some() {
        first
    } else {
        second
    }
}

fn format_url(f: &Option<KlipyFormat>) -> (r: Option<String>)
    ensures
        ov(r) == gif_url_of(*f),
{
    match f {
        Some(fm) => match &fm.gif {
            Some(g) => match &g.url {
                Some(u) => Some(u.clone()),
                None => None,
            },
            None => None,
        },
        None => None,
    }
}

/// Normalise Klipy's `data.data` items.
pub fn normalize_klipy(items: &Vec<KlipyItem>) -> (r: Vec<GifResult>)
    ensures
        r@.map_values(|g: GifResult| result_view(g)) == klipy_results(items@),
{
    let mut out: Vec<GifResult> = Vec::new();
    let mut i: usize = 0;
    while i < items.len()
        invariant
            i <= items.len(),
            out@.map_values(|g: GifResult| result_view(g)) == klipy_results(items@.take(i as int)),
        decreases items.len() - i,
    {
        let it = &items[i];
        proof {
            assert(items@.take(i + 1).drop_last() =~= items@.take(i as int));
            assert(items@.take(i + 1).last() == items@[i as int]);
        }
        let preview_fmt = pick_format(&it.sm, &it.xs);
        let full_fmt = if it.hd.is_some() {
            &it.hd
        } else {
            pick_format(&it.md, &it.sm)
        };
        assert(*full_fmt == klipy_full_format(*it));
        match (format_url(preview_fmt), format_url(full_fmt)) {
            (Some(p), Some(f)) => {
                let (w, h) = match full_fmt {
                    Some(fm) => match &fm.gif {
                        Some(g) => (dim_or_zero(&g.width), dim_or_zero(&g.height)),
                        None => (0, 0),
                    },
                    None => (0, 0),
                };
                let g = GifResult {
                    id: text_or(&it.id, ""),
                    title: text_or(&it.title, "GIF"),
                    preview_url: p,
                    url: f,
                    width: w,
                    height: h,
                };
                let ghost before = out@;
                out.push(g);
                proof {
                    assert(out@.map_values(|g: GifResult| result_view(g)) =~= before.map_values(
                        |g: GifResult| result_view(g),
                    ).push(result_view(g)));
                }
            },
            _ => {},
        }
        i = i + 1;
    }
    proof {
        assert(items@.take(items.len() as int) =~= items@);
    }
    out
}

} // verus!
