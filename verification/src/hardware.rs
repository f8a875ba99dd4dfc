//! Hardware devices: the URL a freshly paired device is told to dial (never an
//! untrusted `Host`), device presence and display polling, the token checks, and
//! the realtime link's handshake and barge-in rules.
use vstd::prelude::*;
use crate::text::{
    append_chars, chars_of, eq_chars, index_of_char_from, slice_vec, starts_with, starts_with_chars,
    string_of, trim_ws, trimmed, CharClass, push_decimal,
};
use crate::self_api::{lower_ascii_char, to_ascii_lower_char};

verus! {

// ── The URL a paired device dials ────────────────────────────────────────────

/// The text before the first `:` (`str::split(':').next()`).
pub open spec fn before_first_colon(s: Seq<char>) -> Seq<char> {
    s.take(index_of_char_from(s, ':', 0))
}

/// The last index of `c` below `n`, if any.
pub open spec fn last_index_below(s: Seq<char>, c: char, n: int) -> Option<int>
    decreases n,
{
    if n <= 0 || n > s.len() {
        None
    } else if s[n - 1] == c {
        Some(n - 1)
    } else {
        last_index_below(s, c, n - 1)
    }
}

/// The text before the last `:` (`rsplit_once(':')`), or all of it.
pub open spec fn before_last_colon(s: Seq<char>) -> Seq<char> {
    match last_index_below(s, ':', s.len() as int) {
        Some(k) => s.take(k),
        None => s,
    }
}

/// `str::to_ascii_lowercase`.
pub open spec fn ascii_lowercase(s: Seq<char>) -> Seq<char> {
    s.map_values(|c: char| lower_ascii_char(c))
}

/// Whether a host is loopback (`ws`) rather than reachable off-box (`wss`): its
/// text before the first `:` is `localhost`, `127.0.0.1`, `::1`, `[::1]` or starts
/// with `127.`.
pub open spec fn is_loopback_host(host: Seq<char>) -> bool {
    let bare = before_first_colon(host);
    bare == "localhost"@ || bare == "127.0.0.1"@ || bare == "::1"@ || bare == "[::1]"@
        || starts_with(bare, "127."@)
}

/// The WebSocket scheme for a host: `ws` on loopback, else `wss`.
pub fn ws_scheme(host: &str) -> (r: &'static str)
    ensures
        r@ == if is_loopback_host(host@) {
            "ws"@
        } else {
            "wss"@
        },
{
    let v = chars_of(host);
    let e = crate::text::char_index_from(&v, ':', 0);
    proof {
        crate::text::lemma_index_of_char_from(v@, ':', 0);
    }
    let bare = slice_vec(&v, 0, e);
    assert(bare@ == before_first_colon(host@));
    let loopback = eq_chars(&bare, &chars_of("localhost")) || eq_chars(&bare, &chars_of("127.0.0.1"))
        || eq_chars(&bare, &chars_of("::1")) || eq_chars(&bare, &chars_of("[::1]"))
        || starts_with_chars(&bare, &chars_of("127."));
    if loopback {
        "ws"
    } else {
        "wss"
    }
}

fn ascii_lower_vec(v: &Vec<char>) -> (r: Vec<char>)
    ensures
        r@ == ascii_lowercase(v@),
{
    let mut out: Vec<char> = Vec::new();
    let mut i: usize = 0;
    while i < v.len()
        invariant
            i <= v.len(),
            out@ == v@.take(i as int).map_values(|c: char| lower_ascii_char(c)),
        decreases v.len() - i,
    {
        out.push(to_ascii_lower_char(v[i]));
        proof {
            assert(v@.take(i + 1) =~= v@.take(i as int).push(v@[i as int]));
            assert(out@ =~= v@.take(i + 1).map_values(|c: char| lower_ascii_char(c)));
        }
        i = i + 1;
    }
    proof {
        assert(v@.take(v.len() as int) =~= v@);
    }
    out
}

fn before_last_colon_vec(v: &Vec<char>) -> (r: Vec<char>)
    ensures
        r@ == before_last_colon(v@),
{
    let mut n: usize = v.len();
    while n > 0
        invariant
            n <= v.len(),
            last_index_below(v@, ':', v.len() as int) == last_index_below(v@, ':', n as int),
        decreases n,
    {
        if v[n - 1] == ':' {
            return slice_vec(v, 0, n - 1);
        }
        n = n - 1;
    }
    slice_vec(v, 0, v.len())
}

/// A host name as trust checks compare it: before its last `:`, ASCII-lowercased.
pub open spec fn host_name_key(s: Seq<char>) -> Seq<char> {
    ascii_lowercase(before_last_colon(s))
}

/// The comma-separated parts of a list.
pub open spec fn comma_parts(s: Seq<char>) -> Seq<Seq<char>> {
    crate::git::split_from(s, ',', 0)
}

/// Whether an allowlist (`a, b, …`) names `name`, entries trimmed and
/// ASCII-lowercased, blank ones ignored.
pub open spec fn allowlist_names(allowlist: Seq<char>, name: Seq<char>) -> bool {
    exists|i: int|
        0 <= i < comma_parts(allowlist).len() && ascii_lowercase(
            trim_ws(#[trigger] comma_parts(allowlist)[i]),
        ).len() > 0 && ascii_lowercase(trim_ws(comma_parts(allowlist)[i])) == name
}

/// Whether a `Host` header may be reflected into a device's URL. An IP literal is
/// trusted exactly when it is loopback, private, link-local or CGNAT
/// (`ip_blocked`, `None` for a host name). A name is trusted when, before its port
/// and lowercased, it is `localhost`, the bound address's name, the mesh name, or
/// on the operator allowlist.
pub open spec fn host_trusted(
    host: Seq<char>,
    bind: Seq<char>,
    magic_dns: Option<Seq<char>>,
    ip_blocked: Option<bool>,
    allowlist: Option<Seq<char>>,
) -> bool {
    match ip_blocked {
        Some(b) => b,
        None => {
            let name = host_name_key(host);
            if name == "localhost"@ {
                true
            } else if name == host_name_key(bind) {
                true
            } else if magic_dns matches Some(d) && ascii_lowercase(d) == name {
                true
            } else {
                match allowlist {
                    Some(a) => allowlist_names(a, name),
                    None => false,
                }
            }
        },
    }
}

fn allowlist_contains(allowlist: &str, name: &Vec<char>) -> (r: bool)
    ensures
        r == allowlist_names(allowlist@, name@),
{
    let v = chars_of(allowlist);
    let parts = crate::git::split_all(&v, ',');
    let ghost pv = crate::text::views_of(parts@);
    let mut i: usize = 0;
    while i < parts.len()
        invariant
            i <= parts.len(),
            pv == crate::text::views_of(parts@),
            pv == comma_parts(allowlist@),
            forall|j: int|
                0 <= j < i ==> !(ascii_lowercase(trim_ws(#[trigger] pv[j])).len() > 0
                    && ascii_lowercase(trim_ws(pv[j])) == name@),
        decreases parts.len() - i,
    {
        let t = ascii_lower_vec(&trimmed(&parts[i], CharClass::Whitespace));
        assert(pv[i as int] == parts@[i as int]@);
        if t.len() > 0 && eq_chars(&t, name) {
            return true;
        }
        i = i + 1;
    }
    false
}

/// Whether a `Host` header may be reflected into a device's URL (see
/// `host_trusted`).
pub fn host_is_trusted(
    host: &str,
    bind: &str,
    magic_dns: Option<&str>,
    ip_blocked: Option<bool>,
    allowlist: Option<&str>,
) -> (r: bool)
    ensures
        r == host_trusted(
            host@,
            bind@,
            match magic_dns {
                Some(d) => Some(d@),
                None => None,
            },
            ip_blocked,
            match allowlist {
                Some(a) => Some(a@),
                None => None,
            },
        ),
{
    match ip_blocked {
        Some(b) => return b,
        None => {},
    }
    let name = ascii_lower_vec(&before_last_colon_vec(&chars_of(host)));
    if eq_chars(&name, &chars_of("localhost")) {
        return true;
    }
    let bind_name = ascii_lower_vec(&before_last_colon_vec(&chars_of(bind)));
    if eq_chars(&name, &bind_name) {
        return true;
    }
    match magic_dns {
        Some(d) => {
            if eq_chars(&ascii_lower_vec(&chars_of(d)), &name) {
                return true;
            }
        },
        None => {},
    }
    match allowlist {
        Some(a) => allowlist_contains(a, &name),
        None => false,
    }
}

/// The URL a freshly paired device dials. An operator override (non-blank) wins;
/// then the `Host` the app reached the node on, only when trusted; then the mesh
/// name (secure, port 7980); then the bound address.
pub open spec fn node_url(
    explicit: Option<Seq<char>>,
    bind: Seq<char>,
    magic_dns: Option<Seq<char>>,
    host: Option<Seq<char>>,
    host_ip_blocked: Option<bool>,
    allowlist: Option<Seq<char>>,
) -> Seq<char> {
    let dns = match magic_dns {
        Some(d) => if d.len() > 0 {
            Some(d)
        } else {
            None
        },
        None => None,
    };
    if explicit is Some && trim_ws(explicit->0).len() > 0 {
        explicit->0
    } else if host is Some && host->0.len() > 0 && host_trusted(
        host->0,
        bind,
        dns,
        host_ip_blocked,
        allowlist,
    ) {
        scheme_of(host->0) + "://"@ + host->0 + "/api/hardware/ws"@
    } else if dns is Some {
        "wss://"@ + dns->0 + ":7980/api/hardware/ws"@
    } else {
        scheme_of(bind) + "://"@ + bind + "/api/hardware/ws"@
    }
}

pub open spec fn scheme_of(host: Seq<char>) -> Seq<char> {
    if is_loopback_host(host) {
        "ws"@
    } else {
        "wss"@
    }
}

pub open spec fn opt(o: Option<&str>) -> Option<Seq<char>> {
    match o {
        Some(s) => Some(s@),
        None => None,
    }
}

/// Resolve the URL a freshly paired device dials (see `node_url`).
/// `host_ip_blocked` classifies the `Host` when it is an IP literal.
pub fn resolve_node_url(
    explicit: Option<&str>,
    bind: &str,
    magic_dns: Option<&str>,
    host: Option<&str>,
    host_ip_blocked: Option<bool>,
    allowlist: Option<&str>,
) -> (r: String)
    ensures
        r@ == node_url(opt(explicit), bind@, opt(magic_dns), opt(host), host_ip_blocked, opt(allowlist)),
{
    match explicit {
        Some(e) => {
            if trimmed(&chars_of(e), CharClass::Whitespace).len() > 0 {
                return e.to_owned();
            }
        },
        None => {},
    }
    let dns: Option<&str> = match magic_dns {
        Some(d) => if d.unicode_len() > 0 {
            Some(d)
        } else {
            None
        },
        None => None,
    };
    match host {
        Some(h) => {
            if h.unicode_len() > 0 && host_is_trusted(h, bind, dns, host_ip_blocked, allowlist) {
                let mut v = chars_of(ws_scheme(h));
                append_chars(&mut v, &chars_of("://"));
                append_chars(&mut v, &chars_of(h));
                append_chars(&mut v, &chars_of("/api/hardware/ws"));
                return string_of(&v);
            }
        },
        None => {},
    }
    match dns {
        Some(d) => {
            let mut v = chars_of("wss://");
            append_chars(&mut v, &chars_of(d));
            append_chars(&mut v, &chars_of(":7980/api/hardware/ws"));
            string_of(&v)
        },
        None => {
            let mut v = chars_of(ws_scheme(bind));
            append_chars(&mut v, &chars_of("://"));
            append_chars(&mut v, &chars_of(bind));
            append_chars(&mut v, &chars_of("/api/hardware/ws"));
            string_of(&v)
        },
    }
}

/// An untrusted `Host` is never reflected: the URL is then exactly the one the
/// node would give with no `Host` at all.
pub proof fn lemma_untrusted_host_not_reflected(
    explicit: Option<Seq<char>>,
    bind: Seq<char>,
    magic_dns: Option<Seq<char>>,
    host: Seq<char>,
    host_ip_blocked: Option<bool>,
    allowlist: Option<Seq<char>>,
)
    requires
        !host_trusted(
            host,
            bind,
            match magic_dns {
                Some(d) => if d.len() > 0 {
                    Some(d)
                } else {
                    None
                },
                None => None,
            },
            host_ip_blocked,
            allowlist,
        ),
    ensures
        node_url(explicit, bind, magic_dns, Some(host), host_ip_blocked, allowlist) == node_url(
            explicit,
            bind,
            magic_dns,
            None,
            host_ip_blocked,
            allowlist,
        ),
{
}

// ── Presence, display polling, tokens ────────────────────────────────────────

/// A device seen within this window (ms) counts as online.
pub const ONLINE_WINDOW_MS: i64 = 90000;

/// The floor of a display's poll interval (s).
pub const MIN_REFRESH_RATE: u32 = 30;

/// A display's poll interval (s) when none is set.
pub const DEFAULT_REFRESH_RATE: u32 = 300;

/// Whether a device last seen at `last_seen` counts as online at `now`.
pub fn is_online(last_seen: Option<i64>, now: i64) -> (r: bool)
    requires
        last_seen matches Some(ts) ==> i64::MIN <= now - ts <= i64::MAX,
    ensures
        r == (last_seen matches Some(ts) && now - ts <= ONLINE_WINDOW_MS),
{
    match last_seen {
        Some(ts) => now - ts <= ONLINE_WINDOW_MS,
        None => false,
    }
}

/// Seen within the online window before `now`.
pub open spec fn online_at(last_seen: Option<i64>, now: i64) -> bool {
    last_seen matches Some(ts) && now - ts <= ONLINE_WINDOW_MS
}

/// Whether a device last seen at `last_seen` counts as online now, by the
/// node's clock; `None` when the clock reading and `last_seen` are too far apart
/// for their difference to fit an `i64`.
pub fn device_online(last_seen: Option<i64>) -> (r: Option<bool>)
    ensures
        last_seen is None ==> r == Some(false),
        r matches Some(b) ==> exists|now: i64| b == #[trigger] online_at(last_seen, now),
{
    let now = crate::ids::now_millis();
    match last_seen {
        Some(ts) => {
            if (ts >= 0 && now < i64::MIN + ts) || (ts < 0 && now > i64::MAX + ts) {
                None
            } else {
                let b = is_online(last_seen, now);
                assert(b == online_at(last_seen, now));
                Some(b)
            }
        },
        None => {
            assert(!online_at(last_seen, now));
            Some(false)
        },
    }
}

/// A requested poll interval, floored at 30 s so a device cannot hammer the node.
pub fn device_refresh_rate(requested: u32) -> (r: u32)
    ensures
        r == if requested < MIN_REFRESH_RATE {
            MIN_REFRESH_RATE
        } else {
            requested
        },
{
    if requested < MIN_REFRESH_RATE {
        MIN_REFRESH_RATE
    } else {
        requested
    }
}

/// Where a device fetches its rendered display for revision `rev`.
pub fn display_image_url(device_id: &str, rev: &str) -> (r: String)
    ensures
        r@ == "/api/hardware/display/"@ + device_id@ + "/image?rev="@ + rev@,
{
    let mut v = chars_of("/api/hardware/display/");
    append_chars(&mut v, &chars_of(device_id));
    append_chars(&mut v, &chars_of("/image?rev="));
    append_chars(&mut v, &chars_of(rev));
    string_of(&v)
}

/// Query of the display image endpoint: the revision the device already holds.
pub struct ImageQuery {
    pub rev: Option<String>,
}

/// An unchanged image is answered `304 Not Modified`.
pub fn image_not_modified(held: Option<&str>, rev: &str) -> (r: bool)
    ensures
        r == (held matches Some(h) && h@ == rev@),
{
    match held {
        Some(h) => eq_chars(&chars_of(h), &chars_of(rev)),
        None => false,
    }
}

/// The token of an `Authorization: Bearer …` header.
pub fn bearer_token(authorization: Option<&str>) -> (r: Option<String>)
    ensures
        match authorization {
            Some(a) => if starts_with(a@, "Bearer "@) {
                (r matches Some(t) && t@ == a@.skip(7))
            } else {
                r is None
            },
            None => r is None,
        },
{
    match authorization {
        Some(a) => {
            let v = chars_of(a);
            let p = chars_of("Bearer ");
            proof {
                reveal_strlit("Bearer ");
            }
            if starts_with_chars(&v, &p) {
                Some(string_of(&slice_vec(&v, 7, v.len())))
            } else {
                None
            }
        },
        None => None,
    }
}

/// A management caller presenting the node's own shared token (when one is set)
/// passes the device-token check.
pub fn shared_token_matches(token: &str, shared: Option<&str>) -> (r: bool)
    ensures
        r == (shared matches Some(s) && s@.len() > 0 && s@ == token@),
{
    match shared {
        Some(s) => {
            let sv = chars_of(s);
            sv.len() > 0 && eq_chars(&sv, &chars_of(token))
        },
        None => false,
    }
}

/// A device connection is admitted only when the device is paired and presents a
/// token that matches its own.
pub fn device_admitted(registered: bool, bearer_present: bool, token_ok: bool) -> (r: bool)
    ensures
        r == (registered && bearer_present && token_ok),
{
    registered && bearer_present && token_ok
}

// ── The realtime link ────────────────────────────────────────────────────────

/// What arrives before the `hello` handshake completes.
pub enum HandshakeFrame {
    /// A text frame that parses as `hello`.
    Hello,
    /// A text frame that parses as another message.
    OtherMessage,
    /// A text frame that does not parse; holds the parser's message.
    Malformed(String),
    /// The peer closed or the stream ended.
    Closed,
    /// A ping, pong or binary frame.
    Ignored,
    /// The transport failed.
    Failed,
}

/// What the handshake does with a frame.
pub enum HandshakeStep {
    /// Keep waiting for `hello`.
    Wait,
    /// The handshake is done.
    Accept,
    /// Send this error (code, message) and drop the connection.
    Refuse(String, String),
    /// Drop the connection silently.
    Drop,
}

/// The handshake: the first meaningful frame must be `hello`.
pub fn handshake_step(frame: &HandshakeFrame) -> (r: HandshakeStep)
    ensures
        match *frame {
            HandshakeFrame::Hello => r is Accept,
            HandshakeFrame::OtherMessage => (r matches HandshakeStep::Refuse(c, m) && c@
                == "expected_hello"@ && m@ == "first frame must be `hello`"@),
            HandshakeFrame::Malformed(e) => (r matches HandshakeStep::Refuse(c, m) && c@
                == "bad_json"@ && m@ == "malformed hello: "@ + e@),
            HandshakeFrame::Closed => r is Drop,
            HandshakeFrame::Ignored => r is Wait,
            HandshakeFrame::Failed => r is Drop,
        },
{
    match frame {
        HandshakeFrame::Hello => HandshakeStep::Accept,
        HandshakeFrame::OtherMessage => HandshakeStep::Refuse(
            "expected_hello".to_owned(),
            "first frame must be `hello`".to_owned(),
        ),
        HandshakeFrame::Malformed(e) => {
            let mut v = chars_of("malformed hello: ");
            append_chars(&mut v, &chars_of(e.as_str()));
            HandshakeStep::Refuse("bad_json".to_owned(), string_of(&v))
        },
        HandshakeFrame::Closed => HandshakeStep::Drop,
        HandshakeFrame::Ignored => HandshakeStep::Wait,
        HandshakeFrame::Failed => HandshakeStep::Drop,
    }
}

/// The frame a handshake ends on: the first frame received that is not a ping,
/// pong or binary frame (`None` while only those came).
pub open spec fn handshake_end(frames: Seq<HandshakeFrame>) -> Option<HandshakeFrame>
    decreases frames.len(),
{
    if frames.len() == 0 {
        None
    } else if frames[0] is Ignored {
        handshake_end(frames.drop_first())
    } else {
        Some(frames[0])
    }
}

/// A link is acknowledged when its handshake ends on `hello` and the device is
/// then admitted (see `device_admitted`).
pub open spec fn acknowledged(frames: Seq<HandshakeFrame>, admitted: bool) -> bool {
    handshake_end(frames) matches Some(f) && f is Hello && admitted
}

/// The refusal sent to a device that said `hello` but is not admitted; `None`
/// when it is admitted and the link goes on to its acknowledgement.
pub fn admission_refusal(admitted: bool) -> (r: Option<(String, String)>)
    ensures
        r is None <==> admitted,
        r matches Some(e) ==> e.0@ == "unauthorized"@ && e.1@
            == "unknown or unauthenticated device; pair first via POST /api/hardware/pair"@,
{
    if admitted {
        None
    } else {
        Some(
            (
                "unauthorized".to_owned(),
                "unknown or unauthenticated device; pair first via POST /api/hardware/pair".to_owned(),
            ),
        )
    }
}

/// A `HelloAck` only follows `hello` and admission: when a link is acknowledged
/// the device is admitted and some frame was `hello` with only pings, pongs and
/// binary frames before it.
pub proof fn lemma_ack_only_after_hello_and_admission(frames: Seq<HandshakeFrame>, admitted: bool)
    requires
        acknowledged(frames, admitted),
    ensures
        admitted,
        exists|i: int|
            0 <= i < frames.len() && (#[trigger] frames[i]) is Hello && forall|j: int|
                0 <= j < i ==> frames[j] is Ignored,
    decreases frames.len(),
{
    if frames[0] is Ignored {
        let rest = frames.drop_first();
        lemma_ack_only_after_hello_and_admission(rest, admitted);
        let i = choose|i: int|
            0 <= i < rest.len() && (#[trigger] rest[i]) is Hello && forall|j: int|
                0 <= j < i ==> rest[j] is Ignored;
        assert(frames[i + 1] == rest[i]);
        assert forall|j: int| 0 <= j < i + 1 implies frames[j] is Ignored by {
            if j > 0 {
                assert(frames[j] == rest[j - 1]);
            }
        }
    } else {
        assert(frames[0] is Hello);
    }
}

/// The acknowledgement of a device's `hello`: a fresh `hwses_` session id, and
/// the ambient meeting it was attached to, if any.
pub struct HelloAck {
    pub session_id: String,
    pub ambient_session_id: Option<String>,
}

/// Acknowledge a handshake (see `HelloAck`).
pub fn hello_ack(ambient_session_id: Option<String>) -> (r: HelloAck)
    ensures
        r.session_id@.take(6) == "hwses_"@,
        crate::ids::is_simple_uuid(r.session_id@.skip(6)),
        r.ambient_session_id == ambient_session_id,
{
    let session_id = crate::ids::fresh_prefixed_id("hwses_");
    proof {
        reveal_strlit("hwses_");
    }
    HelloAck { session_id, ambient_session_id }
}

// ── Display panels ───────────────────────────────────────────────────────────

/// A device's class.
#[derive(Clone, Copy, Debug, PartialEq, Eq, Structural)]
pub enum DeviceClass {
    Desk,
    Watch,
    Necklace,
}

/// The class default panels.
#[derive(Clone, Copy, Debug, PartialEq, Eq, Structural)]
pub enum DefaultPanel {
    /// The desk's e-ink panel.
    DeskEink,
    /// The watch's colour LCD.
    WatchLcd,
}

/// The default panel of a class: the watch's LCD for a watch, the desk e-ink
/// otherwise (a necklace has no display, but a poll still renders something
/// deterministic).
pub fn default_panel(class: DeviceClass) -> (r: DefaultPanel)
    ensures
        r == if class == DeviceClass::Watch {
            DefaultPanel::WatchLcd
        } else {
            DefaultPanel::DeskEink
        },
{
    match class {
        DeviceClass::Desk => DefaultPanel::DeskEink,
        DeviceClass::Watch => DefaultPanel::WatchLcd,
        DeviceClass::Necklace => DefaultPanel::DeskEink,
    }
}

/// A panel's pixel format.
#[derive(Clone, Copy, Debug, PartialEq, Eq, Structural)]
pub enum Palette {
    Mono,
    Rgb565,
    Rgba,
}

/// The geometry and encoding a display renders at.
#[derive(Clone, Copy, Debug, PartialEq, Eq, Structural)]
pub struct ScreenProfile {
    pub w: u32,
    pub h: u32,
    pub bit_depth: u8,
    pub rotation: u16,
    pub palette: Palette,
}

/// The `screen` preferences saved for a device, each optional.
pub struct ScreenPrefs {
    pub w: Option<u64>,
    pub h: Option<u64>,
    pub bit_depth: Option<u64>,
    pub rotation: Option<u64>,
    pub palette: Option<String>,
}

/// A palette name: `rgb565`, `rgba`, and anything else is mono.
pub open spec fn palette_named(name: Seq<char>) -> Palette {
    if name == "rgb565"@ {
        Palette::Rgb565
    } else if name == "rgba"@ {
        Palette::Rgba
    } else {
        Palette::Mono
    }
}

/// The class default with each saved screen preference applied over it (the
/// numbers cut to the field's width).
pub open spec fn profile_with(default: ScreenProfile, prefs: Option<ScreenPrefs>) -> ScreenProfile {
    match prefs {
        None => default,
        Some(p) => ScreenProfile {
            w: match p.w {
                Some(w) => w as u32,
                None => default.w,
            },
            h: match p.h {
                Some(h) => h as u32,
                None => default.h,
            },
            bit_depth: match p.bit_depth {
                Some(b) => b as u8,
                None => default.bit_depth,
            },
            rotation: match p.rotation {
                Some(r) => r as u16,
                None => default.rotation,
            },
            palette: match p.palette {
                Some(n) => palette_named(n@),
                None => default.palette,
            },
        },
    }
}

/// Resolve a device's display profile: its class default, with the saved
/// `screen` preferences overriding any field (see `profile_with`).
pub fn profile_for_device(default: ScreenProfile, prefs: &Option<ScreenPrefs>) -> (r: ScreenProfile)
    ensures
        r == profile_with(default, *prefs),
{
    let mut profile = default;
    if let Some(p) = prefs {
        if let Some(w) = p.w {
            profile.w = w as u32;
        }
        if let Some(h) = p.h {
            profile.h = h as u32;
        }
        if let Some(b) = p.bit_depth {
            profile.bit_depth = b as u8;
        }
        if let Some(rot) = p.rotation {
            profile.rotation = rot as u16;
        }
        if let Some(name) = &p.palette {
            proof {
                reveal_strlit("rgb565");
                reveal_strlit("rgba");
            }
            let v = chars_of(name.as_str());
            profile.palette = if eq_chars(&v, &chars_of("rgb565")) {
                Palette::Rgb565
            } else if eq_chars(&v, &chars_of("rgba")) {
                Palette::Rgba
            } else {
                Palette::Mono
            };
        }
    }
    profile
}

/// The panel a `display` re-poll nudge names: the LCD for a watch, the e-ink
/// otherwise.
pub fn nudge_surface_is_lcd(class: DeviceClass) -> (r: bool)
    ensures
        r == (class == DeviceClass::Watch),
{
    class == DeviceClass::Watch
}

/// A device's binding to the dashboard its display shows.
pub struct DeviceDashboard {
    pub device_id: String,
    pub dashboard_id: String,
    /// The poll interval (s).
    pub refresh_rate: u32,
    pub created_at: String,
    pub updated_at: String,
}

/// The binding a device without a usable one gets: a new empty dashboard named
/// after the device (`{name} display`, fresh `dash_` id) and a binding to it at
/// the default poll interval, all stamped now.
pub fn new_device_dashboard(device_id: &str, device_name: &str) -> (r: (
    crate::dashboards::Dashboard,
    DeviceDashboard,
))
    ensures
        r.0.id@.take(5) == "dash_"@,
        crate::ids::is_simple_uuid(r.0.id@.skip(5)),
        r.0.name@ == device_name@ + " display"@,
        r.0.created_at@ == r.0.updated_at@,
        r.1.device_id@ == device_id@,
        r.1.dashboard_id@ == r.0.id@,
        r.1.refresh_rate == DEFAULT_REFRESH_RATE,
        r.1.created_at@ == r.0.created_at@,
        r.1.updated_at@ == r.0.created_at@,
{
    let id = crate::ids::fresh_prefixed_id("dash_");
    proof {
        reveal_strlit("dash_");
    }
    let now = crate::ids::now_rfc3339();
    let dashboard = crate::dashboards::Dashboard {
        id: id.clone(),
        name: crate::ids::prefixed(device_name, " display"),
        created_at: now.clone(),
        updated_at: now.clone(),
    };
    let binding = DeviceDashboard {
        device_id: device_id.to_owned(),
        dashboard_id: id,
        refresh_rate: DEFAULT_REFRESH_RATE,
        created_at: now.clone(),
        updated_at: now,
    };
    (dashboard, binding)
}

/// Whether a stored binding is kept: only while the dashboard it names still
/// exists (one deleted from under it is recreated).
pub fn keeps_binding(binding_present: bool, bound_dashboard_exists: bool) -> (r: bool)
    ensures
        r == (binding_present && bound_dashboard_exists),
{
    binding_present && bound_dashboard_exists
}

/// A binding after `PUT /api/hardware/devices/:id/dashboard` carried
/// `refresh_rate`: the rate floored at `MIN_REFRESH_RATE`, stamped `now`.
pub fn set_refresh_rate(binding: &mut DeviceDashboard, rate: u32, now: String)
    ensures
        final(binding).refresh_rate == if rate < MIN_REFRESH_RATE {
            MIN_REFRESH_RATE
        } else {
            rate
        },
        final(binding).updated_at@ == now@,
        final(binding).device_id@ == old(binding).device_id@,
        final(binding).dashboard_id@ == old(binding).dashboard_id@,
        final(binding).created_at@ == old(binding).created_at@,
{
    binding.refresh_rate = device_refresh_rate(rate);
    binding.updated_at = now;
}

/// Whether the ambient meeting is opened for a device: its class is
/// ambient-capable and it has a microphone.
pub fn ambient_capable(class_ambient: bool, has_mic: bool) -> (r: bool)
    ensures
        r == (class_ambient && has_mic),
{
    class_ambient && has_mic
}

/// The barge-in state of a device link: whether queued speech is being dropped,
/// and whether a chat turn is in flight.
pub struct LinkState {
    pub abort: bool,
    pub turn_running: bool,
}

/// What happens on a device link.
#[derive(Clone, Copy, Debug, PartialEq, Eq, Structural)]
pub enum LinkEvent {
    /// The device barged in (`abort`).
    Abort,
    /// The user started talking (`listen:start`).
    ListenStart,
    /// A new chat turn starts (after the previous one is drained).
    StartTurn,
    /// The in-flight turn finished.
    TurnDone,
    /// The connection is torn down.
    Close,
}

/// The link after an event. A barge-in or a close sets the abort flag; a new turn
/// clears it once the previous turn is drained, so a fresh turn's speech is never
/// dropped by a stale abort; `listen:start` leaves it alone, so talking over the
/// assistant does not un-abort the turn being interrupted.
pub open spec fn link_after(s: LinkState, e: LinkEvent) -> LinkState {
    match e {
        LinkEvent::Abort => LinkState { abort: true, ..s },
        LinkEvent::ListenStart => s,
        LinkEvent::StartTurn => LinkState { abort: false, turn_running: true },
        LinkEvent::TurnDone => LinkState { turn_running: false, ..s },
        LinkEvent::Close => LinkState { abort: true, turn_running: false },
    }
}

impl LinkState {
    /// A new link: nothing aborted, no turn.
    pub fn new() -> (r: LinkState)
        ensures
            !r.abort,
            !r.turn_running,
    {
        LinkState { abort: false, turn_running: false }
    }

    /// Apply an event (see `link_after`).
    pub fn on_event(&mut self, e: LinkEvent)
        ensures
            *final(self) == link_after(*old(self), e),
    {
        match e {
            LinkEvent::Abort => {
                self.abort = true;
            },
            LinkEvent::ListenStart => {},
            LinkEvent::StartTurn => {
                self.abort = false;
                self.turn_running = true;
            },
            LinkEvent::TurnDone => {
                self.turn_running = false;
            },
            LinkEvent::Close => {
                self.abort = true;
                self.turn_running = false;
            },
        }
    }

    /// Whether a queued audio frame is sent (it is dropped while aborting).
    pub fn sends_audio(&self) -> (r: bool)
        ensures
            r == !self.abort,
    {
        !self.abort
    }
}

/// The link after a series of events.
pub open spec fn link_after_all(s: LinkState, es: Seq<LinkEvent>) -> LinkState
    decreases es.len(),
{
    if es.len() == 0 {
        s
    } else {
        link_after_all(link_after(s, es[0]), es.drop_first())
    }
}

/// Speech flows again exactly from the next turn: after a new turn, whatever
/// `listen:start` and turn completions follow, audio is sent; after a barge-in,
/// whatever `listen:start` and turn completions follow, audio is dropped.
pub proof fn lemma_barge_in(s: LinkState, es: Seq<LinkEvent>)
    requires
        forall|i: int| 0 <= i < es.len() ==> (#[trigger] es[i] == LinkEvent::ListenStart || es[i]
            == LinkEvent::TurnDone),
    ensures
        !link_after_all(link_after(s, LinkEvent::StartTurn), es).abort,
        link_after_all(link_after(s, LinkEvent::Abort), es).abort,
    decreases es.len(),
{
    if es.len() > 0 {
        let rest = es.drop_first();
        assert forall|i: int| 0 <= i < rest.len() implies (#[trigger] rest[i] == LinkEvent::ListenStart
            || rest[i] == LinkEvent::TurnDone) by {
            assert(rest[i] == es[i + 1]);
        }
        assert(es[0] == LinkEvent::ListenStart || es[0] == LinkEvent::TurnDone);
        let a = link_after(link_after(s, LinkEvent::StartTurn), es[0]);
        let b = link_after(link_after(s, LinkEvent::Abort), es[0]);
        lemma_barge_in_keeps(a, rest);
        lemma_barge_in_keeps(b, rest);
    }
}

proof fn lemma_barge_in_keeps(s: LinkState, es: Seq<LinkEvent>)
    requires
        forall|i: int| 0 <= i < es.len() ==> (#[trigger] es[i] == LinkEvent::ListenStart || es[i]
            == LinkEvent::TurnDone),
    ensures
        link_after_all(s, es).abort == s.abort,
    decreases es.len(),
{
    if es.len() > 0 {
        let rest = es.drop_first();
        assert forall|i: int| 0 <= i < rest.len() implies (#[trigger] rest[i] == LinkEvent::ListenStart
            || rest[i] == LinkEvent::TurnDone) by {
            assert(rest[i] == es[i + 1]);
        }
        assert(es[0] == LinkEvent::ListenStart || es[0] == LinkEvent::TurnDone);
        lemma_barge_in_keeps(link_after(s, es[0]), rest);
    }
}

} // verus!
