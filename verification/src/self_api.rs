//! Core's own HTTP endpoints offered to agents as tools: which routes may never be
//! exposed, how a route becomes a tool id, and how a tool call resolves to a path.
use vstd::prelude::*;
use crate::text::{
    CharClass, ascii_lower, chars_of, contains, contains_chars, eq_chars, eq_ignore_ascii_case,
    eq_ignore_ascii_case_vec, has_char, index_of_char_from, is_ascii_alnum, is_control,
    char_index_from, char_is_ascii_alnum, char_is_control, lemma_index_of_char_from, slice_vec,
    starts_with, starts_with_chars, string_of, trim, trimmed, append_chars, replace_all,
    replace_all_chars, trim_end, trimmed_end, strs, lead_from, trail_from, lemma_lead_from_bounds,
    lemma_trail_from_bounds,
};

verus! {

/// `serde_json::Value`, carried through as a loopback reply's parsed body.
#[verifier::external_type_specification]
#[verifier::external_body]
pub struct ExJsonValue(serde_json::Value);


// ── Denylist ─────────────────────────────────────────────────────────────────

/// Paths refused for every verb.
pub open spec fn denied_exact(path: Seq<char>) -> bool {
    path == "/api/openapi.json"@ || path == "/api/mcp/tools/call"@
}

/// Path prefixes refused for every verb: auth, the credential vault, the
/// capability broker, and the tool routes themselves.
pub open spec fn denied_prefix(path: Seq<char>) -> bool {
    ||| starts_with(path, "/api/auth/"@)
    ||| starts_with(path, "/api/identity/"@)
    ||| starts_with(path, "/api/host/"@)
    ||| starts_with(path, "/api/tools/"@)
}

/// WebSocket and server-sent-event routes (never request/response tools).
pub open spec fn denied_streaming(path: Seq<char>) -> bool {
    ||| contains(path, "/ws"@)
    ||| contains(path, "_ws"@)
    ||| contains(path, "stream"@)
    ||| contains(path, "/events"@)
}

/// Whether `(path, method)` must never be offered as a tool: a denied exact path,
/// prefix or streaming route for any verb, and any non-GET verb under
/// `/api/approvals/` (an agent must not approve its own approvals).
pub open spec fn denied(path: Seq<char>, method: Seq<char>) -> bool {
    ||| denied_exact(path)
    ||| denied_prefix(path)
    ||| denied_streaming(path)
    ||| (starts_with(path, "/api/approvals/"@) && !eq_ignore_ascii_case(method, "get"@))
}

/// Whether `(path, method)` must be excluded from the tool catalog.
pub fn is_denied(path: &str, method: &str) -> (r: bool)
    ensures
        r == denied(path@, method@),
{
    let p = chars_of(path);
    let m = chars_of(method);
    if eq_chars(&p, &chars_of("/api/openapi.json")) || eq_chars(&p, &chars_of("/api/mcp/tools/call")) {
        return true;
    }
    if starts_with_chars(&p, &chars_of("/api/auth/")) || starts_with_chars(&p, &chars_of("/api/identity/"))
        || starts_with_chars(&p, &chars_of("/api/host/")) || starts_with_chars(&p, &chars_of("/api/tools/")) {
        return true;
    }
    if contains_chars(&p, &chars_of("/ws")) || contains_chars(&p, &chars_of("_ws"))
        || contains_chars(&p, &chars_of("stream")) || contains_chars(&p, &chars_of("/events")) {
        return true;
    }
    if starts_with_chars(&p, &chars_of("/api/approvals/")) && !eq_ignore_ascii_case_vec(&m, &chars_of("get")) {
        return true;
    }
    false
}


// ── Tool ids ─────────────────────────────────────────────────────────────────

/// `char::to_ascii_lowercase`.
pub open spec fn lower_ascii_char(c: char) -> char {
    if 'A' <= c && c <= 'Z' {
        ((c as u32) + 32) as char
    } else {
        c
    }
}

pub fn to_ascii_lower_char(c: char) -> (r: char)
    ensures
        r == lower_ascii_char(c),
{
    if 'A' <= c && c <= 'Z' {
        ((c as u8) + 32) as char
    } else {
        c
    }
}

/// The slug of `s.skip(i)` before edge trimming: ASCII alphanumerics lowercased,
/// every run of other characters turned into one `_`.
pub open spec fn slug_from(s: Seq<char>, i: int, prev_us: bool) -> Seq<char>
    decreases s.len() - i,
{
    if i < 0 || i >= s.len() {
        seq![]
    } else if is_ascii_alnum(s[i]) {
        seq![lower_ascii_char(s[i])] + slug_from(s, i + 1, false)
    } else if !prev_us {
        seq!['_'] + slug_from(s, i + 1, true)
    } else {
        slug_from(s, i + 1, true)
    }
}

/// The id tail of an OpenAPI path: `/api/quests/{id}` → `api_quests_id`.
pub open spec fn slug_of(path: Seq<char>) -> Seq<char> {
    trim(slug_from(path, 0, false), CharClass::Underscore)
}

/// A slug character: a lowercase ASCII letter, an ASCII digit or `_`.
pub open spec fn slug_char(c: char) -> bool {
    ('a' <= c && c <= 'z') || ('0' <= c && c <= '9') || c == '_'
}

/// `t` holds `__` at `i`.
pub open spec fn double_underscore_at(t: Seq<char>, i: int) -> bool {
    t[i] == '_' && t[i + 1] == '_'
}

/// A well-formed slug: slug characters only, no `_` at either end, no `__`.
pub open spec fn slug_shaped(t: Seq<char>) -> bool {
    &&& forall|i: int| 0 <= i < t.len() ==> slug_char(#[trigger] t[i])
    &&& t.len() > 0 ==> t[0] != '_' && t[t.len() - 1] != '_'
    &&& forall|i: int| 0 <= i < t.len() - 1 ==> !#[trigger] double_underscore_at(t, i)
}

proof fn lemma_slug_from_shape(s: Seq<char>, i: int, prev_us: bool)
    ensures
        forall|j: int|
            0 <= j < slug_from(s, i, prev_us).len() ==> slug_char(#[trigger] slug_from(s, i, prev_us)[j]),
        forall|j: int|
            0 <= j < slug_from(s, i, prev_us).len() - 1 ==> !#[trigger] double_underscore_at(
                slug_from(s, i, prev_us),
                j,
            ),
        prev_us && slug_from(s, i, prev_us).len() > 0 ==> slug_from(s, i, prev_us)[0] != '_',
    decreases s.len() - i,
{
    if 0 <= i < s.len() {
        let r = slug_from(s, i, prev_us);
        if is_ascii_alnum(s[i]) {
            lemma_slug_from_shape(s, i + 1, false);
            let rest = slug_from(s, i + 1, false);
            let c = lower_ascii_char(s[i]);
            assert(slug_char(c) && c != '_');
            assert(r == seq![c] + rest);
            assert forall|j: int| 0 <= j < r.len() implies slug_char(#[trigger] r[j]) by {
                if j > 0 {
                    assert(r[j] == rest[j - 1]);
                }
            }
            assert forall|j: int| 0 <= j < r.len() - 1 implies !#[trigger] double_underscore_at(r, j) by {
                if j > 0 {
                    assert(r[j] == rest[j - 1] && r[j + 1] == rest[j]);
                    assert(!double_underscore_at(rest, j - 1));
                }
            }
        } else if !prev_us {
            lemma_slug_from_shape(s, i + 1, true);
            let rest = slug_from(s, i + 1, true);
            assert(r == seq!['_'] + rest);
            assert forall|j: int| 0 <= j < r.len() implies slug_char(#[trigger] r[j]) by {
                if j > 0 {
                    assert(r[j] == rest[j - 1]);
                }
            }
            assert forall|j: int| 0 <= j < r.len() - 1 implies !#[trigger] double_underscore_at(r, j) by {
                if j > 0 {
                    assert(r[j] == rest[j - 1] && r[j + 1] == rest[j]);
                    assert(!double_underscore_at(rest, j - 1));
                } else {
                    assert(r[1] == rest[0]);
                }
            }
        } else {
            lemma_slug_from_shape(s, i + 1, true);
        }
    }
}

proof fn lemma_slug_from_of_shaped(t: Seq<char>, i: int)
    requires
        slug_shaped(t),
        0 <= i <= t.len(),
    ensures
        slug_from(t, i, i > 0 && t[i - 1] == '_') == t.skip(i),
    decreases t.len() - i,
{
    if i < t.len() {
        lemma_slug_from_of_shaped(t, i + 1);
        assert(slug_char(t[i]));
        if t[i] == '_' {
            if i > 0 {
                assert(!double_underscore_at(t, i - 1));
            }
        } else {
            assert(lower_ascii_char(t[i]) == t[i]);
        }
        assert(t.skip(i) =~= seq![t[i]] + t.skip(i + 1));
    } else {
        assert(t.skip(i) =~= Seq::<char>::empty());
    }
}

/// The laws of a slug: it is made of lowercase ASCII letters, digits and `_`, has
/// no `_` at either end and no `__`, and slugging a slug gives it back.
pub proof fn lemma_slug_laws(path: Seq<char>)
    ensures
        slug_shaped(slug_of(path)),
        slug_of(slug_of(path)) == slug_of(path),
{
    let r = slug_from(path, 0, false);
    lemma_slug_from_shape(path, 0, false);
    let k = CharClass::Underscore;
    lemma_lead_from_bounds(r, k, 0);
    let a = lead_from(r, k, 0);
    let x = r.skip(a);
    lemma_trail_from_bounds(x, k, x.len() as int);
    let b = trail_from(x, k, x.len() as int);
    let t = slug_of(path);
    assert(t == x.take(b));
    assert forall|i: int| 0 <= i < t.len() implies slug_char(#[trigger] t[i]) by {
        assert(t[i] == r[a + i]);
    }
    assert forall|i: int| 0 <= i < t.len() - 1 implies !#[trigger] double_underscore_at(t, i) by {
        assert(t[i] == r[a + i] && t[i + 1] == r[a + i + 1]);
        assert(!double_underscore_at(r, a + i));
    }
    if t.len() > 0 {
        assert(t[0] == r[a]);
        assert(t[t.len() - 1] == x[b - 1]);
    }
    assert(slug_shaped(t));
    lemma_slug_from_of_shaped(t, 0);
    assert(t.skip(0) =~= t);
    lemma_lead_from_bounds(t, k, 0);
    assert(lead_from(t, k, 0) == 0);
    assert(t.skip(0) =~= t);
    lemma_trail_from_bounds(t, k, t.len() as int);
    assert(trail_from(t, k, t.len() as int) == t.len());
    assert(t.take(t.len() as int) =~= t);
}

/// The ASCII alphanumerics of `s`, lowercased, in order.
pub open spec fn lowered_alnums(s: Seq<char>) -> Seq<char>
    decreases s.len(),
{
    if s.len() == 0 {
        seq![]
    } else if is_ascii_alnum(s[0]) {
        seq![lower_ascii_char(s[0])] + lowered_alnums(s.drop_first())
    } else {
        lowered_alnums(s.drop_first())
    }
}

proof fn lemma_lowered_alnums_concat(a: Seq<char>, b: Seq<char>)
    ensures
        lowered_alnums(a + b) == lowered_alnums(a) + lowered_alnums(b),
    decreases a.len(),
{
    if a.len() == 0 {
        assert(a + b =~= b);
    } else {
        assert((a + b).drop_first() =~= a.drop_first() + b);
        lemma_lowered_alnums_concat(a.drop_first(), b);
        assert((a + b)[0] == a[0]);
    }
}

proof fn lemma_lowered_alnums_of_underscores(a: Seq<char>)
    requires
        forall|k: int| 0 <= k < a.len() ==> #[trigger] a[k] == '_',
    ensures
        lowered_alnums(a) == Seq::<char>::empty(),
    decreases a.len(),
{
    if a.len() > 0 {
        assert(a[0] == '_');
        assert forall|k: int| 0 <= k < a.drop_first().len() implies #[trigger] a.drop_first()[k] == '_' by {
            assert(a.drop_first()[k] == a[k + 1]);
        }
        lemma_lowered_alnums_of_underscores(a.drop_first());
    }
}

proof fn lemma_slug_from_alnums(s: Seq<char>, i: int, prev_us: bool)
    requires
        0 <= i <= s.len(),
    ensures
        lowered_alnums(slug_from(s, i, prev_us)) == lowered_alnums(s.skip(i)),
    decreases s.len() - i,
{
    if i == s.len() {
        assert(s.skip(i) =~= Seq::<char>::empty());
    } else {
        let c = s[i];
        assert(s.skip(i).drop_first() =~= s.skip(i + 1));
        assert(s.skip(i)[0] == c);
        if is_ascii_alnum(c) {
            lemma_slug_from_alnums(s, i + 1, false);
            let rest = slug_from(s, i + 1, false);
            let l = lower_ascii_char(c);
            assert(is_ascii_alnum(l) && lower_ascii_char(l) == l);
            assert((seq![l] + rest).drop_first() =~= rest);
            assert((seq![l] + rest)[0] == l);
        } else if !prev_us {
            lemma_slug_from_alnums(s, i + 1, true);
            let rest = slug_from(s, i + 1, true);
            assert((seq!['_'] + rest).drop_first() =~= rest);
            assert((seq!['_'] + rest)[0] == '_');
        } else {
            lemma_slug_from_alnums(s, i + 1, true);
        }
    }
}

/// A slug keeps exactly the path's ASCII alphanumerics, lowercased and in order.
pub proof fn lemma_slug_keeps_alnums(path: Seq<char>)
    ensures
        lowered_alnums(slug_of(path)) == lowered_alnums(path),
{
    let r = slug_from(path, 0, false);
    lemma_slug_from_alnums(path, 0, false);
    assert(path.skip(0) =~= path);
    let k = CharClass::Underscore;
    lemma_lead_from_bounds(r, k, 0);
    let a = lead_from(r, k, 0);
    let x = r.skip(a);
    lemma_trail_from_bounds(x, k, x.len() as int);
    let b = trail_from(x, k, x.len() as int);
    let head = r.take(a);
    let mid = x.take(b);
    let tail = x.skip(b);
    assert(r =~= head + (mid + tail));
    assert forall|j: int| 0 <= j < head.len() implies #[trigger] head[j] == '_' by {
        assert(head[j] == r[j]);
    }
    assert forall|j: int| 0 <= j < tail.len() implies #[trigger] tail[j] == '_' by {
        assert(tail[j] == x[b + j]);
    }
    lemma_lowered_alnums_of_underscores(head);
    lemma_lowered_alnums_of_underscores(tail);
    lemma_lowered_alnums_concat(head, mid + tail);
    lemma_lowered_alnums_concat(mid, tail);
    assert(lowered_alnums(head) + lowered_alnums(mid) + lowered_alnums(tail) =~= lowered_alnums(mid));
    assert(slug_of(path) == mid);
}

/// Slugify an OpenAPI path: lowercase, non-alphanumerics → `_`, runs of `_`
/// collapsed, edges trimmed.
pub fn slug(path: &str) -> (r: String)
    ensures
        r@ == slug_of(path@),
{
    let v = chars_of(path);
    let mut out: Vec<char> = Vec::new();
    let mut prev_us = false;
    let mut i: usize = 0;
    while i < v.len()
        invariant
            i <= v.len(),
            slug_from(v@, 0, false) == out@ + slug_from(v@, i as int, prev_us),
        decreases v.len() - i,
    {
        let c = v[i];
        if char_is_ascii_alnum(c) {
            let l = to_ascii_lower_char(c);
            proof {
                assert(out@.push(l) + slug_from(v@, i + 1, false) == out@ + (seq![l] + slug_from(v@, i + 1, false)));
            }
            out.push(l);
            prev_us = false;
        } else if !prev_us {
            proof {
                assert(out@.push('_') + slug_from(v@, i + 1, true) == out@ + (seq!['_'] + slug_from(v@, i + 1, true)));
            }
            out.push('_');
            prev_us = true;
        }
        i = i + 1;
    }
    proof {
        assert(out@ + Seq::<char>::empty() == out@);
    }
    let t = trimmed(&out, CharClass::Underscore);
    string_of(&t)
}

/// The id prefix of every tool in this plane.
pub open spec fn id_prefix() -> Seq<char> {
    "ryu_api__"@
}

/// Whether a tool id belongs to the Core self-API plane.
pub fn is_core_api(tool_id: &str) -> (r: bool)
    ensures
        r == starts_with(tool_id@, id_prefix()),
{
    starts_with_chars(&chars_of(tool_id), &chars_of("ryu_api__"))
}

/// The method segment of a tool id: what follows the prefix up to the first `_`.
pub open spec fn method_of_id(tool_id: Seq<char>) -> Option<Seq<char>> {
    if starts_with(tool_id, id_prefix()) {
        let rest = tool_id.skip(id_prefix().len() as int);
        Some(rest.take(index_of_char_from(rest, '_', 0)))
    } else {
        None
    }
}

/// The method of a tool id: there is one exactly when the id has the self-API
/// prefix; it holds no `_`, and the id is the prefix, the method, then nothing or
/// a `_` and the rest.
pub proof fn lemma_method_of_id_shape(tool_id: Seq<char>)
    ensures
        method_of_id(tool_id) is Some <==> starts_with(tool_id, id_prefix()),
        method_of_id(tool_id) matches Some(m) ==> {
            let n = (id_prefix().len() + m.len()) as int;
            &&& !m.contains('_')
            &&& tool_id == id_prefix() + m + tool_id.skip(n)
            &&& (tool_id.len() == n || tool_id[n] == '_')
        },
{
    if starts_with(tool_id, id_prefix()) {
        let p = id_prefix().len() as int;
        let rest = tool_id.skip(p);
        lemma_index_of_char_from(rest, '_', 0);
        let e = index_of_char_from(rest, '_', 0);
        let m = rest.take(e);
        assert(!m.contains('_')) by {
            if m.contains('_') {
                let k = choose|k: int| 0 <= k < m.len() && m[k] == '_';
                assert(rest[k] == '_');
            }
        }
        assert(tool_id.take(p) == id_prefix());
        assert(tool_id =~= id_prefix() + m + tool_id.skip(p + e));
        if e < rest.len() {
            assert(tool_id[p + e] == rest[e]);
        }
    }
}

/// The lowercase HTTP method encoded in a tool id (`ryu_api__get_…` → `get`);
/// `None` for ids outside this plane.
pub fn method_of(tool_id: &str) -> (r: Option<String>)
    ensures
        r matches Some(m) ==> method_of_id(tool_id@) == Some(m@),
        r is None ==> method_of_id(tool_id@) is None,
{
    let v = chars_of(tool_id);
    let prefix = chars_of("ryu_api__");
    if !starts_with_chars(&v, &prefix) {
        return None;
    }
    let rest = slice_vec(&v, prefix.len(), v.len());
    assert(rest@ == v@.skip(id_prefix().len() as int));
    let e = char_index_from(&rest, '_', 0);
    proof {
        lemma_index_of_char_from(rest@, '_', 0);
    }
    let m = slice_vec(&rest, 0, e);
    Some(string_of(&m))
}

/// Whether a tool id names a mutating (non-GET) self-API route.
pub open spec fn mutating_id(tool_id: Seq<char>) -> bool {
    starts_with(tool_id, id_prefix()) && method_of_id(tool_id) != Some("get"@)
}

/// A mutating self-API tool: any verb but GET. The approval policy gates these.
pub fn is_mutating(tool_id: &str) -> (r: bool)
    ensures
        r == mutating_id(tool_id@),
{
    if !is_core_api(tool_id) {
        return false;
    }
    match method_of(tool_id) {
        Some(m) => !eq_chars(&chars_of(m.as_str()), &chars_of("get")),
        None => true,
    }
}

/// The refusal given on an org-bound node.
pub open spec fn tenant_bound_refusal() -> Seq<char> {
    "Core self-API tools are disabled on shared (org-bound) nodes: a loopback call would run with the node's own credentials rather than your scoped identity. Use them on a personal node."@
}

/// The tenancy gate: self-API tools run only for an unrestricted (personal,
/// unbound node) principal; otherwise the refusal message.
pub fn refuse_reason_if_tenant_bound(unrestricted: bool) -> (r: Option<String>)
    ensures
        r is None <==> unrestricted,
        r matches Some(m) ==> m@ == tenant_bound_refusal(),
{
    if unrestricted {
        None
    } else {
        Some("Core self-API tools are disabled on shared (org-bound) nodes: a loopback call would run with the node's own credentials rather than your scoped identity. Use them on a personal node.".to_owned())
    }
}

// ── Path resolution ──────────────────────────────────────────────────────────

/// A value that can stand as one path segment: non-empty, with no `/`, `\`, `..`,
/// `%` or control character.
pub open spec fn safe_segment(v: Seq<char>) -> bool {
    &&& v.len() > 0
    &&& !v.contains('/')
    &&& !v.contains('\\')
    &&& !contains(v, ".."@)
    &&& !v.contains('%')
    &&& forall|i: int| 0 <= i < v.len() ==> !is_control(#[trigger] v[i])
}

/// True when `v` is safe to substitute into a single path segment.
pub fn is_safe_path_segment(v: &str) -> (r: bool)
    ensures
        r == safe_segment(v@),
{
    let c = chars_of(v);
    if c.len() == 0 || has_char(&c, '/') || has_char(&c, '\\') || contains_chars(&c, &chars_of(".."))
        || has_char(&c, '%') {
        return false;
    }
    let mut i: usize = 0;
    while i < c.len()
        invariant
            i <= c.len(),
            c@ == v@,
            forall|m: int| 0 <= m < i ==> !is_control(#[trigger] c@[m]),
        decreases c.len() - i,
    {
        if char_is_control(c[i]) {
            assert(is_control(v@[i as int]));
            return false;
        }
        i = i + 1;
    }
    true
}


/// One argument of a route's input schema.
pub struct SchemaProperty {
    pub name: String,
    /// JSON-schema type name.
    pub ty: String,
    pub description: String,
}

/// The JSON-schema `object` describing a route's arguments (path + query + `body`).
pub struct InputSchema {
    pub properties: Vec<SchemaProperty>,
    pub required: Vec<String>,
}

/// One self-API tool: an OpenAPI operation reduced to what dispatch needs.
pub struct CoreApiRoute {
    /// `ryu_api__<method>_<path_slug>`.
    pub id: String,
    /// Uppercase HTTP method (`GET`/`POST`/…).
    pub method: String,
    /// The OpenAPI path template, e.g. `/api/quests/{id}`.
    pub path_template: String,
    /// Human summary (from the operation summary/description).
    pub summary: String,
    /// Path-parameter names (all required by construction).
    pub path_params: Vec<String>,
    /// Query-parameter names.
    pub query_params: Vec<String>,
    /// Whether the operation takes a request body (sent as the `body` argument).
    pub has_body: bool,
    /// The arguments, for the descriptor and the full `describe` output.
    pub input_schema: InputSchema,
}

/// A tool call's arguments, stringified (JSON strings unquoted, other values in
/// their JSON text); null arguments are absent.
pub open spec fn arg_lookup(args: Seq<(String, String)>, name: Seq<char>) -> Option<Seq<char>>
    decreases args.len(),
{
    if args.len() == 0 {
        None
    } else if args[0].0@ == name {
        Some(args[0].1@)
    } else {
        arg_lookup(args.drop_first(), name)
    }
}

/// `{name}`, the placeholder of a path parameter in a template.
pub open spec fn placeholder(name: Seq<char>) -> Seq<char> {
    seq!['{'] + name + seq!['}']
}

/// How resolving a tool call's path ends.
pub ghost enum PathOutcome {
    Resolved(Seq<char>),
    /// A required path parameter has no (non-null) argument.
    Missing(Seq<char>),
    /// A path parameter's value could escape its segment.
    Unsafe(Seq<char>),
    /// The resolved path is on the denylist.
    Denied(Seq<char>),
}

/// Substitutes `params[i..]` into `path`, in order.
pub open spec fn substitute_params(
    path: Seq<char>,
    params: Seq<Seq<char>>,
    i: int,
    args: Seq<(String, String)>,
) -> PathOutcome
    decreases params.len() - i,
{
    if i < 0 || i >= params.len() {
        PathOutcome::Resolved(path)
    } else {
        match arg_lookup(args, params[i]) {
            None => PathOutcome::Missing(params[i]),
            Some(v) => if !safe_segment(v) {
                PathOutcome::Unsafe(params[i])
            } else {
                substitute_params(
                    replace_all(path, placeholder(params[i]), v),
                    params,
                    i + 1,
                    args,
                )
            },
        }
    }
}

/// The path a tool call reaches: every path parameter substituted, then the
/// denylist re-checked on the resolved path.
pub open spec fn resolved_path(
    template: Seq<char>,
    params: Seq<Seq<char>>,
    method: Seq<char>,
    args: Seq<(String, String)>,
) -> PathOutcome {
    match substitute_params(template, params, 0, args) {
        PathOutcome::Resolved(p) => if denied(p, method) {
            PathOutcome::Denied(p)
        } else {
            PathOutcome::Resolved(p)
        },
        other => other,
    }
}

/// Why a tool call's path could not be resolved.
pub enum PathError {
    /// The named path parameter has no argument.
    MissingParam(String),
    /// The named path parameter's value has a separator, `..`, `%` or a control
    /// character.
    UnsafeParam(String),
    /// The resolved path is denylisted.
    DeniedPath(String),
}

/// The refusal text of a tool call whose path could not be resolved.
pub open spec fn path_error_text(e: PathError, tool_id: Seq<char>) -> Seq<char> {
    match e {
        PathError::MissingParam(p) => "core-api tool '"@ + tool_id + "' is missing required path parameter '"@
            + p@ + "'"@,
        PathError::UnsafeParam(p) => "core-api tool '"@ + tool_id + "' path parameter '"@ + p@
            + "' has an unsafe value (path separators, '..', '%', or control characters are rejected)"@,
        PathError::DeniedPath(path) => "core-api tool '"@ + tool_id + "' resolved to a denied path '"@
            + path@ + "'"@,
    }
}

impl PathError {
    /// The refusal text of tool `tool_id`'s call (see `path_error_text`).
    pub fn message(&self, tool_id: &str) -> (r: String)
        ensures
            r@ == path_error_text(*self, tool_id@),
    {
        let head = crate::ids::prefixed("core-api tool '", tool_id);
        match self {
            PathError::MissingParam(p) => {
                let a = crate::ids::prefixed(head.as_str(), "' is missing required path parameter '");
                let b = crate::ids::prefixed(a.as_str(), p.as_str());
                crate::ids::prefixed(b.as_str(), "'")
            },
            PathError::UnsafeParam(p) => {
                let a = crate::ids::prefixed(head.as_str(), "' path parameter '");
                let b = crate::ids::prefixed(a.as_str(), p.as_str());
                crate::ids::prefixed(
                    b.as_str(),
                    "' has an unsafe value (path separators, '..', '%', or control characters are rejected)",
                )
            },
            PathError::DeniedPath(path) => {
                let a = crate::ids::prefixed(head.as_str(), "' resolved to a denied path '");
                let b = crate::ids::prefixed(a.as_str(), path.as_str());
                crate::ids::prefixed(b.as_str(), "'")
            },
        }
    }
}

pub open spec fn path_result_matches(r: Result<String, PathError>, o: PathOutcome) -> bool {
    match (r, o) {
        (Ok(p), PathOutcome::Resolved(q)) => p@ == q,
        (Err(PathError::MissingParam(n)), PathOutcome::Missing(q)) => n@ == q,
        (Err(PathError::UnsafeParam(n)), PathOutcome::Unsafe(q)) => n@ == q,
        (Err(PathError::DeniedPath(n)), PathOutcome::Denied(q)) => n@ == q,
        _ => false,
    }
}

fn lookup_arg(args: &Vec<(String, String)>, name: &String) -> (r: Option<String>)
    ensures
        r matches Some(v) ==> arg_lookup(args@, name@) == Some(v@),
        r is None ==> arg_lookup(args@, name@) is None,
{
    let mut i: usize = 0;
    assert(args@.skip(0) =~= args@);
    while i < args.len()
        invariant
            i <= args.len(),
            arg_lookup(args@, name@) == arg_lookup(args@.skip(i as int), name@),
        decreases args.len() - i,
    {
        proof {
            assert(args@.skip(i as int).drop_first() =~= args@.skip(i + 1));
            assert(args@.skip(i as int)[0] == args@[i as int]);
        }
        if args[i].0 == *name {
            return Some(args[i].1.clone());
        }
        i = i + 1;
    }
    None
}

/// Resolves the concrete path a self-API tool call targets. Each path parameter is
/// a single segment: a missing one, or a value that could reshape the path
/// (separators, `..`, `%`, control characters), is refused; every `{param}` is then
/// replaced, and a resolved path that falls on the denylist is refused too.
pub fn resolve_route_path(route: &CoreApiRoute, args: &Vec<(String, String)>) -> (r: Result<
    String,
    PathError,
>)
    ensures
        path_result_matches(
            r,
            resolved_path(route.path_template@, strs(route.path_params@), route.method@, args@),
        ),
        r matches Ok(p) ==> !denied(p@, route.method@),
{
    let mut path = chars_of(route.path_template.as_str());
    let mut i: usize = 0;
    while i < route.path_params.len()
        invariant
            i <= route.path_params.len(),
            substitute_params(route.path_template@, strs(route.path_params@), 0, args@)
                == substitute_params(path@, strs(route.path_params@), i as int, args@),
        decreases route.path_params.len() - i,
    {
        let name = &route.path_params[i];
        assert(strs(route.path_params@)[i as int] == name@);
        let v = match lookup_arg(args, name) {
            None => return Err(PathError::MissingParam(name.clone())),
            Some(v) => v,
        };
        if !is_safe_path_segment(v.as_str()) {
            return Err(PathError::UnsafeParam(name.clone()));
        }
        let mut pat: Vec<char> = vec!['{'];
        append_chars(&mut pat, &chars_of(name.as_str()));
        pat.push('}');
        assert(pat@ == placeholder(name@));
        path = replace_all_chars(&path, &pat, &chars_of(v.as_str()));
        i = i + 1;
    }
    let resolved = string_of(&path);
    if is_denied(resolved.as_str(), route.method.as_str()) {
        return Err(PathError::DeniedPath(resolved));
    }
    Ok(resolved)
}

/// The loopback URL: `base` without trailing slashes, then the path.
pub fn loopback_url(base: &str, path: &str) -> (r: String)
    ensures
        r@ == trim_end(base@, CharClass::Slash) + path@,
{
    let mut b = trimmed_end(&chars_of(base), CharClass::Slash);
    append_chars(&mut b, &chars_of(path));
    string_of(&b)
}

/// Whether a loopback reply's status is a success (2xx): the `ok` of the
/// `{ status, ok, body }` a tool call answers with.
pub fn loopback_ok(status: u16) -> (r: bool)
    ensures
        r == (200 <= status && status < 300),
{
    200 <= status && status < 300
}

/// The `Authorization` header of a loopback call: `Bearer` and the node's token
/// when one is configured and non-empty, none otherwise.
pub fn loopback_authorization(token: Option<&str>) -> (r: Option<String>)
    ensures
        match token {
            Some(t) => if t@.len() > 0 {
                (r matches Some(h) && h@ == "Bearer "@ + t@)
            } else {
                r is None
            },
            None => r is None,
        },
{
    match token {
        Some(t) => {
            if t.unicode_len() > 0 {
                Some(crate::ids::prefixed("Bearer ", t))
            } else {
                None
            }
        },
        None => None,
    }
}

/// Whether `serde_json::from_str::<serde_json::Value>` accepts a text (it is one
/// JSON value, with only whitespace around it).
pub uninterp spec fn json_text_parses(text: Seq<char>) -> bool;

/// `serde_json::from_str::<serde_json::Value>(text)`: the parsed value, `None`
/// when the text is not JSON. Which texts parse is named by `json_text_parses`;
/// the value itself is carried through unread.
#[verifier::external_body]
fn parse_reply_json(text: &str) -> (r: Option<serde_json::Value>)
    ensures
        r is Some <==> json_text_parses(text@),
{
    serde_json::from_str::<serde_json::Value>(text).ok()
}

/// A loopback reply's body: its text parsed as JSON when it is JSON, else the raw
/// text.
pub enum ReplyBody {
    Json(serde_json::Value),
    Text(String),
}

/// See `ReplyBody`.
pub fn reply_body(text: String) -> (r: ReplyBody)
    ensures
        json_text_parses(text@) <==> r is Json,
        r matches ReplyBody::Text(t) ==> t@ == text@,
{
    match parse_reply_json(text.as_str()) {
        Some(v) => ReplyBody::Json(v),
        None => ReplyBody::Text(text),
    }
}

/// What a tool call answers once the loopback reply is in: its status, whether
/// that is a success, and its body.
pub struct LoopbackReply {
    pub status: u16,
    pub ok: bool,
    pub body: ReplyBody,
}

/// The `{ status, ok, body }` answer to a loopback reply of `status` and `text`:
/// `ok` for a 2xx status, the body parsed as JSON when it is JSON, else the raw
/// text.
pub fn loopback_reply(status: u16, text: String) -> (r: LoopbackReply)
    ensures
        r.status == status,
        r.ok == (200 <= status && status < 300),
        json_text_parses(text@) <==> r.body is Json,
        r.body matches ReplyBody::Text(t) ==> t@ == text@,
{
    LoopbackReply { status, ok: loopback_ok(status), body: reply_body(text) }
}

/// The first route with id `tool_id`, among the first `n`.
pub open spec fn route_index_from(routes: Seq<CoreApiRoute>, tool_id: Seq<char>, i: int) -> Option<int>
    decreases routes.len() - i,
{
    if i < 0 || i >= routes.len() {
        None
    } else if routes[i].id@ == tool_id {
        Some(i)
    } else {
        route_index_from(routes, tool_id, i + 1)
    }
}

/// The route a tool call dispatches to: the first with the call's id; an
/// unknown id is refused (`unknown core-api tool '<id>'`).
pub fn find_route(routes: &Vec<CoreApiRoute>, tool_id: &str) -> (r: Result<usize, String>)
    ensures
        match r {
            Ok(i) => route_index_from(routes@, tool_id@, 0) == Some(i as int),
            Err(e) => route_index_from(routes@, tool_id@, 0) is None && e@
                == "unknown core-api tool '"@ + tool_id@ + "'"@,
        },
{
    let want = chars_of(tool_id);
    let mut i: usize = 0;
    while i < routes.len()
        invariant
            i <= routes.len(),
            want@ == tool_id@,
            route_index_from(routes@, tool_id@, 0) == route_index_from(routes@, tool_id@, i as int),
        decreases routes.len() - i,
    {
        if eq_chars(&chars_of(routes[i].id.as_str()), &want) {
            return Ok(i);
        }
        i = i + 1;
    }
    let mut m = chars_of("unknown core-api tool '");
    append_chars(&mut m, &want);
    append_chars(&mut m, &chars_of("'"));
    Err(string_of(&m))
}

/// A tool's catalog name: its method and path template (`GET /api/quests`).
pub fn tool_name(route: &CoreApiRoute) -> (r: String)
    ensures
        r@ == route.method@ + " "@ + route.path_template@,
{
    let mut m = chars_of(route.method.as_str());
    append_chars(&mut m, &chars_of(" "));
    append_chars(&mut m, &chars_of(route.path_template.as_str()));
    string_of(&m)
}

/// The query arguments a call sends: each declared query parameter that has a
/// (non-null) argument, in declaration order.
pub open spec fn query_pairs_from(
    names: Seq<Seq<char>>,
    args: Seq<(String, String)>,
) -> Seq<(Seq<char>, Seq<char>)>
    decreases names.len(),
{
    if names.len() == 0 {
        seq![]
    } else {
        let rest = query_pairs_from(names.drop_last(), args);
        match arg_lookup(args, names.last()) {
            Some(v) => rest.push((names.last(), v)),
            None => rest,
        }
    }
}

/// The query a call sends names exactly the declared parameters that have an
/// argument, in declaration order, and pairs each with that argument: none is
/// dropped, none added, none reordered.
pub proof fn lemma_query_pairs_are_declared_with_args(
    names: Seq<Seq<char>>,
    args: Seq<(String, String)>,
)
    ensures
        query_pairs_from(names, args).map_values(|p: (Seq<char>, Seq<char>)| p.0) == names.filter(
            |n: Seq<char>| arg_lookup(args, n) is Some,
        ),
        forall|k: int|
            0 <= k < query_pairs_from(names, args).len() ==> arg_lookup(
                args,
                (#[trigger] query_pairs_from(names, args)[k]).0,
            ) == Some(query_pairs_from(names, args)[k].1),
    decreases names.len(),
{
    reveal(Seq::filter);
    let has = |n: Seq<char>| arg_lookup(args, n) is Some;
    if names.len() > 0 {
        let init = names.drop_last();
        lemma_query_pairs_are_declared_with_args(init, args);
        let rest = query_pairs_from(init, args);
        let r = query_pairs_from(names, args);
        assert(names.filter(has) == if has(names.last()) {
            init.filter(has).push(names.last())
        } else {
            init.filter(has)
        });
        match arg_lookup(args, names.last()) {
            Some(v) => {
                assert(r == rest.push((names.last(), v)));
                assert(r.map_values(|p: (Seq<char>, Seq<char>)| p.0) =~= rest.map_values(
                    |p: (Seq<char>, Seq<char>)| p.0,
                ).push(names.last()));
                assert forall|k: int| 0 <= k < r.len() implies arg_lookup(args, (#[trigger] r[k]).0)
                    == Some(r[k].1) by {
                    if k < rest.len() {
                        assert(r[k] == rest[k]);
                    }
                }
            },
            None => {
                assert(r == rest);
            },
        }
    } else {
        assert(names.filter(has) =~= Seq::<Seq<char>>::empty());
        assert(query_pairs_from(names, args).map_values(|p: (Seq<char>, Seq<char>)| p.0)
            =~= Seq::<Seq<char>>::empty());
    }
}

pub fn query_pairs(route: &CoreApiRoute, args: &Vec<(String, String)>) -> (r: Vec<(String, String)>)
    ensures
        r@.map_values(|p: (String, String)| (p.0@, p.1@)) == query_pairs_from(
            strs(route.query_params@),
            args@,
        ),
{
    let mut out: Vec<(String, String)> = Vec::new();
    let mut i: usize = 0;
    while i < route.query_params.len()
        invariant
            i <= route.query_params.len(),
            out@.map_values(|p: (String, String)| (p.0@, p.1@)) == query_pairs_from(
                strs(route.query_params@).take(i as int),
                args@,
            ),
        decreases route.query_params.len() - i,
    {
        let q = &route.query_params[i];
        proof {
            assert(strs(route.query_params@).take(i + 1).drop_last() =~= strs(
                route.query_params@,
            ).take(i as int));
            assert(strs(route.query_params@).take(i + 1).last() == q@);
        }
        match lookup_arg(args, q) {
            Some(v) => {
                let ghost before = out@;
                out.push((q.clone(), v));
                proof {
                    assert(out@.map_values(|p: (String, String)| (p.0@, p.1@)) =~= before.map_values(
                        |p: (String, String)| (p.0@, p.1@),
                    ).push((q@, v@)));
                }
            },
            None => {},
        }
        i = i + 1;
    }
    proof {
        assert(strs(route.query_params@).take(route.query_params.len() as int) =~= strs(
            route.query_params@,
        ));
    }
    out
}


// ── Route table from the OpenAPI document ────────────────────────────────────

/// One `parameters[]` entry of an OpenAPI operation (each field present only when
/// the document holds a value of the expected JSON type).
pub struct OpenApiParameter {
    pub name: Option<String>,
    /// The `in` field: `path`, `query`, `header`, `cookie`.
    pub location: Option<String>,
    pub required: Option<bool>,
    pub description: Option<String>,
    /// `schema.type`.
    pub schema_type: Option<String>,
}

/// An operation's `requestBody`.
pub struct OpenApiRequestBody {
    pub required: Option<bool>,
}

/// One OpenAPI operation.
pub struct OpenApiOperation {
    pub summary: Option<String>,
    pub description: Option<String>,
    pub parameters: Option<Vec<OpenApiParameter>>,
    pub request_body: Option<OpenApiRequestBody>,
}

/// One entry of the document's `paths` object, with the five verbs surfaced.
pub struct OpenApiPathItem {
    pub path: String,
    pub get: Option<OpenApiOperation>,
    pub post: Option<OpenApiOperation>,
    pub put: Option<OpenApiOperation>,
    pub patch: Option<OpenApiOperation>,
    pub delete: Option<OpenApiOperation>,
}

/// The verbs surfaced, in their stable order (so tool ids are deterministic).
pub open spec fn method_name(m: int) -> Seq<char> {
    if m == 0 {
        "get"@
    } else if m == 1 {
        "post"@
    } else if m == 2 {
        "put"@
    } else if m == 3 {
        "patch"@
    } else {
        "delete"@
    }
}

/// `method_name(m).to_ascii_uppercase()`.
pub open spec fn method_upper(m: int) -> Seq<char> {
    if m == 0 {
        "GET"@
    } else if m == 1 {
        "POST"@
    } else if m == 2 {
        "PUT"@
    } else if m == 3 {
        "PATCH"@
    } else {
        "DELETE"@
    }
}

pub open spec fn op_at(item: OpenApiPathItem, m: int) -> Option<OpenApiOperation> {
    if m == 0 {
        item.get
    } else if m == 1 {
        item.post
    } else if m == 2 {
        item.put
    } else if m == 3 {
        item.patch
    } else {
        item.delete
    }
}

pub open spec fn opt_or(o: Option<String>, d: Seq<char>) -> Seq<char> {
    match o {
        Some(s) => s@,
        None => d,
    }
}

/// A schema property, as a value.
pub ghost struct PropV {
    pub name: Seq<char>,
    pub ty: Seq<char>,
    pub description: Seq<char>,
}

/// The first index at or after `i` whose property is named `name`, or the length.
pub open spec fn prop_index_from(props: Seq<PropV>, name: Seq<char>, i: int) -> int
    decreases props.len() - i,
{
    if i < 0 || i >= props.len() {
        props.len() as int
    } else if props[i].name == name {
        i
    } else {
        prop_index_from(props, name, i + 1)
    }
}

/// Sets `p` in a JSON object's property list: replaces the entry of the same name
/// in place, or appends.
pub open spec fn prop_insert(props: Seq<PropV>, p: PropV) -> Seq<PropV> {
    let k = prop_index_from(props, p.name, 0);
    if k < props.len() {
        props.update(k, p)
    } else {
        props.push(p)
    }
}

/// What an operation's parameters contribute to its route.
#[verifier::ext_equal]
pub ghost struct ParamAcc {
    pub path_params: Seq<Seq<char>>,
    pub query_params: Seq<Seq<char>>,
    pub props: Seq<PropV>,
    pub required: Seq<Seq<char>>,
}

/// One parameter: a path parameter is always required; a query parameter when it
/// says so; header/cookie parameters (and unnamed ones) are skipped.
pub open spec fn apply_param(acc: ParamAcc, p: OpenApiParameter) -> ParamAcc {
    match p.name {
        None => acc,
        Some(n) => {
            let loc = opt_or(p.location, ""@);
            let req = match p.required {
                Some(b) => b,
                None => false,
            };
            let prop = PropV {
                name: n@,
                ty: opt_or(p.schema_type, "string"@),
                description: opt_or(p.description, ""@),
            };
            if loc == "path"@ {
                ParamAcc {
                    path_params: acc.path_params.push(n@),
                    query_params: acc.query_params,
                    props: prop_insert(acc.props, prop),
                    required: acc.required.push(n@),
                }
            } else if loc == "query"@ {
                ParamAcc {
                    path_params: acc.path_params,
                    query_params: acc.query_params.push(n@),
                    props: prop_insert(acc.props, prop),
                    required: if req {
                        acc.required.push(n@)
                    } else {
                        acc.required
                    },
                }
            } else {
                acc
            }
        },
    }
}

pub open spec fn apply_params(ps: Seq<OpenApiParameter>) -> ParamAcc
    decreases ps.len(),
{
    if ps.len() == 0 {
        ParamAcc { path_params: seq![], query_params: seq![], props: seq![], required: seq![] }
    } else {
        apply_param(apply_params(ps.drop_last()), ps.last())
    }
}

/// The `body` argument of an operation that takes a request body.
pub open spec fn body_prop() -> PropV {
    PropV {
        name: "body"@,
        ty: "object"@,
        description: "JSON request body (shallow: the whole body as one argument)."@,
    }
}

/// The summary, or else the description, or else empty.
pub open spec fn summary_of(op: OpenApiOperation) -> Seq<char> {
    match op.summary {
        Some(s) => if s@.len() > 0 {
            s@
        } else {
            opt_or(op.description, ""@)
        },
        None => opt_or(op.description, ""@),
    }
}

/// A route, as a value.
pub ghost struct RouteV {
    pub id: Seq<char>,
    pub method: Seq<char>,
    pub path_template: Seq<char>,
    pub summary: Seq<char>,
    pub path_params: Seq<Seq<char>>,
    pub query_params: Seq<Seq<char>>,
    pub has_body: bool,
    pub props: Seq<PropV>,
    pub required: Seq<Seq<char>>,
}

pub open spec fn prop_view(p: SchemaProperty) -> PropV {
    PropV { name: p.name@, ty: p.ty@, description: p.description@ }
}

pub open spec fn route_view(r: CoreApiRoute) -> RouteV {
    RouteV {
        id: r.id@,
        method: r.method@,
        path_template: r.path_template@,
        summary: r.summary@,
        path_params: strs(r.path_params@),
        query_params: strs(r.query_params@),
        has_body: r.has_body,
        props: r.input_schema.properties@.map_values(|p: SchemaProperty| prop_view(p)),
        required: strs(r.input_schema.required@),
    }
}

/// The tool id of verb `m` on `path`.
pub open spec fn route_id(path: Seq<char>, m: int) -> Seq<char> {
    id_prefix() + method_name(m) + "_"@ + slug_of(path)
}

/// The route verb `m` of `item` contributes, if the operation exists and is not
/// denylisted.
pub open spec fn route_for(item: OpenApiPathItem, m: int) -> Option<RouteV> {
    match op_at(item, m) {
        None => None,
        Some(op) => if denied(item.path@, method_name(m)) {
            None
        } else {
            let acc = apply_params(
                match op.parameters {
                    Some(v) => v@,
                    None => seq![],
                },
            );
            let has_body = op.request_body is Some;
            let body_required = match op.request_body {
                Some(b) => match b.required {
                    Some(x) => x,
                    None => false,
                },
                None => false,
            };
            Some(
                RouteV {
                    id: route_id(item.path@, m),
                    method: method_upper(m),
                    path_template: item.path@,
                    summary: summary_of(op),
                    path_params: acc.path_params,
                    query_params: acc.query_params,
                    has_body,
                    props: if has_body {
                        prop_insert(acc.props, body_prop())
                    } else {
                        acc.props
                    },
                    required: if has_body && body_required {
                        acc.required.push("body"@)
                    } else {
                        acc.required
                    },
                },
            )
        },
    }
}

pub open spec fn route_ids(rs: Seq<RouteV>) -> Seq<Seq<char>> {
    rs.map_values(|r: RouteV| r.id)
}

/// Every path, every verb in order: keep each route whose id is new (a slug
/// collision keeps the first).
pub open spec fn collect_routes(items: Seq<OpenApiPathItem>, i: int, m: int, out: Seq<RouteV>) -> Seq<
    RouteV,
>
    decreases items.len() - i, 5 - m,
{
    if i < 0 || i >= items.len() || m < 0 {
        out
    } else if m >= 5 {
        collect_routes(items, i + 1, 0, out)
    } else {
        let next = match route_for(items[i], m) {
            Some(r) => if route_ids(out).contains(r.id) {
                out
            } else {
                out.push(r)
            },
            None => out,
        };
        collect_routes(items, i, m + 1, next)
    }
}

fn insert_prop(props: &mut Vec<SchemaProperty>, p: SchemaProperty)
    ensures
        final(props)@.map_values(|q: SchemaProperty| prop_view(q)) == prop_insert(
            old(props)@.map_values(|q: SchemaProperty| prop_view(q)),
            prop_view(p),
        ),
{
    let ghost pv = old(props)@.map_values(|q: SchemaProperty| prop_view(q));
    let mut k: usize = 0;
    while k < props.len()
        invariant
            k <= props.len(),
            props@ == old(props)@,
            pv == old(props)@.map_values(|q: SchemaProperty| prop_view(q)),
            prop_index_from(pv, p.name@, 0) == prop_index_from(pv, p.name@, k as int),
        decreases props.len() - k,
    {
        assert(pv[k as int] == prop_view(props@[k as int]));
        if props[k].name == p.name {
            props.set(k, p);
            proof {
                assert(props@.map_values(|q: SchemaProperty| prop_view(q)) =~= pv.update(
                    k as int,
                    prop_view(p),
                ));
            }
            return;
        }
        k = k + 1;
    }
    props.push(p);
    proof {
        assert(props@.map_values(|q: SchemaProperty| prop_view(q)) =~= pv.push(prop_view(p)));
    }
}


fn opt_or_string(o: &Option<String>, d: &str) -> (r: String)
    ensures
        r@ == opt_or(*o, d@),
{
    match o {
        Some(s) => s.clone(),
        None => d.to_owned(),
    }
}

pub open spec fn acc_of(
    pp: Seq<String>,
    qp: Seq<String>,
    props: Seq<SchemaProperty>,
    req: Seq<String>,
) -> ParamAcc {
    ParamAcc {
        path_params: strs(pp),
        query_params: strs(qp),
        props: props.map_values(|q: SchemaProperty| prop_view(q)),
        required: strs(req),
    }
}

proof fn lemma_strs_push(v: Seq<String>, s: String)
    ensures
        strs(v.push(s)) == strs(v).push(s@),
{
    assert(strs(v.push(s)) =~= strs(v).push(s@));
}

fn add_param(
    pp: &mut Vec<String>,
    qp: &mut Vec<String>,
    props: &mut Vec<SchemaProperty>,
    req: &mut Vec<String>,
    p: &OpenApiParameter,
)
    ensures
        acc_of(final(pp)@, final(qp)@, final(props)@, final(req)@) == apply_param(
            acc_of(old(pp)@, old(qp)@, old(props)@, old(req)@),
            *p,
        ),
{
    match &p.name {
        None => {},
        Some(n) => {
            let loc = opt_or_string(&p.location, "");
            let required = match p.required {
                Some(b) => b,
                None => false,
            };
            let prop = SchemaProperty {
                name: n.clone(),
                ty: opt_or_string(&p.schema_type, "string"),
                description: opt_or_string(&p.description, ""),
            };
            let lv = chars_of(loc.as_str());
            if eq_chars(&lv, &chars_of("path")) {
                proof {
                    lemma_strs_push(pp@, *n);
                    lemma_strs_push(req@, *n);
                }
                pp.push(n.clone());
                insert_prop(props, prop);
                req.push(n.clone());
            } else if eq_chars(&lv, &chars_of("query")) {
                proof {
                    lemma_strs_push(qp@, *n);
                    lemma_strs_push(req@, *n);
                }
                qp.push(n.clone());
                insert_prop(props, prop);
                if required {
                    req.push(n.clone());
                }
            }
        },
    }
}

fn collect_params(ps: &Vec<OpenApiParameter>) -> (r: (
    Vec<String>,
    Vec<String>,
    Vec<SchemaProperty>,
    Vec<String>,
))
    ensures
        acc_of(r.0@, r.1@, r.2@, r.3@) == apply_params(ps@),
{
    let mut pp: Vec<String> = Vec::new();
    let mut qp: Vec<String> = Vec::new();
    let mut props: Vec<SchemaProperty> = Vec::new();
    let mut req: Vec<String> = Vec::new();
    let mut i: usize = 0;
    proof {
        assert(ps@.take(0) =~= Seq::<OpenApiParameter>::empty());
        assert(acc_of(pp@, qp@, props@, req@) =~~= apply_params(ps@.take(0)));
    }
    while i < ps.len()
        invariant
            i <= ps.len(),
            acc_of(pp@, qp@, props@, req@) == apply_params(ps@.take(i as int)),
        decreases ps.len() - i,
    {
        proof {
            assert(ps@.take(i + 1).drop_last() =~= ps@.take(i as int));
            assert(ps@.take(i + 1).last() == ps@[i as int]);
        }
        add_param(&mut pp, &mut qp, &mut props, &mut req, &ps[i]);
        i = i + 1;
    }
    proof {
        assert(ps@.take(ps.len() as int) =~= ps@);
    }
    (pp, qp, props, req)
}


fn op_at_exec(item: &OpenApiPathItem, m: usize) -> (r: &Option<OpenApiOperation>)
    ensures
        *r == op_at(*item, m as int),
{
    if m == 0 {
        &item.get
    } else if m == 1 {
        &item.post
    } else if m == 2 {
        &item.put
    } else if m == 3 {
        &item.patch
    } else {
        &item.delete
    }
}

fn method_name_str(m: usize) -> (r: &'static str)
    ensures
        r@ == method_name(m as int),
{
    if m == 0 {
        "get"
    } else if m == 1 {
        "post"
    } else if m == 2 {
        "put"
    } else if m == 3 {
        "patch"
    } else {
        "delete"
    }
}

fn method_upper_string(m: usize) -> (r: String)
    ensures
        r@ == method_upper(m as int),
{
    if m == 0 {
        "GET".to_owned()
    } else if m == 1 {
        "POST".to_owned()
    } else if m == 2 {
        "PUT".to_owned()
    } else if m == 3 {
        "PATCH".to_owned()
    } else {
        "DELETE".to_owned()
    }
}

fn summary_exec(op: &OpenApiOperation) -> (r: String)
    ensures
        r@ == summary_of(*op),
{
    match &op.summary {
        Some(s) => {
            if s.as_str().unicode_len() > 0 {
                s.clone()
            } else {
                opt_or_string(&op.description, "")
            }
        },
        None => opt_or_string(&op.description, ""),
    }
}

/// The route verb `m` of `item` contributes, if any.
fn route_for_exec(item: &OpenApiPathItem, m: usize) -> (r: Option<CoreApiRoute>)
    requires
        m < 5,
    ensures
        match r {
            Some(x) => route_for(*item, m as int) == Some(route_view(x)),
            None => route_for(*item, m as int) is None,
        },
{
    let op = match op_at_exec(item, m) {
        None => return None,
        Some(op) => op,
    };
    let mname = method_name_str(m);
    if is_denied(item.path.as_str(), mname) {
        return None;
    }
    let (path_params, query_params, mut props, mut required) = match &op.parameters {
        Some(v) => collect_params(v),
        None => {
            let r = (Vec::new(), Vec::new(), Vec::new(), Vec::new());
            proof {
                assert(acc_of(r.0@, r.1@, r.2@, r.3@) =~~= apply_params(seq![]));
            }
            r
        },
    };
    let ghost acc = acc_of(path_params@, query_params@, props@, required@);
    let summary = summary_exec(op);
    let has_body = op.request_body.is_some();
    let body_required = match &op.request_body {
        Some(b) => match b.required {
            Some(x) => x,
            None => false,
        },
        None => false,
    };
    if has_body {
        insert_prop(
            &mut props,
            SchemaProperty {
                name: "body".to_owned(),
                ty: "object".to_owned(),
                description: "JSON request body (shallow: the whole body as one argument).".to_owned(),
            },
        );
        if body_required {
            let body_name = "body".to_owned();
            proof {
                lemma_strs_push(required@, body_name);
            }
            required.push(body_name);
        }
    }
    let mut id = chars_of("ryu_api__");
    append_chars(&mut id, &chars_of(mname));
    id.push('_');
    let sl = slug(item.path.as_str());
    append_chars(&mut id, &chars_of(sl.as_str()));
    let route = CoreApiRoute {
        id: string_of(&id),
        method: method_upper_string(m),
        path_template: item.path.clone(),
        summary,
        path_params,
        query_params,
        has_body,
        input_schema: InputSchema { properties: props, required },
    };
    proof {
        reveal_strlit("_");
        assert(route_view(route).id =~= route_id(item.path@, m as int));
    }
    Some(route)
}


pub open spec fn routes_view(rs: Seq<CoreApiRoute>) -> Seq<RouteV> {
    rs.map_values(|x: CoreApiRoute| route_view(x))
}

fn has_route_id(out: &Vec<CoreApiRoute>, id: &String) -> (r: bool)
    ensures
        r == route_ids(routes_view(out@)).contains(id@),
{
    let mut k: usize = 0;
    while k < out.len()
        invariant
            k <= out.len(),
            forall|j: int| 0 <= j < k ==> (#[trigger] out@[j]).id@ != id@,
        decreases out.len() - k,
    {
        if out[k].id == *id {
            assert(route_ids(routes_view(out@))[k as int] == id@);
            return true;
        }
        k = k + 1;
    }
    proof {
        if route_ids(routes_view(out@)).contains(id@) {
            let j = choose|j: int| 0 <= j < out.len() && route_ids(routes_view(out@))[j] == id@;
            assert(out@[j].id@ != id@);
        }
    }
    false
}

/// The route table of an OpenAPI document: every path, every verb in a fixed order
/// (`get`, `post`, `put`, `patch`, `delete`), skipping absent and denylisted
/// operations; when two operations slug to the same id the first is kept.
pub fn build_routes(items: &Vec<OpenApiPathItem>) -> (r: Vec<CoreApiRoute>)
    ensures
        routes_view(r@) == collect_routes(items@, 0, 0, seq![]),
        catalog_ok(routes_view(r@)),
        forall|k: int| 0 <= k < r.len() ==> !denied(r@[k].path_template@, #[trigger] r@[k].method@),
        forall|a: int, b: int| 0 <= a < b < r.len() ==> (#[trigger] r@[a]).id@ != (
        #[trigger] r@[b]).id@,
{
    proof {
        lemma_collect_ok(items@, 0, 0, seq![]);
    }
    let mut out: Vec<CoreApiRoute> = Vec::new();
    let mut i: usize = 0;
    proof {
        assert(routes_view(out@) =~= Seq::<RouteV>::empty());
    }
    while i < items.len()
        invariant
            i <= items.len(),
            collect_routes(items@, 0, 0, seq![]) == collect_routes(
                items@,
                i as int,
                0,
                routes_view(out@),
            ),
        decreases items.len() - i,
    {
        let mut m: usize = 0;
        while m < 5
            invariant
                i < items.len(),
                m <= 5,
                collect_routes(items@, 0, 0, seq![]) == collect_routes(
                    items@,
                    i as int,
                    m as int,
                    routes_view(out@),
                ),
            decreases 5 - m,
        {
            let ghost before = routes_view(out@);
            match route_for_exec(&items[i], m) {
                Some(route) => {
                    if !has_route_id(&out, &route.id) {
                        out.push(route);
                        proof {
                            assert(routes_view(out@) =~= before.push(route_view(route)));
                        }
                    }
                },
                None => {},
            }
            m = m + 1;
        }
        i = i + 1;
    }
    proof {
        let rv = routes_view(out@);
        assert forall|k: int| 0 <= k < out.len() implies !denied(
            out@[k].path_template@,
            #[trigger] out@[k].method@,
        ) by {
            assert(rv[k] == route_view(out@[k]));
            assert(from_some_verb(rv[k]));
            let m = choose|m: int| route_from_verb(rv[k], m);
            lemma_route_id_encodes_verb(rv[k], m);
        }
        assert forall|a: int, b: int| 0 <= a < b < out.len() implies (#[trigger] out@[a]).id@ != (
        #[trigger] out@[b]).id@ by {
            assert(rv[a] == route_view(out@[a]));
            assert(rv[b] == route_view(out@[b]));
        }
    }
    out
}


// ── What the route table promises ────────────────────────────────────────────

/// `r` is the route of verb `m` on its path, and that operation is not denylisted.
pub open spec fn route_from_verb(r: RouteV, m: int) -> bool {
    &&& 0 <= m < 5
    &&& path_params_required(r)
    &&& r.method == method_upper(m)
    &&& r.id == route_id(r.path_template, m)
    &&& !denied(r.path_template, method_name(m))
}

/// `r` is the route of one of the verbs on its path.
pub open spec fn from_some_verb(r: RouteV) -> bool {
    exists|m: int| route_from_verb(r, m)
}

/// Every route comes from some verb, and no two routes share an id.
pub open spec fn catalog_ok(rs: Seq<RouteV>) -> bool {
    &&& forall|k: int| 0 <= k < rs.len() ==> from_some_verb(#[trigger] rs[k])
    &&& forall|a: int, b: int| 0 <= a < b < rs.len() ==> (#[trigger] rs[a]).id != (#[trigger] rs[b]).id
}

/// Every path parameter of a route is among its required arguments.
pub open spec fn path_params_required(r: RouteV) -> bool {
    forall|j: int| 0 <= j < r.path_params.len() ==> r.required.contains(#[trigger] r.path_params[j])
}

/// In a built catalogue every path parameter of every route is required.
pub proof fn lemma_catalog_path_params_required(rs: Seq<RouteV>)
    requires
        catalog_ok(rs),
    ensures
        forall|k: int| 0 <= k < rs.len() ==> path_params_required(#[trigger] rs[k]),
{
    assert forall|k: int| 0 <= k < rs.len() implies path_params_required(#[trigger] rs[k]) by {
        assert(from_some_verb(rs[k]));
        let m = choose|m: int| route_from_verb(rs[k], m);
    }
}

proof fn lemma_apply_params_required(ps: Seq<OpenApiParameter>)
    ensures
        forall|j: int|
            0 <= j < apply_params(ps).path_params.len() ==> apply_params(ps).required.contains(
                #[trigger] apply_params(ps).path_params[j],
            ),
    decreases ps.len(),
{
    if ps.len() > 0 {
        lemma_apply_params_required(ps.drop_last());
        let acc = apply_params(ps.drop_last());
        let next = apply_params(ps);
        assert forall|j: int| 0 <= j < next.path_params.len() implies next.required.contains(
            #[trigger] next.path_params[j],
        ) by {
            if j < acc.path_params.len() && next.path_params[j] == acc.path_params[j] {
                let x = acc.path_params[j];
                assert(acc.required.contains(x));
                let k = choose|k: int| 0 <= k < acc.required.len() && acc.required[k] == x;
                assert(next.required.len() >= acc.required.len());
                assert(next.required[k] == x);
            } else {
                assert(next.path_params.len() == acc.path_params.len() + 1);
                assert(next.required.last() == next.path_params[j]);
                assert(next.required[next.required.len() - 1] == next.path_params[j]);
            }
        }
    }
}

proof fn lemma_route_for_ok(item: OpenApiPathItem, m: int)
    requires
        0 <= m < 5,
        route_for(item, m) is Some,
    ensures
        route_from_verb(route_for(item, m)->0, m),
{
    let op = op_at(item, m)->0;
    let ps = match op.parameters {
        Some(v) => v@,
        None => seq![],
    };
    lemma_apply_params_required(ps);
    let r = route_for(item, m)->0;
    let acc = apply_params(ps);
    assert forall|j: int| 0 <= j < r.path_params.len() implies r.required.contains(
        #[trigger] r.path_params[j],
    ) by {
        let x = acc.path_params[j];
        assert(acc.required.contains(x));
        let k = choose|k: int| 0 <= k < acc.required.len() && acc.required[k] == x;
        assert(r.required[k] == x);
    }
}

proof fn lemma_collect_ok(items: Seq<OpenApiPathItem>, i: int, m: int, out: Seq<RouteV>)
    requires
        catalog_ok(out),
    ensures
        catalog_ok(collect_routes(items, i, m, out)),
    decreases items.len() - i, 5 - m,
{
    if i < 0 || i >= items.len() || m < 0 {
    } else if m >= 5 {
        lemma_collect_ok(items, i + 1, 0, out);
    } else {
        match route_for(items[i], m) {
            Some(r) => {
                if route_ids(out).contains(r.id) {
                    lemma_collect_ok(items, i, m + 1, out);
                } else {
                    lemma_route_for_ok(items[i], m);
                    let next = out.push(r);
                    assert forall|k: int| 0 <= k < next.len() implies from_some_verb(
                        #[trigger] next[k],
                    ) by {
                        if k < out.len() {
                            assert(next[k] == out[k]);
                            assert(from_some_verb(out[k]));
                        } else {
                            assert(route_from_verb(next[k], m));
                        }
                    }
                    assert forall|a: int, b: int| 0 <= a < b < next.len() implies (
                    #[trigger] next[a]).id != (#[trigger] next[b]).id by {
                        assert(next[a] == out[a]);
                        if b == out.len() {
                            assert(next[b] == r);
                            assert(route_ids(out)[a] == out[a].id);
                            assert(out[a].id != r.id);
                        } else {
                            assert(next[b] == out[b]);
                            assert(out[a].id != out[b].id);
                        }
                    }
                    lemma_collect_ok(items, i, m + 1, next);
                }
            },
            None => {
                lemma_collect_ok(items, i, m + 1, out);
            },
        }
    }
}

/// Route `r` is the one verb `m` of item `i` contributes.
pub open spec fn contributed_by(items: Seq<OpenApiPathItem>, r: RouteV, i: int, m: int) -> bool {
    0 <= i < items.len() && 0 <= m < 5 && route_for(items[i], m) == Some(r)
}

/// Route `r` is contributed by some operation of `items`.
pub open spec fn has_source(items: Seq<OpenApiPathItem>, r: RouteV) -> bool {
    exists|i: int, m: int| #[trigger] contributed_by(items, r, i, m)
}

/// Every route of `rs` is contributed by an operation of `items`.
pub open spec fn routes_of_items(rs: Seq<RouteV>, items: Seq<OpenApiPathItem>) -> bool {
    forall|k: int| 0 <= k < rs.len() ==> #[trigger] has_source(items, rs[k])
}

proof fn lemma_collect_from_items(items: Seq<OpenApiPathItem>, i: int, m: int, out: Seq<RouteV>)
    requires
        routes_of_items(out, items),
    ensures
        routes_of_items(collect_routes(items, i, m, out), items),
    decreases items.len() - i, 5 - m,
{
    if i < 0 || i >= items.len() || m < 0 {
    } else if m >= 5 {
        lemma_collect_from_items(items, i + 1, 0, out);
    } else {
        match route_for(items[i], m) {
            Some(r) => {
                if route_ids(out).contains(r.id) {
                    lemma_collect_from_items(items, i, m + 1, out);
                } else {
                    let next = out.push(r);
                    assert forall|k: int| 0 <= k < next.len() implies #[trigger] has_source(
                        items,
                        next[k],
                    ) by {
                        if k < out.len() {
                            assert(next[k] == out[k]);
                            assert(has_source(items, out[k]));
                        } else {
                            assert(next[k] == r);
                            assert(contributed_by(items, next[k], i, m));
                        }
                    }
                    lemma_collect_from_items(items, i, m + 1, next);
                }
            },
            None => {
                lemma_collect_from_items(items, i, m + 1, out);
            },
        }
    }
}

/// Every route a catalogue is built with requires each of its path parameters,
/// and takes a body exactly when the operation it comes from declares a request
/// body.
pub proof fn lemma_built_routes(items: Seq<OpenApiPathItem>)
    ensures
        forall|k: int|
            #![trigger collect_routes(items, 0, 0, seq![])[k]]
            0 <= k < collect_routes(items, 0, 0, seq![]).len() ==> path_params_required(
                collect_routes(items, 0, 0, seq![])[k],
            ) && exists|i: int, m: int|
                #[trigger] contributed_by(items, collect_routes(items, 0, 0, seq![])[k], i, m) && (
                collect_routes(items, 0, 0, seq![])[k].has_body <==> op_at(items[i], m)->0.request_body
                    is Some),
{
    let rs = collect_routes(items, 0, 0, seq![]);
    lemma_collect_ok(items, 0, 0, seq![]);
    lemma_catalog_path_params_required(rs);
    lemma_collect_from_items(items, 0, 0, seq![]);
    assert forall|k: int| #![trigger rs[k]] 0 <= k < rs.len() implies path_params_required(rs[k])
        && exists|i: int, m: int|
        #[trigger] contributed_by(items, rs[k], i, m) && (rs[k].has_body <==> op_at(items[i], m)->0.request_body
            is Some) by {
        assert(has_source(items, rs[k]));
        let (i, m) = choose|i: int, m: int| #[trigger] contributed_by(items, rs[k], i, m);
        assert(contributed_by(items, rs[k], i, m));
    }
}

proof fn lemma_index_of_char_at(s: Seq<char>, c: char, i: int, k: int)
    requires
        0 <= i <= k < s.len(),
        s[k] == c,
        forall|j: int| i <= j < k ==> s[j] != c,
    ensures
        index_of_char_from(s, c, i) == k,
    decreases k - i,
{
    if i < k {
        lemma_index_of_char_at(s, c, i + 1, k);
    }
}

/// Of the five verbs only GET reads as `get`, in either case.
proof fn lemma_verb_is_get(m: int)
    requires
        0 <= m < 5,
    ensures
        eq_ignore_ascii_case(method_upper(m), "get"@) == (m == 0),
        eq_ignore_ascii_case(method_name(m), "get"@) == (m == 0),
{
    reveal_strlit("get");
    reveal_strlit("post");
    reveal_strlit("put");
    reveal_strlit("patch");
    reveal_strlit("delete");
    reveal_strlit("GET");
    reveal_strlit("POST");
    reveal_strlit("PUT");
    reveal_strlit("PATCH");
    reveal_strlit("DELETE");
    if m == 0 {
        assert forall|i: int| 0 <= i < 3 implies ascii_lower(#[trigger] method_upper(m)[i]) == ascii_lower(
            "get"@[i],
        ) by {
            assert(i == 0 || i == 1 || i == 2);
        }
        assert forall|i: int| 0 <= i < 3 implies ascii_lower(#[trigger] method_name(m)[i]) == ascii_lower(
            "get"@[i],
        ) by {
            assert(i == 0 || i == 1 || i == 2);
        }
    } else if m == 2 {
        assert(ascii_lower(method_upper(m)[0]) != ascii_lower("get"@[0]));
        assert(ascii_lower(method_name(m)[0]) != ascii_lower("get"@[0]));
    }
}

/// What a route of verb `m` promises: its path is not denylisted under its own
/// (uppercase) method either, its id is in the self-API plane and encodes the verb,
/// and it is mutating exactly when the verb is not GET.
pub proof fn lemma_route_id_encodes_verb(r: RouteV, m: int)
    requires
        route_from_verb(r, m),
    ensures
        !denied(r.path_template, r.method),
        starts_with(r.id, id_prefix()),
        method_of_id(r.id) == Some(method_name(m)),
        mutating_id(r.id) == (m != 0),
{
    reveal_strlit("ryu_api__");
    reveal_strlit("_");
    reveal_strlit("get");
    reveal_strlit("post");
    reveal_strlit("put");
    reveal_strlit("patch");
    reveal_strlit("delete");
    reveal_strlit("GET");
    reveal_strlit("POST");
    reveal_strlit("PUT");
    reveal_strlit("PATCH");
    reveal_strlit("DELETE");
    let name = method_name(m);
    lemma_verb_is_get(m);
    assert(eq_ignore_ascii_case(r.method, "get"@) == eq_ignore_ascii_case(name, "get"@));
    assert(r.id.take(9) =~= id_prefix());
    let rest = r.id.skip(9);
    assert(rest =~= name + "_"@ + slug_of(r.path_template));
    lemma_index_of_char_at(rest, '_', 0, name.len() as int);
    assert(rest.take(name.len() as int) =~= name);
}

}
