//! Creative canvases: which ids may name a board file, how a save merges into the
//! stored board, and the sidebar summary of a board.
use vstd::prelude::*;
use crate::text::{
    CharClass, append_chars, chars_of, is_ascii_alnum, push_decimal, starts_with_chars,
    starts_with, string_of, trim_ws, trimmed, decimal, char_is_ascii_alnum,
};

verus! {

/// An id that cannot escape the storage directory: 1 to 128 characters, each an
/// ASCII alphanumeric, `_` or `-` (so as many bytes as characters).
pub open spec fn id_ok(id: Seq<char>) -> bool {
    &&& id.len() > 0
    &&& id.len() <= 128
    &&& forall|i: int| 0 <= i < id.len() ==> (is_ascii_alnum(#[trigger] id[i]) || id[i] == '_'
        || id[i] == '-')
}

/// Whether a canvas id is safe to use as a file name.
pub fn validate_id(id: &str) -> (r: bool)
    ensures
        r == id_ok(id@),
{
    let v = chars_of(id);
    if v.len() == 0 || v.len() > 128 {
        return false;
    }
    let mut i: usize = 0;
    while i < v.len()
        invariant
            i <= v.len(),
            v@ == id@,
            0 < v.len() <= 128,
            forall|j: int| 0 <= j < i ==> (is_ascii_alnum(#[trigger] v@[j]) || v@[j] == '_' || v@[j]
                == '-'),
        decreases v.len() - i,
    {
        let c = v[i];
        if !(char_is_ascii_alnum(c) || c == '_' || c == '-') {
            return false;
        }
        i = i + 1;
    }
    true
}

/// Body of `POST /api/canvases`.
pub struct CreateCanvasBody {
    pub id: Option<String>,
    pub name: Option<String>,
}

/// The name a board gets: the given name when non-blank, else "Untitled canvas".
pub open spec fn canvas_name_of(name: Option<Seq<char>>) -> Seq<char> {
    match name {
        Some(n) => if trim_ws(n).len() > 0 {
            n
        } else {
            "Untitled canvas"@
        },
        None => "Untitled canvas"@,
    }
}

/// The name a board gets (see `canvas_name_of`).
pub fn canvas_name(name: Option<&str>) -> (r: String)
    ensures
        r@ == canvas_name_of(
            match name {
                Some(n) => Some(n@),
                None => None,
            },
        ),
{
    match name {
        Some(n) => {
            if trimmed(&chars_of(n), CharClass::Whitespace).len() > 0 {
                n.to_owned()
            } else {
                "Untitled canvas".to_owned()
            }
        },
        None => "Untitled canvas".to_owned(),
    }
}

/// The decimal text of a signed number.
pub open spec fn signed_decimal(n: int) -> Seq<char> {
    if n >= 0 {
        decimal(n as nat)
    } else {
        seq!['-'] + decimal((-n) as nat)
    }
}

/// The id a new board gets: the client's when it is valid (`None` when it is not),
/// else `cnv-` and the creation time in milliseconds.
pub fn create_canvas_id(requested: Option<&str>, now_millis: i64) -> (r: Option<String>)
    ensures
        match requested {
            Some(id) => if id_ok(id@) {
                (r matches Some(x) && x@ == id@)
            } else {
                r is None
            },
            None => (r matches Some(x) && x@ == "cnv-"@ + signed_decimal(now_millis as int)),
        },
{
    match requested {
        Some(id) => {
            if validate_id(id) {
                Some(id.to_owned())
            } else {
                None
            }
        },
        None => {
            let mut v = chars_of("cnv-");
            if now_millis >= 0 {
                push_decimal(&mut v, now_millis as u64);
            } else {
                v.push('-');
                let magnitude: u64 = if now_millis == i64::MIN {
                    9223372036854775808u64
                } else {
                    (-now_millis) as u64
                };
                push_decimal(&mut v, magnitude);
            }
            Some(string_of(&v))
        },
    }
}

/// `cnv-` and a time in milliseconds.
pub open spec fn time_id(now_millis: i64) -> Seq<char> {
    "cnv-"@ + signed_decimal(now_millis as int)
}

/// The id a new board gets now: the client's when it is valid (`None` when it is
/// not), else `cnv-` and the node's clock in milliseconds.
pub fn new_canvas_id(requested: Option<&str>) -> (r: Option<String>)
    ensures
        match requested {
            Some(id) => if id_ok(id@) {
                (r matches Some(x) && x@ == id@)
            } else {
                r is None
            },
            None => exists|now: i64| (r matches Some(x) && x@ == #[trigger] time_id(now)),
        },
{
    match requested {
        Some(_) => create_canvas_id(requested, 0),
        None => {
            let now = crate::ids::now_millis();
            let r = create_canvas_id(requested, now);
            assert(r matches Some(x) && x@ == time_id(now));
            r
        },
    }
}

/// A stored board. `nodes`, `edges` and `viewport` are JSON texts owned by the
/// desktop board.
pub struct CanvasRecord {
    pub id: String,
    pub name: String,
    pub nodes: String,
    pub edges: String,
    pub viewport: Option<String>,
    pub created_at: String,
    pub updated_at: String,
}

/// Body of `PUT /api/canvases/:id`; each absent field keeps its stored value.
pub struct SaveCanvasBody {
    pub name: Option<String>,
    pub nodes: Option<String>,
    pub edges: Option<String>,
    pub viewport: Option<String>,
}

pub open spec fn ov(o: Option<String>) -> Option<Seq<char>> {
    match o {
        Some(s) => Some(s@),
        None => None,
    }
}

/// A board, as plain values.
pub open spec fn record_view(c: CanvasRecord) -> (
    Seq<char>,
    Seq<char>,
    Seq<char>,
    Seq<char>,
    Option<Seq<char>>,
    Seq<char>,
    Seq<char>,
) {
    (c.id@, c.name@, c.nodes@, c.edges@, ov(c.viewport), c.created_at@, c.updated_at@)
}

/// The board a save leaves: the body's non-blank name, else the stored name, else
/// "Untitled canvas"; the body's nodes, edges and viewport, else the stored ones
/// (an empty array when there are none); the stored creation time when it is set,
/// else now; updated now.
pub open spec fn merged_canvas(
    id: Seq<char>,
    body: SaveCanvasBody,
    existing: Option<CanvasRecord>,
    now: Seq<char>,
) -> (Seq<char>, Seq<char>, Seq<char>, Seq<char>, Option<Seq<char>>, Seq<char>, Seq<char>) {
    let name = match body.name {
        Some(n) if trim_ws(n@).len() > 0 => n@,
        _ => match existing {
            Some(e) => e.name@,
            None => "Untitled canvas"@,
        },
    };
    let nodes = match body.nodes {
        Some(n) => n@,
        None => match existing {
            Some(e) => e.nodes@,
            None => "[]"@,
        },
    };
    let edges = match body.edges {
        Some(n) => n@,
        None => match existing {
            Some(e) => e.edges@,
            None => "[]"@,
        },
    };
    let viewport = match body.viewport {
        Some(v) => Some(v@),
        None => match existing {
            Some(e) => ov(e.viewport),
            None => None,
        },
    };
    let created_at = match existing {
        Some(e) => if e.created_at@.len() > 0 {
            e.created_at@
        } else {
            now
        },
        None => now,
    };
    (id, name, nodes, edges, viewport, created_at, now)
}

/// Merge a save into the stored board (see `merged_canvas`): a name-only rename
/// keeps the graph.
pub fn merge_canvas(id: String, body: SaveCanvasBody, existing: Option<CanvasRecord>, now: String) -> (r:
    CanvasRecord)
    ensures
        record_view(r) == merged_canvas(id@, body, existing, now@),
{
    let name = match body.name {
        Some(n) if trimmed(&chars_of(n.as_str()), CharClass::Whitespace).len() > 0 => n,
        _ => match &existing {
            Some(e) => e.name.clone(),
            None => "Untitled canvas".to_owned(),
        },
    };
    let nodes = match body.nodes {
        Some(n) => n,
        None => match &existing {
            Some(e) => e.nodes.clone(),
            None => "[]".to_owned(),
        },
    };
    let edges = match body.edges {
        Some(n) => n,
        None => match &existing {
            Some(e) => e.edges.clone(),
            None => "[]".to_owned(),
        },
    };
    let viewport = match body.viewport {
        Some(v) => Some(v),
        None => match &existing {
            Some(e) => match &e.viewport {
                Some(v) => Some(v.clone()),
                None => None,
            },
            None => None,
        },
    };
    let created_at = match &existing {
        Some(e) => if e.created_at.as_str().unicode_len() > 0 {
            e.created_at.clone()
        } else {
            now.clone()
        },
        None => now.clone(),
    };
    CanvasRecord { id, name, nodes, edges, viewport, created_at, updated_at: now }
}

/// A rename keeps the board: a save that carries only a new name leaves the
/// stored nodes, edges, viewport and creation time as they were.
pub proof fn lemma_rename_keeps_graph(
    id: Seq<char>,
    name: Option<String>,
    existing: CanvasRecord,
    now: Seq<char>,
)
    requires
        existing.created_at@.len() > 0,
    ensures
        ({
            let m = merged_canvas(
                id,
                SaveCanvasBody { name, nodes: None, edges: None, viewport: None },
                Some(existing),
                now,
            );
            &&& m.2 == existing.nodes@
            &&& m.3 == existing.edges@
            &&& m.4 == ov(existing.viewport)
            &&& m.5 == existing.created_at@
        }),
{
}

/// The `data` of a board node, as far as thumbnails read it (each field present
/// when it is a string).
pub struct CanvasNodeData {
    pub thumbnail: Option<String>,
    pub result: Option<String>,
    pub output: Option<String>,
    pub url: Option<String>,
}

/// A usable thumbnail URL: non-empty and not an inline `data:` URL.
pub open spec fn usable_url(o: Option<String>) -> bool {
    o matches Some(s) && s@.len() > 0 && !starts_with(s@, "data:"@)
}

/// The node's thumbnail: the first usable of `thumbnail`, `result`, `output`,
/// `url`.
pub open spec fn node_thumbnail(d: CanvasNodeData) -> Option<Seq<char>> {
    if usable_url(d.thumbnail) {
        ov(d.thumbnail)
    } else if usable_url(d.result) {
        ov(d.result)
    } else if usable_url(d.output) {
        ov(d.output)
    } else if usable_url(d.url) {
        ov(d.url)
    } else {
        None
    }
}

/// The board's thumbnail, scanning nodes in order: the first node thumbnail; the
/// scan stops with none at the first node without `data`.
pub open spec fn thumbnail_from(nodes: Seq<Option<CanvasNodeData>>, i: int) -> Option<Seq<char>>
    decreases nodes.len() - i,
{
    if i < 0 || i >= nodes.len() {
        None
    } else {
        match nodes[i] {
            None => None,
            Some(d) => match node_thumbnail(d) {
                Some(t) => Some(t),
                None => thumbnail_from(nodes, i + 1),
            },
        }
    }
}

fn usable(o: &Option<String>) -> (r: bool)
    ensures
        r == usable_url(*o),
{
    match o {
        Some(s) => {
            let v = chars_of(s.as_str());
            v.len() > 0 && !starts_with_chars(&v, &chars_of("data:"))
        },
        None => false,
    }
}

fn clone_opt(o: &Option<String>) -> (r: Option<String>)
    ensures
        ov(r) == ov(*o),
{
    match o {
        Some(s) => Some(s.clone()),
        None => None,
    }
}

/// The sidebar thumbnail of a board: `nodes` is `None` when the board's nodes are
/// not an array, otherwise each node's `data` (`None` when it has none).
pub fn thumbnail_of(nodes: Option<&Vec<Option<CanvasNodeData>>>) -> (r: Option<String>)
    ensures
        ov(r) == match nodes {
            Some(ns) => thumbnail_from(ns@, 0),
            None => None,
        },
{
    let ns = match nodes {
        None => return None,
        Some(ns) => ns,
    };
    let mut i: usize = 0;
    while i < ns.len()
        invariant
            i <= ns.len(),
            nodes == Some(ns),
            thumbnail_from(ns@, 0) == thumbnail_from(ns@, i as int),
        decreases ns.len() - i,
    {
        match &ns[i] {
            None => return None,
            Some(d) => {
                if usable(&d.thumbnail) {
                    return clone_opt(&d.thumbnail);
                }
                if usable(&d.result) {
                    return clone_opt(&d.result);
                }
                if usable(&d.output) {
                    return clone_opt(&d.output);
                }
                if usable(&d.url) {
                    return clone_opt(&d.url);
                }
            },
        }
        i = i + 1;
    }
    None
}

/// A legacy board file is imported when its extension is exactly `json` (an
/// imported one was renamed to `json.migrated`).
pub fn is_unmigrated_board_file(extension: Option<&str>) -> (r: bool)
    ensures
        r == (extension matches Some(e) && e@ == "json"@),
{
    match extension {
        Some(e) => crate::text::eq_chars(&chars_of(e), &chars_of("json")),
        None => false,
    }
}

/// A legacy board file as the importer reads it: `name` when it is a string, and
/// the JSON texts of `nodes`, `edges` and `viewport` when present.
pub struct LegacyBoard {
    pub name: Option<String>,
    pub nodes: Option<String>,
    pub edges: Option<String>,
    pub viewport: Option<String>,
}

pub open spec fn opt_text(o: Option<String>) -> Option<Seq<char>> {
    match o {
        Some(s) => Some(s@),
        None => None,
    }
}

pub open spec fn legacy_view(b: LegacyBoard) -> (
    Option<Seq<char>>,
    Option<Seq<char>>,
    Option<Seq<char>>,
    Option<Seq<char>>,
) {
    (opt_text(b.name), opt_text(b.nodes), opt_text(b.edges), opt_text(b.viewport))
}

/// What `serde_json::from_slice` makes of a legacy board file's bytes: `None` when
/// they are not JSON; else the `name` member when it is a string, and the compact
/// JSON texts of the `nodes`, `edges` and `viewport` members when present.
pub uninterp spec fn legacy_board_of(bytes: Seq<u8>) -> Option<
    (Option<Seq<char>>, Option<Seq<char>>, Option<Seq<char>>, Option<Seq<char>>),
>;

/// `serde_json::from_slice::<serde_json::Value>(bytes)`, with the members the
/// importer reads picked out (`name` as a string; `nodes`, `edges`, `viewport` as
/// their JSON texts). Which bytes parse, and to what, is named by
/// `legacy_board_of`.
#[verifier::external_body]
fn read_legacy_board(bytes: &[u8]) -> (r: Option<LegacyBoard>)
    ensures
        match r {
            Some(b) => legacy_board_of(bytes@) == Some(legacy_view(b)),
            None => legacy_board_of(bytes@) is None,
        },
{
    let v: serde_json::Value = serde_json::from_slice(bytes).ok()?;
    let text = |k: &str| v.get(k).map(|x| x.to_string());
    Some(LegacyBoard {
        name: v.get("name").and_then(|x| x.as_str()).map(|x| x.to_owned()),
        nodes: text("nodes"),
        edges: text("edges"),
        viewport: text("viewport"),
    })
}

/// The JSON text of a board's member, `[]` when it is missing.
pub open spec fn or_empty_array(o: Option<Seq<char>>) -> Seq<char> {
    match o {
        Some(t) => t,
        None => "[]"@,
    }
}

fn text_or_empty_array(o: Option<String>) -> (r: String)
    ensures
        r@ == or_empty_array(opt_text(o)),
{
    match o {
        Some(t) => t,
        None => "[]".to_owned(),
    }
}

/// A legacy board file imported as a Canvas scene: `None` (the file is skipped)
/// when it is not JSON; else the board's name (see `canvas_name_of`) and its
/// scene: the name, nodes and edges (`[]` when missing), and the viewport when
/// present.
pub fn legacy_board_scene(bytes: &[u8]) -> (r: Option<(String, LegacyBoard)>)
    ensures
        match legacy_board_of(bytes@) {
            None => r is None,
            Some(b) => (r matches Some(s) && s.0@ == canvas_name_of(b.0) && opt_text(s.1.name)
                == Some(s.0@) && opt_text(s.1.nodes) == Some(or_empty_array(b.1)) && opt_text(
                s.1.edges,
            ) == Some(or_empty_array(b.2)) && opt_text(s.1.viewport) == b.3),
        },
{
    let b = match read_legacy_board(bytes) {
        Some(b) => b,
        None => {
            return None;
        },
    };
    let name = match &b.name {
        Some(n) => canvas_name(Some(n.as_str())),
        None => canvas_name(None),
    };
    let scene = LegacyBoard {
        name: Some(name.clone()),
        nodes: Some(text_or_empty_array(b.nodes)),
        edges: Some(text_or_empty_array(b.edges)),
        viewport: b.viewport,
    };
    Some((name, scene))
}

/// A board as the list endpoint shows it.
pub struct CanvasSummary {
    pub id: String,
    pub name: String,
    pub node_count: usize,
    pub thumbnail: Option<String>,
    pub created_at: String,
    pub updated_at: String,
}

/// Whether a board was last updated at `t`.
pub open spec fn updated_at_is(t: Seq<char>) -> spec_fn(CanvasSummary) -> bool {
    |b: CanvasSummary| b.updated_at@ == t
}

/// The boards last updated at `t`, in their order.
pub open spec fn updated_alike(boards: Seq<CanvasSummary>, t: Seq<char>) -> Seq<CanvasSummary> {
    boards.filter(updated_at_is(t))
}

/// The list endpoint's order: most recently updated first (by the text of
/// `updated_at`), every board kept, boards updated at the same time in their
/// given order.
pub fn newest_first(boards: Vec<CanvasSummary>) -> (r: Vec<CanvasSummary>)
    ensures
        r@.to_multiset() == boards@.to_multiset(),
        forall|i: int, j: int|
            0 <= i < j < r.len() ==> crate::sorting::text_le(
                (#[trigger] r@[j]).updated_at@,
                (#[trigger] r@[i]).updated_at@,
            ),
        forall|t: Seq<char>| #[trigger] updated_alike(r@, t) == updated_alike(boards@, t),
{
    let ghost orig = boards@;
    let mut keyed: Vec<(Vec<char>, CanvasSummary)> = Vec::new();
    let mut rest = boards;
    let ghost mut done: Seq<CanvasSummary> = seq![];
    proof {
        assert(done + rest@ =~= orig);
    }
    while rest.len() > 0
        invariant
            done + rest@ == orig,
            keyed@.map_values(|p: (Vec<char>, CanvasSummary)| p.1) == done,
            forall|j: int| 0 <= j < keyed.len() ==> (#[trigger] keyed@[j]).0@ == keyed@[j].1.updated_at@,
        decreases rest.len(),
    {
        let ghost before_rest = rest@;
        let ghost before = keyed@;
        let b = rest.remove(0);
        proof {
            assert(before_rest[0] == b);
            assert(done.push(b) + rest@ =~= done + before_rest);
            done = done.push(b);
        }
        let key = chars_of(b.updated_at.as_str());
        keyed.push((key, b));
        proof {
            assert(keyed@.map_values(|p: (Vec<char>, CanvasSummary)| p.1) =~= before.map_values(
                |p: (Vec<char>, CanvasSummary)| p.1,
            ).push(b));
        }
    }
    proof {
        assert(done =~= orig);
    }
    let ghost unsorted = keyed@;
    let sorted = crate::sorting::sort_by_text_key(keyed, true);
    let ghost h = |q: (Seq<char>, CanvasSummary)| q.1;
    proof {
        crate::sorting::lemma_multiset_map(
            crate::sorting::keyed_views(sorted@),
            crate::sorting::keyed_views(unsorted),
            h,
        );
        assert(crate::sorting::keyed_views(sorted@).map_values(h) =~= sorted@.map_values(
            |p: (Vec<char>, CanvasSummary)| p.1,
        ));
        assert(crate::sorting::keyed_views(unsorted).map_values(h) =~= unsorted.map_values(
            |p: (Vec<char>, CanvasSummary)| p.1,
        ));
        assert forall|j: int| 0 <= j < sorted.len() implies (#[trigger] sorted@[j]).0@
            == sorted@[j].1.updated_at@ by {
            let kv = crate::sorting::keyed_views(sorted@)[j];
            vstd::seq_lib::to_multiset_contains(crate::sorting::keyed_views(sorted@), kv);
            vstd::seq_lib::to_multiset_contains(crate::sorting::keyed_views(unsorted), kv);
            let i = choose|i: int|
                0 <= i < unsorted.len() && crate::sorting::keyed_views(unsorted)[i] == kv;
            assert(unsorted[i].0@ == unsorted[i].1.updated_at@);
        }
    }
    let mut sorted = sorted;
    let mut r: Vec<CanvasSummary> = Vec::new();
    let ghost all = sorted@;
    let mut k: usize = 0;
    assert(all.skip(0) =~= all);
    assert(all.len() == sorted.len());
    while sorted.len() > 0
        invariant
            k + sorted.len() == all.len(),
            all.len() <= usize::MAX,
            sorted@ == all.skip(k as int),
            r@ == all.take(k as int).map_values(|p: (Vec<char>, CanvasSummary)| p.1),
        decreases sorted.len(),
    {
        let (_, b) = sorted.remove(0);
        let ghost before = r@;
        r.push(b);
        proof {
            assert(all.take(k + 1).map_values(|p: (Vec<char>, CanvasSummary)| p.1) =~= all.take(
                k as int,
            ).map_values(|p: (Vec<char>, CanvasSummary)| p.1).push(b));
            assert(sorted@ =~= all.skip(k + 1));
        }
        k = k + 1;
    }
    proof {
        assert(all.take(k as int) =~= all);
        assert forall|i: int, j: int|
            0 <= i < j < r.len() implies crate::sorting::text_le(
            (#[trigger] r@[j]).updated_at@,
            (#[trigger] r@[i]).updated_at@,
        ) by {
            assert(crate::sorting::in_order(true, all[i].0@, all[j].0@));
        }
        assert forall|t: Seq<char>| #[trigger] updated_alike(r@, t) == updated_alike(orig, t) by {
            let kvs = crate::sorting::keyed_views(all);
            let kvu = crate::sorting::keyed_views(unsorted);
            let q = crate::sorting::key_is::<CanvasSummary>(t);
            assert forall|i: int| 0 <= i < kvs.len() implies q(#[trigger] kvs[i]) == updated_at_is(t)(
                h(kvs[i]),
            ) by {
                assert(all[i].0@ == all[i].1.updated_at@);
            }
            assert forall|i: int| 0 <= i < kvu.len() implies q(#[trigger] kvu[i]) == updated_at_is(t)(
                h(kvu[i]),
            ) by {
                assert(unsorted[i].0@ == unsorted[i].1.updated_at@);
            }
            crate::sorting::lemma_filter_map_values(kvs, h, q, updated_at_is(t));
            crate::sorting::lemma_filter_map_values(kvu, h, q, updated_at_is(t));
            assert(kvs.map_values(h) =~= r@);
            assert(kvu.map_values(h) =~= orig);
            assert(crate::sorting::with_key(kvs, t) == crate::sorting::with_key(kvu, t));
        }
    }
    r
}

} // verus!
