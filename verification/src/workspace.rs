//! The node-aware folder picker: which folder a listing request names, which
//! directory entries it shows, and in what order.
use vstd::prelude::*;
use crate::text::{CharClass, chars_of, string_of, trim_start, trim_ws, trimmed, trimmed_start};
use crate::titles::{lowercase, to_lowercase};
use crate::sorting::{in_order, keyed_views, sort_by_text_key, text_le};

verus! {

/// Which folder a listing request names.
pub enum ListTarget {
    /// The node's home directory (no path, or a blank one).
    Home,
    /// A path under the home directory (`~` and what follows it, leading
    /// separators dropped).
    UnderHome(String),
    /// The path as given (trimmed).
    Given(String),
}

pub enum ListTargetV {
    Home,
    UnderHome(Seq<char>),
    Given(Seq<char>),
}

pub open spec fn target_view(t: ListTarget) -> ListTargetV {
    match t {
        ListTarget::Home => ListTargetV::Home,
        ListTarget::UnderHome(s) => ListTargetV::UnderHome(s@),
        ListTarget::Given(s) => ListTargetV::Given(s@),
    }
}

/// The folder `path` names: the home when it is absent or blank; `~…` is under
/// the home; anything else is taken as given, trimmed.
pub open spec fn list_target_of(path: Option<Seq<char>>) -> ListTargetV {
    let t = match path {
        Some(p) => trim_ws(p),
        None => Seq::empty(),
    };
    if t.len() == 0 {
        ListTargetV::Home
    } else if t[0] == '~' {
        ListTargetV::UnderHome(trim_start(t.skip(1), CharClass::PathSep))
    } else {
        ListTargetV::Given(t)
    }
}

/// See `list_target_of`.
pub fn list_target(path: Option<&str>) -> (r: ListTarget)
    ensures
        target_view(r) == list_target_of(
            match path {
                Some(p) => Some(p@),
                None => None,
            },
        ),
{
    let t = match path {
        Some(p) => trimmed(&chars_of(p), CharClass::Whitespace),
        None => Vec::new(),
    };
    if t.len() == 0 {
        return ListTarget::Home;
    }
    if t[0] == '~' {
        let rest = crate::text::slice_vec(&t, 1, t.len());
        assert(rest@ == t@.skip(1));
        return ListTarget::UnderHome(string_of(&trimmed_start(&rest, CharClass::PathSep)));
    }
    ListTarget::Given(string_of(&t))
}

/// An entry read from a directory.
pub struct DirItem {
    pub name: String,
    /// The entry's path as the client is shown it.
    pub path: String,
    pub is_dir: bool,
}

/// A listed sub-directory.
pub struct DirEntry {
    pub name: String,
    pub path: String,
}

pub open spec fn is_hidden(name: Seq<char>) -> bool {
    name.len() > 0 && name[0] == '.'
}

/// Only directories are listed, and no hidden ones.
pub open spec fn is_listed(i: DirItem) -> bool {
    i.is_dir && !is_hidden(i.name@)
}

/// The `(name, path)` of each listed item, in read order.
pub open spec fn listed_entries(items: Seq<DirItem>) -> Seq<(Seq<char>, Seq<char>)>
    decreases items.len(),
{
    if items.len() == 0 {
        seq![]
    } else {
        let rest = listed_entries(items.drop_last());
        if is_listed(items.last()) {
            rest.push((items.last().name@, items.last().path@))
        } else {
            rest
        }
    }
}

pub open spec fn entry_views(es: Seq<DirEntry>) -> Seq<(Seq<char>, Seq<char>)> {
    es.map_values(|e: DirEntry| (e.name@, e.path@))
}

/// Sorted by lowercased name.
pub open spec fn sorted_by_name(es: Seq<DirEntry>) -> bool {
    forall|i: int, j: int|
        0 <= i < j < es.len() ==> text_le(lowercase(#[trigger] es[i].name@), lowercase(
            #[trigger] es[j].name@,
        ))
}

/// Whether an entry's lowercased name is `k`.
pub open spec fn lowercase_is(k: Seq<char>) -> spec_fn((Seq<char>, Seq<char>)) -> bool {
    |e: (Seq<char>, Seq<char>)| lowercase(e.0) == k
}

/// The `(name, path)` entries whose lowercased name is `k`, in their order.
pub open spec fn named_alike(es: Seq<(Seq<char>, Seq<char>)>, k: Seq<char>) -> Seq<
    (Seq<char>, Seq<char>),
> {
    es.filter(lowercase_is(k))
}

/// A listed entry with its sort key, the lowercased name.
spec fn keyed_ok(k: (Vec<char>, DirEntry)) -> bool {
    k.0@ == lowercase(k.1.name@)
}

spec fn keyed_entries(ks: Seq<(Vec<char>, DirEntry)>) -> Seq<DirEntry> {
    ks.map_values(|k: (Vec<char>, DirEntry)| k.1)
}

/// Two keyed lists with the same keyed multiset list the same entries, and the
/// second keeps the keys right.
proof fn lemma_keyed_views_multiset(a: Seq<(Vec<char>, DirEntry)>, b: Seq<(Vec<char>, DirEntry)>)
    requires
        keyed_views(b).to_multiset() == keyed_views(a).to_multiset(),
        forall|j: int| 0 <= j < a.len() ==> keyed_ok(#[trigger] a[j]),
    ensures
        entry_views(keyed_entries(b)).to_multiset() == entry_views(keyed_entries(a)).to_multiset(),
        forall|j: int| 0 <= j < b.len() ==> keyed_ok(#[trigger] b[j]),
{
    let h = |q: (Seq<char>, DirEntry)| (q.1.name@, q.1.path@);
    crate::sorting::lemma_multiset_map(keyed_views(b), keyed_views(a), h);
    assert(keyed_views(b).map_values(h) =~= entry_views(keyed_entries(b)));
    assert(keyed_views(a).map_values(h) =~= entry_views(keyed_entries(a)));
    assert forall|j: int| 0 <= j < b.len() implies keyed_ok(#[trigger] b[j]) by {
        let kv = keyed_views(b)[j];
        vstd::seq_lib::to_multiset_contains(keyed_views(b), kv);
        vstd::seq_lib::to_multiset_contains(keyed_views(a), kv);
        let i = choose|i: int| 0 <= i < a.len() && keyed_views(a)[i] == kv;
        assert(keyed_ok(a[i]));
    }
}

/// The keyed items whose key is `k`, as entries: the entries whose lowercased
/// name is `k`.
proof fn lemma_named_alike(a: Seq<(Vec<char>, DirEntry)>, k: Seq<char>)
    requires
        forall|j: int| 0 <= j < a.len() ==> keyed_ok(#[trigger] a[j]),
    ensures
        crate::sorting::with_key(keyed_views(a), k).map_values(
            |q: (Seq<char>, DirEntry)| (q.1.name@, q.1.path@),
        ) == named_alike(entry_views(keyed_entries(a)), k),
{
    let h = |q: (Seq<char>, DirEntry)| (q.1.name@, q.1.path@);
    let kv = keyed_views(a);
    assert forall|i: int| 0 <= i < kv.len() implies crate::sorting::key_is::<DirEntry>(k)(
        #[trigger] kv[i],
    ) == lowercase_is(k)(h(kv[i])) by {
        assert(keyed_ok(a[i]));
    }
    crate::sorting::lemma_filter_map_values(kv, h, crate::sorting::key_is::<DirEntry>(k), lowercase_is(k));
    assert(kv.map_values(h) =~= entry_views(keyed_entries(a)));
}

/// The directories of a listing, hidden entries left out, sorted by lowercased
/// name; entries whose lowercased names are equal keep their read order.
pub fn directory_entries(items: &Vec<DirItem>) -> (r: Vec<DirEntry>)
    ensures
        entry_views(r@).to_multiset() == listed_entries(items@).to_multiset(),
        sorted_by_name(r@),
        forall|k: Seq<char>| #[trigger] named_alike(entry_views(r@), k) == named_alike(
            listed_entries(items@),
            k,
        ),
{
    // The listed entries, in read order, keyed by lowercased name.
    let mut out: Vec<(Vec<char>, DirEntry)> = Vec::new();
    let mut i: usize = 0;
    while i < items.len()
        invariant
            i <= items.len(),
            entry_views(keyed_entries(out@)) == listed_entries(items@.take(i as int)),
            forall|j: int| 0 <= j < out.len() ==> keyed_ok(#[trigger] out@[j]),
        decreases items.len() - i,
    {
        let it = &items[i];
        proof {
            assert(items@.take(i + 1).drop_last() =~= items@.take(i as int));
        }
        let name = chars_of(it.name.as_str());
        let hidden = name.len() > 0 && name[0] == '.';
        if it.is_dir && !hidden {
            let key = chars_of(to_lowercase(it.name.as_str()).as_str());
            let ghost before = out@;
            out.push((key, DirEntry { name: it.name.clone(), path: it.path.clone() }));
            proof {
                assert(entry_views(keyed_entries(out@)) =~= entry_views(keyed_entries(before)).push(
                    (it.name@, it.path@),
                ));
            }
        } else {
            proof {
                assert(!is_listed(items@.take(i + 1).last()));
            }
        }
        i = i + 1;
    }
    proof {
        assert(items@.take(items.len() as int) =~= items@);
    }
    let ghost unsorted = out@;
    let sorted = sort_by_text_key(out, false);
    proof {
        lemma_keyed_views_multiset(unsorted, sorted@);
    }
    // The entries, without their keys.
    let mut r: Vec<DirEntry> = Vec::new();
    let mut k: usize = 0;
    while k < sorted.len()
        invariant
            k <= sorted.len(),
            r.len() == k,
            forall|j: int| 0 <= j < sorted.len() ==> keyed_ok(#[trigger] sorted@[j]),
            forall|j: int| 0 <= j < k ==> (#[trigger] r@[j]).name@ == sorted@[j].1.name@ && r@[j].path@ == sorted@[j].1.path@,
        decreases sorted.len() - k,
    {
        r.push(DirEntry { name: sorted[k].1.name.clone(), path: sorted[k].1.path.clone() });
        k = k + 1;
    }
    proof {
        assert(entry_views(r@) =~= entry_views(keyed_entries(sorted@)));
        assert forall|k: Seq<char>| #[trigger] named_alike(entry_views(r@), k) == named_alike(
            listed_entries(items@),
            k,
        ) by {
            lemma_named_alike(sorted@, k);
            lemma_named_alike(unsorted, k);
        }
        assert forall|a: int, b: int| 0 <= a < b < r.len() implies text_le(
            lowercase(#[trigger] r@[a].name@),
            lowercase(#[trigger] r@[b].name@),
        ) by {
            assert(keyed_ok(sorted@[a]) && keyed_ok(sorted@[b]));
            assert(in_order(false, sorted@[a].0@, sorted@[b].0@));
        }
    }
    r
}

/// A listing stays inside the node's home tree: the home itself or a path with
/// the home as a prefix (by whole components). Outside it the request is refused
/// (`workspace path must stay inside the node home directory`, a 403).
pub fn listing_allowed(target: &str, home: &str) -> (r: bool)
    ensures
        r == (target@ == home@ || crate::git::path_within(target@, home@)),
{
    crate::text::eq_chars(&chars_of(target), &chars_of(home)) || crate::git::has_path_prefix(
        target,
        home,
    )
}

/// The name a new project folder gets: the requested name trimmed, refused
/// when it is not a single safe segment (see `validate_folder_name`).
pub fn project_folder_name(raw: &str) -> (r: Result<String, String>)
    ensures
        match r {
            Ok(n) => n@ == trim_ws(raw@) && crate::git::folder_name_error(n@) is None,
            Err(e) => crate::git::folder_name_error(trim_ws(raw@)) == Some(e@),
        },
{
    let name = string_of(&trimmed(&chars_of(raw), CharClass::Whitespace));
    match crate::git::validate_folder_name(name.as_str()) {
        Ok(()) => Ok(name),
        Err(e) => Err(e),
    }
}

/// The refusal of a new folder whose name is taken.
pub fn folder_exists_message(name: &str) -> (r: String)
    ensures
        r@ == "A folder named \""@ + name@ + "\" already exists"@,
{
    let a = crate::ids::prefixed("A folder named \"", name);
    crate::ids::prefixed(a.as_str(), "\" already exists")
}

} // verus!
