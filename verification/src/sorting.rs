//! Ordering texts and sorting keyed items by their text keys.
use vstd::prelude::*;

verus! {

/// Lexicographic order of texts by character (`str` ordering).
pub open spec fn text_lt(a: Seq<char>, b: Seq<char>) -> bool
    decreases a.len(),
{
    if a.len() == 0 {
        b.len() > 0
    } else if b.len() == 0 {
        false
    } else if a[0] != b[0] {
        (a[0] as int) < (b[0] as int)
    } else {
        text_lt(a.drop_first(), b.drop_first())
    }
}

/// `a` sorts no later than `b`.
pub open spec fn text_le(a: Seq<char>, b: Seq<char>) -> bool {
    !text_lt(b, a)
}

/// No text sorts before itself.
pub proof fn lemma_text_lt_irreflexive(a: Seq<char>)
    ensures
        !text_lt(a, a),
    decreases a.len(),
{
    if a.len() > 0 {
        lemma_text_lt_irreflexive(a.drop_first());
    }
}

/// Of two texts, one sorts before the other or they are equal.
pub proof fn lemma_text_lt_trichotomy(a: Seq<char>, b: Seq<char>)
    ensures
        text_lt(a, b) || a == b || text_lt(b, a),
    decreases a.len(),
{
    if a.len() == 0 && b.len() == 0 {
        assert(a =~= b);
    }
    if a.len() > 0 && b.len() > 0 && a[0] != b[0] {
        assert((a[0] as int) != (b[0] as int));
    }
    if a.len() > 0 && b.len() > 0 && a[0] == b[0] {
        lemma_text_lt_trichotomy(a.drop_first(), b.drop_first());
        if a.drop_first() == b.drop_first() {
            assert(a =~= seq![a[0]] + a.drop_first());
            assert(b =~= seq![b[0]] + b.drop_first());
        }
    }
}

/// Sorting before is transitive.
pub proof fn lemma_text_lt_transitive(a: Seq<char>, b: Seq<char>, c: Seq<char>)
    requires
        text_lt(a, b),
        text_lt(b, c),
    ensures
        text_lt(a, c),
    decreases a.len(),
{
    if a.len() > 0 && a[0] == b[0] && b[0] == c[0] {
        lemma_text_lt_transitive(a.drop_first(), b.drop_first(), c.drop_first());
    }
}

/// `str` ordering of two character vectors.
pub fn chars_lt(a: &Vec<char>, b: &Vec<char>) -> (r: bool)
    ensures
        r == text_lt(a@, b@),
{
    let mut i: usize = 0;
    assert(a@.skip(0) =~= a@);
    assert(b@.skip(0) =~= b@);
    while i < a.len() && i < b.len()
        invariant
            i <= a.len(),
            i <= b.len(),
            forall|k: int| 0 <= k < i ==> a@[k] == b@[k],
            text_lt(a@, b@) == text_lt(a@.skip(i as int), b@.skip(i as int)),
        decreases a.len() - i,
    {
        assert(a@.skip(i as int).drop_first() =~= a@.skip(i + 1));
        assert(b@.skip(i as int).drop_first() =~= b@.skip(i + 1));
        if a[i] != b[i] {
            return a[i] < b[i];
        }
        i = i + 1;
    }
    b.len() > i
}

/// Key `a` goes strictly before key `b`: earlier in `str` order ascending, later
/// descending.
pub open spec fn goes_before(descending: bool, a: Seq<char>, b: Seq<char>) -> bool {
    if descending {
        text_lt(b, a)
    } else {
        text_lt(a, b)
    }
}

fn key_before(descending: bool, a: &Vec<char>, b: &Vec<char>) -> (r: bool)
    ensures
        r == goes_before(descending, a@, b@),
{
    if descending {
        chars_lt(b, a)
    } else {
        chars_lt(a, b)
    }
}

/// Key `a` may stand before key `b`.
pub open spec fn in_order(descending: bool, a: Seq<char>, b: Seq<char>) -> bool {
    !goes_before(descending, b, a)
}

/// Sorted by key, in the given direction.
pub open spec fn keys_sorted<T>(items: Seq<(Vec<char>, T)>, descending: bool) -> bool {
    forall|i: int, j: int|
        0 <= i < j < items.len() ==> in_order(descending, (#[trigger] items[i]).0@, (#[trigger] items[j]).0@)
}

/// The items with their keys as texts.
pub open spec fn keyed_views<T>(items: Seq<(Vec<char>, T)>) -> Seq<(Seq<char>, T)> {
    items.map_values(|p: (Vec<char>, T)| (p.0@, p.1))
}

/// Whether an item's key is `k`.
pub open spec fn key_is<T>(k: Seq<char>) -> spec_fn((Seq<char>, T)) -> bool {
    |p: (Seq<char>, T)| p.0 == k
}

/// The items whose key is `k`, in their order.
pub open spec fn with_key<T>(items: Seq<(Seq<char>, T)>, k: Seq<char>) -> Seq<(Seq<char>, T)> {
    items.filter(key_is::<T>(k))
}

/// Inserting `x` where no later item shares its key appends it to the items of
/// its key and leaves those of every other key as they were.
proof fn lemma_with_key_insert<T>(s: Seq<(Seq<char>, T)>, p: int, x: (Seq<char>, T), k: Seq<char>)
    requires
        0 <= p <= s.len(),
        forall|b: int| p <= b < s.len() ==> (#[trigger] s[b]).0 != x.0,
    ensures
        with_key(s.insert(p, x), k) == if x.0 == k {
            with_key(s, k).push(x)
        } else {
            with_key(s, k)
        },
{
    let pred = key_is::<T>(k);
    let head = s.take(p);
    let tail = s.skip(p);
    assert(s.insert(p, x) =~= head + seq![x] + tail);
    assert(s =~= head + tail);
    Seq::filter_distributes_over_add(head + seq![x], tail, pred);
    Seq::filter_distributes_over_add(head, seq![x], pred);
    Seq::filter_distributes_over_add(head, tail, pred);
    assert(seq![x] =~= Seq::<(Seq<char>, T)>::empty().push(x));
    Seq::<(Seq<char>, T)>::empty().lemma_filter_push(x, pred);
    assert(Seq::<(Seq<char>, T)>::empty().filter(pred) =~= Seq::<(Seq<char>, T)>::empty()) by {
        reveal(Seq::filter);
    }
    if x.0 == k {
        assert(tail.all(|q: (Seq<char>, T)| !pred(q))) by {
            assert forall|i: int| 0 <= i < tail.len() implies !pred(#[trigger] tail[i]) by {
                assert(tail[i] == s[p + i]);
            }
        }
        tail.lemma_all_neg_filter_empty(pred);
        assert(tail.filter(pred) =~= Seq::<(Seq<char>, T)>::empty());
        assert(head.filter(pred) + seq![x] =~= head.filter(pred).push(x));
        assert(head.filter(pred) + Seq::<(Seq<char>, T)>::empty() =~= head.filter(pred));
    } else {
        assert(head.filter(pred) + Seq::<(Seq<char>, T)>::empty() =~= head.filter(pred));
    }
}

proof fn lemma_before_facts(descending: bool, a: Seq<char>, b: Seq<char>, c: Seq<char>)
    ensures
        !goes_before(descending, a, a),
        goes_before(descending, a, b) || a == b || goes_before(descending, b, a),
        goes_before(descending, a, b) && goes_before(descending, b, c) ==> goes_before(descending, a, c),
{
    lemma_text_lt_irreflexive(a);
    lemma_text_lt_trichotomy(a, b);
    if descending {
        if text_lt(b, a) && text_lt(c, b) {
            lemma_text_lt_transitive(c, b, a);
        }
    } else {
        if text_lt(a, b) && text_lt(b, c) {
            lemma_text_lt_transitive(a, b, c);
        }
    }
}

/// Sort keyed items by key (ascending, or descending), keeping every item, and
/// items of equal keys in their given order (a stable sort): an insertion sort
/// that places each item after all items whose keys are not after its own.
pub fn sort_by_text_key<T>(items: Vec<(Vec<char>, T)>, descending: bool) -> (r: Vec<(Vec<char>, T)>)
    ensures
        keyed_views(r@).to_multiset() == keyed_views(items@).to_multiset(),
        keys_sorted(r@, descending),
        forall|k: Seq<char>| #[trigger] with_key(keyed_views(r@), k) == with_key(keyed_views(items@), k),
{
    let ghost orig = keyed_views(items@);
    let mut rest = items;
    let mut sorted: Vec<(Vec<char>, T)> = Vec::new();
    let ghost mut taken: Seq<(Seq<char>, T)> = seq![];
    proof {
        assert(keyed_views(rest@) =~= orig);
        assert(keyed_views(sorted@) =~= taken);
        assert(taken + keyed_views(rest@) =~= orig);
    }
    while rest.len() > 0
        invariant
            taken + keyed_views(rest@) == orig,
            keyed_views(sorted@).to_multiset() == taken.to_multiset(),
            keys_sorted(sorted@, descending),
            forall|k: Seq<char>| #[trigger] with_key(keyed_views(sorted@), k) == with_key(taken, k),
        decreases rest.len(),
    {
        let ghost rest_before = keyed_views(rest@);
        let x = rest.remove(0);
        proof {
            assert(keyed_views(rest@) =~= rest_before.drop_first());
            assert(rest_before[0] == (x.0@, x.1));
        }
        let mut p: usize = 0;
        while p < sorted.len() && !key_before(descending, &x.0, &sorted[p].0)
            invariant
                p <= sorted.len(),
                forall|a: int| 0 <= a < p ==> in_order(descending, (#[trigger] sorted@[a]).0@, x.0@),
            decreases sorted.len() - p,
        {
            p = p + 1;
        }
        proof {
            if p < sorted.len() {
                assert(goes_before(descending, x.0@, sorted@[p as int].0@));
                assert forall|b: int| p <= b < sorted.len() implies goes_before(
                    descending,
                    x.0@,
                    (#[trigger] sorted@[b]).0@,
                ) by {
                    if b > p {
                        assert(in_order(descending, sorted@[p as int].0@, sorted@[b].0@));
                        lemma_before_facts(descending, sorted@[p as int].0@, sorted@[b].0@, x.0@);
                        lemma_before_facts(descending, x.0@, sorted@[p as int].0@, sorted@[b].0@);
                    }
                }
            }
        }
        let ghost before = sorted@;
        let ghost xv = (x.0@, x.1);
        sorted.insert(p, x);
        proof {
            assert(keyed_views(sorted@) =~= keyed_views(before).insert(p as int, xv));
            assert forall|k: Seq<char>| #[trigger] with_key(keyed_views(sorted@), k) == with_key(
                taken.push(xv),
                k,
            ) by {
                assert forall|b: int| p <= b < before.len() implies (#[trigger] keyed_views(
                    before,
                )[b]).0 != xv.0 by {
                    lemma_before_facts(descending, x.0@, before[b].0@, x.0@);
                }
                lemma_with_key_insert(keyed_views(before), p as int, xv, k);
                taken.lemma_filter_push(xv, key_is::<T>(k));
            }
            vstd::seq_lib::to_multiset_insert(keyed_views(before), p as int, xv);
            vstd::seq_lib::to_multiset_build(taken, xv);
            assert(taken.push(xv) + keyed_views(rest@) =~= taken + rest_before);
            taken = taken.push(xv);
            assert forall|a: int, b: int|
                0 <= a < b < sorted.len() implies in_order(
                descending,
                (#[trigger] sorted@[a]).0@,
                (#[trigger] sorted@[b]).0@,
            ) by {
                if b < p {
                    assert(sorted@[a] == before[a] && sorted@[b] == before[b]);
                } else if b == p {
                    assert(sorted@[a] == before[a]);
                } else if a < p {
                    assert(sorted@[a] == before[a] && sorted@[b] == before[b - 1]);
                    lemma_before_facts(descending, before[b - 1].0@, before[a].0@, x.0@);
                    lemma_before_facts(descending, x.0@, before[b - 1].0@, before[a].0@);
                    lemma_before_facts(descending, x.0@, before[b - 1].0@, x.0@);
                } else if a == p {
                    assert(sorted@[b] == before[b - 1]);
                    lemma_before_facts(descending, before[b - 1].0@, x.0@, before[b - 1].0@);
                    lemma_before_facts(descending, x.0@, before[b - 1].0@, x.0@);
                } else {
                    assert(sorted@[a] == before[a - 1] && sorted@[b] == before[b - 1]);
                }
            }
        }
    }
    proof {
        assert(taken =~= orig);
    }
    sorted
}

/// Newest first: the items' times never increase along the list.
pub open spec fn newest_first_sorted<T>(items: Seq<(i64, T)>) -> bool {
    forall|i: int, j: int| 0 <= i < j < items.len() ==> (#[trigger] items[i]).0 >= (#[trigger] items[j]).0
}

/// Order items by time, newest first, keeping every item: the order of a
/// conversation listing (`ORDER BY updated_at DESC`); the order among items of
/// the same time is left open.
pub fn sort_newest_first<T>(items: Vec<(i64, T)>) -> (r: Vec<(i64, T)>)
    ensures
        r@.to_multiset() == items@.to_multiset(),
        newest_first_sorted(r@),
{
    let ghost orig = items@;
    let mut rest = items;
    let mut sorted: Vec<(i64, T)> = Vec::new();
    let ghost mut taken: Seq<(i64, T)> = seq![];
    proof {
        assert(taken + rest@ =~= orig);
    }
    while rest.len() > 0
        invariant
            taken + rest@ == orig,
            sorted@.to_multiset() == taken.to_multiset(),
            newest_first_sorted(sorted@),
        decreases rest.len(),
    {
        let ghost rest_before = rest@;
        let x = rest.remove(0);
        proof {
            assert(rest@ =~= rest_before.drop_first());
        }
        let mut p: usize = 0;
        while p < sorted.len() && sorted[p].0 >= x.0
            invariant
                p <= sorted.len(),
                forall|a: int| 0 <= a < p ==> (#[trigger] sorted@[a]).0 >= x.0,
            decreases sorted.len() - p,
        {
            p = p + 1;
        }
        proof {
            if p < sorted.len() {
                assert forall|b: int| p <= b < sorted.len() implies (#[trigger] sorted@[b]).0 < x.0 by {
                    assert(sorted@[p as int].0 >= sorted@[b].0);
                }
            }
        }
        let ghost before = sorted@;
        let ghost xv = x;
        sorted.insert(p, x);
        proof {
            vstd::seq_lib::to_multiset_insert(before, p as int, xv);
            vstd::seq_lib::to_multiset_build(taken, xv);
            assert(taken.push(xv) + rest@ =~= taken + rest_before);
            taken = taken.push(xv);
            assert forall|a: int, b: int|
                0 <= a < b < sorted.len() implies (#[trigger] sorted@[a]).0 >= (#[trigger] sorted@[b]).0 by {
                if b < p {
                    assert(sorted@[a] == before[a] && sorted@[b] == before[b]);
                } else if b == p {
                    assert(sorted@[a] == before[a]);
                } else if a < p {
                    assert(sorted@[a] == before[a] && sorted@[b] == before[b - 1]);
                } else if a == p {
                    assert(sorted@[b] == before[b - 1]);
                } else {
                    assert(sorted@[a] == before[a - 1] && sorted@[b] == before[b - 1]);
                }
            }
        }
    }
    proof {
        assert(taken =~= orig);
    }
    sorted
}

/// Filtering a list and then mapping it equals mapping it and then filtering the
/// images, when each item passes the first filter just when its image passes the
/// second.
pub proof fn lemma_filter_map_values<A, B>(
    s: Seq<A>,
    f: spec_fn(A) -> B,
    q: spec_fn(A) -> bool,
    p: spec_fn(B) -> bool,
)
    requires
        forall|i: int| 0 <= i < s.len() ==> q(#[trigger] s[i]) == p(f(s[i])),
    ensures
        s.filter(q).map_values(f) == s.map_values(f).filter(p),
    decreases s.len(),
{
    reveal(Seq::filter);
    if s.len() == 0 {
        assert(s.filter(q).map_values(f) =~= s.map_values(f).filter(p));
    } else {
        let init = s.drop_last();
        assert forall|i: int| 0 <= i < init.len() implies q(#[trigger] init[i]) == p(f(init[i])) by {
            assert(init[i] == s[i]);
        }
        lemma_filter_map_values(init, f, q, p);
        assert(s.map_values(f).drop_last() =~= init.map_values(f));
        assert(s.map_values(f).last() == f(s.last()));
        assert(q(s[s.len() - 1]) == p(f(s[s.len() - 1])));
        if q(s.last()) {
            assert(s.filter(q).map_values(f) =~= init.filter(q).map_values(f).push(f(s.last())));
        } else {
            assert(s.filter(q).map_values(f) =~= init.filter(q).map_values(f));
        }
    }
}

/// Reordering a list reorders any image of it: two lists with the same
/// multiset have images (under one function) with the same multiset.
pub proof fn lemma_multiset_map<A, B>(a: Seq<A>, b: Seq<A>, f: spec_fn(A) -> B)
    requires
        a.to_multiset() == b.to_multiset(),
    ensures
        a.map_values(f).to_multiset() == b.map_values(f).to_multiset(),
    decreases a.len(),
{
    vstd::seq_lib::to_multiset_len(a);
    vstd::seq_lib::to_multiset_len(b);
    if a.len() == 0 {
        assert(b.len() == 0);
        assert(a.map_values(f) =~= b.map_values(f));
    } else {
        let x = a[0];
        vstd::seq_lib::to_multiset_contains(a, x);
        assert(a.contains(x)) by {
            assert(a[0] == x);
        }
        vstd::seq_lib::to_multiset_contains(b, x);
        let idx = choose|i: int| 0 <= i < b.len() && b[i] == x;
        let b2 = b.remove(idx);
        vstd::seq_lib::to_multiset_remove(b, idx);
        vstd::seq_lib::to_multiset_remove(a, 0);
        assert(a.remove(0) =~= a.drop_first());
        lemma_multiset_map(a.drop_first(), b2, f);
        assert(a.map_values(f) =~= a.drop_first().map_values(f).insert(0, f(x)));
        assert(b.map_values(f) =~= b2.map_values(f).insert(idx, f(x)));
        vstd::seq_lib::to_multiset_insert(a.drop_first().map_values(f), 0, f(x));
        vstd::seq_lib::to_multiset_insert(b2.map_values(f), idx, f(x));
    }
}

} // verus!
