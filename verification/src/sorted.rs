//! Lists of texts in strictly ascending order: sets with a fixed order.

use crate::text::{
    lemma_text_lt_irreflexive, lemma_text_lt_total, lemma_text_lt_transitive, strings, text_before,
    text_eq, text_lt,
};
use vstd::prelude::*;

verus! {

/// Whether the texts stand in strictly ascending order; none occurs twice.
pub open spec fn ascending(s: Seq<Seq<char>>) -> bool {
    forall|i: int, j: int| 0 <= i < j < s.len() ==> text_lt(#[trigger] s[i], #[trigger] s[j])
}

/// Two ascending lists with the same members are the same list.
pub proof fn ascending_lists_are_unique(a: Seq<Seq<char>>, b: Seq<Seq<char>>)
    requires
        ascending(a),
        ascending(b),
        forall|x: Seq<char>| a.contains(x) <==> b.contains(x),
    ensures
        a == b,
    decreases a.len(),
{
    if a.len() == 0 {
        if b.len() > 0 {
            assert(b.contains(b[0]));
            assert(a.contains(b[0]));
        }
        assert(a =~= b);
    } else {
        assert(a.contains(a[0]));
        assert(b.contains(a[0]));
        assert(b.contains(b[0]));
        assert(a.contains(b[0]));
        let i = choose|i: int| 0 <= i < b.len() && b[i] == a[0];
        let j = choose|j: int| 0 <= j < a.len() && a[j] == b[0];
        if i > 0 {
            assert(text_lt(b[0], b[i]));
            if j > 0 {
                assert(text_lt(a[0], a[j]));
                lemma_text_lt_transitive(a[0], b[0], a[0]);
            }
            lemma_text_lt_irreflexive(a[0]);
        }
        assert(a[0] == b[0]);
        let ra = a.drop_first();
        let rb = b.drop_first();
        assert(ascending(ra)) by {
            assert forall|i: int, j: int| 0 <= i < j < ra.len() implies text_lt(
                #[trigger] ra[i],
                #[trigger] ra[j],
            ) by {
                assert(text_lt(a[i + 1], a[j + 1]));
            }
        }
        assert(ascending(rb)) by {
            assert forall|i: int, j: int| 0 <= i < j < rb.len() implies text_lt(
                #[trigger] rb[i],
                #[trigger] rb[j],
            ) by {
                assert(text_lt(b[i + 1], b[j + 1]));
            }
        }
        assert forall|x: Seq<char>| ra.contains(x) <==> rb.contains(x) by {
            lemma_tail_members(a, x);
            lemma_tail_members(b, x);
        }
        ascending_lists_are_unique(ra, rb);
        assert(a =~= seq![a[0]] + ra);
        assert(b =~= seq![b[0]] + rb);
    }
}

/// The tail of an ascending list holds all but its first member.
proof fn lemma_tail_members(a: Seq<Seq<char>>, x: Seq<char>)
    requires
        a.len() > 0,
        ascending(a),
    ensures
        a.drop_first().contains(x) <==> a.contains(x) && x != a[0],
{
    let t = a.drop_first();
    if t.contains(x) {
        let i = choose|i: int| 0 <= i < t.len() && t[i] == x;
        assert(a[i + 1] == x);
        assert(text_lt(a[0], a[i + 1]));
        lemma_text_lt_irreflexive(x);
    }
    if a.contains(x) && x != a[0] {
        let i = choose|i: int| 0 <= i < a.len() && a[i] == x;
        assert(t[i - 1] == x);
    }
}

/// Puts `name` into an ascending list, at its place, unless it is there.
pub fn insert_text(list: &mut Vec<String>, name: String)
    requires
        ascending(strings(old(list)@)),
    ensures
        ascending(strings(final(list)@)),
        forall|x: Seq<char>|
            strings(final(list)@).contains(x) <==> strings(old(list)@).contains(x) || x == name@,
{
    let ghost before = strings(list@);
    let mut i: usize = 0;
    while i < list.len() && text_before(list[i].as_str(), name.as_str())
        invariant
            i <= list@.len(),
            before == strings(list@),
            forall|k: int| 0 <= k < i ==> text_lt(#[trigger] before[k], name@),
        decreases list@.len() - i,
    {
        assert(before[i as int] == list@[i as int]@);
        i = i + 1;
    }
    if i < list.len() {
        assert(before[i as int] == list@[i as int]@);
        if text_eq(list[i].as_str(), name.as_str()) {
            assert(before.contains(before[i as int]));
            return;
        }
        proof {
            lemma_text_lt_total(before[i as int], name@);
        }
    }
    list.insert(i, name);
    let ghost after = strings(list@);
    proof {
        assert(after =~= before.insert(i as int, name@));
        assert forall|j: int, k: int| 0 <= j < k < after.len() implies text_lt(
            #[trigger] after[j],
            #[trigger] after[k],
        ) by {
            if k < i {
                assert(text_lt(before[j], before[k]));
            } else if k == i {
                assert(text_lt(before[j], name@));
            } else if j == i {
                if k - 1 > i {
                    assert(text_lt(before[i as int], before[k - 1]));
                    lemma_text_lt_transitive(name@, before[i as int], before[k - 1]);
                }
            } else if j < i {
                assert(text_lt(before[j], before[k - 1]));
            } else {
                assert(text_lt(before[j - 1], before[k - 1]));
            }
        }
        assert forall|x: Seq<char>| after.contains(x) <==> before.contains(x) || x == name@ by {
            if after.contains(x) {
                let k = choose|k: int| 0 <= k < after.len() && after[k] == x;
                if k < i {
                    assert(before[k] == x);
                } else if k > i {
                    assert(before[k - 1] == x);
                }
            }
            if before.contains(x) {
                let k = choose|k: int| 0 <= k < before.len() && before[k] == x;
                if k < i {
                    assert(after[k] == x);
                } else {
                    assert(after[k + 1] == x);
                }
            }
            if x == name@ {
                assert(after[i as int] == x);
            }
        }
    }
}

/// Whether a text is in the list.
pub fn contains_name(list: &Vec<String>, name: &str) -> (r: bool)
    ensures
        r == strings(list@).contains(name@),
{
    let mut i: usize = 0;
    while i < list.len()
        invariant
            i <= list@.len(),
            forall|k: int| 0 <= k < i ==> (#[trigger] list@[k])@ != name@,
        decreases list@.len() - i,
    {
        if text_eq(list[i].as_str(), name) {
            assert(strings(list@)[i as int] == name@);
            return true;
        }
        i = i + 1;
    }
    assert forall|k: int| 0 <= k < strings(list@).len() implies strings(list@)[k] != name@ by {
        assert(list@[k]@ != name@);
    }
    false
}

/// The names of `all` that are not among `kept`, in ascending order, each
/// once.
pub open spec fn is_removed_list(
    removed: Seq<Seq<char>>,
    all: Seq<Seq<char>>,
    kept: Seq<Seq<char>>,
) -> bool {
    &&& ascending(removed)
    &&& forall|x: Seq<char>| #[trigger]
        removed.contains(x) <==> all.contains(x) && !kept.contains(x)
}

/// The names of `all` that are not among `kept`, in ascending order, each
/// once.
pub fn removed_names(all: &Vec<String>, kept: &Vec<String>) -> (r: Vec<String>)
    ensures
        is_removed_list(strings(r@), strings(all@), strings(kept@)),
{
    let mut out: Vec<String> = Vec::new();
    let mut i: usize = 0;
    while i < all.len()
        invariant
            i <= all@.len(),
            ascending(strings(out@)),
            forall|x: Seq<char>| #[trigger]
                strings(out@).contains(x) <==> strings(all@).subrange(0, i as int).contains(x)
                    && !strings(kept@).contains(x),
        decreases all@.len() - i,
    {
        let ghost seen = strings(all@).subrange(0, i as int);
        let ghost more = strings(all@).subrange(0, i + 1);
        let ghost name = all@[i as int]@;
        proof {
            assert(more =~= seen.push(name));
            assert forall|x: Seq<char>| #[trigger]
                more.contains(x) <==> seen.contains(x) || x == name by {
                if seen.contains(x) {
                    let k = choose|k: int| 0 <= k < seen.len() && seen[k] == x;
                    assert(more[k] == x);
                }
                if x == name {
                    assert(more[i as int] == x);
                }
                if more.contains(x) {
                    let k = choose|k: int| 0 <= k < more.len() && more[k] == x;
                    if k < i {
                        assert(seen[k] == x);
                    }
                }
            }
        }
        if !contains_name(kept, all[i].as_str()) {
            insert_text(&mut out, all[i].clone());
        }
        i = i + 1;
    }
    assert(strings(all@).subrange(0, all@.len() as int) =~= strings(all@));
    out
}

/// `s` with `x` behind all whose key is as great or greater, from the back.
pub open spec fn placed<A>(s: Seq<A>, x: A, key: spec_fn(A) -> int) -> Seq<A>
    decreases s.len(),
{
    if s.len() == 0 || key(s.last()) >= key(x) {
        s.push(x)
    } else {
        placed(s.drop_last(), x, key).push(s.last())
    }
}

/// `s` by descending key; items with the same key keep their order.
pub open spec fn descending<A>(s: Seq<A>, key: spec_fn(A) -> int) -> Seq<A>
    decreases s.len(),
{
    if s.len() == 0 {
        s
    } else {
        placed(descending(s.drop_last(), key), s.last(), key)
    }
}

/// Whether the keys never rise.
pub open spec fn falls<A>(s: Seq<A>, key: spec_fn(A) -> int) -> bool {
    forall|i: int, j: int| 0 <= i < j < s.len() ==> key(#[trigger] s[i]) >= key(#[trigger] s[j])
}

proof fn lemma_placed<A>(s: Seq<A>, x: A, key: spec_fn(A) -> int)
    requires
        falls(s, key),
    ensures
        falls(placed(s, x, key), key),
        placed(s, x, key).to_multiset() == s.to_multiset().insert(x),
        placed(s, x, key).len() == s.len() + 1,
    decreases s.len(),
{
    broadcast use vstd::seq_lib::group_to_multiset_ensures;

    let out = placed(s, x, key);
    if s.len() == 0 || key(s.last()) >= key(x) {
        assert(out.to_multiset() =~= s.to_multiset().insert(x));
    } else {
        let front = s.drop_last();
        lemma_placed(front, x, key);
        let p = placed(front, x, key);
        assert(s =~= front.push(s.last()));
        assert(out.to_multiset() =~= s.to_multiset().insert(x));
        assert forall|i: int, j: int| 0 <= i < j < out.len() implies key(#[trigger] out[i]) >= key(
            #[trigger] out[j],
        ) by {
            if j == p.len() {
                lemma_placed_at_least(front, x, key, key(s.last()));
            }
        }
    }
}

/// Where all items have a key of at least `k`, so has the list with one more.
proof fn lemma_placed_at_least<A>(s: Seq<A>, x: A, key: spec_fn(A) -> int, k: int)
    requires
        forall|i: int| 0 <= i < s.len() ==> key(#[trigger] s[i]) >= k,
        key(x) >= k,
    ensures
        forall|i: int| 0 <= i < placed(s, x, key).len() ==> key(#[trigger] placed(s, x, key)[i]) >= k,
    decreases s.len(),
{
    if s.len() > 0 && key(s.last()) < key(x) {
        let front = s.drop_last();
        assert forall|i: int| 0 <= i < front.len() implies key(#[trigger] front[i]) >= k by {
            assert(front[i] == s[i]);
        }
        lemma_placed_at_least(front, x, key, k);
        let out = placed(s, x, key);
        assert forall|i: int| 0 <= i < out.len() implies key(#[trigger] out[i]) >= k by {
            if i < out.len() - 1 {
                assert(out[i] == placed(front, x, key)[i]);
            }
        }
    }
}

/// Sorting loses nothing and adds nothing, and leaves the keys falling.
pub proof fn descending_is_sorted<A>(s: Seq<A>, key: spec_fn(A) -> int)
    ensures
        falls(descending(s, key), key),
        descending(s, key).to_multiset() == s.to_multiset(),
        descending(s, key).len() == s.len(),
    decreases s.len(),
{
    broadcast use vstd::seq_lib::group_to_multiset_ensures;

    if s.len() > 0 {
        let front = s.drop_last();
        descending_is_sorted(front, key);
        lemma_placed(descending(front, key), s.last(), key);
        assert(s =~= front.push(s.last()));
        assert(descending(s, key).to_multiset() =~= s.to_multiset());
    }
}

proof fn lemma_placed_filter<A>(s: Seq<A>, x: A, key: spec_fn(A) -> int, k: int)
    ensures
        placed(s, x, key).filter(|a: A| key(a) == k) == if key(x) == k {
            s.filter(|a: A| key(a) == k).push(x)
        } else {
            s.filter(|a: A| key(a) == k)
        },
    decreases s.len(),
{
    let p = |a: A| key(a) == k;
    let out = placed(s, x, key);
    reveal(Seq::filter);
    if s.len() == 0 || key(s.last()) >= key(x) {
        assert(out.drop_last() =~= s);
    } else {
        let front = s.drop_last();
        lemma_placed_filter(front, x, key, k);
        assert(out.drop_last() =~= placed(front, x, key));
        assert(out.last() == s.last());
        assert(s =~= front.push(s.last()));
    }
}

/// Items with the same key keep their order.
pub proof fn descending_is_stable<A>(s: Seq<A>, key: spec_fn(A) -> int, k: int)
    ensures
        descending(s, key).filter(|a: A| key(a) == k) == s.filter(|a: A| key(a) == k),
    decreases s.len(),
{
    if s.len() > 0 {
        let front = s.drop_last();
        descending_is_stable(front, key, k);
        lemma_placed_filter(descending(front, key), s.last(), key, k);
        reveal(Seq::filter);
    }
}

/// A filtered list holds the items that pass, and no others.
pub proof fn lemma_filter_member<A>(s: Seq<A>, pred: spec_fn(A) -> bool, x: A)
    ensures
        s.filter(pred).contains(x) <==> s.contains(x) && pred(x),
    decreases s.len(),
{
    reveal(Seq::filter);
    if s.len() > 0 {
        let front = s.drop_last();
        let kept = front.filter(pred);
        lemma_filter_member(front, pred, x);
        assert(s =~= front.push(s.last()));
        lemma_push_member(front, s.last(), x);
        lemma_push_member(kept, s.last(), x);
    }
}

/// One more item is the only new member.
pub proof fn lemma_push_member<A>(s: Seq<A>, y: A, x: A)
    ensures
        s.push(y).contains(x) <==> s.contains(x) || x == y,
{
    let out = s.push(y);
    if s.contains(x) {
        let k = choose|k: int| 0 <= k < s.len() && s[k] == x;
        assert(out[k] == x);
    }
    if x == y {
        assert(out[s.len() as int] == x);
    }
    if out.contains(x) {
        let k = choose|k: int| 0 <= k < out.len() && out[k] == x;
        if k < s.len() {
            assert(s[k] == x);
        }
    }
}

} // verus!
