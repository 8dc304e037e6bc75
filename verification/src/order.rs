//! Orders used to rank routing candidates: lexicographic byte order (the order
//! of `str`), and stable insertion ordering of sequences.

use vstd::prelude::*;
use vstd::relations::*;

verus! {

broadcast use vstd::seq_lib::group_to_multiset_ensures;

/// Lexicographic order on byte sequences (a prefix comes first).
pub open spec fn lex_le(a: Seq<u8>, b: Seq<u8>) -> bool
    decreases a.len(),
{
    if a.len() == 0 {
        true
    } else if b.len() == 0 {
        false
    } else if a[0] < b[0] {
        true
    } else if a[0] > b[0] {
        false
    } else {
        lex_le(a.drop_first(), b.drop_first())
    }
}

/// Lexicographic order is total.
pub proof fn lemma_lex_total(a: Seq<u8>, b: Seq<u8>)
    ensures
        lex_le(a, b) || lex_le(b, a),
    decreases a.len(),
{
    if a.len() > 0 && b.len() > 0 && a[0] == b[0] {
        lemma_lex_total(a.drop_first(), b.drop_first());
    }
}

/// Lexicographic order is antisymmetric.
pub proof fn lemma_lex_antisymmetric(a: Seq<u8>, b: Seq<u8>)
    requires
        lex_le(a, b),
        lex_le(b, a),
    ensures
        a == b,
    decreases a.len(),
{
    if a.len() > 0 && b.len() > 0 {
        lemma_lex_antisymmetric(a.drop_first(), b.drop_first());
        assert(a =~= seq![a[0]] + a.drop_first());
        assert(b =~= seq![b[0]] + b.drop_first());
    } else {
        assert(a =~= b);
    }
}

/// Lexicographic order is transitive.
pub proof fn lemma_lex_transitive(a: Seq<u8>, b: Seq<u8>, c: Seq<u8>)
    requires
        lex_le(a, b),
        lex_le(b, c),
    ensures
        lex_le(a, c),
    decreases a.len(),
{
    if a.len() > 0 && b.len() > 0 && c.len() > 0 && a[0] == b[0] && b[0] == c[0] {
        lemma_lex_transitive(a.drop_first(), b.drop_first(), c.drop_first());
    }
}

/// Lexicographic comparison of two byte slices: `a <= b`.
pub fn bytes_le(a: &[u8], b: &[u8]) -> (r: bool)
    ensures
        r == lex_le(a@, b@),
{
    let mut i: usize = 0;
    assert(a@.skip(0) =~= a@);
    assert(b@.skip(0) =~= b@);
    while i < a.len() && i < b.len()
        invariant
            0 <= i <= a@.len(),
            i <= b@.len(),
            lex_le(a@, b@) == lex_le(a@.skip(i as int), b@.skip(i as int)),
        decreases a@.len() - i,
    {
        if a[i] < b[i] {
            return true;
        }
        if a[i] > b[i] {
            return false;
        }
        assert(a@.skip(i as int).drop_first() =~= a@.skip(i + 1));
        assert(b@.skip(i as int).drop_first() =~= b@.skip(i + 1));
        i = i + 1;
    }
    i == a.len()
}

/// Insert `x` into `s` behind every element that `le`-precedes it, scanning
/// from the back; on a sorted `s` this is the stable sorted insertion.
pub open spec fn insert_by<T>(s: Seq<T>, x: T, le: spec_fn(T, T) -> bool) -> Seq<T>
    decreases s.len(),
{
    if s.len() == 0 {
        seq![x]
    } else if le(s.last(), x) {
        s.push(x)
    } else {
        insert_by(s.drop_last(), x, le).push(s.last())
    }
}

/// Stable insertion sort of `s` by `le`.
pub open spec fn sort_by_insertion<T>(s: Seq<T>, le: spec_fn(T, T) -> bool) -> Seq<T>
    decreases s.len(),
{
    if s.len() == 0 {
        s
    } else {
        insert_by(sort_by_insertion(s.drop_last(), le), s.last(), le)
    }
}

/// Insertion adds exactly the inserted element.
pub proof fn lemma_insert_by_multiset<T>(s: Seq<T>, x: T, le: spec_fn(T, T) -> bool)
    ensures
        insert_by(s, x, le).to_multiset() =~= s.to_multiset().insert(x),
        insert_by(s, x, le).len() == s.len() + 1,
    decreases s.len(),
{
    if s.len() == 0 {
    } else if le(s.last(), x) {
    } else {
        lemma_insert_by_multiset(s.drop_last(), x, le);
        assert(s =~= s.drop_last().push(s.last()));
    }
}

/// Sorting permutes: the sorted sequence holds exactly the same elements.
pub proof fn lemma_sort_multiset<T>(s: Seq<T>, le: spec_fn(T, T) -> bool)
    ensures
        sort_by_insertion(s, le).to_multiset() =~= s.to_multiset(),
        sort_by_insertion(s, le).len() == s.len(),
    decreases s.len(),
{
    if s.len() > 0 {
        lemma_sort_multiset(s.drop_last(), le);
        lemma_insert_by_multiset(sort_by_insertion(s.drop_last(), le), s.last(), le);
        assert(s =~= s.drop_last().push(s.last()));
    }
}

/// Every element of the sorted sequence comes from the input, and back.
pub proof fn lemma_sort_contains<T>(s: Seq<T>, le: spec_fn(T, T) -> bool, x: T)
    ensures
        sort_by_insertion(s, le).contains(x) <==> s.contains(x),
{
    lemma_sort_multiset(s, le);
    vstd::seq_lib::to_multiset_contains(s, x);
    vstd::seq_lib::to_multiset_contains(sort_by_insertion(s, le), x);
}

/// Whether `le` is a total preorder (total and transitive).
pub open spec fn total_preorder<T>(le: spec_fn(T, T) -> bool) -> bool {
    &&& forall|a: T, b: T| #[trigger] le(a, b) || le(b, a)
    &&& forall|a: T, b: T, c: T| #[trigger] le(a, b) && #[trigger] le(b, c) ==> le(a, c)
}

/// Inserting into a sorted sequence keeps it sorted.
pub proof fn lemma_insert_by_sorted<T>(s: Seq<T>, x: T, le: spec_fn(T, T) -> bool)
    requires
        total_preorder(le),
        sorted_by(s, le),
    ensures
        sorted_by(insert_by(s, x, le), le),
    decreases s.len(),
{
    if s.len() == 0 {
    } else if le(s.last(), x) {
        let r = s.push(x);
        assert forall|i: int, j: int| 0 <= i < j < r.len() implies #[trigger] le(r[i], r[j]) by {
            if j == r.len() - 1 {
                if i < s.len() - 1 {
                    assert(le(s[i], s[s.len() - 1]));
                }
            } else {
                assert(le(s[i], s[j]));
            }
        }
    } else {
        let t = s.drop_last();
        assert(sorted_by(t, le)) by {
            assert forall|i: int, j: int| 0 <= i < j < t.len() implies #[trigger] le(t[i], t[j]) by {
                assert(le(s[i], s[j]));
            }
        }
        lemma_insert_by_sorted(t, x, le);
        lemma_insert_by_multiset(t, x, le);
        let inner = insert_by(t, x, le);
        let r = inner.push(s.last());
        assert(le(x, s.last()));
        assert forall|k: int| 0 <= k < inner.len() implies #[trigger] le(inner[k], s.last()) by {
            assert(inner.to_multiset().contains(inner[k]));
            assert(t.to_multiset().insert(x).contains(inner[k]));
            if inner[k] != x {
                assert(t.to_multiset().contains(inner[k]));
                vstd::seq_lib::to_multiset_contains(t, inner[k]);
                let m = choose|m: int| 0 <= m < t.len() && t[m] == inner[k];
                assert(le(s[m], s[s.len() - 1]));
            }
        }
        assert forall|i: int, j: int| 0 <= i < j < r.len() implies #[trigger] le(r[i], r[j]) by {
            if j == r.len() - 1 {
                assert(le(inner[i], s.last()));
            } else {
                assert(le(inner[i], inner[j]));
            }
        }
    }
}

/// Insertion sort by a total preorder yields a sorted sequence.
pub proof fn lemma_sort_sorted<T>(s: Seq<T>, le: spec_fn(T, T) -> bool)
    requires
        total_preorder(le),
    ensures
        sorted_by(sort_by_insertion(s, le), le),
    decreases s.len(),
{
    if s.len() > 0 {
        lemma_sort_sorted(s.drop_last(), le);
        lemma_insert_by_sorted(sort_by_insertion(s.drop_last(), le), s.last(), le);
    }
}

} // verus!

verus! {

/// Two sorted arrangements of the same elements are equal when the order
/// only ties equal elements.
pub proof fn lemma_sorted_unique<T>(s1: Seq<T>, s2: Seq<T>, le: spec_fn(T, T) -> bool)
    requires
        sorted_by(s1, le),
        sorted_by(s2, le),
        s1.to_multiset() == s2.to_multiset(),
        forall|a: T| #[trigger] le(a, a),
        forall|a: T, b: T| s1.contains(a) && s1.contains(b) && #[trigger] le(a, b) && le(b, a) ==> a == b,
    ensures
        s1 == s2,
    decreases s1.len(),
{
    vstd::seq_lib::to_multiset_len(s1);
    vstd::seq_lib::to_multiset_len(s2);
    if s1.len() == 0 {
        assert(s1 =~= s2);
    } else {
        let a = s1[0];
        let b = s2[0];
        vstd::seq_lib::to_multiset_contains(s2, b);
        vstd::seq_lib::to_multiset_contains(s1, b);
        vstd::seq_lib::to_multiset_contains(s1, a);
        vstd::seq_lib::to_multiset_contains(s2, a);
        let k1 = choose|k: int| 0 <= k < s1.len() && s1[k] == b;
        let k2 = choose|k: int| 0 <= k < s2.len() && s2[k] == a;
        if k1 > 0 {
            assert(le(s1[0], s1[k1]));
        }
        if k2 > 0 {
            assert(le(s2[0], s2[k2]));
        }
        assert(s1.contains(a) && s1.contains(b));
        assert(a == b);
        let r1 = s1.drop_first();
        let r2 = s2.drop_first();
        vstd::seq_lib::to_multiset_remove(s1, 0);
        vstd::seq_lib::to_multiset_remove(s2, 0);
        assert(s1.remove(0) =~= r1);
        assert(s2.remove(0) =~= r2);
        assert(sorted_by(r1, le)) by {
            assert forall|i: int, j: int| 0 <= i < j < r1.len() implies #[trigger] le(r1[i], r1[j]) by {
                assert(le(s1[i + 1], s1[j + 1]));
            }
        }
        assert(sorted_by(r2, le)) by {
            assert forall|i: int, j: int| 0 <= i < j < r2.len() implies #[trigger] le(r2[i], r2[j]) by {
                assert(le(s2[i + 1], s2[j + 1]));
            }
        }
        assert forall|x: T, y: T| r1.contains(x) && r1.contains(y) && #[trigger] le(x, y) && le(
            y,
            x,
        ) implies x == y by {
            let i = choose|i: int| 0 <= i < r1.len() && r1[i] == x;
            let j = choose|j: int| 0 <= j < r1.len() && r1[j] == y;
            assert(s1[i + 1] == x && s1[j + 1] == y);
            assert(s1.contains(x) && s1.contains(y));
        }
        lemma_sorted_unique(r1, r2, le);
        assert(s1 =~= seq![a] + r1);
        assert(s2 =~= seq![b] + r2);
    }
}

} // verus!
