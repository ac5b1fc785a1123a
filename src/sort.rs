use vstd::prelude::*;

verus! {

use crate::text::{
    compare_text, lemma_text_lt_total, lemma_text_lt_transitive, lemma_text_order_equal, text_lt,
};
use core::cmp::Ordering;

/// A record type with a strict weak order in which its records are listed.
pub trait SortKeyed: View + Sized {
    /// `a` sorts strictly before `b`.
    spec fn precedes(a: Self::V, b: Self::V) -> bool;

    proof fn lemma_precedes_order(a: Self::V, b: Self::V, c: Self::V)
        ensures
            !Self::precedes(a, a),
            Self::precedes(a, b) ==> !Self::precedes(b, a),
            Self::precedes(a, b) && Self::precedes(b, c) ==> Self::precedes(a, c),
            !Self::precedes(a, b) && !Self::precedes(b, c) ==> !Self::precedes(a, c),
    ;

    fn sorts_before(&self, other: &Self) -> (r: bool)
        ensures
            r == Self::precedes(self@, other@),
    ;
}

/// The views of a sequence of records.
pub open spec fn views<T: View>(s: Seq<T>) -> Seq<T::V> {
    s.map_values(|x: T| x@)
}

/// Order by a name, then by keys.
pub open spec fn name_keys_lt(
    a_name: Seq<char>,
    a_keys: Seq<char>,
    b_name: Seq<char>,
    b_keys: Seq<char>,
) -> bool {
    text_lt(a_name, b_name) || (a_name == b_name && text_lt(a_keys, b_keys))
}

/// No record sorts before one that precedes it.
pub open spec fn sorted_by_key<T: SortKeyed>(s: Seq<T::V>) -> bool {
    forall|i: int, j: int| 0 <= i < j < s.len() ==> !T::precedes(#[trigger] s[j], #[trigger] s[i])
}

/// `x` placed before the first record of `s` that does not sort before it.
pub open spec fn insert_by_key<T: SortKeyed>(s: Seq<T::V>, x: T::V) -> Seq<T::V>
    decreases s.len(),
{
    if s.len() == 0 {
        seq![x]
    } else if !T::precedes(s[0], x) {
        seq![x] + s
    } else {
        seq![s[0]] + insert_by_key::<T>(s.drop_first(), x)
    }
}

/// `s` in its type's order; records that neither precedes keep their
/// relative order.
pub open spec fn key_sorted<T: SortKeyed>(s: Seq<T::V>) -> Seq<T::V>
    decreases s.len(),
{
    if s.len() == 0 {
        s
    } else {
        insert_by_key::<T>(key_sorted::<T>(s.drop_first()), s[0])
    }
}

pub proof fn lemma_name_keys_order(
    an: Seq<char>,
    ak: Seq<char>,
    bn: Seq<char>,
    bk: Seq<char>,
    cn: Seq<char>,
    ck: Seq<char>,
)
    ensures
        !name_keys_lt(an, ak, an, ak),
        name_keys_lt(an, ak, bn, bk) ==> !name_keys_lt(bn, bk, an, ak),
        name_keys_lt(an, ak, bn, bk) && name_keys_lt(bn, bk, cn, ck) ==> name_keys_lt(an, ak, cn, ck),
        !name_keys_lt(an, ak, bn, bk) && !name_keys_lt(bn, bk, cn, ck) ==> !name_keys_lt(
            an,
            ak,
            cn,
            ck,
        ),
{
    lemma_text_lt_total(an, bn);
    lemma_text_lt_total(bn, cn);
    lemma_text_lt_total(an, cn);
    lemma_text_lt_total(ak, bk);
    lemma_text_lt_total(bk, ck);
    lemma_text_lt_total(ak, ck);
    if text_lt(an, bn) && text_lt(bn, cn) {
        lemma_text_lt_transitive(an, bn, cn);
    }
    if text_lt(ak, bk) && text_lt(bk, ck) {
        lemma_text_lt_transitive(ak, bk, ck);
    }
    if text_lt(bn, an) && text_lt(cn, bn) {
        lemma_text_lt_transitive(cn, bn, an);
    }
    if text_lt(bk, ak) && text_lt(ck, bk) {
        lemma_text_lt_transitive(ck, bk, ak);
    }
}

/// Inserting by key places the record at some position of the sequence.
pub proof fn lemma_insert_by_key_position<T: SortKeyed>(s: Seq<T::V>, x: T::V)
    ensures
        exists|j: int| 0 <= j <= s.len() && insert_by_key::<T>(s, x) == s.insert(j, x),
    decreases s.len(),
{
    if s.len() == 0 || !T::precedes(s[0], x) {
        assert(insert_by_key::<T>(s, x) =~= s.insert(0, x));
    } else {
        let t = s.drop_first();
        lemma_insert_by_key_position::<T>(t, x);
        let j = choose|j: int| 0 <= j <= t.len() && insert_by_key::<T>(t, x) == t.insert(j, x);
        assert(insert_by_key::<T>(s, x) =~= s.insert(j + 1, x));
    }
}

/// The sort only reorders: its output holds the same records as its input.
pub proof fn lemma_key_sorted_permutes<T: SortKeyed>(s: Seq<T::V>)
    ensures
        key_sorted::<T>(s).to_multiset() == s.to_multiset(),
    decreases s.len(),
{
    broadcast use vstd::seq_lib::to_multiset_insert;

    if s.len() > 0 {
        let t = s.drop_first();
        lemma_key_sorted_permutes::<T>(t);
        lemma_insert_by_key_position::<T>(key_sorted::<T>(t), s[0]);
        lemma_key_sorted_is_sorted::<T>(t);
        let j = choose|j: int|
            0 <= j <= key_sorted::<T>(t).len() && insert_by_key::<T>(key_sorted::<T>(t), s[0])
                == key_sorted::<T>(t).insert(j, s[0]);
        assert(t.insert(0, s[0]) =~= s);
    }
}

/// Whether one name-and-keys pair sorts before another.
pub fn name_keys_before(a_name: &str, a_keys: &str, b_name: &str, b_keys: &str) -> (r: bool)
    ensures
        r == name_keys_lt(a_name@, a_keys@, b_name@, b_keys@),
{
    proof {
        lemma_text_order_equal(a_name@, b_name@);
    }
    match compare_text(a_name, b_name) {
        Ordering::Less => true,
        Ordering::Greater => false,
        Ordering::Equal => match compare_text(a_keys, b_keys) {
            Ordering::Less => true,
            _ => false,
        },
    }
}

proof fn lemma_insert_sorted<T: SortKeyed>(s: Seq<T::V>, x: T::V)
    requires
        sorted_by_key::<T>(s),
    ensures
        sorted_by_key::<T>(insert_by_key::<T>(s, x)),
        insert_by_key::<T>(s, x).len() == s.len() + 1,
        forall|k: int|
            0 <= k < insert_by_key::<T>(s, x).len() ==> #[trigger] insert_by_key::<T>(s, x)[k] == x || s.contains(
                insert_by_key::<T>(s, x)[k],
            ),
    decreases s.len(),
{
    let r = insert_by_key::<T>(s, x);
    if s.len() == 0 {
    } else if !T::precedes(s[0], x) {
        assert forall|i: int, j: int| 0 <= i < j < r.len() implies !T::precedes(
            #[trigger] r[j],
            #[trigger] r[i],
        ) by {
            if i == 0 {
                T::lemma_precedes_order(s[j - 1], s[0], x);
                if j - 1 > 0 {
                    assert(!T::precedes(s[j - 1], s[0]));
                }
            }
        }
        assert forall|k: int| 0 <= k < r.len() implies #[trigger] r[k] == x || s.contains(r[k]) by {
            if k > 0 {
                assert(r[k] == s[k - 1]);
            }
        }
    } else {
        let t = s.drop_first();
        assert(sorted_by_key::<T>(t)) by {
            assert forall|i: int, j: int| 0 <= i < j < t.len() implies !T::precedes(
                #[trigger] t[j],
                #[trigger] t[i],
            ) by {
                assert(t[j] == s[j + 1] && t[i] == s[i + 1]);
            }
        }
        lemma_insert_sorted::<T>(t, x);
        let u = insert_by_key::<T>(t, x);
        assert(r == seq![s[0]] + u);
        assert forall|k: int| 0 <= k < r.len() implies #[trigger] r[k] == x || s.contains(r[k]) by {
            if k > 0 {
                assert(r[k] == u[k - 1]);
                if u[k - 1] != x {
                    let m = choose|m: int| 0 <= m < t.len() && t[m] == u[k - 1];
                    assert(s[m + 1] == r[k]);
                }
            } else {
                assert(s[0] == r[0]);
            }
        }
        assert forall|i: int, j: int| 0 <= i < j < r.len() implies !T::precedes(
            #[trigger] r[j],
            #[trigger] r[i],
        ) by {
            if i == 0 {
                assert(r[j] == u[j - 1]);
                if u[j - 1] == x {
                    T::lemma_precedes_order(s[0], x, x);
                } else {
                    let m = choose|m: int| 0 <= m < t.len() && t[m] == u[j - 1];
                    assert(s[m + 1] == r[j]);
                }
            } else {
                assert(r[j] == u[j - 1] && r[i] == u[i - 1]);
            }
        }
    }
}

/// The sort yields records in order.
pub proof fn lemma_key_sorted_is_sorted<T: SortKeyed>(s: Seq<T::V>)
    ensures
        sorted_by_key::<T>(key_sorted::<T>(s)),
        key_sorted::<T>(s).len() == s.len(),
    decreases s.len(),
{
    if s.len() > 0 {
        lemma_key_sorted_is_sorted::<T>(s.drop_first());
        lemma_insert_sorted::<T>(key_sorted::<T>(s.drop_first()), s[0]);
    }
}

/// Sorting a sequence that is already in order leaves it as it is.
pub proof fn lemma_key_sorted_fixes_sorted<T: SortKeyed>(s: Seq<T::V>)
    requires
        sorted_by_key::<T>(s),
    ensures
        key_sorted::<T>(s) == s,
    decreases s.len(),
{
    if s.len() > 0 {
        let t = s.drop_first();
        assert(sorted_by_key::<T>(t)) by {
            assert forall|i: int, j: int| 0 <= i < j < t.len() implies !T::precedes(
                #[trigger] t[j],
                #[trigger] t[i],
            ) by {
                assert(t[j] == s[j + 1] && t[i] == s[i + 1]);
            }
        }
        lemma_key_sorted_fixes_sorted::<T>(t);
        if t.len() > 0 {
            assert(t[0] == s[1]);
        }
        assert(seq![s[0]] + t =~= s);
    }
}

/// The sort is deterministic and idempotent: its output is in order, and
/// sorting that output again gives it back unchanged.
pub proof fn lemma_key_sorted_idempotent<T: SortKeyed>(s: Seq<T::V>)
    ensures
        key_sorted::<T>(key_sorted::<T>(s)) == key_sorted::<T>(s),
        sorted_by_key::<T>(key_sorted::<T>(s)),
{
    lemma_key_sorted_is_sorted::<T>(s);
    lemma_key_sorted_fixes_sorted::<T>(key_sorted::<T>(s));
}

proof fn lemma_insert_at<T: SortKeyed>(s: Seq<T::V>, x: T::V, j: int)
    requires
        0 <= j <= s.len(),
        forall|k: int| 0 <= k < j ==> T::precedes(#[trigger] s[k], x),
        j < s.len() ==> !T::precedes(s[j], x),
    ensures
        insert_by_key::<T>(s, x) == s.insert(j, x),
    decreases j,
{
    if j == 0 {
        assert(s.insert(0, x) =~= seq![x] + s);
    } else {
        let t = s.drop_first();
        assert forall|k: int| 0 <= k < j - 1 implies T::precedes(#[trigger] t[k], x) by {
            assert(t[k] == s[k + 1]);
        }
        lemma_insert_at::<T>(t, x, j - 1);
        assert(seq![s[0]] + t.insert(j - 1, x) =~= s.insert(j, x));
    }
}

/// Sorts records in their type's order, keeping the relative order of
/// records that neither precedes.
pub fn sort_by_key<T: SortKeyed>(v: Vec<T>) -> (r: Vec<T>)
    ensures
        views(r@) == key_sorted::<T>(views(v@)),
{
    let ghost orig = views(v@);
    let mut rest = v;
    let mut out: Vec<T> = Vec::new();
    proof {
        assert(orig.skip(orig.len() as int) =~= Seq::<T::V>::empty());
        assert(views(out@) =~= Seq::<T::V>::empty());
    }
    while rest.len() > 0
        invariant
            views(rest@) == orig.take(rest.len() as int),
            rest.len() <= orig.len(),
            views(out@) == key_sorted::<T>(orig.skip(rest.len() as int)),
        decreases rest.len(),
    {
        let ghost before = rest@;
        let x = rest.pop().unwrap();
        let n = rest.len();
        proof {
            let suffix = orig.skip(n as int);
            assert(before == rest@.push(x));
            assert(views(before)[n as int] == x@);
            assert(x@ == orig[n as int]);
            assert(suffix.drop_first() =~= orig.skip(n + 1));
            assert(suffix[0] == x@);
            assert(views(rest@) =~= orig.take(n as int));
        }
        let mut j: usize = 0;
        while j < out.len() && out[j].sorts_before(&x)
            invariant
                j <= out.len(),
                forall|k: int| 0 <= k < j ==> T::precedes(#[trigger] views(out@)[k], x@),
            decreases out.len() - j,
        {
            j = j + 1;
        }
        proof {
            lemma_insert_at::<T>(views(out@), x@, j as int);
        }
        let ghost out_before = out@;
        out.insert(j, x);
        proof {
            assert(views(out@) =~= views(out_before).insert(j as int, x@));
        }
    }
    proof {
        assert(orig.skip(0) =~= orig);
    }
    out
}

} // verus!
