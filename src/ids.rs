use vstd::prelude::*;
use vstd::set_lib::{lemma_int_range, lemma_len_subset, set_int_range};

use crate::model::{CopiedTrade, CopyRelation, Trade, User};
use crate::outside::fresh_id;

verus! {

/// No two entries of `s` share a key.
pub open spec fn unique_ids<A>(s: Seq<A>, key: spec_fn(A) -> u128) -> bool {
    forall|i: int, j: int|
        0 <= i < s.len() && 0 <= j < s.len() && i != j ==> key(#[trigger] s[i]) != key(#[trigger] s[j])
}

/// No entry of `s` has key `id`.
pub open spec fn unused<A>(s: Seq<A>, key: spec_fn(A) -> u128, id: u128) -> bool {
    forall|j: int| 0 <= j < s.len() ==> key(#[trigger] s[j]) != id
}

pub open spec fn user_key() -> spec_fn(User) -> u128 {
    |u: User| u.id
}

pub open spec fn trade_key() -> spec_fn(Trade) -> u128 {
    |t: Trade| t.id
}

pub open spec fn relation_key() -> spec_fn(CopyRelation) -> u128 {
    |r: CopyRelation| r.id
}

pub open spec fn copy_key() -> spec_fn(CopiedTrade) -> u128 {
    |c: CopiedTrade| c.id
}

/// Appending an entry under an unused key keeps the keys distinct.
pub proof fn lemma_unique_push<A>(s: Seq<A>, x: A, key: spec_fn(A) -> u128)
    requires
        unique_ids(s, key),
        unused(s, key, key(x)),
    ensures
        unique_ids(s.push(x), key),
{
    let t = s.push(x);
    assert forall|i: int, j: int|
        0 <= i < t.len() && 0 <= j < t.len() && i != j implies key(#[trigger] t[i]) != key(#[trigger] t[j]) by {
        if i < s.len() && j < s.len() {
            assert(t[i] == s[i] && t[j] == s[j]);
        } else if i < s.len() {
            assert(t[i] == s[i]);
        } else {
            assert(t[j] == s[j]);
        }
    }
}

/// Two sequences with the same keys, position by position, are alike in
/// having distinct keys and in which keys they use.
pub proof fn lemma_same_keys<A>(s: Seq<A>, t: Seq<A>, key: spec_fn(A) -> u128)
    requires
        s.len() == t.len(),
        forall|i: int| 0 <= i < s.len() ==> key(#[trigger] t[i]) == key(s[i]),
    ensures
        unique_ids(s, key) ==> unique_ids(t, key),
        forall|id: u128| unused(s, key, id) ==> #[trigger] unused(t, key, id),
{
    assert forall|id: u128| unused(s, key, id) implies #[trigger] unused(t, key, id) by {
        assert forall|j: int| 0 <= j < t.len() implies key(#[trigger] t[j]) != id by {
            assert(key(t[j]) == key(s[j]));
        }
    }
    if unique_ids(s, key) {
        assert forall|i: int, j: int|
            0 <= i < t.len() && 0 <= j < t.len() && i != j implies key(#[trigger] t[i]) != key(#[trigger] t[j]) by {
            assert(key(t[i]) == key(s[i]) && key(t[j]) == key(s[j]));
        }
    }
}

/// A filter keeps entries of its input only, so distinct keys stay distinct.
pub proof fn lemma_filter_unique<A>(s: Seq<A>, pred: spec_fn(A) -> bool, key: spec_fn(A) -> u128)
    requires
        unique_ids(s, key),
    ensures
        unique_ids(s.filter(pred), key),
        forall|k: int|
            0 <= k < s.filter(pred).len() ==> exists|j: int| 0 <= j < s.len() && s[j] == #[trigger] s.filter(pred)[k],
    decreases s.len(),
{
    reveal(Seq::filter);
    if s.len() > 0 {
        let d = s.drop_last();
        assert(unique_ids(d, key)) by {
            assert forall|i: int, j: int|
                0 <= i < d.len() && 0 <= j < d.len() && i != j implies key(#[trigger] d[i]) != key(#[trigger] d[j]) by {
                assert(d[i] == s[i] && d[j] == s[j]);
            }
        }
        lemma_filter_unique(d, pred, key);
        let f = d.filter(pred);
        let last = s.last();
        assert forall|k: int| 0 <= k < f.len() implies key(#[trigger] f[k]) != key(last) by {
            let j = choose|j: int| 0 <= j < d.len() && d[j] == f[k];
            assert(s[j] == f[k]);
            assert(s[s.len() - 1] == last);
        }
        assert forall|k: int|
            0 <= k < s.filter(pred).len() implies exists|j: int| 0 <= j < s.len() && s[j] == #[trigger] s.filter(pred)[k] by {
            if k < f.len() {
                let j = choose|j: int| 0 <= j < d.len() && d[j] == f[k];
                assert(s[j] == s.filter(pred)[k]);
            } else {
                assert(s[s.len() - 1] == s.filter(pred)[k]);
            }
        }
        if pred(last) {
            lemma_unique_push(f, last, key);
        }
    }
}

/// Among the `n + 1` values `0..=n`, at least one is missing from `n` values.
proof fn lemma_small_value_missing(s: Seq<u128>)
    requires
        s.len() <= usize::MAX,
    ensures
        exists|c: int| 0 <= c <= s.len() && !#[trigger] s.contains(c as u128),
{
    if forall|c: int| 0 <= c <= s.len() ==> #[trigger] s.contains(c as u128) {
        let t = s.map_values(|x: u128| x as int);
        let tset = t.to_set();
        t.lemma_cardinality_of_set();
        lemma_int_range(0, (s.len() + 1) as int);
        assert forall|c: int| set_int_range(0, (s.len() + 1) as int).contains(c) implies tset.contains(c) by {
            assert(s.contains(c as u128));
            let j = choose|j: int| 0 <= j < s.len() && s[j] == c as u128;
            assert(0 <= j < t.len());
            assert(t[j] == s[j] as int);
            assert(t[j] == c);
            assert(t.contains(c));
        }
        lemma_len_subset(set_int_range(0, (s.len() + 1) as int), tset);
    }
}

fn holds(used: &Vec<u128>, x: u128) -> (r: bool)
    ensures
        r == used@.contains(x),
{
    let mut i: usize = 0;
    while i < used.len()
        invariant
            i <= used@.len(),
            forall|j: int| 0 <= j < i ==> used@[j] != x,
        decreases used@.len() - i,
    {
        if used[i] == x {
            return true;
        }
        i = i + 1;
    }
    false
}

/// A new id that differs from every value of `used`: a random one when it is
/// free, else the least free value.
pub fn unused_id(used: &Vec<u128>) -> (r: u128)
    ensures
        !used@.contains(r),
{
    let drawn = fresh_id();
    if !holds(used, drawn) {
        return drawn;
    }
    let n = used.len();
    proof {
        lemma_small_value_missing(used@);
    }
    let mut c: usize = 0;
    while c <= used.len()
        invariant
            c <= used@.len() + 1,
            forall|k: int| 0 <= k < c ==> #[trigger] used@.contains(k as u128),
            exists|k: int| 0 <= k <= used@.len() && !#[trigger] used@.contains(k as u128),
        decreases used@.len() + 1 - c,
    {
        if !holds(used, c as u128) {
            return c as u128;
        }
        c = c + 1;
    }
    drawn
}

} // verus!
