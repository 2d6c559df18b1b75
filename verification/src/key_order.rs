//! The order of key sets: lexicographic, by the value of each key.

use crate::keyboard::KeySet;
use crate::keys::{lemma_val_key_injective, spec_val_key, val_key, Key};
use std::cmp::Ordering;
use vstd::prelude::*;

verus! {

/// Lexicographic order of two key lists by each key's value: the first differing key
/// decides, and a proper prefix comes first.
pub open spec fn lex_order(a: Seq<Key>, b: Seq<Key>) -> Ordering
    decreases a.len(),
{
    if a.len() == 0 {
        if b.len() == 0 {
            Ordering::Equal
        } else {
            Ordering::Less
        }
    } else if b.len() == 0 {
        Ordering::Greater
    } else if spec_val_key(a[0]) < spec_val_key(b[0]) {
        Ordering::Less
    } else if spec_val_key(b[0]) < spec_val_key(a[0]) {
        Ordering::Greater
    } else {
        lex_order(a.drop_first(), b.drop_first())
    }
}

/// Key lists compare equal exactly when they are the same list.
pub proof fn lemma_lex_order_equal(a: Seq<Key>, b: Seq<Key>)
    ensures
        (lex_order(a, b) == Ordering::Equal) <==> a == b,
    decreases a.len(),
{
    if a.len() > 0 && b.len() > 0 {
        lemma_val_key_injective(a[0], b[0]);
        lemma_lex_order_equal(a.drop_first(), b.drop_first());
        if a[0] == b[0] && a.drop_first() == b.drop_first() {
            assert(a == seq![a[0]] + a.drop_first());
            assert(b == seq![b[0]] + b.drop_first());
        }
        if a == b {
            assert(a.drop_first() == b.drop_first());
        }
    } else if a.len() == 0 && b.len() == 0 {
        assert(a =~= b);
    }
}

/// Swapping the two lists turns the answer around.
pub proof fn lemma_lex_order_antisymmetric(a: Seq<Key>, b: Seq<Key>)
    ensures
        (lex_order(a, b) == Ordering::Less) <==> (lex_order(b, a) == Ordering::Greater),
        (lex_order(a, b) == Ordering::Equal) <==> (lex_order(b, a) == Ordering::Equal),
    decreases a.len(),
{
    if a.len() > 0 && b.len() > 0 {
        lemma_lex_order_antisymmetric(a.drop_first(), b.drop_first());
    }
}

/// Once the keys before `n` have equal values, the order is decided from `n` on.
proof fn lemma_lex_order_from(a: Seq<Key>, b: Seq<Key>, n: int)
    requires
        0 <= n <= a.len(),
        n <= b.len(),
        forall|j: int| 0 <= j < n ==> spec_val_key(#[trigger] a[j]) == spec_val_key(b[j]),
    ensures
        lex_order(a, b) == lex_order(a.skip(n), b.skip(n)),
    decreases n,
{
    if n > 0 {
        lemma_lex_order_from(a, b, n - 1);
        assert(a.skip(n - 1).drop_first() == a.skip(n));
        assert(b.skip(n - 1).drop_first() == b.skip(n));
        assert(a.skip(n - 1)[0] == a[n - 1]);
        assert(b.skip(n - 1)[0] == b[n - 1]);
    } else {
        assert(a.skip(0) == a);
        assert(b.skip(0) == b);
    }
}

/// The first position at which the two key lists hold keys of different value, or the
/// length of the shorter list when one is a prefix of the other (by value).
fn first_difference(a: &[Key], b: &[Key]) -> (r: (usize, Ghost<int>))
    ensures
        r.1@ == r.0,
        r.0 <= a@.len(),
        r.0 <= b@.len(),
        forall|j: int| 0 <= j < r.0 ==> spec_val_key(#[trigger] a@[j]) == spec_val_key(b@[j]),
        r.0 < a@.len() && r.0 < b@.len() ==> spec_val_key(a@[r.1@]) != spec_val_key(b@[r.1@]),
{
    let mut i: usize = 0;
    while i < a.len() && i < b.len()
        invariant
            i <= a@.len(),
            i <= b@.len(),
            forall|j: int| 0 <= j < i ==> spec_val_key(#[trigger] a@[j]) == spec_val_key(b@[j]),
        decreases a.len() - i,
    {
        if val_key(&a[i]) != val_key(&b[i]) {
            return (i, Ghost(i as int));
        }
        i = i + 1;
    }
    (i, Ghost(i as int))
}

impl KeySet {
    /// Compare lexicographically by each key's value (see [`crate::keys::val_key`]).
    pub fn cmp(&self, other: &KeySet) -> (r: Ordering)
        ensures
            r == lex_order(self@, other@),
    {
        let a = self.keys();
        let b = other.keys();
        let (i, Ghost(n)) = first_difference(a, b);
        proof {
            lemma_lex_order_from(a@, b@, n);
            assert(a@.skip(n).len() == 0 ==> a@.len() == n);
        }
        if i < a.len() && i < b.len() {
            proof {
                assert(a@.skip(n)[0] == a@[n]);
                assert(b@.skip(n)[0] == b@[n]);
            }
            if val_key(&a[i]) < val_key(&b[i]) {
                Ordering::Less
            } else {
                Ordering::Greater
            }
        } else if i < a.len() {
            Ordering::Greater
        } else if i < b.len() {
            Ordering::Less
        } else {
            Ordering::Equal
        }
    }
}

impl PartialOrd for KeySet {
    /// Always `Some`: key sets are totally ordered by [`KeySet::cmp`].
    fn partial_cmp(&self, other: &KeySet) -> (r: Option<Ordering>) {
        Some(self.cmp(other))
    }
}

impl vstd::std_specs::cmp::PartialOrdSpecImpl for KeySet {
    open spec fn obeys_partial_cmp_spec() -> bool {
        true
    }

    open spec fn partial_cmp_spec(&self, other: &KeySet) -> Option<Ordering> {
        Some(lex_order(self@, other@))
    }
}

} // verus!
