//! Relations between accessibles: which accessibles label, describe or control one another.

use crate::accessible::AccessiblePrimitive;
use crate::atspi_types::relation_eq;
use crate::cache_item::{keys_view, CacheItem};
use atspi_common::RelationType;
use vstd::prelude::*;

verus! {

/// The relations of an accessible: for each relation type, the accessibles in that relation.
pub struct RelationSet(pub Vec<(RelationType, Vec<AccessiblePrimitive>)>);

/// The items in a given relation to an accessible.
pub struct Relations(pub RelationType, pub Vec<CacheItem>);

/// The keys listed under the relation type `rt`, list after list, in order.
pub open spec fn related_keys(s: Seq<(RelationType, Vec<AccessiblePrimitive>)>, rt: RelationType) -> Seq<
    (Seq<char>, Seq<char>),
>
    decreases s.len(),
{
    if s.len() == 0 {
        Seq::empty()
    } else {
        let rest = related_keys(s.drop_last(), rt);
        if s.last().0 == rt {
            rest + keys_view(s.last().1@)
        } else {
            rest
        }
    }
}

/// The accessibles of the first list under the relation type `rt`, or none if no list has
/// that type.
pub open spec fn first_of_type(s: Seq<(RelationType, Vec<AccessiblePrimitive>)>, rt: RelationType) -> Seq<
    AccessiblePrimitive,
>
    decreases s.len(),
{
    if s.len() == 0 {
        Seq::empty()
    } else if s[0].0 == rt {
        s[0].1@
    } else {
        first_of_type(s.drop_first(), rt)
    }
}

impl RelationSet {
    /// The accessibles of the first list in the relation `rt`, or none if there is no such
    /// list; later lists of the same type are left out.
    pub fn first_relations(self, rt: RelationType) -> (r: Vec<AccessiblePrimitive>)
        ensures
            r@ == first_of_type(self.0@, rt),
    {
        let RelationSet(lists) = self;
        let mut lists = lists;
        let ghost all = lists@;
        let mut i: usize = 0;
        assert(all.skip(0) == all);
        while i < lists.len()
            invariant
                i <= lists@.len(),
                lists@ == all,
                all == self.0@,
                first_of_type(all, rt) == first_of_type(all.skip(i as int), rt),
            decreases lists.len() - i,
        {
            proof {
                assert(all.skip(i as int)[0] == all[i as int]);
                assert(all.skip(i as int).drop_first() == all.skip(i + 1));
            }
            if relation_eq(lists[i].0, rt) {
                assert(first_of_type(all.skip(i as int), rt) == all[i as int].1@);
                let (_, found) = lists.remove(i);
                assert(found == all[i as int].1);
                return found;
            }
            i = i + 1;
        }
        proof {
            assert(all.skip(i as int).len() == 0);
        }
        Vec::new()
    }

    /// The accessibles in the relation `rt`.
    pub fn get_relations(self, rt: RelationType) -> (r: Vec<AccessiblePrimitive>)
        ensures
            keys_view(r@) == related_keys(self.0@, rt),
    {
        let RelationSet(lists) = self;
        let mut r: Vec<AccessiblePrimitive> = Vec::new();
        let mut i: usize = 0;
        while i < lists.len()
            invariant
                i <= lists@.len(),
                keys_view(r@) == related_keys(lists@.take(i as int), rt),
            decreases lists.len() - i,
        {
            proof {
                assert(lists@.take(i + 1).drop_last() == lists@.take(i as int));
            }
            if relation_eq(lists[i].0, rt) {
                let ghost before = r@;
                let mut j: usize = 0;
                while j < lists[i].1.len()
                    invariant
                        i < lists@.len(),
                        j <= lists@[i as int].1@.len(),
                        keys_view(r@) == keys_view(before) + keys_view(
                            lists@[i as int].1@.take(j as int),
                        ),
                    decreases lists@[i as int].1@.len() - j,
                {
                    let ghost prev = r@;
                    let k = lists[i].1[j].clone();
                    assert(k == lists@[i as int].1@[j as int]);
                    r.push(k);
                    assert(keys_view(r@) =~= keys_view(prev).push(k@));
                    assert(lists@[i as int].1@.take(j + 1) =~= lists@[i as int].1@.take(
                        j as int,
                    ).push(k));
                    assert(keys_view(lists@[i as int].1@.take(j + 1)) =~= keys_view(
                        lists@[i as int].1@.take(j as int),
                    ).push(k@));
                    j = j + 1;
                    assert(keys_view(r@) =~= keys_view(before) + keys_view(
                        lists@[i as int].1@.take(j as int),
                    ));
                }
                assert(lists@[i as int].1@.take(j as int) == lists@[i as int].1@);
            }
            i = i + 1;
        }
        assert(lists@.take(lists@.len() as int) == lists@);
        r
    }
}

} // verus!
