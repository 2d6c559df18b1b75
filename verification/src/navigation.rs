//! The decisions of structural navigation: which neighbours of an accessible are its edges,
//! and the depth-first search for the next accessible of a role. The queries to the
//! applications are made by the caller, who hands their answers in.

use crate::accessible::AccessiblePrimitive;
use crate::cache_item::keys_view;
use vstd::prelude::*;

verus! {

/// Whether the sibling at index `i` is an edge of the accessible at index `index`: every other
/// sibling when no direction is given, those before it going forward, those after it going
/// backward.
pub open spec fn sibling_wanted(i: int, index: int, backward: Option<bool>) -> bool {
    match backward {
        None => i != index,
        Some(false) => i < index,
        Some(true) => i > index,
    }
}

/// The indices `0 .. count`.
pub open spec fn indices(count: nat) -> Seq<usize> {
    Seq::new(count, |i: int| i as usize)
}

/// The indices of the siblings that are edges of the accessible at `index` among `count`
/// children of its parent, in order.
pub fn sibling_indices(count: usize, index: usize, backward: Option<bool>) -> (r: Vec<usize>)
    ensures
        r@ == indices(count as nat).filter(|i: usize| sibling_wanted(i as int, index as int, backward)),
{
    let ghost all = indices(count as nat);
    let ghost pred = |i: usize| sibling_wanted(i as int, index as int, backward);
    let mut r: Vec<usize> = Vec::new();
    let mut i: usize = 0;
    while i < count
        invariant
            i <= count,
            all == indices(count as nat),
            pred == (|i: usize| sibling_wanted(i as int, index as int, backward)),
            r@ == all.take(i as int).filter(pred),
        decreases count - i,
    {
        proof {
            reveal_with_fuel(Seq::filter, 1);
            assert(all.take(i + 1).drop_last() == all.take(i as int));
            assert(all.take(i + 1).last() == i);
        }
        let wanted = match backward {
            None => i != index,
            Some(false) => i < index,
            Some(true) => i > index,
        };
        if wanted {
            r.push(i);
        }
        i = i + 1;
    }
    assert(all.take(count as int) == all);
    r
}

/// Whether a child whose hyperlink starts at `start` (`None` when it does not say) is kept
/// when reading from the caret at `caret`: children that do not say are always kept; going
/// backward, those starting at or before the caret; going forward, those at or after it.
pub open spec fn child_from_caret(start: Option<i32>, caret: i32, backward: bool) -> bool {
    match start {
        None => true,
        Some(s) => (s <= caret && backward) || (s >= caret && !backward),
    }
}

/// The indices of the children kept when reading from the caret, in order.
pub fn caret_children(starts: &[Option<i32>], caret: i32, backward: bool) -> (r: Vec<usize>)
    ensures
        r@ == indices(starts@.len()).filter(
            |i: usize| child_from_caret(starts@[i as int], caret, backward),
        ),
{
    let ghost all = indices(starts@.len());
    let ghost pred = |i: usize| child_from_caret(starts@[i as int], caret, backward);
    let mut r: Vec<usize> = Vec::new();
    let mut i: usize = 0;
    while i < starts.len()
        invariant
            i <= starts@.len(),
            all == indices(starts@.len()),
            pred == (|i: usize| child_from_caret(starts@[i as int], caret, backward)),
            r@ == all.take(i as int).filter(pred),
        decreases starts.len() - i,
    {
        proof {
            reveal_with_fuel(Seq::filter, 1);
            assert(all.take(i + 1).drop_last() == all.take(i as int));
            assert(all.take(i + 1).last() == i);
        }
        let keep = match starts[i] {
            None => true,
            Some(s) => (s <= caret && backward) || (s >= caret && !backward),
        };
        if keep {
            r.push(i);
        }
        i = i + 1;
    }
    assert(all.take(starts@.len() as int) == all);
    r
}

/// The children that count as edges: when a direction is given and the children from the
/// caret could be found, those; otherwise all the children.
pub fn edge_children(
    all: Vec<AccessiblePrimitive>,
    from_caret: Option<Vec<AccessiblePrimitive>>,
    backward: Option<bool>,
) -> (r: Vec<AccessiblePrimitive>)
    ensures
        r@ == (if backward is Some && from_caret is Some {
            from_caret->0@
        } else {
            all@
        }),
{
    match backward {
        Some(_) => match from_caret {
            Some(kept) => kept,
            None => all,
        },
        None => all,
    }
}

/// The edges of an accessible, in order: its children, then its siblings, then its parent.
pub fn edges_of(
    children: Vec<AccessiblePrimitive>,
    siblings: Vec<AccessiblePrimitive>,
    parent: AccessiblePrimitive,
) -> (r: Vec<AccessiblePrimitive>)
    ensures
        r@ == children@ + siblings@ + seq![parent],
{
    let mut r = children;
    let mut s = siblings;
    r.append(&mut s);
    r.push(parent);
    r
}

/// The top of `stack` after the visited items on it are popped: the rest of the stack and the
/// first item not visited, if any.
pub open spec fn pop_unvisited(stack: Seq<(Seq<char>, Seq<char>)>, visited: Seq<(Seq<char>, Seq<char>)>) -> (
    Seq<(Seq<char>, Seq<char>)>,
    Option<(Seq<char>, Seq<char>)>,
)
    decreases stack.len(),
{
    if stack.len() == 0 {
        (stack, None)
    } else if visited.contains(stack.last()) {
        pop_unvisited(stack.drop_last(), visited)
    } else {
        (stack.drop_last(), Some(stack.last()))
    }
}

/// What to do with an item of the search once the application has said whether it is an
/// internal frame and whether it matches the wanted role.
#[derive(Clone, Copy, Debug, PartialEq, Eq, Structural)]
pub enum NextDecision {
    /// The item matches: the search ends with it.
    Found,
    /// The item is an internal frame, the top of the hierarchy: the search ends with nothing.
    Stop,
    /// Neither: the search goes on, with the edges of the item on the stack.
    Continue,
}

/// The decision for an item: an internal frame stops the search before any match is looked
/// at.
pub fn decide(is_internal_frame: bool, matches: bool) -> (d: NextDecision)
    ensures
        d == (if is_internal_frame {
            NextDecision::Stop
        } else if matches {
            NextDecision::Found
        } else {
            NextDecision::Continue
        }),
{
    if is_internal_frame {
        NextDecision::Stop
    } else if matches {
        NextDecision::Found
    } else {
        NextDecision::Continue
    }
}

/// The state of the depth-first search for the next accessible of a role: the items already
/// looked at, and the stack of items still to look at (its top last).
pub struct NextSearch {
    visited: Vec<AccessiblePrimitive>,
    stack: Vec<AccessiblePrimitive>,
}

impl NextSearch {
    /// The items already looked at, in order.
    pub closed spec fn visited(self) -> Seq<(Seq<char>, Seq<char>)> {
        keys_view(self.visited@)
    }

    /// The items still to look at; the top is last.
    pub closed spec fn stack(self) -> Seq<(Seq<char>, Seq<char>)> {
        keys_view(self.stack@)
    }

    /// A search that starts from the edges of an accessible.
    pub fn new(edges: Vec<AccessiblePrimitive>) -> (s: NextSearch)
        ensures
            s.visited() == Seq::<(Seq<char>, Seq<char>)>::empty(),
            s.stack() == keys_view(edges@),
    {
        let s = NextSearch { visited: Vec::new(), stack: edges };
        assert(s.visited() =~= Seq::empty());
        s
    }

    /// Pop the stack to the first item not yet looked at, mark it as looked at, and give it
    /// back; `None` once the stack is used up.
    pub fn next_item(&mut self) -> (r: Option<AccessiblePrimitive>)
        ensures
            final(self).stack() == pop_unvisited(old(self).stack(), old(self).visited()).0,
            pop_unvisited(old(self).stack(), old(self).visited()).1 == (match r {
                Some(k) => Some(k@),
                None => None::<(Seq<char>, Seq<char>)>,
            }),
            final(self).visited() == (match r {
                Some(k) => old(self).visited().push(k@),
                None => old(self).visited(),
            }),
    {
        loop
            invariant
                self.visited() == old(self).visited(),
                pop_unvisited(self.stack(), self.visited()) == pop_unvisited(
                    old(self).stack(),
                    old(self).visited(),
                ),
            decreases self.stack@.len(),
        {
            let ghost before = self.stack();
            match self.stack.pop() {
                None => {
                    return None;
                },
                Some(item) => {
                    assert(before.last() == item@);
                    assert(keys_view(self.stack@) =~= before.drop_last());
                    if self.is_visited(&item) {
                    } else {
                        let ghost v = self.visited();
                        self.visited.push(item.clone());
                        assert(self.visited() =~= v.push(item@));
                        return Some(item);
                    }
                },
            }
        }
    }

    /// Whether the item has been looked at.
    fn is_visited(&self, item: &AccessiblePrimitive) -> (b: bool)
        ensures
            b == self.visited().contains(item@),
    {
        let mut i: usize = 0;
        while i < self.visited.len()
            invariant
                i <= self.visited@.len(),
                forall|j: int| 0 <= j < i ==> #[trigger] self.visited()[j] != item@,
            decreases self.visited.len() - i,
        {
            if self.visited[i].same(item) {
                assert(self.visited()[i as int] == item@);
                return true;
            }
            i = i + 1;
        }
        false
    }

    /// Put the edges of the starting accessible on the stack again, in order.
    pub fn push_edges(&mut self, edges: Vec<AccessiblePrimitive>)
        ensures
            final(self).visited() == old(self).visited(),
            final(self).stack() == old(self).stack() + keys_view(edges@),
    {
        let mut e = edges;
        let ghost before = self.stack@;
        let ghost ev = e@;
        self.stack.append(&mut e);
        assert(keys_view(self.stack@) =~= keys_view(before) + keys_view(ev));
    }
}

/// No item is looked at twice: an item the search gives back was not looked at before.
pub proof fn law_next_item_is_new(stack: Seq<(Seq<char>, Seq<char>)>, visited: Seq<(Seq<char>, Seq<char>)>)
    ensures
        pop_unvisited(stack, visited).1 matches Some(k) ==> !visited.contains(k),
        pop_unvisited(stack, visited).0.len() <= stack.len(),
    decreases stack.len(),
{
    if stack.len() > 0 && visited.contains(stack.last()) {
        law_next_item_is_new(stack.drop_last(), visited);
    }
}

} // verus!
