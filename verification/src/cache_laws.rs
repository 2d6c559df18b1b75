//! Laws of the cache: what a store, a removal and each event keep, and which changes undo
//! one another.

use crate::cache::{kept, modified, or_insert, Modification};
use crate::cache_item::{chars_before, text_deleted, text_inserted, utf8_width, CacheItemView, Operation};
use crate::event_handlers::{effect_outcome, EventEffect, EventHandler, Property, PropertyChangeEvent};
use crate::accessible::AccessiblePrimitive;
use crate::errors::OdiliaError;
use crate::cache_item::CacheItem;
use vstd::prelude::*;

verus! {

/// The number of bytes of the text in UTF-8.
pub open spec fn utf8_len(s: Seq<char>) -> int
    decreases s.len(),
{
    if s.len() == 0 {
        0
    } else {
        utf8_width(s[0]) + utf8_len(s.drop_first())
    }
}

/// A store holds the key afterwards: with the new item if the key was free, and with the
/// item it held before (the store leaves it alone) otherwise.
pub proof fn law_store_then_get(
    items: Map<(Seq<char>, Seq<char>), CacheItemView>,
    key: (Seq<char>, Seq<char>),
    v: CacheItemView,
)
    ensures
        or_insert(items, key, v).dom().contains(key),
        !items.dom().contains(key) ==> or_insert(items, key, v)[key] == v,
        items.dom().contains(key) ==> or_insert(items, key, v) == items,
        kept(items, or_insert(items, key, v)),
{
}

/// After a removal the key is gone, and every other item is still held, unchanged.
pub proof fn law_remove_then_get(
    items: Map<(Seq<char>, Seq<char>), CacheItemView>,
    key: (Seq<char>, Seq<char>),
    other: (Seq<char>, Seq<char>),
)
    ensures
        !items.remove(key).dom().contains(key),
        other != key && items.dom().contains(other) ==> items.remove(key).dom().contains(other)
            && items.remove(key)[other] == items[other],
{
}

/// Getting an item a second time, once the first time succeeded, gives the same item and
/// changes nothing: the first success left the item in the cache.
pub proof fn law_get_or_create_twice(
    items: Map<(Seq<char>, Seq<char>), CacheItemView>,
    apps: Set<Seq<char>>,
    key: (Seq<char>, Seq<char>),
    items1: Map<(Seq<char>, Seq<char>), CacheItemView>,
    apps1: Set<Seq<char>>,
    r1: Result<CacheItem, OdiliaError>,
    items2: Map<(Seq<char>, Seq<char>), CacheItemView>,
    apps2: Set<Seq<char>>,
    r2: Result<CacheItem, OdiliaError>,
)
    requires
        crate::cache::created(items, apps, key, items1, apps1, r1),
        r1 is Ok,
        crate::cache::created(items1, apps1, key, items2, apps2, r2),
    ensures
        items2 == items1,
        apps2 == apps1,
        r2 matches Ok(c2) && (r1 matches Ok(c1) && c2@ == c1@),
{
    crate::cache::lemma_created_keeps(items, apps, key, items1, apps1, r1);
}

/// An event touches at most the one item it is about: a removal takes only its key away; a
/// modification changes only its key; every other effect loses or changes no item held before.
pub proof fn law_event_touches_one_item(
    e: EventEffect,
    items: Map<(Seq<char>, Seq<char>), CacheItemView>,
    apps: Set<Seq<char>>,
    new_items: Map<(Seq<char>, Seq<char>), CacheItemView>,
    new_apps: Set<Seq<char>>,
    r: Result<CacheItem, OdiliaError>,
    other: (Seq<char>, Seq<char>),
)
    requires
        effect_outcome(e, items, apps, new_items, new_apps, r),
        items.dom().contains(other),
    ensures
        match e {
            EventEffect::Remove(k) => other != k@ ==> new_items.dom().contains(other)
                && new_items[other] == items[other],
            EventEffect::Modify(k, _) => other != k@ ==> new_items.dom().contains(other)
                && new_items[other] == items[other],
            _ => new_items.dom().contains(other) && new_items[other] == items[other],
        },
{
    match e {
        EventEffect::Modify(k, m) => {
            if !items.dom().contains(k@) {
                crate::cache::lemma_created_keeps(items, apps, k@, new_items, new_apps, r);
            }
        },
        EventEffect::Fetch(k) => {
            crate::cache::lemma_created_keeps(items, apps, k@, new_items, new_apps, r);
        },
        EventEffect::Prefetch(k) => {
            if !(new_items == items && new_apps == apps && r is Err) {
                let fetched = choose|fetched: Seq<CacheItemView>|
                    #[trigger] crate::cache::bulk_stored(items, fetched) == new_items
                        && new_apps == crate::cache::bulk_apps(apps, fetched)
                        && crate::cache::answer_for(new_items, k@, r);
                assert(crate::cache::bulk_stored(items, fetched) == new_items);
                crate::cache::lemma_added_all_keeps(items, fetched);
            }
        },
        _ => {},
    }
}

/// Inserting a child at an index and then removing the child at that index gives the item
/// back as it was.
pub proof fn law_child_insert_then_remove(
    v: CacheItemView,
    index: usize,
    child: AccessiblePrimitive,
    other: AccessiblePrimitive,
)
    requires
        index <= v.children.len(),
    ensures
        modified(
            modified(v, Modification::Child { operation: Operation::Insert, index, child }),
            Modification::Child { operation: Operation::Delete, index, child: other },
        ) == v,
{
    assert(v.children.insert(index as int, child@).remove(index as int) =~= v.children);
}

/// A state set is held afterwards, a state cleared is not; the other states are left as
/// they were.
pub proof fn law_state_set_and_clear(v: CacheItemView, state: u64, other: u64)
    ensures
        modified(v, Modification::State { state, enabled: true }).states.bits & state == state,
        modified(v, Modification::State { state, enabled: false }).states.bits & state == 0,
        other & state == 0 ==> modified(v, Modification::State { state, enabled: true }).states.bits
            & other == v.states.bits & other,
        other & state == 0 ==> modified(v, Modification::State { state, enabled: false }).states.bits
            & other == v.states.bits & other,
{
    crate::states::lemma_insert_remove(v.states.bits, state, other);
}

/// Each character takes one byte at least.
proof fn lemma_width_positive(c: char)
    ensures
        utf8_width(c) >= 1,
{
}

/// Cutting `a + b` at a byte offset past all of `a` cuts `b` at what remains of the offset.
proof fn lemma_chars_before_concat(a: Seq<char>, b: Seq<char>, x: int)
    requires
        x >= 0,
    ensures
        chars_before(a + b, utf8_len(a) + x) == a.len() + chars_before(b, x),
    decreases a.len(),
{
    if a.len() == 0 {
        assert(a + b == b);
    } else {
        lemma_width_positive(a[0]);
        lemma_utf8_len_nonneg(a.drop_first());
        assert((a + b).drop_first() == a.drop_first() + b);
        assert((a + b)[0] == a[0]);
        lemma_chars_before_concat(a.drop_first(), b, x);
    }
}

/// A text has no negative length.
proof fn lemma_utf8_len_nonneg(s: Seq<char>)
    ensures
        utf8_len(s) >= 0,
    decreases s.len(),
{
    if s.len() > 0 {
        lemma_utf8_len_nonneg(s.drop_first());
    }
}

/// Deleting, at the byte offset of a character boundary, as many bytes as were just inserted
/// there gives back the text as it was.
pub proof fn law_text_insert_then_delete(s: Seq<char>, k: int, ins: Seq<char>)
    requires
        0 <= k <= s.len(),
    ensures
        text_deleted(text_inserted(s, utf8_len(s.take(k)), ins), utf8_len(s.take(k)), utf8_len(ins))
            == s,
{
    let p = s.take(k);
    let q = s.skip(k);
    let b = utf8_len(p);
    assert(s == p + q);
    lemma_utf8_len_nonneg(ins);
    lemma_chars_before_concat(p, q, 0);
    assert(chars_before(q, 0) == 0);
    let t = text_inserted(s, b, ins);
    assert(t == p + ins + q);
    assert(t == p + (ins + q));
    lemma_chars_before_concat(p, ins + q, 0);
    assert(chars_before(ins + q, 0) == 0);
    lemma_chars_before_concat(p, ins + q, utf8_len(ins));
    lemma_chars_before_concat(ins, q, 0);
    assert(utf8_len(ins) + 0 == utf8_len(ins));
    assert(t.take(k) == p);
    assert(t.skip(k + ins.len()) == q);
}

/// A property change on a cached item changes exactly that property: a new name sets the
/// name, a new description the description, a new role the role, a new parent the parent, and
/// a property the cache does not keep changes nothing. Every other property of the item, and
/// every other item, stays as it was; the item is answered as it now is.
pub proof fn law_property_change(
    e: PropertyChangeEvent,
    items: Map<(Seq<char>, Seq<char>), CacheItemView>,
    apps: Set<Seq<char>>,
    new_items: Map<(Seq<char>, Seq<char>), CacheItemView>,
    new_apps: Set<Seq<char>>,
    r: Result<CacheItem, OdiliaError>,
)
    requires
        items.dom().contains(e.item@),
        effect_outcome(e.effect(), items, apps, new_items, new_apps, r),
    ensures
        r matches Ok(c) && ({
            let v = items[e.item@];
            &&& new_items == items.insert(e.item@, c@)
            &&& new_apps == apps
            &&& c@.object == v.object && c@.app == v.app && c@.index == v.index
            &&& c@.children_num == v.children_num && c@.interfaces == v.interfaces
            &&& c@.states == v.states && c@.children == v.children && c@.help_text == v.help_text
            &&& c@.text == v.text
            &&& match e.value {
                Property::Name(n) => c@.name == Some(n@) && c@.description == v.description
                    && c@.role == v.role && c@.parent == v.parent,
                Property::Description(d) => c@.description == Some(d@) && c@.name == v.name
                    && c@.role == v.role && c@.parent == v.parent,
                Property::Role(x) => c@.role == x && c@.name == v.name && c@.description
                    == v.description && c@.parent == v.parent,
                Property::Parent(p) => c@.parent == p@ && c@.name == v.name && c@.description
                    == v.description && c@.role == v.role,
                Property::Other => c@ == v,
            }
        }),
{
}

} // verus!
