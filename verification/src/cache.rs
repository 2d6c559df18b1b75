//! The cache of accessibles: items by key, filled from a driver that asks the applications.
//!
//! An item once stored is never overwritten by a later store under the same key; it changes
//! only through the modifications that events bring, and leaves only when removed.

use crate::accessible::AccessiblePrimitive;
use crate::cache_item::{
    AnnouncedItem, LegacyAnnouncedItem, delete_text, insert_text, keys_view, opt_chars, text_deleted, text_inserted, CacheItem,
    CacheItemView, Operation,
};
use crate::errors::{CacheError, OdiliaError};
use crate::states::FOCUSED;
use crate::tree::NewCache;
use atspi_common::{RelationType, Role};
use vstd::prelude::*;

verus! {

/// A way of asking the applications about accessibles that are not in the cache: over the
/// accessibility bus in production, from a fixed set of items in tests. Implement your own
/// as you need; nothing is promised of its answers.
pub trait CacheDriver {
    /// Look up an accessible that was not found in the cache.
    fn lookup_external(&self, key: &AccessiblePrimitive) -> Result<CacheItem, OdiliaError>;

    /// Ask the application of `key.sender` for all its accessibles at once.
    fn lookup_bulk(&self, key: &AccessiblePrimitive) -> Result<Vec<CacheItem>, OdiliaError>;

    /// The accessibles in the given relation to `key`.
    fn lookup_relations(&self, key: &AccessiblePrimitive, ty: RelationType) -> Result<
        Vec<AccessiblePrimitive>,
        OdiliaError,
    >;

    /// Complete an item announced by the application into a cache item.
    fn lookup_from_cache_item(&self, cache_item: AnnouncedItem) -> Result<
        CacheItem,
        OdiliaError,
    >;

    /// Complete an item announced in the legacy form into a cache item.
    fn lookup_from_legacy_cache_item(&self, cache_item: LegacyAnnouncedItem) -> Result<
        CacheItem,
        OdiliaError,
    >;
}

/// `m` with `v` under `k`, unless `m` has something under `k` already.
pub open spec fn or_insert(
    m: Map<(Seq<char>, Seq<char>), CacheItemView>,
    k: (Seq<char>, Seq<char>),
    v: CacheItemView,
) -> Map<(Seq<char>, Seq<char>), CacheItemView> {
    if m.dom().contains(k) {
        m
    } else {
        m.insert(k, v)
    }
}

/// The items after an application's bulk answer `fetched` is stored: each fetched item under
/// its own key, in turn, where that key is free; the items held before are kept.
pub open spec fn bulk_stored(
    m: Map<(Seq<char>, Seq<char>), CacheItemView>,
    fetched: Seq<CacheItemView>,
) -> Map<(Seq<char>, Seq<char>), CacheItemView> {
    added_all(m, fetched)
}

/// The applications seen after a bulk answer `fetched` is stored: those of the fetched
/// items' keys are added.
pub open spec fn bulk_apps(apps: Set<Seq<char>>, fetched: Seq<CacheItemView>) -> Set<Seq<char>> {
    apps + fetched.map_values(|c: CacheItemView| c.object.0).to_set()
}

/// The answer for `key` from the items `m`: the item under it, or the error that there is none.
pub open spec fn answer_for(
    m: Map<(Seq<char>, Seq<char>), CacheItemView>,
    key: (Seq<char>, Seq<char>),
    r: Result<CacheItem, OdiliaError>,
) -> bool {
    if m.dom().contains(key) {
        r matches Ok(ci) && ci@ == m[key]
    } else {
        r matches Err(OdiliaError::Cache(CacheError::NoItem))
    }
}

/// What getting `key` from a cache that held `items` and had seen `apps` may have done,
/// whatever the driver answered: a cached item is returned as it is; for an application never
/// seen, its bulk answer is stored; for another key, the one looked up is stored. A failed
/// lookup leaves the cache as it was.
pub open spec fn created(
    items: Map<(Seq<char>, Seq<char>), CacheItemView>,
    apps: Set<Seq<char>>,
    key: (Seq<char>, Seq<char>),
    new_items: Map<(Seq<char>, Seq<char>), CacheItemView>,
    new_apps: Set<Seq<char>>,
    r: Result<CacheItem, OdiliaError>,
) -> bool {
    if items.dom().contains(key) {
        &&& new_items == items
        &&& new_apps == apps
        &&& r matches Ok(ci) && ci@ == items[key]
    } else if !apps.contains(key.0) {
        ||| (new_items == items && new_apps == apps && r is Err)
        ||| exists|fetched: Seq<CacheItemView>|
            #[trigger] bulk_stored(items, fetched) == new_items && new_apps == bulk_apps(apps, fetched)
                && answer_for(new_items, key, r)
    } else {
        ||| (new_items == items && new_apps == apps && r is Err)
        ||| exists|v: CacheItemView|
            #[trigger] items.insert(key, v) == new_items && new_apps == apps && (r matches Ok(ci)
                && ci@ == v)
    }
}

/// Every item held in `a` is held in `b`, unchanged.
pub open spec fn kept(
    a: Map<(Seq<char>, Seq<char>), CacheItemView>,
    b: Map<(Seq<char>, Seq<char>), CacheItemView>,
) -> bool {
    forall|k: (Seq<char>, Seq<char>)| #[trigger] a.dom().contains(k) ==> b.dom().contains(k) && b[k] == a[k]
}

/// What fetching the whole application of `key` may have done, whatever the driver
/// answered: on an error nothing; otherwise each item of its answer is stored under its own
/// key (where that is free) and the answer for `key` is given.
pub open spec fn prefetch_outcome(
    items: Map<(Seq<char>, Seq<char>), CacheItemView>,
    apps: Set<Seq<char>>,
    key: (Seq<char>, Seq<char>),
    new_items: Map<(Seq<char>, Seq<char>), CacheItemView>,
    new_apps: Set<Seq<char>>,
    r: Result<CacheItem, OdiliaError>,
) -> bool {
    ||| (new_items == items && new_apps == apps && r is Err)
    ||| exists|fetched: Seq<CacheItemView>|
        #[trigger] bulk_stored(items, fetched) == new_items && new_apps == bulk_apps(apps, fetched)
            && answer_for(new_items, key, r)
}

/// What getting an announced item under `key` may have done, whatever the driver answered:
/// a cached item is returned as it is; otherwise the completed item is stored and returned,
/// or, on an error, nothing is changed.
pub open spec fn announced_outcome(
    items: Map<(Seq<char>, Seq<char>), CacheItemView>,
    apps: Set<Seq<char>>,
    key: (Seq<char>, Seq<char>),
    new_items: Map<(Seq<char>, Seq<char>), CacheItemView>,
    new_apps: Set<Seq<char>>,
    r: Result<CacheItem, OdiliaError>,
) -> bool {
    if items.dom().contains(key) {
        &&& new_items == items
        &&& new_apps == apps
        &&& r matches Ok(c) && c@ == items[key]
    } else {
        ||| (new_items == items && new_apps == apps && r is Err)
        ||| exists|v: CacheItemView|
            #[trigger] items.insert(key, v) == new_items && new_apps == apps.insert(key.0) && (
            r matches Ok(c) && c@ == v)
    }
}

/// Whatever getting an item did, no item held before was lost or changed, and a success
/// returns what the cache now holds under the key.
pub proof fn lemma_created_keeps(
    items: Map<(Seq<char>, Seq<char>), CacheItemView>,
    apps: Set<Seq<char>>,
    key: (Seq<char>, Seq<char>),
    new_items: Map<(Seq<char>, Seq<char>), CacheItemView>,
    new_apps: Set<Seq<char>>,
    r: Result<CacheItem, OdiliaError>,
)
    requires
        created(items, apps, key, new_items, new_apps, r),
    ensures
        kept(items, new_items),
        r matches Ok(ci) ==> new_items.dom().contains(key) && new_items[key] == ci@,
{
    if !items.dom().contains(key) && !apps.contains(key.0) && !(new_items == items && new_apps
        == apps && r is Err) {
        let fetched = choose|fetched: Seq<CacheItemView>|
            #[trigger] bulk_stored(items, fetched) == new_items && new_apps == bulk_apps(apps, fetched)
                && answer_for(new_items, key, r);
        assert(bulk_stored(items, fetched) == new_items);
        lemma_added_all_keeps(items, fetched);
    }
}

/// A change that an event makes to a cached item.
pub enum Modification {
    /// The role changed.
    Role(Role),
    /// The name changed.
    Name(String),
    /// The description changed.
    Description(String),
    /// The parent changed.
    Parent(AccessiblePrimitive),
    /// A property the cache does not keep changed.
    OtherProperty,
    /// A state (given by its bit) was set or cleared.
    State { state: u64, enabled: bool },
    /// Text was inserted or deleted at a byte offset.
    Text { operation: Operation, start: u64, length: u64, text: String },
    /// A child was inserted or removed at an index.
    Child { operation: Operation, index: usize, child: AccessiblePrimitive },
    /// The item got the focus.
    Focus,
}

/// Whether the modification can be made to the item: a child is inserted at most at the end
/// of the children and removed only where there is one; text offsets are in range.
pub open spec fn can_modify(v: CacheItemView, m: Modification) -> bool {
    match m {
        Modification::Text { start, length, .. } => start < u64::MAX / 4 && length < u64::MAX / 4,
        Modification::Child { operation, index, .. } => match operation {
            Operation::Insert => index <= v.children.len(),
            Operation::Delete => index < v.children.len(),
        },
        _ => true,
    }
}

/// The item after the modification.
pub open spec fn modified(v: CacheItemView, m: Modification) -> CacheItemView {
    match m {
        Modification::Role(role) => CacheItemView { role, ..v },
        Modification::Name(name) => CacheItemView { name: Some(name@), ..v },
        Modification::Description(d) => CacheItemView { description: Some(d@), ..v },
        Modification::Parent(p) => CacheItemView { parent: p@, ..v },
        Modification::OtherProperty => v,
        Modification::State { state, enabled } => CacheItemView {
            states: crate::states::StateSet {
                bits: if enabled {
                    v.states.bits | state
                } else {
                    v.states.bits & !state
                },
            },
            ..v
        },
        Modification::Text { operation, start, length, text } => match (operation, v.text) {
            (Operation::Insert, Some(t)) => CacheItemView {
                text: Some(text_inserted(t, start as int, text@)),
                ..v
            },
            (Operation::Delete, Some(t)) => CacheItemView {
                text: Some(text_deleted(t, start as int, length as int)),
                ..v
            },
            (Operation::Insert, None) => CacheItemView { text: Some(text@), ..v },
            (Operation::Delete, None) => v,
        },
        Modification::Child { operation, index, child } => match operation {
            Operation::Insert => CacheItemView {
                children: v.children.insert(index as int, child@),
                ..v
            },
            Operation::Delete => CacheItemView { children: v.children.remove(index as int), ..v },
        },
        Modification::Focus => CacheItemView {
            states: crate::states::StateSet { bits: v.states.bits | FOCUSED },
            ..v
        },
    }
}

/// Make the modification to the item.
pub fn apply_modification(item: &mut CacheItem, m: Modification)
    requires
        can_modify(old(item)@, m),
    ensures
        final(item)@ == modified(old(item)@, m),
{
    match m {
        Modification::Role(role) => {
            item.role = role;
        },
        Modification::Name(name) => {
            item.name = Some(name);
        },
        Modification::Description(d) => {
            item.description = Some(d);
        },
        Modification::Parent(p) => {
            item.parent = p;
        },
        Modification::OtherProperty => {},
        Modification::State { state, enabled } => {
            if enabled {
                item.states.insert(state);
            } else {
                item.states.remove(state);
            }
        },
        Modification::Text { operation, start, length, text } => {
            let new_text = match (&operation, &item.text) {
                (Operation::Insert, Some(t)) => Some(insert_text(t.as_str(), start, text.as_str())),
                (Operation::Delete, Some(t)) => Some(delete_text(t.as_str(), start, length)),
                (Operation::Insert, None) => Some(text),
                (Operation::Delete, None) => None,
            };
            if let Some(t) = new_text {
                item.text = Some(t);
            }
        },
        Modification::Child { operation, index, child } => {
            let ghost before = item.children@;
            match operation {
                Operation::Insert => {
                    item.children.insert(index, child);
                    assert(keys_view(item.children@) =~= keys_view(before).insert(
                        index as int,
                        child@,
                    ));
                },
                Operation::Delete => {
                    item.children.remove(index);
                    assert(keys_view(item.children@) =~= keys_view(before).remove(index as int));
                },
            }
        },
        Modification::Focus => {
            item.states.insert(FOCUSED);
        },
    }
}

/// The cache: the items by key, and the driver that fetches those it does not hold.
pub struct Cache<D: CacheDriver> {
    tree: NewCache,
    /// The driver that fetches items the cache does not hold.
    pub driver: D,
}

impl<D: CacheDriver> Cache<D> {
    /// The cached items, by key.
    pub closed spec fn items(self) -> Map<(Seq<char>, Seq<char>), CacheItemView> {
        self.tree.items()
    }

    /// The bus names of the applications that have had an item stored.
    pub closed spec fn apps(self) -> Set<Seq<char>> {
        self.tree.apps()
    }

    /// The driver.
    pub closed spec fn driver_state(self) -> D {
        self.driver
    }

    /// A new, empty cache.
    pub fn new(driver: D) -> (c: Cache<D>)
        ensures
            c.items() == Map::<(Seq<char>, Seq<char>), CacheItemView>::empty(),
            c.apps() == Set::<Seq<char>>::empty(),
            c.driver_state() == driver,
    {
        Cache { tree: NewCache::new(), driver }
    }

    /// Remove a single cache item, and give it back; `None` if there was none.
    pub fn remove(&mut self, id: &AccessiblePrimitive) -> (r: Option<CacheItem>)
        ensures
            final(self).items() == old(self).items().remove(id@),
            final(self).apps() == old(self).apps(),
            final(self).driver_state() == old(self).driver_state(),
            r is Some <==> old(self).items().dom().contains(id@),
            r matches Some(item) ==> item@ == old(self).items()[id@],
    {
        self.tree.remove(id)
    }

    /// A copy of the item under the key, if the cache holds one.
    pub fn get(&self, id: &AccessiblePrimitive) -> (r: Option<CacheItem>)
        ensures
            r is Some <==> self.items().dom().contains(id@),
            r matches Some(item) ==> item@ == self.items()[id@],
    {
        match self.tree.get(id) {
            Some(item) => Some(item.clone()),
            None => None,
        }
    }

    /// Copies of the items under the keys, in the order of the keys.
    pub fn get_all(&self, ids: &[AccessiblePrimitive]) -> (r: Vec<Option<CacheItem>>)
        ensures
            r@.len() == ids@.len(),
            forall|i: int|
                0 <= i < ids@.len() ==> ((#[trigger] r@[i]) is Some <==> self.items().dom().contains(
                    ids@[i]@,
                )),
            forall|i: int|
                0 <= i < ids@.len() ==> (#[trigger] r@[i] matches Some(item) ==> item@ == self.items()[ids@[i]@]),
    {
        let mut r: Vec<Option<CacheItem>> = Vec::new();
        let mut i: usize = 0;
        while i < ids.len()
            invariant
                i <= ids@.len(),
                r@.len() == i,
                forall|j: int|
                    0 <= j < i ==> ((#[trigger] r@[j]) is Some <==> self.items().dom().contains(
                        ids@[j]@,
                    )),
                forall|j: int|
                    0 <= j < i ==> (#[trigger] r@[j] matches Some(item) ==> item@ == self.items()[ids@[j]@]),
            decreases ids.len() - i,
        {
            r.push(self.get(&ids[i]));
            i = i + 1;
        }
        r
    }

    /// Remove every item under the keys.
    pub fn remove_all(&mut self, ids: &[AccessiblePrimitive])
        ensures
            final(self).items() == old(self).items().remove_keys(
                ids@.map_values(|k: AccessiblePrimitive| k@).to_set(),
            ),
            final(self).apps() == old(self).apps(),
            final(self).driver_state() == old(self).driver_state(),
    {
        let ghost keys = ids@.map_values(|k: AccessiblePrimitive| k@);
        let mut i: usize = 0;
        while i < ids.len()
            invariant
                i <= ids@.len(),
                keys == ids@.map_values(|k: AccessiblePrimitive| k@),
                self.items() == old(self).items().remove_keys(keys.take(i as int).to_set()),
                self.apps() == old(self).apps(),
                self.driver_state() == old(self).driver_state(),
            decreases ids.len() - i,
        {
            self.remove(&ids[i]);
            proof {
                assert(keys.take(i + 1) == keys.take(i as int).push(keys[i as int]));
                keys.take(i as int).lemma_push_to_set_commute(keys[i as int]);
            }
            i = i + 1;
            assert(self.items() =~= old(self).items().remove_keys(keys.take(i as int).to_set()));
        }
        assert(keys.take(ids@.len() as int) == keys);
    }

    /// Store the item under its own key, unless an item is stored there already; give it back.
    pub fn add(&mut self, ci: CacheItem) -> (r: CacheItem)
        ensures
            r@ == ci@,
            final(self).items() == or_insert(old(self).items(), ci.object@, ci@),
            final(self).apps() == old(self).apps().insert(ci.object@.0),
            final(self).driver_state() == old(self).driver_state(),
    {
        self.tree.insert(ci.object.clone(), ci.clone());
        ci
    }

    /// Store each item under its own key, in order, where the key is still free; give back
    /// copies of them all.
    pub fn add_all(&mut self, cis: Vec<CacheItem>) -> (r: Vec<CacheItem>)
        ensures
            r@.map_values(|c: CacheItem| c@) == cis@.map_values(|c: CacheItem| c@),
            final(self).items() == added_all(old(self).items(), cis@.map_values(|c: CacheItem| c@)),
            final(self).apps() == old(self).apps() + cis@.map_values(|c: CacheItem| c.object@.0).to_set(),
            final(self).driver_state() == old(self).driver_state(),
    {
        let ghost vs = cis@.map_values(|c: CacheItem| c@);
        let ghost senders = cis@.map_values(|c: CacheItem| c.object@.0);
        let mut r: Vec<CacheItem> = Vec::new();
        let mut i: usize = 0;
        while i < cis.len()
            invariant
                i <= cis@.len(),
                vs == cis@.map_values(|c: CacheItem| c@),
                senders == cis@.map_values(|c: CacheItem| c.object@.0),
                r@.map_values(|c: CacheItem| c@) == vs.take(i as int),
                self.items() == added_all(old(self).items(), vs.take(i as int)),
                self.apps() == old(self).apps() + senders.take(i as int).to_set(),
                self.driver_state() == old(self).driver_state(),
            decreases cis.len() - i,
        {
            let c = cis[i].clone();
            r.push(cis[i].clone());
            self.add(c);
            proof {
                assert(vs.take(i + 1) == vs.take(i as int).push(vs[i as int]));
                assert(vs.take(i + 1).drop_last() == vs.take(i as int));
                assert(senders.take(i + 1) == senders.take(i as int).push(senders[i as int]));
                senders.take(i as int).lemma_push_to_set_commute(senders[i as int]);
            }
            i = i + 1;
            assert(r@.map_values(|c: CacheItem| c@) =~= vs.take(i as int));
            assert(self.apps() =~= old(self).apps() + senders.take(i as int).to_set());
        }
        assert(vs.take(cis@.len() as int) == vs);
        assert(senders.take(cis@.len() as int) == senders);
        r
    }

    /// The keys of the accessibles in the relation `ty` to `key`, as the driver finds them:
    /// the answer is the driver's own answer for `key` and `ty`.
    pub fn lookup_relations(&self, key: &AccessiblePrimitive, ty: RelationType) -> (r: Result<
        Vec<AccessiblePrimitive>,
        OdiliaError,
    >)
        ensures
            call_ensures(D::lookup_relations, (&self.driver_state(), key, ty), r),
    {
        self.driver.lookup_relations(key, ty)
    }

    /// Store an application's bulk answer and answer for `key`: on an error, the cache is
    /// left as it was and the error is passed on; otherwise each fetched item is stored under
    /// its own key (where that is free, so items held before are kept), and the item now
    /// under `key` is returned, or `CacheError::NoItem` if there is none.
    pub fn prefetched(&mut self, key: &AccessiblePrimitive, fetched: Result<Vec<CacheItem>, OdiliaError>) -> (r: Result<
        CacheItem,
        OdiliaError,
    >)
        ensures
            final(self).driver_state() == old(self).driver_state(),
            fetched matches Err(e) ==> r == Err::<CacheItem, OdiliaError>(e) && final(self).items()
                == old(self).items() && final(self).apps() == old(self).apps(),
            fetched matches Ok(v) ==> final(self).items() == bulk_stored(
                old(self).items(),
                v@.map_values(|c: CacheItem| c@),
            ) && final(self).apps() == bulk_apps(
                old(self).apps(),
                v@.map_values(|c: CacheItem| c@),
            ) && answer_for(final(self).items(), key@, r),
    {
        match fetched {
            Err(e) => Err(e),
            Ok(items) => {
                let ghost vs = items@.map_values(|c: CacheItem| c@);
                let ghost senders = items@.map_values(|c: CacheItem| c.object@.0);
                self.add_all(items);
                assert(vs.map_values(|c: CacheItemView| c.object.0) =~= senders);
                match self.tree.get(key) {
                    Some(item) => Ok(item.clone()),
                    None => Err(OdiliaError::Cache(CacheError::NoItem)),
                }
            },
        }
    }

    /// Fetch the whole application of `key` through the driver and store it (see
    /// [`Cache::prefetched`]).
    pub fn prefetch_app(&mut self, key: &AccessiblePrimitive) -> (r: Result<CacheItem, OdiliaError>)
        ensures
            final(self).driver_state() == old(self).driver_state(),
            prefetch_outcome(
                old(self).items(),
                old(self).apps(),
                key@,
                final(self).items(),
                final(self).apps(),
                r,
            ),
    {
        let fetched = self.driver.lookup_bulk(key);
        let ghost f = fetched;
        let r = self.prefetched(key, fetched);
        proof {
            if let Ok(v) = f {
                let w = v@.map_values(|c: CacheItem| c@);
                assert(bulk_stored(old(self).items(), w) == self.items());
            }
        }
        r
    }

    /// Store the item the driver found for `key` and give it back; on an error, leave the
    /// cache as it was and pass the error on.
    pub fn looked_up(&mut self, key: &AccessiblePrimitive, found: Result<CacheItem, OdiliaError>) -> (r: Result<
        CacheItem,
        OdiliaError,
    >)
        ensures
            final(self).driver_state() == old(self).driver_state(),
            found matches Err(e) ==> r == Err::<CacheItem, OdiliaError>(e) && final(self).items()
                == old(self).items() && final(self).apps() == old(self).apps(),
            found matches Ok(ci) ==> (r matches Ok(c) && c@ == ci@) && final(self).items()
                == or_insert(old(self).items(), key@, ci@) && final(self).apps() == old(
                self,
            ).apps().insert(key@.0),
    {
        match found {
            Err(e) => Err(e),
            Ok(ci) => {
                self.tree.insert(key.clone(), ci.clone());
                Ok(ci)
            },
        }
    }

    /// The item under `key`: from the cache if it holds one; else, for an application never
    /// seen, from its bulk answer; else looked up alone through the driver and stored.
    pub fn get_or_create(&mut self, key: &AccessiblePrimitive) -> (r: Result<CacheItem, OdiliaError>)
        ensures
            final(self).driver_state() == old(self).driver_state(),
            created(
                old(self).items(),
                old(self).apps(),
                key@,
                final(self).items(),
                final(self).apps(),
                r,
            ),
    {
        if let Some(cache_item) = self.get(key) {
            return Ok(cache_item);
        }
        if !self.tree.has_app(key) {
            return self.prefetch_app(key);
        }
        let found = self.driver.lookup_external(key);
        let ghost f = found;
        let r = self.looked_up(key, found);
        proof {
            if let Ok(ci) = f {
                assert(old(self).apps().insert(key@.0) =~= old(self).apps());
                assert(old(self).items().insert(key@, ci@) == self.items());
            }
        }
        r
    }

    /// The item an application announced, under its own key: from the cache if it holds one,
    /// else completed through the driver and stored.
    pub fn get_or_create_from_cache_item(&mut self, ci: AnnouncedItem) -> (r: Result<
        CacheItem,
        OdiliaError,
    >)
        ensures
            final(self).driver_state() == old(self).driver_state(),
            announced_outcome(
                old(self).items(),
                old(self).apps(),
                ci.object@,
                final(self).items(),
                final(self).apps(),
                r,
            ),
    {
        let key = ci.object.clone();
        if let Some(cache_item) = self.get(&key) {
            return Ok(cache_item);
        }
        let found = self.driver.lookup_from_cache_item(ci);
        let ghost f = found;
        let r = self.looked_up(&key, found);
        proof {
            if let Ok(c) = f {
                assert(old(self).items().insert(ci.object@, c@) == self.items());
            }
        }
        r
    }

    /// The item an application announced in the legacy form, under its own key: from the
    /// cache if it holds one, else completed through the driver and stored.
    pub fn get_or_create_from_legacy_cache_item(&mut self, ci: LegacyAnnouncedItem) -> (r: Result<
        CacheItem,
        OdiliaError,
    >)
        ensures
            final(self).driver_state() == old(self).driver_state(),
            announced_outcome(
                old(self).items(),
                old(self).apps(),
                ci.object@,
                final(self).items(),
                final(self).apps(),
                r,
            ),
    {
        let key = ci.object.clone();
        if let Some(cache_item) = self.get(&key) {
            return Ok(cache_item);
        }
        let found = self.driver.lookup_from_legacy_cache_item(ci);
        let ghost f = found;
        let r = self.looked_up(&key, found);
        proof {
            if let Ok(c) = f {
                assert(old(self).items().insert(ci.object@, c@) == self.items());
            }
        }
        r
    }

    /// The items under the keys: first those the cache holds, in the order of the keys, then
    /// the others, each key got in turn as [`Cache::get_or_create`] does; each item is then
    /// added under its own key where that is free. The first failure is passed on.
    pub fn get_or_create_all(&mut self, keys: Vec<AccessiblePrimitive>) -> (r: Result<
        Vec<CacheItem>,
        OdiliaError,
    >)
        ensures
            final(self).driver_state() == old(self).driver_state(),
            kept(old(self).items(), final(self).items()),
            r matches Ok(v) ==> v@.len() == keys@.len() && v@.take(
                cached_in(keys_view(keys@), old(self).items()).len() as int,
            ).map_values(|c: CacheItem| c@) == cached_in(keys_view(keys@), old(self).items()),
            r matches Ok(v) ==> got_all(
                keys_view(keys@),
                old(self).items(),
                final(self).items(),
                v@.map_values(|c: CacheItem| c@),
            ),
            (forall|i: int|
                0 <= i < keys@.len() ==> #[trigger] old(self).items().dom().contains(keys@[i]@))
                ==> (r matches Ok(v) && v@.map_values(|c: CacheItem| c@) == cached_in(
                keys_view(keys@),
                old(self).items(),
            ) && final(self).items() == added_all(
                old(self).items(),
                v@.map_values(|c: CacheItem| c@),
            )),
    {
        let ghost m = self.items();
        let ghost ks = keys_view(keys@);
        let ghost all_held = forall|i: int|
            0 <= i < keys@.len() ==> #[trigger] m.dom().contains(keys@[i]@);
        let mut found: Vec<CacheItem> = Vec::new();
        let mut not_found: Vec<AccessiblePrimitive> = Vec::new();
        let mut i: usize = 0;
        while i < keys.len()
            invariant
                i <= keys@.len(),
                self.items() == m,
                ks == keys_view(keys@),
                m == old(self).items(),
                self.driver_state() == old(self).driver_state(),
                found@.map_values(|c: CacheItem| c@) == cached_in(ks.take(i as int), m),
                found@.len() + not_found@.len() == i,
                all_held == (forall|i: int|
                    0 <= i < keys@.len() ==> #[trigger] m.dom().contains(keys@[i]@)),
                all_held ==> not_found@.len() == 0,
                keys_view(not_found@) == ks.take(i as int).filter(not_held_in(m)),
            decreases keys.len() - i,
        {
            proof {
                assert(ks.take(i + 1) == ks.take(i as int).push(keys@[i as int]@));
                ks.take(i as int).lemma_filter_push(keys@[i as int]@, held_in(m));
                ks.take(i as int).lemma_filter_push(keys@[i as int]@, not_held_in(m));
            }
            match self.tree.get(&keys[i]) {
                Some(ci) => {
                    let ghost k = keys@[i as int]@;
                    let ghost old_found = found@.map_values(|c: CacheItem| c@);
                    assert(m.dom().contains(k));
                    assert(held_in(m)(k));
                    assert(ks.take(i + 1).filter(held_in(m)) == ks.take(i as int).filter(
                        held_in(m),
                    ).push(k));
                    assert(!not_held_in(m)(k));
                    found.push(ci.clone());
                    assert(found@.map_values(|c: CacheItem| c@) =~= old_found.push(m[k]));
                    assert(found@.map_values(|c: CacheItem| c@) =~= cached_in(
                        ks.take(i + 1),
                        m,
                    ));
                },
                None => {
                    assert(!m.dom().contains(keys@[i as int]@));
                    assert(not_held_in(m)(keys@[i as int]@));
                    let ghost old_nf = not_found@;
                    not_found.push(keys[i].clone());
                    assert(keys_view(not_found@) =~= keys_view(old_nf).push(keys@[i as int]@));
                    assert(found@.map_values(|c: CacheItem| c@) =~= cached_in(
                        ks.take(i + 1),
                        m,
                    ));
                },
            }
            i = i + 1;
        }
        assert(ks.take(keys@.len() as int) == ks);
        let ghost n = found@.len();
        let mut j: usize = 0;
        while j < not_found.len()
            invariant
                j <= not_found@.len(),
                found@.len() == n + j,
                n + not_found@.len() == keys@.len(),
                found@.take(n as int).map_values(|c: CacheItem| c@) == cached_in(ks, m),
                m == old(self).items(),
                ks == keys_view(keys@),
                kept(m, self.items()),
                self.driver_state() == old(self).driver_state(),
                all_held ==> not_found@.len() == 0 && self.items() == m,
                all_held == (forall|i: int|
                    0 <= i < keys@.len() ==> #[trigger] m.dom().contains(keys@[i]@)),
                keys_view(not_found@) == uncached_in(ks, m),
                forall|t: int|
                    0 <= t < j ==> self.items().dom().contains(#[trigger] not_found@[t]@)
                        && found@[n + t]@ == self.items()[not_found@[t]@],
            decreases not_found.len() - j,
        {
            let ghost before = self.items();
            let ghost before_apps = self.apps();
            let ghost prefix = found@.take(n as int);
            let item = self.get_or_create(&not_found[j]);
            proof {
                lemma_created_keeps(
                    before,
                    before_apps,
                    not_found@[j as int]@,
                    self.items(),
                    self.apps(),
                    item,
                );
            }
            match item {
                Ok(ci) => {
                    let ghost k = not_found@[j as int]@;
                    assert(self.items().dom().contains(k) && self.items()[k] == ci@);
                    found.push(ci);
                    assert(found@.take(n as int) =~= prefix);
                    assert forall|t: int|
                        0 <= t < j + 1 implies self.items().dom().contains(
                        #[trigger] not_found@[t]@,
                    ) && found@[n + t]@ == self.items()[not_found@[t]@] by {
                        if t < j {
                            assert(before.dom().contains(not_found@[t]@));
                        }
                    }
                },
                Err(e) => {
                    return Err(e);
                },
            }
            j = j + 1;
        }
        let ghost fv = found@.map_values(|c: CacheItem| c@);
        let ghost fs = found@;
        let ghost before = self.items();
        proof {
            lemma_added_all_keeps(before, fv);
        }
        let r = self.add_all(found);
        proof {
            assert(r@.len() == fs.len());
            assert forall|j: int| 0 <= j < n implies #[trigger] r@[j]@ == fs[j]@ by {
                assert(r@.map_values(|c: CacheItem| c@)[j] == fv[j]);
            }
            assert(r@.take(n as int).map_values(|c: CacheItem| c@) =~= fs.take(n as int).map_values(
                |c: CacheItem| c@,
            ));
            let un = uncached_in(ks, m);
            let fin = self.items();
            assert(un.len() == not_found@.len()) by {
                assert(keys_view(not_found@).len() == not_found@.len());
            }
            assert(cached_in(ks, m).len() == n);
            assert forall|t: int| 0 <= t < un.len() implies fin.dom().contains(#[trigger] un[t])
                && fin[un[t]] == fs[n + t]@ by {
                assert(un[t] == keys_view(not_found@)[t]);
                assert(before.dom().contains(not_found@[t]@));
            }
            assert(r@.map_values(|c: CacheItem| c@) =~= cached_in(ks, m) + un.map_values(
                |k: (Seq<char>, Seq<char>)| fin[k],
            )) by {
                assert forall|t: int| 0 <= t < n implies #[trigger] fv[t] == cached_in(ks, m)[t] by {
                    assert(fs.take(n as int).map_values(|c: CacheItem| c@)[t] == fv[t]);
                }
            }
            if all_held {
                assert(fs.take(n as int) =~= fs);
                assert(r@.map_values(|c: CacheItem| c@) == fv);
            }
        }
        Ok(r)
    }

    /// Make the modification to the item under `key` if the cache holds one, and give back
    /// the modified item; otherwise get the item as [`Cache::get_or_create`] does.
    pub fn modify_if_not_new(&mut self, key: &AccessiblePrimitive, m: Modification) -> (r: Result<
        CacheItem,
        OdiliaError,
    >)
        requires
            old(self).items().dom().contains(key@) ==> can_modify(old(self).items()[key@], m),
        ensures
            final(self).driver_state() == old(self).driver_state(),
            old(self).items().dom().contains(key@) ==> final(self).items() == old(self).items().insert(
                key@,
                modified(old(self).items()[key@], m),
            ) && final(self).apps() == old(self).apps() && (r matches Ok(c) && c@ == modified(
                old(self).items()[key@],
                m,
            )),
            !old(self).items().dom().contains(key@) ==> created(
                old(self).items(),
                old(self).apps(),
                key@,
                final(self).items(),
                final(self).apps(),
                r,
            ),
    {
        if let Some(item) = self.tree.get(key) {
            let mut ci = item.clone();
            apply_modification(&mut ci, m);
            let back = ci.clone();
            self.tree.replace(key, ci);
            return Ok(back);
        }
        self.get_or_create(key)
    }
}

/// The items under those of the keys that `m` holds, in the order of the keys.
pub open spec fn cached_in(
    ks: Seq<(Seq<char>, Seq<char>)>,
    m: Map<(Seq<char>, Seq<char>), CacheItemView>,
) -> Seq<CacheItemView> {
    ks.filter(held_in(m)).map_values(|k: (Seq<char>, Seq<char>)| m[k])
}

/// Whether `m` holds an item under a key.
pub open spec fn held_in(m: Map<(Seq<char>, Seq<char>), CacheItemView>) -> spec_fn(
    (Seq<char>, Seq<char>),
) -> bool {
    |k: (Seq<char>, Seq<char>)| m.dom().contains(k)
}

/// When `m` holds an item under every key of `ks`, the items it holds under them are those
/// items in key order.
pub proof fn lemma_cached_in_all_held(
    ks: Seq<(Seq<char>, Seq<char>)>,
    m: Map<(Seq<char>, Seq<char>), CacheItemView>,
)
    requires
        forall|i: int| 0 <= i < ks.len() ==> #[trigger] m.dom().contains(ks[i]),
    ensures
        ks.filter(held_in(m)) == ks,
        cached_in(ks, m) == ks.map_values(|k: (Seq<char>, Seq<char>)| m[k]),
    decreases ks.len(),
{
    reveal_with_fuel(Seq::filter, 1);
    if ks.len() > 0 {
        let rest = ks.drop_last();
        assert forall|i: int| 0 <= i < rest.len() implies #[trigger] m.dom().contains(rest[i]) by {
            assert(rest[i] == ks[i]);
        }
        lemma_cached_in_all_held(rest, m);
        assert(m.dom().contains(ks[ks.len() - 1]));
        assert(ks.filter(held_in(m)) =~= ks);
    }
    assert(cached_in(ks, m) =~= ks.map_values(|k: (Seq<char>, Seq<char>)| m[k]));
}

/// Whether `m` holds no item under a key.
pub open spec fn not_held_in(m: Map<(Seq<char>, Seq<char>), CacheItemView>) -> spec_fn(
    (Seq<char>, Seq<char>),
) -> bool {
    |k: (Seq<char>, Seq<char>)| !m.dom().contains(k)
}

/// The keys of `ks` under which `m` holds no item, in order.
pub open spec fn uncached_in(
    ks: Seq<(Seq<char>, Seq<char>)>,
    m: Map<(Seq<char>, Seq<char>), CacheItemView>,
) -> Seq<(Seq<char>, Seq<char>)> {
    ks.filter(not_held_in(m))
}

/// The items `vs` got for the keys `ks` from a cache that held `held` and now holds `now`:
/// first the items `held` had under the keys, in key order, then, in key order, the items now
/// stored under each of the other keys, all of which `now` holds.
pub open spec fn got_all(
    ks: Seq<(Seq<char>, Seq<char>)>,
    held: Map<(Seq<char>, Seq<char>), CacheItemView>,
    now: Map<(Seq<char>, Seq<char>), CacheItemView>,
    vs: Seq<CacheItemView>,
) -> bool {
    &&& forall|t: int|
        0 <= t < uncached_in(ks, held).len() ==> now.dom().contains(
            #[trigger] uncached_in(ks, held)[t],
        )
    &&& vs == cached_in(ks, held) + uncached_in(ks, held).map_values(
        |k: (Seq<char>, Seq<char>)| now[k],
    )
}

/// Splitting keys into those held and those not held, and then taking the items now under
/// them, gives the same items, counted with multiplicity, as taking the items under all keys.
proof fn lemma_got_all_counts(
    ks: Seq<(Seq<char>, Seq<char>)>,
    held: Map<(Seq<char>, Seq<char>), CacheItemView>,
    now: Map<(Seq<char>, Seq<char>), CacheItemView>,
)
    requires
        kept(held, now),
    ensures
        (cached_in(ks, held) + uncached_in(ks, held).map_values(
            |k: (Seq<char>, Seq<char>)| now[k],
        )).to_multiset() == ks.map_values(|k: (Seq<char>, Seq<char>)| now[k]).to_multiset(),
        cached_in(ks, held).len() + uncached_in(ks, held).len() == ks.len(),
    decreases ks.len(),
{
    broadcast use vstd::seq_lib::group_to_multiset_ensures, vstd::multiset::group_multiset_axioms;

    let f = |k: (Seq<char>, Seq<char>)| now[k];
    let g = |k: (Seq<char>, Seq<char>)| held[k];
    if ks.len() == 0 {
        reveal_with_fuel(Seq::filter, 1);
        assert(cached_in(ks, held) =~= Seq::empty());
        assert(uncached_in(ks, held) =~= Seq::empty());
        assert(cached_in(ks, held) + uncached_in(ks, held).map_values(f) =~= Seq::empty());
        assert(ks.map_values(f) =~= Seq::empty());
    } else {
        let rest = ks.drop_last();
        let x = ks.last();
        lemma_got_all_counts(rest, held, now);
        assert(rest.push(x) == ks);
        rest.lemma_filter_push(x, held_in(held));
        rest.lemma_filter_push(x, not_held_in(held));
        let c0 = cached_in(rest, held);
        let u0 = uncached_in(rest, held).map_values(f);
        vstd::seq_lib::lemma_multiset_commutative(c0, u0);
        assert(ks.map_values(f) =~= rest.map_values(f).push(now[x]));
        if held.dom().contains(x) {
            assert(held_in(held)(x));
            assert(!not_held_in(held)(x));
            assert(cached_in(ks, held) =~= c0.push(held[x]));
            assert(uncached_in(ks, held) == uncached_in(rest, held));
            vstd::seq_lib::lemma_multiset_commutative(c0.push(held[x]), u0);
            assert(held[x] == now[x]);
        } else {
            assert(!held_in(held)(x));
            assert(not_held_in(held)(x));
            assert(cached_in(ks, held) == c0);
            assert(uncached_in(ks, held) == uncached_in(rest, held).push(x));
            assert(uncached_in(ks, held).map_values(f) =~= u0.push(now[x]));
            vstd::seq_lib::lemma_multiset_commutative(c0, u0.push(now[x]));
        }
    }
}

/// What getting the items of several keys gives: exactly one item for each key, the item the
/// cache then holds under that key, each counted as often as its key is listed; when the cache
/// held every key already, the items come in the order of the keys.
pub proof fn law_got_all_one_per_key(
    ks: Seq<(Seq<char>, Seq<char>)>,
    held: Map<(Seq<char>, Seq<char>), CacheItemView>,
    now: Map<(Seq<char>, Seq<char>), CacheItemView>,
    vs: Seq<CacheItemView>,
)
    requires
        got_all(ks, held, now, vs),
        kept(held, now),
    ensures
        vs.len() == ks.len(),
        vs.to_multiset() == ks.map_values(|k: (Seq<char>, Seq<char>)| now[k]).to_multiset(),
        (forall|i: int| 0 <= i < ks.len() ==> #[trigger] held.dom().contains(ks[i])) ==> vs
            == ks.map_values(|k: (Seq<char>, Seq<char>)| now[k]),
{
    lemma_got_all_counts(ks, held, now);
    if forall|i: int| 0 <= i < ks.len() ==> #[trigger] held.dom().contains(ks[i]) {
        lemma_cached_in_all_held(ks, held);
        let u = uncached_in(ks, held);
        if u.len() > 0 {
            ks.lemma_filter_pred(not_held_in(held), 0);
            ks.lemma_filter_contains_rev(not_held_in(held), u[0]);
        }
        assert(u =~= Seq::empty());
        assert(vs =~= ks.map_values(|k: (Seq<char>, Seq<char>)| now[k])) by {
            assert forall|i: int| 0 <= i < ks.len() implies vs[i] == now[ks[i]] by {
                assert(held.dom().contains(ks[i]));
            }
        }
    }
}

/// Adding items in turn never loses or changes an item held before.
pub proof fn lemma_added_all_keeps(
    m: Map<(Seq<char>, Seq<char>), CacheItemView>,
    vs: Seq<CacheItemView>,
)
    ensures
        kept(m, added_all(m, vs)),
    decreases vs.len(),
{
    if vs.len() > 0 {
        lemma_added_all_keeps(m, vs.drop_last());
    }
}

/// The item views stored in turn under their own keys, each only where the key is free.
pub open spec fn added_all(
    m: Map<(Seq<char>, Seq<char>), CacheItemView>,
    vs: Seq<CacheItemView>,
) -> Map<(Seq<char>, Seq<char>), CacheItemView>
    decreases vs.len(),
{
    if vs.len() == 0 {
        m
    } else {
        or_insert(added_all(m, vs.drop_last()), vs.last().object, vs.last())
    }
}

} // verus!
