//! The store behind the cache: the applications seen so far, and each cached item by the
//! key it was stored under.

use crate::accessible::AccessiblePrimitive;
use crate::cache_item::{CacheItem, CacheItemView};
use vstd::prelude::*;

verus! {

/// The map of a list of (key, item) pairs; a later pair wins over an earlier one.
pub open spec fn entries_map(s: Seq<((Seq<char>, Seq<char>), CacheItemView)>) -> Map<
    (Seq<char>, Seq<char>),
    CacheItemView,
>
    decreases s.len(),
{
    if s.len() == 0 {
        Map::empty()
    } else {
        entries_map(s.drop_last()).insert(s.last().0, s.last().1)
    }
}

/// No key occurs twice.
pub open spec fn keys_distinct(s: Seq<((Seq<char>, Seq<char>), CacheItemView)>) -> bool {
    forall|i: int, j: int| 0 <= i < j < s.len() ==> #[trigger] s[i].0 != #[trigger] s[j].0
}

/// The keys of the map are those of the list.
pub proof fn lemma_entries_map_dom(s: Seq<((Seq<char>, Seq<char>), CacheItemView)>, k: (Seq<char>, Seq<char>))
    ensures
        entries_map(s).dom().contains(k) <==> exists|i: int| 0 <= i < s.len() && #[trigger] s[i].0 == k,
    decreases s.len(),
{
    if s.len() > 0 {
        lemma_entries_map_dom(s.drop_last(), k);
        if entries_map(s).dom().contains(k) && k != s.last().0 {
            let i = choose|i: int| 0 <= i < s.drop_last().len() && #[trigger] s.drop_last()[i].0 == k;
            assert(s[i].0 == k);
        }
        if exists|i: int| 0 <= i < s.len() && #[trigger] s[i].0 == k {
            let i = choose|i: int| 0 <= i < s.len() && #[trigger] s[i].0 == k;
            if i < s.len() - 1 {
                assert(s.drop_last()[i].0 == k);
            }
        }
    }
}

/// With distinct keys, each key maps to its own item.
pub proof fn lemma_entries_map_at(s: Seq<((Seq<char>, Seq<char>), CacheItemView)>, i: int)
    requires
        keys_distinct(s),
        0 <= i < s.len(),
    ensures
        entries_map(s).dom().contains(s[i].0),
        entries_map(s)[s[i].0] == s[i].1,
    decreases s.len(),
{
    if i < s.len() - 1 {
        assert(s.drop_last()[i] == s[i]);
        lemma_entries_map_at(s.drop_last(), i);
        assert(s[i].0 != s.last().0);
    }
}

/// The map has as many keys as the list has pairs, when no key occurs twice.
pub proof fn lemma_entries_map_len(s: Seq<((Seq<char>, Seq<char>), CacheItemView)>)
    requires
        keys_distinct(s),
    ensures
        entries_map(s).dom().finite(),
        entries_map(s).len() == s.len(),
    decreases s.len(),
{
    if s.len() > 0 {
        lemma_entries_map_len(s.drop_last());
        lemma_entries_map_dom(s.drop_last(), s.last().0);
        if entries_map(s.drop_last()).dom().contains(s.last().0) {
            let i = choose|i: int|
                0 <= i < s.drop_last().len() && #[trigger] s.drop_last()[i].0 == s.last().0;
            assert(s[i].0 == s[s.len() - 1].0);
        }
    }
}

/// Taking a pair out of the list takes its key out of the map.
pub proof fn lemma_entries_map_remove(s: Seq<((Seq<char>, Seq<char>), CacheItemView)>, i: int)
    requires
        keys_distinct(s),
        0 <= i < s.len(),
    ensures
        keys_distinct(s.remove(i)),
        entries_map(s.remove(i)) == entries_map(s).remove(s[i].0),
{
    let t = s.remove(i);
    assert forall|a: int, b: int| 0 <= a < b < t.len() implies #[trigger] t[a].0 != #[trigger] t[b].0 by {
        let a2 = if a < i { a } else { a + 1 };
        let b2 = if b < i { b } else { b + 1 };
        assert(t[a] == s[a2]);
        assert(t[b] == s[b2]);
    }
    assert forall|k: (Seq<char>, Seq<char>)|
        entries_map(t).dom().contains(k) <==> entries_map(s).remove(s[i].0).dom().contains(k) by {
        lemma_entries_map_dom(t, k);
        lemma_entries_map_dom(s, k);
        if entries_map(t).dom().contains(k) {
            let j = choose|j: int| 0 <= j < t.len() && #[trigger] t[j].0 == k;
            let j2 = if j < i { j } else { j + 1 };
            assert(t[j] == s[j2]);
            assert(s[j2].0 != s[i].0);
        }
        if entries_map(s).remove(s[i].0).dom().contains(k) {
            let j = choose|j: int| 0 <= j < s.len() && #[trigger] s[j].0 == k;
            assert(j != i);
            let j2 = if j < i { j } else { j - 1 };
            assert(t[j2] == s[j]);
        }
    }
    assert forall|k: (Seq<char>, Seq<char>)| #[trigger] entries_map(t).dom().contains(k) implies entries_map(
        t,
    )[k] == entries_map(s).remove(s[i].0)[k] by {
        lemma_entries_map_dom(t, k);
        let j = choose|j: int| 0 <= j < t.len() && #[trigger] t[j].0 == k;
        let j2 = if j < i { j } else { j + 1 };
        assert(t[j] == s[j2]);
        lemma_entries_map_at(t, j);
        lemma_entries_map_at(s, j2);
    }
    assert(entries_map(t) =~= entries_map(s).remove(s[i].0));
}

/// Replacing the item of a pair replaces it in the map.
pub proof fn lemma_entries_map_update(s: Seq<((Seq<char>, Seq<char>), CacheItemView)>, i: int, v: CacheItemView)
    requires
        keys_distinct(s),
        0 <= i < s.len(),
    ensures
        keys_distinct(s.update(i, (s[i].0, v))),
        entries_map(s.update(i, (s[i].0, v))) == entries_map(s).insert(s[i].0, v),
{
    let t = s.update(i, (s[i].0, v));
    assert forall|a: int, b: int| 0 <= a < b < t.len() implies #[trigger] t[a].0 != #[trigger] t[b].0 by {
        assert(t[a].0 == s[a].0);
        assert(t[b].0 == s[b].0);
    }
    assert forall|k: (Seq<char>, Seq<char>)|
        entries_map(t).dom().contains(k) <==> entries_map(s).insert(s[i].0, v).dom().contains(k) by {
        lemma_entries_map_dom(t, k);
        lemma_entries_map_dom(s, k);
        if entries_map(t).dom().contains(k) {
            let j = choose|j: int| 0 <= j < t.len() && #[trigger] t[j].0 == k;
            assert(s[j].0 == k);
        }
        if entries_map(s).dom().contains(k) {
            let j = choose|j: int| 0 <= j < s.len() && #[trigger] s[j].0 == k;
            assert(t[j].0 == k);
        }
        assert(t[i].0 == s[i].0);
    }
    assert forall|k: (Seq<char>, Seq<char>)| #[trigger] entries_map(t).dom().contains(k) implies entries_map(
        t,
    )[k] == entries_map(s).insert(s[i].0, v)[k] by {
        lemma_entries_map_dom(t, k);
        let j = choose|j: int| 0 <= j < t.len() && #[trigger] t[j].0 == k;
        lemma_entries_map_at(t, j);
        if j != i {
            lemma_entries_map_at(s, j);
        }
    }
    assert(entries_map(t) =~= entries_map(s).insert(s[i].0, v));
}

/// The applications seen so far, and the cached items by the key they were stored under.
pub struct NewCache {
    entries: Vec<(AccessiblePrimitive, CacheItem)>,
    apps: Vec<String>,
}

impl NewCache {
    /// The (key, item) pairs, as values.
    pub closed spec fn entry_views(self) -> Seq<((Seq<char>, Seq<char>), CacheItemView)> {
        self.entries@.map_values(|p: (AccessiblePrimitive, CacheItem)| (p.0@, p.1@))
    }

    /// The cached items, by key.
    pub closed spec fn items(self) -> Map<(Seq<char>, Seq<char>), CacheItemView> {
        entries_map(self.entry_views())
    }

    /// The bus names of the applications that have had an item stored.
    pub closed spec fn apps(self) -> Set<Seq<char>> {
        self.apps@.map_values(|s: String| s@).to_set()
    }

    #[verifier::type_invariant]
    closed spec fn wf(self) -> bool {
        keys_distinct(self.entry_views())
    }

    /// The empty store.
    pub fn new() -> (t: NewCache)
        ensures
            t.items() == Map::<(Seq<char>, Seq<char>), CacheItemView>::empty(),
            t.apps() == Set::<Seq<char>>::empty(),
    {
        let t = NewCache { entries: Vec::new(), apps: Vec::new() };
        assert(t.entry_views() =~= Seq::empty());
        assert(t.apps() =~= Set::empty());
        t
    }

    /// Where the key's pair is, if it is stored.
    fn find(&self, key: &AccessiblePrimitive) -> (r: Option<usize>)
        ensures
            r matches Some(i) ==> i < self.entry_views().len() && self.entry_views()[i as int].0 == key@,
            r is None ==> !self.items().dom().contains(key@),
    {
        proof {
            use_type_invariant(self);
        }
        let mut i: usize = 0;
        while i < self.entries.len()
            invariant
                i <= self.entries@.len(),
                self.entry_views().len() == self.entries@.len(),
                forall|j: int| 0 <= j < i ==> #[trigger] self.entry_views()[j].0 != key@,
            decreases self.entries.len() - i,
        {
            if self.entries[i].0.same(key) {
                return Some(i);
            }
            i = i + 1;
        }
        proof {
            lemma_entries_map_dom(self.entry_views(), key@);
        }
        None
    }

    /// Whether an item of the key's application has ever been stored.
    pub fn has_app(&self, key: &AccessiblePrimitive) -> (b: bool)
        ensures
            b == self.apps().contains(key@.0),
    {
        let mut i: usize = 0;
        while i < self.apps.len()
            invariant
                i <= self.apps@.len(),
                forall|j: int| 0 <= j < i ==> #[trigger] self.apps@[j]@ != key@.0,
            decreases self.apps.len() - i,
        {
            if self.apps[i] == key.sender {
                assert(self.apps@.map_values(|s: String| s@)[i as int] == key@.0);
                return true;
            }
            i = i + 1;
        }
        assert(!self.apps@.map_values(|s: String| s@).contains(key@.0));
        false
    }

    /// The item stored under the key.
    pub fn get(&self, key: &AccessiblePrimitive) -> (r: Option<&CacheItem>)
        ensures
            r is Some <==> self.items().dom().contains(key@),
            r matches Some(item) ==> item@ == self.items()[key@],
    {
        proof {
            use_type_invariant(self);
        }
        match self.find(key) {
            Some(i) => {
                proof {
                    lemma_entries_map_at(self.entry_views(), i as int);
                }
                Some(&self.entries[i].1)
            },
            None => None,
        }
    }

    /// Store the item under the key, unless an item is stored under it already; the key's
    /// application counts as seen either way.
    pub fn insert(&mut self, key: AccessiblePrimitive, item: CacheItem)
        ensures
            final(self).apps() == old(self).apps().insert(key@.0),
            final(self).items() == (if old(self).items().dom().contains(key@) {
                old(self).items()
            } else {
                old(self).items().insert(key@, item@)
            }),
    {
        proof {
            use_type_invariant(&*self);
        }
        let ghost old_apps = self.apps();
        if !self.has_app(&key) {
            let mut apps: Vec<String> = Vec::new();
            std::mem::swap(&mut apps, &mut self.apps);
            apps.push(key.sender.clone());
            self.apps = apps;
            assert(self.apps@.map_values(|s: String| s@) =~= old(self).apps@.map_values(
                |s: String| s@,
            ).push(key@.0));
            proof {
                old(self).apps@.map_values(|s: String| s@).lemma_push_to_set_commute(key@.0);
            }
            assert(self.apps() =~= old_apps.insert(key@.0));
        } else {
            assert(old_apps.insert(key@.0) =~= old_apps);
        }
        let found = self.find(&key);
        if let Some(i) = found {
            proof {
                lemma_entries_map_at(self.entry_views(), i as int);
            }
        } else {
            let ghost before = self.entry_views();
            let ghost k = key@;
            let ghost v = item@;
            let mut entries: Vec<(AccessiblePrimitive, CacheItem)> = Vec::new();
            std::mem::swap(&mut entries, &mut self.entries);
            entries.push((key, item));
            proof {
                let ev = entries@.map_values(|p: (AccessiblePrimitive, CacheItem)| (p.0@, p.1@));
                assert(ev =~= before.push((k, v)));
                assert(ev.drop_last() =~= before);
                lemma_entries_map_dom(before, k);
                assert forall|i: int, j: int|
                    0 <= i < j < ev.len() implies #[trigger] ev[i].0 != #[trigger] ev[j].0 by {
                    if j == before.len() {
                        assert(before[i].0 != k);
                    } else {
                        assert(ev[i] == before[i]);
                        assert(ev[j] == before[j]);
                    }
                }
            }
            self.entries = entries;
            proof {
                assert(self.entry_views() =~= before.push((k, v)));
                assert(self.entry_views().drop_last() =~= before);
                lemma_entries_map_dom(before, k);
                assert forall|i: int, j: int|
                    0 <= i < j < self.entry_views().len() implies #[trigger] self.entry_views()[i].0
                    != #[trigger] self.entry_views()[j].0 by {
                    if j == before.len() {
                        assert(before[i].0 != k);
                    } else {
                        assert(self.entry_views()[i] == before[i]);
                        assert(self.entry_views()[j] == before[j]);
                    }
                }
            }
        }
    }

    /// Take out the item stored under the key, and give it back.
    pub fn remove(&mut self, key: &AccessiblePrimitive) -> (r: Option<CacheItem>)
        ensures
            final(self).apps() == old(self).apps(),
            final(self).items() == old(self).items().remove(key@),
            r is Some <==> old(self).items().dom().contains(key@),
            r matches Some(item) ==> item@ == old(self).items()[key@],
    {
        proof {
            use_type_invariant(&*self);
        }
        match self.find(key) {
            Some(i) => {
                let ghost before = self.entry_views();
                proof {
                    lemma_entries_map_at(before, i as int);
                    lemma_entries_map_remove(before, i as int);
                }
                let mut entries: Vec<(AccessiblePrimitive, CacheItem)> = Vec::new();
                std::mem::swap(&mut entries, &mut self.entries);
                let (_, item) = entries.remove(i);
                assert(entries@.map_values(|p: (AccessiblePrimitive, CacheItem)| (p.0@, p.1@))
                    =~= before.remove(i as int));
                self.entries = entries;
                Some(item)
            },
            None => {
                assert(old(self).items().remove(key@) =~= old(self).items());
                None
            },
        }
    }

    /// Replace the item stored under the key, if there is one; report whether there was.
    pub fn replace(&mut self, key: &AccessiblePrimitive, item: CacheItem) -> (b: bool)
        ensures
            final(self).apps() == old(self).apps(),
            b == old(self).items().dom().contains(key@),
            final(self).items() == (if b {
                old(self).items().insert(key@, item@)
            } else {
                old(self).items()
            }),
    {
        proof {
            use_type_invariant(&*self);
        }
        match self.find(key) {
            Some(i) => {
                let ghost before = self.entry_views();
                let ghost v = item@;
                proof {
                    lemma_entries_map_at(before, i as int);
                    lemma_entries_map_update(before, i as int, v);
                }
                let k = self.entries[i].0.clone();
                let mut entries: Vec<(AccessiblePrimitive, CacheItem)> = Vec::new();
                std::mem::swap(&mut entries, &mut self.entries);
                entries.set(i, (k, item));
                assert(entries@.map_values(|p: (AccessiblePrimitive, CacheItem)| (p.0@, p.1@))
                    =~= before.update(i as int, (before[i as int].0, v)));
                self.entries = entries;
                true
            },
            None => false,
        }
    }

    /// The number of items stored.
    pub fn len(&self) -> (n: usize)
        ensures
            n == self.items().len(),
    {
        proof {
            use_type_invariant(self);
            lemma_entries_map_len(self.entry_views());
        }
        self.entries.len()
    }
}

} // verus!
