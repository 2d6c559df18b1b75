//! State mechanics for keyboard control of the screen reader.
//!
//! Keys pressed while the activation key is held are collected; when they form one of the
//! configured key combos, the combo's event is queued for the screen reader.

use crate::events::{
    ChangeMode, Direction, Quit, ScreenReaderEvent as OdiliaEvent, StopSpeech,
    StructuralNavigation,
};
use crate::atspi_types::{role_index, role_try_from};
use crate::keys::{Event, EventType, Key, ACTIVATION_KEY};
use crate::modes::ScreenReaderMode as Mode;
use vstd::prelude::*;

verus! {

/// `p` is a prefix of `s` (possibly all of it).
pub open spec fn prefix_of(p: Seq<Key>, s: Seq<Key>) -> bool {
    p.len() <= s.len() && forall|i: int| 0 <= i < p.len() ==> p[i] == s[i]
}

/// One key sequence starts with the other: pressing one runs into the other.
pub open spec fn conflict(a: Seq<Key>, b: Seq<Key>) -> bool {
    prefix_of(a, b) || prefix_of(b, a)
}

/// No key occurs twice.
pub open spec fn distinct_keys(s: Seq<Key>) -> bool {
    forall|i: int, j: int| 0 <= i < j < s.len() ==> s[i] != s[j]
}

/// A valid key combination: no key twice, and never the activation key.
pub open spec fn keys_wf(s: Seq<Key>) -> bool {
    distinct_keys(s) && !s.contains(ACTIVATION_KEY)
}

/// The first position of `k` in `s`.
pub open spec fn is_first_index(s: Seq<Key>, k: Key, i: int) -> bool {
    0 <= i < s.len() && s[i] == k && forall|j: int| 0 <= j < i ==> s[j] != k
}

/// The first position of `k` in `s`, where there is one.
pub open spec fn first_index(s: Seq<Key>, k: Key) -> int {
    choose|i: int| is_first_index(s, k, i)
}

/// A key that occurs has a unique first position.
pub proof fn lemma_first_index(s: Seq<Key>, k: Key, i: int)
    requires
        is_first_index(s, k, i),
    ensures
        first_index(s, k) == i,
{
    let c = first_index(s, k);
    assert(is_first_index(s, k, c));
    if c < i {
        assert(s[c] != k);
    } else if i < c {
        assert(s[i] != k);
    }
}

/// Whether two key sequences are equal.
fn keys_equal(a: &Vec<Key>, b: &Vec<Key>) -> (r: bool)
    ensures
        r == (a@ == b@),
{
    if a.len() != b.len() {
        return false;
    }
    let mut i: usize = 0;
    while i < a.len()
        invariant
            a.len() == b.len(),
            i <= a.len(),
            forall|j: int| 0 <= j < i ==> a@[j] == b@[j],
        decreases a.len() - i,
    {
        if a[i] != b[i] {
            return false;
        }
        i = i + 1;
    }
    assert(a@ =~= b@);
    true
}

/// Whether `s` starts with `p`.
fn starts_with(s: &Vec<Key>, p: &Vec<Key>) -> (r: bool)
    ensures
        r == prefix_of(p@, s@),
{
    if p.len() > s.len() {
        return false;
    }
    let mut i: usize = 0;
    while i < p.len()
        invariant
            p.len() <= s.len(),
            i <= p.len(),
            forall|j: int| 0 <= j < i ==> p@[j] == s@[j],
        decreases p.len() - i,
    {
        if p[i] != s[i] {
            return false;
        }
        i = i + 1;
    }
    true
}

/// The first position of `k` in `s`, if any.
fn position_of(s: &Vec<Key>, k: Key) -> (r: Option<usize>)
    ensures
        r matches Some(i) ==> is_first_index(s@, k, i as int),
        r is None <==> !s@.contains(k),
{
    let mut i: usize = 0;
    while i < s.len()
        invariant
            i <= s.len(),
            forall|j: int| 0 <= j < i ==> s@[j] != k,
        decreases s.len() - i,
    {
        if s[i] == k {
            return Some(i);
        }
        i = i + 1;
    }
    None
}

/// A set of keys to be used as the combination for a binding.
#[derive(PartialEq, Eq, Debug)]
pub struct KeySet {
    inner: Vec<Key>,
}

impl View for KeySet {
    type V = Seq<Key>;

    closed spec fn view(&self) -> Seq<Key> {
        self.inner@
    }
}

/// An error in creating (or modifying) a [`KeySet`].
#[derive(Debug, PartialEq, Eq, Structural)]
pub enum KeySetError {
    /// Attempted to add the [`ACTIVATION_KEY`].
    ActivationKey,
    /// Attempted to add a key twice.
    AlreadyContains(Key),
}

/// Adding `k` to the keys `s`, as [`KeySet::insert`] does.
pub open spec fn spec_keyset_insert(s: Seq<Key>, k: Key) -> Result<Seq<Key>, KeySetError> {
    if k == ACTIVATION_KEY {
        Err(KeySetError::ActivationKey)
    } else if s.contains(k) {
        Err(KeySetError::AlreadyContains(k))
    } else {
        Ok(s.push(k))
    }
}

/// Adding the keys `ks`, in order, to an empty set.
pub open spec fn spec_keyset_from(ks: Seq<Key>) -> Result<Seq<Key>, KeySetError>
    decreases ks.len(),
{
    if ks.len() == 0 {
        Ok(Seq::empty())
    } else {
        match spec_keyset_from(ks.drop_last()) {
            Ok(prev) => spec_keyset_insert(prev, ks.last()),
            Err(e) => Err(e),
        }
    }
}

impl KeySet {
    /// Every key set holds distinct keys, none of them the activation key.
    #[verifier::type_invariant]
    pub closed spec fn wf(self) -> bool {
        keys_wf(self.inner@)
    }

    /// Add a new key to the set.
    ///
    /// Fails if the key is the [`ACTIVATION_KEY`] or already in the set.
    pub fn insert(&mut self, key: Key) -> (r: Result<(), KeySetError>)
        ensures
            match spec_keyset_insert(old(self)@, key) {
                Ok(s) => r is Ok && final(self)@ == s,
                Err(e) => r == Err::<(), KeySetError>(e) && final(self)@ == old(self)@,
            },
    {
        proof {
            use_type_invariant(&*self);
        }
        if key == ACTIVATION_KEY {
            Err(KeySetError::ActivationKey)
        } else if position_of(&self.inner, key).is_some() {
            Err(KeySetError::AlreadyContains(key))
        } else {
            let mut keys: Vec<Key> = Vec::new();
            std::mem::swap(&mut keys, &mut self.inner);
            keys.push(key);
            self.inner = keys;
            Ok(())
        }
    }

    /// Creates a new, empty `KeySet`.
    pub fn new() -> (ks: KeySet)
        ensures
            ks@ == Seq::<Key>::empty(),
    {
        KeySet { inner: Vec::new() }
    }

    /// Create a `KeySet` from a list of keys, added in order.
    pub fn try_from_iter(keys: Vec<Key>) -> (r: Result<KeySet, KeySetError>)
        ensures
            match spec_keyset_from(keys@) {
                Ok(s) => r matches Ok(ks) && ks@ == s,
                Err(e) => r == Err::<KeySet, KeySetError>(e),
            },
    {
        let mut this = KeySet::new();
        let mut i: usize = 0;
        while i < keys.len()
            invariant
                i <= keys.len(),
                spec_keyset_from(keys@.take(i as int)) == Ok::<Seq<Key>, KeySetError>(this@),
            decreases keys.len() - i,
        {
            assert(keys@.take(i + 1).drop_last() == keys@.take(i as int));
            match this.insert(keys[i]) {
                Ok(()) => {},
                Err(e) => {
                    proof {
                        lemma_keyset_from_error_sticks(keys@, i as int + 1);
                    }
                    return Err(e);
                },
            }
            i = i + 1;
        }
        assert(keys@.take(keys.len() as int) == keys@);
        Ok(this)
    }

    /// The keys of the set, in the order they were added.
    pub fn keys(&self) -> (s: &[Key])
        ensures
            s@ == self@,
    {
        self.inner.as_slice()
    }
}

/// Once adding a prefix of the keys fails, adding all of them fails the same way.
pub proof fn lemma_keyset_from_error_sticks(ks: Seq<Key>, n: int)
    requires
        0 <= n <= ks.len(),
        spec_keyset_from(ks.take(n)) is Err,
    ensures
        spec_keyset_from(ks) == spec_keyset_from(ks.take(n)),
    decreases ks.len() - n,
{
    if n < ks.len() {
        assert(ks.take(n + 1).drop_last() == ks.take(n));
        lemma_keyset_from_error_sticks(ks, n + 1);
    } else {
        assert(ks.take(n) == ks);
    }
}

impl TryFrom<Vec<Key>> for KeySet {
    type Error = KeySetError;

    /// Same as [`KeySet::try_from_iter`].
    fn try_from(items: Vec<Key>) -> (r: Result<KeySet, KeySetError>)
        ensures
            match spec_keyset_from(items@) {
                Ok(s) => r matches Ok(ks) && ks@ == s,
                Err(e) => r == Err::<KeySet, KeySetError>(e),
            },
    {
        KeySet::try_from_iter(items)
    }
}

/// The conversion's behaviour is stated by the `ensures` of `try_from` itself, over the
/// key set's view; nothing is stated through this spec.
impl vstd::std_specs::convert::TryFromSpecImpl<Vec<Key>> for KeySet {
    open spec fn obeys_try_from_spec() -> bool {
        false
    }

    open spec fn try_from_spec(v: Vec<Key>) -> Result<KeySet, KeySetError> {
        vstd::pervasive::arbitrary()
    }
}

impl<const N: usize> TryFrom<[Key; N]> for KeySet {
    type Error = KeySetError;

    /// Same as [`KeySet::try_from_iter`] on the array's keys, in order.
    fn try_from(items: [Key; N]) -> (r: Result<KeySet, KeySetError>)
        ensures
            match spec_keyset_from(items@) {
                Ok(s) => r matches Ok(ks) && ks@ == s,
                Err(e) => r == Err::<KeySet, KeySetError>(e),
            },
    {
        let mut keys: Vec<Key> = Vec::new();
        let mut i: usize = 0;
        while i < N
            invariant
                i <= N,
                items@.len() == N,
                keys@ == items@.take(i as int),
            decreases N - i,
        {
            keys.push(items[i]);
            i = i + 1;
            assert(keys@ == items@.take(i as int));
        }
        assert(items@.take(N as int) == items@);
        KeySet::try_from_iter(keys)
    }
}

/// The conversion's behaviour is stated by the `ensures` of `try_from` itself.
impl<const N: usize> vstd::std_specs::convert::TryFromSpecImpl<[Key; N]> for KeySet {
    open spec fn obeys_try_from_spec() -> bool {
        false
    }

    open spec fn try_from_spec(v: [Key; N]) -> Result<KeySet, KeySetError> {
        vstd::pervasive::arbitrary()
    }
}

impl Clone for KeySet {
    fn clone(&self) -> (r: KeySet)
        ensures
            r@ == self@,
    {
        proof {
            use_type_invariant(self);
        }
        let mut inner: Vec<Key> = Vec::new();
        let mut i: usize = 0;
        while i < self.inner.len()
            invariant
                i <= self.inner.len(),
                inner@ == self.inner@.take(i as int),
            decreases self.inner.len() - i,
        {
            inner.push(self.inner[i]);
            i = i + 1;
            assert(inner@ =~= self.inner@.take(i as int));
        }
        assert(self.inner@.take(self.inner.len() as int) =~= self.inner@);
        KeySet { inner }
    }
}

impl Default for KeySet {
    fn default() -> (ks: KeySet)
        ensures
            ks@ == Seq::<Key>::empty(),
    {
        KeySet::new()
    }
}

/// An error in creating a set of key combos.
#[derive(Debug, PartialEq, Eq)]
pub enum ComboError {
    /// An existing combo has the same prefix.
    SamePrefix {
        /// Existing combo that has the same prefix.
        original: KeySet,
        /// The combo which was attempted to be added, but failed.
        new: KeySet,
    },
    /// An existing combo has the same set of keys assigned to it.
    Identical(KeySet),
}

/// No combo of `s` runs into `keys`.
pub open spec fn no_conflict_with(s: Seq<(Seq<Key>, OdiliaEvent)>, keys: Seq<Key>) -> bool {
    forall|j: int| 0 <= j < s.len() ==> !conflict(#[trigger] s[j].0, keys)
}

/// Combo `i` of `s` is the first one that runs into `keys`.
pub open spec fn is_first_conflict(s: Seq<(Seq<Key>, OdiliaEvent)>, keys: Seq<Key>, i: int) -> bool {
    0 <= i < s.len() && conflict(s[i].0, keys) && forall|j: int|
        0 <= j < i ==> !conflict(#[trigger] s[j].0, keys)
}

/// The error that adding `keys` reports about the existing combo `existing`.
pub open spec fn combo_error_matches(e: ComboError, existing: Seq<Key>, keys: Seq<Key>) -> bool {
    if existing == keys {
        e matches ComboError::Identical(k) && k@ == keys
    } else {
        e matches ComboError::SamePrefix { original, new } && original@ == existing && new@ == keys
    }
}

/// Valid key combos: each a valid key combination, and no two running into each other.
pub open spec fn combos_wf(s: Seq<(Seq<Key>, OdiliaEvent)>) -> bool {
    &&& forall|i: int| 0 <= i < s.len() ==> keys_wf(#[trigger] s[i].0)
    &&& forall|i: int, j: int|
        0 <= i < j < s.len() ==> !conflict(#[trigger] s[i].0, #[trigger] s[j].0)
}

/// Every combo of `s` could be added, in order, to the ones before it.
pub open spec fn all_insertable(s: Seq<(Seq<Key>, OdiliaEvent)>) -> bool {
    forall|n: int| 0 <= n < s.len() ==> no_conflict_with(s.take(n), #[trigger] s[n].0)
}

/// Combo `n` of `s` is the first one that cannot be added to those before it.
pub open spec fn is_first_rejected(s: Seq<(Seq<Key>, OdiliaEvent)>, n: int) -> bool {
    &&& 0 <= n < s.len()
    &&& !no_conflict_with(s.take(n), s[n].0)
    &&& forall|m: int| 0 <= m < n ==> no_conflict_with(s.take(m), #[trigger] s[m].0)
}

/// What building a combo set from `v`, item by item, gives: the set of all of them when
/// each is accepted, else the error for the first refused item and the first combo it
/// conflicts with.
pub open spec fn combo_set_built(
    v: Seq<(Seq<Key>, OdiliaEvent)>,
    r: Result<ComboSet, ComboError>,
) -> bool {
    &&& all_insertable(v) ==> (r matches Ok(cs) && cs@ == v)
    &&& !all_insertable(v) ==> (r matches Err(e) && exists|n: int, i: int|
        is_first_rejected(v, n) && is_first_conflict(v.take(n), v[n].0, i) && combo_error_matches(
            e,
            v[i].0,
            v[n].0,
        ))
}

/// The plain view of a list of combos.
pub open spec fn combo_items_view(items: Seq<(KeySet, OdiliaEvent)>) -> Seq<(Seq<Key>, OdiliaEvent)> {
    items.map_values(|p: (KeySet, OdiliaEvent)| (p.0@, p.1))
}

/// A set of key combos and their associated action.
#[derive(Eq, PartialEq, Debug)]
pub struct ComboSet {
    inner: Vec<(KeySet, OdiliaEvent)>,
}

impl View for ComboSet {
    type V = Seq<(Seq<Key>, OdiliaEvent)>;

    closed spec fn view(&self) -> Seq<(Seq<Key>, OdiliaEvent)> {
        combo_items_view(self.inner@)
    }
}

impl ComboSet {
    /// The combos of every combo set are valid and never run into each other.
    #[verifier::type_invariant]
    pub closed spec fn wf(self) -> bool {
        combos_wf(combo_items_view(self.inner@))
    }

    /// Each [`KeySet`] contained in the [`ComboSet`], in order.
    pub fn keys(&self) -> (ks: Vec<&KeySet>)
        ensures
            ks@.len() == self@.len(),
            forall|i: int| 0 <= i < ks@.len() ==> (#[trigger] ks@[i])@ == self@[i].0,
    {
        let mut ks: Vec<&KeySet> = Vec::new();
        let mut i: usize = 0;
        while i < self.inner.len()
            invariant
                i <= self.inner.len(),
                ks@.len() == i,
                forall|j: int| 0 <= j < i ==> (#[trigger] ks@[j])@ == self@[j].0,
            decreases self.inner.len() - i,
        {
            ks.push(&self.inner[i].0);
            i = i + 1;
        }
        ks
    }

    /// The combos, in the order they were added; no two of them conflict and none has an
    /// empty key set.
    pub fn iter(&self) -> (items: &[(KeySet, OdiliaEvent)])
        ensures
            combo_items_view(items@) == self@,
            combos_wf(self@),
    {
        proof {
            use_type_invariant(self);
        }
        self.inner.as_slice()
    }

    /// Insert a new [`KeySet`], [`OdiliaEvent`] combination.
    ///
    /// Fails when an existing combo is identical to `keys`, starts with `keys`, or is the start
    /// of `keys`; the first such combo is reported. This ensures that keys can not overlap and
    /// cause unexpected behaviour for the user.
    pub fn insert(&mut self, keys: KeySet, ev: OdiliaEvent) -> (r: Result<(), ComboError>)
        ensures
            no_conflict_with(old(self)@, keys@) ==> r is Ok && final(self)@ == old(self)@.push(
                (keys@, ev),
            ),
            !no_conflict_with(old(self)@, keys@) ==> final(self)@ == old(self)@,
            !no_conflict_with(old(self)@, keys@) ==> (r matches Err(e) && exists|i: int|
                is_first_conflict(old(self)@, keys@, i) && combo_error_matches(
                    e,
                    old(self)@[i].0,
                    keys@,
                )),
            combos_wf(final(self)@),
    {
        proof {
            use_type_invariant(&*self);
            use_type_invariant(&keys);
        }
        let ghost old_view = self@;
        let mut i: usize = 0;
        while i < self.inner.len()
            invariant
                i <= self.inner.len(),
                old_view == self@,
                old_view.len() == self.inner.len(),
                forall|j: int| 0 <= j < i ==> !conflict(#[trigger] old_view[j].0, keys@),
            decreases self.inner.len() - i,
        {
            let keyset = &self.inner[i].0;
            assert(old_view[i as int].0 == keyset@);
            if keys_equal(&keyset.inner, &keys.inner) {
                assert(is_first_conflict(old_view, keys@, i as int));
                proof {
                    use_type_invariant(&*self);
                }
                return Err(ComboError::Identical(keys));
            }
            if starts_with(&keyset.inner, &keys.inner) || starts_with(&keys.inner, &keyset.inner) {
                assert(is_first_conflict(old_view, keys@, i as int));
                let original = keyset.clone();
                proof {
                    use_type_invariant(&*self);
                }
                return Err(ComboError::SamePrefix { original, new: keys });
            }
            i = i + 1;
        }
        let ghost kv = keys@;
        let mut items: Vec<(KeySet, OdiliaEvent)> = Vec::new();
        std::mem::swap(&mut items, &mut self.inner);
        items.push((keys, ev));
        assert(combo_items_view(items@) =~= old_view.push((kv, ev)));
        self.inner = items;
        Ok(())
    }

    /// Create a new, empty [`ComboSet`].
    pub fn new() -> (cs: ComboSet)
        ensures
            cs@ == Seq::<(Seq<Key>, OdiliaEvent)>::empty(),
            combos_wf(cs@),
    {
        let cs = ComboSet { inner: Vec::new() };
        assert(cs@ =~= Seq::<(Seq<Key>, OdiliaEvent)>::empty());
        cs
    }

    /// Create a [`ComboSet`] by inserting each combo in turn; the first failed insertion is
    /// reported.
    pub fn try_from_iter(items: Vec<(KeySet, OdiliaEvent)>) -> (r: Result<ComboSet, ComboError>)
        ensures
            combo_set_built(combo_items_view(items@), r),
            r matches Ok(cs) ==> combos_wf(cs@),
    {
        let ghost v = combo_items_view(items@);
        let mut this = ComboSet::new();
        let mut n: usize = 0;
        while n < items.len()
            invariant
                n <= items.len(),
                v == combo_items_view(items@),
                this@ == v.take(n as int),
                forall|m: int| 0 <= m < n ==> no_conflict_with(v.take(m), #[trigger] v[m].0),
            decreases items.len() - n,
        {
            let keys = items[n].0.clone();
            let ev = items[n].1;
            assert(v[n as int] == (keys@, ev));
            match this.insert(keys, ev) {
                Ok(()) => {
                    assert(this@ =~= v.take(n + 1));
                },
                Err(e) => {
                    proof {
                        assert(is_first_rejected(v, n as int));
                        let i = choose|i: int|
                            is_first_conflict(v.take(n as int), v[n as int].0, i) && combo_error_matches(
                                e,
                                v.take(n as int)[i].0,
                                v[n as int].0,
                            );
                        assert(v.take(n as int)[i] == v[i]);
                        assert(!all_insertable(v));
                    }
                    return Err(e);
                },
            }
            n = n + 1;
        }
        assert(v.take(items.len() as int) =~= v);
        proof {
            use_type_invariant(&this);
        }
        Ok(this)
    }
}

impl Clone for ComboSet {
    fn clone(&self) -> (r: ComboSet)
        ensures
            r@ == self@,
            combos_wf(r@),
    {
        proof {
            use_type_invariant(self);
        }
        let mut inner: Vec<(KeySet, OdiliaEvent)> = Vec::new();
        let mut i: usize = 0;
        while i < self.inner.len()
            invariant
                i <= self.inner.len(),
                combo_items_view(inner@) == self@.take(i as int),
            decreases self.inner.len() - i,
        {
            let keys = self.inner[i].0.clone();
            let ghost prev = inner@;
            assert(self@[i as int] == (keys@, self.inner@[i as int].1));
            inner.push((keys, self.inner[i].1));
            assert(inner@ == prev.push((keys, self.inner@[i as int].1)));
            assert(combo_items_view(inner@) =~= combo_items_view(prev).push(self@[i as int]));
            i = i + 1;
            assert(combo_items_view(inner@) =~= self@.take(i as int));
        }
        assert(self@.take(self.inner.len() as int) =~= self@);
        ComboSet { inner }
    }
}

impl TryFrom<Vec<(KeySet, OdiliaEvent)>> for ComboSet {
    type Error = ComboError;

    /// Same as [`ComboSet::try_from_iter`].
    fn try_from(items: Vec<(KeySet, OdiliaEvent)>) -> (r: Result<ComboSet, ComboError>)
        ensures
            combo_set_built(combo_items_view(items@), r),
    {
        ComboSet::try_from_iter(items)
    }
}

/// The conversion's behaviour is stated by the `ensures` of `try_from` itself, over views.
impl vstd::std_specs::convert::TryFromSpecImpl<Vec<(KeySet, OdiliaEvent)>> for ComboSet {
    open spec fn obeys_try_from_spec() -> bool {
        false
    }

    open spec fn try_from_spec(v: Vec<(KeySet, OdiliaEvent)>) -> Result<ComboSet, ComboError> {
        vstd::pervasive::arbitrary()
    }
}

impl<const N: usize> TryFrom<[(KeySet, OdiliaEvent); N]> for ComboSet {
    type Error = ComboError;

    /// Same as [`ComboSet::try_from_iter`] on the array's items, in order.
    fn try_from(items: [(KeySet, OdiliaEvent); N]) -> (r: Result<ComboSet, ComboError>)
        ensures
            combo_set_built(combo_items_view(items@), r),
    {
        let mut v: Vec<(KeySet, OdiliaEvent)> = Vec::new();
        let mut i: usize = 0;
        while i < N
            invariant
                i <= N,
                items@.len() == N,
                combo_items_view(v@) == combo_items_view(items@.take(i as int)),
            decreases N - i,
        {
            let ghost before = v@;
            let ks = items[i].0.clone();
            v.push((ks, items[i].1));
            assert(items@.take(i + 1) == items@.take(i as int).push(items@[i as int]));
            assert(combo_items_view(v@) =~= combo_items_view(before).push((ks@, items@[i as int].1)));
            i = i + 1;
            assert(combo_items_view(v@) =~= combo_items_view(items@.take(i as int)));
        }
        assert(items@.take(N as int) == items@);
        ComboSet::try_from_iter(v)
    }
}

/// The conversion's behaviour is stated by the `ensures` of `try_from` itself, over views.
impl<const N: usize> vstd::std_specs::convert::TryFromSpecImpl<[(KeySet, OdiliaEvent); N]> for ComboSet {
    open spec fn obeys_try_from_spec() -> bool {
        false
    }

    open spec fn try_from_spec(v: [(KeySet, OdiliaEvent); N]) -> Result<ComboSet, ComboError> {
        vstd::pervasive::arbitrary()
    }
}

impl Default for ComboSet {
    fn default() -> (cs: ComboSet)
        ensures
            cs@ == Seq::<(Seq<Key>, OdiliaEvent)>::empty(),
            combos_wf(cs@),
    {
        ComboSet::new()
    }
}

/// An error in adding a new set of keybindings to the [`ComboSets`] list.
#[derive(Debug, PartialEq, Eq)]
pub enum SetError {
    /// An identical combo has already been set, in the same mode or globally.
    IdenticalCombo {
        /// The mode, if specified.
        mode: Option<Mode>,
        /// The keyset
        set: KeySet,
    },
    /// A combo with the same prefix has already been set, in the same mode or globally.
    SamePrefixCombo {
        /// The mode and keyset which contain the same prefix.
        original: (Option<Mode>, KeySet),
        /// The attempted combo to add.
        attempted: (Option<Mode>, KeySet),
    },
    /// Attempted to add a combo with an empty set of keys.
    UnpressableKey,
    /// Attempted to add a keybinding with a mode that is not accessible via pressing other keys.
    /// Make sure to introduce the keybinding to change to a given mode before the keybindings that
    /// are active in that mode.
    UnreachableMode(Mode),
}

/// What building the list of mode sets from `v`, one by one, gives: all of them when each
/// is accepted, else the error for the first refused one.
pub open spec fn combo_sets_built(
    v: Seq<(Option<Mode>, Seq<(Seq<Key>, OdiliaEvent)>)>,
    r: Result<ComboSets, SetError>,
) -> bool {
    &&& all_sets_accepted(v) ==> (r matches Ok(css) && css@ == v)
    &&& !all_sets_accepted(v) ==> (r matches Err(e) && exists|n: int|
        is_first_refused(v, n) && insert_error(v.take(n), v[n].0, v[n].1, e))
}

/// The plain view of a list of modes and their combos.
pub open spec fn sets_view(items: Seq<(Option<Mode>, ComboSet)>) -> Seq<
    (Option<Mode>, Seq<(Seq<Key>, OdiliaEvent)>),
> {
    items.map_values(|p: (Option<Mode>, ComboSet)| (p.0, p.1@))
}

/// Combos in these two modes can be live at the same time.
pub open spec fn modes_overlap(a: Option<Mode>, b: Option<Mode>) -> bool {
    a is None || b is None || a == b
}

/// Some combo of `sets` switches to mode `m`.
pub open spec fn mode_reachable(sets: Seq<(Option<Mode>, Seq<(Seq<Key>, OdiliaEvent)>)>, m: Mode) -> bool {
    exists|i: int, j: int|
        0 <= i < sets.len() && 0 <= j < sets[i].1.len() && #[trigger] sets[i].1[j].1
            == OdiliaEvent::ChangeMode(ChangeMode(m))
}

/// Some combo of `cs` has no keys at all.
pub open spec fn has_empty_keys(cs: Seq<(Seq<Key>, OdiliaEvent)>) -> bool {
    exists|k: int| 0 <= k < cs.len() && (#[trigger] cs[k].0).len() == 0
}

/// Combo `j` of set `i` runs into combo `k` of `cs`, which is to be added in mode `mode`.
pub open spec fn cross_conflict(
    sets: Seq<(Option<Mode>, Seq<(Seq<Key>, OdiliaEvent)>)>,
    mode: Option<Mode>,
    cs: Seq<(Seq<Key>, OdiliaEvent)>,
    i: int,
    j: int,
    k: int,
) -> bool {
    &&& 0 <= i < sets.len()
    &&& modes_overlap(sets[i].0, mode)
    &&& 0 <= j < sets[i].1.len()
    &&& 0 <= k < cs.len()
    &&& conflict(sets[i].1[j].0, cs[k].0)
}

/// `(i2, j2, k2)` comes before `(i, j, k)` in the order the combos are compared.
pub open spec fn lex_before(i2: int, j2: int, k2: int, i: int, j: int, k: int) -> bool {
    i2 < i || (i2 == i && (j2 < j || (j2 == j && k2 < k)))
}

/// No combo of `cs` runs into any combo of `sets` that can be live at the same time.
pub open spec fn no_cross_conflict(
    sets: Seq<(Option<Mode>, Seq<(Seq<Key>, OdiliaEvent)>)>,
    mode: Option<Mode>,
    cs: Seq<(Seq<Key>, OdiliaEvent)>,
) -> bool {
    forall|i: int, j: int, k: int| !#[trigger] cross_conflict(sets, mode, cs, i, j, k)
}

/// `(i, j, k)` is the first pair of combos that run into each other.
pub open spec fn is_first_cross_conflict(
    sets: Seq<(Option<Mode>, Seq<(Seq<Key>, OdiliaEvent)>)>,
    mode: Option<Mode>,
    cs: Seq<(Seq<Key>, OdiliaEvent)>,
    i: int,
    j: int,
    k: int,
) -> bool {
    &&& cross_conflict(sets, mode, cs, i, j, k)
    &&& forall|i2: int, j2: int, k2: int|
        lex_before(i2, j2, k2, i, j, k) ==> !#[trigger] cross_conflict(sets, mode, cs, i2, j2, k2)
}

/// The error reported when `attempted`, added in mode `mode`, runs into `existing` of
/// `existing_mode`.
pub open spec fn set_error_matches(
    e: SetError,
    mode: Option<Mode>,
    existing_mode: Option<Mode>,
    existing: Seq<Key>,
    attempted: Seq<Key>,
) -> bool {
    if existing == attempted {
        e matches SetError::IdenticalCombo { mode: m, set } && m == mode && set@ == attempted
    } else {
        e matches SetError::SamePrefixCombo { original, attempted: a } && original.0
            == existing_mode && original.1@ == existing && a.0 == mode && a.1@ == attempted
    }
}

/// Valid mode sets: each set valid, no empty combo, no two combos live at the same time
/// running into each other, and every mode entered by an earlier combo.
pub open spec fn sets_wf(sets: Seq<(Option<Mode>, Seq<(Seq<Key>, OdiliaEvent)>)>) -> bool {
    &&& forall|i: int| 0 <= i < sets.len() ==> combos_wf(#[trigger] sets[i].1)
    &&& forall|i: int, k: int|
        0 <= i < sets.len() && 0 <= k < sets[i].1.len() ==> (#[trigger] sets[i].1[k]).0.len() > 0
    &&& forall|i1: int, i2: int, j1: int, j2: int|
        0 <= i1 < i2 < sets.len() && modes_overlap(sets[i1].0, sets[i2].0) && 0 <= j1
            < sets[i1].1.len() && 0 <= j2 < sets[i2].1.len() ==> !conflict(
            #[trigger] sets[i1].1[j1].0,
            #[trigger] sets[i2].1[j2].0,
        )
    &&& forall|i: int|
        0 <= i < sets.len() ==> ((#[trigger] sets[i]).0 matches Some(m) ==> mode_reachable(
            sets.take(i),
            m,
        ))
}

/// What [`ComboSets::insert`] does to a valid list of mode sets, given that none of its tests fails.
pub open spec fn insert_accepted(
    sets: Seq<(Option<Mode>, Seq<(Seq<Key>, OdiliaEvent)>)>,
    mode: Option<Mode>,
    cs: Seq<(Seq<Key>, OdiliaEvent)>,
) -> bool {
    &&& !(mode matches Some(m) && !mode_reachable(sets, m))
    &&& !has_empty_keys(cs)
    &&& no_cross_conflict(sets, mode, cs)
}

/// Whether two optional modes are the same.
fn same_mode(a: Option<Mode>, b: Option<Mode>) -> (r: bool)
    ensures
        r == (a == b),
{
    match (a, b) {
        (None, None) => true,
        (Some(x), Some(y)) => x == y,
        _ => false,
    }
}

/// The error [`ComboSets::insert`] reports when adding `cs` in mode `mode` fails: first an
/// unreachable mode, then a combo without keys, then the first pair of combos running into each
/// other.
pub open spec fn insert_error(
    sets: Seq<(Option<Mode>, Seq<(Seq<Key>, OdiliaEvent)>)>,
    mode: Option<Mode>,
    cs: Seq<(Seq<Key>, OdiliaEvent)>,
    e: SetError,
) -> bool {
    if mode is Some && !mode_reachable(sets, mode.unwrap()) {
        e == SetError::UnreachableMode(mode.unwrap())
    } else if has_empty_keys(cs) {
        e == SetError::UnpressableKey
    } else {
        exists|i: int, j: int, k: int|
            is_first_cross_conflict(sets, mode, cs, i, j, k) && set_error_matches(
                e,
                mode,
                sets[i].0,
                sets[i].1[j].0,
                cs[k].0,
            )
    }
}

/// Every mode set of `items` is accepted when added, in order, to those before it.
pub open spec fn all_sets_accepted(items: Seq<(Option<Mode>, Seq<(Seq<Key>, OdiliaEvent)>)>) -> bool {
    forall|n: int| 0 <= n < items.len() ==> insert_accepted(items.take(n), (#[trigger] items[n]).0, items[n].1)
}

/// Mode set `n` of `items` is the first one refused when they are added in order.
pub open spec fn is_first_refused(items: Seq<(Option<Mode>, Seq<(Seq<Key>, OdiliaEvent)>)>, n: int) -> bool {
    &&& 0 <= n < items.len()
    &&& !insert_accepted(items.take(n), items[n].0, items[n].1)
    &&& forall|m: int| 0 <= m < n ==> insert_accepted(items.take(m), (#[trigger] items[m]).0, items[m].1)
}

/// A list of modes and their associated key combos.
#[derive(PartialEq, Eq, Debug)]
pub struct ComboSets {
    inner: Vec<(Option<Mode>, ComboSet)>,
}

impl View for ComboSets {
    type V = Seq<(Option<Mode>, Seq<(Seq<Key>, OdiliaEvent)>)>;

    closed spec fn view(&self) -> Seq<(Option<Mode>, Seq<(Seq<Key>, OdiliaEvent)>)> {
        sets_view(self.inner@)
    }
}

impl ComboSets {
    /// Every list of mode sets is valid.
    #[verifier::type_invariant]
    pub closed spec fn wf(self) -> bool {
        sets_wf(sets_view(self.inner@))
    }

    /// Whether some combo already present switches to mode `m`.
    fn reaches(&self, m: Mode) -> (r: bool)
        ensures
            r == mode_reachable(self@, m),
    {
        let mut i: usize = 0;
        while i < self.inner.len()
            invariant
                i <= self.inner.len(),
                self@.len() == self.inner.len(),
                forall|i2: int, j2: int|
                    0 <= i2 < i && 0 <= j2 < self@[i2].1.len() ==> #[trigger] self@[i2].1[j2].1
                        != OdiliaEvent::ChangeMode(ChangeMode(m)),
            decreases self.inner.len() - i,
        {
            let combos = self.inner[i].1.iter();
            assert(self@[i as int].1 == combo_items_view(combos@));
            let mut j: usize = 0;
            while j < combos.len()
                invariant
                    j <= combos.len(),
                    i < self.inner.len(),
                    self@.len() == self.inner.len(),
                    forall|i2: int, j2: int|
                        0 <= i2 < i && 0 <= j2 < self@[i2].1.len() ==> #[trigger] self@[i2].1[j2].1
                            != OdiliaEvent::ChangeMode(ChangeMode(m)),
                    self@[i as int].1 == combo_items_view(combos@),
                    forall|j2: int|
                        0 <= j2 < j ==> #[trigger] self@[i as int].1[j2].1 != OdiliaEvent::ChangeMode(
                            ChangeMode(m),
                        ),
                decreases combos.len() - j,
            {
                assert(self@[i as int].1[j as int].1 == combos@[j as int].1);
                match combos[j].1 {
                    OdiliaEvent::ChangeMode(ChangeMode(mode)) => {
                        if mode == m {
                            assert(self@[i as int].1[j as int].1 == OdiliaEvent::ChangeMode(
                                ChangeMode(m),
                            ));
                            return true;
                        }
                    },
                    _ => {},
                }
                j = j + 1;
            }
            i = i + 1;
        }
        false
    }

    /// Add a new set of combos, live in `mode` (or in every mode, for `None`).
    ///
    /// Fails, in this order of checks, when `mode` can not be reached by any combo already
    /// present, when a combo of `cs` has no keys, or when a combo of `cs` is identical to, or
    /// starts the same way as, a combo already present that is live in the same mode or
    /// globally; the first such pair is reported.
    pub fn insert(&mut self, mode: Option<Mode>, cs: ComboSet) -> (r: Result<(), SetError>)
        ensures
            insert_accepted(old(self)@, mode, cs@) ==> r is Ok && final(self)@ == old(self)@.push(
                (mode, cs@),
            ),
            !insert_accepted(old(self)@, mode, cs@) ==> (r matches Err(e) && insert_error(
                old(self)@,
                mode,
                cs@,
                e,
            )),
            r is Err ==> final(self)@ == old(self)@,
            sets_wf(final(self)@),
    {
        proof {
            use_type_invariant(&*self);
            use_type_invariant(&cs);
        }
        let ghost old_view = self@;
        if let Some(some_mode) = mode {
            if !self.reaches(some_mode) {
                proof {
                    use_type_invariant(&*self);
                }
                return Err(SetError::UnreachableMode(some_mode));
            }
        }
        let new_combos = cs.iter();
        assert(cs@ == combo_items_view(new_combos@));
        let mut k: usize = 0;
        while k < new_combos.len()
            invariant
                k <= new_combos.len(),
                cs@ == combo_items_view(new_combos@),
                old_view == old(self)@,
                !(mode matches Some(m) && !mode_reachable(old_view, m)),
                forall|k2: int| 0 <= k2 < k ==> (#[trigger] cs@[k2]).0.len() > 0,
            decreases new_combos.len() - k,
        {
            assert(cs@[k as int].0 == new_combos@[k as int].0@);
            if new_combos[k].0.inner.len() == 0 {
                proof {
                    use_type_invariant(&*self);
                }
                return Err(SetError::UnpressableKey);
            }
            k = k + 1;
        }
        let mut i: usize = 0;
        while i < self.inner.len()
            invariant
                i <= self.inner.len(),
                old_view == self@,
                old_view == old(self)@,
                old_view.len() == self.inner.len(),
                cs@ == combo_items_view(new_combos@),
                !(mode matches Some(m) && !mode_reachable(old_view, m)),
                !has_empty_keys(cs@),
                forall|i2: int, j2: int, k2: int|
                    i2 < i ==> !#[trigger] cross_conflict(old_view, mode, cs@, i2, j2, k2),
            decreases self.inner.len() - i,
        {
            let combo_mode = self.inner[i].0;
            if mode.is_none() || same_mode(combo_mode, mode) || combo_mode.is_none() {
                let old_combos = self.inner[i].1.iter();
                assert(old_view[i as int].1 == combo_items_view(old_combos@));
                let mut j: usize = 0;
                while j < old_combos.len()
                    invariant
                        j <= old_combos.len(),
                        i < self.inner.len(),
                        old_view == self@,
                        old_view == old(self)@,
                        old_view.len() == self.inner.len(),
                        cs@ == combo_items_view(new_combos@),
                        !(mode matches Some(m) && !mode_reachable(old_view, m)),
                        !has_empty_keys(cs@),
                        modes_overlap(combo_mode, mode),
                        old_view[i as int].1 == combo_items_view(old_combos@),
                        old_view[i as int].0 == combo_mode,
                        forall|i2: int, j2: int, k2: int|
                            lex_before(i2, j2, k2, i as int, j as int, 0) ==> !#[trigger] cross_conflict(
                                old_view,
                                mode,
                                cs@,
                                i2,
                                j2,
                                k2,
                            ),
                    decreases old_combos.len() - j,
                {
                    let combo1 = &old_combos[j].0;
                    assert(old_view[i as int].1[j as int].0 == combo1@);
                    let mut k: usize = 0;
                    while k < new_combos.len()
                        invariant
                            k <= new_combos.len(),
                            j < old_combos.len(),
                            i < self.inner.len(),
                            old_view == self@,
                            old_view == old(self)@,
                            old_view.len() == self.inner.len(),
                            cs@ == combo_items_view(new_combos@),
                            !(mode matches Some(m) && !mode_reachable(old_view, m)),
                            !has_empty_keys(cs@),
                            modes_overlap(combo_mode, mode),
                            old_view[i as int].1 == combo_items_view(old_combos@),
                            old_view[i as int].0 == combo_mode,
                            old_view[i as int].1[j as int].0 == combo1@,
                            forall|i2: int, j2: int, k2: int|
                                lex_before(i2, j2, k2, i as int, j as int, k as int)
                                    ==> !#[trigger] cross_conflict(old_view, mode, cs@, i2, j2, k2),
                        decreases new_combos.len() - k,
                    {
                        let combo2 = &new_combos[k].0;
                        assert(cs@[k as int].0 == combo2@);
                        if keys_equal(&combo1.inner, &combo2.inner) {
                            assert(is_first_cross_conflict(
                                old_view,
                                mode,
                                cs@,
                                i as int,
                                j as int,
                                k as int,
                            ));
                            proof {
                                use_type_invariant(&*self);
                            }
                            return Err(SetError::IdenticalCombo { mode, set: combo2.clone() });
                        } else if starts_with(&combo1.inner, &combo2.inner) || starts_with(
                            &combo2.inner,
                            &combo1.inner,
                        ) {
                            assert(is_first_cross_conflict(
                                old_view,
                                mode,
                                cs@,
                                i as int,
                                j as int,
                                k as int,
                            ));
                            proof {
                                use_type_invariant(&*self);
                            }
                            return Err(
                                SetError::SamePrefixCombo {
                                    original: (combo_mode, combo1.clone()),
                                    attempted: (mode, combo2.clone()),
                                },
                            );
                        }
                        k = k + 1;
                    }
                    j = j + 1;
                }
                assert forall|i2: int, j2: int, k2: int|
                    i2 < i + 1 implies !#[trigger] cross_conflict(old_view, mode, cs@, i2, j2, k2) by {
                    if i2 == i && cross_conflict(old_view, mode, cs@, i2, j2, k2) {
                        assert(lex_before(i2, j2, k2, i as int, old_combos@.len() as int, 0));
                    }
                }
            }
            i = i + 1;
        }
        proof {
            assert(no_cross_conflict(old_view, mode, cs@));
            let nv = old_view.push((mode, cs@));
            assert forall|i1: int, i2: int, j1: int, j2: int|
                0 <= i1 < i2 < nv.len() && modes_overlap(nv[i1].0, nv[i2].0) && 0 <= j1
                    < nv[i1].1.len() && 0 <= j2 < nv[i2].1.len() implies !conflict(
                #[trigger] nv[i1].1[j1].0,
                #[trigger] nv[i2].1[j2].0,
            ) by {
                if i2 == old_view.len() {
                    assert(!cross_conflict(old_view, mode, cs@, i1, j1, j2));
                }
            }
            assert forall|i: int| 0 <= i < nv.len() implies ((#[trigger] nv[i]).0 matches Some(m)
                ==> mode_reachable(nv.take(i), m)) by {
                if i < old_view.len() {
                    assert(nv.take(i) =~= old_view.take(i));
                } else {
                    assert(nv.take(i) =~= old_view);
                }
            }
            assert(sets_wf(nv));
        }
        let mut items: Vec<(Option<Mode>, ComboSet)> = Vec::new();
        std::mem::swap(&mut items, &mut self.inner);
        items.push((mode, cs));
        assert(sets_view(items@) =~= old_view.push((mode, cs@)));
        self.inner = items;
        Ok(())
    }

    /// Create a new, empty [`ComboSets`].
    pub fn new() -> (css: ComboSets)
        ensures
            css@ == Seq::<(Option<Mode>, Seq<(Seq<Key>, OdiliaEvent)>)>::empty(),
            sets_wf(css@),
    {
        let css = ComboSets { inner: Vec::new() };
        assert(css@ =~= Seq::<(Option<Mode>, Seq<(Seq<Key>, OdiliaEvent)>)>::empty());
        css
    }

    /// The mode sets, in the order they were added; together they keep the rules [`ComboSets::insert`]
    /// checks (see `sets_wf`).
    pub fn iter(&self) -> (items: &[(Option<Mode>, ComboSet)])
        ensures
            sets_view(items@) == self@,
            sets_wf(self@),
    {
        proof {
            use_type_invariant(self);
        }
        self.inner.as_slice()
    }

    /// Build the list by adding each mode set in turn; the first refusal is reported.
    pub fn try_from_iter(items: Vec<(Option<Mode>, ComboSet)>) -> (r: Result<ComboSets, SetError>)
        ensures
            combo_sets_built(sets_view(items@), r),
            r matches Ok(css) ==> sets_wf(css@),
    {
        let ghost v = sets_view(items@);
        let mut this = ComboSets::new();
        let mut n: usize = 0;
        while n < items.len()
            invariant
                n <= items.len(),
                v == sets_view(items@),
                this@ == v.take(n as int),
                forall|m: int|
                    0 <= m < n ==> insert_accepted(v.take(m), (#[trigger] v[m]).0, v[m].1),
            decreases items.len() - n,
        {
            let mode = items[n].0;
            let cs = items[n].1.clone();
            assert(v[n as int] == (mode, cs@));
            match this.insert(mode, cs) {
                Ok(()) => {
                    assert(this@ =~= v.take(n + 1));
                },
                Err(e) => {
                    assert(is_first_refused(v, n as int));
                    return Err(e);
                },
            }
            n = n + 1;
        }
        assert(v.take(items.len() as int) =~= v);
        proof {
            use_type_invariant(&this);
        }
        Ok(this)
    }
}

impl<const N: usize> TryFrom<[(Option<Mode>, ComboSet); N]> for ComboSets {
    type Error = SetError;

    /// Same as [`ComboSets::try_from_iter`] on the array's items, in order.
    fn try_from(items: [(Option<Mode>, ComboSet); N]) -> (r: Result<ComboSets, SetError>)
        ensures
            combo_sets_built(sets_view(items@), r),
    {
        let mut v: Vec<(Option<Mode>, ComboSet)> = Vec::new();
        let mut i: usize = 0;
        while i < N
            invariant
                i <= N,
                items@.len() == N,
                sets_view(v@) == sets_view(items@.take(i as int)),
            decreases N - i,
        {
            let ghost before = v@;
            let cs = items[i].1.clone();
            v.push((items[i].0, cs));
            assert(items@.take(i + 1) == items@.take(i as int).push(items@[i as int]));
            assert(sets_view(v@) =~= sets_view(before).push((items@[i as int].0, cs@)));
            i = i + 1;
            assert(sets_view(v@) =~= sets_view(items@.take(i as int)));
        }
        assert(items@.take(N as int) == items@);
        ComboSets::try_from_iter(v)
    }
}

/// The conversion's behaviour is stated by the `ensures` of `try_from` itself, over views.
impl<const N: usize> vstd::std_specs::convert::TryFromSpecImpl<[(Option<Mode>, ComboSet); N]> for ComboSets {
    open spec fn obeys_try_from_spec() -> bool {
        false
    }

    open spec fn try_from_spec(v: [(Option<Mode>, ComboSet); N]) -> Result<ComboSets, SetError> {
        vstd::pervasive::arbitrary()
    }
}

impl Clone for ComboSets {
    fn clone(&self) -> (r: ComboSets)
        ensures
            r@ == self@,
            sets_wf(r@),
    {
        proof {
            use_type_invariant(self);
        }
        let mut inner: Vec<(Option<Mode>, ComboSet)> = Vec::new();
        let mut i: usize = 0;
        while i < self.inner.len()
            invariant
                i <= self.inner.len(),
                sets_view(inner@) == self@.take(i as int),
            decreases self.inner.len() - i,
        {
            let cs = self.inner[i].1.clone();
            let ghost prev = inner@;
            assert(self@[i as int] == (self.inner@[i as int].0, cs@));
            inner.push((self.inner[i].0, cs));
            assert(sets_view(inner@) =~= sets_view(prev).push(self@[i as int]));
            i = i + 1;
            assert(sets_view(inner@) =~= self@.take(i as int));
        }
        assert(self@.take(self.inner.len() as int) =~= self@);
        ComboSets { inner }
    }
}

/// A key set of one key.
fn one_key(k: Key) -> (ks: KeySet)
    requires
        k != ACTIVATION_KEY,
    ensures
        ks@ == seq![k],
{
    let mut ks = KeySet::new();
    let r = ks.insert(k);
    assert(ks@ =~= seq![k]);
    ks
}

/// A key set of two distinct keys, in order.
fn two_keys(a: Key, b: Key) -> (ks: KeySet)
    requires
        a != ACTIVATION_KEY,
        b != ACTIVATION_KEY,
        a != b,
    ensures
        ks@ == seq![a, b],
{
    let mut ks = KeySet::new();
    let r = ks.insert(a);
    assert(ks@ =~= seq![a]);
    let r = ks.insert(b);
    assert(ks@ =~= seq![a, b]);
    ks
}

/// The global key combos of the default bindings.
fn default_global_combos() -> (cs: ComboSet)
    ensures
        cs@ == default_global(),
{
    let mut cs = ComboSet::new();
    let r = cs.insert(one_key(Key::KeyF), OdiliaEvent::ChangeMode(ChangeMode(Mode::Focus)));
    assert(r is Ok);
    let k = one_key(Key::KeyG);
    assert(cs@[0].0 == seq![Key::KeyF]);
    assert(cs@[0].0[0] != k@[0]);
    assert(!conflict(cs@[0].0, k@));
    let r = cs.insert(k, OdiliaEvent::StopSpeech(StopSpeech));
    assert(r is Ok);
    let k = one_key(Key::KeyB);
    assert(cs@[0].0[0] != k@[0] && cs@[1].0[0] != k@[0]);
    assert(!conflict(cs@[0].0, k@) && !conflict(cs@[1].0, k@));
    let r = cs.insert(k, OdiliaEvent::ChangeMode(ChangeMode(Mode::Browse)));
    assert(r is Ok);
    let k = two_keys(Key::ShiftLeft, Key::KeyQ);
    assert(cs@[0].0[0] != k@[0] && cs@[1].0[0] != k@[0] && cs@[2].0[0] != k@[0]);
    assert(!conflict(cs@[0].0, k@) && !conflict(cs@[1].0, k@) && !conflict(cs@[2].0, k@));
    let r = cs.insert(k, OdiliaEvent::Quit(Quit));
    assert(r is Ok);
    assert(cs@ =~= seq![
        (seq![Key::KeyF], OdiliaEvent::ChangeMode(ChangeMode(Mode::Focus))),
        (seq![Key::KeyG], OdiliaEvent::StopSpeech(StopSpeech)),
        (seq![Key::KeyB], OdiliaEvent::ChangeMode(ChangeMode(Mode::Browse))),
        (seq![Key::ShiftLeft, Key::KeyQ], OdiliaEvent::Quit(Quit)),
    ]);
    cs
}

/// Adds a structural navigation combo to a set of combos that does not yet use `key`
/// (alone or after shift).
fn add_navigation(cs: &mut ComboSet, key: Key, role: atspi_common::Role)
    requires
        key != ACTIVATION_KEY,
        key != Key::ShiftLeft,
        forall|j: int| 0 <= j < old(cs)@.len() ==> (#[trigger] old(cs)@[j]).0.len() > 0 && old(cs)@[j].0[0] != key
            && (old(cs)@[j].0[0] == Key::ShiftLeft ==> old(cs)@[j].0.len() == 2 && old(cs)@[j].0[1] != key),
    ensures
        final(cs)@ == old(cs)@.push(
            (seq![key], OdiliaEvent::StructuralNavigation(StructuralNavigation(Direction::Forward, role))),
        ).push(
            (
                seq![Key::ShiftLeft, key],
                OdiliaEvent::StructuralNavigation(StructuralNavigation(Direction::Backward, role)),
            ),
        ),
{
    let k = one_key(key);
    assert forall|j: int| 0 <= j < cs@.len() implies !conflict(#[trigger] cs@[j].0, k@) by {
        assert(cs@[j].0[0] != k@[0]);
    }
    let r = cs.insert(k, OdiliaEvent::StructuralNavigation(StructuralNavigation(Direction::Forward, role)));
    assert(r is Ok);
    let k = two_keys(Key::ShiftLeft, key);
    assert forall|j: int| 0 <= j < cs@.len() implies !conflict(#[trigger] cs@[j].0, k@) by {
        if j < cs@.len() - 1 {
            if cs@[j].0[0] == Key::ShiftLeft {
                assert(cs@[j].0[1] != k@[1]);
            } else {
                assert(cs@[j].0[0] != k@[0]);
            }
        } else {
            assert(cs@[j].0[0] != k@[0]);
        }
    }
    let r = cs.insert(k, OdiliaEvent::StructuralNavigation(StructuralNavigation(Direction::Backward, role)));
    assert(r is Ok);
}

/// Combos `2 * n` and `2 * n + 1` of `v` navigate by the role with discriminant `role`: the key
/// alone goes forward, shift and the key go backward.
pub open spec fn navigation_pair(
    v: Seq<(Seq<Key>, OdiliaEvent)>,
    n: int,
    key: Key,
    role: u32,
) -> bool {
    &&& v[2 * n].0 == seq![key]
    &&& v[2 * n].1 matches OdiliaEvent::StructuralNavigation(StructuralNavigation(d, r))
        && d == Direction::Forward && role_index(r) == role
    &&& v[2 * n + 1].0 == seq![Key::ShiftLeft, key]
    &&& v[2 * n + 1].1 matches OdiliaEvent::StructuralNavigation(StructuralNavigation(d, r))
        && d == Direction::Backward && role_index(r) == role
}

/// The combos of browse mode in the default bindings: structural navigation by table (`t`),
/// header (`h`), image (`i`) and link (`k`), forward with the key alone and backward with shift.
pub open spec fn is_default_browse(v: Seq<(Seq<Key>, OdiliaEvent)>) -> bool {
    &&& v.len() == 8
    &&& navigation_pair(v, 0, Key::KeyT, 55)
    &&& navigation_pair(v, 1, Key::KeyH, 71)
    &&& navigation_pair(v, 2, Key::KeyI, 27)
    &&& navigation_pair(v, 3, Key::KeyK, 88)
}

/// The global combos of the default bindings: `f` for focus mode, `g` to stop speech, `b` for
/// browse mode, and shift with `q` to quit.
pub open spec fn default_global() -> Seq<(Seq<Key>, OdiliaEvent)> {
    seq![
        (seq![Key::KeyF], OdiliaEvent::ChangeMode(ChangeMode(Mode::Focus))),
        (seq![Key::KeyG], OdiliaEvent::StopSpeech(StopSpeech)),
        (seq![Key::KeyB], OdiliaEvent::ChangeMode(ChangeMode(Mode::Browse))),
        (seq![Key::ShiftLeft, Key::KeyQ], OdiliaEvent::Quit(Quit)),
    ]
}

/// The structural navigation combos of browse mode in the default bindings.
fn default_browse_combos() -> (cs: ComboSet)
    ensures
        is_default_browse(cs@),
        cs@.len() == 8,
        forall|j: int| 0 <= j < cs@.len() ==> (#[trigger] cs@[j]).0.len() > 0
            && cs@[j].0[0] != Key::KeyF && cs@[j].0[0] != Key::KeyG && cs@[j].0[0] != Key::KeyB
            && (cs@[j].0[0] == Key::ShiftLeft ==> cs@[j].0.len() == 2 && cs@[j].0[1] != Key::KeyQ),
{
    let mut cs = ComboSet::new();
    // The roles by their discriminants: table 55, header 71, image 27, link 88.
    add_navigation(&mut cs, Key::KeyT, role_try_from(55).unwrap());
    add_navigation(&mut cs, Key::KeyH, role_try_from(71).unwrap());
    add_navigation(&mut cs, Key::KeyI, role_try_from(27).unwrap());
    add_navigation(&mut cs, Key::KeyK, role_try_from(88).unwrap());
    cs
}

impl Default for ComboSets {
    /// The default bindings: global keys for changing mode, stopping speech and quitting, and
    /// structural navigation by table, header, image and link in browse mode.
    fn default() -> (css: ComboSets)
        ensures
            css@.len() == 2,
            css@[0] == (None::<Mode>, default_global()),
            css@[1].0 == Some(Mode::Browse),
            is_default_browse(css@[1].1),
            sets_wf(css@),
    {
        let mut css = ComboSets::new();
        let global = default_global_combos();
        assert(!has_empty_keys(global@));
        let r = css.insert(None, global);
        assert(r is Ok);
        let browse = default_browse_combos();
        assert(css@[0].1[2].1 == OdiliaEvent::ChangeMode(ChangeMode(Mode::Browse)));
        assert(mode_reachable(css@, Mode::Browse));
        assert(!has_empty_keys(browse@));
        assert forall|i: int, j: int, k: int| !#[trigger] cross_conflict(css@, Some(Mode::Browse), browse@, i, j, k) by {
            if 0 <= i < css@.len() && 0 <= j < css@[i].1.len() && 0 <= k < browse@.len() {
                let a = css@[i].1[j].0;
                let b = browse@[k].0;
                assert(b.len() > 0);
                if a[0] == Key::ShiftLeft {
                    assert(a == seq![Key::ShiftLeft, Key::KeyQ]);
                    if b[0] == Key::ShiftLeft {
                        assert(a[1] != b[1]);
                    } else {
                        assert(a[0] != b[0]);
                    }
                } else {
                    assert(a[0] != b[0]);
                }
            }
        }
        let r = css.insert(Some(Mode::Browse), browse);
        assert(r is Ok);
        css
    }
}

/// The primary holder of state for all keybindings in the daemon.
#[derive(Debug)]
pub struct State {
    /// If the activation key ([`ACTIVATION_KEY`]) is pressed.
    pub activation_key_pressed: bool,
    /// Which mode the screen reader is in.
    pub mode: Mode,
    /// All pressed keys _after_ activation is pressed.
    pub pressed: Vec<Key>,
    /// List of key combos.
    pub combos: ComboSets,
    /// Events produced for the screen reader, oldest first. The daemon takes them out and sends
    /// them on to the main Odilia process.
    pub outbox: Vec<OdiliaEvent>,
}

/// The keyboard state as plain values.
pub struct KbState {
    pub activation_key_pressed: bool,
    pub mode: Mode,
    pub pressed: Seq<Key>,
    pub combos: Seq<(Option<Mode>, Seq<(Seq<Key>, OdiliaEvent)>)>,
    pub outbox: Seq<OdiliaEvent>,
}

impl State {
    /// The state as plain values.
    pub open spec fn model(&self) -> KbState {
        KbState {
            activation_key_pressed: self.activation_key_pressed,
            mode: self.mode,
            pressed: self.pressed@,
            combos: self.combos@,
            outbox: self.outbox@,
        }
    }
}

/// Combos of a set in mode `m` are live while the screen reader is in mode `cur`.
pub open spec fn applicable(m: Option<Mode>, cur: Mode) -> bool {
    m is None || m == Some(cur)
}

/// Combo `j` of set `i` is the first live combo whose keys are exactly `pressed`.
pub open spec fn is_first_match(
    sets: Seq<(Option<Mode>, Seq<(Seq<Key>, OdiliaEvent)>)>,
    cur: Mode,
    pressed: Seq<Key>,
    i: int,
    j: int,
) -> bool {
    &&& 0 <= i < sets.len()
    &&& applicable(sets[i].0, cur)
    &&& 0 <= j < sets[i].1.len()
    &&& sets[i].1[j].0 == pressed
    &&& forall|i2: int, j2: int|
        0 <= i2 < i && applicable(sets[i2].0, cur) && 0 <= j2 < sets[i2].1.len() ==> #[trigger] sets[i2].1[j2].0
            != pressed
    &&& forall|j2: int| 0 <= j2 < j ==> #[trigger] sets[i].1[j2].0 != pressed
}

/// The event of the first live combo whose keys are exactly `pressed`, if there is one.
pub open spec fn matched_event(
    sets: Seq<(Option<Mode>, Seq<(Seq<Key>, OdiliaEvent)>)>,
    cur: Mode,
    pressed: Seq<Key>,
) -> Option<OdiliaEvent> {
    if exists|i: int, j: int| is_first_match(sets, cur, pressed, i, j) {
        let (i, j) = choose|i: int, j: int| is_first_match(sets, cur, pressed, i, j);
        Some(sets[i].1[j].1)
    } else {
        None
    }
}

/// There is at most one first match.
pub proof fn lemma_first_match_unique(
    sets: Seq<(Option<Mode>, Seq<(Seq<Key>, OdiliaEvent)>)>,
    cur: Mode,
    pressed: Seq<Key>,
    i: int,
    j: int,
)
    requires
        is_first_match(sets, cur, pressed, i, j),
    ensures
        matched_event(sets, cur, pressed) == Some(sets[i].1[j].1),
{
    let (i2, j2) = choose|i2: int, j2: int| is_first_match(sets, cur, pressed, i2, j2);
    assert(is_first_match(sets, cur, pressed, i2, j2));
    if i2 < i {
        assert(sets[i2].1[j2].0 != pressed);
    } else if i < i2 {
        assert(sets[i].1[j].0 != pressed);
    } else if j2 < j {
        assert(sets[i].1[j2].0 != pressed);
    } else if j < j2 {
        assert(sets[i].1[j].0 != pressed);
    }
}

/// The mode after event `ev` has been triggered in mode `cur`.
pub open spec fn mode_after(ev: OdiliaEvent, cur: Mode) -> Mode {
    match ev {
        OdiliaEvent::ChangeMode(ChangeMode(m)) => m,
        _ => cur,
    }
}

/// One step of the keyboard state machine: the state after the event, and whether the event
/// is passed through to the applications (rather than swallowed).
pub open spec fn step(s: KbState, et: EventType) -> (KbState, bool) {
    match et {
        EventType::KeyPress(k) => {
            if k == ACTIVATION_KEY {
                (KbState { activation_key_pressed: true, ..s }, false)
            } else if !s.activation_key_pressed {
                (s, true)
            } else if s.pressed.contains(k) {
                (s, false)
            } else {
                let p = s.pressed.push(k);
                match matched_event(s.combos, s.mode, p) {
                    Some(ev) => (
                        KbState { pressed: p, mode: mode_after(ev, s.mode), outbox: s.outbox.push(ev), ..s },
                        false,
                    ),
                    None => (KbState { pressed: p, ..s }, false),
                }
            }
        },
        EventType::KeyRelease(k) => {
            if k == ACTIVATION_KEY {
                if s.activation_key_pressed {
                    (KbState { activation_key_pressed: false, ..s }, false)
                } else {
                    (s, true)
                }
            } else if s.pressed.contains(k) {
                (KbState { pressed: s.pressed.remove(first_index(s.pressed, k)), ..s }, false)
            } else {
                (s, true)
            }
        },
        _ => (s, true),
    }
}

/// Whether combos of mode `m` are live in mode `cur`.
fn is_applicable(m: Option<Mode>, cur: Mode) -> (r: bool)
    ensures
        r == applicable(m, cur),
{
    match m {
        None => true,
        Some(x) => x == cur,
    }
}

/// The callback function to call in a tight loop on every input event.
/// Returns [`None`] to indicate a desire to swallow an event,
/// Returns [`Some(Event)`] to indicate a passthrough of the event.
///
/// While the activation key is held, pressed keys are collected; when they are exactly the keys
/// of a live combo, the combo's event is queued in the state's outbox (and a mode change takes
/// effect).
pub fn callback(event: Event, state: &mut State) -> (r: Option<Event>)
    ensures
        step(old(state).model(), event.event_type) == (final(state).model(), r is Some),
        r matches Some(e) ==> e == event,
{
    let ghost s0 = state.model();
    match event.event_type {
        EventType::KeyPress(k) => {
            if k == ACTIVATION_KEY {
                // enable activation (if it was not already) and swallow the event
                state.activation_key_pressed = true;
                return None;
            }
            if !state.activation_key_pressed {
                return Some(event);
            }
            // if the key is already pressed (i.e., it's been held down), swallow it
            if position_of(&state.pressed, k).is_some() {
                return None;
            }
            state.pressed.push(k);
            let ghost p = state.pressed@;
            assert(p == s0.pressed.push(k));
            let sets = state.combos.iter();
            let mut i: usize = 0;
            while i < sets.len()
                invariant
                    i <= sets.len(),
                    sets_view(sets@) == s0.combos,
                    state.combos@ == s0.combos,
                    state.pressed@ == p,
                    state.mode == s0.mode,
                    state.outbox@ == s0.outbox,
                    state.activation_key_pressed == s0.activation_key_pressed,
                    s0 == old(state).model(),
                    event.event_type == EventType::KeyPress(k),
                    k != ACTIVATION_KEY,
                    s0.activation_key_pressed,
                    !s0.pressed.contains(k),
                    p == s0.pressed.push(k),
                    forall|i2: int, j2: int|
                        0 <= i2 < i && applicable(s0.combos[i2].0, s0.mode) && 0 <= j2
                            < s0.combos[i2].1.len() ==> #[trigger] s0.combos[i2].1[j2].0 != p,
                decreases sets.len() - i,
            {
                assert(s0.combos[i as int] == (sets@[i as int].0, sets@[i as int].1@));
                if is_applicable(sets[i].0, state.mode) {
                    let combos = sets[i].1.iter();
                    let mut j: usize = 0;
                    while j < combos.len()
                        invariant
                            j <= combos.len(),
                            i < sets.len(),
                            sets_view(sets@) == s0.combos,
                            state.combos@ == s0.combos,
                            state.pressed@ == p,
                            state.mode == s0.mode,
                            state.outbox@ == s0.outbox,
                            state.activation_key_pressed == s0.activation_key_pressed,
                            s0 == old(state).model(),
                            event.event_type == EventType::KeyPress(k),
                            k != ACTIVATION_KEY,
                            s0.activation_key_pressed,
                            !s0.pressed.contains(k),
                            p == s0.pressed.push(k),
                            applicable(s0.combos[i as int].0, s0.mode),
                            s0.combos[i as int].1 == combo_items_view(combos@),
                            forall|i2: int, j2: int|
                                0 <= i2 < i && applicable(s0.combos[i2].0, s0.mode) && 0 <= j2
                                    < s0.combos[i2].1.len() ==> #[trigger] s0.combos[i2].1[j2].0 != p,
                            forall|j2: int| 0 <= j2 < j ==> #[trigger] s0.combos[i as int].1[j2].0 != p,
                        decreases combos.len() - j,
                    {
                        assert(s0.combos[i as int].1[j as int] == (combos@[j as int].0@, combos@[j as int].1));
                        if keys_equal(&combos[j].0.inner, &state.pressed) {
                            let ev = combos[j].1;
                            proof {
                                assert(is_first_match(s0.combos, s0.mode, p, i as int, j as int));
                                lemma_first_match_unique(s0.combos, s0.mode, p, i as int, j as int);
                            }
                            // a change mode event updates the mode
                            if let OdiliaEvent::ChangeMode(ChangeMode(new_mode)) = ev {
                                state.mode = new_mode;
                            }
                            state.outbox.push(ev);
                            return None;
                        }
                        j = j + 1;
                    }
                }
                i = i + 1;
            }
            assert(!exists|i: int, j: int| is_first_match(s0.combos, s0.mode, p, i, j));
            None
        },
        EventType::KeyRelease(k) => {
            if k == ACTIVATION_KEY {
                if state.activation_key_pressed {
                    // disable activation and swallow the event
                    state.activation_key_pressed = false;
                    return None;
                }
                // released while activation is off (it was pressed before the daemon began
                // intercepting keys): the application must see it, or it would act as if the key
                // were held forever
                return Some(event);
            }
            match position_of(&state.pressed, k) {
                Some(idx) => {
                    proof {
                        lemma_first_index(s0.pressed, k, idx as int);
                    }
                    // it was pressed during activation: forget it and swallow the event
                    state.pressed.remove(idx);
                    None
                },
                // held from before the activation was enabled: pass it through
                None => Some(event),
            }
        },
        // all other cases (having to do with the mouse): pass through
        _ => Some(event),
    }
}

} // verus!
