//! How accessibility events change the cache, and the requests the cache answers.

use crate::accessible::AccessiblePrimitive;
use crate::cache::{
    announced_outcome, cached_in, can_modify, created, got_all, lemma_cached_in_all_held,
    lemma_created_keeps, kept, modified, prefetch_outcome,
    Cache, CacheDriver, Modification,
};
use crate::cache_item::{
    keys_view, AnnouncedItem, CacheItem, CacheItemView, LegacyAnnouncedItem, Operation,
};
use crate::errors::{CacheError, OdiliaError};
use crate::relations::Relations;
use crate::text::{chars_of, string_of};
use atspi_common::{RelationType, Role};
use vstd::prelude::*;

verus! {

/// The views of a list of items.
pub open spec fn item_views(v: Seq<CacheItem>) -> Seq<CacheItemView> {
    v.map_values(|c: CacheItem| c@)
}

/// Whether `items` holds the item under `key` and an item under each of its children.
pub open spec fn children_cached(
    items: Map<(Seq<char>, Seq<char>), CacheItemView>,
    key: (Seq<char>, Seq<char>),
) -> bool {
    &&& items.dom().contains(key)
    &&& forall|i: int|
        0 <= i < items[key].children.len() ==> #[trigger] items.dom().contains(
            items[key].children[i],
        )
}

/// A property of an accessible that changed, with its new value.
pub enum Property {
    Name(String),
    Description(String),
    Role(Role),
    Parent(AccessiblePrimitive),
    /// A property the cache does not keep.
    Other,
}

/// A property of the accessible `item` changed.
pub struct PropertyChangeEvent {
    pub item: AccessiblePrimitive,
    pub value: Property,
}

/// A state (given by its bit) of the accessible `item` was set or cleared.
pub struct StateChangedEvent {
    pub item: AccessiblePrimitive,
    pub state: u64,
    pub enabled: bool,
}

/// Text of the accessible `item` was inserted or deleted at a byte offset.
pub struct TextChangedEvent {
    pub item: AccessiblePrimitive,
    pub operation: Operation,
    pub start_pos: i32,
    pub length: i32,
    pub text: String,
}

/// A child of the accessible `item` was inserted or removed at an index.
pub struct ChildrenChangedEvent {
    pub item: AccessiblePrimitive,
    pub operation: Operation,
    pub index_in_parent: i32,
    pub child: AccessiblePrimitive,
}

/// A document finished loading.
pub struct LoadCompleteEvent {
    pub item: AccessiblePrimitive,
}

/// The accessible `item` got the focus (the legacy focus event).
pub struct FocusEvent {
    pub item: AccessiblePrimitive,
}

/// An application added an accessible.
pub struct AddAccessibleEvent {
    pub node_added: AnnouncedItem,
}

/// An application added an accessible, announced in the legacy form.
pub struct LegacyAddAccessibleEvent {
    pub node_added: LegacyAnnouncedItem,
}

/// An application removed an accessible.
pub struct RemoveAccessibleEvent {
    pub item: AccessiblePrimitive,
}

/// An event about the accessible `item` that changes nothing the cache keeps: the item is
/// only fetched if the cache does not hold it.
pub struct ItemEvent {
    pub item: AccessiblePrimitive,
}

/// The events of the object interface that the cache handles.
pub enum ObjectEvents {
    PropertyChange(PropertyChangeEvent),
    StateChanged(StateChangedEvent),
    TextChanged(TextChangedEvent),
    AttributesChanged(ItemEvent),
    BoundsChanged(ItemEvent),
    VisibleDataChanged(ItemEvent),
    TextCaretMoved(ItemEvent),
    TextAttributesChanged(ItemEvent),
    RowInserted(ItemEvent),
    RowDeleted(ItemEvent),
    RowReordered(ItemEvent),
    ColumnInserted(ItemEvent),
    ColumnDeleted(ItemEvent),
    ColumnReordered(ItemEvent),
    ModelChanged(ItemEvent),
    ActiveDescendantChanged(ItemEvent),
    Announcement(ItemEvent),
    TextSelectionChanged(ItemEvent),
}

/// The events of the document interface that the cache handles.
pub enum DocumentEvents {
    LoadComplete(LoadCompleteEvent),
    Reload(ItemEvent),
    LoadStopped(ItemEvent),
    ContentChanged(ItemEvent),
    AttributesChanged(ItemEvent),
    PageChanged(ItemEvent),
}

/// The events of the window interface that the cache handles.
pub enum WindowEvents {
    Minimize(ItemEvent),
    Maximize(ItemEvent),
    Restore(ItemEvent),
    Close(ItemEvent),
    Create(ItemEvent),
    Reparent(ItemEvent),
    DesktopCreate(ItemEvent),
    DesktopDestroy(ItemEvent),
    Destroy(ItemEvent),
    Activate(ItemEvent),
    Deactivate(ItemEvent),
    Raise(ItemEvent),
    Lower(ItemEvent),
    Move(ItemEvent),
    Resize(ItemEvent),
    Shade(ItemEvent),
    UUshade(ItemEvent),
    Restyle(ItemEvent),
}

/// The events of the terminal interface that the cache handles.
pub enum TerminalEvents {
    LineChanged(ItemEvent),
    ColumnCountChanged(ItemEvent),
    LineCountChanged(ItemEvent),
    ApplicationChanged(ItemEvent),
    CharWidthChanged(ItemEvent),
}

/// The mouse events that the cache handles.
pub enum MouseEvents {
    Abs(ItemEvent),
    Rel(ItemEvent),
    Button(ItemEvent),
}

/// The keyboard events that the cache handles.
pub enum KeyboardEvents {
    Modifiers(ItemEvent),
}

/// The events of the cache interface.
pub enum CacheEvents {
    Add(AddAccessibleEvent),
    LegacyAdd(LegacyAddAccessibleEvent),
    Remove(RemoveAccessibleEvent),
}

/// An accessibility event, as far as the cache is concerned.
pub enum AccessibilityEvent {
    Object(ObjectEvents),
    Document(DocumentEvents),
    Window(WindowEvents),
    Terminal(TerminalEvents),
    Mouse(MouseEvents),
    Keyboard(KeyboardEvents),
    Cache(CacheEvents),
    /// Any other event, by its description; the cache cannot handle it.
    Other(String),
}

/// What an event does to the cache.
pub enum EventEffect {
    /// Modify the item under the key if the cache holds it, else get it.
    Modify(AccessiblePrimitive, Modification),
    /// Get the item under the key.
    Fetch(AccessiblePrimitive),
    /// Fetch the whole application of the key.
    Prefetch(AccessiblePrimitive),
    /// Get the announced item.
    Add(AnnouncedItem),
    /// Get the item announced in the legacy form.
    LegacyAdd(LegacyAnnouncedItem),
    /// Remove the item under the key.
    Remove(AccessiblePrimitive),
    /// Nothing: the event, described, cannot be handled.
    Unhandled(String),
}

/// Whether the effect can take place on the items: a modification must fit the item it
/// changes.
pub open spec fn effect_allowed(e: EventEffect, items: Map<(Seq<char>, Seq<char>), CacheItemView>) -> bool {
    match e {
        EventEffect::Modify(k, m) => items.dom().contains(k@) ==> can_modify(items[k@], m),
        _ => true,
    }
}

/// The message of the error for an event that cannot be handled.
pub open spec fn unhandled_message(d: Seq<char>) -> Seq<char> {
    "Unable to handle event: "@ + d
}

/// What the effect may have done to a cache that held `items` and had seen `apps`, leaving
/// `new_items` and `new_apps` and the answer `r`.
pub open spec fn effect_outcome(
    e: EventEffect,
    items: Map<(Seq<char>, Seq<char>), CacheItemView>,
    apps: Set<Seq<char>>,
    new_items: Map<(Seq<char>, Seq<char>), CacheItemView>,
    new_apps: Set<Seq<char>>,
    r: Result<CacheItem, OdiliaError>,
) -> bool {
    match e {
        EventEffect::Modify(k, m) => if items.dom().contains(k@) {
            &&& new_items == items.insert(k@, modified(items[k@], m))
            &&& new_apps == apps
            &&& r matches Ok(c) && c@ == modified(items[k@], m)
        } else {
            created(items, apps, k@, new_items, new_apps, r)
        },
        EventEffect::Fetch(k) => created(items, apps, k@, new_items, new_apps, r),
        EventEffect::Prefetch(k) => prefetch_outcome(items, apps, k@, new_items, new_apps, r),
        EventEffect::Add(ci) => announced_outcome(items, apps, ci.object@, new_items, new_apps, r),
        EventEffect::LegacyAdd(ci) => announced_outcome(
            items,
            apps,
            ci.object@,
            new_items,
            new_apps,
            r,
        ),
        EventEffect::Remove(k) => {
            &&& new_items == items.remove(k@)
            &&& new_apps == apps
            &&& if items.dom().contains(k@) {
                r matches Ok(c) && c@ == items[k@]
            } else {
                r matches Err(OdiliaError::Cache(CacheError::NoItem))
            }
        },
        EventEffect::Unhandled(d) => {
            &&& new_items == items
            &&& new_apps == apps
            &&& r matches Err(OdiliaError::Generic(msg)) && msg@ == unhandled_message(d@)
        },
    }
}

/// Implemented for all events which change the cache in some way.
pub trait EventHandler: Sized {
    /// What the event does to the cache.
    spec fn effect(self) -> EventEffect;

    /// Whether the event's own numbers are in range (offsets and indices are not negative).
    spec fn well_formed(self) -> bool;

    /// Make the event's change to the cache, and give back the item it concerns.
    fn handle_event<D: CacheDriver>(self, cache: &mut Cache<D>) -> (r: Result<CacheItem, OdiliaError>)
        requires
            self.well_formed(),
            effect_allowed(self.effect(), old(cache).items()),
        ensures
            final(cache).driver_state() == old(cache).driver_state(),
            effect_outcome(
                self.effect(),
                old(cache).items(),
                old(cache).apps(),
                final(cache).items(),
                final(cache).apps(),
                r,
            ),
    ;
}

/// The change a property event makes to its item.
pub open spec fn property_modification(p: Property) -> Modification {
    match p {
        Property::Name(n) => Modification::Name(n),
        Property::Description(d) => Modification::Description(d),
        Property::Role(r) => Modification::Role(r),
        Property::Parent(a) => Modification::Parent(a),
        Property::Other => Modification::OtherProperty,
    }
}

impl EventHandler for PropertyChangeEvent {
    open spec fn effect(self) -> EventEffect {
        EventEffect::Modify(self.item, property_modification(self.value))
    }

    open spec fn well_formed(self) -> bool {
        true
    }

    fn handle_event<D: CacheDriver>(self, cache: &mut Cache<D>) -> (r: Result<CacheItem, OdiliaError>) {
        let key = self.item;
        let m = match self.value {
            Property::Name(n) => Modification::Name(n),
            Property::Description(d) => Modification::Description(d),
            Property::Role(r) => Modification::Role(r),
            Property::Parent(a) => Modification::Parent(a),
            Property::Other => Modification::OtherProperty,
        };
        cache.modify_if_not_new(&key, m)
    }
}

impl EventHandler for StateChangedEvent {
    open spec fn effect(self) -> EventEffect {
        EventEffect::Modify(self.item, Modification::State { state: self.state, enabled: self.enabled })
    }

    open spec fn well_formed(self) -> bool {
        true
    }

    fn handle_event<D: CacheDriver>(self, cache: &mut Cache<D>) -> (r: Result<CacheItem, OdiliaError>) {
        let key = self.item;
        cache.modify_if_not_new(&key, Modification::State { state: self.state, enabled: self.enabled })
    }
}

impl EventHandler for TextChangedEvent {
    open spec fn effect(self) -> EventEffect {
        EventEffect::Modify(
            self.item,
            Modification::Text {
                operation: self.operation,
                start: self.start_pos as u64,
                length: self.length as u64,
                text: self.text,
            },
        )
    }

    open spec fn well_formed(self) -> bool {
        self.start_pos >= 0 && self.length >= 0
    }

    fn handle_event<D: CacheDriver>(self, cache: &mut Cache<D>) -> (r: Result<CacheItem, OdiliaError>) {
        let key = self.item;
        let start = self.start_pos as u64;
        let length = self.length as u64;
        cache.modify_if_not_new(
            &key,
            Modification::Text { operation: self.operation, start, length, text: self.text },
        )
    }
}

impl EventHandler for ChildrenChangedEvent {
    open spec fn effect(self) -> EventEffect {
        EventEffect::Modify(
            self.item,
            Modification::Child {
                operation: self.operation,
                index: self.index_in_parent as usize,
                child: self.child,
            },
        )
    }

    open spec fn well_formed(self) -> bool {
        self.index_in_parent >= 0
    }

    fn handle_event<D: CacheDriver>(self, cache: &mut Cache<D>) -> (r: Result<CacheItem, OdiliaError>) {
        let key = self.item;
        let index = self.index_in_parent as usize;
        cache.modify_if_not_new(
            &key,
            Modification::Child { operation: self.operation, index, child: self.child },
        )
    }
}

impl EventHandler for LoadCompleteEvent {
    open spec fn effect(self) -> EventEffect {
        EventEffect::Prefetch(self.item)
    }

    open spec fn well_formed(self) -> bool {
        true
    }

    /// Fetches the entire application upon load complete.
    fn handle_event<D: CacheDriver>(self, cache: &mut Cache<D>) -> (r: Result<CacheItem, OdiliaError>) {
        cache.prefetch_app(&self.item)
    }
}

impl EventHandler for ItemEvent {
    open spec fn effect(self) -> EventEffect {
        EventEffect::Fetch(self.item)
    }

    open spec fn well_formed(self) -> bool {
        true
    }

    fn handle_event<D: CacheDriver>(self, cache: &mut Cache<D>) -> (r: Result<CacheItem, OdiliaError>) {
        cache.get_or_create(&self.item)
    }
}

impl EventHandler for FocusEvent {
    open spec fn effect(self) -> EventEffect {
        EventEffect::Modify(self.item, Modification::Focus)
    }

    open spec fn well_formed(self) -> bool {
        true
    }

    /// The same as a state change setting the state `Focused`.
    fn handle_event<D: CacheDriver>(self, cache: &mut Cache<D>) -> (r: Result<CacheItem, OdiliaError>) {
        let key = self.item;
        cache.modify_if_not_new(&key, Modification::Focus)
    }
}

impl EventHandler for AddAccessibleEvent {
    open spec fn effect(self) -> EventEffect {
        EventEffect::Add(self.node_added)
    }

    open spec fn well_formed(self) -> bool {
        true
    }

    fn handle_event<D: CacheDriver>(self, cache: &mut Cache<D>) -> (r: Result<CacheItem, OdiliaError>) {
        cache.get_or_create_from_cache_item(self.node_added)
    }
}

impl EventHandler for LegacyAddAccessibleEvent {
    open spec fn effect(self) -> EventEffect {
        EventEffect::LegacyAdd(self.node_added)
    }

    open spec fn well_formed(self) -> bool {
        true
    }

    fn handle_event<D: CacheDriver>(self, cache: &mut Cache<D>) -> (r: Result<CacheItem, OdiliaError>) {
        cache.get_or_create_from_legacy_cache_item(self.node_added)
    }
}

impl EventHandler for RemoveAccessibleEvent {
    open spec fn effect(self) -> EventEffect {
        EventEffect::Remove(self.item)
    }

    open spec fn well_formed(self) -> bool {
        true
    }

    fn handle_event<D: CacheDriver>(self, cache: &mut Cache<D>) -> (r: Result<CacheItem, OdiliaError>) {
        match cache.remove(&self.item) {
            Some(item) => Ok(item),
            None => Err(OdiliaError::Cache(CacheError::NoItem)),
        }
    }
}

impl EventHandler for ObjectEvents {
    open spec fn effect(self) -> EventEffect {
        match self {
            ObjectEvents::PropertyChange(e) => e.effect(),
            ObjectEvents::StateChanged(e) => e.effect(),
            ObjectEvents::TextChanged(e) => e.effect(),
            ObjectEvents::AttributesChanged(e) => e.effect(),
            ObjectEvents::BoundsChanged(e) => e.effect(),
            ObjectEvents::VisibleDataChanged(e) => e.effect(),
            ObjectEvents::TextCaretMoved(e) => e.effect(),
            ObjectEvents::TextAttributesChanged(e) => e.effect(),
            ObjectEvents::RowInserted(e) => e.effect(),
            ObjectEvents::RowDeleted(e) => e.effect(),
            ObjectEvents::RowReordered(e) => e.effect(),
            ObjectEvents::ColumnInserted(e) => e.effect(),
            ObjectEvents::ColumnDeleted(e) => e.effect(),
            ObjectEvents::ColumnReordered(e) => e.effect(),
            ObjectEvents::ModelChanged(e) => e.effect(),
            ObjectEvents::ActiveDescendantChanged(e) => e.effect(),
            ObjectEvents::Announcement(e) => e.effect(),
            ObjectEvents::TextSelectionChanged(e) => e.effect(),
        }
    }

    open spec fn well_formed(self) -> bool {
        match self {
            ObjectEvents::TextChanged(e) => e.well_formed(),
            _ => true,
        }
    }

    fn handle_event<D: CacheDriver>(self, cache: &mut Cache<D>) -> (r: Result<CacheItem, OdiliaError>) {
        match self {
            ObjectEvents::PropertyChange(e) => e.handle_event(cache),
            ObjectEvents::StateChanged(e) => e.handle_event(cache),
            ObjectEvents::TextChanged(e) => e.handle_event(cache),
            ObjectEvents::AttributesChanged(e) => e.handle_event(cache),
            ObjectEvents::BoundsChanged(e) => e.handle_event(cache),
            ObjectEvents::VisibleDataChanged(e) => e.handle_event(cache),
            ObjectEvents::TextCaretMoved(e) => e.handle_event(cache),
            ObjectEvents::TextAttributesChanged(e) => e.handle_event(cache),
            ObjectEvents::RowInserted(e) => e.handle_event(cache),
            ObjectEvents::RowDeleted(e) => e.handle_event(cache),
            ObjectEvents::RowReordered(e) => e.handle_event(cache),
            ObjectEvents::ColumnInserted(e) => e.handle_event(cache),
            ObjectEvents::ColumnDeleted(e) => e.handle_event(cache),
            ObjectEvents::ColumnReordered(e) => e.handle_event(cache),
            ObjectEvents::ModelChanged(e) => e.handle_event(cache),
            ObjectEvents::ActiveDescendantChanged(e) => e.handle_event(cache),
            ObjectEvents::Announcement(e) => e.handle_event(cache),
            ObjectEvents::TextSelectionChanged(e) => e.handle_event(cache),
        }
    }
}

impl EventHandler for DocumentEvents {
    open spec fn effect(self) -> EventEffect {
        match self {
            DocumentEvents::LoadComplete(e) => e.effect(),
            DocumentEvents::Reload(e) => e.effect(),
            DocumentEvents::LoadStopped(e) => e.effect(),
            DocumentEvents::ContentChanged(e) => e.effect(),
            DocumentEvents::AttributesChanged(e) => e.effect(),
            DocumentEvents::PageChanged(e) => e.effect(),
        }
    }

    open spec fn well_formed(self) -> bool {
        true
    }

    fn handle_event<D: CacheDriver>(self, cache: &mut Cache<D>) -> (r: Result<CacheItem, OdiliaError>) {
        match self {
            DocumentEvents::LoadComplete(e) => e.handle_event(cache),
            DocumentEvents::Reload(e) => e.handle_event(cache),
            DocumentEvents::LoadStopped(e) => e.handle_event(cache),
            DocumentEvents::ContentChanged(e) => e.handle_event(cache),
            DocumentEvents::AttributesChanged(e) => e.handle_event(cache),
            DocumentEvents::PageChanged(e) => e.handle_event(cache),
        }
    }
}

impl EventHandler for WindowEvents {
    open spec fn effect(self) -> EventEffect {
        match self {
            WindowEvents::Minimize(e) => e.effect(),
            WindowEvents::Maximize(e) => e.effect(),
            WindowEvents::Restore(e) => e.effect(),
            WindowEvents::Close(e) => e.effect(),
            WindowEvents::Create(e) => e.effect(),
            WindowEvents::Reparent(e) => e.effect(),
            WindowEvents::DesktopCreate(e) => e.effect(),
            WindowEvents::DesktopDestroy(e) => e.effect(),
            WindowEvents::Destroy(e) => e.effect(),
            WindowEvents::Activate(e) => e.effect(),
            WindowEvents::Deactivate(e) => e.effect(),
            WindowEvents::Raise(e) => e.effect(),
            WindowEvents::Lower(e) => e.effect(),
            WindowEvents::Move(e) => e.effect(),
            WindowEvents::Resize(e) => e.effect(),
            WindowEvents::Shade(e) => e.effect(),
            WindowEvents::UUshade(e) => e.effect(),
            WindowEvents::Restyle(e) => e.effect(),
        }
    }

    open spec fn well_formed(self) -> bool {
        true
    }

    fn handle_event<D: CacheDriver>(self, cache: &mut Cache<D>) -> (r: Result<CacheItem, OdiliaError>) {
        match self {
            WindowEvents::Minimize(e) => e.handle_event(cache),
            WindowEvents::Maximize(e) => e.handle_event(cache),
            WindowEvents::Restore(e) => e.handle_event(cache),
            WindowEvents::Close(e) => e.handle_event(cache),
            WindowEvents::Create(e) => e.handle_event(cache),
            WindowEvents::Reparent(e) => e.handle_event(cache),
            WindowEvents::DesktopCreate(e) => e.handle_event(cache),
            WindowEvents::DesktopDestroy(e) => e.handle_event(cache),
            WindowEvents::Destroy(e) => e.handle_event(cache),
            WindowEvents::Activate(e) => e.handle_event(cache),
            WindowEvents::Deactivate(e) => e.handle_event(cache),
            WindowEvents::Raise(e) => e.handle_event(cache),
            WindowEvents::Lower(e) => e.handle_event(cache),
            WindowEvents::Move(e) => e.handle_event(cache),
            WindowEvents::Resize(e) => e.handle_event(cache),
            WindowEvents::Shade(e) => e.handle_event(cache),
            WindowEvents::UUshade(e) => e.handle_event(cache),
            WindowEvents::Restyle(e) => e.handle_event(cache),
        }
    }
}

impl EventHandler for TerminalEvents {
    open spec fn effect(self) -> EventEffect {
        match self {
            TerminalEvents::LineChanged(e) => e.effect(),
            TerminalEvents::ColumnCountChanged(e) => e.effect(),
            TerminalEvents::LineCountChanged(e) => e.effect(),
            TerminalEvents::ApplicationChanged(e) => e.effect(),
            TerminalEvents::CharWidthChanged(e) => e.effect(),
        }
    }

    open spec fn well_formed(self) -> bool {
        true
    }

    fn handle_event<D: CacheDriver>(self, cache: &mut Cache<D>) -> (r: Result<CacheItem, OdiliaError>) {
        match self {
            TerminalEvents::LineChanged(e) => e.handle_event(cache),
            TerminalEvents::ColumnCountChanged(e) => e.handle_event(cache),
            TerminalEvents::LineCountChanged(e) => e.handle_event(cache),
            TerminalEvents::ApplicationChanged(e) => e.handle_event(cache),
            TerminalEvents::CharWidthChanged(e) => e.handle_event(cache),
        }
    }
}

impl EventHandler for MouseEvents {
    open spec fn effect(self) -> EventEffect {
        match self {
            MouseEvents::Abs(e) => e.effect(),
            MouseEvents::Rel(e) => e.effect(),
            MouseEvents::Button(e) => e.effect(),
        }
    }

    open spec fn well_formed(self) -> bool {
        true
    }

    fn handle_event<D: CacheDriver>(self, cache: &mut Cache<D>) -> (r: Result<CacheItem, OdiliaError>) {
        match self {
            MouseEvents::Abs(e) => e.handle_event(cache),
            MouseEvents::Rel(e) => e.handle_event(cache),
            MouseEvents::Button(e) => e.handle_event(cache),
        }
    }
}

impl EventHandler for KeyboardEvents {
    open spec fn effect(self) -> EventEffect {
        match self {
            KeyboardEvents::Modifiers(e) => e.effect(),
        }
    }

    open spec fn well_formed(self) -> bool {
        true
    }

    fn handle_event<D: CacheDriver>(self, cache: &mut Cache<D>) -> (r: Result<CacheItem, OdiliaError>) {
        match self {
            KeyboardEvents::Modifiers(e) => e.handle_event(cache),
        }
    }
}

impl EventHandler for CacheEvents {
    open spec fn effect(self) -> EventEffect {
        match self {
            CacheEvents::Add(e) => e.effect(),
            CacheEvents::LegacyAdd(e) => e.effect(),
            CacheEvents::Remove(e) => e.effect(),
        }
    }

    open spec fn well_formed(self) -> bool {
        true
    }

    fn handle_event<D: CacheDriver>(self, cache: &mut Cache<D>) -> (r: Result<CacheItem, OdiliaError>) {
        match self {
            CacheEvents::Add(e) => e.handle_event(cache),
            CacheEvents::LegacyAdd(e) => e.handle_event(cache),
            CacheEvents::Remove(e) => e.handle_event(cache),
        }
    }
}

/// The error for an event that cannot be handled.
fn unhandled(description: &str) -> (e: OdiliaError)
    ensures
        e matches OdiliaError::Generic(msg) && msg@ == unhandled_message(description@),
{
    let mut v = chars_of("Unable to handle event: ");
    let d = chars_of(description);
    let ghost prefix = v@;
    let mut i: usize = 0;
    while i < d.len()
        invariant
            i <= d@.len(),
            v@ == prefix + d@.take(i as int),
        decreases d.len() - i,
    {
        v.push(d[i]);
        i = i + 1;
        assert(v@ =~= prefix + d@.take(i as int));
    }
    assert(d@.take(d@.len() as int) == d@);
    OdiliaError::Generic(string_of(v.as_slice()))
}

impl EventHandler for AccessibilityEvent {
    open spec fn effect(self) -> EventEffect {
        match self {
            AccessibilityEvent::Object(e) => e.effect(),
            AccessibilityEvent::Document(e) => e.effect(),
            AccessibilityEvent::Window(e) => e.effect(),
            AccessibilityEvent::Terminal(e) => e.effect(),
            AccessibilityEvent::Mouse(e) => e.effect(),
            AccessibilityEvent::Keyboard(e) => e.effect(),
            AccessibilityEvent::Cache(e) => e.effect(),
            AccessibilityEvent::Other(d) => EventEffect::Unhandled(d),
        }
    }

    open spec fn well_formed(self) -> bool {
        match self {
            AccessibilityEvent::Object(e) => e.well_formed(),
            _ => true,
        }
    }

    fn handle_event<D: CacheDriver>(self, cache: &mut Cache<D>) -> (r: Result<CacheItem, OdiliaError>) {
        match self {
            AccessibilityEvent::Object(e) => e.handle_event(cache),
            AccessibilityEvent::Document(e) => e.handle_event(cache),
            AccessibilityEvent::Window(e) => e.handle_event(cache),
            AccessibilityEvent::Terminal(e) => e.handle_event(cache),
            AccessibilityEvent::Mouse(e) => e.handle_event(cache),
            AccessibilityEvent::Keyboard(e) => e.handle_event(cache),
            AccessibilityEvent::Cache(e) => e.handle_event(cache),
            AccessibilityEvent::Other(d) => Err(unhandled(d.as_str())),
        }
    }
}

/// The item under a key.
pub struct Item(pub CacheItem);

/// The item asked for as a parent.
pub struct Parent(pub CacheItem);

/// The children of an item.
pub struct Children(pub Vec<CacheItem>);

/// A request to the cache.
pub enum CacheRequest {
    Item(AccessiblePrimitive),
    Parent(AccessiblePrimitive),
    Children(AccessiblePrimitive),
    Relation(AccessiblePrimitive, RelationType),
    EventHandler(Box<AccessibilityEvent>),
}

/// The cache's answer to a request.
pub enum CacheResponse {
    Item(Item),
    Parent(Parent),
    Children(Children),
    Relations(Relations),
}

/// An item answer, as a response.
pub open spec fn item_response(r: Result<CacheItem, OdiliaError>) -> Result<CacheResponse, OdiliaError> {
    match r {
        Ok(ci) => Ok(CacheResponse::Item(Item(ci))),
        Err(e) => Err(e),
    }
}

/// A parent answer, as a response.
pub open spec fn parent_response(r: Result<CacheItem, OdiliaError>) -> Result<CacheResponse, OdiliaError> {
    match r {
        Ok(ci) => Ok(CacheResponse::Parent(Parent(ci))),
        Err(e) => Err(e),
    }
}

/// Whether the request's event, if it carries one, can be handled on the items.
pub open spec fn request_allowed(req: CacheRequest, items: Map<(Seq<char>, Seq<char>), CacheItemView>) -> bool {
    match req {
        CacheRequest::EventHandler(ev) => ev.well_formed() && effect_allowed(ev.effect(), items),
        _ => true,
    }
}

impl<D: CacheDriver> Cache<D> {
    /// The children of the item under `key`: the item is got as [`Cache::get_or_create`]
    /// does, then its children as [`Cache::get_or_create_all`] does.
    fn children_of(&mut self, key: &AccessiblePrimitive) -> (r: Result<Vec<CacheItem>, OdiliaError>)
        ensures
            final(self).driver_state() == old(self).driver_state(),
            kept(old(self).items(), final(self).items()),
            r matches Ok(v) ==> final(self).items().dom().contains(key@)
                && v@.len() == final(self).items()[key@].children.len()
                && exists|mid: Map<(Seq<char>, Seq<char>), CacheItemView>|
                kept(old(self).items(), mid) && #[trigger] got_all(
                    final(self).items()[key@].children,
                    mid,
                    final(self).items(),
                    item_views(v@),
                ),
            children_cached(old(self).items(), key@) ==> (r matches Ok(v) && item_views(v@)
                == old(self).items()[key@].children.map_values(
                |k: (Seq<char>, Seq<char>)| old(self).items()[k],
            )),
    {
        let ghost items0 = self.items();
        let ghost apps0 = self.apps();
        let got = self.get_or_create(key);
        proof {
            lemma_created_keeps(items0, apps0, key@, self.items(), self.apps(), got);
        }
        let item = match got {
            Ok(ci) => ci,
            Err(e) => {
                return Err(e);
            },
        };
        let ghost items1 = self.items();
        let ghost ks = keys_view(item.children@);
        assert(items1.dom().contains(key@));
        assert(ks == items1[key@].children);
        proof {
            if children_cached(items0, key@) {
                assert(items1 == items0);
                assert forall|i: int| 0 <= i < item.children@.len() implies #[trigger] items0.dom().contains(
                    item.children@[i]@,
                ) by {
                    assert(ks[i] == item.children@[i]@);
                }
                lemma_cached_in_all_held(ks, items0);
            }
        }
        let children = self.get_or_create_all(item.children);
        match children {
            Ok(v) => {
                assert(got_all(ks, items1, self.items(), item_views(v@)));
                assert(self.items()[key@] == items1[key@]);
                Ok(v)
            },
            Err(e) => Err(e),
        }
    }

    /// The items in the relation `ty` to `key`: the driver lists their keys, and the items
    /// are got as [`Cache::get_or_create_all`] does.
    fn relations_of(&mut self, key: &AccessiblePrimitive, ty: RelationType) -> (r: Result<
        Vec<CacheItem>,
        OdiliaError,
    >)
        ensures
            final(self).driver_state() == old(self).driver_state(),
            kept(old(self).items(), final(self).items()),
            r matches Ok(v) ==> exists|ids: Vec<AccessiblePrimitive>|
                #[trigger] call_ensures(
                    D::lookup_relations,
                    (&old(self).driver_state(), key, ty),
                    Ok::<Vec<AccessiblePrimitive>, OdiliaError>(ids),
                ) && v@.len() == ids@.len() && got_all(
                    keys_view(ids@),
                    old(self).items(),
                    final(self).items(),
                    item_views(v@),
                ),
    {
        let ids = match self.lookup_relations(key, ty) {
            Ok(ids) => ids,
            Err(e) => {
                return Err(e);
            },
        };
        let ghost ks = keys_view(ids@);
        let ghost listed = ids;
        let got = self.get_or_create_all(ids);
        match got {
            Ok(v) => {
                assert(v@.len() == ks.len());
                assert(got_all(ks, old(self).items(), self.items(), item_views(v@)));
                assert(call_ensures(
                    D::lookup_relations,
                    (&old(self).driver_state(), key, ty),
                    Ok::<Vec<AccessiblePrimitive>, OdiliaError>(listed),
                ));
                Ok(v)
            },
            Err(e) => Err(e),
        }
    }

    /// Answer the request: an item (as itself or as a parent), the children of an item, the
    /// items in a relation to an item, or the item an event concerns, after handling it.
    pub fn request(&mut self, req: CacheRequest) -> (r: Result<CacheResponse, OdiliaError>)
        requires
            request_allowed(req, old(self).items()),
        ensures
            final(self).driver_state() == old(self).driver_state(),
            req matches CacheRequest::Item(key) ==> exists|got: Result<CacheItem, OdiliaError>|
                #[trigger] created(
                    old(self).items(),
                    old(self).apps(),
                    key@,
                    final(self).items(),
                    final(self).apps(),
                    got,
                ) && r == item_response(got),
            req matches CacheRequest::Parent(key) ==> exists|got: Result<CacheItem, OdiliaError>|
                #[trigger] created(
                    old(self).items(),
                    old(self).apps(),
                    key@,
                    final(self).items(),
                    final(self).apps(),
                    got,
                ) && r == parent_response(got),
            req matches CacheRequest::Children(key) ==> kept(old(self).items(), final(self).items())
                && (r matches Ok(resp) ==> (resp matches CacheResponse::Children(Children(v))
                && final(self).items().dom().contains(key@)
                && v@.len() == final(self).items()[key@].children.len()
                && exists|mid: Map<(Seq<char>, Seq<char>), CacheItemView>|
                kept(old(self).items(), mid) && #[trigger] got_all(
                    final(self).items()[key@].children,
                    mid,
                    final(self).items(),
                    item_views(v@),
                ))),
            req matches CacheRequest::Children(key) ==> (children_cached(old(self).items(), key@)
                ==> (r matches Ok(resp) && resp matches CacheResponse::Children(Children(v))
                && v@.map_values(|c: CacheItem| c@) == old(self).items()[key@].children.map_values(
                |k: (Seq<char>, Seq<char>)| old(self).items()[k],
            ))),
            req matches CacheRequest::Relation(key, ty) ==> kept(old(self).items(), final(self).items())
                && (r matches Ok(resp) ==> (resp matches CacheResponse::Relations(Relations(t, v))
                && t == ty && exists|ids: Vec<AccessiblePrimitive>|
                #[trigger] call_ensures(
                    D::lookup_relations,
                    (&old(self).driver_state(), &key, ty),
                    Ok::<Vec<AccessiblePrimitive>, OdiliaError>(ids),
                ) && v@.len() == ids@.len() && got_all(
                    keys_view(ids@),
                    old(self).items(),
                    final(self).items(),
                    item_views(v@),
                ))),
            req matches CacheRequest::EventHandler(ev) ==> exists|got: Result<CacheItem, OdiliaError>|
                #[trigger] effect_outcome(
                    ev.effect(),
                    old(self).items(),
                    old(self).apps(),
                    final(self).items(),
                    final(self).apps(),
                    got,
                ) && r == item_response(got),
    {
        match req {
            CacheRequest::Item(key) => {
                let got = self.get_or_create(&key);
                match got {
                    Ok(ci) => Ok(CacheResponse::Item(Item(ci))),
                    Err(e) => Err(e),
                }
            },
            CacheRequest::Parent(key) => {
                let got = self.get_or_create(&key);
                match got {
                    Ok(ci) => Ok(CacheResponse::Parent(Parent(ci))),
                    Err(e) => Err(e),
                }
            },
            CacheRequest::Children(key) => {
                match self.children_of(&key) {
                    Ok(v) => Ok(CacheResponse::Children(Children(v))),
                    Err(e) => Err(e),
                }
            },
            CacheRequest::Relation(key, ty) => {
                match self.relations_of(&key, ty) {
                    Ok(v) => {
                        let res: Result<CacheResponse, OdiliaError> = Ok(
                            CacheResponse::Relations(Relations(ty, v)),
                        );
                        assert(res matches Ok(CacheResponse::Relations(Relations(t, w))) && w == v
                            && t == ty);
                        res
                    },
                    Err(e) => Err(e),
                }
            },
            CacheRequest::EventHandler(event) => {
                let got = (*event).handle_event(self);
                match got {
                    Ok(ci) => Ok(CacheResponse::Item(Item(ci))),
                    Err(e) => Err(e),
                }
            },
        }
    }
}

} // verus!
