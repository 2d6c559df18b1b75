use atspi_common::{RelationType, Role};
use odilia::accessible::AccessiblePrimitive;
use odilia::cache::{Cache, CacheDriver, Modification};
use odilia::cache_item::{AnnouncedItem, CacheItem, LegacyAnnouncedItem, Operation};
use odilia::errors::{CacheError, OdiliaError};
use odilia::event_handlers::{
    AccessibilityEvent, CacheEvents, CacheRequest, CacheResponse, ChildrenChangedEvent,
    EventHandler, FocusEvent, ItemEvent, ObjectEvents, PropertyChangeEvent, Property,
    RemoveAccessibleEvent, StateChangedEvent, TextChangedEvent, AddAccessibleEvent,
    LegacyAddAccessibleEvent, LoadCompleteEvent,
};
use odilia::interfaces::InterfaceSet;
use odilia::states::{StateSet, FOCUSED};

fn key(sender: &str, id: &str) -> AccessiblePrimitive {
    AccessiblePrimitive::from_event(sender, id)
}

fn item(sender: &str, id: &str, text: Option<&str>) -> CacheItem {
    CacheItem {
        object: key(sender, id),
        app: key(sender, "/org/a11y/atspi/accessible/root"),
        parent: key(sender, "/org/a11y/atspi/accessible/root"),
        index: Some(0),
        children_num: Some(0),
        interfaces: InterfaceSet::empty(),
        role: Role::Label,
        states: StateSet::empty(),
        children: Vec::new(),
        name: None,
        description: None,
        help_text: None,
        text: text.map(|t| t.to_string()),
    }
}

/// A driver with a fixed set of answers.
struct Fixed {
    single: Vec<CacheItem>,
    bulk: Result<Vec<CacheItem>, ()>,
    relations: Vec<AccessiblePrimitive>,
}

impl CacheDriver for Fixed {
    fn lookup_external(&self, key: &AccessiblePrimitive) -> Result<CacheItem, OdiliaError> {
        self.single
            .iter()
            .find(|ci| ci.object == *key)
            .cloned()
            .ok_or(OdiliaError::Cache(CacheError::NoItem))
    }
    fn lookup_bulk(&self, _key: &AccessiblePrimitive) -> Result<Vec<CacheItem>, OdiliaError> {
        match &self.bulk {
            Ok(v) => Ok(v.clone()),
            Err(()) => Err(OdiliaError::Generic("bus down".to_string())),
        }
    }
    fn lookup_relations(
        &self,
        _key: &AccessiblePrimitive,
        _ty: RelationType,
    ) -> Result<Vec<AccessiblePrimitive>, OdiliaError> {
        Ok(self.relations.clone())
    }
    fn lookup_from_cache_item(&self, ci: AnnouncedItem) -> Result<CacheItem, OdiliaError> {
        Ok(CacheItem::from_announced(ci, "described".to_string(), String::new(), None, Vec::new()))
    }
    fn lookup_from_legacy_cache_item(&self, ci: LegacyAnnouncedItem) -> Result<CacheItem, OdiliaError> {
        Ok(CacheItem::from_legacy_announced(ci, String::new(), String::new(), Some(String::new()), 2))
    }
}

fn empty_driver() -> Fixed {
    Fixed { single: Vec::new(), bulk: Err(()), relations: Vec::new() }
}

#[test]
fn cache_add_then_get_and_no_overwrite() {
    let mut cache = Cache::new(empty_driver());
    let back = cache.add(item(":1.1", "/a", Some("first")));
    assert_eq!(back.text.as_deref(), Some("first"));
    assert_eq!(cache.get(&key(":1.1", "/a")).unwrap().text.as_deref(), Some("first"));
    // a second store under the same key leaves the first item in place
    cache.add(item(":1.1", "/a", Some("second")));
    assert_eq!(cache.get(&key(":1.1", "/a")).unwrap().text.as_deref(), Some("first"));
    assert!(cache.get(&key(":1.1", "/b")).is_none());
}

#[test]
fn cache_remove_then_get() {
    let mut cache = Cache::new(empty_driver());
    cache.add(item(":1.1", "/a", None));
    cache.add(item(":1.1", "/b", None));
    let removed = cache.remove(&key(":1.1", "/a")).unwrap();
    assert_eq!(removed.object, key(":1.1", "/a"));
    assert!(cache.get(&key(":1.1", "/a")).is_none());
    assert!(cache.get(&key(":1.1", "/b")).is_some());
    assert!(cache.remove(&key(":1.1", "/a")).is_none());
}

#[test]
fn cache_get_all_remove_all_add_all() {
    let mut cache = Cache::new(empty_driver());
    let added = cache.add_all(vec![item(":1.1", "/a", None), item(":1.1", "/b", None)]);
    assert_eq!(added.len(), 2);
    let got = cache.get_all(&[key(":1.1", "/b"), key(":1.1", "/c"), key(":1.1", "/a")]);
    assert_eq!(got.len(), 3);
    assert_eq!(got[0].as_ref().unwrap().object, key(":1.1", "/b"));
    assert!(got[1].is_none());
    assert_eq!(got[2].as_ref().unwrap().object, key(":1.1", "/a"));
    cache.remove_all(&[key(":1.1", "/a"), key(":1.1", "/b")]);
    assert!(cache.get(&key(":1.1", "/a")).is_none());
    assert!(cache.get(&key(":1.1", "/b")).is_none());
}

#[test]
fn get_or_create_returns_cached_item() {
    let mut cache = Cache::new(empty_driver());
    cache.add(item(":1.1", "/a", Some("cached")));
    let got = cache.get_or_create(&key(":1.1", "/a")).unwrap();
    assert_eq!(got.text.as_deref(), Some("cached"));
}

#[test]
fn get_or_create_prefetches_new_application() {
    let driver = Fixed {
        single: Vec::new(),
        bulk: Ok(vec![item(":1.9", "/first", Some("one")), item(":1.9", "/second", Some("two"))]),
        relations: Vec::new(),
    };
    let mut cache = Cache::new(driver);
    let got = cache.get_or_create(&key(":1.9", "/second")).unwrap();
    // the whole answer is stored, each item under its own key
    assert_eq!(got.text.as_deref(), Some("two"));
    assert_eq!(cache.get(&key(":1.9", "/first")).unwrap().text.as_deref(), Some("one"));
    assert_eq!(cache.get(&key(":1.9", "/second")).unwrap().text.as_deref(), Some("two"));
}

#[test]
fn prefetch_without_the_asked_item_is_no_item() {
    let driver = Fixed {
        single: Vec::new(),
        bulk: Ok(vec![item(":1.9", "/first", Some("one"))]),
        relations: Vec::new(),
    };
    let mut cache = Cache::new(driver);
    let r = cache.get_or_create(&key(":1.9", "/x"));
    assert!(matches!(r, Err(OdiliaError::Cache(CacheError::NoItem))));
    assert_eq!(cache.get(&key(":1.9", "/first")).unwrap().text.as_deref(), Some("one"));
    assert!(cache.get(&key(":1.9", "/x")).is_none());
}

#[test]
fn prefetched_keeps_items_held_before() {
    let mut cache = Cache::new(empty_driver());
    cache.add(item(":1.9", "/first", Some("old")));
    let r = cache
        .prefetched(&key(":1.9", "/first"), Ok(vec![item(":1.9", "/first", Some("new"))]))
        .unwrap();
    assert_eq!(r.text.as_deref(), Some("old"));
}

#[test]
fn get_or_create_looks_up_in_known_application() {
    let driver = Fixed {
        single: vec![item(":1.1", "/new", Some("looked up"))],
        bulk: Err(()),
        relations: Vec::new(),
    };
    let mut cache = Cache::new(driver);
    cache.add(item(":1.1", "/a", None));
    let got = cache.get_or_create(&key(":1.1", "/new")).unwrap();
    assert_eq!(got.text.as_deref(), Some("looked up"));
    assert_eq!(cache.get(&key(":1.1", "/new")).unwrap().text.as_deref(), Some("looked up"));
}

#[test]
fn driver_errors_pass_through() {
    let mut cache = Cache::new(empty_driver());
    let r = cache.get_or_create(&key(":1.3", "/x"));
    assert!(matches!(r, Err(OdiliaError::Generic(ref m)) if m == "bus down"));
    assert!(cache.get(&key(":1.3", "/x")).is_none());
}

#[test]
fn empty_bulk_answer_is_no_item() {
    let mut cache = Cache::new(empty_driver());
    let r = cache.prefetched(&key(":1.4", "/x"), Ok(Vec::new()));
    assert!(matches!(r, Err(OdiliaError::Cache(CacheError::NoItem))));
}

#[test]
fn looked_up_stores_the_item() {
    let mut cache = Cache::new(empty_driver());
    let r = cache.looked_up(&key(":1.4", "/x"), Ok(item(":1.4", "/y", Some("t")))).unwrap();
    assert_eq!(r.object, key(":1.4", "/y"));
    assert_eq!(cache.get(&key(":1.4", "/x")).unwrap().object, key(":1.4", "/y"));
}

fn text_event(op: Operation, start: i32, length: i32, text: &str) -> TextChangedEvent {
    TextChangedEvent { item: key(":1.1", "/t"), operation: op, start_pos: start, length, text: text.to_string() }
}

#[test]
fn text_insert_and_delete_by_byte_offset() {
    let mut cache = Cache::new(empty_driver());
    cache.add(item(":1.1", "/t", Some("héllo")));
    // 'h' starts at byte 0, 'é' at 1 (two bytes), 'l' at 3
    let r = text_event(Operation::Insert, 3, 1, "X").handle_event(&mut cache).unwrap();
    assert_eq!(r.text.as_deref(), Some("héXllo"));
    let r = text_event(Operation::Delete, 1, 2, "").handle_event(&mut cache).unwrap();
    assert_eq!(r.text.as_deref(), Some("hXllo"));
    assert_eq!(cache.get(&key(":1.1", "/t")).unwrap().text.as_deref(), Some("hXllo"));
}

#[test]
fn text_insert_then_delete_gives_text_back() {
    let mut cache = Cache::new(empty_driver());
    cache.add(item(":1.1", "/t", Some("añb")));
    text_event(Operation::Insert, 1, 0, "éé").handle_event(&mut cache).unwrap();
    assert_eq!(cache.get(&key(":1.1", "/t")).unwrap().text.as_deref(), Some("aééñb"));
    let r = text_event(Operation::Delete, 1, 4, "").handle_event(&mut cache).unwrap();
    assert_eq!(r.text.as_deref(), Some("añb"));
}

#[test]
fn text_on_item_without_text() {
    let mut cache = Cache::new(empty_driver());
    cache.add(item(":1.1", "/t", None));
    let r = text_event(Operation::Delete, 0, 3, "").handle_event(&mut cache).unwrap();
    assert_eq!(r.text, None);
    let r = text_event(Operation::Insert, 5, 3, "new").handle_event(&mut cache).unwrap();
    assert_eq!(r.text.as_deref(), Some("new"));
}

#[test]
fn children_insert_and_remove() {
    let mut cache = Cache::new(empty_driver());
    let mut parent = item(":1.1", "/p", None);
    parent.children = vec![key(":1.1", "/c1")];
    cache.add(parent);
    let ev = ChildrenChangedEvent {
        item: key(":1.1", "/p"),
        operation: Operation::Insert,
        index_in_parent: 0,
        child: key(":1.1", "/c0"),
    };
    let r = ev.handle_event(&mut cache).unwrap();
    assert_eq!(r.children, vec![key(":1.1", "/c0"), key(":1.1", "/c1")]);
    let ev = ChildrenChangedEvent {
        item: key(":1.1", "/p"),
        operation: Operation::Delete,
        index_in_parent: 1,
        child: key(":1.1", "/c1"),
    };
    let r = ev.handle_event(&mut cache).unwrap();
    assert_eq!(r.children, vec![key(":1.1", "/c0")]);
}

#[test]
fn state_change_and_focus() {
    assert_eq!(FOCUSED, atspi_common::State::Focused as u64);
    let mut cache = Cache::new(empty_driver());
    cache.add(item(":1.1", "/s", None));
    let checked = atspi_common::State::Checked as u64;
    let ev = StateChangedEvent { item: key(":1.1", "/s"), state: checked, enabled: true };
    let r = ev.handle_event(&mut cache).unwrap();
    assert_eq!(r.states.bits(), checked);
    let r = FocusEvent { item: key(":1.1", "/s") }.handle_event(&mut cache).unwrap();
    assert_eq!(r.states.bits(), checked | FOCUSED);
    let ev = StateChangedEvent { item: key(":1.1", "/s"), state: checked, enabled: false };
    let r = ev.handle_event(&mut cache).unwrap();
    assert_eq!(r.states.bits(), FOCUSED);
}

#[test]
fn property_change() {
    let mut cache = Cache::new(empty_driver());
    cache.add(item(":1.1", "/p", None));
    let ev = PropertyChangeEvent { item: key(":1.1", "/p"), value: Property::Name("OK".to_string()) };
    let r = ev.handle_event(&mut cache).unwrap();
    assert_eq!(r.name.as_deref(), Some("OK"));
    let ev = PropertyChangeEvent { item: key(":1.1", "/p"), value: Property::Role(Role::Button) };
    let r = ev.handle_event(&mut cache).unwrap();
    assert_eq!(r.role, Role::Button);
    let ev = PropertyChangeEvent { item: key(":1.1", "/p"), value: Property::Other };
    let r = ev.handle_event(&mut cache).unwrap();
    assert_eq!(r.name.as_deref(), Some("OK"));
}

#[test]
fn modify_uncached_item_fetches_it() {
    let mut cache = Cache::new(empty_driver());
    let r = cache.modify_if_not_new(&key(":1.2", "/q"), Modification::Focus);
    assert!(r.is_err());
}

#[test]
fn remove_event_of_missing_item() {
    let mut cache = Cache::new(empty_driver());
    let r = RemoveAccessibleEvent { item: key(":1.1", "/gone") }.handle_event(&mut cache);
    assert!(matches!(r, Err(OdiliaError::Cache(CacheError::NoItem))));
    cache.add(item(":1.1", "/here", None));
    let ev = AccessibilityEvent::Cache(CacheEvents::Remove(RemoveAccessibleEvent { item: key(":1.1", "/here") }));
    let r = ev.handle_event(&mut cache).unwrap();
    assert_eq!(r.object, key(":1.1", "/here"));
    assert!(cache.get(&key(":1.1", "/here")).is_none());
}

#[test]
fn unhandled_event_message() {
    let mut cache = Cache::new(empty_driver());
    let r = AccessibilityEvent::Other("Focus(x)".to_string()).handle_event(&mut cache);
    assert!(matches!(r, Err(OdiliaError::Generic(ref m)) if m == "Unable to handle event: Focus(x)"));
}

#[test]
fn item_event_fetches_and_add_events_complete_items() {
    let mut cache = Cache::new(empty_driver());
    cache.add(item(":1.1", "/i", Some("kept")));
    let ev = AccessibilityEvent::Object(ObjectEvents::BoundsChanged(ItemEvent { item: key(":1.1", "/i") }));
    assert_eq!(ev.handle_event(&mut cache).unwrap().text.as_deref(), Some("kept"));
    let announced = AnnouncedItem {
        object: key(":1.5", "/n"),
        app: key(":1.5", "/root"),
        parent: key(":1.5", "/root"),
        index: -1,
        children: 3,
        ifaces: InterfaceSet::empty(),
        short_name: String::new(),
        role: Role::Label,
        name: "long".to_string(),
        states: StateSet::empty(),
    };
    let r = AddAccessibleEvent { node_added: announced }.handle_event(&mut cache).unwrap();
    assert_eq!(r.index, None);
    assert_eq!(r.children_num, Some(3));
    assert_eq!(r.name, None);
    assert_eq!(r.description.as_deref(), Some("described"));
    assert!(cache.get(&key(":1.5", "/n")).is_some());
    let legacy = LegacyAnnouncedItem {
        object: key(":1.6", "/l"),
        app: key(":1.6", "/root"),
        parent: key(":1.6", "/root"),
        children: vec![key(":1.6", "/c")],
        ifaces: InterfaceSet::empty(),
        short_name: String::new(),
        role: Role::Label,
        name: "legacy".to_string(),
        states: StateSet::empty(),
    };
    let r = LegacyAddAccessibleEvent { node_added: legacy }.handle_event(&mut cache).unwrap();
    assert_eq!(r.index, Some(2));
    assert_eq!(r.children_num, Some(1));
    assert_eq!(r.name.as_deref(), Some("legacy"));
    assert_eq!(r.text, None);
}

#[test]
fn load_complete_prefetches() {
    let driver = Fixed {
        single: Vec::new(),
        bulk: Ok(vec![item(":1.7", "/doc", Some("page"))]),
        relations: Vec::new(),
    };
    let mut cache = Cache::new(driver);
    let r = LoadCompleteEvent { item: key(":1.7", "/doc") }.handle_event(&mut cache).unwrap();
    assert_eq!(r.text.as_deref(), Some("page"));
}

#[test]
fn requests() {
    let driver = Fixed {
        single: vec![item(":1.1", "/c1", Some("child"))],
        bulk: Err(()),
        relations: vec![key(":1.1", "/a")],
    };
    let mut cache = Cache::new(driver);
    let mut parent = item(":1.1", "/a", Some("parent"));
    parent.children = vec![key(":1.1", "/c1")];
    cache.add(parent);
    match cache.request(CacheRequest::Item(key(":1.1", "/a"))).unwrap() {
        CacheResponse::Item(i) => assert_eq!(i.0.text.as_deref(), Some("parent")),
        _ => panic!("wrong response"),
    }
    match cache.request(CacheRequest::Parent(key(":1.1", "/a"))).unwrap() {
        CacheResponse::Parent(p) => assert_eq!(p.0.object, key(":1.1", "/a")),
        _ => panic!("wrong response"),
    }
    match cache.request(CacheRequest::Children(key(":1.1", "/a"))).unwrap() {
        CacheResponse::Children(c) => {
            assert_eq!(c.0.len(), 1);
            assert_eq!(c.0[0].text.as_deref(), Some("child"));
        }
        _ => panic!("wrong response"),
    }
    match cache.request(CacheRequest::Relation(key(":1.1", "/c1"), RelationType::LabelledBy)).unwrap() {
        CacheResponse::Relations(r) => {
            assert_eq!(r.0, RelationType::LabelledBy);
            assert_eq!(r.1.len(), 1);
            assert_eq!(r.1[0].object, key(":1.1", "/a"));
        }
        _ => panic!("wrong response"),
    }
    let ev = AccessibilityEvent::Other("x".to_string());
    assert!(cache.request(CacheRequest::EventHandler(Box::new(ev))).is_err());
}

#[test]
fn child_insert_then_remove_gives_item_back() {
    let mut cache = Cache::new(empty_driver());
    let mut parent = item(":1.1", "/p", None);
    parent.children = vec![key(":1.1", "/a"), key(":1.1", "/b")];
    cache.add(parent);
    let insert = ChildrenChangedEvent {
        item: key(":1.1", "/p"),
        operation: Operation::Insert,
        index_in_parent: 1,
        child: key(":1.1", "/new"),
    };
    let r = insert.handle_event(&mut cache).unwrap();
    assert_eq!(r.children, vec![key(":1.1", "/a"), key(":1.1", "/new"), key(":1.1", "/b")]);
    let remove = ChildrenChangedEvent {
        item: key(":1.1", "/p"),
        operation: Operation::Delete,
        index_in_parent: 1,
        child: key(":1.1", "/new"),
    };
    let r = remove.handle_event(&mut cache).unwrap();
    assert_eq!(r.children, vec![key(":1.1", "/a"), key(":1.1", "/b")]);
}

#[test]
fn get_or_create_twice_gives_the_same_item() {
    let driver = Fixed {
        single: vec![item(":1.1", "/x", Some("once"))],
        bulk: Ok(vec![item(":1.1", "/first", Some("bulk")), item(":1.1", "/x", Some("bulk x"))]),
        relations: Vec::new(),
    };
    let mut cache = Cache::new(driver);
    let first = cache.get_or_create(&key(":1.1", "/x")).unwrap();
    assert_eq!(first.text.as_deref(), Some("bulk x"));
    let second = cache.get_or_create(&key(":1.1", "/x")).unwrap();
    assert_eq!(first.text, second.text);
    assert_eq!(first.object, second.object);
}

#[test]
fn get_or_create_all_gives_cached_items_in_key_order() {
    let mut cache = Cache::new(empty_driver());
    cache.add(item(":1.1", "/a", Some("a")));
    cache.add(item(":1.1", "/b", Some("b")));
    let r = cache.get_or_create_all(vec![key(":1.1", "/b"), key(":1.1", "/a")]).unwrap();
    let texts: Vec<Option<String>> = r.iter().map(|c| c.text.clone()).collect();
    assert_eq!(texts, vec![Some("b".to_string()), Some("a".to_string())]);
    assert!(cache.get_or_create_all(Vec::new()).unwrap().is_empty());
}

#[test]
fn get_or_create_all_passes_driver_error_on() {
    let mut cache = Cache::new(empty_driver());
    cache.add(item(":1.1", "/a", Some("a")));
    let r = cache.get_or_create_all(vec![key(":1.1", "/a"), key(":1.9", "/z")]);
    assert!(matches!(r, Err(OdiliaError::Generic(ref m)) if m == "bus down"));
    assert_eq!(cache.get(&key(":1.1", "/a")).unwrap().text.as_deref(), Some("a"));
}

#[test]
fn get_or_create_all_puts_fetched_items_after_cached_ones() {
    let driver = Fixed {
        single: vec![item(":1.1", "/n1", Some("n1")), item(":1.1", "/n2", Some("n2"))],
        bulk: Err(()),
        relations: Vec::new(),
    };
    let mut cache = Cache::new(driver);
    cache.add(item(":1.1", "/a", Some("a")));
    let r = cache
        .get_or_create_all(vec![key(":1.1", "/n2"), key(":1.1", "/a"), key(":1.1", "/n1")])
        .unwrap();
    let texts: Vec<Option<&str>> = r.iter().map(|c| c.text.as_deref()).collect();
    assert_eq!(texts, vec![Some("a"), Some("n2"), Some("n1")]);
    assert_eq!(cache.get(&key(":1.1", "/n1")).unwrap().text.as_deref(), Some("n1"));
    assert_eq!(cache.get(&key(":1.1", "/n2")).unwrap().text.as_deref(), Some("n2"));
}

#[test]
fn children_request_with_everything_cached() {
    let mut cache = Cache::new(empty_driver());
    let mut parent = item(":1.1", "/p", None);
    parent.children = vec![key(":1.1", "/y"), key(":1.1", "/x")];
    cache.add(parent);
    cache.add(item(":1.1", "/x", Some("x")));
    cache.add(item(":1.1", "/y", Some("y")));
    match cache.request(CacheRequest::Children(key(":1.1", "/p"))).unwrap() {
        CacheResponse::Children(c) => {
            let texts: Vec<Option<&str>> = c.0.iter().map(|i| i.text.as_deref()).collect();
            assert_eq!(texts, vec![Some("y"), Some("x")]);
        }
        _ => panic!("wrong response"),
    }
}
