use odilia::events::{ChangeMode, ScreenReaderEvent, StopSpeech};
use odilia::keyboard::{callback, ComboError, ComboSet, ComboSets, KeySet, KeySetError, SetError, State};
use odilia::keys::{Event, EventType, Key};
use odilia::modes::ScreenReaderMode as Mode;
use std::cmp::Ordering;

fn new_unbounded() -> State {
    State {
        activation_key_pressed: false,
        mode: Mode::Focus,
        // handle up to 10 key presses without allocation
        pressed: Vec::with_capacity(10),
        combos: ComboSets::new(),
        outbox: Vec::new(),
    }
}

#[test]
fn test_unreachable_mode() {
    let core_combos = ComboSet::try_from_iter(vec![(
        vec![Key::KeyA].try_into().unwrap(),
        ChangeMode(Mode::Browse).into(),
    )])
    .unwrap();
    let focus_combos =
        ComboSet::try_from_iter(vec![(vec![Key::KeyP].try_into().unwrap(), StopSpeech.into())])
            .unwrap();
    let combos = ComboSets::try_from([(None, core_combos), (Some(Mode::Focus), focus_combos)]);
    assert_eq!(
        combos,
        Err(SetError::UnreachableMode(Mode::Focus)),
        "It should not be possible to construct the ComboSet when there is no way to activate that mode!"
    );
}

#[test]
fn create_keybindings_same_mode_same_prefix() {
    let core_combos = ComboSet::try_from_iter(vec![
        (vec![Key::ShiftLeft, Key::KeyA].try_into().unwrap(), ChangeMode(Mode::Browse).into()),
        (vec![Key::ShiftLeft, Key::KeyP].try_into().unwrap(), ChangeMode(Mode::Browse).into()),
    ])
    .unwrap();
    ComboSets::try_from([(None, core_combos)])
        .expect("Able to construct two bindings with the same prefix!");
}

#[test]
fn two_bindings_same_keys() {
    let shift_plus_a: KeySet = vec![Key::ShiftLeft, Key::KeyA].try_into().unwrap();
    let core_combos = ComboSet::try_from(vec![
        (shift_plus_a.clone(), ChangeMode(Mode::Browse).into()),
        (shift_plus_a.clone(), ChangeMode(Mode::Focus).into()),
    ]);
    assert_eq!(
        core_combos,
        Err(ComboError::Identical(shift_plus_a)),
        "You should not be able to construct two key bindings in the same mode with identical keystrokes!"
    );
}

#[test]
fn forever_repeating_key_problem() {
    // Consuming a key release that was pressed before the activation key causes applications to
    // believe the g key is held down forever.
    let press_g = Event::from_event_type(EventType::KeyPress(Key::KeyG));
    let release_g = Event::from_event_type(EventType::KeyRelease(Key::KeyG));
    let press_caps = Event::from_event_type(EventType::KeyPress(Key::CapsLock));
    let release_caps = Event::from_event_type(EventType::KeyRelease(Key::CapsLock));
    let events = [
        press_caps.clone(),
        press_g.clone(),
        release_caps.clone(),
        release_g.clone(),
        press_g.clone(),
        press_caps.clone(),
        release_g.clone(),
        release_caps.clone(),
    ];
    let correct_return_values = [
        None,
        None,
        None,
        None,
        Some(press_g.clone()),
        None,
        Some(release_g.clone()),
        None,
    ];
    let g: KeySet = vec![Key::KeyG].try_into().unwrap();
    let core_combos = ComboSet::try_from(vec![(g, StopSpeech.into())]).expect("Valid comboset!");
    let cs = ComboSets::try_from([(None, core_combos)]).expect("Valid combosets!");
    let mut state = new_unbounded();
    state.combos = cs;
    for (i, (ev, correct)) in events.into_iter().zip(correct_return_values.into_iter()).enumerate() {
        let val = callback(ev, &mut state);
        assert_eq!(val, correct, "Failed on action [{i}]!");
    }
}

#[test]
fn default_combosets_no_panic() {
    let _ = ComboSets::default();
}

#[test]
fn combo_queues_its_event() {
    let g: KeySet = vec![Key::KeyG].try_into().unwrap();
    let core_combos = ComboSet::try_from(vec![(g, StopSpeech.into())]).unwrap();
    let mut state = new_unbounded();
    state.combos = ComboSets::try_from([(None, core_combos)]).unwrap();
    let steps = [
        EventType::KeyPress(Key::CapsLock),
        EventType::KeyPress(Key::KeyG),
        EventType::KeyRelease(Key::KeyG),
        EventType::KeyRelease(Key::CapsLock),
    ];
    for s in steps {
        assert_eq!(callback(Event::from_event_type(s), &mut state), None);
    }
    assert_eq!(state.outbox, vec![ScreenReaderEvent::StopSpeech(StopSpeech)]);
    assert!(!state.activation_key_pressed);
}

#[test]
fn pointer_events_pass_through() {
    let mut state = new_unbounded();
    let ev = Event::from_event_type(EventType::ButtonPress(odilia::keys::Button::Left));
    assert_eq!(callback(ev.clone(), &mut state), Some(ev));
}

#[test]
fn keyset_errors() {
    let r: Result<KeySet, KeySetError> = vec![Key::KeyA, Key::KeyA].try_into();
    assert_eq!(r, Err(KeySetError::AlreadyContains(Key::KeyA)));
    let r: Result<KeySet, KeySetError> = vec![Key::CapsLock].try_into();
    assert_eq!(r, Err(KeySetError::ActivationKey));
}

#[test]
fn same_prefix_combo_is_refused() {
    let a: KeySet = vec![Key::KeyA].try_into().unwrap();
    let ab: KeySet = vec![Key::KeyA, Key::KeyB].try_into().unwrap();
    let r = ComboSet::try_from(vec![(a.clone(), StopSpeech.into()), (ab.clone(), StopSpeech.into())]);
    assert_eq!(r, Err(ComboError::SamePrefix { original: a, new: ab }));
}

#[test]
fn keyset_order_is_lexicographic() {
    let a: KeySet = vec![Key::KeyA].try_into().unwrap();
    let ab: KeySet = vec![Key::KeyA, Key::KeyB].try_into().unwrap();
    let b: KeySet = vec![Key::KeyB].try_into().unwrap();
    assert_eq!(a.cmp(&ab), Ordering::Less);
    assert_eq!(ab.cmp(&b), Ordering::Less);
    assert_eq!(b.cmp(&a), Ordering::Greater);
    assert_eq!(ab.cmp(&ab.clone()), Ordering::Equal);
    assert!(a < b);
}
