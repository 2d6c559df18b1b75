use atspi_common::Role;
use odilia::events::{ChangeMode, Direction, StopSpeech, StructuralNavigation};
use odilia::keyboard::{ComboSet, ComboSets, KeySet, SetError};
use odilia::keys::Key;
use odilia::modes::ScreenReaderMode as Mode;

fn keys(ks: &[Key]) -> KeySet {
    let mut s = KeySet::new();
    for k in ks {
        s.insert(*k).unwrap();
    }
    s
}

#[test]
fn keyset_insert_refuses_repeats_and_activation_key() {
    let mut ks = KeySet::new();
    assert!(ks.insert(Key::ShiftLeft).is_ok());
    assert!(ks.insert(Key::KeyA).is_ok());
    assert!(ks.insert(Key::KeyL).is_ok());
    assert!(ks.insert(Key::KeyA).is_err());
    assert!(ks.insert(Key::CapsLock).is_err());
}

#[test]
fn comboset_insert_accepts_orders_of_the_same_keys() {
    let ks1 = keys(&[Key::ShiftLeft, Key::KeyA]);
    let ks2 = keys(&[Key::ControlLeft, Key::KeyA]);
    let ks3 = keys(&[Key::ShiftLeft, Key::ControlLeft, Key::KeyA]);
    let ks4 = keys(&[Key::ControlLeft, Key::ShiftLeft, Key::KeyA]);
    let mut cs1 = ComboSet::new();
    assert!(cs1.insert(ks1, StopSpeech.into()).is_ok());
    assert!(cs1.insert(ks2, StructuralNavigation(Direction::Forward, Role::Link).into()).is_ok());
    assert!(cs1.insert(ks3, ChangeMode(Mode::Focus).into()).is_ok());
    assert!(cs1.insert(ks4, ChangeMode(Mode::Browse).into()).is_ok());
}

#[test]
fn combosets_insert_needs_a_reachable_mode() {
    let ks1 = keys(&[Key::ShiftLeft, Key::KeyA]);
    let ks2 = keys(&[Key::ControlLeft, Key::KeyA]);
    let ks3 = keys(&[Key::ShiftLeft, Key::ControlLeft, Key::KeyA]);
    let ks4 = keys(&[Key::ControlLeft, Key::ShiftLeft, Key::KeyA]);
    let mut cs1 = ComboSet::new();
    cs1.insert(ks1, StopSpeech.into()).unwrap();
    let mut cs2 = ComboSet::new();
    cs2.insert(ks2, StructuralNavigation(Direction::Forward, Role::Link).into()).unwrap();
    let mut cs3 = ComboSet::new();
    cs3.insert(ks3, ChangeMode(Mode::Focus).into()).unwrap();
    cs3.insert(ks4, ChangeMode(Mode::Browse).into()).unwrap();
    let mut css = ComboSets::new();
    assert!(css.insert(None, cs1).is_ok());
    assert_eq!(css.insert(Some(Mode::Focus), cs2.clone()), Err(SetError::UnreachableMode(Mode::Focus)));
    assert!(css.insert(None, cs3).is_ok());
    assert!(css.insert(Some(Mode::Focus), cs2).is_ok());
}

#[test]
fn combosets_insert_errors() {
    let a = keys(&[Key::KeyA]);
    let ab = keys(&[Key::KeyA, Key::KeyB]);
    let mut global = ComboSet::new();
    global.insert(a.clone(), ChangeMode(Mode::Browse).into()).unwrap();
    let mut css = ComboSets::new();
    css.insert(None, global).unwrap();
    let mut same = ComboSet::new();
    same.insert(a.clone(), StopSpeech.into()).unwrap();
    assert_eq!(
        css.insert(Some(Mode::Browse), same),
        Err(SetError::IdenticalCombo { mode: Some(Mode::Browse), set: a.clone() })
    );
    let mut longer = ComboSet::new();
    longer.insert(ab.clone(), StopSpeech.into()).unwrap();
    assert_eq!(
        css.insert(None, longer),
        Err(SetError::SamePrefixCombo { original: (None, a.clone()), attempted: (None, ab) })
    );
    let mut empty = ComboSet::new();
    empty.insert(KeySet::new(), StopSpeech.into()).unwrap();
    assert_eq!(css.insert(None, empty), Err(SetError::UnpressableKey));
}
