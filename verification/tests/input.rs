use odilia::input::{
    get_consume_strip, get_mode_strip, Key, KeyBinding, KeyFromStrError, Modifiers,
};
use odilia::modes::ScreenReaderMode;

#[test]
fn parse_key_binding() {
    // simple
    let kb: KeyBinding = "Odilia+h".parse().unwrap();
    println!("{:?}", kb);
    assert_eq!(kb.key, Some(Key::Other('h')));
    assert_eq!(kb.mods, Modifiers::ODILIA());
    assert_eq!(kb.repeat, 1);
    // With whitespace
    let kb: KeyBinding = "Odilia + h".parse().unwrap();
    assert_eq!(kb.key, Some(Key::Other('h')));
    assert_eq!(kb.mods, Modifiers::ODILIA());
    assert_eq!(kb.repeat, 1);
    // Complex
    let kb: KeyBinding = "Control+Shift+Alt+Meta+Applications+Odilia+Return:3".parse().unwrap();
    assert_eq!(kb.key, Some(Key::Return));
    assert_eq!(kb.mods, Modifiers::all());
    assert_eq!(kb.repeat, 3);
    // Left only
    let kb: KeyBinding = "LeftControl+LeftShift+LeftAlt+LeftMeta+.:2".parse().unwrap();
    assert_eq!(kb.key, Some(Key::Other('.')));
    assert_eq!(
        kb.mods,
        Modifiers::CONTROL_L() | Modifiers::ALT_L() | Modifiers::SHIFT_L() | Modifiers::META_L()
    );
    assert_eq!(kb.repeat, 2);
    let kb: KeyBinding = "RightControl+RightShift+RightAlt+RightMeta+.:2".parse().unwrap();
    assert_eq!(kb.key, Some(Key::Other('.')));
    assert_eq!(
        kb.mods,
        Modifiers::CONTROL_R() | Modifiers::ALT_R() | Modifiers::SHIFT_R() | Modifiers::META_R()
    );
    assert_eq!(kb.repeat, 2);
    assert_eq!(kb.consume, false);
    // test consume
    let kb: KeyBinding = "C|Odilia+h".parse().unwrap();
    assert_eq!(kb.consume, true);
    assert_eq!(kb.notify, true);
}

#[test]
fn key_binding_errors() {
    assert!(matches!("".parse::<KeyBinding>(), Err(KeyFromStrError::EmptyKey)));
    assert!(matches!("Odilia+h:x".parse::<KeyBinding>(), Err(KeyFromStrError::InvalidRepeat(_))));
    assert!(matches!("Hyper+h".parse::<KeyBinding>(), Err(KeyFromStrError::InvalidModifier(_))));
    assert!(matches!("Odilia+".parse::<KeyBinding>(), Err(KeyFromStrError::EmptyKey)));
}

#[test]
fn key_names() {
    assert_eq!("Return".parse::<Key>().unwrap(), Key::Return);
    assert_eq!("q".parse::<Key>().unwrap(), Key::Other('q'));
    assert!(matches!("Nonsense".parse::<Key>(), Err(KeyFromStrError::InvalidKey(_))));
}

#[test]
fn consume_and_mode_prefixes() {
    let (consume, rest) = get_consume_strip("C|Odilia+h");
    assert!(consume);
    assert_eq!(rest, "Odilia+h");
    let (consume, rest) = get_consume_strip("Odilia+h");
    assert!(!consume);
    assert_eq!(rest, "Odilia+h");
    let (mode, rest) = get_mode_strip("Browse|Odilia+h").unwrap();
    assert_eq!(mode, Some(ScreenReaderMode::Browse));
    assert_eq!(rest, "Odilia+h");
    let (mode, rest) = get_mode_strip("Odilia+h").unwrap();
    assert_eq!(mode, None);
    assert_eq!(rest, "Odilia+h");
}

#[test]
fn modifier_sides() {
    let m = Modifiers::CONTROL_L() | Modifiers::ALT_R();
    assert!(m.control());
    assert!(m.alt());
    assert!(!m.shift());
    assert!(!m.meta());
    assert!(m.left());
    assert!(m.right());
    assert!(!Modifiers::ODILIA().left());
}

#[test]
fn key_binding_mode_prefix() {
    // the first `|` ends the consume marker, the second the mode
    let kb: KeyBinding = "Browse|Odilia+h".parse().unwrap();
    assert_eq!(kb.mode, None);
    assert!(!kb.consume);
    let kb: KeyBinding = "C|Browse|Odilia+h".parse().unwrap();
    assert!(kb.consume);
    assert_eq!(kb.mode, Some(ScreenReaderMode::Browse));
    assert_eq!(kb.key, Some(Key::Other('h')));
    assert!(matches!("x|Nowhere|Odilia+h".parse::<KeyBinding>(), Err(KeyFromStrError::InvalidMode(_))));
}
