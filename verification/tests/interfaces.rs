use odilia::interfaces::{Interface, InterfaceSet};
use odilia::states::StateSet;

#[test]
fn interface_set_insert_and_contains() {
    let mut set = InterfaceSet::empty();
    assert!(!set.contains(Interface::Text));
    set.insert(Interface::Text);
    set.insert(Interface::Accessible);
    assert!(set.contains(Interface::Text));
    assert!(set.contains(Interface::Accessible));
    assert!(!set.contains(Interface::Value));
    assert_eq!(set.bits(), (1 << 18) | 1);
    assert_eq!(set.iter(), vec![Interface::Accessible, Interface::Text]);
}

#[test]
fn interface_set_operators() {
    let a = InterfaceSet::new(Interface::Accessible);
    let b: InterfaceSet = Interface::Action.into();
    let mut ab = a;
    ab.insert(Interface::Action);
    assert_eq!(ab & a, a);
    assert_eq!(ab ^ a, b);
    assert_eq!(InterfaceSet::all().iter().len(), 20);
    assert_eq!(InterfaceSet::from_bits_truncate(u32::MAX), InterfaceSet::all());
}

#[test]
fn interface_bits_match_the_protocol_crate() {
    assert_eq!(Interface::TableCell.flag(), atspi_common::Interface::TableCell as u32);
    assert_eq!(Interface::Value.flag(), atspi_common::Interface::Value as u32);
    assert_eq!(Interface::Accessible.flag(), atspi_common::Interface::Accessible as u32);
}

#[test]
fn interface_dbus_names() {
    assert_eq!(Interface::Accessible.dbus_name(), "org.a11y.atspi.Accessible");
    assert_eq!(Interface::from_dbus_name("org.a11y.atspi.TableCell"), Some(Interface::TableCell));
    assert_eq!(Interface::from_dbus_name("org.a11y.atspi.Nothing"), None);
    for n in 0..20 {
        let i = Interface::from_index(n).unwrap();
        assert_eq!(Interface::from_dbus_name(i.dbus_name()), Some(i));
        assert_eq!(i.index(), n);
    }
    assert_eq!(Interface::from_index(20), None);
}

#[test]
fn state_set_insert_remove() {
    let mut s = StateSet::empty();
    s.insert(1 << 3);
    s.insert(1 << 12);
    assert!(s.contains(1 << 3));
    assert!(s.contains((1 << 3) | (1 << 12)));
    s.remove(1 << 3);
    assert!(!s.contains(1 << 3));
    assert!(s.contains(1 << 12));
    assert!(!s.is_empty());
    assert_eq!(StateSet::from_bits(7).bits(), 7);
}
