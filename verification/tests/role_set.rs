use atspi_common::Role;
use odilia::role_set::{role_bits, RoleSet};

#[test]
fn check_bit_or_assign_max_role() {
    let max_role: RoleSet = Role::PushButtonMenu.into();
    let mut rs = RoleSet::default();
    rs |= max_role;
    assert!(rs.contains(max_role), "{max_role:?} not found in set {rs:?}");
}

#[test]
fn check_all_roles_no_error() {
    let all_roles = RoleSet::all();
    assert_eq!(all_roles.role_iter().len(), 130);
}

#[test]
fn check_bits_and() {
    let all_roles = RoleSet::all();
    let no_roles = RoleSet::empty();
    assert_eq!(all_roles & no_roles, no_roles);
}

#[test]
fn check_bits_not() {
    let all_roles = RoleSet::all();
    let no_roles = RoleSet::empty();
    assert_eq!(!all_roles, no_roles);
    assert_eq!(!no_roles, all_roles);
}

#[test]
fn check_bits_and_assign() {
    let less_roles = RoleSet::empty() | Role::Frame | Role::Link;
    let mut some_roles = RoleSet::empty() | Role::Invalid | Role::Suggestion | Role::Link | Role::Frame;
    // initially, one way relationship between rolesets
    assert!(some_roles.contains(less_roles));
    assert!(!(less_roles.contains(some_roles)));
    some_roles &= less_roles;
    // after &=, two way relationship between rolesets
    assert!(some_roles.contains(less_roles));
    assert!(less_roles.contains(some_roles));
}

#[test]
fn role_bits_follow_discriminants() {
    // Invalid has no bit; every other role has the bit of its discriminant.
    assert_eq!(role_bits(Role::Invalid), (0, 0));
    assert_eq!(role_bits(Role::Frame), (1u128 << (Role::Frame as u32), 0));
    assert_eq!(role_bits(Role::Suggestion), (0, 1));
    assert_eq!(role_bits(Role::PushButtonMenu), (0, 2));
    assert_eq!(RoleSet::from_role(Role::Link), RoleSet(1u128 << (Role::Link as u32), 0));
}

#[test]
fn role_iter_lists_roles_in_order() {
    let rs = RoleSet::empty() | Role::Link | Role::Frame | Role::PushButtonMenu;
    let roles = rs.role_iter();
    assert_eq!(roles, vec![Role::Frame, Role::Link, Role::PushButtonMenu]);
    // the empty set lists no role; Invalid is in every set but has no bit to list
    assert!(RoleSet::empty().role_iter().is_empty());
}

#[test]
fn added_role_is_held_and_others_not() {
    let rs = RoleSet::empty() | Role::Table;
    assert!(rs.contains(Role::Table.into()));
    assert!(!rs.contains(Role::Link.into()));
    assert!(rs.contains(Role::Invalid.into()));
}

#[test]
fn role_iter_gives_back_the_joined_roles_once() {
    let joined = [Role::Table, Role::Link, Role::Table, Role::Suggestion, Role::Link];
    let mut rs = RoleSet::empty();
    for r in joined {
        rs |= r;
    }
    assert_eq!(rs.role_iter(), vec![Role::Table, Role::Link, Role::Suggestion]);
    assert_eq!(RoleSet::from(Role::Heading).role_iter(), vec![Role::Heading]);
}
