//! Types of the accessibility protocol that the library carries, and the operations on them
//! that it needs. Their definitions and behaviour come from `atspi_common`.

use vstd::prelude::*;

verus! {

#[verifier::external_type_specification]
#[verifier::external_body]
pub struct ExRole(atspi_common::Role);

#[verifier::external_type_specification]
#[verifier::external_body]
pub struct ExRelationType(atspi_common::RelationType);

/// `==` on `atspi_common::RelationType`, a field-less enum whose `PartialEq` is derived: true
/// exactly when both are the same variant.
#[verifier::external_body]
pub(crate) fn relation_eq(a: atspi_common::RelationType, b: atspi_common::RelationType) -> (r: bool)
    ensures
        r == (a == b),
{
    a == b
}

/// The number of roles the protocol defines; their discriminants are `0 .. ROLE_COUNT`.
pub const ROLE_COUNT: u32 = 130;

/// The discriminant of a role: `Role` is a field-less enum without explicit discriminants, so
/// each variant's discriminant is its position in the declaration, from 0.
pub uninterp spec fn role_index(r: atspi_common::Role) -> u32;

/// `r as u32` on `atspi_common::Role`: the variant's discriminant, below 130 since the enum
/// declares 130 variants.
#[verifier::external_body]
pub(crate) fn role_discriminant(r: atspi_common::Role) -> (i: u32)
    ensures
        i == role_index(r),
        i < ROLE_COUNT,
{
    r as u32
}

/// `atspi_common::Role::try_from(u32)`: the role with the given discriminant for every value
/// below 130 (its match lists the variants in declaration order), and an error for every other
/// value. The discriminants are implicit, so distinct variants have distinct ones: the role
/// returned is the only one with that discriminant.
#[verifier::external_body]
pub(crate) fn role_try_from(i: u32) -> (r: Option<atspi_common::Role>)
    ensures
        r is Some <==> i < ROLE_COUNT,
        r matches Some(role) ==> role_index(role) == i,
        r matches Some(role) ==> forall|x: atspi_common::Role| #[trigger] role_index(x) == i ==> x
            == role,
{
    atspi_common::Role::try_from(i).ok()
}

} // verus!
