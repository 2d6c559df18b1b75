//! A compact set of accessibility roles: one bit per role discriminant.

use crate::atspi_types::{role_discriminant, role_index, role_try_from, ROLE_COUNT};
use atspi_common::Role;
use core::ops::{BitAnd, BitAndAssign, BitOr, BitOrAssign, Not};
use vstd::prelude::*;
use vstd::std_specs::ops::{BitAndSpecImpl, BitOrSpecImpl, NotSpecImpl};

verus! {

/// A set of roles. Bit `i` of the first field stands for the role with discriminant `i`
/// (`i < 128`); bit `j` of the second for the role with discriminant `128 + j`.
#[derive(Copy, Clone, PartialEq, Eq, Structural, Debug)]
pub struct RoleSet(pub u128, pub u8);

/// The bits of the single role with discriminant `i`. The role `Invalid` (discriminant 0)
/// has no bit at all.
pub open spec fn spec_role_bits(i: u32) -> (u128, u8) {
    if i == 0 {
        (0, 0)
    } else if i < 128 {
        ((1u128 << i) as u128, 0)
    } else {
        (0, (1u8 << ((i - 128) as u8)) as u8)
    }
}

/// The set holding the single role `r`.
pub open spec fn spec_from_role(r: Role) -> RoleSet {
    RoleSet(spec_role_bits(role_index(r)).0, spec_role_bits(role_index(r)).1)
}

/// Whether bit `i` (`i < 136`) of the set is on.
pub open spec fn has_bit(s: RoleSet, i: u32) -> bool {
    if i < 128 {
        (s.0 >> i) & 1 == 1
    } else {
        (s.1 >> ((i - 128) as u8)) & 1 == 1
    }
}

/// How many discriminants the roles up to high bit `j` cover.
pub open spec fn high_prefix(j: u32) -> int {
    if 128 + j < ROLE_COUNT {
        128 + j
    } else {
        ROLE_COUNT as int
    }
}

/// The discriminants of the roles whose bits are on, in increasing order.
pub open spec fn role_indices_in(s: RoleSet) -> Seq<u32> {
    Seq::new(ROLE_COUNT as nat, |i: int| i as u32).filter(|i: u32| has_bit(s, i))
}

/// No role other than a listed one has the discriminant of a listed one.
pub open spec fn roles_pinned(out: Seq<Role>) -> bool {
    forall|k: int, x: Role|
        0 <= k < out.len() && #[trigger] role_index(x) == role_index(#[trigger] out[k]) ==> x
            == out[k]
}

/// What `role_iter` gives for the set `s`: one role for each bit that is on, in increasing
/// order of discriminant, each role once, and a role is listed exactly when its
/// discriminant's bit is on.
pub open spec fn lists_roles_of(s: RoleSet, out: Seq<Role>) -> bool {
    &&& out.map_values(|r: Role| role_index(r)) == role_indices_in(s)
    &&& out.no_duplicates()
    &&& roles_pinned(out)
    &&& forall|x: Role| #[trigger] out.contains(x) <==> role_indices_in(s).contains(role_index(x))
}

/// The set of the roles of a list, joined one by one to the empty set.
pub open spec fn union_of(roles: Seq<Role>) -> RoleSet
    decreases roles.len(),
{
    if roles.len() == 0 {
        RoleSet(0, 0)
    } else {
        spec_or(union_of(roles.drop_last()), spec_from_role(roles.last()))
    }
}

impl RoleSet {
    /// The empty set.
    pub fn empty() -> (s: RoleSet)
        ensures
            s == RoleSet(0, 0),
    {
        RoleSet(0, 0)
    }

    /// The set with every bit on.
    pub fn all() -> (s: RoleSet)
        ensures
            s == RoleSet(u128::MAX, u8::MAX),
    {
        RoleSet(u128::MAX, u8::MAX)
    }

    /// Whether every bit of `other` is on in `self`.
    pub open spec fn includes(self, other: RoleSet) -> bool {
        (self.0 & other.0) == other.0 && (self.1 & other.1) == other.1
    }

    /// Whether the set holds the role `r` (`Invalid`, having no bit, is held by every set).
    pub open spec fn has_role(self, r: Role) -> bool {
        self.includes(spec_from_role(r))
    }

    /// The set holding the single role `role`.
    pub fn from_role(role: Role) -> (s: RoleSet)
        ensures
            s == spec_from_role(role),
            role_index(role) < ROLE_COUNT,
    {
        let (low, high) = role_bits(role);
        RoleSet(low, high)
    }

    /// Whether every role of `other` is in `self`.
    pub fn contains(self, other: RoleSet) -> (b: bool)
        ensures
            b == self.includes(other),
    {
        (self & other) == other
    }

    /// The roles of the set, in increasing order of discriminant.
    pub fn role_iter(self) -> (roles: Vec<Role>)
        ensures
            lists_roles_of(self, roles@),
    {
        let mut roles: Vec<Role> = Vec::new();
        let ghost all = Seq::new(ROLE_COUNT as nat, |i: int| i as u32);
        let ghost pred = |i: u32| has_bit(self, i);
        let mut i: u32 = 0;
        while i < 128
            invariant
                i <= 128,
                all == Seq::new(ROLE_COUNT as nat, |i: int| i as u32),
                pred == (|i: u32| has_bit(self, i)),
                roles@.map_values(|r: Role| role_index(r)) == all.take(i as int).filter(pred),
                forall|k: int| 0 <= k < roles@.len() ==> role_index(#[trigger] roles@[k]) < i,
                roles@.no_duplicates(),
                roles_pinned(roles@),
            decreases 128 - i,
        {
            proof {
                reveal_with_fuel(Seq::filter, 1);
                assert(all.take(i + 1).drop_last() == all.take(i as int));
            }
            if (self.0 >> i) & 1 == 1 {
                if let Some(role) = role_try_from(i) {
                    roles.push(role);
                    assert(roles@.map_values(|r: Role| role_index(r)) =~= all.take(i as int).filter(pred).push(i));
                }
            } else {
                assert(!pred(all.take(i + 1).last()));
            }
            i = i + 1;
        }
        let mut j: u32 = 0;
        while j < 8
            invariant
                j <= 8,
                all == Seq::new(ROLE_COUNT as nat, |i: int| i as u32),
                pred == (|i: u32| has_bit(self, i)),
                roles@.map_values(|r: Role| role_index(r)) == all.take(high_prefix(j)).filter(pred),
                forall|k: int| 0 <= k < roles@.len() ==> role_index(#[trigger] roles@[k]) < 128 + j,
                roles@.no_duplicates(),
                roles_pinned(roles@),
            ensures
                roles@.map_values(|r: Role| role_index(r)) == all.take(ROLE_COUNT as int).filter(pred),
                roles@.no_duplicates(),
                roles_pinned(roles@),
            decreases 8 - j,
        {
            if (self.1 >> (j as u8)) & 1 == 1 {
                match role_try_from(j + 128) {
                    Some(role) => {
                        proof {
                            reveal_with_fuel(Seq::filter, 1);
                            assert(all.take(129 + j).drop_last() == all.take(128 + j));
                        }
                        roles.push(role);
                        assert(roles@.map_values(|r: Role| role_index(r)) =~= all.take(
                            128 + j,
                        ).filter(pred).push((128 + j) as u32));
                    },
                    None => {
                        break;
                    },
                }
            } else if j + 128 < ROLE_COUNT {
                proof {
                    reveal_with_fuel(Seq::filter, 1);
                    assert(all.take(129 + j).drop_last() == all.take(128 + j));
                    assert(!pred(all.take(129 + j).last()));
                }
            }
            j = j + 1;
        }
        assert(all.take(ROLE_COUNT as int) == all);
        proof {
            let ix = roles@.map_values(|r: Role| role_index(r));
            assert forall|x: Role| #[trigger] roles@.contains(x) <== role_indices_in(self).contains(
                role_index(x),
            ) by {
                if role_indices_in(self).contains(role_index(x)) {
                    let k = choose|k: int| 0 <= k < ix.len() && ix[k] == role_index(x);
                    assert(role_index(roles@[k]) == role_index(x));
                    assert(roles@[k] == x);
                }
            }
            assert forall|x: Role| #[trigger] roles@.contains(x) ==> role_indices_in(self).contains(
                role_index(x),
            ) by {
                if roles@.contains(x) {
                    let k = choose|k: int| 0 <= k < roles@.len() && roles@[k] == x;
                    assert(ix[k] == role_index(x));
                }
            }
        }
        roles
    }
}

/// The roles in both sets.
pub open spec fn spec_and(a: RoleSet, b: RoleSet) -> RoleSet {
    RoleSet(a.0 & b.0, a.1 & b.1)
}

/// The roles in either set.
pub open spec fn spec_or(a: RoleSet, b: RoleSet) -> RoleSet {
    RoleSet(a.0 | b.0, a.1 | b.1)
}

/// Every bit flipped.
pub open spec fn spec_not(a: RoleSet) -> RoleSet {
    RoleSet(!a.0, !a.1)
}

impl From<Role> for RoleSet {
    fn from(r: Role) -> (s: RoleSet) {
        let (low, high) = role_bits(r);
        RoleSet(low, high)
    }
}

impl vstd::std_specs::convert::FromSpecImpl<Role> for RoleSet {
    open spec fn obeys_from_spec() -> bool {
        true
    }

    open spec fn from_spec(r: Role) -> RoleSet {
        spec_from_role(r)
    }
}

impl BitAnd<RoleSet> for RoleSet {
    type Output = RoleSet;

    fn bitand(self, rhs: RoleSet) -> (s: RoleSet) {
        RoleSet(self.0 & rhs.0, self.1 & rhs.1)
    }
}

impl BitAndSpecImpl<RoleSet> for RoleSet {
    open spec fn obeys_bitand_spec() -> bool {
        true
    }

    open spec fn bitand_req(self, rhs: RoleSet) -> bool {
        true
    }

    open spec fn bitand_spec(self, rhs: RoleSet) -> RoleSet {
        spec_and(self, rhs)
    }
}

impl BitAnd<Role> for RoleSet {
    type Output = RoleSet;

    fn bitand(self, rhs: Role) -> (s: RoleSet) {
        self & RoleSet::from_role(rhs)
    }
}

impl BitAndSpecImpl<Role> for RoleSet {
    open spec fn obeys_bitand_spec() -> bool {
        true
    }

    open spec fn bitand_req(self, rhs: Role) -> bool {
        true
    }

    open spec fn bitand_spec(self, rhs: Role) -> RoleSet {
        spec_and(self, spec_from_role(rhs))
    }
}

impl BitOr<RoleSet> for RoleSet {
    type Output = RoleSet;

    fn bitor(self, rhs: RoleSet) -> (s: RoleSet) {
        RoleSet(self.0 | rhs.0, self.1 | rhs.1)
    }
}

impl BitOrSpecImpl<RoleSet> for RoleSet {
    open spec fn obeys_bitor_spec() -> bool {
        true
    }

    open spec fn bitor_req(self, rhs: RoleSet) -> bool {
        true
    }

    open spec fn bitor_spec(self, rhs: RoleSet) -> RoleSet {
        spec_or(self, rhs)
    }
}

impl BitOr<Role> for RoleSet {
    type Output = RoleSet;

    fn bitor(self, rhs: Role) -> (s: RoleSet) {
        self | RoleSet::from_role(rhs)
    }
}

impl BitOrSpecImpl<Role> for RoleSet {
    open spec fn obeys_bitor_spec() -> bool {
        true
    }

    open spec fn bitor_req(self, rhs: Role) -> bool {
        true
    }

    open spec fn bitor_spec(self, rhs: Role) -> RoleSet {
        spec_or(self, spec_from_role(rhs))
    }
}

impl Not for RoleSet {
    type Output = RoleSet;

    fn not(self) -> (s: RoleSet) {
        RoleSet(!self.0, !self.1)
    }
}

impl NotSpecImpl for RoleSet {
    open spec fn obeys_not_spec() -> bool {
        true
    }

    open spec fn not_req(self) -> bool {
        true
    }

    open spec fn not_spec(self) -> RoleSet {
        spec_not(self)
    }
}

impl BitAndAssign<RoleSet> for RoleSet {
    fn bitand_assign(&mut self, rhs: RoleSet)
        ensures
            *final(self) == spec_and(*old(self), rhs),
    {
        self.0 &= rhs.0;
        self.1 &= rhs.1;
    }
}

impl BitAndAssign<Role> for RoleSet {
    fn bitand_assign(&mut self, rhs: Role)
        ensures
            *final(self) == spec_and(*old(self), spec_from_role(rhs)),
    {
        let other = RoleSet::from_role(rhs);
        self.0 &= other.0;
        self.1 &= other.1;
    }
}

impl BitOrAssign<RoleSet> for RoleSet {
    fn bitor_assign(&mut self, rhs: RoleSet)
        ensures
            *final(self) == spec_or(*old(self), rhs),
    {
        self.0 |= rhs.0;
        self.1 |= rhs.1;
    }
}

impl BitOrAssign<Role> for RoleSet {
    fn bitor_assign(&mut self, rhs: Role)
        ensures
            *final(self) == spec_or(*old(self), spec_from_role(rhs)),
    {
        let other = RoleSet::from_role(rhs);
        self.0 |= other.0;
        self.1 |= other.1;
    }
}

impl Default for RoleSet {
    fn default() -> (s: RoleSet)
        ensures
            s == RoleSet(0, 0),
    {
        RoleSet(0, 0)
    }
}

/// The bits of a single role (whose discriminant is below `ROLE_COUNT`, as every role's is).
pub fn role_bits(r: Role) -> (bits: (u128, u8))
    ensures
        bits == spec_role_bits(role_index(r)),
        role_index(r) < ROLE_COUNT,
{
    let i = role_discriminant(r);
    if i == 0 {
        (0, 0)
    } else if i < 128 {
        (1u128 << i, 0)
    } else {
        (0, 1u8 << ((i - 128) as u8))
    }
}

/// A role added to a set is held by the result.
pub proof fn lemma_added_role_is_held(s: RoleSet, r: Role)
    ensures
        spec_or(s, spec_from_role(r)).has_role(r),
{
    let b = spec_from_role(r);
    let (x, y, p, q) = (s.0, b.0, s.1, b.1);
    assert((x | y) & y == y) by (bit_vector);
    assert((p | q) & q == q) by (bit_vector);
}

/// The intersection of two sets includes a third exactly when both of them do.
pub proof fn lemma_and_includes(a: RoleSet, b: RoleSet, c: RoleSet)
    ensures
        spec_and(a, b).includes(c) <==> a.includes(c) && b.includes(c),
{
    let (x, y, z) = (a.0, b.0, c.0);
    let (p, q, r) = (a.1, b.1, c.1);
    assert(((x & y) & z == z) <==> ((x & z) == z && (y & z) == z)) by (bit_vector);
    assert(((p & q) & r == r) <==> ((p & r) == r && (q & r) == r)) by (bit_vector);
}

/// The union of two sets includes both of them.
pub proof fn lemma_or_includes(a: RoleSet, b: RoleSet)
    ensures
        spec_or(a, b).includes(a),
        spec_or(a, b).includes(b),
{
    let (x, y, p, q) = (a.0, b.0, a.1, b.1);
    assert((x | y) & x == x && (x | y) & y == y) by (bit_vector);
    assert((p | q) & p == p && (p | q) & q == q) by (bit_vector);
}

/// Inclusion is a partial order on role sets.
pub proof fn lemma_includes_partial_order(a: RoleSet, b: RoleSet, c: RoleSet)
    ensures
        a.includes(a),
        a.includes(b) && b.includes(c) ==> a.includes(c),
        a.includes(b) && b.includes(a) ==> a == b,
{
    let (x, y, z) = (a.0, b.0, c.0);
    let (p, q, r) = (a.1, b.1, c.1);
    assert(x & x == x && p & p == p) by (bit_vector);
    assert((x & y == y && y & z == z) ==> x & z == z) by (bit_vector);
    assert((p & q == q && q & r == r) ==> p & r == r) by (bit_vector);
    assert((x & y == y && y & x == x) ==> x == y) by (bit_vector);
    assert((p & q == q && q & p == p) ==> p == q) by (bit_vector);
}

/// Narrowing a set to a set it includes yields exactly that set, after which each includes
/// the other.
pub proof fn lemma_narrow_to_included(a: RoleSet, b: RoleSet)
    requires
        a.includes(b),
    ensures
        spec_and(a, b) == b,
        spec_and(a, b).includes(b),
        b.includes(spec_and(a, b)),
{
    let (x, y, p, q) = (a.0, b.0, a.1, b.1);
    assert(x & y == y ==> (x & y) & y == y && y & (x & y) == (x & y)) by (bit_vector);
    assert(p & q == q ==> (p & q) & q == q && q & (p & q) == (p & q)) by (bit_vector);
}

/// Complement is an involution that exchanges the empty and the full set; intersecting with
/// the empty set empties, intersecting with the full set changes nothing.
pub proof fn lemma_complement(a: RoleSet)
    ensures
        spec_not(spec_not(a)) == a,
        spec_not(RoleSet(u128::MAX, u8::MAX)) == RoleSet(0, 0),
        spec_not(RoleSet(0, 0)) == RoleSet(u128::MAX, u8::MAX),
        spec_and(a, RoleSet(0, 0)) == RoleSet(0, 0),
        spec_and(a, RoleSet(u128::MAX, u8::MAX)) == a,
{
    let (x, p) = (a.0, a.1);
    assert(!!x == x && !!p == p) by (bit_vector);
    assert(!0xffff_ffff_ffff_ffff_ffff_ffff_ffff_ffffu128 == 0u128 && !0xffu8 == 0u8) by (bit_vector);
    assert(!0u128 == 0xffff_ffff_ffff_ffff_ffff_ffff_ffff_ffffu128 && !0u8 == 0xffu8) by (bit_vector);
    assert(x & 0 == 0 && p & 0 == 0) by (bit_vector);
    assert(x & 0xffff_ffff_ffff_ffff_ffff_ffff_ffff_ffffu128 == x && p & 0xffu8 == p) by (bit_vector);
}

/// Two roles with different discriminants have no bit in common.
pub proof fn lemma_distinct_roles_disjoint(r1: Role, r2: Role)
    requires
        role_index(r1) != role_index(r2),
        role_index(r1) < ROLE_COUNT,
        role_index(r2) < ROLE_COUNT,
    ensures
        spec_and(spec_from_role(r1), spec_from_role(r2)) == RoleSet(0, 0),
{
    let i = role_index(r1);
    let j = role_index(r2);
    let (l1, h1) = spec_role_bits(i);
    let (l2, h2) = spec_role_bits(j);
    assert(l1 & l2 == 0) by {
        if 0 < i < 128 && 0 < j < 128 {
            assert(i != j ==> (1u128 << i) & (1u128 << j) == 0) by (bit_vector)
                requires
                    i < 128,
                    j < 128,
            ;
        } else {
            assert(l1 == 0 || l2 == 0);
            assert(l1 & 0 == 0 && 0 & l2 == 0) by (bit_vector);
        }
    }
    assert(h1 & h2 == 0) by {
        if 128 <= i && 128 <= j {
            let a = (i - 128) as u8;
            let b = (j - 128) as u8;
            assert(a != b ==> (1u8 << a) & (1u8 << b) == 0) by (bit_vector)
                requires
                    a < 2,
                    b < 2,
            ;
        } else {
            assert(h1 == 0 || h2 == 0);
            assert(h1 & 0 == 0 && 0 & h2 == 0) by (bit_vector);
        }
    }
}

/// Bit `i` of a union is on exactly when it is on in one of the two sets.
proof fn lemma_has_bit_or(a: RoleSet, b: RoleSet, i: u32)
    requires
        i < ROLE_COUNT,
    ensures
        has_bit(spec_or(a, b), i) <==> has_bit(a, i) || has_bit(b, i),
{
    if i < 128 {
        let (x, y) = (a.0, b.0);
        assert(((x | y) >> i) & 1 == 1 <==> ((x >> i) & 1 == 1 || (y >> i) & 1 == 1))
            by (bit_vector)
            requires
                i < 128,
        ;
    } else {
        let (p, q) = (a.1, b.1);
        let j = (i - 128) as u8;
        assert(((p | q) >> j) & 1 == 1 <==> ((p >> j) & 1 == 1 || (q >> j) & 1 == 1))
            by (bit_vector)
            requires
                j < 8,
        ;
    }
}

/// The set of a single role has exactly the bit of its discriminant on, unless the role is
/// `Invalid`, whose set has no bit on.
proof fn lemma_has_bit_single(r: Role, i: u32)
    requires
        i < ROLE_COUNT,
        role_index(r) < ROLE_COUNT,
    ensures
        has_bit(spec_from_role(r), i) <==> (i != 0 && i == role_index(r)),
{
    lemma_has_bit_empty(i);
    let n = role_index(r);
    if i < 128 {
        if 0 < n < 128 {
            assert(((1u128 << n) >> i) & 1 == 1 <==> i == n) by (bit_vector)
                requires
                    i < 128,
                    n < 128,
            ;
        }
    } else {
        let j = (i - 128) as u8;
        if n >= 128 {
            let m = (n - 128) as u8;
            assert(((1u8 << m) >> j) & 1 == 1 <==> j == m) by (bit_vector)
                requires
                    j < 8,
                    m < 8,
            ;
        }
    }
}

/// The empty set has no bit on.
proof fn lemma_has_bit_empty(i: u32)
    requires
        i < ROLE_COUNT,
    ensures
        !has_bit(RoleSet(0, 0), i),
{
    if i < 128 {
        assert((0u128 >> i) & 1 != 1) by (bit_vector);
    } else {
        let j = (i - 128) as u8;
        assert((0u8 >> j) & 1 != 1) by (bit_vector);
    }
}

/// Bit `i` of the union of a list of roles is on exactly when a role of the list, other
/// than `Invalid`, has discriminant `i`.
proof fn lemma_union_bits(roles: Seq<Role>, i: u32)
    requires
        i < ROLE_COUNT,
        forall|k: int| 0 <= k < roles.len() ==> role_index(#[trigger] roles[k]) < ROLE_COUNT,
    ensures
        has_bit(union_of(roles), i) <==> (i != 0 && exists|k: int|
            0 <= k < roles.len() && role_index(#[trigger] roles[k]) == i),
    decreases roles.len(),
{
    if roles.len() == 0 {
        lemma_has_bit_empty(i);
    } else {
        let rest = roles.drop_last();
        assert forall|k: int| 0 <= k < rest.len() implies role_index(#[trigger] rest[k])
            < ROLE_COUNT by {
            assert(rest[k] == roles[k]);
        }
        lemma_union_bits(rest, i);
        lemma_has_bit_or(union_of(rest), spec_from_role(roles.last()), i);
        lemma_has_bit_single(roles.last(), i);
        if exists|k: int| 0 <= k < roles.len() && role_index(#[trigger] roles[k]) == i {
            let k = choose|k: int| 0 <= k < roles.len() && role_index(#[trigger] roles[k]) == i;
            if k < rest.len() {
                assert(rest[k] == roles[k]);
            }
        }
        if exists|k: int| 0 <= k < rest.len() && role_index(#[trigger] rest[k]) == i {
            let k = choose|k: int| 0 <= k < rest.len() && role_index(#[trigger] rest[k]) == i;
            assert(rest[k] == roles[k]);
        }
    }
}

/// Joining roles into a set and listing the set's roles gives back exactly the roles that
/// were joined, each once: for roles other than `Invalid` (every role's discriminant is below
/// `ROLE_COUNT`), what `role_iter` lists for their union holds no role twice and holds a role
/// exactly when the list does.
pub proof fn law_role_iter_of_union(roles: Seq<Role>, out: Seq<Role>)
    requires
        forall|k: int| 0 <= k < roles.len() ==> 0 < role_index(#[trigger] roles[k]) < ROLE_COUNT,
        lists_roles_of(union_of(roles), out),
    ensures
        out.no_duplicates(),
        forall|x: Role| #[trigger] out.contains(x) <==> roles.contains(x),
{
    let s = union_of(roles);
    let all = Seq::new(ROLE_COUNT as nat, |i: int| i as u32);
    let pred = |i: u32| has_bit(s, i);
    assert forall|x: Role| #[trigger] out.contains(x) <==> roles.contains(x) by {
        if roles.contains(x) {
            let k = choose|k: int| 0 <= k < roles.len() && roles[k] == x;
            let i = role_index(x);
            lemma_union_bits(roles, i);
            assert(all[i as int] == i);
            all.lemma_filter_contains(pred, i as int);
        }
        if out.contains(x) {
            let i = role_index(x);
            assert(role_indices_in(s).contains(i));
            all.lemma_filter_contains_rev(pred, i);
            let j = choose|j: int| 0 <= j < all.len() && all[j] == i;
            let f = choose|f: int| 0 <= f < all.filter(pred).len() && all.filter(pred)[f] == i;
            all.lemma_filter_pred(pred, f);
            lemma_union_bits(roles, i);
            let k = choose|k: int| 0 <= k < roles.len() && role_index(#[trigger] roles[k]) == i;
            let r = roles[k];
            assert(all[i as int] == i);
            all.lemma_filter_contains(pred, i as int);
            assert(out.contains(r));
            let m = choose|m: int| 0 <= m < out.len() && out[m] == r;
            assert(role_index(x) == role_index(out[m]));
            assert(x == out[m]);
        }
    }
}

} // verus!
