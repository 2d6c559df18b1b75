//! The AT-SPI interfaces an accessible can implement, and sets of them.
//!
//! A set holds one bit per interface: the interface declared at position `n` (counting from
//! zero) is the bit `1 << n`.

use crate::text::{chars_of, matches_exactly};
use vstd::prelude::*;

verus! {

/// Indicates AT-SPI interfaces an accessible can implement.
#[derive(Clone, Copy, Debug, PartialEq, Eq, Hash, Structural)]
pub enum Interface {
    Accessible,
    Action,
    Application,
    Cache,
    Collection,
    Component,
    Document,
    DeviceEventController,
    DeviceEventListener,
    EditableText,
    Hyperlink,
    Hypertext,
    Image,
    Registry,
    Selection,
    Socket,
    Table,
    TableCell,
    Text,
    Value,
}

/// The number of interfaces.
pub const INTERFACE_COUNT: u32 = 20;

/// The position of the interface in the declaration, from zero.
pub open spec fn interface_index(i: Interface) -> u32 {
    match i {
        Interface::Accessible => 0,
        Interface::Action => 1,
        Interface::Application => 2,
        Interface::Cache => 3,
        Interface::Collection => 4,
        Interface::Component => 5,
        Interface::Document => 6,
        Interface::DeviceEventController => 7,
        Interface::DeviceEventListener => 8,
        Interface::EditableText => 9,
        Interface::Hyperlink => 10,
        Interface::Hypertext => 11,
        Interface::Image => 12,
        Interface::Registry => 13,
        Interface::Selection => 14,
        Interface::Socket => 15,
        Interface::Table => 16,
        Interface::TableCell => 17,
        Interface::Text => 18,
        Interface::Value => 19,
    }
}

/// The interface at a position of the declaration (meaningful below [`INTERFACE_COUNT`]).
pub open spec fn interface_at(n: u32) -> Interface {
    if n == 0 {
        Interface::Accessible
    } else if n == 1 {
        Interface::Action
    } else if n == 2 {
        Interface::Application
    } else if n == 3 {
        Interface::Cache
    } else if n == 4 {
        Interface::Collection
    } else if n == 5 {
        Interface::Component
    } else if n == 6 {
        Interface::Document
    } else if n == 7 {
        Interface::DeviceEventController
    } else if n == 8 {
        Interface::DeviceEventListener
    } else if n == 9 {
        Interface::EditableText
    } else if n == 10 {
        Interface::Hyperlink
    } else if n == 11 {
        Interface::Hypertext
    } else if n == 12 {
        Interface::Image
    } else if n == 13 {
        Interface::Registry
    } else if n == 14 {
        Interface::Selection
    } else if n == 15 {
        Interface::Socket
    } else if n == 16 {
        Interface::Table
    } else if n == 17 {
        Interface::TableCell
    } else if n == 18 {
        Interface::Text
    } else {
        Interface::Value
    }
}

/// The bit of the interface in a set.
pub open spec fn interface_flag(i: Interface) -> u32 {
    1u32 << interface_index(i)
}

/// The D-Bus name of the interface.
pub open spec fn interface_name(i: Interface) -> Seq<char> {
    match i {
        Interface::Accessible => "org.a11y.atspi.Accessible"@,
        Interface::Action => "org.a11y.atspi.Action"@,
        Interface::Application => "org.a11y.atspi.Application"@,
        Interface::Cache => "org.a11y.atspi.Cache"@,
        Interface::Collection => "org.a11y.atspi.Collection"@,
        Interface::Component => "org.a11y.atspi.Component"@,
        Interface::Document => "org.a11y.atspi.Document"@,
        Interface::DeviceEventController => "org.a11y.atspi.DeviceEventController"@,
        Interface::DeviceEventListener => "org.a11y.atspi.DeviceEventListener"@,
        Interface::EditableText => "org.a11y.atspi.EditableText"@,
        Interface::Hyperlink => "org.a11y.atspi.Hyperlink"@,
        Interface::Hypertext => "org.a11y.atspi.Hypertext"@,
        Interface::Image => "org.a11y.atspi.Image"@,
        Interface::Registry => "org.a11y.atspi.Registry"@,
        Interface::Selection => "org.a11y.atspi.Selection"@,
        Interface::Socket => "org.a11y.atspi.Socket"@,
        Interface::Table => "org.a11y.atspi.Table"@,
        Interface::TableCell => "org.a11y.atspi.TableCell"@,
        Interface::Text => "org.a11y.atspi.Text"@,
        Interface::Value => "org.a11y.atspi.Value"@,
    }
}

/// Positions and interfaces correspond one to one.
pub proof fn lemma_interface_index(i: Interface)
    ensures
        interface_index(i) < INTERFACE_COUNT,
        interface_at(interface_index(i)) == i,
{
}

/// Distinct interfaces have distinct bits, and each bit is a single one.
pub proof fn lemma_interface_flags(a: Interface, b: Interface)
    ensures
        interface_flag(a) != 0,
        a != b ==> interface_flag(a) & interface_flag(b) == 0,
{
    let x = interface_index(a);
    let y = interface_index(b);
    lemma_interface_index(a);
    lemma_interface_index(b);
    assert(x < 32 ==> (1u32 << x) != 0) by (bit_vector);
    if a != b {
        assert(x != y);
        assert(x < 32 && y < 32 && x != y ==> (1u32 << x) & (1u32 << y) == 0) by (bit_vector);
    }
}

impl Interface {
    /// The position of the interface in the declaration, from zero.
    pub fn index(&self) -> (n: u32)
        ensures
            n == interface_index(*self),
    {
        match self {
            Interface::Accessible => 0,
            Interface::Action => 1,
            Interface::Application => 2,
            Interface::Cache => 3,
            Interface::Collection => 4,
            Interface::Component => 5,
            Interface::Document => 6,
            Interface::DeviceEventController => 7,
            Interface::DeviceEventListener => 8,
            Interface::EditableText => 9,
            Interface::Hyperlink => 10,
            Interface::Hypertext => 11,
            Interface::Image => 12,
            Interface::Registry => 13,
            Interface::Selection => 14,
            Interface::Socket => 15,
            Interface::Table => 16,
            Interface::TableCell => 17,
            Interface::Text => 18,
            Interface::Value => 19,
        }
    }

    /// The interface at a position of the declaration, if there is one.
    pub fn from_index(n: u32) -> (r: Option<Interface>)
        ensures
            r is Some <==> n < INTERFACE_COUNT,
            r matches Some(i) ==> i == interface_at(n) && interface_index(i) == n,
    {
        if n == 0 {
            Some(Interface::Accessible)
        } else if n == 1 {
            Some(Interface::Action)
        } else if n == 2 {
            Some(Interface::Application)
        } else if n == 3 {
            Some(Interface::Cache)
        } else if n == 4 {
            Some(Interface::Collection)
        } else if n == 5 {
            Some(Interface::Component)
        } else if n == 6 {
            Some(Interface::Document)
        } else if n == 7 {
            Some(Interface::DeviceEventController)
        } else if n == 8 {
            Some(Interface::DeviceEventListener)
        } else if n == 9 {
            Some(Interface::EditableText)
        } else if n == 10 {
            Some(Interface::Hyperlink)
        } else if n == 11 {
            Some(Interface::Hypertext)
        } else if n == 12 {
            Some(Interface::Image)
        } else if n == 13 {
            Some(Interface::Registry)
        } else if n == 14 {
            Some(Interface::Selection)
        } else if n == 15 {
            Some(Interface::Socket)
        } else if n == 16 {
            Some(Interface::Table)
        } else if n == 17 {
            Some(Interface::TableCell)
        } else if n == 18 {
            Some(Interface::Text)
        } else if n == 19 {
            Some(Interface::Value)
        } else {
            None
        }
    }

    /// The bit of the interface in a set.
    pub fn flag(&self) -> (f: u32)
        ensures
            f == interface_flag(*self),
    {
        let n = self.index();
        1u32 << n
    }

    /// The D-Bus name of the interface, such as `org.a11y.atspi.Accessible`.
    pub fn dbus_name(&self) -> (s: &'static str)
        ensures
            s@ == interface_name(*self),
    {
        match self {
            Interface::Accessible => "org.a11y.atspi.Accessible",
            Interface::Action => "org.a11y.atspi.Action",
            Interface::Application => "org.a11y.atspi.Application",
            Interface::Cache => "org.a11y.atspi.Cache",
            Interface::Collection => "org.a11y.atspi.Collection",
            Interface::Component => "org.a11y.atspi.Component",
            Interface::Document => "org.a11y.atspi.Document",
            Interface::DeviceEventController => "org.a11y.atspi.DeviceEventController",
            Interface::DeviceEventListener => "org.a11y.atspi.DeviceEventListener",
            Interface::EditableText => "org.a11y.atspi.EditableText",
            Interface::Hyperlink => "org.a11y.atspi.Hyperlink",
            Interface::Hypertext => "org.a11y.atspi.Hypertext",
            Interface::Image => "org.a11y.atspi.Image",
            Interface::Registry => "org.a11y.atspi.Registry",
            Interface::Selection => "org.a11y.atspi.Selection",
            Interface::Socket => "org.a11y.atspi.Socket",
            Interface::Table => "org.a11y.atspi.Table",
            Interface::TableCell => "org.a11y.atspi.TableCell",
            Interface::Text => "org.a11y.atspi.Text",
            Interface::Value => "org.a11y.atspi.Value",
        }
    }

    /// The interface with the given D-Bus name; `None` for a name that is no interface's.
    pub fn from_dbus_name(name: &str) -> (r: Option<Interface>)
        ensures
            r matches Some(i) ==> name@ == interface_name(i),
            r is None ==> forall|i: Interface| name@ != #[trigger] interface_name(i),
    {
        let chars = chars_of(name);
        let mut n: u32 = 0;
        while n < INTERFACE_COUNT
            invariant
                n <= INTERFACE_COUNT,
                chars@ == name@,
                forall|m: u32| m < n ==> name@ != #[trigger] interface_name(interface_at(m)),
            decreases INTERFACE_COUNT - n,
        {
            if let Some(i) = Interface::from_index(n) {
                if matches_exactly(chars.as_slice(), i.dbus_name()) {
                    return Some(i);
                }
            }
            n = n + 1;
        }
        assert forall|i: Interface| name@ != #[trigger] interface_name(i) by {
            lemma_interface_index(i);
            assert(name@ != interface_name(interface_at(interface_index(i))));
        }
        None
    }
}

/// A set of interfaces: one bit per interface.
#[derive(Clone, Copy, Debug, PartialEq, Eq, Hash, Structural)]
pub struct InterfaceSet {
    /// One bit per interface.
    pub bits: u32,
}

/// Every bit that stands for an interface.
pub const ALL_INTERFACE_BITS: u32 = 0xf_ffff;

impl InterfaceSet {
    /// The bits of the set.
    pub open spec fn spec_bits(self) -> u32 {
        self.bits
    }

    /// Whether the set holds the interface.
    pub open spec fn has(self, i: Interface) -> bool {
        self.spec_bits() & interface_flag(i) != 0
    }

    /// The set of the one interface.
    pub fn new(i: Interface) -> (s: InterfaceSet)
        ensures
            s.spec_bits() == interface_flag(i),
    {
        InterfaceSet { bits: i.flag() }
    }

    /// The set of the given bits, without those that stand for no interface.
    pub fn from_bits_truncate(bits: u32) -> (s: InterfaceSet)
        ensures
            s.spec_bits() == bits & ALL_INTERFACE_BITS,
    {
        InterfaceSet { bits: bits & ALL_INTERFACE_BITS }
    }

    /// The empty set.
    pub fn empty() -> (s: InterfaceSet)
        ensures
            s.spec_bits() == 0,
    {
        InterfaceSet { bits: 0 }
    }

    /// The set of every interface.
    pub fn all() -> (s: InterfaceSet)
        ensures
            s.spec_bits() == ALL_INTERFACE_BITS,
    {
        InterfaceSet { bits: ALL_INTERFACE_BITS }
    }

    /// The bits of the set.
    pub fn bits(&self) -> (b: u32)
        ensures
            b == self.spec_bits(),
    {
        self.bits
    }

    /// Whether the set holds the interface.
    pub fn contains(self, i: Interface) -> (b: bool)
        ensures
            b == self.has(i),
    {
        self.bits & i.flag() != 0
    }

    /// Add the interface to the set.
    pub fn insert(&mut self, i: Interface)
        ensures
            final(self).spec_bits() == old(self).spec_bits() | interface_flag(i),
    {
        self.bits = self.bits | i.flag();
    }

    /// The interfaces of the set, in the order of their declaration.
    pub fn iter(self) -> (v: Vec<Interface>)
        ensures
            v@ == Seq::new(INTERFACE_COUNT as nat, |n: int| interface_at(n as u32)).filter(
                |i: Interface| self.has(i),
            ),
    {
        let mut v: Vec<Interface> = Vec::new();
        let ghost all = Seq::new(INTERFACE_COUNT as nat, |n: int| interface_at(n as u32));
        let ghost pred = |i: Interface| self.has(i);
        let mut n: u32 = 0;
        while n < INTERFACE_COUNT
            invariant
                n <= INTERFACE_COUNT,
                all == Seq::new(INTERFACE_COUNT as nat, |n: int| interface_at(n as u32)),
                pred == (|i: Interface| self.has(i)),
                v@ == all.take(n as int).filter(pred),
            decreases INTERFACE_COUNT - n,
        {
            proof {
                reveal_with_fuel(Seq::filter, 1);
                assert(all.take(n + 1).drop_last() == all.take(n as int));
            }
            if let Some(i) = Interface::from_index(n) {
                if self.contains(i) {
                    v.push(i);
                }
            }
            n = n + 1;
        }
        assert(all.take(INTERFACE_COUNT as int) == all);
        v
    }
}

impl From<Interface> for InterfaceSet {
    fn from(i: Interface) -> (s: InterfaceSet) {
        InterfaceSet::new(i)
    }
}

impl vstd::std_specs::convert::FromSpecImpl<Interface> for InterfaceSet {
    open spec fn obeys_from_spec() -> bool {
        true
    }

    open spec fn from_spec(i: Interface) -> InterfaceSet {
        InterfaceSet { bits: interface_flag(i) }
    }
}

impl core::ops::BitAnd for InterfaceSet {
    type Output = InterfaceSet;

    fn bitand(self, other: InterfaceSet) -> (s: InterfaceSet) {
        InterfaceSet { bits: self.bits & other.bits }
    }
}

impl vstd::std_specs::ops::BitAndSpecImpl for InterfaceSet {
    open spec fn obeys_bitand_spec() -> bool {
        true
    }

    open spec fn bitand_req(self, other: InterfaceSet) -> bool {
        true
    }

    open spec fn bitand_spec(self, other: InterfaceSet) -> InterfaceSet {
        InterfaceSet { bits: self.bits & other.bits }
    }
}

impl core::ops::BitXor for InterfaceSet {
    type Output = InterfaceSet;

    fn bitxor(self, other: InterfaceSet) -> (s: InterfaceSet) {
        InterfaceSet { bits: self.bits ^ other.bits }
    }
}

impl vstd::std_specs::ops::BitXorSpecImpl for InterfaceSet {
    open spec fn obeys_bitxor_spec() -> bool {
        true
    }

    open spec fn bitxor_req(self, other: InterfaceSet) -> bool {
        true
    }

    open spec fn bitxor_spec(self, other: InterfaceSet) -> InterfaceSet {
        InterfaceSet { bits: self.bits ^ other.bits }
    }
}

/// An interface added to a set is held by it, and every interface held before still is.
pub proof fn lemma_insert_holds(s: InterfaceSet, i: Interface, j: Interface)
    ensures
        (InterfaceSet { bits: s.spec_bits() | interface_flag(i) }).has(i),
        s.has(j) ==> (InterfaceSet { bits: s.spec_bits() | interface_flag(i) }).has(j),
        j != i ==> ((InterfaceSet { bits: s.spec_bits() | interface_flag(i) }).has(j) <==> s.has(j)),
{
    let b = s.spec_bits();
    let f = interface_flag(i);
    let g = interface_flag(j);
    lemma_interface_flags(i, j);
    assert(f != 0 ==> (b | f) & f != 0) by (bit_vector);
    assert(b & g != 0 ==> (b | f) & g != 0) by (bit_vector);
    assert(f & g == 0 ==> ((b | f) & g != 0 <==> b & g != 0)) by (bit_vector);
}

} // verus!
