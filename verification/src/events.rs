//! Events which can be triggered through Odilia's external API.

use crate::modes::ScreenReaderMode;
use atspi_common::Role;
use vstd::prelude::*;

verus! {

/// A list of features supported natively by Odilia.
#[derive(Clone, Copy, PartialEq, Eq, Debug, Hash, Structural)]
pub enum Feature {
    /// Unimplemented, but will eventually stop all speech until re-activated.
    Speech,
    /// Unimplemented.
    Braille,
}

/// A direction of travel through a document.
#[derive(Clone, Copy, PartialEq, Eq, Debug, Hash, Structural)]
pub enum Direction {
    Forward,
    Backward,
}

/// Stop all current speech.
#[derive(Clone, Copy, PartialEq, Eq, Debug, Structural)]
pub struct StopSpeech;

/// Enable a feature.
#[derive(Clone, Copy, PartialEq, Eq, Debug, Structural)]
pub struct Enable(pub Feature);

/// Disable a feature.
#[derive(Clone, Copy, PartialEq, Eq, Debug, Structural)]
pub struct Disable(pub Feature);

/// Change the mode of the screen reader.
#[derive(Clone, Copy, PartialEq, Eq, Debug, Structural)]
pub struct ChangeMode(pub ScreenReaderMode);

/// Navigate to the next item with the given role, in the given direction.
#[derive(Clone, Copy, PartialEq, Eq, Debug)]
pub struct StructuralNavigation(pub Direction, pub Role);

/// Quit the screen reader.
#[derive(Clone, Copy, PartialEq, Eq, Debug, Structural)]
pub struct Quit;

/// Events which can be trigged through Odilia's external API.
#[derive(Clone, Copy, PartialEq, Eq, Debug)]
pub enum ScreenReaderEvent {
    /// Stop all current speech.
    StopSpeech(StopSpeech),
    /// Enable a feature.
    Enable(Enable),
    /// Disable a feature.
    Disable(Disable),
    /// Change mode of the screen reader.
    ChangeMode(ChangeMode),
    /// Navigate to the next [`Role`] in [`Direction`] by depth-first search.
    StructuralNavigation(StructuralNavigation),
    /// Quit the screen reader.
    Quit(Quit),
}

/// The kind of a [`ScreenReaderEvent`], without its data.
#[derive(Clone, Copy, PartialEq, Eq, Debug, Hash, PartialOrd, Ord, Structural)]
pub enum ScreenReaderEventDiscriminants {
    StopSpeech,
    Enable,
    Disable,
    ChangeMode,
    StructuralNavigation,
    Quit,
}

/// The kind of a [`ScreenReaderEvent`], in spec.
pub open spec fn event_kind(ev: ScreenReaderEvent) -> ScreenReaderEventDiscriminants {
    match ev {
        ScreenReaderEvent::StopSpeech(_) => ScreenReaderEventDiscriminants::StopSpeech,
        ScreenReaderEvent::Enable(_) => ScreenReaderEventDiscriminants::Enable,
        ScreenReaderEvent::Disable(_) => ScreenReaderEventDiscriminants::Disable,
        ScreenReaderEvent::ChangeMode(_) => ScreenReaderEventDiscriminants::ChangeMode,
        ScreenReaderEvent::StructuralNavigation(_) => ScreenReaderEventDiscriminants::StructuralNavigation,
        ScreenReaderEvent::Quit(_) => ScreenReaderEventDiscriminants::Quit,
    }
}

/// A payload type with a fixed event kind.
pub trait EventType {
    /// The kind of event this payload belongs to.
    fn etype_of() -> (d: ScreenReaderEventDiscriminants);
}

/// Something that knows the kind of event it is.
pub trait EventTypeDynamic {
    /// The kind of event.
    fn etype(&self) -> ScreenReaderEventDiscriminants;
}

impl EventTypeDynamic for ScreenReaderEvent {
    fn etype(&self) -> (d: ScreenReaderEventDiscriminants)
        ensures
            d == event_kind(*self),
    {
        match self {
            ScreenReaderEvent::StopSpeech(_) => ScreenReaderEventDiscriminants::StopSpeech,
            ScreenReaderEvent::Enable(_) => ScreenReaderEventDiscriminants::Enable,
            ScreenReaderEvent::Disable(_) => ScreenReaderEventDiscriminants::Disable,
            ScreenReaderEvent::ChangeMode(_) => ScreenReaderEventDiscriminants::ChangeMode,
            ScreenReaderEvent::StructuralNavigation(_) => ScreenReaderEventDiscriminants::StructuralNavigation,
            ScreenReaderEvent::Quit(_) => ScreenReaderEventDiscriminants::Quit,
        }
    }
}

impl EventType for StopSpeech {
    fn etype_of() -> (d: ScreenReaderEventDiscriminants)
        ensures
            d == ScreenReaderEventDiscriminants::StopSpeech,
    {
        ScreenReaderEventDiscriminants::StopSpeech
    }
}

impl EventType for Enable {
    fn etype_of() -> (d: ScreenReaderEventDiscriminants)
        ensures
            d == ScreenReaderEventDiscriminants::Enable,
    {
        ScreenReaderEventDiscriminants::Enable
    }
}

impl EventType for Disable {
    fn etype_of() -> (d: ScreenReaderEventDiscriminants)
        ensures
            d == ScreenReaderEventDiscriminants::Disable,
    {
        ScreenReaderEventDiscriminants::Disable
    }
}

impl EventType for ChangeMode {
    fn etype_of() -> (d: ScreenReaderEventDiscriminants)
        ensures
            d == ScreenReaderEventDiscriminants::ChangeMode,
    {
        ScreenReaderEventDiscriminants::ChangeMode
    }
}

impl EventType for StructuralNavigation {
    fn etype_of() -> (d: ScreenReaderEventDiscriminants)
        ensures
            d == ScreenReaderEventDiscriminants::StructuralNavigation,
    {
        ScreenReaderEventDiscriminants::StructuralNavigation
    }
}

impl EventType for Quit {
    fn etype_of() -> (d: ScreenReaderEventDiscriminants)
        ensures
            d == ScreenReaderEventDiscriminants::Quit,
    {
        ScreenReaderEventDiscriminants::Quit
    }
}

impl From<StopSpeech> for ScreenReaderEvent {
    fn from(ev: StopSpeech) -> (out: ScreenReaderEvent) {
        ScreenReaderEvent::StopSpeech(ev)
    }
}

impl vstd::std_specs::convert::FromSpecImpl<StopSpeech> for ScreenReaderEvent {
    open spec fn obeys_from_spec() -> bool {
        true
    }

    open spec fn from_spec(ev: StopSpeech) -> ScreenReaderEvent {
        ScreenReaderEvent::StopSpeech(ev)
    }
}

impl From<Enable> for ScreenReaderEvent {
    fn from(ev: Enable) -> (out: ScreenReaderEvent) {
        ScreenReaderEvent::Enable(ev)
    }
}

impl vstd::std_specs::convert::FromSpecImpl<Enable> for ScreenReaderEvent {
    open spec fn obeys_from_spec() -> bool {
        true
    }

    open spec fn from_spec(ev: Enable) -> ScreenReaderEvent {
        ScreenReaderEvent::Enable(ev)
    }
}

impl From<Disable> for ScreenReaderEvent {
    fn from(ev: Disable) -> (out: ScreenReaderEvent) {
        ScreenReaderEvent::Disable(ev)
    }
}

impl vstd::std_specs::convert::FromSpecImpl<Disable> for ScreenReaderEvent {
    open spec fn obeys_from_spec() -> bool {
        true
    }

    open spec fn from_spec(ev: Disable) -> ScreenReaderEvent {
        ScreenReaderEvent::Disable(ev)
    }
}

impl From<ChangeMode> for ScreenReaderEvent {
    fn from(ev: ChangeMode) -> (out: ScreenReaderEvent) {
        ScreenReaderEvent::ChangeMode(ev)
    }
}

impl vstd::std_specs::convert::FromSpecImpl<ChangeMode> for ScreenReaderEvent {
    open spec fn obeys_from_spec() -> bool {
        true
    }

    open spec fn from_spec(ev: ChangeMode) -> ScreenReaderEvent {
        ScreenReaderEvent::ChangeMode(ev)
    }
}

impl From<StructuralNavigation> for ScreenReaderEvent {
    fn from(ev: StructuralNavigation) -> (out: ScreenReaderEvent) {
        ScreenReaderEvent::StructuralNavigation(ev)
    }
}

impl vstd::std_specs::convert::FromSpecImpl<StructuralNavigation> for ScreenReaderEvent {
    open spec fn obeys_from_spec() -> bool {
        true
    }

    open spec fn from_spec(ev: StructuralNavigation) -> ScreenReaderEvent {
        ScreenReaderEvent::StructuralNavigation(ev)
    }
}

impl From<Quit> for ScreenReaderEvent {
    fn from(ev: Quit) -> (out: ScreenReaderEvent) {
        ScreenReaderEvent::Quit(ev)
    }
}

impl vstd::std_specs::convert::FromSpecImpl<Quit> for ScreenReaderEvent {
    open spec fn obeys_from_spec() -> bool {
        true
    }

    open spec fn from_spec(ev: Quit) -> ScreenReaderEvent {
        ScreenReaderEvent::Quit(ev)
    }
}

} // verus!
