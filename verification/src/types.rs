//! Values of attributes seen on the web or through toolkits, as explicit types.

use vstd::prelude::*;

verus! {

/// The possible values of an `aria-live` field.
#[derive(Debug, PartialEq, Eq, Hash)]
pub enum AriaLive {
    /// No live region.
    Off,
    /// Spoken as more important than other text, usually interrupting it.
    Assertive,
    /// Spoken whenever it can be, once other text is done.
    Polite,
    /// Any other value.
    Other(String),
}

/// Whether an item is an `aria-atomic` region.
pub type AriaAtomic = bool;

/// The kinds of elements the screen reader distinguishes.
#[derive(Copy, Clone, Debug, Eq, PartialEq, Hash, Structural)]
pub enum ElementType {
    Heading,
    HeadingLevel1,
    HeadingLevel2,
    HeadingLevel3,
    HeadingLevel4,
    HeadingLevel5,
    HeadingLevel6,
    Button,
    Text,
    Table,
    TableCell,
    List,
    ListItem,
    Video,
    Audio,
    Link,
    Tab,
}

/// The relative coordinate type.
#[derive(Clone, Copy, Debug, PartialEq, Eq, Structural)]
pub enum CoordType {
    /// In relation to the entire screen.
    Screen,
    /// In relation to only the window.
    Window,
    /// In relation to the parent of the element being checked.
    Parent,
}

/// Extra operations on hyperlinks.
pub trait HyperlinkPlus {
}

} // verus!
