//! The key by which the cache knows an accessible: the bus name of its application and its
//! object path.

use vstd::prelude::*;

verus! {

/// The bare minimum of an accessible for purposes of caching.
#[derive(Debug, PartialEq, Eq, Hash, PartialOrd, Ord)]
pub struct AccessiblePrimitive {
    /// The unique bus name of the application, such as `:1.262`.
    pub sender: String,
    /// The object path of the accessible, unique within its application, such as
    /// `/org/a11y/atspi/accessible/root`.
    pub id: String,
}

impl View for AccessiblePrimitive {
    type V = (Seq<char>, Seq<char>);

    open spec fn view(&self) -> (Seq<char>, Seq<char>) {
        (self.sender@, self.id@)
    }
}

impl Clone for AccessiblePrimitive {
    fn clone(&self) -> (r: AccessiblePrimitive)
        ensures
            r == *self,
    {
        AccessiblePrimitive { sender: self.sender.clone(), id: self.id.clone() }
    }
}

impl AccessiblePrimitive {
    /// The key of the accessible an event comes from: the event's sender and object path.
    pub fn from_event(sender: &str, path: &str) -> (r: AccessiblePrimitive)
        ensures
            r@ == (sender@, path@),
    {
        AccessiblePrimitive { id: path.to_owned(), sender: sender.to_owned() }
    }

    /// Whether the two keys name the same accessible.
    pub fn same(&self, other: &AccessiblePrimitive) -> (b: bool)
        ensures
            b == (self@ == other@),
    {
        self.sender == other.sender && self.id == other.id
    }
}

} // verus!
