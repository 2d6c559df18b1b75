//! The record the cache keeps of each accessible, and the changes events make to it.

use crate::accessible::AccessiblePrimitive;
use crate::interfaces::InterfaceSet;
use crate::states::StateSet;
use crate::text::{chars_of, string_of};
use atspi_common::Role;
use vstd::prelude::*;

verus! {

/// An accessible, as the cache holds it. To get any information other than the stored
/// role, interfaces, states and texts, query the accessible itself.
#[derive(Debug)]
pub struct CacheItem {
    /// The accessible object (within the application).
    pub object: AccessiblePrimitive,
    /// The application (its root object).
    pub app: AccessiblePrimitive,
    /// The parent object.
    pub parent: AccessiblePrimitive,
    /// The accessible's index in its parent.
    pub index: Option<usize>,
    /// Child count of the accessible.
    pub children_num: Option<usize>,
    /// The exposed interfaces.
    pub interfaces: InterfaceSet,
    /// Accessible role.
    pub role: Role,
    /// The states applicable to the accessible.
    pub states: StateSet,
    /// The children of the accessible.
    pub children: Vec<AccessiblePrimitive>,
    /// The human-readable short name of the item; `None` if the name is empty.
    pub name: Option<String>,
    /// The human-readable longer name (description) of the item; `None` if it is empty.
    pub description: Option<String>,
    /// The help text of the item; `None` if it is empty.
    pub help_text: Option<String>,
    /// The text of the item; `None` if the text interface is not implemented or the text is
    /// empty.
    pub text: Option<String>,
}

/// An item as an application announces it when it adds an accessible.
pub struct AnnouncedItem {
    /// The accessible object (within the application).
    pub object: AccessiblePrimitive,
    /// The application (its root object).
    pub app: AccessiblePrimitive,
    /// The parent object.
    pub parent: AccessiblePrimitive,
    /// The accessible's index in its parent.
    pub index: i32,
    /// Child count of the accessible.
    pub children: i32,
    /// The exposed interfaces.
    pub ifaces: InterfaceSet,
    /// The short localized name.
    pub short_name: String,
    /// Accessible role.
    pub role: Role,
    /// The more detailed localized name.
    pub name: String,
    /// The states applicable to the accessible.
    pub states: StateSet,
}

/// An item as an application announces it in the legacy form, with its children listed.
pub struct LegacyAnnouncedItem {
    /// The accessible object (within the application).
    pub object: AccessiblePrimitive,
    /// The application (its root object).
    pub app: AccessiblePrimitive,
    /// The parent object.
    pub parent: AccessiblePrimitive,
    /// The children of the accessible.
    pub children: Vec<AccessiblePrimitive>,
    /// The exposed interfaces.
    pub ifaces: InterfaceSet,
    /// The short localized name.
    pub short_name: String,
    /// Accessible role.
    pub role: Role,
    /// The more detailed localized name.
    pub name: String,
    /// The states applicable to the accessible.
    pub states: StateSet,
}

/// What a cache item holds, as values.
pub struct CacheItemView {
    pub object: (Seq<char>, Seq<char>),
    pub app: (Seq<char>, Seq<char>),
    pub parent: (Seq<char>, Seq<char>),
    pub index: Option<usize>,
    pub children_num: Option<usize>,
    pub interfaces: InterfaceSet,
    pub role: Role,
    pub states: StateSet,
    pub children: Seq<(Seq<char>, Seq<char>)>,
    pub name: Option<Seq<char>>,
    pub description: Option<Seq<char>>,
    pub help_text: Option<Seq<char>>,
    pub text: Option<Seq<char>>,
}

/// The characters of an optional string.
pub open spec fn opt_chars(s: Option<String>) -> Option<Seq<char>> {
    match s {
        Some(t) => Some(t@),
        None => None,
    }
}

/// The keys of a list of accessibles.
pub open spec fn keys_view(v: Seq<AccessiblePrimitive>) -> Seq<(Seq<char>, Seq<char>)> {
    v.map_values(|k: AccessiblePrimitive| k@)
}

impl View for CacheItem {
    type V = CacheItemView;

    open spec fn view(&self) -> CacheItemView {
        CacheItemView {
            object: self.object@,
            app: self.app@,
            parent: self.parent@,
            index: self.index,
            children_num: self.children_num,
            interfaces: self.interfaces,
            role: self.role,
            states: self.states,
            children: keys_view(self.children@),
            name: opt_chars(self.name),
            description: opt_chars(self.description),
            help_text: opt_chars(self.help_text),
            text: opt_chars(self.text),
        }
    }
}

/// A copy of a list of keys.
fn clone_keys(v: &Vec<AccessiblePrimitive>) -> (r: Vec<AccessiblePrimitive>)
    ensures
        r@ == v@,
{
    let mut r: Vec<AccessiblePrimitive> = Vec::new();
    let mut i: usize = 0;
    while i < v.len()
        invariant
            i <= v@.len(),
            r@ == v@.take(i as int),
        decreases v.len() - i,
    {
        r.push(v[i].clone());
        i = i + 1;
        assert(r@ =~= v@.take(i as int));
    }
    assert(v@.take(v@.len() as int) =~= v@);
    r
}

/// A copy of an optional string.
fn clone_opt(s: &Option<String>) -> (r: Option<String>)
    ensures
        r == *s,
{
    match s {
        Some(t) => Some(t.clone()),
        None => None,
    }
}

impl Clone for CacheItem {
    fn clone(&self) -> (r: CacheItem)
        ensures
            r@ == self@,
    {
        CacheItem {
            object: self.object.clone(),
            app: self.app.clone(),
            parent: self.parent.clone(),
            index: self.index,
            children_num: self.children_num,
            interfaces: self.interfaces,
            role: self.role,
            states: self.states,
            children: clone_keys(&self.children),
            name: clone_opt(&self.name),
            description: clone_opt(&self.description),
            help_text: clone_opt(&self.help_text),
            text: clone_opt(&self.text),
        }
    }
}

/// A text, or `None` when it is empty.
pub open spec fn nonempty_chars(s: Seq<char>) -> Option<Seq<char>> {
    if s.len() == 0 {
        None
    } else {
        Some(s)
    }
}

/// The text, or `None` when it is empty.
pub fn non_empty(s: String) -> (r: Option<String>)
    ensures
        opt_chars(r) == nonempty_chars(s@),
{
    if s.as_str().is_empty() {
        None
    } else {
        Some(s)
    }
}

/// An index or count as the protocol gives it (signed), as a size: `None` when negative.
pub open spec fn index_of(i: i32) -> Option<usize> {
    if i >= 0 {
        Some(i as usize)
    } else {
        None
    }
}

/// An index or count as the protocol gives it (signed), as a size: `None` when negative.
pub fn to_index(i: i32) -> (r: Option<usize>)
    ensures
        r == index_of(i),
{
    if i >= 0 {
        Some(i as usize)
    } else {
        None
    }
}

/// The text of an accessible's text interface: `None` when it has none (or it could not be
/// read) or the text is empty.
pub open spec fn text_view(text: Option<String>) -> Option<Seq<char>> {
    match text {
        Some(t) => nonempty_chars(t@),
        None => None,
    }
}

impl CacheItem {
    /// The cache item of an accessible from what its application says of it: empty texts
    /// become `None`, and negative indices or counts too.
    pub fn from_parts(
        object: AccessiblePrimitive,
        app: AccessiblePrimitive,
        parent: AccessiblePrimitive,
        index: i32,
        children_num: i32,
        interfaces: InterfaceSet,
        role: Role,
        states: StateSet,
        children: Vec<AccessiblePrimitive>,
        name: String,
        description: String,
        help_text: String,
        text: Option<String>,
    ) -> (r: CacheItem)
        ensures
            r@ == (CacheItemView {
                object: object@,
                app: app@,
                parent: parent@,
                index: index_of(index),
                children_num: index_of(children_num),
                interfaces,
                role,
                states,
                children: keys_view(children@),
                name: nonempty_chars(name@),
                description: nonempty_chars(description@),
                help_text: nonempty_chars(help_text@),
                text: text_view(text),
            }),
    {
        let text = match text {
            Some(t) => non_empty(t),
            None => None,
        };
        CacheItem {
            object,
            app,
            parent,
            index: to_index(index),
            children_num: to_index(children_num),
            interfaces,
            role,
            states,
            children,
            name: non_empty(name),
            description: non_empty(description),
            help_text: non_empty(help_text),
            text,
        }
    }

    /// The cache item of an announced accessible, completed with what else its application
    /// says of it. The short name is the item's name.
    pub fn from_announced(
        ci: AnnouncedItem,
        description: String,
        help_text: String,
        text: Option<String>,
        children: Vec<AccessiblePrimitive>,
    ) -> (r: CacheItem)
        ensures
            r@ == (CacheItemView {
                object: ci.object@,
                app: ci.app@,
                parent: ci.parent@,
                index: index_of(ci.index),
                children_num: index_of(ci.children),
                interfaces: ci.ifaces,
                role: ci.role,
                states: ci.states,
                children: keys_view(children@),
                name: nonempty_chars(ci.short_name@),
                description: nonempty_chars(description@),
                help_text: nonempty_chars(help_text@),
                text: text_view(text),
            }),
    {
        CacheItem::from_parts(
            ci.object,
            ci.app,
            ci.parent,
            ci.index,
            ci.children,
            ci.ifaces,
            ci.role,
            ci.states,
            children,
            ci.short_name,
            description,
            help_text,
            text,
        )
    }

    /// The cache item of an accessible announced in the legacy form, completed with what
    /// else its application says of it. The children are those announced, and their number
    /// is the child count.
    pub fn from_legacy_announced(
        ci: LegacyAnnouncedItem,
        description: String,
        help_text: String,
        text: Option<String>,
        index: i32,
    ) -> (r: CacheItem)
        ensures
            r@ == (CacheItemView {
                object: ci.object@,
                app: ci.app@,
                parent: ci.parent@,
                index: index_of(index),
                children_num: Some(ci.children@.len() as usize),
                interfaces: ci.ifaces,
                role: ci.role,
                states: ci.states,
                children: keys_view(ci.children@),
                name: nonempty_chars(ci.name@),
                description: nonempty_chars(description@),
                help_text: nonempty_chars(help_text@),
                text: text_view(text),
            }),
    {
        let n = ci.children.len();
        let text = match text {
            Some(t) => non_empty(t),
            None => None,
        };
        CacheItem {
            object: ci.object,
            app: ci.app,
            parent: ci.parent,
            index: to_index(index),
            children_num: Some(n),
            interfaces: ci.ifaces,
            role: ci.role,
            states: ci.states,
            children: ci.children,
            name: non_empty(ci.name),
            description: non_empty(description),
            help_text: non_empty(help_text),
            text,
        }
    }
}

/// Whether text is inserted or deleted, a child added or removed.
#[derive(Clone, Copy, Debug, PartialEq, Eq, Hash, Structural)]
pub enum Operation {
    Insert,
    Delete,
}

/// The number of bytes of the character in UTF-8.
pub open spec fn utf8_width(c: char) -> int {
    if (c as u32) < 0x80 {
        1
    } else if (c as u32) < 0x800 {
        2
    } else if (c as u32) < 0x10000 {
        3
    } else {
        4
    }
}

/// How many leading characters of `s` start at a byte offset below `start`.
pub open spec fn chars_before(s: Seq<char>, start: int) -> nat
    decreases s.len(),
{
    if s.len() == 0 || start <= 0 {
        0
    } else {
        1 + chars_before(s.drop_first(), start - utf8_width(s[0]))
    }
}

/// The text with `ins` put in at byte offset `start`: the characters that start before that
/// offset, then `ins`, then the rest.
pub open spec fn text_inserted(s: Seq<char>, start: int, ins: Seq<char>) -> Seq<char> {
    s.take(chars_before(s, start) as int) + ins + s.skip(chars_before(s, start) as int)
}

/// The text without the characters that start at a byte offset in `start .. start + len`.
pub open spec fn text_deleted(s: Seq<char>, start: int, len: int) -> Seq<char> {
    s.take(chars_before(s, start) as int) + s.skip(chars_before(s, start + len) as int)
}

/// A later cut never comes before an earlier one.
pub proof fn lemma_chars_before_monotonic(s: Seq<char>, a: int, b: int)
    requires
        a <= b,
    ensures
        chars_before(s, a) <= chars_before(s, b) <= s.len(),
    decreases s.len(),
{
    if s.len() > 0 && a > 0 {
        lemma_chars_before_monotonic(s.drop_first(), a - utf8_width(s[0]), b - utf8_width(s[0]));
    } else if s.len() > 0 && b > 0 {
        lemma_chars_before_monotonic(s.drop_first(), b - utf8_width(s[0]), b - utf8_width(s[0]));
    }
}

/// The number of bytes of the character in UTF-8.
pub fn char_width(c: char) -> (w: u64)
    ensures
        w == utf8_width(c),
{
    let u = c as u32;
    if u < 0x80 {
        1
    } else if u < 0x800 {
        2
    } else if u < 0x10000 {
        3
    } else {
        4
    }
}

/// How many leading characters start at a byte offset below `start`.
pub fn count_chars_before(v: &[char], start: u64) -> (k: usize)
    requires
        start < u64::MAX / 2,
    ensures
        k == chars_before(v@, start as int),
{
    let mut i: usize = 0;
    let mut pos: u64 = 0;
    assert(v@.skip(0) == v@);
    while i < v.len() && pos < start
        invariant
            i <= v@.len(),
            pos <= start + 4,
            start < u64::MAX / 2,
            chars_before(v@, start as int) == i + chars_before(v@.skip(i as int), start - pos),
        decreases v.len() - i,
    {
        proof {
            assert(v@.skip(i as int).drop_first() == v@.skip(i + 1));
            assert(v@.skip(i as int)[0] == v@[i as int]);
        }
        pos = pos + char_width(v[i]);
        i = i + 1;
    }
    i
}

/// The characters `a`, then `b`, then `c`.
fn concat3(a: &[char], b: &[char], c: &[char]) -> (r: Vec<char>)
    ensures
        r@ == a@ + b@ + c@,
{
    let mut r: Vec<char> = Vec::new();
    let mut i: usize = 0;
    while i < a.len()
        invariant
            i <= a@.len(),
            r@ == a@.take(i as int),
        decreases a.len() - i,
    {
        r.push(a[i]);
        i = i + 1;
        assert(r@ =~= a@.take(i as int));
    }
    assert(a@.take(a@.len() as int) =~= a@);
    let mut j: usize = 0;
    while j < b.len()
        invariant
            j <= b@.len(),
            r@ == a@ + b@.take(j as int),
        decreases b.len() - j,
    {
        r.push(b[j]);
        j = j + 1;
        assert(r@ =~= a@ + b@.take(j as int));
    }
    assert(b@.take(b@.len() as int) =~= b@);
    let mut k: usize = 0;
    while k < c.len()
        invariant
            k <= c@.len(),
            r@ == a@ + b@ + c@.take(k as int),
        decreases c.len() - k,
    {
        r.push(c[k]);
        k = k + 1;
        assert(r@ =~= a@ + b@ + c@.take(k as int));
    }
    assert(c@.take(c@.len() as int) =~= c@);
    r
}

/// The characters of `v` from `a` to `b`.
fn slice_chars(v: &[char], a: usize, b: usize) -> (r: Vec<char>)
    requires
        a <= b <= v@.len(),
    ensures
        r@ == v@.subrange(a as int, b as int),
{
    let mut r: Vec<char> = Vec::new();
    let mut i: usize = a;
    while i < b
        invariant
            a <= i <= b,
            b <= v@.len(),
            r@ == v@.subrange(a as int, i as int),
        decreases b - i,
    {
        r.push(v[i]);
        i = i + 1;
        assert(r@ =~= v@.subrange(a as int, i as int));
    }
    r
}

/// `text` with `ins` put in at byte offset `start`.
pub fn insert_text(text: &str, start: u64, ins: &str) -> (r: String)
    requires
        start < u64::MAX / 2,
    ensures
        r@ == text_inserted(text@, start as int, ins@),
{
    let v = chars_of(text);
    let w = chars_of(ins);
    let k = count_chars_before(v.as_slice(), start);
    proof {
        lemma_chars_before_monotonic(v@, start as int, start as int);
    }
    let before = slice_chars(v.as_slice(), 0, k);
    let after = slice_chars(v.as_slice(), k, v.len());
    let all = concat3(before.as_slice(), w.as_slice(), after.as_slice());
    proof {
        assert(v@.subrange(0, k as int) == v@.take(k as int));
        assert(v@.subrange(k as int, v@.len() as int) == v@.skip(k as int));
    }
    string_of(all.as_slice())
}

/// `text` without the characters that start at a byte offset in `start .. start + len`.
pub fn delete_text(text: &str, start: u64, len: u64) -> (r: String)
    requires
        start < u64::MAX / 4,
        len < u64::MAX / 4,
    ensures
        r@ == text_deleted(text@, start as int, len as int),
{
    let v = chars_of(text);
    let k1 = count_chars_before(v.as_slice(), start);
    let k2 = count_chars_before(v.as_slice(), start + len);
    proof {
        lemma_chars_before_monotonic(v@, start as int, (start + len) as int);
    }
    let before = slice_chars(v.as_slice(), 0, k1);
    let after = slice_chars(v.as_slice(), k2, v.len());
    let none: Vec<char> = Vec::new();
    let all = concat3(before.as_slice(), none.as_slice(), after.as_slice());
    proof {
        assert(v@.subrange(0, k1 as int) == v@.take(k1 as int));
        assert(v@.subrange(k2 as int, v@.len() as int) == v@.skip(k2 as int));
        assert(before@ + none@ + after@ == before@ + after@);
    }
    string_of(all.as_slice())
}

} // verus!
