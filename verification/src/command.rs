//! Commands: specific, simple changes to the screen reader's state, and the ways values turn
//! into lists of them.

use crate::accessible::AccessiblePrimitive;
use crate::errors::OdiliaError;
use ssip::Priority;
use vstd::prelude::*;

verus! {

#[verifier::external_type_specification]
#[verifier::external_body]
pub struct ExPriority(ssip::Priority);

/// `Clone` of `ssip::Priority`, a field-less enum whose `Clone` is derived: the same variant.
#[verifier::external_body]
fn clone_priority(p: &ssip::Priority) -> (r: ssip::Priority)
    ensures
        r == *p,
{
    p.clone()
}

/// Move the caret to a position.
#[derive(Debug, PartialEq, Eq)]
pub struct CaretPos(pub usize);

/// Speak a text with a priority.
#[derive(Debug, PartialEq, Eq)]
pub struct Speak(pub String, pub Priority);

/// Focus an accessible.
#[derive(Debug, PartialEq, Eq)]
pub struct Focus(pub AccessiblePrimitive);

/// Set or clear a state (given by its bit) of an accessible.
#[derive(Debug, PartialEq, Eq)]
pub struct SetState {
    pub item: AccessiblePrimitive,
    pub state: u64,
    pub enabled: bool,
}

/// A command for the screen reader.
#[derive(Debug, PartialEq, Eq)]
pub enum OdiliaCommand {
    Speak(Speak),
    Focus(Focus),
    CaretPos(CaretPos),
    SetState(SetState),
}

/// The kind of an [`OdiliaCommand`], without its data.
#[derive(Clone, Copy, Debug, PartialEq, Eq, Hash, PartialOrd, Ord, Structural)]
pub enum OdiliaCommandDiscriminants {
    Speak,
    Focus,
    CaretPos,
    SetState,
}

impl Clone for CaretPos {
    fn clone(&self) -> (r: CaretPos)
        ensures
            r == *self,
    {
        CaretPos(self.0)
    }
}

impl Clone for Speak {
    fn clone(&self) -> (r: Speak)
        ensures
            r == *self,
    {
        Speak(self.0.clone(), clone_priority(&self.1))
    }
}

impl Clone for Focus {
    fn clone(&self) -> (r: Focus)
        ensures
            r == *self,
    {
        Focus(self.0.clone())
    }
}

impl Clone for SetState {
    fn clone(&self) -> (r: SetState)
        ensures
            r == *self,
    {
        SetState { item: self.item.clone(), state: self.state, enabled: self.enabled }
    }
}

impl Clone for OdiliaCommand {
    fn clone(&self) -> (r: OdiliaCommand)
        ensures
            r == *self,
    {
        match self {
            OdiliaCommand::Speak(c) => OdiliaCommand::Speak(c.clone()),
            OdiliaCommand::Focus(c) => OdiliaCommand::Focus(c.clone()),
            OdiliaCommand::CaretPos(c) => OdiliaCommand::CaretPos(c.clone()),
            OdiliaCommand::SetState(c) => OdiliaCommand::SetState(c.clone()),
        }
    }
}

/// The kind of a command, in spec.
pub open spec fn command_kind(c: OdiliaCommand) -> OdiliaCommandDiscriminants {
    match c {
        OdiliaCommand::Speak(_) => OdiliaCommandDiscriminants::Speak,
        OdiliaCommand::Focus(_) => OdiliaCommandDiscriminants::Focus,
        OdiliaCommand::CaretPos(_) => OdiliaCommandDiscriminants::CaretPos,
        OdiliaCommand::SetState(_) => OdiliaCommandDiscriminants::SetState,
    }
}

/// A command payload with a fixed kind.
pub trait CommandType {
    /// The kind of command this payload belongs to.
    fn ctype_of() -> OdiliaCommandDiscriminants;
}

/// Something that knows the kind of command it is.
pub trait CommandTypeDynamic {
    /// The kind of command.
    fn ctype(&self) -> OdiliaCommandDiscriminants;
}

impl CommandType for Focus {
    fn ctype_of() -> (d: OdiliaCommandDiscriminants)
        ensures
            d == OdiliaCommandDiscriminants::Focus,
    {
        OdiliaCommandDiscriminants::Focus
    }
}

impl CommandType for SetState {
    fn ctype_of() -> (d: OdiliaCommandDiscriminants)
        ensures
            d == OdiliaCommandDiscriminants::SetState,
    {
        OdiliaCommandDiscriminants::SetState
    }
}

impl CommandType for Speak {
    fn ctype_of() -> (d: OdiliaCommandDiscriminants)
        ensures
            d == OdiliaCommandDiscriminants::Speak,
    {
        OdiliaCommandDiscriminants::Speak
    }
}

impl CommandType for CaretPos {
    fn ctype_of() -> (d: OdiliaCommandDiscriminants)
        ensures
            d == OdiliaCommandDiscriminants::CaretPos,
    {
        OdiliaCommandDiscriminants::CaretPos
    }
}

impl CommandTypeDynamic for Focus {
    fn ctype(&self) -> (d: OdiliaCommandDiscriminants)
        ensures
            d == OdiliaCommandDiscriminants::Focus,
    {
        Focus::ctype_of()
    }
}

impl CommandTypeDynamic for SetState {
    fn ctype(&self) -> (d: OdiliaCommandDiscriminants)
        ensures
            d == OdiliaCommandDiscriminants::SetState,
    {
        SetState::ctype_of()
    }
}

impl CommandTypeDynamic for Speak {
    fn ctype(&self) -> (d: OdiliaCommandDiscriminants)
        ensures
            d == OdiliaCommandDiscriminants::Speak,
    {
        Speak::ctype_of()
    }
}

impl CommandTypeDynamic for CaretPos {
    fn ctype(&self) -> (d: OdiliaCommandDiscriminants)
        ensures
            d == OdiliaCommandDiscriminants::CaretPos,
    {
        CaretPos::ctype_of()
    }
}

impl CommandTypeDynamic for OdiliaCommand {
    fn ctype(&self) -> (d: OdiliaCommandDiscriminants)
        ensures
            d == command_kind(*self),
    {
        match self {
            OdiliaCommand::Speak(c) => c.ctype(),
            OdiliaCommand::Focus(c) => c.ctype(),
            OdiliaCommand::CaretPos(c) => c.ctype(),
            OdiliaCommand::SetState(c) => c.ctype(),
        }
    }
}

impl From<Speak> for OdiliaCommand {
    fn from(c: Speak) -> (r: OdiliaCommand) {
        OdiliaCommand::Speak(c)
    }
}

impl vstd::std_specs::convert::FromSpecImpl<Speak> for OdiliaCommand {
    open spec fn obeys_from_spec() -> bool {
        true
    }

    open spec fn from_spec(c: Speak) -> OdiliaCommand {
        OdiliaCommand::Speak(c)
    }
}

impl From<Focus> for OdiliaCommand {
    fn from(c: Focus) -> (r: OdiliaCommand) {
        OdiliaCommand::Focus(c)
    }
}

impl vstd::std_specs::convert::FromSpecImpl<Focus> for OdiliaCommand {
    open spec fn obeys_from_spec() -> bool {
        true
    }

    open spec fn from_spec(c: Focus) -> OdiliaCommand {
        OdiliaCommand::Focus(c)
    }
}

impl From<CaretPos> for OdiliaCommand {
    fn from(c: CaretPos) -> (r: OdiliaCommand) {
        OdiliaCommand::CaretPos(c)
    }
}

impl vstd::std_specs::convert::FromSpecImpl<CaretPos> for OdiliaCommand {
    open spec fn obeys_from_spec() -> bool {
        true
    }

    open spec fn from_spec(c: CaretPos) -> OdiliaCommand {
        OdiliaCommand::CaretPos(c)
    }
}

impl From<SetState> for OdiliaCommand {
    fn from(c: SetState) -> (r: OdiliaCommand) {
        OdiliaCommand::SetState(c)
    }
}

impl vstd::std_specs::convert::FromSpecImpl<SetState> for OdiliaCommand {
    open spec fn obeys_from_spec() -> bool {
        true
    }

    open spec fn from_spec(c: SetState) -> OdiliaCommand {
        OdiliaCommand::SetState(c)
    }
}

/// A value that stands for a list of commands to run.
pub trait IntoCommands: Sized {
    /// Whether `v` is the list of commands the value stands for, in order.
    spec fn produces(self, v: Seq<OdiliaCommand>) -> bool;

    /// The commands, in order.
    fn into_commands(self) -> (v: Vec<OdiliaCommand>)
        ensures
            self.produces(v@),
    ;
}

impl IntoCommands for CaretPos {
    open spec fn produces(self, v: Seq<OdiliaCommand>) -> bool {
        v == seq![OdiliaCommand::CaretPos(self)]
    }

    fn into_commands(self) -> (v: Vec<OdiliaCommand>) {
        let v = vec![OdiliaCommand::CaretPos(self)];
        assert(v@ =~= seq![OdiliaCommand::CaretPos(self)]);
        v
    }
}

impl IntoCommands for SetState {
    open spec fn produces(self, v: Seq<OdiliaCommand>) -> bool {
        v == seq![OdiliaCommand::SetState(self)]
    }

    fn into_commands(self) -> (v: Vec<OdiliaCommand>) {
        let v = vec![OdiliaCommand::SetState(self)];
        assert(v@ =~= seq![OdiliaCommand::SetState(self)]);
        v
    }
}

impl IntoCommands for Focus {
    open spec fn produces(self, v: Seq<OdiliaCommand>) -> bool {
        v == seq![OdiliaCommand::Focus(self)]
    }

    fn into_commands(self) -> (v: Vec<OdiliaCommand>) {
        let v = vec![OdiliaCommand::Focus(self)];
        assert(v@ =~= seq![OdiliaCommand::Focus(self)]);
        v
    }
}

impl IntoCommands for Speak {
    open spec fn produces(self, v: Seq<OdiliaCommand>) -> bool {
        v == seq![OdiliaCommand::Speak(self)]
    }

    fn into_commands(self) -> (v: Vec<OdiliaCommand>) {
        let v = vec![OdiliaCommand::Speak(self)];
        assert(v@ =~= seq![OdiliaCommand::Speak(self)]);
        v
    }
}

impl IntoCommands for OdiliaCommand {
    open spec fn produces(self, v: Seq<OdiliaCommand>) -> bool {
        v == seq![self]
    }

    fn into_commands(self) -> (v: Vec<OdiliaCommand>) {
        let v = vec![self];
        assert(v@ =~= seq![self]);
        v
    }
}

impl IntoCommands for (Priority, &str) {
    /// One command: speak the text with the priority.
    open spec fn produces(self, v: Seq<OdiliaCommand>) -> bool {
        &&& v.len() == 1
        &&& v[0] matches OdiliaCommand::Speak(Speak(text, p)) && text@ == self.1@ && p == self.0
    }

    fn into_commands(self) -> (v: Vec<OdiliaCommand>) {
        vec![OdiliaCommand::Speak(Speak(self.1.to_owned(), self.0))]
    }
}

impl IntoCommands for (Priority, String) {
    open spec fn produces(self, v: Seq<OdiliaCommand>) -> bool {
        v == seq![OdiliaCommand::Speak(Speak(self.1, self.0))]
    }

    fn into_commands(self) -> (v: Vec<OdiliaCommand>) {
        let v = vec![OdiliaCommand::Speak(Speak(self.1, self.0))];
        assert(v@ =~= seq![OdiliaCommand::Speak(Speak(self.1, self.0))]);
        v
    }
}

impl IntoCommands for () {
    open spec fn produces(self, v: Seq<OdiliaCommand>) -> bool {
        v.len() == 0
    }

    fn into_commands(self) -> (v: Vec<OdiliaCommand>) {
        Vec::new()
    }
}

impl<const N: usize> IntoCommands for [OdiliaCommand; N] {
    open spec fn produces(self, v: Seq<OdiliaCommand>) -> bool {
        v == self@
    }

    fn into_commands(self) -> (v: Vec<OdiliaCommand>) {
        let mut v: Vec<OdiliaCommand> = Vec::new();
        let mut i: usize = 0;
        while i < N
            invariant
                i <= N,
                self@.len() == N,
                v@ == self@.take(i as int),
            decreases N - i,
        {
            v.push(self[i].clone());
            i = i + 1;
            assert(v@ =~= self@.take(i as int));
        }
        assert(self@.take(N as int) == self@);
        v
    }
}

impl<T: IntoCommands> IntoCommands for Option<T> {
    open spec fn produces(self, v: Seq<OdiliaCommand>) -> bool {
        match self {
            Some(cmds) => cmds.produces(v),
            None => v.len() == 0,
        }
    }

    fn into_commands(self) -> (v: Vec<OdiliaCommand>) {
        match self {
            Some(cmds) => cmds.into_commands(),
            None => Vec::new(),
        }
    }
}

/// The commands of `a`, then those of `b`.
fn chain(a: Vec<OdiliaCommand>, b: Vec<OdiliaCommand>) -> (v: Vec<OdiliaCommand>)
    ensures
        v@ == a@ + b@,
{
    let mut v = a;
    let mut rest = b;
    v.append(&mut rest);
    v
}

impl<T1: IntoCommands> IntoCommands for (T1,) {
    open spec fn produces(self, v: Seq<OdiliaCommand>) -> bool {
        self.0.produces(v)
    }

    fn into_commands(self) -> (v: Vec<OdiliaCommand>) {
        self.0.into_commands()
    }
}

impl<T1: IntoCommands, T2: IntoCommands> IntoCommands for (T1, T2) {
    /// The commands of the first, then those of the second.
    open spec fn produces(self, v: Seq<OdiliaCommand>) -> bool {
        exists|a: Seq<OdiliaCommand>, b: Seq<OdiliaCommand>|
            v == a + b && #[trigger] self.0.produces(a) && #[trigger] self.1.produces(b)
    }

    fn into_commands(self) -> (v: Vec<OdiliaCommand>) {
        let (x, y) = self;
        let a = x.into_commands();
        let b = y.into_commands();
        let ghost (av, bv) = (a@, b@);
        let v = chain(a, b);
        assert(x.produces(av) && y.produces(bv) && v@ == av + bv);
        v
    }
}

impl<T1: IntoCommands, T2: IntoCommands, T3: IntoCommands> IntoCommands for (T1, T2, T3) {
    /// The commands of the first, then those of the second, then those of the third.
    open spec fn produces(self, v: Seq<OdiliaCommand>) -> bool {
        exists|a: Seq<OdiliaCommand>, b: Seq<OdiliaCommand>|
            v == a + b && #[trigger] (self.0, self.1).produces(a) && #[trigger] self.2.produces(b)
    }

    fn into_commands(self) -> (v: Vec<OdiliaCommand>) {
        let (x, y, z) = self;
        let a = (x, y).into_commands();
        let b = z.into_commands();
        let ghost (av, bv) = (a@, b@);
        let v = chain(a, b);
        assert((x, y).produces(av) && z.produces(bv) && v@ == av + bv);
        v
    }
}

impl<T1: IntoCommands, T2: IntoCommands, T3: IntoCommands, T4: IntoCommands> IntoCommands for (
    T1,
    T2,
    T3,
    T4,
) {
    /// The commands of the first three, then those of the fourth.
    open spec fn produces(self, v: Seq<OdiliaCommand>) -> bool {
        exists|a: Seq<OdiliaCommand>, b: Seq<OdiliaCommand>|
            v == a + b && #[trigger] (self.0, self.1, self.2).produces(a) && #[trigger] self.3.produces(
                b,
            )
    }

    fn into_commands(self) -> (v: Vec<OdiliaCommand>) {
        let (w, x, y, z) = self;
        let a = (w, x, y).into_commands();
        let b = z.into_commands();
        let ghost (av, bv) = (a@, b@);
        let v = chain(a, b);
        assert((w, x, y).produces(av) && z.produces(bv) && v@ == av + bv);
        v
    }
}

/// A value that stands for a list of commands, or for the error that prevents them.
pub trait TryIntoCommands: Sized {
    /// Whether `r` is what the value stands for: its commands, or an error.
    spec fn try_produces(self, r: Result<Vec<OdiliaCommand>, OdiliaError>) -> bool;

    /// The commands, or the error converted into an [`OdiliaError`].
    fn try_into_commands(self) -> (r: Result<Vec<OdiliaCommand>, OdiliaError>)
        ensures
            self.try_produces(r),
    ;
}

impl TryIntoCommands for Result<Vec<OdiliaCommand>, OdiliaError> {
    /// The list itself, or the error as it is.
    open spec fn try_produces(self, r: Result<Vec<OdiliaCommand>, OdiliaError>) -> bool {
        r == self
    }

    fn try_into_commands(self) -> (r: Result<Vec<OdiliaCommand>, OdiliaError>) {
        self
    }
}

impl<T: IntoCommands> TryIntoCommands for T {
    /// Always the commands.
    open spec fn try_produces(self, r: Result<Vec<OdiliaCommand>, OdiliaError>) -> bool {
        r matches Ok(v) && self.produces(v@)
    }

    fn try_into_commands(self) -> (r: Result<Vec<OdiliaCommand>, OdiliaError>) {
        Ok(self.into_commands())
    }
}

impl<T: IntoCommands, E: Into<OdiliaError>> TryIntoCommands for Result<T, E> {
    /// The commands of an `Ok`; an error for an `Err`.
    open spec fn try_produces(self, r: Result<Vec<OdiliaCommand>, OdiliaError>) -> bool {
        match self {
            Ok(t) => r matches Ok(v) && t.produces(v@),
            Err(_) => r is Err,
        }
    }

    fn try_into_commands(self) -> (r: Result<Vec<OdiliaCommand>, OdiliaError>) {
        match self {
            Ok(ok) => Ok(ok.into_commands()),
            Err(err) => Err(err.into()),
        }
    }
}

} // verus!
