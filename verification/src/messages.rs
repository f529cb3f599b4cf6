//! The typed message contracts: the closed command vocabulary the host may
//! send inbound, the closed event vocabulary the simulation sends outbound,
//! the bridge's model of a raw inbound host value, and the decode error
//! taxonomy.

use vstd::prelude::*;
use crate::number::JsonNumber;

verus! {

/// A decoded inbound command, the closed vocabulary the host may send.
pub enum Command {
    /// Flip the simulation's toggle state; carries no payload.
    Toggle,
    /// Ask the simulation to print the given text.
    Print(String),
}

/// The mathematical shape of a `Command`, with payload text as a character
/// sequence.
pub enum CommandView {
    Toggle,
    Print(Seq<char>),
}

impl View for Command {
    type V = CommandView;

    open spec fn view(&self) -> CommandView {
        match self {
            Command::Toggle => CommandView::Toggle,
            Command::Print(s) => CommandView::Print(s@),
        }
    }
}

impl Clone for Command {
    fn clone(&self) -> (r: Self)
        ensures
            r == *self,
    {
        match self {
            Command::Toggle => Command::Toggle,
            Command::Print(s) => Command::Print(s.clone()),
        }
    }
}

/// An outbound event produced by the simulation, the closed vocabulary the
/// bridge forwards to the host.
pub enum PostEvent {
    /// A textual notification.
    Note(String),
    /// A numeric reading, carried as validated JSON number text.
    Measurement(JsonNumber),
}

/// The mathematical shape of a `PostEvent`: each payload as the character
/// sequence that crosses the wire.
pub enum PostEventView {
    Note(Seq<char>),
    Measurement(Seq<char>),
}

impl View for PostEvent {
    type V = PostEventView;

    open spec fn view(&self) -> PostEventView {
        match self {
            PostEvent::Note(s) => PostEventView::Note(s@),
            PostEvent::Measurement(n) => PostEventView::Measurement(n@),
        }
    }
}

/// What the bridge reads of one raw inbound host value.  A host value is
/// either plain text, or a structured value; of a structured value the
/// decode layer only distinguishes a single-key tagged object whose payload
/// is null or text — every other shape decodes to no command.
pub enum HostValue {
    /// The value is representable as text.
    Text(String),
    /// A structured object with exactly one key, whose payload is null.
    TaggedNull(String),
    /// A structured object with exactly one key, whose payload is text.
    TaggedText(String, String),
    /// Any other structured shape.
    Opaque,
}

/// The mathematical shape of a `HostValue`.
pub enum HostValueView {
    Text(Seq<char>),
    TaggedNull(Seq<char>),
    TaggedText(Seq<char>, Seq<char>),
    Opaque,
}

impl View for HostValue {
    type V = HostValueView;

    open spec fn view(&self) -> HostValueView {
        match self {
            HostValue::Text(s) => HostValueView::Text(s@),
            HostValue::TaggedNull(t) => HostValueView::TaggedNull(t@),
            HostValue::TaggedText(t, p) => HostValueView::TaggedText(t@, p@),
            HostValue::Opaque => HostValueView::Opaque,
        }
    }
}

/// Why one decode strategy rejected an inbound value.  Decode errors are
/// reported and dropped; they never reach the simulation.
#[derive(Clone, Copy, PartialEq, Eq, Structural, Debug)]
pub enum DecodeError {
    /// String strategy: the value was not representable as text.
    NotText,
    /// String strategy: the text was not a wire value of the command
    /// vocabulary.
    Json,
    /// Native strategy: the structure matched no command variant.
    Structure,
}

} // verus!
