//! The decode layer: one opaque inbound host value is tried against two
//! independent strategies, and both are always attempted regardless of the
//! first's outcome — an explicit, auditable policy.  The string-JSON
//! strategy reads a value representable as text and parses it as wire text;
//! the native-structure strategy converts the value's structure directly.
//! Every success is enqueued; a failure is reported, never fatal.

use vstd::prelude::*;
use crate::chars::str_eq;
use crate::messages::{Command, CommandView, DecodeError, HostValue, HostValueView};
use crate::wire::{parse_command, decode_command_json, is_ws, skip_ws};

verus! {

/// What the string-JSON strategy reports for a host value: the parsed
/// command when the value is text in the wire grammar, and otherwise which
/// way it failed.
pub open spec fn text_outcome(v: HostValueView) -> Result<CommandView, DecodeError> {
    match v {
        HostValueView::Text(s) => match parse_command(s) {
            Some(c) => Ok(c),
            None => Err(DecodeError::Json),
        },
        _ => Err(DecodeError::NotText),
    }
}

/// The native strategy's reading of a host value's structure: a bare string
/// names a payload-free variant; a single-key object with a null payload is
/// `Toggle`; one with a text payload is `Print`; everything else matches no
/// variant.
pub open spec fn native_command(v: HostValueView) -> Option<CommandView> {
    match v {
        HostValueView::Text(s) => if s == "Toggle"@ {
            Some(CommandView::Toggle)
        } else {
            None
        },
        HostValueView::TaggedNull(t) => if t == "Toggle"@ {
            Some(CommandView::Toggle)
        } else {
            None
        },
        HostValueView::TaggedText(t, p) => if t == "Print"@ {
            Some(CommandView::Print(p))
        } else {
            None
        },
        HostValueView::Opaque => None,
    }
}

/// What the native-structure strategy reports for a host value.
pub open spec fn native_outcome(v: HostValueView) -> Result<CommandView, DecodeError> {
    match native_command(v) {
        Some(c) => Ok(c),
        None => Err(DecodeError::Structure),
    }
}

/// The view of one strategy's report.
pub open spec fn outcome_view(r: Result<Command, DecodeError>) -> Result<
    CommandView,
    DecodeError,
> {
    match r {
        Ok(c) => Ok(c@),
        Err(e) => Err(e),
    }
}

/// The commands one delivery enqueues: each strategy's success, string-JSON
/// strategy first.
pub open spec fn enqueued_views(v: HostValueView) -> Seq<CommandView> {
    let first: Seq<CommandView> = match text_outcome(v) {
        Ok(c) => seq![c],
        Err(_) => Seq::empty(),
    };
    let second: Seq<CommandView> = match native_outcome(v) {
        Ok(c) => seq![c],
        Err(_) => Seq::empty(),
    };
    first + second
}

/// The string-JSON strategy: if the inbound value is representable as text,
/// parse that text as a wire value of the command vocabulary.
pub fn text_strategy(v: &HostValue) -> (r: Result<Command, DecodeError>)
    ensures
        outcome_view(r) == text_outcome(v@),
{
    match v {
        HostValue::Text(s) => match decode_command_json(s.as_str()) {
            Some(c) => Ok(c),
            None => Err(DecodeError::Json),
        },
        _ => Err(DecodeError::NotText),
    }
}

/// The native-structure strategy: convert the inbound value's structure
/// directly into a command, without an intermediate wire text.
pub fn native_strategy(v: &HostValue) -> (r: Result<Command, DecodeError>)
    ensures
        outcome_view(r) == native_outcome(v@),
{
    match v {
        HostValue::Text(s) => {
            if str_eq(s.as_str(), "Toggle") {
                Ok(Command::Toggle)
            } else {
                Err(DecodeError::Structure)
            }
        }
        HostValue::TaggedNull(t) => {
            if str_eq(t.as_str(), "Toggle") {
                Ok(Command::Toggle)
            } else {
                Err(DecodeError::Structure)
            }
        }
        HostValue::TaggedText(t, p) => {
            if str_eq(t.as_str(), "Print") {
                Ok(Command::Print(p.clone()))
            } else {
                Err(DecodeError::Structure)
            }
        }
        HostValue::Opaque => Err(DecodeError::Structure),
    }
}

/// Law: a malformed delivery — one both strategies reject — enqueues
/// nothing; it is only reported.
pub proof fn lemma_malformed_enqueues_nothing(v: HostValueView)
    requires
        text_outcome(v) is Err,
        native_outcome(v) is Err,
    ensures
        enqueued_views(v) == Seq::<CommandView>::empty(),
{
    assert(enqueued_views(v) =~= Seq::<CommandView>::empty());
}

/// Law: the two strategies accept disjoint inputs — wire text never spells a
/// bare variant name, and only a text value can carry wire text — so even
/// though both are always attempted and every success is enqueued, no single
/// delivery enqueues more than one command.
pub proof fn lemma_no_double_delivery(v: HostValueView)
    ensures
        enqueued_views(v).len() <= 1,
{
    match v {
        HostValueView::Text(s) => {
            if s == "Toggle"@ {
                reveal_strlit("Toggle");
                assert(s[0] == 'T');
                assert(!is_ws(s[0]));
                assert(skip_ws(s) == s);
                assert(parse_command(s) is None);
            }
        }
        _ => {}
    }
}

} // verus!
