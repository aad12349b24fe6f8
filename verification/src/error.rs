use vstd::prelude::*;
use crate::ctext::{dec_text, hex_lower_text, push_dec, push_hex_lower};
use crate::text::push_char;

verus! {

/// Errors raised while constructing signals, messages, nodes and networks.
#[derive(Debug)]
pub enum CANConstructionError {
    /// A signal with this name already exists in the message.
    SignalNameAlreadyExists(String),
    /// Signals cannot have zero width.
    SignalHasZeroWidth(String),
    /// The width of the (optionally named) signal could not be inferred.
    SignalWidthInferenceFailed(Option<String>),
    /// Width inference was refused because a width was already given.
    SignalWidthAlreadySpecified(Option<String>),
    /// An enumerated value with this name already exists (with the given value).
    EnumeratedValueNameAlreadyExists(String, u64),
    /// This raw value is already named (by the given name).
    EnumeratedValueValueAlreadyNamed(String, u64),
    /// A message with this name already exists in the network.
    MessageNameAlreadyExists(String),
    /// A message with this id already exists in the network.
    MessageIdAlreadyExists(u32),
    /// The message name holds a character outside `[a-zA-Z0-9_]`.
    MessageNameInvalidChar(String, char),
    /// The message name is empty.
    MessageNameEmpty,
    /// No message with this name exists in the network.
    MessageDoesNotExist(String),
    /// A node with this name already exists in the network.
    NodeAlreadyExists(String),
    /// No node with this name exists in the network.
    NodeDoesNotExist(String),
    /// The signal's start bit does not come after the previous signal's start bit.
    MessageSignalsOutOfOrder(String, u32, String, u32),
    /// Two signals overlap at the given bit.
    SignalsOverlap(String, String, u32),
    /// The signal would end past the last bit of the message.
    SignalWillNotFitInMessage(String, u32, u32),
    /// A template message with this name already exists in the network.
    TemplateMessageNameAlreadyExists(String),
    /// A required builder field was never set.
    UninitializedFieldError(String),
}

/// Model of a [`CANConstructionError`]: the same variant, with texts in place of strings.
pub enum ConstructionErrorView {
    SignalNameAlreadyExists(Seq<char>),
    SignalHasZeroWidth(Seq<char>),
    SignalWidthInferenceFailed(Option<Seq<char>>),
    SignalWidthAlreadySpecified(Option<Seq<char>>),
    EnumeratedValueNameAlreadyExists(Seq<char>, u64),
    EnumeratedValueValueAlreadyNamed(Seq<char>, u64),
    MessageNameAlreadyExists(Seq<char>),
    MessageIdAlreadyExists(u32),
    MessageNameInvalidChar(Seq<char>, char),
    MessageNameEmpty,
    MessageDoesNotExist(Seq<char>),
    NodeAlreadyExists(Seq<char>),
    NodeDoesNotExist(Seq<char>),
    MessageSignalsOutOfOrder(Seq<char>, u32, Seq<char>, u32),
    SignalsOverlap(Seq<char>, Seq<char>, u32),
    SignalWillNotFitInMessage(Seq<char>, u32, u32),
    TemplateMessageNameAlreadyExists(Seq<char>),
    UninitializedFieldError(Seq<char>),
}

impl View for CANConstructionError {
    type V = ConstructionErrorView;

    open spec fn view(&self) -> ConstructionErrorView {
        match self {
            CANConstructionError::SignalNameAlreadyExists(n) => ConstructionErrorView::SignalNameAlreadyExists(n@),
            CANConstructionError::SignalHasZeroWidth(n) => ConstructionErrorView::SignalHasZeroWidth(n@),
            CANConstructionError::SignalWidthInferenceFailed(n) => ConstructionErrorView::SignalWidthInferenceFailed(
                crate::signal::opt_text(*n),
            ),
            CANConstructionError::SignalWidthAlreadySpecified(n) => ConstructionErrorView::SignalWidthAlreadySpecified(
                crate::signal::opt_text(*n),
            ),
            CANConstructionError::EnumeratedValueNameAlreadyExists(n, v) => ConstructionErrorView::EnumeratedValueNameAlreadyExists(
                n@,
                *v,
            ),
            CANConstructionError::EnumeratedValueValueAlreadyNamed(n, v) => ConstructionErrorView::EnumeratedValueValueAlreadyNamed(
                n@,
                *v,
            ),
            CANConstructionError::MessageNameAlreadyExists(n) => ConstructionErrorView::MessageNameAlreadyExists(n@),
            CANConstructionError::MessageIdAlreadyExists(i) => ConstructionErrorView::MessageIdAlreadyExists(*i),
            CANConstructionError::MessageNameInvalidChar(n, c) => ConstructionErrorView::MessageNameInvalidChar(n@, *c),
            CANConstructionError::MessageNameEmpty => ConstructionErrorView::MessageNameEmpty,
            CANConstructionError::MessageDoesNotExist(n) => ConstructionErrorView::MessageDoesNotExist(n@),
            CANConstructionError::NodeAlreadyExists(n) => ConstructionErrorView::NodeAlreadyExists(n@),
            CANConstructionError::NodeDoesNotExist(n) => ConstructionErrorView::NodeDoesNotExist(n@),
            CANConstructionError::MessageSignalsOutOfOrder(n, b, ln, lb) => ConstructionErrorView::MessageSignalsOutOfOrder(
                n@,
                *b,
                ln@,
                *lb,
            ),
            CANConstructionError::SignalsOverlap(a, b, bit) => ConstructionErrorView::SignalsOverlap(a@, b@, *bit),
            CANConstructionError::SignalWillNotFitInMessage(n, e, m) => ConstructionErrorView::SignalWillNotFitInMessage(
                n@,
                *e,
                *m,
            ),
            CANConstructionError::TemplateMessageNameAlreadyExists(n) => ConstructionErrorView::TemplateMessageNameAlreadyExists(
                n@,
            ),
            CANConstructionError::UninitializedFieldError(f) => ConstructionErrorView::UninitializedFieldError(f@),
        }
    }
}

/// `n` in back quotes.
pub open spec fn bq(n: Seq<char>) -> Seq<char> {
    "`"@ + n + "`"@
}

/// The message of a construction error.
pub open spec fn error_text(e: ConstructionErrorView) -> Seq<char> {
    match e {
        ConstructionErrorView::SignalNameAlreadyExists(n) => "Signal with name "@ + bq(n)
            + " already exists in this message."@,
        ConstructionErrorView::SignalHasZeroWidth(n) => "Signal with name "@ + bq(n) + " cannot have zero width"@,
        ConstructionErrorView::SignalWidthInferenceFailed(n) => "Unable to infer width of signal"@
            + spec_maybe_space_name(n),
        ConstructionErrorView::SignalWidthAlreadySpecified(n) =>
            "Refusing to infer width when width already specified of signal"@ + spec_maybe_space_name(n),
        ConstructionErrorView::EnumeratedValueNameAlreadyExists(n, v) => "Enumerated value name "@ + bq(n)
            + " already exists for signal (previous value = "@ + dec_text(v as nat) + ");"@,
        ConstructionErrorView::EnumeratedValueValueAlreadyNamed(n, v) => "Enumerated value "@ + bq(
            dec_text(v as nat),
        ) + " already named as "@ + bq(n) + "; values can only be named once"@,
        ConstructionErrorView::MessageNameAlreadyExists(n) => "Message with name "@ + bq(n)
            + " already exists in network."@,
        ConstructionErrorView::MessageIdAlreadyExists(i) => "Message with id 0x"@ + hex_lower_text(i as nat)
            + " already exists in network."@,
        ConstructionErrorView::MessageNameInvalidChar(n, c) => "Message name "@ + bq(n)
            + " includes invalid character "@ + bq(seq![c]) + "."@,
        ConstructionErrorView::MessageNameEmpty => "Message name is empty."@,
        ConstructionErrorView::MessageDoesNotExist(n) => "Message with name "@ + bq(n)
            + " does not exist in network."@,
        ConstructionErrorView::NodeAlreadyExists(n) => "Node with name "@ + bq(n) + " already exists in network."@,
        ConstructionErrorView::NodeDoesNotExist(n) => "Node with name "@ + bq(n) + " does not exist in network."@,
        ConstructionErrorView::MessageSignalsOutOfOrder(a, b, c, d) => "Signal "@ + bq(a) + " has start bit "@
            + dec_text(b as nat) + ", which precedes previous signal "@ + bq(c) + "'s start bit of "@
            + dec_text(d as nat) + ". Signals must be added to message in order."@,
        ConstructionErrorView::SignalsOverlap(a, b, c) => "Signals "@ + bq(a) + " and "@ + bq(b)
            + " overlap at bit "@ + dec_text(c as nat) + "."@,
        ConstructionErrorView::SignalWillNotFitInMessage(a, b, c) => "Signal "@ + bq(a)
            + " does not fit in message and would end at bit "@ + dec_text(b as nat) + "; max is "@
            + dec_text(c as nat),
        ConstructionErrorView::TemplateMessageNameAlreadyExists(n) => "Template message with name "@ + bq(n)
            + " already exists in network."@,
        ConstructionErrorView::UninitializedFieldError(f) => "Missing required field "@ + bq(f),
    }
}

/// Appends `n` in back quotes.
fn push_bq(s: &mut String, n: &str)
    ensures
        final(s)@ == old(s)@ + bq(n@),
{
    proof {
        reveal_strlit("`");
    }
    push_char(s, '`');
    s.append(n);
    push_char(s, '`');
    proof {
        assert(s@ =~= old(s)@ + bq(n@));
    }
}

impl CANConstructionError {
    /// The message of this error, for people.
    pub fn to_text(&self) -> (r: String)
        ensures
            r@ == error_text(self@),
    {
        proof {
            reveal_strlit("`");
        }
        let mut s = String::new();
        match self {
            CANConstructionError::SignalNameAlreadyExists(n) => {
                s.append("Signal with name ");
                push_bq(&mut s, n.as_str());
                s.append(" already exists in this message.");
            },
            CANConstructionError::SignalHasZeroWidth(n) => {
                s.append("Signal with name ");
                push_bq(&mut s, n.as_str());
                s.append(" cannot have zero width");
            },
            CANConstructionError::SignalWidthInferenceFailed(n) => {
                s.append("Unable to infer width of signal");
                s.append(maybe_space_name(n).as_str());
            },
            CANConstructionError::SignalWidthAlreadySpecified(n) => {
                s.append("Refusing to infer width when width already specified of signal");
                s.append(maybe_space_name(n).as_str());
            },
            CANConstructionError::EnumeratedValueNameAlreadyExists(n, v) => {
                s.append("Enumerated value name ");
                push_bq(&mut s, n.as_str());
                s.append(" already exists for signal (previous value = ");
                push_dec(&mut s, *v);
                s.append(");");
            },
            CANConstructionError::EnumeratedValueValueAlreadyNamed(n, v) => {
                s.append("Enumerated value ");
                push_char(&mut s, '`');
                push_dec(&mut s, *v);
                push_char(&mut s, '`');
                s.append(" already named as ");
                push_bq(&mut s, n.as_str());
                s.append("; values can only be named once");
            },
            CANConstructionError::MessageNameAlreadyExists(n) => {
                s.append("Message with name ");
                push_bq(&mut s, n.as_str());
                s.append(" already exists in network.");
            },
            CANConstructionError::MessageIdAlreadyExists(i) => {
                s.append("Message with id 0x");
                push_hex_lower(&mut s, *i as u64);
                s.append(" already exists in network.");
            },
            CANConstructionError::MessageNameInvalidChar(n, c) => {
                s.append("Message name ");
                push_bq(&mut s, n.as_str());
                s.append(" includes invalid character ");
                push_char(&mut s, '`');
                push_char(&mut s, *c);
                push_char(&mut s, '`');
                s.append(".");
            },
            CANConstructionError::MessageNameEmpty => {
                s.append("Message name is empty.");
            },
            CANConstructionError::MessageDoesNotExist(n) => {
                s.append("Message with name ");
                push_bq(&mut s, n.as_str());
                s.append(" does not exist in network.");
            },
            CANConstructionError::NodeAlreadyExists(n) => {
                s.append("Node with name ");
                push_bq(&mut s, n.as_str());
                s.append(" already exists in network.");
            },
            CANConstructionError::NodeDoesNotExist(n) => {
                s.append("Node with name ");
                push_bq(&mut s, n.as_str());
                s.append(" does not exist in network.");
            },
            CANConstructionError::MessageSignalsOutOfOrder(a, b, c, d) => {
                s.append("Signal ");
                push_bq(&mut s, a.as_str());
                s.append(" has start bit ");
                push_dec(&mut s, *b as u64);
                s.append(", which precedes previous signal ");
                push_bq(&mut s, c.as_str());
                s.append("'s start bit of ");
                push_dec(&mut s, *d as u64);
                s.append(". Signals must be added to message in order.");
            },
            CANConstructionError::SignalsOverlap(a, b, c) => {
                s.append("Signals ");
                push_bq(&mut s, a.as_str());
                s.append(" and ");
                push_bq(&mut s, b.as_str());
                s.append(" overlap at bit ");
                push_dec(&mut s, *c as u64);
                s.append(".");
            },
            CANConstructionError::SignalWillNotFitInMessage(a, b, c) => {
                s.append("Signal ");
                push_bq(&mut s, a.as_str());
                s.append(" does not fit in message and would end at bit ");
                push_dec(&mut s, *b as u64);
                s.append("; max is ");
                push_dec(&mut s, *c as u64);
            },
            CANConstructionError::TemplateMessageNameAlreadyExists(n) => {
                s.append("Template message with name ");
                push_bq(&mut s, n.as_str());
                s.append(" already exists in network.");
            },
            CANConstructionError::UninitializedFieldError(f) => {
                s.append("Missing required field ");
                push_bq(&mut s, f.as_str());
            },
        }
        proof {
            assert(s@ =~= error_text(self@));
        }
        s
    }
}

/// `" `name`"` for a present name, the empty text otherwise.
pub open spec fn spec_maybe_space_name(opt: Option<Seq<char>>) -> Seq<char> {
    match opt {
        Some(s) => seq![' ', '`'] + s + seq!['`'],
        None => Seq::empty(),
    }
}

/// Text that error messages print after the word "signal": a space and the
/// back-quoted name, or nothing when the signal has no name.
pub fn maybe_space_name(opt: &Option<String>) -> (r: String)
    ensures
        r@ == spec_maybe_space_name(
            match opt {
                Some(s) => Some(s@),
                None => None,
            },
        ),
{
    match opt {
        Some(s) => {
            let mut out = String::new();
            crate::text::push_char(&mut out, ' ');
            crate::text::push_char(&mut out, '`');
            out.append(s.as_str());
            crate::text::push_char(&mut out, '`');
            out
        },
        None => String::new(),
    }
}

} // verus!
