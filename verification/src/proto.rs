//! A first, flat description of CAN networks: messages of integer signals at fixed
//! offsets, looked up by name and by id.

use vstd::prelude::*;
use vstd::string::StrSliceExecFns;
use crate::ctext::{dec_text, hex_lower_text, push_dec, push_hex_lower, push_signed_dec, signed_dec_text};
use crate::text::str_eq;

verus! {

/// An integer value type: its length in bits and whether it is signed.
pub struct CANValueTypeInteger {
    pub length: i32,
    pub signed: bool,
}

/// The value type of a signal.
pub enum CANValueType {
    Integer(CANValueTypeInteger),
}

/// A signal: its offset in the message, its name and its value type.
pub struct CANSignal {
    pub offset: i32,
    pub name: String,
    pub value_type: CANValueType,
}

/// The description of a message to add to a network.
pub struct CANMessageDesc {
    pub name: String,
    pub id: u32,
    pub signals: Vec<CANSignal>,
}

/// A message of a network, with signals of distinct names.
pub struct CANMessage {
    name: String,
    id: u32,
    signals: Vec<CANSignal>,
}

/// A network of messages with distinct names and distinct ids.
pub struct CANNetwork {
    messages: Vec<CANMessage>,
}

/// Errors raised while adding a message to a network.
#[derive(Debug)]
pub enum CANConstructionError {
    /// Two signals of the message have this name.
    SignalSpecifiedMultipleTimes(String),
    /// A message with this name already exists in the network.
    MessageNameAlreadyExists(String),
    /// A message with this id already exists in the network.
    MessageIdAlreadyExists(u32),
}

/// Text of an integer value type: `s` or `u`, then the length.
pub open spec fn value_type_integer_text(t: CANValueTypeInteger) -> Seq<char> {
    (if t.signed { "s"@ } else { "u"@ }) + signed_dec_text(t.length as int)
}

/// Text of a value type.
pub open spec fn value_type_text(t: CANValueType) -> Seq<char> {
    match t {
        CANValueType::Integer(i) => value_type_integer_text(i),
    }
}

/// Text of a signal: its name, offset and value type on three lines.
pub open spec fn signal_text(s: CANSignal) -> Seq<char> {
    "Signal `"@ + s.name@ + "`:\n  -> offset: "@ + signed_dec_text(s.offset as int) + ",\n  -> type: "@
        + value_type_text(s.value_type)
}

/// Text of a message: its name and id on two lines.
pub open spec fn message_text(name: Seq<char>, id: u32) -> Seq<char> {
    "Message `"@ + name + "`:\n  -> id: "@ + dec_text(id as nat)
}

/// Text of the signals of a message, each followed by an empty line.
pub open spec fn signals_text(sigs: Seq<CANSignal>) -> Seq<char>
    decreases sigs.len(),
{
    if sigs.len() == 0 {
        Seq::empty()
    } else {
        signals_text(sigs.drop_last()) + signal_text(sigs.last()) + "\n\n"@
    }
}

/// Text of a message followed by its signals between two rulers.
pub open spec fn human_text(name: Seq<char>, id: u32, sigs: Seq<CANSignal>) -> Seq<char> {
    message_text(name, id) + "\n\n"@ + "**** Signals: ****\n\n"@ + signals_text(sigs)
        + "******************\n"@
}

/// Text of an error.
pub open spec fn error_text(e: CANConstructionError) -> Seq<char> {
    match e {
        CANConstructionError::SignalSpecifiedMultipleTimes(s) => "Signal with name "@ + s@
            + " specified multiple times."@,
        CANConstructionError::MessageNameAlreadyExists(n) => "Message with name `"@ + n@
            + "` already exists in network."@,
        CANConstructionError::MessageIdAlreadyExists(i) => "Message with id 0x"@ + hex_lower_text(
            i as nat,
        ) + " already exists in network."@,
    }
}

impl CANValueTypeInteger {
    /// Text of this value type: `s` or `u`, then the length (`u5`, `s12`).
    pub fn to_text(&self) -> (r: String)
        ensures
            r@ == value_type_integer_text(*self),
    {
        let mut s = if self.signed {
            String::from_str("s")
        } else {
            String::from_str("u")
        };
        push_signed_dec(&mut s, self.length as i64);
        s
    }
}

impl CANValueType {
    /// Text of this value type.
    pub fn to_text(&self) -> (r: String)
        ensures
            r@ == value_type_text(*self),
    {
        match self {
            CANValueType::Integer(i) => i.to_text(),
        }
    }
}

impl CANSignal {
    /// Text of this signal: its name, offset and value type on three lines.
    pub fn to_text(&self) -> (r: String)
        ensures
            r@ == signal_text(*self),
    {
        let mut s = String::from_str("Signal `");
        s.append(self.name.as_str());
        s.append("`:\n  -> offset: ");
        push_signed_dec(&mut s, self.offset as i64);
        s.append(",\n  -> type: ");
        s.append(self.value_type.to_text().as_str());
        s
    }
}

impl CANConstructionError {
    /// Text of this error.
    pub fn to_text(&self) -> (r: String)
        ensures
            r@ == error_text(*self),
    {
        match self {
            CANConstructionError::SignalSpecifiedMultipleTimes(n) => {
                let mut s = String::from_str("Signal with name ");
                s.append(n.as_str());
                s.append(" specified multiple times.");
                s
            },
            CANConstructionError::MessageNameAlreadyExists(n) => {
                let mut s = String::from_str("Message with name `");
                s.append(n.as_str());
                s.append("` already exists in network.");
                s
            },
            CANConstructionError::MessageIdAlreadyExists(i) => {
                let mut s = String::from_str("Message with id 0x");
                push_hex_lower(&mut s, *i as u64);
                s.append(" already exists in network.");
                s
            },
        }
    }
}

/// No two signals share a name.
pub open spec fn names_distinct(sigs: Seq<CANSignal>) -> bool {
    forall|i: int, j: int|
        #![trigger sigs[i], sigs[j]]
        0 <= i < j < sigs.len() ==> sigs[i].name@ != sigs[j].name@
}

/// Index of the first signal whose name appeared before it, if any.
pub open spec fn first_repeat(sigs: Seq<CANSignal>) -> Option<int>
    decreases sigs.len(),
{
    if sigs.len() == 0 {
        None
    } else {
        match first_repeat(sigs.drop_last()) {
            Some(k) => Some(k),
            None => if exists|i: int|
                0 <= i < sigs.len() - 1 && #[trigger] sigs[i].name@ == sigs.last().name@ {
                Some(sigs.len() - 1)
            } else {
                None
            },
        }
    }
}

impl CANMessage {
    /// Signal names are distinct.
    #[verifier::type_invariant]
    closed spec fn inv(self) -> bool {
        names_distinct(self.signals@)
    }

    /// Name of the message.
    pub closed spec fn spec_name(self) -> Seq<char> {
        self.name@
    }

    /// Id of the message.
    pub closed spec fn spec_id(self) -> u32 {
        self.id
    }

    /// Signals of the message, in the order given.
    pub closed spec fn spec_signals(self) -> Seq<CANSignal> {
        self.signals@
    }

    /// Name of the message.
    pub fn name(&self) -> (r: &str)
        ensures
            r@ == self.spec_name(),
    {
        self.name.as_str()
    }

    /// Id of the message.
    pub fn id(&self) -> (r: u32)
        ensures
            r == self.spec_id(),
    {
        self.id
    }

    /// Signals of the message, in the order given.
    pub fn signals(&self) -> (r: &[CANSignal])
        ensures
            r@ == self.spec_signals(),
    {
        self.signals.as_slice()
    }

    /// Get a signal of this message by name.
    pub fn get_sig(&self, name: &str) -> (r: Option<&CANSignal>)
        ensures
            match r {
                Some(s) => exists|i: int|
                    0 <= i < self.spec_signals().len() && self.spec_signals()[i] == *s
                        && s.name@ == name@,
                None => forall|i: int|
                    0 <= i < self.spec_signals().len() ==> (#[trigger] self.spec_signals()[i]).name@
                        != name@,
            },
    {
        let mut i: usize = 0;
        while i < self.signals.len()
            invariant
                0 <= i <= self.signals@.len(),
                forall|j: int| 0 <= j < i ==> (#[trigger] self.signals@[j]).name@ != name@,
            decreases self.signals@.len() - i,
        {
            if str_eq(self.signals[i].name.as_str(), name) {
                assert(self.spec_signals()[i as int] == self.signals@[i as int]);
                return Some(&self.signals[i]);
            }
            i = i + 1;
        }
        None
    }

    /// Text of this message: its name and id on two lines.
    pub fn to_text(&self) -> (r: String)
        ensures
            r@ == message_text(self.spec_name(), self.spec_id()),
    {
        let mut s = String::from_str("Message `");
        s.append(self.name.as_str());
        s.append("`:\n  -> id: ");
        push_dec(&mut s, self.id as u64);
        s
    }

    /// Text of the signals of this message, each followed by an empty line.
    pub fn signals_text(&self) -> (r: String)
        ensures
            r@ == signals_text(self.spec_signals()),
    {
        let mut s = String::new();
        let mut i: usize = 0;
        while i < self.signals.len()
            invariant
                0 <= i <= self.signals@.len(),
                s@ == signals_text(self.signals@.take(i as int)),
            decreases self.signals@.len() - i,
        {
            proof {
                assert(self.signals@.take(i + 1).drop_last() =~= self.signals@.take(i as int));
            }
            s.append(self.signals[i].to_text().as_str());
            s.append("\n\n");
            i = i + 1;
        }
        proof {
            assert(self.signals@.take(self.signals@.len() as int) =~= self.signals@);
        }
        s
    }

    /// Text of this message followed by its signals between two rulers.
    pub fn human_text(&self) -> (r: String)
        ensures
            r@ == human_text(self.spec_name(), self.spec_id(), self.spec_signals()),
    {
        let mut s = self.to_text();
        s.append("\n\n");
        s.append("**** Signals: ****\n\n");
        s.append(self.signals_text().as_str());
        s.append("******************\n");
        s
    }
}

/// Index of the first message named `name`, if any.
pub open spec fn has_message_named(msgs: Seq<CANMessage>, name: Seq<char>) -> bool {
    exists|i: int| 0 <= i < msgs.len() && #[trigger] msgs[i].spec_name() == name
}

/// Some message has id `id`.
pub open spec fn has_message_id(msgs: Seq<CANMessage>, id: u32) -> bool {
    exists|i: int| 0 <= i < msgs.len() && #[trigger] msgs[i].spec_id() == id
}

impl CANNetwork {
    /// Message names are distinct, and message ids are distinct.
    #[verifier::type_invariant]
    closed spec fn inv(self) -> bool {
        forall|i: int, j: int|
            #![trigger self.messages@[i], self.messages@[j]]
            0 <= i < j < self.messages@.len() ==> self.messages@[i].spec_name()
                != self.messages@[j].spec_name() && self.messages@[i].spec_id()
                != self.messages@[j].spec_id()
    }

    /// Messages of the network, in the order they were added.
    pub closed spec fn spec_messages(self) -> Seq<CANMessage> {
        self.messages@
    }

    /// An empty network.
    pub fn new() -> (r: CANNetwork)
        ensures
            r.spec_messages().len() == 0,
    {
        CANNetwork { messages: Vec::new() }
    }

    /// Get a message of this network by name.
    pub fn message_by_name(&self, name: &str) -> (r: Option<&CANMessage>)
        ensures
            match r {
                Some(m) => exists|i: int|
                    0 <= i < self.spec_messages().len() && self.spec_messages()[i] == *m
                        && m.spec_name() == name@,
                None => !has_message_named(self.spec_messages(), name@),
            },
    {
        let mut i: usize = 0;
        while i < self.messages.len()
            invariant
                0 <= i <= self.messages@.len(),
                forall|j: int| 0 <= j < i ==> (#[trigger] self.messages@[j]).spec_name() != name@,
            decreases self.messages@.len() - i,
        {
            if str_eq(self.messages[i].name(), name) {
                assert(self.spec_messages()[i as int] == self.messages@[i as int]);
                return Some(&self.messages[i]);
            }
            i = i + 1;
        }
        None
    }

    /// Get a message of this network by id.
    pub fn message_by_id(&self, id: &u32) -> (r: Option<&CANMessage>)
        ensures
            match r {
                Some(m) => exists|i: int|
                    0 <= i < self.spec_messages().len() && self.spec_messages()[i] == *m
                        && m.spec_id() == *id,
                None => !has_message_id(self.spec_messages(), *id),
            },
    {
        let mut i: usize = 0;
        while i < self.messages.len()
            invariant
                0 <= i <= self.messages@.len(),
                forall|j: int| 0 <= j < i ==> (#[trigger] self.messages@[j]).spec_id() != *id,
            decreases self.messages@.len() - i,
        {
            if self.messages[i].id() == *id {
                assert(self.spec_messages()[i as int] == self.messages@[i as int]);
                return Some(&self.messages[i]);
            }
            i = i + 1;
        }
        None
    }

    /// Add a message to the network. Checks, in order: that no two of its signals
    /// share a name (reporting the first signal whose name was already used), then
    /// that its name and its id are not taken.
    pub fn add_msg(&mut self, msg: CANMessageDesc) -> (r: Result<(), CANConstructionError>)
        ensures
            first_repeat(msg.signals@) matches Some(k) ==> (r matches Err(
                CANConstructionError::SignalSpecifiedMultipleTimes(n),
            ) && n@ == msg.signals@[k].name@ && final(self).spec_messages()
                == old(self).spec_messages()),
            first_repeat(msg.signals@) is None && has_message_named(
                old(self).spec_messages(),
                msg.name@,
            ) ==> (r matches Err(CANConstructionError::MessageNameAlreadyExists(n)) && n@
                == msg.name@ && final(self).spec_messages() == old(self).spec_messages()),
            first_repeat(msg.signals@) is None && !has_message_named(
                old(self).spec_messages(),
                msg.name@,
            ) && has_message_id(old(self).spec_messages(), msg.id) ==> (r matches Err(
                CANConstructionError::MessageIdAlreadyExists(i),
            ) && i == msg.id && final(self).spec_messages() == old(self).spec_messages()),
            first_repeat(msg.signals@) is None && !has_message_named(
                old(self).spec_messages(),
                msg.name@,
            ) && !has_message_id(old(self).spec_messages(), msg.id) ==> (r is Ok
                && final(self).spec_messages().len() == old(self).spec_messages().len() + 1
                && final(self).spec_messages().drop_last() == old(self).spec_messages()
                && final(self).spec_messages().last().spec_name() == msg.name@
                && final(self).spec_messages().last().spec_id() == msg.id
                && final(self).spec_messages().last().spec_signals() == msg.signals@),
    {
        proof {
            use_type_invariant(&*self);
        }
        let CANMessageDesc { name, id, signals } = msg;
        let ghost all = signals@;
        let mut sigs: Vec<CANSignal> = Vec::new();
        let mut rest = signals;
        while rest.len() > 0
            invariant
                sigs@ + rest@ == all,
                all == msg.signals@,
                *self == *old(self),
                names_distinct(sigs@),
                first_repeat(sigs@) is None,
            decreases rest@.len(),
        {
            let ghost before = rest@;
            let sig = rest.remove(0);
            proof {
                assert(before =~= seq![sig] + rest@);
                assert(sigs@.push(sig) + rest@ =~= all);
                assert(all.take(sigs@.len() + 1int) =~= sigs@.push(sig));
            }
            let mut j: usize = 0;
            while j < sigs.len()
                invariant
                    0 <= j <= sigs@.len(),
                    forall|k: int| 0 <= k < j ==> (#[trigger] sigs@[k]).name@ != sig.name@,
                    sigs@.push(sig) + rest@ == all,
                    all.take(sigs@.len() + 1int) == sigs@.push(sig),
                    names_distinct(sigs@),
                    first_repeat(sigs@) is None,
                    all == msg.signals@,
                    *self == *old(self),
                decreases sigs@.len() - j,
            {
                if str_eq(sigs[j].name.as_str(), sig.name.as_str()) {
                    proof {
                        let p = sigs@.push(sig);
                        assert(p.drop_last() =~= sigs@);
                        assert(p[j as int] == sigs@[j as int]);
                        assert(p.last() == sig);
                        assert(p[j as int].name@ == p.last().name@);
                        assert(first_repeat(p.drop_last()) is None);
                        assert(first_repeat(p) == Some(sigs@.len() as int));
                        lemma_first_repeat_prefix(all, p);
                        assert(all[sigs@.len() as int] == p[sigs@.len() as int]);
                    }
                    return Err(CANConstructionError::SignalSpecifiedMultipleTimes(sig.name));
                }
                j = j + 1;
            }
            proof {
                let p = sigs@.push(sig);
                assert(p.drop_last() =~= sigs@);
                assert forall|i: int| 0 <= i < p.len() - 1 implies #[trigger] p[i].name@ != p.last().name@ by {
                    assert(p[i] == sigs@[i]);
                }
                assert(first_repeat(p) is None);
            }
            sigs.push(sig);
        }
        proof {
            assert(sigs@ =~= all);
        }
        let mut i: usize = 0;
        while i < self.messages.len()
            invariant
                0 <= i <= self.messages@.len(),
                forall|j: int| 0 <= j < i ==> (#[trigger] self.messages@[j]).spec_name() != name@,
                all == msg.signals@,
                first_repeat(all) is None,
                name@ == msg.name@,
                *self == *old(self),
            decreases self.messages@.len() - i,
        {
            if str_eq(self.messages[i].name(), name.as_str()) {
                assert(self.spec_messages()[i as int].spec_name() == name@);
                return Err(CANConstructionError::MessageNameAlreadyExists(name));
            }
            i = i + 1;
        }
        let mut i: usize = 0;
        while i < self.messages.len()
            invariant
                0 <= i <= self.messages@.len(),
                forall|j: int| 0 <= j < i ==> (#[trigger] self.messages@[j]).spec_id() != id,
                !has_message_named(self.spec_messages(), msg.name@),
                all == msg.signals@,
                first_repeat(all) is None,
                id == msg.id,
                *self == *old(self),
            decreases self.messages@.len() - i,
        {
            if self.messages[i].id() == id {
                assert(self.spec_messages()[i as int].spec_id() == id);
                return Err(CANConstructionError::MessageIdAlreadyExists(id));
            }
            i = i + 1;
        }
        let m = CANMessage { name, id, signals: sigs };
        let mut msgs: Vec<CANMessage> = Vec::new();
        std::mem::swap(&mut msgs, &mut self.messages);
        let ghost old_msgs = msgs@;
        msgs.push(m);
        proof {
            assert(msgs@.drop_last() =~= old_msgs);
        }
        self.messages = msgs;
        Ok(())
    }
}

/// A message that the network accepted is the one found by its name and the one
/// found by its id.
pub proof fn law_added_message_is_found(msgs: Seq<CANMessage>, m: CANMessage)
    requires
        !has_message_named(msgs, m.spec_name()),
        !has_message_id(msgs, m.spec_id()),
    ensures
        has_message_named(msgs.push(m), m.spec_name()),
        has_message_id(msgs.push(m), m.spec_id()),
        forall|i: int|
            0 <= i < msgs.push(m).len() && (#[trigger] msgs.push(m)[i]).spec_name() == m.spec_name()
                ==> msgs.push(m)[i] == m,
        forall|i: int|
            0 <= i < msgs.push(m).len() && (#[trigger] msgs.push(m)[i]).spec_id() == m.spec_id()
                ==> msgs.push(m)[i] == m,
{
    let a = msgs.push(m);
    assert(a[msgs.len() as int] == m);
    assert forall|i: int| 0 <= i < a.len() && (#[trigger] a[i]).spec_name() == m.spec_name() implies a[i] == m by {
        if i < msgs.len() {
            assert(a[i] == msgs[i]);
        }
    }
    assert forall|i: int| 0 <= i < a.len() && (#[trigger] a[i]).spec_id() == m.spec_id() implies a[i] == m by {
        if i < msgs.len() {
            assert(a[i] == msgs[i]);
        }
    }
}

/// A repeat found in a prefix is the first repeat of the whole sequence.
proof fn lemma_first_repeat_prefix(all: Seq<CANSignal>, p: Seq<CANSignal>)
    requires
        p.len() <= all.len(),
        all.take(p.len() as int) == p,
        first_repeat(p) is Some,
    ensures
        first_repeat(all) == first_repeat(p),
    decreases all.len(),
{
    if all.len() > p.len() {
        assert(all.drop_last().take(p.len() as int) =~= p);
        lemma_first_repeat_prefix(all.drop_last(), p);
    } else {
        assert(all =~= p);
    }
}

} // verus!
