//! The network definition format, as plain data: each single-entry map of the
//! format (`- name: value`) is a list of `(name, value)` pairs.

use vstd::prelude::*;

verus! {

/// An enumerated value of a signal: a name whose raw value is chosen
/// automatically, or a name with its raw value.
pub enum YEnumeratedValue {
    Auto(String),
    Exact(Vec<(String, u64)>),
}

/// Description of a signal.
pub struct YSignal {
    pub width: Option<u32>,
    pub start_bit: Option<u32>,
    pub description: Option<String>,
    pub twos_complement: bool,
    /// Decimal text of the scale.
    pub scale: Option<String>,
    /// Decimal text of the offset.
    pub offset: Option<String>,
    pub unit: Option<String>,
    pub enumerated_values: Vec<YEnumeratedValue>,
}

/// Description of a message template.
pub struct YMessageTemplate {
    pub cycletime: Option<u32>,
    pub signals: Vec<Vec<(String, YSignal)>>,
}

/// Description of a message.
pub struct YMessage {
    pub id: u32,
    pub from_template: Option<String>,
    pub cycletime: Option<u32>,
    pub signals: Option<Vec<Vec<(String, YSignal)>>>,
}

/// A directive for the messages a node receives.
pub enum RxDirective {
    /// Receive all messages in the network (`rx: "*"`).
    Everything,
}

/// The messages a node receives: a list of names or a directive.
pub enum RxListOrDirective {
    List(Vec<String>),
    Directive(RxDirective),
}

impl Default for RxListOrDirective {
    /// The empty list.
    fn default() -> (r: RxListOrDirective)
        ensures
            r matches RxListOrDirective::List(l) && l@.len() == 0,
    {
        RxListOrDirective::List(Vec::new())
    }
}

/// Description of a node.
pub struct YNode {
    pub messages: Vec<Vec<(String, YMessage)>>,
    pub rx: RxListOrDirective,
}

/// Top-level description of a network.
pub struct YDesc {
    pub nodes: Vec<Vec<(String, YNode)>>,
    pub message_templates: Vec<Vec<(String, YMessageTemplate)>>,
    pub bitrate: Option<u32>,
    pub include_files: Vec<String>,
    pub lookup_path: String,
}

/// Small helper for turning single-entry maps into a pair.
///
/// The format writes
/// - signalName:
///     (parameter)
///
/// as a map with one entry; a list of them is both a sequence and keeps the `':'`.
pub fn unmap<T>(map: &Vec<(String, T)>) -> (r: (&String, &T))
    requires
        map@.len() == 1,
    ensures
        *r.0 == map@[0].0,
        *r.1 == map@[0].1,
{
    let e = &map[0];
    (&e.0, &e.1)
}

} // verus!
