//! Validated descriptions of CAN nodes.

use vstd::prelude::*;
use crate::text::str_eq;

verus! {

/// Names of the entries of a node's message list.
pub open spec fn entry_names(l: Seq<(String, usize)>) -> Seq<Seq<char>> {
    l.map_values(|e: (String, usize)| e.0@)
}

/// A validated description of a CAN node.
pub struct CANNode {
    /// Name of this node.
    pub name: String,
    /// Messages this node transmits: name and index into the parent network's messages.
    pub tx_messages: Vec<(String, usize)>,
    /// Messages this node receives: name and index into the parent network's messages.
    pub rx_messages: Vec<(String, usize)>,
}

/// Whether an entry list names `name`.
fn list_contains(l: &Vec<(String, usize)>, name: &str) -> (r: bool)
    ensures
        r == entry_names(l@).contains(name@),
{
    let mut i: usize = 0;
    while i < l.len()
        invariant
            0 <= i <= l@.len(),
            forall|j: int| 0 <= j < i ==> (#[trigger] l@[j]).0@ != name@,
        decreases l@.len() - i,
    {
        if str_eq(l[i].0.as_str(), name) {
            proof {
                assert(entry_names(l@)[i as int] == name@);
            }
            return true;
        }
        i = i + 1;
    }
    proof {
        if entry_names(l@).contains(name@) {
            let k = choose|k: int| 0 <= k < entry_names(l@).len() && entry_names(l@)[k] == name@;
            assert(l@[k].0@ == name@);
        }
    }
    false
}

impl CANNode {
    /// Get a new `Self`.
    pub fn new(name: String) -> (r: Self)
        ensures
            r.name == name,
            r.tx_messages@.len() == 0,
            r.rx_messages@.len() == 0,
    {
        Self { name, tx_messages: Vec::new(), rx_messages: Vec::new() }
    }

    /// Add tx message to this node. Meant to be called by a CANNetwork impl only,
    /// which ensures that this message name is unique across the network.
    pub(crate) fn add_tx_message(&mut self, name: &str, idx: usize)
        requires
            !entry_names(old(self).tx_messages@).contains(name@),
        ensures
            final(self).name == old(self).name,
            final(self).rx_messages == old(self).rx_messages,
            final(self).tx_messages@.len() == old(self).tx_messages@.len() + 1,
            final(self).tx_messages@.drop_last() == old(self).tx_messages@,
            final(self).tx_messages@.last().0@ == name@,
            final(self).tx_messages@.last().1 == idx,
    {
        self.tx_messages.push((String::from_str(name), idx));
        proof {
            assert(self.tx_messages@.drop_last() =~= old(self).tx_messages@);
        }
    }

    /// Add rx message to this node. Meant to be called by a CANNetwork impl only,
    /// which ensures that this message name is unique across the network.
    pub(crate) fn add_rx_message(&mut self, name: &str, idx: usize)
        requires
            !entry_names(old(self).rx_messages@).contains(name@),
        ensures
            final(self).name == old(self).name,
            final(self).tx_messages == old(self).tx_messages,
            final(self).rx_messages@.len() == old(self).rx_messages@.len() + 1,
            final(self).rx_messages@.drop_last() == old(self).rx_messages@,
            final(self).rx_messages@.last().0@ == name@,
            final(self).rx_messages@.last().1 == idx,
    {
        self.rx_messages.push((String::from_str(name), idx));
        proof {
            assert(self.rx_messages@.drop_last() =~= old(self).rx_messages@);
        }
    }

    /// Whether this node receives the message named `name`.
    pub fn receives(&self, name: &str) -> (r: bool)
        ensures
            r == entry_names(self.rx_messages@).contains(name@),
    {
        list_contains(&self.rx_messages, name)
    }

    /// Whether this node transmits the message named `name`.
    pub fn transmits(&self, name: &str) -> (r: bool)
        ensures
            r == entry_names(self.tx_messages@).contains(name@),
    {
        list_contains(&self.tx_messages, name)
    }
}

} // verus!
