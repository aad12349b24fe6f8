//! Validated descriptions of CAN networks: nodes, messages and message templates.

use vstd::prelude::*;
use crate::error::{CANConstructionError, ConstructionErrorView};
use crate::message::{CANMessage, MessageView};
use crate::node::{entry_names, CANNode};
use crate::text::str_eq;
use vstd::std_specs::iter::IteratorSpec;

verus! {

/// Some message in `msgs` is named `name`.
pub open spec fn has_message_named(msgs: Seq<CANMessage>, name: Seq<char>) -> bool {
    exists|i: int| 0 <= i < msgs.len() && #[trigger] msgs[i].name@ == name
}

/// Some message in `msgs` has id `id`.
pub open spec fn has_message_id(msgs: Seq<CANMessage>, id: u32) -> bool {
    exists|i: int| 0 <= i < msgs.len() && #[trigger] msgs[i].id == id
}

/// Some node in `nodes` is named `name`.
pub open spec fn has_node_named(nodes: Seq<CANNode>, name: Seq<char>) -> bool {
    exists|i: int| 0 <= i < nodes.len() && #[trigger] nodes[i].name@ == name
}

/// Index of the message named `name` (meaningful when there is one).
pub open spec fn message_index(msgs: Seq<CANMessage>, name: Seq<char>) -> int {
    choose|i: int| 0 <= i < msgs.len() && #[trigger] msgs[i].name@ == name
}

/// Index of the node named `name` (meaningful when there is one).
pub open spec fn node_index(nodes: Seq<CANNode>, name: Seq<char>) -> int {
    choose|i: int| 0 <= i < nodes.len() && #[trigger] nodes[i].name@ == name
}

/// Entries of a node's message list name existing messages, by their index, each once.
pub open spec fn entries_wf(l: Seq<(String, usize)>, msgs: Seq<CANMessage>) -> bool {
    &&& forall|k: int|
        0 <= k < l.len() ==> (#[trigger] l[k]).1 < msgs.len() && msgs[l[k].1 as int].name@
            == l[k].0@
    &&& forall|a: int, b: int| 0 <= a < b < l.len() ==> (#[trigger] l[a]).0@ != (#[trigger] l[b]).0@
}

/// Message `m` is transmitted by the node named `node`.
pub open spec fn sent_by(m: CANMessage, node: Seq<char>) -> bool {
    m.tx_node is Some && m.tx_node.unwrap()@ == node
}

/// Each node's list of transmitted messages holds exactly the messages that name
/// it as their transmitter: every entry points to such a message, and every
/// message with a transmitter has an entry in the list of a node of that name.
pub open spec fn tx_wf(nodes: Seq<CANNode>, msgs: Seq<CANMessage>) -> bool {
    &&& forall|n: int, k: int|
        0 <= n < nodes.len() && 0 <= k < nodes[n].tx_messages@.len() ==> sent_by(
            msgs[(#[trigger] nodes[n].tx_messages@[k]).1 as int],
            nodes[n].name@,
        )
    &&& forall|i: int|
        0 <= i < msgs.len() && (#[trigger] msgs[i]).tx_node is Some ==> exists|n: int, k: int|
            0 <= n < nodes.len() && 0 <= k < nodes[n].tx_messages@.len() && nodes[n].name@
                == msgs[i].tx_node.unwrap()@ && (#[trigger] nodes[n].tx_messages@[k]).1 == i
}

/// Names, ids, node names and template names are unique; node message lists are consistent.
pub open spec fn network_wf(
    nodes: Seq<CANNode>,
    msgs: Seq<CANMessage>,
    templates: Seq<CANMessage>,
) -> bool {
    &&& forall|i: int, j: int|
        #![trigger msgs[i], msgs[j]]
        0 <= i < j < msgs.len() ==> msgs[i].name@ != msgs[j].name@ && msgs[i].id != msgs[j].id
    &&& forall|i: int, j: int|
        #![trigger nodes[i], nodes[j]]
        0 <= i < j < nodes.len() ==> nodes[i].name@ != nodes[j].name@
    &&& forall|i: int, j: int|
        #![trigger templates[i], templates[j]]
        0 <= i < j < templates.len() ==> templates[i].name@ != templates[j].name@
    &&& forall|i: int| 0 <= i < templates.len() ==> (#[trigger] templates[i]).wf()
    &&& forall|i: int|
        0 <= i < nodes.len() ==> entries_wf((#[trigger] nodes[i]).tx_messages@, msgs) && entries_wf(
            nodes[i].rx_messages@,
            msgs,
        )
}


/// `new` is `old` with the entry `(name, idx)` appended to the transmit list of the
/// node named by `tx` (no change when `tx` is `None`).
pub open spec fn tx_recorded(
    old: Seq<CANNode>,
    new: Seq<CANNode>,
    tx: Option<Seq<char>>,
    name: Seq<char>,
    idx: int,
) -> bool {
    &&& new.len() == old.len()
    &&& forall|j: int|
        0 <= j < old.len() ==> if tx matches Some(t) && j == node_index(old, t) {
            &&& (#[trigger] new[j]).name == old[j].name
            &&& new[j].rx_messages == old[j].rx_messages
            &&& new[j].tx_messages@.len() == old[j].tx_messages@.len() + 1
            &&& new[j].tx_messages@.drop_last() == old[j].tx_messages@
            &&& new[j].tx_messages@.last().0@ == name
            &&& new[j].tx_messages@.last().1 == idx
        } else {
            new[j] == old[j]
        }
}

/// `new` is `old` with the entry `(name, idx)` appended to the receive list of node `k`.
pub open spec fn rx_recorded(old: Seq<CANNode>, new: Seq<CANNode>, k: int, name: Seq<char>, idx: int) -> bool {
    &&& new.len() == old.len()
    &&& forall|j: int|
        0 <= j < old.len() ==> if j == k {
            &&& (#[trigger] new[j]).name == old[j].name
            &&& new[j].tx_messages == old[j].tx_messages
            &&& new[j].rx_messages@.len() == old[j].rx_messages@.len() + 1
            &&& new[j].rx_messages@.drop_last() == old[j].rx_messages@
            &&& new[j].rx_messages@.last().0@ == name
            &&& new[j].rx_messages@.last().1 == idx
        } else {
            new[j] == old[j]
        }
}

/// Model of a node: its name and the names of the messages it transmits and receives.
pub struct NodeView {
    pub name: Seq<char>,
    pub tx: Seq<Seq<char>>,
    pub rx: Seq<Seq<char>>,
}

/// The model of a node.
pub open spec fn node_view(n: CANNode) -> NodeView {
    NodeView { name: n.name@, tx: entry_names(n.tx_messages@), rx: entry_names(n.rx_messages@) }
}

/// Mathematical model of a [`CANNetwork`].
pub struct NetworkView {
    pub nodes: Seq<NodeView>,
    pub messages: Seq<MessageView>,
    pub templates: Seq<MessageView>,
    pub bitrate: Option<u32>,
}

/// Some message model is named `name`.
pub open spec fn view_has_message(ms: Seq<MessageView>, name: Seq<char>) -> bool {
    exists|i: int| 0 <= i < ms.len() && #[trigger] ms[i].name == name
}

/// Some message model has id `id`.
pub open spec fn view_has_id(ms: Seq<MessageView>, id: u32) -> bool {
    exists|i: int| 0 <= i < ms.len() && #[trigger] ms[i].id == id
}

/// Some node model is named `name`.
pub open spec fn view_has_node(ns: Seq<NodeView>, name: Seq<char>) -> bool {
    exists|i: int| 0 <= i < ns.len() && #[trigger] ns[i].name == name
}

/// Index of the node model named `name` (meaningful when there is one).
pub open spec fn view_node_index(ns: Seq<NodeView>, name: Seq<char>) -> int {
    choose|i: int| 0 <= i < ns.len() && #[trigger] ns[i].name == name
}

/// Index of the message model named `name` (meaningful when there is one).
pub open spec fn view_message_index(ms: Seq<MessageView>, name: Seq<char>) -> int {
    choose|i: int| 0 <= i < ms.len() && #[trigger] ms[i].name == name
}

impl NetworkView {
    /// The model of a network with nothing in it.
    pub open spec fn empty() -> NetworkView {
        NetworkView {
            nodes: Seq::empty(),
            messages: Seq::empty(),
            templates: Seq::empty(),
            bitrate: None,
        }
    }

    /// The network after adding a node named `name`, unless one exists.
    pub open spec fn add_node(self, name: Seq<char>) -> Option<NetworkView> {
        if view_has_node(self.nodes, name) {
            None
        } else {
            Some(
                NetworkView {
                    nodes: self.nodes.push(NodeView { name, tx: Seq::empty(), rx: Seq::empty() }),
                    ..self
                },
            )
        }
    }

    /// The network after inserting the message `m`, unless its name or id is
    /// taken or its transmitting node does not exist.
    pub open spec fn insert_msg(self, m: MessageView) -> Option<NetworkView> {
        if view_has_message(self.messages, m.name) || view_has_id(self.messages, m.id) {
            None
        } else {
            match m.tx_node {
                None => Some(NetworkView { messages: self.messages.push(m), ..self }),
                Some(t) => if !view_has_node(self.nodes, t) {
                    None
                } else {
                    let k = view_node_index(self.nodes, t);
                    Some(
                        NetworkView {
                            messages: self.messages.push(m),
                            nodes: self.nodes.update(
                                k,
                                NodeView { tx: self.nodes[k].tx.push(m.name), ..self.nodes[k] },
                            ),
                            ..self
                        },
                    )
                },
            }
        }
    }

    /// The network after marking message `msg` as received by node `node`, unless
    /// either does not exist.
    pub open spec fn set_rx(self, msg: Seq<char>, node: Seq<char>) -> Option<NetworkView> {
        if !view_has_message(self.messages, msg) || !view_has_node(self.nodes, node) {
            None
        } else {
            let k = view_node_index(self.nodes, node);
            Some(
                NetworkView {
                    nodes: self.nodes.update(
                        k,
                        NodeView { rx: self.nodes[k].rx.push(msg), ..self.nodes[k] },
                    ),
                    ..self
                },
            )
        }
    }

    /// The error of adding a node named `name`, when that fails.
    pub open spec fn add_node_error(self, name: Seq<char>) -> ConstructionErrorView {
        ConstructionErrorView::NodeAlreadyExists(name)
    }

    /// The error of inserting the message `m`, when that fails: its name is taken,
    /// else its id, else its transmitting node does not exist.
    pub open spec fn insert_msg_error(self, m: MessageView) -> ConstructionErrorView {
        if view_has_message(self.messages, m.name) {
            ConstructionErrorView::MessageNameAlreadyExists(m.name)
        } else if view_has_id(self.messages, m.id) {
            ConstructionErrorView::MessageIdAlreadyExists(m.id)
        } else {
            ConstructionErrorView::NodeDoesNotExist(m.tx_node.unwrap())
        }
    }

    /// The error of marking message `msg` as received by node `node`, when that
    /// fails: the message does not exist, else the node does not.
    pub open spec fn set_rx_error(self, msg: Seq<char>, node: Seq<char>) -> ConstructionErrorView {
        if !view_has_message(self.messages, msg) {
            ConstructionErrorView::MessageDoesNotExist(msg)
        } else {
            ConstructionErrorView::NodeDoesNotExist(node)
        }
    }

    /// The error of inserting the template `t`, when that fails.
    pub open spec fn insert_template_error(self, t: MessageView) -> ConstructionErrorView {
        ConstructionErrorView::TemplateMessageNameAlreadyExists(t.name)
    }

    /// The network after inserting the template `t`, unless a template of that name exists.
    pub open spec fn insert_template(self, t: MessageView) -> Option<NetworkView> {
        if view_has_message(self.templates, t.name) {
            None
        } else {
            Some(NetworkView { templates: self.templates.push(t), ..self })
        }
    }
}

/// The models of a sequence of nodes.
pub open spec fn node_views(nodes: Seq<CANNode>) -> Seq<NodeView> {
    nodes.map_values(|n: CANNode| node_view(n))
}

/// The models of a sequence of messages.
pub open spec fn message_views(msgs: Seq<CANMessage>) -> Seq<MessageView> {
    msgs.map_values(|m: CANMessage| m@)
}

/// Lookups by name and id agree between messages and their models.
proof fn lemma_message_lookup(msgs: Seq<CANMessage>, name: Seq<char>, id: u32)
    ensures
        has_message_named(msgs, name) == view_has_message(message_views(msgs), name),
        has_message_id(msgs, id) == view_has_id(message_views(msgs), id),
        (forall|i: int, j: int|
            #![trigger msgs[i], msgs[j]]
            0 <= i < j < msgs.len() ==> msgs[i].name@ != msgs[j].name@) && has_message_named(
            msgs,
            name,
        ) ==> view_message_index(message_views(msgs), name) == message_index(msgs, name),
{
    let vs = message_views(msgs);
    if has_message_named(msgs, name) {
        let i = choose|i: int| 0 <= i < msgs.len() && #[trigger] msgs[i].name@ == name;
        assert(vs[i].name == name);
        let a = view_message_index(vs, name);
        let b = message_index(msgs, name);
        assert(msgs[a].name@ == vs[a].name);
        if (forall|i: int, j: int|
            #![trigger msgs[i], msgs[j]]
            0 <= i < j < msgs.len() ==> msgs[i].name@ != msgs[j].name@) {
            if a < b {
                assert(msgs[a].name@ != msgs[b].name@);
            } else if b < a {
                assert(msgs[b].name@ != msgs[a].name@);
            }
        }
    }
    if view_has_message(vs, name) {
        let i = choose|i: int| 0 <= i < vs.len() && #[trigger] vs[i].name == name;
        assert(msgs[i].name@ == name);
    }
    if has_message_id(msgs, id) {
        let i = choose|i: int| 0 <= i < msgs.len() && #[trigger] msgs[i].id == id;
        assert(vs[i].id == id);
    }
    if view_has_id(vs, id) {
        let i = choose|i: int| 0 <= i < vs.len() && #[trigger] vs[i].id == id;
        assert(msgs[i].id == id);
    }
}

/// Lookups by name agree between nodes and their models.
proof fn lemma_node_lookup(nodes: Seq<CANNode>, name: Seq<char>)
    ensures
        has_node_named(nodes, name) == view_has_node(node_views(nodes), name),
        (forall|i: int, j: int|
            #![trigger nodes[i], nodes[j]]
            0 <= i < j < nodes.len() ==> nodes[i].name@ != nodes[j].name@) && has_node_named(
            nodes,
            name,
        ) ==> view_node_index(node_views(nodes), name) == node_index(nodes, name),
{
    let vs = node_views(nodes);
    if has_node_named(nodes, name) {
        let i = choose|i: int| 0 <= i < nodes.len() && #[trigger] nodes[i].name@ == name;
        assert(vs[i].name == name);
        let a = view_node_index(vs, name);
        let b = node_index(nodes, name);
        assert(nodes[a].name@ == vs[a].name);
        if (forall|i: int, j: int|
            #![trigger nodes[i], nodes[j]]
            0 <= i < j < nodes.len() ==> nodes[i].name@ != nodes[j].name@) {
            if a < b {
                assert(nodes[a].name@ != nodes[b].name@);
            } else if b < a {
                assert(nodes[b].name@ != nodes[a].name@);
            }
        }
    }
    if view_has_node(vs, name) {
        let i = choose|i: int| 0 <= i < vs.len() && #[trigger] vs[i].name == name;
        assert(nodes[i].name@ == name);
    }
}

/// The node models after recording a transmitted message.
proof fn lemma_tx_view(
    old: Seq<CANNode>,
    new: Seq<CANNode>,
    tx: Option<Seq<char>>,
    name: Seq<char>,
    idx: int,
)
    requires
        tx_recorded(old, new, tx, name, idx),
        tx matches Some(t) ==> has_node_named(old, t),
    ensures
        node_views(new) == match tx {
            None => node_views(old),
            Some(t) => node_views(old).update(
                node_index(old, t),
                NodeView {
                    tx: node_views(old)[node_index(old, t)].tx.push(name),
                    ..node_views(old)[node_index(old, t)]
                },
            ),
        },
{
    let target = match tx {
        None => node_views(old),
        Some(t) => node_views(old).update(
            node_index(old, t),
            NodeView {
                tx: node_views(old)[node_index(old, t)].tx.push(name),
                ..node_views(old)[node_index(old, t)]
            },
        ),
    };
    assert forall|j: int| 0 <= j < new.len() implies node_views(new)[j] == target[j] by {
        if tx matches Some(t) && j == node_index(old, t) {
            let a = new[j].tx_messages@;
            let b = old[j].tx_messages@;
            assert(entry_names(a) =~= entry_names(b).push(name)) by {
                assert forall|e: int| 0 <= e < b.len() implies a[e] == b[e] by {
                    assert(a.drop_last()[e] == a[e]);
                }
            }
        } else {
            assert(new[j] == old[j]);
        }
    }
    assert(node_views(new) =~= target);
}

/// The node models after recording a received message at node `k`.
proof fn lemma_rx_view(old: Seq<CANNode>, new: Seq<CANNode>, k: int, name: Seq<char>, idx: int)
    requires
        rx_recorded(old, new, k, name, idx),
        0 <= k < old.len(),
    ensures
        node_views(new) == node_views(old).update(
            k,
            NodeView { rx: node_views(old)[k].rx.push(name), ..node_views(old)[k] },
        ),
{
    let target = node_views(old).update(
        k,
        NodeView { rx: node_views(old)[k].rx.push(name), ..node_views(old)[k] },
    );
    assert forall|j: int| 0 <= j < new.len() implies node_views(new)[j] == target[j] by {
        if j == k {
            let a = new[j].rx_messages@;
            let b = old[j].rx_messages@;
            assert(entry_names(a) =~= entry_names(b).push(name)) by {
                assert forall|e: int| 0 <= e < b.len() implies a[e] == b[e] by {
                    assert(a.drop_last()[e] == a[e]);
                }
            }
        } else {
            assert(new[j] == old[j]);
        }
    }
    assert(node_views(new) =~= target);
}

impl Default for CANNetwork {
    /// An empty network.
    fn default() -> (r: CANNetwork)
        ensures
            r@ == NetworkView::empty(),
    {
        CANNetwork::new()
    }
}

/// A message that the network accepted is found again by its name and by its id,
/// and no other name appears or disappears.
pub proof fn law_inserted_message_is_found(msgs: Seq<CANMessage>, m: CANMessage)
    requires
        !has_message_named(msgs, m.name@),
        !has_message_id(msgs, m.id),
    ensures
        has_message_named(msgs.push(m), m.name@),
        msgs.push(m)[message_index(msgs.push(m), m.name@)] == m,
        has_message_id(msgs.push(m), m.id),
        forall|i: int| 0 <= i < msgs.push(m).len() && (#[trigger] msgs.push(m)[i]).id == m.id ==> msgs.push(m)[i] == m,
        forall|n: Seq<char>|
            #[trigger] has_message_named(msgs.push(m), n) == (has_message_named(msgs, n) || n == m.name@),
{
    let a = msgs.push(m);
    assert(a[msgs.len() as int] == m);
    assert(has_message_named(a, m.name@));
    let k = message_index(a, m.name@);
    if k < msgs.len() {
        assert(a[k] == msgs[k]);
    }
    assert forall|i: int| 0 <= i < a.len() && (#[trigger] a[i]).id == m.id implies a[i] == m by {
        if i < msgs.len() {
            assert(a[i] == msgs[i]);
        }
    }
    assert forall|n: Seq<char>| #[trigger] has_message_named(a, n) == (has_message_named(msgs, n) || n == m.name@) by {
        if has_message_named(msgs, n) {
            let i = choose|i: int| 0 <= i < msgs.len() && #[trigger] msgs[i].name@ == n;
            assert(a[i] == msgs[i]);
        }
        if has_message_named(a, n) && n != m.name@ {
            let i = choose|i: int| 0 <= i < a.len() && #[trigger] a[i].name@ == n;
            assert(a[i] == msgs[i]);
        }
    }
}

/// A node that the network accepted is found again by its name.
pub proof fn law_added_node_is_found(nodes: Seq<CANNode>, n: CANNode)
    requires
        !has_node_named(nodes, n.name@),
    ensures
        has_node_named(nodes.push(n), n.name@),
        node_index(nodes.push(n), n.name@) == nodes.len(),
        nodes.push(n)[node_index(nodes.push(n), n.name@)] == n,
{
    let a = nodes.push(n);
    assert(a[nodes.len() as int] == n);
    assert(has_node_named(a, n.name@));
    let k = node_index(a, n.name@);
    if k < nodes.len() {
        assert(a[k] == nodes[k]);
    }
}

/// A validated description of a CAN network.
pub struct CANNetwork {
    nodes: Vec<CANNode>,
    messages: Vec<CANMessage>,
    template_messages: Vec<CANMessage>,
    bitrate: Option<u32>,
}

impl View for CANNetwork {
    type V = NetworkView;

    open spec fn view(&self) -> NetworkView {
        NetworkView {
            nodes: node_views(self.spec_nodes()),
            messages: message_views(self.spec_messages()),
            templates: message_views(self.spec_templates()),
            bitrate: self.spec_bitrate(),
        }
    }
}

impl CANNetwork {
    /// Nodes in the order they were added.
    pub closed spec fn spec_nodes(self) -> Seq<CANNode> {
        self.nodes@
    }

    /// Messages in the order they were inserted.
    pub closed spec fn spec_messages(self) -> Seq<CANMessage> {
        self.messages@
    }

    /// Template messages in the order they were inserted.
    pub closed spec fn spec_templates(self) -> Seq<CANMessage> {
        self.template_messages@
    }

    /// Bitrate of the network, if set.
    pub closed spec fn spec_bitrate(self) -> Option<u32> {
        self.bitrate
    }

    /// Names, ids, node names and template names are unique; node message lists are consistent.
    #[verifier::type_invariant]
    pub closed spec fn inv(self) -> bool {
        network_wf(self.nodes@, self.messages@, self.template_messages@) && tx_wf(
            self.nodes@,
            self.messages@,
        )
    }

    /// In every network, message names, message ids, node names and template names
    /// are unique.
    pub proof fn law_names_and_ids_are_unique(self)
        requires
            self.inv(),
        ensures
            forall|i: int, j: int|
                0 <= i < j < self.spec_messages().len() ==> (#[trigger] self.spec_messages()[i]).name@
                    != (#[trigger] self.spec_messages()[j]).name@ && self.spec_messages()[i].id
                    != self.spec_messages()[j].id,
            forall|i: int, j: int|
                0 <= i < j < self.spec_nodes().len() ==> (#[trigger] self.spec_nodes()[i]).name@
                    != (#[trigger] self.spec_nodes()[j]).name@,
            forall|i: int, j: int|
                0 <= i < j < self.spec_templates().len() ==> (#[trigger] self.spec_templates()[i]).name@
                    != (#[trigger] self.spec_templates()[j]).name@,
    {
    }

    /// In every network, the messages that a node's list of transmitted messages
    /// points to are exactly the messages that name that node as their transmitter.
    pub proof fn law_tx_lists_match_transmitters(self)
        requires
            self.inv(),
        ensures
            tx_wf(self.spec_nodes(), self.spec_messages()),
    {
    }

    /// In every network, the list of messages that a node transmits holds exactly
    /// the messages whose transmitting node is that node, each once.
    pub proof fn law_tx_list_is_the_transmitted_messages(self, name: Seq<char>)
        requires
            self.inv(),
            has_node_named(self.spec_nodes(), name),
        ensures
            ({
                let l = self.spec_nodes()[node_index(self.spec_nodes(), name)].tx_messages@;
                &&& forall|m: CANMessage|
                    (exists|k: int| 0 <= k < l.len() && self.spec_messages()[(#[trigger] l[k]).1 as int] == m)
                        <==> (self.spec_messages().contains(m) && sent_by(m, name))
                &&& forall|a: int, b: int| 0 <= a < b < l.len() ==> (#[trigger] l[a]).1 != (#[trigger] l[b]).1
            }),
    {
        let nodes = self.spec_nodes();
        let msgs = self.spec_messages();
        let c = node_index(nodes, name);
        let l = nodes[c].tx_messages@;
        assert(nodes[c].name@ == name);
        assert(entries_wf(l, msgs));
        assert forall|m: CANMessage|
            (exists|k: int| 0 <= k < l.len() && msgs[(#[trigger] l[k]).1 as int] == m) <==> (msgs.contains(m)
                && sent_by(m, name)) by {
            if exists|k: int| 0 <= k < l.len() && msgs[(#[trigger] l[k]).1 as int] == m {
                let k = choose|k: int| 0 <= k < l.len() && msgs[(#[trigger] l[k]).1 as int] == m;
                assert(nodes[c].tx_messages@[k] == l[k]);
                assert(sent_by(msgs[l[k].1 as int], nodes[c].name@));
                assert(msgs[l[k].1 as int] == m);
            }
            if msgs.contains(m) && sent_by(m, name) {
                let i = choose|i: int| 0 <= i < msgs.len() && msgs[i] == m;
                assert(msgs[i].tx_node is Some);
                let (n, k) = choose|n: int, k: int|
                    0 <= n < nodes.len() && 0 <= k < nodes[n].tx_messages@.len() && nodes[n].name@
                        == msgs[i].tx_node.unwrap()@ && (#[trigger] nodes[n].tx_messages@[k]).1 == i;
                if n < c {
                    assert(nodes[n].name@ != nodes[c].name@);
                } else if c < n {
                    assert(nodes[c].name@ != nodes[n].name@);
                }
                assert(msgs[l[k].1 as int] == m);
            }
        }
        assert forall|a: int, b: int| 0 <= a < b < l.len() implies (#[trigger] l[a]).1 != (#[trigger] l[b]).1 by {
            assert(l[a].0@ != l[b].0@);
        }
    }

    /// Create a new (empty) network.
    pub fn new() -> (r: CANNetwork)
        ensures
            r.spec_nodes().len() == 0,
            r.spec_messages().len() == 0,
            r.spec_templates().len() == 0,
            r.spec_bitrate() is None,
            r@ == NetworkView::empty(),
    {
        let r = CANNetwork {
            nodes: Vec::new(),
            messages: Vec::new(),
            template_messages: Vec::new(),
            bitrate: None,
        };
        proof {
            assert(node_views(r.nodes@) =~= Seq::empty());
            assert(message_views(r.messages@) =~= Seq::empty());
            assert(message_views(r.template_messages@) =~= Seq::empty());
        }
        r
    }

    /// Set the bitrate of the network.
    pub fn set_bitrate(&mut self, bitrate: u32)
        ensures
            final(self).spec_bitrate() == Some(bitrate),
            final(self)@ == (NetworkView { bitrate: Some(bitrate), ..old(self)@ }),
            final(self).spec_nodes() == old(self).spec_nodes(),
            final(self).spec_messages() == old(self).spec_messages(),
            final(self).spec_templates() == old(self).spec_templates(),
    {
        proof {
            use_type_invariant(&*self);
        }
        self.bitrate = Some(bitrate);
    }

    /// Bitrate of the network, if set.
    pub fn bitrate(&self) -> (r: Option<u32>)
        ensures
            r == self.spec_bitrate(),
    {
        self.bitrate
    }

    fn find_message(&self, name: &str) -> (r: Option<usize>)
        ensures
            match r {
                Some(i) => i < self.spec_messages().len() && self.spec_messages()[i as int].name@
                    == name@,
                None => !has_message_named(self.spec_messages(), name@),
            },
    {
        let mut i: usize = 0;
        while i < self.messages.len()
            invariant
                0 <= i <= self.messages@.len(),
                forall|j: int| 0 <= j < i ==> (#[trigger] self.messages@[j]).name@ != name@,
            decreases self.messages@.len() - i,
        {
            if str_eq(self.messages[i].name.as_str(), name) {
                return Some(i);
            }
            i = i + 1;
        }
        None
    }

    fn find_message_id(&self, id: u32) -> (r: Option<usize>)
        ensures
            match r {
                Some(i) => i < self.spec_messages().len() && self.spec_messages()[i as int].id == id,
                None => !has_message_id(self.spec_messages(), id),
            },
    {
        let mut i: usize = 0;
        while i < self.messages.len()
            invariant
                0 <= i <= self.messages@.len(),
                forall|j: int| 0 <= j < i ==> (#[trigger] self.messages@[j]).id != id,
            decreases self.messages@.len() - i,
        {
            if self.messages[i].id == id {
                return Some(i);
            }
            i = i + 1;
        }
        None
    }

    fn find_template(&self, name: &str) -> (r: Option<usize>)
        ensures
            match r {
                Some(i) => i < self.spec_templates().len() && self.spec_templates()[i as int].name@
                    == name@,
                None => !has_message_named(self.spec_templates(), name@),
            },
    {
        let mut i: usize = 0;
        while i < self.template_messages.len()
            invariant
                0 <= i <= self.template_messages@.len(),
                forall|j: int| 0 <= j < i ==> (#[trigger] self.template_messages@[j]).name@ != name@,
            decreases self.template_messages@.len() - i,
        {
            if str_eq(self.template_messages[i].name.as_str(), name) {
                return Some(i);
            }
            i = i + 1;
        }
        None
    }

    fn find_node(&self, name: &str) -> (r: Option<usize>)
        ensures
            match r {
                Some(i) => i < self.spec_nodes().len() && self.spec_nodes()[i as int].name@
                    == name@,
                None => !has_node_named(self.spec_nodes(), name@),
            },
    {
        let mut i: usize = 0;
        while i < self.nodes.len()
            invariant
                0 <= i <= self.nodes@.len(),
                forall|j: int| 0 <= j < i ==> (#[trigger] self.nodes@[j]).name@ != name@,
            decreases self.nodes@.len() - i,
        {
            if str_eq(self.nodes[i].name.as_str(), name) {
                return Some(i);
            }
            i = i + 1;
        }
        None
    }

    /// Get message in this network by name.
    pub fn message_by_name(&self, name: &str) -> (r: Option<&CANMessage>)
        ensures
            match r {
                Some(m) => has_message_named(self.spec_messages(), name@) && *m
                    == self.spec_messages()[message_index(self.spec_messages(), name@)],
                None => !has_message_named(self.spec_messages(), name@),
            },
    {
        proof {
            use_type_invariant(self);
        }
        match self.find_message(name) {
            Some(i) => {
                proof {
                    let k = message_index(self.messages@, name@);
                    assert(self.messages@[i as int].name@ == name@);
                    assert(self.messages@[k].name@ == name@);
                    if k < i {
                        assert(self.messages@[k].name@ != self.messages@[i as int].name@);
                    } else if i < k {
                        assert(self.messages@[i as int].name@ != self.messages@[k].name@);
                    }
                }
                Some(&self.messages[i])
            },
            None => None,
        }
    }

    /// Get message in this network by ID.
    pub fn message_by_id(&self, id: &u32) -> (r: Option<&CANMessage>)
        ensures
            match r {
                Some(m) => exists|i: int|
                    0 <= i < self.spec_messages().len() && self.spec_messages()[i] == *m && m.id
                        == *id,
                None => !has_message_id(self.spec_messages(), *id),
            },
    {
        let mut i: usize = 0;
        while i < self.messages.len()
            invariant
                0 <= i <= self.messages@.len(),
                forall|j: int| 0 <= j < i ==> (#[trigger] self.messages@[j]).id != *id,
            decreases self.messages@.len() - i,
        {
            if self.messages[i].id == *id {
                proof {
                    assert(self.spec_messages()[i as int] == self.messages@[i as int]);
                }
                return Some(&self.messages[i]);
            }
            i = i + 1;
        }
        None
    }

    /// Get a node in this network by name.
    pub fn node_by_name(&self, name: &str) -> (r: Option<&CANNode>)
        ensures
            match r {
                Some(n) => has_node_named(self.spec_nodes(), name@) && *n
                    == self.spec_nodes()[node_index(self.spec_nodes(), name@)],
                None => !has_node_named(self.spec_nodes(), name@),
            },
    {
        proof {
            use_type_invariant(self);
        }
        match self.find_node(name) {
            Some(i) => {
                proof {
                    let k = node_index(self.nodes@, name@);
                    assert(self.nodes@[i as int].name@ == name@);
                    assert(self.nodes@[k].name@ == name@);
                    if k < i {
                        assert(self.nodes@[k].name@ != self.nodes@[i as int].name@);
                    } else if i < k {
                        assert(self.nodes@[i as int].name@ != self.nodes@[k].name@);
                    }
                }
                Some(&self.nodes[i])
            },
            None => None,
        }
    }

    /// Messages of this network, in the order they were inserted.
    pub fn messages(&self) -> (r: &[CANMessage])
        ensures
            r@ == self.spec_messages(),
    {
        self.messages.as_slice()
    }

    /// Template messages of this network, in the order they were inserted.
    pub fn templates(&self) -> (r: &[CANMessage])
        ensures
            r@ == self.spec_templates(),
    {
        self.template_messages.as_slice()
    }

    /// Nodes of this network, in the order they were added.
    pub fn nodes(&self) -> (r: &[CANNode])
        ensures
            r@ == self.spec_nodes(),
    {
        self.nodes.as_slice()
    }

    /// Insert a message into the network.
    ///
    /// Checks, in order, for message name and ID uniqueness; if a transmitting node
    /// is specified, it must already exist in the network, and it then lists the
    /// message among the messages it transmits.
    pub fn insert_msg(&mut self, msg: CANMessage) -> (r: Result<(), CANConstructionError>)
        ensures
            has_message_named(old(self).spec_messages(), msg.name@) ==> (r matches Err(
                CANConstructionError::MessageNameAlreadyExists(n),
            ) && n@ == msg.name@ && *final(self) == *old(self)),
            !has_message_named(old(self).spec_messages(), msg.name@) && has_message_id(
                old(self).spec_messages(),
                msg.id,
            ) ==> (r matches Err(CANConstructionError::MessageIdAlreadyExists(i)) && i == msg.id
                && *final(self) == *old(self)),
            !has_message_named(old(self).spec_messages(), msg.name@) && !has_message_id(
                old(self).spec_messages(),
                msg.id,
            ) && (msg.tx_node matches Some(t) && !has_node_named(old(self).spec_nodes(), t@)) ==> (
            r matches Err(CANConstructionError::NodeDoesNotExist(n)) && n@ == msg.tx_node.unwrap()@
                && *final(self) == *old(self)),
            !has_message_named(old(self).spec_messages(), msg.name@) && !has_message_id(
                old(self).spec_messages(),
                msg.id,
            ) && !(msg.tx_node matches Some(t) && !has_node_named(old(self).spec_nodes(), t@)) ==> (
            r is Ok && final(self).spec_messages() == old(self).spec_messages().push(msg)
                && final(self).spec_templates() == old(self).spec_templates()
                && final(self).spec_bitrate() == old(self).spec_bitrate() && tx_recorded(
                old(self).spec_nodes(),
                final(self).spec_nodes(),
                crate::signal::opt_text(msg.tx_node),
                msg.name@,
                old(self).spec_messages().len() as int,
            )),
            match old(self)@.insert_msg(msg@) {
                Some(v) => r is Ok && final(self)@ == v,
                None => r matches Err(e) && e@ == old(self)@.insert_msg_error(msg@),
            },
    {
        proof {
            use_type_invariant(&*self);
            lemma_message_lookup(self.messages@, msg.name@, msg.id);
            if msg.tx_node is Some {
                lemma_node_lookup(self.nodes@, msg.tx_node->0@);
            }
        }
        if let Some(_) = self.find_message(msg.name.as_str()) {
            return Err(CANConstructionError::MessageNameAlreadyExists(msg.name));
        }
        if let Some(_) = self.find_message_id(msg.id) {
            return Err(CANConstructionError::MessageIdAlreadyExists(msg.id));
        }
        let msg_idx = self.messages.len();
        let node_idx: Option<usize> = match &msg.tx_node {
            Some(t) => match self.find_node(t.as_str()) {
                Some(k) => Some(k),
                None => {
                    return Err(CANConstructionError::NodeDoesNotExist(t.clone()));
                },
            },
            None => None,
        };
        let ghost old_nodes = self.nodes@;
        let ghost old_msgs = self.messages@;
        let ghost kk: int = match node_idx {
            Some(k) => k as int,
            None => -1,
        };
        let mut whole = CANNetwork::new();
        std::mem::swap(&mut whole, self);
        let CANNetwork { mut nodes, messages: mut msgs_v, template_messages, bitrate } = whole;
        if let Some(k) = node_idx {
            proof {
                // the new name is not yet among the node's entries, which name existing messages
                if entry_names(nodes@[k as int].tx_messages@).contains(msg.name@) {
                    let e = choose|e: int|
                        0 <= e < entry_names(nodes@[k as int].tx_messages@).len() && entry_names(
                            nodes@[k as int].tx_messages@,
                        )[e] == msg.name@;
                    let mi = nodes@[k as int].tx_messages@[e].1 as int;
                    assert(old_msgs[mi].name@ == msg.name@);
                }
            }
            nodes[k].add_tx_message(msg.name.as_str(), msg_idx);
        }
        msgs_v.push(msg);
        proof {
            let msgs = msgs_v@;
            assert(msgs == old_msgs.push(msg));
            assert forall|a: int, b: int|
                #![trigger msgs[a], msgs[b]]
                0 <= a < b < msgs.len() implies msgs[a].name@ != msgs[b].name@ && msgs[a].id
                != msgs[b].id by {
                if b == msgs.len() - 1 {
                    assert(msgs[a] == old_msgs[a]);
                }
            }
            if let Some(k) = node_idx {
                let kk = k as int;
                assert(kk == node_index(old_nodes, msg.tx_node.unwrap()@)) by {
                    let c = node_index(old_nodes, msg.tx_node.unwrap()@);
                    assert(old_nodes[c].name@ == msg.tx_node.unwrap()@);
                    if c < kk {
                        assert(old_nodes[c].name@ != old_nodes[kk].name@);
                    } else if kk < c {
                        assert(old_nodes[kk].name@ != old_nodes[c].name@);
                    }
                }
            }
            assert forall|j: int| 0 <= j < nodes@.len() implies entries_wf(
                (#[trigger] nodes@[j]).tx_messages@,
                msgs,
            ) && entries_wf(nodes@[j].rx_messages@, msgs) by {
                let otx = old_nodes[j].tx_messages@;
                let orx = old_nodes[j].rx_messages@;
                assert(entries_wf(otx, old_msgs));
                assert(entries_wf(orx, old_msgs));
                assert forall|e: int| 0 <= e < orx.len() implies (#[trigger] orx[e]).1 < msgs.len()
                    && msgs[orx[e].1 as int].name@ == orx[e].0@ by {
                    assert(msgs[orx[e].1 as int] == old_msgs[orx[e].1 as int]);
                }
                assert forall|e: int| 0 <= e < otx.len() implies (#[trigger] otx[e]).1 < msgs.len()
                    && msgs[otx[e].1 as int].name@ == otx[e].0@ by {
                    assert(msgs[otx[e].1 as int] == old_msgs[otx[e].1 as int]);
                }
                if j == kk {
                    let ntx = nodes@[j].tx_messages@;
                    assert(ntx.drop_last() == otx);
                    assert forall|e: int| 0 <= e < ntx.len() implies (#[trigger] ntx[e]).1
                        < msgs.len() && msgs[ntx[e].1 as int].name@ == ntx[e].0@ by {
                        if e < otx.len() {
                            assert(ntx[e] == otx[e]);
                        }
                    }
                    assert forall|a: int, b: int| 0 <= a < b < ntx.len() implies (#[trigger] ntx[a]).0@
                        != (#[trigger] ntx[b]).0@ by {
                        assert(ntx[a] == otx[a]);
                        if b < otx.len() {
                            assert(ntx[b] == otx[b]);
                        } else {
                            assert(msgs[otx[a].1 as int] == old_msgs[otx[a].1 as int]);
                            assert(old_msgs[otx[a].1 as int].name@ == otx[a].0@);
                        }
                    }
                }
            }
        }
        proof {
            let msgs = msgs_v@;
            assert forall|n: int, k: int|
                0 <= n < nodes@.len() && 0 <= k < nodes@[n].tx_messages@.len() implies sent_by(
                msgs[(#[trigger] nodes@[n].tx_messages@[k]).1 as int],
                nodes@[n].name@,
            ) by {
                if n == kk && k == old_nodes[n].tx_messages@.len() {
                    assert(nodes@[n].tx_messages@[k].1 == old_msgs.len());
                } else {
                    if n == kk {
                        assert(nodes@[n].tx_messages@.drop_last() == old_nodes[n].tx_messages@);
                        assert(nodes@[n].tx_messages@[k] == old_nodes[n].tx_messages@[k]);
                    } else {
                        assert(nodes@[n] == old_nodes[n]);
                    }
                    assert(old_nodes[n].tx_messages@[k].1 < old_msgs.len());
                    assert(msgs[old_nodes[n].tx_messages@[k].1 as int] == old_msgs[old_nodes[n].tx_messages@[k].1 as int]);
                }
            }
            assert forall|i: int| 0 <= i < msgs.len() && (#[trigger] msgs[i]).tx_node is Some implies exists|
                n: int,
                k: int,
            |
                0 <= n < nodes@.len() && 0 <= k < nodes@[n].tx_messages@.len() && nodes@[n].name@
                    == msgs[i].tx_node.unwrap()@ && (#[trigger] nodes@[n].tx_messages@[k]).1 == i by {
                if i == old_msgs.len() {
                    let k = old_nodes[kk].tx_messages@.len() as int;
                    assert(nodes@[kk].tx_messages@[k].1 == i);
                } else {
                    assert(msgs[i] == old_msgs[i]);
                    let (n, k) = choose|n: int, k: int|
                        0 <= n < old_nodes.len() && 0 <= k < old_nodes[n].tx_messages@.len()
                            && old_nodes[n].name@ == old_msgs[i].tx_node.unwrap()@ && (#[trigger] old_nodes[n].tx_messages@[k]).1
                            == i;
                    if n == kk {
                        assert(nodes@[n].tx_messages@.drop_last() == old_nodes[n].tx_messages@);
                        assert(nodes@[n].tx_messages@[k] == old_nodes[n].tx_messages@[k]);
                    } else {
                        assert(nodes@[n] == old_nodes[n]);
                    }
                }
            }
        }
        *self = CANNetwork { nodes, messages: msgs_v, template_messages, bitrate };
        proof {
            lemma_tx_view(
                old_nodes,
                self.nodes@,
                crate::signal::opt_text(self.messages@.last().tx_node),
                self.messages@.last().name@,
                old_msgs.len() as int,
            );
            assert(message_views(self.messages@) =~= message_views(old_msgs).push(
                self.messages@.last()@,
            ));
        }
        Ok(())
    }

    /// Add a new node to the network; node names must be unique.
    pub fn add_node(&mut self, name: &str) -> (r: Result<(), CANConstructionError>)
        ensures
            has_node_named(old(self).spec_nodes(), name@) ==> (r matches Err(
                CANConstructionError::NodeAlreadyExists(n),
            ) && n@ == name@ && *final(self) == *old(self)),
            !has_node_named(old(self).spec_nodes(), name@) ==> (r is Ok
                && final(self).spec_nodes().len() == old(self).spec_nodes().len() + 1
                && final(self).spec_nodes().drop_last() == old(self).spec_nodes()
                && final(self).spec_nodes().last().name@ == name@
                && final(self).spec_nodes().last().tx_messages@.len() == 0
                && final(self).spec_nodes().last().rx_messages@.len() == 0
                && final(self).spec_messages() == old(self).spec_messages()
                && final(self).spec_templates() == old(self).spec_templates()
                && final(self).spec_bitrate() == old(self).spec_bitrate()),
            match old(self)@.add_node(name@) {
                Some(v) => r is Ok && final(self)@ == v,
                None => r matches Err(e) && e@ == old(self)@.add_node_error(name@),
            },
    {
        proof {
            use_type_invariant(&*self);
            lemma_node_lookup(self.nodes@, name@);
        }
        if let Some(_) = self.find_node(name) {
            return Err(CANConstructionError::NodeAlreadyExists(String::from_str(name)));
        }
        let node = CANNode::new(String::from_str(name));
        let ghost old_nodes = self.nodes@;
        proof {
            let nodes = old_nodes.push(node);
            assert forall|a: int, b: int|
                #![trigger nodes[a], nodes[b]]
                0 <= a < b < nodes.len() implies nodes[a].name@ != nodes[b].name@ by {
                if b == nodes.len() - 1 {
                    assert(nodes[a] == old_nodes[a]);
                }
            }
            assert forall|j: int| 0 <= j < nodes.len() implies entries_wf(
                (#[trigger] nodes[j]).tx_messages@,
                self.messages@,
            ) && entries_wf(nodes[j].rx_messages@, self.messages@) by {
                if j < old_nodes.len() {
                    assert(nodes[j] == old_nodes[j]);
                }
            }
        }
        let mut whole = CANNetwork::new();
        std::mem::swap(&mut whole, self);
        let CANNetwork { mut nodes, messages, template_messages, bitrate } = whole;
        nodes.push(node);
        proof {
            let msgs = messages@;
            assert forall|n: int, k: int|
                0 <= n < nodes@.len() && 0 <= k < nodes@[n].tx_messages@.len() implies sent_by(
                msgs[(#[trigger] nodes@[n].tx_messages@[k]).1 as int],
                nodes@[n].name@,
            ) by {
                assert(n < old_nodes.len());
                assert(nodes@[n] == old_nodes[n]);
            }
            assert forall|i: int| 0 <= i < msgs.len() && (#[trigger] msgs[i]).tx_node is Some implies exists|
                n: int,
                k: int,
            |
                0 <= n < nodes@.len() && 0 <= k < nodes@[n].tx_messages@.len() && nodes@[n].name@
                    == msgs[i].tx_node.unwrap()@ && (#[trigger] nodes@[n].tx_messages@[k]).1 == i by {
                let (n, k) = choose|n: int, k: int|
                    0 <= n < old_nodes.len() && 0 <= k < old_nodes[n].tx_messages@.len()
                        && old_nodes[n].name@ == msgs[i].tx_node.unwrap()@ && (#[trigger] old_nodes[n].tx_messages@[k]).1
                        == i;
                assert(nodes@[n] == old_nodes[n]);
            }
        }
        *self = CANNetwork { nodes, messages, template_messages, bitrate };
        proof {
            assert(self.nodes@.drop_last() =~= old_nodes);
            assert(entry_names(node.tx_messages@) =~= Seq::<Seq<char>>::empty());
            assert(entry_names(node.rx_messages@) =~= Seq::<Seq<char>>::empty());
            assert(node_views(self.nodes@) =~= node_views(old_nodes).push(
                NodeView { name: name@, tx: Seq::empty(), rx: Seq::empty() },
            ));
        }
        Ok(())
    }

    /// Get messages transmitted by given node, in the order they were inserted.
    /// Returns `None` if node does not exist.
    pub fn tx_messages_by_node(&self, name: &str) -> (r: Option<Vec<&CANMessage>>)
        ensures
            !has_node_named(self.spec_nodes(), name@) ==> r is None,
            has_node_named(self.spec_nodes(), name@) ==> (r matches Some(v) && ({
                let l = self.spec_nodes()[node_index(self.spec_nodes(), name@)].tx_messages@;
                &&& v@.len() == l.len()
                &&& forall|k: int|
                    0 <= k < l.len() ==> *(#[trigger] v@[k]) == self.spec_messages()[l[k].1 as int]
            })),
            r matches Some(v) ==> (forall|m: CANMessage|
                (exists|k: int| 0 <= k < v@.len() && *(#[trigger] v@[k]) == m) <==> (
                self.spec_messages().contains(m) && sent_by(m, name@))),
            r matches Some(v) ==> (forall|a: int, b: int|
                0 <= a < b < v@.len() ==> (*(#[trigger] v@[a])).name@ != (*(#[trigger] v@[b])).name@),
    {
        proof {
            use_type_invariant(self);
        }
        match self.node_by_name(name) {
            Some(node) => {
                let ghost c = node_index(self.spec_nodes(), name@);
                proof {
                    assert(entries_wf(self.spec_nodes()[c].tx_messages@, self.spec_messages()));
                }
                let v = self.collect_entries(&node.tx_messages);
                proof {
                    let nodes = self.spec_nodes();
                    let msgs = self.spec_messages();
                    let l = nodes[c].tx_messages@;
                    assert(nodes[c].name@ == name@);
                    assert forall|m: CANMessage|
                        (exists|k: int| 0 <= k < v@.len() && *(#[trigger] v@[k]) == m) <==> (
                        msgs.contains(m) && sent_by(m, name@)) by {
                        if exists|k: int| 0 <= k < v@.len() && *(#[trigger] v@[k]) == m {
                            let k = choose|k: int| 0 <= k < v@.len() && *(#[trigger] v@[k]) == m;
                            assert(nodes[c].tx_messages@[k] == l[k]);
                            assert(sent_by(msgs[l[k].1 as int], nodes[c].name@));
                            assert(msgs[l[k].1 as int] == m);
                        }
                        if msgs.contains(m) && sent_by(m, name@) {
                            let i = choose|i: int| 0 <= i < msgs.len() && msgs[i] == m;
                            assert(msgs[i].tx_node is Some);
                            let (n, k) = choose|n: int, k: int|
                                0 <= n < nodes.len() && 0 <= k < nodes[n].tx_messages@.len() && nodes[n].name@
                                    == msgs[i].tx_node.unwrap()@ && (#[trigger] nodes[n].tx_messages@[k]).1 == i;
                            if n < c {
                                assert(nodes[n].name@ != nodes[c].name@);
                            } else if c < n {
                                assert(nodes[c].name@ != nodes[n].name@);
                            }
                            assert(*v@[k] == m);
                        }
                    }
                    assert forall|a: int, b: int|
                        0 <= a < b < v@.len() implies (*(#[trigger] v@[a])).name@ != (*(#[trigger] v@[b])).name@ by {
                        assert(l[a].0@ != l[b].0@);
                    }
                }
                Some(v)
            },
            None => None,
        }
    }

    /// Get messages received by given node, in the order they were marked.
    /// Returns `None` if node does not exist.
    pub fn rx_messages_by_node(&self, name: &str) -> (r: Option<Vec<&CANMessage>>)
        ensures
            !has_node_named(self.spec_nodes(), name@) ==> r is None,
            has_node_named(self.spec_nodes(), name@) ==> (r matches Some(v) && ({
                let l = self.spec_nodes()[node_index(self.spec_nodes(), name@)].rx_messages@;
                &&& v@.len() == l.len()
                &&& forall|k: int|
                    0 <= k < l.len() ==> *(#[trigger] v@[k]) == self.spec_messages()[l[k].1 as int]
            })),
            r matches Some(v) ==> (forall|a: int, b: int|
                0 <= a < b < v@.len() ==> (*(#[trigger] v@[a])).name@ != (*(#[trigger] v@[b])).name@),
    {
        proof {
            use_type_invariant(self);
        }
        match self.node_by_name(name) {
            Some(node) => {
                proof {
                    let c = node_index(self.spec_nodes(), name@);
                    assert(entries_wf(self.spec_nodes()[c].rx_messages@, self.spec_messages()));
                }
                let v = self.collect_entries(&node.rx_messages);
                proof {
                    let l = self.spec_nodes()[node_index(self.spec_nodes(), name@)].rx_messages@;
                    assert forall|a: int, b: int|
                        0 <= a < b < v@.len() implies (*(#[trigger] v@[a])).name@ != (*(#[trigger] v@[b])).name@ by {
                        assert(l[a].0@ != l[b].0@);
                    }
                }
                Some(v)
            },
            None => None,
        }
    }

    fn collect_entries(&self, l: &Vec<(String, usize)>) -> (v: Vec<&CANMessage>)
        requires
            entries_wf(l@, self.spec_messages()),
        ensures
            v@.len() == l@.len(),
            forall|k: int|
                0 <= k < l@.len() ==> *(#[trigger] v@[k]) == self.spec_messages()[l@[k].1 as int],
    {
        let mut v: Vec<&CANMessage> = Vec::new();
        let mut i: usize = 0;
        while i < l.len()
            invariant
                0 <= i <= l@.len(),
                v@.len() == i,
                entries_wf(l@, self.spec_messages()),
                forall|k: int|
                    0 <= k < i ==> *(#[trigger] v@[k]) == self.spec_messages()[l@[k].1 as int],
            decreases l@.len() - i,
        {
            let idx = l[i].1;
            proof {
                assert(l@[i as int].1 < self.spec_messages().len());
            }
            v.push(&self.messages[idx]);
            i = i + 1;
        }
        v
    }

    /// Mark the message named `msg` as received by the node named `node`.
    /// The message must exist ([`MessageDoesNotExist`](CANConstructionError::MessageDoesNotExist)),
    /// then the node ([`NodeDoesNotExist`](CANConstructionError::NodeDoesNotExist)).
    pub fn set_message_rx_by_node(&mut self, msg: &str, node: &str) -> (r: Result<(), CANConstructionError>)
        requires
            view_has_message(old(self)@.messages, msg@) && view_has_node(old(self)@.nodes, node@)
                ==> !old(self)@.nodes[view_node_index(old(self)@.nodes, node@)].rx.contains(msg@),
        ensures
            !has_message_named(old(self).spec_messages(), msg@) ==> (r matches Err(
                CANConstructionError::MessageDoesNotExist(n),
            ) && n@ == msg@ && *final(self) == *old(self)),
            has_message_named(old(self).spec_messages(), msg@) && !has_node_named(
                old(self).spec_nodes(),
                node@,
            ) ==> (r matches Err(CANConstructionError::NodeDoesNotExist(n)) && n@ == node@
                && *final(self) == *old(self)),
            has_message_named(old(self).spec_messages(), msg@) && has_node_named(
                old(self).spec_nodes(),
                node@,
            ) ==> (r is Ok && final(self).spec_messages() == old(self).spec_messages()
                && final(self).spec_templates() == old(self).spec_templates()
                && final(self).spec_bitrate() == old(self).spec_bitrate() && rx_recorded(
                old(self).spec_nodes(),
                final(self).spec_nodes(),
                node_index(old(self).spec_nodes(), node@),
                msg@,
                message_index(old(self).spec_messages(), msg@),
            )),
            match old(self)@.set_rx(msg@, node@) {
                Some(v) => r is Ok && final(self)@ == v,
                None => r matches Err(e) && e@ == old(self)@.set_rx_error(msg@, node@),
            },
    {
        proof {
            use_type_invariant(&*self);
            lemma_message_lookup(self.messages@, msg@, 0);
            lemma_node_lookup(self.nodes@, node@);
        }
        let msg_idx = match self.find_message(msg) {
            Some(i) => i,
            None => {
                return Err(CANConstructionError::MessageDoesNotExist(String::from_str(msg)));
            },
        };
        let node_idx = match self.find_node(node) {
            Some(k) => k,
            None => {
                return Err(CANConstructionError::NodeDoesNotExist(String::from_str(node)));
            },
        };
        let ghost old_nodes = self.nodes@;
        let ghost msgs = self.messages@;
        proof {
            let c = node_index(old_nodes, node@);
            assert(old_nodes[c].name@ == node@);
            if c < node_idx {
                assert(old_nodes[c].name@ != old_nodes[node_idx as int].name@);
            } else if node_idx < c {
                assert(old_nodes[node_idx as int].name@ != old_nodes[c].name@);
            }
            let m = message_index(msgs, msg@);
            assert(msgs[m].name@ == msg@);
            if m < msg_idx {
                assert(msgs[m].name@ != msgs[msg_idx as int].name@);
            } else if msg_idx < m {
                assert(msgs[msg_idx as int].name@ != msgs[m].name@);
            }
        }
        let mut whole = CANNetwork::new();
        std::mem::swap(&mut whole, self);
        let CANNetwork { mut nodes, messages, template_messages, bitrate } = whole;
        nodes[node_idx].add_rx_message(msg, msg_idx);
        proof {
            assert forall|j: int| 0 <= j < nodes@.len() implies entries_wf(
                (#[trigger] nodes@[j]).tx_messages@,
                msgs,
            ) && entries_wf(nodes@[j].rx_messages@, msgs) by {
                assert(entries_wf(old_nodes[j].tx_messages@, msgs));
                assert(entries_wf(old_nodes[j].rx_messages@, msgs));
                if j == node_idx as int {
                    let orx = old_nodes[j].rx_messages@;
                    let nrx = nodes@[j].rx_messages@;
                    assert(nrx.drop_last() == orx);
                    assert forall|e: int| 0 <= e < nrx.len() implies (#[trigger] nrx[e]).1
                        < msgs.len() && msgs[nrx[e].1 as int].name@ == nrx[e].0@ by {
                        if e < orx.len() {
                            assert(nrx[e] == orx[e]);
                        }
                    }
                    assert forall|a: int, b: int| 0 <= a < b < nrx.len() implies (#[trigger] nrx[a]).0@
                        != (#[trigger] nrx[b]).0@ by {
                        assert(nrx[a] == orx[a]);
                        if b < orx.len() {
                            assert(nrx[b] == orx[b]);
                        } else {
                            assert(entry_names(orx)[a] == orx[a].0@);
                        }
                    }
                }
            }
        }
        proof {
            assert forall|n: int, k: int|
                0 <= n < nodes@.len() && 0 <= k < nodes@[n].tx_messages@.len() implies sent_by(
                msgs[(#[trigger] nodes@[n].tx_messages@[k]).1 as int],
                nodes@[n].name@,
            ) by {
                assert(nodes@[n].tx_messages@[k] == old_nodes[n].tx_messages@[k]);
            }
            assert forall|i: int| 0 <= i < msgs.len() && (#[trigger] msgs[i]).tx_node is Some implies exists|
                n: int,
                k: int,
            |
                0 <= n < nodes@.len() && 0 <= k < nodes@[n].tx_messages@.len() && nodes@[n].name@
                    == msgs[i].tx_node.unwrap()@ && (#[trigger] nodes@[n].tx_messages@[k]).1 == i by {
                let (n, k) = choose|n: int, k: int|
                    0 <= n < old_nodes.len() && 0 <= k < old_nodes[n].tx_messages@.len()
                        && old_nodes[n].name@ == msgs[i].tx_node.unwrap()@ && (#[trigger] old_nodes[n].tx_messages@[k]).1
                        == i;
                assert(nodes@[n].tx_messages@[k] == old_nodes[n].tx_messages@[k]);
            }
        }
        *self = CANNetwork { nodes, messages, template_messages, bitrate };
        proof {
            lemma_rx_view(
                old_nodes,
                self.nodes@,
                node_index(old_nodes, node@),
                msg@,
                message_index(msgs, msg@),
            );
        }
        Ok(())
    }

    /// Insert a template message. A template with the same name is replaced by the
    /// new one, and [`TemplateMessageNameAlreadyExists`](CANConstructionError::TemplateMessageNameAlreadyExists)
    /// is returned.
    pub fn insert_template_message(&mut self, template: CANMessage) -> (r: Result<
        (),
        CANConstructionError,
    >)
        requires
            template.wf(),
        ensures
            final(self).spec_nodes() == old(self).spec_nodes(),
            final(self).spec_messages() == old(self).spec_messages(),
            final(self).spec_bitrate() == old(self).spec_bitrate(),
            !has_message_named(old(self).spec_templates(), template.name@) ==> (r is Ok
                && final(self).spec_templates() == old(self).spec_templates().push(template)),
            has_message_named(old(self).spec_templates(), template.name@) ==> (r matches Err(
                CANConstructionError::TemplateMessageNameAlreadyExists(n),
            ) && n@ == template.name@ && final(self).spec_templates() == old(
                self,
            ).spec_templates().update(
                message_index(old(self).spec_templates(), template.name@),
                template,
            )),
            match old(self)@.insert_template(template@) {
                Some(v) => r is Ok && final(self)@ == v,
                None => r matches Err(e) && e@ == old(self)@.insert_template_error(template@),
            },
    {
        proof {
            use_type_invariant(&*self);
            lemma_message_lookup(self.template_messages@, template.name@, 0);
        }
        let ghost old_t = self.template_messages@;
        if let Some(i) = self.find_template(template.name.as_str()) {
            let name = template.name.clone();
            proof {
                let c = message_index(old_t, template.name@);
                assert(old_t[c].name@ == template.name@);
                if c < i {
                    assert(old_t[c].name@ != old_t[i as int].name@);
                } else if (i as int) < c {
                    assert(old_t[i as int].name@ != old_t[c].name@);
                }
                let nt = old_t.update(i as int, template);
                assert forall|a: int| 0 <= a < nt.len() implies (#[trigger] nt[a]).wf() by {
                    if a != i {
                        assert(nt[a] == old_t[a]);
                    }
                }
                assert forall|a: int, b: int|
                    #![trigger nt[a], nt[b]]
                    0 <= a < b < nt.len() implies nt[a].name@ != nt[b].name@ by {
                    if a != i && b != i {
                        assert(nt[a] == old_t[a] && nt[b] == old_t[b]);
                    } else if a == i {
                        assert(nt[b] == old_t[b]);
                    } else {
                        assert(nt[a] == old_t[a]);
                    }
                }
            }
            let mut ts: Vec<CANMessage> = Vec::new();
            std::mem::swap(&mut ts, &mut self.template_messages);
            ts.set(i, template);
            self.template_messages = ts;
            return Err(CANConstructionError::TemplateMessageNameAlreadyExists(name));
        }
        proof {
            let nt = old_t.push(template);
            assert forall|a: int| 0 <= a < nt.len() implies (#[trigger] nt[a]).wf() by {
                if a < old_t.len() {
                    assert(nt[a] == old_t[a]);
                }
            }
            assert forall|a: int, b: int|
                #![trigger nt[a], nt[b]]
                0 <= a < b < nt.len() implies nt[a].name@ != nt[b].name@ by {
                if b == nt.len() - 1 {
                    assert(nt[a] == old_t[a]);
                }
            }
        }
        let mut ts: Vec<CANMessage> = Vec::new();
        std::mem::swap(&mut ts, &mut self.template_messages);
        ts.push(template);
        self.template_messages = ts;
        proof {
            assert(message_views(self.template_messages@) =~= message_views(old_t).push(
                self.template_messages@.last()@,
            ));
        }
        Ok(())
    }

    /// Get a template message in this network by name.
    pub fn template_message_by_name(&self, name: &str) -> (r: Option<&CANMessage>)
        ensures
            match r {
                Some(m) => has_message_named(self.spec_templates(), name@) && *m
                    == self.spec_templates()[message_index(self.spec_templates(), name@)],
                None => !has_message_named(self.spec_templates(), name@),
            },
            match r {
                Some(m) => m.wf() && view_has_message(self@.templates, name@) && m@
                    == self@.templates[view_message_index(self@.templates, name@)],
                None => !view_has_message(self@.templates, name@),
            },
    {
        proof {
            use_type_invariant(self);
            lemma_message_lookup(self.template_messages@, name@, 0);
        }
        match self.find_template(name) {
            Some(i) => {
                proof {
                    let t = self.template_messages@;
                    let k = message_index(t, name@);
                    assert(t[i as int].name@ == name@);
                    assert(t[k].name@ == name@);
                    if k < i {
                        assert(t[k].name@ != t[i as int].name@);
                    } else if (i as int) < k {
                        assert(t[i as int].name@ != t[k].name@);
                    }
                }
                Some(&self.template_messages[i])
            },
            None => None,
        }
    }

    /// Whether the message named `msg` and the node named `node` both exist and the
    /// node already receives the message.
    pub fn node_receives(&self, msg: &str, node: &str) -> (r: bool)
        ensures
            r == (view_has_message(self@.messages, msg@) && view_has_node(self@.nodes, node@)
                && self@.nodes[view_node_index(self@.nodes, node@)].rx.contains(msg@)),
    {
        proof {
            use_type_invariant(self);
            lemma_message_lookup(self.messages@, msg@, 0);
            lemma_node_lookup(self.nodes@, node@);
        }
        if self.find_message(msg).is_none() {
            return false;
        }
        match self.find_node(node) {
            Some(k) => {
                proof {
                    let j = node_index(self.nodes@, node@);
                    assert(self.nodes@[k as int].name@ == node@);
                    if (k as int) < j {
                        assert(self.nodes@[k as int].name@ != self.nodes@[j].name@);
                    } else if j < k {
                        assert(self.nodes@[j].name@ != self.nodes@[k as int].name@);
                    }
                    assert(node_views(self.nodes@)[k as int] == node_view(self.nodes@[k as int]));
                }
                self.nodes[k].receives(msg)
            },
            None => false,
        }
    }

    /// Iterate over messages in this network, in the order they were inserted.
    pub fn iter_messages(&self) -> (r: std::slice::Iter<'_, CANMessage>)
        ensures
            IteratorSpec::remaining(&r).unref() == self.spec_messages(),
    {
        self.messages.iter()
    }

    /// Iterate over nodes in this network, in the order they were added.
    pub fn iter_nodes(&self) -> (r: std::slice::Iter<'_, CANNode>)
        ensures
            IteratorSpec::remaining(&r).unref() == self.spec_nodes(),
    {
        self.nodes.iter()
    }
}

} // verus!
