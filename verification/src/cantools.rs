//! Translation of a network into Python code that builds it with `cantools` and
//! writes it out as a DBC file.

use vstd::prelude::*;
use crate::cmessage::ds;
use crate::codegen::{join, join_text, pair_texts, seconds, sort_pairs};
use crate::ctext::sort_by_key;
use crate::csignal::{enum_order, pair_views};
use crate::ctext::{debug_str, debug_text, dec_text, hex_lower_text, indent, indented, push_dec, push_hex_lower, spaces, trim, trimmed};
use crate::enum_table::{enum_pairs, table_pairs};
use crate::message::{CANMessage, CANSignalWithPosition};
use crate::network::{CANNetwork, NodeView};
use crate::signal::{opt_text, CANSignal};

verus! {

/// Python text of an optional value: the value, or `None`.
pub open spec fn option_py_text(o: Option<Seq<char>>) -> Seq<char> {
    match o {
        Some(t) => t,
        None => "None"@,
    }
}

/// Python text of an optional text: the text itself, or `None`.
pub fn option_to_py(opt: &Option<String>) -> (r: String)
    ensures
        r@ == option_py_text(opt_text(*opt)),
{
    match opt {
        Some(o) => o.clone(),
        None => String::from_str("None"),
    }
}

/// Python text of an optional number: its decimal numeral, or `None`.
pub fn option_u32_to_py(opt: &Option<u32>) -> (r: String)
    ensures
        r@ == option_py_text(
            match opt {
                Some(n) => Some(ds(*n)),
                None => None,
            },
        ),
{
    match opt {
        Some(n) => {
            let mut s = String::new();
            push_dec(&mut s, *n as u64);
            s
        },
        None => String::from_str("None"),
    }
}

/// Python text of a boolean.
pub fn bool_to_py(b: bool) -> (r: &'static str)
    ensures
        r@ == if b {
            "True"@
        } else {
            "False"@
        },
{
    if b {
        "True"
    } else {
        "False"
    }
}

/// The Python choices of a signal: one line per enumerated value, by raw value.
pub open spec fn choice_lines(evs: Seq<(Seq<char>, u64)>) -> Seq<Seq<char>> {
    evs.map_values(|e: (Seq<char>, u64)| dec_text_u64(e.1) + ": "@ + debug_text(e.0) + ","@)
}

/// Decimal text of a `u64`.
pub open spec fn dec_text_u64(n: u64) -> Seq<char> {
    crate::ctext::dec_text(n as nat)
}

/// The Python choices of signal `s`.
pub open spec fn choices_text(s: CANSignal) -> Seq<char> {
    join_text(choice_lines(enum_order(enum_pairs(s.enumerated_values))), "\n"@)
}

/// The nodes of the network that receive the message named `name`, each as
/// `'<node>'`, as pairs of that text with itself.
pub open spec fn receivers(nodes: Seq<NodeView>, name: Seq<char>) -> Seq<(Seq<char>, Seq<char>)>
    decreases nodes.len(),
{
    if nodes.len() == 0 {
        Seq::empty()
    } else {
        receivers(nodes.drop_last(), name) + if nodes.last().rx.contains(name) {
            seq![("'"@ + nodes.last().name + "'"@, "'"@ + nodes.last().name + "'"@)]
        } else {
            Seq::empty()
        }
    }
}

/// The Python code that builds signal `s`, given its receivers in their order.
pub open spec fn signal_py_text(s: CANSignalWithPosition, rx: Seq<char>) -> Seq<char> {
    "cantools.database.can.Signal(\n    name = "@ + debug_text(s.sig.name@) + ",\n    start = "@
        + ds(s.bit) + ",\n    receivers = [\n"@ + indented(rx, spaces(8))
        + "\n    ],\n    length = "@ + ds(s.sig.width) + ",\n    comment = "@ + debug_text(
        option_py_text(opt_text(s.sig.description)),
    ) + ",\n    scale = "@ + (match opt_text(s.sig.scale) {
        Some(t) => t,
        None => "1"@,
    }) + ",\n    offset = "@ + (match opt_text(s.sig.offset) {
        Some(t) => t,
        None => "0"@,
    }) + ",\n    is_signed = "@ + (if s.sig.twos_complement {
        "True"@
    } else {
        "False"@
    }) + ",\n    choices = {\n"@ + indented(choices_text(s.sig), spaces(8)) + "\n    },\n),\n"@
}

/// The scale of a signal as text, `1` when it has none.
pub open spec fn scale_or_one(sig: CANSignal) -> Seq<char> {
    match sig.scale {
        Some(t) => t@,
        None => "1"@,
    }
}

/// The offset of a signal as text, `0` when it has none.
pub open spec fn offset_or_zero(sig: CANSignal) -> Seq<char> {
    match sig.offset {
        Some(t) => t@,
        None => "0"@,
    }
}

/// `text` is `a`, then the `scale` and `offset` fields with the values `sc` and
/// `of`, then the start of the `is_signed` field and `b`.
pub open spec fn scale_offset_fields(text: Seq<char>, a: Seq<char>, sc: Seq<char>, of: Seq<char>, b: Seq<char>) -> bool {
    text == a + ",\n    scale = "@ + sc + ",\n    offset = "@ + of + ",\n    is_signed = "@ + b
}

/// The cantools `Signal` of a signal gives as `scale` the signal's own scale (`1`
/// when it has none) and as `offset` the signal's own offset (`0` when it has none),
/// one after the other, right after the comment and before the signedness.
pub proof fn law_signal_scale_and_offset(s: CANSignalWithPosition, rx: Seq<char>)
    ensures
        exists|a: Seq<char>, b: Seq<char>|
            #[trigger] scale_offset_fields(
                signal_py_text(s, rx),
                a,
                scale_or_one(s.sig),
                offset_or_zero(s.sig),
                b,
            ),
{
    let sc = scale_or_one(s.sig);
    let of = offset_or_zero(s.sig);
    let a = "cantools.database.can.Signal(\n    name = "@ + debug_text(s.sig.name@) + ",\n    start = "@
        + ds(s.bit) + ",\n    receivers = [\n"@ + indented(rx, spaces(8))
        + "\n    ],\n    length = "@ + ds(s.sig.width) + ",\n    comment = "@ + debug_text(
        option_py_text(opt_text(s.sig.description)),
    );
    let b = (if s.sig.twos_complement {
        "True"@
    } else {
        "False"@
    }) + ",\n    choices = {\n"@ + indented(choices_text(s.sig), spaces(8)) + "\n    },\n),\n"@;
    assert(signal_py_text(s, rx) =~= a + ",\n    scale = "@ + sc + ",\n    offset = "@ + of + ",\n    is_signed = "@ + b);
    assert(scale_offset_fields(signal_py_text(s, rx), a, sc, of, b));
}

/// The cantools `Signal` of a signal names it, starts at its start bit, has its
/// width as length, and is signed exactly when the signal is two's complement.
pub proof fn law_signal_position_fields(s: CANSignalWithPosition, rx: Seq<char>)
    ensures
        crate::status::holds_text(
            signal_py_text(s, rx),
            "cantools.database.can.Signal(\n    name = "@ + debug_text(s.sig.name@) + ",\n    start = "@
                + dec_text(s.bit as nat) + ",\n    receivers = [\n"@,
        ),
        crate::status::holds_text(
            signal_py_text(s, rx),
            ",\n    length = "@ + dec_text(s.sig.width as nat) + ",\n    comment = "@,
        ),
        crate::status::holds_text(
            signal_py_text(s, rx),
            ",\n    is_signed = "@ + (if s.sig.twos_complement {
                "True"@
            } else {
                "False"@
            }) + ",\n    choices = {\n"@,
        ),
{
    let t = signal_py_text(s, rx);
    let head = "cantools.database.can.Signal(\n    name = "@ + debug_text(s.sig.name@) + ",\n    start = "@
        + dec_text(s.bit as nat) + ",\n    receivers = [\n"@;
    let recv = indented(rx, spaces(8)) + "\n    ]"@;
    let len_part = ",\n    length = "@ + dec_text(s.sig.width as nat) + ",\n    comment = "@;
    let comment = debug_text(option_py_text(opt_text(s.sig.description)));
    let sc = ",\n    scale = "@ + scale_or_one(s.sig) + ",\n    offset = "@ + offset_or_zero(s.sig);
    let signed = ",\n    is_signed = "@ + (if s.sig.twos_complement {
        "True"@
    } else {
        "False"@
    }) + ",\n    choices = {\n"@;
    let tail = indented(choices_text(s.sig), spaces(8)) + "\n    },\n),\n"@;
    assert(t =~= head + recv + len_part + comment + sc + signed + tail) by {
        reveal_strlit("\n    ],\n    length = ");
        reveal_strlit("\n    ]");
        reveal_strlit(",\n    length = ");
    }
    assert(t =~= Seq::<char>::empty() + head + (recv + len_part + comment + sc + signed + tail));
    assert(t =~= (head + recv) + len_part + (comment + sc + signed + tail));
    assert(t =~= (head + recv + len_part + comment + sc) + signed + tail);
}

/// The cantools `Message` of a message gives its name, its id as frame id, its
/// length in bytes, and its cycle time (`None` when it has none).
pub proof fn law_message_fields(m: CANMessage, signals: Seq<Seq<char>>)
    ensures
        crate::status::holds_text(
            message_py_text(m, signals),
            "cantools.database.can.Message(\n    name = "@ + debug_text(m.name@) + ",\n    frame_id = 0x"@
                + hex_lower_text(m.id as nat) + ",\n    length = "@ + dec_text(m.length as nat) + ",\n    senders = ['"@,
        ),
        crate::status::holds_text(
            message_py_text(m, signals),
            "'],\n    cycle_time = "@ + (match m.cycletime {
                Some(c) => dec_text(c as nat),
                None => "None"@,
            }) + ",\n    signals = [\n"@,
        ),
{
    let t = message_py_text(m, signals);
    let head = "cantools.database.can.Message(\n    name = "@ + debug_text(m.name@) + ",\n    frame_id = 0x"@
        + hex_lower_text(m.id as nat) + ",\n    length = "@ + dec_text(m.length as nat) + ",\n    senders = ['"@;
    let sender = option_py_text(opt_text(m.tx_node));
    let cyc = "'],\n    cycle_time = "@ + (match m.cycletime {
        Some(c) => dec_text(c as nat),
        None => "None"@,
    }) + ",\n    signals = [\n"@;
    let tail = indented(join_text(signals, "\n"@), spaces(8)) + "\n    ]\n)\n"@;
    assert(t =~= head + sender + cyc + tail);
    assert(t =~= Seq::<char>::empty() + head + (sender + cyc + tail));
    assert(t =~= (head + sender) + cyc + tail);
}

/// The Python code that builds message `m`, given the code of its signals.
pub open spec fn message_py_text(m: CANMessage, signals: Seq<Seq<char>>) -> Seq<char> {
    "cantools.database.can.Message(\n    name = "@ + debug_text(m.name@) + ",\n    frame_id = 0x"@
        + hex_lower_text(m.id as nat) + ",\n    length = "@ + ds(m.length) + ",\n    senders = ['"@
        + option_py_text(opt_text(m.tx_node)) + "'],\n    cycle_time = "@ + option_py_text(
        match m.cycletime {
            Some(c) => Some(ds(c)),
            None => None,
        },
    ) + ",\n    signals = [\n"@ + indented(join_text(signals, "\n"@), spaces(8)) + "\n    ]\n)\n"@
}

/// The lines that build the nodes.
pub open spec fn nodes_py_text(nodes: Seq<NodeView>) -> Seq<char>
    decreases nodes.len(),
{
    if nodes.len() == 0 {
        Seq::empty()
    } else {
        nodes_py_text(nodes.drop_last()) + "cantools.database.can.Node('"@ + nodes.last().name
            + "'),\n"@
    }
}

/// The Python program, given the code of the messages.
pub open spec fn network_py_text(nodes: Seq<NodeView>, messages: Seq<Seq<char>>) -> Seq<char> {
    "import cantools\n\nmessages = [\n"@ + indented(trimmed(join_text(messages, ",\n"@)), spaces(4))
        + "\n]\n\nnodes = [\n"@ + indented(nodes_py_text(nodes), spaces(4))
        + "\n]\n\ndb = cantools.database.can.Database(messages=messages, nodes=nodes)\ncantools.database.dump_file(db, 'opencan.dbc')\n"@
}

/// Translation to `cantools` Python code.
pub struct CantoolsTranslator<'n> {
    net: &'n CANNetwork,
}

impl<'n> CantoolsTranslator<'n> {
    /// The network translated.
    pub closed spec fn spec_net(self) -> CANNetwork {
        *self.net
    }

    /// A translator of `net`.
    pub fn new(net: &'n CANNetwork) -> (r: Self)
        ensures
            r.spec_net() == *net,
    {
        CantoolsTranslator { net }
    }

    /// The Python choices of a signal: `<value>: <name>,` per enumerated value, by raw value.
    pub fn signal_py_choices(s: &CANSignal) -> (r: String)
        ensures
            r@ == choices_text(*s),
    {
        let evs = crate::csignal::ordered_values(s);
        let ghost order = enum_order(enum_pairs(s.enumerated_values));
        let mut lines: Vec<(String, String)> = Vec::new();
        let mut i: usize = 0;
        while i < evs.len()
            invariant
                0 <= i <= evs@.len(),
                pair_views(evs@) == order,
                seconds(pair_texts(lines@)) == choice_lines(order).take(i as int),
            decreases evs@.len() - i,
        {
            let mut line = String::new();
            push_dec(&mut line, evs[i].1);
            line.append(": ");
            line.append(debug_str(evs[i].0.as_str()).as_str());
            line.append(",");
            let ghost l0 = seconds(pair_texts(lines@));
            lines.push((String::new(), line));
            proof {
                assert(order[i as int] == (evs@[i as int].0@, evs@[i as int].1));
                assert(seconds(pair_texts(lines@)) =~= l0.push(choice_lines(order)[i as int]));
                assert(choice_lines(order).take(i + 1) =~= choice_lines(order).take(i as int).push(
                    choice_lines(order)[i as int],
                ));
            }
            i = i + 1;
        }
        proof {
            assert(choice_lines(order).take(evs@.len() as int) =~= choice_lines(order));
        }
        join(&lines, "\n")
    }

    /// The Python code that builds signal `s` of message `msg`; DBC files name the
    /// receiving nodes per signal, so these are the nodes that receive `msg`, in the
    /// order of their texts.
    pub fn dump_signal(&self, s: &CANSignalWithPosition, msg: &CANMessage) -> (r: String)
        ensures
            r@ == signal_py_text(
                *s,
                join_text(seconds(sort_by_key(receivers(self.spec_net()@.nodes, msg.name@))), ",\n"@),
            ),
    {
        let nodes = self.net.nodes();
        let ghost nv = self.net@.nodes;
        let mut rx: Vec<(String, String)> = Vec::new();
        let mut i: usize = 0;
        while i < nodes.len()
            invariant
                0 <= i <= nodes@.len(),
                nodes@ == self.net.spec_nodes(),
                nv == self.net@.nodes,
                pair_texts(rx@) == receivers(nv.take(i as int), msg.name@),
            decreases nodes@.len() - i,
        {
            let node = &nodes[i];
            proof {
                assert(nv[i as int] == crate::network::node_view(*node));
                assert(nv.take(i + 1).drop_last() =~= nv.take(i as int));
                assert(nv.take(i + 1).last() == nv[i as int]);
            }
            if node.receives(msg.name.as_str()) {
                let mut q = String::from_str("'");
                q.append(node.name.as_str());
                q.append("'");
                let q2 = q.clone();
                let ghost r0 = pair_texts(rx@);
                rx.push((q, q2));
                proof {
                    assert(pair_texts(rx@) =~= r0 + seq![(q@, q@)]);
                }
            }
            i = i + 1;
        }
        proof {
            assert(nv.take(nodes@.len() as int) =~= nv);
        }
        let sorted = sort_pairs(rx);
        let rx_text = join(&sorted, ",\n");
        let mut out = String::from_str("cantools.database.can.Signal(\n    name = ");
        out.append(debug_str(s.sig.name.as_str()).as_str());
        out.append(",\n    start = ");
        push_dec(&mut out, s.bit as u64);
        out.append(",\n    receivers = [\n");
        out.append(indent(rx_text.as_str(), 8).as_str());
        out.append("\n    ],\n    length = ");
        push_dec(&mut out, s.sig.width as u64);
        out.append(",\n    comment = ");
        out.append(debug_str(option_to_py(&s.sig.description).as_str()).as_str());
        out.append(",\n    scale = ");
        match &s.sig.scale {
            Some(t) => out.append(t.as_str()),
            None => out.append("1"),
        }
        out.append(",\n    offset = ");
        match &s.sig.offset {
            Some(t) => out.append(t.as_str()),
            None => out.append("0"),
        }
        out.append(",\n    is_signed = ");
        out.append(bool_to_py(s.sig.twos_complement));
        out.append(",\n    choices = {\n");
        out.append(indent(Self::signal_py_choices(&s.sig).as_str(), 8).as_str());
        out.append("\n    },\n),\n");
        proof {
            assert(out@ =~= signal_py_text(*s, rx_text@));
        }
        out
    }
}

/// The receivers of the message named `name`, as Python list items in order.
pub open spec fn receivers_text(nodes: Seq<NodeView>, name: Seq<char>) -> Seq<char> {
    join_text(seconds(sort_by_key(receivers(nodes, name))), ",\n"@)
}

/// The Python code of the signals of message `m` of a network with nodes `nodes`.
pub open spec fn signals_py(nodes: Seq<NodeView>, m: CANMessage) -> Seq<Seq<char>> {
    m.signals@.map_values(|s: CANSignalWithPosition| signal_py_text(s, receivers_text(nodes, m.name@)))
}

/// The Python code of the messages of a network.
pub open spec fn messages_py(nodes: Seq<NodeView>, msgs: Seq<CANMessage>) -> Seq<Seq<char>> {
    msgs.map_values(|m: CANMessage| message_py_text(m, signals_py(nodes, m)))
}

impl<'n> CantoolsTranslator<'n> {
    /// The Python code that builds message `msg` with its signals.
    pub fn dump_message(&self, msg: &CANMessage) -> (r: String)
        ensures
            r@ == message_py_text(*msg, signals_py(self.spec_net()@.nodes, *msg)),
    {
        let ghost target = signals_py(self.net@.nodes, *msg);
        let mut signals: Vec<(String, String)> = Vec::new();
        let mut i: usize = 0;
        while i < msg.signals.len()
            invariant
                0 <= i <= msg.signals@.len(),
                target == signals_py(self.net@.nodes, *msg),
                seconds(pair_texts(signals@)) == target.take(i as int),
            decreases msg.signals@.len() - i,
        {
            let t = self.dump_signal(&msg.signals[i], msg);
            let ghost s0 = seconds(pair_texts(signals@));
            signals.push((String::new(), t));
            proof {
                assert(seconds(pair_texts(signals@)) =~= s0.push(target[i as int]));
                assert(target.take(i + 1) =~= target.take(i as int).push(target[i as int]));
            }
            i = i + 1;
        }
        proof {
            assert(target.take(target.len() as int) =~= target);
        }
        let sigs = join(&signals, "\n");
        let mut out = String::from_str("cantools.database.can.Message(\n    name = ");
        out.append(debug_str(msg.name.as_str()).as_str());
        out.append(",\n    frame_id = 0x");
        push_hex_lower(&mut out, msg.id as u64);
        out.append(",\n    length = ");
        push_dec(&mut out, msg.length as u64);
        out.append(",\n    senders = ['");
        out.append(option_to_py(&msg.tx_node).as_str());
        out.append("'],\n    cycle_time = ");
        out.append(option_u32_to_py(&msg.cycletime).as_str());
        out.append(",\n    signals = [\n");
        out.append(indent(sigs.as_str(), 8).as_str());
        out.append("\n    ]\n)\n");
        proof {
            assert(out@ =~= message_py_text(*msg, target));
        }
        out
    }

    /// The Python program that builds the network's messages and nodes with
    /// `cantools` and writes them out as `opencan.dbc`.
    pub fn dump_network(&self) -> (r: String)
        ensures
            r@ == network_py_text(
                self.spec_net()@.nodes,
                messages_py(self.spec_net()@.nodes, self.spec_net().spec_messages()),
            ),
    {
        let msgs = self.net.messages();
        let ghost nodes_v = self.net@.nodes;
        let ghost target = messages_py(nodes_v, self.net.spec_messages());
        let mut messages: Vec<(String, String)> = Vec::new();
        let mut i: usize = 0;
        while i < msgs.len()
            invariant
                0 <= i <= msgs@.len(),
                msgs@ == self.net.spec_messages(),
                nodes_v == self.net@.nodes,
                target == messages_py(nodes_v, self.net.spec_messages()),
                seconds(pair_texts(messages@)) == target.take(i as int),
            decreases msgs@.len() - i,
        {
            let t = self.dump_message(&msgs[i]);
            let ghost s0 = seconds(pair_texts(messages@));
            messages.push((String::new(), t));
            proof {

                assert(seconds(pair_texts(messages@)) =~= s0.push(target[i as int]));
                assert(target.take(i + 1) =~= target.take(i as int).push(target[i as int]));
            }
            i = i + 1;
        }
        proof {
            assert(target.take(target.len() as int) =~= target);
        }
        let joined = join(&messages, ",\n");
        let nodes = self.net.nodes();
        let mut node_lines = String::new();
        let mut j: usize = 0;
        while j < nodes.len()
            invariant
                0 <= j <= nodes@.len(),
                nodes@ == self.net.spec_nodes(),
                nodes_v == self.net@.nodes,
                node_lines@ == nodes_py_text(nodes_v.take(j as int)),
            decreases nodes@.len() - j,
        {
            node_lines.append("cantools.database.can.Node('");
            node_lines.append(nodes[j].name.as_str());
            node_lines.append("'),\n");
            proof {
                assert(nodes_v[j as int].name == nodes@[j as int].name@);
                assert(nodes_v.take(j + 1).drop_last() =~= nodes_v.take(j as int));
                assert(nodes_v.take(j + 1).last() == nodes_v[j as int]);
            }
            j = j + 1;
        }
        proof {
            assert(nodes_v.take(nodes@.len() as int) =~= nodes_v);
        }
        let mut out = String::from_str("import cantools\n\nmessages = [\n");
        out.append(indent(trim(joined.as_str()).as_str(), 4).as_str());
        out.append("\n]\n\nnodes = [\n");
        out.append(indent(node_lines.as_str(), 4).as_str());
        out.append("\n]\n\ndb = cantools.database.can.Database(messages=messages, nodes=nodes)\ncantools.database.dump_file(db, 'opencan.dbc')\n");
        proof {
            assert(out@ =~= network_py_text(nodes_v, target));
        }
        out
    }

    /// The Python program for the network `net`.
    pub fn translate(net: &CANNetwork) -> (r: String)
        ensures
            r@ == network_py_text(net@.nodes, messages_py(net@.nodes, net.spec_messages())),
    {
        CantoolsTranslator { net }.dump_network()
    }
}

} // verus!
