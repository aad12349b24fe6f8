//! Generation of the C code of one node of a network: the RX and TX sources and
//! headers, the message template header and the callbacks header.

use vstd::prelude::*;
use crate::cmessage::MessageCodegen;
use crate::cmessage::{message_codegen_ok, populate_ok};
use crate::ctext::{cat, sort_by_key, text_le, sort_by_text, str_lt};
use crate::message::{placed, CANMessage, CANMessageKind, MAX_MESSAGE_BIT};
use crate::signal::CANSignal;
use crate::csignal::{has_enum_values, signal_codegen_ok};
use crate::enum_table::{enum_pairs, table_is_empty};
use crate::ctext::strip_prefix;
use crate::text::push_char;
use crate::network::{has_message_named, has_node_named, message_index, node_index, CANNetwork};
use crate::text::str_eq;

verus! {

/// What to generate code for.
pub struct Args {
    /// Node in the network to generate for
    pub node: String,
    /// Emit weak stub TX functions.
    pub tx_stubs: bool,
    /// Emit weak stub RX callback functions for messages with RX callbacks.
    pub rx_callback_stubs: bool,
}

/// The generated files.
pub struct CodegenOutput {
    pub callbacks_h: String,
    pub templates_h: String,
    pub rx_c: String,
    pub rx_h: String,
    pub tx_c: String,
    pub tx_h: String,
}

/// File name of the callbacks header.
pub const CALLBACKS_H_NAME: &'static str = "opencan_callbacks.h";
/// File name of the templates header.
pub const TEMPLATES_H_NAME: &'static str = "opencan_templates.h";
/// File name of the RX source.
pub const RX_C_NAME: &'static str = "opencan_rx.c";
/// File name of the RX header.
pub const RX_H_NAME: &'static str = "opencan_rx.h";
/// File name of the TX source.
pub const TX_C_NAME: &'static str = "opencan_tx.c";
/// File name of the TX header.
pub const TX_H_NAME: &'static str = "opencan_tx.h";

/// Names and texts of listed files.
pub open spec fn file_views(v: Seq<(&str, &str)>) -> Seq<(Seq<char>, Seq<char>)> {
    v.map_values(|e: (&str, &str)| (e.0@, e.1@))
}

impl CodegenOutput {
    /// The C sources with their file names.
    pub fn as_list_c(&self) -> (r: Vec<(&str, &str)>)
        ensures
            file_views(r@) == seq![(RX_C_NAME@, self.rx_c@), (TX_C_NAME@, self.tx_c@)],
    {
        let mut v = Vec::new();
        v.push((RX_C_NAME, self.rx_c.as_str()));
        v.push((TX_C_NAME, self.tx_c.as_str()));
        assert(file_views(v@) =~= seq![(RX_C_NAME@, self.rx_c@), (TX_C_NAME@, self.tx_c@)]);
        v
    }

    /// The C headers with their file names.
    pub fn as_list_h(&self) -> (r: Vec<(&str, &str)>)
        ensures
            file_views(r@) == seq![
                (CALLBACKS_H_NAME@, self.callbacks_h@),
                (TEMPLATES_H_NAME@, self.templates_h@),
                (RX_H_NAME@, self.rx_h@),
                (TX_H_NAME@, self.tx_h@),
            ],
    {
        let mut v = Vec::new();
        v.push((CALLBACKS_H_NAME, self.callbacks_h.as_str()));
        v.push((TEMPLATES_H_NAME, self.templates_h.as_str()));
        v.push((RX_H_NAME, self.rx_h.as_str()));
        v.push((TX_H_NAME, self.tx_h.as_str()));
        assert(file_views(v@) =~= seq![
            (CALLBACKS_H_NAME@, self.callbacks_h@),
            (TEMPLATES_H_NAME@, self.templates_h@),
            (RX_H_NAME@, self.rx_h@),
            (TX_H_NAME@, self.tx_h@),
        ]);
        v
    }

    /// All generated files with their names: the sources, then the headers.
    pub fn as_list(&self) -> (r: Vec<(&str, &str)>)
        ensures
            file_views(r@) == seq![(RX_C_NAME@, self.rx_c@), (TX_C_NAME@, self.tx_c@)] + seq![
                (CALLBACKS_H_NAME@, self.callbacks_h@),
                (TEMPLATES_H_NAME@, self.templates_h@),
                (RX_H_NAME@, self.rx_h@),
                (TX_H_NAME@, self.tx_h@),
            ],
    {
        let mut c = self.as_list_c();
        let mut h = self.as_list_h();
        let ghost c0 = c@;
        let ghost h0 = h@;
        c.append(&mut h);
        assert(file_views(c@) =~= file_views(c0) + file_views(h0));
        c
    }
}

/// Why code generation could not start.
#[derive(Debug)]
pub enum CodegenError {
    /// The named node is not in the network.
    NodeNotFound(String),
}

/// The message of a code generation error.
pub open spec fn codegen_error_text(e: CodegenError) -> Seq<char> {
    match e {
        CodegenError::NodeNotFound(n) => "Node `"@ + n@ + "` not found in network."@,
    }
}

impl CodegenError {
    /// The message of this error, for people.
    pub fn to_text(&self) -> (r: String)
        ensures
            r@ == codegen_error_text(*self),
    {
        match self {
            CodegenError::NodeNotFound(n) => {
                let mut s = String::from_str("Node `");
                s.append(n.as_str());
                s.append("` not found in network.");
                s
            },
        }
    }
}

/// The messages that references point to.
pub open spec fn deref_all(v: Seq<&CANMessage>) -> Seq<CANMessage> {
    v.map_values(|m: &CANMessage| *m)
}

/// The template named `t` exists in the network and code can be made for it.
pub open spec fn template_ready(net: CANNetwork, t: Seq<char>) -> bool {
    &&& has_message_named(net.spec_templates(), t)
    &&& message_codegen_ok(net.spec_templates()[message_index(net.spec_templates(), t)])
}

/// Code can be made for message `m` of network `net` (and, with `tx`, its TX side).
pub open spec fn message_ready(net: CANNetwork, m: CANMessage, tx: bool) -> bool {
    &&& message_codegen_ok(m)
    &&& (tx ==> populate_ok(m))
    &&& match m.kind {
        crate::message::CANMessageKind::FromTemplate(t) => template_ready(net, t@),
        _ => true,
    }
}

/// The messages that node `node` transmits (with `tx`) or receives, in the order of its lists.
pub open spec fn node_messages(net: CANNetwork, node: Seq<char>, tx: bool) -> Seq<CANMessage> {
    let n = net.spec_nodes()[node_index(net.spec_nodes(), node)];
    let l = if tx {
        n.tx_messages@
    } else {
        n.rx_messages@
    };
    l.map_values(|e: (String, usize)| net.spec_messages()[e.1 as int])
}

/// Code can be made for every message that node `node` transmits or receives.
pub open spec fn codegen_ready(net: CANNetwork, node: Seq<char>) -> bool {
    has_node_named(net.spec_nodes(), node) ==> {
        &&& forall|k: int|
            0 <= k < node_messages(net, node, true).len() ==> message_ready(
                net,
                #[trigger] node_messages(net, node, true)[k],
                true,
            )
        &&& forall|k: int|
            0 <= k < node_messages(net, node, false).len() ==> message_ready(
                net,
                #[trigger] node_messages(net, node, false)[k],
                false,
            )
    }
}

/// Whether the signals of the message lie within its data, ordered by start bit,
/// without overlap, with distinct names, and its length matches its last signal.
fn message_wf_check(m: &CANMessage) -> (r: bool)
    ensures
        r == m.wf(),
{
    let sigs = &m.signals;
    let n = sigs.len();
    let mut i: usize = 0;
    while i < n
        invariant
            n == sigs@.len(),
            sigs@ == m.signals@,
            0 <= i <= n,
            forall|k: int| 0 <= k < i ==> placed(#[trigger] sigs@[k]),
            forall|a: int, b: int|
                #![trigger sigs@[a], sigs@[b]]
                0 <= a < b < n && a < i ==> sigs@[a].spec_start() < sigs@[b].spec_start()
                    && sigs@[a].spec_end() < sigs@[b].spec_start() && sigs@[a].sig.name@
                    != sigs@[b].sig.name@,
        decreases n - i,
    {
        let s = &sigs[i];
        let end: u64 = s.bit as u64 + s.sig.width as u64;
        if end < 1 || end - 1 > MAX_MESSAGE_BIT as u64 {
            proof {
                assert(!placed(sigs@[i as int]));
            }
            return false;
        }
        let mut j: usize = i + 1;
        while j < n
            invariant
                n == sigs@.len(),
                sigs@ == m.signals@,
                0 <= i < j <= n,
                *s == sigs@[i as int],
                end == s.bit + s.sig.width,
                1 <= end,
                forall|b: int|
                    i < b < j ==> sigs@[i as int].spec_start() < (#[trigger] sigs@[b]).spec_start()
                        && sigs@[i as int].spec_end() < sigs@[b].spec_start()
                        && sigs@[i as int].sig.name@ != sigs@[b].sig.name@,
            decreases n - j,
        {
            let t = &sigs[j];
            if !(s.bit < t.bit) || !(end - 1 < t.bit as u64) || str_eq(
                s.sig.name.as_str(),
                t.sig.name.as_str(),
            ) {
                return false;
            }
            j = j + 1;
        }
        i = i + 1;
    }
    let length: u64 = if n == 0 {
        0
    } else {
        let bits: u64 = sigs[n - 1].bit as u64 + sigs[n - 1].sig.width as u64;
        bits / 8 + if bits % 8 != 0 {
            1
        } else {
            0
        }
    };
    length == m.length as u64
}

/// Whether code can be made for the signal as part of the message.
fn signal_ready_check(m: &CANMessage, sig: &CANSignal) -> (r: bool)
    ensures
        r == signal_codegen_ok(*m, *sig),
{
    if sig.width < 1 || sig.width > 64 {
        return false;
    }
    let normalizable = match &m.kind {
        CANMessageKind::FromTemplate(_) => match &m.tx_node {
            Some(t) => {
                let mut p = t.clone();
                push_char(&mut p, '_');
                proof {
                    assert(p@ =~= m.tx_node.unwrap()@ + seq!['_']);
                }
                strip_prefix(sig.name.as_str(), p.as_str()).is_some()
            },
            None => false,
        },
        _ => true,
    };
    if !normalizable {
        return false;
    }
    let has_values = !table_is_empty(&sig.enumerated_values);
    proof {
        if !has_values {
            assert(enum_pairs(sig.enumerated_values).dom() =~= Set::<Seq<char>>::empty());
            assert(!has_enum_values(*sig));
        } else {
            assert(!(enum_pairs(sig.enumerated_values).dom() =~= Set::<Seq<char>>::empty()));
            let k = choose|k: Seq<char>|
                !(enum_pairs(sig.enumerated_values).dom().contains(k) == Set::<Seq<char>>::empty().contains(k));
            assert(enum_pairs(sig.enumerated_values).dom().contains(k));
        }
    }
    !has_values || (sig.scale.is_none() && sig.offset.is_none())
}

/// Whether code can be made for every signal of the message, laid out well.
pub fn message_codegen_possible(m: &CANMessage) -> (r: bool)
    ensures
        r == message_codegen_ok(*m),
{
    if !message_wf_check(m) {
        return false;
    }
    let mut i: usize = 0;
    while i < m.signals.len()
        invariant
            0 <= i <= m.signals@.len(),
            forall|k: int| 0 <= k < i ==> signal_codegen_ok(*m, (#[trigger] m.signals@[k]).sig),
        decreases m.signals@.len() - i,
    {
        if !signal_ready_check(m, &m.signals[i].sig) {
            return false;
        }
        i = i + 1;
    }
    true
}

/// Whether the message has a user populate function that can be named.
fn populate_possible(m: &CANMessage) -> (r: bool)
    ensures
        r == populate_ok(*m),
{
    match &m.kind {
        CANMessageKind::Template => false,
        CANMessageKind::FromTemplate(_) => match &m.tx_node {
            Some(t) => strip_prefix(m.name.as_str(), t.as_str()).is_some(),
            None => false,
        },
        _ => true,
    }
}

/// Whether code can be made for message `m` of the network (and, with `tx`, its TX side).
fn message_ready_check(net: &CANNetwork, m: &CANMessage, tx: bool) -> (r: bool)
    ensures
        r == message_ready(*net, *m, tx),
{
    if !message_codegen_possible(m) {
        return false;
    }
    if tx && !populate_possible(m) {
        return false;
    }
    match &m.kind {
        CANMessageKind::FromTemplate(t) => match net.template_message_by_name(t.as_str()) {
            Some(tm) => message_codegen_possible(tm),
            None => false,
        },
        _ => true,
    }
}

/// Whether code can be made for every message that node `node` transmits or
/// receives (true for a node that is not in the network).
pub fn codegen_possible(net: &CANNetwork, node: &str) -> (r: bool)
    ensures
        r == codegen_ready(*net, node@),
{
    let txs = match net.tx_messages_by_node(node) {
        Some(v) => v,
        None => {
            return true;
        },
    };
    let rxs = match net.rx_messages_by_node(node) {
        Some(v) => v,
        None => {
            return true;
        },
    };
    proof {
        assert(txs@.map_values(|m: &CANMessage| *m) =~= node_messages(*net, node@, true));
        assert(rxs@.map_values(|m: &CANMessage| *m) =~= node_messages(*net, node@, false));
    }
    let mut i: usize = 0;
    while i < txs.len()
        invariant
            0 <= i <= txs@.len(),
            has_node_named(net.spec_nodes(), node@),
            rxs@.map_values(|m: &CANMessage| *m) == node_messages(*net, node@, false),
            txs@.map_values(|m: &CANMessage| *m) == node_messages(*net, node@, true),
            forall|k: int| 0 <= k < i ==> message_ready(*net, #[trigger] node_messages(*net, node@, true)[k], true),
        decreases txs@.len() - i,
    {
        if !message_ready_check(net, txs[i], true) {
            proof {
                assert(node_messages(*net, node@, true)[i as int] == *txs@[i as int]);
            }
            return false;
        }
        proof {
            assert(node_messages(*net, node@, true)[i as int] == *txs@[i as int]);
        }
        i = i + 1;
    }
    let mut j: usize = 0;
    while j < rxs.len()
        invariant
            0 <= j <= rxs@.len(),
            rxs@.map_values(|m: &CANMessage| *m) == node_messages(*net, node@, false),
            has_node_named(net.spec_nodes(), node@),
            forall|k: int|
                0 <= k < node_messages(*net, node@, true).len() ==> message_ready(
                    *net,
                    #[trigger] node_messages(*net, node@, true)[k],
                    true,
                ),
            forall|k: int| 0 <= k < j ==> message_ready(*net, #[trigger] node_messages(*net, node@, false)[k], false),
        decreases rxs@.len() - j,
    {
        if !message_ready_check(net, rxs[j], false) {
            proof {
                assert(node_messages(*net, node@, false)[j as int] == *rxs@[j as int]);
            }
            return false;
        }
        proof {
            assert(node_messages(*net, node@, false)[j as int] == *rxs@[j as int]);
        }
        j = j + 1;
    }
    true
}

/// The messages of `s` are ordered by id.
pub open spec fn sorted_by_id(s: Seq<CANMessage>) -> bool {
    forall|i: int, j: int| 0 <= i < j < s.len() ==> (#[trigger] s[i]).id <= (#[trigger] s[j]).id
}

/// A received message that the node gets from another node.
pub open spec fn from_other_node(m: CANMessage, node: Seq<char>) -> bool {
    m.tx_node is Some && m.tx_node.unwrap()@ != node
}

/// Code generator for one node of a network.
pub struct Codegen<'n> {
    args: Args,
    net: &'n CANNetwork,
    sorted_tx_messages: Vec<&'n CANMessage>,
    sorted_rx_messages: Vec<&'n CANMessage>,
    crate_name: String,
    crate_version: String,
    git_version: String,
}

impl<'n> Codegen<'n> {
    /// Node to generate for.
    pub closed spec fn spec_node(self) -> Seq<char> {
        self.args.node@
    }

    /// Whether TX stubs are emitted.
    pub closed spec fn spec_tx_stubs(self) -> bool {
        self.args.tx_stubs
    }

    /// Whether RX callback stubs are emitted.
    pub closed spec fn spec_rx_callback_stubs(self) -> bool {
        self.args.rx_callback_stubs
    }

    /// The network generated for.
    pub closed spec fn spec_net(self) -> CANNetwork {
        *self.net
    }

    /// Messages the node transmits, ordered by id.
    pub closed spec fn spec_tx(self) -> Seq<CANMessage> {
        deref_all(self.sorted_tx_messages@)
    }

    /// Messages the node receives from other nodes, ordered by id.
    pub closed spec fn spec_rx(self) -> Seq<CANMessage> {
        deref_all(self.sorted_rx_messages@)
    }

    /// Name, version and source revision of the generator, for the file headers.
    pub closed spec fn spec_build_info(self) -> (Seq<char>, Seq<char>, Seq<char>) {
        (self.crate_name@, self.crate_version@, self.git_version@)
    }

    /// Every message the node receives comes from a node.
    #[verifier::type_invariant]
    pub closed spec fn inv(self) -> bool {
        forall|i: int| 0 <= i < self.spec_rx().len() ==> (#[trigger] self.spec_rx()[i]).tx_node is Some
    }

    /// Code can be made for every message the generator handles: those it receives,
    /// and those it transmits (with their TX side).
    pub open spec fn ready(self) -> bool {
        &&& forall|i: int|
            0 <= i < self.spec_rx().len() ==> message_ready(
                self.spec_net(),
                #[trigger] self.spec_rx()[i],
                false,
            )
        &&& forall|i: int|
            0 <= i < self.spec_tx().len() ==> message_ready(
                self.spec_net(),
                #[trigger] self.spec_tx()[i],
                true,
            )
    }

    /// Whether code can be made for every message the generator handles
    /// ([`ready`](Self::ready)); the generating functions need it.
    pub fn is_ready(&self) -> (r: bool)
        ensures
            r == self.ready(),
    {
        let mut i: usize = 0;
        while i < self.rx_len()
            invariant
                0 <= i <= self.spec_rx().len(),
                forall|k: int| 0 <= k < i ==> message_ready(self.spec_net(), #[trigger] self.spec_rx()[k], false),
            decreases self.spec_rx().len() - i,
        {
            let m = self.rx_at(i);
            if !message_ready_check(self.net, m, false) {
                return false;
            }
            i = i + 1;
        }
        let mut j: usize = 0;
        while j < self.tx_len()
            invariant
                0 <= j <= self.spec_tx().len(),
                forall|k: int| 0 <= k < self.spec_rx().len() ==> message_ready(self.spec_net(), #[trigger] self.spec_rx()[k], false),
                forall|k: int| 0 <= k < j ==> message_ready(self.spec_net(), #[trigger] self.spec_tx()[k], true),
            decreases self.spec_tx().len() - j,
        {
            let m = self.tx_at(j);
            if !message_ready_check(self.net, m, true) {
                return false;
            }
            j = j + 1;
        }
        true
    }

    /// Number of messages the node receives from other nodes.
    pub(crate) fn rx_len(&self) -> (r: usize)
        ensures
            r == self.spec_rx().len(),
    {
        self.sorted_rx_messages.len()
    }

    /// The `i`-th message the node receives from other nodes.
    pub(crate) fn rx_at(&self, i: usize) -> (r: &'n CANMessage)
        requires
            i < self.spec_rx().len(),
        ensures
            *r == self.spec_rx()[i as int],
            self.ready() ==> message_ready(self.spec_net(), *r, false),
            r.tx_node is Some,
    {
        proof {
            use_type_invariant(self);
        }
        self.sorted_rx_messages[i]
    }

    /// Number of messages the node transmits.
    pub(crate) fn tx_len(&self) -> (r: usize)
        ensures
            r == self.spec_tx().len(),
    {
        self.sorted_tx_messages.len()
    }

    /// The `i`-th message the node transmits.
    pub(crate) fn tx_at(&self, i: usize) -> (r: &'n CANMessage)
        requires
            i < self.spec_tx().len(),
        ensures
            *r == self.spec_tx()[i as int],
            self.ready() ==> message_ready(self.spec_net(), *r, true),
    {
        proof {
            use_type_invariant(self);
        }
        self.sorted_tx_messages[i]
    }

    /// The network generated for.
    pub(crate) fn network(&self) -> (r: &'n CANNetwork)
        ensures
            *r == self.spec_net(),
    {
        self.net
    }

    /// Whether TX stubs are emitted.
    pub(crate) fn tx_stubs(&self) -> (r: bool)
        ensures
            r == self.spec_tx_stubs(),
    {
        self.args.tx_stubs
    }

    /// Whether RX callback stubs are emitted.
    pub(crate) fn rx_callback_stubs(&self) -> (r: bool)
        ensures
            r == self.spec_rx_callback_stubs(),
    {
        self.args.rx_callback_stubs
    }

    /// Every received message has a transmitting node.
    pub(crate) fn rx_have_senders(&self)
        ensures
            forall|i: int| 0 <= i < self.spec_rx().len() ==> (#[trigger] self.spec_rx()[i]).tx_node is Some,
    {
        proof {
            use_type_invariant(self);
        }
    }

    /// A generator for node `args.node` of `net`; the node must be in the network.
    /// Whether code can be made for its messages is checked when generating
    /// ([`ready`](Self::ready)).
    /// The name, version and source revision of the generator go into the file headers.
    pub fn new(
        args: Args,
        net: &'n CANNetwork,
        crate_name: &str,
        crate_version: &str,
        git_version: &str,
    ) -> (r: Result<Codegen<'n>, CodegenError>)
        ensures
            !has_node_named(net.spec_nodes(), args.node@) ==> (r matches Err(
                CodegenError::NodeNotFound(n),
            ) && n@ == args.node@),
            has_node_named(net.spec_nodes(), args.node@) ==> (r matches Ok(cg) && {
                &&& codegen_ready(*net, args.node@) ==> cg.ready()
                &&& cg.spec_node() == args.node@
                &&& cg.spec_tx_stubs() == args.tx_stubs
                &&& cg.spec_rx_callback_stubs() == args.rx_callback_stubs
                &&& cg.spec_net() == *net
                &&& cg.spec_build_info() == (crate_name@, crate_version@, git_version@)
                &&& sorted_by_id(cg.spec_tx())
                &&& cg.spec_tx().len() == node_messages(*net, args.node@, true).len()
                &&& forall|m: CANMessage|
                    cg.spec_tx().contains(m) == node_messages(*net, args.node@, true).contains(m)
                &&& sorted_by_id(cg.spec_rx())
                &&& forall|m: CANMessage|
                    cg.spec_rx().contains(m) == (node_messages(*net, args.node@, false).contains(m)
                        && from_other_node(m, args.node@))
            }),
    {
        let rx = match net.rx_messages_by_node(args.node.as_str()) {
            Some(v) => v,
            None => {
                return Err(CodegenError::NodeNotFound(args.node.clone()));
            },
        };
        let tx = match net.tx_messages_by_node(args.node.as_str()) {
            Some(v) => v,
            None => {
                return Err(CodegenError::NodeNotFound(args.node.clone()));
            },
        };
        proof {
            assert(deref_all(rx@) =~= node_messages(*net, args.node@, false));
            assert(deref_all(tx@) =~= node_messages(*net, args.node@, true));
        }
        let rx_sorted = sort_by_id(rx);
        let tx_sorted = sort_by_id(tx);
        let mut rx_kept: Vec<&CANMessage> = Vec::new();
        let mut i: usize = 0;
        while i < rx_sorted.len()
            invariant
                0 <= i <= rx_sorted@.len(),
                sorted_by_id(deref_all(rx_sorted@)),
                sorted_by_id(deref_all(rx_kept@)),
                forall|k: int| 0 <= k < rx_kept@.len() ==> exists|j: int| 0 <= j < i && #[trigger] rx_kept@[k] == rx_sorted@[j],
                forall|m: CANMessage|
                    deref_all(rx_kept@).contains(m) == (deref_all(rx_sorted@.take(i as int)).contains(m)
                        && from_other_node(m, args.node@)),
            decreases rx_sorted@.len() - i,
        {
            let m = rx_sorted[i];
            let keep = match &m.tx_node {
                Some(n) => !str_eq(n.as_str(), args.node.as_str()),
                None => false,
            };
            let ghost before = rx_kept@;
            if keep {
                rx_kept.push(m);
            }
            proof {
                let t = deref_all(rx_sorted@.take(i + 1));
                assert(t =~= deref_all(rx_sorted@.take(i as int)).push(*m));
                if keep {
                    assert(deref_all(rx_kept@) =~= deref_all(before).push(*m));
                    assert forall|a: int, b: int| 0 <= a < b < deref_all(rx_kept@).len() implies (#[trigger] deref_all(rx_kept@)[a]).id <= (#[trigger] deref_all(rx_kept@)[b]).id by {
                        if b == before.len() {
                            let j = choose|j: int| 0 <= j < i && #[trigger] before[a] == rx_sorted@[j];
                            assert(deref_all(rx_sorted@)[j] == *before[a]);
                            assert(deref_all(rx_sorted@)[i as int] == *m);
                        } else {
                            assert(deref_all(rx_kept@)[a] == deref_all(before)[a]);
                            assert(deref_all(rx_kept@)[b] == deref_all(before)[b]);
                        }
                    }
                    assert forall|k: int| 0 <= k < rx_kept@.len() implies exists|j: int| 0 <= j < i + 1 && #[trigger] rx_kept@[k] == rx_sorted@[j] by {
                        if k < before.len() {
                            assert(rx_kept@[k] == before[k]);
                        } else {
                            assert(rx_kept@[k] == rx_sorted@[i as int]);
                        }
                    }
                } else {
                    assert(deref_all(rx_kept@) =~= deref_all(before));
                }
                assert(keep == from_other_node(*m, args.node@));
                assert forall|x: CANMessage| deref_all(rx_kept@).contains(x) == (t.contains(x) && from_other_node(x, args.node@)) by {
                    if t.contains(x) {
                        let k = choose|k: int| 0 <= k < t.len() && t[k] == x;
                        if k < i {
                            assert(deref_all(rx_sorted@.take(i as int))[k] == x);
                        } else {
                            assert(x == *m);
                            if keep {
                                assert(deref_all(rx_kept@)[before.len() as int] == x);
                            }
                        }
                    }
                    if deref_all(rx_sorted@.take(i as int)).contains(x) {
                        let k = choose|k: int| 0 <= k < i && deref_all(rx_sorted@.take(i as int))[k] == x;
                        assert(t[k] == x);
                    }
                    if keep && x == *m {
                        assert(deref_all(rx_kept@)[before.len() as int] == x);
                    }
                    if deref_all(rx_kept@).contains(x) {
                        let k = choose|k: int| 0 <= k < deref_all(rx_kept@).len() && deref_all(rx_kept@)[k] == x;
                        let prev_t = deref_all(rx_sorted@.take(i as int));
                        if k < before.len() {
                            assert(deref_all(before)[k] == x);
                            assert(deref_all(before).contains(x));
                            assert(prev_t.contains(x));
                            let j = choose|j: int| 0 <= j < prev_t.len() && prev_t[j] == x;
                            assert(t[j] == x);
                        } else {
                            assert(deref_all(rx_kept@)[before.len() as int] == *m);
                            assert(t[i as int] == x);
                        }
                    }
                    if deref_all(before).contains(x) {
                        let k = choose|k: int| 0 <= k < deref_all(before).len() && deref_all(before)[k] == x;
                        if keep {
                            assert(deref_all(rx_kept@)[k] == x);
                        }
                    }
                }
            }
            i = i + 1;
        }
        proof {
            assert(rx_sorted@.take(rx_sorted@.len() as int) =~= rx_sorted@);
            assert forall|k: int| 0 <= k < deref_all(rx_kept@).len() implies (#[trigger] deref_all(rx_kept@)[k]).tx_node is Some by {
                let x = deref_all(rx_kept@)[k];
                assert(deref_all(rx_kept@).contains(x));
            }
            assert forall|k: int| 0 <= k < deref_all(rx_kept@).len() && codegen_ready(*net, args.node@) implies message_ready(*net, #[trigger] deref_all(rx_kept@)[k], false) by {
                let x = deref_all(rx_kept@)[k];
                assert(deref_all(rx_kept@).contains(x));
                assert(node_messages(*net, args.node@, false).contains(x));
                let j = choose|j: int| 0 <= j < node_messages(*net, args.node@, false).len() && node_messages(*net, args.node@, false)[j] == x;
            }
            assert forall|k: int| 0 <= k < deref_all(tx_sorted@).len() && codegen_ready(*net, args.node@) implies message_ready(*net, #[trigger] deref_all(tx_sorted@)[k], true) by {
                let x = deref_all(tx_sorted@)[k];
                assert(deref_all(tx_sorted@).contains(x));
                assert(node_messages(*net, args.node@, true).contains(x));
                let j = choose|j: int| 0 <= j < node_messages(*net, args.node@, true).len() && node_messages(*net, args.node@, true)[j] == x;
            }
        }
        Ok(
            Codegen {
                args,
                net,
                sorted_tx_messages: tx_sorted,
                sorted_rx_messages: rx_kept,
                crate_name: String::from_str(crate_name),
                crate_version: String::from_str(crate_version),
                git_version: String::from_str(git_version),
            },
        )
    }
}

/// Sort messages by id, keeping the order of equal ones.
fn sort_by_id<'a>(v: Vec<&'a CANMessage>) -> (r: Vec<&'a CANMessage>)
    ensures
        r@.len() == v@.len(),
        forall|m: CANMessage| deref_all(r@).contains(m) == deref_all(v@).contains(m),
        sorted_by_id(deref_all(r@)),
{
    let ghost orig = deref_all(v@);
    let mut out: Vec<&'a CANMessage> = Vec::new();
    let mut rest = v;
    while rest.len() > 0
        invariant
            out@.len() + rest@.len() == orig.len(),
            forall|x: CANMessage| (deref_all(out@).contains(x) || deref_all(rest@).contains(x)) == orig.contains(x),
            sorted_by_id(deref_all(out@)),
        decreases rest@.len(),
    {
        let ghost rest0 = deref_all(rest@);
        let ghost out0 = deref_all(out@);
        let ghost rr = rest@;
        let item = rest.remove(0);
        proof {
            assert(rest0[0] == *item);
            assert(deref_all(rest@) =~= rest0.skip(1));
        }
        let mut pos: usize = 0;
        while pos < out.len() && out[pos].id <= item.id
            invariant
                deref_all(out@) == out0,
                0 <= pos <= out@.len(),
                forall|k: int| 0 <= k < pos ==> (#[trigger] out0[k]).id <= item.id,
            decreases out@.len() - pos,
        {
            proof {
                assert(out0[pos as int] == *out@[pos as int]);
            }
            pos = pos + 1;
        }
        proof {
            assert forall|k: int| pos <= k < out0.len() implies item.id < (#[trigger] out0[k]).id by {
                assert(out0[pos as int] == *out@[pos as int]);
                if k > pos {
                    assert(out0[pos as int].id <= out0[k].id);
                }
            }
        }
        let ghost ob = out@;
        out.insert(pos, item);
        proof {
            let o = deref_all(out@);
            assert(out@ =~= ob.subrange(0, pos as int).push(item) + ob.subrange(pos as int, ob.len() as int));
            assert(o =~= out0.subrange(0, pos as int).push(*item) + out0.subrange(pos as int, out0.len() as int));
            assert forall|i: int, j: int| 0 <= i < j < o.len() implies (#[trigger] o[i]).id <= (#[trigger] o[j]).id by {
                if j < pos {
                    assert(o[i] == out0[i] && o[j] == out0[j]);
                } else if j == pos {
                    assert(o[i] == out0[i]);
                } else if i < pos {
                    assert(o[i] == out0[i] && o[j] == out0[j - 1]);
                } else if i == pos {
                    assert(o[j] == out0[j - 1]);
                } else {
                    assert(o[i] == out0[i - 1] && o[j] == out0[j - 1]);
                }
            }
            let rs = deref_all(rest@);
            assert forall|x: CANMessage| (o.contains(x) || rs.contains(x)) == orig.contains(x) by {
                if o.contains(x) {
                    let k = choose|k: int| 0 <= k < o.len() && o[k] == x;
                    if k < pos {
                        assert(out0[k] == x);
                        assert(out0.contains(x));
                    } else if k == pos {
                        assert(rest0[0] == x);
                        assert(rest0.contains(x));
                    } else {
                        assert(out0[k - 1] == x);
                        assert(out0.contains(x));
                    }
                }
                if rs.contains(x) {
                    let k = choose|k: int| 0 <= k < rs.len() && rs[k] == x;
                    assert(rest0[k + 1] == x);
                    assert(rest0.contains(x));
                }
                if out0.contains(x) {
                    let k = choose|k: int| 0 <= k < out0.len() && out0[k] == x;
                    if k < pos {
                        assert(o[k] == x);
                    } else {
                        assert(o[k + 1] == x);
                    }
                }
                if rest0.contains(x) {
                    let k = choose|k: int| 0 <= k < rest0.len() && rest0[k] == x;
                    if k == 0 {
                        assert(o[pos as int] == x);
                    } else {
                        assert(rs[k - 1] == x);
                    }
                }
            }
        }
    }
    proof {
        assert forall|x: CANMessage| deref_all(out@).contains(x) == orig.contains(x) by {
            if deref_all(rest@).contains(x) {
                let k = choose|k: int| 0 <= k < deref_all(rest@).len() && deref_all(rest@)[k] == x;
            }
        }
    }
    out
}

/// The standard headers every generated file includes.
pub open spec fn std_includes_text() -> Seq<char> {
    "#include <stdbool.h>\n#include <stddef.h>\n#include <stdint.h>"@
}

/// `parts` joined with `sep` between them.
pub open spec fn join_text(parts: Seq<Seq<char>>, sep: Seq<char>) -> Seq<char>
    decreases parts.len(),
{
    if parts.len() == 0 {
        Seq::empty()
    } else if parts.len() == 1 {
        parts[0]
    } else {
        join_text(parts.drop_last(), sep) + sep + parts.last()
    }
}

/// Each part followed by `sep`.
pub open spec fn concat_with(parts: Seq<Seq<char>>, sep: Seq<char>) -> Seq<char>
    decreases parts.len(),
{
    if parts.len() == 0 {
        Seq::empty()
    } else {
        concat_with(parts.drop_last(), sep) + parts.last() + sep
    }
}

/// Second parts of pairs.
pub open spec fn seconds(s: Seq<(Seq<char>, Seq<char>)>) -> Seq<Seq<char>> {
    s.map_values(|p: (Seq<char>, Seq<char>)| p.1)
}

/// Texts of pairs of `String`s.
pub open spec fn pair_texts(s: Seq<(String, String)>) -> Seq<(Seq<char>, Seq<char>)> {
    crate::ctext::text_pairs(s)
}

/// `parts` joined with `sep`.
pub fn join(parts: &Vec<(String, String)>, sep: &str) -> (r: String)
    ensures
        r@ == join_text(seconds(pair_texts(parts@)), sep@),
{
    let ghost ps = seconds(pair_texts(parts@));
    let mut s = String::new();
    let mut i: usize = 0;
    while i < parts.len()
        invariant
            0 <= i <= parts@.len(),
            ps == seconds(pair_texts(parts@)),
            s@ == join_text(ps.take(i as int), sep@),
        decreases parts@.len() - i,
    {
        if i > 0 {
            s.append(sep);
        }
        s.append(parts[i].1.as_str());
        proof {
            assert(ps.take(i + 1).drop_last() =~= ps.take(i as int));
            assert(ps[i as int] == parts@[i as int].1@);
            if i == 0 {
                assert(ps.take(1) =~= seq![ps[0]]);
            }
        }
        i = i + 1;
    }
    proof {
        assert(ps.take(ps.len() as int) =~= ps);
    }
    s
}

/// Each part followed by `sep`.
pub fn concat_all(parts: &Vec<(String, String)>, sep: &str) -> (r: String)
    ensures
        r@ == concat_with(seconds(pair_texts(parts@)), sep@),
{
    let ghost ps = seconds(pair_texts(parts@));
    let mut s = String::new();
    let mut i: usize = 0;
    while i < parts.len()
        invariant
            0 <= i <= parts@.len(),
            ps == seconds(pair_texts(parts@)),
            s@ == concat_with(ps.take(i as int), sep@),
        decreases parts@.len() - i,
    {
        s.append(parts[i].1.as_str());
        s.append(sep);
        proof {
            assert(ps.take(i + 1).drop_last() =~= ps.take(i as int));
            assert(ps[i as int] == parts@[i as int].1@);
        }
        i = i + 1;
    }
    proof {
        assert(ps.take(ps.len() as int) =~= ps);
    }
    s
}

/// Sorts pairs of texts by their first part.
pub fn sort_pairs(v: Vec<(String, String)>) -> (r: Vec<(String, String)>)
    ensures
        pair_texts(r@) == sort_by_key(pair_texts(v@)),
{
    let r = sort_by_text(v);
    r
}

impl<'n> Codegen<'n> {
    /// The standard headers every generated file includes.
    pub fn common_std_includes() -> (r: String)
        ensures
            r@ == std_includes_text(),
    {
        String::from_str("#include <stdbool.h>\n#include <stddef.h>\n#include <stdint.h>")
    }

    /// The comment at the top of generated file `filename`.
    pub fn internal_prelude_greeting(&self, filename: &str) -> (r: String)
        ensures
            r@ == greeting_text(*self, filename@),
    {
        let mut s = String::from_str("/**\n * OpenCAN CAN C Codegen - ");
        s.append(filename);
        s.append("\n *\n * Node: ");
        s.append(self.args.node.as_str());
        s.append("\n *\n * spdx-license-identifier: MPL-2.0\n *\n * Generated by ");
        s.append(self.crate_name.as_str());
        s.append(" v");
        s.append(self.crate_version.as_str());
        s.append(" @ ");
        s.append(self.git_version.as_str());
        s.append("\n */\n");
        s
    }

    /// The callbacks header.
    pub fn callbacks_h(&self) -> (r: String)
        ensures
            r@ == greeting_text(*self, CALLBACKS_H_NAME@) + "\n\n#ifndef OPENCAN_CALLBACKS_H\n#define OPENCAN_CALLBACKS_H\n\n"@
                + std_includes_text()
                + "\n\nvoid CAN_callback_enqueue_tx_message(const uint8_t *data, uint8_t len, uint32_t id);\nuint64_t CAN_callback_get_system_time(void);\n\n#endif\n"@,
    {
        let mut s = self.internal_prelude_greeting(CALLBACKS_H_NAME);
        s.append("\n\n#ifndef OPENCAN_CALLBACKS_H\n#define OPENCAN_CALLBACKS_H\n\n");
        s.append(Self::common_std_includes().as_str());
        s.append("\n\nvoid CAN_callback_enqueue_tx_message(const uint8_t *data, uint8_t len, uint32_t id);\nuint64_t CAN_callback_get_system_time(void);\n\n#endif\n");
        s
    }
}

/// The comment at the top of generated file `filename`.
pub open spec fn greeting_text(cg: Codegen, filename: Seq<char>) -> Seq<char> {
    "/**\n * OpenCAN CAN C Codegen - "@ + filename + "\n *\n * Node: "@ + cg.spec_node()
        + "\n *\n * spdx-license-identifier: MPL-2.0\n *\n * Generated by "@ + cg.spec_build_info().0
        + " v"@ + cg.spec_build_info().1 + " @ "@ + cg.spec_build_info().2 + "\n */\n"@
}

/// The templates of the messages `ms`, each once, in the order they first appear.
pub open spec fn used_templates(ms: Seq<CANMessage>) -> Seq<Seq<char>>
    decreases ms.len(),
{
    if ms.len() == 0 {
        Seq::empty()
    } else {
        template_step(used_templates(ms.drop_last()), ms.last())
    }
}

/// The templates `prev` and that of message `m`, if it is made from one not yet in `prev`.
pub open spec fn template_step(prev: Seq<Seq<char>>, m: CANMessage) -> Seq<Seq<char>> {
    match m.kind {
        crate::message::CANMessageKind::FromTemplate(t) => if prev.contains(t@) {
            prev
        } else {
            prev.push(t@)
        },
        _ => prev,
    }
}

/// The templates `ts` with their definitions.
pub open spec fn with_defs(net: CANNetwork, ts: Seq<Seq<char>>) -> Seq<(Seq<char>, Seq<char>)> {
    ts.map_values(|t: Seq<char>| (t, template_def_text(template_named(net, t))))
}

/// The definitions that the templates header holds for template message `t`.
pub open spec fn template_def_text(t: CANMessage) -> Seq<char> {
    "/*********************************************************/\n/* Message Template: "@ + t.name@
        + " */\n/*********************************************************/\n\n/*** Template Signal Enums ***/\n\n"@
        + crate::cmessage::signal_enums_text(t) + "\n\n/*** Template Message Structs ***/\n\n"@
        + crate::cmessage::struct_def_text(t, true) + "\n\n"@ + crate::cmessage::struct_def_text(
        t,
        false,
    ) + "\n"@
}

/// The template of the network named `name`.
pub open spec fn template_named(net: CANNetwork, name: Seq<char>) -> CANMessage {
    net.spec_templates()[message_index(net.spec_templates(), name)]
}

/// Each template used by the generator's messages (received, then transmitted) with
/// its definitions.
pub open spec fn template_entries(cg: Codegen) -> Seq<(Seq<char>, Seq<char>)> {
    with_defs(cg.spec_net(), used_templates(cg.spec_rx() + cg.spec_tx()))
}

/// The templates header, given the template definitions in their order.
pub open spec fn templates_h_text(cg: Codegen, defs: Seq<char>) -> Seq<char> {
    greeting_text(cg, TEMPLATES_H_NAME@) + "\n\n#ifndef OPENCAN_TEMPLATES_H\n#define OPENCAN_TEMPLATES_H\n\n"@
        + std_includes_text() + "\n\n"@ + defs + "\n\n#endif\n"@
}

impl<'n> Codegen<'n> {
    fn template_def(&self, t: &CANMessage) -> (r: String)
        requires
            message_codegen_ok(*t),
        ensures
            r@ == template_def_text(*t),
    {
        let mut s = String::from_str("/*********************************************************/\n/* Message Template: ");
        s.append(t.name.as_str());
        s.append(" */\n/*********************************************************/\n\n/*** Template Signal Enums ***/\n\n");
        s.append(t.signal_enums().as_str());
        s.append("\n\n/*** Template Message Structs ***/\n\n");
        s.append(t.raw_struct_def().as_str());
        s.append("\n\n");
        s.append(t.struct_def().as_str());
        s.append("\n");
        s
    }

    fn note_template(&self, m: &CANMessage, out: &mut Vec<(String, String)>, prev: Ghost<Seq<Seq<char>>>)
        requires
            pair_texts(old(out)@) == with_defs(self.spec_net(), prev@),
            message_ready(self.spec_net(), *m, false),
        ensures
            pair_texts(final(out)@) == with_defs(self.spec_net(), template_step(prev@, *m)),
    {
        if let crate::message::CANMessageKind::FromTemplate(t) = &m.kind {
            proof {
                assert(pair_texts(out@).len() == out@.len());
                assert(with_defs(self.spec_net(), prev@).len() == prev@.len());
                assert(out@.len() == prev@.len());
                assert forall|j: int| 0 <= j < out@.len() implies (#[trigger] out@[j]).0@ == prev@[j] by {
                    assert(pair_texts(out@)[j] == with_defs(self.spec_net(), prev@)[j]);
                    assert(pair_texts(out@)[j] == (out@[j].0@, out@[j].1@));
                }
            }
            let mut seen = false;
            let mut k: usize = 0;
            while k < out.len()
                invariant
                    0 <= k <= out@.len(),
                    out@.len() == prev@.len(),
                    forall|j: int| 0 <= j < out@.len() ==> (#[trigger] out@[j]).0@ == prev@[j],
                    seen == exists|j: int| 0 <= j < k && prev@[j] == t@,
                decreases out@.len() - k,
            {
                if str_eq(out[k].0.as_str(), t.as_str()) {
                    seen = true;
                }
                k = k + 1;
            }
            proof {
                if prev@.contains(t@) {
                    let j = choose|j: int| 0 <= j < prev@.len() && prev@[j] == t@;
                    assert(seen);
                }
                if seen {
                    let j = choose|j: int| 0 <= j < k && prev@[j] == t@;
                    assert(prev@.contains(t@));
                }
            }
            if !seen {
                let template = match self.network().template_message_by_name(t.as_str()) {
                    Some(tm) => tm,
                    None => {
                        proof {
                            assert(false);
                        }
                        return;
                    },
                };
                let def = self.template_def(template);
                let ghost o0 = pair_texts(out@);
                out.push((t.clone(), def));
                proof {
                    assert(pair_texts(out@) =~= o0.push((t@, template_def_text(template_named(self.spec_net(), t@)))));
                    assert(with_defs(self.spec_net(), prev@.push(t@)) =~= with_defs(self.spec_net(), prev@).push((t@, template_def_text(template_named(self.spec_net(), t@)))));
                }
            }
        }
    }

    fn template_entries_vec(&self) -> (r: Vec<(String, String)>)
        requires
            self.ready(),
        ensures
            pair_texts(r@) == template_entries(*self),
    {
        let ghost all = self.spec_rx() + self.spec_tx();
        let ghost n_rx = self.spec_rx().len();
        let mut out: Vec<(String, String)> = Vec::new();
        proof {
            assert(all.take(0) =~= Seq::<CANMessage>::empty());
            assert(pair_texts(out@) =~= with_defs(self.spec_net(), Seq::empty()));
        }
        let mut i: usize = 0;
        while i < self.rx_len()
            invariant
                self.ready(),
                0 <= i <= n_rx,
                n_rx == self.spec_rx().len(),
                all == self.spec_rx() + self.spec_tx(),
                pair_texts(out@) == with_defs(self.spec_net(), used_templates(all.take(i as int))),
            decreases n_rx - i,
        {
            let m = self.rx_at(i);
            proof {
                assert(all[i as int] == *m);
                assert(all.take(i + 1).drop_last() =~= all.take(i as int));
                assert(all.take(i + 1).last() == all[i as int]);
            }
            self.note_template(m, &mut out, Ghost(used_templates(all.take(i as int))));
            i = i + 1;
        }
        let mut j: usize = 0;
        while j < self.tx_len()
            invariant
                self.ready(),
                0 <= j <= self.spec_tx().len(),
                n_rx == self.spec_rx().len(),
                all == self.spec_rx() + self.spec_tx(),
                pair_texts(out@) == with_defs(self.spec_net(), used_templates(all.take(n_rx + j))),
            decreases self.spec_tx().len() - j,
        {
            let m = self.tx_at(j);
            proof {
                assert(all[n_rx + j] == *m);
                assert(all.take(n_rx + j + 1).drop_last() =~= all.take(n_rx + j));
                assert(all.take(n_rx + j + 1).last() == all[n_rx + j]);
            }
            self.note_template(m, &mut out, Ghost(used_templates(all.take(n_rx + j))));
            j = j + 1;
        }
        proof {
            assert(all.take(n_rx + j) =~= all);
        }
        out
    }

    /// The templates header: the enumerations and structs of each template that the
    /// node's messages are made from, once each, in the order of the template names.
    pub fn templates_h(&self) -> (r: String)
        requires
            self.ready(),
        ensures
            r@ == templates_h_text(*self, join_text(seconds(sort_by_key(template_entries(*self))), "\n"@)),
    {
        let v = self.template_entries_vec();
        let sorted = sort_pairs(v);
        let defs = join(&sorted, "\n");
        let mut s = self.internal_prelude_greeting(TEMPLATES_H_NAME);
        s.append("\n\n#ifndef OPENCAN_TEMPLATES_H\n#define OPENCAN_TEMPLATES_H\n\n");
        s.append(Self::common_std_includes().as_str());
        s.append("\n\n");
        s.append(defs.as_str());
        s.append("\n\n#endif\n");
        proof {
            assert(s@ =~= templates_h_text(*self, defs@));
        }
        s
    }

    /// All generated files.
    pub fn network_to_c(self) -> (r: CodegenOutput)
        requires
            self.ready(),
        ensures
            output_of(self, r),
    {
        CodegenOutput {
            callbacks_h: self.callbacks_h(),
            templates_h: self.templates_h(),
            rx_c: self.rx_c(),
            rx_h: self.rx_h(),
            tx_c: self.tx_c(),
            tx_h: self.tx_h(),
        }
    }

    /// [`network_to_c`](Self::network_to_c) for every generator: `None` when code
    /// cannot be made for some message the node handles (see [`ready`](Self::ready)).
    pub fn try_network_to_c(self) -> (r: Option<CodegenOutput>)
        ensures
            r is Some <==> self.ready(),
            r matches Some(o) ==> output_of(self, o),
    {
        if self.is_ready() {
            Some(self.network_to_c())
        } else {
            None
        }
    }
}

/// The files generated by `cg`: the callbacks, templates, RX and TX headers and
/// sources, each with its exact text.
pub open spec fn output_of(cg: Codegen, r: CodegenOutput) -> bool {
    &&& r.callbacks_h@ == greeting_text(cg, CALLBACKS_H_NAME@)
        + "\n\n#ifndef OPENCAN_CALLBACKS_H\n#define OPENCAN_CALLBACKS_H\n\n"@ + std_includes_text()
        + "\n\nvoid CAN_callback_enqueue_tx_message(const uint8_t *data, uint8_t len, uint32_t id);\nuint64_t CAN_callback_get_system_time(void);\n\n#endif\n"@
    &&& r.templates_h@ == templates_h_text(cg, join_text(seconds(sort_by_key(template_entries(cg))), "\n"@))
    &&& r.rx_c@ == crate::c_rx::rx_c_text(cg)
    &&& r.rx_h@ == crate::c_rx::rx_h_text(cg)
    &&& r.tx_c@ == crate::c_tx::tx_c_text(cg)
    &&& r.tx_h@ == crate::c_tx::tx_h_text(cg)
}

} // verus!
