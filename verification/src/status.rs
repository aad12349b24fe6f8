//! C health checks: whether each received message, and each node that sends the
//! received messages, has been heard from recently enough.

use vstd::prelude::*;
use vstd::string::StrSliceExecFns;
use crate::cmessage::ds;
use crate::codegen::{
    concat_all, concat_with, join, join_text, message_ready, pair_texts, seconds, sort_pairs, Codegen,
};
use crate::ctext::{cat, dec_text, indent, indented, push_dec, sort_by_key, spaces, trim, trimmed};
use crate::message::CANMessage;
use crate::text::str_eq;

verus! {

/// Name of the health check function of message `m`.
pub open spec fn message_ok_fn_name_text(m: CANMessage) -> Seq<char> {
    "CANRX_is_message_"@ + m.name@ + "_ok"@
}

/// Declaration of the health check function of message `m`.
pub open spec fn message_ok_fn_decl_text(m: CANMessage) -> Seq<char> {
    "bool "@ + message_ok_fn_name_text(m) + "(void)"@
}

/// The constants every health check function starts with.
pub open spec fn check_prelude_text() -> Seq<char> {
    "    const uint64_t current_time = CAN_callback_get_system_time();\n    const uint_fast16_t MS_TO_US = 1000U;\n    const uint_fast16_t LATENESS_TOLERANCE_US = 100U;\n\n"@
}

/// The condition that a message with timestamp variable `ts` and cycle time `c`
/// milliseconds has been received and is on time.
pub open spec fn on_time_text(ts: Seq<char>, c: u32) -> Seq<char> {
    ts + " != 0U && (current_time - "@ + ts + ") <= (("@ + ds(c) + "U * MS_TO_US) + LATENESS_TOLERANCE_US) "@
}

/// `text` holds `part` somewhere.
pub open spec fn holds_text(text: Seq<char>, part: Seq<char>) -> bool {
    exists|a: Seq<char>, b: Seq<char>| text == a + part + b
}

/// The freshness check of a message with cycle time `c` milliseconds, whose
/// timestamp variable is `ts`, accepts it exactly when it has been received
/// (`ts != 0`) and its age `current_time - ts`, in microseconds, is at most
/// `c * MS_TO_US + LATENESS_TOLERANCE_US`; every health check function sets these
/// to 1000 microseconds per millisecond and 100 microseconds, so the bound is
/// `c * 1000 + 100`.
pub proof fn law_on_time_bound(ts: Seq<char>, c: u32)
    ensures
        on_time_text(ts, c) == ts + " != 0U && "@ + "(current_time - "@ + ts + ") <= "@ + "(("@
            + dec_text(c as nat) + "U * MS_TO_US) + LATENESS_TOLERANCE_US) "@,
        holds_text(check_prelude_text(), "const uint_fast16_t MS_TO_US = 1000U;\n"@),
        holds_text(check_prelude_text(), "const uint_fast16_t LATENESS_TOLERANCE_US = 100U;\n"@),
{
    assert(on_time_text(ts, c) =~= ts + " != 0U && "@ + "(current_time - "@ + ts + ") <= "@ + "(("@
        + dec_text(c as nat) + "U * MS_TO_US) + LATENESS_TOLERANCE_US) "@) by {
        reveal_strlit(" != 0U && (current_time - ");
        reveal_strlit(" != 0U && ");
        reveal_strlit("(current_time - ");
        reveal_strlit(") <= ((");
        reveal_strlit(") <= ");
        reveal_strlit("((");
    }
    let p = check_prelude_text();
    let a1 = "    const uint64_t current_time = CAN_callback_get_system_time();\n    "@;
    let m1 = "const uint_fast16_t MS_TO_US = 1000U;\n"@;
    let b1 = "    const uint_fast16_t LATENESS_TOLERANCE_US = 100U;\n\n"@;
    let a2 = a1 + m1 + "    "@;
    let m2 = "const uint_fast16_t LATENESS_TOLERANCE_US = 100U;\n"@;
    let b2 = "\n"@;
    assert(p =~= a1 + m1 + b1) by {
        reveal_strlit("    const uint64_t current_time = CAN_callback_get_system_time();\n    const uint_fast16_t MS_TO_US = 1000U;\n    const uint_fast16_t LATENESS_TOLERANCE_US = 100U;\n\n");
        reveal_strlit("    const uint64_t current_time = CAN_callback_get_system_time();\n    ");
        reveal_strlit("const uint_fast16_t MS_TO_US = 1000U;\n");
        reveal_strlit("    const uint_fast16_t LATENESS_TOLERANCE_US = 100U;\n\n");
    }
    assert(p =~= a2 + m2 + b2) by {
        reveal_strlit("    const uint64_t current_time = CAN_callback_get_system_time();\n    const uint_fast16_t MS_TO_US = 1000U;\n    const uint_fast16_t LATENESS_TOLERANCE_US = 100U;\n\n");
        reveal_strlit("    const uint64_t current_time = CAN_callback_get_system_time();\n    ");
        reveal_strlit("const uint_fast16_t MS_TO_US = 1000U;\n");
        reveal_strlit("    ");
        reveal_strlit("const uint_fast16_t LATENESS_TOLERANCE_US = 100U;\n");
        reveal_strlit("\n");
    }
}

/// The end of every health check function, after the condition.
pub open spec fn check_end_text() -> Seq<char> {
    "\n    ) {\n        return true;\n    }\n\n    return false;\n}"@
}

/// Definition of the health check function of message `m` with cycle time `c`.
pub open spec fn message_ok_fn_def_text(m: CANMessage, c: u32) -> Seq<char> {
    message_ok_fn_decl_text(m)
        + " {\n    // Check that message has been recieved (ever) + that it's on time.\n"@
        + check_prelude_text() + indented(
        trimmed("const uint64_t timestamp = "@ + "CANRX_timestamp_"@ + m.name@ + ";\n"@),
        spaces(4),
    ) + "\n\n    if (\n"@ + indented(trimmed("\n"@ + on_time_text("timestamp"@, c)), spaces(8))
        + check_end_text() + "\n\n"@
}

/// Definition of the health check function of message `m`, which has no cycle
/// time: it is not timed, so it is always ok.
pub open spec fn message_unchecked_fn_def_text(m: CANMessage) -> Seq<char> {
    message_ok_fn_decl_text(m)
        + " {\n    // Message has no cycletime, so it is not checked.\n    return true;\n}\n\n"@
}

/// Definitions of the health check functions of the messages of `rx`: timed for a
/// message with a cycle time, always ok for one without.
pub open spec fn message_ok_defs_text(rx: Seq<CANMessage>) -> Seq<char>
    decreases rx.len(),
{
    if rx.len() == 0 {
        Seq::empty()
    } else {
        message_ok_defs_text(rx.drop_last()) + message_check_def(rx.last())
    }
}

/// The health check definition of received message `m`: a freshness check when
/// it has a cycle time, always ok when it has none.
pub open spec fn message_check_def(m: CANMessage) -> Seq<char> {
    match m.cycletime {
        Some(c) => message_ok_fn_def_text(m, c),
        None => message_unchecked_fn_def_text(m),
    }
}

/// Every received message gets its health check defined: the definitions of the
/// messages of `rx` hold the definition of each of them, in their order.
pub proof fn law_every_rx_message_is_defined(rx: Seq<CANMessage>, i: int)
    requires
        0 <= i < rx.len(),
    ensures
        exists|a: Seq<char>, b: Seq<char>| message_ok_defs_text(rx) == a + message_check_def(rx[i]) + b,
    decreases rx.len(),
{
    let last = message_check_def(rx.last());
    assert(message_ok_defs_text(rx) == message_ok_defs_text(rx.drop_last()) + last);
    if i == rx.len() - 1 {
        let a = message_ok_defs_text(rx.drop_last());
        let b = Seq::<char>::empty();
        assert(message_ok_defs_text(rx) =~= a + message_check_def(rx[i]) + b);
    } else {
        law_every_rx_message_is_defined(rx.drop_last(), i);
        let (a, b) = choose|a: Seq<char>, b: Seq<char>|
            message_ok_defs_text(rx.drop_last()) == a + message_check_def(rx.drop_last()[i]) + b;
        assert(rx.drop_last()[i] == rx[i]);
        assert(message_ok_defs_text(rx) =~= a + message_check_def(rx[i]) + (b + last));
    }
}

/// Name of the health check function of node `node`.
pub open spec fn node_ok_fn_name_text(node: Seq<char>) -> Seq<char> {
    "CANRX_is_node_"@ + node + "_ok"@
}

/// Declaration of the health check function of node `node`.
pub open spec fn node_ok_fn_decl_text(node: Seq<char>) -> Seq<char> {
    "bool "@ + node_ok_fn_name_text(node) + "(void)"@
}

/// Message `m` comes from node `node` and has a cycle time.
pub open spec fn checked_for(m: CANMessage, node: Seq<char>) -> bool {
    m.tx_node is Some && m.tx_node.unwrap()@ == node && m.cycletime is Some
}

/// The timestamp variables of the messages of `rx` checked for node `node`.
pub open spec fn node_timestamps_text(rx: Seq<CANMessage>, node: Seq<char>) -> Seq<char>
    decreases rx.len(),
{
    if rx.len() == 0 {
        Seq::empty()
    } else {
        node_timestamps_text(rx.drop_last(), node) + if checked_for(rx.last(), node) {
            "const uint64_t timestamp_"@ + rx.last().name@ + " = "@ + "CANRX_timestamp_"@
                + rx.last().name@ + ";\n"@
        } else {
            Seq::empty()
        }
    }
}

/// The conditions of the messages of `rx` checked for node `node`, each after a
/// line break and followed by `&&`.
pub open spec fn node_checks_text(rx: Seq<CANMessage>, node: Seq<char>) -> Seq<char>
    decreases rx.len(),
{
    if rx.len() == 0 {
        Seq::empty()
    } else {
        node_checks_text(rx.drop_last(), node) + if checked_for(rx.last(), node) {
            "\n"@ + on_time_text("timestamp_"@ + rx.last().name@, rx.last().cycletime.unwrap())
                + "&&"@
        } else {
            Seq::empty()
        }
    }
}

/// The health check of a node checks each message it sends that has a cycle time,
/// against that message's own timestamp and its own cycle time.
pub proof fn law_node_checks_each_timed_message(rx: Seq<CANMessage>, node: Seq<char>, i: int)
    requires
        0 <= i < rx.len(),
        rx[i].tx_node is Some,
        rx[i].tx_node.unwrap()@ == node,
        rx[i].cycletime is Some,
    ensures
        holds_text(
            node_checks_text(rx, node),
            "\n"@ + on_time_text("timestamp_"@ + rx[i].name@, rx[i].cycletime.unwrap()) + "&&"@,
        ),
    decreases rx.len(),
{
    let line = "\n"@ + on_time_text("timestamp_"@ + rx[i].name@, rx[i].cycletime.unwrap()) + "&&"@;
    if i == rx.len() - 1 {
        assert(node_checks_text(rx, node) =~= node_checks_text(rx.drop_last(), node) + line + Seq::<char>::empty());
    } else {
        law_node_checks_each_timed_message(rx.drop_last(), node, i);
        assert(rx.drop_last()[i] == rx[i]);
        let (a, b) = choose|a: Seq<char>, b: Seq<char>| node_checks_text(rx.drop_last(), node) == a + line + b;
        let last = node_checks_text(rx, node).skip(node_checks_text(rx.drop_last(), node).len() as int);
        assert(node_checks_text(rx, node) =~= node_checks_text(rx.drop_last(), node) + last);
        assert(node_checks_text(rx, node) =~= a + line + (b + last));
    }
}

/// Definition of the health check function of node `node`, given the received messages `rx`.
pub open spec fn node_ok_fn_def_text(rx: Seq<CANMessage>, node: Seq<char>) -> Seq<char> {
    let checks = node_checks_text(rx, node);
    if checks.len() == 0 {
        node_ok_fn_decl_text(node) + " {\n    // No messages recieved from node `"@ + node
            + "` with a cycletime.\n    return true;\n}"@
    } else {
        node_ok_fn_decl_text(node)
            + " {\n    // Check that each message has been recieved (ever) + that it's on time.\n"@
            + check_prelude_text() + indented(trimmed(node_timestamps_text(rx, node)), spaces(4))
            + "\n\n    if (\n"@ + indented(trimmed(checks.take(checks.len() - 2)), spaces(8))
            + check_end_text()
    }
}

/// The nodes that send the messages of `rx`, each once, in the order they first appear.
pub open spec fn sending_nodes(rx: Seq<CANMessage>) -> Seq<Seq<char>>
    decreases rx.len(),
{
    if rx.len() == 0 {
        Seq::empty()
    } else {
        let prev = sending_nodes(rx.drop_last());
        let n = rx.last().tx_node.unwrap()@;
        if prev.contains(n) {
            prev
        } else {
            prev.push(n)
        }
    }
}

/// Each sending node of `rx` with the health check text `f` gives for it.
pub open spec fn node_entries(rx: Seq<CANMessage>, decls: bool) -> Seq<(Seq<char>, Seq<char>)> {
    sending_nodes(rx).map_values(
        |n: Seq<char>|
            (n, if decls {
                node_ok_fn_decl_text(n) + ";"@
            } else {
                node_ok_fn_def_text(rx, n)
            }),
    )
}

/// The message health check entries of `rx`: each declaration with itself.
pub open spec fn message_ok_entries(rx: Seq<CANMessage>) -> Seq<(Seq<char>, Seq<char>)> {
    rx.map_values(
        |m: CANMessage| (message_ok_fn_decl_text(m) + ";"@, message_ok_fn_decl_text(m) + ";"@),
    )
}

/// Declarations of the message health checks, one per line, in the order of their texts.
pub open spec fn message_ok_decls_text(rx: Seq<CANMessage>) -> Seq<char> {
    join_text(seconds(sort_by_key(message_ok_entries(rx))), "\n"@)
}

/// Declarations of the node health checks, one per line, in the order of the node names.
pub open spec fn node_ok_decls_text(rx: Seq<CANMessage>) -> Seq<char> {
    trimmed(concat_with(seconds(sort_by_key(node_entries(rx, true))), "\n"@))
}

/// Definitions of the node health checks, in the order of the node names.
pub open spec fn node_ok_defs_text(rx: Seq<CANMessage>) -> Seq<char> {
    trimmed(concat_with(seconds(sort_by_key(node_entries(rx, false))), "\n\n"@))
}

/// C health checks of the messages a node receives.
pub trait MessageStatusCodegen {
    /// Name of the health check function for the given RX message.
    fn message_ok_fn_name(&self, message: &CANMessage) -> String;

    /// Declaration of the health check function for the given RX message.
    fn message_ok_fn_decl(&self, message: &CANMessage) -> String;

    /// Declarations of the health check functions for all of our RX messages, one
    /// per line, in the order of their texts.
    fn message_ok_fn_decls(&self) -> String;

    /// Definitions of the health check functions for all of our RX messages; a
    /// message without a cycle time is not timed and is always ok.
    fn message_ok_fn_defs(&self) -> String;
}

/// C health checks of the nodes that send the messages a node receives.
pub trait NodeStatusCodegen {
    /// Name of the health check function for the given node.
    fn node_ok_fn_name(&self, node: &str) -> String;

    /// Declaration of the health check function for the given node.
    fn node_ok_fn_decl(&self, node: &str) -> String;

    /// Definition of the health check function for the given node: every message we
    /// receive from it that has a cycle time must have arrived, and on time.
    fn node_ok_fn_def(&self, node: &str) -> String;

    /// Declarations of the health check functions for all nodes we receive messages
    /// from, one per line, in the order of the node names.
    fn node_ok_fn_decls(&self) -> String;

    /// Definitions of the health check functions for all nodes we receive messages
    /// from, in the order of the node names.
    fn node_ok_fn_defs(&self) -> String;
}

impl<'n> MessageStatusCodegen for Codegen<'n> {
    /// Name of the health check function for the given RX message.
    fn message_ok_fn_name(&self, message: &CANMessage) -> (r: String)
        ensures
            r@ == message_ok_fn_name_text(*message),
    {
        let mut s = cat("CANRX_is_message_", message.name.as_str());
        s.append("_ok");
        s
    }

    /// Declaration of the health check function for the given RX message.
    fn message_ok_fn_decl(&self, message: &CANMessage) -> (r: String)
        ensures
            r@ == message_ok_fn_decl_text(*message),
    {
        let mut s = String::from_str("bool ");
        s.append(self.message_ok_fn_name(message).as_str());
        s.append("(void)");
        s
    }

    /// Declarations of the health check functions for all of our RX messages, one
    /// per line, in the order of their texts.
    fn message_ok_fn_decls(&self) -> (r: String)
        ensures
            r@ == message_ok_decls_text(self.spec_rx()),
    {
        let ghost target = message_ok_entries(self.spec_rx());
        let mut checks: Vec<(String, String)> = Vec::new();
        let mut i: usize = 0;
        while i < self.rx_len()
            invariant
                0 <= i <= self.spec_rx().len(),
                target == message_ok_entries(self.spec_rx()),
                pair_texts(checks@) == target.take(i as int),
            decreases self.spec_rx().len() - i,
        {
            let m = self.rx_at(i);
            let mut d = self.message_ok_fn_decl(m);
            d.append(";");
            let d2 = d.clone();
            checks.push((d, d2));
            proof {
                assert(self.spec_rx()[i as int] == *m);
                assert(target[i as int] == (message_ok_fn_decl_text(*m) + ";"@, message_ok_fn_decl_text(*m) + ";"@));
                assert(target.take(i + 1) =~= target.take(i as int).push(target[i as int]));
                assert(pair_texts(checks@) =~= target.take(i + 1));
            }
            i = i + 1;
        }
        proof {
            assert(target.take(target.len() as int) =~= target);
        }
        let sorted = sort_pairs(checks);
        join(&sorted, "\n")
    }

    /// Definitions of the health check functions for all of our RX messages; a
    /// message without a cycle time is not timed and is always ok.
    fn message_ok_fn_defs(&self) -> (r: String)
        ensures
            r@ == trimmed(message_ok_defs_text(self.spec_rx())),
    {
        let mut checks = String::new();
        let mut i: usize = 0;
        while i < self.rx_len()
            invariant
                0 <= i <= self.spec_rx().len(),
                checks@ == message_ok_defs_text(self.spec_rx().take(i as int)),
            decreases self.spec_rx().len() - i,
        {
            let m = self.rx_at(i);
            proof {
                assert(self.spec_rx()[i as int] == *m);
                assert(self.spec_rx().take(i + 1).drop_last() =~= self.spec_rx().take(i as int));
            }
            match m.cycletime {
                Some(c) => {
                    let d = self.message_ok_fn_def(m, c);
                    checks.append(d.as_str());
                },
                None => {
                    checks.append(self.message_ok_fn_decl(m).as_str());
                    checks.append(" {\n    // Message has no cycletime, so it is not checked.\n    return true;\n}\n\n");
                },
            }
            i = i + 1;
        }
        proof {
            assert(self.spec_rx().take(self.spec_rx().len() as int) =~= self.spec_rx());
        }
        trim(checks.as_str())
    }
}

impl<'n> NodeStatusCodegen for Codegen<'n> {
    /// Name of the health check function for the given node.
    fn node_ok_fn_name(&self, node: &str) -> (r: String)
        ensures
            r@ == node_ok_fn_name_text(node@),
    {
        let mut s = cat("CANRX_is_node_", node);
        s.append("_ok");
        s
    }

    /// Declaration of the health check function for the given node.
    fn node_ok_fn_decl(&self, node: &str) -> (r: String)
        ensures
            r@ == node_ok_fn_decl_text(node@),
    {
        let mut s = String::from_str("bool ");
        s.append(self.node_ok_fn_name(node).as_str());
        s.append("(void)");
        s
    }

    /// Definition of the health check function for the given node: every message we
    /// receive from it that has a cycle time must have arrived, and on time.
    fn node_ok_fn_def(&self, node: &str) -> (r: String)
        ensures
            r@ == node_ok_fn_def_text(self.spec_rx(), node@),
    {
        let mut timestamps = String::new();
        let mut checks = String::new();
        let mut i: usize = 0;
        while i < self.rx_len()
            invariant
                0 <= i <= self.spec_rx().len(),
                timestamps@ == node_timestamps_text(self.spec_rx().take(i as int), node@),
                checks@ == node_checks_text(self.spec_rx().take(i as int), node@),
            decreases self.spec_rx().len() - i,
        {
            let m = self.rx_at(i);
            proof {
                assert(self.spec_rx()[i as int] == *m);
                assert(self.spec_rx().take(i + 1).drop_last() =~= self.spec_rx().take(i as int));
            }
            let from_node = match &m.tx_node {
                Some(t) => str_eq(t.as_str(), node),
                None => false,
            };
            if from_node {
                if let Some(c) = m.cycletime {
                    let ghost t0 = timestamps@;
                    let ghost c0 = checks@;
                    timestamps.append("const uint64_t timestamp_");
                    timestamps.append(m.name.as_str());
                    timestamps.append(" = ");
                    timestamps.append(m.rx_timestamp_ident().as_str());
                    timestamps.append(";\n");
                    let mut ts = String::from_str("timestamp_");
                    ts.append(m.name.as_str());
                    checks.append("\n");
                    checks.append(ts.as_str());
                    checks.append(" != 0U && (current_time - ");
                    checks.append(ts.as_str());
                    checks.append(") <= ((");
                    push_dec(&mut checks, c as u64);
                    checks.append("U * MS_TO_US) + LATENESS_TOLERANCE_US) ");
                    checks.append("&&");
                    proof {
                        assert(checks@ =~= c0 + ("\n"@ + on_time_text(ts@, c) + "&&"@));
                    }
                }
            }
            i = i + 1;
        }
        proof {
            assert(self.spec_rx().take(self.spec_rx().len() as int) =~= self.spec_rx());
        }
        let n = checks.unicode_len();
        if n == 0 {
            let mut s = self.node_ok_fn_decl(node);
            s.append(" {\n    // No messages recieved from node `");
            s.append(node);
            s.append("` with a cycletime.\n    return true;\n}");
            return s;
        }
        proof {
            lemma_checks_end(self.spec_rx(), node@);
        }
        let stripped = checks.as_str().substring_char(0, n - 2);
        let mut s = self.node_ok_fn_decl(node);
        s.append(" {\n    // Check that each message has been recieved (ever) + that it's on time.\n");
        s.append("    const uint64_t current_time = CAN_callback_get_system_time();\n    const uint_fast16_t MS_TO_US = 1000U;\n    const uint_fast16_t LATENESS_TOLERANCE_US = 100U;\n\n");
        s.append(indent(trim(timestamps.as_str()).as_str(), 4).as_str());
        s.append("\n\n    if (\n");
        s.append(indent(trim(stripped).as_str(), 8).as_str());
        s.append("\n    ) {\n        return true;\n    }\n\n    return false;\n}");
        s
    }

    /// Declarations of the health check functions for all nodes we receive messages
    /// from, one per line, in the order of the node names.
    fn node_ok_fn_decls(&self) -> (r: String)
        ensures
            r@ == node_ok_decls_text(self.spec_rx()),
    {
        self.rx_have_senders();
        let v = self.node_entries_vec(true);
        let sorted = sort_pairs(v);
        trim(concat_all(&sorted, "\n").as_str())
    }

    /// Definitions of the health check functions for all nodes we receive messages
    /// from, in the order of the node names.
    fn node_ok_fn_defs(&self) -> (r: String)
        ensures
            r@ == node_ok_defs_text(self.spec_rx()),
    {
        self.rx_have_senders();
        let v = self.node_entries_vec(false);
        let sorted = sort_pairs(v);
        trim(concat_all(&sorted, "\n\n").as_str())
    }
}

impl<'n> Codegen<'n> {
    fn message_ok_fn_def(&self, m: &CANMessage, c: u32) -> (r: String)
        ensures
            r@ == message_ok_fn_def_text(*m, c),
    {
        let mut ts = String::from_str("const uint64_t timestamp = ");
        ts.append(m.rx_timestamp_ident().as_str());
        ts.append(";\n");
        assert(ts@ =~= "const uint64_t timestamp = "@ + "CANRX_timestamp_"@ + m.name@ + ";\n"@);
        let mut check = String::from_str("\n");
        check.append("timestamp");
        check.append(" != 0U && (current_time - ");
        check.append("timestamp");
        check.append(") <= ((");
        push_dec(&mut check, c as u64);
        check.append("U * MS_TO_US) + LATENESS_TOLERANCE_US) ");
        let mut s = self.message_ok_fn_decl(m);
        s.append(" {\n    // Check that message has been recieved (ever) + that it's on time.\n");
        s.append("    const uint64_t current_time = CAN_callback_get_system_time();\n    const uint_fast16_t MS_TO_US = 1000U;\n    const uint_fast16_t LATENESS_TOLERANCE_US = 100U;\n\n");
        s.append(indent(trim(ts.as_str()).as_str(), 4).as_str());
        s.append("\n\n    if (\n");
        s.append(indent(trim(check.as_str()).as_str(), 8).as_str());
        s.append("\n    ) {\n        return true;\n    }\n\n    return false;\n}");
        s.append("\n\n");
        proof {
            assert(check@ =~= "\n"@ + on_time_text("timestamp"@, c));
            assert(s@ =~= message_ok_fn_def_text(*m, c));
        }
        s
    }

    fn node_entries_vec(&self, decls: bool) -> (r: Vec<(String, String)>)
        requires
            forall|i: int| 0 <= i < self.spec_rx().len() ==> (#[trigger] self.spec_rx()[i]).tx_node is Some,
        ensures
            pair_texts(r@) == node_entries(self.spec_rx(), decls),
    {
        let ghost rx = self.spec_rx();
        let mut out: Vec<(String, String)> = Vec::new();
        let mut names: Vec<String> = Vec::new();
        let mut i: usize = 0;
        while i < self.rx_len()
            invariant
                0 <= i <= rx.len(),
                rx == self.spec_rx(),
                forall|k: int| 0 <= k < rx.len() ==> (#[trigger] rx[k]).tx_node is Some,
                names@.len() == out@.len(),
                forall|k: int| 0 <= k < names@.len() ==> (#[trigger] names@[k])@ == out@[k].0@,
                sending_nodes(rx.take(i as int)) == pair_texts(out@).map_values(|p: (Seq<char>, Seq<char>)| p.0),
                pair_texts(out@) == sending_nodes(rx.take(i as int)).map_values(
                    |n: Seq<char>|
                        (n, if decls {
                            node_ok_fn_decl_text(n) + ";"@
                        } else {
                            node_ok_fn_def_text(rx, n)
                        }),
                ),
            decreases rx.len() - i,
        {
            let m = self.rx_at(i);
            proof {
                assert(rx[i as int] == *m);
                assert(rx.take(i + 1).drop_last() =~= rx.take(i as int));
                assert(rx.take(i + 1).last() == rx[i as int]);
            }
            let node = match &m.tx_node {
                Some(t) => t,
                None => {
                    proof {
                        assert(rx[i as int].tx_node is Some);
                    }
                    return out;
                },
            };
            let ghost prev = sending_nodes(rx.take(i as int));
            let mut seen = false;
            let mut k: usize = 0;
            while k < names.len()
                invariant
                    0 <= k <= names@.len(),
                    names@.len() == prev.len(),
                    forall|j: int| 0 <= j < names@.len() ==> (#[trigger] names@[j])@ == prev[j],
                    seen == exists|j: int| 0 <= j < k && prev[j] == node@,
                decreases names@.len() - k,
            {
                if str_eq(names[k].as_str(), node.as_str()) {
                    seen = true;
                }
                k = k + 1;
            }
            proof {
                if prev.contains(node@) {
                    let j = choose|j: int| 0 <= j < prev.len() && prev[j] == node@;
                    assert(seen);
                }
                if seen {
                    let j = choose|j: int| 0 <= j < k && prev[j] == node@;
                    assert(prev.contains(node@));
                }
            }
            if !seen {
                let text = if decls {
                    let mut d = self.node_ok_fn_decl(node.as_str());
                    d.append(";");
                    d
                } else {
                    self.node_ok_fn_def(node.as_str())
                };
                let ghost o0 = pair_texts(out@);
                out.push((node.clone(), text));
                names.push(node.clone());
                proof {
                    assert(pair_texts(out@) =~= o0.push((node@, if decls {
                        node_ok_fn_decl_text(node@) + ";"@
                    } else {
                        node_ok_fn_def_text(rx, node@)
                    })));
                }
            }
            proof {
                let p2 = pair_texts(out@);
                assert(sending_nodes(rx.take(i + 1)) =~= p2.map_values(|p: (Seq<char>, Seq<char>)| p.0));
                assert(p2 =~= sending_nodes(rx.take(i + 1)).map_values(
                    |n: Seq<char>|
                        (n, if decls {
                            node_ok_fn_decl_text(n) + ";"@
                        } else {
                            node_ok_fn_def_text(rx, n)
                        }),
                ));
            }
            i = i + 1;
        }
        proof {
            assert(rx.take(rx.len() as int) =~= rx);
        }
        out
    }
}

/// When some message is checked for a node, its conditions end with `&&`.
proof fn lemma_checks_end(rx: Seq<CANMessage>, node: Seq<char>)
    requires
        node_checks_text(rx, node).len() > 0,
    ensures
        node_checks_text(rx, node).len() >= 2,
    decreases rx.len(),
{
    reveal_strlit("&&");
    if rx.len() > 0 {
        if !checked_for(rx.last(), node) {
            lemma_checks_end(rx.drop_last(), node);
        }
    }
}

} // verus!
