//! The generated RX header and source: the handler that dispatches a received
//! frame by id, and for each received message its structs, getters, RX function
//! and health check.

use vstd::prelude::*;
use crate::cmessage::MessageCodegen;
use crate::cmessage::{
    getters_text, message_codegen_ok, raw_struct_ty_text, rx_callback_fn_decl_text,
    rx_callback_fn_stub_text, rx_fn_def_text, signal_enums_text, struct_def_text, struct_ty_text,
};
use crate::status::{MessageStatusCodegen, NodeStatusCodegen};
use crate::codegen::{
    concat_with, greeting_text, join_text, seconds, std_includes_text, Codegen,
    CALLBACKS_H_NAME, RX_C_NAME, RX_H_NAME, TEMPLATES_H_NAME,
};
use crate::ctext::{hex_text, indent, indented, push_hex, spaces, trim, trimmed};
use crate::message::{CANMessage, CANMessageKind};
use crate::status::{message_ok_decls_text, message_ok_defs_text, node_ok_decls_text, node_ok_defs_text};

verus! {

/// The banner above the code of a received message.
pub open spec fn rx_banner_text(m: CANMessage) -> Seq<char> {
    "/*********************************************************/\n/* RX Message: "@ + m.name@
        + " */\n/*********************************************************/\n"@
}

/// Declaration of the RX handler function of message `m`.
pub open spec fn rx_fn_decl_text(m: CANMessage) -> Seq<char> {
    "bool "@ + "CANRX_doRx_"@ + m.name@ + "(\n    const uint8_t * data,\n    uint_fast8_t len\n);"@
}

/// What the RX header says of received message `m`.
pub open spec fn rx_h_message_text(m: CANMessage) -> Seq<char> {
    rx_banner_text(m) + if m.kind is Raw {
        "/* --- This is a raw message. --- */\n\n/*** RX Processing Function ***/\n"@ + rx_fn_decl_text(m)
            + ";\n\n/*** User RX Callback Function ***/\n"@ + rx_callback_fn_decl_text(m) + ";\n"@
    } else {
        "\n"@ + "/*** Signal Enums ***/\n\n"@ + signal_enums_text(m)
            + "\n\n/*** Message Structs ***/\n\n"@ + struct_def_text(m, true) + "\n\n"@
            + struct_def_text(m, false) + "\n\n/*** Signal Getters ***/\n\n"@ + trimmed(
            getters_text(m, m.signals@, false),
        ) + "\n\n/*** RX Processing Function ***/\n\n"@ + rx_fn_decl_text(m) + ";\n"@
            + if m.cycletime is None {
            "\n/*** User RX Callback Function ***/\n\n"@ + rx_callback_fn_decl_text(m) + ";\n"@
        } else {
            Seq::empty()
        }
    }
}

/// The global structs, timestamp and getters header of received message `m` in the RX source.
pub open spec fn rx_c_statics_text(m: CANMessage) -> Seq<char> {
    "/*** Message Structs ***/\n\nstatic "@ + raw_struct_ty_text(m) + " "@ + "CANRX_MessageRaw_"@
        + m.name@ + ";\nstatic "@ + struct_ty_text(m) + " "@ + "CANRX_Message_"@ + m.name@
        + ";\n\n/*** Accounting Data ***/\n\nstatic _Atomic uint64_t "@ + "CANRX_timestamp_"@
        + m.name@ + ";\n\n/*** Signal Getters ***/\n\n"@
}

/// What the RX source holds for received message `m` (not a raw one) after its banner.
pub open spec fn rx_c_decoded_text(m: CANMessage, stubs: bool) -> Seq<char> {
    "\n"@ + rx_c_statics_text(m) + trimmed(getters_text(m, m.signals@, true))
        + "\n\n/*** RX Processing Function ***/\n\n"@ + rx_fn_def_text(m) + "\n"@
        + if stubs && m.cycletime is None {
        "/*** RX Callback Stub Function */\n\n"@ + rx_callback_fn_stub_text(m) + "\n"@
    } else {
        Seq::empty()
    }
}

/// What the RX source holds for received message `m`, with or without callback stubs.
pub open spec fn rx_c_message_text(m: CANMessage, stubs: bool) -> Seq<char> {
    rx_banner_text(m) + if m.kind is Raw {
        "/* --- This is a raw message. --- */\n\n/*** RX Processing Function ***/\n"@ + rx_fn_def_text(m)
            + "\n"@ + if stubs {
            "/*** RX Callback Stub Function */\n\n"@ + rx_callback_fn_stub_text(m) + "\n"@
        } else {
            Seq::empty()
        }
    } else {
        rx_c_decoded_text(m, stubs)
    }
}

/// The RX header's (or, with `c`, source's) parts for the messages `rx`.
pub open spec fn rx_messages_text(rx: Seq<CANMessage>, c: bool, stubs: bool) -> Seq<char>
    decreases rx.len(),
{
    if rx.len() == 0 {
        Seq::empty()
    } else {
        rx_messages_text(rx.drop_last(), c, stubs) + if c {
            rx_c_message_text(rx.last(), stubs)
        } else {
            rx_h_message_text(rx.last())
        }
    }
}

/// The cases of the id lookup for the messages `rx`.
pub open spec fn rx_cases_text(rx: Seq<CANMessage>) -> Seq<char>
    decreases rx.len(),
{
    if rx.len() == 0 {
        Seq::empty()
    } else {
        rx_cases_text(rx.drop_last()) + "case 0x"@ + hex_text(rx.last().id as nat) + "U: return "@
            + "CANRX_doRx_"@ + rx.last().name@ + ";\n"@
    }
}

/// The id lookup maps the id of each received message to that message's RX
/// function: for every message of `rx` there is a case for its id that returns its
/// handler.
pub proof fn law_every_id_finds_its_handler(rx: Seq<CANMessage>, i: int)
    requires
        0 <= i < rx.len(),
    ensures
        crate::status::holds_text(
            rx_cases_text(rx),
            "case 0x"@ + hex_text(rx[i].id as nat) + "U: return CANRX_doRx_"@ + rx[i].name@ + ";\n"@,
        ),
    decreases rx.len(),
{
    let line = "case 0x"@ + hex_text(rx[i].id as nat) + "U: return CANRX_doRx_"@ + rx[i].name@ + ";\n"@;
    let last = "case 0x"@ + hex_text(rx.last().id as nat) + "U: return "@ + "CANRX_doRx_"@ + rx.last().name@
        + ";\n"@;
    assert(rx_cases_text(rx) =~= rx_cases_text(rx.drop_last()) + last);
    if i == rx.len() - 1 {
        assert(last =~= line) by {
            reveal_strlit("U: return CANRX_doRx_");
            reveal_strlit("U: return ");
            reveal_strlit("CANRX_doRx_");
        }
        assert(rx_cases_text(rx) =~= rx_cases_text(rx.drop_last()) + line + Seq::<char>::empty());
    } else {
        law_every_id_finds_its_handler(rx.drop_last(), i);
        assert(rx.drop_last()[i] == rx[i]);
        let (a, b) = choose|a: Seq<char>, b: Seq<char>| rx_cases_text(rx.drop_last()) == a + line + b;
        assert(rx_cases_text(rx) =~= a + line + (b + last));
    }
}

/// The function that maps an id to the RX function of its message.
pub open spec fn rx_id_lookup_text(rx: Seq<CANMessage>) -> Seq<char> {
    "rx_fn_ptr CANRX_id_to_rx_fn(const uint32_t id)\n{\n    switch (id) {\n"@ + indented(
        trimmed(rx_cases_text(rx)),
        spaces(8),
    ) + "\n        default:\n            return NULL;\n    }\n}"@
}

/// The RX header, given the health check declarations of the nodes and of the messages.
pub open spec fn rx_h_text(cg: Codegen) -> Seq<char> {
    greeting_text(cg, RX_H_NAME@) + "\n\n#ifndef OPENCAN_RX_H\n#define OPENCAN_RX_H\n\n"@
        + std_includes_text() + "\n\n#include \""@ + TEMPLATES_H_NAME@
        + "\"\n\n/*********************************************************/\n/* Primary Rx Handler Function */\n/*********************************************************/\n\nvoid CANRX_handle_rx(uint32_t id, uint8_t * data, uint8_t len);\n\n/*********************************************************/\n/* ID-to-Rx-Function Lookup */\n/*********************************************************/\n\ntypedef bool (*rx_fn_ptr)(const uint8_t * data, uint_fast8_t len);\nrx_fn_ptr CANRX_id_to_rx_fn(uint32_t id);\n\n"@
        + trimmed(rx_messages_text(cg.spec_rx(), false, cg.spec_rx_callback_stubs()))
        + "\n\n/*********************************************************/\n/* Node Health Checks */\n/*********************************************************/\n\n"@
        + node_ok_decls_text(cg.spec_rx())
        + "\n\n/*********************************************************/\n/* Message Health Checks */\n/*********************************************************/\n\n"@
        + message_ok_decls_text(cg.spec_rx()) + "\n\n#endif\n"@
}

/// The RX source, given the health check definitions of the nodes.
pub open spec fn rx_c_text(cg: Codegen) -> Seq<char> {
    greeting_text(cg, RX_C_NAME@) + "\n\n"@ + std_includes_text() + "\n\n#include \""@ + RX_H_NAME@
        + "\"\n#include \""@ + CALLBACKS_H_NAME@
        + "\"\n\n/*********************************************************/\n/* Primary Rx Handler Function */\n/*********************************************************/\n\nvoid CANRX_handle_rx(const uint32_t id, uint8_t * const data, const uint8_t len) {\n    const rx_fn_ptr rx_fn = CANRX_id_to_rx_fn(id);\n\n    if (rx_fn) {\n        rx_fn(data, len);\n    }\n}\n\n/*********************************************************/\n/* ID-to-Rx-Function Lookup */\n/*********************************************************/\n\n"@
        + rx_id_lookup_text(cg.spec_rx()) + "\n\n"@ + trimmed(
        rx_messages_text(cg.spec_rx(), true, cg.spec_rx_callback_stubs()),
    )
        + "\n\n/*********************************************************/\n/* Node Health Checks */\n/*********************************************************/\n\n"@
        + node_ok_defs_text(cg.spec_rx())
        + "\n\n/*********************************************************/\n/* Message Health Checks */\n/*********************************************************/\n\n"@
        + trimmed(message_ok_defs_text(cg.spec_rx())) + "\n"@
}

impl<'n> Codegen<'n> {
    fn rx_h_message(&self, msg: &CANMessage) -> (r: String)
        requires
            message_codegen_ok(*msg),
        ensures
            r@ == rx_h_message_text(*msg),
    {
        let mut s = String::from_str("/*********************************************************/\n/* RX Message: ");
        s.append(msg.name.as_str());
        s.append(" */\n/*********************************************************/\n");
        if let CANMessageKind::Raw = msg.kind {
            s.append("/* --- This is a raw message. --- */\n\n/*** RX Processing Function ***/\n");
            s.append(msg.rx_fn_decl().as_str());
            s.append(";\n\n/*** User RX Callback Function ***/\n");
            s.append(msg.rx_callback_fn_decl().as_str());
            s.append(";\n");
            return s;
        }
        s.append("\n");
        s.append("/*** Signal Enums ***/\n\n");
        s.append(msg.signal_enums().as_str());
        s.append("\n\n/*** Message Structs ***/\n\n");
        s.append(msg.raw_struct_def().as_str());
        s.append("\n\n");
        s.append(msg.struct_def().as_str());
        s.append("\n\n/*** Signal Getters ***/\n\n");
        s.append(msg.getter_fn_decls().as_str());
        s.append("\n\n/*** RX Processing Function ***/\n\n");
        s.append(msg.rx_fn_decl().as_str());
        s.append(";\n");
        if msg.cycletime.is_none() {
            s.append("\n/*** User RX Callback Function ***/\n\n");
            s.append(msg.rx_callback_fn_decl().as_str());
            s.append(";\n");
        }
        s
    }

    fn rx_c_statics(&self, msg: &CANMessage) -> (r: String)
        ensures
            r@ == rx_c_statics_text(*msg),
    {
        let mut s = String::from_str("/*** Message Structs ***/\n\nstatic ");
        s.append(msg.raw_struct_ty().as_str());
        s.append(" ");
        s.append(msg.global_raw_struct_ident().as_str());
        s.append(";\nstatic ");
        s.append(msg.struct_ty().as_str());
        s.append(" ");
        s.append(msg.global_struct_ident().as_str());
        s.append(";\n\n/*** Accounting Data ***/\n\nstatic _Atomic uint64_t ");
        s.append(msg.rx_timestamp_ident().as_str());
        s.append(";\n\n/*** Signal Getters ***/\n\n");
        s
    }

    fn rx_c_decoded(&self, msg: &CANMessage, stubs: bool) -> (r: String)
        requires
            message_codegen_ok(*msg),
        ensures
            r@ == rx_c_decoded_text(*msg, stubs),
    {
        let statics = self.rx_c_statics(msg);
        let getters = msg.getter_fn_defs();
        let def = msg.rx_fn_def();
        let mut s = String::from_str("\n");
        s.append(statics.as_str());
        s.append(getters.as_str());
        s.append("\n\n/*** RX Processing Function ***/\n\n");
        s.append(def.as_str());
        s.append("\n");
        if stubs && msg.cycletime.is_none() {
            s.append("/*** RX Callback Stub Function */\n\n");
            s.append(msg.rx_callback_fn_stub().as_str());
            s.append("\n");
        }
        s
    }

    fn rx_c_message(&self, msg: &CANMessage, stubs: bool) -> (r: String)
        requires
            message_codegen_ok(*msg),
        ensures
            r@ == rx_c_message_text(*msg, stubs),
    {
        let mut s = String::from_str("/*********************************************************/\n/* RX Message: ");
        s.append(msg.name.as_str());
        s.append(" */\n/*********************************************************/\n");
        if let CANMessageKind::Raw = msg.kind {
            s.append("/* --- This is a raw message. --- */\n\n/*** RX Processing Function ***/\n");
            s.append(msg.rx_fn_def().as_str());
            s.append("\n");
            if stubs {
                s.append("/*** RX Callback Stub Function */\n\n");
                s.append(msg.rx_callback_fn_stub().as_str());
                s.append("\n");
            }
            return s;
        }
        s.append(self.rx_c_decoded(msg, stubs).as_str());
        s
    }

    fn rx_messages(&self, c: bool) -> (r: String)
        requires
            self.ready(),
        ensures
            r@ == rx_messages_text(self.spec_rx(), c, self.spec_rx_callback_stubs()),
    {
        let stubs = self.rx_callback_stubs();
        let mut s = String::new();
        let mut i: usize = 0;
        while i < self.rx_len()
            invariant
                self.ready(),
                0 <= i <= self.spec_rx().len(),
                stubs == self.spec_rx_callback_stubs(),
                s@ == rx_messages_text(self.spec_rx().take(i as int), c, stubs),
            decreases self.spec_rx().len() - i,
        {
            let m = self.rx_at(i);
            let t = if c {
                self.rx_c_message(m, stubs)
            } else {
                self.rx_h_message(m)
            };
            s.append(t.as_str());
            proof {
                let rx = self.spec_rx();
                assert(rx.take(i + 1).drop_last() =~= rx.take(i as int));
                assert(rx.take(i + 1).last() == rx[i as int]);
            }
            i = i + 1;
        }
        proof {
            assert(self.spec_rx().take(self.spec_rx().len() as int) =~= self.spec_rx());
        }
        s
    }

    /// Message ID to decode function pointer mapping.
    pub fn rx_id_to_decode_fn(&self) -> (r: String)
        ensures
            r@ == rx_id_lookup_text(self.spec_rx()),
    {
        let mut cases = String::new();
        let mut i: usize = 0;
        while i < self.rx_len()
            invariant
                0 <= i <= self.spec_rx().len(),
                cases@ == rx_cases_text(self.spec_rx().take(i as int)),
            decreases self.spec_rx().len() - i,
        {
            let m = self.rx_at(i);
            let ghost c0 = cases@;
            let mut line = String::from_str("case 0x");
            push_hex(&mut line, m.id as u64);
            line.append("U: return ");
            line.append(m.rx_fn_name().as_str());
            line.append(";\n");
            assert(line@ =~= "case 0x"@ + hex_text(m.id as nat) + "U: return "@ + "CANRX_doRx_"@ + m.name@ + ";\n"@);
            cases.append(line.as_str());
            proof {
                let rx = self.spec_rx();
                assert(rx.take(i + 1).drop_last() =~= rx.take(i as int));
                assert(rx.take(i + 1).last() == rx[i as int]);
                assert(cases@ =~= c0 + "case 0x"@ + hex_text(m.id as nat) + "U: return "@
                    + "CANRX_doRx_"@ + m.name@ + ";\n"@);
            }
            i = i + 1;
        }
        proof {
            assert(self.spec_rx().take(self.spec_rx().len() as int) =~= self.spec_rx());
        }
        let mut s = String::from_str("rx_fn_ptr CANRX_id_to_rx_fn(const uint32_t id)\n{\n    switch (id) {\n");
        s.append(indent(trim(cases.as_str()).as_str(), 8).as_str());
        s.append("\n        default:\n            return NULL;\n    }\n}");
        s
    }

    /// The RX header: the RX handler and id lookup, then for each received message
    /// its enumerations, structs, getters and RX function, then the health checks.
    pub fn rx_h(&self) -> (r: String)
        requires
            self.ready(),
        ensures
            r@ == rx_h_text(*self),
    {
        let mut s = self.internal_prelude_greeting(RX_H_NAME);
        s.append("\n\n#ifndef OPENCAN_RX_H\n#define OPENCAN_RX_H\n\n");
        s.append(Self::common_std_includes().as_str());
        s.append("\n\n#include \"");
        s.append(TEMPLATES_H_NAME);
        s.append("\"\n\n/*********************************************************/\n/* Primary Rx Handler Function */\n/*********************************************************/\n\nvoid CANRX_handle_rx(uint32_t id, uint8_t * data, uint8_t len);\n\n/*********************************************************/\n/* ID-to-Rx-Function Lookup */\n/*********************************************************/\n\ntypedef bool (*rx_fn_ptr)(const uint8_t * data, uint_fast8_t len);\nrx_fn_ptr CANRX_id_to_rx_fn(uint32_t id);\n\n");
        s.append(trim(self.rx_messages(false).as_str()).as_str());
        s.append("\n\n/*********************************************************/\n/* Node Health Checks */\n/*********************************************************/\n\n");
        let nc = self.node_ok_fn_decls();
        s.append(nc.as_str());
        s.append("\n\n/*********************************************************/\n/* Message Health Checks */\n/*********************************************************/\n\n");
        let mc = self.message_ok_fn_decls();
        s.append(mc.as_str());
        s.append("\n\n#endif\n");
        proof {
            assert(s@ =~= rx_h_text(*self));
        }
        s
    }

    /// The RX source: the RX handler and id lookup, then for each received message
    /// its global structs, timestamp, getters and RX function, then the health checks.
    pub fn rx_c(&self) -> (r: String)
        requires
            self.ready(),
        ensures
            r@ == rx_c_text(*self),
    {
        let mut s = self.internal_prelude_greeting(RX_C_NAME);
        s.append("\n\n");
        s.append(Self::common_std_includes().as_str());
        s.append("\n\n#include \"");
        s.append(RX_H_NAME);
        s.append("\"\n#include \"");
        s.append(CALLBACKS_H_NAME);
        s.append("\"\n\n/*********************************************************/\n/* Primary Rx Handler Function */\n/*********************************************************/\n\nvoid CANRX_handle_rx(const uint32_t id, uint8_t * const data, const uint8_t len) {\n    const rx_fn_ptr rx_fn = CANRX_id_to_rx_fn(id);\n\n    if (rx_fn) {\n        rx_fn(data, len);\n    }\n}\n\n/*********************************************************/\n/* ID-to-Rx-Function Lookup */\n/*********************************************************/\n\n");
        s.append(self.rx_id_to_decode_fn().as_str());
        s.append("\n\n");
        s.append(trim(self.rx_messages(true).as_str()).as_str());
        s.append("\n\n/*********************************************************/\n/* Node Health Checks */\n/*********************************************************/\n\n");
        let nc = self.node_ok_fn_defs();
        s.append(nc.as_str());
        s.append("\n\n/*********************************************************/\n/* Message Health Checks */\n/*********************************************************/\n\n");
        s.append(self.message_ok_fn_defs().as_str());
        s.append("\n");
        proof {
            assert(s@ =~= rx_c_text(*self));
        }
        s
    }
}

} // verus!
