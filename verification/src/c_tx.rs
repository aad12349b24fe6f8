//! The generated TX header and source: for each transmitted message its id,
//! structs, populate function and TX function, and the scheduler that sends the
//! periodic messages.

use vstd::prelude::*;
use crate::cmessage::MessageCodegen;
use crate::cmessage::{
    message_codegen_ok, populate_ok, signal_enums_text, struct_def_text, tx_fn_def_text,
    tx_populate_fn_decl_text,
};
use crate::codegen::{greeting_text, std_includes_text, Codegen, CALLBACKS_H_NAME, TEMPLATES_H_NAME, TX_C_NAME, TX_H_NAME};
use crate::ctext::{dec_text, hex_text, indent, indented, push_dec, push_hex, spaces, trim, trimmed};
use crate::message::{CANMessage, CANMessageKind};
use crate::cmessage::ds;

verus! {

/// Declaration of the TX handler function of message `m`.
pub open spec fn tx_fn_decl_text(m: CANMessage) -> Seq<char> {
    "bool "@ + "CANTX_doTx_"@ + m.name@ + "(uint8_t *data_out, uint8_t *len_out)"@
}

/// What the TX header says of transmitted message `m`.
pub open spec fn tx_h_message_text(m: CANMessage) -> Seq<char> {
    "/*********************************************************/\n/* TX Message: "@ + m.name@
        + " */\n/*********************************************************/\n\n/*** Message ID ***/\n#define CAN_MSG_"@
        + m.name@ + "_ID 0x"@ + hex_text(m.id as nat) + "U\n\n"@ + if m.kind is Raw {
        "/* --- This is a raw message. --- */\n\n/*** User-provided Populate Function ***/\n\n"@
            + tx_populate_fn_decl_text(m) + ";\n\n/*** TX Processing Function ***/\n"@
            + tx_fn_decl_text(m) + ";\n"@
    } else {
        "/*** Signal Enums ***/\n\n"@ + signal_enums_text(m) + "\n\n/*** Message Structs ***/\n\n"@
            + struct_def_text(m, true) + "\n\n"@ + struct_def_text(m, false)
            + "\n\n/*** User-provided Populate Function ***/\n\n"@ + tx_populate_fn_decl_text(m)
            + ";\n\n/*** TX Processing Function ***/\n\n"@ + tx_fn_decl_text(m) + ";\n\n"@
    }
}

/// What the TX source holds for transmitted message `m`, with or without a stub.
pub open spec fn tx_c_message_text(m: CANMessage, stubs: bool) -> Seq<char> {
    "/*********************************************************/\n/* TX Message: "@ + m.name@
        + " */\n/*********************************************************/\n\n/*** TX Processing Function ***/\n\n"@
        + tx_fn_def_text(m) + "\n\n"@ + if stubs {
        "/*** TX Stub Function ***/\n\n"@ + "__attribute__((weak)) "@ + tx_populate_fn_decl_text(m)
            + " {\n    (void)m;\n}"@ + "\n\n"@
    } else {
        Seq::empty()
    }
}

/// The TX header's (or, with `c`, source's) parts for the messages `tx`.
pub open spec fn tx_messages_text(tx: Seq<CANMessage>, c: bool, stubs: bool) -> Seq<char>
    decreases tx.len(),
{
    if tx.len() == 0 {
        Seq::empty()
    } else {
        tx_messages_text(tx.drop_last(), c, stubs) + if c {
            tx_c_message_text(tx.last(), stubs)
        } else {
            tx_h_message_text(tx.last())
        }
    }
}

/// The scheduler's lines for the messages `tx` with a cycle time; each message's
/// index in the whole list shifts its phase.
pub open spec fn schedule_lines_text(tx: Seq<CANMessage>) -> Seq<char>
    decreases tx.len(),
{
    if tx.len() == 0 {
        Seq::empty()
    } else {
        schedule_lines_text(tx.drop_last()) + match tx.last().cycletime {
            Some(c) => "if (((ms + "@ + dec_text((tx.len() - 1) as nat) + "U) % "@ + ds(c)
                + "U) == 0U) {\n    "@ + "CANTX_doTx_"@ + tx.last().name@ + "();\n}\n\n"@,
            None => Seq::empty(),
        }
    }
}

/// The TX scheduler, called every millisecond.
pub open spec fn tx_scheduler_text(tx: Seq<CANMessage>) -> Seq<char> {
    "/*********************************************************/\n/* TX Scheduler */\n/*********************************************************/\n\nvoid CANTX_scheduler_1kHz(void) {\n    static uint32_t ms;\n    ms++;\n\n"@
        + indented(trimmed(schedule_lines_text(tx)), spaces(4)) + "\n}"@
}

/// The TX header.
pub open spec fn tx_h_text(cg: Codegen) -> Seq<char> {
    greeting_text(cg, TX_H_NAME@) + "\n\n#ifndef OPENCAN_TX_H\n#define OPENCAN_TX_H\n\n"@
        + std_includes_text() + "\n\n#include \""@ + TEMPLATES_H_NAME@
        + "\"\n\n// todo comment\nvoid CANTX_scheduler_1kHz(void);\n\n"@ + trimmed(
        tx_messages_text(cg.spec_tx(), false, cg.spec_tx_stubs()),
    ) + "\n\n#endif\n"@
}

/// The TX source.
pub open spec fn tx_c_text(cg: Codegen) -> Seq<char> {
    greeting_text(cg, TX_C_NAME@) + "\n\n"@ + std_includes_text() + "\n\n#include \""@ + TX_H_NAME@
        + "\"\n#include \""@ + CALLBACKS_H_NAME@ + "\"\n\n\n"@ + tx_scheduler_text(cg.spec_tx())
        + "\n\n"@ + trimmed(tx_messages_text(cg.spec_tx(), true, cg.spec_tx_stubs())) + "\n"@
}

impl<'n> Codegen<'n> {
    fn tx_h_message(&self, msg: &CANMessage) -> (r: String)
        requires
            message_codegen_ok(*msg),
            populate_ok(*msg),
        ensures
            r@ == tx_h_message_text(*msg),
    {
        let mut s = String::from_str("/*********************************************************/\n/* TX Message: ");
        s.append(msg.name.as_str());
        s.append(" */\n/*********************************************************/\n\n/*** Message ID ***/\n#define CAN_MSG_");
        s.append(msg.name.as_str());
        s.append("_ID 0x");
        push_hex(&mut s, msg.id as u64);
        s.append("U\n\n");
        let ghost head = s@;
        if let CANMessageKind::Raw = msg.kind {
            let mut t = String::from_str("/* --- This is a raw message. --- */\n\n/*** User-provided Populate Function ***/\n\n");
            t.append(msg.tx_populate_fn_decl().as_str());
            t.append(";\n\n/*** TX Processing Function ***/\n");
            t.append(msg.tx_fn_decl().as_str());
            t.append(";\n");
            s.append(t.as_str());
            return s;
        }
        let mut t = String::from_str("/*** Signal Enums ***/\n\n");
        t.append(msg.signal_enums().as_str());
        t.append("\n\n/*** Message Structs ***/\n\n");
        t.append(msg.raw_struct_def().as_str());
        t.append("\n\n");
        t.append(msg.struct_def().as_str());
        t.append("\n\n/*** User-provided Populate Function ***/\n\n");
        t.append(msg.tx_populate_fn_decl().as_str());
        t.append(";\n\n/*** TX Processing Function ***/\n\n");
        t.append(msg.tx_fn_decl().as_str());
        t.append(";\n\n");
        s.append(t.as_str());
        s
    }

    fn tx_c_message(&self, msg: &CANMessage, stubs: bool) -> (r: String)
        requires
            message_codegen_ok(*msg),
            populate_ok(*msg),
        ensures
            r@ == tx_c_message_text(*msg, stubs),
    {
        let mut s = String::from_str("/*********************************************************/\n/* TX Message: ");
        s.append(msg.name.as_str());
        s.append(" */\n/*********************************************************/\n\n/*** TX Processing Function ***/\n\n");
        s.append(msg.tx_fn_def().as_str());
        s.append("\n\n");
        if stubs {
            s.append("/*** TX Stub Function ***/\n\n");
            s.append(msg.tx_stub().as_str());
            s.append("\n\n");
        }
        s
    }

    fn tx_messages(&self, c: bool) -> (r: String)
        requires
            self.ready(),
        ensures
            r@ == tx_messages_text(self.spec_tx(), c, self.spec_tx_stubs()),
    {
        let stubs = self.tx_stubs();
        let mut s = String::new();
        let mut i: usize = 0;
        while i < self.tx_len()
            invariant
                self.ready(),
                0 <= i <= self.spec_tx().len(),
                stubs == self.spec_tx_stubs(),
                s@ == tx_messages_text(self.spec_tx().take(i as int), c, stubs),
            decreases self.spec_tx().len() - i,
        {
            let m = self.tx_at(i);
            let t = if c {
                self.tx_c_message(m, stubs)
            } else {
                self.tx_h_message(m)
            };
            s.append(t.as_str());
            proof {
                let tx = self.spec_tx();
                assert(tx.take(i + 1).drop_last() =~= tx.take(i as int));
                assert(tx.take(i + 1).last() == tx[i as int]);
            }
            i = i + 1;
        }
        proof {
            assert(self.spec_tx().take(self.spec_tx().len() as int) =~= self.spec_tx());
        }
        s
    }

    /// The TX scheduler: every millisecond, each message with a cycle time is sent
    /// when the count of milliseconds, shifted by the message's index, is a multiple
    /// of its cycle time.
    pub fn tx_scheduler(&self) -> (r: String)
        ensures
            r@ == tx_scheduler_text(self.spec_tx()),
    {
        let mut lines = String::new();
        let mut i: usize = 0;
        while i < self.tx_len()
            invariant
                0 <= i <= self.spec_tx().len(),
                lines@ == schedule_lines_text(self.spec_tx().take(i as int)),
            decreases self.spec_tx().len() - i,
        {
            let m = self.tx_at(i);
            proof {
                let tx = self.spec_tx();
                assert(tx.take(i + 1).drop_last() =~= tx.take(i as int));
                assert(tx.take(i + 1).last() == tx[i as int]);
            }
            if let Some(c) = m.cycletime {
                let mut t = String::from_str("if (((ms + ");
                push_dec(&mut t, i as u64);
                t.append("U) % ");
                push_dec(&mut t, c as u64);
                t.append("U) == 0U) {\n    ");
                t.append(m.tx_fn_name().as_str());
                t.append("();\n}\n\n");
                lines.append(t.as_str());
            }
            i = i + 1;
        }
        proof {
            assert(self.spec_tx().take(self.spec_tx().len() as int) =~= self.spec_tx());
        }
        let mut s = String::from_str("/*********************************************************/\n/* TX Scheduler */\n/*********************************************************/\n\nvoid CANTX_scheduler_1kHz(void) {\n    static uint32_t ms;\n    ms++;\n\n");
        s.append(indent(trim(lines.as_str()).as_str(), 4).as_str());
        s.append("\n}");
        s
    }

    /// The TX header: for each transmitted message its id, enumerations, structs,
    /// populate function declaration and TX function declaration.
    pub fn tx_h(&self) -> (r: String)
        requires
            self.ready(),
        ensures
            r@ == tx_h_text(*self),
    {
        let mut s = self.internal_prelude_greeting(TX_H_NAME);
        s.append("\n\n#ifndef OPENCAN_TX_H\n#define OPENCAN_TX_H\n\n");
        s.append(Self::common_std_includes().as_str());
        s.append("\n\n#include \"");
        s.append(TEMPLATES_H_NAME);
        s.append("\"\n\n// todo comment\nvoid CANTX_scheduler_1kHz(void);\n\n");
        s.append(trim(self.tx_messages(false).as_str()).as_str());
        s.append("\n\n#endif\n");
        s
    }

    /// The TX source: the scheduler, then for each transmitted message its TX
    /// function (and, if asked for, a stub populate function).
    pub fn tx_c(&self) -> (r: String)
        requires
            self.ready(),
        ensures
            r@ == tx_c_text(*self),
    {
        let mut s = self.internal_prelude_greeting(TX_C_NAME);
        s.append("\n\n");
        s.append(Self::common_std_includes().as_str());
        s.append("\n\n#include \"");
        s.append(TX_H_NAME);
        s.append("\"\n#include \"");
        s.append(CALLBACKS_H_NAME);
        s.append("\"\n\n\n");
        s.append(self.tx_scheduler().as_str());
        s.append("\n\n");
        s.append(trim(self.tx_messages(true).as_str()).as_str());
        s.append("\n");
        s
    }
}

} // verus!
