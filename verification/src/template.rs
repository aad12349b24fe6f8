//! Message templates: a layout of signals that several messages share.

use vstd::prelude::*;
use crate::error::CANConstructionError;
use crate::message::{
    CANMessage, CANMessageBuilder, CANMessageKind, MessageBuilderView, first_bad_char, length_for,
    name_chars_ok, prefix_signal_names, prefixed_views, sig_views, texts, run_auto, run_fixed,
    auto_items_no_overflow, fixed_items_no_overflow, add_error_matches, next_free_bit,
    fixed_no_overflow, fixed_outcome, appended,
};
use crate::signal::CANSignal;

verus! {

/// A template of a CAN message.
pub struct CANMessageTemplate(CANMessageTemplateBuilder);

/// Builder of a [`CANMessageTemplate`].
pub struct CANMessageTemplateBuilder {
    name: String,
    msg_builder: CANMessageBuilder,
}

/// Mathematical model of a template (builder): its name and the message builder it holds.
pub struct TemplateView {
    pub name: Seq<char>,
    pub builder: MessageBuilderView,
}

impl View for CANMessageTemplateBuilder {
    type V = TemplateView;

    closed spec fn view(&self) -> TemplateView {
        TemplateView { name: self.name@, builder: self.msg_builder@ }
    }
}

impl View for CANMessageTemplate {
    type V = TemplateView;

    closed spec fn view(&self) -> TemplateView {
        self.0@
    }
}

impl CANMessageTemplate {
    /// Make a message from this template: the template's signals, each name preceded
    /// by `signal_prefix`, at the same start bits; the template's cycle time unless
    /// `cycletime` is given. The message name must be valid as for
    /// [`CANMessageBuilder::build`].
    pub fn instance(
        &self,
        name: &str,
        id: u32,
        cycletime: Option<u32>,
        signal_prefix: &str,
        tx_node: Option<&str>,
    ) -> (r: Result<CANMessage, CANConstructionError>)
        ensures
            name@.len() == 0 ==> (r matches Err(CANConstructionError::MessageNameEmpty)),
            name@.len() > 0 && !name_chars_ok(name@) ==> (r matches Err(
                CANConstructionError::MessageNameInvalidChar(n, c),
            ) && n@ == name@ && first_bad_char(name@, c)),
            name@.len() > 0 && name_chars_ok(name@) ==> (r matches Ok(m) && {
                let b = self@.builder;
                &&& m.name@ == name@
                &&& m.id == id
                &&& m.cycletime == (match cycletime {
                    Some(c) => Some(c),
                    None => match b.cycletime {
                        Some(c) => c,
                        None => None,
                    },
                })
                &&& crate::signal::opt_text(m.tx_node) == (match tx_node {
                    Some(t) => Some(t@),
                    None => b.tx_node,
                })
                &&& texts(m.rx_nodes@) == b.rx_nodes
                &&& (m.kind matches CANMessageKind::FromTemplate(tn) && tn@ == self@.name)
                &&& m.length == length_for(b.signals)
                &&& sig_views(m.signals@) == prefixed_views(sig_views(b.signals), signal_prefix@)
                &&& m.wf()
            }),
    {
        let msg = self.0.msg_builder.copy().kind(CANMessageKind::FromTemplate(self.0.name.clone())).name(
            name,
        ).id(id);
        let msg = match cycletime {
            Some(c) => msg.cycletime(Some(c)),
            None => msg,
        };
        let msg = match tx_node {
            Some(n) => msg.tx_node(n),
            None => msg,
        };
        let ghost bsig = msg@.signals;
        let msg = match msg.build() {
            Ok(m) => m,
            Err(e) => {
                return Err(e);
            },
        };
        proof {
            crate::message::lemma_sig_views_layout(bsig, self@.builder.signals);
        }
        let signals = prefix_signal_names(&msg.signals, signal_prefix);
        let CANMessage { name, id, cycletime, length, tx_node, rx_nodes, signals: _, kind } = msg;
        Ok(CANMessage { name, id, cycletime, length, tx_node, rx_nodes, signals, kind })
    }

    /// Name of this template.
    pub fn name(&self) -> (r: &str)
        ensures
            r@ == self@.name,
    {
        self.0.name.as_str()
    }
}

impl CANMessageTemplateBuilder {
    /// A template named `name` without signals (its message builder holds a
    /// placeholder name and id).
    pub fn new(name: &str) -> (b: CANMessageTemplateBuilder)
        ensures
            b@.name == name@,
            b@.builder == (MessageBuilderView {
                name: Some("__template"@),
                id: Some(0u32),
                ..MessageBuilderView::empty(CANMessageKind::Independent)
            }),
    {
        CANMessageTemplateBuilder {
            name: String::from_str(name),
            msg_builder: CANMessage::builder().name("__template").id(0),
        }
    }

    /// The finished template.
    pub fn build(self) -> (t: CANMessageTemplate)
        ensures
            t@ == self@,
    {
        CANMessageTemplate(self)
    }

    /// Set the template's cycle time in milliseconds.
    pub fn cycletime(self, cycletime: u32) -> (b: CANMessageTemplateBuilder)
        ensures
            b@ == (TemplateView {
                builder: MessageBuilderView { cycletime: Some(Some(cycletime)), ..self@.builder },
                ..self@
            }),
    {
        CANMessageTemplateBuilder { name: self.name, msg_builder: self.msg_builder.cycletime(Some(cycletime)) }
    }

    /// Add a signal with the next available start bit
    /// (see [`CANMessageBuilder::add_signal`]).
    pub fn add_signal(self, sig: CANSignal) -> (r: Result<CANMessageTemplateBuilder, CANConstructionError>)
        requires
            fixed_no_overflow(self@.builder.signals, next_free_bit(self@.builder.signals) as u32, sig),
        ensures
            r matches Ok(b) ==> b@.name == self@.name,
            fixed_outcome(self@.builder.signals, next_free_bit(self@.builder.signals) as u32, sig) is Added
                ==> (r matches Ok(b) && b@ == (TemplateView {
                builder: MessageBuilderView {
                    signals: appended(
                        self@.builder.signals,
                        next_free_bit(self@.builder.signals) as u32,
                        sig,
                    ),
                    ..self@.builder
                },
                ..self@
            })),
            !(fixed_outcome(self@.builder.signals, next_free_bit(self@.builder.signals) as u32, sig) is Added)
                ==> (r matches Err(e) && add_error_matches(
                e,
                self@.builder.signals,
                next_free_bit(self@.builder.signals) as u32,
                sig,
            )),
    {
        let CANMessageTemplateBuilder { name, msg_builder } = self;
        match msg_builder.add_signal(sig) {
            Ok(b) => Ok(CANMessageTemplateBuilder { name, msg_builder: b }),
            Err(e) => Err(e),
        }
    }

    /// Add a signal at a given start bit (see [`CANMessageBuilder::add_signal_fixed`]).
    pub fn add_signal_fixed(self, bit: u32, sig: CANSignal) -> (r: Result<
        CANMessageTemplateBuilder,
        CANConstructionError,
    >)
        requires
            fixed_no_overflow(self@.builder.signals, bit, sig),
        ensures
            r matches Ok(b) ==> b@.name == self@.name,
            fixed_outcome(self@.builder.signals, bit, sig) is Added ==> (r matches Ok(b) && b@ == (
            TemplateView {
                builder: MessageBuilderView {
                    signals: appended(self@.builder.signals, bit, sig),
                    ..self@.builder
                },
                ..self@
            })),
            !(fixed_outcome(self@.builder.signals, bit, sig) is Added) ==> (r matches Err(e)
                && add_error_matches(e, self@.builder.signals, bit, sig)),
    {
        let CANMessageTemplateBuilder { name, msg_builder } = self;
        match msg_builder.add_signal_fixed(bit, sig) {
            Ok(b) => Ok(CANMessageTemplateBuilder { name, msg_builder: b }),
            Err(e) => Err(e),
        }
    }

    /// Add signals back-to-back (see [`CANMessageBuilder::add_signals`]).
    pub fn add_signals(self, sigs: Vec<CANSignal>) -> (r: Result<
        CANMessageTemplateBuilder,
        CANConstructionError,
    >)
        requires
            auto_items_no_overflow(self@.builder.signals, sigs@),
        ensures
            r matches Ok(b) ==> b@.name == self@.name,
            run_auto(self@.builder.signals, sigs@).1 is None ==> (r matches Ok(b) && b@ == (
            TemplateView {
                builder: MessageBuilderView {
                    signals: run_auto(self@.builder.signals, sigs@).0,
                    ..self@.builder
                },
                ..self@
            })),
            run_auto(self@.builder.signals, sigs@).1 matches Some(k) ==> (r matches Err(e)
                && add_error_matches(
                e,
                run_auto(self@.builder.signals, sigs@).0,
                next_free_bit(run_auto(self@.builder.signals, sigs@).0) as u32,
                sigs@[k],
            )),
    {
        let CANMessageTemplateBuilder { name, msg_builder } = self;
        match msg_builder.add_signals(sigs) {
            Ok(b) => Ok(CANMessageTemplateBuilder { name, msg_builder: b }),
            Err(e) => Err(e),
        }
    }

    /// Add signals at given start bits (see [`CANMessageBuilder::add_signals_fixed`]).
    pub fn add_signals_fixed(self, sigs: Vec<(u32, CANSignal)>) -> (r: Result<
        CANMessageTemplateBuilder,
        CANConstructionError,
    >)
        requires
            fixed_items_no_overflow(self@.builder.signals, sigs@),
        ensures
            r matches Ok(b) ==> b@.name == self@.name,
            run_fixed(self@.builder.signals, sigs@).1 is None ==> (r matches Ok(b) && b@ == (
            TemplateView {
                builder: MessageBuilderView {
                    signals: run_fixed(self@.builder.signals, sigs@).0,
                    ..self@.builder
                },
                ..self@
            })),
            run_fixed(self@.builder.signals, sigs@).1 matches Some(k) ==> (r matches Err(e)
                && add_error_matches(
                e,
                run_fixed(self@.builder.signals, sigs@).0,
                sigs@[k].0,
                sigs@[k].1,
            )),
    {
        let CANMessageTemplateBuilder { name, msg_builder } = self;
        match msg_builder.add_signals_fixed(sigs) {
            Ok(b) => Ok(CANMessageTemplateBuilder { name, msg_builder: b }),
            Err(e) => Err(e),
        }
    }
}

} // verus!
