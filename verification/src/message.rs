//! Validated descriptions of CAN messages: signals laid out in the 64 data bits
//! of a frame, and the builder that checks the layout.

use vstd::prelude::*;
use crate::error::{CANConstructionError, ConstructionErrorView};
use crate::signal::{CANSignal, SignalView};
use crate::text::str_eq;
use vstd::string::StrSliceExecFns;

verus! {

/// Last usable bit of a message's data (8 bytes).
pub const MAX_MESSAGE_BIT: u32 = 63;

/// [`CANSignal`] with its position (start bit) in its message.
pub struct CANSignalWithPosition {
    /// Start bit of the signal.
    pub bit: u32,
    pub sig: CANSignal,
}

impl CANSignalWithPosition {
    /// Start bit of the signal.
    pub open spec fn spec_start(self) -> u32 {
        self.bit
    }

    /// Last bit of the signal (one before the start bit for a zero-width signal).
    pub open spec fn spec_end(self) -> int {
        self.spec_start() + self.sig.width - 1
    }

    /// A signal placed at start bit `bit`.
    pub(crate) fn new(bit: u32, sig: CANSignal) -> (r: CANSignalWithPosition)
        ensures
            r.spec_start() == bit,
            r.sig == sig,
    {
        CANSignalWithPosition { bit, sig }
    }

    /// Start bit of signal.
    pub fn start(&self) -> (r: u32)
        ensures
            r == self.spec_start(),
    {
        self.bit
    }

    /// Last bit of signal.
    pub fn end(&self) -> (r: u32)
        requires
            1 <= self.spec_start() + self.sig.width <= u32::MAX,
        ensures
            r == self.spec_end(),
    {
        self.bit + self.sig.width - 1
    }

    fn name_clone(&self) -> (r: String)
        ensures
            r@ == self.sig.name@,
    {
        self.sig.name.clone()
    }

    /// A copy of this positioned signal.
    pub fn copy(&self) -> (r: CANSignalWithPosition)
        ensures
            r.spec_start() == self.spec_start(),
            r.sig@ == self.sig@,
    {
        CANSignalWithPosition { bit: self.bit, sig: self.sig.copy() }
    }
}

/// The signal lies within the message's 64 data bits.
pub open spec fn placed(s: CANSignalWithPosition) -> bool {
    1 <= s.spec_start() + s.sig.width && s.spec_end() <= MAX_MESSAGE_BIT
}

/// Signals lie within the data, ordered by start bit, without overlap, with distinct names.
pub open spec fn signals_wf(sigs: Seq<CANSignalWithPosition>) -> bool {
    &&& forall|i: int| 0 <= i < sigs.len() ==> placed(#[trigger] sigs[i])
    &&& forall|i: int, j: int|
        #![trigger sigs[i], sigs[j]]
        0 <= i < j < sigs.len() ==> sigs[i].spec_start() < sigs[j].spec_start() && sigs[i].spec_end()
            < sigs[j].spec_start()
    &&& forall|i: int, j: int|
        #![trigger sigs[i], sigs[j]]
        0 <= i < j < sigs.len() ==> sigs[i].sig.name@ != sigs[j].sig.name@
}

/// Some signal has this name.
pub open spec fn has_sig_named(sigs: Seq<CANSignalWithPosition>, name: Seq<char>) -> bool {
    exists|i: int| 0 <= i < sigs.len() && #[trigger] sigs[i].sig.name@ == name
}

/// First bit after the last signal (`0` without signals).
pub open spec fn next_free_bit(sigs: Seq<CANSignalWithPosition>) -> int {
    if sigs.len() == 0 {
        0
    } else {
        sigs.last().spec_end() + 1
    }
}

/// Message length in bytes: enough bytes to hold the last signal's last bit.
pub open spec fn length_for(sigs: Seq<CANSignalWithPosition>) -> int {
    if sigs.len() == 0 {
        0
    } else {
        let bits = sigs.last().spec_end() + 1;
        bits / 8 + if bits % 8 != 0 {
            1int
        } else {
            0int
        }
    }
}

/// A signal starting at `bit` would not come after the last signal's start and end bits.
pub open spec fn blocked_by_last(sigs: Seq<CANSignalWithPosition>, bit: u32) -> bool {
    sigs.len() > 0 && (bit <= sigs.last().spec_start() || bit <= sigs.last().spec_end())
}

/// Characters allowed in message names: `[a-zA-Z0-9_]`.
pub open spec fn name_char_ok(c: char) -> bool {
    ('a' <= c && c <= 'z') || ('A' <= c && c <= 'Z') || ('0' <= c && c <= '9') || c == '_'
}

/// Every character of the name is allowed.
pub open spec fn name_chars_ok(name: Seq<char>) -> bool {
    forall|i: int| 0 <= i < name.len() ==> name_char_ok(#[trigger] name[i])
}

/// `c` is the first character of `name` that is not allowed.
pub open spec fn first_bad_char(name: Seq<char>, c: char) -> bool {
    exists|i: int|
        0 <= i < name.len() && #[trigger] name[i] == c && !name_char_ok(c) && forall|j: int|
            0 <= j < i ==> name_char_ok(#[trigger] name[j])
}

/// The first character of `name` that is not allowed.
pub open spec fn first_bad(name: Seq<char>) -> char {
    choose|c: char| first_bad_char(name, c)
}

/// Only one character is the first that is not allowed.
pub proof fn lemma_first_bad(name: Seq<char>, c: char)
    requires
        first_bad_char(name, c),
    ensures
        first_bad(name) == c,
{
    let d = first_bad(name);
    assert(first_bad_char(name, d));
    let i = choose|i: int|
        0 <= i < name.len() && #[trigger] name[i] == c && !name_char_ok(c) && forall|j: int|
            0 <= j < i ==> name_char_ok(#[trigger] name[j]);
    let k = choose|i: int|
        0 <= i < name.len() && #[trigger] name[i] == d && !name_char_ok(d) && forall|j: int|
            0 <= j < i ==> name_char_ok(#[trigger] name[j]);
    if i < k {
        assert(name_char_ok(name[i]));
    } else if k < i {
        assert(name_char_ok(name[k]));
    }
}

/// The error that a message name which is not valid raises: it is empty, or holds
/// a character outside `[a-zA-Z0-9_]` (the first one is named).
pub open spec fn name_error(name: Seq<char>) -> ConstructionErrorView {
    if name.len() == 0 {
        ConstructionErrorView::MessageNameEmpty
    } else {
        ConstructionErrorView::MessageNameInvalidChar(name, first_bad(name))
    }
}

/// Start bit and signal model of a positioned signal.
pub open spec fn sig_view(s: CANSignalWithPosition) -> (u32, SignalView) {
    (s.bit, s.sig@)
}

/// Start bits and signal models of positioned signals.
pub open spec fn sig_views(s: Seq<CANSignalWithPosition>) -> Seq<(u32, SignalView)> {
    s.map_values(|x: CANSignalWithPosition| sig_view(x))
}

/// Layout properties depend on the signals' models only.
pub proof fn lemma_sig_views_layout(a: Seq<CANSignalWithPosition>, b: Seq<CANSignalWithPosition>)
    requires
        sig_views(a) == sig_views(b),
    ensures
        signals_wf(a) == signals_wf(b),
        length_for(a) == length_for(b),
        next_free_bit(a) == next_free_bit(b),
{
    assert(a.len() == sig_views(a).len());
    assert(b.len() == sig_views(b).len());
    assert forall|i: int| 0 <= i < a.len() implies #[trigger] a[i].bit == b[i].bit && a[i].sig.width
        == b[i].sig.width && a[i].sig.name@ == b[i].sig.name@ by {
        assert(sig_views(a)[i] == sig_views(b)[i]);
    }
    if signals_wf(a) {
        assert forall|i: int| 0 <= i < b.len() implies placed(#[trigger] b[i]) by {
            assert(placed(a[i]));
        }
        assert forall|i: int, j: int|
            #![trigger b[i], b[j]]
            0 <= i < j < b.len() implies b[i].spec_start() < b[j].spec_start() && b[i].spec_end()
            < b[j].spec_start() && b[i].sig.name@ != b[j].sig.name@ by {
            assert(a[i].spec_start() < a[j].spec_start() && a[i].spec_end() < a[j].spec_start());
            assert(a[i].sig.name@ != a[j].sig.name@);
        }
    }
    if signals_wf(b) {
        assert forall|i: int| 0 <= i < a.len() implies placed(#[trigger] a[i]) by {
            assert(placed(b[i]));
        }
        assert forall|i: int, j: int|
            #![trigger a[i], a[j]]
            0 <= i < j < a.len() implies a[i].spec_start() < a[j].spec_start() && a[i].spec_end()
            < a[j].spec_start() && a[i].sig.name@ != a[j].sig.name@ by {
            assert(b[i].spec_start() < b[j].spec_start() && b[i].spec_end() < b[j].spec_start());
            assert(b[i].sig.name@ != b[j].sig.name@);
        }
    }
    if a.len() > 0 {
        assert(a.last() == a[a.len() - 1]);
        assert(b.last() == b[b.len() - 1]);
    }
}

/// Copies of positioned signals.
pub fn copy_signals(sigs: &Vec<CANSignalWithPosition>) -> (r: Vec<CANSignalWithPosition>)
    ensures
        sig_views(r@) == sig_views(sigs@),
{
    let mut out: Vec<CANSignalWithPosition> = Vec::new();
    let mut j: usize = 0;
    while j < sigs.len()
        invariant
            0 <= j <= sigs@.len(),
            sig_views(out@) == sig_views(sigs@.take(j as int)),
        decreases sigs@.len() - j,
    {
        let ghost before = out@;
        out.push(sigs[j].copy());
        proof {
            assert(sigs@.take(j + 1) =~= sigs@.take(j as int).push(sigs@[j as int]));
            assert(out@ =~= before.push(out@.last()));
            assert(sig_views(out@) =~= sig_views(before).push(sig_view(out@.last())));
            assert(sig_views(sigs@.take(j + 1)) =~= sig_views(sigs@.take(j as int)).push(
                sig_view(sigs@[j as int]),
            ));
        }
        j = j + 1;
    }
    proof {
        assert(sigs@.take(sigs@.len() as int) =~= sigs@);
    }
    out
}


/// Signal models with `prefix` put in front of every signal name.
pub open spec fn prefixed_views(v: Seq<(u32, SignalView)>, prefix: Seq<char>) -> Seq<(u32, SignalView)> {
    v.map_values(|e: (u32, SignalView)| (e.0, SignalView { name: prefix + e.1.name, ..e.1 }))
}

/// Putting the same prefix in front of two different names keeps them different.
pub proof fn lemma_prefix_injective(p: Seq<char>, a: Seq<char>, b: Seq<char>)
    requires
        a != b,
    ensures
        p + a != p + b,
{
    assert((p + a).skip(p.len() as int) =~= a);
    assert((p + b).skip(p.len() as int) =~= b);
}

/// Positioned signals with `prefix` put in front of every signal name.
pub fn prefix_signal_names(sigs: &Vec<CANSignalWithPosition>, prefix: &str) -> (r: Vec<CANSignalWithPosition>)
    ensures
        sig_views(r@) == prefixed_views(sig_views(sigs@), prefix@),
        signals_wf(sigs@) ==> signals_wf(r@),
        length_for(r@) == length_for(sigs@),
{
    let mut out: Vec<CANSignalWithPosition> = Vec::new();
    let mut j: usize = 0;
    while j < sigs.len()
        invariant
            0 <= j <= sigs@.len(),
            out@.len() == j,
            forall|k: int|
                0 <= k < j ==> (#[trigger] out@[k]).bit == sigs@[k].bit && out@[k].sig@ == (SignalView {
                    name: prefix@ + sigs@[k].sig.name@,
                    ..sigs@[k].sig@
                }),
        decreases sigs@.len() - j,
    {
        let mut name = String::from_str(prefix);
        name.append(sigs[j].sig.name.as_str());
        let sig = sigs[j].sig.renamed(name);
        out.push(CANSignalWithPosition::new(sigs[j].bit, sig));
        j = j + 1;
    }
    proof {
        assert(sig_views(out@) =~= prefixed_views(sig_views(sigs@), prefix@));
        if signals_wf(sigs@) {
            assert forall|i: int, k: int|
                #![trigger out@[i], out@[k]]
                0 <= i < k < out@.len() implies out@[i].sig.name@ != out@[k].sig.name@ by {
                assert(sigs@[i].sig.name@ != sigs@[k].sig.name@);
                lemma_prefix_injective(prefix@, sigs@[i].sig.name@, sigs@[k].sig.name@);
            }
            assert forall|i: int, k: int|
                #![trigger out@[i], out@[k]]
                0 <= i < k < out@.len() implies out@[i].spec_start() < out@[k].spec_start()
                && out@[i].spec_end() < out@[k].spec_start() by {
                assert(sigs@[i].spec_start() < sigs@[k].spec_start() && sigs@[i].spec_end()
                    < sigs@[k].spec_start());
            }
            assert forall|i: int| 0 <= i < out@.len() implies placed(#[trigger] out@[i]) by {
                assert(placed(sigs@[i]));
            }
        }
        if sigs@.len() > 0 {
            assert(out@.last() == out@[out@.len() - 1]);
            assert(sigs@.last() == sigs@[sigs@.len() - 1]);
        }
    }
    out
}


/// `m` is the message made from template `t` under the given name, id, signal
/// prefix, cycle time override and transmitting node.
pub open spec fn instance_of(
    m: CANMessage,
    t: CANMessage,
    name: Seq<char>,
    id: u32,
    prefix: Seq<char>,
    cycletime: Option<u32>,
    tx_node: Option<Seq<char>>,
) -> bool {
    &&& m.name@ == name
    &&& m.id == id
    &&& m.cycletime == (match cycletime {
        Some(c) => Some(c),
        None => t.cycletime,
    })
    &&& opt_text(m.tx_node) == tx_node
    &&& m.rx_nodes@.len() == 0
    &&& (m.kind matches CANMessageKind::FromTemplate(tn) && tn@ == t.name@)
    &&& m.length == t.length
    &&& sig_views(m.signals@) == prefixed_views(sig_views(t.signals@), prefix)
    &&& m.wf()
}


/// The model of the message made from a template with model `t` under the given
/// name, id, signal prefix, cycle time override and transmitting node.
pub open spec fn instance_view(
    t: MessageView,
    name: Seq<char>,
    id: u32,
    prefix: Seq<char>,
    cycletime: Option<u32>,
    tx_node: Option<Seq<char>>,
) -> MessageView {
    MessageView {
        name,
        id,
        cycletime: match cycletime {
            Some(c) => Some(c),
            None => t.cycletime,
        },
        length: t.length,
        tx_node,
        rx_nodes: Seq::empty(),
        signals: prefixed_views(t.signals, prefix),
        kind: KindView::FromTemplate(t.name),
    }
}

/// A message made from a template takes the cycle time it is given; only without
/// one does it keep the template's. Its name, id and transmitting node are the ones
/// given, and its length is the template's.
pub proof fn law_instance_takes_given_cycletime(
    m: CANMessage,
    t: CANMessage,
    name: Seq<char>,
    id: u32,
    prefix: Seq<char>,
    cycletime: Option<u32>,
    tx_node: Option<Seq<char>>,
)
    requires
        instance_of(m, t, name, id, prefix, cycletime, tx_node),
    ensures
        cycletime matches Some(c) ==> m.cycletime == Some(c),
        cycletime is None ==> m.cycletime == t.cycletime,
        m.name@ == name && m.id == id && m.length == t.length,
{
}

/// The model of a message made from a template takes the cycle time it is given;
/// only without one does it keep the template's.
pub proof fn law_instance_view_takes_given_cycletime(
    t: MessageView,
    name: Seq<char>,
    id: u32,
    prefix: Seq<char>,
    cycletime: Option<u32>,
    tx_node: Option<Seq<char>>,
)
    ensures
        cycletime matches Some(c) ==> instance_view(t, name, id, prefix, cycletime, tx_node).cycletime == Some(c),
        cycletime is None ==> instance_view(t, name, id, prefix, cycletime, tx_node).cycletime == t.cycletime,
{
}

/// A message made from a template has the model [`instance_view`] gives.
pub proof fn lemma_instance_view(
    m: CANMessage,
    t: CANMessage,
    name: Seq<char>,
    id: u32,
    prefix: Seq<char>,
    cycletime: Option<u32>,
    tx_node: Option<Seq<char>>,
)
    requires
        instance_of(m, t, name, id, prefix, cycletime, tx_node),
    ensures
        m@ == instance_view(t@, name, id, prefix, cycletime, tx_node),
{
    assert(texts(m.rx_nodes@) =~= Seq::empty());
}

/// Model of a [`CANMessageKind`].
pub enum KindView {
    Raw,
    Independent,
    Template,
    FromTemplate(Seq<char>),
}

/// The model of a message kind.
pub open spec fn kind_view(k: CANMessageKind) -> KindView {
    match k {
        CANMessageKind::Raw => KindView::Raw,
        CANMessageKind::Independent => KindView::Independent,
        CANMessageKind::Template => KindView::Template,
        CANMessageKind::FromTemplate(t) => KindView::FromTemplate(t@),
    }
}

/// Mathematical model of a [`CANMessage`].
pub struct MessageView {
    pub name: Seq<char>,
    pub id: u32,
    pub cycletime: Option<u32>,
    pub length: u32,
    pub tx_node: Option<Seq<char>>,
    pub rx_nodes: Seq<Seq<char>>,
    pub signals: Seq<(u32, SignalView)>,
    pub kind: KindView,
}

impl View for CANMessage {
    type V = MessageView;

    open spec fn view(&self) -> MessageView {
        MessageView {
            name: self.name@,
            id: self.id,
            cycletime: self.cycletime,
            length: self.length,
            tx_node: opt_text(self.tx_node),
            rx_nodes: texts(self.rx_nodes@),
            signals: sig_views(self.signals@),
            kind: kind_view(self.kind),
        }
    }
}

/// Some signal model has this name.
pub open spec fn view_has_name(vs: Seq<(u32, SignalView)>, name: Seq<char>) -> bool {
    exists|i: int| 0 <= i < vs.len() && #[trigger] vs[i].1.name == name
}

/// First bit after the last signal (`0` without signals), on signal models.
pub open spec fn view_next_free_bit(vs: Seq<(u32, SignalView)>) -> int {
    if vs.len() == 0 {
        0
    } else {
        vs.last().0 + vs.last().1.width - 1 + 1
    }
}

/// [`fixed_outcome`] on signal models.
pub open spec fn view_outcome(vs: Seq<(u32, SignalView)>, bit: u32, s: SignalView) -> AddOutcome {
    if view_has_name(vs, s.name) {
        AddOutcome::NameTaken
    } else if vs.len() > 0 && bit <= vs.last().0 {
        AddOutcome::OutOfOrder
    } else if vs.len() > 0 && bit <= vs.last().0 + vs.last().1.width - 1 {
        AddOutcome::Overlap
    } else if bit + s.width - 1 > MAX_MESSAGE_BIT {
        AddOutcome::WillNotFit
    } else {
        AddOutcome::Added
    }
}

/// The error of adding the signal model `s` at start bit `bit` after the signal
/// models `vs`, when that fails (see [`add_error_matches`]).
pub open spec fn view_add_error(vs: Seq<(u32, SignalView)>, bit: u32, s: SignalView) -> ConstructionErrorView {
    match view_outcome(vs, bit, s) {
        AddOutcome::NameTaken => ConstructionErrorView::SignalNameAlreadyExists(s.name),
        AddOutcome::OutOfOrder => ConstructionErrorView::MessageSignalsOutOfOrder(
            s.name,
            bit,
            vs.last().1.name,
            vs.last().0,
        ),
        AddOutcome::Overlap => ConstructionErrorView::SignalsOverlap(vs.last().1.name, s.name, bit),
        _ => ConstructionErrorView::SignalWillNotFitInMessage(
            s.name,
            (bit + s.width - 1) as u32,
            MAX_MESSAGE_BIT,
        ),
    }
}

/// [`fixed_no_overflow`] on signal models.
pub open spec fn view_no_overflow(vs: Seq<(u32, SignalView)>, bit: u32, s: SignalView) -> bool {
    view_has_name(vs, s.name) || (vs.len() > 0 && (bit <= vs.last().0 || bit <= vs.last().0
        + vs.last().1.width - 1)) || 1 <= bit + s.width
}

/// [`length_for`] on signal models.
pub open spec fn view_length(vs: Seq<(u32, SignalView)>) -> int {
    if vs.len() == 0 {
        0
    } else {
        let bits = vs.last().0 + vs.last().1.width;
        bits / 8 + if bits % 8 != 0 {
            1int
        } else {
            0int
        }
    }
}

/// Adding a signal depends on the models of the signals only.
pub proof fn lemma_outcome_on_views(sigs: Seq<CANSignalWithPosition>, bit: u32, sig: CANSignal)
    ensures
        fixed_outcome(sigs, bit, sig) == view_outcome(sig_views(sigs), bit, sig@),
        fixed_no_overflow(sigs, bit, sig) == view_no_overflow(sig_views(sigs), bit, sig@),
        next_free_bit(sigs) == view_next_free_bit(sig_views(sigs)),
        length_for(sigs) == view_length(sig_views(sigs)),
        sig_views(appended(sigs, bit, sig)) == sig_views(sigs).push((bit, sig@)),
{
    let vs = sig_views(sigs);
    assert(has_sig_named(sigs, sig.name@) == view_has_name(vs, sig@.name)) by {
        if has_sig_named(sigs, sig.name@) {
            let i = choose|i: int| 0 <= i < sigs.len() && #[trigger] sigs[i].sig.name@ == sig.name@;
            assert(vs[i].1.name == sig.name@);
        }
        if view_has_name(vs, sig@.name) {
            let i = choose|i: int| 0 <= i < vs.len() && #[trigger] vs[i].1.name == sig@.name;
            assert(sigs[i].sig.name@ == sig.name@);
        }
    }
    if sigs.len() > 0 {
        assert(vs.last() == sig_view(sigs.last()));
    }
    assert(sig_views(appended(sigs, bit, sig)) =~= sig_views(sigs).push((bit, sig@)));
}

/// What adding a signal at a given start bit does.
pub enum AddOutcome {
    /// A signal with the same name is already in the message.
    NameTaken,
    /// The start bit does not come after the last signal's start bit.
    OutOfOrder,
    /// The start bit lies within the last signal.
    Overlap,
    /// The signal would end past the last data bit.
    WillNotFit,
    /// The signal is appended.
    Added,
}

/// The outcome of adding `sig` at start bit `bit` after the signals `sigs`, checked in order:
/// name, order, overlap, fit.
pub open spec fn fixed_outcome(sigs: Seq<CANSignalWithPosition>, bit: u32, sig: CANSignal) -> AddOutcome {
    if has_sig_named(sigs, sig.name@) {
        AddOutcome::NameTaken
    } else if sigs.len() > 0 && bit <= sigs.last().spec_start() {
        AddOutcome::OutOfOrder
    } else if sigs.len() > 0 && bit <= sigs.last().spec_end() {
        AddOutcome::Overlap
    } else if bit + sig.width - 1 > MAX_MESSAGE_BIT {
        AddOutcome::WillNotFit
    } else {
        AddOutcome::Added
    }
}

/// Adding `sig` at `bit` computes the new signal's last bit only when the earlier
/// checks pass; that last bit must not lie below bit 0 (a signal of width 0 at bit 0).
pub open spec fn fixed_no_overflow(sigs: Seq<CANSignalWithPosition>, bit: u32, sig: CANSignal) -> bool {
    has_sig_named(sigs, sig.name@) || blocked_by_last(sigs, bit) || 1 <= bit + sig.width
}

/// The error value that a failing addition returns.
pub open spec fn add_error_matches(
    e: CANConstructionError,
    sigs: Seq<CANSignalWithPosition>,
    bit: u32,
    sig: CANSignal,
) -> bool {
    match fixed_outcome(sigs, bit, sig) {
        AddOutcome::NameTaken => e matches CANConstructionError::SignalNameAlreadyExists(n)
            && n@ == sig.name@,
        AddOutcome::OutOfOrder => e matches CANConstructionError::MessageSignalsOutOfOrder(
            n,
            b,
            ln,
            ls,
        ) && n@ == sig.name@ && b == bit && ln@ == sigs.last().sig.name@ && ls
            == sigs.last().spec_start(),
        AddOutcome::Overlap => e matches CANConstructionError::SignalsOverlap(ln, n, b) && ln@
            == sigs.last().sig.name@ && n@ == sig.name@ && b == bit,
        AddOutcome::WillNotFit => e matches CANConstructionError::SignalWillNotFitInMessage(
            n,
            end,
            max,
        ) && n@ == sig.name@ && end == (bit + sig.width - 1) as u32 && max == MAX_MESSAGE_BIT,
        AddOutcome::Added => false,
    }
}

/// The error that a failing addition returns has the model [`view_add_error`].
pub proof fn lemma_add_error_view(e: CANConstructionError, sigs: Seq<CANSignalWithPosition>, bit: u32, sig: CANSignal)
    requires
        add_error_matches(e, sigs, bit, sig),
    ensures
        e@ == view_add_error(sig_views(sigs), bit, sig@),
{
    lemma_outcome_on_views(sigs, bit, sig);
    if sigs.len() > 0 {
        assert(sig_views(sigs).last() == sig_view(sigs.last()));
    }
}

/// The signals after a successful addition.
pub open spec fn appended(sigs: Seq<CANSignalWithPosition>, bit: u32, sig: CANSignal) -> Seq<
    CANSignalWithPosition,
> {
    sigs.push(CANSignalWithPosition { bit, sig })
}

/// Signals after adding `items` one by one at their given start bits, stopping at the
/// first failure; with the index of the failing item, if any.
pub open spec fn run_fixed(sigs: Seq<CANSignalWithPosition>, items: Seq<(u32, CANSignal)>) -> (
    Seq<CANSignalWithPosition>,
    Option<int>,
)
    decreases items.len(),
{
    if items.len() == 0 {
        (sigs, None)
    } else {
        let prev = run_fixed(sigs, items.drop_last());
        if prev.1 is Some {
            prev
        } else if fixed_outcome(prev.0, items.last().0, items.last().1) is Added {
            (appended(prev.0, items.last().0, items.last().1), None)
        } else {
            (prev.0, Some(items.len() - 1))
        }
    }
}

/// Every item that `run_fixed` reaches avoids the overflow of [`fixed_no_overflow`].
pub open spec fn fixed_items_no_overflow(
    sigs: Seq<CANSignalWithPosition>,
    items: Seq<(u32, CANSignal)>,
) -> bool {
    forall|k: int|
        0 <= k < items.len() ==> (#[trigger] run_fixed(sigs, items.take(k))).1 is None
            ==> fixed_no_overflow(run_fixed(sigs, items.take(k)).0, items[k].0, items[k].1)
}

/// Signals after adding `items` one by one, each right after the previous one,
/// stopping at the first failure; with the index of the failing item, if any.
pub open spec fn run_auto(sigs: Seq<CANSignalWithPosition>, items: Seq<CANSignal>) -> (
    Seq<CANSignalWithPosition>,
    Option<int>,
)
    decreases items.len(),
{
    if items.len() == 0 {
        (sigs, None)
    } else {
        let prev = run_auto(sigs, items.drop_last());
        let bit = next_free_bit(prev.0) as u32;
        if prev.1 is Some {
            prev
        } else if fixed_outcome(prev.0, bit, items.last()) is Added {
            (appended(prev.0, bit, items.last()), None)
        } else {
            (prev.0, Some(items.len() - 1))
        }
    }
}

/// Every item that `run_auto` reaches avoids the overflow of [`fixed_no_overflow`].
pub open spec fn auto_items_no_overflow(sigs: Seq<CANSignalWithPosition>, items: Seq<CANSignal>) -> bool {
    forall|k: int|
        0 <= k < items.len() ==> (#[trigger] run_auto(sigs, items.take(k))).1 is None
            ==> fixed_no_overflow(
            run_auto(sigs, items.take(k)).0,
            next_free_bit(run_auto(sigs, items.take(k)).0) as u32,
            items[k],
        )
}


/// Once an item fails, `run_fixed` keeps the state and the index of that item.
pub proof fn lemma_run_fixed_stops(
    sigs: Seq<CANSignalWithPosition>,
    items: Seq<(u32, CANSignal)>,
    k: int,
)
    requires
        0 <= k < items.len(),
        run_fixed(sigs, items.take(k)).1 is None,
        !(fixed_outcome(run_fixed(sigs, items.take(k)).0, items[k].0, items[k].1) is Added),
    ensures
        run_fixed(sigs, items) == (run_fixed(sigs, items.take(k)).0, Some(k)),
    decreases items.len() - k,
{
    if k == items.len() - 1 {
        assert(items.drop_last() =~= items.take(k));
    } else {
        assert(items.drop_last().take(k) =~= items.take(k));
        assert(items.drop_last()[k] == items[k]);
        lemma_run_fixed_stops(sigs, items.drop_last(), k);
    }
}

/// Once an item fails, `run_auto` keeps the state and the index of that item.
pub proof fn lemma_run_auto_stops(sigs: Seq<CANSignalWithPosition>, items: Seq<CANSignal>, k: int)
    requires
        0 <= k < items.len(),
        run_auto(sigs, items.take(k)).1 is None,
        !(fixed_outcome(
            run_auto(sigs, items.take(k)).0,
            next_free_bit(run_auto(sigs, items.take(k)).0) as u32,
            items[k],
        ) is Added),
    ensures
        run_auto(sigs, items) == (run_auto(sigs, items.take(k)).0, Some(k)),
    decreases items.len() - k,
{
    if k == items.len() - 1 {
        assert(items.drop_last() =~= items.take(k));
    } else {
        assert(items.drop_last().take(k) =~= items.take(k));
        assert(items.drop_last()[k] == items[k]);
        lemma_run_auto_stops(sigs, items.drop_last(), k);
    }
}

/// A CAN frame carries 0 to 8 bytes of data: the length of well laid out signals
/// is at most 8 bytes.
pub proof fn law_length_fits_frame(sigs: Seq<CANSignalWithPosition>)
    requires
        signals_wf(sigs),
    ensures
        0 <= length_for(sigs) <= 8,
{
    if sigs.len() > 0 {
        assert(placed(sigs[sigs.len() - 1]));
    }
}

/// Adding a signal that passes every check keeps the layout valid: the signal comes
/// last, at the requested start bit, findable by its name, after the earlier signals.
pub proof fn law_add_keeps_layout(sigs: Seq<CANSignalWithPosition>, bit: u32, sig: CANSignal)
    requires
        signals_wf(sigs),
        fixed_no_overflow(sigs, bit, sig),
        fixed_outcome(sigs, bit, sig) is Added,
    ensures
        signals_wf(appended(sigs, bit, sig)),
        appended(sigs, bit, sig).drop_last() == sigs,
        appended(sigs, bit, sig).last().spec_start() == bit,
        appended(sigs, bit, sig).last().sig == sig,
        has_sig_named(appended(sigs, bit, sig), sig.name@),
        length_for(sigs) <= length_for(appended(sigs, bit, sig)),
{
    let s = appended(sigs, bit, sig);
    assert(s.drop_last() =~= sigs);
    assert(s[s.len() - 1].sig.name@ == sig.name@);
    assert forall|i: int, j: int|
        #![trigger s[i], s[j]]
        0 <= i < j < s.len() implies s[i].spec_start() < s[j].spec_start() && s[i].spec_end()
        < s[j].spec_start() && s[i].sig.name@ != s[j].sig.name@ by {
        if j == s.len() - 1 {
            assert(s[i] == sigs[i]);
            if i < j - 1 {
                assert(sigs[i] == s[i] && sigs[j - 1] == s[j - 1]);
            }
        } else {
            assert(s[i] == sigs[i] && s[j] == sigs[j]);
        }
    }
    assert forall|i: int| 0 <= i < s.len() implies placed(#[trigger] s[i]) by {
        if i < s.len() - 1 {
            assert(s[i] == sigs[i]);
        }
    }
}

/// Adding signals with automatic start bits lays them out back-to-back: when every
/// item is accepted, each item follows the signals before it directly, in the order given.
pub proof fn law_signals_back_to_back(sigs: Seq<CANSignalWithPosition>, items: Seq<CANSignal>)
    requires
        signals_wf(sigs),
        auto_items_no_overflow(sigs, items),
        run_auto(sigs, items).1 is None,
    ensures
        signals_wf(run_auto(sigs, items).0),
        run_auto(sigs, items).0.len() == sigs.len() + items.len(),
        run_auto(sigs, items).0.take(sigs.len() as int) == sigs,
        forall|k: int|
            0 <= k < items.len() ==> (#[trigger] run_auto(sigs, items).0[sigs.len() + k]).sig
                == items[k] && run_auto(sigs, items).0[sigs.len() + k].spec_start()
                == next_free_bit(run_auto(sigs, items).0.take(sigs.len() + k)),
    decreases items.len(),
{
    if items.len() > 0 {
        let prev = run_auto(sigs, items.drop_last());
        assert forall|k: int|
            0 <= k < items.drop_last().len() && (#[trigger] run_auto(
                sigs,
                items.drop_last().take(k),
            )).1 is None implies fixed_no_overflow(
            run_auto(sigs, items.drop_last().take(k)).0,
            next_free_bit(run_auto(sigs, items.drop_last().take(k)).0) as u32,
            items.drop_last()[k],
        ) by {
            assert(items.drop_last().take(k) =~= items.take(k));
            assert(run_auto(sigs, items.take(k)).1 is None);
        }
        law_signals_back_to_back(sigs, items.drop_last());
        assert(items.take(items.len() - 1) =~= items.drop_last());
        assert(run_auto(sigs, items.take(items.len() - 1)).1 is None ==> fixed_no_overflow(run_auto(sigs, items.take(items.len() - 1)).0, next_free_bit(run_auto(sigs, items.take(items.len() - 1)).0) as u32, items[items.len() - 1]));
        law_add_keeps_layout(prev.0, next_free_bit(prev.0) as u32, items.last());
        if prev.0.len() > 0 {
            assert(placed(prev.0[prev.0.len() - 1]));
        }
        let r = run_auto(sigs, items).0;
        let n = sigs.len() as int;
        assert(r == appended(prev.0, next_free_bit(prev.0) as u32, items.last()));
        assert(r.take(n) =~= prev.0.take(n));
        assert forall|k: int| 0 <= k < items.len() implies (#[trigger] r[n + k]).sig == items[k]
            && r[n + k].spec_start() == next_free_bit(r.take(n + k)) by {
            if k < items.len() - 1 {
                assert(r[n + k] == prev.0[n + k]);
                assert(r.take(n + k) =~= prev.0.take(n + k));
                assert(items.drop_last()[k] == items[k]);
            } else {
                assert(r.take(n + k) =~= prev.0);
            }
        }
    }
}

/// How a message relates to templates.
pub enum CANMessageKind {
    /// A message without signals, handed to the user as raw data.
    Raw,
    /// An ordinary message with its own signals.
    Independent,
    /// A template that other messages are made from.
    Template,
    /// A message made from the named template.
    FromTemplate(String),
}

fn copy_kind(k: &CANMessageKind) -> (r: CANMessageKind)
    ensures
        r == *k,
{
    match k {
        CANMessageKind::Raw => CANMessageKind::Raw,
        CANMessageKind::Independent => CANMessageKind::Independent,
        CANMessageKind::Template => CANMessageKind::Template,
        CANMessageKind::FromTemplate(t) => CANMessageKind::FromTemplate(t.clone()),
    }
}

/// A validated description of a CAN message.
pub struct CANMessage {
    /// Message name.
    pub name: String,
    /// Message ID.
    pub id: u32,
    /// Message cycle time in milliseconds.
    pub cycletime: Option<u32>,
    /// Message length in bytes.
    pub length: u32,
    /// Transmitting node.
    pub tx_node: Option<String>,
    /// Receiving nodes.
    pub rx_nodes: Vec<String>,
    /// Signals with positions in this message ordered by start bit.
    pub signals: Vec<CANSignalWithPosition>,
    /// How this message relates to templates.
    pub kind: CANMessageKind,
}

impl CANMessage {
    /// How this message relates to templates.
    pub open spec fn spec_kind(self) -> CANMessageKind {
        self.kind
    }

    /// Signals are well laid out and the length matches the last signal.
    pub open spec fn wf(self) -> bool {
        &&& signals_wf(self.signals@)
        &&& self.length == length_for(self.signals@)
    }

    /// Get a [builder](CANMessageBuilder) for an ordinary message.
    pub fn builder() -> (b: CANMessageBuilder)
        ensures
            b@ == MessageBuilderView::empty(CANMessageKind::Independent),
    {
        CANMessageBuilder::new()
    }

    /// Get a [builder](CANMessageBuilder) for a template message (id `0` as a placeholder).
    pub fn template() -> (b: CANMessageBuilder)
        ensures
            b@ == (MessageBuilderView { id: Some(0u32), ..MessageBuilderView::empty(CANMessageKind::Template) }),
    {
        CANMessageBuilder::new_of_kind(CANMessageKind::Template).id(0)
    }

    /// A raw message: no signals, data handed to the user as is.
    pub fn new_raw(name: &str, id: u32, cycletime: Option<u32>, tx_node: Option<&str>) -> (m: CANMessage)
        ensures
            m.name@ == name@,
            m.id == id,
            m.cycletime == cycletime,
            m.length == 0,
            m.tx_node is Some == tx_node is Some,
            tx_node matches Some(t) ==> m.tx_node.unwrap()@ == t@,
            m.rx_nodes@.len() == 0,
            m.signals@.len() == 0,
            m.spec_kind() == CANMessageKind::Raw,
            m.wf(),
    {
        CANMessage {
            name: String::from_str(name),
            id,
            cycletime,
            length: 0,
            tx_node: match tx_node {
                Some(t) => Some(String::from_str(t)),
                None => None,
            },
            rx_nodes: Vec::new(),
            signals: Vec::new(),
            kind: CANMessageKind::Raw,
        }
    }

    /// How this message relates to templates.
    pub fn kind(&self) -> (r: &CANMessageKind)
        ensures
            *r == self.spec_kind(),
    {
        &self.kind
    }

    /// Get a [signal](CANSignalWithPosition) from this message by name.
    pub fn get_sig(&self, name: &str) -> (r: Option<&CANSignalWithPosition>)
        ensures
            match r {
                Some(s) => exists|i: int|
                    0 <= i < self.signals@.len() && self.signals@[i] == *s && s.sig.name@ == name@
                        && forall|j: int|
                        0 <= j < i ==> (#[trigger] self.signals@[j]).sig.name@ != name@,
                None => !has_sig_named(self.signals@, name@),
            },
    {
        let mut i: usize = 0;
        while i < self.signals.len()
            invariant
                0 <= i <= self.signals@.len(),
                forall|j: int| 0 <= j < i ==> (#[trigger] self.signals@[j]).sig.name@ != name@,
            decreases self.signals@.len() - i,
        {
            if str_eq(self.signals[i].sig.name.as_str(), name) {
                return Some(&self.signals[i]);
            }
            i = i + 1;
        }
        None
    }

    /// Make a message from this template: the template's signals, each name preceded
    /// by `signal_prefix`, at the same start bits; the template's cycle time unless
    /// `cycletime` is given. The message name must be valid as for
    /// [`CANMessageBuilder::build`].
    pub fn template_instance(
        &self,
        name: &str,
        id: u32,
        signal_prefix: &str,
        cycletime: Option<u32>,
        tx_node: Option<&str>,
    ) -> (r: Result<CANMessage, CANConstructionError>)
        requires
            self.wf(),
        ensures
            name@.len() == 0 ==> (r matches Err(CANConstructionError::MessageNameEmpty)),
            name@.len() > 0 && !name_chars_ok(name@) ==> (r matches Err(
                CANConstructionError::MessageNameInvalidChar(n, c),
            ) && n@ == name@ && first_bad_char(name@, c)),
            name@.len() > 0 && name_chars_ok(name@) ==> (r matches Ok(m) && instance_of(
                m,
                *self,
                name@,
                id,
                signal_prefix@,
                cycletime,
                match tx_node {
                    Some(t) => Some(t@),
                    None => None,
                },
            )),
    {
        let b = CANMessageBuilder::new_of_kind(CANMessageKind::FromTemplate(self.name.clone())).name(
            name,
        ).id(id);
        let b = b.cycletime(
            match cycletime {
                Some(c) => Some(c),
                None => self.cycletime,
            },
        );
        let b = match tx_node {
            Some(t) => b.tx_node(t),
            None => b,
        };
        let sigs = prefix_signal_names(&self.signals, signal_prefix);
        let b = b.with_signals(sigs);
        let r = b.build();
        proof {
            if r is Ok {
                assert(texts(r->Ok_0.rx_nodes@).len() == r->Ok_0.rx_nodes@.len());
            }
        }
        r
    }

    /// Get transmitting node.
    pub fn tx_node(&self) -> (r: Option<&str>)
        ensures
            r is Some == self.tx_node is Some,
            r matches Some(t) ==> t@ == self.tx_node.unwrap()@,
    {
        match &self.tx_node {
            Some(t) => Some(t.as_str()),
            None => None,
        }
    }

    /// A copy of this message.
    pub fn copy(&self) -> (r: CANMessage)
        ensures
            r.name@ == self.name@,
            r.id == self.id,
            r.cycletime == self.cycletime,
            r.length == self.length,
            opt_text(r.tx_node) == opt_text(self.tx_node),
            texts(r.rx_nodes@) == texts(self.rx_nodes@),
            r.signals@.len() == self.signals@.len(),
            forall|i: int|
                0 <= i < r.signals@.len() ==> (#[trigger] r.signals@[i]).spec_start()
                    == self.signals@[i].spec_start() && r.signals@[i].sig@ == self.signals@[i].sig@,
            r.spec_kind() == self.spec_kind(),
    {
        let mut rx: Vec<String> = Vec::new();
        let mut i: usize = 0;
        while i < self.rx_nodes.len()
            invariant
                0 <= i <= self.rx_nodes@.len(),
                texts(rx@) == texts(self.rx_nodes@.take(i as int)),
            decreases self.rx_nodes@.len() - i,
        {
            let ghost old_rx = rx@;
            rx.push(self.rx_nodes[i].clone());
            proof {
                assert(rx@ == old_rx.push(self.rx_nodes@[i as int]));
                assert(texts(rx@) =~= texts(old_rx).push(self.rx_nodes@[i as int]@));
                assert(self.rx_nodes@.take(i + 1) =~= self.rx_nodes@.take(i as int).push(self.rx_nodes@[i as int]));
                assert(texts(rx@) =~= texts(self.rx_nodes@.take(i + 1)));
            }
            i = i + 1;
        }
        proof {
            assert(self.rx_nodes@.take(self.rx_nodes@.len() as int) =~= self.rx_nodes@);
        }
        let mut sigs: Vec<CANSignalWithPosition> = Vec::new();
        let mut j: usize = 0;
        while j < self.signals.len()
            invariant
                0 <= j <= self.signals@.len(),
                sigs@.len() == j,
                forall|k: int|
                    0 <= k < j ==> (#[trigger] sigs@[k]).spec_start() == self.signals@[k].spec_start()
                        && sigs@[k].sig@ == self.signals@[k].sig@,
            decreases self.signals@.len() - j,
        {
            sigs.push(self.signals[j].copy());
            j = j + 1;
        }
        CANMessage {
            name: self.name.clone(),
            id: self.id,
            cycletime: self.cycletime,
            length: self.length,
            tx_node: match &self.tx_node {
                Some(t) => Some(t.clone()),
                None => None,
            },
            rx_nodes: rx,
            signals: sigs,
            kind: copy_kind(&self.kind),
        }
    }
}

/// The text of an optional `String`.
pub open spec fn opt_text(o: Option<String>) -> Option<Seq<char>> {
    crate::signal::opt_text(o)
}

/// The texts of a sequence of `String`s.
pub open spec fn texts(s: Seq<String>) -> Seq<Seq<char>> {
    s.map_values(|x: String| x@)
}

/// Builder of a [`CANMessage`].
pub struct CANMessageBuilder {
    name: Option<String>,
    id: Option<u32>,
    cycletime: Option<Option<u32>>,
    tx_node: Option<String>,
    rx_nodes: Vec<String>,
    signals: Vec<CANSignalWithPosition>,
    kind: CANMessageKind,
}

/// Mathematical model of a [`CANMessageBuilder`].
pub struct MessageBuilderView {
    pub name: Option<Seq<char>>,
    pub id: Option<u32>,
    pub cycletime: Option<Option<u32>>,
    pub tx_node: Option<Seq<char>>,
    pub rx_nodes: Seq<Seq<char>>,
    pub signals: Seq<CANSignalWithPosition>,
    pub kind: CANMessageKind,
}

impl MessageBuilderView {
    /// The model of a builder of the given kind with nothing set.
    pub open spec fn empty(kind: CANMessageKind) -> MessageBuilderView {
        MessageBuilderView {
            name: None,
            id: None,
            cycletime: None,
            tx_node: None,
            rx_nodes: Seq::empty(),
            signals: Seq::empty(),
            kind,
        }
    }
}

impl View for CANMessageBuilder {
    type V = MessageBuilderView;

    closed spec fn view(&self) -> MessageBuilderView {
        MessageBuilderView {
            name: opt_text(self.name),
            id: self.id,
            cycletime: self.cycletime,
            tx_node: opt_text(self.tx_node),
            rx_nodes: texts(self.rx_nodes@),
            signals: self.signals@,
            kind: self.kind,
        }
    }
}

impl CANMessageBuilder {
    #[verifier::type_invariant]
    spec fn inv(self) -> bool {
        signals_wf(self.signals@)
    }

    /// A builder of an ordinary message with nothing set.
    pub fn new() -> (b: CANMessageBuilder)
        ensures
            b@ == MessageBuilderView::empty(CANMessageKind::Independent),
    {
        Self::new_of_kind(CANMessageKind::Independent)
    }

    pub(crate) fn new_of_kind(kind: CANMessageKind) -> (b: CANMessageBuilder)
        ensures
            b@ == MessageBuilderView::empty(kind),
    {
        let b = CANMessageBuilder {
            name: None,
            id: None,
            cycletime: None,
            tx_node: None,
            rx_nodes: Vec::new(),
            signals: Vec::new(),
            kind,
        };
        assert(b@.rx_nodes =~= Seq::<Seq<char>>::empty());
        b
    }

    /// Set the message name.
    pub fn name(self, name: &str) -> (b: CANMessageBuilder)
        ensures
            b@ == (MessageBuilderView { name: Some(name@), ..self@ }),
    {
        proof {
            use_type_invariant(&self);
        }
        CANMessageBuilder { name: Some(String::from_str(name)), ..self }
    }

    /// Set the message ID.
    pub fn id(self, id: u32) -> (b: CANMessageBuilder)
        ensures
            b@ == (MessageBuilderView { id: Some(id), ..self@ }),
    {
        proof {
            use_type_invariant(&self);
        }
        CANMessageBuilder { id: Some(id), ..self }
    }

    /// Set the message cycle time in milliseconds.
    pub fn cycletime(self, cycletime: Option<u32>) -> (b: CANMessageBuilder)
        ensures
            b@ == (MessageBuilderView { cycletime: Some(cycletime), ..self@ }),
    {
        proof {
            use_type_invariant(&self);
        }
        CANMessageBuilder { cycletime: Some(cycletime), ..self }
    }

    /// Set the transmitting node.
    pub fn tx_node(self, tx_node: &str) -> (b: CANMessageBuilder)
        ensures
            b@ == (MessageBuilderView { tx_node: Some(tx_node@), ..self@ }),
    {
        proof {
            use_type_invariant(&self);
        }
        CANMessageBuilder { tx_node: Some(String::from_str(tx_node)), ..self }
    }

    pub(crate) fn kind(self, kind: CANMessageKind) -> (b: CANMessageBuilder)
        ensures
            b@ == (MessageBuilderView { kind, ..self@ }),
    {
        proof {
            use_type_invariant(&self);
        }
        CANMessageBuilder { kind, ..self }
    }

    /// The next available start bit: right after the last signal, or `0`.
    pub(crate) fn next_bit(&self) -> (r: u32)
        ensures
            r == next_free_bit(self@.signals),
    {
        proof {
            use_type_invariant(self);
        }
        let n = self.signals.len();
        if n == 0 {
            0
        } else {
            proof {
                assert(placed(self.signals@[n - 1]));
            }
            self.signals[n - 1].end() + 1
        }
    }

    /// Whether adding `sig` at `bit` gives a last bit that is not below bit 0
    /// ([`fixed_no_overflow`]).
    pub(crate) fn can_add(&self, bit: u32, sig: &CANSignal) -> (r: bool)
        ensures
            r == fixed_no_overflow(self@.signals, bit, *sig),
    {
        let mut i: usize = 0;
        while i < self.signals.len()
            invariant
                0 <= i <= self.signals@.len(),
                forall|j: int| 0 <= j < i ==> (#[trigger] self.signals@[j]).sig.name@ != sig.name@,
            decreases self.signals@.len() - i,
        {
            if str_eq(self.signals[i].sig.name.as_str(), sig.name.as_str()) {
                proof {
                    assert(has_sig_named(self.signals@, sig.name@));
                }
                return true;
            }
            i = i + 1;
        }
        let n = self.signals.len();
        if n > 0 {
            let last = &self.signals[n - 1];
            let end: u64 = last.bit as u64 + last.sig.width as u64;
            if bit <= last.bit || (bit as u64) + 1 <= end {
                return true;
            }
        }
        let total: u64 = bit as u64 + sig.width as u64;
        1 <= total
    }

    /// Add a single signal with start bit specified.
    ///
    /// Checks, in order:
    ///  - signal name does not repeat ([`SignalNameAlreadyExists`][CANConstructionError::SignalNameAlreadyExists])
    ///  - signals are specified in order ([`MessageSignalsOutOfOrder`][CANConstructionError::MessageSignalsOutOfOrder])
    ///  - signals in message do not overlap ([`SignalsOverlap`][CANConstructionError::SignalsOverlap])
    ///  - signal does not extend past end of message ([`SignalWillNotFitInMessage`][CANConstructionError::SignalWillNotFitInMessage])
    pub fn add_signal_fixed(self, bit: u32, sig: CANSignal) -> (r: Result<
        CANMessageBuilder,
        CANConstructionError,
    >)
        requires
            fixed_no_overflow(self@.signals, bit, sig),
        ensures
            r matches Ok(b) ==> signals_wf(b@.signals),
            fixed_outcome(self@.signals, bit, sig) is Added ==> (r matches Ok(b) && b@ == (
            MessageBuilderView { signals: appended(self@.signals, bit, sig), ..self@ })),
            !(fixed_outcome(self@.signals, bit, sig) is Added) ==> (r matches Err(e)
                && add_error_matches(e, self@.signals, bit, sig)),
    {
        proof {
            use_type_invariant(&self);
        }
        let mut i: usize = 0;
        while i < self.signals.len()
            invariant
                0 <= i <= self.signals@.len(),
                forall|j: int| 0 <= j < i ==> (#[trigger] self.signals@[j]).sig.name@ != sig.name@,
            decreases self.signals@.len() - i,
        {
            if self.signals[i].sig.name == sig.name {
                return Err(CANConstructionError::SignalNameAlreadyExists(sig.name));
            }
            i = i + 1;
        }
        let n = self.signals.len();
        if n > 0 {
            let last = &self.signals[n - 1];
            if bit <= last.start() {
                return Err(
                    CANConstructionError::MessageSignalsOutOfOrder(
                        sig.name,
                        bit,
                        last.name_clone(),
                        last.start(),
                    ),
                );
            }
            if bit <= last.end() {
                return Err(CANConstructionError::SignalsOverlap(last.name_clone(), sig.name, bit));
            }
        }
        let last_bit: u64 = bit as u64 + sig.width as u64 - 1;
        if last_bit > MAX_MESSAGE_BIT as u64 {
            return Err(
                CANConstructionError::SignalWillNotFitInMessage(
                    sig.name,
                    #[verifier::truncate]
                    (last_bit as u32),
                    MAX_MESSAGE_BIT,
                ),
            );
        }
        let new = CANSignalWithPosition::new(bit, sig);
        let CANMessageBuilder { name, id, cycletime, tx_node, rx_nodes, mut signals, kind } = self;
        let ghost old_signals = signals@;
        signals.push(new);
        proof {
            assert(signals@ == appended(old_signals, bit, sig));
            assert forall|i: int, j: int|
                #![trigger signals@[i], signals@[j]]
                0 <= i < j < signals@.len() implies signals@[i].spec_start() < signals@[j].spec_start()
                && signals@[i].spec_end() < signals@[j].spec_start() by {
                if j == signals@.len() - 1 && i < j - 1 {
                    assert(old_signals[i] == signals@[i]);
                    assert(old_signals[j - 1] == signals@[j - 1]);
                }
            }
        }
        Ok(CANMessageBuilder { name, id, cycletime, tx_node, rx_nodes, signals, kind })
    }

    /// Add a single signal with the next available start bit: right after the
    /// last signal, or bit `0` for the first signal.
    /// See [`add_signal_fixed()`][CANMessageBuilder::add_signal_fixed()] for more details.
    pub fn add_signal(self, sig: CANSignal) -> (r: Result<CANMessageBuilder, CANConstructionError>)
        requires
            fixed_no_overflow(self@.signals, next_free_bit(self@.signals) as u32, sig),
        ensures
            r matches Ok(b) ==> signals_wf(b@.signals),
            fixed_outcome(self@.signals, next_free_bit(self@.signals) as u32, sig) is Added ==> (r matches Ok(b)
                && b@ == (MessageBuilderView {
                signals: appended(self@.signals, next_free_bit(self@.signals) as u32, sig),
                ..self@
            })),
            !(fixed_outcome(self@.signals, next_free_bit(self@.signals) as u32, sig) is Added) ==> (
            r matches Err(e) && add_error_matches(
                e,
                self@.signals,
                next_free_bit(self@.signals) as u32,
                sig,
            )),
    {
        proof {
            use_type_invariant(&self);
        }
        let n = self.signals.len();
        let bit = if n == 0 {
            0
        } else {
            self.signals[n - 1].end() + 1
        };
        self.add_signal_fixed(bit, sig)
    }

    /// Add multiple signals with start bits specified, stopping at the first failure.
    ///
    /// Convenience wrapper for [`add_signal_fixed()`][Self::add_signal_fixed].
    pub fn add_signals_fixed(self, sigs: Vec<(u32, CANSignal)>) -> (r: Result<
        CANMessageBuilder,
        CANConstructionError,
    >)
        requires
            fixed_items_no_overflow(self@.signals, sigs@),
        ensures
            r matches Ok(b) ==> signals_wf(b@.signals),
            run_fixed(self@.signals, sigs@).1 is None ==> (r matches Ok(b) && b@ == (
            MessageBuilderView { signals: run_fixed(self@.signals, sigs@).0, ..self@ })),
            run_fixed(self@.signals, sigs@).1 matches Some(k) ==> (r matches Err(e)
                && add_error_matches(
                e,
                run_fixed(self@.signals, sigs@).0,
                sigs@[k].0,
                sigs@[k].1,
            )),
    {
        let ghost start = self@;
        let ghost items = sigs@;
        let mut b = self;
        let mut rest = sigs;
        let total = rest.len();
        let mut i: usize = 0;
        while rest.len() > 0
            invariant
                rest@ == items.skip(i as int),
                0 <= i <= items.len(),
                items.len() == i + rest@.len(),
                items.len() == total,
                start == self@,
                items == sigs@,
                run_fixed(start.signals, items.take(i as int)).1 is None,
                b@ == (MessageBuilderView {
                    signals: run_fixed(start.signals, items.take(i as int)).0,
                    ..start
                }),
                fixed_items_no_overflow(start.signals, items),
            decreases rest@.len(),
        {
            let (bit, sig) = rest.remove(0);
            proof {
                assert(items.take(i + 1).drop_last() =~= items.take(i as int));
                assert(items.take(i + 1).last() == items[i as int]);
                assert(items[i as int] == (bit, sig));
                assert(run_fixed(start.signals, items.take(i as int)).1 is None);
            }
            match b.add_signal_fixed(bit, sig) {
                Ok(nb) => {
                    b = nb;
                },
                Err(e) => {
                    proof {
                        lemma_run_fixed_stops(start.signals, items, i as int);
                    }
                    return Err(e);
                },
            }
            i = i + 1;
            proof {
                assert(rest@ =~= items.skip(i as int));
            }
        }
        proof {
            assert(items.take(i as int) =~= items);
            use_type_invariant(&b);
        }
        Ok(b)
    }

    /// Add multiple signals, laying out start bits so signals are back-to-back,
    /// stopping at the first failure.
    ///
    /// Convenience wrapper for [`add_signal()`][Self::add_signal].
    pub fn add_signals(self, sigs: Vec<CANSignal>) -> (r: Result<CANMessageBuilder, CANConstructionError>)
        requires
            auto_items_no_overflow(self@.signals, sigs@),
        ensures
            r matches Ok(b) ==> signals_wf(b@.signals),
            run_auto(self@.signals, sigs@).1 is None ==> (r matches Ok(b) && b@ == (
            MessageBuilderView { signals: run_auto(self@.signals, sigs@).0, ..self@ })),
            run_auto(self@.signals, sigs@).1 matches Some(k) ==> (r matches Err(e)
                && add_error_matches(
                e,
                run_auto(self@.signals, sigs@).0,
                next_free_bit(run_auto(self@.signals, sigs@).0) as u32,
                sigs@[k],
            )),
    {
        let ghost start = self@;
        let ghost items = sigs@;
        let mut b = self;
        let mut rest = sigs;
        let total = rest.len();
        let mut i: usize = 0;
        while rest.len() > 0
            invariant
                rest@ == items.skip(i as int),
                0 <= i <= items.len(),
                items.len() == i + rest@.len(),
                items.len() == total,
                start == self@,
                items == sigs@,
                run_auto(start.signals, items.take(i as int)).1 is None,
                b@ == (MessageBuilderView {
                    signals: run_auto(start.signals, items.take(i as int)).0,
                    ..start
                }),
                auto_items_no_overflow(start.signals, items),
            decreases rest@.len(),
        {
            let sig = rest.remove(0);
            proof {
                assert(items.take(i + 1).drop_last() =~= items.take(i as int));
                assert(items.take(i + 1).last() == items[i as int]);
                assert(run_auto(start.signals, items.take(i as int)).1 is None);
            }
            match b.add_signal(sig) {
                Ok(nb) => {
                    b = nb;
                },
                Err(e) => {
                    proof {
                        lemma_run_auto_stops(start.signals, items, i as int);
                    }
                    return Err(e);
                },
            }
            i = i + 1;
            proof {
                assert(rest@ =~= items.skip(i as int));
            }
        }
        proof {
            assert(items.take(i as int) =~= items);
            use_type_invariant(&b);
        }
        Ok(b)
    }

    /// Make a [`CANMessage`] from this builder.
    ///
    /// The name and the id must have been set (else
    /// [`UninitializedFieldError`](CANConstructionError::UninitializedFieldError)
    /// names the first missing one). Message names must be at least one character
    /// long and must contain only ASCII letters, numbers, and underscores.
    /// The length is the number of bytes that hold the last signal's last bit.
    pub fn build(self) -> (r: Result<CANMessage, CANConstructionError>)
        ensures
            self@.name is None ==> (r matches Err(CANConstructionError::UninitializedFieldError(f))
                && f@ == "name"@),
            self@.name is Some && self@.id is None ==> (r matches Err(
                CANConstructionError::UninitializedFieldError(f),
            ) && f@ == "id"@),
            self@.name is Some && self@.id is Some && self@.name.unwrap().len() == 0 ==> (r matches Err(
                CANConstructionError::MessageNameEmpty,
            )),
            self@.name is Some && self@.id is Some && self@.name.unwrap().len() > 0 && !name_chars_ok(
                self@.name.unwrap(),
            ) ==> (r matches Err(CANConstructionError::MessageNameInvalidChar(n, c)) && n@
                == self@.name.unwrap() && first_bad_char(self@.name.unwrap(), c)),
            self@.name is Some && self@.id is Some && self@.name.unwrap().len() > 0 && name_chars_ok(
                self@.name.unwrap(),
            ) ==> (r matches Ok(m) && m.name@ == self@.name.unwrap() && m.id == self@.id.unwrap()
                && m.cycletime == (match self@.cycletime {
                Some(c) => c,
                None => None,
            }) && m.length == length_for(self@.signals) && opt_text(m.tx_node) == self@.tx_node
                && texts(m.rx_nodes@) == self@.rx_nodes && m.signals@ == self@.signals
                && m.kind == self@.kind && m.wf()),
    {
        proof {
            use_type_invariant(&self);
        }
        let n = self.signals.len();
        let length: u32 = if n == 0 {
            0
        } else {
            let bits = self.signals[n - 1].end() + 1;
            (bits / 8) + if bits % 8 != 0 {
                1
            } else {
                0
            }
        };
        let CANMessageBuilder { name, id, cycletime, tx_node, rx_nodes, signals, kind } = self;
        let name = match name {
            Some(n) => n,
            None => {
                return Err(CANConstructionError::UninitializedFieldError(String::from_str("name")));
            },
        };
        let id = match id {
            Some(i) => i,
            None => {
                return Err(CANConstructionError::UninitializedFieldError(String::from_str("id")));
            },
        };
        let cycletime = match cycletime {
            Some(c) => c,
            None => None,
        };
        let msg = CANMessage { name, id, cycletime, length, tx_node, rx_nodes, signals, kind };
        match Self::check_name_validity(msg.name.as_str()) {
            Ok(()) => Ok(msg),
            Err(e) => Err(e),
        }
    }

    /// Check validity of message name - it should not be empty and should
    /// contain a limited set of characters - `[a-zA-Z0-9_]`.
    fn check_name_validity(name: &str) -> (r: Result<(), CANConstructionError>)
        ensures
            name@.len() == 0 ==> (r matches Err(CANConstructionError::MessageNameEmpty)),
            name@.len() > 0 && !name_chars_ok(name@) ==> (r matches Err(
                CANConstructionError::MessageNameInvalidChar(n, c),
            ) && n@ == name@ && first_bad_char(name@, c)),
            name@.len() > 0 && name_chars_ok(name@) ==> r is Ok,
    {
        let len = name.unicode_len();
        if len == 0 {
            return Err(CANConstructionError::MessageNameEmpty);
        }
        let mut i: usize = 0;
        while i < len
            invariant
                len == name@.len(),
                0 <= i <= len,
                forall|j: int| 0 <= j < i ==> name_char_ok(#[trigger] name@[j]),
            decreases len - i,
        {
            let c = name.get_char(i);
            let ok = ('a' <= c && c <= 'z') || ('A' <= c && c <= 'Z') || ('0' <= c && c <= '9') || c
                == '_';
            if !ok {
                proof {
                    assert(first_bad_char(name@, c)) by {
                        assert(name@[i as int] == c);
                    }
                }
                return Err(CANConstructionError::MessageNameInvalidChar(String::from_str(name), c));
            }
            i = i + 1;
        }
        Ok(())
    }

    /// A copy of this builder.
    pub fn copy(&self) -> (b: CANMessageBuilder)
        ensures
            b@ == (MessageBuilderView { signals: b@.signals, ..self@ }),
            sig_views(b@.signals) == sig_views(self@.signals),
    {
        proof {
            use_type_invariant(self);
        }
        let mut rx: Vec<String> = Vec::new();
        let mut i: usize = 0;
        while i < self.rx_nodes.len()
            invariant
                0 <= i <= self.rx_nodes@.len(),
                texts(rx@) == texts(self.rx_nodes@.take(i as int)),
            decreases self.rx_nodes@.len() - i,
        {
            let ghost old_rx = rx@;
            rx.push(self.rx_nodes[i].clone());
            proof {
                assert(rx@ == old_rx.push(self.rx_nodes@[i as int]));
                assert(texts(rx@) =~= texts(old_rx).push(self.rx_nodes@[i as int]@));
                assert(self.rx_nodes@.take(i + 1) =~= self.rx_nodes@.take(i as int).push(self.rx_nodes@[i as int]));
                assert(texts(rx@) =~= texts(self.rx_nodes@.take(i + 1)));
            }
            i = i + 1;
        }
        proof {
            assert(self.rx_nodes@.take(self.rx_nodes@.len() as int) =~= self.rx_nodes@);
        }
        let signals = copy_signals(&self.signals);
        proof {
            lemma_sig_views_layout(signals@, self.signals@);
        }
        CANMessageBuilder {
            name: match &self.name {
                Some(n) => Some(n.clone()),
                None => None,
            },
            id: self.id,
            cycletime: self.cycletime,
            tx_node: match &self.tx_node {
                Some(t) => Some(t.clone()),
                None => None,
            },
            rx_nodes: rx,
            signals,
            kind: copy_kind(&self.kind),
        }
    }

    /// Replace the signals of this builder by an already validated layout.
    pub(crate) fn with_signals(self, signals: Vec<CANSignalWithPosition>) -> (b: CANMessageBuilder)
        requires
            signals_wf(signals@),
        ensures
            b@ == (MessageBuilderView { signals: signals@, ..self@ }),
    {
        CANMessageBuilder { signals, ..self }
    }

    /// Add a receiving node.
    pub fn rx_node(self, name: &str) -> (b: CANMessageBuilder)
        ensures
            b@ == (MessageBuilderView { rx_nodes: self@.rx_nodes.push(name@), ..self@ }),
    {
        proof {
            use_type_invariant(&self);
        }
        let CANMessageBuilder { name: n, id, cycletime, tx_node, mut rx_nodes, signals, kind } = self;
        let ghost old_rx = rx_nodes@;
        rx_nodes.push(String::from_str(name));
        proof {
            assert(texts(rx_nodes@) =~= texts(old_rx).push(name@));
        }
        CANMessageBuilder { name: n, id, cycletime, tx_node, rx_nodes, signals, kind }
    }
}

} // verus!
