//! Import of networks from DBC files: their nodes, and their messages with the
//! signals laid out by start bit.

use vstd::prelude::*;
use crate::compose::{built_view, lemma_built_view, valid_message_name};
use crate::error::{CANConstructionError, ConstructionErrorView};
use crate::message::{
    lemma_add_error_view, lemma_first_bad, lemma_outcome_on_views, name_error, sig_views, view_add_error,
    view_outcome, CANMessage, CANMessageBuilder, KindView, MessageBuilderView, MessageView, CANMessageKind,
};
use crate::network::{CANNetwork, NetworkView};
use crate::signal::{CANSignal, SignalView};

verus! {

/// A signal of a DBC file: its name, start bit and size in bits.
pub struct DbcSignal {
    pub name: String,
    pub start_bit: u64,
    pub size: u64,
}

/// A message of a DBC file: its name, raw id and signals.
pub struct DbcMessage {
    pub name: String,
    pub id: u32,
    pub signals: Vec<DbcSignal>,
}

/// What the import reads from a DBC file: node names and messages, in file order.
pub struct DbcDesc {
    pub nodes: Vec<String>,
    pub messages: Vec<DbcMessage>,
}

/// Model of a [`DbcSignal`].
pub struct DbcSignalView {
    pub name: Seq<char>,
    pub start_bit: u64,
    pub size: u64,
}

/// Model of a [`DbcMessage`].
pub struct DbcMessageView {
    pub name: Seq<char>,
    pub id: u32,
    pub signals: Seq<DbcSignalView>,
}

/// Model of a [`DbcDesc`].
pub struct DbcView {
    pub nodes: Seq<Seq<char>>,
    pub messages: Seq<DbcMessageView>,
}

impl View for DbcSignal {
    type V = DbcSignalView;

    open spec fn view(&self) -> DbcSignalView {
        DbcSignalView { name: self.name@, start_bit: self.start_bit, size: self.size }
    }
}

impl View for DbcMessage {
    type V = DbcMessageView;

    open spec fn view(&self) -> DbcMessageView {
        DbcMessageView {
            name: self.name@,
            id: self.id,
            signals: self.signals@.map_values(|s: DbcSignal| s@),
        }
    }
}

impl View for DbcDesc {
    type V = DbcView;

    open spec fn view(&self) -> DbcView {
        DbcView {
            nodes: self.nodes@.map_values(|n: String| n@),
            messages: self.messages@.map_values(|m: DbcMessage| m@),
        }
    }
}

/// What `can_dbc` reads from a DBC text: each node name, and each message's name,
/// raw id and signals (name, start bit, size), in file order; `None` when the text
/// is not a DBC file that `can_dbc` accepts.
pub uninterp spec fn parsed_dbc(input: Seq<char>) -> Option<DbcView>;

/// `can_dbc::Dbc::try_from`, with the nodes, messages and signals copied out as
/// plain values (a message id by `MessageId::raw`). The contract names the result
/// and states nothing more of the parser.
#[verifier::external_body]
fn parse_dbc(input: &str) -> (r: Option<DbcDesc>)
    ensures
        match r {
            Some(d) => parsed_dbc(input@) == Some(d@),
            None => parsed_dbc(input@) is None,
        },
{
    let dbc = can_dbc::Dbc::try_from(input).ok()?;
    Some(DbcDesc {
        nodes: dbc.nodes.iter().map(|n| n.0.clone()).collect(),
        messages: dbc.messages.iter().map(|m| DbcMessage {
            name: m.name.clone(),
            id: m.id.raw(),
            signals: m.signals.iter().map(|s| DbcSignal {
                name: s.name.clone(),
                start_bit: s.start_bit,
                size: s.size,
            }).collect(),
        }).collect(),
    })
}

/// Start bit of a DBC signal in the message (the low 32 bits of the DBC's).
pub open spec fn dbc_start(s: DbcSignalView) -> u32 {
    s.start_bit as u32
}

/// Width of a DBC signal (the low 32 bits of the DBC's size).
pub open spec fn dbc_width(s: DbcSignalView) -> u32 {
    s.size as u32
}

/// The model of the signal imported from a DBC signal: its name and width, unsigned,
/// without description, scale, offset or enumerated values.
pub open spec fn signal_model(s: DbcSignalView) -> SignalView {
    SignalView {
        name: s.name,
        width: dbc_width(s),
        description: None,
        twos_complement: false,
        offset: None,
        scale: None,
        values: Map::empty(),
    }
}

/// Start bits and models of the imported signals, in file order.
pub open spec fn signal_items(sigs: Seq<DbcSignalView>) -> Seq<(u32, SignalView)> {
    sigs.map_values(|s: DbcSignalView| (dbc_start(s), signal_model(s)))
}

/// `s` with `x` put before the first item whose start bit is greater than `x`'s.
pub open spec fn insert_by_bit(s: Seq<(u32, SignalView)>, x: (u32, SignalView)) -> Seq<(u32, SignalView)>
    decreases s.len(),
{
    if s.len() == 0 {
        seq![x]
    } else if x.0 < s[0].0 {
        seq![x] + s
    } else {
        seq![s[0]] + insert_by_bit(s.skip(1), x)
    }
}

/// The items ordered by start bit, items of equal start bits in their order
/// (insertion of each item in turn).
pub open spec fn sort_by_bit(t: Seq<(u32, SignalView)>) -> Seq<(u32, SignalView)>
    decreases t.len(),
{
    if t.len() == 0 {
        Seq::empty()
    } else {
        insert_by_bit(sort_by_bit(t.drop_last()), t.last())
    }
}

/// Signal models after adding the items in order, each at its start bit, if every
/// addition succeeds; an item of width 0, or whose last bit would not fit in 32
/// bits, fails.
pub open spec fn spec_add_items(vs: Seq<(u32, SignalView)>, items: Seq<(u32, SignalView)>) -> Option<
    Seq<(u32, SignalView)>,
>
    decreases items.len(),
{
    if items.len() == 0 {
        Some(vs)
    } else {
        match spec_add_items(vs, items.drop_last()) {
            None => None,
            Some(v2) => {
                let (bit, sv) = items.last();
                if sv.width == 0 || bit + sv.width > u32::MAX {
                    None
                } else if view_outcome(v2, bit, sv) is Added {
                    Some(v2.push((bit, sv)))
                } else {
                    None
                }
            },
        }
    }
}

/// Some DBC signal has size 0 in its low 32 bits.
pub open spec fn has_zero_width(sigs: Seq<DbcSignalView>) -> bool {
    exists|i: int| 0 <= i < sigs.len() && dbc_width(#[trigger] sigs[i]) == 0
}

/// The model of the message imported from a DBC message, if importing it succeeds:
/// its signals added by start bit, its raw id, no cycle time and no transmitter.
pub open spec fn spec_dbc_message(m: DbcMessageView) -> Option<MessageView> {
    if has_zero_width(m.signals) {
        None
    } else {
        match spec_add_items(Seq::empty(), sort_by_bit(signal_items(m.signals))) {
            None => None,
            Some(vs) => if valid_message_name(m.name) {
                Some(built_view(m.name, m.id, None, None, vs, KindView::Independent))
            } else {
                None
            },
        }
    }
}

/// The network after adding the nodes in order, if every addition succeeds.
pub open spec fn spec_add_dbc_nodes(n: NetworkView, names: Seq<Seq<char>>) -> Option<NetworkView>
    decreases names.len(),
{
    if names.len() == 0 {
        Some(n)
    } else {
        match spec_add_dbc_nodes(n, names.drop_last()) {
            None => None,
            Some(n2) => n2.add_node(names.last()),
        }
    }
}

/// The network after importing and inserting the messages in order, if every step
/// succeeds.
pub open spec fn spec_add_dbc_messages(n: NetworkView, ms: Seq<DbcMessageView>) -> Option<NetworkView>
    decreases ms.len(),
{
    if ms.len() == 0 {
        Some(n)
    } else {
        match spec_add_dbc_messages(n, ms.drop_last()) {
            None => None,
            Some(n2) => match spec_dbc_message(ms.last()) {
                None => None,
                Some(mv) => n2.insert_msg(mv),
            },
        }
    }
}

/// The network after importing a DBC description: its nodes, then its messages.
pub open spec fn spec_import(n: NetworkView, d: DbcView) -> Option<NetworkView> {
    match spec_add_dbc_nodes(n, d.nodes) {
        None => None,
        Some(n2) => spec_add_dbc_messages(n2, d.messages),
    }
}

/// Why a DBC import failed.
#[derive(Debug)]
pub enum DbcImportError {
    /// The text is not a DBC file.
    InvalidDbc,
    /// The signal's last bit lies beyond 32 bits.
    SignalOutOfRange(String),
    /// Building a signal or a message, or adding a node or a message, failed.
    Construction(CANConstructionError),
}

/// Model of a [`DbcImportError`]: construction errors by their model, texts in
/// place of strings.
pub enum DbcImportErrorView {
    InvalidDbc,
    SignalOutOfRange(Seq<char>),
    Construction(ConstructionErrorView),
}

impl View for DbcImportError {
    type V = DbcImportErrorView;

    open spec fn view(&self) -> DbcImportErrorView {
        match self {
            DbcImportError::InvalidDbc => DbcImportErrorView::InvalidDbc,
            DbcImportError::SignalOutOfRange(n) => DbcImportErrorView::SignalOutOfRange(n@),
            DbcImportError::Construction(e) => DbcImportErrorView::Construction(e@),
        }
    }
}

/// The message of a DBC import error.
pub open spec fn import_error_text(e: DbcImportErrorView) -> Seq<char> {
    match e {
        DbcImportErrorView::InvalidDbc => "Could not parse DBC file."@,
        DbcImportErrorView::SignalOutOfRange(n) => "Signal `"@ + n + "` ends beyond the 32-bit range of start bits."@,
        DbcImportErrorView::Construction(c) => crate::error::error_text(c),
    }
}

impl DbcImportError {
    /// The message of this error, for people.
    pub fn to_text(&self) -> (r: String)
        ensures
            r@ == import_error_text(self@),
    {
        match self {
            DbcImportError::InvalidDbc => String::from_str("Could not parse DBC file."),
            DbcImportError::SignalOutOfRange(n) => {
                let mut s = String::from_str("Signal `");
                s.append(n.as_str());
                s.append("` ends beyond the 32-bit range of start bits.");
                s
            },
            DbcImportError::Construction(c) => c.to_text(),
        }
    }
}

/// The index of the first DBC signal of width 0, when there is one.
pub open spec fn first_zero_width(sigs: Seq<DbcSignalView>) -> int {
    choose|i: int|
        0 <= i < sigs.len() && dbc_width(#[trigger] sigs[i]) == 0 && forall|j: int|
            0 <= j < i ==> dbc_width(#[trigger] sigs[j]) != 0
}

/// A signal of width 0 after signals of other widths is the first of width 0.
proof fn lemma_first_zero_width(sigs: Seq<DbcSignalView>, i: int)
    requires
        0 <= i < sigs.len(),
        dbc_width(sigs[i]) == 0,
        forall|j: int| 0 <= j < i ==> dbc_width(#[trigger] sigs[j]) != 0,
    ensures
        first_zero_width(sigs) == i,
{
    let k = first_zero_width(sigs);
    assert(0 <= k < sigs.len() && dbc_width(sigs[k]) == 0);
    if k < i {
        assert(dbc_width(sigs[k]) != 0);
    } else if i < k {
        assert(dbc_width(sigs[i]) != 0);
    }
}

/// The error of adding item `x` after the signal models `vs`, when that fails: a
/// width of 0 or a last bit past 32 bits, or an addition the message refuses.
pub open spec fn add_item_error(vs: Seq<(u32, SignalView)>, x: (u32, SignalView)) -> DbcImportErrorView {
    if x.1.width == 0 || x.0 + x.1.width > u32::MAX {
        DbcImportErrorView::SignalOutOfRange(x.1.name)
    } else {
        DbcImportErrorView::Construction(view_add_error(vs, x.0, x.1))
    }
}

/// The error of the first item that cannot be added, when one cannot.
pub open spec fn add_items_error(vs: Seq<(u32, SignalView)>, items: Seq<(u32, SignalView)>) -> DbcImportErrorView
    decreases items.len(),
{
    if items.len() == 0 {
        vstd::pervasive::arbitrary()
    } else {
        match spec_add_items(vs, items.drop_last()) {
            None => add_items_error(vs, items.drop_last()),
            Some(v2) => add_item_error(v2, items.last()),
        }
    }
}

/// The error of importing a DBC message, when that fails: the first signal of
/// width 0, a signal that cannot be added, or a name that is not valid.
pub open spec fn dbc_message_error(m: DbcMessageView) -> DbcImportErrorView {
    if has_zero_width(m.signals) {
        DbcImportErrorView::Construction(
            ConstructionErrorView::SignalHasZeroWidth(m.signals[first_zero_width(m.signals)].name),
        )
    } else {
        match spec_add_items(Seq::empty(), sort_by_bit(signal_items(m.signals))) {
            None => add_items_error(Seq::empty(), sort_by_bit(signal_items(m.signals))),
            Some(_) => DbcImportErrorView::Construction(name_error(m.name)),
        }
    }
}

/// The error of the first node that cannot be added, when one cannot.
pub open spec fn add_dbc_nodes_error(n: NetworkView, names: Seq<Seq<char>>) -> DbcImportErrorView
    decreases names.len(),
{
    if names.len() == 0 {
        vstd::pervasive::arbitrary()
    } else {
        match spec_add_dbc_nodes(n, names.drop_last()) {
            None => add_dbc_nodes_error(n, names.drop_last()),
            Some(n2) => DbcImportErrorView::Construction(n2.add_node_error(names.last())),
        }
    }
}

/// The error of importing the message `m` and inserting it into `n`, when that fails.
pub open spec fn dbc_message_step_error(n: NetworkView, m: DbcMessageView) -> DbcImportErrorView {
    match spec_dbc_message(m) {
        None => dbc_message_error(m),
        Some(mv) => DbcImportErrorView::Construction(n.insert_msg_error(mv)),
    }
}

/// The error of the first message that cannot be imported and inserted, when one cannot.
pub open spec fn add_dbc_messages_error(n: NetworkView, ms: Seq<DbcMessageView>) -> DbcImportErrorView
    decreases ms.len(),
{
    if ms.len() == 0 {
        vstd::pervasive::arbitrary()
    } else {
        match spec_add_dbc_messages(n, ms.drop_last()) {
            None => add_dbc_messages_error(n, ms.drop_last()),
            Some(n2) => dbc_message_step_error(n2, ms.last()),
        }
    }
}

/// The network after adding the nodes in order, up to the first that fails (all of
/// them when none fails).
pub open spec fn dbc_nodes_reached(n: NetworkView, names: Seq<Seq<char>>) -> NetworkView
    decreases names.len(),
{
    if names.len() == 0 {
        n
    } else {
        match spec_add_dbc_nodes(n, names.drop_last()) {
            None => dbc_nodes_reached(n, names.drop_last()),
            Some(n2) => match n2.add_node(names.last()) {
                Some(n3) => n3,
                None => n2,
            },
        }
    }
}

/// The network after importing and inserting the messages in order, up to the
/// first that fails (all of them when none fails).
pub open spec fn dbc_messages_reached(n: NetworkView, ms: Seq<DbcMessageView>) -> NetworkView
    decreases ms.len(),
{
    if ms.len() == 0 {
        n
    } else {
        match spec_add_dbc_messages(n, ms.drop_last()) {
            None => dbc_messages_reached(n, ms.drop_last()),
            Some(n2) => match spec_add_dbc_message(n2, ms.last()) {
                Some(n3) => n3,
                None => n2,
            },
        }
    }
}

/// The network after importing a DBC description into `n`, up to the first step
/// that fails: the nodes and messages added before it stay.
pub open spec fn import_reached(n: NetworkView, d: DbcView) -> NetworkView {
    match spec_add_dbc_nodes(n, d.nodes) {
        None => dbc_nodes_reached(n, d.nodes),
        Some(n2) => dbc_messages_reached(n2, d.messages),
    }
}

/// The error of importing a DBC description into `n`, when that fails.
pub open spec fn import_error(n: NetworkView, d: DbcView) -> DbcImportErrorView {
    match spec_add_dbc_nodes(n, d.nodes) {
        None => add_dbc_nodes_error(n, d.nodes),
        Some(n2) => add_dbc_messages_error(n2, d.messages),
    }
}

/// Import of networks from DBC files.
pub struct DbcImporter;

proof fn lemma_insert_by_bit(s: Seq<(u32, SignalView)>, x: (u32, SignalView), p: int)
    requires
        0 <= p <= s.len(),
        forall|k: int| 0 <= k < p ==> !(x.0 < (#[trigger] s[k]).0),
        p == s.len() || x.0 < s[p].0,
    ensures
        insert_by_bit(s, x) == s.take(p) + seq![x] + s.skip(p),
    decreases s.len(),
{
    if s.len() == 0 {
        assert(s.take(p) + seq![x] + s.skip(p) =~= seq![x]);
    } else if p == 0 {
        assert(s.take(0) + seq![x] + s.skip(0) =~= seq![x] + s);
    } else {
        assert forall|k: int| 0 <= k < p - 1 implies !(x.0 < (#[trigger] s.skip(1)[k]).0) by {
            assert(s.skip(1)[k] == s[k + 1]);
        }
        if p < s.len() {
            assert(s.skip(1)[p - 1] == s[p]);
        }
        lemma_insert_by_bit(s.skip(1), x, p - 1);
        assert(seq![s[0]] + (s.skip(1).take(p - 1) + seq![x] + s.skip(1).skip(p - 1)) =~= s.take(p)
            + seq![x] + s.skip(p));
    }
}

/// Start bits and models of positioned items.
pub open spec fn item_views(v: Seq<(u32, CANSignal)>) -> Seq<(u32, SignalView)> {
    v.map_values(|p: (u32, CANSignal)| (p.0, p.1@))
}

/// Sort items by start bit, keeping the order of items with equal start bits.
fn sort_items(v: Vec<(u32, CANSignal)>) -> (r: Vec<(u32, CANSignal)>)
    ensures
        item_views(r@) == sort_by_bit(item_views(v@)),
{
    let ghost orig = item_views(v@);
    let ghost ov = v@;
    let mut out: Vec<(u32, CANSignal)> = Vec::new();
    let mut rest = v;
    let mut i: usize = 0;
    let total = rest.len();
    while rest.len() > 0
        invariant
            0 <= i <= orig.len(),
            total == orig.len(),
            i + rest@.len() == orig.len(),
            item_views(rest@) == orig.skip(i as int),
            item_views(out@) == sort_by_bit(orig.take(i as int)),
            orig == item_views(ov),
        decreases rest@.len(),
    {
        let ghost rest0 = rest@;
        let ghost out0 = item_views(out@);
        let item = rest.remove(0);
        proof {
            assert(rest@ =~= rest0.skip(1));
            assert(item_views(rest0)[0] == orig.skip(i as int)[0]);
            assert forall|k: int| 0 <= k < rest@.len() implies item_views(rest@)[k] == orig.skip(i + 1)[k] by {
                assert(item_views(rest0)[k + 1] == orig.skip(i as int)[k + 1]);
                assert(rest@[k] == rest0[k + 1]);
            }
            assert(item_views(rest@) =~= orig.skip(i + 1));
        }
        let mut pos: usize = 0;
        while pos < out.len() && !(item.0 < out[pos].0)
            invariant
                item_views(out@) == out0,
                0 <= pos <= out@.len(),
                forall|k: int| 0 <= k < pos ==> !(item.0 < (#[trigger] out0[k]).0),
            decreases out@.len() - pos,
        {
            proof {
                assert(out0[pos as int] == (out@[pos as int].0, out@[pos as int].1@));
            }
            pos = pos + 1;
        }
        proof {
            if pos < out0.len() {
                assert(out0[pos as int] == (out@[pos as int].0, out@[pos as int].1@));
            }
            lemma_insert_by_bit(out0, (item.0, item.1@), pos as int);
            assert(orig.take(i + 1).drop_last() =~= orig.take(i as int));
            assert(orig.take(i + 1).last() == orig[i as int]);
            assert(orig[i as int] == (item.0, item.1@));
        }
        let ghost ob = out@;
        out.insert(pos, item);
        proof {
            assert(out@ =~= ob.take(pos as int) + seq![item] + ob.skip(pos as int));
            assert(item_views(out@) =~= out0.take(pos as int) + seq![(item.0, item.1@)] + out0.skip(pos as int));
        }
        i = i + 1;
    }
    proof {
        assert(orig.take(i as int) =~= orig);
    }
    out
}

/// One step of [`spec_add_items`]: the signal models after adding `x`, if that succeeds.
pub open spec fn spec_add_item(vs: Seq<(u32, SignalView)>, x: (u32, SignalView)) -> Option<
    Seq<(u32, SignalView)>,
> {
    if x.1.width == 0 || x.0 + x.1.width > u32::MAX {
        None
    } else if view_outcome(vs, x.0, x.1) is Added {
        Some(vs.push(x))
    } else {
        None
    }
}

/// Once an item fails, adding the items fails.
proof fn lemma_add_items_stop(vs: Seq<(u32, SignalView)>, items: Seq<(u32, SignalView)>, k: int)
    requires
        0 <= k < items.len(),
        spec_add_items(vs, items.take(k)) is Some,
        spec_add_item(spec_add_items(vs, items.take(k)).unwrap(), items[k]) is None,
    ensures
        spec_add_items(vs, items) is None,
        add_items_error(vs, items) == add_item_error(spec_add_items(vs, items.take(k)).unwrap(), items[k]),
    decreases items.len() - k,
{
    if k == items.len() - 1 {
        assert(items.drop_last() =~= items.take(k));
    } else {
        assert(items.drop_last().take(k) =~= items.take(k));
        assert(items.drop_last()[k] == items[k]);
        lemma_add_items_stop(vs, items.drop_last(), k);
    }
}

/// Once a node cannot be added, adding the nodes fails.
proof fn lemma_add_nodes_stop(n: NetworkView, names: Seq<Seq<char>>, k: int)
    requires
        0 <= k < names.len(),
        spec_add_dbc_nodes(n, names.take(k)) is Some,
        spec_add_dbc_nodes(n, names.take(k)).unwrap().add_node(names[k]) is None,
    ensures
        spec_add_dbc_nodes(n, names) is None,
        add_dbc_nodes_error(n, names) == DbcImportErrorView::Construction(
            spec_add_dbc_nodes(n, names.take(k)).unwrap().add_node_error(names[k]),
        ),
        dbc_nodes_reached(n, names) == spec_add_dbc_nodes(n, names.take(k)).unwrap(),
    decreases names.len() - k,
{
    if k == names.len() - 1 {
        assert(names.drop_last() =~= names.take(k));
    } else {
        assert(names.drop_last().take(k) =~= names.take(k));
        assert(names.drop_last()[k] == names[k]);
        lemma_add_nodes_stop(n, names.drop_last(), k);
    }
}

/// One step of [`spec_add_dbc_messages`].
pub open spec fn spec_add_dbc_message(n: NetworkView, m: DbcMessageView) -> Option<NetworkView> {
    match spec_dbc_message(m) {
        None => None,
        Some(mv) => n.insert_msg(mv),
    }
}

/// Once a message fails, adding the messages fails.
proof fn lemma_add_messages_stop(n: NetworkView, ms: Seq<DbcMessageView>, k: int)
    requires
        0 <= k < ms.len(),
        spec_add_dbc_messages(n, ms.take(k)) is Some,
        spec_add_dbc_message(spec_add_dbc_messages(n, ms.take(k)).unwrap(), ms[k]) is None,
    ensures
        spec_add_dbc_messages(n, ms) is None,
        add_dbc_messages_error(n, ms) == dbc_message_step_error(
            spec_add_dbc_messages(n, ms.take(k)).unwrap(),
            ms[k],
        ),
        dbc_messages_reached(n, ms) == spec_add_dbc_messages(n, ms.take(k)).unwrap(),
    decreases ms.len() - k,
{
    if k == ms.len() - 1 {
        assert(ms.drop_last() =~= ms.take(k));
    } else {
        assert(ms.drop_last().take(k) =~= ms.take(k));
        assert(ms.drop_last()[k] == ms[k]);
        lemma_add_messages_stop(n, ms.drop_last(), k);
    }
}

impl DbcImporter {
    /// The signal imported from a DBC signal: its name and its width, the size's low
    /// 32 bits; a width of 0 is refused.
    pub fn translate_signal(dbc_signal: &DbcSignal) -> (r: Result<CANSignal, CANConstructionError>)
        ensures
            dbc_width(dbc_signal@) == 0 ==> (r matches Err(
                CANConstructionError::SignalHasZeroWidth(n),
            ) && n@ == dbc_signal.name@),
            dbc_width(dbc_signal@) != 0 ==> (r matches Ok(s) && s@ == signal_model(dbc_signal@)),
    {
        let r = CANSignal::builder().name(dbc_signal.name.as_str()).width(dbc_signal.size as u32).build();
        proof {
            if r is Ok {
                assert(r->Ok_0@.values =~= Map::<Seq<char>, u64>::empty());
            }
        }
        r
    }

    /// The message imported from a DBC message: every signal translated in file
    /// order, then added at its start bit in order of start bits, then the message
    /// built with the DBC's name and raw id.
    pub fn translate_message(m: &DbcMessage) -> (r: Result<CANMessage, DbcImportError>)
        ensures
            match spec_dbc_message(m@) {
                Some(v) => r matches Ok(mm) && mm@ == v,
                None => r matches Err(e) && e@ == dbc_message_error(m@),
            },
    {
        let ghost sigs = m@.signals;
        let mut items: Vec<(u32, CANSignal)> = Vec::new();
        let mut i: usize = 0;
        while i < m.signals.len()
            invariant
                sigs == m@.signals,
                0 <= i <= sigs.len(),
                item_views(items@) == signal_items(sigs).take(i as int),
                forall|k: int| 0 <= k < i ==> dbc_width(#[trigger] sigs[k]) != 0,
            decreases sigs.len() - i,
        {
            let s = &m.signals[i];
            proof {
                assert(sigs[i as int] == s@);
            }
            match Self::translate_signal(s) {
                Ok(sig) => {
                    let ghost before = items@;
                    items.push((s.start_bit as u32, sig));
                    proof {
                        assert(signal_items(sigs).take(i + 1) =~= signal_items(sigs).take(i as int).push(
                            signal_items(sigs)[i as int],
                        ));
                        assert(item_views(items@) =~= item_views(before).push((s.start_bit as u32, sig@)));
                    }
                },
                Err(e) => {
                    proof {
                        assert(has_zero_width(sigs));
                        lemma_first_zero_width(sigs, i as int);
                    }
                    return Err(DbcImportError::Construction(e));
                },
            }
            i = i + 1;
        }
        proof {
            assert(signal_items(sigs).take(sigs.len() as int) =~= signal_items(sigs));
            assert(!has_zero_width(sigs));
        }
        let ghost sorted = sort_by_bit(signal_items(sigs));
        let mut rest = sort_items(items);
        let mut b = CANMessage::builder().name(m.name.as_str()).id(m.id);
        let ghost start = b@;
        let mut j: usize = 0;
        let total = rest.len();
        while rest.len() > 0
            invariant
                total == sorted.len(),
                0 <= j <= sorted.len(),
                j + rest@.len() == sorted.len(),
                item_views(rest@) == sorted.skip(j as int),
                b@ == (MessageBuilderView { signals: b@.signals, ..start }),
                spec_add_items(Seq::empty(), sorted.take(j as int)) == Some(sig_views(b@.signals)),
                start == (MessageBuilderView {
                    name: Some(m.name@),
                    id: Some(m.id),
                    ..MessageBuilderView::empty(CANMessageKind::Independent)
                }),
                !has_zero_width(sigs),
                sorted == sort_by_bit(signal_items(sigs)),
                sigs == m@.signals,
            decreases rest@.len(),
        {
            let ghost rest0 = rest@;
            let ghost vs = sig_views(b@.signals);
            let (bit, sig) = rest.remove(0);
            proof {
                assert(rest@ =~= rest0.skip(1));
                assert(item_views(rest0)[0] == sorted.skip(j as int)[0]);
                assert(sorted[j as int] == (bit, sig@));
                assert forall|k: int| 0 <= k < rest@.len() implies item_views(rest@)[k] == sorted.skip(j + 1)[k] by {
                    assert(item_views(rest0)[k + 1] == sorted.skip(j as int)[k + 1]);
                    assert(rest@[k] == rest0[k + 1]);
                }
                assert(item_views(rest@) =~= sorted.skip(j + 1));
                assert(sorted.take(j + 1).drop_last() =~= sorted.take(j as int));
                assert(sorted.take(j + 1).last() == sorted[j as int]);
            }
            if sig.width == 0 || (bit as u64) + (sig.width as u64) > u32::MAX as u64 {
                proof {
                    assert(spec_add_item(vs, sorted[j as int]) is None);
                    lemma_add_items_stop(Seq::empty(), sorted, j as int);
                }
                return Err(DbcImportError::SignalOutOfRange(sig.name));
            }
            proof {
                lemma_outcome_on_views(b@.signals, bit, sig);
            }
            let ghost b_signals = b@.signals;
            let ghost sig_model = sig;
            b = match b.add_signal_fixed(bit, sig) {
                Ok(nb) => nb,
                Err(e) => {
                    proof {
                        assert(spec_add_item(vs, sorted[j as int]) is None);
                        lemma_add_items_stop(Seq::empty(), sorted, j as int);
                        lemma_add_error_view(e, b_signals, bit, sig_model);
                    }
                    return Err(DbcImportError::Construction(e));
                },
            };
            proof {
                assert(spec_add_item(vs, sorted[j as int]) == Some(sig_views(b@.signals)));
            }
            j = j + 1;
        }
        proof {
            assert(sorted.take(j as int) =~= sorted);
        }
        let ghost bv = b@;
        match b.build() {
            Ok(mm) => {
                proof {
                    lemma_built_view(mm, bv);
                }
                Ok(mm)
            },
            Err(e) => {
                proof {
                    if e is MessageNameInvalidChar {
                        lemma_first_bad(m.name@, e->MessageNameInvalidChar_1);
                    }
                }
                Err(DbcImportError::Construction(e))
            },
        }
    }

    /// Import a DBC description into the network: add its nodes, then import and
    /// insert its messages, stopping at the first failure.
    pub fn import_desc(d: DbcDesc, net: &mut CANNetwork) -> (r: Result<(), DbcImportError>)
        ensures
            match spec_import(old(net)@, d@) {
                Some(v) => r is Ok && final(net)@ == v,
                None => r matches Err(e) && e@ == import_error(old(net)@, d@),
            },
            final(net)@ == import_reached(old(net)@, d@),
    {
        let ghost dv = d@;
        let DbcDesc { nodes, messages } = d;
        let mut i: usize = 0;
        while i < nodes.len()
            invariant
                dv == d@,
                dv.nodes == nodes@.map_values(|n: String| n@),
                dv.messages == messages@.map_values(|m: DbcMessage| m@),
                0 <= i <= nodes@.len(),
                spec_add_dbc_nodes(old(net)@, dv.nodes.take(i as int)) == Some(net@),
            decreases nodes@.len() - i,
        {
            let ghost n0 = net@;
            proof {
                assert(dv.nodes.take(i + 1).drop_last() =~= dv.nodes.take(i as int));
                assert(dv.nodes.take(i + 1).last() == dv.nodes[i as int]);
                assert(dv.nodes[i as int] == nodes@[i as int]@);
            }
            match net.add_node(nodes[i].as_str()) {
                Ok(()) => {},
                Err(e) => {
                    proof {
                        lemma_add_nodes_stop(old(net)@, dv.nodes, i as int);
                    }
                    return Err(DbcImportError::Construction(e));
                },
            }
            i = i + 1;
        }
        proof {
            assert(dv.nodes.take(dv.nodes.len() as int) =~= dv.nodes);
        }
        let ghost after_nodes = net@;
        let mut j: usize = 0;
        while j < messages.len()
            invariant
                dv == d@,
                dv.messages == messages@.map_values(|m: DbcMessage| m@),
                0 <= j <= messages@.len(),
                spec_add_dbc_nodes(old(net)@, dv.nodes) == Some(after_nodes),
                spec_add_dbc_messages(after_nodes, dv.messages.take(j as int)) == Some(net@),
            decreases messages@.len() - j,
        {
            proof {
                assert(dv.messages.take(j + 1).drop_last() =~= dv.messages.take(j as int));
                assert(dv.messages.take(j + 1).last() == dv.messages[j as int]);
                assert(dv.messages[j as int] == messages@[j as int]@);
            }
            let msg = match Self::translate_message(&messages[j]) {
                Ok(mm) => mm,
                Err(e) => {
                    proof {
                        lemma_add_messages_stop(after_nodes, dv.messages, j as int);
                    }
                    return Err(e);
                },
            };
            match net.insert_msg(msg) {
                Ok(()) => {},
                Err(e) => {
                    proof {
                        lemma_add_messages_stop(after_nodes, dv.messages, j as int);
                    }
                    return Err(DbcImportError::Construction(e));
                },
            }
            j = j + 1;
        }
        proof {
            assert(dv.messages.take(dv.messages.len() as int) =~= dv.messages);
        }
        Ok(())
    }

    /// Import the nodes and messages of a DBC text into the network. A text that is
    /// not a DBC file leaves the network unchanged.
    pub fn import_network(input: String, net: &mut CANNetwork) -> (r: Result<(), DbcImportError>)
        ensures
            match parsed_dbc(input@) {
                None => r matches Err(DbcImportError::InvalidDbc) && final(net)@ == old(net)@,
                Some(d) => final(net)@ == import_reached(old(net)@, d) && match spec_import(old(net)@, d) {
                    Some(v) => r is Ok && final(net)@ == v,
                    None => r matches Err(e) && e@ == import_error(old(net)@, d),
                },
            },
    {
        match parse_dbc(input.as_str()) {
            Some(d) => Self::import_desc(d, net),
            None => Err(DbcImportError::InvalidDbc),
        }
    }
}

} // verus!
