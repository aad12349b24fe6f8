//! Composition of a [`CANNetwork`] from a network definition ([`YDesc`]).
//!
//! Signals, messages, templates and nodes are built in the order the definition
//! gives them; errors raised while building are handed back with the context in
//! which they arose.

use vstd::prelude::*;
use crate::error::{CANConstructionError, ConstructionErrorView};
use crate::signal::{
    CANSignal, CANSignalBuilder, SignalBuilderView, SignalView, lemma_next_inferred_is_free, min_width_for,
    opt_text,
};
use crate::enum_table::{has_value, lemma_name_of_value, name_of_value};
use crate::message::{
    instance_view, kind_view, length_for, name_chars_ok, texts, CANMessage, KindView, MessageView,
    view_length, lemma_instance_view, lemma_outcome_on_views, lemma_add_error_view, view_add_error,
    lemma_first_bad, name_error, next_free_bit, sig_views, view_next_free_bit, view_no_overflow,
    view_outcome, CANMessageBuilder, MessageBuilderView,
};
use crate::ymlfmt::{
    RxDirective, RxListOrDirective, YDesc, YEnumeratedValue, YMessage, YMessageTemplate, YNode, YSignal,
};
use crate::network::{
    view_has_message, view_has_node, view_message_index, view_node_index, CANNetwork, NetworkView,
};

verus! {

/// An error while composing a network: a construction error or a message, inside
/// zero or more layers of context (outermost first).
#[derive(Debug)]
pub enum ComposeError {
    /// An error raised while constructing signals, messages, nodes or the network.
    Construction(CANConstructionError),
    /// A problem with the definition itself.
    Message(String),
    /// Context around an inner error.
    Context(String, Box<ComposeError>),
}

/// Model of a [`ComposeError`]: construction errors by their model, texts in place
/// of strings.
pub enum ComposeErrorView {
    Construction(ConstructionErrorView),
    Message(Seq<char>),
    Context(Seq<char>, Box<ComposeErrorView>),
}

/// The model of a compose error, layer by layer.
pub open spec fn compose_error_view(e: ComposeError) -> ComposeErrorView
    decreases e,
{
    match e {
        ComposeError::Construction(c) => ComposeErrorView::Construction(c@),
        ComposeError::Message(t) => ComposeErrorView::Message(t@),
        ComposeError::Context(t, inner) => ComposeErrorView::Context(
            t@,
            Box::new(compose_error_view(*inner)),
        ),
    }
}

impl View for ComposeError {
    type V = ComposeErrorView;

    open spec fn view(&self) -> ComposeErrorView {
        compose_error_view(*self)
    }
}

/// The messages of the layers of a compose error, outermost first: each context
/// text, then the message of the innermost error.
pub open spec fn layer_texts(e: ComposeErrorView) -> Seq<Seq<char>>
    decreases e,
{
    match e {
        ComposeErrorView::Construction(c) => seq![crate::error::error_text(c)],
        ComposeErrorView::Message(m) => seq![m],
        ComposeErrorView::Context(t, inner) => seq![t] + layer_texts(*inner),
    }
}

/// Appends the messages of the layers of `e` to `out`.
fn push_layers(e: &ComposeError, out: &mut Vec<String>)
    ensures
        string_texts(final(out)@) == string_texts(old(out)@) + layer_texts(e@),
    decreases e,
{
    match e {
        ComposeError::Construction(c) => {
            out.push(c.to_text());
        },
        ComposeError::Message(m) => {
            out.push(m.clone());
        },
        ComposeError::Context(t, inner) => {
            out.push(t.clone());
            let ghost mid = out@;
            push_layers(inner, out);
            proof {
                assert(string_texts(mid) =~= string_texts(old(out)@).push(t@));
            }
        },
    }
    proof {
        assert(string_texts(out@) =~= string_texts(old(out)@) + layer_texts(e@));
    }
}

impl ComposeError {
    /// The messages of the layers of this error, outermost first.
    pub fn layers(&self) -> (r: Vec<String>)
        ensures
            string_texts(r@) == layer_texts(self@),
    {
        let mut out: Vec<String> = Vec::new();
        push_layers(self, &mut out);
        proof {
            assert(string_texts(Seq::<String>::empty()) =~= Seq::<Seq<char>>::empty());
        }
        out
    }
}

/// The model of a context layer with the text `t` around `inner`.
pub open spec fn context_view(t: Seq<char>, inner: ComposeErrorView) -> ComposeErrorView {
    ComposeErrorView::Context(t, Box::new(inner))
}

/// The model of a construction error.
pub open spec fn construction_view(e: ConstructionErrorView) -> ComposeErrorView {
    ComposeErrorView::Construction(e)
}

/// `a`, then `b` in back quotes, then `c`.
pub open spec fn quoted_text(a: Seq<char>, b: Seq<char>, c: Seq<char>) -> Seq<char> {
    a + seq!['`'] + b + seq!['`'] + c
}

/// The name and the raw value that adding `v` to the builder model `c` adds.
pub open spec fn enum_entry(c: SignalBuilderView, v: YEnumeratedValue) -> (Seq<char>, u64) {
    match v {
        YEnumeratedValue::Auto(n) => (n@, c.next_inferred_value() as u64),
        YEnumeratedValue::Exact(m) => (m@[0].0@, m@[0].1),
    }
}

/// The error of adding the enumerated value `v` to the builder model `c`, when
/// that fails: the name is taken, or else the value is.
pub open spec fn add_enum_error(c: SignalBuilderView, v: YEnumeratedValue) -> ConstructionErrorView {
    let (name, val) = enum_entry(c, v);
    if c.values.dom().contains(name) {
        ConstructionErrorView::EnumeratedValueNameAlreadyExists(name, c.values[name])
    } else {
        ConstructionErrorView::EnumeratedValueValueAlreadyNamed(name_of_value(c.values, val), val)
    }
}

/// The builder model after adding one enumerated value, if that succeeds.
pub open spec fn spec_add_value(c: SignalBuilderView, name: Seq<char>, val: u64) -> Option<
    SignalBuilderView,
> {
    if c.values.dom().contains(name) || has_value(c.values, val) {
        None
    } else {
        Some(
            SignalBuilderView {
                values: c.values.insert(name, val),
                highest: Some(
                    match c.highest {
                        Some(h) => if h < val {
                            val
                        } else {
                            h
                        },
                        None => val,
                    },
                ),
                ..c
            },
        )
    }
}

/// The builder model after adding the enumerated value `v`, if that succeeds.
pub open spec fn spec_add_enum(c: SignalBuilderView, v: YEnumeratedValue) -> Option<SignalBuilderView> {
    match v {
        YEnumeratedValue::Auto(n) => spec_add_value(c, n@, c.next_inferred_value() as u64),
        YEnumeratedValue::Exact(m) => spec_add_value(c, m@[0].0@, m@[0].1),
    }
}

/// The builder model after adding the enumerated values in order, if all succeed.
pub open spec fn spec_enum_values(b: SignalBuilderView, vals: Seq<YEnumeratedValue>) -> Option<
    SignalBuilderView,
>
    decreases vals.len(),
{
    if vals.len() == 0 {
        Some(b)
    } else {
        match spec_enum_values(b, vals.drop_last()) {
            None => None,
            Some(c) => spec_add_enum(c, vals.last()),
        }
    }
}

/// The error of the first enumerated value that cannot be added, when one cannot.
pub open spec fn enum_values_error(b: SignalBuilderView, vals: Seq<YEnumeratedValue>) -> ConstructionErrorView
    decreases vals.len(),
{
    if vals.len() == 0 {
        vstd::pervasive::arbitrary()
    } else {
        match spec_enum_values(b, vals.drop_last()) {
            None => enum_values_error(b, vals.drop_last()),
            Some(c) => add_enum_error(c, vals.last()),
        }
    }
}

/// Adding `v` to the builder model `c` does not overflow and names one value.
pub open spec fn enum_value_safe(c: SignalBuilderView, v: YEnumeratedValue) -> bool {
    match v {
        YEnumeratedValue::Auto(_) => c.highest != Some(u64::MAX),
        YEnumeratedValue::Exact(m) => m@.len() == 1,
    }
}

/// Every enumerated value that the additions reach can be added without a panic.
pub open spec fn enum_values_safe(b: SignalBuilderView, vals: Seq<YEnumeratedValue>) -> bool {
    forall|k: int|
        0 <= k < vals.len() ==> match #[trigger] spec_enum_values(b, vals.take(k)) {
            Some(c) => enum_value_safe(c, vals[k]),
            None => true,
        }
}

/// The builder model a signal description starts from.
pub open spec fn signal_start(y: YSignal, name: Seq<char>) -> SignalBuilderView {
    SignalBuilderView {
        name: Some(name),
        description: Some(opt_text(y.description)),
        twos_complement: Some(y.twos_complement),
        scale: Some(opt_text(y.scale)),
        offset: Some(opt_text(y.offset)),
        ..SignalBuilderView::empty()
    }
}

/// The signal described by `y` under the name `name`, if building it succeeds.
pub open spec fn spec_to_signal(y: YSignal, name: Seq<char>) -> Option<SignalView> {
    match spec_enum_values(signal_start(y, name), y.enumerated_values@) {
        None => None,
        Some(b1) => {
            let b2 = match y.width {
                Some(w) => Some(SignalBuilderView { width: Some(w), ..b1 }),
                None => if min_width_for(b1.highest) == 0 {
                    None
                } else {
                    Some(SignalBuilderView { width: Some(min_width_for(b1.highest) as u32), ..b1 })
                },
            };
            match b2 {
                None => None,
                Some(b) => if b.width == Some(0u32) {
                    None
                } else {
                    Some(b.built())
                },
            }
        },
    }
}

/// The error of building the signal described by `y` under the name `name`, when
/// that fails: an enumerated value that cannot be added, a zero width, or a width
/// that cannot be inferred.
pub open spec fn signal_error(y: YSignal, name: Seq<char>) -> ComposeErrorView {
    match spec_enum_values(signal_start(y, name), y.enumerated_values@) {
        None => construction_view(enum_values_error(signal_start(y, name), y.enumerated_values@)),
        Some(_) => match y.width {
            Some(_) => context_view(
                quoted_text("Could not build signal "@, name, ""@),
                construction_view(ConstructionErrorView::SignalHasZeroWidth(name)),
            ),
            None => construction_view(ConstructionErrorView::SignalWidthInferenceFailed(Some(name))),
        },
    }
}

/// Building the signal described by `y` does not panic.
pub open spec fn signal_safe(y: YSignal, name: Seq<char>) -> bool {
    &&& enum_values_safe(signal_start(y, name), y.enumerated_values@)
    &&& y.width is None ==> match spec_enum_values(signal_start(y, name), y.enumerated_values@) {
        Some(b1) => match b1.highest {
            Some(h) => h < 0x8000_0000_0000_0000u64,
            None => true,
        },
        None => true,
    }
}

/// A context layer with the given text around a construction error.
fn with_context(text: String, e: ComposeError) -> (r: ComposeError)
    ensures
        r matches ComposeError::Context(t, inner) && t@ == text@ && *inner == e,
        r@ == context_view(text@, e@),
{
    ComposeError::Context(text, Box::new(e))
}

/// `"<a>`<b>`<c>"`
fn quoted(a: &str, b: &str, c: &str) -> (r: String)
    ensures
        r@ == quoted_text(a@, b@, c@),
{
    let mut s = String::from_str(a);
    crate::text::push_char(&mut s, '`');
    s.append(b);
    crate::text::push_char(&mut s, '`');
    s.append(c);
    s
}

/// The additions of enumerated values before index `i` that are reached do not panic.
pub open spec fn enum_prefix_safe(b: SignalBuilderView, vals: Seq<YEnumeratedValue>, i: int) -> bool {
    forall|k: int|
        0 <= k < i ==> match #[trigger] spec_enum_values(b, vals.take(k)) {
            Some(c) => enum_value_safe(c, vals[k]),
            None => true,
        }
}

/// Once an enumerated value fails, every longer prefix fails.
proof fn lemma_enum_values_stop_after(b: SignalBuilderView, vals: Seq<YEnumeratedValue>, i: int)
    requires
        0 <= i < vals.len(),
        spec_enum_values(b, vals.take(i)) is Some,
        spec_add_enum(spec_enum_values(b, vals.take(i)).unwrap(), vals[i]) is None,
    ensures
        forall|k: int| i < k <= vals.len() ==> (#[trigger] spec_enum_values(b, vals.take(k))) is None,
{
    assert forall|k: int| i < k <= vals.len() implies (#[trigger] spec_enum_values(b, vals.take(k))) is None by {
        assert(vals.take(k).take(i) =~= vals.take(i));
        assert(vals.take(k)[i] == vals[i]);
        lemma_enum_values_stop(b, vals.take(k), i);
    }
}

impl YSignal {
    /// [`to_signal`](Self::to_signal) on every description: `None` when building
    /// the signal would overflow (an automatic enumerated value past the largest
    /// 64-bit value, or width inference past 63 bits) or meets an enumerated value
    /// entry that is not a single pair.
    pub fn checked_to_signal(&self, sig_name: &str) -> (r: Option<Result<CANSignal, ComposeError>>)
        ensures
            r is Some <==> signal_safe(*self, sig_name@),
            r matches Some(res) ==> match spec_to_signal(*self, sig_name@) {
                Some(v) => res matches Ok(s) && s@ == v,
                None => res matches Err(e) && e@ == signal_error(*self, sig_name@),
            },
    {
        let mut b = CANSignal::builder().name(sig_name).description(
            match &self.description {
                Some(d) => Some(d.clone()),
                None => None,
            },
        ).twos_complement(self.twos_complement).scale(
            match &self.scale {
                Some(d) => Some(d.clone()),
                None => None,
            },
        ).offset(
            match &self.offset {
                Some(d) => Some(d.clone()),
                None => None,
            },
        );
        let ghost start = signal_start(*self, sig_name@);
        assert(b@ == start);
        let ghost vals = self.enumerated_values@;
        let mut i: usize = 0;
        while i < self.enumerated_values.len()
            invariant
                0 <= i <= vals.len(),
                vals == self.enumerated_values@,
                start == signal_start(*self, sig_name@),
                spec_enum_values(start, vals.take(i as int)) == Some(b@),
                b@.wf(),
                enum_prefix_safe(start, vals, i as int),
            decreases vals.len() - i,
        {
            proof {
                assert(vals.take(i + 1).drop_last() =~= vals.take(i as int));
                assert(vals.take(i + 1).last() == vals[i as int]);
            }
            let safe = match &self.enumerated_values[i] {
                YEnumeratedValue::Auto(_) => b.highest_value() != Some(u64::MAX),
                YEnumeratedValue::Exact(m) => m.len() == 1,
            };
            if !safe {
                proof {
                    assert(!enum_value_safe(b@, vals[i as int]));
                    assert(match spec_enum_values(start, vals.take(i as int)) {
                        Some(c) => !enum_value_safe(c, vals[i as int]),
                        None => false,
                    });
                    assert(!enum_values_safe(start, vals));
                }
                return None;
            }
            proof {
                assert(enum_value_safe(b@, vals[i as int]));
                if vals[i as int] is Auto {
                    lemma_next_inferred_is_free(b@);
                }
                assert(enum_prefix_safe(start, vals, i + 1)) by {
                    assert forall|k: int| 0 <= k < i + 1 implies match #[trigger] spec_enum_values(start, vals.take(k)) {
                        Some(c) => enum_value_safe(c, vals[k]),
                        None => true,
                    } by {
                        if k < i {
                            assert(enum_prefix_safe(start, vals, i as int));
                        }
                    }
                }
            }
            let ghost bv = b@;
            let r = match &self.enumerated_values[i] {
                YEnumeratedValue::Auto(s) => b.add_enumerated_value_inferred(s.as_str()),
                YEnumeratedValue::Exact(m) => {
                    let (name, val) = crate::ymlfmt::unmap(m);
                    b.add_enumerated_value(name.as_str(), *val)
                },
            };
            proof {
                if r is Err {
                    let e = r->Err_0;
                    let (nm, val) = enum_entry(bv, vals[i as int]);
                    if !bv.values.dom().contains(nm) && e is EnumeratedValueValueAlreadyNamed {
                        lemma_name_of_value(bv.values, val, e->EnumeratedValueValueAlreadyNamed_0@);
                    }
                    assert(e@ == add_enum_error(bv, vals[i as int]));
                }
            }
            assert(match r {
                Ok(nb) => spec_add_enum(bv, vals[i as int]) == Some(nb@),
                Err(e) => spec_add_enum(bv, vals[i as int]) is None && e@ == add_enum_error(bv, vals[i as int]),
            });
            b = match r {
                Ok(nb) => nb,
                Err(e) => {
                    proof {
                        lemma_enum_values_stop(start, vals, i as int);
                        lemma_enum_values_stop_after(start, vals, i as int);
                        assert forall|k: int| 0 <= k < vals.len() implies match #[trigger] spec_enum_values(start, vals.take(k)) {
                            Some(c) => enum_value_safe(c, vals[k]),
                            None => true,
                        } by {
                            if k <= i {
                                assert(enum_prefix_safe(start, vals, i + 1));
                            }
                        }
                    }
                    return Some(Err(ComposeError::Construction(e)));
                },
            };
            i = i + 1;
        }
        proof {
            assert(vals.take(vals.len() as int) =~= vals);
            lemma_enum_values_keep(start, vals);
        }
        let b = match self.width {
            Some(w) => b.width(w),
            None => {
                match b.highest_value() {
                    Some(h) => {
                        if h >= 0x8000_0000_0000_0000u64 {
                            return None;
                        }
                    },
                    None => {},
                }
                let ghost highest = b@.highest;
                match b.infer_width_strict() {
                    Ok(nb) => {
                        proof {
                            if let Some(h) = highest {
                                crate::signal::lemma_pow2_64();
                                crate::signal::lemma_bits_needed_bound(h as nat, 64);
                            }
                            assert(nb@.width != Some(0u32));
                        }
                        nb
                    },
                    Err(e) => {
                        return Some(Err(ComposeError::Construction(e)));
                    },
                }
            },
        };
        match b.build() {
            Ok(s) => Some(Ok(s)),
            Err(e) => {
                assert(e@ == ConstructionErrorView::SignalHasZeroWidth(sig_name@));
                let inner = ComposeError::Construction(e);
                assert(inner@ == construction_view(e@));
                let text = quoted("Could not build signal ", sig_name, "");
                let err = with_context(text, inner);
                assert(spec_enum_values(start, vals) is Some);
                assert(err@ == context_view(text@, construction_view(e@)));
                Some(Err(err))
            },
        }
    }

    /// Turn a `YSignal` into a `CANSignal` named `sig_name`.
    pub fn to_signal(&self, sig_name: &str) -> (r: Result<CANSignal, ComposeError>)
        requires
            signal_safe(*self, sig_name@),
        ensures
            match spec_to_signal(*self, sig_name@) {
                Some(v) => r matches Ok(s) && s@ == v,
                None => r matches Err(e) && e@ == signal_error(*self, sig_name@),
            },
    {
        match self.checked_to_signal(sig_name) {
            Some(res) => res,
            None => Err(ComposeError::Message(String::new())),
        }
    }
}

/// Adding enumerated values changes nothing but the table and its highest value.
pub proof fn lemma_enum_values_keep(b: SignalBuilderView, vals: Seq<YEnumeratedValue>)
    ensures
        match spec_enum_values(b, vals) {
            Some(c) => c == (SignalBuilderView { values: c.values, highest: c.highest, ..b }),
            None => true,
        },
    decreases vals.len(),
{
    if vals.len() > 0 {
        lemma_enum_values_keep(b, vals.drop_last());
    }
}

/// Once an enumerated value fails, the additions fail.
pub proof fn lemma_enum_values_stop(b: SignalBuilderView, vals: Seq<YEnumeratedValue>, k: int)
    requires
        0 <= k < vals.len(),
        spec_enum_values(b, vals.take(k)) is Some,
        spec_add_enum(spec_enum_values(b, vals.take(k)).unwrap(), vals[k]) is None,
    ensures
        spec_enum_values(b, vals) is None,
        enum_values_error(b, vals) == add_enum_error(spec_enum_values(b, vals.take(k)).unwrap(), vals[k]),
    decreases vals.len() - k,
{
    if k == vals.len() - 1 {
        assert(vals.drop_last() =~= vals.take(k));
    } else {
        assert(vals.drop_last().take(k) =~= vals.take(k));
        assert(vals.drop_last()[k] == vals[k]);
        lemma_enum_values_stop(b, vals.drop_last(), k);
    }
}

/// `a` followed by `b`.
fn concat(a: &str, b: &str) -> (r: String)
    ensures
        r@ == a@ + b@,
{
    let mut s = String::from_str(a);
    s.append(b);
    s
}

/// The start bit of a described signal: the one given, or the next free bit.
pub open spec fn start_bit_for(y: YSignal, vs: Seq<(u32, SignalView)>) -> u32 {
    match y.start_bit {
        Some(b) => b,
        None => view_next_free_bit(vs) as u32,
    }
}

/// Signal models after adding the signal of the single-entry map `entry`, named
/// `prefix` followed by its key, if that succeeds.
pub open spec fn spec_signal_step(
    vs: Seq<(u32, SignalView)>,
    entry: Vec<(String, YSignal)>,
    prefix: Seq<char>,
) -> Option<Seq<(u32, SignalView)>> {
    let name = entry@[0].0@;
    let y = entry@[0].1;
    match spec_to_signal(y, prefix + name) {
        None => None,
        Some(sv) => if view_outcome(vs, start_bit_for(y, vs), sv) is Added {
            Some(vs.push((start_bit_for(y, vs), sv)))
        } else {
            None
        },
    }
}

/// Signal models after adding the described signals in order, if all succeed.
pub open spec fn spec_add_signals(
    vs: Seq<(u32, SignalView)>,
    entries: Seq<Vec<(String, YSignal)>>,
    prefix: Seq<char>,
) -> Option<Seq<(u32, SignalView)>>
    decreases entries.len(),
{
    if entries.len() == 0 {
        Some(vs)
    } else {
        match spec_add_signals(vs, entries.drop_last(), prefix) {
            None => None,
            Some(v2) => spec_signal_step(v2, entries.last(), prefix),
        }
    }
}

/// The error of adding the signal of `entry` after the signal models `vs`, when
/// that fails: the signal cannot be made, or cannot be added.
pub open spec fn signal_step_error(
    vs: Seq<(u32, SignalView)>,
    entry: Vec<(String, YSignal)>,
    prefix: Seq<char>,
) -> ComposeErrorView {
    let name = entry@[0].0@;
    let y = entry@[0].1;
    match spec_to_signal(y, prefix + name) {
        None => context_view(
            quoted_text("Could not create signal "@, name, "."@),
            signal_error(y, prefix + name),
        ),
        Some(sv) => context_view(
            quoted_text("Could not add signal "@, name, "."@),
            construction_view(view_add_error(vs, start_bit_for(y, vs), sv)),
        ),
    }
}

/// The error of the first described signal that cannot be added, when one cannot.
pub open spec fn add_signals_error(
    vs: Seq<(u32, SignalView)>,
    entries: Seq<Vec<(String, YSignal)>>,
    prefix: Seq<char>,
) -> ComposeErrorView
    decreases entries.len(),
{
    if entries.len() == 0 {
        vstd::pervasive::arbitrary()
    } else {
        match spec_add_signals(vs, entries.drop_last(), prefix) {
            None => add_signals_error(vs, entries.drop_last(), prefix),
            Some(v2) => signal_step_error(v2, entries.last(), prefix),
        }
    }
}

/// Adding the signal of `entry` after `vs` does not panic.
pub open spec fn signal_step_safe(
    vs: Seq<(u32, SignalView)>,
    entry: Vec<(String, YSignal)>,
    prefix: Seq<char>,
) -> bool {
    let name = entry@[0].0@;
    let y = entry@[0].1;
    &&& entry@.len() == 1
    &&& signal_safe(y, prefix + name)
    &&& match spec_to_signal(y, prefix + name) {
        None => true,
        Some(sv) => view_no_overflow(vs, start_bit_for(y, vs), sv),
    }
}

/// Every signal that the additions reach can be added without a panic.
pub open spec fn add_signals_safe(
    vs: Seq<(u32, SignalView)>,
    entries: Seq<Vec<(String, YSignal)>>,
    prefix: Seq<char>,
) -> bool {
    forall|k: int|
        0 <= k < entries.len() ==> match #[trigger] spec_add_signals(vs, entries.take(k), prefix) {
            Some(v) => signal_step_safe(v, entries[k], prefix),
            None => true,
        }
}

/// Once a signal fails, the additions fail.
pub proof fn lemma_add_signals_stop(
    vs: Seq<(u32, SignalView)>,
    entries: Seq<Vec<(String, YSignal)>>,
    prefix: Seq<char>,
    k: int,
)
    requires
        0 <= k < entries.len(),
        spec_add_signals(vs, entries.take(k), prefix) is Some,
        spec_signal_step(spec_add_signals(vs, entries.take(k), prefix).unwrap(), entries[k], prefix)
            is None,
    ensures
        spec_add_signals(vs, entries, prefix) is None,
        add_signals_error(vs, entries, prefix) == signal_step_error(
            spec_add_signals(vs, entries.take(k), prefix).unwrap(),
            entries[k],
            prefix,
        ),
    decreases entries.len() - k,
{
    if k == entries.len() - 1 {
        assert(entries.drop_last() =~= entries.take(k));
    } else {
        assert(entries.drop_last().take(k) =~= entries.take(k));
        assert(entries.drop_last()[k] == entries[k]);
        lemma_add_signals_stop(vs, entries.drop_last(), prefix, k);
    }
}

/// The signal additions before index `i` that are reached do not panic.
pub open spec fn signals_prefix_safe(
    vs: Seq<(u32, SignalView)>,
    entries: Seq<Vec<(String, YSignal)>>,
    prefix: Seq<char>,
    i: int,
) -> bool {
    forall|k: int|
        0 <= k < i ==> match #[trigger] spec_add_signals(vs, entries.take(k), prefix) {
            Some(v2) => signal_step_safe(v2, entries[k], prefix),
            None => true,
        }
}

/// Once a signal fails, every longer prefix of the additions fails.
proof fn lemma_add_signals_stop_after(
    vs: Seq<(u32, SignalView)>,
    entries: Seq<Vec<(String, YSignal)>>,
    prefix: Seq<char>,
    i: int,
)
    requires
        0 <= i < entries.len(),
        spec_add_signals(vs, entries.take(i), prefix) is Some,
        spec_signal_step(spec_add_signals(vs, entries.take(i), prefix).unwrap(), entries[i], prefix)
            is None,
    ensures
        forall|k: int|
            i < k <= entries.len() ==> (#[trigger] spec_add_signals(vs, entries.take(k), prefix)) is None,
{
    assert forall|k: int| i < k <= entries.len() implies (#[trigger] spec_add_signals(
        vs,
        entries.take(k),
        prefix,
    )) is None by {
        assert(entries.take(k).take(i) =~= entries.take(i));
        assert(entries.take(k)[i] == entries[i]);
        lemma_add_signals_stop(vs, entries.take(k), prefix, i);
    }
}

/// A safe failing step `i` after safe steps makes all the additions safe.
proof fn lemma_signals_safe_on_failure(
    vs: Seq<(u32, SignalView)>,
    entries: Seq<Vec<(String, YSignal)>>,
    prefix: Seq<char>,
    i: int,
)
    requires
        0 <= i < entries.len(),
        signals_prefix_safe(vs, entries, prefix, i + 1),
        spec_add_signals(vs, entries.take(i), prefix) is Some,
        spec_signal_step(spec_add_signals(vs, entries.take(i), prefix).unwrap(), entries[i], prefix)
            is None,
    ensures
        add_signals_safe(vs, entries, prefix),
        spec_add_signals(vs, entries, prefix) is None,
        add_signals_error(vs, entries, prefix) == signal_step_error(
            spec_add_signals(vs, entries.take(i), prefix).unwrap(),
            entries[i],
            prefix,
        ),
{
    lemma_add_signals_stop(vs, entries, prefix, i);
    lemma_add_signals_stop_after(vs, entries, prefix, i);
    assert forall|k: int| 0 <= k < entries.len() implies match #[trigger] spec_add_signals(
        vs,
        entries.take(k),
        prefix,
    ) {
        Some(v2) => signal_step_safe(v2, entries[k], prefix),
        None => true,
    } by {
        if k <= i {
            assert(signals_prefix_safe(vs, entries, prefix, i + 1));
        }
    }
}

impl YMessage {
    /// [`add_signals_to_message_builder`](Self::add_signals_to_message_builder) on
    /// every description: `None` when an addition would panic (a signal entry that
    /// is not a single pair, a signal that [`YSignal::checked_to_signal`] refuses,
    /// or a signal whose last bit would lie below bit 0).
    pub fn checked_add_signals_to_message_builder(
        message: CANMessageBuilder,
        signals: &Vec<Vec<(String, YSignal)>>,
        signal_prefix: &str,
    ) -> (r: Option<Result<CANMessageBuilder, ComposeError>>)
        ensures
            r is Some <==> add_signals_safe(sig_views(message@.signals), signals@, signal_prefix@),
            r matches Some(res) ==> match spec_add_signals(
                sig_views(message@.signals),
                signals@,
                signal_prefix@,
            ) {
                Some(vs) => res matches Ok(b) && b@ == (MessageBuilderView {
                    signals: b@.signals,
                    ..message@
                }) && sig_views(b@.signals) == vs,
                None => res matches Err(e) && e@ == add_signals_error(
                    sig_views(message@.signals),
                    signals@,
                    signal_prefix@,
                ),
            },
    {
        let ghost start = message@;
        let ghost entries = signals@;
        let ghost prefix = signal_prefix@;
        let ghost vs0 = sig_views(message@.signals);
        let mut b = message;
        let mut i: usize = 0;
        while i < signals.len()
            invariant
                0 <= i <= entries.len(),
                entries == signals@,
                prefix == signal_prefix@,
                start == message@,
                vs0 == sig_views(start.signals),
                signals_prefix_safe(vs0, entries, prefix, i as int),
                b@ == (MessageBuilderView { signals: b@.signals, ..start }),
                spec_add_signals(vs0, entries.take(i as int), prefix) == Some(sig_views(b@.signals)),
            decreases entries.len() - i,
        {
            let ghost vs = sig_views(b@.signals);
            proof {
                assert(entries.take(i + 1).drop_last() =~= entries.take(i as int));
                assert(entries.take(i + 1).last() == entries[i as int]);
            }
            if signals[i].len() != 1 {
                proof {
                    assert(!signal_step_safe(vs, entries[i as int], prefix));
                    assert(match spec_add_signals(vs0, entries.take(i as int), prefix) {
                        Some(v2) => !signal_step_safe(v2, entries[i as int], prefix),
                        None => false,
                    });
                }
                return None;
            }
            let (sig_name, sdesc) = crate::ymlfmt::unmap(&signals[i]);
            let full_sig_name = concat(signal_prefix, sig_name.as_str());
            proof {
                assert(*sdesc == entries[i as int]@[0].1);
                assert(full_sig_name@ == prefix + entries[i as int]@[0].0@);
            }
            let sig = match sdesc.checked_to_signal(full_sig_name.as_str()) {
                None => {
                    proof {
                        assert(!signal_step_safe(vs, entries[i as int], prefix));
                        assert(match spec_add_signals(vs0, entries.take(i as int), prefix) {
                            Some(v2) => !signal_step_safe(v2, entries[i as int], prefix),
                            None => false,
                        });
                    }
                    return None;
                },
                Some(Ok(s)) => s,
                Some(Err(e)) => {
                    proof {
                        assert(spec_to_signal(*sdesc, full_sig_name@) is None);
                        assert(signal_step_safe(vs, entries[i as int], prefix));
                        assert(spec_signal_step(vs, entries[i as int], prefix) is None);
                        assert(signals_prefix_safe(vs0, entries, prefix, i + 1)) by {
                            assert forall|k: int| 0 <= k < i + 1 implies match #[trigger] spec_add_signals(vs0, entries.take(k), prefix) {
                                Some(v2) => signal_step_safe(v2, entries[k], prefix),
                                None => true,
                            } by {
                                if k < i {
                                    assert(signals_prefix_safe(vs0, entries, prefix, i as int));
                                }
                            }
                        }
                        lemma_signals_safe_on_failure(vs0, entries, prefix, i as int);
                    }
                    let err = with_context(quoted("Could not create signal ", sig_name.as_str(), "."), e);
                    assert(err@ == signal_step_error(vs, entries[i as int], prefix));
                    return Some(Err(err));
                },
            };
            let bit = match sdesc.start_bit {
                Some(x) => x,
                None => b.next_bit(),
            };
            proof {
                lemma_outcome_on_views(b@.signals, bit, sig);
                assert(bit == start_bit_for(*sdesc, vs));
            }
            if !b.can_add(bit, &sig) {
                proof {
                    assert(!signal_step_safe(vs, entries[i as int], prefix));
                    assert(match spec_add_signals(vs0, entries.take(i as int), prefix) {
                        Some(v2) => !signal_step_safe(v2, entries[i as int], prefix),
                        None => false,
                    });
                }
                return None;
            }
            proof {
                assert(signal_step_safe(vs, entries[i as int], prefix));
                assert(signals_prefix_safe(vs0, entries, prefix, i + 1)) by {
                    assert forall|k: int| 0 <= k < i + 1 implies match #[trigger] spec_add_signals(vs0, entries.take(k), prefix) {
                        Some(v2) => signal_step_safe(v2, entries[k], prefix),
                        None => true,
                    } by {
                        if k < i {
                            assert(signals_prefix_safe(vs0, entries, prefix, i as int));
                        }
                    }
                }
            }
            let ghost b_signals = b@.signals;
            let ghost sig_model = sig;
            let added = match sdesc.start_bit {
                Some(bit) => b.add_signal_fixed(bit, sig),
                None => b.add_signal(sig),
            };
            b = match added {
                Ok(nb) => nb,
                Err(e) => {
                    proof {
                        lemma_signals_safe_on_failure(vs0, entries, prefix, i as int);
                        lemma_add_error_view(e, b_signals, bit, sig_model);
                    }
                    let inner = ComposeError::Construction(e);
                    assert(inner@ == construction_view(e@));
                    let err = with_context(quoted("Could not add signal ", sig_name.as_str(), "."), inner);
                    assert(err@ == signal_step_error(vs, entries[i as int], prefix));
                    return Some(Err(err));
                },
            };
            i = i + 1;
        }
        proof {
            assert(entries.take(entries.len() as int) =~= entries);
        }
        Some(Ok(b))
    }

    /// For each described signal, make it into a [`CANSignal`] named `signal_prefix`
    /// followed by its key, and add it to the message: at its start bit when one is
    /// given, right after the previous signal otherwise. Stops at the first failure.
    pub fn add_signals_to_message_builder(
        message: CANMessageBuilder,
        signals: &Vec<Vec<(String, YSignal)>>,
        signal_prefix: &str,
    ) -> (r: Result<CANMessageBuilder, ComposeError>)
        requires
            add_signals_safe(sig_views(message@.signals), signals@, signal_prefix@),
        ensures
            match spec_add_signals(sig_views(message@.signals), signals@, signal_prefix@) {
                Some(vs) => r matches Ok(b) && b@ == (MessageBuilderView {
                    signals: b@.signals,
                    ..message@
                }) && sig_views(b@.signals) == vs,
                None => r matches Err(e) && e@ == add_signals_error(
                    sig_views(message@.signals),
                    signals@,
                    signal_prefix@,
                ),
            },
    {
        match Self::checked_add_signals_to_message_builder(message, signals, signal_prefix) {
            Some(res) => res,
            None => Err(ComposeError::Message(String::new())),
        }
    }
}

/// A valid message name: not empty, only characters of `[a-zA-Z0-9_]`.
pub open spec fn valid_message_name(name: Seq<char>) -> bool {
    name.len() > 0 && name_chars_ok(name)
}

/// The model of a message built from a builder with the given fields, and the
/// signal models `vs`, with no receiving node.
pub open spec fn built_view(
    name: Seq<char>,
    id: u32,
    cycletime: Option<u32>,
    tx_node: Option<Seq<char>>,
    vs: Seq<(u32, SignalView)>,
    kind: KindView,
) -> MessageView {
    MessageView {
        name,
        id,
        cycletime,
        length: view_length(vs) as u32,
        tx_node,
        rx_nodes: Seq::empty(),
        signals: vs,
        kind,
    }
}

/// The model of the template message described by `t` under the name `name`,
/// if building it succeeds.
pub open spec fn spec_template_message(t: YMessageTemplate, name: Seq<char>) -> Option<MessageView> {
    match spec_add_signals(Seq::empty(), t.signals@, Seq::empty()) {
        None => None,
        Some(vs) => if valid_message_name(name) {
            Some(built_view(name, 0, t.cycletime, None, vs, KindView::Template))
        } else {
            None
        },
    }
}

/// The error of building the template message described by `t` under the name
/// `name`, when that fails: a signal that cannot be added, or a name that is not valid.
pub open spec fn template_error(t: YMessageTemplate, name: Seq<char>) -> ComposeErrorView {
    match spec_add_signals(Seq::empty(), t.signals@, Seq::empty()) {
        None => add_signals_error(Seq::empty(), t.signals@, Seq::empty()),
        Some(_) => construction_view(name_error(name)),
    }
}

/// Building the template message described by `t` does not panic.
pub open spec fn template_safe(t: YMessageTemplate) -> bool {
    add_signals_safe(Seq::empty(), t.signals@, Seq::empty())
}

/// The prefix of the signal names of messages of node `node_name`.
pub open spec fn node_prefix(node_name: Seq<char>) -> Seq<char> {
    node_name + seq!['_']
}

/// The model of the message described by `y`, named `msg_name` and sent by node
/// `node_name`, made with the templates `templates`, if making it succeeds.
pub open spec fn spec_to_message(
    y: YMessage,
    templates: Seq<MessageView>,
    msg_name: Seq<char>,
    node_name: Seq<char>,
) -> Option<MessageView> {
    match y.from_template {
        Some(tn) => if y.signals is Some || !view_has_message(templates, tn@) || !valid_message_name(
            msg_name,
        ) {
            None
        } else {
            Some(
                instance_view(
                    templates[view_message_index(templates, tn@)],
                    msg_name,
                    y.id,
                    node_prefix(node_name),
                    y.cycletime,
                    Some(node_name),
                ),
            )
        },
        None => match y.signals {
            None => Some(
                built_view(msg_name, y.id, y.cycletime, Some(node_name), Seq::empty(), KindView::Raw),
            ),
            Some(sigs) => match spec_add_signals(Seq::empty(), sigs@, node_prefix(node_name)) {
                None => None,
                Some(vs) => if valid_message_name(msg_name) {
                    Some(
                        built_view(
                            msg_name,
                            y.id,
                            y.cycletime,
                            Some(node_name),
                            vs,
                            KindView::Independent,
                        ),
                    )
                } else {
                    None
                },
            },
        },
    }
}

/// The error of making the message described by `y`, named `msg_name` and sent by
/// node `node_name`, with the templates `templates`, when that fails.
pub open spec fn to_message_error(
    y: YMessage,
    templates: Seq<MessageView>,
    msg_name: Seq<char>,
    node_name: Seq<char>,
) -> ComposeErrorView {
    match y.from_template {
        Some(tn) => if y.signals is Some {
            ComposeErrorView::Message(
                quoted_text("Message "@, msg_name, " inherits signals from template "@) + quoted_text(
                    ""@,
                    tn@,
                    " and cannot specify a "@,
                ) + "`signals:` field."@,
            )
        } else if !view_has_message(templates, tn@) {
            ComposeErrorView::Message(quoted_text("No template named "@, tn@, " in network."@))
        } else {
            construction_view(name_error(msg_name))
        },
        None => match y.signals {
            None => vstd::pervasive::arbitrary(),
            Some(sigs) => match spec_add_signals(Seq::empty(), sigs@, node_prefix(node_name)) {
                None => context_view(
                    quoted_text("Could not populate signals for message "@, msg_name, ""@),
                    add_signals_error(Seq::empty(), sigs@, node_prefix(node_name)),
                ),
                Some(_) => context_view(
                    quoted_text("Could not build message "@, msg_name, ""@),
                    construction_view(name_error(msg_name)),
                ),
            },
        },
    }
}

/// Making the message described by `y` for node `node_name` does not panic.
pub open spec fn message_safe(y: YMessage, node_name: Seq<char>) -> bool {
    match y.from_template {
        Some(_) => true,
        None => match y.signals {
            None => true,
            Some(sigs) => add_signals_safe(Seq::empty(), sigs@, node_prefix(node_name)),
        },
    }
}

/// The name of the `k`-th message of a node: the node's name, `_`, and the message's key.
pub open spec fn node_message_name(yn: YNode, node_name: Seq<char>, k: int) -> Seq<char> {
    node_prefix(node_name) + yn.messages@[k]@[0].0@
}

/// Models of the messages of the node described by `yn`, for its first `n`
/// messages, if making all of them succeeds.
pub open spec fn spec_node_messages(
    yn: YNode,
    templates: Seq<MessageView>,
    node_name: Seq<char>,
    n: int,
) -> Option<Seq<MessageView>>
    decreases n,
{
    if n <= 0 {
        Some(Seq::empty())
    } else {
        match spec_node_messages(yn, templates, node_name, n - 1) {
            None => None,
            Some(ms) => match spec_to_message(
                yn.messages@[n - 1]@[0].1,
                templates,
                node_message_name(yn, node_name, n - 1),
                node_name,
            ) {
                None => None,
                Some(m) => Some(ms.push(m)),
            },
        }
    }
}

/// The error of making the first `n` messages of the node described by `yn`, when
/// one fails: that of the first that fails.
pub open spec fn node_messages_error(
    yn: YNode,
    templates: Seq<MessageView>,
    node_name: Seq<char>,
    n: int,
) -> ComposeErrorView
    decreases n,
{
    if n <= 0 {
        vstd::pervasive::arbitrary()
    } else {
        match spec_node_messages(yn, templates, node_name, n - 1) {
            None => node_messages_error(yn, templates, node_name, n - 1),
            Some(_) => to_message_error(
                yn.messages@[n - 1]@[0].1,
                templates,
                node_message_name(yn, node_name, n - 1),
                node_name,
            ),
        }
    }
}

/// Making the messages of the node described by `yn` does not panic: each message
/// that is reached is a single entry whose description is safe.
pub open spec fn node_messages_safe(yn: YNode, templates: Seq<MessageView>, node_name: Seq<char>) -> bool {
    forall|k: int|
        0 <= k < yn.messages@.len() && (#[trigger] spec_node_messages(yn, templates, node_name, k))
            is Some ==> yn.messages@[k]@.len() == 1 && message_safe(yn.messages@[k]@[0].1, node_name)
}

/// The network after inserting the messages `ms` in order, if all insertions succeed.
pub open spec fn spec_insert_all(n: NetworkView, ms: Seq<MessageView>) -> Option<NetworkView>
    decreases ms.len(),
{
    if ms.len() == 0 {
        Some(n)
    } else {
        match spec_insert_all(n, ms.drop_last()) {
            None => None,
            Some(n2) => n2.insert_msg(ms.last()),
        }
    }
}

/// The error of inserting the messages `ms` in order, when one fails: that of the
/// first that fails.
pub open spec fn insert_all_error(n: NetworkView, ms: Seq<MessageView>) -> ConstructionErrorView
    decreases ms.len(),
{
    if ms.len() == 0 {
        vstd::pervasive::arbitrary()
    } else {
        match spec_insert_all(n, ms.drop_last()) {
            None => insert_all_error(n, ms.drop_last()),
            Some(n2) => n2.insert_msg_error(ms.last()),
        }
    }
}

/// The network after inserting the messages `ms` in order, up to the first that
/// fails (all of them when none fails).
pub open spec fn insert_all_reached(n: NetworkView, ms: Seq<MessageView>) -> NetworkView
    decreases ms.len(),
{
    if ms.len() == 0 {
        n
    } else {
        match spec_insert_all(n, ms.drop_last()) {
            None => insert_all_reached(n, ms.drop_last()),
            Some(n2) => match n2.insert_msg(ms.last()) {
                Some(n3) => n3,
                None => n2,
            },
        }
    }
}

/// The network after adding the messages of the node described by `yn`, up to the
/// first that fails: unchanged when a message cannot be made.
pub open spec fn add_node_msgs_reached(n: NetworkView, node_name: Seq<char>, yn: YNode) -> NetworkView {
    match spec_node_messages(yn, n.templates, node_name, yn.messages@.len() as int) {
        None => n,
        Some(ms) => insert_all_reached(n, ms),
    }
}

/// The error of adding the messages of the node described by `yn`, when that
/// fails: a message cannot be made, or cannot be inserted.
pub open spec fn add_node_msgs_error(n: NetworkView, node_name: Seq<char>, yn: YNode) -> ComposeErrorView {
    match spec_node_messages(yn, n.templates, node_name, yn.messages@.len() as int) {
        None => node_messages_error(yn, n.templates, node_name, yn.messages@.len() as int),
        Some(ms) => construction_view(insert_all_error(n, ms)),
    }
}

/// A message made from a description that gives a cycle time has that cycle time,
/// whether it is made from a template, raw, or from its signals.
pub proof fn law_message_takes_given_cycletime(
    y: YMessage,
    templates: Seq<MessageView>,
    msg_name: Seq<char>,
    node_name: Seq<char>,
)
    requires
        spec_to_message(y, templates, msg_name, node_name) is Some,
        y.cycletime is Some,
    ensures
        spec_to_message(y, templates, msg_name, node_name).unwrap().cycletime == y.cycletime,
{
}

/// The network after adding the messages of the node described by `yn`.
pub open spec fn spec_add_node_msgs(n: NetworkView, node_name: Seq<char>, yn: YNode) -> Option<
    NetworkView,
> {
    match spec_node_messages(yn, n.templates, node_name, yn.messages@.len() as int) {
        None => None,
        Some(ms) => spec_insert_all(n, ms),
    }
}

/// A message built from a builder with name, id and cycle time set and no
/// receiving node has the model [`built_view`].
pub(crate) proof fn lemma_built_view(m: CANMessage, b: MessageBuilderView)
    requires
        b.name is Some,
        b.id is Some,
        b.rx_nodes.len() == 0,
        m.name@ == b.name.unwrap(),
        m.id == b.id.unwrap(),
        m.cycletime == (match b.cycletime {
            Some(c) => c,
            None => None,
        }),
        m.length == length_for(b.signals),
        opt_text(m.tx_node) == b.tx_node,
        texts(m.rx_nodes@) == b.rx_nodes,
        m.signals@ == b.signals,
        m.kind == b.kind,
    ensures
        m@ == built_view(
            b.name.unwrap(),
            b.id.unwrap(),
            m.cycletime,
            b.tx_node,
            sig_views(b.signals),
            kind_view(b.kind),
        ),
{
    lemma_outcome_on_views(b.signals, 0, vstd::pervasive::arbitrary());
    assert(texts(m.rx_nodes@) =~= Seq::empty());
    assert(m.length == view_length(sig_views(b.signals)));
}

impl YMessageTemplate {
    /// [`to_template_message`](Self::to_template_message) on every description:
    /// `None` when adding its signals would panic.
    pub fn checked_to_template_message(&self, name: &str) -> (r: Option<Result<CANMessage, ComposeError>>)
        ensures
            r is Some <==> template_safe(*self),
            r matches Some(res) ==> match spec_template_message(*self, name@) {
                Some(v) => res matches Ok(m) && m@ == v && m.wf(),
                None => res matches Err(e) && e@ == template_error(*self, name@),
            },
    {
        let msg = CANMessage::template().name(name).cycletime(self.cycletime);
        proof {
            reveal_strlit("");
            assert(sig_views(msg@.signals) =~= Seq::empty());
            assert(""@ =~= Seq::<char>::empty());
        }
        let msg = match YMessage::checked_add_signals_to_message_builder(msg, &self.signals, "") {
            None => {
                return None;
            },
            Some(Err(e)) => {
                return Some(Err(e));
            },
            Some(Ok(m)) => m,
        };
        let ghost bv = msg@;
        match msg.build() {
            Ok(m) => {
                proof {
                    lemma_built_view(m, bv);
                }
                Some(Ok(m))
            },
            Err(e) => {
                proof {
                    if e is MessageNameInvalidChar {
                        lemma_first_bad(name@, e->MessageNameInvalidChar_1);
                    }
                }
                let err = ComposeError::Construction(e);
                assert(err@ == construction_view(name_error(name@)));
                Some(Err(err))
            },
        }
    }

    /// Make a template [`CANMessage`] named `name` from this description.
    pub fn to_template_message(&self, name: &str) -> (r: Result<CANMessage, ComposeError>)
        requires
            template_safe(*self),
        ensures
            match spec_template_message(*self, name@) {
                Some(v) => r matches Ok(m) && m@ == v && m.wf(),
                None => r matches Err(e) && e@ == template_error(*self, name@),
            },
    {
        match self.checked_to_template_message(name) {
            Some(res) => res,
            None => Err(ComposeError::Message(String::new())),
        }
    }
}

/// An error that only carries a message.
fn message_error(text: String) -> (r: ComposeError)
    ensures
        r matches ComposeError::Message(t) && t@ == text@,
{
    ComposeError::Message(text)
}

impl YMessage {
    /// [`to_message`](Self::to_message) on every description: `None` when adding
    /// its signals would panic.
    pub fn checked_to_message(&self, net: &CANNetwork, msg_name: &str, node_name: &str) -> (r: Option<
        Result<CANMessage, ComposeError>,
    >)
        ensures
            r is Some <==> message_safe(*self, node_name@),
            r matches Some(res) ==> match spec_to_message(*self, net@.templates, msg_name@, node_name@) {
                Some(v) => res matches Ok(m) && m@ == v && m.wf(),
                None => res matches Err(e) && e@ == to_message_error(
                    *self,
                    net@.templates,
                    msg_name@,
                    node_name@,
                ),
            },
    {
        let prefix = concat(node_name, "_");
        proof {
            reveal_strlit("_");
            assert(prefix@ =~= node_prefix(node_name@));
        }
        if let Some(template_name) = &self.from_template {
            if self.signals.is_some() {
                let mut text = quoted("Message ", msg_name, " inherits signals from template ");
                text.append(quoted("", template_name.as_str(), " and cannot specify a ").as_str());
                text.append("`signals:` field.");
                return Some(Err(message_error(text)));
            }
            let template = match net.template_message_by_name(template_name.as_str()) {
                Some(t) => t,
                None => {
                    return Some(
                        Err(
                            message_error(
                                quoted("No template named ", template_name.as_str(), " in network."),
                            ),
                        ),
                    );
                },
            };
            let msg = match template.template_instance(
                msg_name,
                self.id,
                prefix.as_str(),
                self.cycletime,
                Some(node_name),
            ) {
                Ok(m) => m,
                Err(e) => {
                    proof {
                        if e is MessageNameInvalidChar {
                            lemma_first_bad(msg_name@, e->MessageNameInvalidChar_1);
                        }
                    }
                    let err = ComposeError::Construction(e);
                    assert(err@ == construction_view(name_error(msg_name@)));
                    return Some(Err(err));
                },
            };
            proof {
                lemma_instance_view(
                    msg,
                    *template,
                    msg_name@,
                    self.id,
                    prefix@,
                    self.cycletime,
                    Some(node_name@),
                );
            }
            return Some(Ok(msg));
        }
        let signals = match &self.signals {
            Some(s) => s,
            None => {
                let m = CANMessage::new_raw(msg_name, self.id, self.cycletime, Some(node_name));
                proof {
                    assert(texts(m.rx_nodes@) =~= Seq::empty());
                    assert(sig_views(m.signals@) =~= Seq::empty());
                }
                return Some(Ok(m));
            },
        };
        let can_msg = CANMessageBuilder::new().name(msg_name).id(self.id).cycletime(
            self.cycletime,
        ).tx_node(node_name);
        proof {
            assert(sig_views(can_msg@.signals) =~= Seq::empty());
        }
        let can_msg = match YMessage::checked_add_signals_to_message_builder(
            can_msg,
            signals,
            prefix.as_str(),
        ) {
            None => {
                return None;
            },
            Some(Ok(b)) => b,
            Some(Err(e)) => {
                return Some(
                    Err(
                        with_context(quoted("Could not populate signals for message ", msg_name, ""), e),
                    ),
                );
            },
        };
        let ghost bv = can_msg@;
        match can_msg.build() {
            Ok(m) => {
                proof {
                    lemma_built_view(m, bv);
                }
                Some(Ok(m))
            },
            Err(e) => {
                proof {
                    if e is MessageNameInvalidChar {
                        lemma_first_bad(msg_name@, e->MessageNameInvalidChar_1);
                    }
                }
                let inner = ComposeError::Construction(e);
                assert(inner@ == construction_view(name_error(msg_name@)));
                Some(Err(with_context(quoted("Could not build message ", msg_name, ""), inner)))
            },
        }
    }
    /// Make a [`CANMessage`] named `msg_name`, transmitted by node `node_name`, from
    /// this description: an instance of the template it names (whose signal names
    /// get the prefix `node_name` and `_`), a raw message when it gives no signals,
    /// or a message with the signals it gives (named with that same prefix).
    pub fn to_message(&self, net: &CANNetwork, msg_name: &str, node_name: &str) -> (r: Result<
        CANMessage,
        ComposeError,
    >)
        requires
            message_safe(*self, node_name@),
        ensures
            match spec_to_message(*self, net@.templates, msg_name@, node_name@) {
                Some(v) => r matches Ok(m) && m@ == v && m.wf(),
                None => r matches Err(e) && e@ == to_message_error(
                    *self,
                    net@.templates,
                    msg_name@,
                    node_name@,
                ),
            },
    {
        match self.checked_to_message(net, msg_name, node_name) {
            Some(res) => res,
            None => Err(ComposeError::Message(String::new())),
        }
    }
}

/// The models of a sequence of messages.
pub open spec fn models(v: Seq<CANMessage>) -> Seq<MessageView> {
    v.map_values(|m: CANMessage| m@)
}

/// Once a message fails, making the node's messages fails.
proof fn lemma_node_messages_stop(
    yn: YNode,
    templates: Seq<MessageView>,
    node_name: Seq<char>,
    k: int,
    n: int,
)
    requires
        0 <= k < n,
        spec_node_messages(yn, templates, node_name, k) is Some,
        spec_to_message(
            yn.messages@[k]@[0].1,
            templates,
            node_message_name(yn, node_name, k),
            node_name,
        ) is None,
    ensures
        spec_node_messages(yn, templates, node_name, n) is None,
        node_messages_error(yn, templates, node_name, n) == to_message_error(
            yn.messages@[k]@[0].1,
            templates,
            node_message_name(yn, node_name, k),
            node_name,
        ),
    decreases n - k,
{
    if n > k + 1 {
        lemma_node_messages_stop(yn, templates, node_name, k, n - 1);
    }
}

impl YNode {
    /// [`to_messages`](Self::to_messages) on every description: `None` when making
    /// a message that is reached would panic.
    pub fn checked_to_messages(&self, net: &CANNetwork, name: &str) -> (r: Option<
        Result<Vec<CANMessage>, ComposeError>,
    >)
        ensures
            r is Some <==> node_messages_safe(*self, net@.templates, name@),
            r matches Some(res) ==> match spec_node_messages(
                *self,
                net@.templates,
                name@,
                self.messages@.len() as int,
            ) {
                Some(ms) => res matches Ok(v) && models(v@) == ms && forall|k: int|
                    0 <= k < v@.len() ==> (#[trigger] v@[k]).wf(),
                None => res matches Err(e) && e@ == node_messages_error(
                    *self,
                    net@.templates,
                    name@,
                    self.messages@.len() as int,
                ),
            },
    {
        let ghost templates = net@.templates;
        let mut msgs: Vec<CANMessage> = Vec::new();
        let mut i: usize = 0;
        while i < self.messages.len()
            invariant
                0 <= i <= self.messages@.len(),
                templates == net@.templates,
                forall|k: int|
                    0 <= k < i && (#[trigger] spec_node_messages(*self, templates, name@, k)) is Some
                        ==> self.messages@[k]@.len() == 1 && message_safe(
                        self.messages@[k]@[0].1,
                        name@,
                    ),
                spec_node_messages(*self, templates, name@, i as int) == Some(models(msgs@)),
                forall|k: int| 0 <= k < msgs@.len() ==> (#[trigger] msgs@[k]).wf(),
            decreases self.messages@.len() - i,
        {
            if self.messages[i].len() != 1 {
                proof {
                    assert(!(self.messages@[i as int]@.len() == 1));
                }
                return None;
            }
            let (msg_name, mdesc) = crate::ymlfmt::unmap(&self.messages[i]);
            let appended_name = concat(concat(name, "_").as_str(), msg_name.as_str());
            proof {
                reveal_strlit("_");
                assert(appended_name@ =~= node_message_name(*self, name@, i as int));
            }
            let msg = match mdesc.checked_to_message(net, appended_name.as_str(), name) {
                None => {
                    return None;
                },
                Some(Ok(m)) => m,
                Some(Err(e)) => {
                    proof {
                        assert forall|n: int| i < n <= self.messages@.len() implies (#[trigger] spec_node_messages(
                            *self,
                            templates,
                            name@,
                            n,
                        )) is None by {
                            lemma_node_messages_stop(*self, templates, name@, i as int, n);
                        }
                        lemma_node_messages_stop(
                            *self,
                            templates,
                            name@,
                            i as int,
                            self.messages@.len() as int,
                        );
                    }
                    return Some(Err(e));
                },
            };
            let ghost before = msgs@;
            msgs.push(msg);
            proof {
                assert(models(msgs@) =~= models(before).push(msg@));
            }
            i = i + 1;
        }
        Some(Ok(msgs))
    }

    /// Make the messages of this node, named `name`: each named `name`, `_` and its key.
    pub fn to_messages(&self, net: &CANNetwork, name: &str) -> (r: Result<Vec<CANMessage>, ComposeError>)
        requires
            node_messages_safe(*self, net@.templates, name@),
        ensures
            match spec_node_messages(*self, net@.templates, name@, self.messages@.len() as int) {
                Some(ms) => r matches Ok(v) && models(v@) == ms && forall|k: int|
                    0 <= k < v@.len() ==> (#[trigger] v@[k]).wf(),
                None => r matches Err(e) && e@ == node_messages_error(
                    *self,
                    net@.templates,
                    name@,
                    self.messages@.len() as int,
                ),
            },
    {
        match self.checked_to_messages(net, name) {
            Some(res) => res,
            None => Err(ComposeError::Message(String::new())),
        }
    }
}

/// Once an insertion fails, inserting all fails.
proof fn lemma_insert_all_stop(n: NetworkView, ms: Seq<MessageView>, k: int)
    requires
        0 <= k < ms.len(),
        spec_insert_all(n, ms.take(k)) is Some,
        spec_insert_all(n, ms.take(k)).unwrap().insert_msg(ms[k]) is None,
    ensures
        spec_insert_all(n, ms) is None,
        insert_all_error(n, ms) == spec_insert_all(n, ms.take(k)).unwrap().insert_msg_error(ms[k]),
        insert_all_reached(n, ms) == spec_insert_all(n, ms.take(k)).unwrap(),
    decreases ms.len() - k,
{
    if k == ms.len() - 1 {
        assert(ms.drop_last() =~= ms.take(k));
    } else {
        assert(ms.drop_last().take(k) =~= ms.take(k));
        assert(ms.drop_last()[k] == ms[k]);
        lemma_insert_all_stop(n, ms.drop_last(), k);
    }
}

impl YDesc {
    /// [`add_node_msgs`](Self::add_node_msgs) on every description: `None`, with
    /// the network unchanged, when making a message that is reached would panic.
    pub fn checked_add_node_msgs(net: &mut CANNetwork, node_name: &str, ndesc: &YNode) -> (r: Option<
        Result<(), ComposeError>,
    >)
        ensures
            r is Some <==> node_messages_safe(*ndesc, old(net)@.templates, node_name@),
            r is None ==> *final(net) == *old(net),
            r is Some ==> final(net)@ == add_node_msgs_reached(old(net)@, node_name@, *ndesc),
            r matches Some(res) ==> match spec_add_node_msgs(old(net)@, node_name@, *ndesc) {
                Some(v) => res is Ok && final(net)@ == v,
                None => res matches Err(e) && e@ == add_node_msgs_error(old(net)@, node_name@, *ndesc),
            },
    {
        let msgs = match ndesc.checked_to_messages(net, node_name) {
            None => {
                return None;
            },
            Some(Err(e)) => {
                return Some(Err(e));
            },
            Some(Ok(m)) => m,
        };
        let ghost start = net@;
        let ghost ms = models(msgs@);
        let mut rest = msgs;
        let total = rest.len();
        let mut i: usize = 0;
        while rest.len() > 0
            invariant
                0 <= i <= ms.len(),
                ms.len() == total,
                total == i + rest@.len(),
                models(rest@) == ms.skip(i as int),
                spec_insert_all(start, ms.take(i as int)) == Some(net@),
                start == old(net)@,
                node_messages_safe(*ndesc, start.templates, node_name@),
                spec_node_messages(*ndesc, start.templates, node_name@, ndesc.messages@.len() as int)
                    == Some(ms),
            decreases rest@.len(),
        {
            let ghost before = rest@;
            let msg = rest.remove(0);
            proof {
                assert(ms.take(i + 1).drop_last() =~= ms.take(i as int));
                assert(ms.take(i + 1).last() == ms[i as int]);
                assert(models(before) == ms.skip(i as int));
                assert(before.len() > 0);
                assert(msg == before[0]);
                assert(models(before)[0] == msg@);
                assert(ms.skip(i as int)[0] == ms[i as int]);
                assert(ms[i as int] == msg@);
                assert(rest@ =~= before.skip(1));
                assert forall|j: int| 0 <= j < rest@.len() implies models(rest@)[j] == ms.skip(
                    i + 1,
                )[j] by {
                    assert(models(before)[j + 1] == ms.skip(i as int)[j + 1]);
                }
                assert(models(rest@) =~= ms.skip(i + 1));
            }
            match net.insert_msg(msg) {
                Ok(()) => {},
                Err(e) => {
                    proof {
                        lemma_insert_all_stop(start, ms, i as int);
                    }
                    let err = ComposeError::Construction(e);
                    assert(err@ == construction_view(e@));
                    return Some(Err(err));
                },
            }
            i = i + 1;
        }
        proof {
            assert(ms.take(i as int) =~= ms);
            assert(ms.len() > 0 ==> ms.drop_last() =~= ms.take(ms.len() - 1));
        }
        Some(Ok(()))
    }

    /// Add the messages of the node described by `ndesc`, named `node_name`, to the
    /// network (the node itself must already be there).
    pub fn add_node_msgs(net: &mut CANNetwork, node_name: &str, ndesc: &YNode) -> (r: Result<
        (),
        ComposeError,
    >)
        requires
            node_messages_safe(*ndesc, old(net)@.templates, node_name@),
        ensures
            match spec_add_node_msgs(old(net)@, node_name@, *ndesc) {
                Some(v) => r is Ok && final(net)@ == v,
                None => r matches Err(e) && e@ == add_node_msgs_error(old(net)@, node_name@, *ndesc),
            },
            final(net)@ == add_node_msgs_reached(old(net)@, node_name@, *ndesc),
    {
        match Self::checked_add_node_msgs(net, node_name, ndesc) {
            Some(res) => res,
            None => Err(ComposeError::Message(String::new())),
        }
    }
}

/// The network after adding the described templates in order, if all succeed.
pub open spec fn spec_add_templates(n: NetworkView, ts: Seq<Vec<(String, YMessageTemplate)>>) -> Option<
    NetworkView,
>
    decreases ts.len(),
{
    if ts.len() == 0 {
        Some(n)
    } else {
        match spec_add_templates(n, ts.drop_last()) {
            None => None,
            Some(n2) => match spec_template_message(ts.last()@[0].1, ts.last()@[0].0@) {
                None => None,
                Some(t) => n2.insert_template(t),
            },
        }
    }
}

/// Every template that the additions reach can be built without a panic.
pub open spec fn templates_safe(n: NetworkView, ts: Seq<Vec<(String, YMessageTemplate)>>) -> bool {
    forall|k: int|
        0 <= k < ts.len() ==> match #[trigger] spec_add_templates(n, ts.take(k)) {
            Some(_) => ts[k]@.len() == 1 && template_safe(ts[k]@[0].1),
            None => true,
        }
}

/// The network after adding the described nodes in order, if all succeed.
pub open spec fn spec_add_nodes(n: NetworkView, nodes: Seq<Vec<(String, YNode)>>) -> Option<NetworkView>
    decreases nodes.len(),
{
    if nodes.len() == 0 {
        Some(n)
    } else {
        match spec_add_nodes(n, nodes.drop_last()) {
            None => None,
            Some(n2) => n2.add_node(nodes.last()@[0].0@),
        }
    }
}

/// The network after adding the messages of the described nodes in order, if all succeed.
pub open spec fn spec_add_all_node_msgs(n: NetworkView, nodes: Seq<Vec<(String, YNode)>>) -> Option<
    NetworkView,
>
    decreases nodes.len(),
{
    if nodes.len() == 0 {
        Some(n)
    } else {
        match spec_add_all_node_msgs(n, nodes.drop_last()) {
            None => None,
            Some(n2) => spec_add_node_msgs(n2, nodes.last()@[0].0@, nodes.last()@[0].1),
        }
    }
}

/// Every node whose messages the additions reach can have them made without a panic.
pub open spec fn node_msgs_safe(n: NetworkView, nodes: Seq<Vec<(String, YNode)>>) -> bool {
    forall|k: int|
        0 <= k < nodes.len() ==> match #[trigger] spec_add_all_node_msgs(n, nodes.take(k)) {
            Some(n2) => node_messages_safe(nodes[k]@[0].1, n2.templates, nodes[k]@[0].0@),
            None => true,
        }
}

/// The network after marking the messages `names` in order as received by node
/// `node`, if all succeed.
pub open spec fn spec_rx_names(n: NetworkView, names: Seq<Seq<char>>, node: Seq<char>) -> Option<
    NetworkView,
>
    decreases names.len(),
{
    if names.len() == 0 {
        Some(n)
    } else {
        match spec_rx_names(n, names.drop_last(), node) {
            None => None,
            Some(n2) => n2.set_rx(names.last(), node),
        }
    }
}

/// No message that the markings reach is already received by the node (the
/// node's list of received messages names each message once).
pub open spec fn rx_names_safe(n: NetworkView, names: Seq<Seq<char>>, node: Seq<char>) -> bool {
    forall|k: int|
        0 <= k < names.len() ==> match #[trigger] spec_rx_names(n, names.take(k), node) {
            Some(n2) => view_has_message(n2.messages, names[k]) && view_has_node(n2.nodes, node)
                ==> !n2.nodes[view_node_index(n2.nodes, node)].rx.contains(names[k]),
            None => true,
        }
}

/// The names of the messages that a node receives: those listed, or every message
/// of the network.
pub open spec fn rx_targets(n: NetworkView, rx: RxListOrDirective) -> Seq<Seq<char>> {
    match rx {
        RxListOrDirective::List(l) => l@.map_values(|s: String| s@),
        RxListOrDirective::Directive(RxDirective::Everything) => n.messages.map_values(
            |m: MessageView| m.name,
        ),
    }
}

/// Node `node` of the network model `n` receives the message named `msg`.
pub open spec fn view_receives(n: NetworkView, node: Seq<char>, msg: Seq<char>) -> bool {
    exists|j: int| 0 <= j < n.nodes.len() && (#[trigger] n.nodes[j]).name == node && n.nodes[j].rx.contains(msg)
}

/// `v` has the messages of `n` and its nodes, under the same names, each still
/// receiving what it received in `n`.
pub open spec fn keeps_receipts(n: NetworkView, v: NetworkView) -> bool {
    &&& v.messages == n.messages
    &&& v.nodes.len() == n.nodes.len()
    &&& forall|j: int| 0 <= j < n.nodes.len() ==> (#[trigger] v.nodes[j]).name == n.nodes[j].name
    &&& forall|j: int, x: Seq<char>| 0 <= j < n.nodes.len() && (#[trigger] n.nodes[j].rx.contains(x)) ==> v.nodes[j].rx.contains(x)
}

/// Marking one message as received keeps every earlier receipt and adds this one.
proof fn lemma_set_rx_receives(n: NetworkView, msg: Seq<char>, node: Seq<char>)
    requires
        n.set_rx(msg, node) is Some,
    ensures
        keeps_receipts(n, n.set_rx(msg, node).unwrap()),
        view_receives(n.set_rx(msg, node).unwrap(), node, msg),
{
    let v = n.set_rx(msg, node).unwrap();
    let k = view_node_index(n.nodes, node);
    assert(n.nodes[k].name == node);
    assert(v.nodes[k].rx == n.nodes[k].rx.push(msg));
    assert(v.nodes[k].rx[n.nodes[k].rx.len() as int] == msg);
    assert(v.nodes[k].rx.contains(msg));
    assert forall|j: int, x: Seq<char>| 0 <= j < n.nodes.len() && (#[trigger] n.nodes[j].rx.contains(x)) implies v.nodes[j].rx.contains(x) by {
        if j == k {
            let i = choose|i: int| 0 <= i < n.nodes[j].rx.len() && n.nodes[j].rx[i] == x;
            assert(v.nodes[j].rx[i] == x);
        }
    }
}

/// Receipts kept from `n` to `v` and from `v` to `w` are kept from `n` to `w`.
proof fn lemma_keeps_receipts_trans(n: NetworkView, v: NetworkView, w: NetworkView)
    requires
        keeps_receipts(n, v),
        keeps_receipts(v, w),
    ensures
        keeps_receipts(n, w),
{
    assert forall|j: int, x: Seq<char>| 0 <= j < n.nodes.len() && (#[trigger] n.nodes[j].rx.contains(x)) implies w.nodes[j].rx.contains(x) by {
        assert(v.nodes[j].rx.contains(x));
    }
}

/// A receipt is still there in a network that keeps the receipts.
proof fn lemma_receives_kept(n: NetworkView, v: NetworkView, node: Seq<char>, msg: Seq<char>)
    requires
        keeps_receipts(n, v),
        view_receives(n, node, msg),
    ensures
        view_receives(v, node, msg),
{
    let j = choose|j: int| 0 <= j < n.nodes.len() && (#[trigger] n.nodes[j]).name == node && n.nodes[j].rx.contains(msg);
    assert(v.nodes[j].rx.contains(msg));
    assert(v.nodes[j].name == node);
}

/// Marking the messages `names` as received by node `node`, when it succeeds, keeps
/// every earlier receipt, and leaves the node receiving each of the messages.
pub proof fn law_marked_messages_are_received(n: NetworkView, names: Seq<Seq<char>>, node: Seq<char>)
    requires
        spec_rx_names(n, names, node) is Some,
    ensures
        keeps_receipts(n, spec_rx_names(n, names, node).unwrap()),
        forall|i: int| 0 <= i < names.len() ==> view_receives(spec_rx_names(n, names, node).unwrap(), node, #[trigger] names[i]),
    decreases names.len(),
{
    if names.len() > 0 {
        let n2 = spec_rx_names(n, names.drop_last(), node).unwrap();
        law_marked_messages_are_received(n, names.drop_last(), node);
        lemma_set_rx_receives(n2, names.last(), node);
        let v = n2.set_rx(names.last(), node).unwrap();
        lemma_keeps_receipts_trans(n, n2, v);
        assert forall|i: int| 0 <= i < names.len() implies view_receives(v, node, #[trigger] names[i]) by {
            if i < names.len() - 1 {
                assert(names.drop_last()[i] == names[i]);
                lemma_receives_kept(n2, v, node, names[i]);
            }
        }
    }
}

/// The `Everything` directive names every message of the network, in its order.
pub proof fn law_everything_names_every_message(n: NetworkView)
    ensures
        rx_targets(n, RxListOrDirective::Directive(RxDirective::Everything)).len() == n.messages.len(),
        forall|i: int|
            0 <= i < n.messages.len() ==> (#[trigger] rx_targets(
                n,
                RxListOrDirective::Directive(RxDirective::Everything),
            )[i]) == n.messages[i].name,
{
}

/// Filling in what the described nodes receive, when it succeeds, keeps the
/// messages and every earlier receipt, and a node whose received messages are
/// given by the `Everything` directive receives every message of the network.
pub proof fn law_everything_receives_all(n: NetworkView, nodes: Seq<Vec<(String, YNode)>>)
    requires
        spec_rx_all(n, nodes) is Some,
    ensures
        keeps_receipts(n, spec_rx_all(n, nodes).unwrap()),
        forall|k: int, i: int|
            0 <= k < nodes.len() && nodes[k]@[0].1.rx == RxListOrDirective::Directive(RxDirective::Everything)
                && 0 <= i < n.messages.len() ==> view_receives(
                spec_rx_all(n, nodes).unwrap(),
                #[trigger] nodes[k]@[0].0@,
                #[trigger] n.messages[i].name,
            ),
    decreases nodes.len(),
{
    if nodes.len() > 0 {
        let n2 = spec_rx_all(n, nodes.drop_last()).unwrap();
        law_everything_receives_all(n, nodes.drop_last());
        let last = nodes.last();
        let targets = rx_targets(n2, last@[0].1.rx);
        law_marked_messages_are_received(n2, targets, last@[0].0@);
        let v = spec_rx_names(n2, targets, last@[0].0@).unwrap();
        lemma_keeps_receipts_trans(n, n2, v);
        assert forall|k: int, i: int|
            0 <= k < nodes.len() && nodes[k]@[0].1.rx == RxListOrDirective::Directive(RxDirective::Everything)
                && 0 <= i < n.messages.len() implies view_receives(v, #[trigger] nodes[k]@[0].0@, #[trigger] n.messages[i].name) by {
            if k < nodes.len() - 1 {
                assert(nodes.drop_last()[k] == nodes[k]);
                assert(view_receives(n2, nodes.drop_last()[k]@[0].0@, n.messages[i].name));
                lemma_receives_kept(n2, v, nodes[k]@[0].0@, n.messages[i].name);
            } else {
                law_everything_names_every_message(n2);
                assert(n2.messages == n.messages);
                assert(targets[i] == n.messages[i].name);
            }
        }
    }
}

/// The network after filling in what the described nodes receive, in order, if all succeed.
pub open spec fn spec_rx_all(n: NetworkView, nodes: Seq<Vec<(String, YNode)>>) -> Option<NetworkView>
    decreases nodes.len(),
{
    if nodes.len() == 0 {
        Some(n)
    } else {
        match spec_rx_all(n, nodes.drop_last()) {
            None => None,
            Some(n2) => spec_rx_names(
                n2,
                rx_targets(n2, nodes.last()@[0].1.rx),
                nodes.last()@[0].0@,
            ),
        }
    }
}

/// Filling in what each reached node receives does not panic.
pub open spec fn rx_all_safe(n: NetworkView, nodes: Seq<Vec<(String, YNode)>>) -> bool {
    forall|k: int|
        0 <= k < nodes.len() ==> match #[trigger] spec_rx_all(n, nodes.take(k)) {
            Some(n2) => rx_names_safe(n2, rx_targets(n2, nodes[k]@[0].1.rx), nodes[k]@[0].0@),
            None => true,
        }
}

/// The network after setting the bitrate the description gives, if any.
pub open spec fn with_bitrate(d: YDesc, n: NetworkView) -> NetworkView {
    match d.bitrate {
        Some(b) => NetworkView { bitrate: Some(b), ..n },
        None => n,
    }
}

/// The network composed from the description `d` on top of the network `n0`: the
/// bitrate, then the templates, the nodes, the messages of each node and what each
/// node receives; `None` when a step fails.
pub open spec fn spec_compose(d: YDesc, n0: NetworkView) -> Option<NetworkView> {
    match spec_add_templates(with_bitrate(d, n0), d.message_templates@) {
        None => None,
        Some(n2) => match spec_add_nodes(n2, d.nodes@) {
            None => None,
            Some(n3) => match spec_add_all_node_msgs(n3, d.nodes@) {
                None => None,
                Some(n4) => spec_rx_all(n4, d.nodes@),
            },
        },
    }
}

/// The error of adding the template of the single-entry map `entry` to `n`, when
/// that fails: the template cannot be built, or its name is taken.
pub open spec fn template_step_error(n: NetworkView, entry: Vec<(String, YMessageTemplate)>) -> ComposeErrorView {
    let name = entry@[0].0@;
    let t = entry@[0].1;
    match spec_template_message(t, name) {
        None => context_view(quoted_text("Could not build template "@, name, ""@), template_error(t, name)),
        Some(tm) => context_view(
            quoted_text("Could not add template "@, name, " to network"@),
            construction_view(n.insert_template_error(tm)),
        ),
    }
}

/// The error of the first described template that cannot be added, when one cannot.
pub open spec fn add_templates_error(n: NetworkView, ts: Seq<Vec<(String, YMessageTemplate)>>) -> ComposeErrorView
    decreases ts.len(),
{
    if ts.len() == 0 {
        vstd::pervasive::arbitrary()
    } else {
        match spec_add_templates(n, ts.drop_last()) {
            None => add_templates_error(n, ts.drop_last()),
            Some(n2) => template_step_error(n2, ts.last()),
        }
    }
}

/// The error of the first described node that cannot be added, when one cannot.
pub open spec fn add_nodes_error(n: NetworkView, nodes: Seq<Vec<(String, YNode)>>) -> ComposeErrorView
    decreases nodes.len(),
{
    if nodes.len() == 0 {
        vstd::pervasive::arbitrary()
    } else {
        match spec_add_nodes(n, nodes.drop_last()) {
            None => add_nodes_error(n, nodes.drop_last()),
            Some(n2) => construction_view(n2.add_node_error(nodes.last()@[0].0@)),
        }
    }
}

/// The error of the first described node whose messages cannot be added, when one cannot.
pub open spec fn all_node_msgs_error(n: NetworkView, nodes: Seq<Vec<(String, YNode)>>) -> ComposeErrorView
    decreases nodes.len(),
{
    if nodes.len() == 0 {
        vstd::pervasive::arbitrary()
    } else {
        match spec_add_all_node_msgs(n, nodes.drop_last()) {
            None => all_node_msgs_error(n, nodes.drop_last()),
            Some(n2) => context_view(
                quoted_text("Could not build node "@, nodes.last()@[0].0@, ""@),
                add_node_msgs_error(n2, nodes.last()@[0].0@, nodes.last()@[0].1),
            ),
        }
    }
}

/// The error of marking message `msg` as received by node `node` in `n`, when that
/// fails; with `context`, inside a layer that names the message and the node.
pub open spec fn rx_step_error(n: NetworkView, msg: Seq<char>, node: Seq<char>, context: bool) -> ComposeErrorView {
    if context {
        context_view(
            quoted_text("Could not add rx message "@, msg, ""@) + quoted_text(" to node "@, node, ""@),
            construction_view(n.set_rx_error(msg, node)),
        )
    } else {
        construction_view(n.set_rx_error(msg, node))
    }
}

/// The error of the first marking that fails, when one does.
pub open spec fn rx_names_error(n: NetworkView, names: Seq<Seq<char>>, node: Seq<char>, context: bool) -> ComposeErrorView
    decreases names.len(),
{
    if names.len() == 0 {
        vstd::pervasive::arbitrary()
    } else {
        match spec_rx_names(n, names.drop_last(), node) {
            None => rx_names_error(n, names.drop_last(), node, context),
            Some(n2) => rx_step_error(n2, names.last(), node, context),
        }
    }
}

/// The error of the first described node whose received messages cannot be
/// filled in, when one cannot (a listed message is named in the error's context).
pub open spec fn rx_all_error(n: NetworkView, nodes: Seq<Vec<(String, YNode)>>) -> ComposeErrorView
    decreases nodes.len(),
{
    if nodes.len() == 0 {
        vstd::pervasive::arbitrary()
    } else {
        match spec_rx_all(n, nodes.drop_last()) {
            None => rx_all_error(n, nodes.drop_last()),
            Some(n2) => rx_names_error(
                n2,
                rx_targets(n2, nodes.last()@[0].1.rx),
                nodes.last()@[0].0@,
                nodes.last()@[0].1.rx is List,
            ),
        }
    }
}

/// The error of composing `d` on top of `n0`, when that fails: that of the first
/// step that fails.
pub open spec fn compose_error(d: YDesc, n0: NetworkView) -> ComposeErrorView {
    match spec_add_templates(with_bitrate(d, n0), d.message_templates@) {
        None => add_templates_error(with_bitrate(d, n0), d.message_templates@),
        Some(n2) => match spec_add_nodes(n2, d.nodes@) {
            None => add_nodes_error(n2, d.nodes@),
            Some(n3) => match spec_add_all_node_msgs(n3, d.nodes@) {
                None => all_node_msgs_error(n3, d.nodes@),
                Some(n4) => rx_all_error(n4, d.nodes@),
            },
        },
    }
}

/// In a composed network, a node whose received messages are given by the
/// `Everything` directive receives every message of the network.
pub proof fn law_composed_everything_receives_all(d: YDesc, n0: NetworkView)
    requires
        spec_compose(d, n0) is Some,
    ensures
        forall|k: int, i: int|
            0 <= k < d.nodes@.len() && d.nodes@[k]@[0].1.rx == RxListOrDirective::Directive(RxDirective::Everything)
                && 0 <= i < spec_compose(d, n0).unwrap().messages.len() ==> view_receives(
                spec_compose(d, n0).unwrap(),
                #[trigger] d.nodes@[k]@[0].0@,
                #[trigger] spec_compose(d, n0).unwrap().messages[i].name,
            ),
{
    let n2 = spec_add_templates(with_bitrate(d, n0), d.message_templates@).unwrap();
    let n3 = spec_add_nodes(n2, d.nodes@).unwrap();
    let n4 = spec_add_all_node_msgs(n3, d.nodes@).unwrap();
    law_everything_receives_all(n4, d.nodes@);
    let v = spec_compose(d, n0).unwrap();
    assert(v.messages == n4.messages);
    assert forall|k: int, i: int|
        0 <= k < d.nodes@.len() && d.nodes@[k]@[0].1.rx == RxListOrDirective::Directive(RxDirective::Everything)
            && 0 <= i < v.messages.len() implies view_receives(v, #[trigger] d.nodes@[k]@[0].0@, #[trigger] v.messages[i].name) by {
        assert(v.messages[i].name == n4.messages[i].name);
    }
}

/// Composing `d` on top of `n0` does not panic.
pub open spec fn compose_safe(d: YDesc, n0: NetworkView) -> bool {
    &&& templates_safe(with_bitrate(d, n0), d.message_templates@)
    &&& match spec_add_templates(with_bitrate(d, n0), d.message_templates@) {
        None => true,
        Some(n2) => {
            &&& forall|k: int| 0 <= k < d.nodes@.len() ==> (#[trigger] d.nodes@[k])@.len() == 1
            &&& match spec_add_nodes(n2, d.nodes@) {
                None => true,
                Some(n3) => {
                    &&& node_msgs_safe(n3, d.nodes@)
                    &&& match spec_add_all_node_msgs(n3, d.nodes@) {
                        None => true,
                        Some(n4) => rx_all_safe(n4, d.nodes@),
                    }
                },
            }
        },
    }
}

proof fn lemma_templates_stop(n: NetworkView, ts: Seq<Vec<(String, YMessageTemplate)>>, k: int)
    requires
        0 <= k < ts.len(),
        spec_add_templates(n, ts.take(k)) is Some,
        match spec_template_message(ts[k]@[0].1, ts[k]@[0].0@) {
            None => true,
            Some(t) => spec_add_templates(n, ts.take(k)).unwrap().insert_template(t) is None,
        },
    ensures
        spec_add_templates(n, ts) is None,
        add_templates_error(n, ts) == template_step_error(spec_add_templates(n, ts.take(k)).unwrap(), ts[k]),
    decreases ts.len() - k,
{
    if k == ts.len() - 1 {
        assert(ts.drop_last() =~= ts.take(k));
    } else {
        assert(ts.drop_last().take(k) =~= ts.take(k));
        assert(ts.drop_last()[k] == ts[k]);
        lemma_templates_stop(n, ts.drop_last(), k);
    }
}

proof fn lemma_nodes_stop(n: NetworkView, nodes: Seq<Vec<(String, YNode)>>, k: int)
    requires
        0 <= k < nodes.len(),
        spec_add_nodes(n, nodes.take(k)) is Some,
        spec_add_nodes(n, nodes.take(k)).unwrap().add_node(nodes[k]@[0].0@) is None,
    ensures
        spec_add_nodes(n, nodes) is None,
        add_nodes_error(n, nodes) == construction_view(
            spec_add_nodes(n, nodes.take(k)).unwrap().add_node_error(nodes[k]@[0].0@),
        ),
    decreases nodes.len() - k,
{
    if k == nodes.len() - 1 {
        assert(nodes.drop_last() =~= nodes.take(k));
    } else {
        assert(nodes.drop_last().take(k) =~= nodes.take(k));
        assert(nodes.drop_last()[k] == nodes[k]);
        lemma_nodes_stop(n, nodes.drop_last(), k);
    }
}

proof fn lemma_node_msgs_stop(n: NetworkView, nodes: Seq<Vec<(String, YNode)>>, k: int)
    requires
        0 <= k < nodes.len(),
        spec_add_all_node_msgs(n, nodes.take(k)) is Some,
        spec_add_node_msgs(
            spec_add_all_node_msgs(n, nodes.take(k)).unwrap(),
            nodes[k]@[0].0@,
            nodes[k]@[0].1,
        ) is None,
    ensures
        spec_add_all_node_msgs(n, nodes) is None,
        all_node_msgs_error(n, nodes) == context_view(
            quoted_text("Could not build node "@, nodes[k]@[0].0@, ""@),
            add_node_msgs_error(spec_add_all_node_msgs(n, nodes.take(k)).unwrap(), nodes[k]@[0].0@, nodes[k]@[0].1),
        ),
    decreases nodes.len() - k,
{
    if k == nodes.len() - 1 {
        assert(nodes.drop_last() =~= nodes.take(k));
    } else {
        assert(nodes.drop_last().take(k) =~= nodes.take(k));
        assert(nodes.drop_last()[k] == nodes[k]);
        lemma_node_msgs_stop(n, nodes.drop_last(), k);
    }
}

proof fn lemma_rx_names_stop(n: NetworkView, names: Seq<Seq<char>>, node: Seq<char>, k: int, context: bool)
    requires
        0 <= k < names.len(),
        spec_rx_names(n, names.take(k), node) is Some,
        spec_rx_names(n, names.take(k), node).unwrap().set_rx(names[k], node) is None,
    ensures
        spec_rx_names(n, names, node) is None,
        rx_names_error(n, names, node, context) == rx_step_error(
            spec_rx_names(n, names.take(k), node).unwrap(),
            names[k],
            node,
            context,
        ),
    decreases names.len() - k,
{
    if k == names.len() - 1 {
        assert(names.drop_last() =~= names.take(k));
    } else {
        assert(names.drop_last().take(k) =~= names.take(k));
        assert(names.drop_last()[k] == names[k]);
        lemma_rx_names_stop(n, names.drop_last(), node, k, context);
    }
}

proof fn lemma_rx_all_stop(n: NetworkView, nodes: Seq<Vec<(String, YNode)>>, k: int)
    requires
        0 <= k < nodes.len(),
        spec_rx_all(n, nodes.take(k)) is Some,
        spec_rx_names(
            spec_rx_all(n, nodes.take(k)).unwrap(),
            rx_targets(spec_rx_all(n, nodes.take(k)).unwrap(), nodes[k]@[0].1.rx),
            nodes[k]@[0].0@,
        ) is None,
    ensures
        spec_rx_all(n, nodes) is None,
        rx_all_error(n, nodes) == rx_names_error(
            spec_rx_all(n, nodes.take(k)).unwrap(),
            rx_targets(spec_rx_all(n, nodes.take(k)).unwrap(), nodes[k]@[0].1.rx),
            nodes[k]@[0].0@,
            nodes[k]@[0].1.rx is List,
        ),
    decreases nodes.len() - k,
{
    if k == nodes.len() - 1 {
        assert(nodes.drop_last() =~= nodes.take(k));
    } else {
        assert(nodes.drop_last().take(k) =~= nodes.take(k));
        assert(nodes.drop_last()[k] == nodes[k]);
        lemma_rx_all_stop(n, nodes.drop_last(), k);
    }
}

/// The texts of a sequence of `String`s.
pub open spec fn string_texts(v: Seq<String>) -> Seq<Seq<char>> {
    v.map_values(|s: String| s@)
}

/// The template additions before index `i` that are reached do not panic.
pub open spec fn templates_prefix_safe(n: NetworkView, ts: Seq<Vec<(String, YMessageTemplate)>>, i: int) -> bool {
    forall|k: int|
        0 <= k < i ==> match #[trigger] spec_add_templates(n, ts.take(k)) {
            Some(_) => ts[k]@.len() == 1 && template_safe(ts[k]@[0].1),
            None => true,
        }
}

/// The node message additions before index `i` that are reached do not panic.
pub open spec fn node_msgs_prefix_safe(n: NetworkView, nodes: Seq<Vec<(String, YNode)>>, i: int) -> bool {
    forall|k: int|
        0 <= k < i ==> match #[trigger] spec_add_all_node_msgs(n, nodes.take(k)) {
            Some(n2) => node_messages_safe(nodes[k]@[0].1, n2.templates, nodes[k]@[0].0@),
            None => true,
        }
}

/// The markings before index `i` that are reached do not panic.
pub open spec fn rx_names_prefix_safe(n: NetworkView, names: Seq<Seq<char>>, node: Seq<char>, i: int) -> bool {
    forall|k: int|
        0 <= k < i ==> match #[trigger] spec_rx_names(n, names.take(k), node) {
            Some(n2) => view_has_message(n2.messages, names[k]) && view_has_node(n2.nodes, node)
                ==> !n2.nodes[view_node_index(n2.nodes, node)].rx.contains(names[k]),
            None => true,
        }
}

/// The fillings before index `i` that are reached do not panic.
pub open spec fn rx_all_prefix_safe(n: NetworkView, nodes: Seq<Vec<(String, YNode)>>, i: int) -> bool {
    forall|k: int|
        0 <= k < i ==> match #[trigger] spec_rx_all(n, nodes.take(k)) {
            Some(n2) => rx_names_safe(n2, rx_targets(n2, nodes[k]@[0].1.rx), nodes[k]@[0].0@),
            None => true,
        }
}

proof fn lemma_templates_stop_after(n: NetworkView, ts: Seq<Vec<(String, YMessageTemplate)>>, i: int)
    requires
        0 <= i < ts.len(),
        spec_add_templates(n, ts.take(i)) is Some,
        match spec_template_message(ts[i]@[0].1, ts[i]@[0].0@) {
            None => true,
            Some(t) => spec_add_templates(n, ts.take(i)).unwrap().insert_template(t) is None,
        },
    ensures
        forall|k: int| i < k <= ts.len() ==> (#[trigger] spec_add_templates(n, ts.take(k))) is None,
{
    assert forall|k: int| i < k <= ts.len() implies (#[trigger] spec_add_templates(n, ts.take(k))) is None by {
        assert(ts.take(k).take(i) =~= ts.take(i));
        assert(ts.take(k)[i] == ts[i]);
        lemma_templates_stop(n, ts.take(k), i);
    }
}

proof fn lemma_node_msgs_stop_after(n: NetworkView, nodes: Seq<Vec<(String, YNode)>>, i: int)
    requires
        0 <= i < nodes.len(),
        spec_add_all_node_msgs(n, nodes.take(i)) is Some,
        spec_add_node_msgs(
            spec_add_all_node_msgs(n, nodes.take(i)).unwrap(),
            nodes[i]@[0].0@,
            nodes[i]@[0].1,
        ) is None,
    ensures
        forall|k: int| i < k <= nodes.len() ==> (#[trigger] spec_add_all_node_msgs(n, nodes.take(k))) is None,
{
    assert forall|k: int| i < k <= nodes.len() implies (#[trigger] spec_add_all_node_msgs(
        n,
        nodes.take(k),
    )) is None by {
        assert(nodes.take(k).take(i) =~= nodes.take(i));
        assert(nodes.take(k)[i] == nodes[i]);
        lemma_node_msgs_stop(n, nodes.take(k), i);
    }
}

proof fn lemma_rx_names_stop_after(n: NetworkView, names: Seq<Seq<char>>, node: Seq<char>, i: int)
    requires
        0 <= i < names.len(),
        spec_rx_names(n, names.take(i), node) is Some,
        spec_rx_names(n, names.take(i), node).unwrap().set_rx(names[i], node) is None,
    ensures
        forall|k: int| i < k <= names.len() ==> (#[trigger] spec_rx_names(n, names.take(k), node)) is None,
{
    assert forall|k: int| i < k <= names.len() implies (#[trigger] spec_rx_names(
        n,
        names.take(k),
        node,
    )) is None by {
        assert(names.take(k).take(i) =~= names.take(i));
        assert(names.take(k)[i] == names[i]);
        lemma_rx_names_stop(n, names.take(k), node, i, false);
    }
}

proof fn lemma_rx_all_stop_after(n: NetworkView, nodes: Seq<Vec<(String, YNode)>>, i: int)
    requires
        0 <= i < nodes.len(),
        spec_rx_all(n, nodes.take(i)) is Some,
        spec_rx_names(
            spec_rx_all(n, nodes.take(i)).unwrap(),
            rx_targets(spec_rx_all(n, nodes.take(i)).unwrap(), nodes[i]@[0].1.rx),
            nodes[i]@[0].0@,
        ) is None,
    ensures
        forall|k: int| i < k <= nodes.len() ==> (#[trigger] spec_rx_all(n, nodes.take(k))) is None,
{
    assert forall|k: int| i < k <= nodes.len() implies (#[trigger] spec_rx_all(n, nodes.take(k))) is None by {
        assert(nodes.take(k).take(i) =~= nodes.take(i));
        assert(nodes.take(k)[i] == nodes[i]);
        lemma_rx_all_stop(n, nodes.take(k), i);
    }
}

impl YDesc {
    /// Add each described template to the network; `None` when building a template
    /// that is reached would panic.
    fn checked_add_templates(&self, net: &mut CANNetwork) -> (r: Option<Result<(), ComposeError>>)
        ensures
            r is Some <==> templates_safe(old(net)@, self.message_templates@),
            r matches Some(res) ==> match spec_add_templates(old(net)@, self.message_templates@) {
                Some(v) => res is Ok && final(net)@ == v,
                None => res matches Err(e) && e@ == add_templates_error(old(net)@, self.message_templates@),
            },
    {
        let ghost start = net@;
        let ghost ts = self.message_templates@;
        let mut i: usize = 0;
        while i < self.message_templates.len()
            invariant
                0 <= i <= ts.len(),
                ts == self.message_templates@,
                start == old(net)@,
                templates_prefix_safe(start, ts, i as int),
                spec_add_templates(start, ts.take(i as int)) == Some(net@),
            decreases ts.len() - i,
        {
            proof {
                assert(ts.take(i + 1).drop_last() =~= ts.take(i as int));
                assert(ts.take(i + 1).last() == ts[i as int]);
            }
            if self.message_templates[i].len() != 1 {
                proof {
                    assert(match spec_add_templates(start, ts.take(i as int)) {
                        Some(_) => !(ts[i as int]@.len() == 1 && template_safe(ts[i as int]@[0].1)),
                        None => false,
                    });
                }
                return None;
            }
            let (name, tdesc) = crate::ymlfmt::unmap(&self.message_templates[i]);
            let template = match tdesc.checked_to_template_message(name.as_str()) {
                None => {
                    proof {
                        assert(match spec_add_templates(start, ts.take(i as int)) {
                            Some(_) => !(ts[i as int]@.len() == 1 && template_safe(ts[i as int]@[0].1)),
                            None => false,
                        });
                    }
                    return None;
                },
                Some(Ok(t)) => t,
                Some(Err(e)) => {
                    proof {
                        lemma_templates_stop(start, ts, i as int);
                        lemma_templates_stop_after(start, ts, i as int);
                        assert forall|k: int| 0 <= k < ts.len() implies match #[trigger] spec_add_templates(start, ts.take(k)) {
                            Some(_) => ts[k]@.len() == 1 && template_safe(ts[k]@[0].1),
                            None => true,
                        } by {
                            if k < i {
                                assert(templates_prefix_safe(start, ts, i as int));
                            }
                        }
                    }
                    let err = with_context(quoted("Could not build template ", name.as_str(), ""), e);
                    assert(err@ == template_step_error(net@, ts[i as int]));
                    return Some(Err(err));
                },
            };
            proof {
                assert(templates_prefix_safe(start, ts, i + 1)) by {
                    assert forall|k: int| 0 <= k < i + 1 implies match #[trigger] spec_add_templates(start, ts.take(k)) {
                        Some(_) => ts[k]@.len() == 1 && template_safe(ts[k]@[0].1),
                        None => true,
                    } by {
                        if k < i {
                            assert(templates_prefix_safe(start, ts, i as int));
                        }
                    }
                }
            }
            let ghost n_before = net@;
            match net.insert_template_message(template) {
                Ok(()) => {},
                Err(e) => {
                    proof {
                        lemma_templates_stop(start, ts, i as int);
                        lemma_templates_stop_after(start, ts, i as int);
                        assert forall|k: int| 0 <= k < ts.len() implies match #[trigger] spec_add_templates(start, ts.take(k)) {
                            Some(_) => ts[k]@.len() == 1 && template_safe(ts[k]@[0].1),
                            None => true,
                        } by {
                            if k <= i {
                                assert(templates_prefix_safe(start, ts, i + 1));
                            }
                        }
                    }
                    let inner = ComposeError::Construction(e);
                    assert(inner@ == construction_view(e@));
                    let err = with_context(quoted("Could not add template ", name.as_str(), " to network"), inner);
                    assert(err@ == template_step_error(n_before, ts[i as int]));
                    return Some(Err(err));
                },
            }
            i = i + 1;
        }
        proof {
            assert(ts.take(ts.len() as int) =~= ts);
        }
        Some(Ok(()))
    }

    /// Whether every node entry is a single pair.
    fn nodes_are_pairs(&self) -> (r: bool)
        ensures
            r == forall|k: int| 0 <= k < self.nodes@.len() ==> (#[trigger] self.nodes@[k])@.len() == 1,
    {
        let mut i: usize = 0;
        while i < self.nodes.len()
            invariant
                0 <= i <= self.nodes@.len(),
                forall|k: int| 0 <= k < i ==> (#[trigger] self.nodes@[k])@.len() == 1,
            decreases self.nodes@.len() - i,
        {
            if self.nodes[i].len() != 1 {
                return false;
            }
            i = i + 1;
        }
        true
    }

    /// Add each described node to the network.
    fn add_nodes(&self, net: &mut CANNetwork) -> (r: Result<(), ComposeError>)
        requires
            forall|k: int| 0 <= k < self.nodes@.len() ==> (#[trigger] self.nodes@[k])@.len() == 1,
        ensures
            match spec_add_nodes(old(net)@, self.nodes@) {
                Some(v) => r is Ok && final(net)@ == v,
                None => r matches Err(e) && e@ == add_nodes_error(old(net)@, self.nodes@),
            },
    {
        let ghost start = net@;
        let ghost ns = self.nodes@;
        let mut i: usize = 0;
        while i < self.nodes.len()
            invariant
                0 <= i <= ns.len(),
                ns == self.nodes@,
                start == old(net)@,
                forall|k: int| 0 <= k < ns.len() ==> (#[trigger] ns[k])@.len() == 1,
                spec_add_nodes(start, ns.take(i as int)) == Some(net@),
            decreases ns.len() - i,
        {
            proof {
                assert(ns.take(i + 1).drop_last() =~= ns.take(i as int));
                assert(ns.take(i + 1).last() == ns[i as int]);
                assert(ns[i as int]@.len() == 1);
            }
            let (name, _) = crate::ymlfmt::unmap(&self.nodes[i]);
            match net.add_node(name.as_str()) {
                Ok(()) => {},
                Err(e) => {
                    proof {
                        lemma_nodes_stop(start, ns, i as int);
                    }
                    let err = ComposeError::Construction(e);
                    assert(err@ == construction_view(e@));
                    return Err(err);
                },
            }
            i = i + 1;
        }
        proof {
            assert(ns.take(ns.len() as int) =~= ns);
        }
        Ok(())
    }

    /// Add the messages of each described node to the network; `None` when making a
    /// message that is reached would panic.
    fn checked_add_all_node_msgs(&self, net: &mut CANNetwork) -> (r: Option<Result<(), ComposeError>>)
        requires
            forall|k: int| 0 <= k < self.nodes@.len() ==> (#[trigger] self.nodes@[k])@.len() == 1,
        ensures
            r is Some <==> node_msgs_safe(old(net)@, self.nodes@),
            r matches Some(res) ==> match spec_add_all_node_msgs(old(net)@, self.nodes@) {
                Some(v) => res is Ok && final(net)@ == v,
                None => res matches Err(e) && e@ == all_node_msgs_error(old(net)@, self.nodes@),
            },
    {
        let ghost start = net@;
        let ghost ns = self.nodes@;
        let mut i: usize = 0;
        while i < self.nodes.len()
            invariant
                0 <= i <= ns.len(),
                ns == self.nodes@,
                start == old(net)@,
                forall|k: int| 0 <= k < ns.len() ==> (#[trigger] ns[k])@.len() == 1,
                node_msgs_prefix_safe(start, ns, i as int),
                spec_add_all_node_msgs(start, ns.take(i as int)) == Some(net@),
            decreases ns.len() - i,
        {
            proof {
                assert(ns.take(i + 1).drop_last() =~= ns.take(i as int));
                assert(ns.take(i + 1).last() == ns[i as int]);
                assert(ns[i as int]@.len() == 1);
            }
            let (name, ndesc) = crate::ymlfmt::unmap(&self.nodes[i]);
            match YDesc::checked_add_node_msgs(net, name.as_str(), ndesc) {
                None => {
                    proof {
                        assert(match spec_add_all_node_msgs(start, ns.take(i as int)) {
                            Some(n2) => !node_messages_safe(ns[i as int]@[0].1, n2.templates, ns[i as int]@[0].0@),
                            None => false,
                        });
                    }
                    return None;
                },
                Some(Ok(())) => {},
                Some(Err(e)) => {
                    proof {
                        lemma_node_msgs_stop(start, ns, i as int);
                        lemma_node_msgs_stop_after(start, ns, i as int);
                        assert forall|k: int| 0 <= k < ns.len() implies match #[trigger] spec_add_all_node_msgs(start, ns.take(k)) {
                            Some(n2) => node_messages_safe(ns[k]@[0].1, n2.templates, ns[k]@[0].0@),
                            None => true,
                        } by {
                            if k < i {
                                assert(node_msgs_prefix_safe(start, ns, i as int));
                            }
                        }
                    }
                    let err = with_context(quoted("Could not build node ", name.as_str(), ""), e);
                    return Some(Err(err));
                },
            }
            proof {
                assert(node_msgs_prefix_safe(start, ns, i + 1)) by {
                    assert forall|k: int| 0 <= k < i + 1 implies match #[trigger] spec_add_all_node_msgs(start, ns.take(k)) {
                        Some(n2) => node_messages_safe(ns[k]@[0].1, n2.templates, ns[k]@[0].0@),
                        None => true,
                    } by {
                        if k < i {
                            assert(node_msgs_prefix_safe(start, ns, i as int));
                        }
                    }
                }
            }
            i = i + 1;
        }
        proof {
            assert(ns.take(ns.len() as int) =~= ns);
        }
        Some(Ok(()))
    }

    /// Mark each message named in `names`, in order, as received by node `node`;
    /// with `context`, an error tells which message and node it was about. `None`
    /// when a message that is reached is already received by the node.
    fn checked_set_rx_names(net: &mut CANNetwork, names: &Vec<String>, node: &str, context: bool) -> (r: Option<
        Result<(), ComposeError>,
    >)
        ensures
            r is Some <==> rx_names_safe(old(net)@, string_texts(names@), node@),
            r matches Some(res) ==> match spec_rx_names(old(net)@, string_texts(names@), node@) {
                Some(v) => res is Ok && final(net)@ == v,
                None => res matches Err(e) && e@ == rx_names_error(old(net)@, string_texts(names@), node@, context),
            },
    {
        let ghost start = net@;
        let ghost ns = string_texts(names@);
        let mut i: usize = 0;
        while i < names.len()
            invariant
                0 <= i <= ns.len(),
                ns == string_texts(names@),
                start == old(net)@,
                rx_names_prefix_safe(start, ns, node@, i as int),
                spec_rx_names(start, ns.take(i as int), node@) == Some(net@),
            decreases ns.len() - i,
        {
            proof {
                assert(ns.take(i + 1).drop_last() =~= ns.take(i as int));
                assert(ns.take(i + 1).last() == ns[i as int]);
                assert(ns[i as int] == names@[i as int]@);
            }
            if net.node_receives(names[i].as_str(), node) {
                proof {
                    assert(match spec_rx_names(start, ns.take(i as int), node@) {
                        Some(n2) => !(view_has_message(n2.messages, ns[i as int]) && view_has_node(n2.nodes, node@)
                            ==> !n2.nodes[view_node_index(n2.nodes, node@)].rx.contains(ns[i as int])),
                        None => false,
                    });
                }
                return None;
            }
            proof {
                assert(rx_names_prefix_safe(start, ns, node@, i + 1)) by {
                    assert forall|k: int| 0 <= k < i + 1 implies match #[trigger] spec_rx_names(start, ns.take(k), node@) {
                        Some(n2) => view_has_message(n2.messages, ns[k]) && view_has_node(n2.nodes, node@)
                            ==> !n2.nodes[view_node_index(n2.nodes, node@)].rx.contains(ns[k]),
                        None => true,
                    } by {
                        if k < i {
                            assert(rx_names_prefix_safe(start, ns, node@, i as int));
                        }
                    }
                }
            }
            let ghost n_before = net@;
            match net.set_message_rx_by_node(names[i].as_str(), node) {
                Ok(()) => {},
                Err(e) => {
                    proof {
                        lemma_rx_names_stop(start, ns, node@, i as int, context);
                        lemma_rx_names_stop_after(start, ns, node@, i as int);
                        assert forall|k: int| 0 <= k < ns.len() implies match #[trigger] spec_rx_names(start, ns.take(k), node@) {
                            Some(n2) => view_has_message(n2.messages, ns[k]) && view_has_node(n2.nodes, node@)
                                ==> !n2.nodes[view_node_index(n2.nodes, node@)].rx.contains(ns[k]),
                            None => true,
                        } by {
                            if k <= i {
                                assert(rx_names_prefix_safe(start, ns, node@, i + 1));
                            }
                        }
                    }
                    let inner = ComposeError::Construction(e);
                    assert(inner@ == construction_view(e@));
                    if context {
                        let mut text = quoted("Could not add rx message ", names[i].as_str(), "");
                        text.append(quoted(" to node ", node, "").as_str());
                        let err = with_context(text, inner);
                        assert(err@ == rx_step_error(n_before, ns[i as int], node@, context));
                        return Some(Err(err));
                    }
                    return Some(Err(inner));
                },
            }
            i = i + 1;
        }
        proof {
            assert(ns.take(ns.len() as int) =~= ns);
        }
        Some(Ok(()))
    }

    /// Fill in the messages each described node receives; `None` when a node would
    /// be marked twice as receiving a message.
    fn checked_add_all_rx(&self, net: &mut CANNetwork) -> (r: Option<Result<(), ComposeError>>)
        requires
            forall|k: int| 0 <= k < self.nodes@.len() ==> (#[trigger] self.nodes@[k])@.len() == 1,
        ensures
            r is Some <==> rx_all_safe(old(net)@, self.nodes@),
            r matches Some(res) ==> match spec_rx_all(old(net)@, self.nodes@) {
                Some(v) => res is Ok && final(net)@ == v,
                None => res matches Err(e) && e@ == rx_all_error(old(net)@, self.nodes@),
            },
    {
        let ghost start = net@;
        let ghost ns = self.nodes@;
        let mut i: usize = 0;
        while i < self.nodes.len()
            invariant
                0 <= i <= ns.len(),
                ns == self.nodes@,
                start == old(net)@,
                forall|k: int| 0 <= k < ns.len() ==> (#[trigger] ns[k])@.len() == 1,
                rx_all_prefix_safe(start, ns, i as int),
                spec_rx_all(start, ns.take(i as int)) == Some(net@),
            decreases ns.len() - i,
        {
            proof {
                assert(ns.take(i + 1).drop_last() =~= ns.take(i as int));
                assert(ns.take(i + 1).last() == ns[i as int]);
                assert(ns[i as int]@.len() == 1);
            }
            let ghost n2 = net@;
            let (name, ndesc) = crate::ymlfmt::unmap(&self.nodes[i]);
            let res = match &ndesc.rx {
                RxListOrDirective::List(list) => {
                    proof {
                        assert(string_texts(list@) =~= rx_targets(net@, ndesc.rx));
                    }
                    YDesc::checked_set_rx_names(net, list, name.as_str(), true)
                },
                RxListOrDirective::Directive(RxDirective::Everything) => {
                    let messages = message_names(net);
                    proof {
                        assert(string_texts(messages@) =~= rx_targets(net@, ndesc.rx));
                    }
                    YDesc::checked_set_rx_names(net, &messages, name.as_str(), false)
                },
            };
            match res {
                None => {
                    proof {
                        assert(match spec_rx_all(start, ns.take(i as int)) {
                            Some(n2) => !rx_names_safe(n2, rx_targets(n2, ns[i as int]@[0].1.rx), ns[i as int]@[0].0@),
                            None => false,
                        });
                    }
                    return None;
                },
                Some(Ok(())) => {},
                Some(Err(e)) => {
                    proof {
                        lemma_rx_all_stop(start, ns, i as int);
                        lemma_rx_all_stop_after(start, ns, i as int);
                        assert forall|k: int| 0 <= k < ns.len() implies match #[trigger] spec_rx_all(start, ns.take(k)) {
                            Some(n2) => rx_names_safe(n2, rx_targets(n2, ns[k]@[0].1.rx), ns[k]@[0].0@),
                            None => true,
                        } by {
                            if k < i {
                                assert(rx_all_prefix_safe(start, ns, i as int));
                            }
                        }
                    }
                    return Some(Err(e));
                },
            }
            proof {
                assert(rx_all_prefix_safe(start, ns, i + 1)) by {
                    assert forall|k: int| 0 <= k < i + 1 implies match #[trigger] spec_rx_all(start, ns.take(k)) {
                        Some(n2) => rx_names_safe(n2, rx_targets(n2, ns[k]@[0].1.rx), ns[k]@[0].0@),
                        None => true,
                    } by {
                        if k < i {
                            assert(rx_all_prefix_safe(start, ns, i as int));
                        }
                    }
                }
            }
            i = i + 1;
        }
        proof {
            assert(ns.take(ns.len() as int) =~= ns);
        }
        Some(Ok(()))
    }

    /// [`into_network`](Self::into_network) on every description: `None` when
    /// composing would panic (an entry of the format that is not a single pair, a
    /// value or bit position that overflows, or a node marked twice as receiving a
    /// message).
    pub fn try_into_network(self, net: CANNetwork) -> (r: Option<Result<CANNetwork, ComposeError>>)
        ensures
            r is Some <==> compose_safe(self, net@),
            r matches Some(res) ==> match spec_compose(self, net@) {
                Some(v) => res matches Ok(n) && n@ == v,
                None => res matches Err(e) && e@ == compose_error(self, net@),
            },
    {
        let mut net = net;
        if let Some(b) = self.bitrate {
            net.set_bitrate(b);
        }
        match self.checked_add_templates(&mut net) {
            None => {
                return None;
            },
            Some(Err(e)) => {
                return Some(Err(e));
            },
            Some(Ok(())) => {},
        }
        if !self.nodes_are_pairs() {
            return None;
        }
        match self.add_nodes(&mut net) {
            Err(e) => {
                return Some(Err(e));
            },
            Ok(()) => {},
        }
        match self.checked_add_all_node_msgs(&mut net) {
            None => {
                return None;
            },
            Some(Err(e)) => {
                return Some(Err(e));
            },
            Some(Ok(())) => {},
        }
        match self.checked_add_all_rx(&mut net) {
            None => None,
            Some(Err(e)) => Some(Err(e)),
            Some(Ok(())) => Some(Ok(net)),
        }
    }

    /// Make a [`CANNetwork`] from this description, on top of the network `net`
    /// (which holds what the included files brought): set the bitrate, add the
    /// templates, the nodes, the messages of each node, and what each node receives.
    pub fn into_network(self, net: CANNetwork) -> (r: Result<CANNetwork, ComposeError>)
        requires
            compose_safe(self, net@),
        ensures
            match spec_compose(self, net@) {
                Some(v) => r matches Ok(n) && n@ == v,
                None => r matches Err(e) && e@ == compose_error(self, net@),
            },
    {
        match self.try_into_network(net) {
            Some(res) => res,
            None => Err(ComposeError::Message(String::new())),
        }
    }
}

/// The names of the messages of the network, in order.
fn message_names(net: &CANNetwork) -> (r: Vec<String>)
    ensures
        string_texts(r@) == net@.messages.map_values(|m: MessageView| m.name),
{
    let msgs = net.messages();
    let mut names: Vec<String> = Vec::new();
    let mut j: usize = 0;
    while j < msgs.len()
        invariant
            0 <= j <= msgs@.len(),
            msgs@ == net.spec_messages(),
            string_texts(names@) == net@.messages.map_values(|m: MessageView| m.name).take(
                j as int,
            ),
        decreases msgs@.len() - j,
    {
        let ghost before = names@;
        names.push(msgs[j].name.clone());
        proof {
            let all = net@.messages.map_values(|m: MessageView| m.name);
            assert(all[j as int] == msgs@[j as int].name@);
            assert(string_texts(names@) =~= string_texts(before).push(msgs@[j as int].name@));
            assert(all.take(j + 1) =~= all.take(j as int).push(all[j as int]));
        }
        j = j + 1;
    }
    proof {
        assert(net@.messages.map_values(|m: MessageView| m.name).take(msgs@.len() as int)
            =~= net@.messages.map_values(|m: MessageView| m.name));
    }
    names
}

} // verus!
