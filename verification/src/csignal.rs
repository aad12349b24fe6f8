//! C code for signals: their C types, enumerations, getter names and the
//! expressions that decode raw values and encode decoded ones.

use vstd::prelude::*;
use crate::cmessage::MessageCodegen;
use crate::ctext::{cat, indent, indented, spaces, strip_prefix, to_uppercase, trim, trimmed, uppercased, dec_text, push_dec};
use crate::enum_table::{enum_pairs, table_is_empty, table_pairs};
use crate::message::{CANMessage, CANMessageKind};
use crate::signal::{opt_text, CANSignal};
use crate::text::push_char;

verus! {

/// C type of a signal value.
pub enum CSignalTy {
    Bool,
    U8,
    U16,
    U32,
    U64,
    Float,
    Enum(String),
}

/// Model of a [`CSignalTy`].
pub enum CTyView {
    Bool,
    U8,
    U16,
    U32,
    U64,
    Float,
    Enum(Seq<char>),
}

impl View for CSignalTy {
    type V = CTyView;

    open spec fn view(&self) -> CTyView {
        match self {
            CSignalTy::Bool => CTyView::Bool,
            CSignalTy::U8 => CTyView::U8,
            CSignalTy::U16 => CTyView::U16,
            CSignalTy::U32 => CTyView::U32,
            CSignalTy::U64 => CTyView::U64,
            CSignalTy::Float => CTyView::Float,
            CSignalTy::Enum(s) => CTyView::Enum(s@),
        }
    }
}

/// The C spelling of a type.
pub open spec fn cty_text(t: CTyView) -> Seq<char> {
    match t {
        CTyView::Bool => "bool"@,
        CTyView::U8 => "uint8_t"@,
        CTyView::U16 => "uint16_t"@,
        CTyView::U32 => "uint32_t"@,
        CTyView::U64 => "uint64_t"@,
        CTyView::Float => "float"@,
        CTyView::Enum(s) => s,
    }
}

impl CSignalTy {
    /// The C spelling of this type.
    pub fn to_text(&self) -> (r: String)
        ensures
            r@ == cty_text(self@),
    {
        match self {
            CSignalTy::Bool => String::from_str("bool"),
            CSignalTy::U8 => String::from_str("uint8_t"),
            CSignalTy::U16 => String::from_str("uint16_t"),
            CSignalTy::U32 => String::from_str("uint32_t"),
            CSignalTy::U64 => String::from_str("uint64_t"),
            CSignalTy::Float => String::from_str("float"),
            CSignalTy::Enum(s) => s.clone(),
        }
    }
}

/// The C type that holds a raw value of `width` bits.
pub open spec fn raw_cty(width: u32) -> CTyView {
    if width == 1 {
        CTyView::Bool
    } else if width <= 8 {
        CTyView::U8
    } else if width <= 16 {
        CTyView::U16
    } else if width <= 32 {
        CTyView::U32
    } else {
        CTyView::U64
    }
}

/// A signal width that some C type holds.
pub open spec fn width_ok(width: u32) -> bool {
    1 <= width <= 64
}

/// The name that the C structs of message `m` give the signal named `name`:
/// without the transmitting node's prefix for a message made from a template.
pub open spec fn struct_signal_name(m: CANMessage, name: Seq<char>) -> Seq<char> {
    match m.kind {
        CANMessageKind::FromTemplate(_) => name.skip(m.tx_node.unwrap()@.len() + 1int),
        _ => name,
    }
}

/// The signal name of `m` can be normalized: a message made from a template has
/// a transmitting node, and the name starts with that node's name and `_`.
pub open spec fn name_normalizable(m: CANMessage, name: Seq<char>) -> bool {
    match m.kind {
        CANMessageKind::FromTemplate(_) => m.tx_node is Some && is_prefix(
            m.tx_node.unwrap()@ + seq!['_'],
            name,
        ),
        _ => true,
    }
}

/// `p` is a prefix of `s`.
pub open spec fn is_prefix(p: Seq<char>, s: Seq<char>) -> bool {
    p.len() <= s.len() && s.take(p.len() as int) == p
}

/// The signal has enumerated values.
pub open spec fn has_enum_values(sig: CANSignal) -> bool {
    exists|k: Seq<char>| enum_pairs(sig.enumerated_values).dom().contains(k)
}

/// The decoded C type of a signal of message `m`: an enumeration when the signal
/// has enumerated values, the raw type without scale and offset, `float` otherwise.
pub open spec fn decoded_cty(m: CANMessage, sig: CANSignal) -> CTyView {
    if has_enum_values(sig) {
        CTyView::Enum(
            match m.kind {
                CANMessageKind::FromTemplate(t) => "enum CAN_T_"@ + t@ + "_"@ + struct_signal_name(
                    m,
                    sig.name@,
                ),
                CANMessageKind::Template => "enum CAN_T_"@ + m.name@ + "_"@ + sig.name@,
                _ => "enum CAN_"@ + sig.name@,
            },
        )
    } else if sig.scale is None && sig.offset is None {
        raw_cty(sig.width)
    } else {
        CTyView::Float
    }
}

/// Code generation for a signal can proceed: its width fits a C type, its name can
/// be normalized, and an enumerated signal has neither scale nor offset.
pub open spec fn signal_codegen_ok(m: CANMessage, sig: CANSignal) -> bool {
    &&& width_ok(sig.width)
    &&& name_normalizable(m, sig.name@)
    &&& (has_enum_values(sig) ==> sig.scale is None && sig.offset is None)
}

/// The decoded C type of the signal can be found: an enumerated signal of a message
/// made from a template has a name that can be normalized, and a signal without
/// enumerated values, scale or offset has a width that fits a C type.
pub open spec fn decoded_ty_ok(m: CANMessage, sig: CANSignal) -> bool {
    &&& has_enum_values(sig) ==> name_normalizable(m, sig.name@)
    &&& !has_enum_values(sig) && sig.scale is None && sig.offset is None ==> width_ok(sig.width)
}

/// The decoding expression of the signal can be written: its decoded type can be
/// found, and an enumerated signal has neither scale nor offset.
pub open spec fn decoding_ok(m: CANMessage, sig: CANSignal) -> bool {
    &&& decoded_ty_ok(m, sig)
    &&& has_enum_values(sig) ==> sig.scale is None && sig.offset is None
}

/// The encoding expression of the signal can be written: as for decoding, and a
/// `float` signal has a width that fits a C type.
pub open spec fn encoding_ok(m: CANMessage, sig: CANSignal) -> bool {
    &&& decoding_ok(m, sig)
    &&& decoded_cty(m, sig) == CTyView::Float ==> width_ok(sig.width)
}

/// The C expression that decodes the raw value `raw`.
pub open spec fn decoding_text(m: CANMessage, sig: CANSignal, raw: Seq<char>) -> Seq<char> {
    if decoded_cty(m, sig) == CTyView::Float {
        "((float)("@ + raw + ")"@ + (match opt_text(sig.scale) {
            Some(s) => " * "@ + s + "f"@,
            None => Seq::empty(),
        }) + ")"@ + (match opt_text(sig.offset) {
            Some(o) => " + "@ + o + "f"@,
            None => Seq::empty(),
        })
    } else {
        raw
    }
}

/// The C expression that encodes the decoded value `d`: the inverse of decoding,
/// the offset taken away first, then the result divided by the scale.
pub open spec fn encoding_text(m: CANMessage, sig: CANSignal, d: Seq<char>) -> Seq<char> {
    if decoded_cty(m, sig) == CTyView::Float {
        "("@ + cty_text(raw_cty(sig.width)) + ")((("@ + d + ")"@ + (match opt_text(sig.offset) {
            Some(o) => " - "@ + o + "f"@,
            None => Seq::empty(),
        }) + ")"@ + (match opt_text(sig.scale) {
            Some(s) => " / "@ + s + "f"@,
            None => Seq::empty(),
        }) + ")"@
    } else {
        d
    }
}

/// For a signal with both a scale and an offset (and so a `float` decoded value),
/// decoding multiplies the raw value by the scale and then adds the offset, and
/// encoding undoes it: it takes the offset away first and then divides by the
/// scale, before turning the result into the raw type.
pub proof fn law_decoding_and_encoding_invert(m: CANMessage, sig: CANSignal, raw: Seq<char>, d: Seq<char>)
    requires
        !has_enum_values(sig),
        sig.scale is Some,
        sig.offset is Some,
    ensures
        decoding_text(m, sig, raw) == "((float)("@ + raw + ") * "@ + sig.scale.unwrap()@ + "f) + "@
            + sig.offset.unwrap()@ + "f"@,
        encoding_text(m, sig, d) == "("@ + cty_text(raw_cty(sig.width)) + ")((("@ + d + ") - "@
            + sig.offset.unwrap()@ + "f) / "@ + sig.scale.unwrap()@ + "f)"@,
{
    assert(decoded_cty(m, sig) == CTyView::Float);
    assert(decoding_text(m, sig, raw) =~= "((float)("@ + raw + ") * "@ + sig.scale.unwrap()@ + "f) + "@
        + sig.offset.unwrap()@ + "f"@) by {
        reveal_strlit(")");
        reveal_strlit(" * ");
        reveal_strlit(") * ");
        reveal_strlit("f");
        reveal_strlit("f) + ");
        reveal_strlit(" + ");
    }
    assert(encoding_text(m, sig, d) =~= "("@ + cty_text(raw_cty(sig.width)) + ")((("@ + d + ") - "@
        + sig.offset.unwrap()@ + "f) / "@ + sig.scale.unwrap()@ + "f)"@) by {
        reveal_strlit(")");
        reveal_strlit(" - ");
        reveal_strlit(") - ");
        reveal_strlit("f");
        reveal_strlit("f) / ");
        reveal_strlit(" / ");
        reveal_strlit("f)");
    }
}

/// A line of a C enumeration: `<prefix>_<SIGNAL>_<name> = <value>,` and a line break.
pub open spec fn enum_line(prefix: Seq<char>, upper_sig: Seq<char>, name: Seq<char>, value: u64) -> Seq<
    char,
> {
    prefix + "_"@ + upper_sig + "_"@ + name + " = "@ + dec_text(value as nat) + ",\n"@
}

/// The lines of a C enumeration, one per enumerated value in the given order.
pub open spec fn enum_lines(
    prefix: Seq<char>,
    upper_sig: Seq<char>,
    evs: Seq<(Seq<char>, u64)>,
) -> Seq<char>
    decreases evs.len(),
{
    if evs.len() == 0 {
        Seq::empty()
    } else {
        enum_lines(prefix, upper_sig, evs.drop_last()) + enum_line(
            prefix,
            upper_sig,
            evs.last().0,
            evs.last().1,
        )
    }
}

/// The prefix of the constants of the enumerations of message `m`.
pub open spec fn enum_prefix(m: CANMessage) -> Seq<char> {
    match m.kind {
        CANMessageKind::FromTemplate(t) => "CAN_T_"@ + uppercased(t@),
        CANMessageKind::Template => "CAN_T_"@ + uppercased(m.name@),
        _ => "CAN"@,
    }
}

/// `evs` holds each pair of the table `values` once, by raw value from the lowest up.
pub open spec fn sorted_view(evs: Seq<(Seq<char>, u64)>, values: Map<Seq<char>, u64>) -> bool {
    &&& forall|i: int|
        0 <= i < evs.len() ==> values.dom().contains(#[trigger] evs[i].0) && values[evs[i].0]
            == evs[i].1
    &&& forall|k: Seq<char>|
        values.dom().contains(k) ==> exists|i: int| 0 <= i < evs.len() && #[trigger] evs[i].0 == k
    &&& forall|i: int, j: int| 0 <= i < j < evs.len() ==> (#[trigger] evs[i]).1 < (#[trigger] evs[j]).1
}

/// The pairs of the table `values` ordered by raw value.
pub open spec fn enum_order(values: Map<Seq<char>, u64>) -> Seq<(Seq<char>, u64)> {
    choose|evs: Seq<(Seq<char>, u64)>| sorted_view(evs, values)
}

/// There is only one way to order the pairs of a table by raw value.
pub proof fn lemma_sorted_view_unique(
    a: Seq<(Seq<char>, u64)>,
    b: Seq<(Seq<char>, u64)>,
    values: Map<Seq<char>, u64>,
)
    requires
        sorted_view(a, values),
        sorted_view(b, values),
    ensures
        a == b,
    decreases a.len(),
{
    if a.len() == 0 {
        if b.len() > 0 {
            assert(values.dom().contains(b[0].0));
        }
        assert(a =~= b);
    } else {
        if b.len() == 0 {
            assert(values.dom().contains(a[0].0));
        }
        assert(values.dom().contains(b[0].0));
        let i = choose|i: int| 0 <= i < a.len() && #[trigger] a[i].0 == b[0].0;
        assert(values.dom().contains(a[0].0));
        let j = choose|j: int| 0 <= j < b.len() && #[trigger] b[j].0 == a[0].0;
        assert(a[i].1 == b[0].1);
        assert(b[j].1 == a[0].1);
        if i > 0 {
            assert(a[0].1 < a[i].1);
            if j > 0 {
                assert(b[0].1 < b[j].1);
            }
        }
        assert(i == 0);
        assert(a[0] == b[0]);
        let k0 = a[0].0;
        let v2 = values.remove(k0);
        let a2 = a.skip(1);
        let b2 = b.skip(1);
        assert forall|x: int| 0 <= x < a2.len() implies v2.dom().contains(#[trigger] a2[x].0)
            && v2[a2[x].0] == a2[x].1 by {
            assert(a2[x] == a[x + 1]);
            assert(a[0].1 < a[x + 1].1);
        }
        assert forall|x: int| 0 <= x < b2.len() implies v2.dom().contains(#[trigger] b2[x].0)
            && v2[b2[x].0] == b2[x].1 by {
            assert(b2[x] == b[x + 1]);
            assert(b[0].1 < b[x + 1].1);
        }
        assert forall|k: Seq<char>| v2.dom().contains(k) implies exists|x: int|
            0 <= x < a2.len() && #[trigger] a2[x].0 == k by {
            let y = choose|y: int| 0 <= y < a.len() && #[trigger] a[y].0 == k;
            assert(y != 0);
            assert(a2[y - 1].0 == k);
        }
        assert forall|k: Seq<char>| v2.dom().contains(k) implies exists|x: int|
            0 <= x < b2.len() && #[trigger] b2[x].0 == k by {
            let y = choose|y: int| 0 <= y < b.len() && #[trigger] b[y].0 == k;
            assert(y != 0);
            assert(b2[y - 1].0 == k);
        }
        assert forall|x: int, y: int| 0 <= x < y < a2.len() implies (#[trigger] a2[x]).1 < (
        #[trigger] a2[y]).1 by {
            assert(a2[x] == a[x + 1] && a2[y] == a[y + 1]);
        }
        assert forall|x: int, y: int| 0 <= x < y < b2.len() implies (#[trigger] b2[x]).1 < (
        #[trigger] b2[y]).1 by {
            assert(b2[x] == b[x + 1] && b2[y] == b[y + 1]);
        }
        lemma_sorted_view_unique(a2, b2, v2);
        assert(a =~= seq![a[0]] + a2);
        assert(b =~= seq![b[0]] + b2);
    }
}

/// The C enumeration of a signal of message `m`.
pub open spec fn c_enum_text(m: CANMessage, sig: CANSignal) -> Seq<char> {
    cty_text(decoded_cty(m, sig)) + " {\n"@ + indented(
        trimmed(
            enum_lines(
                enum_prefix(m),
                uppercased(struct_signal_name(m, sig.name@)),
                enum_order(enum_pairs(sig.enumerated_values)),
            ),
        ),
        spaces(4),
    ) + "\n};"@
}

/// Texts of the names of pairs.
pub open spec fn pair_views(v: Seq<(String, u64)>) -> Seq<(Seq<char>, u64)> {
    v.map_values(|p: (String, u64)| (p.0@, p.1))
}

/// Sort enumerated values by raw value (the values are distinct).
fn sort_by_value(v: Vec<(String, u64)>) -> (r: Vec<(String, u64)>)
    requires
        forall|i: int, j: int| 0 <= i < j < v@.len() ==> (#[trigger] v@[i]).1 != (#[trigger] v@[j]).1,
    ensures
        forall|x: (String, u64)| r@.contains(x) == v@.contains(x),
        forall|i: int, j: int| 0 <= i < j < r@.len() ==> (#[trigger] r@[i]).1 < (#[trigger] r@[j]).1,
{
    let ghost orig = v@;
    let mut out: Vec<(String, u64)> = Vec::new();
    let mut rest = v;
    while rest.len() > 0
        invariant
            forall|x: (String, u64)| (out@.contains(x) || rest@.contains(x)) == orig.contains(x),
            forall|i: int, j: int| 0 <= i < j < out@.len() ==> (#[trigger] out@[i]).1 < (#[trigger] out@[j]).1,
            forall|i: int, j: int| 0 <= i < out@.len() && 0 <= j < rest@.len() ==> (#[trigger] out@[i]).1 != (#[trigger] rest@[j]).1,
            forall|i: int, j: int| 0 <= i < j < rest@.len() ==> (#[trigger] rest@[i]).1 != (#[trigger] rest@[j]).1,
        decreases rest@.len(),
    {
        let ghost rest0 = rest@;
        let ghost out0 = out@;
        let item = rest.remove(0);
        proof {
            assert(rest0[0] == item);
            assert(rest@ =~= rest0.skip(1));
        }
        let mut pos: usize = 0;
        while pos < out.len() && out[pos].1 < item.1
            invariant
                out@ == out0,
                0 <= pos <= out@.len(),
                forall|k: int| 0 <= k < pos ==> (#[trigger] out@[k]).1 < item.1,
            decreases out@.len() - pos,
        {
            pos = pos + 1;
        }
        proof {
            assert forall|k: int| pos <= k < out0.len() implies item.1 < (#[trigger] out0[k]).1 by {
                assert(out0[k].1 != rest0[0].1);
                if k > pos {
                    assert(out0[pos as int].1 < out0[k].1);
                }
            }
        }
        out.insert(pos, item);
        proof {
            assert(out@ =~= out0.subrange(0, pos as int).push(item) + out0.subrange(pos as int, out0.len() as int));
            assert forall|i: int, j: int| 0 <= i < j < out@.len() implies (#[trigger] out@[i]).1 < (#[trigger] out@[j]).1 by {
                if j < pos {
                    assert(out@[i] == out0[i] && out@[j] == out0[j]);
                } else if j == pos {
                    assert(out@[i] == out0[i]);
                } else if i < pos {
                    assert(out@[i] == out0[i] && out@[j] == out0[j - 1]);
                } else if i == pos {
                    assert(out@[j] == out0[j - 1]);
                } else {
                    assert(out@[i] == out0[i - 1] && out@[j] == out0[j - 1]);
                }
            }
            assert forall|x: (String, u64)| (out@.contains(x) || rest@.contains(x)) == orig.contains(x) by {
                if out@.contains(x) {
                    let k = choose|k: int| 0 <= k < out@.len() && out@[k] == x;
                    if k < pos {
                        assert(out0[k] == x);
                        assert(out0.contains(x));
                    } else if k == pos {
                        assert(rest0[0] == x);
                        assert(rest0.contains(x));
                    } else {
                        assert(out0[k - 1] == x);
                        assert(out0.contains(x));
                    }
                }
                if rest@.contains(x) {
                    let k = choose|k: int| 0 <= k < rest@.len() && rest@[k] == x;
                    assert(rest0[k + 1] == x);
                    assert(rest0.contains(x));
                }
                if out0.contains(x) {
                    let k = choose|k: int| 0 <= k < out0.len() && out0[k] == x;
                    if k < pos {
                        assert(out@[k] == x);
                    } else {
                        assert(out@[k + 1] == x);
                    }
                }
                if rest0.contains(x) {
                    let k = choose|k: int| 0 <= k < rest0.len() && rest0[k] == x;
                    if k == 0 {
                        assert(out@[pos as int] == x);
                    } else {
                        assert(rest@[k - 1] == x);
                    }
                }
            }
            assert forall|i: int, j: int| 0 <= i < out@.len() && 0 <= j < rest@.len() implies (#[trigger] out@[i]).1 != (#[trigger] rest@[j]).1 by {
                assert(rest@[j] == rest0[j + 1]);
                if i < pos {
                    assert(out@[i] == out0[i]);
                } else if i == pos {
                    assert(out@[i] == rest0[0]);
                } else {
                    assert(out@[i] == out0[i - 1]);
                }
            }
            assert forall|i: int, j: int| 0 <= i < j < rest@.len() implies (#[trigger] rest@[i]).1 != (#[trigger] rest@[j]).1 by {
                assert(rest@[i] == rest0[i + 1] && rest@[j] == rest0[j + 1]);
            }
        }
    }
    proof {
        assert forall|x: (String, u64)| out@.contains(x) == orig.contains(x) by {
            if rest@.contains(x) {
                let k = choose|k: int| 0 <= k < rest@.len() && rest@[k] == x;
            }
        }
    }
    out
}

/// The enumerated values of signal `sig`, by raw value from the lowest up.
pub fn ordered_values(sig: &CANSignal) -> (r: Vec<(String, u64)>)
    ensures
        pair_views(r@) == enum_order(enum_pairs(sig.enumerated_values)),
{
    let pairs = table_pairs(&sig.enumerated_values);
    let evs = sort_by_value(pairs);
        proof {
            let pv = pair_views(evs@);
            let m = enum_pairs(sig.enumerated_values);
            assert forall|i: int| 0 <= i < pv.len() implies m.dom().contains(#[trigger] pv[i].0)
                && m[pv[i].0] == pv[i].1 by {
                assert(evs@.contains(evs@[i]));
                assert(pairs@.contains(evs@[i]));
                let j = choose|j: int| 0 <= j < pairs@.len() && pairs@[j] == evs@[i];
                assert(m.dom().contains(pairs@[j].0@));
            }
            assert forall|k: Seq<char>| m.dom().contains(k) implies exists|i: int| 0 <= i < pv.len() && #[trigger] pv[i].0 == k by {
                let j = choose|j: int| 0 <= j < pairs@.len() && #[trigger] pairs@[j].0@ == k;
                assert(pairs@.contains(pairs@[j]));
                assert(evs@.contains(pairs@[j]));
                let i = choose|i: int| 0 <= i < evs@.len() && evs@[i] == pairs@[j];
                assert(pv[i].0 == k);
            }
            assert forall|i: int, j: int| 0 <= i < j < pv.len() implies (#[trigger] pv[i]).1 < (#[trigger] pv[j]).1 by {
                assert(evs@[i].1 < evs@[j].1);
            }
            assert(sorted_view(pv, m));
            lemma_sorted_view_unique(pv, enum_order(m), m);
        }
    evs
}

/// C code for the signals of a message.
pub trait SignalCodegen {
    /// The decoded C type of the signal can be found.
    spec fn decoded_ready(&self, sig: CANSignal) -> bool;

    /// The decoding expression of the signal can be written.
    spec fn decoding_ready(&self, sig: CANSignal) -> bool;

    /// The encoding expression of the signal can be written.
    spec fn encoding_ready(&self, sig: CANSignal) -> bool;

    /// C type for this signal's raw value.
    fn sig_ty_raw(&self, sig: &CANSignal) -> CSignalTy
        requires
            width_ok(sig.width),
    ;

    /// Get the C type for the decoded signal: an enumeration when the signal has
    /// enumerated values, its raw type when it has neither scale nor offset,
    /// `float` otherwise.
    fn sig_ty_decoded(&self, sig: &CANSignal) -> CSignalTy
        requires
            self.decoded_ready(*sig),
    ;

    /// C enumeration for this signal's enumerated values, if its decoded type is one.
    fn c_enum(&self, sig: &CANSignal) -> Option<String>
        requires
            self.decoded_ready(*sig),
    ;

    /// Name of the C getter function for this signal's decoded value.
    fn getter_fn_name(&self, sig: &CANSignal) -> String;

    /// Name of the C getter function for this signal's raw value.
    fn raw_getter_fn_name(&self, sig: &CANSignal) -> String;

    /// Conversion expression from raw signal to decoded signal.
    fn decoding_expression(&self, sig: &CANSignal, raw_rvalue: &str) -> String
        requires
            self.decoding_ready(*sig),
    ;

    /// Conversion expression from decoded signal to raw signal.
    fn encoding_expression(&self, sig: &CANSignal, dec_rvalue: &str) -> String
        requires
            self.encoding_ready(*sig),
    ;

}

impl SignalCodegen for CANMessage {
    open spec fn decoded_ready(&self, sig: CANSignal) -> bool {
        decoded_ty_ok(*self, sig)
    }

    open spec fn decoding_ready(&self, sig: CANSignal) -> bool {
        decoding_ok(*self, sig)
    }

    open spec fn encoding_ready(&self, sig: CANSignal) -> bool {
        encoding_ok(*self, sig)
    }

    /// C type for this signal's raw value.
    fn sig_ty_raw(&self, sig: &CANSignal) -> (r: CSignalTy)
        ensures
            r@ == raw_cty(sig.width),
    {
        let w = sig.width;
        if w == 1 {
            CSignalTy::Bool
        } else if w <= 8 {
            CSignalTy::U8
        } else if w <= 16 {
            CSignalTy::U16
        } else if w <= 32 {
            CSignalTy::U32
        } else {
            CSignalTy::U64
        }
    }

    /// Get the C type for the decoded signal: an enumeration when the signal has
    /// enumerated values, its raw type when it has neither scale nor offset,
    /// `float` otherwise.
    fn sig_ty_decoded(&self, sig: &CANSignal) -> (r: CSignalTy)
        ensures
            r@ == decoded_cty(*self, *sig),
    {
        if !table_is_empty(&sig.enumerated_values) {
            proof {
                let d = enum_pairs(sig.enumerated_values).dom();
                assert(!(d =~= Set::<Seq<char>>::empty()));
                let k = choose|k: Seq<char>| d.contains(k) != Set::<Seq<char>>::empty().contains(k);
                assert(d.contains(k));
            }
            let name = match &self.kind {
                CANMessageKind::FromTemplate(t) => {
                    let n = self.normalize_struct_signal_name(sig.name.as_str());
                    cat(cat(cat("enum CAN_T_", t.as_str()).as_str(), "_").as_str(), n.as_str())
                },
                CANMessageKind::Template => cat(
                    cat(cat("enum CAN_T_", self.name.as_str()).as_str(), "_").as_str(),
                    sig.name.as_str(),
                ),
                _ => cat("enum CAN_", sig.name.as_str()),
            };
            CSignalTy::Enum(name)
        } else {
            proof {
                assert(!has_enum_values(*sig)) by {
                    if has_enum_values(*sig) {
                        let k = choose|k: Seq<char>| enum_pairs(sig.enumerated_values).dom().contains(k);
                        assert(!Set::<Seq<char>>::empty().contains(k));
                    }
                }
            }
            if sig.scale.is_none() && sig.offset.is_none() {
                self.sig_ty_raw(sig)
            } else {
                CSignalTy::Float
            }
        }
    }

    /// C enumeration for this signal's enumerated values, if its decoded type is one.
    fn c_enum(&self, sig: &CANSignal) -> (r: Option<String>)
        ensures
            match decoded_cty(*self, *sig) {
                CTyView::Enum(_) => r matches Some(t) && t@ == c_enum_text(*self, *sig),
                _ => r is None,
            },
    {
        let ty = self.sig_ty_decoded(sig);
        let ty_text = match &ty {
            CSignalTy::Enum(t) => t.clone(),
            _ => {
                return None;
            },
        };
        let evs = ordered_values(sig);
        let prefix = match &self.kind {
            CANMessageKind::FromTemplate(t) => cat("CAN_T_", to_uppercase(t.as_str()).as_str()),
            CANMessageKind::Template => cat("CAN_T_", to_uppercase(self.name.as_str()).as_str()),
            _ => String::from_str("CAN"),
        };
        let upper_sig = to_uppercase(self.normalize_struct_signal_name(sig.name.as_str()).as_str());
        let mut inner = String::new();
        let mut i: usize = 0;
        while i < evs.len()
            invariant
                0 <= i <= evs@.len(),
                inner@ == enum_lines(prefix@, upper_sig@, pair_views(evs@).take(i as int)),
            decreases evs@.len() - i,
        {
            let ghost before = inner@;
            inner.append(prefix.as_str());
            push_char(&mut inner, '_');
            inner.append(upper_sig.as_str());
            push_char(&mut inner, '_');
            inner.append(evs[i].0.as_str());
            inner.append(" = ");
            push_dec(&mut inner, evs[i].1);
            inner.append(",\n");
            proof {
                reveal_strlit("_");
                assert(pair_views(evs@).take(i + 1).drop_last() =~= pair_views(evs@).take(i as int));
                assert(pair_views(evs@)[i as int] == (evs@[i as int].0@, evs@[i as int].1));
                assert(inner@ =~= before + enum_line(prefix@, upper_sig@, evs@[i as int].0@, evs@[i as int].1));
            }
            i = i + 1;
        }
        proof {
            assert(pair_views(evs@).take(pair_views(evs@).len() as int) =~= pair_views(evs@));
        }
        let body = indent(trim(inner.as_str()).as_str(), 4);
        let mut out = ty_text;
        out.append(" {\n");
        out.append(body.as_str());
        out.append("\n};");
        proof {
            assert(prefix@ == enum_prefix(*self));
            assert(ty_text@ == cty_text(decoded_cty(*self, *sig)));
            assert(out@ =~= c_enum_text(*self, *sig));
        }
        Some(out)
    }

    /// Name of the C getter function for this signal's decoded value.
    fn getter_fn_name(&self, sig: &CANSignal) -> (r: String)
        ensures
            r@ == "CANRX_get_"@ + sig.name@,
    {
        cat("CANRX_get_", sig.name.as_str())
    }

    /// Name of the C getter function for this signal's raw value.
    fn raw_getter_fn_name(&self, sig: &CANSignal) -> (r: String)
        ensures
            r@ == "CANRX_getRaw_"@ + sig.name@,
    {
        cat("CANRX_getRaw_", sig.name.as_str())
    }

    /// Conversion expression from raw signal to decoded signal.
    fn decoding_expression(&self, sig: &CANSignal, raw_rvalue: &str) -> (r: String)
        ensures
            r@ == decoding_text(*self, *sig, raw_rvalue@),
    {
        let ty = self.sig_ty_decoded(sig);
        match ty {
            CSignalTy::Float => {
                let mut s = String::from_str("((float)(");
                s.append(raw_rvalue);
                s.append(")");
                if let Some(sc) = &sig.scale {
                    s.append(" * ");
                    s.append(sc.as_str());
                    s.append("f");
                }
                s.append(")");
                if let Some(o) = &sig.offset {
                    s.append(" + ");
                    s.append(o.as_str());
                    s.append("f");
                }
                s
            },
            _ => String::from_str(raw_rvalue),
        }
    }

    /// Conversion expression from decoded signal to raw signal.
    fn encoding_expression(&self, sig: &CANSignal, dec_rvalue: &str) -> (r: String)
        ensures
            r@ == encoding_text(*self, *sig, dec_rvalue@),
    {
        let ty = self.sig_ty_decoded(sig);
        match ty {
            CSignalTy::Float => {
                let mut s = String::from_str("(");
                s.append(self.sig_ty_raw(sig).to_text().as_str());
                s.append(")(((");
                s.append(dec_rvalue);
                s.append(")");
                if let Some(o) = &sig.offset {
                    s.append(" - ");
                    s.append(o.as_str());
                    s.append("f");
                }
                s.append(")");
                if let Some(sc) = &sig.scale {
                    s.append(" / ");
                    s.append(sc.as_str());
                    s.append("f");
                }
                s.append(")");
                s
            },
            _ => String::from_str(dec_rvalue),
        }
    }

}


} // verus!
