//! Decoding received frames for display: the raw value of each signal read out of
//! the data bytes, and the text shown for each signal and for the whole message.

use vstd::prelude::*;
use vstd::string::StrSliceExecFns;
use vstd::utf8::encode_utf8;
use bitvec::field::BitField;
use bitvec::order::Lsb0;
use bitvec::view::BitView;
use crate::ctext::{dec_text, push_dec, push_signed_dec, signed_dec_text, space_text, spaces};
use crate::enum_table::{enum_pairs, has_value, injective, lemma_name_of_value, name_of_value, table_get_by_right};
use crate::message::{CANMessage, CANSignalWithPosition};
use crate::signal::{pow2, CANSignal};
use crate::text::push_char;

verus! {

/// Bit `i` of the data: bit `i % 8` of byte `i / 8`, bit 0 the least significant.
pub open spec fn data_bit(data: Seq<u8>, i: int) -> nat {
    (data[i / 8] as nat / pow2((i % 8) as nat)) % 2
}

/// Unsigned value of the `len` data bits from bit `start` on, the first bit the
/// least significant.
pub open spec fn bits_value(data: Seq<u8>, start: int, len: nat) -> nat
    decreases len,
{
    if len == 0 {
        0
    } else {
        bits_value(data, start, (len - 1) as nat) + data_bit(data, start + len - 1) * pow2(
            (len - 1) as nat,
        )
    }
}

/// Two's complement value of the `len` data bits from bit `start` on: the unsigned
/// value, less `2^len` when the last bit is set.
pub open spec fn signed_bits_value(data: Seq<u8>, start: int, len: nat) -> int {
    if len > 0 && data_bit(data, start + len - 1) == 1 {
        bits_value(data, start, len) - pow2(len)
    } else {
        bits_value(data, start, len) as int
    }
}

/// `bitvec`'s `BitField::load_le::<u64>` on the bits `start..=end` of the data seen
/// as a `BitSlice<u8, Lsb0>`: the bits taken least significant first, zero-extended.
/// The slice must lie within the data and hold 1 to 64 bits (bitvec panics otherwise).
#[verifier::external_body]
fn load_unsigned(data: &[u8], start: usize, end: usize) -> (r: u64)
    requires
        start <= end,
        end < data@.len() * 8,
        end - start < 64,
    ensures
        r == bits_value(data@, start as int, (end - start + 1) as nat),
{
    data.view_bits::<Lsb0>()[start..=end].load_le::<u64>()
}

/// `bitvec`'s `BitField::load_le::<i64>` on the bits `start..=end` of the data seen
/// as a `BitSlice<u8, Lsb0>`: the bits taken least significant first, sign-extended
/// from the last bit. The slice must lie within the data and hold 1 to 64 bits.
#[verifier::external_body]
fn load_signed(data: &[u8], start: usize, end: usize) -> (r: i64)
    requires
        start <= end,
        end < data@.len() * 8,
        end - start < 64,
    ensures
        r == signed_bits_value(data@, start as int, (end - start + 1) as nat),
{
    data.view_bits::<Lsb0>()[start..=end].load_le::<i64>()
}

/// The raw value of a received signal: unsigned, or two's complement when the
/// signal is transmitted so.
pub enum RawSignalValue {
    Unsigned(u64),
    Signed(i64),
}

impl RawSignalValue {
    /// The value as the 64-bit pattern of its two's complement.
    pub open spec fn spec_to_u64(self) -> u64 {
        match self {
            RawSignalValue::Unsigned(v) => v,
            RawSignalValue::Signed(v) => v as u64,
        }
    }

    /// Decimal text of the value.
    pub open spec fn spec_text(self) -> Seq<char> {
        match self {
            RawSignalValue::Unsigned(v) => dec_text(v as nat),
            RawSignalValue::Signed(v) => signed_dec_text(v as int),
        }
    }

    /// The value as the 64-bit pattern of its two's complement.
    pub fn to_u64(&self) -> (r: u64)
        ensures
            r == self.spec_to_u64(),
    {
        match self {
            RawSignalValue::Unsigned(v) => *v,
            RawSignalValue::Signed(v) => *v as u64,
        }
    }

    /// Decimal text of the value.
    pub fn to_string(&self) -> (r: String)
        ensures
            r@ == self.spec_text(),
    {
        let mut s = String::new();
        match self {
            RawSignalValue::Unsigned(v) => push_dec(&mut s, *v),
            RawSignalValue::Signed(v) => push_signed_dec(&mut s, *v),
        }
        s
    }
}

/// The signal can be read out of `len` data bytes: it holds 1 to 64 bits that lie
/// within them.
pub open spec fn readable(sigbit: CANSignalWithPosition, len: int) -> bool {
    &&& 1 <= sigbit.sig.width <= 64
    &&& sigbit.spec_start() + sigbit.sig.width <= len * 8
    &&& sigbit.spec_start() + sigbit.sig.width <= u32::MAX
}

/// The raw value of a signal in the data.
pub open spec fn spec_raw_value(sigbit: CANSignalWithPosition, data: Seq<u8>) -> RawSignalValue {
    if sigbit.sig.twos_complement {
        RawSignalValue::Signed(
            signed_bits_value(data, sigbit.spec_start() as int, sigbit.sig.width as nat) as i64,
        )
    } else {
        RawSignalValue::Unsigned(
            bits_value(data, sigbit.spec_start() as int, sigbit.sig.width as nat) as u64,
        )
    }
}

/// The raw value of a signal in received data: its bits from its start bit to its
/// end bit, least significant first, read as two's complement when the signal is
/// transmitted so.
pub fn raw_value(sigbit: &CANSignalWithPosition, data: &[u8]) -> (r: RawSignalValue)
    requires
        readable(*sigbit, data@.len() as int),
    ensures
        r == spec_raw_value(*sigbit, data@),
{
    let start = sigbit.start() as usize;
    let end = sigbit.end() as usize;
    if sigbit.sig.twos_complement {
        RawSignalValue::Signed(load_signed(data, start, end))
    } else {
        RawSignalValue::Unsigned(load_unsigned(data, start, end))
    }
}

/// The text of a raw value when it needs no arithmetic: the name of its enumerated
/// value; else, for a signal without scale and offset, its decimal text; else nothing.
pub open spec fn exact_text_ok(signal: CANSignal, raw: RawSignalValue, r: Option<Seq<char>>) -> bool {
    if has_value(enum_pairs(signal.enumerated_values), raw.spec_to_u64()) {
        r matches Some(n) && enum_pairs(signal.enumerated_values).dom().contains(n) && enum_pairs(
            signal.enumerated_values,
        )[n] == raw.spec_to_u64() && (injective(enum_pairs(signal.enumerated_values)) ==> n
            == name_of_value(enum_pairs(signal.enumerated_values), raw.spec_to_u64()))
    } else if signal.scale is Some || signal.offset is Some {
        r is None
    } else {
        r == Some(raw.spec_text())
    }
}

/// Text of a signal's raw value: the name of its enumerated value if it has one;
/// else, for a signal without scale and offset, the decimal value. A signal with a
/// scale or an offset gets `None`: its value is computed in floating point.
pub fn decode_signal_exact(signal: &CANSignal, raw: &RawSignalValue) -> (r: Option<String>)
    ensures
        exact_text_ok(
            *signal,
            *raw,
            match r {
                Some(s) => Some(s@),
                None => None,
            },
        ),
{
    match table_get_by_right(&signal.enumerated_values, raw.to_u64()) {
        Some(n) => {
            proof {
                if injective(enum_pairs(signal.enumerated_values)) {
                    lemma_name_of_value(enum_pairs(signal.enumerated_values), raw.spec_to_u64(), n@);
                }
            }
            Some(n)
        },
        None => {
            if signal.scale.is_some() || signal.offset.is_some() {
                None
            } else {
                Some(raw.to_string())
            }
        },
    }
}

/// Name of the enumerated value of a signal in received data, or
/// `"(internal error)"` when its raw value is not named.
pub fn decode_signal_enumerated(sigbit: &CANSignalWithPosition, data: &[u8]) -> (r: String)
    requires
        readable(*sigbit, data@.len() as int),
    ensures
        has_value(enum_pairs(sigbit.sig.enumerated_values), spec_raw_value(*sigbit, data@).spec_to_u64())
            ==> enum_pairs(sigbit.sig.enumerated_values).dom().contains(r@) && enum_pairs(
            sigbit.sig.enumerated_values,
        )[r@] == spec_raw_value(*sigbit, data@).spec_to_u64(),
        has_value(enum_pairs(sigbit.sig.enumerated_values), spec_raw_value(*sigbit, data@).spec_to_u64())
            && injective(enum_pairs(sigbit.sig.enumerated_values)) ==> r@ == name_of_value(
            enum_pairs(sigbit.sig.enumerated_values),
            spec_raw_value(*sigbit, data@).spec_to_u64(),
        ),
        !has_value(enum_pairs(sigbit.sig.enumerated_values), spec_raw_value(*sigbit, data@).spec_to_u64())
            ==> r@ == "(internal error)"@,
{
    let raw = raw_value(sigbit, data);
    match table_get_by_right(&sigbit.sig.enumerated_values, raw.to_u64()) {
        Some(n) => {
            proof {
                if injective(enum_pairs(sigbit.sig.enumerated_values)) {
                    lemma_name_of_value(enum_pairs(sigbit.sig.enumerated_values), raw.spec_to_u64(), n@);
                }
            }
            n
        },
        None => String::from_str("(internal error)"),
    }
}

/// The longest byte length of the names of the signals.
pub open spec fn longest_name(sigs: Seq<CANSignalWithPosition>) -> nat
    decreases sigs.len(),
{
    if sigs.len() == 0 {
        0
    } else {
        let l = encode_utf8(sigs.last().sig.name@).len();
        let m = longest_name(sigs.drop_last());
        if l > m {
            l
        } else {
            m
        }
    }
}

/// `s` followed by spaces up to `width` characters.
pub open spec fn padded(s: Seq<char>, width: nat) -> Seq<char> {
    if s.len() < width {
        s + spaces((width - s.len()) as nat)
    } else {
        s
    }
}

/// Lines of signal names and values, each name followed by a colon and padded to
/// `width` characters.
pub open spec fn value_lines(sigs: Seq<CANSignalWithPosition>, values: Seq<Seq<char>>, width: nat) -> Seq<
    char,
>
    decreases sigs.len(),
{
    if sigs.len() == 0 {
        Seq::empty()
    } else {
        value_lines(sigs.drop_last(), values, width) + padded(
            sigs.last().sig.name@ + ":"@,
            width,
        ) + values[sigs.len() - 1] + "\n"@
    }
}

/// Text of a received message: an empty line, then one line per signal, the name
/// and a colon padded to four columns past the longest name, then the value.
pub open spec fn decoded_text(sigs: Seq<CANSignalWithPosition>, values: Seq<Seq<char>>) -> Seq<char> {
    "\n"@ + value_lines(sigs, values, longest_name(sigs) + 4)
}

/// Text of a received message, given the text of each signal's value in the order
/// of the signals: an empty line, then one line per signal, its name and a colon
/// padded to four columns past the longest signal name, then its value.
pub fn decoded_message_text(msg: &CANMessage, values: &Vec<String>) -> (r: String)
    requires
        values@.len() == msg.signals@.len(),
        longest_name(msg.signals@) + 4 <= usize::MAX,
    ensures
        r@ == decoded_text(
            msg.signals@,
            values@.map_values(|v: String| v@),
        ),
{
    let ghost vals = values@.map_values(|v: String| v@);
    let mut longest: usize = 0;
    let mut i: usize = 0;
    while i < msg.signals.len()
        invariant
            0 <= i <= msg.signals@.len(),
            longest == longest_name(msg.signals@.take(i as int)),
            longest_name(msg.signals@) + 4 <= usize::MAX,
        decreases msg.signals@.len() - i,
    {
        proof {
            assert(msg.signals@.take(i + 1).drop_last() =~= msg.signals@.take(i as int));
            lemma_longest_prefix(msg.signals@, i + 1);
        }
        let len = msg.signals[i].sig.name.as_str().len();
        if len > longest {
            longest = len;
        }
        i = i + 1;
    }
    proof {
        assert(msg.signals@.take(msg.signals@.len() as int) =~= msg.signals@);
    }
    let width = longest + 4;
    let mut s = String::from_str("\n");
    let mut i: usize = 0;
    while i < msg.signals.len()
        invariant
            0 <= i <= msg.signals@.len(),
            values@.len() == msg.signals@.len(),
            vals == values@.map_values(|v: String| v@),
            width == longest_name(msg.signals@) + 4,
            s@ == "\n"@ + value_lines(msg.signals@.take(i as int), vals, width as nat),
        decreases msg.signals@.len() - i,
    {
        proof {
            assert(msg.signals@.take(i + 1).drop_last() =~= msg.signals@.take(i as int));
            lemma_value_lines_prefix(msg.signals@.take(i + 1), vals, width as nat);
        }
        let mut name = msg.signals[i].sig.name.clone();
        push_char(&mut name, ':');
        proof {
            reveal_strlit(":");
            assert(name@ =~= msg.signals@[i as int].sig.name@ + ":"@);
        }
        let n = name.as_str().unicode_len();
        s.append(name.as_str());
        if n < width {
            s.append(space_text(width - n).as_str());
        }
        s.append(values[i].as_str());
        s.append("\n");
        proof {
            assert(vals[i as int] == values@[i as int]@);
        }
        i = i + 1;
    }
    proof {
        assert(msg.signals@.take(msg.signals@.len() as int) =~= msg.signals@);
    }
    s
}

/// The longest name of a prefix is at most the longest name of the whole.
proof fn lemma_longest_prefix(sigs: Seq<CANSignalWithPosition>, k: int)
    requires
        0 <= k <= sigs.len(),
    ensures
        longest_name(sigs.take(k)) <= longest_name(sigs),
    decreases sigs.len(),
{
    if k < sigs.len() {
        assert(sigs.drop_last().take(k) =~= sigs.take(k));
        lemma_longest_prefix(sigs.drop_last(), k);
    } else {
        assert(sigs.take(k) =~= sigs);
    }
}

/// The lines of a prefix of the signals, one signal longer, add that signal's line.
proof fn lemma_value_lines_prefix(sigs: Seq<CANSignalWithPosition>, values: Seq<Seq<char>>, width: nat)
    requires
        sigs.len() > 0,
    ensures
        value_lines(sigs, values, width) == value_lines(sigs.drop_last(), values, width) + padded(
            sigs.last().sig.name@ + ":"@,
            width,
        ) + values[sigs.len() - 1] + "\n"@,
{
}

} // verus!
