//! C code for messages: structs, getters, enumerations, and the functions that
//! unpack and decode a received frame or encode and pack one to send.

use vstd::prelude::*;
use crate::csignal::{
    c_enum_text, cty_text, decoded_cty, decoding_text, encoding_text, raw_cty,
    signal_codegen_ok, struct_signal_name, is_prefix, name_normalizable, CTyView,
};
use crate::ctext::{
    cat, dec_text, hex2_text, indent, indented, push_dec, push_hex2, spaces, strip_prefix, trim,
    trimmed,
};
use crate::message::{CANMessage, CANMessageKind, CANSignalWithPosition, MAX_MESSAGE_BIT};
use crate::signal::{pow2, CANSignal};
use crate::csignal::{CSignalTy, SignalCodegen};
use crate::text::push_char;

verus! {

/// The bits of a signal that one byte of the frame holds: the byte's index, the
/// position of the lowest of these bits within the byte, how many bits there are,
/// and the position of the lowest of them within the signal.
pub struct BitChunk {
    pub byte: u32,
    pub shift: u32,
    pub len: u32,
    pub sig_pos: u32,
}

/// The pieces, byte by byte, of the bits `pos..=end` of a signal that starts at bit `start`.
pub open spec fn chunks_from(pos: int, start: int, end: int) -> Seq<BitChunk>
    decreases end + 1 - pos,
{
    if pos > end {
        Seq::empty()
    } else {
        let byte = pos / 8;
        let end_pos = if byte * 8 + 7 < end {
            byte * 8 + 7
        } else {
            end
        };
        seq![
            BitChunk {
                byte: byte as u32,
                shift: (pos % 8) as u32,
                len: (end_pos - pos + 1) as u32,
                sig_pos: (pos - start) as u32,
            },
        ] + chunks_from(end_pos + 1, start, end)
    }
}

/// The pieces, byte by byte, of a positioned signal.
pub open spec fn signal_chunks(s: CANSignalWithPosition) -> Seq<BitChunk> {
    chunks_from(s.bit as int, s.bit as int, s.spec_end())
}

/// The mask of the `len` lowest bits of a byte.
pub open spec fn chunk_mask(len: u32) -> u8 {
    if len >= 8 {
        0xFF
    } else {
        (pow2(len as nat) - 1) as u8
    }
}

/// The pieces of a signal cover its bits exactly, in order, each within one byte:
/// the first starts at the signal's start bit, each next one where the previous
/// one ends, and together they hold the signal's bits and no other.
pub proof fn law_chunks_partition_signal(start: int, end: int)
    requires
        0 <= start <= end < 255,
    ensures
        chunks_from(start, start, end).len() >= 1,
        chunks_from(start, start, end)[0].sig_pos == 0,
        forall|k: int|
            0 <= k < chunks_from(start, start, end).len() ==> {
                let c = #[trigger] chunks_from(start, start, end)[k];
                &&& 1 <= c.len <= 8
                &&& c.shift + c.len <= 8
                &&& c.byte * 8 + c.shift == start + c.sig_pos
            },
        forall|k: int|
            0 <= k < chunks_from(start, start, end).len() - 1 ==> (#[trigger] chunks_from(
                start,
                start,
                end,
            )[k + 1]).sig_pos == chunks_from(start, start, end)[k].sig_pos + chunks_from(
                start,
                start,
                end,
            )[k].len,
        chunks_from(start, start, end).last().sig_pos + chunks_from(start, start, end).last().len
            == end - start + 1,
{
    lemma_chunks_from(start, start, end);
}

/// Each line that unpacks a piece of a received signal takes the piece's bits out
/// of their byte and puts them back where they lie within the signal: shifted left
/// by the piece's first bit in the frame (`byte * 8 + shift`) less the signal's
/// start bit. So the raw value gets frame bit `start + i` as its bit `i`.
pub proof fn law_unpack_lines_keep_bit_positions(
    s: CANSignalWithPosition,
    name: Seq<char>,
    rawty: Seq<char>,
    k: int,
)
    requires
        1 <= s.sig.width,
        s.bit + s.sig.width - 1 < 255,
        0 <= k < signal_chunks(s).len(),
    ensures
        ({
            let c = signal_chunks(s)[k];
            &&& c.byte * 8 + c.shift >= s.bit
            &&& unpack_line(name, rawty, c) == "raw."@ + name + " |= ("@ + rawty + ")((data["@
                + dec_text(c.byte as nat) + "] & (0x"@ + hex2_text(chunk_mask(c.len)) + " << "@
                + dec_text(c.shift as nat) + ")) >> "@ + dec_text(c.shift as nat) + ") << "@
                + dec_text((c.byte * 8 + c.shift - s.bit) as nat) + ";\n"@
        }),
{
    law_chunks_partition_signal(s.bit as int, s.spec_end());
    let c = signal_chunks(s)[k];
    assert(c.byte * 8 + c.shift == s.bit + c.sig_pos);
}

/// Each line that packs a piece of a signal to send takes the piece's bits out of
/// the raw value at their position within the signal (the piece's first bit in the
/// frame less the signal's start bit) and puts them at their bit in the byte. So
/// bit `i` of the raw value goes to frame bit `start + i`.
pub proof fn law_pack_lines_keep_bit_positions(s: CANSignalWithPosition, name: Seq<char>, k: int)
    requires
        1 <= s.sig.width,
        s.bit + s.sig.width - 1 < 255,
        0 <= k < signal_chunks(s).len(),
    ensures
        ({
            let c = signal_chunks(s)[k];
            let pos = (c.byte * 8 + c.shift - s.bit) as nat;
            &&& c.byte * 8 + c.shift >= s.bit
            &&& pack_line(name, c) == "data_out["@ + dec_text(c.byte as nat) + "] |= ((raw."@ + name
                + " & (0x"@ + hex2_text(chunk_mask(c.len)) + " << "@ + dec_text(pos) + ")) >> "@
                + dec_text(pos) + ") << "@ + dec_text(c.shift as nat) + ";\n"@
        }),
{
    law_chunks_partition_signal(s.bit as int, s.spec_end());
    let c = signal_chunks(s)[k];
    assert(c.byte * 8 + c.shift == s.bit + c.sig_pos);
}

proof fn lemma_chunks_from(pos: int, start: int, end: int)
    requires
        0 <= start <= pos <= end < 255,
    ensures
        chunks_from(pos, start, end).len() >= 1,
        chunks_from(pos, start, end)[0].sig_pos == pos - start,
        forall|k: int|
            0 <= k < chunks_from(pos, start, end).len() ==> {
                let c = #[trigger] chunks_from(pos, start, end)[k];
                &&& 1 <= c.len <= 8
                &&& c.shift + c.len <= 8
                &&& c.byte * 8 + c.shift == start + c.sig_pos
            },
        forall|k: int|
            0 <= k < chunks_from(pos, start, end).len() - 1 ==> (#[trigger] chunks_from(
                pos,
                start,
                end,
            )[k + 1]).sig_pos == chunks_from(pos, start, end)[k].sig_pos + chunks_from(
                pos,
                start,
                end,
            )[k].len,
        chunks_from(pos, start, end).last().sig_pos + chunks_from(pos, start, end).last().len
            == end - start + 1,
    decreases end + 1 - pos,
{
    let byte = pos / 8;
    let end_pos = if byte * 8 + 7 < end {
        byte * 8 + 7
    } else {
        end
    };
    let c = BitChunk {
        byte: byte as u32,
        shift: (pos % 8) as u32,
        len: (end_pos - pos + 1) as u32,
        sig_pos: (pos - start) as u32,
    };
    assert(byte * 8 + pos % 8 == pos && 0 <= pos % 8 < 8) by (nonlinear_arith)
        requires
            byte == pos / 8,
            pos >= 0,
    ;
    let rest = chunks_from(end_pos + 1, start, end);
    let all = chunks_from(pos, start, end);
    assert(all == seq![c] + rest);
    if end_pos + 1 <= end {
        lemma_chunks_from(end_pos + 1, start, end);
        assert forall|k: int| 0 <= k < all.len() - 1 implies (#[trigger] all[k + 1]).sig_pos
            == all[k].sig_pos + all[k].len by {
            if k == 0 {
                assert(all[1] == rest[0]);
                assert(all[0] == c);
                assert(c.sig_pos == pos - start);
                assert(c.len == end_pos - pos + 1);
                assert(rest[0].sig_pos == end_pos + 1 - start);
            }
            if k > 0 {
                let j = k - 1;
                assert(all[k] == rest[j]);
                assert(all[k + 1] == rest[j + 1]);
                assert(rest[j + 1].sig_pos == rest[j].sig_pos + rest[j].len);
            }
        }
        assert forall|k: int| 0 <= k < all.len() implies {
            let d = #[trigger] all[k];
            &&& 1 <= d.len <= 8
            &&& d.shift + d.len <= 8
            &&& d.byte * 8 + d.shift == start + d.sig_pos
        } by {
            if k > 0 {
                assert(all[k] == rest[k - 1]);
            }
        }
        assert(all.last() == rest.last());
    } else {
        assert(rest.len() == 0);
        assert(all.len() == 1);
    }
}

fn mask_of(len: u32) -> (m: u8)
    requires
        1 <= len <= 8,
    ensures
        m == chunk_mask(len),
{
    proof {
        reveal_with_fuel(pow2, 9);
    }
    match len {
        1 => 0x01,
        2 => 0x03,
        3 => 0x07,
        4 => 0x0F,
        5 => 0x1F,
        6 => 0x3F,
        7 => 0x7F,
        _ => 0xFF,
    }
}

/// The pieces, byte by byte, of the bits `start..=end` of a signal.
pub fn bit_chunks(start: u32, end: u32) -> (r: Vec<BitChunk>)
    requires
        start <= end < 255,
    ensures
        r@ == chunks_from(start as int, start as int, end as int),
{
    let mut out: Vec<BitChunk> = Vec::new();
    let mut pos = start;
    while pos <= end
        invariant
            start <= pos <= end + 1,
            end < 255,
            out@ + chunks_from(pos as int, start as int, end as int) == chunks_from(
                start as int,
                start as int,
                end as int,
            ),
        decreases end + 1 - pos,
    {
        let byte = pos / 8;
        let end_of_this_byte = ((byte + 1) * 8) - 1;
        let end_pos = if end_of_this_byte < end {
            end_of_this_byte
        } else {
            end
        };
        let end_pos_within_byte = end_pos % 8;
        let num_bits = end_pos - pos + 1;
        let mask_shift = end_pos_within_byte + 1 - num_bits;
        let ghost before = out@;
        out.push(BitChunk { byte, shift: mask_shift, len: num_bits, sig_pos: pos - start });
        proof {
            assert(out@ + chunks_from(end_pos + 1, start as int, end as int) =~= before
                + chunks_from(pos as int, start as int, end as int));
        }
        pos = end_pos + 1;
    }
    proof {
        assert(out@ + Seq::<BitChunk>::empty() =~= out@);
    }
    out
}

/// Code generation for a message can proceed: its layout is valid and each of its
/// signals can have code made for it.
pub open spec fn message_codegen_ok(m: CANMessage) -> bool {
    &&& m.wf()
    &&& forall|i: int|
        0 <= i < m.signals@.len() ==> signal_codegen_ok(m, (#[trigger] m.signals@[i]).sig)
}

/// C type of the unpacked and decoded data struct of message `m`.
pub open spec fn struct_ty_text(m: CANMessage) -> Seq<char> {
    match m.kind {
        CANMessageKind::FromTemplate(t) => "struct CAN_TMessage_"@ + t@,
        CANMessageKind::Template => "struct CAN_TMessage_"@ + m.name@,
        _ => "struct CAN_Message_"@ + m.name@,
    }
}

/// C type of the unpacked raw data struct of message `m`.
pub open spec fn raw_struct_ty_text(m: CANMessage) -> Seq<char> {
    match m.kind {
        CANMessageKind::FromTemplate(t) => "struct CAN_TMessageRaw_"@ + t@,
        CANMessageKind::Template => "struct CAN_TMessageRaw_"@ + m.name@,
        _ => "struct CAN_MessageRaw_"@ + m.name@,
    }
}

/// Text of a decimal number.
pub open spec fn ds(n: u32) -> Seq<char> {
    dec_text(n as nat)
}

/// The documented member of a message struct for one signal.
pub open spec fn field_text(label: Seq<char>, s: CANSignalWithPosition, ty: Seq<char>) -> Seq<char> {
    "/**\n * -- "@ + label + ": "@ + s.sig.name@ + "\n *\n * ----> Description: "@ + (match s.sig.description {
        Some(d) => d@,
        None => "(None)"@,
    }) + "\n * ----> Start bit: "@ + ds(s.bit) + "\n * ----> Width: "@ + ds(s.sig.width) + "\n */\n"@
        + ty + " "@ + s.sig.name@ + ";\n"@
}

/// The members of the decoded (or, with `raw`, the raw) struct for the signals `sigs`.
pub open spec fn fields_text(m: CANMessage, sigs: Seq<CANSignalWithPosition>, raw: bool) -> Seq<char>
    decreases sigs.len(),
{
    if sigs.len() == 0 {
        Seq::empty()
    } else {
        fields_text(m, sigs.drop_last(), raw) + "\n"@ + if raw {
            field_text("Raw signal"@, sigs.last(), cty_text(raw_cty(sigs.last().sig.width)))
        } else {
            field_text("Signal"@, sigs.last(), cty_text(decoded_cty(m, sigs.last().sig)))
        }
    }
}

/// Definition of the decoded (or, with `raw`, the raw) struct of message `m`.
pub open spec fn struct_def_text(m: CANMessage, raw: bool) -> Seq<char> {
    let ty = if raw {
        raw_struct_ty_text(m)
    } else {
        struct_ty_text(m)
    };
    match m.kind {
        CANMessageKind::FromTemplate(t) => (if raw {
            "/*  Raw struct `"@
        } else {
            "/*  Decoded struct `"@
        }) + ty + "` provided by template `"@ + t@ + "`  */"@,
        _ => ty + " {\n"@ + indented(fields_text(m, m.signals@, raw), spaces(4)) + "\n};"@,
    }
}

/// One line that unpacks a piece of a signal from a byte of the frame.
pub open spec fn unpack_line(name: Seq<char>, rawty: Seq<char>, c: BitChunk) -> Seq<char> {
    "raw."@ + name + " |= ("@ + rawty + ")((data["@ + ds(c.byte) + "] & (0x"@ + hex2_text(
        chunk_mask(c.len),
    ) + " << "@ + ds(c.shift) + ")) >> "@ + ds(c.shift) + ") << "@ + ds(c.sig_pos) + ";\n"@
}

/// One line that packs a piece of a signal into a byte of the frame.
pub open spec fn pack_line(name: Seq<char>, c: BitChunk) -> Seq<char> {
    "data_out["@ + ds(c.byte) + "] |= ((raw."@ + name + " & (0x"@ + hex2_text(chunk_mask(c.len))
        + " << "@ + ds(c.sig_pos) + ")) >> "@ + ds(c.sig_pos) + ") << "@ + ds(c.shift) + ";\n"@
}

/// The lines that unpack (or, with `pack`, pack) the pieces `cs` of a signal.
pub open spec fn chunk_lines(name: Seq<char>, rawty: Seq<char>, cs: Seq<BitChunk>, pack: bool) -> Seq<
    char,
>
    decreases cs.len(),
{
    if cs.len() == 0 {
        Seq::empty()
    } else {
        chunk_lines(name, rawty, cs.drop_last(), pack) + if pack {
            pack_line(name, cs.last())
        } else {
            unpack_line(name, rawty, cs.last())
        }
    }
}

/// The code that unpacks (or, with `pack`, packs) one signal of message `m`.
pub open spec fn signal_bits_text(m: CANMessage, s: CANSignalWithPosition, pack: bool) -> Seq<char> {
    let nm = struct_signal_name(m, s.sig.name@);
    (if pack {
        "// Pack `"@ + nm
    } else {
        "// Unpack `"@ + s.sig.name@
    }) + "`, start bit "@ + ds(s.bit) + ", width "@ + ds(s.sig.width) + "\n"@ + chunk_lines(
        nm,
        cty_text(raw_cty(s.sig.width)),
        signal_chunks(s),
        pack,
    ) + "\n"@
}

/// The code that unpacks (or, with `pack`, packs) the signals `sigs` of message `m`.
pub open spec fn bits_text(m: CANMessage, sigs: Seq<CANSignalWithPosition>, pack: bool) -> Seq<char>
    decreases sigs.len(),
{
    if sigs.len() == 0 {
        Seq::empty()
    } else {
        bits_text(m, sigs.drop_last(), pack) + signal_bits_text(m, sigs.last(), pack)
    }
}

/// The code that decodes (or, with `encode`, encodes) one signal of message `m`.
pub open spec fn convert_text(m: CANMessage, s: CANSignalWithPosition, encode: bool) -> Seq<char> {
    let nm = struct_signal_name(m, s.sig.name@);
    if encode {
        "// Encode `"@ + nm + "`\nraw."@ + nm + " = "@ + encoding_text(m, s.sig, "dec."@ + nm)
            + ";\n\n"@
    } else {
        "// Decode `"@ + nm + "`\ndec."@ + nm + " = "@ + decoding_text(m, s.sig, "raw."@ + nm)
            + ";\n\n"@
    }
}

/// The code that decodes (or, with `encode`, encodes) the signals `sigs` of message `m`.
pub open spec fn converts_text(m: CANMessage, sigs: Seq<CANSignalWithPosition>, encode: bool) -> Seq<
    char,
>
    decreases sigs.len(),
{
    if sigs.len() == 0 {
        Seq::empty()
    } else {
        converts_text(m, sigs.drop_last(), encode) + convert_text(m, sigs.last(), encode)
    }
}

/// The body of the RX handler function of message `m`.
pub open spec fn rx_body_text(m: CANMessage) -> Seq<char> {
    "/*  Check that data length is correct  */\nif (len != "@ + ds(m.length)
        + "U) {\n    return false;\n}"@ + "\n\n"@ + "/* ------- Unpack signals ------- */\n"@
        + raw_struct_ty_text(m) + " raw = {0};"@ + "\n\n"@ + trimmed(bits_text(m, m.signals@, false))
        + "\n\n\n"@ + "/* ------- Decode signals ------- */\n"@ + struct_ty_text(m) + " dec = {0};"@
        + "\n\n"@ + trimmed(converts_text(m, m.signals@, false)) + "\n\n"@
        + "/* Set global data. */\n"@ + "CANRX_MessageRaw_"@ + m.name@ + " = raw;\n"@
        + "CANRX_Message_"@ + m.name@ + " = dec;"@ + "\n\nreturn true;"@
}

/// Definition of the RX handler function of message `m`.
pub open spec fn rx_fn_def_text(m: CANMessage) -> Seq<char> {
    "/**\n * Unpacks and decodes message `"@ + m.name@
        + "` from raw data.\n *\n * @param data - Input raw data array\n * @param len  - Length of data (must be "@
        + ds(m.length)
        + " for this function),\n * @param out  - Pointer to output struct\n *\n * @return     - boolean indicating whether decoding was done (len was correct)\n */"@
        + "\nbool "@ + "CANRX_doRx_"@ + m.name@ + "(\n"@ + indented(
        "const uint8_t * const data,\nconst uint_fast8_t len"@,
        spaces(4),
    ) + ")\n{\n"@ + indented(rx_body_text(m), spaces(4)) + "\n}"@
}

/// Name of the TX user populate callback of message `m`.
pub open spec fn tx_populate_fn_name_text(m: CANMessage) -> Seq<char> {
    match m.kind {
        CANMessageKind::FromTemplate(_) => "CANTX_populateTemplate"@ + m.name@.skip(
            m.tx_node.unwrap()@.len() as int,
        ),
        _ => "CANTX_populate_"@ + m.name@,
    }
}

/// A TX populate function can be named for message `m`: it is no template, and one
/// made from a template has a transmitting node whose name starts its own name.
pub open spec fn populate_ok(m: CANMessage) -> bool {
    match m.kind {
        CANMessageKind::Template => false,
        CANMessageKind::FromTemplate(_) => m.tx_node is Some && is_prefix(m.tx_node.unwrap()@, m.name@),
        _ => true,
    }
}

/// Declaration of the TX user populate function of message `m`.
pub open spec fn tx_populate_fn_decl_text(m: CANMessage) -> Seq<char> {
    "void "@ + tx_populate_fn_name_text(m) + "("@ + struct_ty_text(m) + " * const m)"@
}

/// Definition of the TX handler function of message `m`.
pub open spec fn tx_fn_def_text(m: CANMessage) -> Seq<char> {
    "// todo: length condition check\nbool "@ + "CANTX_doTx_"@ + m.name@
        + "(uint8_t * const data_out, uint8_t * const len_out)\n{\n    /* Call user-provided populate function */\n    "@
        + struct_ty_text(m) + " dec;\n    "@ + tx_populate_fn_name_text(m)
        + "(&dec); // calls into user code!\n\n    /* ------- Encode signals ------- */\n    "@
        + raw_struct_ty_text(m) + " raw = {0};\n\n"@ + indented(
        trimmed(converts_text(m, m.signals@, true)),
        spaces(4),
    ) + "\n\n    /* ------- Pack signals ------- */\n\n"@ + indented(
        trimmed(bits_text(m, m.signals@, true)),
        spaces(4),
    ) + "\n\n    // Write data length\n    *len_out = "@ + ds(m.length)
        + ";\n\n    return true;\n}"@
}

/// Declarations of the getters of one signal.
pub open spec fn getter_decl_text(m: CANMessage, s: CANSignal) -> Seq<char> {
    cty_text(decoded_cty(m, s)) + " "@ + "CANRX_get_"@ + s.name@ + "(void);\n"@ + cty_text(
        raw_cty(s.width),
    ) + " "@ + "CANRX_getRaw_"@ + s.name@ + "(void);\n\n"@
}

/// Definitions of the getters of one signal.
pub open spec fn getter_def_text(m: CANMessage, s: CANSignal) -> Seq<char> {
    let nm = struct_signal_name(m, s.name@);
    cty_text(decoded_cty(m, s)) + " "@ + "CANRX_get_"@ + s.name@ + "(void) {\n    return "@
        + "CANRX_Message_"@ + m.name@ + "."@ + nm + ";\n}\n\n"@ + cty_text(raw_cty(s.width)) + " "@
        + "CANRX_getRaw_"@ + s.name@ + "(void) {\n    return "@ + "CANRX_MessageRaw_"@ + m.name@
        + "."@ + nm + ";\n}\n\n"@
}

/// Getter declarations (or, with `defs`, definitions) for the signals `sigs`.
pub open spec fn getters_text(m: CANMessage, sigs: Seq<CANSignalWithPosition>, defs: bool) -> Seq<
    char,
>
    decreases sigs.len(),
{
    if sigs.len() == 0 {
        Seq::empty()
    } else {
        getters_text(m, sigs.drop_last(), defs) + if defs {
            getter_def_text(m, sigs.last().sig)
        } else {
            getter_decl_text(m, sigs.last().sig)
        }
    }
}

/// The enumerations of the signals `sigs` of message `m` that have one, each
/// followed by a blank line.
pub open spec fn enums_text(m: CANMessage, sigs: Seq<CANSignalWithPosition>) -> Seq<char>
    decreases sigs.len(),
{
    if sigs.len() == 0 {
        Seq::empty()
    } else {
        enums_text(m, sigs.drop_last()) + match decoded_cty(m, sigs.last().sig) {
            CTyView::Enum(_) => c_enum_text(m, sigs.last().sig) + "\n\n"@,
            _ => Seq::empty(),
        }
    }
}

/// Some signal of `sigs` has an enumeration.
pub open spec fn some_enum(m: CANMessage, sigs: Seq<CANSignalWithPosition>) -> bool {
    exists|i: int| 0 <= i < sigs.len() && (decoded_cty(m, #[trigger] sigs[i].sig) is Enum)
}

/// Enumerations for all signals of message `m` that have them.
pub open spec fn signal_enums_text(m: CANMessage) -> Seq<char> {
    match m.kind {
        CANMessageKind::FromTemplate(t) => "/*  Signal enums provied by template `"@ + t@ + "`  */"@,
        _ => if some_enum(m, m.signals@) {
            trimmed(enums_text(m, m.signals@))
        } else {
            "// (none for this message)"@
        },
    }
}

/// Appends the decimal numeral of a `u32`.
fn push_num(s: &mut String, n: u32)
    ensures
        final(s)@ == old(s)@ + ds(n),
{
    push_dec(s, n as u64);
}

/// C code for a message: its structs, handlers, getters and enumerations.
pub trait MessageCodegen {
    /// Every signal of the message can be turned into C code.
    spec fn codegen_ready(&self) -> bool;

    /// The message has a user populate function that can be named.
    spec fn populate_ready(&self) -> bool;

    /// The signal name can be normalized for the C structs of this message.
    spec fn name_ready(&self, name: Seq<char>) -> bool;

    /// C type for this message's unpacked + decoded data struct.
    fn struct_ty(&self) -> String;

    /// Definition of this message's unpacked + decoded data struct.
    fn struct_def(&self) -> String
        requires
            self.codegen_ready(),
    ;

    /// Identifier for the global unpacked + decoded data struct.
    fn global_struct_ident(&self) -> String;

    /// C type for this message's unpacked raw data struct.
    fn raw_struct_ty(&self) -> String;

    /// Definition of this message's unpacked raw data struct.
    fn raw_struct_def(&self) -> String
        requires
            self.codegen_ready(),
    ;

    /// Identifier for the global unpacked raw data struct.
    fn global_raw_struct_ident(&self) -> String;

    /// Name of the RX handler function for this message.
    fn rx_fn_name(&self) -> String;

    /// Declaration of the RX handler function for this message.
    fn rx_fn_decl(&self) -> String;

    /// Definition of the RX handler function for this message: it checks the length
    /// of the frame, unpacks each signal piece by piece from the bytes that hold it,
    /// decodes each signal, and stores both in the message's global structs.
    fn rx_fn_def(&self) -> String
        requires
            self.codegen_ready(),
    ;

    /// Name of the TX handler function for this message.
    fn tx_fn_name(&self) -> String;

    /// Declaration of the TX handler function for this message.
    fn tx_fn_decl(&self) -> String;

    /// Definition of the TX handler function for this message: it calls the user's
    /// populate function, encodes each signal, packs each signal piece by piece into
    /// the bytes that hold it, and writes the length.
    fn tx_fn_def(&self) -> String
        requires
            self.codegen_ready(),
            self.populate_ready(),
    ;

    /// Name of the TX user populate callback for this message: for a message made
    /// from a template, its name without the transmitting node's name in front.
    fn tx_populate_fn_name(&self) -> String
        requires
            self.populate_ready(),
    ;

    /// Declaration of the TX user populate function for this message.
    fn tx_populate_fn_decl(&self) -> String
        requires
            self.populate_ready(),
    ;

    /// Declarations of the signal getter functions for this message.
    fn getter_fn_decls(&self) -> String
        requires
            self.codegen_ready(),
    ;

    /// Definitions of the signal getter functions for this message.
    fn getter_fn_defs(&self) -> String
        requires
            self.codegen_ready(),
    ;

    /// Enumerations for all signals that have them in this message.
    fn signal_enums(&self) -> String
        requires
            self.codegen_ready(),
    ;

    /// The name the C structs of this message give the signal named `name`: without
    /// the transmitting node's prefix for a message made from a template.
    fn normalize_struct_signal_name(&self, name: &str) -> String
        requires
            self.name_ready(name@),
    ;

    /// Stub (empty, weak) TX populate function.
    fn tx_stub(&self) -> String
        requires
            self.populate_ready(),
    ;

}

impl MessageCodegen for CANMessage {
    open spec fn codegen_ready(&self) -> bool {
        message_codegen_ok(*self)
    }

    open spec fn populate_ready(&self) -> bool {
        populate_ok(*self)
    }

    open spec fn name_ready(&self, name: Seq<char>) -> bool {
        name_normalizable(*self, name)
    }

    /// C type for this message's unpacked + decoded data struct.
    fn struct_ty(&self) -> (r: String)
        ensures
            r@ == struct_ty_text(*self),
    {
        match &self.kind {
            CANMessageKind::FromTemplate(t) => cat("struct CAN_TMessage_", t.as_str()),
            CANMessageKind::Template => cat("struct CAN_TMessage_", self.name.as_str()),
            _ => cat("struct CAN_Message_", self.name.as_str()),
        }
    }

    /// Definition of this message's unpacked + decoded data struct.
    fn struct_def(&self) -> (r: String)
        ensures
            r@ == struct_def_text(*self, false),
    {
        self.any_struct_def(false)
    }

    /// Identifier for the global unpacked + decoded data struct.
    fn global_struct_ident(&self) -> (r: String)
        ensures
            r@ == "CANRX_Message_"@ + self.name@,
    {
        cat("CANRX_Message_", self.name.as_str())
    }

    /// C type for this message's unpacked raw data struct.
    fn raw_struct_ty(&self) -> (r: String)
        ensures
            r@ == raw_struct_ty_text(*self),
    {
        match &self.kind {
            CANMessageKind::FromTemplate(t) => cat("struct CAN_TMessageRaw_", t.as_str()),
            CANMessageKind::Template => cat("struct CAN_TMessageRaw_", self.name.as_str()),
            _ => cat("struct CAN_MessageRaw_", self.name.as_str()),
        }
    }

    /// Definition of this message's unpacked raw data struct.
    fn raw_struct_def(&self) -> (r: String)
        ensures
            r@ == struct_def_text(*self, true),
    {
        self.any_struct_def(true)
    }

    /// Identifier for the global unpacked raw data struct.
    fn global_raw_struct_ident(&self) -> (r: String)
        ensures
            r@ == "CANRX_MessageRaw_"@ + self.name@,
    {
        cat("CANRX_MessageRaw_", self.name.as_str())
    }

    /// Name of the RX handler function for this message.
    fn rx_fn_name(&self) -> (r: String)
        ensures
            r@ == "CANRX_doRx_"@ + self.name@,
    {
        cat("CANRX_doRx_", self.name.as_str())
    }

    /// Declaration of the RX handler function for this message.
    fn rx_fn_decl(&self) -> (r: String)
        ensures
            r@ == "bool "@ + "CANRX_doRx_"@ + self.name@
                + "(\n    const uint8_t * data,\n    uint_fast8_t len\n);"@,
    {
        let mut s = String::from_str("bool ");
        s.append(self.rx_fn_name().as_str());
        s.append("(\n    const uint8_t * data,\n    uint_fast8_t len\n);");
        s
    }

    /// Definition of the RX handler function for this message: it checks the length
    /// of the frame, unpacks each signal piece by piece from the bytes that hold it,
    /// decodes each signal, and stores both in the message's global structs.
    fn rx_fn_def(&self) -> (r: String)
        ensures
            r@ == rx_fn_def_text(*self),
    {
        let mut body = String::from_str("/*  Check that data length is correct  */\nif (len != ");
        push_num(&mut body, self.length);
        body.append("U) {\n    return false;\n}");
        body.append("\n\n");
        body.append("/* ------- Unpack signals ------- */\n");
        body.append(self.raw_struct_ty().as_str());
        body.append(" raw = {0};");
        body.append("\n\n");
        body.append(trim(self.all_bits(false).as_str()).as_str());
        body.append("\n\n\n");
        body.append("/* ------- Decode signals ------- */\n");
        body.append(self.struct_ty().as_str());
        body.append(" dec = {0};");
        body.append("\n\n");
        body.append(trim(self.all_converts(false).as_str()).as_str());
        body.append("\n\n");
        body.append("/* Set global data. */\n");
        body.append(self.global_raw_struct_ident().as_str());
        body.append(" = raw;\n");
        body.append(self.global_struct_ident().as_str());
        body.append(" = dec;");
        body.append("\n\nreturn true;");
        proof {
            assert(body@ =~= rx_body_text(*self));
        }
        let mut s = String::from_str("/**\n * Unpacks and decodes message `");
        s.append(self.name.as_str());
        s.append("` from raw data.\n *\n * @param data - Input raw data array\n * @param len  - Length of data (must be ");
        push_num(&mut s, self.length);
        s.append(" for this function),\n * @param out  - Pointer to output struct\n *\n * @return     - boolean indicating whether decoding was done (len was correct)\n */");
        s.append("\nbool ");
        s.append(self.rx_fn_name().as_str());
        s.append("(\n");
        s.append(indent("const uint8_t * const data,\nconst uint_fast8_t len", 4).as_str());
        s.append(")\n{\n");
        s.append(indent(body.as_str(), 4).as_str());
        s.append("\n}");
        proof {
            assert(s@ =~= rx_fn_def_text(*self));
        }
        s
    }

    /// Name of the TX handler function for this message.
    fn tx_fn_name(&self) -> (r: String)
        ensures
            r@ == "CANTX_doTx_"@ + self.name@,
    {
        cat("CANTX_doTx_", self.name.as_str())
    }

    /// Declaration of the TX handler function for this message.
    fn tx_fn_decl(&self) -> (r: String)
        ensures
            r@ == "bool "@ + "CANTX_doTx_"@ + self.name@ + "(uint8_t *data_out, uint8_t *len_out)"@,
    {
        let mut s = String::from_str("bool ");
        s.append(self.tx_fn_name().as_str());
        s.append("(uint8_t *data_out, uint8_t *len_out)");
        s
    }

    /// Definition of the TX handler function for this message: it calls the user's
    /// populate function, encodes each signal, packs each signal piece by piece into
    /// the bytes that hold it, and writes the length.
    fn tx_fn_def(&self) -> (r: String)
        ensures
            r@ == tx_fn_def_text(*self),
    {
        let encode = indent(trim(self.all_converts(true).as_str()).as_str(), 4);
        let pack = indent(trim(self.all_bits(true).as_str()).as_str(), 4);
        let mut s = String::from_str("// todo: length condition check\nbool ");
        s.append(self.tx_fn_name().as_str());
        s.append("(uint8_t * const data_out, uint8_t * const len_out)\n{\n    /* Call user-provided populate function */\n    ");
        s.append(self.struct_ty().as_str());
        s.append(" dec;\n    ");
        s.append(self.tx_populate_fn_name().as_str());
        s.append("(&dec); // calls into user code!\n\n    /* ------- Encode signals ------- */\n    ");
        s.append(self.raw_struct_ty().as_str());
        s.append(" raw = {0};\n\n");
        s.append(encode.as_str());
        s.append("\n\n    /* ------- Pack signals ------- */\n\n");
        s.append(pack.as_str());
        s.append("\n\n    // Write data length\n    *len_out = ");
        push_num(&mut s, self.length);
        s.append(";\n\n    return true;\n}");
        proof {
            assert(s@ =~= tx_fn_def_text(*self));
        }
        s
    }

    /// Name of the TX user populate callback for this message: for a message made
    /// from a template, its name without the transmitting node's name in front.
    fn tx_populate_fn_name(&self) -> (r: String)
        ensures
            r@ == tx_populate_fn_name_text(*self),
    {
        match &self.kind {
            CANMessageKind::FromTemplate(_) => {
                let tx = match &self.tx_node {
                    Some(t) => t,
                    None => {
                        proof {
                            assert(false);
                        }
                        return String::new();
                    },
                };
                match strip_prefix(self.name.as_str(), tx.as_str()) {
                    Some(stripped) => cat("CANTX_populateTemplate", stripped.as_str()),
                    None => {
                        proof {
                            assert(false);
                        }
                        String::new()
                    },
                }
            },
            _ => cat("CANTX_populate_", self.name.as_str()),
        }
    }

    /// Declaration of the TX user populate function for this message.
    fn tx_populate_fn_decl(&self) -> (r: String)
        ensures
            r@ == tx_populate_fn_decl_text(*self),
    {
        let mut s = String::from_str("void ");
        s.append(self.tx_populate_fn_name().as_str());
        s.append("(");
        s.append(self.struct_ty().as_str());
        s.append(" * const m)");
        s
    }

    /// Declarations of the signal getter functions for this message.
    fn getter_fn_decls(&self) -> (r: String)
        ensures
            r@ == trimmed(getters_text(*self, self.signals@, false)),
    {
        self.getters(false)
    }

    /// Definitions of the signal getter functions for this message.
    fn getter_fn_defs(&self) -> (r: String)
        ensures
            r@ == trimmed(getters_text(*self, self.signals@, true)),
    {
        self.getters(true)
    }

    /// Enumerations for all signals that have them in this message.
    fn signal_enums(&self) -> (r: String)
        ensures
            r@ == signal_enums_text(*self),
    {
        if let CANMessageKind::FromTemplate(t) = &self.kind {
            let mut s = String::from_str("/*  Signal enums provied by template `");
            s.append(t.as_str());
            s.append("`  */");
            return s;
        }
        let mut out = String::new();
        let mut some = false;
        let mut i: usize = 0;
        while i < self.signals.len()
            invariant
                0 <= i <= self.signals@.len(),
                message_codegen_ok(*self),
                out@ == enums_text(*self, self.signals@.take(i as int)),
                some == some_enum(*self, self.signals@.take(i as int)),
            decreases self.signals@.len() - i,
        {
            proof {
                assert(signal_codegen_ok(*self, self.signals@[i as int].sig));
            }
            let e = self.c_enum(&self.signals[i].sig);
            let ghost was = some;
            if let Some(e) = e {
                out.append(e.as_str());
                out.append("\n\n");
                some = true;
            }
            proof {
                let sigs = self.signals@;
                let t = sigs.take(i + 1);
                assert(t.drop_last() =~= sigs.take(i as int));
                assert(t.last() == sigs[i as int]);
                if some_enum(*self, t) {
                    let k = choose|k: int| 0 <= k < t.len() && (decoded_cty(*self, #[trigger] t[k].sig) is Enum);
                    if k < i {
                        assert(sigs.take(i as int)[k] == t[k]);
                    }
                }
                if was {
                    let k = choose|k: int| 0 <= k < i && (decoded_cty(*self, #[trigger] sigs.take(i as int)[k].sig) is Enum);
                    assert(t[k] == sigs.take(i as int)[k]);
                }
                if decoded_cty(*self, sigs[i as int].sig) is Enum {
                    assert(t[i as int] == sigs[i as int]);
                }
            }
            i = i + 1;
        }
        proof {
            assert(self.signals@.take(self.signals@.len() as int) =~= self.signals@);
        }
        if some {
            trim(out.as_str())
        } else {
            String::from_str("// (none for this message)")
        }
    }

    /// The name the C structs of this message give the signal named `name`: without
    /// the transmitting node's prefix for a message made from a template.
    fn normalize_struct_signal_name(&self, name: &str) -> (r: String)
        ensures
            r@ == struct_signal_name(*self, name@),
    {
        match &self.kind {
            CANMessageKind::FromTemplate(_) => {
                let tx = match &self.tx_node {
                    Some(t) => t,
                    None => {
                        proof {
                            assert(false);
                        }
                        return String::new();
                    },
                };
                let mut prefix = tx.clone();
                push_char(&mut prefix, '_');
                match strip_prefix(name, prefix.as_str()) {
                    Some(s) => s,
                    None => {
                        proof {
                            assert(name@.take(prefix@.len() as int) =~= prefix@);
                        }
                        String::new()
                    },
                }
            },
            _ => String::from_str(name),
        }
    }

    /// Stub (empty, weak) TX populate function.
    fn tx_stub(&self) -> (r: String)
        ensures
            r@ == "__attribute__((weak)) "@ + tx_populate_fn_decl_text(*self)
                + " {\n    (void)m;\n}"@,
    {
        let mut s = String::from_str("__attribute__((weak)) ");
        s.append(self.tx_populate_fn_decl().as_str());
        s.append(" {\n    (void)m;\n}");
        s
    }

}

impl CANMessage {
    fn field(&self, sigbit: &CANSignalWithPosition, raw: bool) -> (r: String)
        requires
            signal_codegen_ok(*self, sigbit.sig),
        ensures
            r@ == field_text(
                if raw {
                    "Raw signal"@
                } else {
                    "Signal"@
                },
                *sigbit,
                if raw {
                    cty_text(raw_cty(sigbit.sig.width))
                } else {
                    cty_text(decoded_cty(*self, sigbit.sig))
                },
            ),
    {
        let mut s = String::from_str("/**\n * -- ");
        s.append(if raw {
            "Raw signal"
        } else {
            "Signal"
        });
        s.append(": ");
        s.append(sigbit.sig.name.as_str());
        s.append("\n *\n * ----> Description: ");
        match &sigbit.sig.description {
            Some(d) => s.append(d.as_str()),
            None => s.append("(None)"),
        }
        s.append("\n * ----> Start bit: ");
        push_num(&mut s, sigbit.start());
        s.append("\n * ----> Width: ");
        push_num(&mut s, sigbit.sig.width);
        s.append("\n */\n");
        let sigty = if raw {
            self.sig_ty_raw(&sigbit.sig)
        } else {
            self.sig_ty_decoded(&sigbit.sig)
        };
        s.append(sigty.to_text().as_str());
        s.append(" ");
        s.append(sigbit.sig.name.as_str());
        s.append(";\n");
        s
    }

    fn any_struct_def(&self, raw: bool) -> (r: String)
        requires
            message_codegen_ok(*self),
        ensures
            r@ == struct_def_text(*self, raw),
    {
        let ty = if raw {
            self.raw_struct_ty()
        } else {
            self.struct_ty()
        };
        if let CANMessageKind::FromTemplate(t) = &self.kind {
            let mut s = String::from_str(if raw {
                "/*  Raw struct `"
            } else {
                "/*  Decoded struct `"
            });
            s.append(ty.as_str());
            s.append("` provided by template `");
            s.append(t.as_str());
            s.append("`  */");
            return s;
        }
        let mut inner = String::new();
        let mut i: usize = 0;
        while i < self.signals.len()
            invariant
                0 <= i <= self.signals@.len(),
                message_codegen_ok(*self),
                inner@ == fields_text(*self, self.signals@.take(i as int), raw),
            decreases self.signals@.len() - i,
        {
            let sigbit = &self.signals[i];
            proof {
                assert(signal_codegen_ok(*self, self.signals@[i as int].sig));
            }
            let ghost before = inner@;
            inner.append("\n");
            let f = self.field(sigbit, raw);
            inner.append(f.as_str());
            proof {
                let sigs = self.signals@;
                assert(sigs.take(i + 1).drop_last() =~= sigs.take(i as int));
                assert(sigs.take(i + 1).last() == sigs[i as int]);
                let lbl = if raw {
                    "Raw signal"@
                } else {
                    "Signal"@
                };
                let ty2 = if raw {
                    cty_text(raw_cty(sigs[i as int].sig.width))
                } else {
                    cty_text(decoded_cty(*self, sigs[i as int].sig))
                };
                assert(inner@ =~= before + "\n"@ + field_text(lbl, sigs[i as int], ty2));
            }
            i = i + 1;
        }
        proof {
            assert(self.signals@.take(self.signals@.len() as int) =~= self.signals@);
        }
        let mut s = ty;
        s.append(" {\n");
        s.append(indent(inner.as_str(), 4).as_str());
        s.append("\n};");
        s
    }

    fn chunk_line(name: &str, rawty: &str, c: &BitChunk, pack: bool) -> (r: String)
        requires
            1 <= c.len <= 8,
        ensures
            r@ == if pack {
                pack_line(name@, *c)
            } else {
                unpack_line(name@, rawty@, *c)
            },
    {
        let mask = mask_of(c.len);
        if pack {
            let mut s = String::from_str("data_out[");
            push_num(&mut s, c.byte);
            s.append("] |= ((raw.");
            s.append(name);
            s.append(" & (0x");
            push_hex2(&mut s, mask);
            s.append(" << ");
            push_num(&mut s, c.sig_pos);
            s.append(")) >> ");
            push_num(&mut s, c.sig_pos);
            s.append(") << ");
            push_num(&mut s, c.shift);
            s.append(";\n");
            s
        } else {
            let mut s = String::from_str("raw.");
            s.append(name);
            s.append(" |= (");
            s.append(rawty);
            s.append(")((data[");
            push_num(&mut s, c.byte);
            s.append("] & (0x");
            push_hex2(&mut s, mask);
            s.append(" << ");
            push_num(&mut s, c.shift);
            s.append(")) >> ");
            push_num(&mut s, c.shift);
            s.append(") << ");
            push_num(&mut s, c.sig_pos);
            s.append(";\n");
            s
        }
    }

    fn signal_bits(&self, sigbit: &CANSignalWithPosition, pack: bool) -> (r: String)
        requires
            signal_codegen_ok(*self, sigbit.sig),
            crate::message::placed(*sigbit),
        ensures
            r@ == signal_bits_text(*self, *sigbit, pack),
    {
        let nm = self.normalize_struct_signal_name(sigbit.sig.name.as_str());
        let rawty = self.sig_ty_raw(&sigbit.sig).to_text();
        let mut s = if pack {
            cat("// Pack `", nm.as_str())
        } else {
            cat("// Unpack `", sigbit.sig.name.as_str())
        };
        s.append("`, start bit ");
        push_num(&mut s, sigbit.start());
        s.append(", width ");
        push_num(&mut s, sigbit.sig.width);
        s.append("\n");
        let start = sigbit.start();
        let end = sigbit.end();
        let cs = bit_chunks(start, end);
        proof {
            law_chunks_partition_signal(start as int, end as int);
        }
        let ghost head = s@;
        let mut i: usize = 0;
        while i < cs.len()
            invariant
                0 <= i <= cs@.len(),
                cs@ == signal_chunks(*sigbit),
                cs@ == chunks_from(start as int, start as int, end as int),
                forall|k: int| 0 <= k < cs@.len() ==> 1 <= (#[trigger] cs@[k]).len <= 8,
                s@ == head + chunk_lines(nm@, rawty@, cs@.take(i as int), pack),
            decreases cs@.len() - i,
        {
            let line = CANMessage::chunk_line(nm.as_str(), rawty.as_str(), &cs[i], pack);
            let ghost before = s@;
            s.append(line.as_str());
            proof {
                assert(cs@.take(i + 1).drop_last() =~= cs@.take(i as int));
                assert(cs@.take(i + 1).last() == cs@[i as int]);
                assert(s@ =~= head + chunk_lines(nm@, rawty@, cs@.take(i + 1), pack));
            }
            i = i + 1;
        }
        proof {
            assert(cs@.take(cs@.len() as int) =~= cs@);
        }
        s.append("\n");
        s
    }

    fn all_bits(&self, pack: bool) -> (r: String)
        requires
            message_codegen_ok(*self),
        ensures
            r@ == bits_text(*self, self.signals@, pack),
    {
        let mut s = String::new();
        let mut i: usize = 0;
        while i < self.signals.len()
            invariant
                0 <= i <= self.signals@.len(),
                message_codegen_ok(*self),
                s@ == bits_text(*self, self.signals@.take(i as int), pack),
            decreases self.signals@.len() - i,
        {
            proof {
                assert(signal_codegen_ok(*self, self.signals@[i as int].sig));
                assert(crate::message::placed(self.signals@[i as int]));
            }
            let t = self.signal_bits(&self.signals[i], pack);
            let ghost before = s@;
            s.append(t.as_str());
            proof {
                let sigs = self.signals@;
                assert(sigs.take(i + 1).drop_last() =~= sigs.take(i as int));
                assert(sigs.take(i + 1).last() == sigs[i as int]);
            }
            i = i + 1;
        }
        proof {
            assert(self.signals@.take(self.signals@.len() as int) =~= self.signals@);
        }
        s
    }

    fn convert(&self, sigbit: &CANSignalWithPosition, encode: bool) -> (r: String)
        requires
            signal_codegen_ok(*self, sigbit.sig),
        ensures
            r@ == convert_text(*self, *sigbit, encode),
    {
        let nm = self.normalize_struct_signal_name(sigbit.sig.name.as_str());
        let mut s = String::from_str(if encode {
            "// Encode `"
        } else {
            "// Decode `"
        });
        s.append(nm.as_str());
        s.append(if encode {
            "`\nraw."
        } else {
            "`\ndec."
        });
        s.append(nm.as_str());
        s.append(" = ");
        let e = if encode {
            self.encoding_expression(&sigbit.sig, cat("dec.", nm.as_str()).as_str())
        } else {
            self.decoding_expression(&sigbit.sig, cat("raw.", nm.as_str()).as_str())
        };
        s.append(e.as_str());
        s.append(";\n\n");
        s
    }

    fn all_converts(&self, encode: bool) -> (r: String)
        requires
            message_codegen_ok(*self),
        ensures
            r@ == converts_text(*self, self.signals@, encode),
    {
        let mut s = String::new();
        let mut i: usize = 0;
        while i < self.signals.len()
            invariant
                0 <= i <= self.signals@.len(),
                message_codegen_ok(*self),
                s@ == converts_text(*self, self.signals@.take(i as int), encode),
            decreases self.signals@.len() - i,
        {
            proof {
                assert(signal_codegen_ok(*self, self.signals@[i as int].sig));
            }
            let t = self.convert(&self.signals[i], encode);
            s.append(t.as_str());
            proof {
                let sigs = self.signals@;
                assert(sigs.take(i + 1).drop_last() =~= sigs.take(i as int));
                assert(sigs.take(i + 1).last() == sigs[i as int]);
            }
            i = i + 1;
        }
        proof {
            assert(self.signals@.take(self.signals@.len() as int) =~= self.signals@);
        }
        s
    }

    fn getter(&self, sig: &CANSignal, def: bool) -> (r: String)
        requires
            signal_codegen_ok(*self, *sig),
        ensures
            r@ == if def {
                getter_def_text(*self, *sig)
            } else {
                getter_decl_text(*self, *sig)
            },
    {
        let dec_ty = self.sig_ty_decoded(sig).to_text();
        let raw_ty = self.sig_ty_raw(sig).to_text();
        let mut s = dec_ty;
        s.append(" ");
        s.append(self.getter_fn_name(sig).as_str());
        if def {
            let nm = self.normalize_struct_signal_name(sig.name.as_str());
            s.append("(void) {\n    return ");
            s.append(self.global_struct_ident().as_str());
            s.append(".");
            s.append(nm.as_str());
            s.append(";\n}\n\n");
            s.append(raw_ty.as_str());
            s.append(" ");
            s.append(self.raw_getter_fn_name(sig).as_str());
            s.append("(void) {\n    return ");
            s.append(self.global_raw_struct_ident().as_str());
            s.append(".");
            s.append(nm.as_str());
            s.append(";\n}\n\n");
        } else {
            s.append("(void);\n");
            s.append(raw_ty.as_str());
            s.append(" ");
            s.append(self.raw_getter_fn_name(sig).as_str());
            s.append("(void);\n\n");
        }
        s
    }

    fn getters(&self, defs: bool) -> (r: String)
        requires
            message_codegen_ok(*self),
        ensures
            r@ == trimmed(getters_text(*self, self.signals@, defs)),
    {
        let mut s = String::new();
        let mut i: usize = 0;
        while i < self.signals.len()
            invariant
                0 <= i <= self.signals@.len(),
                message_codegen_ok(*self),
                s@ == getters_text(*self, self.signals@.take(i as int), defs),
            decreases self.signals@.len() - i,
        {
            proof {
                assert(signal_codegen_ok(*self, self.signals@[i as int].sig));
            }
            let t = self.getter(&self.signals[i].sig, defs);
            s.append(t.as_str());
            proof {
                let sigs = self.signals@;
                assert(sigs.take(i + 1).drop_last() =~= sigs.take(i as int));
                assert(sigs.take(i + 1).last() == sigs[i as int]);
            }
            i = i + 1;
        }
        proof {
            assert(self.signals@.take(self.signals@.len() as int) =~= self.signals@);
        }
        trim(s.as_str())
    }

    /// Identifier of the variable that holds when this message was last received.
    pub fn rx_timestamp_ident(&self) -> (r: String)
        ensures
            r@ == "CANRX_timestamp_"@ + self.name@,
    {
        cat("CANRX_timestamp_", self.name.as_str())
    }

    /// Declaration of the user RX callback of this message.
    pub fn rx_callback_fn_decl(&self) -> (r: String)
        ensures
            r@ == rx_callback_fn_decl_text(*self),
    {
        let mut s = String::from_str("void ");
        s.append("CANRX_onRxCallback_");
        s.append(self.name.as_str());
        if let CANMessageKind::Raw = self.kind {
            s.append("(const uint8_t * data, uint_fast8_t len)");
        } else {
            s.append("(void)");
        }
        s
    }

    /// Weak stub of the user RX callback of this message.
    pub fn rx_callback_fn_stub(&self) -> (r: String)
        ensures
            r@ == rx_callback_fn_stub_text(*self),
    {
        let mut s = String::from_str("__attribute__((weak)) ");
        s.append(self.rx_callback_fn_decl().as_str());
        if let CANMessageKind::Raw = self.kind {
            s.append(" {\n    (void)data;\n    (void)len;\n}");
        } else {
            s.append(" {\n}");
        }
        s
    }
}



/// Declaration of the user RX callback of message `m`: a raw message hands its data
/// to the callback, another message only tells that it arrived.
pub open spec fn rx_callback_fn_decl_text(m: CANMessage) -> Seq<char> {
    "void "@ + "CANRX_onRxCallback_"@ + m.name@ + if m.kind is Raw {
        "(const uint8_t * data, uint_fast8_t len)"@
    } else {
        "(void)"@
    }
}

/// Weak stub of the user RX callback of message `m`.
pub open spec fn rx_callback_fn_stub_text(m: CANMessage) -> Seq<char> {
    "__attribute__((weak)) "@ + rx_callback_fn_decl_text(m) + if m.kind is Raw {
        " {\n    (void)data;\n    (void)len;\n}"@
    } else {
        " {\n}"@
    }
}


} // verus!
