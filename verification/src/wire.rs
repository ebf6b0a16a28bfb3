//! The wire format shared by the encoder and the decoder, and the laws that
//! tie the two together.
//!
//! Each instruction occupies a variable number of bytes: a family-specific
//! header of one or two bytes, then the destination's 16-bit location, then
//! either the source's 16-bit pointer location or the immediate value in
//! `unit.num_bytes()` big-endian bytes.  All 16-bit fields are big-endian.
//!
//! The top nibble of the first byte always carries the opcode-family id, so
//! that the decoder's dispatch and every family's encoder agree on it:
//!
//! | family | variants                     | header bytes | trailing bytes           |
//! |--------|------------------------------|--------------|--------------------------|
//! | `0000` | Mov/Add/Sub/Mul/Div          | 2            | 2 (dest) + 2 or unit     |
//! | `0001` | Cmp                          | 2            | 2 (dest) + 2 or unit     |
//! | `0010` | Jg/Je/Jl/Jmp                 | 1            | 2 (target)               |
//! | `0011` | reserved for the interrupts  | -            | no encoding is defined   |
//! | `0100` | And/Or/Xor/Not/Shl/Shr       | 2            | 2 (dest) + 2 or unit     |
//!
//! Within a family the header packs the sub-opcode, the operand width id,
//! both operands' two-bit indirection depths, and one selector bit that
//! distinguishes an immediate source (1) from a pointer source (0); each
//! field's bit position is family-specific and documented by the spec
//! functions below.

use vstd::prelude::*;

use crate::disassemble::DisassembleError;
use crate::{Address, Instruction, Source, Unit, Usd};

verus! {

// ---------------------------------------------------------------------------
// Encoding
// ---------------------------------------------------------------------------

/// A 16-bit field on the wire: high byte first.
pub open spec fn spec_be16(x: u16) -> Seq<u8> {
    seq![(x >> 8) as u8, (x & 0xff) as u8]
}

/// The low `n` bytes of `v`, big-endian.  An oversized value is truncated:
/// only its low `8 * n` bits are kept.
pub open spec fn spec_value_bytes(v: u32, n: nat) -> Seq<u8> {
    Seq::new(n, |k: int| ((v >> ((8 * (n - 1 - k)) as u32)) & 0xff) as u8)
}

/// The trailing source bytes: a pointer's 16-bit location, or the immediate
/// in the operation width.
pub open spec fn spec_src_bytes(usd: Usd) -> Seq<u8> {
    match usd.source {
        Source::Pointer(adr) => spec_be16(adr.location),
        Source::Value(v) => spec_value_bytes(v, usd.unit.spec_num_bytes() as nat),
    }
}

/// Family `0000` (`op` 0-4: Mov, Add, Sub, Mul, Div).
/// First byte: `0000 | unit id | selector`; second byte:
/// `op | dest depth | source depth`.
pub open spec fn spec_encode_mov_family(op: u8, usd: Usd) -> Seq<u8> {
    seq![
        (usd.unit.spec_id() << 2) | usd.source.spec_id(),
        (op << 5) | (usd.destination.depth << 2) | usd.source.spec_depth_or_zero(),
    ] + spec_be16(usd.destination.location) + spec_src_bytes(usd)
}

/// Family `0001` (Cmp).  First byte: `0001 | unit id | dest depth`; second
/// byte: `selector | source depth | 00000`.
pub open spec fn spec_encode_cmp(usd: Usd) -> Seq<u8> {
    seq![
        0x10u8 | (usd.unit.spec_id() << 2) | usd.destination.depth,
        (usd.source.spec_id() << 7) | (usd.source.spec_depth_or_zero() << 5),
    ] + spec_be16(usd.destination.location) + spec_src_bytes(usd)
}

/// Family `0010` (`op` 0-3: Jg, Je, Jl, Jmp).  Single header byte:
/// `0010 | op | depth`, then the 16-bit target location.
pub open spec fn spec_encode_jump(op: u8, adr: Address) -> Seq<u8> {
    seq![0x20u8 | (op << 2) | adr.depth] + spec_be16(adr.location)
}

/// Family `0100` (`op` 0-5: And, Or, Xor, Not, Shl, Shr).  First byte:
/// `0100 | 0 | op`; second byte: `unit id | dest depth | source depth |
/// selector`.
pub open spec fn spec_encode_bit_family(op: u8, usd: Usd) -> Seq<u8> {
    seq![
        0x40u8 | op,
        (usd.unit.spec_id() << 6) | (usd.destination.depth << 4)
            | (usd.source.spec_depth_or_zero() << 2) | usd.source.spec_id(),
    ] + spec_be16(usd.destination.location) + spec_src_bytes(usd)
}

/// The encoding of one instruction.  The interrupt family has no defined
/// encoding; its variants encode to the empty sequence here, and the
/// encoder rejects them with an error instead of emitting anything.
pub open spec fn spec_encode(i: Instruction) -> Seq<u8> {
    match i {
        Instruction::Mov(usd) => spec_encode_mov_family(0, usd),
        Instruction::Add(usd) => spec_encode_mov_family(1, usd),
        Instruction::Sub(usd) => spec_encode_mov_family(2, usd),
        Instruction::Mul(usd) => spec_encode_mov_family(3, usd),
        Instruction::Div(usd) => spec_encode_mov_family(4, usd),
        Instruction::Cmp(usd) => spec_encode_cmp(usd),
        Instruction::Jg(adr) => spec_encode_jump(0, adr),
        Instruction::Je(adr) => spec_encode_jump(1, adr),
        Instruction::Jl(adr) => spec_encode_jump(2, adr),
        Instruction::Jmp(adr) => spec_encode_jump(3, adr),
        Instruction::And(usd) => spec_encode_bit_family(0, usd),
        Instruction::Or(usd) => spec_encode_bit_family(1, usd),
        Instruction::Xor(usd) => spec_encode_bit_family(2, usd),
        Instruction::Not(usd) => spec_encode_bit_family(3, usd),
        Instruction::Shl(usd) => spec_encode_bit_family(4, usd),
        Instruction::Shr(usd) => spec_encode_bit_family(5, usd),
        Instruction::Int(_) => Seq::empty(),
        Instruction::Iret => Seq::empty(),
    }
}

/// The encoding of an ordered instruction sequence: the concatenation of
/// the per-instruction encodings, in order.
pub open spec fn spec_encode_seq(s: Seq<Instruction>) -> Seq<u8>
    decreases s.len(),
{
    if s.len() == 0 {
        Seq::empty()
    } else {
        spec_encode(s[0]) + spec_encode_seq(s.drop_first())
    }
}

// ---------------------------------------------------------------------------
// Decoding
// ---------------------------------------------------------------------------

/// The outcome of decoding one instruction at a byte position: a decoded
/// instruction or an invalid encoding, each with the position just past the
/// bytes it consumed; or `Short`, the source ran out mid-instruction; or
/// `End`, the position is already past the end.
pub enum DecodeStep {
    Ins { ins: Instruction, next: int },
    Invalid { next: int },
    Short,
    End,
}

/// The 16-bit big-endian field at positions `q` and `q + 1`.
pub open spec fn spec_read_u16(s: Seq<u8>, q: int) -> u16 {
    ((s[q] as u16) << 8) | (s[q + 1] as u16)
}

/// Big-endian reassembly of the bytes at positions `i..end` onto the
/// accumulator `acc`.
pub open spec fn spec_acc_value(s: Seq<u8>, i: int, end: int, acc: u32) -> u32
    decreases end - i,
{
    if i >= end {
        acc
    } else {
        spec_acc_value(s, i + 1, end, (acc << 8) | (s[i] as u32))
    }
}

pub open spec fn spec_mov_family_op(op: u8, usd: Usd, next: int) -> DecodeStep {
    if op == 0 {
        DecodeStep::Ins { ins: Instruction::Mov(usd), next }
    } else if op == 1 {
        DecodeStep::Ins { ins: Instruction::Add(usd), next }
    } else if op == 2 {
        DecodeStep::Ins { ins: Instruction::Sub(usd), next }
    } else if op == 3 {
        DecodeStep::Ins { ins: Instruction::Mul(usd), next }
    } else if op == 4 {
        DecodeStep::Ins { ins: Instruction::Div(usd), next }
    } else {
        DecodeStep::Invalid { next }
    }
}

/// Family `0000`: width id and selector from the first byte, sub-opcode and
/// the two depths from the second.
pub open spec fn spec_decode_mov_family(s: Seq<u8>, b1: u8, q: int) -> DecodeStep {
    match Unit::spec_from_id((b1 >> 2) & 3) {
        None => DecodeStep::Invalid { next: q },
        Some(unit) => if q + 1 > s.len() {
            DecodeStep::Short
        } else {
            let b2 = s[q];
            if q + 3 > s.len() {
                DecodeStep::Short
            } else {
                let destination = Address {
                    location: spec_read_u16(s, q + 1),
                    depth: (b2 >> 2) & 3,
                };
                if b1 & 1 == 0 {
                    if q + 5 > s.len() {
                        DecodeStep::Short
                    } else {
                        let source = Source::Pointer(
                            Address { location: spec_read_u16(s, q + 3), depth: b2 & 3 },
                        );
                        spec_mov_family_op(b2 >> 5, Usd { unit, source, destination }, q + 5)
                    }
                } else {
                    let n = unit.spec_num_bytes() as int;
                    if q + 3 + n > s.len() {
                        DecodeStep::Short
                    } else {
                        let source = Source::Value(spec_acc_value(s, q + 3, q + 3 + n, 0));
                        spec_mov_family_op(b2 >> 5, Usd { unit, source, destination }, q + 3 + n)
                    }
                }
            }
        },
    }
}

/// Family `0001`: width id and destination depth from the first byte,
/// selector and source depth from the second.
pub open spec fn spec_decode_cmp(s: Seq<u8>, b1: u8, q: int) -> DecodeStep {
    match Unit::spec_from_id((b1 >> 2) & 3) {
        None => DecodeStep::Invalid { next: q },
        Some(unit) => if q + 1 > s.len() {
            DecodeStep::Short
        } else {
            let b2 = s[q];
            if q + 3 > s.len() {
                DecodeStep::Short
            } else {
                let destination = Address {
                    location: spec_read_u16(s, q + 1),
                    depth: b1 & 3,
                };
                if b2 >> 7 == 0 {
                    if q + 5 > s.len() {
                        DecodeStep::Short
                    } else {
                        let source = Source::Pointer(
                            Address { location: spec_read_u16(s, q + 3), depth: (b2 >> 5) & 3 },
                        );
                        DecodeStep::Ins {
                            ins: Instruction::Cmp(Usd { unit, source, destination }),
                            next: q + 5,
                        }
                    }
                } else {
                    let n = unit.spec_num_bytes() as int;
                    if q + 3 + n > s.len() {
                        DecodeStep::Short
                    } else {
                        let source = Source::Value(spec_acc_value(s, q + 3, q + 3 + n, 0));
                        DecodeStep::Ins {
                            ins: Instruction::Cmp(Usd { unit, source, destination }),
                            next: q + 3 + n,
                        }
                    }
                }
            }
        },
    }
}

/// Family `0010`: sub-opcode and target depth from the single header byte.
pub open spec fn spec_decode_jump(s: Seq<u8>, b1: u8, q: int) -> DecodeStep {
    if q + 2 > s.len() {
        DecodeStep::Short
    } else {
        let adr = Address { location: spec_read_u16(s, q), depth: b1 & 3 };
        let op = (b1 >> 2) & 3;
        if op == 0 {
            DecodeStep::Ins { ins: Instruction::Jg(adr), next: q + 2 }
        } else if op == 1 {
            DecodeStep::Ins { ins: Instruction::Je(adr), next: q + 2 }
        } else if op == 2 {
            DecodeStep::Ins { ins: Instruction::Jl(adr), next: q + 2 }
        } else {
            DecodeStep::Ins { ins: Instruction::Jmp(adr), next: q + 2 }
        }
    }
}

pub open spec fn spec_bit_family_op(op: u8, usd: Usd, next: int) -> DecodeStep {
    if op == 0 {
        DecodeStep::Ins { ins: Instruction::And(usd), next }
    } else if op == 1 {
        DecodeStep::Ins { ins: Instruction::Or(usd), next }
    } else if op == 2 {
        DecodeStep::Ins { ins: Instruction::Xor(usd), next }
    } else if op == 3 {
        DecodeStep::Ins { ins: Instruction::Not(usd), next }
    } else if op == 4 {
        DecodeStep::Ins { ins: Instruction::Shl(usd), next }
    } else if op == 5 {
        DecodeStep::Ins { ins: Instruction::Shr(usd), next }
    } else {
        DecodeStep::Invalid { next }
    }
}

/// Family `0100`: sub-opcode from the first byte; width id, depths and
/// selector from the second.
pub open spec fn spec_decode_bit_family(s: Seq<u8>, b1: u8, q: int) -> DecodeStep {
    if q + 1 > s.len() {
        DecodeStep::Short
    } else {
        let b2 = s[q];
        match Unit::spec_from_id(b2 >> 6) {
            None => DecodeStep::Invalid { next: q + 1 },
            Some(unit) => if q + 3 > s.len() {
                DecodeStep::Short
            } else {
                let destination = Address {
                    location: spec_read_u16(s, q + 1),
                    depth: (b2 >> 4) & 3,
                };
                if b2 & 1 == 0 {
                    if q + 5 > s.len() {
                        DecodeStep::Short
                    } else {
                        let source = Source::Pointer(
                            Address { location: spec_read_u16(s, q + 3), depth: (b2 >> 2) & 3 },
                        );
                        spec_bit_family_op(b1 & 7, Usd { unit, source, destination }, q + 5)
                    }
                } else {
                    let n = unit.spec_num_bytes() as int;
                    if q + 3 + n > s.len() {
                        DecodeStep::Short
                    } else {
                        let source = Source::Value(spec_acc_value(s, q + 3, q + 3 + n, 0));
                        spec_bit_family_op(b1 & 7, Usd { unit, source, destination }, q + 3 + n)
                    }
                }
            },
        }
    }
}

/// Dispatch on the family id in the top nibble of the first byte `b1`; `q`
/// is the position just after `b1`.  The reserved interrupt family and the
/// undefined family ids are invalid encodings.
pub open spec fn spec_decode_body(s: Seq<u8>, b1: u8, q: int) -> DecodeStep {
    if b1 >> 4 == 0 {
        spec_decode_mov_family(s, b1, q)
    } else if b1 >> 4 == 1 {
        spec_decode_cmp(s, b1, q)
    } else if b1 >> 4 == 2 {
        spec_decode_jump(s, b1, q)
    } else if b1 >> 4 == 4 {
        spec_decode_bit_family(s, b1, q)
    } else {
        DecodeStep::Invalid { next: q }
    }
}

/// Decoding one instruction at byte position `pos` of `s`.
pub open spec fn spec_decode_at(s: Seq<u8>, pos: int) -> DecodeStep {
    if 0 <= pos < s.len() {
        spec_decode_body(s, s[pos], pos + 1)
    } else {
        DecodeStep::End
    }
}

/// A decode step on a position inside the buffer consumes at least one byte
/// and never runs past the end.
pub proof fn lemma_decode_step_bounds(s: Seq<u8>, pos: int)
    ensures
        match spec_decode_at(s, pos) {
            DecodeStep::Ins { ins, next } => pos < next <= s.len(),
            DecodeStep::Invalid { next } => pos < next <= s.len(),
            _ => true,
        },
{
}

/// The whole decoded sequence from position `pos` on: one element per
/// decode step, ending when the input is exhausted, or right after the
/// element that reports it ran out mid-instruction.
pub open spec fn spec_decode_stream(s: Seq<u8>, pos: int) -> Seq<
    Result<Instruction, DisassembleError>,
>
    decreases s.len() - pos,
    via spec_decode_stream_decreases
{
    match spec_decode_at(s, pos) {
        DecodeStep::End => Seq::empty(),
        DecodeStep::Short => seq![Err(DisassembleError::NotEnoughData)],
        DecodeStep::Ins { ins, next } => seq![Ok(ins)] + spec_decode_stream(s, next),
        DecodeStep::Invalid { next } => seq![
            Err(DisassembleError::InvalidInstruction),
        ] + spec_decode_stream(s, next),
    }
}

#[via_fn]
proof fn spec_decode_stream_decreases(s: Seq<u8>, pos: int) {
    lemma_decode_step_bounds(s, pos);
}

// ---------------------------------------------------------------------------
// Header packing: each field comes back out of the byte it was packed into
// ---------------------------------------------------------------------------

proof fn lemma_pack_mov_b1(u: u8, sid: u8)
    by (bit_vector)
    requires
        u <= 2,
        sid <= 1,
    ensures
        ((u << 2) | sid) >> 4 == 0,
        (((u << 2) | sid) >> 2) & 3 == u,
        ((u << 2) | sid) & 1 == sid,
{
}

proof fn lemma_pack_mov_b2(op: u8, dd: u8, sd: u8)
    by (bit_vector)
    requires
        op <= 4,
        dd <= 3,
        sd <= 3,
    ensures
        ((op << 5) | (dd << 2) | sd) >> 5 == op,
        (((op << 5) | (dd << 2) | sd) >> 2) & 3 == dd,
        ((op << 5) | (dd << 2) | sd) & 3 == sd,
{
}

proof fn lemma_pack_cmp_b1(u: u8, dd: u8)
    by (bit_vector)
    requires
        u <= 2,
        dd <= 3,
    ensures
        (0x10u8 | (u << 2) | dd) >> 4 == 1,
        ((0x10u8 | (u << 2) | dd) >> 2) & 3 == u,
        (0x10u8 | (u << 2) | dd) & 3 == dd,
{
}

proof fn lemma_pack_cmp_b2(sid: u8, sd: u8)
    by (bit_vector)
    requires
        sid <= 1,
        sd <= 3,
    ensures
        ((sid << 7) | (sd << 5)) >> 7 == sid,
        (((sid << 7) | (sd << 5)) >> 5) & 3 == sd,
{
}

proof fn lemma_pack_jump(op: u8, d: u8)
    by (bit_vector)
    requires
        op <= 3,
        d <= 3,
    ensures
        (0x20u8 | (op << 2) | d) >> 4 == 2,
        ((0x20u8 | (op << 2) | d) >> 2) & 3 == op,
        (0x20u8 | (op << 2) | d) & 3 == d,
{
}

proof fn lemma_pack_bit_b1(op: u8)
    by (bit_vector)
    requires
        op <= 5,
    ensures
        (0x40u8 | op) >> 4 == 4,
        (0x40u8 | op) & 7 == op,
{
}

proof fn lemma_pack_bit_b2(u: u8, dd: u8, sd: u8, sid: u8)
    by (bit_vector)
    requires
        u <= 2,
        dd <= 3,
        sd <= 3,
        sid <= 1,
    ensures
        ((u << 6) | (dd << 4) | (sd << 2) | sid) >> 6 == u,
        (((u << 6) | (dd << 4) | (sd << 2) | sid) >> 4) & 3 == dd,
        (((u << 6) | (dd << 4) | (sd << 2) | sid) >> 2) & 3 == sd,
        ((u << 6) | (dd << 4) | (sd << 2) | sid) & 1 == sid,
{
}

proof fn lemma_be16_roundtrip(x: u16)
    by (bit_vector)
    ensures
        ((((x >> 8) as u8) as u16) << 8) | (((x & 0xff) as u8) as u16) == x,
{
}

/// Every unit id names the unit it came from.
proof fn lemma_unit_id_inverse(u: Unit)
    ensures
        Unit::spec_from_id(u.spec_id()) == Some(u),
{
}

// ---------------------------------------------------------------------------
// Immediate values: big-endian reassembly undoes big-endian splitting
// ---------------------------------------------------------------------------

/// Reassembling the `n` big-endian bytes of a value that fits `8 * n` bits
/// gives the value back.
proof fn lemma_acc_value_bytes(s: Seq<u8>, j: int, v: u32, n: nat)
    requires
        n == 1 || n == 2 || n == 4,
        v < (1u64 << ((8 * n) as u64)),
        0 <= j,
        j + n <= s.len(),
        forall|k: int| 0 <= k < n ==> s[j + k] == #[trigger] spec_value_bytes(v, n)[k],
    ensures
        spec_acc_value(s, j, j + n as int, 0) == v,
{
    if n == 1 {
        let x0 = s[j] as u32;
        let a1 = (0u32 << 8) | x0;
        assert(spec_acc_value(s, j + 1, j + 1, a1) == a1);
        assert(spec_acc_value(s, j, j + 1, 0) == a1);
        assert(s[j] == spec_value_bytes(v, n)[0]);
        assert(s[j] == ((v >> 0) & 0xff) as u8);
        assert(a1 == v) by (bit_vector)
            requires
                a1 == (0u32 << 8) | ((((v >> 0) & 0xff) as u8) as u32),
                v < (1u64 << 8u64),
        ;
    } else if n == 2 {
        let x0 = s[j] as u32;
        let x1 = s[j + 1] as u32;
        let a1 = (0u32 << 8) | x0;
        let a2 = (a1 << 8) | x1;
        assert(spec_acc_value(s, j + 2, j + 2, a2) == a2);
        assert(spec_acc_value(s, j + 1, j + 2, a1) == a2);
        assert(spec_acc_value(s, j, j + 2, 0) == a2);
        assert(s[j] == spec_value_bytes(v, n)[0]);
        assert(s[j + 1] == spec_value_bytes(v, n)[1]);
        assert(s[j] == ((v >> 8) & 0xff) as u8);
        assert(s[j + 1] == ((v >> 0) & 0xff) as u8);
        assert(a2 == v) by (bit_vector)
            requires
                a2 == (((0u32 << 8) | ((((v >> 8) & 0xff) as u8) as u32)) << 8) | ((((v >> 0)
                    & 0xff) as u8) as u32),
                v < (1u64 << 16u64),
        ;
    } else {
        let x0 = s[j] as u32;
        let x1 = s[j + 1] as u32;
        let x2 = s[j + 2] as u32;
        let x3 = s[j + 3] as u32;
        let a1 = (0u32 << 8) | x0;
        let a2 = (a1 << 8) | x1;
        let a3 = (a2 << 8) | x2;
        let a4 = (a3 << 8) | x3;
        assert(spec_acc_value(s, j + 4, j + 4, a4) == a4);
        assert(spec_acc_value(s, j + 3, j + 4, a3) == a4);
        assert(spec_acc_value(s, j + 2, j + 4, a2) == a4);
        assert(spec_acc_value(s, j + 1, j + 4, a1) == a4);
        assert(spec_acc_value(s, j, j + 4, 0) == a4);
        assert(s[j] == spec_value_bytes(v, n)[0]);
        assert(s[j + 1] == spec_value_bytes(v, n)[1]);
        assert(s[j + 2] == spec_value_bytes(v, n)[2]);
        assert(s[j + 3] == spec_value_bytes(v, n)[3]);
        assert(s[j] == ((v >> 24) & 0xff) as u8);
        assert(s[j + 1] == ((v >> 16) & 0xff) as u8);
        assert(s[j + 2] == ((v >> 8) & 0xff) as u8);
        assert(s[j + 3] == ((v >> 0) & 0xff) as u8);
        assert(a4 == v) by (bit_vector)
            requires
                a4 == (((((((0u32 << 8) | ((((v >> 24) & 0xff) as u8) as u32)) << 8) | ((((v >> 16)
                    & 0xff) as u8) as u32)) << 8) | ((((v >> 8) & 0xff) as u8) as u32)) << 8) | ((((
                v >> 0) & 0xff) as u8) as u32),
        ;
    }
}

proof fn lemma_mask_bounds(b: u8)
    by (bit_vector)
    ensures
        b & 1 <= 1,
        b & 3 <= 3,
        b & 7 <= 7,
        (b >> 2) & 3 <= 3,
        (b >> 4) & 3 <= 3,
        (b >> 5) & 3 <= 3,
        b >> 6 <= 3,
        b >> 7 <= 1,
{
}

/// Reassembling `n` bytes onto a zero accumulator stays below `2 ^ (8 * n)`.
proof fn lemma_acc_value_bound(s: Seq<u8>, j: int, n: nat)
    requires
        n == 1 || n == 2 || n == 4,
        0 <= j,
        j + n <= s.len(),
    ensures
        spec_acc_value(s, j, j + n as int, 0) < (1u64 << ((8 * n) as u64)),
{
    if n == 1 {
        let x0 = s[j] as u32;
        let a1 = (0u32 << 8) | x0;
        assert(spec_acc_value(s, j + 1, j + 1, a1) == a1);
        assert(spec_acc_value(s, j, j + 1, 0) == a1);
        assert(a1 < (1u64 << 8u64)) by (bit_vector)
            requires
                a1 == (0u32 << 8) | x0,
                x0 < 0x100,
        ;
    } else if n == 2 {
        let x0 = s[j] as u32;
        let x1 = s[j + 1] as u32;
        let a1 = (0u32 << 8) | x0;
        let a2 = (a1 << 8) | x1;
        assert(spec_acc_value(s, j + 2, j + 2, a2) == a2);
        assert(spec_acc_value(s, j + 1, j + 2, a1) == a2);
        assert(spec_acc_value(s, j, j + 2, 0) == a2);
        assert(a2 < (1u64 << 16u64)) by (bit_vector)
            requires
                a2 == (((0u32 << 8) | x0) << 8) | x1,
                x0 < 0x100,
                x1 < 0x100,
        ;
    } else {
        assert(spec_acc_value(s, j, j + 4, 0) < (1u64 << 32u64)) by {
            assert((1u64 << 32u64) == 0x1_0000_0000u64) by (bit_vector);
        };
    }
}

// ---------------------------------------------------------------------------
// Round trip: decoding an encoding gives the instruction back
// ---------------------------------------------------------------------------

proof fn lemma_decode_encode_mov_family(s: Seq<u8>, pos: int, op: u8, usd: Usd)
    requires
        op <= 4,
        usd.wf(),
        usd.value_fits(),
        0 <= pos,
        pos + spec_encode_mov_family(op, usd).len() <= s.len(),
        s.subrange(pos, pos + spec_encode_mov_family(op, usd).len() as int) == spec_encode_mov_family(
            op,
            usd,
        ),
    ensures
        spec_decode_at(s, pos) == spec_mov_family_op(
            op,
            usd,
            pos + spec_encode_mov_family(op, usd).len(),
        ),
{
    let enc = spec_encode_mov_family(op, usd);
    let l = enc.len() as int;
    let uid = usd.unit.spec_id();
    let sid = usd.source.spec_id();
    let dd = usd.destination.depth;
    let sd = usd.source.spec_depth_or_zero();
    let b1 = (uid << 2) | sid;
    let b2 = (op << 5) | (dd << 2) | sd;
    assert forall|k: int| 0 <= k < l implies s[pos + k] == enc[k] by {
        assert(s.subrange(pos, pos + l)[k] == s[pos + k]);
    }
    lemma_pack_mov_b1(uid, sid);
    lemma_pack_mov_b2(op, dd, sd);
    lemma_unit_id_inverse(usd.unit);
    lemma_be16_roundtrip(usd.destination.location);
    assert(s[pos + 0] == enc[0]);
    assert(s[pos + 1] == enc[1]);
    assert(s[pos + 2] == enc[2]);
    assert(s[pos + 3] == enc[3]);
    assert(enc[0] == b1);
    assert(enc[1] == b2);
    assert(enc[2] == (usd.destination.location >> 8) as u8);
    assert(enc[3] == (usd.destination.location & 0xff) as u8);
    assert(s[pos] == b1);
    let q = pos + 1;
    assert(s[q] == b2);
    assert(spec_read_u16(s, q + 1) == usd.destination.location);
    match usd.source {
        Source::Pointer(adr) => {
            assert(l == 6);
            lemma_be16_roundtrip(adr.location);
            assert(s[pos + 4] == enc[4]);
            assert(s[pos + 5] == enc[5]);
            assert(enc[4] == (adr.location >> 8) as u8);
            assert(enc[5] == (adr.location & 0xff) as u8);
            assert(spec_read_u16(s, q + 3) == adr.location);
            assert(b2 & 3 == adr.depth);
        },
        Source::Value(v) => {
            let n = usd.unit.spec_num_bytes() as nat;
            assert(l == 4 + n);
            assert forall|k: int| 0 <= k < n implies s[q + 3 + k] == #[trigger] spec_value_bytes(
                v,
                n,
            )[k] by {
                assert(s[pos + (4 + k)] == enc[4 + k]);
                assert(enc[4 + k] == spec_value_bytes(v, n)[k]);
            }
            lemma_acc_value_bytes(s, q + 3, v, n);
        },
    }
}

proof fn lemma_decode_encode_cmp(s: Seq<u8>, pos: int, usd: Usd)
    requires
        usd.wf(),
        usd.value_fits(),
        0 <= pos,
        pos + spec_encode_cmp(usd).len() <= s.len(),
        s.subrange(pos, pos + spec_encode_cmp(usd).len() as int) == spec_encode_cmp(usd),
    ensures
        spec_decode_at(s, pos) == (DecodeStep::Ins {
            ins: Instruction::Cmp(usd),
            next: pos + spec_encode_cmp(usd).len(),
        }),
{
    let enc = spec_encode_cmp(usd);
    let l = enc.len() as int;
    let uid = usd.unit.spec_id();
    let sid = usd.source.spec_id();
    let dd = usd.destination.depth;
    let sd = usd.source.spec_depth_or_zero();
    let b1 = 0x10u8 | (uid << 2) | dd;
    let b2 = (sid << 7) | (sd << 5);
    assert forall|k: int| 0 <= k < l implies s[pos + k] == enc[k] by {
        assert(s.subrange(pos, pos + l)[k] == s[pos + k]);
    }
    lemma_pack_cmp_b1(uid, dd);
    lemma_pack_cmp_b2(sid, sd);
    lemma_unit_id_inverse(usd.unit);
    lemma_be16_roundtrip(usd.destination.location);
    assert(s[pos + 0] == enc[0]);
    assert(s[pos + 1] == enc[1]);
    assert(s[pos + 2] == enc[2]);
    assert(s[pos + 3] == enc[3]);
    assert(enc[0] == b1);
    assert(enc[1] == b2);
    assert(enc[2] == (usd.destination.location >> 8) as u8);
    assert(enc[3] == (usd.destination.location & 0xff) as u8);
    assert(s[pos] == b1);
    let q = pos + 1;
    assert(s[q] == b2);
    assert(spec_read_u16(s, q + 1) == usd.destination.location);
    match usd.source {
        Source::Pointer(adr) => {
            assert(l == 6);
            assert(b2 >> 7 == 0);
            lemma_be16_roundtrip(adr.location);
            assert(s[pos + 4] == enc[4]);
            assert(s[pos + 5] == enc[5]);
            assert(enc[4] == (adr.location >> 8) as u8);
            assert(enc[5] == (adr.location & 0xff) as u8);
            assert(spec_read_u16(s, q + 3) == adr.location);
            assert((b2 >> 5) & 3 == adr.depth);
        },
        Source::Value(v) => {
            let n = usd.unit.spec_num_bytes() as nat;
            assert(l == 4 + n);
            assert(b2 >> 7 == 1);
            assert forall|k: int| 0 <= k < n implies s[q + 3 + k] == #[trigger] spec_value_bytes(
                v,
                n,
            )[k] by {
                assert(s[pos + (4 + k)] == enc[4 + k]);
                assert(enc[4 + k] == spec_value_bytes(v, n)[k]);
            }
            lemma_acc_value_bytes(s, q + 3, v, n);
        },
    }
}

proof fn lemma_decode_encode_jump(s: Seq<u8>, pos: int, op: u8, adr: Address)
    requires
        op <= 3,
        adr.wf(),
        0 <= pos,
        pos + spec_encode_jump(op, adr).len() <= s.len(),
        s.subrange(pos, pos + spec_encode_jump(op, adr).len() as int) == spec_encode_jump(op, adr),
    ensures
        spec_decode_at(s, pos) == spec_decode_jump(s, (0x20u8 | (op << 2) | adr.depth), pos + 1),
        spec_decode_jump(s, (0x20u8 | (op << 2) | adr.depth), pos + 1) == (DecodeStep::Ins {
            ins: if op == 0 {
                Instruction::Jg(adr)
            } else if op == 1 {
                Instruction::Je(adr)
            } else if op == 2 {
                Instruction::Jl(adr)
            } else {
                Instruction::Jmp(adr)
            },
            next: pos + 3,
        }),
{
    let enc = spec_encode_jump(op, adr);
    let l = enc.len() as int;
    let b1 = 0x20u8 | (op << 2) | adr.depth;
    assert forall|k: int| 0 <= k < l implies s[pos + k] == enc[k] by {
        assert(s.subrange(pos, pos + l)[k] == s[pos + k]);
    }
    assert(l == 3);
    lemma_pack_jump(op, adr.depth);
    lemma_be16_roundtrip(adr.location);
    assert(s[pos + 0] == enc[0]);
    assert(s[pos + 1] == enc[1]);
    assert(s[pos + 2] == enc[2]);
    assert(enc[0] == b1);
    assert(enc[1] == (adr.location >> 8) as u8);
    assert(enc[2] == (adr.location & 0xff) as u8);
    assert(s[pos] == b1);
    assert(spec_read_u16(s, pos + 1) == adr.location);
}

proof fn lemma_decode_encode_bit_family(s: Seq<u8>, pos: int, op: u8, usd: Usd)
    requires
        op <= 5,
        usd.wf(),
        usd.value_fits(),
        0 <= pos,
        pos + spec_encode_bit_family(op, usd).len() <= s.len(),
        s.subrange(pos, pos + spec_encode_bit_family(op, usd).len() as int) == spec_encode_bit_family(
            op,
            usd,
        ),
    ensures
        spec_decode_at(s, pos) == spec_bit_family_op(
            op,
            usd,
            pos + spec_encode_bit_family(op, usd).len(),
        ),
{
    let enc = spec_encode_bit_family(op, usd);
    let l = enc.len() as int;
    let uid = usd.unit.spec_id();
    let sid = usd.source.spec_id();
    let dd = usd.destination.depth;
    let sd = usd.source.spec_depth_or_zero();
    let b1 = 0x40u8 | op;
    let b2 = (uid << 6) | (dd << 4) | (sd << 2) | sid;
    assert forall|k: int| 0 <= k < l implies s[pos + k] == enc[k] by {
        assert(s.subrange(pos, pos + l)[k] == s[pos + k]);
    }
    lemma_pack_bit_b1(op);
    lemma_pack_bit_b2(uid, dd, sd, sid);
    lemma_unit_id_inverse(usd.unit);
    lemma_be16_roundtrip(usd.destination.location);
    assert(s[pos + 0] == enc[0]);
    assert(s[pos + 1] == enc[1]);
    assert(s[pos + 2] == enc[2]);
    assert(s[pos + 3] == enc[3]);
    assert(enc[0] == b1);
    assert(enc[1] == b2);
    assert(enc[2] == (usd.destination.location >> 8) as u8);
    assert(enc[3] == (usd.destination.location & 0xff) as u8);
    assert(s[pos] == b1);
    let q = pos + 1;
    assert(s[q] == b2);
    assert(spec_read_u16(s, q + 1) == usd.destination.location);
    match usd.source {
        Source::Pointer(adr) => {
            assert(l == 6);
            assert(b2 & 1 == 0);
            lemma_be16_roundtrip(adr.location);
            assert(s[pos + 4] == enc[4]);
            assert(s[pos + 5] == enc[5]);
            assert(enc[4] == (adr.location >> 8) as u8);
            assert(enc[5] == (adr.location & 0xff) as u8);
            assert(spec_read_u16(s, q + 3) == adr.location);
            assert((b2 >> 2) & 3 == adr.depth);
        },
        Source::Value(v) => {
            let n = usd.unit.spec_num_bytes() as nat;
            assert(l == 4 + n);
            assert(b2 & 1 == 1);
            assert forall|k: int| 0 <= k < n implies s[q + 3 + k] == #[trigger] spec_value_bytes(
                v,
                n,
            )[k] by {
                assert(s[pos + (4 + k)] == enc[4 + k]);
                assert(enc[4 + k] == spec_value_bytes(v, n)[k]);
            }
            lemma_acc_value_bytes(s, q + 3, v, n);
        },
    }
}

/// Decoding at a position holding the encoding of a well-formed, encodable
/// instruction whose immediate fits its width yields that instruction back
/// and consumes exactly its encoding.
pub proof fn lemma_decode_encode(s: Seq<u8>, pos: int, i: Instruction)
    requires
        i.wf(),
        i.value_fits(),
        i.encodable(),
        0 <= pos,
        pos + spec_encode(i).len() <= s.len(),
        s.subrange(pos, pos + spec_encode(i).len() as int) == spec_encode(i),
    ensures
        spec_decode_at(s, pos) == (DecodeStep::Ins {
            ins: i,
            next: pos + spec_encode(i).len(),
        }),
{
    match i {
        Instruction::Mov(usd) => lemma_decode_encode_mov_family(s, pos, 0, usd),
        Instruction::Add(usd) => lemma_decode_encode_mov_family(s, pos, 1, usd),
        Instruction::Sub(usd) => lemma_decode_encode_mov_family(s, pos, 2, usd),
        Instruction::Mul(usd) => lemma_decode_encode_mov_family(s, pos, 3, usd),
        Instruction::Div(usd) => lemma_decode_encode_mov_family(s, pos, 4, usd),
        Instruction::Cmp(usd) => lemma_decode_encode_cmp(s, pos, usd),
        Instruction::Jg(adr) => lemma_decode_encode_jump(s, pos, 0, adr),
        Instruction::Je(adr) => lemma_decode_encode_jump(s, pos, 1, adr),
        Instruction::Jl(adr) => lemma_decode_encode_jump(s, pos, 2, adr),
        Instruction::Jmp(adr) => lemma_decode_encode_jump(s, pos, 3, adr),
        Instruction::And(usd) => lemma_decode_encode_bit_family(s, pos, 0, usd),
        Instruction::Or(usd) => lemma_decode_encode_bit_family(s, pos, 1, usd),
        Instruction::Xor(usd) => lemma_decode_encode_bit_family(s, pos, 2, usd),
        Instruction::Not(usd) => lemma_decode_encode_bit_family(s, pos, 3, usd),
        Instruction::Shl(usd) => lemma_decode_encode_bit_family(s, pos, 4, usd),
        Instruction::Shr(usd) => lemma_decode_encode_bit_family(s, pos, 5, usd),
        Instruction::Int(_) => assert(false),
        Instruction::Iret => assert(false),
    }
}

/// The round-trip law for one instruction: decoding its encoding yields the
/// instruction itself and consumes the whole buffer.
pub proof fn lemma_round_trip(i: Instruction)
    requires
        i.wf(),
        i.value_fits(),
        i.encodable(),
    ensures
        spec_decode_at(spec_encode(i), 0) == (DecodeStep::Ins {
            ins: i,
            next: spec_encode(i).len() as int,
        }),
{
    let s = spec_encode(i);
    assert(s.subrange(0, s.len() as int) =~= s);
    lemma_decode_encode(s, 0, i);
}

proof fn lemma_decode_stream_encode_seq(s: Seq<u8>, pos: int, instrs: Seq<Instruction>)
    requires
        0 <= pos <= s.len(),
        s.subrange(pos, s.len() as int) == spec_encode_seq(instrs),
        forall|k: int|
            0 <= k < instrs.len() ==> {
                &&& (#[trigger] instrs[k]).wf()
                &&& instrs[k].value_fits()
                &&& instrs[k].encodable()
            },
    ensures
        spec_decode_stream(s, pos) == instrs.map_values(
            |i: Instruction| Ok::<Instruction, DisassembleError>(i),
        ),
    decreases instrs.len(),
{
    let f = |i: Instruction| Ok::<Instruction, DisassembleError>(i);
    if instrs.len() == 0 {
        assert(s.subrange(pos, s.len() as int).len() == 0);
        assert(pos == s.len());
        assert(spec_decode_stream(s, pos) =~= instrs.map_values(f));
    } else {
        let i0 = instrs[0];
        let e0 = spec_encode(i0);
        let rest = instrs.drop_first();
        let tail = spec_encode_seq(rest);
        assert(spec_encode_seq(instrs) == e0 + tail);
        assert(s.len() - pos == e0.len() + tail.len());
        let next = pos + e0.len() as int;
        assert(s.subrange(pos, next) =~= e0) by {
            assert forall|k: int| 0 <= k < e0.len() implies s.subrange(pos, next)[k] == e0[k] by {
                assert(s.subrange(pos, s.len() as int)[k] == (e0 + tail)[k]);
            }
        }
        lemma_decode_encode(s, pos, i0);
        assert(s.subrange(next, s.len() as int) =~= tail) by {
            assert forall|k: int| 0 <= k < tail.len() implies s.subrange(next, s.len() as int)[k]
                == tail[k] by {
                assert(s.subrange(pos, s.len() as int)[e0.len() + k] == (e0 + tail)[e0.len() + k]);
            }
        }
        assert(forall|k: int|
            0 <= k < rest.len() ==> {
                &&& (#[trigger] rest[k]).wf()
                &&& rest[k].value_fits()
                &&& rest[k].encodable()
            });
        lemma_decode_stream_encode_seq(s, next, rest);
        assert(spec_decode_stream(s, pos) =~= instrs.map_values(f)) by {
            assert(spec_decode_stream(s, pos) == seq![Ok::<Instruction, DisassembleError>(i0)]
                + spec_decode_stream(s, next));
        }
    }
}

/// The round-trip law for a program: decoding the full encoded buffer of a
/// sequence of well-formed, encodable instructions yields exactly the
/// original sequence, in order, with every element successful.
pub proof fn lemma_round_trip_seq(instrs: Seq<Instruction>)
    requires
        forall|k: int|
            0 <= k < instrs.len() ==> {
                &&& (#[trigger] instrs[k]).wf()
                &&& instrs[k].value_fits()
                &&& instrs[k].encodable()
            },
    ensures
        spec_decode_stream(spec_encode_seq(instrs), 0) == instrs.map_values(
            |i: Instruction| Ok::<Instruction, DisassembleError>(i),
        ),
{
    let s = spec_encode_seq(instrs);
    assert(s.subrange(0, s.len() as int) =~= s);
    lemma_decode_stream_encode_seq(s, 0, instrs);
}

// ---------------------------------------------------------------------------
// The assembly map: byte offsets of the encoded instructions
// ---------------------------------------------------------------------------

/// The byte offset at which instruction `j` of the sequence starts: the
/// total length of the encodings before it.
pub open spec fn spec_offset(s: Seq<Instruction>, j: int) -> nat {
    spec_encode_seq(s.take(j)).len()
}

/// One more instruction in the prefix appends exactly its encoding.
pub proof fn lemma_encode_seq_take_succ(s: Seq<Instruction>, j: int)
    requires
        0 <= j < s.len(),
    ensures
        spec_encode_seq(s.take(j + 1)) == spec_encode_seq(s.take(j)) + spec_encode(s[j]),
    decreases j,
{
    let a = s.take(j + 1);
    if j == 0 {
        assert(a.drop_first() =~= s.take(0));
        assert(spec_encode_seq(a) == spec_encode(s[0]) + spec_encode_seq(s.take(0)));
        assert(spec_encode_seq(a) =~= spec_encode_seq(s.take(j)) + spec_encode(s[j]));
    } else {
        let t = s.drop_first();
        assert(a.drop_first() =~= t.take(j));
        assert(s.take(j).drop_first() =~= t.take(j - 1));
        assert(t[j - 1] == s[j]);
        lemma_encode_seq_take_succ(t, j - 1);
        assert(spec_encode_seq(a) == spec_encode(s[0]) + spec_encode_seq(t.take(j)));
        assert(spec_encode_seq(s.take(j)) == spec_encode(s[0]) + spec_encode_seq(t.take(j - 1)));
        assert((spec_encode(s[0]) + (spec_encode_seq(t.take(j - 1)) + spec_encode(s[j]))) =~= ((
        spec_encode(s[0]) + spec_encode_seq(t.take(j - 1))) + spec_encode(s[j])));
        assert(spec_encode_seq(a) =~= spec_encode_seq(s.take(j)) + spec_encode(s[j]));
    }
}

proof fn lemma_offset_monotone(s: Seq<Instruction>, i: int, j: int)
    requires
        0 <= i <= j <= s.len(),
    ensures
        spec_offset(s, i) <= spec_offset(s, j),
    decreases j - i,
{
    if i < j {
        lemma_encode_seq_take_succ(s, j - 1);
        lemma_offset_monotone(s, i, j - 1);
    }
}

/// The assembly-map law: the byte ranges of an encoded sequence start at
/// zero, abut exactly (each range ends where the next begins, so they leave
/// no gaps and never overlap), appear in input order, and together cover
/// the whole encoded buffer.
pub proof fn lemma_map_contiguity(s: Seq<Instruction>)
    ensures
        spec_offset(s, 0) == 0,
        forall|j: int|
            0 <= j < s.len() ==> #[trigger] spec_offset(s, j + 1) == spec_offset(s, j)
                + spec_encode(s[j]).len(),
        forall|i: int, j: int| 0 <= i <= j <= s.len() ==> spec_offset(s, i) <= spec_offset(s, j),
        spec_offset(s, s.len() as int) == spec_encode_seq(s).len(),
{
    assert(s.take(0) =~= Seq::<Instruction>::empty());
    assert forall|j: int| 0 <= j < s.len() implies #[trigger] spec_offset(s, j + 1) == spec_offset(
        s,
        j,
    ) + spec_encode(s[j]).len() by {
        lemma_encode_seq_take_succ(s, j);
    }
    assert forall|i: int, j: int| 0 <= i <= j <= s.len() implies spec_offset(s, i) <= spec_offset(
        s,
        j,
    ) by {
        lemma_offset_monotone(s, i, j);
    }
    assert(s.take(s.len() as int) =~= s);
}

// ---------------------------------------------------------------------------
// Width truncation and decoded well-formedness
// ---------------------------------------------------------------------------

/// Encoding an immediate writes exactly its operation width in bytes, keeps
/// only the low bits that fit that width, and lays them out big-endian.
pub proof fn lemma_width_truncation(v: u32)
    ensures
        spec_value_bytes(v, 1) == seq![(v & 0xff) as u8],
        spec_value_bytes(v, 2) == seq![((v >> 8) & 0xff) as u8, (v & 0xff) as u8],
        spec_value_bytes(v, 4) == seq![
            ((v >> 24) & 0xff) as u8,
            ((v >> 16) & 0xff) as u8,
            ((v >> 8) & 0xff) as u8,
            (v & 0xff) as u8,
        ],
        spec_value_bytes(v, 1) == spec_value_bytes(v & 0xff, 1),
        spec_value_bytes(v, 2) == spec_value_bytes(v & 0xffff, 2),
{
    assert(v >> 0 == v) by (bit_vector);
    assert(spec_value_bytes(v, 1) =~= seq![(v & 0xff) as u8]);
    assert(spec_value_bytes(v, 2) =~= seq![((v >> 8) & 0xff) as u8, (v & 0xff) as u8]);
    assert(spec_value_bytes(v, 4) =~= seq![
        ((v >> 24) & 0xff) as u8,
        ((v >> 16) & 0xff) as u8,
        ((v >> 8) & 0xff) as u8,
        (v & 0xff) as u8,
    ]);
    assert((v & 0xff) & 0xff == v & 0xff) by (bit_vector);
    assert((v & 0xff) >> 0 == v & 0xff) by (bit_vector);
    assert((v & 0xffff) & 0xff == v & 0xff) by (bit_vector);
    assert((v & 0xffff) >> 0 == v & 0xffff) by (bit_vector);
    assert(((v & 0xffff) >> 8) & 0xff == (v >> 8) & 0xff) by (bit_vector);
    assert(spec_value_bytes(v & 0xff, 1) =~= seq![(v & 0xff) as u8]);
    assert(spec_value_bytes(v & 0xffff, 2) =~= seq![((v >> 8) & 0xff) as u8, (v & 0xff) as u8]);
}

/// Whatever the bytes, a successfully decoded instruction satisfies the
/// data-model invariant: its indirection depths are at most 3 (the fields
/// are two bits wide), its immediate fits its width, and it belongs to an
/// encodable family.
pub proof fn lemma_decode_wf(s: Seq<u8>, pos: int)
    ensures
        match spec_decode_at(s, pos) {
            DecodeStep::Ins { ins, next } => ins.wf() && ins.value_fits() && ins.encodable(),
            _ => true,
        },
{
    if 0 <= pos < s.len() {
        let b1 = s[pos];
        let q = pos + 1;
        lemma_mask_bounds(b1);
        if q <= s.len() - 1 {
            lemma_mask_bounds(s[q]);
        }
        if b1 >> 4 == 0 || b1 >> 4 == 1 {
            match Unit::spec_from_id((b1 >> 2) & 3) {
                Some(unit) => {
                    let n = unit.spec_num_bytes() as nat;
                    if q + 3 + n <= s.len() {
                        lemma_acc_value_bound(s, q + 3, n);
                    }
                },
                None => {},
            }
        } else if b1 >> 4 == 4 {
            if q + 1 <= s.len() {
                let b2 = s[q];
                match Unit::spec_from_id(b2 >> 6) {
                    Some(unit) => {
                        let n = unit.spec_num_bytes() as nat;
                        if q + 3 + n <= s.len() {
                            lemma_acc_value_bound(s, q + 3, n);
                        }
                    },
                    None => {},
                }
            }
        }
    }
}

} // verus!
