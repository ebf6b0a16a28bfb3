//! The encoder: [`Instruction`] values to bytes.

use vstd::prelude::*;

use crate::wire::{
    spec_be16, spec_encode, spec_encode_bit_family, spec_encode_cmp, spec_encode_jump,
    spec_encode_mov_family, spec_src_bytes, spec_value_bytes,
};
use crate::{Address, Instruction, Usd};

verus! {

/// Why encoding failed.
///
/// The interrupt family (`Int`, `Iret`) has a reserved family id but no
/// defined encoding, so the encoder rejects those variants instead of
/// inventing bytes for them.
#[derive(Debug, PartialEq, Eq, Structural)]
pub enum AssembleError {
    UnsupportedInstruction,
}

/// Appends the 16-bit value big-endian.
fn push_short(out: &mut Vec<u8>, short: u16)
    ensures
        final(out)@ == old(out)@ + spec_be16(short),
{
    let hi: u8 = #[verifier::truncate] ((short >> 8) as u8);
    let lo: u8 = #[verifier::truncate] ((short & 0xff) as u8);
    out.push(hi);
    out.push(lo);
    proof {
        assert(out@ =~= old(out)@ + spec_be16(short));
    }
}

/// Appends the low `n` bytes of `val`, big-endian.
fn push_value(out: &mut Vec<u8>, val: u32, n: u8)
    requires
        n == 1 || n == 2 || n == 4,
    ensures
        final(out)@ == old(out)@ + spec_value_bytes(val, n as nat),
{
    proof {
        assert(out@ =~= old(out)@ + spec_value_bytes(val, n as nat).take(0));
    }
    let mut i: u8 = n;
    while i > 0
        invariant
            i <= n,
            n == 1 || n == 2 || n == 4,
            out@ == old(out)@ + spec_value_bytes(val, n as nat).take(n - i),
        decreases i,
    {
        i = i - 1;
        let b: u8 = #[verifier::truncate] (((val >> (8 * (i as u32))) & 0xff) as u8);
        out.push(b);
        proof {
            let vb = spec_value_bytes(val, n as nat);
            assert(vb[n - 1 - i] == b);
            assert(vb.take(n - i) =~= vb.take(n - i - 1).push(b));
            assert(out@ =~= old(out)@ + vb.take(n - i));
        }
    }
    proof {
        assert(spec_value_bytes(val, n as nat).take(n as int) =~= spec_value_bytes(
            val,
            n as nat,
        ));
    }
}

/// Appends the source operand's trailing bytes: a pointer's location or the
/// immediate in the operation width.
fn push_src(out: &mut Vec<u8>, usd: &Usd)
    ensures
        final(out)@ == old(out)@ + spec_src_bytes(*usd),
{
    match &usd.source {
        crate::Source::Pointer(adr) => push_short(out, adr.location),
        crate::Source::Value(v) => push_value(out, *v, usd.unit.num_bytes()),
    }
}

/// Encodes one family-`0000` instruction (`id` 0-4: Mov, Add, Sub, Mul,
/// Div).
fn mov_add_sub_mul_div(out: &mut Vec<u8>, id: u8, usd: &Usd)
    requires
        id <= 4,
        usd.wf(),
    ensures
        final(out)@ == old(out)@ + spec_encode_mov_family(id, *usd),
{
    let b1: u8 = (usd.unit.id() << 2) | usd.source.id();
    let b2: u8 = (id << 5) | (usd.destination.depth << 2) | usd.source.depth().unwrap_or(0);
    out.push(b1);
    out.push(b2);
    push_short(out, usd.destination.location);
    push_src(out, usd);
    proof {
        assert(out@ =~= old(out)@ + spec_encode_mov_family(id, *usd));
    }
}

/// Encodes one family-`0010` jump (`id` 0-3: Jg, Je, Jl, Jmp).
fn jump(out: &mut Vec<u8>, id: u8, adr: &Address)
    requires
        id <= 3,
        adr.wf(),
    ensures
        final(out)@ == old(out)@ + spec_encode_jump(id, *adr),
{
    out.push(0x20 | (id << 2) | adr.depth);
    push_short(out, adr.location);
    proof {
        assert(out@ =~= old(out)@ + spec_encode_jump(id, *adr));
    }
}

/// Encodes the family-`0001` compare.
fn cmp(out: &mut Vec<u8>, usd: &Usd)
    requires
        usd.wf(),
    ensures
        final(out)@ == old(out)@ + spec_encode_cmp(*usd),
{
    let b1: u8 = 0x10 | (usd.unit.id() << 2) | usd.destination.depth;
    let b2: u8 = (usd.source.id() << 7) | (usd.source.depth().unwrap_or(0) << 5);
    out.push(b1);
    out.push(b2);
    push_short(out, usd.destination.location);
    push_src(out, usd);
    proof {
        assert(out@ =~= old(out)@ + spec_encode_cmp(*usd));
    }
}

/// Encodes one family-`0100` instruction (`id` 0-5: And, Or, Xor, Not, Shl,
/// Shr).
fn and_or_xor_not_shl_shr(out: &mut Vec<u8>, id: u8, usd: &Usd)
    requires
        id <= 5,
        usd.wf(),
    ensures
        final(out)@ == old(out)@ + spec_encode_bit_family(id, *usd),
{
    let b1: u8 = 0x40 | id;
    let b2: u8 = (usd.unit.id() << 6) | (usd.destination.depth << 4) | (usd.source.depth()
        .unwrap_or(0) << 2) | usd.source.id();
    out.push(b1);
    out.push(b2);
    push_short(out, usd.destination.location);
    push_src(out, usd);
    proof {
        assert(out@ =~= old(out)@ + spec_encode_bit_family(id, *usd));
    }
}

impl Instruction {
    /// Appends this instruction's encoding to `out`.
    ///
    /// Exactly the encodable instructions succeed; the interrupt family is
    /// rejected without touching `out`.
    pub fn assemble(&self, out: &mut Vec<u8>) -> (r: Result<(), AssembleError>)
        requires
            self.wf(),
        ensures
            self.encodable() ==> r == Ok::<(), AssembleError>(()) && final(out)@ == old(out)@
                + spec_encode(*self),
            !self.encodable() ==> r == Err::<(), AssembleError>(
                AssembleError::UnsupportedInstruction,
            ) && final(out)@ == old(out)@,
    {
        match self {
            Instruction::Mov(usd) => {
                mov_add_sub_mul_div(out, 0, usd);
                Ok(())
            },
            Instruction::Add(usd) => {
                mov_add_sub_mul_div(out, 1, usd);
                Ok(())
            },
            Instruction::Sub(usd) => {
                mov_add_sub_mul_div(out, 2, usd);
                Ok(())
            },
            Instruction::Mul(usd) => {
                mov_add_sub_mul_div(out, 3, usd);
                Ok(())
            },
            Instruction::Div(usd) => {
                mov_add_sub_mul_div(out, 4, usd);
                Ok(())
            },
            Instruction::Cmp(usd) => {
                cmp(out, usd);
                Ok(())
            },
            Instruction::Jg(adr) => {
                jump(out, 0, adr);
                Ok(())
            },
            Instruction::Je(adr) => {
                jump(out, 1, adr);
                Ok(())
            },
            Instruction::Jl(adr) => {
                jump(out, 2, adr);
                Ok(())
            },
            Instruction::Jmp(adr) => {
                jump(out, 3, adr);
                Ok(())
            },
            Instruction::And(usd) => {
                and_or_xor_not_shl_shr(out, 0, usd);
                Ok(())
            },
            Instruction::Or(usd) => {
                and_or_xor_not_shl_shr(out, 1, usd);
                Ok(())
            },
            Instruction::Xor(usd) => {
                and_or_xor_not_shl_shr(out, 2, usd);
                Ok(())
            },
            Instruction::Not(usd) => {
                and_or_xor_not_shl_shr(out, 3, usd);
                Ok(())
            },
            Instruction::Shl(usd) => {
                and_or_xor_not_shl_shr(out, 4, usd);
                Ok(())
            },
            Instruction::Shr(usd) => {
                and_or_xor_not_shl_shr(out, 5, usd);
                Ok(())
            },
            Instruction::Int(_) => Err(AssembleError::UnsupportedInstruction),
            Instruction::Iret => Err(AssembleError::UnsupportedInstruction),
        }
    }
}

} // verus!
