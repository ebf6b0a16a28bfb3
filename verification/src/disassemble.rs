//! The decoder: bytes back to [`Instruction`] values.

use vstd::prelude::*;

use crate::wire::{
    lemma_decode_step_bounds, spec_acc_value, spec_decode_at, spec_decode_bit_family,
    spec_decode_body, spec_decode_cmp, spec_decode_jump, spec_decode_mov_family,
    spec_decode_stream, spec_read_u16, DecodeStep,
};
use crate::{Address, Instruction, Source, Unit, Usd};

verus! {

/// Why decoding one instruction failed.
///
/// `NotEnoughData` means the byte source was exhausted before a required
/// field could be read; this ends the whole decode sequence, since resuming
/// mid-instruction is meaningless.  `InvalidInstruction` means the bytes
/// read are not one of the defined encodings; this is recoverable, and
/// decoding continues at the following byte position.
#[derive(Debug, PartialEq, Eq, Structural)]
pub enum DisassembleError {
    NotEnoughData,
    InvalidInstruction,
}

fn read_byte(bytes: &Vec<u8>, pos: &mut usize) -> (r: Result<u8, DisassembleError>)
    requires
        *old(pos) <= bytes@.len(),
    ensures
        *old(pos) < bytes@.len() ==> r == Ok::<u8, DisassembleError>(bytes@[*old(pos) as int])
            && *final(pos) == *old(pos) + 1,
        *old(pos) == bytes@.len() ==> r == Err::<u8, DisassembleError>(
            DisassembleError::NotEnoughData,
        ) && *final(pos) == *old(pos),
{
    if *pos < bytes.len() {
        let b = bytes[*pos];
        *pos = *pos + 1;
        Ok(b)
    } else {
        Err(DisassembleError::NotEnoughData)
    }
}

fn read_short(bytes: &Vec<u8>, pos: &mut usize) -> (r: Result<u16, DisassembleError>)
    requires
        *old(pos) <= bytes@.len(),
    ensures
        *old(pos) + 2 <= bytes@.len() ==> r == Ok::<u16, DisassembleError>(
            spec_read_u16(bytes@, *old(pos) as int),
        ) && *final(pos) == *old(pos) + 2,
        *old(pos) + 2 > bytes@.len() ==> r == Err::<u16, DisassembleError>(
            DisassembleError::NotEnoughData,
        ) && *final(pos) == bytes@.len(),
{
    if bytes.len() - *pos >= 2 {
        let hi = bytes[*pos];
        let lo = bytes[*pos + 1];
        *pos = *pos + 2;
        Ok(((hi as u16) << 8) | (lo as u16))
    } else {
        *pos = bytes.len();
        Err(DisassembleError::NotEnoughData)
    }
}

fn read_value(bytes: &Vec<u8>, pos: &mut usize, n: u8) -> (r: Result<u32, DisassembleError>)
    requires
        *old(pos) <= bytes@.len(),
    ensures
        *old(pos) + n <= bytes@.len() ==> r == Ok::<u32, DisassembleError>(
            spec_acc_value(bytes@, *old(pos) as int, *old(pos) + n as int, 0),
        ) && *final(pos) == *old(pos) + n,
        *old(pos) + n > bytes@.len() ==> r == Err::<u32, DisassembleError>(
            DisassembleError::NotEnoughData,
        ) && *final(pos) == bytes@.len(),
{
    if bytes.len() - *pos >= n as usize {
        let ghost start = *pos as int;
        let end: usize = *pos + n as usize;
        let mut val: u32 = 0;
        while *pos < end
            invariant
                start == *old(pos),
                start <= *pos <= end,
                end == start + n,
                end <= bytes@.len(),
                spec_acc_value(bytes@, start, end as int, 0) == spec_acc_value(
                    bytes@,
                    *pos as int,
                    end as int,
                    val,
                ),
            decreases end - *pos,
        {
            val = (val << 8) | (bytes[*pos] as u32);
            *pos = *pos + 1;
        }
        Ok(val)
    } else {
        *pos = bytes.len();
        Err(DisassembleError::NotEnoughData)
    }
}

/// Decodes the tail of a family-`0000` instruction, `b1` being its first
/// byte and the cursor standing just after it.
pub fn mov_add_sub_mul_div(b1: u8, bytes: &Vec<u8>, pos: &mut usize) -> (r: Result<
    Instruction,
    DisassembleError,
>)
    requires
        *old(pos) <= bytes@.len(),
    ensures
        match spec_decode_mov_family(bytes@, b1, *old(pos) as int) {
            DecodeStep::Ins { ins, next } => r == Ok::<Instruction, DisassembleError>(ins)
                && *final(pos) == next,
            DecodeStep::Invalid { next } => r == Err::<Instruction, DisassembleError>(
                DisassembleError::InvalidInstruction,
            ) && *final(pos) == next,
            DecodeStep::Short => r == Err::<Instruction, DisassembleError>(
                DisassembleError::NotEnoughData,
            ) && *final(pos) == bytes@.len(),
            DecodeStep::End => false,
        },
{
    let unit = match Unit::from_id((b1 >> 2) & 3) {
        Some(u) => u,
        None => {
            return Err(DisassembleError::InvalidInstruction);
        },
    };
    let b2 = match read_byte(bytes, pos) {
        Ok(b) => b,
        Err(e) => {
            return Err(e);
        },
    };
    let dest_loc = match read_short(bytes, pos) {
        Ok(x) => x,
        Err(e) => {
            return Err(e);
        },
    };
    let destination = Address { location: dest_loc, depth: (b2 >> 2) & 3 };
    let source = if b1 & 1 == 0 {
        let loc = match read_short(bytes, pos) {
            Ok(x) => x,
            Err(e) => {
                return Err(e);
            },
        };
        Source::Pointer(Address { location: loc, depth: b2 & 3 })
    } else {
        let v = match read_value(bytes, pos, unit.num_bytes()) {
            Ok(v) => v,
            Err(e) => {
                return Err(e);
            },
        };
        Source::Value(v)
    };
    let usd = Usd { unit, source, destination };
    let op = b2 >> 5;
    if op == 0 {
        Ok(Instruction::Mov(usd))
    } else if op == 1 {
        Ok(Instruction::Add(usd))
    } else if op == 2 {
        Ok(Instruction::Sub(usd))
    } else if op == 3 {
        Ok(Instruction::Mul(usd))
    } else if op == 4 {
        Ok(Instruction::Div(usd))
    } else {
        Err(DisassembleError::InvalidInstruction)
    }
}

/// Decodes the tail of the family-`0001` compare.
fn cmp(b1: u8, bytes: &Vec<u8>, pos: &mut usize) -> (r: Result<Instruction, DisassembleError>)
    requires
        *old(pos) <= bytes@.len(),
    ensures
        match spec_decode_cmp(bytes@, b1, *old(pos) as int) {
            DecodeStep::Ins { ins, next } => r == Ok::<Instruction, DisassembleError>(ins)
                && *final(pos) == next,
            DecodeStep::Invalid { next } => r == Err::<Instruction, DisassembleError>(
                DisassembleError::InvalidInstruction,
            ) && *final(pos) == next,
            DecodeStep::Short => r == Err::<Instruction, DisassembleError>(
                DisassembleError::NotEnoughData,
            ) && *final(pos) == bytes@.len(),
            DecodeStep::End => false,
        },
{
    let unit = match Unit::from_id((b1 >> 2) & 3) {
        Some(u) => u,
        None => {
            return Err(DisassembleError::InvalidInstruction);
        },
    };
    let b2 = match read_byte(bytes, pos) {
        Ok(b) => b,
        Err(e) => {
            return Err(e);
        },
    };
    let dest_loc = match read_short(bytes, pos) {
        Ok(x) => x,
        Err(e) => {
            return Err(e);
        },
    };
    let destination = Address { location: dest_loc, depth: b1 & 3 };
    let source = if b2 >> 7 == 0 {
        let loc = match read_short(bytes, pos) {
            Ok(x) => x,
            Err(e) => {
                return Err(e);
            },
        };
        Source::Pointer(Address { location: loc, depth: (b2 >> 5) & 3 })
    } else {
        let v = match read_value(bytes, pos, unit.num_bytes()) {
            Ok(v) => v,
            Err(e) => {
                return Err(e);
            },
        };
        Source::Value(v)
    };
    Ok(Instruction::Cmp(Usd { unit, source, destination }))
}

/// Decodes the tail of a family-`0010` jump.
fn jg_je_jl_jmp(b1: u8, bytes: &Vec<u8>, pos: &mut usize) -> (r: Result<
    Instruction,
    DisassembleError,
>)
    requires
        *old(pos) <= bytes@.len(),
    ensures
        match spec_decode_jump(bytes@, b1, *old(pos) as int) {
            DecodeStep::Ins { ins, next } => r == Ok::<Instruction, DisassembleError>(ins)
                && *final(pos) == next,
            DecodeStep::Invalid { next } => r == Err::<Instruction, DisassembleError>(
                DisassembleError::InvalidInstruction,
            ) && *final(pos) == next,
            DecodeStep::Short => r == Err::<Instruction, DisassembleError>(
                DisassembleError::NotEnoughData,
            ) && *final(pos) == bytes@.len(),
            DecodeStep::End => false,
        },
{
    let loc = match read_short(bytes, pos) {
        Ok(x) => x,
        Err(e) => {
            return Err(e);
        },
    };
    let address = Address { location: loc, depth: b1 & 3 };
    let op = (b1 >> 2) & 3;
    if op == 0 {
        Ok(Instruction::Jg(address))
    } else if op == 1 {
        Ok(Instruction::Je(address))
    } else if op == 2 {
        Ok(Instruction::Jl(address))
    } else {
        Ok(Instruction::Jmp(address))
    }
}

/// Decodes the tail of a family-`0100` instruction.
fn and_or_xor_not_shl_shr(b1: u8, bytes: &Vec<u8>, pos: &mut usize) -> (r: Result<
    Instruction,
    DisassembleError,
>)
    requires
        *old(pos) <= bytes@.len(),
    ensures
        match spec_decode_bit_family(bytes@, b1, *old(pos) as int) {
            DecodeStep::Ins { ins, next } => r == Ok::<Instruction, DisassembleError>(ins)
                && *final(pos) == next,
            DecodeStep::Invalid { next } => r == Err::<Instruction, DisassembleError>(
                DisassembleError::InvalidInstruction,
            ) && *final(pos) == next,
            DecodeStep::Short => r == Err::<Instruction, DisassembleError>(
                DisassembleError::NotEnoughData,
            ) && *final(pos) == bytes@.len(),
            DecodeStep::End => false,
        },
{
    let b2 = match read_byte(bytes, pos) {
        Ok(b) => b,
        Err(e) => {
            return Err(e);
        },
    };
    let unit = match Unit::from_id(b2 >> 6) {
        Some(u) => u,
        None => {
            return Err(DisassembleError::InvalidInstruction);
        },
    };
    let dest_loc = match read_short(bytes, pos) {
        Ok(x) => x,
        Err(e) => {
            return Err(e);
        },
    };
    let destination = Address { location: dest_loc, depth: (b2 >> 4) & 3 };
    let source = if b2 & 1 == 0 {
        let loc = match read_short(bytes, pos) {
            Ok(x) => x,
            Err(e) => {
                return Err(e);
            },
        };
        Source::Pointer(Address { location: loc, depth: (b2 >> 2) & 3 })
    } else {
        let v = match read_value(bytes, pos, unit.num_bytes()) {
            Ok(v) => v,
            Err(e) => {
                return Err(e);
            },
        };
        Source::Value(v)
    };
    let usd = Usd { unit, source, destination };
    let op = b1 & 7;
    if op == 0 {
        Ok(Instruction::And(usd))
    } else if op == 1 {
        Ok(Instruction::Or(usd))
    } else if op == 2 {
        Ok(Instruction::Xor(usd))
    } else if op == 3 {
        Ok(Instruction::Not(usd))
    } else if op == 4 {
        Ok(Instruction::Shl(usd))
    } else if op == 5 {
        Ok(Instruction::Shr(usd))
    } else {
        Err(DisassembleError::InvalidInstruction)
    }
}

impl Instruction {
    /// Decodes one instruction whose first byte `b1` has already been read;
    /// the cursor stands just after it.  The top nibble of `b1` selects the
    /// opcode family; the reserved interrupt family and the undefined family
    /// ids are invalid encodings.
    pub fn disassemble(b1: u8, bytes: &Vec<u8>, pos: &mut usize) -> (r: Result<
        Instruction,
        DisassembleError,
    >)
        requires
            *old(pos) <= bytes@.len(),
        ensures
            match spec_decode_body(bytes@, b1, *old(pos) as int) {
                DecodeStep::Ins { ins, next } => r == Ok::<Instruction, DisassembleError>(ins)
                    && *final(pos) == next,
                DecodeStep::Invalid { next } => r == Err::<Instruction, DisassembleError>(
                    DisassembleError::InvalidInstruction,
                ) && *final(pos) == next,
                DecodeStep::Short => r == Err::<Instruction, DisassembleError>(
                    DisassembleError::NotEnoughData,
                ) && *final(pos) == bytes@.len(),
                DecodeStep::End => false,
            },
    {
        let id = b1 >> 4;
        if id == 0 {
            mov_add_sub_mul_div(b1, bytes, pos)
        } else if id == 1 {
            cmp(b1, bytes, pos)
        } else if id == 2 {
            jg_je_jl_jmp(b1, bytes, pos)
        } else if id == 4 {
            and_or_xor_not_shl_shr(b1, bytes, pos)
        } else {
            Err(DisassembleError::InvalidInstruction)
        }
    }
}

/// A pull-based decoder over a byte buffer: each call to [`next`]
/// decodes one instruction starting at the current position.
///
/// A decoded instruction and an invalid encoding are both reported as
/// elements, and decoding continues behind them; running out of bytes
/// mid-instruction yields one final `NotEnoughData` element, after which
/// the sequence ends.
///
/// [`next`]: DisassembleIter::next
pub struct DisassembleIter {
    bytes: Vec<u8>,
    pos: usize,
}

impl DisassembleIter {
    /// The byte buffer being decoded.
    pub closed spec fn spec_bytes(self) -> Seq<u8> {
        self.bytes@
    }

    /// The current byte position.
    pub closed spec fn spec_pos(self) -> int {
        self.pos as int
    }

    pub open spec fn wf(self) -> bool {
        0 <= self.spec_pos() <= self.spec_bytes().len()
    }

    /// The elements this iterator will still produce, in order.
    pub open spec fn remaining(self) -> Seq<Result<Instruction, DisassembleError>> {
        spec_decode_stream(self.spec_bytes(), self.spec_pos())
    }

    /// Produces the next decoded-instruction-or-failure result, or `None`
    /// when no bytes remain.
    pub fn next(&mut self) -> (r: Option<Result<Instruction, DisassembleError>>)
        requires
            old(self).wf(),
        ensures
            final(self).wf(),
            final(self).spec_bytes() == old(self).spec_bytes(),
            old(self).remaining().len() == 0 ==> r is None && *final(self) == *old(self),
            old(self).remaining().len() > 0 ==> r == Some(old(self).remaining()[0])
                && final(self).remaining() == old(self).remaining().drop_first(),
    {
        proof {
            lemma_decode_step_bounds(self.bytes@, self.pos as int);
        }
        if self.pos < self.bytes.len() {
            let b1 = self.bytes[self.pos];
            self.pos = self.pos + 1;
            let res = Instruction::disassemble(b1, &self.bytes, &mut self.pos);
            proof {
                assert(spec_decode_at(old(self).bytes@, old(self).pos as int)
                    == spec_decode_body(old(self).bytes@, b1, old(self).pos + 1));
                assert(old(self).remaining() == spec_decode_stream(
                    old(self).bytes@,
                    old(self).pos as int,
                ));
            }
            Some(res)
        } else {
            None
        }
    }
}

/// Builds a decoder over the byte buffer, positioned at its start.
/// Decoding the encoded buffer of a well-formed program yields the program
/// back, element for element: [`crate::wire::lemma_round_trip_seq`].
pub fn disassemble(input: Vec<u8>) -> (r: DisassembleIter)
    ensures
        r.wf(),
        r.spec_bytes() == input@,
        r.spec_pos() == 0,
        r.remaining() == spec_decode_stream(input@, 0),
{
    DisassembleIter { bytes: input, pos: 0 }
}

} // verus!
