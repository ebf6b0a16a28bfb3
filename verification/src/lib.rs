//! A toolchain for a small custom instruction set.
//!
//! The crate has two independent, composable pipelines sharing one data
//! model: a tokenizer ([`assembler::lexer`]) that turns assembly source text
//! into a stream of positioned tokens or lexical errors, and a binary codec
//! (the [`Instruction::assemble`] encoder and the [`disassemble`] decoder)
//! that turns instruction values into a compact bit-packed byte encoding and
//! back.  The wire format is described in [`wire`], together with the proved
//! round-trip and assembly-map laws.

use vstd::prelude::*;

mod assemble;
mod disassemble;
mod format_asm;
pub mod assembler;
pub mod wire;

pub use assemble::AssembleError;
pub use disassemble::{disassemble, mov_add_sub_mul_div, DisassembleError, DisassembleIter};

use std::collections::HashMap;

verus! {

broadcast use vstd::std_specs::hash::group_hash_axioms;

/// Relies on `String::push`: it appends exactly the one character to the
/// end of the string.
#[verifier::external_body]
pub(crate) fn push_char(s: &mut String, c: char)
    ensures
        final(s)@ == old(s)@.push(c),
{
    s.push(c);
}

/// One instruction of the instruction set.
///
/// The operand shape is fixed by the variant: the arithmetic, logic and
/// compare instructions carry a [`Usd`] triple, the jumps carry a target
/// [`Address`], `Int` carries an interrupt number, and `Iret` carries
/// nothing.
#[derive(Debug, PartialEq, Eq, Structural)]
pub enum Instruction {
    Mov(Usd),
    Add(Usd),
    Sub(Usd),
    Mul(Usd),
    Div(Usd),
    Cmp(Usd),
    Jg(Address),
    Je(Address),
    Jl(Address),
    Jmp(Address),
    Int(u8),
    Iret,
    And(Usd),
    Or(Usd),
    Xor(Usd),
    Not(Usd),
    Shl(Usd),
    Shr(Usd),
}

/// The operand triple (unit, source, destination) of a two-operand
/// instruction.
#[derive(Debug, PartialEq, Eq, Structural)]
pub struct Usd {
    pub unit: Unit,
    pub source: Source,
    pub destination: Address,
}

/// The operation width: how many bytes an immediate occupies on the wire.
#[derive(Debug, PartialEq, Eq, Structural)]
pub enum Unit {
    Byte,
    Word,
    Dword,
}

/// A location in the flat 64 KiB address space, together with the number of
/// pointer dereferences (0 to 3) to apply before the final read or write.
#[derive(Debug, PartialEq, Eq, Structural)]
pub struct Address {
    pub location: u16,
    pub depth: u8,
}

/// The source operand: an immediate value or a pointer to an address.
#[derive(Debug, PartialEq, Eq, Structural)]
pub enum Source {
    Value(u32),
    Pointer(Address),
}

impl Unit {
    /// The two-bit width id as it appears inside instruction headers.
    pub open spec fn spec_id(self) -> u8 {
        match self {
            Unit::Byte => 0,
            Unit::Word => 1,
            Unit::Dword => 2,
        }
    }

    /// The number of bytes an immediate of this width occupies.
    pub open spec fn spec_num_bytes(self) -> u8 {
        match self {
            Unit::Byte => 1,
            Unit::Word => 2,
            Unit::Dword => 4,
        }
    }

    pub open spec fn spec_from_id(id: u8) -> Option<Unit> {
        if id == 0 {
            Some(Unit::Byte)
        } else if id == 1 {
            Some(Unit::Word)
        } else if id == 2 {
            Some(Unit::Dword)
        } else {
            None
        }
    }

    pub fn id(&self) -> (r: u8)
        ensures
            r == self.spec_id(),
    {
        match *self {
            Unit::Byte => 0,
            Unit::Word => 1,
            Unit::Dword => 2,
        }
    }

    pub fn num_bytes(&self) -> (r: u8)
        ensures
            r == self.spec_num_bytes(),
    {
        match *self {
            Unit::Byte => 1,
            Unit::Word => 2,
            Unit::Dword => 4,
        }
    }

    pub(crate) fn from_id(id: u8) -> (r: Option<Self>)
        ensures
            r == Self::spec_from_id(id),
    {
        match id {
            0 => Some(Unit::Byte),
            1 => Some(Unit::Word),
            2 => Some(Unit::Dword),
            _ => None,
        }
    }
}

impl Address {
    /// An address is well formed when its indirection count fits the two-bit
    /// wire field.
    pub open spec fn wf(self) -> bool {
        self.depth <= 3
    }

    /// Builds an address, rejecting an indirection count that the two-bit
    /// wire field cannot hold.
    pub fn new(location: u16, depth: u8) -> (r: Option<Address>)
        ensures
            depth <= 3 ==> r == Some(Address { location, depth }),
            depth > 3 ==> r is None,
    {
        if depth <= 3 {
            Some(Address { location, depth })
        } else {
            None
        }
    }
}

impl Source {
    /// The selector bit distinguishing an immediate (1) from a pointer (0).
    pub open spec fn spec_id(self) -> u8 {
        match self {
            Source::Value(_) => 1,
            Source::Pointer(_) => 0,
        }
    }

    pub open spec fn spec_depth(self) -> Option<u8> {
        match self {
            Source::Value(_) => None,
            Source::Pointer(adr) => Some(adr.depth),
        }
    }

    /// The indirection count written to the wire: a pointer's depth, or 0
    /// for an immediate.
    pub open spec fn spec_depth_or_zero(self) -> u8 {
        match self {
            Source::Value(_) => 0,
            Source::Pointer(adr) => adr.depth,
        }
    }

    pub open spec fn wf(self) -> bool {
        match self {
            Source::Value(_) => true,
            Source::Pointer(adr) => adr.wf(),
        }
    }

    pub fn id(&self) -> (r: u8)
        ensures
            r == self.spec_id(),
    {
        match *self {
            Source::Value(_) => 1,
            Source::Pointer(_) => 0,
        }
    }

    pub fn depth(&self) -> (r: Option<u8>)
        ensures
            r == self.spec_depth(),
    {
        if let Source::Pointer(adr) = self {
            Some(adr.depth)
        } else {
            None
        }
    }
}

impl Usd {
    pub open spec fn wf(self) -> bool {
        self.source.wf() && self.destination.wf()
    }

    /// The immediate, if any, fits in the operation width, so that encoding
    /// does not truncate it.
    pub open spec fn value_fits(self) -> bool {
        match self.source {
            Source::Value(v) => v < (1u64 << (8 * self.unit.spec_num_bytes() as u64)),
            Source::Pointer(_) => true,
        }
    }
}

impl Instruction {
    /// The operand triple of a two-operand instruction, if this is one.
    pub open spec fn spec_usd(self) -> Option<Usd> {
        match self {
            Instruction::Mov(usd) => Some(usd),
            Instruction::Add(usd) => Some(usd),
            Instruction::Sub(usd) => Some(usd),
            Instruction::Mul(usd) => Some(usd),
            Instruction::Div(usd) => Some(usd),
            Instruction::Cmp(usd) => Some(usd),
            Instruction::And(usd) => Some(usd),
            Instruction::Or(usd) => Some(usd),
            Instruction::Xor(usd) => Some(usd),
            Instruction::Not(usd) => Some(usd),
            Instruction::Shl(usd) => Some(usd),
            Instruction::Shr(usd) => Some(usd),
            _ => None,
        }
    }

    /// The jump target of a jump instruction, if this is one.
    pub open spec fn spec_address(self) -> Option<Address> {
        match self {
            Instruction::Jg(adr) => Some(adr),
            Instruction::Je(adr) => Some(adr),
            Instruction::Jl(adr) => Some(adr),
            Instruction::Jmp(adr) => Some(adr),
            _ => None,
        }
    }

    /// The data-model invariant: every indirection count fits the two-bit
    /// wire field.
    pub open spec fn wf(self) -> bool {
        match self {
            Instruction::Mov(usd) => usd.wf(),
            Instruction::Add(usd) => usd.wf(),
            Instruction::Sub(usd) => usd.wf(),
            Instruction::Mul(usd) => usd.wf(),
            Instruction::Div(usd) => usd.wf(),
            Instruction::Cmp(usd) => usd.wf(),
            Instruction::And(usd) => usd.wf(),
            Instruction::Or(usd) => usd.wf(),
            Instruction::Xor(usd) => usd.wf(),
            Instruction::Not(usd) => usd.wf(),
            Instruction::Shl(usd) => usd.wf(),
            Instruction::Shr(usd) => usd.wf(),
            Instruction::Jg(adr) => adr.wf(),
            Instruction::Je(adr) => adr.wf(),
            Instruction::Jl(adr) => adr.wf(),
            Instruction::Jmp(adr) => adr.wf(),
            Instruction::Int(_) => true,
            Instruction::Iret => true,
        }
    }

    /// Any immediate fits its operation width, so that encoding and then
    /// decoding reproduces it.
    pub open spec fn value_fits(self) -> bool {
        match self.spec_usd() {
            Some(usd) => usd.value_fits(),
            None => true,
        }
    }

    /// The wire format defines an encoding for every variant but the
    /// interrupt family, whose family id is reserved.
    pub open spec fn encodable(self) -> bool {
        !(self is Int || self is Iret)
    }

    /// The assembly-text mnemonic of this instruction.
    pub open spec fn spec_mnemonic(self) -> Seq<char> {
        match self {
            Instruction::Mov(_) => "mov"@,
            Instruction::Add(_) => "add"@,
            Instruction::Sub(_) => "sub"@,
            Instruction::Mul(_) => "mul"@,
            Instruction::Div(_) => "div"@,
            Instruction::Cmp(_) => "cmp"@,
            Instruction::Jg(_) => "jg"@,
            Instruction::Je(_) => "je"@,
            Instruction::Jl(_) => "jl"@,
            Instruction::Jmp(_) => "jmp"@,
            Instruction::Int(_) => "int"@,
            Instruction::Iret => "iret"@,
            Instruction::And(_) => "and"@,
            Instruction::Or(_) => "or"@,
            Instruction::Xor(_) => "xor"@,
            Instruction::Not(_) => "not"@,
            Instruction::Shl(_) => "shl"@,
            Instruction::Shr(_) => "shr"@,
        }
    }

    pub fn instr_str(&self) -> (r: &'static str)
        ensures
            r@ == self.spec_mnemonic(),
    {
        match self {
            Instruction::Mov(..) => "mov",
            Instruction::Add(..) => "add",
            Instruction::Sub(..) => "sub",
            Instruction::Mul(..) => "mul",
            Instruction::Div(..) => "div",
            Instruction::Cmp(..) => "cmp",
            Instruction::Jg(..) => "jg",
            Instruction::Je(..) => "je",
            Instruction::Jl(..) => "jl",
            Instruction::Jmp(..) => "jmp",
            Instruction::Int(..) => "int",
            Instruction::Iret => "iret",
            Instruction::And(..) => "and",
            Instruction::Or(..) => "or",
            Instruction::Xor(..) => "xor",
            Instruction::Not(..) => "not",
            Instruction::Shl(..) => "shl",
            Instruction::Shr(..) => "shr",
        }
    }

    pub fn usd(&self) -> (r: Option<&Usd>)
        ensures
            match r {
                Some(usd) => self.spec_usd() == Some(*usd),
                None => self.spec_usd() is None,
            },
    {
        match self {
            Instruction::Mov(usd)
            | Instruction::Add(usd)
            | Instruction::Sub(usd)
            | Instruction::Mul(usd)
            | Instruction::Div(usd)
            | Instruction::Cmp(usd)
            | Instruction::And(usd)
            | Instruction::Or(usd)
            | Instruction::Xor(usd)
            | Instruction::Not(usd)
            | Instruction::Shl(usd)
            | Instruction::Shr(usd) => Some(usd),
            _ => None,
        }
    }

    pub fn address(&self) -> (r: Option<&Address>)
        ensures
            match r {
                Some(adr) => self.spec_address() == Some(*adr),
                None => self.spec_address() is None,
            },
    {
        match self {
            Instruction::Jg(adr)
            | Instruction::Je(adr)
            | Instruction::Jl(adr)
            | Instruction::Jmp(adr) => Some(adr),
            _ => None,
        }
    }
}

/// Serializes an ordered sequence of instructions into one contiguous byte
/// buffer, together with the assembly map: for each instruction index, the
/// `[start, end)` byte range its encoding occupies in the buffer.
///
/// Either every instruction encodes, or the call fails on the first
/// unencodable one and no partial output is returned.  The map's ranges
/// abut in input order and cover the whole buffer:
/// [`wire::lemma_map_contiguity`].
pub fn assemble(instructions: &[Instruction]) -> (r: Result<
    (Vec<u8>, HashMap<usize, (usize, usize)>),
    AssembleError,
>)
    requires
        forall|k: int| 0 <= k < instructions@.len() ==> (#[trigger] instructions@[k]).wf(),
    ensures
        match r {
            Ok(p) => {
                &&& forall|k: int|
                    0 <= k < instructions@.len() ==> (#[trigger] instructions@[k]).encodable()
                &&& p.0@ == wire::spec_encode_seq(instructions@)
                &&& forall|j: usize| p.1@.contains_key(j) <==> (j as int) < instructions@.len()
                &&& forall|j: int|
                    0 <= j < instructions@.len() ==> {
                        &&& (#[trigger] p.1@[j as usize]).0 == wire::spec_offset(instructions@, j)
                        &&& p.1@[j as usize].1 == wire::spec_offset(instructions@, j + 1)
                    }
            },
            Err(e) => {
                &&& e == AssembleError::UnsupportedInstruction
                &&& exists|k: int|
                    0 <= k < instructions@.len() && !(#[trigger] instructions@[k]).encodable()
            },
        },
{
    let mut binary: Vec<u8> = Vec::new();
    let mut map: HashMap<usize, (usize, usize)> = HashMap::new();
    let n: usize = instructions.len();
    let mut i: usize = 0;
    proof {
        assert(instructions@.take(0) =~= Seq::<Instruction>::empty());
    }
    while i < n
        invariant
            n == instructions@.len(),
            i <= n,
            forall|k: int| 0 <= k < n ==> (#[trigger] instructions@[k]).wf(),
            forall|k: int| 0 <= k < i ==> (#[trigger] instructions@[k]).encodable(),
            binary@ == wire::spec_encode_seq(instructions@.take(i as int)),
            forall|j: usize| map@.contains_key(j) <==> (j as int) < i as int,
            forall|j: int|
                0 <= j < i ==> {
                    &&& (#[trigger] map@[j as usize]).0 == wire::spec_offset(instructions@, j)
                    &&& map@[j as usize].1 == wire::spec_offset(instructions@, j + 1)
                },
        decreases n - i,
    {
        let start = binary.len();
        let ins = &instructions[i];
        match ins.assemble(&mut binary) {
            Ok(_) => {},
            Err(e) => {
                proof {
                    assert(!instructions@[i as int].encodable());
                }
                return Err(e);
            },
        }
        let end = binary.len();
        map.insert(i, (start, end));
        proof {
            wire::lemma_encode_seq_take_succ(instructions@, i as int);
        }
        i = i + 1;
    }
    proof {
        assert(instructions@.take(n as int) =~= instructions@);
    }
    Ok((binary, map))
}

} // verus!
