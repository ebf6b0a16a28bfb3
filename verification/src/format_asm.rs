//! The text formatter: renders an [`Instruction`] back to human-readable
//! assembly syntax.  A thin component over the data model alone; the codec
//! never calls it.

use vstd::prelude::*;
use vstd::string::StringExecFns;

use crate::{push_char, Instruction, Source, Unit};

verus! {

/// One uppercase hexadecimal digit.
pub open spec fn spec_hex_digit(d: u32) -> char {
    if d == 0 {
        '0'
    } else if d == 1 {
        '1'
    } else if d == 2 {
        '2'
    } else if d == 3 {
        '3'
    } else if d == 4 {
        '4'
    } else if d == 5 {
        '5'
    } else if d == 6 {
        '6'
    } else if d == 7 {
        '7'
    } else if d == 8 {
        '8'
    } else if d == 9 {
        '9'
    } else if d == 10 {
        'A'
    } else if d == 11 {
        'B'
    } else if d == 12 {
        'C'
    } else if d == 13 {
        'D'
    } else if d == 14 {
        'E'
    } else {
        'F'
    }
}

/// The uppercase hexadecimal digits of `v`, most significant first, with no
/// leading zeroes; zero renders as a single `0`.
pub open spec fn spec_hex(v: u32) -> Seq<char>
    decreases v,
{
    if v < 16 {
        seq![spec_hex_digit(v)]
    } else {
        spec_hex(v / 16).push(spec_hex_digit(v % 16))
    }
}

/// `depth` copies of the `@` indirection marker.
pub open spec fn spec_indirection(depth: nat) -> Seq<char> {
    Seq::new(depth, |i: int| '@')
}

/// The uppercase assembly mnemonic.
pub open spec fn spec_mnemonic_upper(i: Instruction) -> Seq<char> {
    match i {
        Instruction::Mov(_) => "MOV"@,
        Instruction::Add(_) => "ADD"@,
        Instruction::Sub(_) => "SUB"@,
        Instruction::Mul(_) => "MUL"@,
        Instruction::Div(_) => "DIV"@,
        Instruction::Cmp(_) => "CMP"@,
        Instruction::Jg(_) => "JG"@,
        Instruction::Je(_) => "JE"@,
        Instruction::Jl(_) => "JL"@,
        Instruction::Jmp(_) => "JMP"@,
        Instruction::Int(_) => "INT"@,
        Instruction::Iret => "IRET"@,
        Instruction::And(_) => "AND"@,
        Instruction::Or(_) => "OR"@,
        Instruction::Xor(_) => "XOR"@,
        Instruction::Not(_) => "NOT"@,
        Instruction::Shl(_) => "SHL"@,
        Instruction::Shr(_) => "SHR"@,
    }
}

/// The lowercase unit keyword.
pub open spec fn spec_unit_chars(u: Unit) -> Seq<char> {
    match u {
        Unit::Byte => "byte"@,
        Unit::Word => "word"@,
        Unit::Dword => "dword"@,
    }
}

impl Instruction {
    /// The full rendered assembly text: the uppercase mnemonic, then the
    /// operands.  A two-operand instruction shows its unit keyword, the
    /// destination and then the source, each address prefixed by one `@`
    /// marker per indirection level and written in `0x` hexadecimal; a jump
    /// shows its target the same way; the interrupt family shows the
    /// mnemonic alone.
    pub open spec fn spec_format(self) -> Seq<char> {
        match self.spec_usd() {
            Some(usd) => spec_mnemonic_upper(self) + " "@ + spec_unit_chars(usd.unit) + " "@
                + spec_indirection(usd.destination.depth as nat) + "0x"@ + spec_hex(
                usd.destination.location as u32,
            ) + ", "@ + (match usd.source {
                Source::Value(v) => "0x"@ + spec_hex(v),
                Source::Pointer(adr) => spec_indirection(adr.depth as nat) + "0x"@ + spec_hex(
                    adr.location as u32,
                ),
            }),
            None => match self.spec_address() {
                Some(adr) => spec_mnemonic_upper(self) + " "@ + spec_indirection(adr.depth as nat)
                    + "0x"@ + spec_hex(adr.location as u32),
                None => spec_mnemonic_upper(self),
            },
        }
    }
}

fn hex_digit(d: u32) -> (r: char)
    requires
        d < 16,
    ensures
        r == spec_hex_digit(d),
{
    if d == 0 {
        '0'
    } else if d == 1 {
        '1'
    } else if d == 2 {
        '2'
    } else if d == 3 {
        '3'
    } else if d == 4 {
        '4'
    } else if d == 5 {
        '5'
    } else if d == 6 {
        '6'
    } else if d == 7 {
        '7'
    } else if d == 8 {
        '8'
    } else if d == 9 {
        '9'
    } else if d == 10 {
        'A'
    } else if d == 11 {
        'B'
    } else if d == 12 {
        'C'
    } else if d == 13 {
        'D'
    } else if d == 14 {
        'E'
    } else {
        'F'
    }
}

/// Appends the uppercase hexadecimal rendering of `v`.
fn push_hex(s: &mut String, v: u32)
    ensures
        final(s)@ == old(s)@ + spec_hex(v),
    decreases v,
{
    if v < 16 {
        push_char(s, hex_digit(v));
        proof {
            assert(s@ =~= old(s)@ + spec_hex(v));
        }
    } else {
        push_hex(s, v / 16);
        push_char(s, hex_digit(v % 16));
        proof {
            assert(s@ =~= old(s)@ + spec_hex(v));
        }
    }
}

/// Appends one `@` marker per indirection level.
fn push_indirection(s: &mut String, depth: u8)
    ensures
        final(s)@ == old(s)@ + spec_indirection(depth as nat),
{
    let mut j: u8 = 0;
    proof {
        assert(s@ =~= old(s)@ + spec_indirection(depth as nat).take(0));
    }
    while j < depth
        invariant
            j <= depth,
            s@ == old(s)@ + spec_indirection(depth as nat).take(j as int),
        decreases depth - j,
    {
        push_char(s, '@');
        j = j + 1;
        proof {
            assert(spec_indirection(depth as nat).take(j as int) =~= spec_indirection(
                depth as nat,
            ).take(j - 1).push('@'));
            assert(s@ =~= old(s)@ + spec_indirection(depth as nat).take(j as int));
        }
    }
    proof {
        assert(spec_indirection(depth as nat).take(depth as int) =~= spec_indirection(
            depth as nat,
        ));
    }
}

/// The original indirection-marker helper: `depth` copies of `@` as a
/// string of its own.
fn indirection(depth: u8) -> (s: String)
    ensures
        s@ == spec_indirection(depth as nat),
{
    let mut s = String::new();
    push_indirection(&mut s, depth);
    proof {
        assert(Seq::<char>::empty() + spec_indirection(depth as nat) =~= spec_indirection(
            depth as nat,
        ));
    }
    s
}

fn mnemonic_upper(i: &Instruction) -> (s: String)
    ensures
        s@ == spec_mnemonic_upper(*i),
{
    match i {
        Instruction::Mov(..) => String::from_str("MOV"),
        Instruction::Add(..) => String::from_str("ADD"),
        Instruction::Sub(..) => String::from_str("SUB"),
        Instruction::Mul(..) => String::from_str("MUL"),
        Instruction::Div(..) => String::from_str("DIV"),
        Instruction::Cmp(..) => String::from_str("CMP"),
        Instruction::Jg(..) => String::from_str("JG"),
        Instruction::Je(..) => String::from_str("JE"),
        Instruction::Jl(..) => String::from_str("JL"),
        Instruction::Jmp(..) => String::from_str("JMP"),
        Instruction::Int(..) => String::from_str("INT"),
        Instruction::Iret => String::from_str("IRET"),
        Instruction::And(..) => String::from_str("AND"),
        Instruction::Or(..) => String::from_str("OR"),
        Instruction::Xor(..) => String::from_str("XOR"),
        Instruction::Not(..) => String::from_str("NOT"),
        Instruction::Shl(..) => String::from_str("SHL"),
        Instruction::Shr(..) => String::from_str("SHR"),
    }
}

impl Instruction {
    /// Renders this instruction as assembly text.
    pub fn format_asm(&self) -> (s: String)
        ensures
            s@ == self.spec_format(),
    {
        let mut s = mnemonic_upper(self);
        if let Some(usd) = self.usd() {
            s.append(" ");
            match usd.unit {
                Unit::Byte => s.append("byte"),
                Unit::Word => s.append("word"),
                Unit::Dword => s.append("dword"),
            }
            s.append(" ");
            push_indirection(&mut s, usd.destination.depth);
            s.append("0x");
            push_hex(&mut s, usd.destination.location as u32);
            s.append(", ");
            match &usd.source {
                Source::Value(v) => {
                    s.append("0x");
                    push_hex(&mut s, *v);
                },
                Source::Pointer(adr) => {
                    push_indirection(&mut s, adr.depth);
                    s.append("0x");
                    push_hex(&mut s, adr.location as u32);
                },
            }
        } else if let Some(adr) = self.address() {
            s.append(" ");
            push_indirection(&mut s, adr.depth);
            s.append("0x");
            push_hex(&mut s, adr.location as u32);
        }
        s
    }
}

} // verus!
