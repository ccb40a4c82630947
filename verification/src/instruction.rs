//! Decoded instructions and the decoding of raw 2-byte instruction words,
//! dispatched on successively narrower nibble groups as the CHIP-8 opcode
//! table is laid out.

use vstd::prelude::*;

verus! {

use crate::nibble::{Datum, Nibble};

/// A memory address; effective addresses are confined to the 12-bit space.
pub type Address = u16;

/// Every opcode this core revision implements, with its operands already
/// extracted and range-checked. An ephemeral value: built by the decoder,
/// consumed immediately by the executor.
#[derive(Clone, Copy, Debug, PartialEq, Eq, Structural)]
pub enum Instruction {
    /// `0x0000`: no state change.
    Nop,
    /// `0x00E0`: reset every framebuffer pixel to unlit.
    ClearScreen,
    /// `0x1nnn`: absolute set of the program counter.
    Jump(Datum),
    /// `0x6xkk`: set register `Vx` to the immediate.
    Load(Address, u8),
    /// `0x7xkk`: add the immediate to `Vx` with 8-bit wraparound; the carry
    /// flag is not touched.
    Add(Address, u8),
    /// `0xAnnn`: set the index register.
    SetIndex(Datum),
    /// `0xDxyn`: draw an `n`-row sprite read from memory at the index
    /// register, at the screen position held in registers `Vx`, `Vy`.
    Draw(Nibble, Nibble, Nibble),
}

impl Instruction {
    /// An instruction is well formed when every operand fits its field: the
    /// decoder only builds such values.
    pub open spec fn wf(self) -> bool {
        match self {
            Instruction::Nop => true,
            Instruction::ClearScreen => true,
            Instruction::Jump(d) => d.wf(),
            Instruction::Load(reg, _val) => reg <= 0xF,
            Instruction::Add(reg, _val) => reg <= 0xF,
            Instruction::SetIndex(d) => d.wf(),
            Instruction::Draw(x, y, n) => x.wf() && y.wf() && n.wf(),
        }
    }
}

/// What a raw 2-byte instruction word decodes to: `None` exactly for the
/// encodings this core revision leaves unimplemented (among them `0x00EE`,
/// the reserved subroutine return).
pub open spec fn spec_decode(b0: u8, b1: u8) -> Option<Instruction> {
    let n0 = b0 >> 4u8;
    let n1 = b0 & 0xF;
    let n2 = b1 >> 4u8;
    let n3 = b1 & 0xF;
    if n0 == 0 {
        if n1 == 0 && n2 == 0xE && n3 == 0 {
            Some(Instruction::ClearScreen)
        } else if n1 == 0 && n2 == 0 && n3 == 0 {
            Some(Instruction::Nop)
        } else {
            None
        }
    } else if n0 == 1 {
        Some(Instruction::Jump(Datum((n1 * 0x100 + n2 * 0x10 + n3) as u16)))
    } else if n0 == 6 {
        Some(Instruction::Load(n1 as Address, b1))
    } else if n0 == 7 {
        Some(Instruction::Add(n1 as Address, b1))
    } else if n0 == 0xA {
        Some(Instruction::SetIndex(Datum((n1 * 0x100 + n2 * 0x10 + n3) as u16)))
    } else if n0 == 0xD {
        Some(Instruction::Draw(Nibble(n1), Nibble(n2), Nibble(n3)))
    } else {
        None
    }
}

/// Whatever a word decodes to is well formed.
pub proof fn lemma_decode_wf(b0: u8, b1: u8)
    ensures
        spec_decode(b0, b1) matches Some(inst) ==> inst.wf(),
{
    assert(b0 >> 4u8 <= 0xF && b0 & 0xF <= 0xF && b1 >> 4u8 <= 0xF && b1 & 0xF <= 0xF)
        by (bit_vector);
}

} // verus!
