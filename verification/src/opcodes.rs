//! The instruction decoder: a pure, total function from a 16-bit instruction
//! word to a structured operation.

use vstd::prelude::*;

verus! {

/// A decoded operation. Every 16-bit word decodes to exactly one variant;
/// words outside the recognized patterns decode to `Unimplemented`.
///
/// Register indices (`x`, `y`) come from 4-bit fields and are therefore
/// always below 16; `b` is the low byte of the word.
#[derive(Debug, PartialEq, Eq, Structural, Clone, Copy)]
pub enum Opcode {
    Halt,
    Unimplemented,
    SeVX { x: u8, b: u8 },
    AddVX { x: u8, b: u8 },
    LdXY { x: u8, y: u8 },
    AddXY { x: u8, y: u8 },
    SubXY { x: u8, y: u8 },
}

/// The meaning of `decode`, written over the same bit-level field extraction
/// that the executable code performs: `x` is bits 8..=11, `y` is bits 4..=7,
/// `b` is the low byte, and the minor nibble selects among the `0x8___`
/// register-to-register operations.
pub open spec fn spec_decode(w: u16) -> Opcode {
    let x = ((w & 0x0F00) >> 8) as u8;
    let y = ((w & 0x00F0) >> 4) as u8;
    let b = (w & 0x00FF) as u8;
    let minor = w & 0x000F;
    if w == 0x0000 {
        Opcode::Halt
    } else if 0x6000 <= w && w <= 0x6FFF {
        Opcode::SeVX { x, b }
    } else if 0x7000 <= w && w <= 0x7FFF {
        Opcode::AddVX { x, b }
    } else if 0x8000 <= w && w <= 0x8FFF {
        if minor == 0x0 {
            Opcode::LdXY { x, y }
        } else if minor == 0x4 {
            Opcode::AddXY { x, y }
        } else if minor == 0x5 {
            Opcode::SubXY { x, y }
        } else {
            Opcode::Unimplemented
        }
    } else {
        Opcode::Unimplemented
    }
}

/// Register indices carried by an operation stay below 16, so they can
/// always index the 16-slot register file.
pub open spec fn reg_indices_bounded(op: Opcode) -> bool {
    match op {
        Opcode::Halt => true,
        Opcode::Unimplemented => true,
        Opcode::SeVX { x, b } => x < 16,
        Opcode::AddVX { x, b } => x < 16,
        Opcode::LdXY { x, y } => x < 16 && y < 16,
        Opcode::AddXY { x, y } => x < 16 && y < 16,
        Opcode::SubXY { x, y } => x < 16 && y < 16,
    }
}

proof fn lemma_nibble_bounds(w: u16)
    ensures
        (((w & 0x0F00) >> 8) as u8) < 16,
        (((w & 0x00F0) >> 4) as u8) < 16,
        ((w & 0x000F) as u8) == w & 0x000F,
{
    assert((((w & 0x0F00) >> 8) as u8) < 16) by (bit_vector);
    assert((((w & 0x00F0) >> 4) as u8) < 16) by (bit_vector);
    assert(((w & 0x000F) as u8) == w & 0x000F) by (bit_vector);
}

/// Decode a 16-bit instruction word. Pure and total: every input maps to
/// exactly one operation, and the register indices it carries are in range.
pub fn decode(opcode: u16) -> (r: Opcode)
    ensures
        r == spec_decode(opcode),
        reg_indices_bounded(r),
{
    proof {
        lemma_nibble_bounds(opcode);
    }
    let op_minor = (opcode & 0x000F) as u8;
    let x = ((opcode & 0x0F00) >> 8) as u8;
    let y = ((opcode & 0x00F0) >> 4) as u8;
    let byte = (opcode & 0x00FF) as u8;

    if opcode == 0x0000 {
        Opcode::Halt
    } else if 0x6000 <= opcode && opcode <= 0x6FFF {
        Opcode::SeVX { x, b: byte }
    } else if 0x7000 <= opcode && opcode <= 0x7FFF {
        Opcode::AddVX { x, b: byte }
    } else if 0x8000 <= opcode && opcode <= 0x8FFF {
        if op_minor == 0x0 {
            Opcode::LdXY { x, y }
        } else if op_minor == 0x4 {
            Opcode::AddXY { x, y }
        } else if op_minor == 0x5 {
            Opcode::SubXY { x, y }
        } else {
            Opcode::Unimplemented
        }
    } else {
        Opcode::Unimplemented
    }
}

/// Every word in the set-immediate range `0x6000..=0x6FFF` decodes to the
/// set-register operation, with the register index taken from bits 8..=11
/// and the literal taken from the low byte.
pub proof fn lemma_decode_set_immediate(w: u16)
    requires
        0x6000 <= w <= 0x6FFF,
    ensures
        spec_decode(w) == (Opcode::SeVX { x: ((w >> 8) & 0xF) as u8, b: (w & 0xFF) as u8 }),
{
    assert(((w & 0x0F00) >> 8) == ((w >> 8) & 0xF)) by (bit_vector);
}

/// The word patterns that decode to a real operation; everything else is
/// `Unimplemented`.
pub open spec fn recognized(w: u16) -> bool {
    ||| w == 0x0000
    ||| (0x6000 <= w && w <= 0x7FFF)
    ||| (0x8000 <= w && w <= 0x8FFF && ((w & 0x000F) == 0x0 || (w & 0x000F) == 0x4 || (w
        & 0x000F) == 0x5))
}

/// Totality of the decoder over the unrecognized words: every 16-bit value
/// outside the recognized patterns decodes to `Unimplemented`.
pub proof fn lemma_decode_totality(w: u16)
    requires
        !recognized(w),
    ensures
        spec_decode(w) == Opcode::Unimplemented,
{
}

} // verus!
