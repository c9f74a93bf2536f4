//! Decoding of 16-bit instruction words.
//!
//! An instruction word is split into four 4-bit nibbles; the nibble tuple
//! selects exactly one instruction.  Decoding is total and deterministic:
//! [`decode`] is defined for every 16-bit word, has no preconditions, and its
//! result is pinned to the mathematical function [`spec_decode`], so the same
//! word always selects the same instruction (or is rejected as unknown).

use vstd::prelude::*;

verus! {

/// One decoded instruction.  Field meanings: `x` and `y` are general
/// register indices, `nn` an 8-bit immediate, `nnn` a 12-bit address
/// immediate, `n` a 4-bit immediate (sprite height).
#[derive(Clone, Copy, Debug, PartialEq, Eq, Structural)]
pub enum Instr {
    /// `00E0`: clear the display buffer.
    Cls,
    /// `00EE`: return, popping the return address into the program counter.
    Ret,
    /// `1NNN`: jump to `nnn`.
    Jump { nnn: u16 },
    /// `2NNN`: push the current program counter, then jump to `nnn`.
    Call { nnn: u16 },
    /// `3XNN`: skip the next instruction if `Vx == nn`.
    SkipEqImm { x: u8, nn: u8 },
    /// `4XNN`: skip the next instruction if `Vx != nn`.
    SkipNeImm { x: u8, nn: u8 },
    /// `5XY0`: skip the next instruction if `Vx == Vy`.
    SkipEqReg { x: u8, y: u8 },
    /// `6XNN`: `Vx = nn`.
    SetImm { x: u8, nn: u8 },
    /// `7XNN`: `Vx = Vx + nn`, 8-bit wraparound, flags untouched.
    AddImm { x: u8, nn: u8 },
    /// `8XY0`: `Vx = Vy`.
    MovReg { x: u8, y: u8 },
    /// `8XY1`: `Vx = Vx | Vy`.
    OrReg { x: u8, y: u8 },
    /// `8XY2`: `Vx = Vx & Vy`.
    AndReg { x: u8, y: u8 },
    /// `8XY3`: `Vx = Vx ^ Vy`.
    XorReg { x: u8, y: u8 },
    /// `8XY4`: `Vx = Vx + Vy` wrapping; `VF` = 1 on carry, else 0.
    AddReg { x: u8, y: u8 },
    /// `8XY5`: `Vx = Vx - Vy` wrapping; `VF` = 0 on borrow, else 1.
    SubReg { x: u8, y: u8 },
    /// `8XY6`: `VF` = least bit of `Vx`, then `Vx = Vx >> 1`.
    ShrReg { x: u8 },
    /// `8XY7`: `Vx = Vy - Vx` wrapping; `VF` = 0 on borrow, else 1.
    SubFrom { x: u8, y: u8 },
    /// `8XYE`: `VF` = most bit of `Vx`, then `Vx = Vx << 1` wrapping.
    ShlReg { x: u8 },
    /// `9XY0`: skip the next instruction if `Vx != Vy`.
    SkipNeReg { x: u8, y: u8 },
    /// `ANNN`: `I = nnn`.
    SetIndex { nnn: u16 },
    /// `BNNN`: jump to `V0 + nnn`.
    JumpV0 { nnn: u16 },
    /// `CXNN`: `Vx` = a uniformly random byte masked with `nn`.
    Rand { x: u8, nn: u8 },
    /// `DXYN`: XOR-draw an `n`-row sprite from memory at `I` at `(Vx, Vy)`,
    /// wrapping coordinates; `VF` = 1 if a lit pixel was turned off.
    Draw { x: u8, y: u8, n: u8 },
    /// `EX9E`: skip the next instruction if the key indexed by `Vx` is down.
    SkipKey { x: u8 },
    /// `EXA1`: skip the next instruction if the key indexed by `Vx` is up.
    SkipNoKey { x: u8 },
    /// `FX07`: `Vx` = delay timer.
    GetDelay { x: u8 },
    /// `FX0A`: wait for a key: store the lowest pressed key index in `Vx`,
    /// or re-issue this instruction on the next cycle if none is pressed.
    WaitKey { x: u8 },
    /// `FX15`: delay timer = `Vx`.
    SetDelay { x: u8 },
    /// `FX18`: sound timer = `Vx`.
    SetSound { x: u8 },
    /// `FX1E`: `I = I + Vx`, 16-bit wraparound.
    AddIndex { x: u8 },
    /// `FX29`: `I` = address of the font glyph for the hex digit in `Vx`.
    FontChar { x: u8 },
    /// `FX33`: store the decimal digits of `Vx` at `I`, `I+1`, `I+2`.
    Bcd { x: u8 },
    /// `FX55`: store `V0..=Vx` into memory starting at `I`.
    StoreRegs { x: u8 },
    /// `FX65`: load `V0..=Vx` from memory starting at `I`.
    LoadRegs { x: u8 },
}

/// Bits 15-12 of an instruction word.
pub open spec fn nib1(w: u16) -> u16 {
    (w >> 12) & 0xF
}

/// Bits 11-8 of an instruction word (the `x` register field).
pub open spec fn nib2(w: u16) -> u16 {
    (w >> 8) & 0xF
}

/// Bits 7-4 of an instruction word (the `y` register field).
pub open spec fn nib3(w: u16) -> u16 {
    (w >> 4) & 0xF
}

/// Bits 3-0 of an instruction word (the small immediate).
pub open spec fn nib4(w: u16) -> u16 {
    w & 0xF
}

/// The operand fields are all in range: register indices below 16,
/// addresses below 4096, sprite heights below 16.
pub open spec fn instr_wf(i: Instr) -> bool {
    match i {
        Instr::Cls => true,
        Instr::Ret => true,
        Instr::Jump { nnn } => nnn < 4096,
        Instr::Call { nnn } => nnn < 4096,
        Instr::SkipEqImm { x, nn } => x < 16,
        Instr::SkipNeImm { x, nn } => x < 16,
        Instr::SkipEqReg { x, y } => x < 16 && y < 16,
        Instr::SetImm { x, nn } => x < 16,
        Instr::AddImm { x, nn } => x < 16,
        Instr::MovReg { x, y } => x < 16 && y < 16,
        Instr::OrReg { x, y } => x < 16 && y < 16,
        Instr::AndReg { x, y } => x < 16 && y < 16,
        Instr::XorReg { x, y } => x < 16 && y < 16,
        Instr::AddReg { x, y } => x < 16 && y < 16,
        Instr::SubReg { x, y } => x < 16 && y < 16,
        Instr::ShrReg { x } => x < 16,
        Instr::SubFrom { x, y } => x < 16 && y < 16,
        Instr::ShlReg { x } => x < 16,
        Instr::SkipNeReg { x, y } => x < 16 && y < 16,
        Instr::SetIndex { nnn } => nnn < 4096,
        Instr::JumpV0 { nnn } => nnn < 4096,
        Instr::Rand { x, nn } => x < 16,
        Instr::Draw { x, y, n } => x < 16 && y < 16 && n < 16,
        Instr::SkipKey { x } => x < 16,
        Instr::SkipNoKey { x } => x < 16,
        Instr::GetDelay { x } => x < 16,
        Instr::WaitKey { x } => x < 16,
        Instr::SetDelay { x } => x < 16,
        Instr::SetSound { x } => x < 16,
        Instr::AddIndex { x } => x < 16,
        Instr::FontChar { x } => x < 16,
        Instr::Bcd { x } => x < 16,
        Instr::StoreRegs { x } => x < 16,
        Instr::LoadRegs { x } => x < 16,
    }
}

/// What a 16-bit word decodes to: a single instruction, or `None` for a
/// word that matches no known pattern (a fatal decode error).  This is a
/// total function of the word alone.
pub open spec fn spec_decode(w: u16) -> Option<Instr> {
    let x = nib2(w) as u8;
    let y = nib3(w) as u8;
    let n = nib4(w) as u8;
    let nn = (w & 0xFF) as u8;
    let nnn = w & 0xFFF;
    if w == 0x00E0 {
        Some(Instr::Cls)
    } else if w == 0x00EE {
        Some(Instr::Ret)
    } else if nib1(w) == 0x1 {
        Some(Instr::Jump { nnn })
    } else if nib1(w) == 0x2 {
        Some(Instr::Call { nnn })
    } else if nib1(w) == 0x3 {
        Some(Instr::SkipEqImm { x, nn })
    } else if nib1(w) == 0x4 {
        Some(Instr::SkipNeImm { x, nn })
    } else if nib1(w) == 0x5 && nib4(w) == 0x0 {
        Some(Instr::SkipEqReg { x, y })
    } else if nib1(w) == 0x6 {
        Some(Instr::SetImm { x, nn })
    } else if nib1(w) == 0x7 {
        Some(Instr::AddImm { x, nn })
    } else if nib1(w) == 0x8 && nib4(w) == 0x0 {
        Some(Instr::MovReg { x, y })
    } else if nib1(w) == 0x8 && nib4(w) == 0x1 {
        Some(Instr::OrReg { x, y })
    } else if nib1(w) == 0x8 && nib4(w) == 0x2 {
        Some(Instr::AndReg { x, y })
    } else if nib1(w) == 0x8 && nib4(w) == 0x3 {
        Some(Instr::XorReg { x, y })
    } else if nib1(w) == 0x8 && nib4(w) == 0x4 {
        Some(Instr::AddReg { x, y })
    } else if nib1(w) == 0x8 && nib4(w) == 0x5 {
        Some(Instr::SubReg { x, y })
    } else if nib1(w) == 0x8 && nib4(w) == 0x6 {
        Some(Instr::ShrReg { x })
    } else if nib1(w) == 0x8 && nib4(w) == 0x7 {
        Some(Instr::SubFrom { x, y })
    } else if nib1(w) == 0x8 && nib4(w) == 0xE {
        Some(Instr::ShlReg { x })
    } else if nib1(w) == 0x9 && nib4(w) == 0x0 {
        Some(Instr::SkipNeReg { x, y })
    } else if nib1(w) == 0xA {
        Some(Instr::SetIndex { nnn })
    } else if nib1(w) == 0xB {
        Some(Instr::JumpV0 { nnn })
    } else if nib1(w) == 0xC {
        Some(Instr::Rand { x, nn })
    } else if nib1(w) == 0xD {
        Some(Instr::Draw { x, y, n })
    } else if nib1(w) == 0xE && nib3(w) == 0x9 && nib4(w) == 0xE {
        Some(Instr::SkipKey { x })
    } else if nib1(w) == 0xE && nib3(w) == 0xA && nib4(w) == 0x1 {
        Some(Instr::SkipNoKey { x })
    } else if nib1(w) == 0xF && nn == 0x07 {
        Some(Instr::GetDelay { x })
    } else if nib1(w) == 0xF && nn == 0x0A {
        Some(Instr::WaitKey { x })
    } else if nib1(w) == 0xF && nn == 0x15 {
        Some(Instr::SetDelay { x })
    } else if nib1(w) == 0xF && nn == 0x18 {
        Some(Instr::SetSound { x })
    } else if nib1(w) == 0xF && nn == 0x1E {
        Some(Instr::AddIndex { x })
    } else if nib1(w) == 0xF && nn == 0x29 {
        Some(Instr::FontChar { x })
    } else if nib1(w) == 0xF && nn == 0x33 {
        Some(Instr::Bcd { x })
    } else if nib1(w) == 0xF && nn == 0x55 {
        Some(Instr::StoreRegs { x })
    } else if nib1(w) == 0xF && nn == 0x65 {
        Some(Instr::LoadRegs { x })
    } else {
        None
    }
}

/// Every word that decodes at all decodes to an instruction whose operand
/// fields are in range.
pub proof fn lemma_decode_wf(w: u16)
    ensures
        spec_decode(w) matches Some(i) ==> instr_wf(i),
{
    assert((w >> 12) & 0xF < 16) by (bit_vector);
    assert((w >> 8) & 0xF < 16) by (bit_vector);
    assert((w >> 4) & 0xF < 16) by (bit_vector);
    assert(w & 0xF < 16) by (bit_vector);
    assert(w & 0xFF < 256) by (bit_vector);
    assert(w & 0xFFF < 4096) by (bit_vector);
}

/// Splits a word into its nibble fields and selects the matching
/// instruction.  Total (no precondition) and deterministic: the result is
/// exactly `spec_decode(w)`, a function of the word alone.
pub fn decode(w: u16) -> (r: Option<Instr>)
    ensures
        r == spec_decode(w),
        r matches Some(i) ==> instr_wf(i),
{
    proof {
        lemma_decode_wf(w);
    }
    let h1 = (w >> 12) & 0xF;
    let h3 = (w >> 4) & 0xF;
    let h4 = w & 0xF;
    let x = ((w >> 8) & 0xF) as u8;
    let y = h3 as u8;
    let n = h4 as u8;
    let nn = (w & 0xFF) as u8;
    let nnn = w & 0xFFF;
    if w == 0x00E0 {
        Some(Instr::Cls)
    } else if w == 0x00EE {
        Some(Instr::Ret)
    } else if h1 == 0x1 {
        Some(Instr::Jump { nnn })
    } else if h1 == 0x2 {
        Some(Instr::Call { nnn })
    } else if h1 == 0x3 {
        Some(Instr::SkipEqImm { x, nn })
    } else if h1 == 0x4 {
        Some(Instr::SkipNeImm { x, nn })
    } else if h1 == 0x5 && h4 == 0x0 {
        Some(Instr::SkipEqReg { x, y })
    } else if h1 == 0x6 {
        Some(Instr::SetImm { x, nn })
    } else if h1 == 0x7 {
        Some(Instr::AddImm { x, nn })
    } else if h1 == 0x8 && h4 == 0x0 {
        Some(Instr::MovReg { x, y })
    } else if h1 == 0x8 && h4 == 0x1 {
        Some(Instr::OrReg { x, y })
    } else if h1 == 0x8 && h4 == 0x2 {
        Some(Instr::AndReg { x, y })
    } else if h1 == 0x8 && h4 == 0x3 {
        Some(Instr::XorReg { x, y })
    } else if h1 == 0x8 && h4 == 0x4 {
        Some(Instr::AddReg { x, y })
    } else if h1 == 0x8 && h4 == 0x5 {
        Some(Instr::SubReg { x, y })
    } else if h1 == 0x8 && h4 == 0x6 {
        Some(Instr::ShrReg { x })
    } else if h1 == 0x8 && h4 == 0x7 {
        Some(Instr::SubFrom { x, y })
    } else if h1 == 0x8 && h4 == 0xE {
        Some(Instr::ShlReg { x })
    } else if h1 == 0x9 && h4 == 0x0 {
        Some(Instr::SkipNeReg { x, y })
    } else if h1 == 0xA {
        Some(Instr::SetIndex { nnn })
    } else if h1 == 0xB {
        Some(Instr::JumpV0 { nnn })
    } else if h1 == 0xC {
        Some(Instr::Rand { x, nn })
    } else if h1 == 0xD {
        Some(Instr::Draw { x, y, n })
    } else if h1 == 0xE && h3 == 0x9 && h4 == 0xE {
        Some(Instr::SkipKey { x })
    } else if h1 == 0xE && h3 == 0xA && h4 == 0x1 {
        Some(Instr::SkipNoKey { x })
    } else if h1 == 0xF && nn == 0x07 {
        Some(Instr::GetDelay { x })
    } else if h1 == 0xF && nn == 0x0A {
        Some(Instr::WaitKey { x })
    } else if h1 == 0xF && nn == 0x15 {
        Some(Instr::SetDelay { x })
    } else if h1 == 0xF && nn == 0x18 {
        Some(Instr::SetSound { x })
    } else if h1 == 0xF && nn == 0x1E {
        Some(Instr::AddIndex { x })
    } else if h1 == 0xF && nn == 0x29 {
        Some(Instr::FontChar { x })
    } else if h1 == 0xF && nn == 0x33 {
        Some(Instr::Bcd { x })
    } else if h1 == 0xF && nn == 0x55 {
        Some(Instr::StoreRegs { x })
    } else if h1 == 0xF && nn == 0x65 {
        Some(Instr::LoadRegs { x })
    } else {
        None
    }
}

} // verus!
