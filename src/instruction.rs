use vstd::prelude::*;

verus! {

/// One decoded instruction word. Register operands are indices below 16,
/// addresses are 12-bit values.
#[derive(Clone, Copy, Debug, PartialEq, Eq, Structural)]
pub enum Instruction {
    /// `00E0`: clear the screen.
    ClearScreen,
    /// `00EE`: return from a subroutine.
    Return,
    /// `1nnn`: jump to `addr`.
    Jump { addr: u16 },
    /// `2nnn`: call the subroutine at `addr`.
    Call { addr: u16 },
    /// `3xkk`: skip the next instruction if `Vx == kk`.
    SkipIfEqImm { x: usize, kk: u8 },
    /// `4xkk`: skip the next instruction if `Vx != kk`.
    SkipIfNeImm { x: usize, kk: u8 },
    /// `5xy0`: skip the next instruction if `Vx == Vy`.
    SkipIfEqReg { x: usize, y: usize },
    /// `6xkk`: `Vx := kk`.
    LoadImm { x: usize, kk: u8 },
    /// `7xkk`: `Vx := Vx + kk`, wrapping, flag untouched.
    AddImm { x: usize, kk: u8 },
    /// `8xy0`: `Vx := Vy`.
    Move { x: usize, y: usize },
    /// `8xy1`: `Vx := Vx | Vy`.
    Or { x: usize, y: usize },
    /// `8xy2`: `Vx := Vx & Vy`.
    And { x: usize, y: usize },
    /// `8xy3`: `Vx := Vx ^ Vy`.
    Xor { x: usize, y: usize },
    /// `8xy4`: `Vx := Vx + Vy`, carry into `VF`.
    AddReg { x: usize, y: usize },
    /// `8xy5`: `Vx := Vx - Vy`, no-borrow into `VF`.
    SubReg { x: usize, y: usize },
    /// `8xy6`: `Vx := Vx >> 1`, the bit shifted out into `VF`; `y` is ignored.
    ShiftRight { x: usize, y: usize },
    /// `8xy7`: `Vx := Vy - Vx`, no-borrow into `VF`.
    SubReversed { x: usize, y: usize },
    /// `8xyE`: `Vx := Vx << 1`, the bit shifted out into `VF`; `y` is ignored.
    ShiftLeft { x: usize, y: usize },
    /// `9xy0`: skip the next instruction if `Vx != Vy`.
    SkipIfNeReg { x: usize, y: usize },
    /// `Annn`: `I := addr`.
    LoadIndex { addr: u16 },
    /// `Bnnn`: jump to `addr + V0`.
    JumpOffset { addr: u16 },
    /// `Cxkk`: `Vx := random byte & kk`.
    Random { x: usize, kk: u8 },
    /// `Dxyn`: draw an `n`-row sprite from memory at `I` at (`Vx`, `Vy`).
    Draw { x: usize, y: usize, n: u8 },
    /// `Ex9E`: skip the next instruction if key `Vx` is held.
    SkipIfKey { x: usize },
    /// `ExA1`: skip the next instruction if key `Vx` is not held.
    SkipIfNotKey { x: usize },
    /// `Fx07`: `Vx := delay timer`.
    LoadDelay { x: usize },
    /// `Fx0A`: wait until a key is held, then put its index in `Vx`.
    WaitKey { x: usize },
    /// `Fx15`: `delay timer := Vx`.
    SetDelay { x: usize },
    /// `Fx18`: `sound timer := Vx`.
    SetSound { x: usize },
    /// `Fx1E`: `I := I + Vx`, `VF` tells whether the result is above `0x0F00`.
    AddIndex { x: usize },
    /// `Fx29`: `I :=` address of the font glyph for digit `Vx`.
    LoadFont { x: usize },
    /// `Fx33`: store the decimal digits of `Vx` at `I`, `I+1`, `I+2`.
    StoreBcd { x: usize },
    /// `Fx55`: store `V0..=Vx` in memory from `I` on.
    StoreRegs { x: usize },
    /// `Fx65`: load `V0..=Vx` from memory from `I` on.
    LoadRegs { x: usize },
    /// A word that matches no instruction; executing it only advances `PC`.
    Unknown,
}

/// Highest nibble of a word.
pub open spec fn nib0(w: u16) -> u16 {
    w / 0x1000
}

/// Second nibble of a word (the `x` operand).
pub open spec fn nib1(w: u16) -> u16 {
    (w / 0x100) % 0x10
}

/// Third nibble of a word (the `y` operand).
pub open spec fn nib2(w: u16) -> u16 {
    (w / 0x10) % 0x10
}

/// Lowest nibble of a word (the `n` operand).
pub open spec fn nib3(w: u16) -> u16 {
    w % 0x10
}

/// The instruction that a word denotes.
pub open spec fn decode_spec(w: u16) -> Instruction {
    let x = nib1(w) as usize;
    let y = nib2(w) as usize;
    let n = nib3(w) as u8;
    let kk = (w % 0x100) as u8;
    let addr = w % 0x1000;
    match (nib0(w), nib1(w), nib2(w), nib3(w)) {
        (0x0, 0x0, 0xE, 0x0) => Instruction::ClearScreen,
        (0x0, 0x0, 0xE, 0xE) => Instruction::Return,
        (0x1, _, _, _) => Instruction::Jump { addr },
        (0x2, _, _, _) => Instruction::Call { addr },
        (0x3, _, _, _) => Instruction::SkipIfEqImm { x, kk },
        (0x4, _, _, _) => Instruction::SkipIfNeImm { x, kk },
        (0x5, _, _, 0x0) => Instruction::SkipIfEqReg { x, y },
        (0x6, _, _, _) => Instruction::LoadImm { x, kk },
        (0x7, _, _, _) => Instruction::AddImm { x, kk },
        (0x8, _, _, 0x0) => Instruction::Move { x, y },
        (0x8, _, _, 0x1) => Instruction::Or { x, y },
        (0x8, _, _, 0x2) => Instruction::And { x, y },
        (0x8, _, _, 0x3) => Instruction::Xor { x, y },
        (0x8, _, _, 0x4) => Instruction::AddReg { x, y },
        (0x8, _, _, 0x5) => Instruction::SubReg { x, y },
        (0x8, _, _, 0x6) => Instruction::ShiftRight { x, y },
        (0x8, _, _, 0x7) => Instruction::SubReversed { x, y },
        (0x8, _, _, 0xE) => Instruction::ShiftLeft { x, y },
        (0x9, _, _, 0x0) => Instruction::SkipIfNeReg { x, y },
        (0xA, _, _, _) => Instruction::LoadIndex { addr },
        (0xB, _, _, _) => Instruction::JumpOffset { addr },
        (0xC, _, _, _) => Instruction::Random { x, kk },
        (0xD, _, _, _) => Instruction::Draw { x, y, n },
        (0xE, _, 0x9, 0xE) => Instruction::SkipIfKey { x },
        (0xE, _, 0xA, 0x1) => Instruction::SkipIfNotKey { x },
        (0xF, _, 0x0, 0x7) => Instruction::LoadDelay { x },
        (0xF, _, 0x0, 0xA) => Instruction::WaitKey { x },
        (0xF, _, 0x1, 0x5) => Instruction::SetDelay { x },
        (0xF, _, 0x1, 0x8) => Instruction::SetSound { x },
        (0xF, _, 0x1, 0xE) => Instruction::AddIndex { x },
        (0xF, _, 0x2, 0x9) => Instruction::LoadFont { x },
        (0xF, _, 0x3, 0x3) => Instruction::StoreBcd { x },
        (0xF, _, 0x5, 0x5) => Instruction::StoreRegs { x },
        (0xF, _, 0x6, 0x5) => Instruction::LoadRegs { x },
        _ => Instruction::Unknown,
    }
}

/// Every register operand of a decoded instruction names one of the sixteen
/// registers.
pub open spec fn operands_in_range(ins: Instruction) -> bool {
    match ins {
        Instruction::SkipIfEqImm { x, .. } | Instruction::SkipIfNeImm { x, .. }
        | Instruction::LoadImm { x, .. } | Instruction::AddImm { x, .. }
        | Instruction::Random { x, .. } | Instruction::SkipIfKey { x }
        | Instruction::SkipIfNotKey { x } | Instruction::LoadDelay { x }
        | Instruction::WaitKey { x } | Instruction::SetDelay { x } | Instruction::SetSound { x }
        | Instruction::AddIndex { x } | Instruction::LoadFont { x } | Instruction::StoreBcd { x }
        | Instruction::StoreRegs { x } | Instruction::LoadRegs { x } => x < 16,
        Instruction::SkipIfEqReg { x, y } | Instruction::Move { x, y } | Instruction::Or { x, y }
        | Instruction::And { x, y } | Instruction::Xor { x, y } | Instruction::AddReg { x, y }
        | Instruction::SubReg { x, y } | Instruction::ShiftRight { x, y }
        | Instruction::SubReversed { x, y } | Instruction::ShiftLeft { x, y }
        | Instruction::SkipIfNeReg { x, y } | Instruction::Draw { x, y, .. } => x < 16 && y < 16,
        _ => true,
    }
}

/// Splits a word into its four nibbles and names the instruction it encodes.
pub fn decode(w: u16) -> (r: Instruction)
    ensures
        r == decode_spec(w),
        operands_in_range(r),
{
    let x = ((w / 0x100) % 0x10) as usize;
    let y = ((w / 0x10) % 0x10) as usize;
    let n = (w % 0x10) as u8;
    let kk = (w % 0x100) as u8;
    let addr = w % 0x1000;
    match (w / 0x1000, (w / 0x100) % 0x10, (w / 0x10) % 0x10, w % 0x10) {
        (0x0, 0x0, 0xE, 0x0) => Instruction::ClearScreen,
        (0x0, 0x0, 0xE, 0xE) => Instruction::Return,
        (0x1, _, _, _) => Instruction::Jump { addr },
        (0x2, _, _, _) => Instruction::Call { addr },
        (0x3, _, _, _) => Instruction::SkipIfEqImm { x, kk },
        (0x4, _, _, _) => Instruction::SkipIfNeImm { x, kk },
        (0x5, _, _, 0x0) => Instruction::SkipIfEqReg { x, y },
        (0x6, _, _, _) => Instruction::LoadImm { x, kk },
        (0x7, _, _, _) => Instruction::AddImm { x, kk },
        (0x8, _, _, 0x0) => Instruction::Move { x, y },
        (0x8, _, _, 0x1) => Instruction::Or { x, y },
        (0x8, _, _, 0x2) => Instruction::And { x, y },
        (0x8, _, _, 0x3) => Instruction::Xor { x, y },
        (0x8, _, _, 0x4) => Instruction::AddReg { x, y },
        (0x8, _, _, 0x5) => Instruction::SubReg { x, y },
        (0x8, _, _, 0x6) => Instruction::ShiftRight { x, y },
        (0x8, _, _, 0x7) => Instruction::SubReversed { x, y },
        (0x8, _, _, 0xE) => Instruction::ShiftLeft { x, y },
        (0x9, _, _, 0x0) => Instruction::SkipIfNeReg { x, y },
        (0xA, _, _, _) => Instruction::LoadIndex { addr },
        (0xB, _, _, _) => Instruction::JumpOffset { addr },
        (0xC, _, _, _) => Instruction::Random { x, kk },
        (0xD, _, _, _) => Instruction::Draw { x, y, n },
        (0xE, _, 0x9, 0xE) => Instruction::SkipIfKey { x },
        (0xE, _, 0xA, 0x1) => Instruction::SkipIfNotKey { x },
        (0xF, _, 0x0, 0x7) => Instruction::LoadDelay { x },
        (0xF, _, 0x0, 0xA) => Instruction::WaitKey { x },
        (0xF, _, 0x1, 0x5) => Instruction::SetDelay { x },
        (0xF, _, 0x1, 0x8) => Instruction::SetSound { x },
        (0xF, _, 0x1, 0xE) => Instruction::AddIndex { x },
        (0xF, _, 0x2, 0x9) => Instruction::LoadFont { x },
        (0xF, _, 0x3, 0x3) => Instruction::StoreBcd { x },
        (0xF, _, 0x5, 0x5) => Instruction::StoreRegs { x },
        (0xF, _, 0x6, 0x5) => Instruction::LoadRegs { x },
        _ => Instruction::Unknown,
    }
}

} // verus!
