use vstd::prelude::*;
use crate::instruction::{decode_spec, Instruction};

verus! {

/// Size of the address space in bytes.
pub const MEMORY_SIZE: usize = 4096;

/// Address at which programs are loaded and execution starts.
pub const PROGRAM_START: u16 = 0x200;

/// Index of `VF`, the register that carry, borrow, shift-out and collision
/// flags are written to.
pub const FLAG: usize = 15;

/// Number of return addresses the call stack holds.
pub const STACK_DEPTH: usize = 16;

/// Why the processor refused to execute an instruction. The state is left
/// exactly as it was.
#[derive(Clone, Copy, Debug, PartialEq, Eq, Structural)]
pub enum HaltReason {
    /// `PC` does not leave room for a whole instruction inside memory.
    ProgramCounterOutOfBounds,
    /// A call with all sixteen stack slots in use.
    StackOverflow,
    /// A return with an empty stack.
    StackUnderflow,
    /// An access through `I` that reaches past the end of memory.
    MemoryOutOfBounds,
    /// A key instruction whose register holds no key index (16 or more).
    KeyOutOfRange,
}

/// What became of an instruction word that was executed.
#[derive(Clone, Copy, Debug, PartialEq, Eq, Structural)]
pub enum Outcome {
    /// The word was a known instruction and took effect.
    Executed,
    /// The word matched no instruction: only `PC` moved past it.
    Unhandled,
}

/// The whole machine as mathematical values: registers, memory, stack,
/// timers, screen rows (`screen[y][x]`) and held keys.
pub struct CpuState {
    pub i: u16,
    pub pc: u16,
    pub memory: Seq<u8>,
    pub v: Seq<u8>,
    pub stack: Seq<u16>,
    pub sp: u8,
    pub dt: u8,
    pub st: u8,
    pub screen: Seq<Seq<u8>>,
    pub draw_flag: bool,
    pub keys: Seq<bool>,
}

/// The state with register `x` set to `b`.
pub open spec fn set_v(s: CpuState, x: int, b: u8) -> CpuState {
    CpuState { v: s.v.update(x, b), ..s }
}

/// The state with `PC` moved past one more instruction.
pub open spec fn skip(s: CpuState) -> CpuState {
    CpuState { pc: (s.pc + 2) as u16, ..s }
}

/// A screen with every pixel off.
pub open spec fn blank_screen() -> Seq<Seq<u8>> {
    Seq::new(32, |y: int| Seq::new(64, |x: int| 0u8))
}

/// Bit `col` (0 is the most significant) of a sprite row, as 0 or 1.
pub open spec fn sprite_bit(row: u8, col: u8) -> u8 {
    (row >> ((7 - col) as u8)) & 1u8
}

/// The sprite bit that lands on screen cell (`cx`, `cy`) when `n` rows read
/// from `mem` at `i` are drawn with their top left corner at (`vx`, `vy`),
/// wrapping around both edges; 0 where no sprite cell lands.
pub open spec fn sprite_cover(mem: Seq<u8>, i: u16, n: u8, vx: u8, vy: u8, cx: int, cy: int) -> u8 {
    let row = (cy - vy) % 32;
    let col = (cx - vx) % 64;
    if row < n && col < 8 {
        sprite_bit(mem[i + row], col as u8)
    } else {
        0
    }
}

/// The screen after the sprite is XORed onto it.
pub open spec fn drawn_screen(s: CpuState, vx: u8, vy: u8, n: u8) -> Seq<Seq<u8>> {
    Seq::new(
        32,
        |cy: int| Seq::new(64, |cx: int| s.screen[cy][cx] ^ sprite_cover(s.memory, s.i, n, vx, vy, cx, cy)),
    )
}

/// Some set sprite bit lands on a pixel whose low bit is set.
pub open spec fn collides(s: CpuState, vx: u8, vy: u8, n: u8) -> bool {
    exists|cx: int, cy: int|
        0 <= cx < 64 && 0 <= cy < 32 && #[trigger] (sprite_cover(s.memory, s.i, n, vx, vy, cx, cy)
            & s.screen[cy][cx]) == 1
}

/// The highest index below `n` of a held key, if any.
pub open spec fn last_key_down(keys: Seq<bool>, n: int) -> Option<int>
    decreases n,
{
    if n <= 0 {
        None
    } else if keys[n - 1] {
        Some(n - 1)
    } else {
        last_key_down(keys, n - 1)
    }
}

/// A held key that `last_key_down` finds lies below its bound.
pub proof fn lemma_last_key_down_bound(keys: Seq<bool>, n: int)
    ensures
        last_key_down(keys, n) matches Some(j) ==> 0 <= j < n && keys[j],
    decreases n,
{
    if n > 0 {
        lemma_last_key_down_bound(keys, n - 1);
    }
}

/// The instruction cannot run in state `s` (taken before `PC` advances), and why.
pub open spec fn fault(s: CpuState, ins: Instruction) -> Option<HaltReason> {
    if s.pc + 2 > MEMORY_SIZE {
        Some(HaltReason::ProgramCounterOutOfBounds)
    } else {
        match ins {
            Instruction::Return => if s.sp == 0 {
                Some(HaltReason::StackUnderflow)
            } else if s.sp > STACK_DEPTH {
                Some(HaltReason::StackOverflow)
            } else {
                None
            },
            Instruction::Call { .. } => if s.sp >= STACK_DEPTH {
                Some(HaltReason::StackOverflow)
            } else {
                None
            },
            Instruction::Draw { n, .. } => if n > 0 && s.i + n > MEMORY_SIZE {
                Some(HaltReason::MemoryOutOfBounds)
            } else {
                None
            },
            Instruction::SkipIfKey { x } | Instruction::SkipIfNotKey { x } => if s.v[x as int] >= 16 {
                Some(HaltReason::KeyOutOfRange)
            } else {
                None
            },
            Instruction::StoreBcd { .. } => if s.i + 3 > MEMORY_SIZE {
                Some(HaltReason::MemoryOutOfBounds)
            } else {
                None
            },
            Instruction::StoreRegs { x } | Instruction::LoadRegs { x } => if s.i + x + 1 > MEMORY_SIZE {
                Some(HaltReason::MemoryOutOfBounds)
            } else {
                None
            },
            _ => None,
        }
    }
}

/// The effect of an instruction on state `s`, in which `PC` already points
/// past it. `rnd` is the random byte that `Cxkk` masks.
pub open spec fn apply(s: CpuState, ins: Instruction, rnd: u8) -> CpuState {
    match ins {
        Instruction::ClearScreen => CpuState { screen: blank_screen(), draw_flag: true, ..s },
        Instruction::Return => CpuState {
            pc: s.stack[s.sp - 1],
            sp: (s.sp - 1) as u8,
            ..s
        },
        Instruction::Jump { addr } => CpuState { pc: addr, ..s },
        Instruction::Call { addr } => CpuState {
            stack: s.stack.update(s.sp as int, s.pc),
            sp: (s.sp + 1) as u8,
            pc: addr,
            ..s
        },
        Instruction::SkipIfEqImm { x, kk } => if s.v[x as int] == kk { skip(s) } else { s },
        Instruction::SkipIfNeImm { x, kk } => if s.v[x as int] != kk { skip(s) } else { s },
        Instruction::SkipIfEqReg { x, y } => if s.v[x as int] == s.v[y as int] { skip(s) } else { s },
        Instruction::LoadImm { x, kk } => set_v(s, x as int, kk),
        Instruction::AddImm { x, kk } => set_v(s, x as int, ((s.v[x as int] + kk) % 256) as u8),
        Instruction::Move { x, y } => set_v(s, x as int, s.v[y as int]),
        Instruction::Or { x, y } => set_v(s, x as int, s.v[x as int] | s.v[y as int]),
        Instruction::And { x, y } => set_v(s, x as int, s.v[x as int] & s.v[y as int]),
        Instruction::Xor { x, y } => set_v(s, x as int, s.v[x as int] ^ s.v[y as int]),
        Instruction::AddReg { x, y } => {
            let sum = s.v[x as int] + s.v[y as int];
            set_v(set_v(s, x as int, (sum % 256) as u8), FLAG as int, if sum > 255 { 1 } else { 0 })
        },
        Instruction::SubReg { x, y } => {
            let t = set_v(s, FLAG as int, if s.v[x as int] > s.v[y as int] { 1 } else { 0 });
            set_v(t, x as int, ((t.v[x as int] - t.v[y as int]) % 256) as u8)
        },
        Instruction::ShiftRight { x, .. } => {
            let t = set_v(s, FLAG as int, s.v[x as int] & 1);
            set_v(t, x as int, t.v[x as int] >> 1u8)
        },
        Instruction::SubReversed { x, y } => {
            let t = set_v(s, FLAG as int, if s.v[y as int] > s.v[x as int] { 1 } else { 0 });
            set_v(t, x as int, ((t.v[y as int] - t.v[x as int]) % 256) as u8)
        },
        Instruction::ShiftLeft { x, .. } => {
            let t = set_v(s, FLAG as int, s.v[x as int] >> 7u8);
            set_v(t, x as int, ((t.v[x as int] * 2) % 256) as u8)
        },
        Instruction::SkipIfNeReg { x, y } => if s.v[x as int] != s.v[y as int] { skip(s) } else { s },
        Instruction::LoadIndex { addr } => CpuState { i: addr, ..s },
        Instruction::JumpOffset { addr } => CpuState { pc: (addr + s.v[0]) as u16, ..s },
        Instruction::Random { x, kk } => set_v(s, x as int, rnd & kk),
        Instruction::Draw { x, y, n } => {
            let vx = s.v[x as int];
            let vy = s.v[y as int];
            CpuState {
                screen: drawn_screen(s, vx, vy, n),
                draw_flag: true,
                v: s.v.update(FLAG as int, if collides(s, vx, vy, n) { 1 } else { 0 }),
                ..s
            }
        },
        Instruction::SkipIfKey { x } => if s.keys[s.v[x as int] as int] { skip(s) } else { s },
        Instruction::SkipIfNotKey { x } => if !s.keys[s.v[x as int] as int] { skip(s) } else { s },
        Instruction::LoadDelay { x } => set_v(s, x as int, s.dt),
        Instruction::WaitKey { x } => match last_key_down(s.keys, 16) {
            Some(k) => set_v(s, x as int, k as u8),
            None => CpuState { pc: (s.pc - 2) as u16, ..s },
        },
        Instruction::SetDelay { x } => CpuState { dt: s.v[x as int], ..s },
        Instruction::SetSound { x } => CpuState { st: s.v[x as int], ..s },
        Instruction::AddIndex { x } => {
            let i = ((s.i + s.v[x as int]) % 0x10000) as u16;
            CpuState { i, v: s.v.update(FLAG as int, if i > 0x0F00 { 1 } else { 0 }), ..s }
        },
        Instruction::LoadFont { x } => CpuState { i: (s.v[x as int] * 5) as u16, ..s },
        Instruction::StoreBcd { x } => {
            let b = s.v[x as int];
            CpuState {
                memory: s.memory.update(s.i as int, b / 100).update(s.i + 1, (b % 100) / 10).update(
                    s.i + 2,
                    b % 10,
                ),
                ..s
            }
        },
        Instruction::StoreRegs { x } => CpuState {
            memory: Seq::new(
                s.memory.len(),
                |a: int|
                    if s.i <= a <= s.i + x {
                        s.v[a - s.i]
                    } else {
                        s.memory[a]
                    },
            ),
            ..s
        },
        Instruction::LoadRegs { x } => CpuState {
            v: Seq::new(
                s.v.len(),
                |k: int|
                    if k <= x {
                        s.memory[s.i + k]
                    } else {
                        s.v[k]
                    },
            ),
            ..s
        },
        Instruction::Unknown => s,
    }
}

/// What executing word `w` in state `s` reports.
pub open spec fn step_result(s: CpuState, w: u16) -> Result<Outcome, HaltReason> {
    match fault(s, decode_spec(w)) {
        Some(h) => Err(h),
        None => Ok(
            if decode_spec(w) == Instruction::Unknown {
                Outcome::Unhandled
            } else {
                Outcome::Executed
            },
        ),
    }
}

/// The state after executing word `w` in state `s`: unchanged on a fault,
/// else `PC` advances past the word and the instruction takes effect.
pub open spec fn step_state(s: CpuState, w: u16, rnd: u8) -> CpuState {
    if fault(s, decode_spec(w)).is_some() {
        s
    } else {
        apply(skip(s), decode_spec(w), rnd)
    }
}

/// The big-endian word at address `a`.
pub open spec fn word_at(mem: Seq<u8>, a: int) -> u16 {
    (mem[a] * 256 + mem[a + 1]) as u16
}

} // verus!
