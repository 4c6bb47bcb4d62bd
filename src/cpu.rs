use vstd::prelude::*;
use vstd::arithmetic::div_mod::{lemma_mod_multiples_vanish, lemma_small_mod};
use crate::display::{Display, HEIGHT, WIDTH};
use crate::instruction::{decode, operands_in_range, Instruction};
use crate::keypad::Keypad;
use crate::model::{
    apply, blank_screen, collides, fault, last_key_down, lemma_last_key_down_bound, set_v,
    sprite_cover, step_result, step_state, word_at, CpuState, HaltReason, Outcome, FLAG,
    MEMORY_SIZE, PROGRAM_START, STACK_DEPTH,
};

verus! {

/// The built-in hexadecimal font: sixteen glyphs of five rows each, glyph
/// `d` at address `5 * d`.
pub const FONT_SET: [u8; 80] = [
    0xF0, 0x90, 0x90, 0x90, 0xF0,
    0x20, 0x60, 0x20, 0x20, 0x70,
    0xF0, 0x10, 0xF0, 0x80, 0xF0,
    0xF0, 0x10, 0xF0, 0x10, 0xF0,
    0x90, 0x90, 0xF0, 0x10, 0x10,
    0xF0, 0x80, 0xF0, 0x10, 0xF0,
    0xF0, 0x80, 0xF0, 0x90, 0xF0,
    0xF0, 0x10, 0x20, 0x40, 0x40,
    0xF0, 0x90, 0xF0, 0x90, 0xF0,
    0xF0, 0x90, 0xF0, 0x10, 0xF0,
    0xF0, 0x90, 0xF0, 0x90, 0x90,
    0xE0, 0x90, 0xE0, 0x90, 0xE0,
    0xF0, 0x80, 0x80, 0x80, 0xF0,
    0xE0, 0x90, 0x90, 0x90, 0xE0,
    0xF0, 0x80, 0xF0, 0x80, 0xF0,
    0xF0, 0x80, 0xF0, 0x80, 0x80,
];

/// The processor: registers, memory, call stack, timers, and the screen and
/// keypad it owns.
pub struct Cpu {
    /// Index register.
    pub i: u16,
    /// Address of the next instruction to fetch.
    pub pc: u16,
    pub memory: [u8; 4096],
    /// General registers `V0`..`VF`; `VF` receives the flags.
    pub v: [u8; 16],
    pub display: Display,
    pub keypad: Keypad,
    /// Return addresses; slots below `sp` are in use.
    pub stack: [u16; 16],
    pub sp: u8,
    /// Delay timer.
    pub dt: u8,
    /// Sound timer.
    pub st: u8,
}

impl View for Cpu {
    type V = CpuState;

    open spec fn view(&self) -> CpuState {
        CpuState {
            i: self.i,
            pc: self.pc,
            memory: self.memory@,
            v: self.v@,
            stack: self.stack@,
            sp: self.sp,
            dt: self.dt,
            st: self.st,
            screen: self.display.memory@.map_values(|r: [u8; 64]| r@),
            draw_flag: self.display.draw_flag,
            keys: self.keypad.keys@,
        }
    }
}


/// Cell (`cx`, `cy`) is covered by one of the first `row` sprite rows, or by
/// one of the first `col` bits of row `row`.
spec fn drawn_before(n: u8, vx: u8, vy: u8, row: int, col: int, cx: int, cy: int) -> bool {
    let r = (cy - vy) % 32;
    let c = (cx - vx) % 64;
    r < n && c < 8 && (r < row || (r == row && c < col))
}

/// Cell (`wx`, `wy`) is already drawn and a set sprite bit met a set pixel there.
spec fn collision_at(s: CpuState, vx: u8, vy: u8, n: u8, row: int, col: int, wx: int, wy: int) -> bool {
    &&& 0 <= wx < 64
    &&& 0 <= wy < 32
    &&& drawn_before(n, vx, vy, row, col, wx, wy)
    &&& (sprite_cover(s.memory, s.i, n, vx, vy, wx, wy) & s.screen[wy][wx]) == 1
}

/// Some cell drawn so far produced a collision.
spec fn collided_before(s: CpuState, vx: u8, vy: u8, n: u8, row: int, col: int) -> bool {
    exists|wx: int, wy: int| #[trigger] collision_at(s, vx, vy, n, row, col, wx, wy)
}

/// Wrapping an offset `d` below `m` from `v` lands on the one cell whose
/// distance from `v`, modulo `m`, is `d`.
proof fn lemma_cell_offset(v: int, d: int, m: int)
    requires
        0 <= v,
        0 <= d < m,
        m == 32 || m == 64,
    ensures
        ((v + d) % m - v) % m == d,
        forall|c: int| 0 <= c < m && #[trigger] ((c - v) % m) == d ==> c == (v + d) % m,
{
    let q = (v + d) / m;
    assert((v + d) % m == v + d - m * q) by (nonlinear_arith)
        requires
            m > 0,
            q == (v + d) / m,
    ;
    assert(m * (-q) == -(m * q)) by (nonlinear_arith);
    lemma_mod_multiples_vanish(-q, d, m);
    lemma_small_mod(d as nat, m as nat);
    assert((v + d) % m - v == m * (-q) + d);
    assert forall|c: int| 0 <= c < m && #[trigger] ((c - v) % m) == d implies c == (v + d) % m by {
        let p = (c - v) / m;
        assert(c - v == m * p + d) by (nonlinear_arith)
            requires
                m > 0,
                p == (c - v) / m,
                (c - v) % m == d,
        ;
        assert(m * (-p) == -(m * p)) by (nonlinear_arith);
        lemma_mod_multiples_vanish(-p, c, m);
        lemma_small_mod(c as nat, m as nat);
        assert(v + d == m * (-p) + c);
    }
}

/// Relies on `rand::random` (the thread-local generator): a byte of which
/// nothing is known.
#[verifier::external_body]
fn random_byte() -> (r: u8) {
    rand::random::<u8>()
}

/// The big-endian word stored at `index` and `index + 1`.
fn read_word(memory: &[u8; 4096], index: u16) -> (r: u16)
    requires
        index + 1 < MEMORY_SIZE,
    ensures
        r == word_at(memory@, index as int),
{
    (memory[index as usize] as u16) * 256 + memory[index as usize + 1] as u16
}

/// The state right after `reset`: font at the bottom of memory, everything
/// else zeroed, `PC` at the program start, screen blank and due for repaint,
/// no key held.
pub open spec fn reset_state() -> CpuState {
    CpuState {
        i: 0,
        pc: PROGRAM_START,
        memory: Seq::new(MEMORY_SIZE as nat, |a: int| if a < 80 { FONT_SET@[a] } else { 0u8 }),
        v: Seq::new(16, |k: int| 0u8),
        stack: Seq::new(STACK_DEPTH as nat, |k: int| 0u16),
        sp: 0,
        dt: 0,
        st: 0,
        screen: blank_screen(),
        draw_flag: true,
        keys: Seq::new(16, |k: int| false),
    }
}

/// The state after `data` is copied into memory from the program start on;
/// what would lie past the end of memory is dropped.
pub open spec fn loaded_state(s: CpuState, data: Seq<u8>) -> CpuState {
    CpuState {
        memory: Seq::new(
            s.memory.len(),
            |a: int|
                if PROGRAM_START <= a < PROGRAM_START + data.len() {
                    data[a - PROGRAM_START]
                } else {
                    s.memory[a]
                },
        ),
        ..s
    }
}

impl Cpu {
    /// A processor with everything zeroed, `PC` included; call `reset` before use.
    pub fn new() -> (r: Cpu)
        ensures
            r.i == 0 && r.pc == 0 && r.sp == 0 && r.dt == 0 && r.st == 0,
            forall|a: int| 0 <= a < MEMORY_SIZE ==> #[trigger] r.memory@[a] == 0,
            forall|k: int| 0 <= k < 16 ==> #[trigger] r.v@[k] == 0,
            forall|k: int| 0 <= k < STACK_DEPTH ==> #[trigger] r.stack@[k] == 0,
            forall|k: int| 0 <= k < 16 ==> !#[trigger] r.keypad@[k],
            r.display.is_blank(),
            !r.display.draw_flag,
    {
        Cpu {
            i: 0,
            pc: 0,
            memory: [0u8; 4096],
            v: [0u8; 16],
            stack: [0u16; 16],
            display: Display::new(),
            keypad: Keypad::new(),
            sp: 0,
            st: 0,
            dt: 0,
        }
    }

    /// Decrements each timer that is not yet zero.
    pub fn decrement_timers(&mut self)
        ensures
            final(self)@ == (CpuState {
                dt: if old(self).dt > 0 { (old(self).dt - 1) as u8 } else { 0 },
                st: if old(self).st > 0 { (old(self).st - 1) as u8 } else { 0 },
                ..old(self)@
            }),
    {
        if self.dt > 0 {
            self.dt -= 1;
        }
        if self.st > 0 {
            self.st -= 1;
        }
    }

    /// Puts the machine in its start state: registers, stack, timers and
    /// memory zeroed, the font loaded at address 0, `PC` at the program
    /// start, every key released, the screen cleared and marked for repaint.
    pub fn reset(&mut self)
        ensures
            final(self)@ == reset_state(),
    {
        self.i = 0;
        self.pc = PROGRAM_START;
        self.memory = [0u8; 4096];
        self.v = [0u8; 16];
        self.stack = [0u16; 16];
        self.display.cls();
        let mut k: usize = 0;
        while k < 16
            invariant
                k <= 16,
                forall|j: int| 0 <= j < k ==> !#[trigger] self.keypad@[j],
                self.display.is_blank(),
                self.display.draw_flag,
                self.i == 0,
                self.pc == PROGRAM_START,
                forall|a: int| 0 <= a < MEMORY_SIZE ==> #[trigger] self.memory@[a] == 0,
                forall|j: int| 0 <= j < 16 ==> #[trigger] self.v@[j] == 0,
                forall|j: int| 0 <= j < STACK_DEPTH ==> #[trigger] self.stack@[j] == 0,
            decreases 16 - k,
        {
            self.keypad.key_up(k);
            k += 1;
        }
        self.sp = 0;
        self.dt = 0;
        self.st = 0;
        let mut a: usize = 0;
        while a < 80
            invariant
                a <= 80,
                forall|b: int| 0 <= b < MEMORY_SIZE ==> #[trigger] self.memory@[b] == if b < a {
                    FONT_SET@[b]
                } else {
                    0u8
                },
                forall|j: int| 0 <= j < 16 ==> !#[trigger] self.keypad@[j],
                self.display.is_blank(),
                self.display.draw_flag,
                self.i == 0,
                self.pc == PROGRAM_START,
                self.sp == 0 && self.dt == 0 && self.st == 0,
                forall|j: int| 0 <= j < 16 ==> #[trigger] self.v@[j] == 0,
                forall|j: int| 0 <= j < STACK_DEPTH ==> #[trigger] self.stack@[j] == 0,
            decreases 80 - a,
        {
            self.memory[a] = FONT_SET[a];
            a += 1;
        }
        proof {
            let want = reset_state();
            assert(self@.memory =~= want.memory);
            assert(self@.v =~= want.v);
            assert(self@.stack =~= want.stack);
            assert forall|j: int| 0 <= j < 16 implies self@.keys[j] == want.keys[j] by {
                assert(!self.keypad@[j]);
            }
            assert(self@.keys =~= want.keys);
            assert forall|y: int| 0 <= y < HEIGHT implies #[trigger] self@.screen[y] =~= want.screen[y] by {
                assert forall|x: int| 0 <= x < WIDTH implies self@.screen[y][x] == 0 by {
                    assert(self.display.cell(x, y) == 0);
                }
            }
            assert(self@.screen =~= want.screen);
        }
    }

    /// Copies a program into memory from the program start on; bytes that
    /// would lie past the end of memory are dropped.
    pub fn load(&mut self, data: &[u8])
        ensures
            final(self)@ == loaded_state(old(self)@, data@),
    {
        let start = PROGRAM_START as usize;
        let mut k: usize = 0;
        while k < data.len() && start + k < MEMORY_SIZE
            invariant
                k <= data.len(),
                start == PROGRAM_START,
                start + k <= MEMORY_SIZE,
                self@ == (CpuState { memory: self.memory@, ..old(self)@ }),
                forall|a: int|
                    0 <= a < MEMORY_SIZE ==> #[trigger] self.memory@[a] == if start <= a < start + k {
                        data@[a - start]
                    } else {
                        old(self)@.memory[a]
                    },
            decreases data.len() - k,
        {
            self.memory[start + k] = data[k];
            k += 1;
        }
        assert(self.memory@ =~= loaded_state(old(self)@, data@).memory);
    }

    /// Fetches the word at `PC` and executes it (see `process_opcode`).
    pub fn execute(&mut self) -> (r: Result<Outcome, HaltReason>)
        ensures
            old(self).pc + 2 > MEMORY_SIZE ==> r == Err::<Outcome, HaltReason>(
                HaltReason::ProgramCounterOutOfBounds,
            ) && final(self)@ == old(self)@,
            old(self).pc + 2 <= MEMORY_SIZE ==> {
                let w = word_at(old(self)@.memory, old(self).pc as int);
                &&& r == step_result(old(self)@, w)
                &&& exists|rnd: u8| final(self)@ == #[trigger] step_state(old(self)@, w, rnd)
            },
    {
        if self.pc as usize + 2 > MEMORY_SIZE {
            return Err(HaltReason::ProgramCounterOutOfBounds);
        }
        let opcode = read_word(&self.memory, self.pc);
        self.process_opcode(opcode)
    }

    /// Executes one instruction word, drawing a random byte for `Cxkk`.
    pub fn process_opcode(&mut self, opcode: u16) -> (r: Result<Outcome, HaltReason>)
        ensures
            r == step_result(old(self)@, opcode),
            exists|rnd: u8| final(self)@ == #[trigger] step_state(old(self)@, opcode, rnd),
    {
        let rnd = random_byte();
        self.apply_opcode(opcode, rnd)
    }

    /// The reason, if any, why `ins` cannot run in the current state.
    fn check(&self, ins: Instruction) -> (r: Option<HaltReason>)
        requires
            operands_in_range(ins),
        ensures
            r == fault(self@, ins),
    {
        if self.pc as usize + 2 > MEMORY_SIZE {
            return Some(HaltReason::ProgramCounterOutOfBounds);
        }
        match ins {
            Instruction::Return => if self.sp == 0 {
                Some(HaltReason::StackUnderflow)
            } else if self.sp as usize > STACK_DEPTH {
                Some(HaltReason::StackOverflow)
            } else {
                None
            },
            Instruction::Call { .. } => if self.sp as usize >= STACK_DEPTH {
                Some(HaltReason::StackOverflow)
            } else {
                None
            },
            Instruction::Draw { n, .. } => if n > 0 && self.i as usize + n as usize > MEMORY_SIZE {
                Some(HaltReason::MemoryOutOfBounds)
            } else {
                None
            },
            Instruction::SkipIfKey { x } | Instruction::SkipIfNotKey { x } => if self.v[x] >= 16 {
                Some(HaltReason::KeyOutOfRange)
            } else {
                None
            },
            Instruction::StoreBcd { .. } => if self.i as usize + 3 > MEMORY_SIZE {
                Some(HaltReason::MemoryOutOfBounds)
            } else {
                None
            },
            Instruction::StoreRegs { x } | Instruction::LoadRegs { x } => if self.i as usize + x + 1
                > MEMORY_SIZE {
                Some(HaltReason::MemoryOutOfBounds)
            } else {
                None
            },
            _ => None,
        }
    }

    /// Executes one instruction word with `rnd` as the random byte that
    /// `Cxkk` masks. On a fault nothing changes; otherwise `PC` moves past the
    /// word and the instruction takes effect. A word that is no instruction
    /// only moves `PC` and is reported as `Unhandled`.
    pub fn apply_opcode(&mut self, opcode: u16, rnd: u8) -> (r: Result<Outcome, HaltReason>)
        ensures
            r == step_result(old(self)@, opcode),
            final(self)@ == step_state(old(self)@, opcode, rnd),
    {
        let ins = decode(opcode);
        if let Some(h) = self.check(ins) {
            return Err(h);
        }
        self.pc += 2;
        match ins {
            Instruction::ClearScreen => self.op_00e0(),
            Instruction::Return => self.op_00ee(),
            Instruction::Jump { addr } => self.op_1nnn(addr),
            Instruction::Call { addr } => self.op_2nnn(addr),
            Instruction::SkipIfEqImm { x, kk } => self.op_3xkk(x, kk),
            Instruction::SkipIfNeImm { x, kk } => self.op_4xkk(x, kk),
            Instruction::SkipIfEqReg { x, y } => self.op_5xy0(x, y),
            Instruction::LoadImm { x, kk } => self.op_6xkk(x, kk),
            Instruction::AddImm { x, kk } => self.op_7xkk(x, kk),
            Instruction::Move { x, y } => self.op_8xy0(x, y),
            Instruction::Or { x, y } => self.op_8xy1(x, y),
            Instruction::And { x, y } => self.op_8xy2(x, y),
            Instruction::Xor { x, y } => self.op_8xy3(x, y),
            Instruction::AddReg { x, y } => self.op_8xy4(x, y),
            Instruction::SubReg { x, y } => self.op_8xy5(x, y),
            Instruction::ShiftRight { x, y } => self.op_8xy6(x, y),
            Instruction::SubReversed { x, y } => self.op_8xy7(x, y),
            Instruction::ShiftLeft { x, y } => self.op_8xye(x, y),
            Instruction::SkipIfNeReg { x, y } => self.op_9xy0(x, y),
            Instruction::LoadIndex { addr } => self.op_annn(addr),
            Instruction::JumpOffset { addr } => self.op_bnnn(addr),
            Instruction::Random { x, kk } => self.op_cxkk(x, kk, rnd),
            Instruction::Draw { x, y, n } => self.op_dxyn(x, y, n),
            Instruction::SkipIfKey { x } => self.op_ex9e(x),
            Instruction::SkipIfNotKey { x } => self.op_exa1(x),
            Instruction::LoadDelay { x } => self.op_fx07(x),
            Instruction::WaitKey { x } => self.op_fx0a(x),
            Instruction::SetDelay { x } => self.op_fx15(x),
            Instruction::SetSound { x } => self.op_fx18(x),
            Instruction::AddIndex { x } => self.op_fx1e(x),
            Instruction::LoadFont { x } => self.op_fx29(x),
            Instruction::StoreBcd { x } => self.op_fx33(x),
            Instruction::StoreRegs { x } => self.op_fx55(x),
            Instruction::LoadRegs { x } => self.op_fx65(x),
            Instruction::Unknown => {},
        }
        match ins {
            Instruction::Unknown => Ok(Outcome::Unhandled),
            _ => Ok(Outcome::Executed),
        }
    }

    /// Executes `00E0`; `PC` already points past it.
    fn op_00e0(&mut self)
        ensures
            final(self)@ == apply(old(self)@, Instruction::ClearScreen, 0),
    {
        self.display.cls();
        assert forall|y: int| 0 <= y < HEIGHT implies #[trigger] self@.screen[y] =~= blank_screen()[y] by {
            assert forall|x: int| 0 <= x < WIDTH implies self@.screen[y][x] == 0 by {
                assert(self.display.cell(x, y) == 0);
            }
        }
        assert(self@.screen =~= blank_screen());
    }

    /// Executes `00EE`; `PC` already points past it.
    fn op_00ee(&mut self)
        requires
            1 <= self.sp <= STACK_DEPTH,
        ensures
            final(self)@ == apply(old(self)@, Instruction::Return, 0),
    {
        self.pc = self.stack[(self.sp - 1) as usize];
        self.sp -= 1;
    }

    /// Executes `1nnn`; `PC` already points past it.
    fn op_1nnn(&mut self, nnn: u16)
        ensures
            final(self)@ == apply(old(self)@, Instruction::Jump { addr: nnn }, 0),
    {
        self.pc = nnn;
    }

    /// Executes `2nnn`; `PC` already points past it.
    fn op_2nnn(&mut self, nnn: u16)
        requires
            self.sp < STACK_DEPTH,
        ensures
            final(self)@ == apply(old(self)@, Instruction::Call { addr: nnn }, 0),
    {
        self.stack[self.sp as usize] = self.pc;
        self.sp += 1;
        self.pc = nnn;
    }

    /// Executes `3xkk`; `PC` already points past it.
    fn op_3xkk(&mut self, x: usize, kk: u8)
        requires
            x < 16,
            self.pc <= MEMORY_SIZE,
        ensures
            final(self)@ == apply(old(self)@, Instruction::SkipIfEqImm { x, kk }, 0),
    {
        if self.v[x] == kk {
            self.pc += 2;
        }
    }

    /// Executes `4xkk`; `PC` already points past it.
    fn op_4xkk(&mut self, x: usize, kk: u8)
        requires
            x < 16,
            self.pc <= MEMORY_SIZE,
        ensures
            final(self)@ == apply(old(self)@, Instruction::SkipIfNeImm { x, kk }, 0),
    {
        if self.v[x] != kk {
            self.pc += 2;
        }
    }

    /// Executes `5xy0`; `PC` already points past it.
    fn op_5xy0(&mut self, x: usize, y: usize)
        requires
            x < 16,
            y < 16,
            self.pc <= MEMORY_SIZE,
        ensures
            final(self)@ == apply(old(self)@, Instruction::SkipIfEqReg { x, y }, 0),
    {
        if self.v[x] == self.v[y] {
            self.pc += 2;
        }
    }

    /// Executes `6xkk`; `PC` already points past it.
    fn op_6xkk(&mut self, x: usize, kk: u8)
        requires
            x < 16,
        ensures
            final(self)@ == apply(old(self)@, Instruction::LoadImm { x, kk }, 0),
    {
        self.v[x] = kk;
    }

    /// Executes `7xkk`; `PC` already points past it.
    fn op_7xkk(&mut self, x: usize, kk: u8)
        requires
            x < 16,
        ensures
            final(self)@ == apply(old(self)@, Instruction::AddImm { x, kk }, 0),
    {
        self.v[x] = self.v[x].wrapping_add(kk);
    }

    /// Executes `8xy0`; `PC` already points past it.
    fn op_8xy0(&mut self, x: usize, y: usize)
        requires
            x < 16,
            y < 16,
        ensures
            final(self)@ == apply(old(self)@, Instruction::Move { x, y }, 0),
    {
        self.v[x] = self.v[y];
    }

    /// Executes `8xy1`; `PC` already points past it.
    fn op_8xy1(&mut self, x: usize, y: usize)
        requires
            x < 16,
            y < 16,
        ensures
            final(self)@ == apply(old(self)@, Instruction::Or { x, y }, 0),
    {
        self.v[x] = self.v[x] | self.v[y];
    }

    /// Executes `8xy2`; `PC` already points past it.
    fn op_8xy2(&mut self, x: usize, y: usize)
        requires
            x < 16,
            y < 16,
        ensures
            final(self)@ == apply(old(self)@, Instruction::And { x, y }, 0),
    {
        self.v[x] = self.v[x] & self.v[y];
    }

    /// Executes `8xy3`; `PC` already points past it.
    fn op_8xy3(&mut self, x: usize, y: usize)
        requires
            x < 16,
            y < 16,
        ensures
            final(self)@ == apply(old(self)@, Instruction::Xor { x, y }, 0),
    {
        self.v[x] = self.v[x] ^ self.v[y];
    }

    /// Executes `8xy4`; `PC` already points past it.
    fn op_8xy4(&mut self, x: usize, y: usize)
        requires
            x < 16,
            y < 16,
        ensures
            final(self)@ == apply(old(self)@, Instruction::AddReg { x, y }, 0),
    {
        let sum: u16 = self.v[x] as u16 + self.v[y] as u16;
        self.v[x] = (sum % 256) as u8;
        self.v[FLAG] = if sum > 0xFF { 1 } else { 0 };
    }

    /// Executes `8xy5`; `PC` already points past it.
    fn op_8xy5(&mut self, x: usize, y: usize)
        requires
            x < 16,
            y < 16,
        ensures
            final(self)@ == apply(old(self)@, Instruction::SubReg { x, y }, 0),
    {
        self.v[FLAG] = if self.v[x] > self.v[y] { 1 } else { 0 };
        self.v[x] = self.v[x].wrapping_sub(self.v[y]);
    }

    /// Executes `8xy6`; `PC` already points past it.
    fn op_8xy6(&mut self, x: usize, y: usize)
        requires
            x < 16,
            y < 16,
        ensures
            final(self)@ == apply(old(self)@, Instruction::ShiftRight { x, y }, 0),
    {
        self.v[FLAG] = self.v[x] & 1;
        self.v[x] = self.v[x] >> 1;
    }

    /// Executes `8xy7`; `PC` already points past it.
    fn op_8xy7(&mut self, x: usize, y: usize)
        requires
            x < 16,
            y < 16,
        ensures
            final(self)@ == apply(old(self)@, Instruction::SubReversed { x, y }, 0),
    {
        self.v[FLAG] = if self.v[y] > self.v[x] { 1 } else { 0 };
        self.v[x] = self.v[y].wrapping_sub(self.v[x]);
    }

    /// Executes `8xyE`; `PC` already points past it.
    fn op_8xye(&mut self, x: usize, y: usize)
        requires
            x < 16,
            y < 16,
        ensures
            final(self)@ == apply(old(self)@, Instruction::ShiftLeft { x, y }, 0),
    {
        let b = self.v[x];
        self.v[FLAG] = (b & 0x80) >> 7;
        // read again: `x` may name `VF` itself
        let c = self.v[x];
        self.v[x] = c << 1;
        assert((b & 0x80) >> 7 == b >> 7u8) by (bit_vector);
        assert(c << 1 == ((c * 2) % 256) as u8) by (bit_vector);
    }

    /// Executes `9xy0`; `PC` already points past it.
    fn op_9xy0(&mut self, x: usize, y: usize)
        requires
            x < 16,
            y < 16,
            self.pc <= MEMORY_SIZE,
        ensures
            final(self)@ == apply(old(self)@, Instruction::SkipIfNeReg { x, y }, 0),
    {
        if self.v[x] != self.v[y] {
            self.pc += 2;
        }
    }

    /// Executes `Annn`; `PC` already points past it.
    fn op_annn(&mut self, nnn: u16)
        ensures
            final(self)@ == apply(old(self)@, Instruction::LoadIndex { addr: nnn }, 0),
    {
        self.i = nnn;
    }

    /// Executes `Bnnn`; `PC` already points past it.
    fn op_bnnn(&mut self, nnn: u16)
        requires
            nnn < 0x1000,
        ensures
            final(self)@ == apply(old(self)@, Instruction::JumpOffset { addr: nnn }, 0),
    {
        self.pc = nnn + self.v[0] as u16;
    }

    /// Executes `Cxkk`; `PC` already points past it.
    fn op_cxkk(&mut self, x: usize, kk: u8, rnd: u8)
        requires
            x < 16,
        ensures
            final(self)@ == apply(old(self)@, Instruction::Random { x, kk }, rnd),
    {
        self.v[x] = rnd & kk;
    }

    /// Executes `Ex9E`; `PC` already points past it.
    fn op_ex9e(&mut self, x: usize)
        requires
            x < 16,
            self.pc <= MEMORY_SIZE,
            self.v[x as int] < 16,
        ensures
            final(self)@ == apply(old(self)@, Instruction::SkipIfKey { x }, 0),
    {
        if self.keypad.is_key_down(self.v[x] as usize) {
            self.pc += 2;
        }
    }

    /// Executes `ExA1`; `PC` already points past it.
    fn op_exa1(&mut self, x: usize)
        requires
            x < 16,
            self.pc <= MEMORY_SIZE,
            self.v[x as int] < 16,
        ensures
            final(self)@ == apply(old(self)@, Instruction::SkipIfNotKey { x }, 0),
    {
        if !self.keypad.is_key_down(self.v[x] as usize) {
            self.pc += 2;
        }
    }

    /// Executes `Fx07`; `PC` already points past it.
    fn op_fx07(&mut self, x: usize)
        requires
            x < 16,
        ensures
            final(self)@ == apply(old(self)@, Instruction::LoadDelay { x }, 0),
    {
        self.v[x] = self.dt;
    }

    /// Executes `Fx15`; `PC` already points past it.
    fn op_fx15(&mut self, x: usize)
        requires
            x < 16,
        ensures
            final(self)@ == apply(old(self)@, Instruction::SetDelay { x }, 0),
    {
        self.dt = self.v[x];
    }

    /// Executes `Fx18`; `PC` already points past it.
    fn op_fx18(&mut self, x: usize)
        requires
            x < 16,
        ensures
            final(self)@ == apply(old(self)@, Instruction::SetSound { x }, 0),
    {
        self.st = self.v[x];
    }

    /// Executes `Fx1E`; `PC` already points past it.
    fn op_fx1e(&mut self, x: usize)
        requires
            x < 16,
        ensures
            final(self)@ == apply(old(self)@, Instruction::AddIndex { x }, 0),
    {
        self.i = self.i.wrapping_add(self.v[x] as u16);
        self.v[FLAG] = if self.i > 0x0F00 { 1 } else { 0 };
    }

    /// Executes `Fx29`; `PC` already points past it.
    fn op_fx29(&mut self, x: usize)
        requires
            x < 16,
        ensures
            final(self)@ == apply(old(self)@, Instruction::LoadFont { x }, 0),
    {
        self.i = (self.v[x] as u16) * 5;
    }

    /// Executes `Fx33`; `PC` already points past it.
    fn op_fx33(&mut self, x: usize)
        requires
            x < 16,
            self.i + 3 <= MEMORY_SIZE,
        ensures
            final(self)@ == apply(old(self)@, Instruction::StoreBcd { x }, 0),
    {
        let b = self.v[x];
        let i = self.i as usize;
        self.memory[i] = b / 100;
        self.memory[i + 1] = (b % 100) / 10;
        self.memory[i + 2] = b % 10;
    }

    /// Executes `Fx0A`; `PC` already points past it.
    fn op_fx0a(&mut self, x: usize)
        requires
            x < 16,
            old(self).pc >= 2,
        ensures
            final(self)@ == apply(old(self)@, Instruction::WaitKey { x }, 0),
    {
        self.pc -= 2;
        let mut found = false;
        let mut k: usize = 0;
        while k < 16
            invariant
                k <= 16,
                x < 16,
                old(self).pc >= 2,
                found == last_key_down(old(self)@.keys, k as int).is_some(),
                self@ == (match last_key_down(old(self)@.keys, k as int) {
                    Some(j) => CpuState {
                        pc: (old(self).pc - 2) as u16,
                        ..set_v(old(self)@, x as int, j as u8)
                    },
                    None => CpuState { pc: (old(self).pc - 2) as u16, ..old(self)@ },
                }),
            decreases 16 - k,
        {
            proof {
                lemma_last_key_down_bound(old(self)@.keys, k as int);
            }
            if self.keypad.keys[k] {
                self.v[x] = k as u8;
                found = true;
                assert(self.v@ =~= old(self)@.v.update(x as int, k as u8));
            }
            k += 1;
        }
        if found {
            self.pc += 2;
        }
    }

    /// Executes `Fx55`; `PC` already points past it.
    fn op_fx55(&mut self, x: usize)
        requires
            x < 16,
            old(self).i + x + 1 <= MEMORY_SIZE,
        ensures
            final(self)@ == apply(old(self)@, Instruction::StoreRegs { x }, 0),
    {
        let base = self.i as usize;
        let mut k: usize = 0;
        while k <= x
            invariant
                x < 16,
                k <= x + 1,
                base == old(self).i,
                base + x + 1 <= MEMORY_SIZE,
                self@ == (CpuState { memory: self.memory@, ..old(self)@ }),
                forall|a: int|
                    0 <= a < MEMORY_SIZE ==> #[trigger] self.memory@[a] == if base <= a < base + k {
                        old(self)@.v[a - base]
                    } else {
                        old(self)@.memory[a]
                    },
            decreases x + 1 - k,
        {
            self.memory[base + k] = self.v[k];
            k += 1;
        }
        assert(self.memory@ =~= apply(old(self)@, Instruction::StoreRegs { x }, 0).memory);
    }

    /// Executes `Fx65`; `PC` already points past it.
    fn op_fx65(&mut self, x: usize)
        requires
            x < 16,
            old(self).i + x + 1 <= MEMORY_SIZE,
        ensures
            final(self)@ == apply(old(self)@, Instruction::LoadRegs { x }, 0),
    {
        let base = self.i as usize;
        let mut k: usize = 0;
        while k <= x
            invariant
                x < 16,
                k <= x + 1,
                base == old(self).i,
                base + x + 1 <= MEMORY_SIZE,
                self@ == (CpuState { v: self.v@, ..old(self)@ }),
                forall|r: int|
                    0 <= r < 16 ==> #[trigger] self.v@[r] == if r < k {
                        old(self)@.memory[base + r]
                    } else {
                        old(self)@.v[r]
                    },
            decreases x + 1 - k,
        {
            self.v[k] = self.memory[base + k];
            k += 1;
        }
        assert(self.v@ =~= apply(old(self)@, Instruction::LoadRegs { x }, 0).v);
    }

    /// Executes `Dxyn`; `PC` already points past it.
    fn op_dxyn(&mut self, x: usize, y: usize, n: u8)
        requires
            x < 16,
            y < 16,
            n < 16,
            n == 0 || old(self).i + n <= MEMORY_SIZE,
        ensures
            final(self)@ == apply(old(self)@, Instruction::Draw { x, y, n }, 0),
    {
        let ghost s0 = self@;
        let vx = self.v[x];
        let vy = self.v[y];
        self.v[FLAG] = 0;
        let base = self.i as usize;
        let mut row: u8 = 0;
        while row < n
            invariant
                row <= n,
                n < 16,
                x < 16,
                y < 16,
                base == s0.i,
                n == 0 || base + n <= MEMORY_SIZE,
                s0 == old(self)@,
                vx == s0.v[x as int],
                vy == s0.v[y as int],
                self@ == (CpuState { screen: self@.screen, v: s0.v.update(FLAG as int, self.v@[FLAG as int]), ..s0 }),
                self.v@[FLAG as int] == (if collided_before(s0, vx, vy, n, row as int, 0) { 1u8 } else { 0u8 }),
                forall|cx: int, cy: int|
                    0 <= cx < WIDTH && 0 <= cy < HEIGHT ==> #[trigger] self.display.cell(cx, cy) == if drawn_before(n, vx, vy, row as int, 0, cx, cy) {
                        s0.screen[cy][cx] ^ sprite_cover(s0.memory, s0.i, n, vx, vy, cx, cy)
                    } else {
                        s0.screen[cy][cx]
                    },
            decreases n - row,
        {
            let cy = ((vy as usize) + (row as usize)) % HEIGHT;
            let byte = self.memory[base + row as usize];
            let mut col: u8 = 0;
            while col < 8
                invariant
                    row < n,
                    col <= 8,
                    n < 16,
                    x < 16,
                    y < 16,
                    base == s0.i,
                    base + n <= MEMORY_SIZE,
                    s0 == old(self)@,
                    vx == s0.v[x as int],
                    vy == s0.v[y as int],
                    cy == (vy + row) % 32,
                    byte == s0.memory[base + row],
                    self@ == (CpuState { screen: self@.screen, v: s0.v.update(FLAG as int, self.v@[FLAG as int]), ..s0 }),
                    self.v@[FLAG as int] == (if collided_before(s0, vx, vy, n, row as int, col as int) { 1u8 } else { 0u8 }),
                    forall|cx: int, cy: int|
                        0 <= cx < WIDTH && 0 <= cy < HEIGHT ==> #[trigger] self.display.cell(cx, cy) == if drawn_before(n, vx, vy, row as int, col as int, cx, cy) {
                            s0.screen[cy][cx] ^ sprite_cover(s0.memory, s0.i, n, vx, vy, cx, cy)
                        } else {
                            s0.screen[cy][cx]
                        },
                decreases 8 - col,
            {
                let cx = ((vx as usize) + (col as usize)) % WIDTH;
                let bit = (byte >> (7 - col)) & 1;
                let old_px = self.display.memory[cy][cx];
                let flag = self.v[FLAG];
                let ghost d0 = self.display;
                proof {
                    lemma_cell_offset(vx as int, col as int, 64);
                    lemma_cell_offset(vy as int, row as int, 32);
                    assert(bit == sprite_cover(s0.memory, s0.i, n, vx, vy, cx as int, cy as int));
                    assert(old_px == self.display.cell(cx as int, cy as int));
                    assert(old_px == s0.screen[cy as int][cx as int]);
                    assert(bit <= 1) by (bit_vector)
                        requires
                            bit == (byte >> ((7 - col) as u8)) & 1u8;
                    assert(bit <= 1 && flag <= 1 ==> (flag | (bit & old_px)) == if flag == 1 || (bit & old_px) == 1 { 1u8 } else { 0u8 }) by (bit_vector);
                }
                self.v[FLAG] = flag | (bit & old_px);
                let mut line = self.display.memory[cy];
                line[cx] = old_px ^ bit;
                self.display.memory[cy] = line;
                proof {
                    assert(self.v@ =~= s0.v.update(FLAG as int, self.v@[FLAG as int]));
                    assert forall|ax: int, ay: int| 0 <= ax < WIDTH && 0 <= ay < HEIGHT implies #[trigger] self.display.cell(ax, ay) == if drawn_before(n, vx, vy, row as int, col as int + 1, ax, ay) {
                        s0.screen[ay][ax] ^ sprite_cover(s0.memory, s0.i, n, vx, vy, ax, ay)
                    } else {
                        s0.screen[ay][ax]
                    } by {
                        if ax != cx || ay != cy {
                            assert(self.display.cell(ax, ay) == d0.cell(ax, ay));
                            assert(drawn_before(n, vx, vy, row as int, col as int + 1, ax, ay) == drawn_before(n, vx, vy, row as int, col as int, ax, ay));
                        }
                    }
                    if collided_before(s0, vx, vy, n, row as int, col as int) {
                        let (wx, wy) = choose|wx: int, wy: int| #[trigger] collision_at(s0, vx, vy, n, row as int, col as int, wx, wy);
                        assert(collision_at(s0, vx, vy, n, row as int, col as int + 1, wx, wy));
                    }
                    if (bit & old_px) == 1 {
                        assert(collision_at(s0, vx, vy, n, row as int, col as int + 1, cx as int, cy as int));
                    }
                    if collided_before(s0, vx, vy, n, row as int, col as int + 1) {
                        let (wx, wy) = choose|wx: int, wy: int| #[trigger] collision_at(s0, vx, vy, n, row as int, col as int + 1, wx, wy);
                        if wx != cx || wy != cy {
                            assert(collision_at(s0, vx, vy, n, row as int, col as int, wx, wy));
                        }
                    }
                }
                col += 1;
            }
            proof {
                assert forall|cx: int, cy: int| 0 <= cx < WIDTH && 0 <= cy < HEIGHT implies drawn_before(n, vx, vy, row as int, 8, cx, cy) == drawn_before(n, vx, vy, row as int + 1, 0, cx, cy) by {}
                if collided_before(s0, vx, vy, n, row as int, 8) {
                    let (wx, wy) = choose|wx: int, wy: int| #[trigger] collision_at(s0, vx, vy, n, row as int, 8, wx, wy);
                    assert(collision_at(s0, vx, vy, n, row as int + 1, 0, wx, wy));
                }
                if collided_before(s0, vx, vy, n, row as int + 1, 0) {
                    let (wx, wy) = choose|wx: int, wy: int| #[trigger] collision_at(s0, vx, vy, n, row as int + 1, 0, wx, wy);
                    assert(collision_at(s0, vx, vy, n, row as int, 8, wx, wy));
                }
            }
            row += 1;
        }
        let ghost d1 = self.display;
        self.display.draw_flag = true;
        proof {
            let want = apply(s0, Instruction::Draw { x, y, n }, 0);
            assert forall|cy: int| 0 <= cy < HEIGHT implies #[trigger] self@.screen[cy] =~= want.screen[cy] by {
                assert forall|cx: int| 0 <= cx < WIDTH implies self@.screen[cy][cx] == want.screen[cy][cx] by {
                    assert(self.display.cell(cx, cy) == self@.screen[cy][cx]);
                    assert(want.screen[cy][cx] == s0.screen[cy][cx] ^ sprite_cover(s0.memory, s0.i, n, vx, vy, cx, cy));
                    if !drawn_before(n, vx, vy, n as int, 0, cx, cy) {
                        assert(sprite_cover(s0.memory, s0.i, n, vx, vy, cx, cy) == 0);
                        let p = s0.screen[cy][cx];
                        assert(p ^ 0u8 == p) by (bit_vector);
                        assert(d1.cell(cx, cy) == p);
                    } else {
                        assert(d1.cell(cx, cy) == s0.screen[cy][cx] ^ sprite_cover(s0.memory, s0.i, n, vx, vy, cx, cy));
                    }
                }
            }
            assert(self@.screen =~= want.screen);
            if collides(s0, vx, vy, n) {
                let (wx, wy) = choose|wx: int, wy: int| 0 <= wx < 64 && 0 <= wy < 32 && #[trigger] (sprite_cover(s0.memory, s0.i, n, vx, vy, wx, wy) & s0.screen[wy][wx]) == 1;
                if !drawn_before(n, vx, vy, n as int, 0, wx, wy) {
                    let p = s0.screen[wy][wx];
                    assert(0u8 & p == 0) by (bit_vector);
                }
                assert(collision_at(s0, vx, vy, n, n as int, 0, wx, wy));
            }
            if collided_before(s0, vx, vy, n, n as int, 0) {
                let (wx, wy) = choose|wx: int, wy: int| #[trigger] collision_at(s0, vx, vy, n, n as int, 0, wx, wy);
                assert(0 <= wx < 64 && 0 <= wy < 32 && (sprite_cover(s0.memory, s0.i, n, vx, vy, wx, wy) & s0.screen[wy][wx]) == 1);
            }
            assert(self.v@ =~= want.v);
        }
    }
}

} // verus!
