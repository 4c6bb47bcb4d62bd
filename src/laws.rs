use vstd::prelude::*;
use vstd::arithmetic::div_mod::lemma_fundamental_div_mod_converse;
use crate::cpu::Cpu;
use crate::instruction::{decode_spec, nib0, nib1, nib2, nib3, Instruction};
use crate::model::{
    set_v, sprite_bit, sprite_cover, step_result, step_state, CpuState, FLAG, MEMORY_SIZE,
};

verus! {

/// The word with nibbles `a`, `b`, `c`, `d`, highest first.
pub open spec fn word(a: int, b: int, c: int, d: int) -> u16 {
    (a * 0x1000 + b * 0x100 + c * 0x10 + d) as u16
}

/// A word assembled from four nibbles splits back into them.
proof fn lemma_word_nibbles(a: int, b: int, c: int, d: int)
    requires
        0 <= a < 16,
        0 <= b < 16,
        0 <= c < 16,
        0 <= d < 16,
    ensures
        nib0(word(a, b, c, d)) == a,
        nib1(word(a, b, c, d)) == b,
        nib2(word(a, b, c, d)) == c,
        nib3(word(a, b, c, d)) == d,
        word(a, b, c, d) % 0x100 == c * 0x10 + d,
        word(a, b, c, d) % 0x1000 == b * 0x100 + c * 0x10 + d,
{
    let w = a * 0x1000 + b * 0x100 + c * 0x10 + d;
    assert(word(a, b, c, d) == w);
    lemma_fundamental_div_mod_converse(w, 0x1000, a, b * 0x100 + c * 0x10 + d);
    lemma_fundamental_div_mod_converse(w, 0x100, a * 0x10 + b, c * 0x10 + d);
    lemma_fundamental_div_mod_converse(a * 0x10 + b, 0x10, a, b);
    lemma_fundamental_div_mod_converse(w, 0x10, a * 0x100 + b * 0x10 + c, d);
    lemma_fundamental_div_mod_converse(a * 0x100 + b * 0x10 + c, 0x10, a * 0x10 + b, c);
}

/// `6xkk` puts exactly `kk` in `Vx`; it runs whenever `PC` leaves room for it.
pub proof fn law_load_immediate(c: Cpu, x: int, kk: u8, rnd: u8)
    requires
        0 <= x < 16,
    ensures
        step_result(c@, word(6, x, kk as int / 16, kk as int % 16)) is Ok <==> c.pc + 2 <= MEMORY_SIZE,
        step_result(c@, word(6, x, kk as int / 16, kk as int % 16)) is Ok ==> step_state(
            c@,
            word(6, x, kk as int / 16, kk as int % 16),
            rnd,
        ).v[x] == kk,
{
    lemma_word_nibbles(6, x, kk as int / 16, kk as int % 16);
}

/// `8xy4` leaves `(Vx + Vy) mod 256` in `Vx` and sets `VF` to 1 exactly
/// when the sum exceeds 255 (for any `x` but `F`, since `VF` then holds the
/// carry).
pub proof fn law_add_with_carry(c: Cpu, x: int, y: int, rnd: u8)
    requires
        0 <= x < 16,
        0 <= y < 16,
        x != FLAG,
    ensures
        step_result(c@, word(8, x, y, 4)) is Ok <==> c.pc + 2 <= MEMORY_SIZE,
        step_result(c@, word(8, x, y, 4)) is Ok ==> {
            let a = c@.v[x];
            let b = c@.v[y];
            let t = step_state(c@, word(8, x, y, 4), rnd);
            &&& t.v[x] == (a + b) % 256
            &&& t.v[FLAG as int] == if a + b > 255 { 1u8 } else { 0u8 }
        },
{
    lemma_word_nibbles(8, x, y, 4);
}

/// `8xy5` sets `VF` to 1 exactly when `Vx > Vy` and leaves
/// `(Vx - Vy) mod 256` in `Vx` (for `x` and `y` other than `F`).
pub proof fn law_subtract_with_borrow(c: Cpu, x: int, y: int, rnd: u8)
    requires
        0 <= x < 16,
        0 <= y < 16,
        x != FLAG,
        y != FLAG,
    ensures
        step_result(c@, word(8, x, y, 5)) is Ok <==> c.pc + 2 <= MEMORY_SIZE,
        step_result(c@, word(8, x, y, 5)) is Ok ==> {
            let a = c@.v[x];
            let b = c@.v[y];
            let t = step_state(c@, word(8, x, y, 5), rnd);
            &&& t.v[x] == (a - b) % 256
            &&& t.v[FLAG as int] == if a > b { 1u8 } else { 0u8 }
        },
{
    lemma_word_nibbles(8, x, y, 5);
}

/// The shifts `8xy6` and `8xyE` do not read `Vy`: two states that differ
/// only in `Vy` (with `y != x`) end up differing at most in `Vy`.
pub proof fn law_shift_ignores_vy(c: Cpu, x: int, y: int, b: u8, left: bool, rnd: u8)
    requires
        0 <= x < 16,
        0 <= y < 16,
        y != x,
    ensures
        ({
            let w = word(8, x, y, if left { 0xE } else { 6 });
            let s2 = set_v(c@, y, b);
            let t1 = step_state(c@, w, rnd);
            let t2 = step_state(s2, w, rnd);
            &&& step_result(c@, w) == step_result(s2, w)
            &&& forall|k: int| 0 <= k < 16 && k != y ==> #[trigger] t2.v[k] == t1.v[k]
            &&& (CpuState { v: t1.v, ..t2 }) == t1
        }),
{
    lemma_word_nibbles(8, x, y, if left { 0xE } else { 6 });
}

/// A sprite bit is 0 or 1.
proof fn lemma_sprite_bit_small(row: u8, col: u8)
    ensures
        sprite_bit(row, col) <= 1,
{
    let sh = (7 - col) as u8;
    assert((row >> sh) & 1u8 <= 1) by (bit_vector);
}

/// Drawing the same sprite twice at the same place (`x` and `y` other than
/// `F`, so that the first draw's flag does not move it) restores every
/// pixel; the second draw reports a collision exactly where some set sprite
/// bit covers a pixel whose low bit was clear before the first draw.
pub proof fn law_draw_twice_restores(c: Cpu, x: int, y: int, n: int, rnd: u8)
    requires
        0 <= x < 16,
        0 <= y < 16,
        0 <= n < 16,
        x != FLAG,
        y != FLAG,
    ensures
        ({
            let w = word(0xD, x, y, n);
            let s0 = c@;
            let s1 = step_state(s0, w, rnd);
            let s2 = step_state(s1, w, rnd);
            step_result(s0, w) is Ok && step_result(s1, w) is Ok ==> {
                &&& s2.screen == s0.screen
                &&& s2.v[FLAG as int] == 1 <==> exists|cx: int, cy: int|
                    0 <= cx < 64 && 0 <= cy < 32 && #[trigger] sprite_cover(
                        s0.memory,
                        s0.i,
                        n as u8,
                        s0.v[x],
                        s0.v[y],
                        cx,
                        cy,
                    ) == 1 && s0.screen[cy][cx] & 1 == 0
            }
        }),
{
    let w = word(0xD, x, y, n);
    lemma_word_nibbles(0xD, x, y, n);
    let s0 = c@;
    let s1 = step_state(s0, w, rnd);
    let s2 = step_state(s1, w, rnd);
    if step_result(s0, w) is Ok && step_result(s1, w) is Ok {
        let vx = s0.v[x];
        let vy = s0.v[y];
        let nn = n as u8;
        assert(decode_spec(w) == Instruction::Draw { x: x as usize, y: y as usize, n: nn });
        assert(s1.v[x] == vx && s1.v[y] == vy);
        assert forall|cx: int, cy: int| 0 <= cx < 64 && 0 <= cy < 32 implies (sprite_cover(
            s0.memory,
            s0.i,
            nn,
            vx,
            vy,
            cx,
            cy,
        ) <= 1) by {
            let row = (cy - vy) % 32;
            let col = (cx - vx) % 64;
            if row < nn && col < 8 {
                lemma_sprite_bit_small(s0.memory[s0.i + row], col as u8);
            }
        }
        assert forall|cy: int| 0 <= cy < 32 implies #[trigger] s2.screen[cy] =~= s0.screen[cy] by {
            assert forall|cx: int| 0 <= cx < 64 implies s2.screen[cy][cx] == s0.screen[cy][cx] by {
                let p = s0.screen[cy][cx];
                let q = sprite_cover(s0.memory, s0.i, nn, vx, vy, cx, cy);
                assert((p ^ q) ^ q == p) by (bit_vector);
            }
        }
        assert(s2.screen =~= s0.screen);
        assert forall|cx: int, cy: int| 0 <= cx < 64 && 0 <= cy < 32 implies ((sprite_cover(
            s1.memory,
            s1.i,
            nn,
            vx,
            vy,
            cx,
            cy,
        ) & s1.screen[cy][cx]) == 1 <==> (sprite_cover(s0.memory, s0.i, nn, vx, vy, cx, cy) == 1
            && s0.screen[cy][cx] & 1 == 0)) by {
            let p = s0.screen[cy][cx];
            let q = sprite_cover(s0.memory, s0.i, nn, vx, vy, cx, cy);
            assert(q <= 1 ==> ((q & (p ^ q)) == 1 <==> (q == 1 && p & 1 == 0))) by (bit_vector);
        }
        if s2.v[FLAG as int] == 1 {
            let (cx, cy) = choose|cx: int, cy: int|
                0 <= cx < 64 && 0 <= cy < 32 && #[trigger] (sprite_cover(s1.memory, s1.i, nn, vx, vy, cx, cy)
                    & s1.screen[cy][cx]) == 1;
            assert(sprite_cover(s0.memory, s0.i, nn, vx, vy, cx, cy) == 1);
        }
        if exists|cx: int, cy: int|
            0 <= cx < 64 && 0 <= cy < 32 && #[trigger] sprite_cover(s0.memory, s0.i, nn, vx, vy, cx, cy)
                == 1 && s0.screen[cy][cx] & 1 == 0 {
            let (cx, cy) = choose|cx: int, cy: int|
                0 <= cx < 64 && 0 <= cy < 32 && #[trigger] sprite_cover(s0.memory, s0.i, nn, vx, vy, cx, cy)
                    == 1 && s0.screen[cy][cx] & 1 == 0;
            assert((sprite_cover(s1.memory, s1.i, nn, vx, vy, cx, cy) & s1.screen[cy][cx]) == 1);
        }
    }
}

/// `Fx55` followed by `Fx65` with the same `x` gives back every register:
/// the store leaves `I` as it was and the load reads what was stored.
pub proof fn law_store_then_load_registers(c: Cpu, x: int, rnd: u8)
    requires
        0 <= x < 16,
    ensures
        ({
            let s1 = step_state(c@, word(0xF, x, 5, 5), rnd);
            let s2 = step_state(s1, word(0xF, x, 6, 5), rnd);
            step_result(c@, word(0xF, x, 5, 5)) is Ok && step_result(s1, word(0xF, x, 6, 5)) is Ok
                ==> s1.i == c.i && s2.v == c@.v
        }),
{
    lemma_word_nibbles(0xF, x, 5, 5);
    lemma_word_nibbles(0xF, x, 6, 5);
    let s1 = step_state(c@, word(0xF, x, 5, 5), rnd);
    let s2 = step_state(s1, word(0xF, x, 6, 5), rnd);
    assert(s2.v =~= c@.v);
}

/// `00EE` right after `2nnn` brings `PC` back to the instruction after the
/// call and the stack pointer back to where it was.
pub proof fn law_call_then_return(c: Cpu, nnn: int, rnd: u8)
    requires
        0 <= nnn < 0x1000,
    ensures
        ({
            let s1 = step_state(c@, word(2, nnn / 0x100, (nnn / 0x10) % 0x10, nnn % 0x10), rnd);
            let s2 = step_state(s1, word(0, 0, 0xE, 0xE), rnd);
            step_result(c@, word(2, nnn / 0x100, (nnn / 0x10) % 0x10, nnn % 0x10)) is Ok
                && step_result(s1, word(0, 0, 0xE, 0xE)) is Ok ==> s2.pc == c.pc + 2 && s2.sp
                == c.sp
        }),
{
    lemma_word_nibbles(2, nnn / 0x100, (nnn / 0x10) % 0x10, nnn % 0x10);
    lemma_word_nibbles(0, 0, 0xE, 0xE);
}

} // verus!
