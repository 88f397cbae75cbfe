//! Laws of the instruction set: properties that relate several operations,
//! or hold of every input, stated over the same transition functions that
//! the interpreter is proved to implement.

use vstd::prelude::*;

use crate::decode::spec_decode;
use crate::state::State;
use crate::step;
use crate::MEMORY_SIZE;
use crate::NUM_KEYS;
use crate::NUM_REGISTERS;
use crate::SCREEN_HEIGHT;
use crate::SCREEN_WIDTH;

verus! {

/// Register addition (`8xy4`): for all register values, the stored result
/// is the sum modulo 256, and VF becomes 1 exactly when the unwrapped sum
/// exceeds 255. When `x` is 15 the flag overwrites the result.
pub proof fn lemma_add_carry(s: State, x: int, y: int)
    requires
        s.wf(),
        0 <= x < NUM_REGISTERS,
        0 <= y < NUM_REGISTERS,
    ensures
        step::add_reg(s, x, y).register[15] == (if s.register[x] + s.register[y] > 255 {
            1u8
        } else {
            0u8
        }),
        x != 15 ==> step::add_reg(s, x, y).register[x] == ((s.register[x] + s.register[y])
            % 256) as u8,
{
}

/// Register subtraction (`8xy5`): for all register values, the stored
/// result is the difference modulo 256, and VF becomes 1 exactly when
/// `Vx > Vy`. When `x` is 15 the result overwrites the flag.
pub proof fn lemma_sub_borrow(s: State, x: int, y: int)
    requires
        s.wf(),
        0 <= x < NUM_REGISTERS,
        0 <= y < NUM_REGISTERS,
    ensures
        step::sub_reg(s, x, y).register[x] == ((s.register[x] - s.register[y]) % 256) as u8,
        x != 15 ==> step::sub_reg(s, x, y).register[15] == (if s.register[x] > s.register[y] {
            1u8
        } else {
            0u8
        }),
{
    let a = s.register[x];
    let b = s.register[y];
    vstd::arithmetic::div_mod::lemma_mod_multiples_vanish(1, a - b, 256);
    if a >= b {
        vstd::arithmetic::div_mod::lemma_small_mod((a - b) as nat, 256nat);
    } else {
        vstd::arithmetic::div_mod::lemma_small_mod((a - b + 256) as nat, 256nat);
    }
}

/// Reversed subtraction (`8xy7`): for all register values, the stored
/// result is `Vy - Vx` modulo 256, and VF becomes 1 exactly when
/// `Vy > Vx`. Register 15 itself cannot carry an operand and a result at
/// once: the clauses hold away from it.
pub proof fn lemma_sub_from_borrow(s: State, x: int, y: int)
    requires
        s.wf(),
        0 <= x < NUM_REGISTERS,
        0 <= y < NUM_REGISTERS,
    ensures
        x != 15 ==> step::sub_from_reg(s, x, y).register[15] == (if s.register[y] > s.register[x] {
            1u8
        } else {
            0u8
        }),
        x != 15 && y != 15 ==> step::sub_from_reg(s, x, y).register[x] == ((s.register[y]
            - s.register[x]) % 256) as u8,
{
    let a = s.register[x];
    let b = s.register[y];
    vstd::arithmetic::div_mod::lemma_mod_multiples_vanish(1, b - a, 256);
    if b >= a {
        vstd::arithmetic::div_mod::lemma_small_mod((b - a) as nat, 256nat);
    } else {
        vstd::arithmetic::div_mod::lemma_small_mod((b - a + 256) as nat, 256nat);
    }
}

/// The shifts (`8xy6`, `8xyE`): for every input byte they extract the
/// pre-shift low bit (respectively high bit) into VF, and then halve
/// (respectively double, modulo 256) the register. Stated away from
/// register 15, which cannot carry the operand and the flag at once.
pub proof fn lemma_shift_flags(s: State, x: int)
    requires
        s.wf(),
        0 <= x < NUM_REGISTERS,
        x != 15,
    ensures
        step::shift_right(s, x).register[15] == s.register[x] & 1,
        step::shift_right(s, x).register[x] == s.register[x] / 2,
        step::shift_left(s, x).register[15] == s.register[x] / 128,
        step::shift_left(s, x).register[x] == (s.register[x] * 2) % 256,
{
    vstd::arithmetic::div_mod::lemma_small_mod((s.register[x] * 2 % 256) as nat, 256nat);
}

/// Round trip (`Fx55` then `Fx65`): storing registers `V0..=Vx` to memory
/// at `I` and loading them back with the same `I` and `x` restores the
/// whole register file.
pub proof fn lemma_store_load_round_trip(s: State, x: int)
    requires
        s.wf(),
        0 <= x < NUM_REGISTERS,
    ensures
        step::load_regs(step::store_regs(s, x), x).register == s.register,
{
    let s1 = step::store_regs(s, x);
    assert forall|i: int| 0 <= i < NUM_REGISTERS implies step::load_span_regs(s1, x + 1)[i]
        == s.register[i] by {
        if i <= x {
            step::lemma_mod_span(s.index as int, i, MEMORY_SIZE as int);
        }
    }
    assert(step::load_span_regs(s1, x + 1) =~= s.register);
}

/// Idempotence of clearing (`00E0` issued twice): after each issue the
/// framebuffer is fully cleared and the draw flag is set; the second clear
/// leaves the framebuffer exactly as the first did.
pub proof fn lemma_clear_twice(s: State)
    ensures
        step::execute(s, spec_decode(0x00E0), 0).draw_flag,
        step::execute(step::execute(s, spec_decode(0x00E0), 0), spec_decode(0x00E0), 0).draw_flag,
        forall|sy: int, sx: int|
            0 <= sy < SCREEN_HEIGHT && 0 <= sx < SCREEN_WIDTH ==> #[trigger] step::execute(
                s,
                spec_decode(0x00E0),
                0,
            ).screen[sy][sx] == 0u8,
        step::execute(step::execute(s, spec_decode(0x00E0), 0), spec_decode(0x00E0), 0).screen
            == step::execute(s, spec_decode(0x00E0), 0).screen,
{
    let s1 = step::execute(s, spec_decode(0x00E0), 0);
    let s2 = step::execute(s1, spec_decode(0x00E0), 0);
    assert forall|sy: int| 0 <= sy < SCREEN_HEIGHT implies s2.screen[sy] =~= s1.screen[sy] by {}
    assert(s2.screen =~~= s1.screen);
}

/// Every sprite contribution is a single bit.
proof fn lemma_contrib_bit(s: State, vx: int, vy: int, n: int)
    ensures
        forall|sy: int, sx: int| #[trigger] step::draw_contrib(s, vx, vy, n, sy, sx) <= 1,
{
    assert forall|sy: int, sx: int| #[trigger] step::draw_contrib(s, vx, vy, n, sy, sx) <= 1 by {
        let r = (sy - vy) % (SCREEN_HEIGHT as int);
        let b = (sx - vx) % (SCREEN_WIDTH as int);
        step::lemma_sprite_pixel_bit(s.memory[step::wrap_addr(s.index + r)], b);
    }
}

/// Drawing the same sprite twice (`Dxyn` twice with unchanged operands):
/// the second draw restores the framebuffer to its pre-draw state, and its
/// VF reports exactly whether the sprite lit any pixel that was off before
/// the first draw. Stated for a one-bit framebuffer and for coordinate
/// registers other than VF, which the draw overwrites.
pub proof fn lemma_draw_twice(s: State, x: int, y: int, n: int)
    requires
        s.wf(),
        s.screen_bits(),
        0 <= x < NUM_REGISTERS,
        0 <= y < NUM_REGISTERS,
        x != 15,
        y != 15,
        0 <= n < 16,
    ensures
        step::draw(step::draw(s, x, y, n), x, y, n).screen == s.screen,
        step::draw(step::draw(s, x, y, n), x, y, n).register[15] == 1 <==> (exists|
            sy: int,
            sx: int,
        |
            0 <= sy < SCREEN_HEIGHT && 0 <= sx < SCREEN_WIDTH && #[trigger] step::draw_contrib(
                s,
                s.register[x] as int,
                s.register[y] as int,
                n,
                sy,
                sx,
            ) == 1 && s.screen[sy][sx] == 0),
{
    let vx = s.register[x] as int;
    let vy = s.register[y] as int;
    let s1 = step::draw(s, x, y, n);
    let s2 = step::draw(s1, x, y, n);
    lemma_contrib_bit(s, vx, vy, n);
    assert(s1.register[x] == s.register[x]);
    assert(s1.register[y] == s.register[y]);
    assert forall|sy: int, sx: int| #[trigger] step::draw_contrib(s1, vx, vy, n, sy, sx)
        == step::draw_contrib(s, vx, vy, n, sy, sx) by {}
    assert forall|sy: int| 0 <= sy < SCREEN_HEIGHT implies s2.screen[sy] =~= s.screen[sy] by {
        assert forall|sx: int| 0 <= sx < SCREEN_WIDTH implies s2.screen[sy][sx]
            == s.screen[sy][sx] by {
            let c = step::draw_contrib(s, vx, vy, n, sy, sx);
            assert(s1.screen[sy][sx] == s.screen[sy][sx] ^ c);
            assert(s2.screen[sy][sx] == (s.screen[sy][sx] ^ c) ^ c);
            step::lemma_xor_facts(s.screen[sy][sx], c);
        }
    }
    assert(s2.screen =~~= s.screen);
    if step::draw_collides(s1, vx, vy, n) {
        let (sy, sx) = choose|sy: int, sx: int|
            0 <= sy < SCREEN_HEIGHT && 0 <= sx < SCREEN_WIDTH && #[trigger] step::draw_contrib(
                s1,
                vx,
                vy,
                n,
                sy,
                sx,
            ) == 1 && s1.screen[sy][sx] & 1 == 1;
        let c = step::draw_contrib(s, vx, vy, n, sy, sx);
        assert(c == 1);
        assert(s1.screen[sy][sx] == s.screen[sy][sx] ^ 1);
        let p = s.screen[sy][sx];
        assert(p <= 1);
        assert((p ^ 1) & 1 == 1 ==> p == 0) by (bit_vector)
            requires
                p <= 1,
        ;
        assert(s.screen[sy][sx] == 0);
    }
    if exists|sy: int, sx: int|
        0 <= sy < SCREEN_HEIGHT && 0 <= sx < SCREEN_WIDTH && #[trigger] step::draw_contrib(
            s,
            vx,
            vy,
            n,
            sy,
            sx,
        ) == 1 && s.screen[sy][sx] == 0 {
        let (sy, sx) = choose|sy: int, sx: int|
            0 <= sy < SCREEN_HEIGHT && 0 <= sx < SCREEN_WIDTH && #[trigger] step::draw_contrib(
                s,
                vx,
                vy,
                n,
                sy,
                sx,
            ) == 1 && s.screen[sy][sx] == 0;
        assert(step::draw_contrib(s1, vx, vy, n, sy, sx) == 1);
        assert(s1.screen[sy][sx] == s.screen[sy][sx] ^ 1);
        assert((0u8 ^ 1u8) & 1 == 1) by (bit_vector);
        assert(s1.screen[sy][sx] & 1 == 1);
        assert(step::draw_collides(s1, vx, vy, n));
    }
}

/// Wraparound (`Dxyn`): sprite coordinates are cyclic. Shifting the draw
/// position by a whole screen width and height leaves every contribution,
/// the resulting framebuffer and the collision outcome unchanged; nothing
/// is clipped.
pub proof fn lemma_draw_wraps(s: State, vx: int, vy: int, n: int)
    requires
        0 <= vx,
        0 <= vy,
    ensures
        forall|sy: int, sx: int| #[trigger]
            step::draw_contrib(s, vx + SCREEN_WIDTH, vy + SCREEN_HEIGHT, n, sy, sx)
                == step::draw_contrib(s, vx, vy, n, sy, sx),
        step::draw_screen(s, vx + SCREEN_WIDTH, vy + SCREEN_HEIGHT, n) == step::draw_screen(
            s,
            vx,
            vy,
            n,
        ),
        step::draw_collides(s, vx + SCREEN_WIDTH, vy + SCREEN_HEIGHT, n) <==> step::draw_collides(
            s,
            vx,
            vy,
            n,
        ),
{
    let w = SCREEN_WIDTH as int;
    let h = SCREEN_HEIGHT as int;
    assert forall|sy: int, sx: int| #[trigger]
        step::draw_contrib(s, vx + w, vy + h, n, sy, sx) == step::draw_contrib(
            s,
            vx,
            vy,
            n,
            sy,
            sx,
        ) by {
        vstd::arithmetic::div_mod::lemma_mod_multiples_vanish(-1, sy - vy, h);
        vstd::arithmetic::div_mod::lemma_mod_multiples_vanish(-1, sx - vx, w);
        assert((sy - (vy + h)) % h == (sy - vy) % h);
        assert((sx - (vx + w)) % w == (sx - vx) % w);
    }
    assert forall|sy: int| 0 <= sy < h implies step::draw_screen(s, vx + w, vy + h, n)[sy]
        =~= step::draw_screen(s, vx, vy, n)[sy] by {}
    assert(step::draw_screen(s, vx + w, vy + h, n) =~~= step::draw_screen(s, vx, vy, n));
    if step::draw_collides(s, vx + w, vy + h, n) {
        let (sy, sx) = choose|sy: int, sx: int|
            0 <= sy < h && 0 <= sx < w && #[trigger] step::draw_contrib(s, vx + w, vy + h, n, sy, sx)
                == 1 && s.screen[sy][sx] & 1 == 1;
        assert(step::draw_contrib(s, vx, vy, n, sy, sx) == 1);
        assert(step::draw_collides(s, vx, vy, n));
    }
    if step::draw_collides(s, vx, vy, n) {
        let (sy, sx) = choose|sy: int, sx: int|
            0 <= sy < h && 0 <= sx < w && #[trigger] step::draw_contrib(s, vx, vy, n, sy, sx) == 1
                && s.screen[sy][sx] & 1 == 1;
        assert(step::draw_contrib(s, vx + w, vy + h, n, sy, sx) == 1);
        assert(step::draw_collides(s, vx + w, vy + h, n));
    }
}

/// Key-wait, frozen half: a waiting machine with no key pressed does not
/// move, however many steps pass. The program counter, the latch, the
/// registers, timers, memory and framebuffer all stay as they were; only
/// the transient draw flag is reset.
pub proof fn lemma_key_wait_frozen(s: State, steps: nat)
    requires
        s.wf(),
        s.waiting_for_key,
        !step::any_pressed(s.key),
    ensures
        steps > 0 ==> step::run(s, steps) == (State { draw_flag: false, ..s }),
        step::run(s, steps).pc == s.pc,
        step::run(s, steps).waiting_for_key,
        step::run(s, steps).waiting_key_location == s.waiting_key_location,
        step::run(s, steps).register == s.register,
        step::run(s, steps).delay_timer == s.delay_timer,
        step::run(s, steps).sound_timer == s.sound_timer,
    decreases steps,
{
    if steps > 0 {
        lemma_key_wait_frozen(s, (steps - 1) as nat);
    }
}

/// Key-wait, resolving half: once a key is pressed, one step writes the
/// smallest pressed key's ID into the pinned register, opens the latch
/// (so the next step executes normally), and still does not move the
/// program counter.
pub proof fn lemma_key_wait_resolves(s: State)
    requires
        s.wf(),
        s.waiting_for_key,
        step::any_pressed(s.key),
    ensures
        !step::tick(s, 0).waiting_for_key,
        step::tick(s, 0).pc == s.pc,
        step::tick(s, 0).register == s.register.update(
            s.waiting_key_location as int,
            step::first_pressed(s.key, 0) as u8,
        ),
        0 <= step::first_pressed(s.key, 0) < NUM_KEYS,
        s.key[step::first_pressed(s.key, 0)],
        forall|j: int| 0 <= j < step::first_pressed(s.key, 0) ==> !s.key[j],
{
    step::lemma_first_pressed_props(s.key, 0);
}

} // verus!
