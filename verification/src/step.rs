//! The meaning of every instruction, and of a whole interpreter step, as
//! functions over the mathematical machine state. The executable interpreter
//! is proved to implement exactly these functions.

use vstd::prelude::*;

use crate::decode::Instruction;
use crate::decode::spec_decode;
use crate::state::State;
use crate::GAME_ENTRY;
use crate::MEMORY_SIZE;
use crate::NUM_KEYS;
use crate::NUM_REGISTERS;
use crate::SCREEN_HEIGHT;
use crate::SCREEN_WIDTH;
use crate::STACK_SIZE;

verus! {

/// A flag value: 1 for true, 0 for false.
pub open spec fn bool_byte(b: bool) -> u8 {
    if b {
        1u8
    } else {
        0u8
    }
}

/// 8-bit wraparound addition.
pub open spec fn wrap8_add(a: u8, b: u8) -> u8 {
    if a + b > 255 {
        (a + b - 256) as u8
    } else {
        (a + b) as u8
    }
}

/// 8-bit wraparound subtraction.
pub open spec fn wrap8_sub(a: u8, b: u8) -> u8 {
    if a - b < 0 {
        (a - b + 256) as u8
    } else {
        (a - b) as u8
    }
}

/// The program counter advanced past one instruction (16-bit wraparound).
pub open spec fn next_pc(pc: u16) -> u16 {
    if pc + 2 > 0xFFFF {
        (pc + 2 - 0x10000) as u16
    } else {
        (pc + 2) as u16
    }
}

/// The program counter advanced past two instructions: a skip.
pub open spec fn skip_pc(pc: u16) -> u16 {
    if pc + 4 > 0xFFFF {
        (pc + 4 - 0x10000) as u16
    } else {
        (pc + 4) as u16
    }
}

/// Memory addresses wrap modulo the memory size, so that every access during
/// execution stays within bounds.
pub open spec fn wrap_addr(a: int) -> int {
    a % (MEMORY_SIZE as int)
}

/// The 16-bit instruction word at the program counter, high byte first.
pub open spec fn fetch_word(s: State) -> u16 {
    (s.memory[wrap_addr(s.pc as int)] * 256 + s.memory[wrap_addr(s.pc as int + 1)]) as u16
}

/// `00E0`: clear the framebuffer and request a redraw.
pub open spec fn cls(s: State) -> State {
    State {
        screen: Seq::new(
            SCREEN_HEIGHT as nat,
            |sy: int| Seq::new(SCREEN_WIDTH as nat, |sx: int| 0u8),
        ),
        draw_flag: true,
        pc: next_pc(s.pc),
        ..s
    }
}

/// `00EE`: return from a subroutine. A return with an empty (or corrupt)
/// stack is a no-op that advances the program counter.
pub open spec fn ret(s: State) -> State {
    if 1 <= s.sp <= STACK_SIZE {
        State { sp: (s.sp - 1) as usize, pc: s.stack[s.sp - 1], ..s }
    } else {
        State { pc: next_pc(s.pc), ..s }
    }
}

/// `1nnn`: jump.
pub open spec fn jump(s: State, nnn: u16) -> State {
    State { pc: nnn, ..s }
}

/// `2nnn`: call a subroutine, pushing the current program counter. A call
/// with a full (or corrupt) stack is a no-op that advances the program
/// counter.
pub open spec fn call(s: State, nnn: u16) -> State {
    if s.sp < STACK_SIZE {
        State { stack: s.stack.update(s.sp as int, s.pc), sp: (s.sp + 1) as usize, pc: nnn, ..s }
    } else {
        State { pc: next_pc(s.pc), ..s }
    }
}

/// `3xkk`: skip the next instruction if `Vx == kk`.
pub open spec fn skip_eq_imm(s: State, x: int, kk: u8) -> State {
    State {
        pc: if s.register[x] == kk {
            skip_pc(s.pc)
        } else {
            next_pc(s.pc)
        },
        ..s
    }
}

/// `4xkk`: skip the next instruction if `Vx != kk`.
pub open spec fn skip_ne_imm(s: State, x: int, kk: u8) -> State {
    State {
        pc: if s.register[x] != kk {
            skip_pc(s.pc)
        } else {
            next_pc(s.pc)
        },
        ..s
    }
}

/// `5xy0`: skip the next instruction if `Vx == Vy`.
pub open spec fn skip_eq_reg(s: State, x: int, y: int) -> State {
    State {
        pc: if s.register[x] == s.register[y] {
            skip_pc(s.pc)
        } else {
            next_pc(s.pc)
        },
        ..s
    }
}

/// `9xy0`: skip the next instruction if `Vx != Vy`.
pub open spec fn skip_ne_reg(s: State, x: int, y: int) -> State {
    State {
        pc: if s.register[x] != s.register[y] {
            skip_pc(s.pc)
        } else {
            next_pc(s.pc)
        },
        ..s
    }
}

/// `6xkk`: set `Vx = kk`.
pub open spec fn store_imm(s: State, x: int, kk: u8) -> State {
    State { register: s.register.update(x, kk), pc: next_pc(s.pc), ..s }
}

/// `7xkk`: add the immediate to `Vx` with 8-bit wraparound; no flag.
pub open spec fn add_imm(s: State, x: int, kk: u8) -> State {
    State { register: s.register.update(x, wrap8_add(s.register[x], kk)), pc: next_pc(s.pc), ..s }
}

/// `8xy0`: set `Vx = Vy`.
pub open spec fn copy_reg(s: State, x: int, y: int) -> State {
    State { register: s.register.update(x, s.register[y]), pc: next_pc(s.pc), ..s }
}

/// `8xy1`: set `Vx = Vx | Vy`.
pub open spec fn or_reg(s: State, x: int, y: int) -> State {
    State {
        register: s.register.update(x, s.register[x] | s.register[y]),
        pc: next_pc(s.pc),
        ..s
    }
}

/// `8xy2`: set `Vx = Vx & Vy`.
pub open spec fn and_reg(s: State, x: int, y: int) -> State {
    State {
        register: s.register.update(x, s.register[x] & s.register[y]),
        pc: next_pc(s.pc),
        ..s
    }
}

/// `8xy3`: set `Vx = Vx ^ Vy`.
pub open spec fn xor_reg(s: State, x: int, y: int) -> State {
    State {
        register: s.register.update(x, s.register[x] ^ s.register[y]),
        pc: next_pc(s.pc),
        ..s
    }
}

/// `8xy4`: `Vx = Vx + Vy` with 8-bit wraparound; then VF becomes the carry,
/// so the flag wins when `x` is 15.
pub open spec fn add_reg(s: State, x: int, y: int) -> State {
    let sum = s.register[x] + s.register[y];
    State {
        register: s.register.update(x, ((sum % 256) as u8)).update(
            15,
            bool_byte(sum > 255),
        ),
        pc: next_pc(s.pc),
        ..s
    }
}

/// `8xy5`: VF = 1 iff `Vx > Vy`; then `Vx = Vx - Vy` with 8-bit wraparound
/// (both operands read before the flag is written), so the difference wins
/// when `x` is 15.
pub open spec fn sub_reg(s: State, x: int, y: int) -> State {
    let a = s.register[x];
    let b = s.register[y];
    State {
        register: s.register.update(15, bool_byte(a > b)).update(x, wrap8_sub(a, b)),
        pc: next_pc(s.pc),
        ..s
    }
}

/// `8xy6`: VF = least significant bit of `Vx`; then `Vx = Vx >> 1`, reading
/// `Vx` after the flag write, as the interpreter does.
pub open spec fn shift_right(s: State, x: int) -> State {
    let r1 = s.register.update(15, s.register[x] & 1);
    State { register: r1.update(x, ((r1[x] / 2) as u8)), pc: next_pc(s.pc), ..s }
}

/// `8xy7`: VF = 1 iff `Vy > Vx`; then `Vx = Vy - Vx` with 8-bit wraparound,
/// reading both registers after the flag write, as the interpreter does.
pub open spec fn sub_from_reg(s: State, x: int, y: int) -> State {
    let r1 = s.register.update(15, bool_byte(s.register[y] > s.register[x]));
    State { register: r1.update(x, wrap8_sub(r1[y], r1[x])), pc: next_pc(s.pc), ..s }
}

/// `8xyE`: VF = most significant bit of `Vx`; then `Vx = Vx << 1` with 8-bit
/// wraparound, reading `Vx` after the flag write, as the interpreter does.
pub open spec fn shift_left(s: State, x: int) -> State {
    let r1 = s.register.update(15, ((s.register[x] / 128) as u8));
    State { register: r1.update(x, ((r1[x] * 2 % 256) as u8)), pc: next_pc(s.pc), ..s }
}

/// `Annn`: set the index register.
pub open spec fn store_index(s: State, nnn: u16) -> State {
    State { index: nnn, pc: next_pc(s.pc), ..s }
}

/// `Bnnn`: jump to `nnn + V0`.
pub open spec fn jump_offset(s: State, nnn: u16) -> State {
    State { pc: ((nnn + s.register[0]) as u16), ..s }
}

/// `Cxkk`: set `Vx` to the random byte masked with `kk`.
pub open spec fn random(s: State, x: int, kk: u8, rnd: u8) -> State {
    State { register: s.register.update(x, kk & rnd), pc: next_pc(s.pc), ..s }
}

/// One sprite row bit: bit `b` of the byte, counting the most significant
/// bit as 0, the leftmost pixel of the row.
pub open spec fn sprite_pixel(byte: u8, b: int) -> u8 {
    (byte >> ((7 - b) as u8)) & 1
}

/// The sprite's contribution to the screen cell `(sy, sx)` when an `n`-row
/// sprite at `memory[I..]` is drawn at `(vx, vy)`: the matching sprite bit
/// if the cell is covered (coordinates wrap cyclically), 0 otherwise.
pub open spec fn draw_contrib(s: State, vx: int, vy: int, n: int, sy: int, sx: int) -> u8 {
    let r = (sy - vy) % (SCREEN_HEIGHT as int);
    let b = (sx - vx) % (SCREEN_WIDTH as int);
    if r < n && b < 8 {
        sprite_pixel(s.memory[wrap_addr(s.index + r)], b)
    } else {
        0u8
    }
}

/// The sprite's contribution to `(sy, sx)` counting only the part of the
/// sprite already processed: every row before `rd` whole, and the bits of
/// row `rd` before `bd`.
pub open spec fn draw_contrib_partial(
    s: State,
    vx: int,
    vy: int,
    n: int,
    rd: int,
    bd: int,
    sy: int,
    sx: int,
) -> u8 {
    let r = (sy - vy) % (SCREEN_HEIGHT as int);
    let b = (sx - vx) % (SCREEN_WIDTH as int);
    if r < n && b < 8 && (r < rd || (r == rd && b < bd)) {
        sprite_pixel(s.memory[wrap_addr(s.index + r)], b)
    } else {
        0u8
    }
}

/// Whether the part of the sprite already processed has collided.
pub open spec fn draw_collides_partial(
    s: State,
    vx: int,
    vy: int,
    n: int,
    rd: int,
    bd: int,
) -> bool {
    exists|sy: int, sx: int|
        0 <= sy < SCREEN_HEIGHT && 0 <= sx < SCREEN_WIDTH && #[trigger] draw_contrib_partial(
            s,
            vx,
            vy,
            n,
            rd,
            bd,
            sy,
            sx,
        ) == 1 && s.screen[sy][sx] & 1 == 1
}

/// Whether the draw collides: some covered cell has its low bit set both in
/// the sprite and on the screen.
pub open spec fn draw_collides(s: State, vx: int, vy: int, n: int) -> bool {
    exists|sy: int, sx: int|
        0 <= sy < SCREEN_HEIGHT && 0 <= sx < SCREEN_WIDTH && #[trigger] draw_contrib(
            s,
            vx,
            vy,
            n,
            sy,
            sx,
        ) == 1 && s.screen[sy][sx] & 1 == 1
}

/// The framebuffer after the draw: every cell is XOR-combined with the
/// sprite's contribution to it.
pub open spec fn draw_screen(s: State, vx: int, vy: int, n: int) -> Seq<Seq<u8>> {
    Seq::new(
        SCREEN_HEIGHT as nat,
        |sy: int|
            Seq::new(
                SCREEN_WIDTH as nat,
                |sx: int| s.screen[sy][sx] ^ draw_contrib(s, vx, vy, n, sy, sx),
            ),
    )
}

/// `Dxyn`: draw the sprite at `(Vx, Vy)`, set VF to the collision flag and
/// request a redraw.
pub open spec fn draw(s: State, x: int, y: int, n: int) -> State {
    let vx = s.register[x] as int;
    let vy = s.register[y] as int;
    State {
        screen: draw_screen(s, vx, vy, n),
        register: s.register.update(15, bool_byte(draw_collides(s, vx, vy, n))),
        draw_flag: true,
        pc: next_pc(s.pc),
        ..s
    }
}

/// `Ex9E`: skip the next instruction if the key named by the low 4 bits of
/// `Vx` is pressed.
pub open spec fn skip_key_pressed(s: State, x: int) -> State {
    State {
        pc: if s.key[(s.register[x] & 0xF) as int] {
            skip_pc(s.pc)
        } else {
            next_pc(s.pc)
        },
        ..s
    }
}

/// `ExA1`: skip the next instruction if that key is not pressed.
pub open spec fn skip_key_not_pressed(s: State, x: int) -> State {
    State {
        pc: if !s.key[(s.register[x] & 0xF) as int] {
            skip_pc(s.pc)
        } else {
            next_pc(s.pc)
        },
        ..s
    }
}

/// `Fx07`: read the delay timer into `Vx`.
pub open spec fn read_delay(s: State, x: int) -> State {
    State { register: s.register.update(x, s.delay_timer), pc: next_pc(s.pc), ..s }
}

/// `Fx0A`: activate the key-wait latch, pinning `x` as the destination. The
/// register itself is only written when the wait resolves.
pub open spec fn wait_key(s: State, x: int) -> State {
    State {
        waiting_for_key: true,
        waiting_key_location: x as usize,
        pc: next_pc(s.pc),
        ..s
    }
}

/// `Fx15`: set the delay timer from `Vx`.
pub open spec fn set_delay(s: State, x: int) -> State {
    State { delay_timer: s.register[x], pc: next_pc(s.pc), ..s }
}

/// `Fx18`: set the sound timer from `Vx`.
pub open spec fn set_sound(s: State, x: int) -> State {
    State { sound_timer: s.register[x], pc: next_pc(s.pc), ..s }
}

/// `Fx1E`: add `Vx` to the index register, 16-bit wraparound, no flag.
pub open spec fn add_index(s: State, x: int) -> State {
    State {
        index: if s.index + s.register[x] > 0xFFFF {
            (s.index + s.register[x] - 0x10000) as u16
        } else {
            (s.index + s.register[x]) as u16
        },
        pc: next_pc(s.pc),
        ..s
    }
}

/// `Fx29`: point the index register at the font glyph for digit `Vx`.
pub open spec fn font_glyph(s: State, x: int) -> State {
    State { index: ((s.register[x] * 5) as u16), pc: next_pc(s.pc), ..s }
}

/// `Fx33`: store the decimal digits of `Vx` as hundreds, tens and units at
/// `memory[I]`, `memory[I+1]`, `memory[I+2]` (addresses wrapping).
pub open spec fn store_bcd(s: State, x: int) -> State {
    let v = s.register[x];
    State {
        memory: s.memory.update(wrap_addr(s.index as int), ((v / 100) as u8)).update(
            wrap_addr(s.index as int + 1),
            ((v % 100 / 10) as u8),
        ).update(wrap_addr(s.index as int + 2), ((v % 10) as u8)),
        pc: next_pc(s.pc),
        ..s
    }
}

/// Memory after the first `k` registers have been copied to `I..`
/// (addresses wrapping): the cell at distance `i` below `k` from `I` holds
/// `Vi`, every other cell is unchanged.
pub open spec fn store_span_mem(s: State, k: int) -> Seq<u8> {
    Seq::new(
        MEMORY_SIZE as nat,
        |a: int|
            {
                let i = (a - s.index) % (MEMORY_SIZE as int);
                if i < k {
                    s.register[i]
                } else {
                    s.memory[a]
                }
            },
    )
}

/// `Fx55`: copy `V0..=Vx` into memory at `I..` (addresses wrapping). The
/// index register itself is left unchanged.
pub open spec fn store_regs(s: State, x: int) -> State {
    State { memory: store_span_mem(s, x + 1), pc: next_pc(s.pc), ..s }
}

/// The register file after the first `k` registers have been filled from
/// memory at `I..` (addresses wrapping); the rest are unchanged.
pub open spec fn load_span_regs(s: State, k: int) -> Seq<u8> {
    Seq::new(
        NUM_REGISTERS as nat,
        |i: int|
            if i < k {
                s.memory[wrap_addr(s.index + i)]
            } else {
                s.register[i]
            },
    )
}

/// `Fx65`: copy memory at `I..` into `V0..=Vx` (addresses wrapping). The
/// index register itself is left unchanged.
pub open spec fn load_regs(s: State, x: int) -> State {
    State { register: load_span_regs(s, x + 1), pc: next_pc(s.pc), ..s }
}

/// An unrecognized pattern: the program counter advances, nothing else
/// changes.
pub open spec fn unknown(s: State) -> State {
    State { pc: next_pc(s.pc), ..s }
}

/// The effect of one decoded instruction. `rnd` is the random byte consumed
/// by `Cxkk`; every other instruction ignores it.
pub open spec fn execute(s: State, ins: Instruction, rnd: u8) -> State {
    match ins {
        Instruction::ClearScreen => cls(s),
        Instruction::Return => ret(s),
        Instruction::Jump { nnn } => jump(s, nnn),
        Instruction::Call { nnn } => call(s, nnn),
        Instruction::SkipEqImm { x, kk } => skip_eq_imm(s, x as int, kk),
        Instruction::SkipNeImm { x, kk } => skip_ne_imm(s, x as int, kk),
        Instruction::SkipEqReg { x, y } => skip_eq_reg(s, x as int, y as int),
        Instruction::StoreImm { x, kk } => store_imm(s, x as int, kk),
        Instruction::AddImm { x, kk } => add_imm(s, x as int, kk),
        Instruction::CopyReg { x, y } => copy_reg(s, x as int, y as int),
        Instruction::OrReg { x, y } => or_reg(s, x as int, y as int),
        Instruction::AndReg { x, y } => and_reg(s, x as int, y as int),
        Instruction::XorReg { x, y } => xor_reg(s, x as int, y as int),
        Instruction::AddReg { x, y } => add_reg(s, x as int, y as int),
        Instruction::SubReg { x, y } => sub_reg(s, x as int, y as int),
        Instruction::ShiftRight { x } => shift_right(s, x as int),
        Instruction::SubFromReg { x, y } => sub_from_reg(s, x as int, y as int),
        Instruction::ShiftLeft { x } => shift_left(s, x as int),
        Instruction::SkipNeReg { x, y } => skip_ne_reg(s, x as int, y as int),
        Instruction::StoreIndex { nnn } => store_index(s, nnn),
        Instruction::JumpOffset { nnn } => jump_offset(s, nnn),
        Instruction::Random { x, kk } => random(s, x as int, kk, rnd),
        Instruction::Draw { x, y, n } => draw(s, x as int, y as int, n as int),
        Instruction::SkipKeyPressed { x } => skip_key_pressed(s, x as int),
        Instruction::SkipKeyNotPressed { x } => skip_key_not_pressed(s, x as int),
        Instruction::ReadDelay { x } => read_delay(s, x as int),
        Instruction::WaitKey { x } => wait_key(s, x as int),
        Instruction::SetDelay { x } => set_delay(s, x as int),
        Instruction::SetSound { x } => set_sound(s, x as int),
        Instruction::AddIndex { x } => add_index(s, x as int),
        Instruction::FontGlyph { x } => font_glyph(s, x as int),
        Instruction::StoreBcd { x } => store_bcd(s, x as int),
        Instruction::StoreRegisters { x } => store_regs(s, x as int),
        Instruction::LoadRegisters { x } => load_regs(s, x as int),
        Instruction::Unknown => unknown(s),
    }
}

/// Both timers count down by one per executing step while above zero.
pub open spec fn tick_timers(s: State) -> State {
    State {
        delay_timer: if s.delay_timer > 0 {
            (s.delay_timer - 1) as u8
        } else {
            0u8
        },
        sound_timer: if s.sound_timer > 0 {
            (s.sound_timer - 1) as u8
        } else {
            0u8
        },
        ..s
    }
}

/// Whether any key of the keypad is down.
pub open spec fn any_pressed(keys: Seq<bool>) -> bool {
    exists|j: int| 0 <= j < NUM_KEYS && #[trigger] keys[j]
}

/// The smallest pressed key index at or after `i`, or the number of keys if
/// none is pressed there.
pub open spec fn first_pressed(keys: Seq<bool>, i: int) -> int
    decreases NUM_KEYS - i,
{
    if i < 0 || i >= NUM_KEYS {
        NUM_KEYS as int
    } else if keys[i] {
        i
    } else {
        first_pressed(keys, i + 1)
    }
}

/// The key-wait latch's step: if any key is down, the smallest pressed key ID
/// goes into the pinned register and the latch opens; the program counter
/// never moves. With no key down the machine stays frozen.
pub open spec fn resolve_key(s: State) -> State {
    if any_pressed(s.key) {
        State {
            waiting_for_key: false,
            register: s.register.update(
                s.waiting_key_location as int,
                (first_pressed(s.key, 0) as u8),
            ),
            ..s
        }
    } else {
        s
    }
}

/// One whole interpreter step: the draw flag is reset; a waiting machine
/// only polls the keypad; otherwise the timers count down and the
/// instruction at the program counter is fetched, decoded and executed.
pub open spec fn tick(s: State, rnd: u8) -> State {
    let s0 = State { draw_flag: false, ..s };
    if s0.waiting_for_key {
        resolve_key(s0)
    } else {
        let s1 = tick_timers(s0);
        execute(s1, spec_decode(fetch_word(s1)), rnd)
    }
}

/// The machine after a number of whole steps, none of which consumes a
/// random byte (enough to describe a frozen machine, whose steps never
/// reach an instruction).
pub open spec fn run(s: State, steps: nat) -> State
    decreases steps,
{
    if steps == 0 {
        s
    } else {
        tick(run(s, (steps - 1) as nat), 0)
    }
}

/// Whether the coming step consumes the random byte: the machine is running
/// and the word at the program counter decodes to `Cxkk`.
pub open spec fn step_is_random(s: State) -> bool {
    !s.waiting_for_key && spec_decode(fetch_word(s)) is Random
}

/// Memory after a program image is copied in at the entry address; bytes
/// that would fall beyond the memory capacity are dropped.
pub open spec fn load_image(mem: Seq<u8>, game: Seq<u8>) -> Seq<u8> {
    Seq::new(
        MEMORY_SIZE as nat,
        |a: int|
            if GAME_ENTRY <= a && a - GAME_ENTRY < game.len() {
                game[a - GAME_ENTRY]
            } else {
                mem[a]
            },
    )
}

/// Offsetting a base by `k` and wrapping modulo `m` puts the target at
/// distance `k` from the base, measured the same way.
pub proof fn lemma_mod_span(base: int, k: int, m: int)
    requires
        0 < m,
        0 <= k < m,
        0 <= base,
    ensures
        ((base + k) % m - base) % m == k,
{
    let q = (base + k) / m;
    vstd::arithmetic::div_mod::lemma_fundamental_div_mod(base + k, m);
    assert(m * (-q) == -(m * q)) by (nonlinear_arith);
    assert((base + k) % m - base == m * (-q) + k);
    vstd::arithmetic::div_mod::lemma_mod_multiples_vanish(-q, k, m);
    vstd::arithmetic::div_mod::lemma_small_mod(k as nat, m as nat);
}

/// Within one wrap of the modulus, the distance from the base determines the
/// target: a cell at distance `k` is exactly the base offset by `k`, wrapped.
pub proof fn lemma_mod_span_unique(base: int, k: int, a: int, m: int)
    requires
        0 < m,
        0 <= k < m,
        0 <= a < m,
        0 <= base,
        (a - base) % m == k,
    ensures
        a == (base + k) % m,
{
    let q = (a - base) / m;
    vstd::arithmetic::div_mod::lemma_fundamental_div_mod(a - base, m);
    assert(a == m * q + (base + k));
    vstd::arithmetic::div_mod::lemma_mod_multiples_vanish(q, base + k, m);
    assert(a % m == (base + k) % m);
    vstd::arithmetic::div_mod::lemma_small_mod(a as nat, m as nat);
}

/// A scan that has found no pressed key below `pos`, and a pressed key at
/// `pos`, has found the first pressed key.
pub proof fn lemma_first_pressed_from(keys: Seq<bool>, i: int, pos: int)
    requires
        0 <= i <= pos < NUM_KEYS,
        keys[pos],
        forall|j: int| i <= j < pos ==> !keys[j],
    ensures
        first_pressed(keys, i) == pos,
    decreases pos - i,
{
    if i < pos {
        lemma_first_pressed_from(keys, i + 1, pos);
    }
}

/// When some key at or after `i` is pressed, the scan finds the smallest
/// pressed index: a pressed key, with none pressed before it.
pub proof fn lemma_first_pressed_props(keys: Seq<bool>, i: int)
    requires
        0 <= i <= NUM_KEYS,
        exists|j: int| i <= j < NUM_KEYS && #[trigger] keys[j],
    ensures
        i <= first_pressed(keys, i) < NUM_KEYS,
        keys[first_pressed(keys, i)],
        forall|j: int| i <= j < first_pressed(keys, i) ==> !keys[j],
    decreases NUM_KEYS - i,
{
    if i < NUM_KEYS && !keys[i] {
        lemma_first_pressed_props(keys, i + 1);
    }
}

/// A sprite bit is a single bit.
pub proof fn lemma_sprite_pixel_bit(byte: u8, b: int)
    ensures
        sprite_pixel(byte, b) <= 1,
{
    let sh = (7 - b) as u8;
    assert((byte >> sh) & 1 <= 1) by (bit_vector);
}

/// XOR with zero changes nothing, and XOR is its own inverse.
pub proof fn lemma_xor_facts(a: u8, b: u8)
    ensures
        a ^ 0 == a,
        (a ^ b) ^ b == a,
{
    assert(a ^ 0 == a) by (bit_vector);
    assert((a ^ b) ^ b == a) by (bit_vector);
}

/// OR-accumulating a one-bit value into a one-bit flag: the flag stays a
/// bit, and ends up set exactly when either side was.
pub proof fn lemma_flag_or(vf: u8, q: u8)
    requires
        vf <= 1,
        q <= 1,
    ensures
        vf | q <= 1,
        (vf | q == 1) <==> (vf == 1 || q == 1),
{
    assert(vf | q <= 1 && ((vf | q == 1) <==> (vf == 1 || q == 1))) by (bit_vector)
        requires
            vf <= 1,
            q <= 1,
    ;
}

/// The AND of a sprite bit with a screen byte tests the byte's low bit.
pub proof fn lemma_collision_test(pix: u8, p: u8)
    requires
        pix <= 1,
    ensures
        pix & p <= 1,
        (pix & p == 1) <==> (pix == 1 && p & 1 == 1),
{
    assert(pix & p <= 1 && ((pix & p == 1) <==> (pix == 1 && p & 1 == 1))) by (bit_vector)
        requires
            pix <= 1,
    ;
}

/// Before any sprite bit is processed nothing has been contributed and
/// nothing has collided.
pub proof fn lemma_partial_empty(s: State, vx: int, vy: int, n: int)
    ensures
        forall|sy: int, sx: int| #[trigger] draw_contrib_partial(s, vx, vy, n, 0, 0, sy, sx) == 0,
        !draw_collides_partial(s, vx, vy, n, 0, 0),
{
}

/// Processing one more sprite bit changes exactly the one target cell, and
/// extends the collision record by exactly that cell's test.
pub proof fn lemma_partial_bit_step(s: State, vx: int, vy: int, n: int, rd: int, bd: int)
    requires
        0 <= vx,
        0 <= vy,
        0 <= rd < n,
        n < 16,
        0 <= bd < 8,
    ensures
        draw_contrib_partial(
            s,
            vx,
            vy,
            n,
            rd,
            bd,
            (vy + rd) % (SCREEN_HEIGHT as int),
            (vx + bd) % (SCREEN_WIDTH as int),
        ) == 0,
        draw_contrib_partial(
            s,
            vx,
            vy,
            n,
            rd,
            bd + 1,
            (vy + rd) % (SCREEN_HEIGHT as int),
            (vx + bd) % (SCREEN_WIDTH as int),
        ) == sprite_pixel(s.memory[wrap_addr(s.index + rd)], bd),
        forall|sy2: int, sx2: int|
            0 <= sy2 < SCREEN_HEIGHT && 0 <= sx2 < SCREEN_WIDTH && !(sy2 == (vy + rd) % (
            SCREEN_HEIGHT as int) && sx2 == (vx + bd) % (SCREEN_WIDTH as int))
                ==> #[trigger] draw_contrib_partial(s, vx, vy, n, rd, bd + 1, sy2, sx2)
                == draw_contrib_partial(s, vx, vy, n, rd, bd, sy2, sx2),
        draw_collides_partial(s, vx, vy, n, rd, bd + 1) <==> (draw_collides_partial(
            s,
            vx,
            vy,
            n,
            rd,
            bd,
        ) || (sprite_pixel(s.memory[wrap_addr(s.index + rd)], bd) == 1 && s.screen[(vy + rd) % (
        SCREEN_HEIGHT as int)][(vx + bd) % (SCREEN_WIDTH as int)] & 1 == 1)),
{
    let h = SCREEN_HEIGHT as int;
    let w = SCREEN_WIDTH as int;
    let sy = (vy + rd) % h;
    let sx = (vx + bd) % w;
    let pix = sprite_pixel(s.memory[wrap_addr(s.index + rd)], bd);
    lemma_mod_span(vy, rd, h);
    lemma_mod_span(vx, bd, w);
    assert((sy - vy) % h == rd);
    assert((sx - vx) % w == bd);
    assert forall|sy2: int, sx2: int|
        0 <= sy2 < h && 0 <= sx2 < w && !(sy2 == sy && sx2 == sx) implies #[trigger] draw_contrib_partial(
        s,
        vx,
        vy,
        n,
        rd,
        bd + 1,
        sy2,
        sx2,
    ) == draw_contrib_partial(s, vx, vy, n, rd, bd, sy2, sx2) by {
        let r2 = (sy2 - vy) % h;
        let b2 = (sx2 - vx) % w;
        if r2 == rd && b2 == bd {
            lemma_mod_span_unique(vy, rd, sy2, h);
            lemma_mod_span_unique(vx, bd, sx2, w);
        }
    }
    if draw_collides_partial(s, vx, vy, n, rd, bd + 1) {
        let (sy2, sx2) = choose|sy2: int, sx2: int|
            0 <= sy2 < h && 0 <= sx2 < w && #[trigger] draw_contrib_partial(
                s,
                vx,
                vy,
                n,
                rd,
                bd + 1,
                sy2,
                sx2,
            ) == 1 && s.screen[sy2][sx2] & 1 == 1;
        if !(sy2 == sy && sx2 == sx) {
            assert(draw_contrib_partial(s, vx, vy, n, rd, bd, sy2, sx2) == 1);
            assert(draw_collides_partial(s, vx, vy, n, rd, bd));
        }
    }
    if draw_collides_partial(s, vx, vy, n, rd, bd) {
        let (sy2, sx2) = choose|sy2: int, sx2: int|
            0 <= sy2 < h && 0 <= sx2 < w && #[trigger] draw_contrib_partial(
                s,
                vx,
                vy,
                n,
                rd,
                bd,
                sy2,
                sx2,
            ) == 1 && s.screen[sy2][sx2] & 1 == 1;
        assert(draw_contrib_partial(s, vx, vy, n, rd, bd + 1, sy2, sx2) == 1);
        assert(draw_collides_partial(s, vx, vy, n, rd, bd + 1));
    }
    if pix == 1 && s.screen[sy][sx] & 1 == 1 {
        assert(draw_contrib_partial(s, vx, vy, n, rd, bd + 1, sy, sx) == 1);
        assert(draw_collides_partial(s, vx, vy, n, rd, bd + 1));
    }
}

/// Finishing a sprite row is the same point as starting the next one.
pub proof fn lemma_partial_row_end(s: State, vx: int, vy: int, n: int, rd: int)
    ensures
        forall|sy: int, sx: int| #[trigger]
            draw_contrib_partial(s, vx, vy, n, rd, 8, sy, sx) == draw_contrib_partial(
                s,
                vx,
                vy,
                n,
                rd + 1,
                0,
                sy,
                sx,
            ),
        draw_collides_partial(s, vx, vy, n, rd, 8) <==> draw_collides_partial(
            s,
            vx,
            vy,
            n,
            rd + 1,
            0,
        ),
{
    assert forall|sy: int, sx: int| #[trigger]
        draw_contrib_partial(s, vx, vy, n, rd, 8, sy, sx) == draw_contrib_partial(
            s,
            vx,
            vy,
            n,
            rd + 1,
            0,
            sy,
            sx,
        ) by {}
    if draw_collides_partial(s, vx, vy, n, rd, 8) {
        let (sy, sx) = choose|sy: int, sx: int|
            0 <= sy < SCREEN_HEIGHT && 0 <= sx < SCREEN_WIDTH && #[trigger] draw_contrib_partial(
                s,
                vx,
                vy,
                n,
                rd,
                8,
                sy,
                sx,
            ) == 1 && s.screen[sy][sx] & 1 == 1;
        assert(draw_contrib_partial(s, vx, vy, n, rd + 1, 0, sy, sx) == 1);
        assert(draw_collides_partial(s, vx, vy, n, rd + 1, 0));
    }
    if draw_collides_partial(s, vx, vy, n, rd + 1, 0) {
        let (sy, sx) = choose|sy: int, sx: int|
            0 <= sy < SCREEN_HEIGHT && 0 <= sx < SCREEN_WIDTH && #[trigger] draw_contrib_partial(
                s,
                vx,
                vy,
                n,
                rd + 1,
                0,
                sy,
                sx,
            ) == 1 && s.screen[sy][sx] & 1 == 1;
        assert(draw_contrib_partial(s, vx, vy, n, rd, 8, sy, sx) == 1);
        assert(draw_collides_partial(s, vx, vy, n, rd, 8));
    }
}

/// Having processed every row of the sprite is the full draw.
pub proof fn lemma_partial_complete(s: State, vx: int, vy: int, n: int)
    ensures
        forall|sy: int, sx: int| #[trigger]
            draw_contrib_partial(s, vx, vy, n, n, 0, sy, sx) == draw_contrib(s, vx, vy, n, sy, sx),
        draw_collides_partial(s, vx, vy, n, n, 0) <==> draw_collides(s, vx, vy, n),
{
    assert forall|sy: int, sx: int| #[trigger]
        draw_contrib_partial(s, vx, vy, n, n, 0, sy, sx) == draw_contrib(
            s,
            vx,
            vy,
            n,
            sy,
            sx,
        ) by {}
    if draw_collides_partial(s, vx, vy, n, n, 0) {
        let (sy, sx) = choose|sy: int, sx: int|
            0 <= sy < SCREEN_HEIGHT && 0 <= sx < SCREEN_WIDTH && #[trigger] draw_contrib_partial(
                s,
                vx,
                vy,
                n,
                n,
                0,
                sy,
                sx,
            ) == 1 && s.screen[sy][sx] & 1 == 1;
        assert(draw_contrib(s, vx, vy, n, sy, sx) == 1);
        assert(draw_collides(s, vx, vy, n));
    }
    if draw_collides(s, vx, vy, n) {
        let (sy, sx) = choose|sy: int, sx: int|
            0 <= sy < SCREEN_HEIGHT && 0 <= sx < SCREEN_WIDTH && #[trigger] draw_contrib(
                s,
                vx,
                vy,
                n,
                sy,
                sx,
            ) == 1 && s.screen[sy][sx] & 1 == 1;
        assert(draw_contrib_partial(s, vx, vy, n, n, 0, sy, sx) == 1);
        assert(draw_collides_partial(s, vx, vy, n, n, 0));
    }
}

/// Executing an instruction preserves well-formedness.
pub proof fn lemma_execute_wf(s: State, ins: Instruction, rnd: u8)
    requires
        s.wf(),
        ins.wf(),
    ensures
        execute(s, ins, rnd).wf(),
{
    match ins {
        Instruction::ClearScreen => {
            assert forall|y: int| 0 <= y < SCREEN_HEIGHT implies (#[trigger] cls(
                s,
            ).screen[y]).len() == SCREEN_WIDTH by {}
        },
        Instruction::Draw { x, y, n } => {
            let vx = s.register[x as int] as int;
            let vy = s.register[y as int] as int;
            assert forall|sy: int| 0 <= sy < SCREEN_HEIGHT implies (#[trigger] draw_screen(
                s,
                vx,
                vy,
                n as int,
            )[sy]).len() == SCREEN_WIDTH by {}
        },
        _ => {},
    }
}

/// Executing an instruction preserves well-formedness whatever random byte
/// the step consumed.
pub proof fn lemma_execute_wf_all(s: State, ins: Instruction)
    requires
        s.wf(),
        ins.wf(),
    ensures
        forall|rnd: u8| (#[trigger] execute(s, ins, rnd)).wf(),
{
    assert forall|rnd: u8| (#[trigger] execute(s, ins, rnd)).wf() by {
        lemma_execute_wf(s, ins, rnd);
    }
}

} // verus!
