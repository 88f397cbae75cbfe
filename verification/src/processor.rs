//! The machine and its interpreter. Every public operation is specified
//! against the mathematical model in [`crate::state`] and the transition
//! functions in [`crate::step`], and proved to implement them.

use vstd::prelude::*;

use crate::decode::spec_decode;
use crate::decode::Instruction;
use crate::font::font;
use crate::font::font_table;
use crate::font::FONT_SIZE;
use crate::state::State;
use crate::step;
use crate::GAME_ENTRY;
use crate::MEMORY_SIZE;
use crate::NUM_KEYS;
use crate::NUM_REGISTERS;
use crate::SCREEN_HEIGHT;
use crate::SCREEN_WIDTH;
use crate::STACK_SIZE;

verus! {

broadcast use vstd::array::group_array_axioms;

/// The machine: registers, memory, stack, timers, keypad, framebuffer and
/// the key-wait latch. The fields are public so that a harness can prepare
/// and inspect states; the `View` gives the mathematical model that every
/// contract speaks of.
pub struct Processor {
    pub memory: [u8; MEMORY_SIZE],
    pub register: [u8; NUM_REGISTERS],
    pub index: u16,
    pub pc: u16,
    pub screen: [[u8; SCREEN_WIDTH]; SCREEN_HEIGHT],
    pub draw_flag: bool,
    pub delay_timer: u8,
    pub sound_timer: u8,
    pub stack: [u16; STACK_SIZE],
    pub sp: usize,
    pub key: [bool; NUM_KEYS],
    pub waiting_for_key: bool,
    pub waiting_key_location: usize,
}

impl View for Processor {
    type V = State;

    open spec fn view(&self) -> State {
        State {
            memory: self.memory@,
            register: self.register@,
            index: self.index,
            pc: self.pc,
            screen: Seq::new(SCREEN_HEIGHT as nat, |y: int| self.screen@[y]@),
            draw_flag: self.draw_flag,
            delay_timer: self.delay_timer,
            sound_timer: self.sound_timer,
            stack: self.stack@,
            sp: self.sp,
            key: self.key@,
            waiting_for_key: self.waiting_for_key,
            waiting_key_location: self.waiting_key_location,
        }
    }
}

impl Processor {
    /// The machine is well-formed when its model is: the stack pointer is
    /// within the stack and the key-wait destination is a register index.
    pub open spec fn wf(&self) -> bool {
        self@.wf()
    }

    /// A fresh machine: the font table in low memory, everything else
    /// zeroed, the program counter at the entry address.
    pub fn new() -> (p: Processor)
        ensures
            p@ == State::initial(),
            p.wf(),
    {
        let f = font_table();
        let mut memory: [u8; MEMORY_SIZE] = [0; 4096];
        let mut pos: usize = 0;
        while pos < FONT_SIZE
            invariant
                pos <= FONT_SIZE,
                f@ == font(),
                forall|j: int| 0 <= j < pos ==> memory@[j] == font()[j],
                forall|j: int| pos <= j < MEMORY_SIZE ==> memory@[j] == 0u8,
            decreases FONT_SIZE - pos,
        {
            memory[pos] = f[pos];
            pos = pos + 1;
        }
        let p = Processor {
            memory,
            register: [0; 16],
            index: 0,
            pc: GAME_ENTRY as u16,
            screen: [[0; 64]; 32],
            draw_flag: false,
            delay_timer: 0,
            sound_timer: 0,
            stack: [0; 16],
            sp: 0,
            key: [false; 16],
            waiting_for_key: false,
            waiting_key_location: 0,
        };
        proof {
            assert(p@.memory =~= State::initial().memory);
            assert(p@.register =~= State::initial().register);
            assert(p@.screen =~~= State::initial().screen);
            assert(p@.stack =~= State::initial().stack);
            assert(p@.key =~= State::initial().key);
            assert(p@ =~~= State::initial());
        }
        p
    }

    /// Copy a program image into memory starting at the entry address;
    /// bytes that would fall beyond the memory capacity are silently
    /// dropped.
    pub fn load_game(&mut self, game: &[u8])
        ensures
            final(self)@ == (State {
                memory: step::load_image(old(self)@.memory, game@),
                ..old(self)@
            }),
            old(self).wf() ==> final(self).wf(),
    {
        let mut pos: usize = 0;
        while pos < game.len() && pos < MEMORY_SIZE - GAME_ENTRY
            invariant
                pos <= game@.len(),
                GAME_ENTRY + pos <= MEMORY_SIZE,
                self@ == (State { memory: self.memory@, ..old(self)@ }),
                forall|a: int|
                    GAME_ENTRY <= a < GAME_ENTRY + pos ==> self.memory@[a] == game@[a - GAME_ENTRY],
                forall|a: int|
                    0 <= a < MEMORY_SIZE && !(GAME_ENTRY <= a < GAME_ENTRY + pos)
                        ==> self.memory@[a] == old(self).memory@[a],
            decreases game@.len() - pos,
        {
            self.memory[GAME_ENTRY + pos] = game[pos];
            pos = pos + 1;
        }
        proof {
            assert(self.memory@ =~= step::load_image(old(self)@.memory, game@));
            assert(self@ =~~= (State {
                memory: step::load_image(old(self)@.memory, game@),
                ..old(self)@
            }));
        }
    }

    /// The instruction word at the program counter, high byte at the lower
    /// address. Fetch addresses wrap modulo the memory size.
    pub fn fetch_opcode(&self) -> (op: u16)
        ensures
            op == step::fetch_word(self@),
    {
        let hi = self.memory[(self.pc as usize) % MEMORY_SIZE];
        let lo = self.memory[((self.pc as usize) + 1) % MEMORY_SIZE];
        (hi as u16) * 256 + (lo as u16)
    }

    /// `00E0`: clear the framebuffer and request a redraw.
    pub fn code_00e0(&mut self)
        ensures
            final(self)@ == step::cls(old(self)@),
    {
        self.screen = [[0; 64]; 32];
        self.draw_flag = true;
        self.pc = self.pc.wrapping_add(2);
        proof {
            assert(self@.screen =~~= step::cls(old(self)@).screen);
            assert(self@ =~~= step::cls(old(self)@));
        }
    }

    /// `00EE`: return from a subroutine; with an empty (or corrupt) stack
    /// the return is a no-op that advances the program counter.
    pub fn code_00ee(&mut self)
        ensures
            final(self)@ == step::ret(old(self)@),
    {
        if 1 <= self.sp && self.sp <= STACK_SIZE {
            self.sp = self.sp - 1;
            self.pc = self.stack[self.sp];
        } else {
            self.pc = self.pc.wrapping_add(2);
        }
        proof {
            assert(self@ =~~= step::ret(old(self)@));
        }
    }

    /// `1nnn`: jump.
    pub fn code_1nnn(&mut self, nnn: u16)
        ensures
            final(self)@ == step::jump(old(self)@, nnn),
    {
        self.pc = nnn;
        proof {
            assert(self@ =~~= step::jump(old(self)@, nnn));
        }
    }

    /// `2nnn`: call the subroutine at `nnn`, pushing the current program
    /// counter; with a full (or corrupt) stack the call is a no-op that
    /// advances the program counter.
    pub fn code_2nnn(&mut self, nnn: u16)
        ensures
            final(self)@ == step::call(old(self)@, nnn),
    {
        if self.sp < STACK_SIZE {
            self.stack[self.sp] = self.pc;
            self.sp = self.sp + 1;
            self.pc = nnn;
        } else {
            self.pc = self.pc.wrapping_add(2);
        }
        proof {
            assert(self@ =~~= step::call(old(self)@, nnn));
        }
    }

    /// `6xkk`: set `Vx = kk`.
    pub fn code_6xkk(&mut self, x: usize, kk: u8)
        requires
            x < NUM_REGISTERS,
        ensures
            final(self)@ == step::store_imm(old(self)@, x as int, kk),
    {
        self.register[x] = kk;
        self.pc = self.pc.wrapping_add(2);
        proof {
            assert(self@ =~~= step::store_imm(old(self)@, x as int, kk));
        }
    }

    /// `3xkk`: skip the next instruction if `Vx == kk`.
    pub fn code_3xkk(&mut self, x: usize, kk: u8)
        requires
            x < NUM_REGISTERS,
        ensures
            final(self)@ == step::skip_eq_imm(old(self)@, x as int, kk),
    {
        if self.register[x] == kk {
            self.pc = self.pc.wrapping_add(4);
        } else {
            self.pc = self.pc.wrapping_add(2);
        }
        proof {
            assert(self@ =~~= step::skip_eq_imm(old(self)@, x as int, kk));
        }
    }

    /// `4xkk`: skip the next instruction if `Vx != kk`.
    pub fn code_4xkk(&mut self, x: usize, kk: u8)
        requires
            x < NUM_REGISTERS,
        ensures
            final(self)@ == step::skip_ne_imm(old(self)@, x as int, kk),
    {
        if self.register[x] != kk {
            self.pc = self.pc.wrapping_add(4);
        } else {
            self.pc = self.pc.wrapping_add(2);
        }
        proof {
            assert(self@ =~~= step::skip_ne_imm(old(self)@, x as int, kk));
        }
    }

    /// `5xy0`: skip the next instruction if `Vx == Vy`.
    pub fn code_5xy0(&mut self, x: usize, y: usize)
        requires
            x < NUM_REGISTERS,
            y < NUM_REGISTERS,
        ensures
            final(self)@ == step::skip_eq_reg(old(self)@, x as int, y as int),
    {
        if self.register[x] == self.register[y] {
            self.pc = self.pc.wrapping_add(4);
        } else {
            self.pc = self.pc.wrapping_add(2);
        }
        proof {
            assert(self@ =~~= step::skip_eq_reg(old(self)@, x as int, y as int));
        }
    }

    /// `9xy0`: skip the next instruction if `Vx != Vy`.
    pub fn code_9xy0(&mut self, x: usize, y: usize)
        requires
            x < NUM_REGISTERS,
            y < NUM_REGISTERS,
        ensures
            final(self)@ == step::skip_ne_reg(old(self)@, x as int, y as int),
    {
        if self.register[x] != self.register[y] {
            self.pc = self.pc.wrapping_add(4);
        } else {
            self.pc = self.pc.wrapping_add(2);
        }
        proof {
            assert(self@ =~~= step::skip_ne_reg(old(self)@, x as int, y as int));
        }
    }

    /// `7xkk`: add the immediate to `Vx` with 8-bit wraparound; no flag.
    pub fn code_7xkk(&mut self, x: usize, kk: u8)
        requires
            x < NUM_REGISTERS,
        ensures
            final(self)@ == step::add_imm(old(self)@, x as int, kk),
    {
        self.register[x] = self.register[x].wrapping_add(kk);
        self.pc = self.pc.wrapping_add(2);
        proof {
            assert(self@ =~~= step::add_imm(old(self)@, x as int, kk));
        }
    }

    /// `8xy0`: set `Vx = Vy`.
    pub fn code_8xy0(&mut self, x: usize, y: usize)
        requires
            x < NUM_REGISTERS,
            y < NUM_REGISTERS,
        ensures
            final(self)@ == step::copy_reg(old(self)@, x as int, y as int),
    {
        self.register[x] = self.register[y];
        self.pc = self.pc.wrapping_add(2);
        proof {
            assert(self@ =~~= step::copy_reg(old(self)@, x as int, y as int));
        }
    }

    /// `8xy1`: set `Vx = Vx | Vy`.
    pub fn code_8xy1(&mut self, x: usize, y: usize)
        requires
            x < NUM_REGISTERS,
            y < NUM_REGISTERS,
        ensures
            final(self)@ == step::or_reg(old(self)@, x as int, y as int),
    {
        self.register[x] = self.register[x] | self.register[y];
        self.pc = self.pc.wrapping_add(2);
        proof {
            assert(self@ =~~= step::or_reg(old(self)@, x as int, y as int));
        }
    }

    /// `8xy2`: set `Vx = Vx & Vy`.
    pub fn code_8xy2(&mut self, x: usize, y: usize)
        requires
            x < NUM_REGISTERS,
            y < NUM_REGISTERS,
        ensures
            final(self)@ == step::and_reg(old(self)@, x as int, y as int),
    {
        self.register[x] = self.register[x] & self.register[y];
        self.pc = self.pc.wrapping_add(2);
        proof {
            assert(self@ =~~= step::and_reg(old(self)@, x as int, y as int));
        }
    }

    /// `8xy3`: set `Vx = Vx ^ Vy`.
    pub fn code_8xy3(&mut self, x: usize, y: usize)
        requires
            x < NUM_REGISTERS,
            y < NUM_REGISTERS,
        ensures
            final(self)@ == step::xor_reg(old(self)@, x as int, y as int),
    {
        self.register[x] = self.register[x] ^ self.register[y];
        self.pc = self.pc.wrapping_add(2);
        proof {
            assert(self@ =~~= step::xor_reg(old(self)@, x as int, y as int));
        }
    }

    /// `8xy4`: `Vx = Vx + Vy` with 8-bit wraparound; then VF becomes 1
    /// exactly when the unwrapped sum exceeds 255.
    pub fn code_8xy4(&mut self, x: usize, y: usize)
        requires
            x < NUM_REGISTERS,
            y < NUM_REGISTERS,
        ensures
            final(self)@ == step::add_reg(old(self)@, x as int, y as int),
    {
        let sum: u16 = self.register[x] as u16 + self.register[y] as u16;
        self.register[x] = (sum % 256) as u8;
        self.register[15] = if sum > 255 {
            1
        } else {
            0
        };
        self.pc = self.pc.wrapping_add(2);
        proof {
            assert(self@ =~~= step::add_reg(old(self)@, x as int, y as int));
        }
    }

    /// `8xy5`: VF = 1 exactly when `Vx > Vy`; then `Vx = Vx - Vy` with
    /// 8-bit wraparound (both operands read first).
    pub fn code_8xy5(&mut self, x: usize, y: usize)
        requires
            x < NUM_REGISTERS,
            y < NUM_REGISTERS,
        ensures
            final(self)@ == step::sub_reg(old(self)@, x as int, y as int),
    {
        let x_val = self.register[x];
        let y_val = self.register[y];
        self.register[15] = if x_val > y_val {
            1
        } else {
            0
        };
        self.register[x] = x_val.wrapping_sub(y_val);
        self.pc = self.pc.wrapping_add(2);
        proof {
            assert(self@ =~~= step::sub_reg(old(self)@, x as int, y as int));
        }
    }

    /// `8xy6`: VF = least significant bit of `Vx` before the shift; then
    /// `Vx = Vx >> 1`.
    pub fn code_8xy6(&mut self, x: usize)
        requires
            x < NUM_REGISTERS,
        ensures
            final(self)@ == step::shift_right(old(self)@, x as int),
    {
        self.register[15] = self.register[x] & 1;
        self.register[x] = self.register[x] / 2;
        self.pc = self.pc.wrapping_add(2);
        proof {
            assert(self@ =~~= step::shift_right(old(self)@, x as int));
        }
    }

    /// `8xy7`: VF = 1 exactly when `Vy > Vx`; then `Vx = Vy - Vx` with
    /// 8-bit wraparound.
    pub fn code_8xy7(&mut self, x: usize, y: usize)
        requires
            x < NUM_REGISTERS,
            y < NUM_REGISTERS,
        ensures
            final(self)@ == step::sub_from_reg(old(self)@, x as int, y as int),
    {
        self.register[15] = if self.register[y] > self.register[x] {
            1
        } else {
            0
        };
        self.register[x] = self.register[y].wrapping_sub(self.register[x]);
        self.pc = self.pc.wrapping_add(2);
        proof {
            assert(self@ =~~= step::sub_from_reg(old(self)@, x as int, y as int));
        }
    }

    /// `8xyE`: VF = most significant bit of `Vx` before the shift; then
    /// `Vx = Vx << 1` with 8-bit wraparound.
    pub fn code_8xye(&mut self, x: usize)
        requires
            x < NUM_REGISTERS,
        ensures
            final(self)@ == step::shift_left(old(self)@, x as int),
    {
        self.register[15] = self.register[x] / 128;
        self.register[x] = self.register[x].wrapping_mul(2);
        self.pc = self.pc.wrapping_add(2);
        proof {
            assert(self@ =~~= step::shift_left(old(self)@, x as int));
        }
    }


    /// `Bnnn`: jump to `nnn + V0`.
    pub fn code_bnnn(&mut self, nnn: u16)
        requires
            nnn < 0x1000,
        ensures
            final(self)@ == step::jump_offset(old(self)@, nnn),
    {
        self.pc = nnn + self.register[0] as u16;
        proof {
            assert(self@ =~~= step::jump_offset(old(self)@, nnn));
        }
    }

    /// `Cxkk`: set `Vx` to the random byte masked with `kk`. The random
    /// byte is an argument: this function is exact for every value of it,
    /// and the dispatcher draws the byte.
    pub fn code_cxkk(&mut self, x: usize, kk: u8, rnd: u8)
        requires
            x < NUM_REGISTERS,
        ensures
            final(self)@ == step::random(old(self)@, x as int, kk, rnd),
    {
        self.register[x] = kk & rnd;
        self.pc = self.pc.wrapping_add(2);
        proof {
            assert(self@ =~~= step::random(old(self)@, x as int, kk, rnd));
        }
    }

    /// `Ex9E`: skip the next instruction if the key named by the low 4 bits
    /// of `Vx` is pressed.
    pub fn code_ex9e(&mut self, x: usize)
        requires
            x < NUM_REGISTERS,
        ensures
            final(self)@ == step::skip_key_pressed(old(self)@, x as int),
    {
        let v = self.register[x];
        proof {
            assert(v & 0x0F < 16) by (bit_vector);
        }
        let k = (v & 0x0F) as usize;
        if self.key[k] {
            self.pc = self.pc.wrapping_add(4);
        } else {
            self.pc = self.pc.wrapping_add(2);
        }
        proof {
            assert(self@ =~~= step::skip_key_pressed(old(self)@, x as int));
        }
    }

    /// `ExA1`: skip the next instruction if that key is not pressed.
    pub fn code_exa1(&mut self, x: usize)
        requires
            x < NUM_REGISTERS,
        ensures
            final(self)@ == step::skip_key_not_pressed(old(self)@, x as int),
    {
        let v = self.register[x];
        proof {
            assert(v & 0x0F < 16) by (bit_vector);
        }
        let k = (v & 0x0F) as usize;
        if !self.key[k] {
            self.pc = self.pc.wrapping_add(4);
        } else {
            self.pc = self.pc.wrapping_add(2);
        }
        proof {
            assert(self@ =~~= step::skip_key_not_pressed(old(self)@, x as int));
        }
    }

    /// `Fx07`: read the delay timer into `Vx`.
    pub fn code_fx07(&mut self, x: usize)
        requires
            x < NUM_REGISTERS,
        ensures
            final(self)@ == step::read_delay(old(self)@, x as int),
    {
        self.register[x] = self.delay_timer;
        self.pc = self.pc.wrapping_add(2);
        proof {
            assert(self@ =~~= step::read_delay(old(self)@, x as int));
        }
    }

    /// `Fx0A`: activate the key-wait latch, pinning `x` as destination. Only
    /// the later key resolution writes the register.
    pub fn code_fx0a(&mut self, x: usize)
        requires
            x < NUM_REGISTERS,
        ensures
            final(self)@ == step::wait_key(old(self)@, x as int),
    {
        self.waiting_for_key = true;
        self.waiting_key_location = x;
        self.pc = self.pc.wrapping_add(2);
        proof {
            assert(self@ =~~= step::wait_key(old(self)@, x as int));
        }
    }

    /// `Fx15`: set the delay timer from `Vx`.
    pub fn code_fx15(&mut self, x: usize)
        requires
            x < NUM_REGISTERS,
        ensures
            final(self)@ == step::set_delay(old(self)@, x as int),
    {
        self.delay_timer = self.register[x];
        self.pc = self.pc.wrapping_add(2);
        proof {
            assert(self@ =~~= step::set_delay(old(self)@, x as int));
        }
    }

    /// `Fx18`: set the sound timer from `Vx`.
    pub fn code_fx18(&mut self, x: usize)
        requires
            x < NUM_REGISTERS,
        ensures
            final(self)@ == step::set_sound(old(self)@, x as int),
    {
        self.sound_timer = self.register[x];
        self.pc = self.pc.wrapping_add(2);
        proof {
            assert(self@ =~~= step::set_sound(old(self)@, x as int));
        }
    }

    /// `Fx1E`: add `Vx` to the index register, 16-bit wraparound, no flag.
    pub fn code_fx1e(&mut self, x: usize)
        requires
            x < NUM_REGISTERS,
        ensures
            final(self)@ == step::add_index(old(self)@, x as int),
    {
        self.index = self.index.wrapping_add(self.register[x] as u16);
        self.pc = self.pc.wrapping_add(2);
        proof {
            assert(self@ =~~= step::add_index(old(self)@, x as int));
        }
    }

    /// `Fx29`: point the index register at the five-byte font glyph for
    /// digit `Vx`.
    pub fn code_fx29(&mut self, x: usize)
        requires
            x < NUM_REGISTERS,
        ensures
            final(self)@ == step::font_glyph(old(self)@, x as int),
    {
        self.index = self.register[x] as u16 * 5;
        self.pc = self.pc.wrapping_add(2);
        proof {
            assert(self@ =~~= step::font_glyph(old(self)@, x as int));
        }
    }

    /// `Fx33`: store the decimal digits of `Vx` as hundreds, tens and units
    /// at `memory[I]`, `memory[I+1]`, `memory[I+2]` (addresses wrapping).
    pub fn code_fx33(&mut self, x: usize)
        requires
            x < NUM_REGISTERS,
        ensures
            final(self)@ == step::store_bcd(old(self)@, x as int),
    {
        let v = self.register[x];
        let i = self.index as usize;
        self.memory[i % MEMORY_SIZE] = v / 100;
        self.memory[(i + 1) % MEMORY_SIZE] = v % 100 / 10;
        self.memory[(i + 2) % MEMORY_SIZE] = v % 10;
        self.pc = self.pc.wrapping_add(2);
        proof {
            assert(self@ =~~= step::store_bcd(old(self)@, x as int));
        }
    }


    /// `Dxyn`: draw the `n`-byte sprite at `memory[I..]` at `(Vx, Vy)`.
    /// Coordinates wrap cyclically; every target pixel is XOR-combined with
    /// its sprite bit; VF reports whether any lit pixel was turned off.
    pub fn code_dxyn(&mut self, x: usize, y: usize, n: usize)
        requires
            x < NUM_REGISTERS,
            y < NUM_REGISTERS,
            n < 16,
        ensures
            final(self)@ == step::draw(old(self)@, x as int, y as int, n as int),
    {
        let ghost s = old(self)@;
        let ghost vx0 = s.register[x as int] as int;
        let ghost vy0 = s.register[y as int] as int;
        let vx = self.register[x] as usize;
        let vy = self.register[y] as usize;
        let mut vf: u8 = 0;
        let mut byte: usize = 0;
        proof {
            step::lemma_partial_empty(s, vx0, vy0, n as int);
            assert forall|sy2: int, sx2: int|
                0 <= sy2 < SCREEN_HEIGHT && 0 <= sx2 < SCREEN_WIDTH implies #[trigger] self@.screen[sy2][sx2]
                == (s.screen[sy2][sx2] ^ step::draw_contrib_partial(
                s,
                vx0,
                vy0,
                n as int,
                0,
                0,
                sy2,
                sx2,
            )) by {
                step::lemma_xor_facts(s.screen[sy2][sx2], 0);
            }
        }
        while byte < n
            invariant
                x < NUM_REGISTERS,
                y < NUM_REGISTERS,
                n < 16,
                byte <= n,
                vx == vx0,
                vy == vy0,
                s == old(self)@,
                vx0 == s.register[x as int],
                vy0 == s.register[y as int],
                self@ == (State { screen: self@.screen, ..s }),
                forall|sy2: int, sx2: int|
                    0 <= sy2 < SCREEN_HEIGHT && 0 <= sx2 < SCREEN_WIDTH
                        ==> #[trigger] self@.screen[sy2][sx2] == (s.screen[sy2][sx2]
                        ^ step::draw_contrib_partial(s, vx0, vy0, n as int, byte as int, 0, sy2, sx2)),
                vf <= 1,
                (vf == 1) <==> step::draw_collides_partial(s, vx0, vy0, n as int, byte as int, 0),
            decreases n - byte,
        {
            let sy = (vy + byte) % SCREEN_HEIGHT;
            let sprite_byte = self.memory[(self.index as usize + byte) % MEMORY_SIZE];
            proof {
                assert(sprite_byte == s.memory[step::wrap_addr(s.index + byte)]);
            }
            let mut bit: usize = 0;
            while bit < 8
                invariant
                    x < NUM_REGISTERS,
                    y < NUM_REGISTERS,
                    n < 16,
                    byte < n,
                    bit <= 8,
                    vx == vx0,
                    vy == vy0,
                    s == old(self)@,
                    vx0 == s.register[x as int],
                    vy0 == s.register[y as int],
                    0 <= vx0 < 256,
                    0 <= vy0 < 256,
                    sy == (vy0 + byte) % (SCREEN_HEIGHT as int),
                    sprite_byte == s.memory[step::wrap_addr(s.index + byte)],
                    self@ == (State { screen: self@.screen, ..s }),
                    forall|sy2: int, sx2: int|
                        0 <= sy2 < SCREEN_HEIGHT && 0 <= sx2 < SCREEN_WIDTH
                            ==> #[trigger] self@.screen[sy2][sx2] == (s.screen[sy2][sx2]
                            ^ step::draw_contrib_partial(
                            s,
                            vx0,
                            vy0,
                            n as int,
                            byte as int,
                            bit as int,
                            sy2,
                            sx2,
                        )),
                    vf <= 1,
                    (vf == 1) <==> step::draw_collides_partial(
                        s,
                        vx0,
                        vy0,
                        n as int,
                        byte as int,
                        bit as int,
                    ),
                decreases 8 - bit,
            {
                let sx = (vx + bit) % SCREEN_WIDTH;
                let pixel = (sprite_byte >> ((7 - bit) as u8)) & 1;
                let ghost vf_prev = vf;
                let ghost pre = self@;
                let ghost pix = step::sprite_pixel(
                    s.memory[step::wrap_addr(s.index + byte)],
                    bit as int,
                );
                proof {
                    assert(pixel == pix);
                    step::lemma_partial_bit_step(s, vx0, vy0, n as int, byte as int, bit as int);
                    step::lemma_sprite_pixel_bit(
                        s.memory[step::wrap_addr(s.index + byte)],
                        bit as int,
                    );
                    step::lemma_xor_facts(s.screen[sy as int][sx as int], pix);
                    assert(pre.screen[sy as int][sx as int] == s.screen[sy as int][sx as int]);
                }
                let mut row = self.screen[sy];
                let cur = row[sx];
                vf = vf | (pixel & cur);
                row[sx] = cur ^ pixel;
                self.screen[sy] = row;
                proof {
                    assert(cur == pre.screen[sy as int][sx as int]);
                    assert(cur == s.screen[sy as int][sx as int]);
                    step::lemma_collision_test(pix, cur);
                    step::lemma_flag_or(vf_prev, pix & cur);
                    assert(vf == 1 <==> step::draw_collides_partial(
                        s,
                        vx0,
                        vy0,
                        n as int,
                        byte as int,
                        bit + 1,
                    ));
                    assert forall|sy2: int, sx2: int|
                        0 <= sy2 < SCREEN_HEIGHT && 0 <= sx2 < SCREEN_WIDTH
                            implies #[trigger] self@.screen[sy2][sx2] == (s.screen[sy2][sx2]
                            ^ step::draw_contrib_partial(
                            s,
                            vx0,
                            vy0,
                            n as int,
                            byte as int,
                            bit + 1,
                            sy2,
                            sx2,
                        )) by {
                        if sy2 == sy as int && sx2 == sx as int {
                            assert(self@.screen[sy2][sx2] == cur ^ pixel);
                        } else {
                            assert(self@.screen[sy2][sx2] == pre.screen[sy2][sx2]);
                        }
                    }
                }
                bit = bit + 1;
            }
            proof {
                step::lemma_partial_row_end(s, vx0, vy0, n as int, byte as int);
                assert forall|sy2: int, sx2: int|
                    0 <= sy2 < SCREEN_HEIGHT && 0 <= sx2 < SCREEN_WIDTH
                        implies #[trigger] self@.screen[sy2][sx2] == (s.screen[sy2][sx2]
                        ^ step::draw_contrib_partial(
                        s,
                        vx0,
                        vy0,
                        n as int,
                        byte + 1,
                        0,
                        sy2,
                        sx2,
                    )) by {
                    assert(self@.screen[sy2][sx2] == s.screen[sy2][sx2]
                        ^ step::draw_contrib_partial(s, vx0, vy0, n as int, byte as int, 8, sy2, sx2));
                }
            }
            byte = byte + 1;
        }
        proof {
            step::lemma_partial_complete(s, vx0, vy0, n as int);
        }
        self.register[15] = vf;
        self.draw_flag = true;
        self.pc = self.pc.wrapping_add(2);
        proof {
            assert forall|sy2: int|
                0 <= sy2 < SCREEN_HEIGHT implies self@.screen[sy2] =~= step::draw_screen(
                s,
                vx0,
                vy0,
                n as int,
            )[sy2] by {
                assert forall|sx2: int|
                    0 <= sx2 < SCREEN_WIDTH implies self@.screen[sy2][sx2] == step::draw_screen(
                    s,
                    vx0,
                    vy0,
                    n as int,
                )[sy2][sx2] by {
                    assert(self@.screen[sy2][sx2] == s.screen[sy2][sx2] ^ step::draw_contrib_partial(
                        s,
                        vx0,
                        vy0,
                        n as int,
                        n as int,
                        0,
                        sy2,
                        sx2,
                    ));
                }
            }
            assert(self@.screen =~~= step::draw_screen(s, vx0, vy0, n as int));
            assert(self@ =~~= step::draw(old(self)@, x as int, y as int, n as int));
        }
    }

    /// `Fx55`: copy `V0..=Vx` into memory starting at `I` (addresses
    /// wrapping); the index register itself is left unchanged.
    pub fn code_fx55(&mut self, x: usize)
        requires
            x < NUM_REGISTERS,
        ensures
            final(self)@ == step::store_regs(old(self)@, x as int),
    {
        let ghost s = old(self)@;
        let mut reg_i: usize = 0;
        while reg_i <= x
            invariant
                x < NUM_REGISTERS,
                reg_i <= x + 1,
                s == old(self)@,
                self@ == (State { memory: self.memory@, ..s }),
                self.memory@ == step::store_span_mem(s, reg_i as int),
            decreases x + 1 - reg_i,
        {
            let a0 = (self.index as usize + reg_i) % MEMORY_SIZE;
            self.memory[a0] = self.register[reg_i];
            proof {
                let m = MEMORY_SIZE as int;
                step::lemma_mod_span(s.index as int, reg_i as int, m);
                assert forall|a: int| 0 <= a < m implies self.memory@[a] == step::store_span_mem(
                    s,
                    reg_i + 1,
                )[a] by {
                    let i = (a - s.index) % m;
                    if a != a0 && i == reg_i {
                        step::lemma_mod_span_unique(s.index as int, reg_i as int, a, m);
                    }
                }
                assert(self.memory@ =~= step::store_span_mem(s, reg_i + 1));
            }
            reg_i = reg_i + 1;
        }
        self.pc = self.pc.wrapping_add(2);
        proof {
            assert(self@ =~~= step::store_regs(old(self)@, x as int));
        }
    }

    /// `Fx65`: copy memory starting at `I` into `V0..=Vx` (addresses
    /// wrapping); the index register itself is left unchanged.
    pub fn code_fx65(&mut self, x: usize)
        requires
            x < NUM_REGISTERS,
        ensures
            final(self)@ == step::load_regs(old(self)@, x as int),
    {
        let ghost s = old(self)@;
        let mut reg_i: usize = 0;
        while reg_i <= x
            invariant
                x < NUM_REGISTERS,
                reg_i <= x + 1,
                s == old(self)@,
                self@ == (State { register: self.register@, ..s }),
                self.register@ == step::load_span_regs(s, reg_i as int),
            decreases x + 1 - reg_i,
        {
            let a0 = (self.index as usize + reg_i) % MEMORY_SIZE;
            self.register[reg_i] = self.memory[a0];
            proof {
                assert(self.register@ =~= step::load_span_regs(s, reg_i + 1));
            }
            reg_i = reg_i + 1;
        }
        self.pc = self.pc.wrapping_add(2);
        proof {
            assert(self@ =~~= step::load_regs(old(self)@, x as int));
        }
    }


    /// One interpreter step. The draw flag is reset; a machine waiting for
    /// a key only polls the keypad (frozen otherwise, timers included);
    /// otherwise both timers count down and the instruction at the program
    /// counter is fetched, decoded and executed.
    pub fn cycle(&mut self)
        requires
            old(self).wf(),
        ensures
            final(self).wf(),
            exists|rnd: u8| final(self)@ == step::tick(old(self)@, rnd),
            !step::step_is_random(old(self)@) ==> final(self)@ == step::tick(old(self)@, 0),
    {
        self.draw_flag = false;
        let ghost s0 = self@;
        proof {
            assert(s0 == (State { draw_flag: false, ..old(self)@ }));
        }
        if self.waiting_for_key {
            let mut pos: usize = 0;
            while pos < NUM_KEYS
                invariant
                    pos <= NUM_KEYS,
                    self@ == s0,
                    s0 == (State { draw_flag: false, ..old(self)@ }),
                    s0.wf(),
                    s0.waiting_for_key,
                    forall|j: int| 0 <= j < pos ==> !s0.key[j],
                decreases NUM_KEYS - pos,
            {
                if self.key[pos] {
                    self.waiting_for_key = false;
                    let loc = self.waiting_key_location;
                    self.register[loc] = pos as u8;
                    proof {
                        assert(s0.key[pos as int]);
                        assert(step::any_pressed(s0.key));
                        step::lemma_first_pressed_from(s0.key, 0, pos as int);
                        assert(self@ =~~= step::resolve_key(s0));
                        assert(self@ == step::tick(old(self)@, 0u8));
                    }
                    return ;
                }
                pos = pos + 1;
            }
            proof {
                assert(!step::any_pressed(s0.key));
                assert(self@ == step::resolve_key(s0));
                assert(self@ == step::tick(old(self)@, 0u8));
            }
        } else {
            if self.delay_timer > 0 {
                self.delay_timer = self.delay_timer - 1;
            }
            if self.sound_timer > 0 {
                self.sound_timer = self.sound_timer - 1;
            }
            proof {
                assert(self@ =~~= step::tick_timers(s0));
            }
            let ghost s1 = self@;
            let opcode = self.fetch_opcode();
            self.decode_opcode(opcode);
            proof {
                assert(step::fetch_word(s1) == step::fetch_word(old(self)@));
                let ins = spec_decode(opcode);
                let rnd = choose|rnd: u8| self@ == step::execute(s1, ins, rnd);
                assert(self@ == step::tick(old(self)@, rnd));
                if !step::step_is_random(old(self)@) {
                    assert(self@ == step::execute(s1, ins, 0));
                    assert(self@ == step::tick(old(self)@, 0u8));
                }
            }
        }
    }

    /// Decode one instruction word and execute it: the word becomes a typed
    /// instruction, and an exhaustive dispatch runs its handler. Patterns
    /// that match no instruction advance the program counter and change
    /// nothing else.
    pub fn decode_opcode(&mut self, opcode: u16)
        ensures
            exists|rnd: u8|
                final(self)@ == step::execute(old(self)@, spec_decode(opcode), rnd),
            !(spec_decode(opcode) is Random) ==> final(self)@ == step::execute(
                old(self)@,
                spec_decode(opcode),
                0,
            ),
            old(self).wf() ==> final(self).wf(),
    {
        let ghost mut w: u8 = 0;
        let ins = Instruction::decode(opcode);
        match ins {
            Instruction::ClearScreen => self.code_00e0(),
            Instruction::Return => self.code_00ee(),
            Instruction::Jump { nnn } => self.code_1nnn(nnn),
            Instruction::Call { nnn } => self.code_2nnn(nnn),
            Instruction::SkipEqImm { x, kk } => self.code_3xkk(x, kk),
            Instruction::SkipNeImm { x, kk } => self.code_4xkk(x, kk),
            Instruction::SkipEqReg { x, y } => self.code_5xy0(x, y),
            Instruction::StoreImm { x, kk } => self.code_6xkk(x, kk),
            Instruction::AddImm { x, kk } => self.code_7xkk(x, kk),
            Instruction::CopyReg { x, y } => self.code_8xy0(x, y),
            Instruction::OrReg { x, y } => self.code_8xy1(x, y),
            Instruction::AndReg { x, y } => self.code_8xy2(x, y),
            Instruction::XorReg { x, y } => self.code_8xy3(x, y),
            Instruction::AddReg { x, y } => self.code_8xy4(x, y),
            Instruction::SubReg { x, y } => self.code_8xy5(x, y),
            Instruction::ShiftRight { x } => self.code_8xy6(x),
            Instruction::SubFromReg { x, y } => self.code_8xy7(x, y),
            Instruction::ShiftLeft { x } => self.code_8xye(x),
            Instruction::SkipNeReg { x, y } => self.code_9xy0(x, y),
            Instruction::StoreIndex { nnn } => self.code_annn(nnn),
            Instruction::JumpOffset { nnn } => self.code_bnnn(nnn),
            Instruction::Random { x, kk } => {
                let rnd = random_byte();
                self.code_cxkk(x, kk, rnd);
                proof {
                    w = rnd;
                    assert(self@ == step::execute(old(self)@, spec_decode(opcode), rnd));
                }
            },
            Instruction::Draw { x, y, n } => self.code_dxyn(x, y, n),
            Instruction::SkipKeyPressed { x } => self.code_ex9e(x),
            Instruction::SkipKeyNotPressed { x } => self.code_exa1(x),
            Instruction::ReadDelay { x } => self.code_fx07(x),
            Instruction::WaitKey { x } => self.code_fx0a(x),
            Instruction::SetDelay { x } => self.code_fx15(x),
            Instruction::SetSound { x } => self.code_fx18(x),
            Instruction::AddIndex { x } => self.code_fx1e(x),
            Instruction::FontGlyph { x } => self.code_fx29(x),
            Instruction::StoreBcd { x } => self.code_fx33(x),
            Instruction::StoreRegisters { x } => self.code_fx55(x),
            Instruction::LoadRegisters { x } => self.code_fx65(x),
            Instruction::Unknown => {
                self.pc = self.pc.wrapping_add(2);
                proof {
                    assert(self@ =~~= step::unknown(old(self)@));
                }
            },
        }
        proof {
            assert(self@ == step::execute(old(self)@, spec_decode(opcode), w));
            if old(self).wf() {
                step::lemma_execute_wf_all(old(self)@, spec_decode(opcode));
            }
        }
    }

    /// `Annn`: set the index register.
    pub fn code_annn(&mut self, nnn: u16)
        ensures
            final(self)@ == step::store_index(old(self)@, nnn),
    {
        self.index = nnn;
        self.pc = self.pc.wrapping_add(2);
        proof {
            assert(self@ =~~= step::store_index(old(self)@, nnn));
        }
    }
}

/// Relies on `rand::random`: one byte from the thread-local generator.
/// Nothing can be promised of a random value, so the contract is empty;
/// callers state what holds of every outcome.
#[verifier::external_body]
fn random_byte() -> u8 {
    rand::random::<u8>()
}

} // verus!
