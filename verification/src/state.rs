//! The mathematical model of the machine state. Each fixed-size array of the
//! executable state appears here as a sequence; all contracts and laws are
//! stated over this type.

use vstd::prelude::*;

use crate::font::font;
use crate::font::FONT_SIZE;
use crate::GAME_ENTRY;
use crate::MEMORY_SIZE;
use crate::NUM_KEYS;
use crate::NUM_REGISTERS;
use crate::SCREEN_HEIGHT;
use crate::SCREEN_WIDTH;
use crate::STACK_SIZE;

verus! {

/// The machine state as mathematics: memory, registers, stack, keypad and
/// framebuffer are sequences, everything else is a plain value.
#[verifier::ext_equal]
pub struct State {
    pub memory: Seq<u8>,
    pub register: Seq<u8>,
    pub index: u16,
    pub pc: u16,
    pub screen: Seq<Seq<u8>>,
    pub draw_flag: bool,
    pub delay_timer: u8,
    pub sound_timer: u8,
    pub stack: Seq<u16>,
    pub sp: usize,
    pub key: Seq<bool>,
    pub waiting_for_key: bool,
    pub waiting_key_location: usize,
}

impl State {
    /// Well-formedness: every sequence has its fixed size, the stack pointer
    /// stays within the stack, and the pinned key-wait destination is a
    /// register index.
    pub open spec fn wf(self) -> bool {
        &&& self.memory.len() == MEMORY_SIZE
        &&& self.register.len() == NUM_REGISTERS
        &&& self.screen.len() == SCREEN_HEIGHT
        &&& forall|y: int|
            0 <= y < SCREEN_HEIGHT ==> (#[trigger] self.screen[y]).len() == SCREEN_WIDTH
        &&& self.stack.len() == STACK_SIZE
        &&& self.key.len() == NUM_KEYS
        &&& self.sp <= STACK_SIZE
        &&& self.waiting_key_location < NUM_REGISTERS
    }

    /// The state of a freshly constructed machine: the font table in low
    /// memory, everything else zeroed, the program counter at the entry
    /// address.
    pub open spec fn initial() -> State {
        State {
            memory: Seq::new(
                MEMORY_SIZE as nat,
                |a: int|
                    if a < FONT_SIZE {
                        font()[a]
                    } else {
                        0u8
                    },
            ),
            register: Seq::new(NUM_REGISTERS as nat, |i: int| 0u8),
            index: 0,
            pc: GAME_ENTRY as u16,
            screen: Seq::new(
                SCREEN_HEIGHT as nat,
                |y: int| Seq::new(SCREEN_WIDTH as nat, |x: int| 0u8),
            ),
            draw_flag: false,
            delay_timer: 0,
            sound_timer: 0,
            stack: Seq::new(STACK_SIZE as nat, |i: int| 0u16),
            sp: 0,
            key: Seq::new(NUM_KEYS as nat, |i: int| false),
            waiting_for_key: false,
            waiting_key_location: 0,
        }
    }

    /// Every pixel of the framebuffer is a single bit (0 or 1).
    pub open spec fn screen_bits(self) -> bool {
        forall|y: int, x: int|
            0 <= y < SCREEN_HEIGHT && 0 <= x < SCREEN_WIDTH ==> #[trigger] self.screen[y][x] <= 1
    }
}

} // verus!
