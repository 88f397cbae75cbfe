use chip8::cartridge::Cartridge;
use chip8::processor::Processor;

// Scenario: a fresh machine whose program is the single instruction `6142`.
// One cycle later V1 holds 0x42 and the program counter points past it.
#[test]
fn test_cycle_store_immediate() {
    let mut processor = Processor::new();
    processor.load_game(&[0x61, 0x42]);
    processor.cycle();
    assert_eq!(processor.register[1], 0x42);
    assert_eq!(processor.pc, 0x202);
    assert_eq!(processor.draw_flag, false);
}

// Addition around the carry boundary: 255 + 0 carries nothing, one more
// wraps and raises VF.
#[test]
fn test_add_carry_boundary() {
    let mut processor = Processor::new();
    processor.register[0] = 255;
    processor.register[1] = 0;
    processor.decode_opcode(0x8014);
    assert_eq!(processor.register[0], 255);
    assert_eq!(processor.register[0x0f], 0);

    let mut processor = Processor::new();
    processor.register[0] = 255;
    processor.register[1] = 1;
    processor.decode_opcode(0x8014);
    assert_eq!(processor.register[0], 0);
    assert_eq!(processor.register[0x0f], 1);
}

// Subtraction: result is the difference modulo 256; VF = 1 exactly when
// the minuend is larger.
#[test]
fn test_sub_borrow_values() {
    let mut processor = Processor::new();
    processor.register[0] = 5;
    processor.register[1] = 10;
    processor.decode_opcode(0x8015);
    assert_eq!(processor.register[0], 251);
    assert_eq!(processor.register[0x0f], 0);

    let mut processor = Processor::new();
    processor.register[0] = 10;
    processor.register[1] = 10;
    processor.decode_opcode(0x8015);
    assert_eq!(processor.register[0], 0);
    assert_eq!(processor.register[0x0f], 0);
}

// Reversed subtraction: result is Vy - Vx modulo 256; VF = 1 exactly when
// Vy is larger.
#[test]
fn test_sub_from_values() {
    let mut processor = Processor::new();
    processor.register[0] = 3;
    processor.register[1] = 7;
    processor.decode_opcode(0x8017);
    assert_eq!(processor.register[0], 4);
    assert_eq!(processor.register[0x0f], 1);

    let mut processor = Processor::new();
    processor.register[0] = 7;
    processor.register[1] = 3;
    processor.decode_opcode(0x8017);
    assert_eq!(processor.register[0], 252);
    assert_eq!(processor.register[0x0f], 0);
}

// The shifts extract the pre-shift low/high bit into VF for every byte.
#[test]
fn test_shift_extracts_bits() {
    let mut processor = Processor::new();
    processor.register[0] = 0xFF;
    processor.decode_opcode(0x8006);
    assert_eq!(processor.register[0x0f], 1);
    assert_eq!(processor.register[0], 0x7F);

    let mut processor = Processor::new();
    processor.register[0] = 0xFF;
    processor.decode_opcode(0x800e);
    assert_eq!(processor.register[0x0f], 1);
    assert_eq!(processor.register[0], 0xFE);
}

// Round trip: `Fx55` then `Fx65` with the same I and x restores the
// registers, even after they were clobbered in between.
#[test]
fn test_store_load_round_trip() {
    let mut processor = Processor::new();
    for i in 0..16 {
        processor.register[i] = (3 * i + 1) as u8;
    }
    let saved = processor.register;
    processor.index = 0x300;
    processor.decode_opcode(0xfe55);
    processor.register = [0; 16];
    processor.register[15] = saved[15];
    processor.decode_opcode(0xfe65);
    assert_eq!(processor.register, saved);
}

// Idempotence: clearing twice leaves the framebuffer cleared, and the draw
// flag is raised on both occasions.
#[test]
fn test_clear_twice() {
    let mut processor = Processor::new();
    processor.screen = [[1; 64]; 32];
    processor.decode_opcode(0x00e0);
    assert!(processor.draw_flag);
    processor.draw_flag = false;
    processor.decode_opcode(0x00e0);
    assert!(processor.draw_flag);
    for y in 0..32 {
        for x in 0..64 {
            assert_eq!(processor.screen[y][x], 0);
        }
    }
}

// Collision: drawing the same sprite twice at the same position restores
// the framebuffer and sets VF on the second draw.
#[test]
fn test_draw_twice_restores() {
    let mut processor = Processor::new();
    processor.index = 0x300;
    processor.memory[0x300] = 0b10110001;
    processor.memory[0x301] = 0b01001110;
    processor.register[0] = 5;
    processor.register[1] = 7;
    let before = processor.screen;
    processor.decode_opcode(0xd012);
    assert_eq!(processor.register[0x0f], 0);
    processor.decode_opcode(0xd012);
    assert_eq!(processor.register[0x0f], 1);
    assert_eq!(processor.screen, before);
}

// Wraparound: a sprite drawn past the right and bottom edges wraps
// cyclically instead of clipping or panicking.
#[test]
fn test_draw_wraparound() {
    let mut processor = Processor::new();
    processor.index = 0x300;
    processor.memory[0x300] = 0b11111111;
    processor.register[0] = 62;  // two columns before the right edge
    processor.register[1] = 31;  // the last row
    processor.decode_opcode(0xd011);
    // columns 62, 63 then wrapping to 0..6, all on row 31
    assert_eq!(processor.screen[31][62], 1);
    assert_eq!(processor.screen[31][63], 1);
    for x in 0..6 {
        assert_eq!(processor.screen[31][x], 1);
    }
    assert_eq!(processor.screen[31][6], 0);

    // a sprite placed entirely below the bottom edge lands back on top
    let mut processor = Processor::new();
    processor.index = 0x300;
    processor.memory[0x300] = 0b10000000;
    processor.register[0] = 0;
    processor.register[1] = 33;  // one past the height, wraps to row 1
    processor.decode_opcode(0xd011);
    assert_eq!(processor.screen[1][0], 1);
}

// Key-wait: with no key pressed the machine is frozen, program counter and
// waiting state unchanged across any number of steps; once a key is
// pressed its ID lands in the pinned register and execution resumes.
#[test]
fn test_key_wait_freezes_and_resolves() {
    let mut processor = Processor::new();
    processor.load_game(&[0xf2, 0x0a, 0x61, 0x42]);
    processor.delay_timer = 9;
    processor.cycle();
    assert!(processor.waiting_for_key);
    assert_eq!(processor.pc, 0x202);
    assert_eq!(processor.delay_timer, 8);
    for _ in 0..5 {
        processor.cycle();
        assert!(processor.waiting_for_key);
        assert_eq!(processor.pc, 0x202);
        // a frozen machine does not tick its timers
        assert_eq!(processor.delay_timer, 8);
    }
    processor.key[5] = true;
    processor.key[9] = true;
    processor.cycle();
    // the smallest pressed key ID is written, the latch opens, PC stays
    assert!(!processor.waiting_for_key);
    assert_eq!(processor.register[2], 5);
    assert_eq!(processor.pc, 0x202);
    // the next step runs the following instruction normally
    processor.cycle();
    assert_eq!(processor.register[1], 0x42);
    assert_eq!(processor.pc, 0x204);
}

// A return with an empty stack is a silent no-op that advances the program
// counter, by the documented policy.
#[test]
fn test_stack_underflow_noop() {
    let mut processor = Processor::new();
    processor.sp = 0;
    processor.decode_opcode(0x00ee);
    assert_eq!(processor.sp, 0);
    assert_eq!(processor.pc, 0x202);
}

// A call with a full stack pushes nothing and advances the program
// counter, by the documented policy.
#[test]
fn test_stack_overflow_noop() {
    let mut processor = Processor::new();
    processor.sp = 16;
    let stack = processor.stack;
    processor.decode_opcode(0x2333);
    assert_eq!(processor.sp, 16);
    assert_eq!(processor.stack, stack);
    assert_eq!(processor.pc, 0x202);
}

// Both timers count down once per executing step while above zero, and
// stop at zero.
#[test]
fn test_timers_tick() {
    let mut processor = Processor::new();
    processor.load_game(&[0x12, 0x00, 0x12, 0x00]);
    processor.delay_timer = 2;
    processor.sound_timer = 1;
    processor.cycle();
    assert_eq!(processor.delay_timer, 1);
    assert_eq!(processor.sound_timer, 0);
    processor.cycle();
    assert_eq!(processor.delay_timer, 0);
    assert_eq!(processor.sound_timer, 0);
    processor.cycle();
    assert_eq!(processor.delay_timer, 0);
    assert_eq!(processor.sound_timer, 0);
}

// The instruction word is fetched big-endian: high byte at the program
// counter, low byte after it.
#[test]
fn test_fetch_big_endian() {
    let mut processor = Processor::new();
    processor.load_game(&[0xAB, 0xCD]);
    assert_eq!(processor.fetch_opcode(), 0xABCD);
}

// An unrecognized pattern only advances the program counter.
#[test]
fn test_unknown_opcode_advances() {
    let mut processor = Processor::new();
    let registers = processor.register;
    processor.decode_opcode(0x0123);
    assert_eq!(processor.pc, 0x202);
    assert_eq!(processor.register, registers);
    assert_eq!(processor.sp, 0);
    assert_eq!(processor.draw_flag, false);
}

// The draw flag is transient: it is reset at the start of every step.
#[test]
fn test_draw_flag_resets() {
    let mut processor = Processor::new();
    processor.load_game(&[0x00, 0xe0, 0x61, 0x42]);
    processor.cycle();
    assert!(processor.draw_flag);
    processor.cycle();
    assert!(!processor.draw_flag);
}

// The whole font is present: each digit's glyph starts at five times its
// value, which is where `Fx29` points.
#[test]
fn test_font_loaded() {
    let processor = Processor::new();
    assert_eq!(processor.memory[5..10], [0x20, 0x60, 0x20, 0x20, 0x70]);
    assert_eq!(processor.memory[75..80], [0xF0, 0x80, 0xF0, 0x80, 0x80]);
    assert_eq!(processor.memory[80], 0);
}

// Loading an image longer than memory drops the overflowing bytes.
#[test]
fn test_load_game_truncates() {
    let mut processor = Processor::new();
    let image = vec![7u8; 5000];
    processor.load_game(&image);
    assert_eq!(processor.memory[0x200], 7);
    assert_eq!(processor.memory[4095], 7);
    assert_eq!(processor.memory[0x1FF], 0);
}

// A cartridge keeps at most its buffer's worth of bytes, zero-padded, and
// records how many bytes were kept.
#[test]
fn test_cartridge_truncates() {
    let cartridge = Cartridge::new(&[9, 8, 7]);
    assert_eq!(cartridge.size, 3);
    assert_eq!(cartridge.rom[0], 9);
    assert_eq!(cartridge.rom[2], 7);
    assert_eq!(cartridge.rom[3], 0);

    let long = vec![1u8; 4000];
    let cartridge = Cartridge::new(&long);
    assert_eq!(cartridge.size, 3584);
    assert_eq!(cartridge.rom[3583], 1);
}

// Scenario: V0 = 1 and instruction `B111` jump to 0x111 + 1.
#[test]
fn test_jump_offset_scenario() {
    let mut processor = Processor::new();
    processor.register[0] = 1;
    processor.decode_opcode(0xb111);
    assert_eq!(processor.pc, 0x112);
}

// `Fx1E` wraps the index register at 16 bits without touching VF.
#[test]
fn test_add_index_wraps() {
    let mut processor = Processor::new();
    processor.index = 0xFFFF;
    processor.register[0] = 2;
    processor.register[0x0f] = 0;
    processor.decode_opcode(0xf01e);
    assert_eq!(processor.index, 1);
    assert_eq!(processor.register[0x0f], 0);
}
