use chip8::processor::Processor;

fn new_processor() -> Processor {
    let mut processor = Processor::new();
    processor.register = [1, 1, 2, 2, 3, 3, 4, 4, 5, 5, 6, 6, 7, 7, 8, 8];
    processor
}

// The entry address is 0x200; one instruction later is 0x202 ("next"), two
// instructions later is 0x204 ("skip").

#[test]
fn test_initial_state() {
    let processor = Processor::new();
    assert_eq!(processor.pc, 0x200);
    assert_eq!(processor.sp, 0);
    assert_eq!(processor.stack, [0; 16]);
    // Font loading
    assert_eq!(processor.memory[0..5], [0xF0, 0x90, 0x90, 0x90, 0xF0]);
}

#[test]
fn test_load_game() {
    let mut processor = Processor::new();
    processor.load_game(&[1, 2, 3]);
    assert_eq!(processor.memory[0x200], 1);
    assert_eq!(processor.memory[0x200 + 1], 2);
    assert_eq!(processor.memory[0x200 + 2], 3);
}

#[test]
fn test_code_00e0() {
    let mut processor = Processor::new();
    processor.screen = [[1; 64]; 32];
    processor.decode_opcode(0x00e0);
    for y in 0..32 {
        for x in 0..64 {
            assert_eq!(processor.screen[y][x], 0);
        }
    }
}

#[test]
fn test_code_00ee() {
    let mut processor = Processor::new();
    processor.sp = 3;
    processor.stack[2] = 0x1337;
    processor.decode_opcode(0x00ee);
    assert_eq!(processor.sp, 2);
    assert_eq!(processor.pc, 0x1337);
}

#[test]
fn test_code_1nnn() {
    let mut processor = Processor::new();
    processor.decode_opcode(0x1222);
    assert_eq!(processor.pc, 0x0222);
}

#[test]
fn test_code_2nnn() {
    let mut processor = new_processor();
    processor.sp = 0;
    let current = processor.pc;
    processor.decode_opcode(0x2333);
    assert_eq!(processor.sp, 1);
    assert_eq!(processor.pc, 0x0333);
    assert_eq!(processor.stack[0], current);
}

#[test]
fn test_code_3xkk() {
    let mut processor = new_processor();
    processor.decode_opcode(0x3202);
    assert_eq!(processor.pc, 0x204);

    let mut processor = new_processor();
    processor.decode_opcode(0x3206);
    assert_eq!(processor.pc, 0x202);
}

#[test]
fn test_code_4xkk() {
    let mut processor = new_processor();
    processor.decode_opcode(0x3206);
    assert_eq!(processor.pc, 0x202);

    let mut processor = new_processor();
    processor.decode_opcode(0x3202);
    assert_eq!(processor.pc, 0x204);
}

#[test]
fn test_code_5xy0() {
    let mut processor = new_processor();
    processor.decode_opcode(0x5010);
    assert_eq!(processor.pc, 0x204);

    let mut processor = new_processor();
    processor.decode_opcode(0x5070);
    assert_eq!(processor.pc, 0x202);
}

#[test]
fn test_code_6xkk() {
    let mut processor = new_processor();
    processor.decode_opcode(0x6133);
    assert_eq!(processor.register[1], 0x33);
    assert_eq!(processor.pc, 0x202);
}

#[test]
fn test_code_7xkk() {
    let mut processor = new_processor();
    processor.decode_opcode(0x7001);
    assert_eq!(processor.register[0], 0x02);
    assert_eq!(processor.pc, 0x202);
}

#[test]
fn test_code_8xy0() {
    let mut processor = new_processor();
    processor.decode_opcode(0x8f00);
    assert_eq!(processor.register[0], 1);
    assert_eq!(processor.pc, 0x202);
}

#[test]
fn test_code_8xy1() {
    let mut processor = new_processor();
    processor.decode_opcode(0x8011);
    assert_eq!(processor.register[0], 1);
    assert_eq!(processor.pc, 0x202);
}

#[test]
fn test_code_8xy2() {
    let mut processor = new_processor();
    processor.decode_opcode(0x8142);
    assert_eq!(processor.register[1], 1);
    assert_eq!(processor.pc, 0x202);
}

#[test]
fn test_code_8xy3() {
    let mut processor = new_processor();
    processor.decode_opcode(0x8143);
    assert_eq!(processor.register[2], 2);
    assert_eq!(processor.pc, 0x202);
}

#[test]
fn test_code_8xy4() {
    // no carry
    let mut processor = new_processor();
    processor.decode_opcode(0x8124);
    assert_eq!(processor.register[1], 3);
    assert_eq!(processor.pc, 0x202);

    // carry
    let mut processor = new_processor();
    processor.register[2] = 254;
    processor.decode_opcode(0x8324);
    assert_eq!(processor.register[1], 1);
    assert_eq!(processor.register[0x0f], 1);
    assert_eq!(processor.pc, 0x202);
}

#[test]
fn test_code_8xy5() {
    // set carry
    let mut processor = new_processor();
    processor.decode_opcode(0x8205);
    assert_eq!(processor.register[2], 1);
    assert_eq!(processor.register[0x0f], 1);
    assert_eq!(processor.pc, 0x202);

    // don't set carry
    let mut processor = new_processor();
    processor.decode_opcode(0x8065);
    assert_eq!(processor.register[0], 253);
    assert_eq!(processor.register[0x0f], 0);
    assert_eq!(processor.pc, 0x202);
}

#[test]
fn test_code_8xy6() {
    // set VF
    let mut processor = new_processor();
    processor.decode_opcode(0x8416);
    assert_eq!(processor.register[0x0f], 1);
    assert_eq!(processor.register[4], 1);
    assert_eq!(processor.pc, 0x202);

    // don't set VF
    let mut processor = new_processor();
    processor.decode_opcode(0x8216);
    assert_eq!(processor.register[0x0f], 0);
    assert_eq!(processor.register[2], 1);
    assert_eq!(processor.pc, 0x202);
}

#[test]
fn test_code_8xy7() {
    // set VF
    let mut processor = new_processor();
    processor.decode_opcode(0x8937);
    assert_eq!(processor.register[0x0f], 0);
    assert_eq!(processor.register[9], 253);
    assert_eq!(processor.pc, 0x202);

    // don't set VF
    let mut processor = new_processor();
    processor.decode_opcode(0x8397);
    assert_eq!(processor.register[0x0f], 1);
    assert_eq!(processor.register[3], 3);
    assert_eq!(processor.pc, 0x202);
}

#[test]
fn test_code_8xye() {
    // set VF
    let mut processor = new_processor();
    processor.register[0] = 0b10000000;
    processor.decode_opcode(0x801e);
    assert_eq!(processor.register[0x0f], 1);
    assert_eq!(processor.register[0], 0);
    assert_eq!(processor.pc, 0x202);

    // don't set VF
    let mut processor = new_processor();
    processor.decode_opcode(0x801e);
    assert_eq!(processor.register[0x0f], 0);
    assert_eq!(processor.register[0], 2);
    assert_eq!(processor.pc, 0x202);
}

#[test]
fn test_code_9xy0() {
    // not equal, so skip
    let mut processor = new_processor();
    processor.decode_opcode(0x9020);
    assert_eq!(processor.pc, 0x204);

    // equal, so go next
    let mut processor = new_processor();
    processor.decode_opcode(0x9010);
    assert_eq!(processor.pc, 0x202);
}

#[test]
fn test_code_annn() {
    let mut processor = new_processor();
    processor.decode_opcode(0xa420);
    assert_eq!(processor.index, 0x420);
}

#[test]
fn test_code_bnnn() {
    let mut processor = new_processor();
    processor.register[0] = 1;
    processor.decode_opcode(0xb111);
    assert_eq!(processor.pc, 0x112);
}

#[test]
fn test_code_cxkk() {
    let mut processor = new_processor();
    // AND with 0 is zero
    processor.decode_opcode(0xc000);
    assert_eq!(processor.register[0], 0);
    // AND with 0 in register[0] is still 0
    processor.decode_opcode(0xc00f);
    assert_eq!(processor.register[0] & 0xf0, 0)
}

#[test]
fn test_code_dxyn() {
    let mut processor = new_processor();
    processor.index = 0;
    processor.memory[0] = 0b11111111;
    processor.memory[1] = 0b00000000;
    processor.screen[0][0] = 1;
    processor.screen[0][1] = 0;
    processor.screen[1][0] = 1;
    processor.screen[1][1] = 0;
    processor.register[0] = 0;
    processor.decode_opcode(0xd002);

    // flip on/ off
    assert_eq!(processor.screen[0][0], 0);
    assert_eq!(processor.screen[0][1], 1);
    assert_eq!(processor.screen[1][0], 1);
    assert_eq!(processor.screen[1][1], 0);
    // update happened
    assert_eq!(processor.register[0x0f], 1);
    // capture screen update
    assert_eq!(processor.draw_flag, true);
    assert_eq!(processor.pc, 0x202);
}

#[test]
fn test_code_ex9e() {
    // skip if equal
    let mut processor = new_processor();
    processor.key[9] = true;
    processor.memory[3] = 9;
    processor.register[3] = 9;
    processor.decode_opcode(0xe39e);
    assert_eq!(processor.pc, 0x204);

    // dont skip
    let mut processor = new_processor();
    processor.memory[3] = 9;
    processor.register[3] = 9;
    processor.decode_opcode(0xe39e);
    assert_eq!(processor.pc, 0x202);
}

#[test]
fn test_code_exa1() {
    // skip if equal
    let mut processor = new_processor();
    processor.key[9] = true;
    processor.memory[3] = 9;
    processor.register[3] = 9;
    processor.decode_opcode(0xe3a1);
    assert_eq!(processor.pc, 0x202);

    // dont skip
    let mut processor = new_processor();
    processor.memory[3] = 9;
    processor.register[3] = 9;
    processor.decode_opcode(0xe3a1);
    assert_eq!(processor.pc, 0x204);
}

#[test]
fn test_code_fx07() {
    let mut processor = new_processor();
    processor.delay_timer = 42;
    processor.decode_opcode(0xf207);
    assert_eq!(processor.register[2], 42);
    assert_eq!(processor.pc, 0x202);
}

#[test]
fn test_code_fx0a() {
    let mut processor = new_processor();
    processor.decode_opcode(0xf20a);
    assert_eq!(processor.waiting_for_key, true);
    assert_eq!(processor.pc, 0x202);
}

#[test]
fn test_code_fx15() {
    let mut processor = new_processor();
    processor.register[2] = 42;
    processor.decode_opcode(0xf215);
    assert_eq!(processor.delay_timer, 42);
    assert_eq!(processor.pc, 0x202);
}

#[test]
fn test_code_fx18() {
    let mut processor = new_processor();
    processor.register[2] = 42;
    processor.decode_opcode(0xf218);
    assert_eq!(processor.sound_timer, 42);
    assert_eq!(processor.pc, 0x202);
}

#[test]
fn test_code_fx1e() {
    let mut processor = new_processor();
    processor.index = 2;
    processor.register[4] = 42;
    processor.decode_opcode(0xf41e);
    assert_eq!(processor.index, 44);
    assert_eq!(processor.pc, 0x202);
}

#[test]
fn test_code_fx29() {
    let mut processor = new_processor();
    processor.register[5] = 9;
    processor.decode_opcode(0xf529);
    assert_eq!(processor.index, 45);
    assert_eq!(processor.pc, 0x202);
}

#[test]
fn test_code_fx33() {
    let mut processor = new_processor();
    processor.register[2] = 123;
    processor.index = 420;
    processor.decode_opcode(0xf233);
    assert_eq!(processor.memory[420], 1);
    assert_eq!(processor.memory[420 + 1], 2);
    assert_eq!(processor.memory[420 + 2], 3);
    assert_eq!(processor.pc, 0x202);
}

#[test]
fn test_code_fx55() {
    let mut processor = new_processor();
    processor.index = 100;
    processor.decode_opcode(0xff55);
    // 0 to f
    for mem in 0..16 {
        assert_eq!(processor.memory[100 + mem], processor.register[mem]);
    }
    assert_eq!(processor.pc, 0x202);
}

#[test]
fn test_code_fx65() {
    let mut processor = new_processor();
    processor.index = 100;
    // 0 to f
    for location in 0..16 {
        processor.memory[100 + location] = location as u8;
    }
    processor.decode_opcode(0xff65);
    for mem in 0..16 {
        assert_eq!(processor.register[mem], processor.memory[100 + mem]);
    }
    assert_eq!(processor.pc, 0x202);
}
