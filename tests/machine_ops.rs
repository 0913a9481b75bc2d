use chip8::{Chip8Error, Machine, Opcode, PC_BEGIN, PIXEL_COLS};

/// A program of `len` bytes that starts with `first`.
fn program(len: usize, first: u8) -> Vec<u8> {
    let mut rom = vec![0u8; len];
    rom[0] = first;
    rom
}

#[test]
fn test_test_load_fonts() {
    let machine = Machine::new();
    // The constructor should properly load the full fontset and nothing else.
    assert_eq!(machine.memory_get(0), 0xF0);
    assert_eq!(machine.memory_get(79), 0x80);
    assert_eq!(machine.memory_get(80), 0);
}

#[test]
fn machine_test_load_fonts() {
    let machine = Machine::new();
    assert_eq!(machine.memory_get(0), 0xF0);
    assert_eq!(machine.memory_get(79), 0x80);
    assert_eq!(machine.memory[0], 0xF0);
    assert_eq!(machine.memory[79], 0x80);
}

#[test]
fn test_test_load_game() {
    let mut machine = Machine::new();
    let pong = program(246, 0x6A);
    let bytes = machine.load_game("pong", Some(&pong)).unwrap();
    assert_eq!(bytes, 246);
    assert_eq!(machine.current_byte(), 0x6A)
}

#[test]
fn machine_test_load_game() {
    let mut machine = Machine::new();
    let pong = program(246, 0x6A);
    let bytes = machine.load_game("pong", Some(&pong)).unwrap();
    assert_eq!(bytes, 246);
    assert_eq!(machine.current_byte(), 0x6A);
    assert_eq!(machine.current_game, Some("pong".to_string()));
}

#[test]
fn test_test_load_second_game() {
    // Should clear memory and load the new game
    let mut machine = Machine::new();
    let pong = program(246, 0x6A);
    let tank = program(560, 0x12);
    let _: usize = machine.load_game("pong", Some(&pong)).unwrap();
    let bytes = machine.load_game("tank", Some(&tank)).unwrap();
    assert_eq!(bytes, 560);
    assert_eq!(machine.current_byte(), 0x12)
}

#[test]
fn machine_test_load_second_game() {
    let mut machine = Machine::new();
    let pong = vec![0xAAu8; 600];
    let tank = program(560, 0x12);
    let _: usize = machine.load_game("pong", Some(&pong)).unwrap();
    let bytes = machine.load_game("tank", Some(&tank)).unwrap();
    assert_eq!(bytes, 560);
    assert_eq!(machine.current_byte(), 0x12);
    // Nothing of the longer first program is left past the second one.
    assert_eq!(machine.memory_get(PC_BEGIN + 560), 0);
    assert_eq!(machine.memory_get(PC_BEGIN + 599), 0);
}

#[test]
fn test_test_game_not_found() {
    let mut machine = Machine::new();
    assert_eq!(
        machine.load_game("ping", None),
        Err(Chip8Error::RomNotFound("ping".to_string()))
    );
}

#[test]
fn machine_test_game_not_found() {
    let mut machine = Machine::new();
    let err = machine.load_game("ping", None).err().unwrap();
    assert_eq!(err, Chip8Error::RomNotFound("ping".to_string()));
    assert_eq!(machine.current_game, None);
}

#[test]
fn machine_test_opcode_2nnn_call() {
    let mut machine = Machine::new();
    Opcode::from(0x2BCD).execute(&mut machine, 0).unwrap();
    // Should store the current location in the stack to jump back later
    assert_eq!(machine.stack[0], PC_BEGIN);
    // Should increment stack pointer
    assert_eq!(machine.sp, 1);
    // Should set program counter to new location
    assert_eq!(machine.pc, 0xBCD);
}

#[test]
fn machine_test_opcode_annn_set_idx() {
    let mut machine = Machine::new();
    Opcode::from(0xABCD).execute(&mut machine, 0).unwrap();
    // Should store index given
    assert_eq!(machine.idx, 0xBCD);
    // Should increment program counter by two
    assert_eq!(machine.pc, PC_BEGIN + 2);
}

#[test]
fn test_opcode_8xy4_add_assign() {
    let mut machine = Machine::new();
    machine.register_set(0xB, 3);
    machine.register_set(0xC, 15);
    Opcode::from(0x8BC4).execute(&mut machine, 0).unwrap();
    assert_eq!(machine.register_get(0xB), 18);
    assert_eq!(machine.register_get(0xC), 15);
    assert!(!machine.carry_flag_set());
    assert_eq!(machine.pc, PC_BEGIN + 2);
}

#[test]
fn test_opcode_8xy4_add_assign_with_carry() {
    let mut machine = Machine::new();
    machine.register_set(0xB, 250);
    machine.register_set(0xC, 15);
    Opcode::from(0x8BC4).execute(&mut machine, 0).unwrap();
    // 250 + 15 wraps to 9.
    assert_eq!(machine.register_get(0xB), 9);
    assert_eq!(machine.register_get(0xC), 15);
    assert!(machine.carry_flag_set());
    assert_eq!(machine.pc, PC_BEGIN + 2);
}

#[test]
fn test_opcode_fx33_bcd() {
    let mut machine = Machine::new();
    machine.register_set(0xB, 195);
    machine.idx = 0xAB;
    Opcode::from(0xFB33).execute(&mut machine, 0).unwrap();
    assert_eq!(machine.memory[0xAB], 1);
    assert_eq!(machine.memory[0xAB + 1], 9);
    assert_eq!(machine.memory[0xAB + 2], 5);
}

#[test]
fn test_test_1nnn_jump() {
    let mut machine = Machine::new();
    machine.test_opcode(0x1CDE).unwrap();
    // Should advance to NNN
    assert_eq!(machine.pc, 0xCDE);
}

#[test]
fn test_test_2nnn_call() {
    let mut machine = Machine::new();
    machine.test_opcode(0x2BCD).unwrap();
    assert_eq!(machine.stack[0], PC_BEGIN);
    assert_eq!(machine.sp, 1);
    assert_eq!(machine.pc, 0xBCD);
}

#[test]
fn test_00ee_return() {
    let mut machine = Machine::new();
    machine.test_opcode(0x2BCD).unwrap(); // Call at 0xBCD
    machine.test_opcode(0x00EE).unwrap(); // Return to start
    // Should clear the call stack
    assert_eq!(machine.stack[0], 0);
    // Should decrement stack pointer
    assert_eq!(machine.sp, 0);
    // Should set program counter back to original location
    assert_eq!(machine.pc, PC_BEGIN + 2);
}

#[test]
fn test_test_3xnn_skip_if_eq_val() {
    let mut machine = Machine::new();
    machine.register_set(0xB, 0xCD);
    machine.test_opcode(0x3BCD).unwrap();
    assert_eq!(machine.pc, PC_BEGIN + 4);

    machine.reset();
    machine.register_set(0xB, 2);
    machine.test_opcode(0x3BCD).unwrap();
    assert_eq!(machine.pc, PC_BEGIN + 2);
}

#[test]
fn test_test_4xnn_skip_if_not_eq_val() {
    let mut machine = Machine::new();
    machine.register_set(0xB, 2);
    machine.test_opcode(0x4BCD).unwrap();
    assert_eq!(machine.pc, PC_BEGIN + 4);

    machine.reset();
    machine.register_set(0xB, 0xCD);
    machine.test_opcode(0x4BCD).unwrap();
    assert_eq!(machine.pc, PC_BEGIN + 2);
}

#[test]
fn test_test_5xy0_skip_if_match_reg() {
    let mut machine = Machine::new();
    machine.register_set(0xB, 0xCD);
    machine.register_set(0xC, 0xCD);
    machine.test_opcode(0x5BC0).unwrap();
    assert_eq!(machine.pc, PC_BEGIN + 4);

    machine.reset();
    machine.register_set(0xB, 0xCD);
    machine.register_set(0xC, 3);
    machine.test_opcode(0x5BC0).unwrap();
    assert_eq!(machine.pc, PC_BEGIN + 2);
}

#[test]
fn test_test_6xnn_set_register() {
    let mut machine = Machine::new();
    machine.register_set(0xB, 3);
    machine.test_opcode(0x6BCD).unwrap();
    assert_eq!(machine.register_get(0xB), 0xCD);
    assert_eq!(machine.pc, PC_BEGIN + 2);
}

#[test]
fn test_test_7xnn_add() {
    let mut machine = Machine::new();
    machine.register_set(0xB, 3);
    machine.test_opcode(0x7BCD).unwrap();
    assert_eq!(machine.register_get(0xB), 3 + 0xCD);
    assert_eq!(machine.pc, PC_BEGIN + 2);
}

#[test]
fn test_test_8xy0_assign() {
    let mut machine = Machine::new();
    machine.register_set(0xB, 3);
    machine.register_set(0xC, 15);
    machine.test_opcode(0x8BC0).unwrap();
    assert_eq!(machine.register_get(0xB), 15);
    assert_eq!(machine.register_get(0xC), 15);
    assert_eq!(machine.pc, PC_BEGIN + 2);
}

#[test]
fn test_test_8xy1_assign_or() {
    let mut machine = Machine::new();
    machine.register_set(0xB, 0xA);
    machine.register_set(0xC, 4);
    machine.test_opcode(0x8BC1).unwrap();
    assert_eq!(machine.register_get(0xB), 14);
    assert_eq!(machine.register_get(0xC), 4);
    assert_eq!(machine.pc, PC_BEGIN + 2);
}

#[test]
fn test_test_8xy2_assign_and() {
    let mut machine = Machine::new();
    machine.register_set(0xB, 0xA);
    machine.register_set(0xC, 0xC);
    machine.test_opcode(0x8BC2).unwrap();
    assert_eq!(machine.register_get(0xB), 8);
    assert_eq!(machine.register_get(0xC), 0xC);
    assert_eq!(machine.pc, PC_BEGIN + 2);
}

#[test]
fn test_test_8xy3_assign_xor() {
    let mut machine = Machine::new();
    machine.register_set(0xB, 0xA);
    machine.register_set(0xC, 0xC);
    machine.test_opcode(0x8BC3).unwrap();
    assert_eq!(machine.register_get(0xB), 6);
    assert_eq!(machine.register_get(0xC), 0xC);
    assert_eq!(machine.pc, PC_BEGIN + 2);
}

#[test]
fn test_test_8xy4_add_assign() {
    let mut machine = Machine::new();
    machine.register_set(0xB, 3);
    machine.register_set(0xC, 15);
    machine.test_opcode(0x8BC4).unwrap();
    assert_eq!(machine.register_get(0xB), 18);
    assert_eq!(machine.register_get(0xC), 15);
    assert!(!machine.carry_flag_set());
    assert_eq!(machine.pc, PC_BEGIN + 2);
}

#[test]
fn test_test_8xy4_add_assign_with_carry() {
    let mut machine = Machine::new();
    machine.register_set(0xB, 250);
    machine.register_set(0xC, 15);
    machine.test_opcode(0x8BC4).unwrap();
    assert_eq!(machine.register_get(0xB), 250u8.wrapping_add(15));
    assert_eq!(machine.register_get(0xC), 15);
    assert!(machine.carry_flag_set());
    assert_eq!(machine.pc, PC_BEGIN + 2);
}

#[test]
fn test_test_8xy5_sub_assign() {
    let mut machine = Machine::new();
    machine.register_set(0xB, 0xD);
    machine.register_set(0xC, 0xA);
    machine.test_opcode(0x8BC5).unwrap();
    assert_eq!(machine.register_get(0xB), 3);
    assert_eq!(machine.register_get(0xC), 0xA);
    assert!(machine.carry_flag_set());
    assert_eq!(machine.pc, PC_BEGIN + 2);
}

#[test]
fn test_test_8xy5_sub_assign_with_borrow() {
    let mut machine = Machine::new();
    machine.register_set(0xB, 0xA);
    machine.register_set(0xC, 0xD);
    machine.test_opcode(0x8BC5).unwrap();
    assert_eq!(machine.register_get(0xB), 0xAu8.wrapping_sub(0xD));
    assert_eq!(machine.register_get(0xC), 0xD);
    assert!(!machine.carry_flag_set());
    assert_eq!(machine.pc, PC_BEGIN + 2);
}

#[test]
fn test_test_8xy6_shift_right() {
    let mut machine = Machine::new();
    machine.register_set(0xB, 0xA);
    machine.register_set(0xC, 0xD);
    machine.test_opcode(0x8BC6).unwrap();
    assert_eq!(machine.register_get(0xF), 0xA & 1);
    assert_eq!(machine.register_get(0xB), 0xA >> 1);
    assert_eq!(machine.register_get(0xC), 0xD);
    assert_eq!(machine.pc, PC_BEGIN + 2);
}

#[test]
fn test_test_8xy7_flipped_sub_assign() {
    let mut machine = Machine::new();
    machine.register_set(0xB, 0xA);
    machine.register_set(0xC, 0xD);
    machine.test_opcode(0x8BC7).unwrap();
    assert_eq!(machine.register_get(0xB), 3);
    assert_eq!(machine.register_get(0xC), 0xD);
    assert!(machine.carry_flag_set());
    assert_eq!(machine.pc, PC_BEGIN + 2);
}

#[test]
fn test_test_8xy7_flipped_sub_assign_with_borrow() {
    let mut machine = Machine::new();
    machine.register_set(0xB, 0xD);
    machine.register_set(0xC, 2);
    machine.test_opcode(0x8BC7).unwrap();
    assert_eq!(machine.register_get(0xB), 0xF5);
    assert_eq!(machine.register_get(0xC), 2);
    assert!(!machine.carry_flag_set());
    assert_eq!(machine.pc, PC_BEGIN + 2);
}

#[test]
fn test_test_8xye_shift_left() {
    let mut machine = Machine::new();
    machine.register_set(0xB, 0xA);
    machine.register_set(0xC, 0xD);
    machine.test_opcode(0x8BCE).unwrap();
    assert_eq!(machine.register_get(0xF), 0xA >> (8 - 1) & 1);
    assert_eq!(machine.register_get(0xB), 0xA << 1);
    assert_eq!(machine.register_get(0xC), 0xD);
    assert_eq!(machine.pc, PC_BEGIN + 2);
}

#[test]
fn test_test_annn_set_idx() {
    let mut machine = Machine::new();
    machine.test_opcode(0xABCD).unwrap();
    assert_eq!(machine.idx, 0xBCD);
    assert_eq!(machine.pc, PC_BEGIN + 2);
}

#[test]
fn test_test_bnnn_jump_to() {
    let mut machine = Machine::new();
    machine.register_set(0, 4);
    machine.test_opcode(0xBCDE).unwrap();
    assert_eq!(machine.pc, 0xCDE + 4);
}

#[test]
fn test_test_cxnn_rand() {
    let mut machine = Machine::new();
    machine.register_set(0xA, 4);
    machine.test_opcode(0xCABA).unwrap();
    assert!(machine.register_get(0xA) != 4);
    assert_eq!(machine.pc, PC_BEGIN + 2);
}

#[test]
fn test_test_fx07_store_delay() {
    let mut machine = Machine::new();
    machine.register_set(0xA, 4);
    machine.test_opcode(0xFA07).unwrap();
    assert_eq!(machine.register_get(0xA), 0xFF);
    assert_eq!(machine.pc, PC_BEGIN + 2);
}

#[test]
fn test_test_fx15_set_delay() {
    let mut machine = Machine::new();
    machine.register_set(0xA, 4);
    machine.test_opcode(0xFA15).unwrap();
    assert_eq!(machine.delay_timer, 4);
    assert_eq!(machine.pc, PC_BEGIN + 2);
}

#[test]
fn test_test_fx18_set_sound() {
    let mut machine = Machine::new();
    machine.register_set(0xA, 4);
    machine.test_opcode(0xFA18).unwrap();
    assert_eq!(machine.sound_timer, 4);
    assert_eq!(machine.pc, PC_BEGIN + 2);
}

#[test]
fn test_test_fx1e_increment_idx() {
    let mut machine = Machine::new();
    machine.idx = 0xBCD;
    machine.register_set(0xA, 4);
    machine.test_opcode(0xFA1E).unwrap();
    assert_eq!(machine.idx, 0xBCD + 4);
    assert_eq!(machine.register_get(0xA), 4);
    assert_eq!(machine.pc, PC_BEGIN + 2);
}

#[test]
fn test_test_fx33_bcd() {
    let mut machine = Machine::new();
    machine.register_set(0xB, 195);
    machine.idx = 0xAB;
    machine.test_opcode(0xFB33).unwrap();
    assert_eq!(machine.memory_get(0xAB), 1);
    assert_eq!(machine.memory_get(0xAB + 1), 9);
    assert_eq!(machine.memory_get(0xAB + 2), 5);
    assert_eq!(machine.pc, PC_BEGIN + 2);
}

#[test]
fn test_test_fx55_dump_registers() {
    let mut machine = Machine::new();
    machine.idx = 0xBCD;
    machine.register_set(0, 0xC);
    machine.register_set(1, 4);
    machine.register_set(2, 123);
    machine.register_set(3, 98);
    machine.register_set(4, 12);
    machine.test_opcode(0xF355).unwrap();
    let i = machine.idx;
    assert_eq!(machine.memory_get(i), 0xC);
    assert_eq!(machine.memory_get(i + 1), 4);
    assert_eq!(machine.memory_get(i + 2), 123);
    assert_eq!(machine.memory_get(i + 3), 98);
    assert_eq!(machine.memory_get(i + 4), 0);
    assert_eq!(machine.idx, 0xBCD);
    assert_eq!(machine.register_get(0), 0xC);
    assert_eq!(machine.register_get(1), 4);
    assert_eq!(machine.register_get(2), 123);
    assert_eq!(machine.register_get(3), 98);
    assert_eq!(machine.register_get(4), 12);
    assert_eq!(machine.pc, PC_BEGIN + 2);
}

#[test]
fn test_test_fx65_fill_registers() {
    let mut machine = Machine::new();
    machine.idx = 0xBCD;
    machine.memory_set(0xBCD, 0xC);
    machine.memory_set(0xBCD + 1, 4);
    machine.memory_set(0xBCD + 2, 123);
    machine.memory_set(0xBCD + 3, 98);
    machine.memory_set(0xBCD + 4, 12);
    machine.test_opcode(0xF365).unwrap();
    let i = machine.idx;
    assert_eq!(machine.memory_get(i), 0xC);
    assert_eq!(machine.memory_get(i + 1), 4);
    assert_eq!(machine.memory_get(i + 2), 123);
    assert_eq!(machine.memory_get(i + 3), 98);
    assert_eq!(machine.memory_get(i + 4), 12);
    assert_eq!(machine.memory_get(i + 5), 0);
    assert_eq!(machine.idx, 0xBCD);
    assert_eq!(machine.register_get(0), 0xC);
    assert_eq!(machine.register_get(1), 4);
    assert_eq!(machine.register_get(2), 123);
    assert_eq!(machine.register_get(3), 98);
    assert_eq!(machine.register_get(4), 0);
    assert_eq!(machine.pc, PC_BEGIN + 2);
}

#[test]
fn test_ex9e_skip_if_pressed() {
    let mut machine = Machine::new();
    machine.register_set(0xB, 0xC);
    machine.key_down(0xC);
    machine.test_opcode(0xEB9E).unwrap();
    assert_eq!(machine.pc, PC_BEGIN + 4);

    machine.reset();
    machine.register_set(0xB, 0xD);
    machine.key_down(0xC);
    machine.test_opcode(0xEB9E).unwrap();
    assert_eq!(machine.pc, PC_BEGIN + 2);
}

#[test]
fn test_exa1_skip_if_not_pressed() {
    let mut machine = Machine::new();
    machine.register_set(0xB, 0xD);
    machine.key_down(0xC);
    machine.test_opcode(0xEBA1).unwrap();
    assert_eq!(machine.pc, PC_BEGIN + 4);

    machine.reset();
    machine.register_set(0xB, 0xC);
    machine.key_down(0xC);
    machine.test_opcode(0xEBA1).unwrap();
    assert_eq!(machine.pc, PC_BEGIN + 2);
}

#[test]
fn test_9xy0_skip_if_mismatch_reg() {
    let mut machine = Machine::new();
    machine.register_set(0xB, 0xC);
    machine.register_set(0xC, 4);
    machine.test_opcode(0x9BC0).unwrap();
    assert_eq!(machine.pc, PC_BEGIN + 4);

    machine.reset();
    machine.register_set(0xB, 0xC);
    machine.register_set(0xC, 0xC);
    machine.test_opcode(0x9BC0).unwrap();
    assert_eq!(machine.pc, PC_BEGIN + 2);
}

#[test]
fn test_dxyn_draw() {
    let mut machine = Machine::new();
    machine.memory_set(machine.idx, 0x3C);
    machine.memory_set(machine.idx + 1, 0xC3);
    machine.memory_set(machine.idx + 2, 0xFF);
    machine.test_opcode(0xD003).unwrap();
    let expected_top = [0, 0, 1, 1, 1, 1, 0, 0];
    let expected_middle = [1, 1, 0, 0, 0, 0, 1, 1];
    let expected_bottom = [1, 1, 1, 1, 1, 1, 1, 1];
    let actual_top = &machine.screen[0..8];
    let actual_middle = &machine.screen[PIXEL_COLS as usize..(PIXEL_COLS + 8) as usize];
    let actual_bottom =
        &machine.screen[(PIXEL_COLS * 2) as usize..((2 * PIXEL_COLS) + 8) as usize];
    assert_eq!(&expected_top, actual_top);
    assert_eq!(&expected_middle, actual_middle);
    assert_eq!(&expected_bottom, actual_bottom);
    assert!(!machine.carry_flag_set());
}
