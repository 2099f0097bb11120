use chip8::chip8::error::Chip8Error;
use chip8::chip8::opcodes::{
    get_addr_from_opcode, get_reg_and_reg_and_value_from_opcode, get_reg_and_reg_from_opcode,
    get_reg_and_value_from_opcode, get_reg_from_opcode,
};
use chip8::chip8::{Chip8, KeyInput};
use chip8::display_input::Screen;

struct Keys {
    down: [bool; 16],
    next: u8,
}

impl KeyInput for Keys {
    fn is_key_pressed(&self, key: u8) -> bool {
        assert!(key < 16);
        self.down[key as usize]
    }

    fn get_key(&mut self) -> u8 {
        self.next
    }
}

fn machine() -> Chip8<Screen, Keys> {
    Chip8::new(Screen::new(), Keys { down: [false; 16], next: 0 })
}

fn run(chip8: &mut Chip8<Screen, Keys>, opcode: u16) {
    assert!(chip8.program_counter() < 4095);
    assert_eq!(chip8.execute_opcode(opcode, 0), Ok(()));
}

fn set(chip8: &mut Chip8<Screen, Keys>, register: u16, value: u8) {
    run(chip8, 0x6000 | (register << 8) | value as u16);
}

fn home(chip8: &mut Chip8<Screen, Keys>) {
    run(chip8, 0x1000);
}

#[test]
fn operand_fields_are_cut_out_of_the_word() {
    assert_eq!(get_addr_from_opcode(0xABCD), 0xBCD);
    assert_eq!(get_reg_from_opcode(0xABCD), 0xB);
    assert_eq!(get_reg_and_value_from_opcode(0xABCD), (0xB, 0xCD));
    assert_eq!(get_reg_and_reg_from_opcode(0xABCD), (0xB, 0xC));
    assert_eq!(get_reg_and_reg_and_value_from_opcode(0xABCD), (0xB, 0xC, 0xD));
    assert_eq!(get_addr_from_opcode(0xFFFF), 0xFFF);
    assert_eq!(get_reg_and_reg_and_value_from_opcode(0x0000), (0, 0, 0));
}

#[test]
fn add_sets_carry_exactly_on_overflow() {
    let mut chip8 = machine();
    for vx in 0..=255u16 {
        for vy in 0..=255u16 {
            home(&mut chip8);
            set(&mut chip8, 0, vx as u8);
            set(&mut chip8, 1, vy as u8);
            run(&mut chip8, 0x8014);
            let registers = chip8.registers();
            assert_eq!(registers[0], ((vx + vy) % 256) as u8);
            assert_eq!(registers[0xF], if vx + vy > 255 { 1 } else { 0 });
            assert_eq!(registers[1], vy as u8);
        }
    }
}

#[test]
fn add_examples() {
    let mut chip8 = machine();
    set(&mut chip8, 3, 200);
    set(&mut chip8, 4, 100);
    run(&mut chip8, 0x8344);
    assert_eq!(chip8.registers()[3], 44);
    assert_eq!(chip8.registers()[0xF], 1);
    assert_eq!(chip8.program_counter(), 6);
    set(&mut chip8, 3, 255);
    set(&mut chip8, 4, 0);
    run(&mut chip8, 0x8344);
    assert_eq!(chip8.registers()[3], 255);
    assert_eq!(chip8.registers()[0xF], 0);
}

#[test]
fn add_into_vf_keeps_the_flag() {
    let mut chip8 = machine();
    set(&mut chip8, 0xF, 200);
    set(&mut chip8, 1, 100);
    run(&mut chip8, 0x8F14);
    assert_eq!(chip8.registers()[0xF], 1);
    home(&mut chip8);
    set(&mut chip8, 0xF, 20);
    set(&mut chip8, 1, 10);
    run(&mut chip8, 0x8F14);
    assert_eq!(chip8.registers()[0xF], 0);
}

#[test]
fn sub_sets_flag_exactly_without_borrow() {
    let mut chip8 = machine();
    for vx in 0..=255i32 {
        for vy in 0..=255i32 {
            home(&mut chip8);
            set(&mut chip8, 0, vx as u8);
            set(&mut chip8, 1, vy as u8);
            run(&mut chip8, 0x8015);
            let registers = chip8.registers();
            assert_eq!(registers[0], (vx - vy).rem_euclid(256) as u8);
            assert_eq!(registers[0xF], if vx >= vy { 1 } else { 0 });
        }
    }
}

#[test]
fn sub_examples() {
    let mut chip8 = machine();
    set(&mut chip8, 0, 5);
    set(&mut chip8, 1, 7);
    run(&mut chip8, 0x8015);
    assert_eq!(chip8.registers()[0], 254);
    assert_eq!(chip8.registers()[0xF], 0);
    set(&mut chip8, 0, 7);
    run(&mut chip8, 0x8015);
    assert_eq!(chip8.registers()[0], 0);
    assert_eq!(chip8.registers()[0xF], 1);
}

#[test]
fn reverse_sub_sets_flag_exactly_without_borrow() {
    let mut chip8 = machine();
    for vx in 0..=255i32 {
        for vy in 0..=255i32 {
            home(&mut chip8);
            set(&mut chip8, 0, vx as u8);
            set(&mut chip8, 1, vy as u8);
            run(&mut chip8, 0x8017);
            let registers = chip8.registers();
            assert_eq!(registers[0], (vy - vx).rem_euclid(256) as u8);
            assert_eq!(registers[0xF], if vy >= vx { 1 } else { 0 });
        }
    }
}

#[test]
fn shifts_leave_vf_at_zero_or_one() {
    let mut chip8 = machine();
    for value in 0..=255u16 {
        home(&mut chip8);
        set(&mut chip8, 2, value as u8);
        run(&mut chip8, 0x8206);
        assert_eq!(chip8.registers()[2], (value >> 1) as u8);
        assert_eq!(chip8.registers()[0xF], (value & 1) as u8);
        set(&mut chip8, 2, value as u8);
        run(&mut chip8, 0x820E);
        assert_eq!(chip8.registers()[2], ((value << 1) & 0xFF) as u8);
        assert_eq!(chip8.registers()[0xF], (value >> 7) as u8);
        assert!(chip8.registers()[0xF] <= 1);
    }
}

#[test]
fn shift_left_of_top_bit_gives_flag_one_not_128() {
    let mut chip8 = machine();
    set(&mut chip8, 5, 0x80);
    run(&mut chip8, 0x850E);
    assert_eq!(chip8.registers()[5], 0);
    assert_eq!(chip8.registers()[0xF], 1);
}

#[test]
fn shift_ignores_vy() {
    let mut chip8 = machine();
    set(&mut chip8, 1, 0x0F);
    set(&mut chip8, 2, 0xF0);
    run(&mut chip8, 0x8126);
    assert_eq!(chip8.registers()[1], 0x07);
    assert_eq!(chip8.registers()[2], 0xF0);
    assert_eq!(chip8.registers()[0xF], 1);
}

#[test]
fn set_and_add_constant() {
    let mut chip8 = machine();
    run(&mut chip8, 0x6A42);
    assert_eq!(chip8.registers()[0xA], 0x42);
    assert_eq!(chip8.program_counter(), 2);
    run(&mut chip8, 0x7AFF);
    assert_eq!(chip8.registers()[0xA], 0x41);
    assert_eq!(chip8.registers()[0xF], 0);
    assert_eq!(chip8.program_counter(), 4);
}

#[test]
fn copy_or_and_xor() {
    let mut chip8 = machine();
    set(&mut chip8, 1, 0b1100);
    set(&mut chip8, 2, 0b1010);
    run(&mut chip8, 0x8320);
    assert_eq!(chip8.registers()[3], 0b1010);
    run(&mut chip8, 0x8311);
    assert_eq!(chip8.registers()[3], 0b1110);
    run(&mut chip8, 0x8312);
    assert_eq!(chip8.registers()[3], 0b1100);
    run(&mut chip8, 0x8323);
    assert_eq!(chip8.registers()[3], 0b0110);
    assert_eq!(chip8.registers()[0xF], 0);
    assert_eq!(chip8.program_counter(), 12);
}

#[test]
fn skips_on_constants() {
    let mut chip8 = machine();
    set(&mut chip8, 1, 0x33);
    run(&mut chip8, 0x3133);
    assert_eq!(chip8.program_counter(), 6);
    run(&mut chip8, 0x3134);
    assert_eq!(chip8.program_counter(), 8);
    run(&mut chip8, 0x4133);
    assert_eq!(chip8.program_counter(), 10);
    run(&mut chip8, 0x4134);
    assert_eq!(chip8.program_counter(), 14);
}

#[test]
fn skips_on_registers() {
    let mut chip8 = machine();
    set(&mut chip8, 1, 7);
    set(&mut chip8, 2, 7);
    set(&mut chip8, 3, 8);
    run(&mut chip8, 0x5120);
    assert_eq!(chip8.program_counter(), 10);
    run(&mut chip8, 0x5130);
    assert_eq!(chip8.program_counter(), 12);
    run(&mut chip8, 0x9120);
    assert_eq!(chip8.program_counter(), 14);
    run(&mut chip8, 0x9130);
    assert_eq!(chip8.program_counter(), 18);
}

#[test]
fn skip_on_registers_compares_registers_not_the_index() {
    let mut chip8 = machine();
    set(&mut chip8, 1, 2);
    set(&mut chip8, 2, 9);
    run(&mut chip8, 0x5120);
    assert_eq!(chip8.program_counter(), 6);
}

#[test]
fn jump_sets_the_program_counter() {
    let mut chip8 = machine();
    run(&mut chip8, 0x1ABC);
    assert_eq!(chip8.program_counter(), 0xABC);
}

#[test]
fn jump_with_offset_does_not_move_on() {
    let mut chip8 = machine();
    set(&mut chip8, 0, 0x10);
    run(&mut chip8, 0xB300);
    assert_eq!(chip8.program_counter(), 0x310);
}

#[test]
fn index_register_set_and_add() {
    let mut chip8 = machine();
    run(&mut chip8, 0xA123);
    assert_eq!(chip8.addr_register(), 0x123);
    set(&mut chip8, 4, 0x10);
    run(&mut chip8, 0xF41E);
    assert_eq!(chip8.addr_register(), 0x133);
    assert_eq!(chip8.registers()[0xF], 0);
}

#[test]
fn index_register_add_wraps_with_carry() {
    let mut chip8 = machine();
    run(&mut chip8, 0xAFFF);
    set(&mut chip8, 1, 0xFF);
    let mut expected: u32 = 0xFFF;
    for _ in 0..300 {
        home(&mut chip8);
        run(&mut chip8, 0xF11E);
        let sum = expected + 0xFF;
        assert_eq!(chip8.addr_register() as u32, sum % 0x10000);
        assert_eq!(chip8.registers()[0xF], if sum > 0xFFFF { 1 } else { 0 });
        expected = sum % 0x10000;
    }
}

#[test]
fn glyph_address_uses_the_low_nibble() {
    let mut chip8 = machine();
    set(&mut chip8, 1, 0x0A);
    run(&mut chip8, 0xF129);
    assert_eq!(chip8.addr_register(), 0x050 + 5 * 0xA);
    set(&mut chip8, 1, 0x3F);
    run(&mut chip8, 0xF129);
    assert_eq!(chip8.addr_register(), 0x050 + 5 * 0xF);
    set(&mut chip8, 1, 0);
    run(&mut chip8, 0xF129);
    assert_eq!(chip8.addr_register(), 0x050);
}

#[test]
fn bcd_of_157() {
    let mut chip8 = machine();
    run(&mut chip8, 0xA300);
    set(&mut chip8, 7, 157);
    run(&mut chip8, 0xF733);
    let memory = chip8.memory();
    assert_eq!(&memory[0x300..0x303], &[1, 5, 7]);
    assert_eq!(memory[0x2FF], 0);
    assert_eq!(memory[0x303], 0);
}

#[test]
fn bcd_of_every_value() {
    let mut chip8 = machine();
    run(&mut chip8, 0xA400);
    for value in 0..=255u16 {
        home(&mut chip8);
        set(&mut chip8, 0, value as u8);
        run(&mut chip8, 0xF033);
        let memory = chip8.memory();
        assert_eq!(memory[0x400] as u16, value / 100);
        assert_eq!(memory[0x401] as u16, value / 10 % 10);
        assert_eq!(memory[0x402] as u16, value % 10);
    }
}

#[test]
fn bcd_outside_memory_fails() {
    let mut chip8 = machine();
    run(&mut chip8, 0xAFFE);
    set(&mut chip8, 0, 123);
    let before = chip8.memory();
    assert_eq!(chip8.execute_opcode(0xF033, 0), Err(Chip8Error::AddressOutOfBounds));
    assert_eq!(chip8.memory(), before);
    assert_eq!(chip8.program_counter(), 4);
    run(&mut chip8, 0xAFFD);
    run(&mut chip8, 0xF033);
    assert_eq!(&chip8.memory()[0xFFD..], &[1, 2, 3]);
}

#[test]
fn dump_and_load_round_trip_for_every_x() {
    for x in 0..16u16 {
        let mut chip8 = machine();
        for register in 0..16u16 {
            set(&mut chip8, register, (register * 3 + 1) as u8);
        }
        run(&mut chip8, 0xA500);
        run(&mut chip8, 0xF055 | (x << 8));
        assert_eq!(chip8.addr_register(), 0x500);
        let memory = chip8.memory();
        for register in 0..16usize {
            let expected = if register <= x as usize { (register * 3 + 1) as u8 } else { 0 };
            assert_eq!(memory[0x500 + register], expected);
        }
        for register in 0..16u16 {
            set(&mut chip8, register, 0);
        }
        run(&mut chip8, 0xF065 | (x << 8));
        let registers = chip8.registers();
        for register in 0..16usize {
            let expected = if register <= x as usize { (register * 3 + 1) as u8 } else { 0 };
            assert_eq!(registers[register], expected);
        }
    }
}

#[test]
fn dump_and_load_outside_memory_fail() {
    let mut chip8 = machine();
    run(&mut chip8, 0xAFFA);
    let before = chip8.memory();
    assert_eq!(chip8.execute_opcode(0xF655, 0), Err(Chip8Error::AddressOutOfBounds));
    assert_eq!(chip8.execute_opcode(0xF665, 0), Err(Chip8Error::AddressOutOfBounds));
    assert_eq!(chip8.memory(), before);
    assert_eq!(chip8.program_counter(), 2);
    run(&mut chip8, 0xF555);
    run(&mut chip8, 0xF565);
    assert_eq!(chip8.program_counter(), 6);
}

#[test]
fn call_and_return_for_every_depth() {
    let mut chip8 = machine();
    run(&mut chip8, 0x1200);
    for depth in 1..=16u16 {
        assert_eq!(chip8.program_counter(), 0x200 + 0x10 * (depth - 1));
        run(&mut chip8, 0x2200 + 0x10 * depth);
        assert_eq!(chip8.stack_depth(), depth as usize);
        assert_eq!(chip8.program_counter(), 0x200 + 0x10 * depth);
    }
    let at = chip8.program_counter();
    assert_eq!(chip8.execute_opcode(0x2ABC, 0), Err(Chip8Error::StackOverflow));
    assert_eq!(chip8.program_counter(), at);
    assert_eq!(chip8.stack_depth(), 16);
    for depth in (1..=16u16).rev() {
        run(&mut chip8, 0x00EE);
        assert_eq!(chip8.program_counter(), 0x200 + 0x10 * (depth - 1) + 2);
        assert_eq!(chip8.stack_depth(), depth as usize - 1);
        run(&mut chip8, 0x1200 + 0x10 * (depth - 1));
    }
    assert_eq!(chip8.execute_opcode(0x00EE, 0), Err(Chip8Error::StackUnderflow));
    assert_eq!(chip8.stack_depth(), 0);
}

#[test]
fn return_on_a_new_machine_underflows() {
    let mut chip8 = machine();
    assert_eq!(chip8.execute_opcode(0x00EE, 0), Err(Chip8Error::StackUnderflow));
    assert_eq!(chip8.program_counter(), 0);
}

#[test]
fn unknown_words_are_refused() {
    for opcode in [0x0000u16, 0x0123, 0x00E1, 0x8008, 0x800F, 0xE000, 0xE19F, 0xF000, 0xF1FF, 0xF166] {
        let mut chip8 = machine();
        assert_eq!(chip8.execute_opcode(opcode, 0), Err(Chip8Error::UnknownOpcode(opcode)));
        assert_eq!(chip8.program_counter(), 0);
        assert_eq!(chip8.registers(), [0; 16]);
    }
}

#[test]
fn families_5_and_9_go_by_the_first_nibble() {
    let mut chip8 = machine();
    run(&mut chip8, 0x5125);
    assert_eq!(chip8.program_counter(), 4);
    run(&mut chip8, 0x9125);
    assert_eq!(chip8.program_counter(), 6);
}

#[test]
fn random_source_is_a_xorshift() {
    let mut chip8 = machine();
    run(&mut chip8, 0xC0FF);
    assert_eq!(chip8.registers()[0], 0x0F);
    run(&mut chip8, 0xC1FF);
    assert_eq!(chip8.registers()[1], 0xA5);
    run(&mut chip8, 0xC20F);
    assert_eq!(chip8.registers()[2], 0x04);
    run(&mut chip8, 0xC300);
    assert_eq!(chip8.registers()[3], 0);
    assert_eq!(chip8.program_counter(), 8);
}

#[test]
fn random_source_takes_a_seed() {
    let mut chip8 = machine();
    chip8.seed_random(1);
    run(&mut chip8, 0xC0FF);
    assert_eq!(chip8.registers()[0], 0x81);
    chip8.seed_random(0);
    run(&mut chip8, 0xC0FF);
    assert_eq!(chip8.registers()[0], 0x0F);
}

#[test]
fn key_skips_ask_the_keypad() {
    let mut down = [false; 16];
    down[0xB] = true;
    let mut chip8 = Chip8::new(Screen::new(), Keys { down, next: 0 });
    set(&mut chip8, 1, 0xB);
    set(&mut chip8, 2, 0x3);
    run(&mut chip8, 0xE19E);
    assert_eq!(chip8.program_counter(), 8);
    run(&mut chip8, 0xE29E);
    assert_eq!(chip8.program_counter(), 10);
    run(&mut chip8, 0xE1A1);
    assert_eq!(chip8.program_counter(), 12);
    run(&mut chip8, 0xE2A1);
    assert_eq!(chip8.program_counter(), 16);
}

#[test]
fn a_value_over_15_names_no_key() {
    let mut chip8 = Chip8::new(Screen::new(), Keys { down: [true; 16], next: 0 });
    set(&mut chip8, 1, 0x10);
    run(&mut chip8, 0xE19E);
    assert_eq!(chip8.program_counter(), 4);
    run(&mut chip8, 0xE1A1);
    assert_eq!(chip8.program_counter(), 8);
    set(&mut chip8, 1, 0xFF);
    run(&mut chip8, 0xE19E);
    assert_eq!(chip8.program_counter(), 12);
}

#[test]
fn wait_for_key_stores_the_key() {
    let mut chip8 = Chip8::new(Screen::new(), Keys { down: [false; 16], next: 0xC });
    run(&mut chip8, 0xF90A);
    assert_eq!(chip8.registers()[9], 0xC);
    assert_eq!(chip8.program_counter(), 2);
}

#[test]
fn timers_are_set_and_read() {
    let mut chip8 = machine();
    set(&mut chip8, 1, 30);
    assert_eq!(chip8.execute_opcode(0xF115, 1_000), Ok(()));
    assert_eq!(chip8.delay_timer(), 30);
    assert_eq!(chip8.sound_timer(), 0);
    set(&mut chip8, 2, 9);
    assert_eq!(chip8.execute_opcode(0xF218, 1_000), Ok(()));
    assert_eq!(chip8.sound_timer(), 9);
    run(&mut chip8, 0xF307);
    assert_eq!(chip8.registers()[3], 30);
    assert_eq!(chip8.program_counter(), 10);
}
