use marisa_rs::cpu::Cpu;
use marisa_rs::display::{Display, HEIGHT, WIDTH};
use marisa_rs::instruction::{decode, Instruction};
use marisa_rs::keypad::Keypad;
use marisa_rs::model::{HaltReason, Outcome};

fn machine_at(pc: u16) -> Cpu {
    let mut cpu = Cpu::new();
    cpu.reset();
    cpu.pc = pc;
    cpu
}

#[test]
fn load_immediate_reads_back() {
    for x in 0..16u16 {
        for kk in [0u16, 1, 0x7F, 0x80, 0xFF] {
            let mut cpu = machine_at(0x300);
            let r = cpu.apply_opcode(0x6000 | (x << 8) | kk, 0);
            assert_eq!(r, Ok(Outcome::Executed));
            assert_eq!(cpu.v[x as usize], kk as u8);
        }
    }
}

#[test]
fn add_sets_carry_only_on_overflow() {
    let mut cpu = machine_at(0x300);
    cpu.v[1] = 200;
    cpu.v[2] = 100;
    cpu.apply_opcode(0x8124, 0).unwrap();
    assert_eq!(cpu.v[1], 44);
    assert_eq!(cpu.v[0xF], 1);

    let mut cpu = machine_at(0x300);
    cpu.v[1] = 155;
    cpu.v[2] = 100;
    cpu.apply_opcode(0x8124, 0).unwrap();
    assert_eq!(cpu.v[1], 255);
    assert_eq!(cpu.v[0xF], 0);
}

#[test]
fn subtract_sets_no_borrow_flag() {
    let mut cpu = machine_at(0x300);
    cpu.v[3] = 10;
    cpu.v[4] = 20;
    cpu.apply_opcode(0x8345, 0).unwrap();
    assert_eq!(cpu.v[3], 246);
    assert_eq!(cpu.v[0xF], 0);

    let mut cpu = machine_at(0x300);
    cpu.v[3] = 20;
    cpu.v[4] = 10;
    cpu.apply_opcode(0x8345, 0).unwrap();
    assert_eq!(cpu.v[3], 10);
    assert_eq!(cpu.v[0xF], 1);

    let mut cpu = machine_at(0x300);
    cpu.v[3] = 7;
    cpu.v[4] = 7;
    cpu.apply_opcode(0x8345, 0).unwrap();
    assert_eq!(cpu.v[3], 0);
    assert_eq!(cpu.v[0xF], 0);
}

#[test]
fn reversed_subtract_uses_vy_minus_vx() {
    let mut cpu = machine_at(0x300);
    cpu.v[3] = 10;
    cpu.v[4] = 20;
    cpu.apply_opcode(0x8347, 0).unwrap();
    assert_eq!(cpu.v[3], 10);
    assert_eq!(cpu.v[0xF], 1);
}

#[test]
fn shifts_ignore_vy() {
    for vy in [0u8, 1, 0x80, 0xFF] {
        let mut cpu = machine_at(0x300);
        cpu.v[2] = 0b1000_0011;
        cpu.v[5] = vy;
        cpu.apply_opcode(0x8256, 0).unwrap();
        assert_eq!(cpu.v[2], 0b0100_0001);
        assert_eq!(cpu.v[0xF], 1);

        let mut cpu = machine_at(0x300);
        cpu.v[2] = 0b1000_0011;
        cpu.v[5] = vy;
        cpu.apply_opcode(0x825E, 0).unwrap();
        assert_eq!(cpu.v[2], 0b0000_0110);
        assert_eq!(cpu.v[0xF], 1);
    }
}

#[test]
fn add_immediate_wraps_without_flag() {
    let mut cpu = machine_at(0x300);
    cpu.v[4] = 0xF0;
    cpu.v[0xF] = 9;
    cpu.apply_opcode(0x7420, 0).unwrap();
    assert_eq!(cpu.v[4], 0x10);
    assert_eq!(cpu.v[0xF], 9);
}

#[test]
fn draw_twice_restores_screen() {
    let mut cpu = machine_at(0x300);
    cpu.display.set_pixel(62, 31, true);
    cpu.i = 0x400;
    cpu.memory[0x400] = 0b1100_0011;
    cpu.memory[0x401] = 0b1111_1111;
    cpu.v[1] = 62;
    cpu.v[2] = 31;
    let before = cpu.display.memory;
    cpu.apply_opcode(0xD122, 0).unwrap();
    assert_eq!(cpu.v[0xF], 1);
    assert_eq!(cpu.display.memory[31][62], 0);
    assert_eq!(cpu.display.memory[31][63], 1);
    assert_eq!(cpu.display.memory[31][0], 0);
    assert_eq!(cpu.display.memory[31][4], 1);
    assert_eq!(cpu.display.memory[31][5], 1);
    assert_eq!(cpu.display.memory[0][62], 1);
    assert_eq!(cpu.display.memory[0][5], 1);
    assert_eq!(cpu.display.memory[0][6], 0);
    cpu.apply_opcode(0xD122, 0).unwrap();
    assert_eq!(cpu.display.memory, before);
    assert_eq!(cpu.v[0xF], 1);
}

#[test]
fn draw_twice_on_blank_screen_collides_second_time() {
    let mut cpu = machine_at(0x300);
    cpu.i = 0;
    cpu.v[0] = 10;
    cpu.apply_opcode(0xD005, 0).unwrap();
    assert_eq!(cpu.v[0xF], 0);
    cpu.apply_opcode(0xD005, 0).unwrap();
    assert_eq!(cpu.v[0xF], 1);
    for y in 0..HEIGHT {
        for x in 0..WIDTH {
            assert_eq!(cpu.display.memory[y][x], 0);
        }
    }
}

#[test]
fn bcd_of_157() {
    let mut cpu = machine_at(0x300);
    cpu.v[6] = 157;
    cpu.i = 0x500;
    cpu.apply_opcode(0xF633, 0).unwrap();
    assert_eq!(cpu.memory[0x500..0x503], [1, 5, 7]);
}

#[test]
fn store_then_load_round_trips_registers() {
    let mut cpu = machine_at(0x300);
    cpu.i = 0x600;
    cpu.v = [9, 8, 7, 6, 5, 4, 3, 2, 1, 0, 11, 12, 13, 14, 15, 16];
    let saved = cpu.v;
    cpu.apply_opcode(0xFF55, 0).unwrap();
    assert_eq!(cpu.i, 0x600);
    cpu.v = [0; 16];
    cpu.apply_opcode(0xFF65, 0).unwrap();
    assert_eq!(cpu.v, saved);
}

#[test]
fn return_after_call_restores_pc_and_sp() {
    let mut cpu = machine_at(0x300);
    cpu.sp = 3;
    cpu.apply_opcode(0x2ABC, 0).unwrap();
    assert_eq!(cpu.pc, 0xABC);
    assert_eq!(cpu.sp, 4);
    cpu.apply_opcode(0x00EE, 0).unwrap();
    assert_eq!(cpu.pc, 0x302);
    assert_eq!(cpu.sp, 3);
}

#[test]
fn program_stores_bcd_of_five() {
    let mut cpu = Cpu::new();
    cpu.reset();
    cpu.load(&[0x60, 0x05, 0xF0, 0x33]);
    cpu.i = 0x300;
    assert_eq!(cpu.execute(), Ok(Outcome::Executed));
    assert_eq!(cpu.execute(), Ok(Outcome::Executed));
    assert_eq!(cpu.memory[0x300..0x303], [0, 0, 5]);
    assert_eq!(cpu.pc, 0x204);
}

#[test]
fn clear_on_full_screen() {
    let mut cpu = Cpu::new();
    cpu.reset();
    for y in 0..HEIGHT {
        for x in 0..WIDTH {
            cpu.display.set_pixel(x, y, true);
        }
    }
    cpu.display.draw_flag = false;
    cpu.load(&[0x00, 0xE0]);
    assert_eq!(cpu.execute(), Ok(Outcome::Executed));
    for y in 0..HEIGHT {
        for x in 0..WIDTH {
            assert!(!cpu.display.get_pixel(x, y));
        }
    }
    assert!(cpu.display.draw_flag);
}

#[test]
fn wait_key_takes_highest_held_key() {
    let mut cpu = machine_at(0x300);
    cpu.keypad.key_down(3);
    cpu.keypad.key_down(9);
    cpu.apply_opcode(0xF40A, 0).unwrap();
    assert_eq!(cpu.v[4], 9);
    assert_eq!(cpu.pc, 0x302);
}

#[test]
fn wait_key_without_key_repeats() {
    let mut cpu = machine_at(0x300);
    cpu.v[4] = 77;
    cpu.apply_opcode(0xF40A, 0).unwrap();
    assert_eq!(cpu.v[4], 77);
    assert_eq!(cpu.pc, 0x300);
}

#[test]
fn add_index_flag_threshold() {
    let mut cpu = machine_at(0x300);
    cpu.i = 0x0EFF;
    cpu.v[2] = 1;
    cpu.apply_opcode(0xF21E, 0).unwrap();
    assert_eq!(cpu.i, 0x0F00);
    assert_eq!(cpu.v[0xF], 0);
    cpu.apply_opcode(0xF21E, 0).unwrap();
    assert_eq!(cpu.i, 0x0F01);
    assert_eq!(cpu.v[0xF], 1);
}

#[test]
fn font_address_is_five_per_digit() {
    let mut cpu = machine_at(0x300);
    cpu.v[3] = 0xF;
    cpu.apply_opcode(0xF329, 0).unwrap();
    assert_eq!(cpu.i, 75);
    assert_eq!(cpu.memory[75], 0xF0);
}

#[test]
fn jump_with_offset_adds_v0() {
    let mut cpu = machine_at(0x300);
    cpu.v[0] = 0x10;
    cpu.apply_opcode(0xB200, 0).unwrap();
    assert_eq!(cpu.pc, 0x210);
}

#[test]
fn random_byte_is_masked() {
    let mut cpu = machine_at(0x300);
    cpu.apply_opcode(0xC30F, 0xAB).unwrap();
    assert_eq!(cpu.v[3], 0x0B);
}

#[test]
fn logic_ops() {
    let mut cpu = machine_at(0x300);
    cpu.v[1] = 0b1100;
    cpu.v[2] = 0b1010;
    cpu.apply_opcode(0x8122, 0).unwrap();
    assert_eq!(cpu.v[1], 0b1000);
    cpu.v[1] = 0b1100;
    cpu.apply_opcode(0x8123, 0).unwrap();
    assert_eq!(cpu.v[1], 0b0110);
}

#[test]
fn unknown_word_only_advances_pc() {
    let mut cpu = machine_at(0x300);
    cpu.v[1] = 5;
    assert_eq!(cpu.apply_opcode(0x5121, 0), Ok(Outcome::Unhandled));
    assert_eq!(cpu.pc, 0x302);
    assert_eq!(cpu.v[1], 5);
    assert_eq!(cpu.process_opcode(0xFFFF), Ok(Outcome::Unhandled));
    assert_eq!(cpu.pc, 0x304);
}

#[test]
fn halts_on_return_with_empty_stack() {
    let mut cpu = machine_at(0x300);
    assert_eq!(cpu.apply_opcode(0x00EE, 0), Err(HaltReason::StackUnderflow));
    assert_eq!(cpu.pc, 0x300);
}

#[test]
fn halts_on_call_with_full_stack() {
    let mut cpu = machine_at(0x300);
    cpu.sp = 16;
    assert_eq!(cpu.apply_opcode(0x2400, 0), Err(HaltReason::StackOverflow));
    assert_eq!(cpu.pc, 0x300);
    assert_eq!(cpu.sp, 16);
}

#[test]
fn halts_on_memory_past_end() {
    let mut cpu = machine_at(0x300);
    cpu.i = 0xFFE;
    assert_eq!(cpu.apply_opcode(0xF033, 0), Err(HaltReason::MemoryOutOfBounds));
    assert_eq!(cpu.apply_opcode(0xF255, 0), Err(HaltReason::MemoryOutOfBounds));
    assert_eq!(cpu.apply_opcode(0xF165, 0), Ok(Outcome::Executed));
    assert_eq!(cpu.apply_opcode(0xD003, 0), Err(HaltReason::MemoryOutOfBounds));
}

#[test]
fn halts_on_key_index_out_of_range() {
    let mut cpu = machine_at(0x300);
    cpu.v[2] = 16;
    assert_eq!(cpu.apply_opcode(0xE29E, 0), Err(HaltReason::KeyOutOfRange));
    assert_eq!(cpu.apply_opcode(0xE2A1, 0), Err(HaltReason::KeyOutOfRange));
}

#[test]
fn halts_when_pc_leaves_memory() {
    let mut cpu = machine_at(0xFFF);
    assert_eq!(cpu.execute(), Err(HaltReason::ProgramCounterOutOfBounds));
    assert_eq!(cpu.process_opcode(0x6000), Err(HaltReason::ProgramCounterOutOfBounds));
    assert_eq!(cpu.pc, 0xFFF);
}

#[test]
fn load_drops_bytes_past_memory() {
    let mut cpu = Cpu::new();
    let rom = vec![0xAB; 4096];
    cpu.load(&rom);
    assert_eq!(cpu.memory[0x1FF], 0);
    assert_eq!(cpu.memory[0x200], 0xAB);
    assert_eq!(cpu.memory[4095], 0xAB);
}

#[test]
fn timers_stop_at_zero() {
    let mut cpu = Cpu::new();
    cpu.dt = 2;
    cpu.st = 1;
    cpu.decrement_timers();
    assert_eq!((cpu.dt, cpu.st), (1, 0));
    cpu.decrement_timers();
    assert_eq!((cpu.dt, cpu.st), (0, 0));
}

#[test]
fn reset_clears_everything() {
    let mut cpu = Cpu::new();
    cpu.v[3] = 4;
    cpu.st = 9;
    cpu.keypad.key_down(5);
    cpu.display.set_pixel(1, 1, true);
    cpu.reset();
    assert_eq!(cpu.v, [0; 16]);
    assert_eq!(cpu.st, 0);
    assert!(!cpu.keypad.is_key_down(5));
    assert!(!cpu.display.get_pixel(1, 1));
    assert!(cpu.display.draw_flag);
    assert_eq!(cpu.memory[0x50], 0);
}

#[test]
fn keypad_and_display_cells() {
    let mut pad = Keypad::new();
    pad.key_down(0xF);
    assert!(pad.is_key_down(0xF));
    pad.key_up(0xF);
    assert!(!pad.is_key_down(0xF));

    let mut screen = Display::new();
    assert!(!screen.draw_flag);
    screen.set_pixel(63, 31, true);
    assert!(screen.get_pixel(63, 31));
    assert!(screen.draw_flag);
    screen.cls();
    assert!(!screen.get_pixel(63, 31));
}

#[test]
fn decode_names_instructions() {
    assert_eq!(decode(0xD12F), Instruction::Draw { x: 1, y: 2, n: 15 });
    assert_eq!(decode(0x8AB6), Instruction::ShiftRight { x: 10, y: 11 });
    assert_eq!(decode(0x0123), Instruction::Unknown);
}
