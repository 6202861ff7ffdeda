use chip8::{Fault, CPU};

fn machine_with(regs: &[(usize, u8)]) -> CPU {
    let mut cpu = CPU::new();
    for &(r, val) in regs {
        cpu.v[r] = val;
    }
    cpu
}

#[test]
fn jump_scenario_fetch_decode_execute() {
    let mut cpu = CPU::new();
    cpu.memory[0x200] = 0x1A;
    cpu.memory[0x201] = 0x2B;
    let word = cpu.fetch();
    assert_eq!(word, 0x1A2B);
    assert_eq!(cpu.execute(word), Ok(()));
    assert_eq!(cpu.pc, 0x0A2B);
}

#[test]
fn load_immediate_sets_the_register() {
    let mut cpu = machine_with(&[(3, 156)]);
    assert_eq!(cpu.execute(0x63C8), Ok(()));
    assert_eq!(cpu.v[3], 200);
}

#[test]
fn add_immediate_wraps_without_touching_the_flag() {
    let mut cpu = machine_with(&[(3, 156), (0xF, 0x5A)]);
    assert_eq!(cpu.execute(0x73C8), Ok(()));
    assert_eq!(cpu.v[3], 100);
    assert_eq!(cpu.v[0xF], 0x5A);
    assert_eq!(cpu.pc, 0x200);
}

#[test]
fn add_immediate_many_times_equals_one_add_of_the_product() {
    for (start, nn, n) in [(0u8, 5u8, 100u32), (17, 255, 3), (200, 1, 256), (9, 77, 0), (1, 128, 2)] {
        let mut many = machine_with(&[(0xA, start)]);
        for _ in 0..n {
            assert_eq!(many.execute(0x7A00 | nn as u16), Ok(()));
        }
        let mut once = machine_with(&[(0xA, start)]);
        let product = (nn as u32 * n % 256) as u16;
        assert_eq!(once.execute(0x7A00 | product), Ok(()));
        assert_eq!(many.v, once.v);
        assert_eq!(many.v[0xA], ((start as u32 + nn as u32 * n) % 256) as u8);
    }
}

#[test]
fn add_registers_sets_carry_exactly_on_overflow() {
    let mut cpu = machine_with(&[(1, 200), (2, 56)]);
    assert_eq!(cpu.execute(0x8124), Ok(()));
    assert_eq!(cpu.v[1], 0);
    assert_eq!(cpu.v[0xF], 1);

    let mut cpu = machine_with(&[(1, 200), (2, 55), (0xF, 1)]);
    assert_eq!(cpu.execute(0x8124), Ok(()));
    assert_eq!(cpu.v[1], 255);
    assert_eq!(cpu.v[0xF], 0);
}

#[test]
fn add_registers_for_all_operands() {
    for a in 0..=255u8 {
        for b in [0u8, 1, 2, 100, 127, 128, 254, 255] {
            let mut cpu = machine_with(&[(4, a), (9, b)]);
            assert_eq!(cpu.execute(0x8494), Ok(()));
            assert_eq!(cpu.v[4], a.wrapping_add(b));
            assert_eq!(cpu.v[0xF], (a as u16 + b as u16 > 255) as u8);
            assert_eq!(cpu.v[9], b);
        }
    }
}

#[test]
fn add_into_the_flag_register_keeps_the_flag() {
    let mut cpu = machine_with(&[(0xF, 250), (1, 10)]);
    assert_eq!(cpu.execute(0x8F14), Ok(()));
    assert_eq!(cpu.v[0xF], 1);
    let mut cpu = machine_with(&[(0xF, 20), (1, 10)]);
    assert_eq!(cpu.execute(0x8F14), Ok(()));
    assert_eq!(cpu.v[0xF], 0);
}

#[test]
fn subtract_sets_flag_when_nothing_is_borrowed() {
    let mut cpu = machine_with(&[(1, 10), (2, 3)]);
    assert_eq!(cpu.execute(0x8125), Ok(()));
    assert_eq!(cpu.v[1], 7);
    assert_eq!(cpu.v[0xF], 1);

    let mut cpu = machine_with(&[(1, 3), (2, 10)]);
    assert_eq!(cpu.execute(0x8125), Ok(()));
    assert_eq!(cpu.v[1], 249);
    assert_eq!(cpu.v[0xF], 0);

    let mut cpu = machine_with(&[(1, 42), (2, 42)]);
    assert_eq!(cpu.execute(0x8125), Ok(()));
    assert_eq!(cpu.v[1], 0);
    assert_eq!(cpu.v[0xF], 1);
}

#[test]
fn subtract_reversed_takes_x_from_y() {
    let mut cpu = machine_with(&[(1, 3), (2, 10)]);
    assert_eq!(cpu.execute(0x8127), Ok(()));
    assert_eq!(cpu.v[1], 7);
    assert_eq!(cpu.v[2], 10);
    assert_eq!(cpu.v[0xF], 1);

    let mut cpu = machine_with(&[(1, 10), (2, 3)]);
    assert_eq!(cpu.execute(0x8127), Ok(()));
    assert_eq!(cpu.v[1], 249);
    assert_eq!(cpu.v[0xF], 0);
}

#[test]
fn shifts_move_the_lost_bit_to_the_flag() {
    let mut cpu = machine_with(&[(5, 0b1000_0101)]);
    assert_eq!(cpu.execute(0x8506), Ok(()));
    assert_eq!(cpu.v[5], 0b0100_0010);
    assert_eq!(cpu.v[0xF], 1);

    let mut cpu = machine_with(&[(5, 0b1000_0100), (0xF, 1)]);
    assert_eq!(cpu.execute(0x8506), Ok(()));
    assert_eq!(cpu.v[5], 0b0100_0010);
    assert_eq!(cpu.v[0xF], 0);

    let mut cpu = machine_with(&[(5, 0b1000_0101)]);
    assert_eq!(cpu.execute(0x850E), Ok(()));
    assert_eq!(cpu.v[5], 0b0000_1010);
    assert_eq!(cpu.v[0xF], 1);

    let mut cpu = machine_with(&[(5, 0b0100_0101), (0xF, 1)]);
    assert_eq!(cpu.execute(0x850E), Ok(()));
    assert_eq!(cpu.v[5], 0b1000_1010);
    assert_eq!(cpu.v[0xF], 0);
}

#[test]
fn copy_and_bitwise_operations() {
    let mut cpu = machine_with(&[(1, 0b1100), (2, 0b1010), (0xF, 9)]);
    assert_eq!(cpu.execute(0x8120), Ok(()));
    assert_eq!(cpu.v[1], 0b1010);
    let mut cpu = machine_with(&[(1, 0b1100), (2, 0b1010), (0xF, 9)]);
    assert_eq!(cpu.execute(0x8121), Ok(()));
    assert_eq!(cpu.v[1], 0b1110);
    let mut cpu = machine_with(&[(1, 0b1100), (2, 0b1010), (0xF, 9)]);
    assert_eq!(cpu.execute(0x8122), Ok(()));
    assert_eq!(cpu.v[1], 0b1000);
    let mut cpu = machine_with(&[(1, 0b1100), (2, 0b1010), (0xF, 9)]);
    assert_eq!(cpu.execute(0x8123), Ok(()));
    assert_eq!(cpu.v[1], 0b0110);
    assert_eq!(cpu.v[2], 0b1010);
    assert_eq!(cpu.v[0xF], 9);
}

#[test]
fn skips_on_immediates() {
    let mut cpu = machine_with(&[(1, 0x42)]);
    assert_eq!(cpu.execute(0x3142), Ok(()));
    assert_eq!(cpu.pc, 0x202);
    assert_eq!(cpu.execute(0x3143), Ok(()));
    assert_eq!(cpu.pc, 0x202);
    assert_eq!(cpu.execute(0x4143), Ok(()));
    assert_eq!(cpu.pc, 0x204);
    assert_eq!(cpu.execute(0x4142), Ok(()));
    assert_eq!(cpu.pc, 0x204);
}

#[test]
fn skips_on_registers() {
    let mut cpu = machine_with(&[(1, 7), (2, 7), (3, 8)]);
    assert_eq!(cpu.execute(0x5120), Ok(()));
    assert_eq!(cpu.pc, 0x202);
    assert_eq!(cpu.execute(0x5130), Ok(()));
    assert_eq!(cpu.pc, 0x202);
    assert_eq!(cpu.execute(0x9130), Ok(()));
    assert_eq!(cpu.pc, 0x204);
    assert_eq!(cpu.execute(0x9120), Ok(()));
    assert_eq!(cpu.pc, 0x204);
}

#[test]
fn skip_wraps_the_program_counter() {
    let mut cpu = machine_with(&[(1, 1)]);
    cpu.pc = 0xFFFF;
    assert_eq!(cpu.execute(0x3101), Ok(()));
    assert_eq!(cpu.pc, 1);
}

#[test]
fn skips_on_keys() {
    let mut cpu = machine_with(&[(1, 0xA), (2, 0xB)]);
    cpu.keys[0xA] = true;
    assert_eq!(cpu.execute(0xE19E), Ok(()));
    assert_eq!(cpu.pc, 0x202);
    assert_eq!(cpu.execute(0xE29E), Ok(()));
    assert_eq!(cpu.pc, 0x202);
    assert_eq!(cpu.execute(0xE2A1), Ok(()));
    assert_eq!(cpu.pc, 0x204);
    assert_eq!(cpu.execute(0xE1A1), Ok(()));
    assert_eq!(cpu.pc, 0x204);
}

#[test]
fn a_key_number_past_the_keypad_is_not_down() {
    let mut cpu = machine_with(&[(1, 16), (2, 255)]);
    cpu.keys = [true; 16];
    assert_eq!(cpu.execute(0xE19E), Ok(()));
    assert_eq!(cpu.pc, 0x200);
    assert_eq!(cpu.execute(0xE2A1), Ok(()));
    assert_eq!(cpu.pc, 0x202);
}

#[test]
fn call_then_return_round_trips() {
    let mut cpu = CPU::new();
    cpu.pc = 0x3F0;
    cpu.memory[0x3F0] = 0x2A;
    cpu.memory[0x3F1] = 0xBC;
    let word = cpu.fetch();
    assert_eq!(cpu.execute(word), Ok(()));
    assert_eq!(cpu.pc, 0xABC);
    assert_eq!(cpu.sp, 1);
    assert_eq!(cpu.stack[0], 0x3F2);
    assert_eq!(cpu.execute(0x00EE), Ok(()));
    assert_eq!(cpu.pc, 0x3F2);
    assert_eq!(cpu.sp, 0);
}

#[test]
fn nested_calls_return_in_reverse_order() {
    let mut cpu = CPU::new();
    assert_eq!(cpu.execute(0x2300), Ok(()));
    cpu.pc = 0x302;
    assert_eq!(cpu.execute(0x2400), Ok(()));
    assert_eq!(cpu.pc, 0x400);
    assert_eq!(cpu.execute(0x00EE), Ok(()));
    assert_eq!(cpu.pc, 0x302);
    assert_eq!(cpu.execute(0x00EE), Ok(()));
    assert_eq!(cpu.pc, 0x200);
}

#[test]
fn call_on_a_full_stack_is_an_overflow_and_changes_nothing() {
    let mut cpu = CPU::new();
    for _ in 0..16 {
        assert_eq!(cpu.execute(0x2345), Ok(()));
    }
    cpu.pc = 0x444;
    let stack = cpu.stack;
    assert_eq!(cpu.execute(0x2ABC), Err(Fault::StackOverflow));
    assert_eq!(cpu.pc, 0x444);
    assert_eq!(cpu.sp, 16);
    assert_eq!(cpu.stack, stack);
}

#[test]
fn return_on_an_empty_stack_is_an_underflow_and_changes_nothing() {
    let mut cpu = CPU::new();
    assert_eq!(cpu.execute(0x00EE), Err(Fault::StackUnderflow));
    assert_eq!(cpu.pc, 0x200);
    assert_eq!(cpu.sp, 0);
}

#[test]
fn unknown_opcode_is_reported_with_its_word() {
    let mut cpu = machine_with(&[(1, 5)]);
    for word in [0x0000u16, 0x0123, 0x5121, 0x8128, 0x9121, 0xB200, 0xE100, 0xF1FF] {
        assert_eq!(cpu.execute(word), Err(Fault::UnknownOpcode(word)));
        assert_eq!(cpu.execute_with(word, 3), Err(Fault::UnknownOpcode(word)));
    }
    assert_eq!(cpu.pc, 0x200);
    assert_eq!(cpu.v[1], 5);
}

#[test]
fn set_index_and_add_to_index() {
    let mut cpu = machine_with(&[(1, 0x10)]);
    assert_eq!(cpu.execute(0xA123), Ok(()));
    assert_eq!(cpu.i, 0x123);
    assert_eq!(cpu.execute(0xF11E), Ok(()));
    assert_eq!(cpu.i, 0x133);
}

#[test]
fn add_to_index_wraps_at_sixteen_bits_and_leaves_the_flag() {
    let mut cpu = machine_with(&[(1, 0x20), (0xF, 7)]);
    cpu.i = 0xFFF0;
    assert_eq!(cpu.execute(0xF11E), Ok(()));
    assert_eq!(cpu.i, 0x0010);
    assert_eq!(cpu.v[0xF], 7);
}

#[test]
fn glyph_address_is_five_times_the_digit() {
    let mut cpu = machine_with(&[(1, 0xA), (2, 255)]);
    assert_eq!(cpu.execute(0xF129), Ok(()));
    assert_eq!(cpu.i, 50);
    assert_eq!(&cpu.memory[50..55], &[0xF0, 0x90, 0xF0, 0x90, 0x90]);
    assert_eq!(cpu.execute(0xF229), Ok(()));
    assert_eq!(cpu.i, 1275);
}

#[test]
fn decimal_digits_are_written_at_the_index() {
    let mut cpu = machine_with(&[(7, 234)]);
    cpu.i = 0x300;
    assert_eq!(cpu.execute(0xF733), Ok(()));
    assert_eq!(&cpu.memory[0x300..0x303], &[2, 3, 4]);
    assert_eq!(cpu.i, 0x300);

    let mut cpu = machine_with(&[(7, 7)]);
    cpu.i = 0x300;
    assert_eq!(cpu.execute(0xF733), Ok(()));
    assert_eq!(&cpu.memory[0x300..0x303], &[0, 0, 7]);

    let mut cpu = machine_with(&[(7, 255)]);
    cpu.i = 0x300;
    assert_eq!(cpu.execute(0xF733), Ok(()));
    assert_eq!(&cpu.memory[0x300..0x303], &[2, 5, 5]);
}

#[test]
fn decimal_digits_wrap_past_the_end_of_memory() {
    let mut cpu = machine_with(&[(7, 123)]);
    cpu.i = 4095;
    assert_eq!(cpu.execute(0xF733), Ok(()));
    assert_eq!(cpu.memory[4095], 1);
    assert_eq!(cpu.memory[0], 2);
    assert_eq!(cpu.memory[1], 3);
}

#[test]
fn store_writes_registers_up_to_x_inclusive() {
    let mut cpu = machine_with(&[(0, 10), (1, 11), (2, 12), (3, 13)]);
    cpu.i = 0x400;
    cpu.memory[0x403] = 0xEE;
    assert_eq!(cpu.execute(0xF255), Ok(()));
    assert_eq!(&cpu.memory[0x400..0x404], &[10, 11, 12, 0xEE]);
    assert_eq!(cpu.i, 0x400);
}

#[test]
fn store_of_register_zero_alone() {
    let mut cpu = machine_with(&[(0, 10), (1, 11)]);
    cpu.i = 0x400;
    assert_eq!(cpu.execute(0xF055), Ok(()));
    assert_eq!(&cpu.memory[0x400..0x402], &[10, 0]);
}

#[test]
fn store_wraps_past_the_end_of_memory() {
    let mut cpu = machine_with(&[(0, 10), (1, 11), (2, 12)]);
    cpu.i = 0xFFF;
    assert_eq!(cpu.execute(0xF255), Ok(()));
    assert_eq!(cpu.memory[0xFFF], 10);
    assert_eq!(cpu.memory[0], 11);
    assert_eq!(cpu.memory[1], 12);
    assert_eq!(cpu.memory[2], 0x90);
}

#[test]
fn store_with_an_index_past_the_address_space() {
    let mut cpu = machine_with(&[(0, 10), (1, 11)]);
    cpu.i = 0x1400;
    assert_eq!(cpu.execute(0xF155), Ok(()));
    assert_eq!(&cpu.memory[0x400..0x402], &[10, 11]);
}

#[test]
fn load_reads_registers_up_to_x_inclusive() {
    let mut cpu = machine_with(&[(3, 99)]);
    cpu.i = 0x500;
    cpu.memory[0x500] = 1;
    cpu.memory[0x501] = 2;
    cpu.memory[0x502] = 3;
    cpu.memory[0x503] = 4;
    assert_eq!(cpu.execute(0xF265), Ok(()));
    assert_eq!(&cpu.v[0..4], &[1, 2, 3, 99]);
    assert_eq!(cpu.i, 0x500);
}

#[test]
fn load_of_all_sixteen_registers() {
    let mut cpu = CPU::new();
    cpu.i = 0xFF8;
    for k in 0..8 {
        cpu.memory[0xFF8 + k] = 0x80 + k as u8;
    }
    assert_eq!(cpu.execute(0xFF65), Ok(()));
    for k in 0..8 {
        assert_eq!(cpu.v[k], 0x80 + k as u8);
        assert_eq!(cpu.v[8 + k], cpu.memory[k]);
    }
}

#[test]
fn store_then_load_brings_the_registers_back() {
    let mut cpu = CPU::new();
    for r in 0..16 {
        cpu.v[r] = (r as u8) * 3 + 1;
    }
    let saved = cpu.v;
    cpu.i = 0x600;
    assert_eq!(cpu.execute(0xFF55), Ok(()));
    cpu.v = [0; 16];
    assert_eq!(cpu.execute(0xFF65), Ok(()));
    assert_eq!(cpu.v, saved);
}

#[test]
fn timers_are_read_and_written() {
    let mut cpu = machine_with(&[(1, 60), (2, 30)]);
    assert_eq!(cpu.execute(0xF115), Ok(()));
    assert_eq!(cpu.delay_timer, 60);
    assert_eq!(cpu.execute(0xF218), Ok(()));
    assert_eq!(cpu.sound_timer, 30);
    assert_eq!(cpu.execute(0xF307), Ok(()));
    assert_eq!(cpu.v[3], 60);
}

#[test]
fn wait_for_key_without_keys_leaves_the_program_counter() {
    let mut cpu = CPU::new();
    cpu.memory[0x200] = 0xF3;
    cpu.memory[0x201] = 0x0A;
    cpu.v[3] = 0x77;
    let word = cpu.fetch();
    assert_eq!(cpu.pc, 0x202);
    assert_eq!(cpu.execute(word), Ok(()));
    assert_eq!(cpu.pc, 0x200);
    assert_eq!(cpu.v[3], 0x77);
    assert_eq!(cpu.fetch(), 0xF30A);
}

#[test]
fn wait_for_key_takes_the_lowest_key_down() {
    let mut cpu = CPU::new();
    cpu.pc = 0x202;
    cpu.keys[0xC] = true;
    cpu.keys[0x5] = true;
    cpu.keys[0xF] = true;
    assert_eq!(cpu.execute(0xF30A), Ok(()));
    assert_eq!(cpu.v[3], 5);
    assert_eq!(cpu.pc, 0x202);
}

#[test]
fn wait_for_key_sees_key_zero_and_key_fifteen() {
    let mut cpu = machine_with(&[(3, 9)]);
    cpu.pc = 0x202;
    cpu.keys[0] = true;
    assert_eq!(cpu.execute(0xF30A), Ok(()));
    assert_eq!(cpu.v[3], 0);
    let mut cpu = CPU::new();
    cpu.pc = 0x202;
    cpu.keys[15] = true;
    assert_eq!(cpu.execute(0xF30A), Ok(()));
    assert_eq!(cpu.v[3], 15);
    assert_eq!(cpu.pc, 0x202);
}

#[test]
fn wait_for_key_wraps_the_program_counter_below_zero() {
    let mut cpu = CPU::new();
    cpu.pc = 1;
    assert_eq!(cpu.execute(0xF30A), Ok(()));
    assert_eq!(cpu.pc, 0xFFFF);
}

#[test]
fn random_with_a_given_byte_is_masked() {
    let mut cpu = CPU::new();
    assert_eq!(cpu.execute_with(0xC30F, 0xAB), Ok(()));
    assert_eq!(cpu.v[3], 0x0B);
    assert_eq!(cpu.execute_with(0xC4FF, 0xAB), Ok(()));
    assert_eq!(cpu.v[4], 0xAB);
    assert_eq!(cpu.execute_with(0xC500, 0xAB), Ok(()));
    assert_eq!(cpu.v[5], 0);
    assert_eq!(cpu.pc, 0x200);
}

#[test]
fn random_from_the_generator_stays_under_the_mask() {
    let mut cpu = CPU::new();
    let mut seen = [false; 256];
    for _ in 0..2000 {
        assert_eq!(cpu.execute(0xC70F), Ok(()));
        assert_eq!(cpu.v[7] & 0xF0, 0);
        assert_eq!(cpu.execute(0xC8FF), Ok(()));
        seen[cpu.v[8] as usize] = true;
    }
    assert!(seen.iter().filter(|&&s| s).count() > 64);
}

#[test]
fn other_instructions_ignore_the_given_byte() {
    let mut a = machine_with(&[(1, 200), (2, 100)]);
    let mut b = machine_with(&[(1, 200), (2, 100)]);
    assert_eq!(a.execute_with(0x8124, 0), Ok(()));
    assert_eq!(b.execute_with(0x8124, 0xFF), Ok(()));
    assert_eq!(a.v, b.v);
    let mut c = machine_with(&[(1, 200), (2, 100)]);
    assert_eq!(c.execute(0x8124), Ok(()));
    assert_eq!(a.v, c.v);
}

#[test]
fn clear_display_turns_every_cell_off() {
    let mut cpu = CPU::new();
    cpu.display = [true; 2048];
    assert_eq!(cpu.execute(0x00E0), Ok(()));
    assert!(cpu.display.iter().all(|&p| !p));
}
