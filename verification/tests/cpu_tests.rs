use skye_emulator::cpu::{CPUError, Chip8};
use skye_emulator::opcodes::OpCode;
use skye_emulator::parser::decode;

type Step = Result<Option<(Option<Vec<u8>>, bool)>, CPUError>;

fn program(words: &[u16]) -> Vec<OpCode> {
    words.iter().map(|word| decode(*word).unwrap()).collect()
}

fn machine(words: &[u16]) -> Chip8 {
    Chip8::with_seed(program(words), 42)
}

fn step(chip: &mut Chip8) -> Step {
    match chip.cycle() {
        Ok(Some((frame, sound))) => Ok(Some((frame.map(|cells| cells.to_vec()), sound))),
        Ok(None) => Ok(None),
        Err(fault) => Err(fault),
    }
}

fn run(chip: &mut Chip8, cycles: usize) {
    for _ in 0..cycles {
        assert!(matches!(step(chip), Ok(Some(_))));
    }
}

fn lit(frame: &[u8]) -> usize {
    frame.iter().filter(|cell| **cell == 1).count()
}

#[test]
fn new_machine_is_zeroed() {
    let chip: Chip8 = Chip8::new(program(&[0x00E0]));
    assert_eq!(chip.dump_registers(), [0u8; 16]);
    assert_eq!(chip.dump_large_register(), 0);
    assert_eq!(chip.dump_stack().depth(), 0);
    assert_eq!(chip.dump_stack().get(0), None);
    assert_eq!(chip.dump_clock(), (0, 0));
}

#[test]
fn empty_program_halts_at_once() {
    let mut chip: Chip8 = machine(&[]);
    assert_eq!(step(&mut chip), Ok(None));
    assert_eq!(step(&mut chip), Ok(None));
}

#[test]
fn halts_past_the_last_instruction() {
    let mut chip: Chip8 = machine(&[0x6A12]);
    assert_eq!(step(&mut chip), Ok(Some((None, false))));
    assert_eq!(step(&mut chip), Ok(None));
    assert_eq!(chip.dump_registers()[0xA], 0x12);
}

#[test]
fn set_and_add_constant_wraps_without_flag() {
    let mut chip: Chip8 = machine(&[0x63F0, 0x7320]);
    run(&mut chip, 2);
    let registers: [u8; 16] = chip.dump_registers();
    assert_eq!(registers[3], 0x10);
    assert_eq!(registers[0xF], 0);
}

#[test]
fn add_sets_carry_when_sum_exceeds_255() {
    let mut chip: Chip8 = machine(&[0x60C8, 0x6164, 0x8014]);
    run(&mut chip, 3);
    let registers: [u8; 16] = chip.dump_registers();
    assert_eq!(registers[0], 44);
    assert_eq!(registers[0xF], 1);
}

#[test]
fn add_clears_carry_when_sum_fits() {
    let mut chip: Chip8 = machine(&[0x6F01, 0x60C8, 0x6137, 0x8014]);
    run(&mut chip, 4);
    let registers: [u8; 16] = chip.dump_registers();
    assert_eq!(registers[0], 255);
    assert_eq!(registers[0xF], 0);
}

#[test]
fn add_into_flag_register_keeps_the_flag() {
    let mut chip: Chip8 = machine(&[0x6FFF, 0x6102, 0x8F14]);
    run(&mut chip, 3);
    assert_eq!(chip.dump_registers()[0xF], 1);
}

#[test]
fn sub_sets_flag_when_no_borrow() {
    let mut chip: Chip8 = machine(&[0x6A07, 0x6B07, 0x8AB5]);
    run(&mut chip, 3);
    let registers: [u8; 16] = chip.dump_registers();
    assert_eq!(registers[0xA], 0);
    assert_eq!(registers[0xF], 1);
}

#[test]
fn sub_clears_flag_on_borrow_and_wraps() {
    let mut chip: Chip8 = machine(&[0x6A05, 0x6B07, 0x8AB5]);
    run(&mut chip, 3);
    let registers: [u8; 16] = chip.dump_registers();
    assert_eq!(registers[0xA], 254);
    assert_eq!(registers[0xF], 0);
}

#[test]
fn reversed_sub_sets_flag_when_second_is_larger() {
    let mut chip: Chip8 = machine(&[0x6A05, 0x6B07, 0x8AB7]);
    run(&mut chip, 3);
    let registers: [u8; 16] = chip.dump_registers();
    assert_eq!(registers[0xA], 2);
    assert_eq!(registers[0xF], 1);
}

#[test]
fn reversed_sub_clears_flag_on_borrow() {
    let mut chip: Chip8 = machine(&[0x6A09, 0x6B07, 0x8AB7]);
    run(&mut chip, 3);
    let registers: [u8; 16] = chip.dump_registers();
    assert_eq!(registers[0xA], 254);
    assert_eq!(registers[0xF], 0);
}

#[test]
fn shift_right_moves_low_bit_to_flag() {
    let mut chip: Chip8 = machine(&[0x6203, 0x8206]);
    run(&mut chip, 2);
    let registers: [u8; 16] = chip.dump_registers();
    assert_eq!(registers[2], 1);
    assert_eq!(registers[0xF], 1);
}

#[test]
fn shift_left_truncates_and_moves_high_bit_to_flag() {
    let mut chip: Chip8 = machine(&[0x6281, 0x820E]);
    run(&mut chip, 2);
    let registers: [u8; 16] = chip.dump_registers();
    assert_eq!(registers[2], 2);
    assert_eq!(registers[0xF], 1);
}

#[test]
fn bitwise_operations_leave_flag_alone() {
    let mut chip: Chip8 = machine(&[0x6F07, 0x600C, 0x610A, 0x8011, 0x620C, 0x8212, 0x630C, 0x8313, 0x8430]);
    run(&mut chip, 9);
    let registers: [u8; 16] = chip.dump_registers();
    assert_eq!(registers[0], 0x0E);
    assert_eq!(registers[2], 0x08);
    assert_eq!(registers[3], 0x06);
    assert_eq!(registers[4], 0x06);
    assert_eq!(registers[0xF], 7);
}

#[test]
fn jump_sets_the_program_counter() {
    let mut chip: Chip8 = machine(&[0x1002, 0x6001, 0x6102]);
    run(&mut chip, 2);
    let registers: [u8; 16] = chip.dump_registers();
    assert_eq!(registers[0], 0);
    assert_eq!(registers[1], 2);
    assert_eq!(step(&mut chip), Ok(None));
}

#[test]
fn indexed_jump_adds_v0() {
    let mut chip: Chip8 = machine(&[0x6002, 0xB001, 0x6101, 0x6202]);
    run(&mut chip, 3);
    let registers: [u8; 16] = chip.dump_registers();
    assert_eq!(registers[1], 0);
    assert_eq!(registers[2], 2);
}

#[test]
fn skips_skip_exactly_when_their_condition_holds() {
    let mut chip: Chip8 = machine(&[
        0x6005, 0x3005, 0x6101, 0x3006, 0x6201, 0x4006, 0x6301, 0x4005, 0x6401, 0x6505, 0x5050,
        0x6601, 0x9050, 0x6701, 0x9010, 0x6801,
    ]);
    run(&mut chip, 12);
    assert_eq!(step(&mut chip), Ok(None));
    let registers: [u8; 16] = chip.dump_registers();
    assert_eq!(registers[1], 0);
    assert_eq!(registers[2], 1);
    assert_eq!(registers[3], 0);
    assert_eq!(registers[4], 1);
    assert_eq!(registers[6], 0);
    assert_eq!(registers[7], 1);
    assert_eq!(registers[8], 0);
}

#[test]
fn call_pushes_the_next_instruction_and_return_restores_it() {
    let mut chip: Chip8 = machine(&[0x2003, 0x6001, 0x1005, 0x6101, 0x00EE]);
    run(&mut chip, 1);
    assert_eq!(chip.dump_stack().depth(), 1);
    assert_eq!(chip.dump_stack().get(0), Some(1));
    run(&mut chip, 2);
    assert_eq!(chip.dump_stack().depth(), 0);
    run(&mut chip, 2);
    assert_eq!(step(&mut chip), Ok(None));
    let registers: [u8; 16] = chip.dump_registers();
    assert_eq!(registers[0], 1);
    assert_eq!(registers[1], 1);
}

#[test]
fn nested_calls_return_in_reverse_order() {
    let mut chip: Chip8 = machine(&[0x2002, 0x1009, 0x2004, 0x00EE, 0x2006, 0x00EE, 0x6A01, 0x00EE, 0x6B01]);
    run(&mut chip, 3);
    let stack = chip.dump_stack();
    assert_eq!(stack.depth(), 3);
    assert_eq!((stack.get(0), stack.get(1), stack.get(2)), (Some(1), Some(3), Some(5)));
    run(&mut chip, 5);
    assert_eq!(chip.dump_stack().depth(), 0);
    assert_eq!(step(&mut chip), Ok(None));
    assert_eq!(chip.dump_registers()[0xA], 1);
    assert_eq!(chip.dump_registers()[0xB], 0);
}

#[test]
fn forty_eight_calls_succeed_and_the_next_overflows() {
    let mut chip: Chip8 = machine(&[0x2000]);
    for depth in 1..=48usize {
        assert_eq!(step(&mut chip), Ok(Some((None, false))));
        assert_eq!(chip.dump_stack().depth(), depth);
    }
    assert_eq!(step(&mut chip), Err(CPUError::StackOverflow));
    assert_eq!(chip.dump_stack().depth(), 48);
    assert_eq!(chip.dump_stack().get(47), Some(1));
    assert_eq!(chip.dump_stack().get(48), None);
    assert_eq!(step(&mut chip), Err(CPUError::StackOverflow));
}

#[test]
fn return_on_empty_stack_underflows_and_keeps_the_state() {
    let mut chip: Chip8 = machine(&[0x6A33, 0xF015, 0x00EE, 0x6B01]);
    run(&mut chip, 2);
    let clock: (u8, u8) = chip.dump_clock();
    assert_eq!(step(&mut chip), Err(CPUError::StackUnderflow));
    assert_eq!(step(&mut chip), Err(CPUError::StackUnderflow));
    assert_eq!(chip.dump_clock(), clock);
    assert_eq!(chip.dump_registers()[0xB], 0);
}

#[test]
fn unimplemented_instructions_fault() {
    for word in [0x0FFFu16, 0xE19E, 0xE1A1, 0xF10A, 0xF129] {
        let mut chip: Chip8 = machine(&[word]);
        assert_eq!(step(&mut chip), Err(CPUError::NotImplemented));
        assert_eq!(chip.dump_registers(), [0u8; 16]);
    }
}

#[test]
fn clear_display_zeroes_every_cell_and_reports_the_frame() {
    let mut chip: Chip8 = machine(&[0x60FF, 0xA300, 0xF055, 0xD011, 0x00E0]);
    run(&mut chip, 3);
    match step(&mut chip) {
        Ok(Some((Some(frame), false))) => assert_eq!(lit(&frame), 8),
        other => panic!("unexpected {:?}", other),
    }
    match step(&mut chip) {
        Ok(Some((Some(frame), false))) => {
            assert_eq!(frame.len(), 2048);
            assert!(frame.iter().all(|cell| *cell == 0));
        }
        other => panic!("unexpected {:?}", other),
    }
}

#[test]
fn drawing_a_full_row_twice_sets_then_clears_it_with_collision() {
    let mut chip: Chip8 = machine(&[0x60FF, 0xA300, 0xF055, 0x6000, 0x6100, 0x6F07, 0xD011, 0xD011]);
    run(&mut chip, 6);
    match step(&mut chip) {
        Ok(Some((Some(frame), false))) => {
            for x in 0..8usize {
                assert_eq!(frame[x], 1);
            }
            assert_eq!(lit(&frame), 8);
        }
        other => panic!("unexpected {:?}", other),
    }
    assert_eq!(chip.dump_registers()[0xF], 0);
    match step(&mut chip) {
        Ok(Some((Some(frame), false))) => assert_eq!(lit(&frame), 0),
        other => panic!("unexpected {:?}", other),
    }
    assert_eq!(chip.dump_registers()[0xF], 1);
}

#[test]
fn collision_is_kept_when_a_later_pixel_does_not_collide() {
    // Row 0 holds 0x80 and row 1 holds 0x80; then a sprite of two rows, 0x80
    // over 0x40, collides in its first row only.
    let mut chip: Chip8 = machine(&[
        0x6080, 0x6180, 0xA300, 0xF155, 0x6200, 0x6300, 0xD232, 0x6080, 0x6140, 0xF155, 0xD232,
    ]);
    run(&mut chip, 10);
    assert_eq!(chip.dump_registers()[0xF], 0);
    match step(&mut chip) {
        Ok(Some((Some(frame), false))) => {
            assert_eq!(frame[0], 0);
            assert_eq!(frame[64], 1);
            assert_eq!(frame[65], 1);
            assert_eq!(lit(&frame), 2);
        }
        other => panic!("unexpected {:?}", other),
    }
    assert_eq!(chip.dump_registers()[0xF], 1);
}

#[test]
fn drawing_wraps_at_the_edges() {
    let mut chip: Chip8 = machine(&[0x60FF, 0x61FF, 0xA300, 0xF155, 0x603E, 0x611F, 0xD012]);
    run(&mut chip, 6);
    match step(&mut chip) {
        Ok(Some((Some(frame), false))) => {
            for x in [62usize, 63, 0, 1, 2, 3, 4, 5] {
                assert_eq!(frame[x + 31 * 64], 1);
                assert_eq!(frame[x], 1);
            }
            assert_eq!(lit(&frame), 16);
        }
        other => panic!("unexpected {:?}", other),
    }
    assert_eq!(chip.dump_registers()[0xF], 0);
}

#[test]
fn frame_is_reported_only_in_the_cycle_that_changed_it() {
    let mut chip: Chip8 = machine(&[0x00E0, 0x6001]);
    assert!(matches!(step(&mut chip), Ok(Some((Some(_), false)))));
    assert_eq!(step(&mut chip), Ok(Some((None, false))));
}

#[test]
fn bcd_stores_hundreds_tens_and_units() {
    let mut chip: Chip8 = machine(&[0x639D, 0xA300, 0xF333, 0xF265]);
    run(&mut chip, 4);
    let registers: [u8; 16] = chip.dump_registers();
    assert_eq!((registers[0], registers[1], registers[2]), (1, 5, 7));
    assert_eq!(registers[3], 157);
}

#[test]
fn dump_then_load_reproduces_the_registers() {
    let mut words: Vec<u16> = Vec::new();
    for x in 0..16u16 {
        words.push(0x6000 | (x << 8) | (0x10 * x + 3));
    }
    words.push(0xA2F0);
    words.push(0xFF55);
    for x in 0..16u16 {
        words.push(0x6000 | (x << 8));
    }
    words.push(0xFF65);
    let mut chip: Chip8 = machine(&words);
    run(&mut chip, 18);
    let before: [u8; 16] = chip.dump_registers();
    run(&mut chip, 16);
    assert_eq!(chip.dump_registers(), [0u8; 16]);
    run(&mut chip, 1);
    assert_eq!(chip.dump_registers(), before);
    assert_eq!(before[0xF], 0xF3);
    assert_eq!(chip.dump_large_register(), 0x2F0);
}

#[test]
fn dump_and_load_wrap_at_the_end_of_memory() {
    let mut chip: Chip8 = machine(&[
        0x6011, 0x6122, 0x6233, 0xAFFE, 0xF255, 0x6000, 0x6100, 0x6200, 0xA000, 0xF065, 0x8300,
        0xAFFE, 0xF265,
    ]);
    run(&mut chip, 11);
    assert_eq!(chip.dump_registers()[3], 0x33);
    run(&mut chip, 2);
    let registers: [u8; 16] = chip.dump_registers();
    assert_eq!((registers[0], registers[1], registers[2]), (0x11, 0x22, 0x33));
}

#[test]
fn partial_load_leaves_higher_registers_alone() {
    let mut chip: Chip8 = machine(&[0x6011, 0x6122, 0x6233, 0xA100, 0xF255, 0x6000, 0x6100, 0x6200, 0xF165]);
    run(&mut chip, 9);
    let registers: [u8; 16] = chip.dump_registers();
    assert_eq!((registers[0], registers[1], registers[2]), (0x11, 0x22, 0));
}

#[test]
fn index_register_adds_modulo_4096() {
    let mut chip: Chip8 = machine(&[0xAFFF, 0x6002, 0xF01E]);
    run(&mut chip, 1);
    assert_eq!(chip.dump_large_register(), 0xFFF);
    run(&mut chip, 2);
    assert_eq!(chip.dump_large_register(), 1);
}

#[test]
fn timers_decay_to_zero_and_stay_there() {
    let mut chip: Chip8 = machine(&[0x6004, 0xF015, 0xF018, 0x6100, 0x6100, 0x6100, 0x6100, 0x6100]);
    run(&mut chip, 2);
    assert_eq!(chip.dump_clock(), (3, 0));
    assert_eq!(step(&mut chip), Ok(Some((None, true))));
    assert_eq!(chip.dump_clock(), (2, 3));
    assert_eq!(step(&mut chip), Ok(Some((None, true))));
    assert_eq!(chip.dump_clock(), (1, 2));
    assert_eq!(step(&mut chip), Ok(Some((None, true))));
    assert_eq!(chip.dump_clock(), (0, 1));
    assert_eq!(step(&mut chip), Ok(Some((None, false))));
    assert_eq!(chip.dump_clock(), (0, 0));
    assert_eq!(step(&mut chip), Ok(Some((None, false))));
    assert_eq!(chip.dump_clock(), (0, 0));
}

#[test]
fn delay_timer_can_be_read_back() {
    let mut chip: Chip8 = machine(&[0x6009, 0xF015, 0xF107]);
    run(&mut chip, 3);
    assert_eq!(chip.dump_registers()[1], 8);
    assert_eq!(chip.dump_clock(), (7, 0));
}

#[test]
fn random_is_masked_and_follows_the_seed() {
    let mut chip: Chip8 = machine(&[0xC0FF, 0xC10F, 0xC200]);
    run(&mut chip, 3);
    let registers: [u8; 16] = chip.dump_registers();
    assert_eq!(registers[0], (8369988816609145748u64 % 256) as u8);
    assert_eq!(registers[1], (11208167223842483367u64 % 256) as u8 & 0x0F);
    assert_eq!(registers[2], 0);
}

#[test]
fn machines_with_one_seed_draw_the_same_numbers() {
    let mut first: Chip8 = Chip8::with_seed(program(&[0xC0FF, 0xC1FF]), 7);
    let mut second: Chip8 = Chip8::with_seed(program(&[0xC0FF, 0xC1FF]), 7);
    run(&mut first, 2);
    run(&mut second, 2);
    assert_eq!(first.dump_registers(), second.dump_registers());
}
