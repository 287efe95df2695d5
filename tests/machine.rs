use chip8_interpreter::{
    decode, split, Chip8, CycleError, Fault, Fields, Instruction, Keypad, RomTooLarge, RunState,
    MAX_ROM_LEN, PROGRAM_START,
};

fn with_sprite(i: u16, rows: &[u8]) -> Chip8 {
    let mut chip = Chip8::new();
    chip.i = i;
    for (k, row) in rows.iter().enumerate() {
        chip.memory[i as usize + k] = *row;
    }
    chip
}

#[test]
fn new_machine_holds_font_and_starts_at_program() {
    let chip = Chip8::new();
    assert_eq!(chip.pc, PROGRAM_START);
    assert_eq!(chip.i, 0);
    assert_eq!(chip.sp, 0);
    assert_eq!(&chip.memory[0..5], &[0xF0, 0x90, 0x90, 0x90, 0xF0]);
    assert_eq!(&chip.memory[75..80], &[0xF0, 0x80, 0xF0, 0x80, 0x80]);
    assert!(chip.memory[80..].iter().all(|b| *b == 0));
    assert_eq!(chip.frame, [[0; 64]; 32]);
    assert_eq!(chip.run_state, RunState::Running);
    assert_eq!(chip.keypad.get_key(), None);
}

#[test]
fn split_gives_every_field() {
    assert_eq!(
        split(0xD12F),
        Fields { op: 0xD, x: 0x1, y: 0x2, n: 0xF, nnn: 0x12F, kk: 0x2F }
    );
}

#[test]
fn decode_recognises_patterns() {
    assert_eq!(decode(0x00E0), Instruction::Cls);
    assert_eq!(decode(0x00EE), Instruction::Ret);
    assert_eq!(decode(0x2ABC), Instruction::Call(0xABC));
    assert_eq!(decode(0x8AB6), Instruction::ShrVx(0xA));
    assert_eq!(decode(0xD3A5), Instruction::Drw(3, 0xA, 5));
    assert_eq!(decode(0xF265), Instruction::LdVxI(2));
    assert_eq!(decode(0x5121), Instruction::Unknown(0x5121));
    assert_eq!(decode(0x0123), Instruction::Unknown(0x0123));
    assert_eq!(decode(0xE19F), Instruction::Unknown(0xE19F));
}

#[test]
fn unknown_opcode_advances_and_reports() {
    let mut chip = Chip8::new();
    assert_eq!(chip.run_op_code(0xFFFF), Err(Fault::UnknownOpcode));
    assert_eq!(chip.pc, 0x202);
}

#[test]
fn add_carry_for_all_operands() {
    for a in 0..=255u8 {
        for b in [0u8, 1, 0x7F, 0x80, 0xFF] {
            let mut chip = Chip8::new();
            chip.v[3] = a;
            chip.v[4] = b;
            chip.run_op_code(0x8344).unwrap();
            assert_eq!(chip.v[3], a.wrapping_add(b));
            assert_eq!(chip.v[0xF] == 1, a as u16 + b as u16 > 255);
        }
    }
}

#[test]
fn sub_and_subn_mirror() {
    let mut chip = Chip8::new();
    chip.v[1] = 5;
    chip.v[2] = 5;
    chip.run_op_code(0x8125).unwrap();
    assert_eq!(chip.v[1], 0);
    assert_eq!(chip.v[0xF], 1);

    chip.v[1] = 3;
    chip.v[2] = 10;
    chip.run_op_code(0x8127).unwrap();
    assert_eq!(chip.v[1], 7);
    assert_eq!(chip.v[0xF], 1);

    chip.v[1] = 10;
    chip.v[2] = 3;
    chip.run_op_code(0x8127).unwrap();
    assert_eq!(chip.v[1], 249);
    assert_eq!(chip.v[0xF], 0);
}

#[test]
fn shift_flag_is_pre_shift_bit_even_on_vf() {
    let mut chip = Chip8::new();
    chip.v[0xF] = 0b1000_0001;
    chip.run_op_code(0x8F06).unwrap();
    assert_eq!(chip.v[0xF], 1);

    chip.v[0xF] = 0b1000_0000;
    chip.run_op_code(0x8F0E).unwrap();
    assert_eq!(chip.v[0xF], 1);

    chip.v[3] = 0b0111_1111;
    chip.run_op_code(0x830E).unwrap();
    assert_eq!(chip.v[0xF], 0);
    assert_eq!(chip.v[3], 0b1111_1110);
}

#[test]
fn draw_twice_at_wrapped_position_restores_frame() {
    let mut chip = with_sprite(0x300, &[0xFF, 0x81, 0xFF]);
    chip.frame[31][60] = 1;
    chip.frame[0][0] = 1;
    let before = chip.frame;
    chip.v[1] = 60;
    chip.v[2] = 30;
    chip.run_op_code(0xD123).unwrap();
    assert_eq!(chip.v[0xF], 1);
    assert_eq!(chip.frame[30][60..64], [1, 1, 1, 1]);
    assert_eq!(chip.frame[30][0..4], [1, 1, 1, 1]);
    assert_eq!(chip.frame[31][60..64], [0, 0, 0, 0]);
    assert_eq!(chip.frame[0][60..64], [1, 1, 1, 1]);
    assert_eq!(chip.frame[0][0..4], [0, 1, 1, 1]);
    chip.run_op_code(0xD123).unwrap();
    assert_eq!(chip.frame, before);
    assert_eq!(chip.v[0xF], 1);
}

#[test]
fn draw_without_overlap_clears_flag() {
    let mut chip = with_sprite(0x300, &[0x80]);
    chip.v[0xF] = 1;
    chip.frame[0][1] = 1;
    chip.run_op_code(0xD001).unwrap();
    assert_eq!(chip.frame[0][0], 1);
    assert_eq!(chip.frame[0][1], 1);
    assert_eq!(chip.v[0xF], 0);
}

#[test]
fn redraw_sets_flag_and_erases_rows() {
    let mut chip = with_sprite(0x400, &[0b11101010, 0b10101100, 0b10101010, 0b11101001]);
    chip.v[0] = 2;
    chip.v[1] = 1;
    chip.run_op_code(0xD014).unwrap();
    assert_eq!(chip.frame[1][2..10], [1, 1, 1, 0, 1, 0, 1, 0]);
    assert_eq!(chip.v[0xF], 0);
    chip.run_op_code(0xD014).unwrap();
    assert_eq!(chip.v[0xF], 1);
    for row in 1..5 {
        assert_eq!(chip.frame[row], [0; 64]);
    }
}

#[test]
fn calls_then_returns_unwind_in_reverse() {
    let mut chip = Chip8::new();
    chip.run_op_code(0x2300).unwrap();
    chip.run_op_code(0x2400).unwrap();
    chip.run_op_code(0x2500).unwrap();
    assert_eq!(chip.pc, 0x500);
    assert_eq!(chip.sp, 3);
    chip.run_op_code(0x00EE).unwrap();
    assert_eq!(chip.pc, 0x400);
    chip.run_op_code(0x00EE).unwrap();
    assert_eq!(chip.pc, 0x300);
    chip.run_op_code(0x00EE).unwrap();
    assert_eq!(chip.pc, 0x200);
    assert_eq!(chip.sp, 0);
}

#[test]
fn call_on_full_stack_overflows() {
    let mut chip = Chip8::new();
    for _ in 0..16 {
        chip.run_op_code(0x2300).unwrap();
    }
    let pc = chip.pc;
    assert_eq!(chip.run_op_code(0x2300), Err(Fault::StackOverflow));
    assert_eq!(chip.sp, 16);
    assert_eq!(chip.pc, pc);
}

#[test]
fn return_on_empty_stack_underflows() {
    let mut chip = Chip8::new();
    assert_eq!(chip.run_op_code(0x00EE), Err(Fault::StackUnderflow));
    assert_eq!(chip.pc, 0x200);
    assert_eq!(chip.sp, 0);
}

#[test]
fn bcd_of_extremes() {
    let mut chip = Chip8::new();
    chip.i = 0x300;
    chip.v[4] = 255;
    chip.run_op_code(0xF433).unwrap();
    assert_eq!(&chip.memory[0x300..0x303], &[2, 5, 5]);
    chip.v[4] = 7;
    chip.run_op_code(0xF433).unwrap();
    assert_eq!(&chip.memory[0x300..0x303], &[0, 0, 7]);
}

#[test]
fn accesses_past_memory_end_fault() {
    let mut chip = Chip8::new();
    chip.i = 0xFFE;
    assert_eq!(chip.run_op_code(0xF033), Err(Fault::OutOfBoundsAccess));
    assert_eq!(chip.run_op_code(0xF255), Err(Fault::OutOfBoundsAccess));
    assert_eq!(chip.run_op_code(0xF265), Err(Fault::OutOfBoundsAccess));
    assert_eq!(chip.run_op_code(0xD013), Err(Fault::OutOfBoundsAccess));
    assert_eq!(chip.pc, 0x200);
    chip.run_op_code(0xF155).unwrap();
    chip.run_op_code(0xD012).unwrap();
    assert_eq!(chip.pc, 0x204);
}

#[test]
fn store_then_load_round_trip() {
    let mut chip = Chip8::new();
    chip.i = 0x600;
    for k in 0..16 {
        chip.v[k] = (k as u8) * 7 + 1;
    }
    let saved = chip.v;
    chip.run_op_code(0xFF55).unwrap();
    chip.v = [0; 16];
    chip.run_op_code(0xFF65).unwrap();
    assert_eq!(chip.v, saved);
}

#[test]
fn load_stops_at_register_x() {
    let mut chip = Chip8::new();
    chip.i = 0x600;
    chip.memory[0x600..0x604].copy_from_slice(&[9, 8, 7, 6]);
    chip.v[3] = 42;
    chip.run_op_code(0xF265).unwrap();
    assert_eq!(chip.v[0..4], [9, 8, 7, 42]);
}

#[test]
fn cls_changes_only_the_frame_and_pc() {
    let mut chip = Chip8::new();
    chip.frame = [[1; 64]; 32];
    chip.v[3] = 9;
    chip.i = 0x321;
    chip.dt = 4;
    let before_memory = chip.memory;
    chip.run_op_code(0x00E0).unwrap();
    assert_eq!(chip.frame, [[0; 64]; 32]);
    assert_eq!(chip.pc, 0x202);
    assert_eq!(chip.v[3], 9);
    assert_eq!(chip.i, 0x321);
    assert_eq!(chip.dt, 4);
    assert_eq!(chip.memory, before_memory);
}

#[test]
fn jump_with_offset_stops_at_last_address() {
    let mut chip = Chip8::new();
    chip.v[0] = 0x10;
    chip.run_op_code(0xBFF8).unwrap();
    assert_eq!(chip.pc, 0xFFF);
}

#[test]
fn index_add_stops_at_last_address() {
    let mut chip = Chip8::new();
    chip.i = 0xFFE;
    chip.v[2] = 5;
    chip.run_op_code(0xF21E).unwrap();
    assert_eq!(chip.i, 0xFFF);
}

#[test]
fn font_address_of_digit() {
    let mut chip = Chip8::new();
    chip.v[6] = 0xF;
    chip.run_op_code(0xF629).unwrap();
    assert_eq!(chip.i, 75);
}

#[test]
fn pc_stops_at_last_address() {
    let mut chip = Chip8::new();
    chip.pc = 0xFFE;
    chip.run_op_code(0x6000).unwrap();
    assert_eq!(chip.pc, 0xFFF);
}

#[test]
fn random_byte_is_masked() {
    let mut chip = Chip8::new();
    for _ in 0..32 {
        chip.run_op_code(0xC30F).unwrap();
        assert!(chip.v[3] <= 0x0F);
        chip.run_op_code(0xC300).unwrap();
        assert_eq!(chip.v[3], 0);
    }
}

#[test]
fn rom_is_copied_to_program_start() {
    let mut chip = Chip8::new();
    assert_eq!(chip.load_rom(&[0x12, 0x34, 0x56]), Ok(()));
    assert_eq!(&chip.memory[0x200..0x203], &[0x12, 0x34, 0x56]);
    assert_eq!(chip.memory[0x203], 0);
    let full = vec![0xAB; MAX_ROM_LEN];
    assert_eq!(chip.load_rom(&full), Ok(()));
    assert_eq!(chip.memory[0xFFF], 0xAB);
}

#[test]
fn oversized_rom_is_refused() {
    let mut chip = Chip8::new();
    let rom = vec![1u8; MAX_ROM_LEN + 1];
    assert_eq!(chip.load_rom(&rom), Err(RomTooLarge { len: 3585 }));
    assert_eq!(chip.memory[0x200], 0);
}

#[test]
fn cycle_fetches_big_endian_and_ticks_timers() {
    let mut chip = Chip8::new();
    chip.load_rom(&[0x61, 0x2A, 0x71, 0x01]).unwrap();
    chip.dt = 2;
    chip.st = 1;
    assert_eq!(chip.cycle(false, true, true), Ok(()));
    assert_eq!(chip.v[1], 0x2A);
    assert_eq!((chip.dt, chip.st), (1, 0));
    assert_eq!(chip.cycle(false, false, true), Ok(()));
    assert_eq!(chip.pc, 0x202);
    assert_eq!((chip.dt, chip.st), (0, 0));
    assert_eq!(chip.cycle(false, true, false), Ok(()));
    assert_eq!(chip.v[1], 0x2B);
}

#[test]
fn cycle_waits_for_key_then_resumes() {
    let mut chip = Chip8::new();
    chip.load_rom(&[0xF3, 0x0A, 0x60, 0x01]).unwrap();
    assert_eq!(chip.cycle(false, true, false), Ok(()));
    assert_eq!(chip.run_state, RunState::AwaitingKey(3));
    assert_eq!(chip.pc, 0x200);
    assert_eq!(chip.cycle(false, true, false), Ok(()));
    assert_eq!(chip.run_state, RunState::AwaitingKey(3));
    chip.keypad.down_key('v');
    assert_eq!(chip.cycle(false, true, false), Ok(()));
    assert_eq!(chip.run_state, RunState::Running);
    assert_eq!(chip.v[3], 0xF);
    assert_eq!(chip.pc, 0x202);
}

#[test]
fn quit_halts_for_good() {
    let mut chip = Chip8::new();
    chip.load_rom(&[0x60, 0x01]).unwrap();
    assert_eq!(chip.cycle(true, true, true), Ok(()));
    assert_eq!(chip.run_state, RunState::Halted);
    assert_eq!(chip.cycle(false, true, true), Ok(()));
    assert_eq!(chip.v[0], 0);
    assert_eq!(chip.pc, 0x200);
}

#[test]
fn cycle_reports_faults_with_context() {
    let mut chip = Chip8::new();
    chip.load_rom(&[0x51, 0x21, 0x00, 0xEE]).unwrap();
    assert_eq!(
        chip.cycle(false, true, false),
        Err(CycleError { fault: Fault::UnknownOpcode, pc: 0x200, opcode: Some(0x5121) })
    );
    assert_eq!(chip.run_state, RunState::Running);
    assert_eq!(
        chip.cycle(false, true, false),
        Err(CycleError { fault: Fault::StackUnderflow, pc: 0x202, opcode: Some(0x00EE) })
    );
    assert_eq!(chip.run_state, RunState::Halted);
    assert_eq!(chip.pc, 0x202);
}

#[test]
fn fetch_past_memory_end_halts() {
    let mut chip = Chip8::new();
    chip.pc = 0xFFF;
    assert_eq!(
        chip.cycle(false, true, false),
        Err(CycleError { fault: Fault::OutOfBoundsAccess, pc: 0xFFF, opcode: None })
    );
    assert_eq!(chip.run_state, RunState::Halted);
}

#[test]
fn keypad_maps_host_block() {
    let keypad = Keypad::new();
    let layout = [
        ('1', 0x1), ('2', 0x2), ('3', 0x3), ('4', 0xC),
        ('q', 0x4), ('w', 0x5), ('e', 0x6), ('r', 0xD),
        ('a', 0x7), ('s', 0x8), ('d', 0x9), ('f', 0xE),
        ('z', 0xA), ('x', 0x0), ('c', 0xB), ('v', 0xF),
    ];
    for (c, k) in layout {
        assert_eq!(keypad.get_key_value(c), Some(k));
    }
    assert_eq!(keypad.get_key_value('5'), None);
    assert_eq!(keypad.get_key_value('Q'), None);
}

#[test]
fn keypad_down_and_up() {
    let mut keypad = Keypad::new();
    assert!(!keypad.is_pressed(0));
    keypad.down_key('x');
    assert!(keypad.is_pressed(0));
    assert_eq!(keypad.get_key(), Some(0));
    keypad.down_key('p');
    assert_eq!(keypad.get_key(), None);
    keypad.down_key('c');
    keypad.up_key();
    assert_eq!(keypad.get_key(), None);
    assert!(!keypad.is_pressed(0xB));
}
