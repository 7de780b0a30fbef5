use chip8::{Chip8, Chip8Error, Instruction, StepOutcome};

fn machine_with(program: &[u8]) -> Chip8 {
    let mut chip = Chip8::new();
    assert_eq!(chip.load_rom(program), Ok(()));
    chip
}

#[test]
fn jump_sets_the_program_counter() {
    let mut chip = machine_with(&[0x1A, 0xBC]);
    assert_eq!(chip.step(0), Ok(StepOutcome::Executed(Instruction::Jump { addr: 0xABC })));
    assert_eq!(chip.pc, 0xABC);
}

#[test]
fn jump_with_offset_adds_v0() {
    let mut chip = machine_with(&[0xB3, 0x00]);
    chip.v[0] = 0x10;
    chip.step(0).unwrap();
    assert_eq!(chip.pc, 0x310);

    let mut chip = machine_with(&[0xBF, 0xFF]);
    chip.v[0] = 0xFF;
    chip.step(0).unwrap();
    assert_eq!(chip.pc, 0x10FE);
    assert_eq!(chip.step(0), Err(Chip8Error::PcOutOfRange));
}

#[test]
fn call_then_return_round_trip() {
    let mut chip = Chip8::new();
    let mut program = vec![0u8; 0x102];
    program[0] = 0x23;
    program[1] = 0x00;
    program[0x100] = 0x00;
    program[0x101] = 0xEE;
    chip.load_rom(&program).unwrap();
    assert_eq!(chip.sp, 0);
    assert_eq!(chip.step(0), Ok(StepOutcome::Executed(Instruction::Call { addr: 0x300 })));
    assert_eq!(chip.pc, 0x300);
    assert_eq!(chip.sp, 1);
    assert_eq!(chip.stack[0], 0x202);
    assert_eq!(chip.step(0), Ok(StepOutcome::Executed(Instruction::Return)));
    assert_eq!(chip.pc, 0x202);
    assert_eq!(chip.sp, 0);
}

#[test]
fn nested_calls_return_in_reverse_order() {
    let mut chip = Chip8::new();
    let mut program = vec![0u8; 0x204];
    // 0x200: call 0x300; 0x300: call 0x400; 0x400: return; 0x302: return.
    program[0x000..0x002].copy_from_slice(&[0x23, 0x00]);
    program[0x100..0x102].copy_from_slice(&[0x24, 0x00]);
    program[0x102..0x104].copy_from_slice(&[0x00, 0xEE]);
    program[0x200..0x202].copy_from_slice(&[0x00, 0xEE]);
    chip.load_rom(&program).unwrap();
    chip.step(0).unwrap();
    chip.step(0).unwrap();
    assert_eq!((chip.pc, chip.sp), (0x400, 2));
    chip.step(0).unwrap();
    assert_eq!((chip.pc, chip.sp), (0x302, 1));
    chip.step(0).unwrap();
    assert_eq!((chip.pc, chip.sp), (0x202, 0));
}

#[test]
fn sixteen_calls_fit_and_the_next_overflows() {
    // 0x200: call 0x200, for ever.
    let mut chip = machine_with(&[0x22, 0x00]);
    for depth in 1..=16u8 {
        assert_eq!(chip.step(0), Ok(StepOutcome::Executed(Instruction::Call { addr: 0x200 })));
        assert_eq!(chip.sp, depth);
    }
    let stack = chip.stack;
    assert_eq!(chip.step(0), Err(Chip8Error::StackOverflow));
    assert_eq!(chip.sp, 16);
    assert_eq!(chip.pc, 0x200);
    assert_eq!(chip.stack, stack);
    assert_eq!(stack, [0x202; 16]);
}

#[test]
fn return_with_empty_stack_underflows() {
    let mut chip = machine_with(&[0x00, 0xEE]);
    chip.stack[0] = 0x456;
    assert_eq!(chip.step(0), Err(Chip8Error::StackUnderflow));
    assert_eq!(chip.sp, 0);
    assert_eq!(chip.pc, 0x200);
}

#[test]
fn skip_if_equal_to_immediate() {
    let mut chip = machine_with(&[0x3A, 0x12]);
    chip.v[10] = 0x12;
    chip.step(0).unwrap();
    assert_eq!(chip.pc, 0x204);

    let mut chip = machine_with(&[0x3A, 0x12]);
    chip.v[10] = 0x13;
    chip.step(0).unwrap();
    assert_eq!(chip.pc, 0x202);
}

#[test]
fn skip_if_not_equal_to_immediate() {
    let mut chip = machine_with(&[0x4A, 0x12]);
    chip.v[10] = 0x13;
    chip.step(0).unwrap();
    assert_eq!(chip.pc, 0x204);

    let mut chip = machine_with(&[0x4A, 0x12]);
    chip.v[10] = 0x12;
    chip.step(0).unwrap();
    assert_eq!(chip.pc, 0x202);
}

#[test]
fn skip_on_register_comparison() {
    for (word, equal_skips) in [([0x51u8, 0x20u8], true), ([0x91, 0x20], false)] {
        let mut chip = machine_with(&word);
        chip.v[1] = 7;
        chip.v[2] = 7;
        chip.step(0).unwrap();
        assert_eq!(chip.pc, if equal_skips { 0x204 } else { 0x202 });

        let mut chip = machine_with(&word);
        chip.v[1] = 7;
        chip.v[2] = 8;
        chip.step(0).unwrap();
        assert_eq!(chip.pc, if equal_skips { 0x202 } else { 0x204 });
    }
}

#[test]
fn invalid_opcode_only_moves_the_program_counter() {
    for word in [[0x0Fu8, 0xFFu8], [0x5A, 0xB1], [0x8A, 0xB8], [0x9A, 0xB1], [0xE1, 0x00], [0xF1, 0xFF]] {
        let mut chip = machine_with(&word);
        chip.v = [1, 2, 3, 4, 5, 6, 7, 8, 9, 10, 11, 12, 13, 14, 15, 16];
        chip.i = 0x345;
        chip.dt = 9;
        chip.st = 8;
        chip.display[3][4] = true;
        chip.keyboard[2] = true;
        let (memory, v, display, stack) = (chip.memory, chip.v, chip.display, chip.stack);
        let opcode = (word[0] as u16) << 8 | word[1] as u16;
        assert_eq!(chip.step(0), Ok(StepOutcome::InvalidOpcode(opcode)));
        assert_eq!(chip.pc, 0x202);
        assert_eq!(chip.memory, memory);
        assert_eq!(chip.v, v);
        assert_eq!(chip.display, display);
        assert_eq!(chip.stack, stack);
        assert_eq!((chip.i, chip.dt, chip.st, chip.sp), (0x345, 9, 8, 0));
        assert!(chip.key_wait.is_none());
    }
}

#[test]
fn fetch_past_the_end_of_memory_fails() {
    let mut chip = Chip8::new();
    chip.pc = 4095;
    assert_eq!(chip.fetch(), None);
    assert_eq!(chip.step(0), Err(Chip8Error::PcOutOfRange));
    assert_eq!(chip.pc, 4095);

    chip.pc = 4094;
    chip.memory[4094] = 0x12;
    chip.memory[4095] = 0x34;
    assert_eq!(chip.fetch(), Some(0x1234));
    assert_eq!(chip.step(0), Ok(StepOutcome::Executed(Instruction::Jump { addr: 0x234 })));
}

#[test]
fn fetch_reads_big_endian() {
    let chip = machine_with(&[0xAB, 0xCD]);
    assert_eq!(chip.fetch(), Some(0xABCD));
}

#[test]
fn execute_runs_a_decoded_instruction() {
    let mut chip = machine_with(&[]);
    assert_eq!(chip.execute(Instruction::LoadImm { x: 3, nn: 0x44 }, 0), Ok(()));
    assert_eq!(chip.v[3], 0x44);
    assert_eq!(chip.pc, 0x202);
    assert_eq!(chip.execute(Instruction::Return, 0), Err(Chip8Error::StackUnderflow));
    assert_eq!(chip.pc, 0x202);
}
