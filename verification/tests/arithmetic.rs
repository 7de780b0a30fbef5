use chip8::{alu, bcd_digits, AluOp, Chip8, Chip8Error, Instruction, StepOutcome};

fn machine_with(program: &[u8]) -> Chip8 {
    let mut chip = Chip8::new();
    assert_eq!(chip.load_rom(program), Ok(()));
    chip
}

#[test]
fn load_then_add_immediate() {
    let mut chip = machine_with(&[0x6A, 0x12, 0x7A, 0x01]);
    assert_eq!(
        chip.step(0),
        Ok(StepOutcome::Executed(Instruction::LoadImm { x: 10, nn: 0x12 }))
    );
    assert_eq!(chip.v[10], 0x12);
    assert_eq!(
        chip.step(0),
        Ok(StepOutcome::Executed(Instruction::AddImm { x: 10, nn: 0x01 }))
    );
    assert_eq!(chip.v[10], 0x13);
    assert_eq!(chip.pc, 0x204);
}

#[test]
fn add_immediate_wraps_and_leaves_flag() {
    for flag in [0u8, 1, 0x5A] {
        let mut chip = machine_with(&[0x7A, 0xFF, 0x7A, 0x01]);
        chip.v[15] = flag;
        chip.step(0).unwrap();
        assert_eq!(chip.v[10], 0xFF);
        chip.step(0).unwrap();
        assert_eq!(chip.v[10], 0x00);
        assert_eq!(chip.v[15], flag);
    }
}

#[test]
fn add_with_carry() {
    let mut chip = machine_with(&[0x81, 0x24]);
    chip.v[1] = 0xFF;
    chip.v[2] = 0x01;
    chip.step(0).unwrap();
    assert_eq!(chip.v[1], 0x00);
    assert_eq!(chip.v[15], 1);

    let mut chip = machine_with(&[0x81, 0x24]);
    chip.v[1] = 0x01;
    chip.v[2] = 0x01;
    chip.v[15] = 1;
    chip.step(0).unwrap();
    assert_eq!(chip.v[1], 0x02);
    assert_eq!(chip.v[15], 0);
}

#[test]
fn subtract_sets_flag_when_vx_is_greater() {
    let mut chip = machine_with(&[0x81, 0x25]);
    chip.v[1] = 0x05;
    chip.v[2] = 0x03;
    chip.step(0).unwrap();
    assert_eq!(chip.v[1], 0x02);
    assert_eq!(chip.v[15], 1);

    let mut chip = machine_with(&[0x81, 0x25]);
    chip.v[1] = 0x03;
    chip.v[2] = 0x05;
    chip.v[15] = 1;
    chip.step(0).unwrap();
    assert_eq!(chip.v[1], 0xFE);
    assert_eq!(chip.v[15], 0);
}

#[test]
fn subtract_of_equal_values_clears_flag() {
    let mut chip = machine_with(&[0x81, 0x25]);
    chip.v[1] = 0x07;
    chip.v[2] = 0x07;
    chip.v[15] = 1;
    chip.step(0).unwrap();
    assert_eq!(chip.v[1], 0x00);
    assert_eq!(chip.v[15], 0);
}

#[test]
fn reverse_subtract_writes_vx() {
    let mut chip = machine_with(&[0x81, 0x27]);
    chip.v[1] = 0x03;
    chip.v[2] = 0x05;
    chip.step(0).unwrap();
    assert_eq!(chip.v[1], 0x02);
    assert_eq!(chip.v[2], 0x05);
    assert_eq!(chip.v[15], 1);

    let mut chip = machine_with(&[0x81, 0x27]);
    chip.v[1] = 0x05;
    chip.v[2] = 0x03;
    chip.v[15] = 1;
    chip.step(0).unwrap();
    assert_eq!(chip.v[1], 0xFE);
    assert_eq!(chip.v[2], 0x03);
    assert_eq!(chip.v[15], 0);
}

#[test]
fn shifts_report_the_bit_shifted_out() {
    let mut chip = machine_with(&[0x81, 0x26]);
    chip.v[1] = 0b0000_0101;
    chip.step(0).unwrap();
    assert_eq!(chip.v[1], 0b0000_0010);
    assert_eq!(chip.v[15], 1);

    let mut chip = machine_with(&[0x81, 0x26]);
    chip.v[1] = 0b1000_0100;
    chip.v[15] = 1;
    chip.step(0).unwrap();
    assert_eq!(chip.v[1], 0b0100_0010);
    assert_eq!(chip.v[15], 0);

    let mut chip = machine_with(&[0x81, 0x2E]);
    chip.v[1] = 0b1000_0001;
    chip.step(0).unwrap();
    assert_eq!(chip.v[1], 0b0000_0010);
    assert_eq!(chip.v[15], 1);

    let mut chip = machine_with(&[0x81, 0x2E]);
    chip.v[1] = 0b0100_0001;
    chip.v[15] = 1;
    chip.step(0).unwrap();
    assert_eq!(chip.v[1], 0b1000_0010);
    assert_eq!(chip.v[15], 0);
}

#[test]
fn flag_comes_from_the_operands_when_vx_is_vf() {
    // 8F14: VF = VF + V1 with carry; the flag wins over the sum.
    let mut chip = machine_with(&[0x8F, 0x14]);
    chip.v[15] = 0xFF;
    chip.v[1] = 0x02;
    chip.step(0).unwrap();
    assert_eq!(chip.v[15], 1);

    let mut chip = machine_with(&[0x8F, 0x14]);
    chip.v[15] = 0x03;
    chip.v[1] = 0x02;
    chip.step(0).unwrap();
    assert_eq!(chip.v[15], 0);

    // 8F15: VF = VF - V1; VF > V1 before the subtraction.
    let mut chip = machine_with(&[0x8F, 0x15]);
    chip.v[15] = 0x09;
    chip.v[1] = 0x02;
    chip.step(0).unwrap();
    assert_eq!(chip.v[15], 1);

    // 81F4: V1 = V1 + VF uses VF as it was before the flag is written.
    let mut chip = machine_with(&[0x81, 0xF4]);
    chip.v[1] = 0x10;
    chip.v[15] = 0x20;
    chip.step(0).unwrap();
    assert_eq!(chip.v[1], 0x30);
    assert_eq!(chip.v[15], 0);

    // 8F16: the bit shifted out of VF.
    let mut chip = machine_with(&[0x8F, 0x16]);
    chip.v[15] = 0b0000_0110;
    chip.step(0).unwrap();
    assert_eq!(chip.v[15], 0);
}

#[test]
fn logic_operations_leave_flag() {
    let cases = [(0x21u8, 0xF0u8 | 0x3C), (0x22, 0xF0 & 0x3C), (0x23, 0xF0 ^ 0x3C), (0x20, 0x3C)];
    for (low, expected) in cases {
        let mut chip = machine_with(&[0x81, low]);
        chip.v[1] = 0xF0;
        chip.v[2] = 0x3C;
        chip.v[15] = 0x77;
        chip.step(0).unwrap();
        assert_eq!(chip.v[1], expected);
        assert_eq!(chip.v[2], 0x3C);
        assert_eq!(chip.v[15], 0x77);
    }
}

#[test]
fn alu_matches_wide_arithmetic_on_every_pair() {
    for vx in 0..=255u8 {
        for vy in 0..=255u8 {
            let sum = vx as u16 + vy as u16;
            assert_eq!(alu(AluOp::Add, vx, vy), ((sum & 0xFF) as u8, Some((sum > 0xFF) as u8)));
            let diff = (vx as i16 - vy as i16).rem_euclid(256) as u8;
            assert_eq!(alu(AluOp::Sub, vx, vy), (diff, Some((vx > vy) as u8)));
            let rev = (vy as i16 - vx as i16).rem_euclid(256) as u8;
            assert_eq!(alu(AluOp::SubReverse, vx, vy), (rev, Some((vy > vx) as u8)));
            assert_eq!(alu(AluOp::ShiftRight, vx, vy), (vx / 2, Some(vx % 2)));
            assert_eq!(
                alu(AluOp::ShiftLeft, vx, vy),
                (((vx as u16 * 2) % 256) as u8, Some(vx / 128))
            );
            assert_eq!(alu(AluOp::Assign, vx, vy), (vy, None));
            assert_eq!(alu(AluOp::Or, vx, vy), (vx | vy, None));
            assert_eq!(alu(AluOp::And, vx, vy), (vx & vy, None));
            assert_eq!(alu(AluOp::Xor, vx, vy), (vx ^ vy, None));
        }
    }
}

#[test]
fn bcd_digits_of_every_byte() {
    assert_eq!(bcd_digits(0), (0, 0, 0));
    assert_eq!(bcd_digits(7), (0, 0, 7));
    assert_eq!(bcd_digits(42), (0, 4, 2));
    assert_eq!(bcd_digits(254), (2, 5, 4));
    assert_eq!(bcd_digits(255), (2, 5, 5));
    for value in 0..=255u8 {
        let (h, t, o) = bcd_digits(value);
        assert!(h <= 2 && t <= 9 && o <= 9);
        assert_eq!(100 * h as u16 + 10 * t as u16 + o as u16, value as u16);
    }
}

#[test]
fn store_bcd_writes_three_digits() {
    let mut chip = machine_with(&[0xF3, 0x33]);
    chip.v[3] = 254;
    chip.i = 0x300;
    chip.step(0).unwrap();
    assert_eq!(&chip.memory[0x300..0x303], &[2, 5, 4]);
    assert_eq!(chip.i, 0x300);
    assert_eq!(chip.pc, 0x202);
}

#[test]
fn store_bcd_at_the_end_of_memory() {
    let mut chip = machine_with(&[0xF3, 0x33]);
    chip.v[3] = 123;
    chip.i = 4093;
    chip.step(0).unwrap();
    assert_eq!(&chip.memory[4093..4096], &[1, 2, 3]);

    let mut chip = machine_with(&[0xF3, 0x33]);
    chip.v[3] = 123;
    chip.i = 4094;
    let before = chip.memory;
    assert_eq!(chip.step(0), Err(Chip8Error::MemoryOutOfRange));
    assert_eq!(chip.memory, before);
    assert_eq!(chip.pc, 0x200);
}

#[test]
fn random_is_masked_by_the_immediate() {
    let mut chip = machine_with(&[0xC5, 0x0F]);
    assert_eq!(
        chip.step(0xA7),
        Ok(StepOutcome::Executed(Instruction::Random { x: 5, nn: 0x0F }))
    );
    assert_eq!(chip.v[5], 0x07);
    assert_eq!(chip.pc, 0x202);

    let mut chip = machine_with(&[0xC5, 0xFF]);
    chip.step(0xA7).unwrap();
    assert_eq!(chip.v[5], 0xA7);
}

#[test]
fn emulate_cycle_masks_the_byte_it_draws() {
    let mut seen = [false; 16];
    for _ in 0..2000 {
        let mut chip = machine_with(&[0xC5, 0x0F]);
        chip.v[5] = 0xFF;
        assert_eq!(
            chip.emulate_cycle(),
            Ok(StepOutcome::Executed(Instruction::Random { x: 5, nn: 0x0F }))
        );
        assert!(chip.v[5] <= 0x0F);
        assert_eq!(chip.pc, 0x202);
        seen[chip.v[5] as usize] = true;
    }
    // 2000 draws of sixteen values: more than one value turns up.
    assert!(seen.iter().filter(|s| **s).count() > 1);
}

#[test]
fn emulate_cycle_is_step_where_no_byte_is_drawn() {
    let program = [0x6A, 0x12, 0x7A, 0x01, 0x8A, 0xA4, 0x00, 0x00];
    let mut by_cycle = machine_with(&program);
    let mut by_step = machine_with(&program);
    for _ in 0..4 {
        assert_eq!(by_cycle.emulate_cycle(), by_step.step(0));
        assert_eq!(by_cycle.v, by_step.v);
        assert_eq!(by_cycle.pc, by_step.pc);
    }
    assert_eq!(by_cycle.v[10], 0x26);
}
