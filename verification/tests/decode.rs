use chip8::{decode, AluOp, Instruction};

#[test]
fn decodes_clear_and_return() {
    assert_eq!(decode(0x00E0), Some(Instruction::ClearScreen));
    assert_eq!(decode(0x00EE), Some(Instruction::Return));
}

#[test]
fn decodes_address_families() {
    assert_eq!(decode(0x1ABC), Some(Instruction::Jump { addr: 0xABC }));
    assert_eq!(decode(0x2300), Some(Instruction::Call { addr: 0x300 }));
    assert_eq!(decode(0xA123), Some(Instruction::LoadIndex { addr: 0x123 }));
    assert_eq!(decode(0xBFFF), Some(Instruction::JumpOffset { addr: 0xFFF }));
}

#[test]
fn decodes_register_and_byte_families() {
    assert_eq!(decode(0x3A12), Some(Instruction::SkipEqImm { x: 0xA, nn: 0x12 }));
    assert_eq!(decode(0x4B34), Some(Instruction::SkipNeImm { x: 0xB, nn: 0x34 }));
    assert_eq!(decode(0x6A12), Some(Instruction::LoadImm { x: 0xA, nn: 0x12 }));
    assert_eq!(decode(0x7AFF), Some(Instruction::AddImm { x: 0xA, nn: 0xFF }));
    assert_eq!(decode(0xC70F), Some(Instruction::Random { x: 0x7, nn: 0x0F }));
}

#[test]
fn decodes_two_register_families() {
    assert_eq!(decode(0x5AB0), Some(Instruction::SkipEqReg { x: 0xA, y: 0xB }));
    assert_eq!(decode(0x9CD0), Some(Instruction::SkipNeReg { x: 0xC, y: 0xD }));
    assert_eq!(decode(0xD125), Some(Instruction::Draw { x: 1, y: 2, n: 5 }));
}

#[test]
fn decodes_every_alu_operation() {
    let expected = [
        (0x8120, AluOp::Assign),
        (0x8121, AluOp::Or),
        (0x8122, AluOp::And),
        (0x8123, AluOp::Xor),
        (0x8124, AluOp::Add),
        (0x8125, AluOp::Sub),
        (0x8126, AluOp::ShiftRight),
        (0x8127, AluOp::SubReverse),
        (0x812E, AluOp::ShiftLeft),
    ];
    for (word, op) in expected {
        assert_eq!(decode(word), Some(Instruction::Alu { op, x: 1, y: 2 }));
    }
}

#[test]
fn decodes_key_and_misc_families() {
    assert_eq!(decode(0xE39E), Some(Instruction::SkipKeyDown { x: 3 }));
    assert_eq!(decode(0xE3A1), Some(Instruction::SkipKeyUp { x: 3 }));
    assert_eq!(decode(0xF407), Some(Instruction::ReadDelay { x: 4 }));
    assert_eq!(decode(0xF40A), Some(Instruction::WaitKey { x: 4 }));
    assert_eq!(decode(0xF415), Some(Instruction::SetDelay { x: 4 }));
    assert_eq!(decode(0xF418), Some(Instruction::SetSound { x: 4 }));
    assert_eq!(decode(0xF41E), Some(Instruction::AddIndex { x: 4 }));
    assert_eq!(decode(0xF429), Some(Instruction::FontAddr { x: 4 }));
    assert_eq!(decode(0xF433), Some(Instruction::StoreBcd { x: 4 }));
    assert_eq!(decode(0xF455), Some(Instruction::StoreRegs { x: 4 }));
    assert_eq!(decode(0xF465), Some(Instruction::LoadRegs { x: 4 }));
}

#[test]
fn rejects_words_outside_every_pattern() {
    for word in [
        0x0000u16, 0x0FFF, 0x00E1, 0x00EF, 0x5AB1, 0x5ABF, 0x8AB8, 0x8AB9, 0x8ABA, 0x8ABB, 0x8ABC,
        0x8ABD, 0x8ABF, 0x9AB1, 0xE000, 0xE19F, 0xE1A0, 0xF000, 0xF108, 0xF1FF, 0xF164,
    ] {
        assert_eq!(decode(word), None, "word {:04X}", word);
    }
}

fn encode(instr: Instruction) -> u16 {
    let xy = |x: u8, y: u8| ((x as u16) << 8) | ((y as u16) << 4);
    match instr {
        Instruction::ClearScreen => 0x00E0,
        Instruction::Return => 0x00EE,
        Instruction::Jump { addr } => 0x1000 | addr,
        Instruction::Call { addr } => 0x2000 | addr,
        Instruction::SkipEqImm { x, nn } => 0x3000 | xy(x, 0) | nn as u16,
        Instruction::SkipNeImm { x, nn } => 0x4000 | xy(x, 0) | nn as u16,
        Instruction::SkipEqReg { x, y } => 0x5000 | xy(x, y),
        Instruction::LoadImm { x, nn } => 0x6000 | xy(x, 0) | nn as u16,
        Instruction::AddImm { x, nn } => 0x7000 | xy(x, 0) | nn as u16,
        Instruction::Alu { op, x, y } => {
            let code = match op {
                AluOp::Assign => 0x0,
                AluOp::Or => 0x1,
                AluOp::And => 0x2,
                AluOp::Xor => 0x3,
                AluOp::Add => 0x4,
                AluOp::Sub => 0x5,
                AluOp::ShiftRight => 0x6,
                AluOp::SubReverse => 0x7,
                AluOp::ShiftLeft => 0xE,
            };
            0x8000 | xy(x, y) | code
        }
        Instruction::SkipNeReg { x, y } => 0x9000 | xy(x, y),
        Instruction::LoadIndex { addr } => 0xA000 | addr,
        Instruction::JumpOffset { addr } => 0xB000 | addr,
        Instruction::Random { x, nn } => 0xC000 | xy(x, 0) | nn as u16,
        Instruction::Draw { x, y, n } => 0xD000 | xy(x, y) | n as u16,
        Instruction::SkipKeyDown { x } => 0xE09E | xy(x, 0),
        Instruction::SkipKeyUp { x } => 0xE0A1 | xy(x, 0),
        Instruction::ReadDelay { x } => 0xF007 | xy(x, 0),
        Instruction::WaitKey { x } => 0xF00A | xy(x, 0),
        Instruction::SetDelay { x } => 0xF015 | xy(x, 0),
        Instruction::SetSound { x } => 0xF018 | xy(x, 0),
        Instruction::AddIndex { x } => 0xF01E | xy(x, 0),
        Instruction::FontAddr { x } => 0xF029 | xy(x, 0),
        Instruction::StoreBcd { x } => 0xF033 | xy(x, 0),
        Instruction::StoreRegs { x } => 0xF055 | xy(x, 0),
        Instruction::LoadRegs { x } => 0xF065 | xy(x, 0),
    }
}

#[test]
fn every_word_that_decodes_encodes_back_to_itself() {
    let mut valid: u32 = 0;
    for word in 0..=0xFFFFu16 {
        if let Some(instr) = decode(word) {
            assert_eq!(encode(instr), word);
            valid += 1;
        }
    }
    // 2 in family 0, 4096 in each of the ten families that take any operand,
    // 256 in 5XY0 and 9XY0, 9 * 256 in 8XY_, 2 * 16 in EX__ and 9 * 16 in FX__.
    assert_eq!(valid, 2 + 10 * 4096 + 2 * 256 + 9 * 256 + 2 * 16 + 9 * 16);
}
