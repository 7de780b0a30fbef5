//! The instruction set: one variant per opcode family, with its operands
//! extracted from the 16-bit instruction word.

use vstd::prelude::*;

verus! {

/// The register-to-register operations of the `8XY_` family.
#[derive(Clone, Copy, Debug, PartialEq, Eq, Structural)]
pub enum AluOp {
    /// `8XY0`: VX = VY.
    Assign,
    /// `8XY1`: VX = VX OR VY.
    Or,
    /// `8XY2`: VX = VX AND VY.
    And,
    /// `8XY3`: VX = VX XOR VY.
    Xor,
    /// `8XY4`: VX = VX + VY, VF = carry.
    Add,
    /// `8XY5`: VX = VX - VY, VF = 1 iff VX > VY.
    Sub,
    /// `8XY6`: VX = VX >> 1, VF = the bit shifted out.
    ShiftRight,
    /// `8XY7`: VX = VY - VX, VF = 1 iff VY > VX.
    SubReverse,
    /// `8XYE`: VX = VX << 1, VF = the bit shifted out.
    ShiftLeft,
}

/// A decoded instruction. `x` and `y` are register indices, `n` a nibble,
/// `nn` a byte and `addr` a 12-bit address.
#[derive(Clone, Copy, Debug, PartialEq, Eq, Structural)]
pub enum Instruction {
    /// `00E0`: clear the display.
    ClearScreen,
    /// `00EE`: return from a subroutine.
    Return,
    /// `1NNN`: jump to `addr`.
    Jump { addr: u16 },
    /// `2NNN`: call the subroutine at `addr`.
    Call { addr: u16 },
    /// `3XNN`: skip the next instruction if VX == NN.
    SkipEqImm { x: u8, nn: u8 },
    /// `4XNN`: skip the next instruction if VX != NN.
    SkipNeImm { x: u8, nn: u8 },
    /// `5XY0`: skip the next instruction if VX == VY.
    SkipEqReg { x: u8, y: u8 },
    /// `6XNN`: VX = NN.
    LoadImm { x: u8, nn: u8 },
    /// `7XNN`: VX = VX + NN, wrapping, flag untouched.
    AddImm { x: u8, nn: u8 },
    /// `8XY_`: register-to-register arithmetic and logic.
    Alu { op: AluOp, x: u8, y: u8 },
    /// `9XY0`: skip the next instruction if VX != VY.
    SkipNeReg { x: u8, y: u8 },
    /// `ANNN`: I = NNN.
    LoadIndex { addr: u16 },
    /// `BNNN`: jump to NNN + V0.
    JumpOffset { addr: u16 },
    /// `CXNN`: VX = random byte AND NN.
    Random { x: u8, nn: u8 },
    /// `DXYN`: draw an N-row sprite at (VX, VY).
    Draw { x: u8, y: u8, n: u8 },
    /// `EX9E`: skip the next instruction if key VX is down.
    SkipKeyDown { x: u8 },
    /// `EXA1`: skip the next instruction if key VX is up.
    SkipKeyUp { x: u8 },
    /// `FX07`: VX = delay timer.
    ReadDelay { x: u8 },
    /// `FX0A`: wait for a key press and store the key in VX.
    WaitKey { x: u8 },
    /// `FX15`: delay timer = VX.
    SetDelay { x: u8 },
    /// `FX18`: sound timer = VX.
    SetSound { x: u8 },
    /// `FX1E`: I = I + VX.
    AddIndex { x: u8 },
    /// `FX29`: I = address of the glyph for VX.
    FontAddr { x: u8 },
    /// `FX33`: store the three decimal digits of VX at I, I+1, I+2.
    StoreBcd { x: u8 },
    /// `FX55`: store V0..=VX at I.
    StoreRegs { x: u8 },
    /// `FX65`: load V0..=VX from I.
    LoadRegs { x: u8 },
}

impl AluOp {
    /// The low nibble that selects this operation in an `8XY_` word.
    pub open spec fn code(self) -> int {
        match self {
            AluOp::Assign => 0x0,
            AluOp::Or => 0x1,
            AluOp::And => 0x2,
            AluOp::Xor => 0x3,
            AluOp::Add => 0x4,
            AluOp::Sub => 0x5,
            AluOp::ShiftRight => 0x6,
            AluOp::SubReverse => 0x7,
            AluOp::ShiftLeft => 0xE,
        }
    }

    /// The operation that a low nibble selects, if any.
    pub open spec fn from_code(n: int) -> Option<AluOp> {
        if n == 0x0 {
            Some(AluOp::Assign)
        } else if n == 0x1 {
            Some(AluOp::Or)
        } else if n == 0x2 {
            Some(AluOp::And)
        } else if n == 0x3 {
            Some(AluOp::Xor)
        } else if n == 0x4 {
            Some(AluOp::Add)
        } else if n == 0x5 {
            Some(AluOp::Sub)
        } else if n == 0x6 {
            Some(AluOp::ShiftRight)
        } else if n == 0x7 {
            Some(AluOp::SubReverse)
        } else if n == 0xE {
            Some(AluOp::ShiftLeft)
        } else {
            None
        }
    }
}

impl Instruction {
    /// Every operand lies in the range its field of the word can hold:
    /// register indices and nibbles below 16, addresses below 4096.
    pub open spec fn wf(self) -> bool {
        match self {
            Instruction::ClearScreen | Instruction::Return => true,
            Instruction::Jump { addr }
            | Instruction::Call { addr }
            | Instruction::LoadIndex { addr }
            | Instruction::JumpOffset { addr } => addr < 0x1000,
            Instruction::SkipEqImm { x, .. }
            | Instruction::SkipNeImm { x, .. }
            | Instruction::LoadImm { x, .. }
            | Instruction::AddImm { x, .. }
            | Instruction::Random { x, .. } => x < 16,
            Instruction::SkipEqReg { x, y }
            | Instruction::SkipNeReg { x, y }
            | Instruction::Alu { x, y, .. } => x < 16 && y < 16,
            Instruction::Draw { x, y, n } => x < 16 && y < 16 && n < 16,
            Instruction::SkipKeyDown { x }
            | Instruction::SkipKeyUp { x }
            | Instruction::ReadDelay { x }
            | Instruction::WaitKey { x }
            | Instruction::SetDelay { x }
            | Instruction::SetSound { x }
            | Instruction::AddIndex { x }
            | Instruction::FontAddr { x }
            | Instruction::StoreBcd { x }
            | Instruction::StoreRegs { x }
            | Instruction::LoadRegs { x } => x < 16,
        }
    }

    /// The instruction word that stands for this instruction.
    pub open spec fn encode(self) -> int {
        match self {
            Instruction::ClearScreen => 0x00E0,
            Instruction::Return => 0x00EE,
            Instruction::Jump { addr } => 0x1000 + addr,
            Instruction::Call { addr } => 0x2000 + addr,
            Instruction::SkipEqImm { x, nn } => 0x3000 + 0x100 * x + nn,
            Instruction::SkipNeImm { x, nn } => 0x4000 + 0x100 * x + nn,
            Instruction::SkipEqReg { x, y } => 0x5000 + 0x100 * x + 0x10 * y,
            Instruction::LoadImm { x, nn } => 0x6000 + 0x100 * x + nn,
            Instruction::AddImm { x, nn } => 0x7000 + 0x100 * x + nn,
            Instruction::Alu { op, x, y } => 0x8000 + 0x100 * x + 0x10 * y + op.code(),
            Instruction::SkipNeReg { x, y } => 0x9000 + 0x100 * x + 0x10 * y,
            Instruction::LoadIndex { addr } => 0xA000 + addr,
            Instruction::JumpOffset { addr } => 0xB000 + addr,
            Instruction::Random { x, nn } => 0xC000 + 0x100 * x + nn,
            Instruction::Draw { x, y, n } => 0xD000 + 0x100 * x + 0x10 * y + n,
            Instruction::SkipKeyDown { x } => 0xE09E + 0x100 * x,
            Instruction::SkipKeyUp { x } => 0xE0A1 + 0x100 * x,
            Instruction::ReadDelay { x } => 0xF007 + 0x100 * x,
            Instruction::WaitKey { x } => 0xF00A + 0x100 * x,
            Instruction::SetDelay { x } => 0xF015 + 0x100 * x,
            Instruction::SetSound { x } => 0xF018 + 0x100 * x,
            Instruction::AddIndex { x } => 0xF01E + 0x100 * x,
            Instruction::FontAddr { x } => 0xF029 + 0x100 * x,
            Instruction::StoreBcd { x } => 0xF033 + 0x100 * x,
            Instruction::StoreRegs { x } => 0xF055 + 0x100 * x,
            Instruction::LoadRegs { x } => 0xF065 + 0x100 * x,
        }
    }
}

/// The high nibble of an instruction word: its family.
pub open spec fn word_family(word: u16) -> int {
    word as int / 0x1000
}

/// The second nibble of an instruction word: the register index X.
pub open spec fn word_x(word: u16) -> u8 {
    ((word as int / 0x100) % 0x10) as u8
}

/// The third nibble of an instruction word: the register index Y.
pub open spec fn word_y(word: u16) -> u8 {
    ((word as int / 0x10) % 0x10) as u8
}

/// The low nibble of an instruction word.
pub open spec fn word_n(word: u16) -> u8 {
    (word as int % 0x10) as u8
}

/// The low byte of an instruction word.
pub open spec fn word_nn(word: u16) -> u8 {
    (word as int % 0x100) as u8
}

/// The low twelve bits of an instruction word.
pub open spec fn word_nnn(word: u16) -> u16 {
    (word as int % 0x1000) as u16
}

/// The instruction that a word stands for, or `None` where the word matches
/// no instruction pattern.
pub open spec fn decoded(word: u16) -> Option<Instruction> {
    let x = word_x(word);
    let y = word_y(word);
    let n = word_n(word);
    let nn = word_nn(word);
    let addr = word_nnn(word);
    let family = word_family(word);
    if family == 0x0 {
        if word == 0x00E0 {
            Some(Instruction::ClearScreen)
        } else if word == 0x00EE {
            Some(Instruction::Return)
        } else {
            None
        }
    } else if family == 0x1 {
        Some(Instruction::Jump { addr })
    } else if family == 0x2 {
        Some(Instruction::Call { addr })
    } else if family == 0x3 {
        Some(Instruction::SkipEqImm { x, nn })
    } else if family == 0x4 {
        Some(Instruction::SkipNeImm { x, nn })
    } else if family == 0x5 {
        if n == 0 {
            Some(Instruction::SkipEqReg { x, y })
        } else {
            None
        }
    } else if family == 0x6 {
        Some(Instruction::LoadImm { x, nn })
    } else if family == 0x7 {
        Some(Instruction::AddImm { x, nn })
    } else if family == 0x8 {
        match AluOp::from_code(n as int) {
            Some(op) => Some(Instruction::Alu { op, x, y }),
            None => None,
        }
    } else if family == 0x9 {
        if n == 0 {
            Some(Instruction::SkipNeReg { x, y })
        } else {
            None
        }
    } else if family == 0xA {
        Some(Instruction::LoadIndex { addr })
    } else if family == 0xB {
        Some(Instruction::JumpOffset { addr })
    } else if family == 0xC {
        Some(Instruction::Random { x, nn })
    } else if family == 0xD {
        Some(Instruction::Draw { x, y, n })
    } else if family == 0xE {
        if nn == 0x9E {
            Some(Instruction::SkipKeyDown { x })
        } else if nn == 0xA1 {
            Some(Instruction::SkipKeyUp { x })
        } else {
            None
        }
    } else {
        if nn == 0x07 {
            Some(Instruction::ReadDelay { x })
        } else if nn == 0x0A {
            Some(Instruction::WaitKey { x })
        } else if nn == 0x15 {
            Some(Instruction::SetDelay { x })
        } else if nn == 0x18 {
            Some(Instruction::SetSound { x })
        } else if nn == 0x1E {
            Some(Instruction::AddIndex { x })
        } else if nn == 0x29 {
            Some(Instruction::FontAddr { x })
        } else if nn == 0x33 {
            Some(Instruction::StoreBcd { x })
        } else if nn == 0x55 {
            Some(Instruction::StoreRegs { x })
        } else if nn == 0x65 {
            Some(Instruction::LoadRegs { x })
        } else {
            None
        }
    }
}

/// The six fields of a word, as the shifts and masks of the decoder compute
/// them, are its nibbles, low byte and low twelve bits.
proof fn lemma_word_fields(word: u16)
    ensures
        (word >> 12) as int == word_family(word),
        ((word >> 8) & 0xF) as u8 == word_x(word),
        ((word >> 4) & 0xF) as u8 == word_y(word),
        (word & 0xF) as u8 == word_n(word),
        (word & 0xFF) as u8 == word_nn(word),
        word & 0xFFF == word_nnn(word),
{
    assert(word >> 12 == word / 0x1000) by (bit_vector);
    assert((word >> 8) & 0xF == (word / 0x100) % 0x10) by (bit_vector);
    assert((word >> 4) & 0xF == (word / 0x10) % 0x10) by (bit_vector);
    assert(word & 0xF == word % 0x10) by (bit_vector);
    assert(word & 0xFF == word % 0x100) by (bit_vector);
    assert(word & 0xFFF == word % 0x1000) by (bit_vector);
}

/// A word is the sum of its four nibbles, each weighted by its place.
proof fn lemma_word_split(word: u16)
    ensures
        0 <= word_family(word) < 16,
        word_x(word) < 16,
        word_y(word) < 16,
        word_n(word) < 16,
        word_nn(word) == 0x10 * word_y(word) + word_n(word),
        word_nnn(word) == 0x100 * word_x(word) + word_nn(word),
        word == 0x1000 * word_family(word) + word_nnn(word),
{
    assert(word / 0x1000 < 16) by (bit_vector);
    assert((word / 0x100) % 0x10 < 16) by (bit_vector);
    assert((word / 0x10) % 0x10 < 16) by (bit_vector);
    assert(word % 0x10 < 16) by (bit_vector);
    assert(word % 0x100 == 0x10 * ((word / 0x10) % 0x10) + word % 0x10) by (bit_vector);
    assert(word % 0x1000 == 0x100 * ((word / 0x100) % 0x10) + word % 0x100) by (bit_vector);
    assert(word == 0x1000 * (word / 0x1000) + word % 0x1000) by (bit_vector);
}

/// The nibbles of a word built from four nibbles are those four.
proof fn lemma_word_join(family: u16, x: u16, y: u16, n: u16)
    requires
        family < 16,
        x < 16,
        y < 16,
        n < 16,
    ensures
        ({
            let word = (0x1000 * family + 0x100 * x + 0x10 * y + n) as u16;
            &&& word == 0x1000 * family + 0x100 * x + 0x10 * y + n
            &&& word_family(word) == family
            &&& word_x(word) == x
            &&& word_y(word) == y
            &&& word_n(word) == n
            &&& word_nn(word) == 0x10 * y + n
            &&& word_nnn(word) == 0x100 * x + 0x10 * y + n
        }),
{
    let word = (0x1000 * family + 0x100 * x + 0x10 * y + n) as u16;
    assert(word == 0x1000 * family + 0x100 * x + 0x10 * y + n);
    lemma_word_split(word);
    let w = word as int;
    let rest = 0x100 * x + 0x10 * y + n;
    assert(w / 0x1000 == family && w % 0x1000 == rest) by {
        vstd::arithmetic::div_mod::lemma_fundamental_div_mod_converse(w, 0x1000, family as int, rest as int);
    }
    let low = 0x10 * y + n;
    assert(w / 0x100 == 0x10 * family + x && w % 0x100 == low) by {
        vstd::arithmetic::div_mod::lemma_fundamental_div_mod_converse(w, 0x100, (0x10 * family + x) as int, low as int);
    }
    assert(w / 0x10 == 0x100 * family + 0x10 * x + y && w % 0x10 == n) by {
        vstd::arithmetic::div_mod::lemma_fundamental_div_mod_converse(w, 0x10, (0x100 * family + 0x10 * x + y) as int, n as int);
    }
}

/// Decodes the low nibble of an `8XY_` word.
fn decode_alu(n: u8) -> (r: Option<AluOp>)
    ensures
        r == AluOp::from_code(n as int),
{
    match n {
        0x0 => Some(AluOp::Assign),
        0x1 => Some(AluOp::Or),
        0x2 => Some(AluOp::And),
        0x3 => Some(AluOp::Xor),
        0x4 => Some(AluOp::Add),
        0x5 => Some(AluOp::Sub),
        0x6 => Some(AluOp::ShiftRight),
        0x7 => Some(AluOp::SubReverse),
        0xE => Some(AluOp::ShiftLeft),
        _ => None,
    }
}

/// Decodes an instruction word. Returns `None` for a word that matches no
/// instruction pattern.
pub fn decode(word: u16) -> (r: Option<Instruction>)
    ensures
        r == decoded(word),
        r matches Some(instr) ==> instr.wf(),
{
    proof {
        lemma_word_fields(word);
        lemma_word_split(word);
    }
    let family: u16 = word >> 12;
    let x: u8 = ((word >> 8) & 0xF) as u8;
    let y: u8 = ((word >> 4) & 0xF) as u8;
    let n: u8 = (word & 0xF) as u8;
    let nn: u8 = (word & 0xFF) as u8;
    let addr: u16 = word & 0xFFF;
    match family {
        0x0 => match word {
            0x00E0 => Some(Instruction::ClearScreen),
            0x00EE => Some(Instruction::Return),
            _ => None,
        },
        0x1 => Some(Instruction::Jump { addr }),
        0x2 => Some(Instruction::Call { addr }),
        0x3 => Some(Instruction::SkipEqImm { x, nn }),
        0x4 => Some(Instruction::SkipNeImm { x, nn }),
        0x5 => if n == 0 {
            Some(Instruction::SkipEqReg { x, y })
        } else {
            None
        },
        0x6 => Some(Instruction::LoadImm { x, nn }),
        0x7 => Some(Instruction::AddImm { x, nn }),
        0x8 => match decode_alu(n) {
            Some(op) => Some(Instruction::Alu { op, x, y }),
            None => None,
        },
        0x9 => if n == 0 {
            Some(Instruction::SkipNeReg { x, y })
        } else {
            None
        },
        0xA => Some(Instruction::LoadIndex { addr }),
        0xB => Some(Instruction::JumpOffset { addr }),
        0xC => Some(Instruction::Random { x, nn }),
        0xD => Some(Instruction::Draw { x, y, n }),
        0xE => match nn {
            0x9E => Some(Instruction::SkipKeyDown { x }),
            0xA1 => Some(Instruction::SkipKeyUp { x }),
            _ => None,
        },
        _ => match nn {
            0x07 => Some(Instruction::ReadDelay { x }),
            0x0A => Some(Instruction::WaitKey { x }),
            0x15 => Some(Instruction::SetDelay { x }),
            0x18 => Some(Instruction::SetSound { x }),
            0x1E => Some(Instruction::AddIndex { x }),
            0x29 => Some(Instruction::FontAddr { x }),
            0x33 => Some(Instruction::StoreBcd { x }),
            0x55 => Some(Instruction::StoreRegs { x }),
            0x65 => Some(Instruction::LoadRegs { x }),
            _ => None,
        },
    }
}

/// Decoding inverts encoding: every well-formed instruction is what its own
/// word decodes to.
pub proof fn lemma_decode_encode(instr: Instruction)
    requires
        instr.wf(),
    ensures
        0 <= instr.encode() < 0x10000,
        decoded(instr.encode() as u16) == Some(instr),
{
    match instr {
        Instruction::ClearScreen => {
            lemma_word_join(0x0, 0x0, 0xE, 0x0);
        },
        Instruction::Return => {
            lemma_word_join(0x0, 0x0, 0xE, 0xE);
        },
        Instruction::Jump { addr } => {
            lemma_word_split(addr);
            lemma_word_join(0x1, word_x(addr) as u16, word_y(addr) as u16, word_n(addr) as u16);
        },
        Instruction::Call { addr } => {
            lemma_word_split(addr);
            lemma_word_join(0x2, word_x(addr) as u16, word_y(addr) as u16, word_n(addr) as u16);
        },
        Instruction::LoadIndex { addr } => {
            lemma_word_split(addr);
            lemma_word_join(0xA, word_x(addr) as u16, word_y(addr) as u16, word_n(addr) as u16);
        },
        Instruction::JumpOffset { addr } => {
            lemma_word_split(addr);
            lemma_word_join(0xB, word_x(addr) as u16, word_y(addr) as u16, word_n(addr) as u16);
        },
        Instruction::SkipEqImm { x, nn } => {
            lemma_word_split(nn as u16);
            lemma_word_join(0x3, x as u16, word_y(nn as u16) as u16, word_n(nn as u16) as u16);
        },
        Instruction::SkipNeImm { x, nn } => {
            lemma_word_split(nn as u16);
            lemma_word_join(0x4, x as u16, word_y(nn as u16) as u16, word_n(nn as u16) as u16);
        },
        Instruction::LoadImm { x, nn } => {
            lemma_word_split(nn as u16);
            lemma_word_join(0x6, x as u16, word_y(nn as u16) as u16, word_n(nn as u16) as u16);
        },
        Instruction::AddImm { x, nn } => {
            lemma_word_split(nn as u16);
            lemma_word_join(0x7, x as u16, word_y(nn as u16) as u16, word_n(nn as u16) as u16);
        },
        Instruction::Random { x, nn } => {
            lemma_word_split(nn as u16);
            lemma_word_join(0xC, x as u16, word_y(nn as u16) as u16, word_n(nn as u16) as u16);
        },
        Instruction::SkipEqReg { x, y } => {
            lemma_word_join(0x5, x as u16, y as u16, 0x0);
        },
        Instruction::SkipNeReg { x, y } => {
            lemma_word_join(0x9, x as u16, y as u16, 0x0);
        },
        Instruction::Alu { op, x, y } => {
            lemma_word_join(0x8, x as u16, y as u16, op.code() as u16);
        },
        Instruction::Draw { x, y, n } => {
            lemma_word_join(0xD, x as u16, y as u16, n as u16);
        },
        Instruction::SkipKeyDown { x } => {
            lemma_word_join(0xE, x as u16, 0x9, 0xE);
        },
        Instruction::SkipKeyUp { x } => {
            lemma_word_join(0xE, x as u16, 0xA, 0x1);
        },
        Instruction::ReadDelay { x } => {
            lemma_word_join(0xF, x as u16, 0x0, 0x7);
        },
        Instruction::WaitKey { x } => {
            lemma_word_join(0xF, x as u16, 0x0, 0xA);
        },
        Instruction::SetDelay { x } => {
            lemma_word_join(0xF, x as u16, 0x1, 0x5);
        },
        Instruction::SetSound { x } => {
            lemma_word_join(0xF, x as u16, 0x1, 0x8);
        },
        Instruction::AddIndex { x } => {
            lemma_word_join(0xF, x as u16, 0x1, 0xE);
        },
        Instruction::FontAddr { x } => {
            lemma_word_join(0xF, x as u16, 0x2, 0x9);
        },
        Instruction::StoreBcd { x } => {
            lemma_word_join(0xF, x as u16, 0x3, 0x3);
        },
        Instruction::StoreRegs { x } => {
            lemma_word_join(0xF, x as u16, 0x5, 0x5);
        },
        Instruction::LoadRegs { x } => {
            lemma_word_join(0xF, x as u16, 0x6, 0x5);
        },
    }
}

/// Encoding inverts decoding: a word that decodes to an instruction is that
/// instruction's word, so no two words decode to the same instruction.
pub proof fn lemma_encode_decode(word: u16)
    ensures
        decoded(word) matches Some(instr) ==> instr.wf() && instr.encode() == word,
{
    lemma_word_split(word);
}

} // verus!
