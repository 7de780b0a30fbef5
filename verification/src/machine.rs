//! The machine as a mathematical value, and what each operation does to it.

use vstd::prelude::*;
use crate::alu::{add_wrapping, alu_flag, alu_value, bcd};
use crate::error::{Chip8Error, StepOutcome};
use crate::font::{font_table, glyph_address, FONT_BASE, FONT_SIZE};
use crate::instruction::{decoded, Instruction};

verus! {

/// The number of bytes of memory.
pub const MEMORY_SIZE: usize = 4096;

/// The address at which a program is loaded and starts.
pub const PROGRAM_START: u16 = 0x200;

/// The largest program image that fits in memory.
pub const MAX_ROM_SIZE: usize = 3584;

/// The number of return addresses that the call stack holds.
pub const STACK_DEPTH: usize = 16;

/// The number of general registers, and of keys.
pub const REGISTERS: usize = 16;

/// The width of the display in pixels.
pub const DISPLAY_WIDTH: usize = 64;

/// The height of the display in pixels.
pub const DISPLAY_HEIGHT: usize = 32;

/// A wait for a key press that `FX0A` has begun.
#[verifier::ext_equal]
pub struct Pending {
    /// The register that receives the key.
    pub register: u8,
    /// The keys that were down when the machine last looked.
    pub held: Seq<bool>,
}

/// The state of the machine.
#[verifier::ext_equal]
pub struct Machine {
    /// The 4096 bytes of memory.
    pub memory: Seq<u8>,
    /// The registers V0 to VF.
    pub v: Seq<u8>,
    /// The address register I.
    pub i: u16,
    /// The program counter.
    pub pc: u16,
    /// The return addresses of the calls in progress, the innermost last.
    pub calls: Seq<u16>,
    /// The delay timer.
    pub dt: u8,
    /// The sound timer.
    pub st: u8,
    /// The sixteen keys: `true` for a key that is down.
    pub keys: Seq<bool>,
    /// The display: 32 rows of 64 pixels, `true` for a lit pixel.
    pub display: Seq<Seq<bool>>,
    /// The wait for a key press, if one is in progress.
    pub wait: Option<Pending>,
}

/// Whether column `col` of a sprite row is set. Column 0 is the most
/// significant bit.
pub open spec fn sprite_bit(row: u8, col: u8) -> bool {
    row & (0x80u8 >> col) != 0
}

/// A display with every pixel unlit.
pub open spec fn blank_display() -> Seq<Seq<bool>> {
    Seq::new(DISPLAY_HEIGHT as nat, |y: int| Seq::new(DISPLAY_WIDTH as nat, |x: int| false))
}

/// Whether key `key` is down in `keys` and was not in `held`.
pub open spec fn newly_pressed(held: Seq<bool>, keys: Seq<bool>, key: int) -> bool {
    0 <= key < REGISTERS && keys[key] && !held[key]
}

/// The lowest key from `from` on that is newly pressed, if there is one.
pub open spec fn first_new_key_from(held: Seq<bool>, keys: Seq<bool>, from: int) -> Option<u8>
    decreases REGISTERS - from,
{
    if from < 0 || from >= REGISTERS {
        None
    } else if newly_pressed(held, keys, from) {
        Some(from as u8)
    } else {
        first_new_key_from(held, keys, from + 1)
    }
}

/// The lowest key that is newly pressed, if there is one.
pub open spec fn first_new_key(held: Seq<bool>, keys: Seq<bool>) -> Option<u8> {
    first_new_key_from(held, keys, 0)
}

/// What is left of a timer that held `timer` after `ticks` ticks: it counts
/// down by one per tick and stays at zero.
pub open spec fn countdown(timer: u8, ticks: nat) -> u8 {
    if ticks >= timer {
        0
    } else {
        (timer - ticks) as u8
    }
}

impl Machine {
    /// The sizes of the parts are those of the machine, at most sixteen
    /// calls are in progress, and a wait names a register and began at an
    /// instruction inside memory.
    pub open spec fn inv(self) -> bool {
        &&& self.memory.len() == MEMORY_SIZE
        &&& self.v.len() == REGISTERS
        &&& self.calls.len() <= STACK_DEPTH
        &&& self.keys.len() == REGISTERS
        &&& self.display.len() == DISPLAY_HEIGHT
        &&& forall|y: int| 0 <= y < DISPLAY_HEIGHT ==> (#[trigger] self.display[y]).len() == DISPLAY_WIDTH
        &&& self.wait matches Some(p) ==> {
            &&& p.register < REGISTERS
            &&& p.held.len() == REGISTERS
            &&& self.pc + 1 < MEMORY_SIZE
        }
    }

    /// The machine at power-on: the font in memory at its base address,
    /// everything else zero, blank, empty or up.
    pub open spec fn initial() -> Machine {
        Machine {
            memory: Seq::new(
                MEMORY_SIZE as nat,
                |a: int|
                    if FONT_BASE <= a < FONT_BASE + FONT_SIZE {
                        font_table()[a - FONT_BASE]
                    } else {
                        0u8
                    },
            ),
            v: Seq::new(REGISTERS as nat, |k: int| 0u8),
            i: 0,
            pc: 0,
            calls: Seq::empty(),
            dt: 0,
            st: 0,
            keys: Seq::new(REGISTERS as nat, |k: int| false),
            display: blank_display(),
            wait: None,
        }
    }

    /// The machine after a program image is copied to the program start and
    /// the program counter is set there.
    pub open spec fn load(self, rom: Seq<u8>) -> Machine {
        Machine {
            memory: Seq::new(
                MEMORY_SIZE as nat,
                |a: int|
                    if PROGRAM_START <= a < PROGRAM_START + rom.len() {
                        rom[a - PROGRAM_START]
                    } else {
                        self.memory[a]
                    },
            ),
            pc: PROGRAM_START,
            ..self
        }
    }

    /// The machine after `ticks` timer ticks.
    pub open spec fn tick(self, ticks: nat) -> Machine {
        Machine { dt: countdown(self.dt, ticks), st: countdown(self.st, ticks), ..self }
    }

    /// The machine with key `key` down or up. A key above F does not exist,
    /// and setting it changes nothing.
    pub open spec fn set_key(self, key: u8, down: bool) -> Machine {
        if key < REGISTERS {
            Machine { keys: self.keys.update(key as int, down), ..self }
        } else {
            self
        }
    }

    /// Whether key `key` is down. A key above F does not exist and is never
    /// down.
    pub open spec fn key_down(self, key: u8) -> bool {
        key < REGISTERS && self.keys[key as int]
    }

    /// The big-endian word at the program counter, or `None` where its two
    /// bytes do not both lie inside memory.
    pub open spec fn fetch(self) -> Option<u16> {
        if self.pc + 1 < MEMORY_SIZE {
            Some((0x100 * self.memory[self.pc as int] + self.memory[self.pc + 1]) as u16)
        } else {
            None
        }
    }

    /// The machine with the program counter moved on by `delta`.
    pub open spec fn advance(self, delta: int) -> Machine {
        Machine { pc: (self.pc + delta) as u16, ..self }
    }

    /// The machine with the program counter on the next instruction.
    pub open spec fn next(self) -> Machine {
        self.advance(2)
    }

    /// The machine with the program counter past the next instruction if
    /// `skip` holds, on the next instruction if not.
    pub open spec fn skip_if(self, skip: bool) -> Machine {
        self.advance(if skip { 4 } else { 2 })
    }

    /// The machine with `value` in register `x`.
    pub open spec fn set_v(self, x: u8, value: u8) -> Machine {
        Machine { v: self.v.update(x as int, value), ..self }
    }

    /// Whether the sprite of `n` rows that starts at I, drawn with its top
    /// left corner at (`vx`, `vy`), has a set bit on pixel (`px`, `py`).
    /// Coordinates wrap around the edges of the display.
    pub open spec fn sprite_covers(self, vx: u8, vy: u8, n: u8, px: int, py: int) -> bool {
        let col = (px - vx) % (DISPLAY_WIDTH as int);
        let row = (py - vy) % (DISPLAY_HEIGHT as int);
        col < 8 && row < n && sprite_bit(self.memory[self.i + row], col as u8)
    }

    /// Whether the sprite has a set bit on a pixel that is lit.
    pub open spec fn sprite_hits(self, vx: u8, vy: u8, n: u8, px: int, py: int) -> bool {
        self.display[py][px] && self.sprite_covers(vx, vy, n, px, py)
    }

    /// Whether drawing the sprite turns some lit pixel off.
    pub open spec fn collides(self, vx: u8, vy: u8, n: u8) -> bool {
        exists|px: int, py: int|
            0 <= px < DISPLAY_WIDTH && 0 <= py < DISPLAY_HEIGHT && #[trigger] self.sprite_hits(
                vx,
                vy,
                n,
                px,
                py,
            )
    }

    /// The display after the sprite is drawn: every pixel under a set bit
    /// of the sprite is flipped.
    pub open spec fn drawn(self, vx: u8, vy: u8, n: u8) -> Seq<Seq<bool>> {
        Seq::new(
            DISPLAY_HEIGHT as nat,
            |py: int|
                Seq::new(
                    DISPLAY_WIDTH as nat,
                    |px: int| self.display[py][px] != self.sprite_covers(vx, vy, n, px, py),
                ),
        )
    }

    /// The machine after the sprite of `n` rows at I is drawn at
    /// (`vx`, `vy`): the display with the sprite on it, and VF set to 1 if
    /// a lit pixel was turned off, to 0 if none was. Fails, changing
    /// nothing, where the sprite's rows do not all lie inside memory.
    pub open spec fn draw_sprite(self, vx: u8, vy: u8, n: u8) -> Result<Machine, Chip8Error> {
        if n > 0 && self.i + n > MEMORY_SIZE {
            Err(Chip8Error::MemoryOutOfRange)
        } else {
            Ok(
                Machine {
                    display: self.drawn(vx, vy, n),
                    v: self.v.update(
                        0xF,
                        if self.collides(vx, vy, n) {
                            1u8
                        } else {
                            0u8
                        },
                    ),
                    ..self
                },
            )
        }
    }

    /// The machine after `instr` is executed with the program counter on
    /// it, or the error that executing it raises. `random` is the byte that
    /// `CXNN` draws.
    pub open spec fn execute(self, instr: Instruction, random: u8) -> Result<Machine, Chip8Error> {
        match instr {
            Instruction::ClearScreen => Ok(Machine { display: blank_display(), ..self }.next()),
            Instruction::Return => if self.calls.len() == 0 {
                Err(Chip8Error::StackUnderflow)
            } else {
                Ok(Machine { pc: self.calls.last(), calls: self.calls.drop_last(), ..self })
            },
            Instruction::Jump { addr } => Ok(Machine { pc: addr, ..self }),
            Instruction::Call { addr } => if self.calls.len() >= STACK_DEPTH {
                Err(Chip8Error::StackOverflow)
            } else {
                Ok(Machine { pc: addr, calls: self.calls.push((self.pc + 2) as u16), ..self })
            },
            Instruction::SkipEqImm { x, nn } => Ok(self.skip_if(self.v[x as int] == nn)),
            Instruction::SkipNeImm { x, nn } => Ok(self.skip_if(self.v[x as int] != nn)),
            Instruction::SkipEqReg { x, y } => Ok(self.skip_if(self.v[x as int] == self.v[y as int])),
            Instruction::LoadImm { x, nn } => Ok(self.set_v(x, nn).next()),
            Instruction::AddImm { x, nn } => Ok(
                self.set_v(x, add_wrapping(self.v[x as int], nn)).next(),
            ),
            Instruction::Alu { op, x, y } => {
                let vx = self.v[x as int];
                let vy = self.v[y as int];
                let stored = self.set_v(x, alu_value(op, vx, vy));
                match alu_flag(op, vx, vy) {
                    Some(flag) => Ok(stored.set_v(0xF, flag).next()),
                    None => Ok(stored.next()),
                }
            },
            Instruction::SkipNeReg { x, y } => Ok(self.skip_if(self.v[x as int] != self.v[y as int])),
            Instruction::LoadIndex { addr } => Ok(Machine { i: addr, ..self }.next()),
            Instruction::JumpOffset { addr } => Ok(Machine { pc: (addr + self.v[0]) as u16, ..self }),
            Instruction::Random { x, nn } => Ok(self.set_v(x, random & nn).next()),
            Instruction::Draw { x, y, n } => match self.draw_sprite(self.v[x as int], self.v[y as int], n) {
                Ok(m) => Ok(m.next()),
                Err(e) => Err(e),
            },
            Instruction::SkipKeyDown { x } => Ok(self.skip_if(self.key_down(self.v[x as int]))),
            Instruction::SkipKeyUp { x } => Ok(self.skip_if(!self.key_down(self.v[x as int]))),
            Instruction::ReadDelay { x } => Ok(self.set_v(x, self.dt).next()),
            Instruction::WaitKey { x } => Ok(
                Machine { wait: Some(Pending { register: x, held: self.keys }), ..self },
            ),
            Instruction::SetDelay { x } => Ok(Machine { dt: self.v[x as int], ..self }.next()),
            Instruction::SetSound { x } => Ok(Machine { st: self.v[x as int], ..self }.next()),
            Instruction::AddIndex { x } => Ok(
                Machine { i: ((self.i + self.v[x as int]) % 0x10000) as u16, ..self }.next(),
            ),
            Instruction::FontAddr { x } => Ok(Machine { i: glyph_address(self.v[x as int]), ..self }.next()),
            Instruction::StoreBcd { x } => if self.i + 2 >= MEMORY_SIZE {
                Err(Chip8Error::MemoryOutOfRange)
            } else {
                let digits = bcd(self.v[x as int]);
                Ok(
                    Machine {
                        memory: self.memory.update(self.i as int, digits.0).update(
                            self.i + 1,
                            digits.1,
                        ).update(self.i + 2, digits.2),
                        ..self
                    }.next(),
                )
            },
            Instruction::StoreRegs { x } => if self.i + x >= MEMORY_SIZE {
                Err(Chip8Error::MemoryOutOfRange)
            } else {
                Ok(
                    Machine {
                        memory: Seq::new(
                            MEMORY_SIZE as nat,
                            |a: int|
                                if self.i <= a <= self.i + x {
                                    self.v[a - self.i]
                                } else {
                                    self.memory[a]
                                },
                        ),
                        i: (self.i + x + 1) as u16,
                        ..self
                    }.next(),
                )
            },
            Instruction::LoadRegs { x } => if self.i + x >= MEMORY_SIZE {
                Err(Chip8Error::MemoryOutOfRange)
            } else {
                Ok(
                    Machine {
                        v: Seq::new(
                            REGISTERS as nat,
                            |k: int|
                                if k <= x {
                                    self.memory[self.i + k]
                                } else {
                                    self.v[k]
                                },
                        ),
                        i: (self.i + x + 1) as u16,
                        ..self
                    }.next(),
                )
            },
        }
    }

    /// The machine after a step that finds it waiting for a key: where a
    /// key is newly pressed, the lowest such key is stored, the wait ends
    /// and the program counter moves on; where none is, only the record of
    /// the keys that are down is brought up to date.
    pub open spec fn resume(self, p: Pending) -> Machine {
        match first_new_key(p.held, self.keys) {
            Some(key) => Machine { wait: None, ..self }.set_v(p.register, key).next(),
            None => Machine { wait: Some(Pending { register: p.register, held: self.keys }), ..self },
        }
    }

    /// The instruction that the next step fetches and executes: none for a
    /// machine that waits for a key, whose program counter is outside
    /// memory, or that stands on a word that is no instruction.
    pub open spec fn fetched(self) -> Option<Instruction> {
        match self.wait {
            Some(p) => None,
            None => match self.fetch() {
                None => None,
                Some(word) => decoded(word),
            },
        }
    }

    /// What a step reports.
    pub open spec fn step_result(self, random: u8) -> Result<StepOutcome, Chip8Error> {
        match self.wait {
            Some(p) => match first_new_key(p.held, self.keys) {
                Some(key) => Ok(StepOutcome::Executed(Instruction::WaitKey { x: p.register })),
                None => Ok(StepOutcome::AwaitingKey),
            },
            None => match self.fetch() {
                None => Err(Chip8Error::PcOutOfRange),
                Some(word) => match decoded(word) {
                    None => Ok(StepOutcome::InvalidOpcode(word)),
                    Some(instr) => match self.execute(instr, random) {
                        Err(e) => Err(e),
                        Ok(m) => if instr is WaitKey {
                            Ok(StepOutcome::AwaitingKey)
                        } else {
                            Ok(StepOutcome::Executed(instr))
                        },
                    },
                },
            },
        }
    }

    /// The machine after one step: a machine that waits for a key looks at
    /// the keys; any other fetches the word at the program counter, decodes
    /// it and executes it. A word that is no instruction only moves the
    /// program counter on. A step that fails changes nothing.
    pub open spec fn step(self, random: u8) -> Machine {
        match self.wait {
            Some(p) => self.resume(p),
            None => match self.fetch() {
                None => self,
                Some(word) => match decoded(word) {
                    None => self.next(),
                    Some(instr) => match self.execute(instr, random) {
                        Err(e) => self,
                        Ok(m) => m,
                    },
                },
            },
        }
    }

    /// The random byte reaches the machine through `CXNN` alone: a step
    /// that does not execute `CXNN` is the same for every byte.
    pub proof fn lemma_random_matters_to_cxnn_only(self, a: u8, b: u8)
        requires
            !(self.fetched() matches Some(Instruction::Random { .. })),
        ensures
            self.step(a) == self.step(b),
            self.step_result(a) == self.step_result(b),
    {
    }
}

} // verus!
