//! Instruction execution: what each instruction does to the machine, and
//! the step that fetches, decodes and executes one.

use vstd::prelude::*;
use crate::alu::{alu, alu_flag, alu_value, bcd, bcd_digits};
use crate::chip8::{Chip8, KeyWait};
use crate::error::{Chip8Error, StepOutcome};
use crate::instruction::{decode, AluOp, Instruction};
use crate::machine::{
    blank_display, first_new_key, first_new_key_from, Machine, Pending, MEMORY_SIZE, REGISTERS,
};
use crate::random::random_byte;

verus! {

/// The lowest key that is down in `keys` and was not in `held`.
fn first_new(held: &[bool; 16], keys: &[bool; 16]) -> (key: Option<u8>)
    ensures
        key == first_new_key(held@, keys@),
        key matches Some(k) ==> k < REGISTERS,
{
    let mut k: u8 = 0;
    while k < 16
        invariant
            k <= 16,
            first_new_key(held@, keys@) == first_new_key_from(held@, keys@, k as int),
        decreases 16 - k,
    {
        if keys[k as usize] && !held[k as usize] {
            return Some(k);
        }
        k += 1;
    }
    None
}

/// The instructions that only move the program counter, the stack or the
/// whole display.
spec fn is_flow(instr: Instruction) -> bool {
    instr is ClearScreen || instr is Return || instr is Jump || instr is Call
        || instr is JumpOffset
}

/// The conditional skips.
spec fn is_skip(instr: Instruction) -> bool {
    instr is SkipEqImm || instr is SkipNeImm || instr is SkipEqReg || instr is SkipNeReg
        || instr is SkipKeyDown || instr is SkipKeyUp
}

/// The instructions that write a register or a timer.
spec fn is_register(instr: Instruction) -> bool {
    instr is LoadImm || instr is AddImm || instr is Alu || instr is Random || instr is ReadDelay
        || instr is SetDelay || instr is SetSound
}

impl Chip8 {
    /// Stores V0..=VX at I and moves I past them.
    fn store_registers(&mut self, x: u8)
        requires
            old(self).wf(),
            x < REGISTERS,
            old(self).i + x < MEMORY_SIZE,
        ensures
            final(self).wf(),
            final(self)@ == (Machine {
                memory: Seq::new(
                    MEMORY_SIZE as nat,
                    |a: int|
                        if old(self).i <= a <= old(self).i + x {
                            old(self)@.v[a - old(self).i]
                        } else {
                            old(self)@.memory[a]
                        },
                ),
                i: (old(self).i + x + 1) as u16,
                ..old(self)@
            }),
    {
        let base: usize = self.i as usize;
        let mut k: usize = 0;
        while k <= x as usize
            invariant
                k <= x + 1,
                x < REGISTERS,
                base == old(self).i,
                base + x < MEMORY_SIZE,
                self.v == old(self).v,
                self.i == old(self).i,
                self.dt == old(self).dt,
                self.st == old(self).st,
                self.pc == old(self).pc,
                self.sp == old(self).sp,
                self.stack == old(self).stack,
                self.keyboard == old(self).keyboard,
                self.display == old(self).display,
                self.key_wait == old(self).key_wait,
                forall|a: int|
                    0 <= a < MEMORY_SIZE ==> self.memory[a] == if base <= a < base + k {
                        old(self).v[a - base]
                    } else {
                        old(self).memory[a]
                    },
            decreases x + 1 - k,
        {
            self.memory[base + k] = self.v[k];
            k += 1;
        }
        self.i = self.i + x as u16 + 1;
        assert(self@ =~~= (Machine {
            memory: Seq::new(
                MEMORY_SIZE as nat,
                |a: int|
                    if old(self).i <= a <= old(self).i + x {
                        old(self)@.v[a - old(self).i]
                    } else {
                        old(self)@.memory[a]
                    },
            ),
            i: (old(self).i + x + 1) as u16,
            ..old(self)@
        }));
    }

    /// Loads V0..=VX from I and moves I past them.
    fn load_registers(&mut self, x: u8)
        requires
            old(self).wf(),
            x < REGISTERS,
            old(self).i + x < MEMORY_SIZE,
        ensures
            final(self).wf(),
            final(self)@ == (Machine {
                v: Seq::new(
                    REGISTERS as nat,
                    |k: int|
                        if k <= x {
                            old(self)@.memory[old(self).i + k]
                        } else {
                            old(self)@.v[k]
                        },
                ),
                i: (old(self).i + x + 1) as u16,
                ..old(self)@
            }),
    {
        let base: usize = self.i as usize;
        let mut k: usize = 0;
        while k <= x as usize
            invariant
                k <= x + 1,
                x < REGISTERS,
                base == old(self).i,
                base + x < MEMORY_SIZE,
                self.memory == old(self).memory,
                self.i == old(self).i,
                self.dt == old(self).dt,
                self.st == old(self).st,
                self.pc == old(self).pc,
                self.sp == old(self).sp,
                self.stack == old(self).stack,
                self.keyboard == old(self).keyboard,
                self.display == old(self).display,
                self.key_wait == old(self).key_wait,
                forall|j: int|
                    0 <= j < REGISTERS ==> self.v[j] == if j < k {
                        old(self).memory[base + j]
                    } else {
                        old(self).v[j]
                    },
            decreases x + 1 - k,
        {
            self.v[k] = self.memory[base + k];
            k += 1;
        }
        self.i = self.i + x as u16 + 1;
        assert(self@ =~~= (Machine {
            v: Seq::new(
                REGISTERS as nat,
                |k: int|
                    if k <= x {
                        old(self)@.memory[old(self).i + k]
                    } else {
                        old(self)@.v[k]
                    },
            ),
            i: (old(self).i + x + 1) as u16,
            ..old(self)@
        }));
    }

    /// Moves the program counter on by `delta`.
    fn advance(&mut self, delta: u16)
        requires
            old(self).pc + delta <= u16::MAX,
        ensures
            final(self)@ == old(self)@.advance(delta as int),
            final(self).sp == old(self).sp,
            final(self).key_wait == old(self).key_wait,
    {
        self.pc = self.pc + delta;
        assert(self@ =~~= old(self)@.advance(delta as int));
    }

    /// Moves the program counter to `addr`.
    fn jump(&mut self, addr: u16)
        ensures
            final(self)@ == (Machine { pc: addr, ..old(self)@ }),
            final(self).sp == old(self).sp,
            final(self).key_wait == old(self).key_wait,
    {
        self.pc = addr;
        assert(self@ =~~= (Machine { pc: addr, ..old(self)@ }));
    }

    /// Writes `value` to register `x`.
    fn set_register(&mut self, x: u8, value: u8)
        requires
            x < REGISTERS,
        ensures
            final(self)@ == old(self)@.set_v(x, value),
            final(self).pc == old(self).pc,
            final(self).sp == old(self).sp,
            final(self).key_wait == old(self).key_wait,
    {
        self.v[x as usize] = value;
        assert(self@ =~~= old(self)@.set_v(x, value));
    }

    /// Writes `addr` to I.
    fn set_index(&mut self, addr: u16)
        ensures
            final(self)@ == (Machine { i: addr, ..old(self)@ }),
            final(self).pc == old(self).pc,
            final(self).sp == old(self).sp,
            final(self).key_wait == old(self).key_wait,
    {
        self.i = addr;
        assert(self@ =~~= (Machine { i: addr, ..old(self)@ }));
    }

    /// Unsets every pixel.
    fn clear_display(&mut self)
        ensures
            final(self)@ == (Machine { display: blank_display(), ..old(self)@ }),
            final(self).pc == old(self).pc,
            final(self).sp == old(self).sp,
            final(self).key_wait == old(self).key_wait,
    {
        self.display = [[false; 64]; 32];
        assert(self@ =~~= (Machine { display: blank_display(), ..old(self)@ }));
    }

    /// Pushes the address of the next instruction and jumps to `addr`.
    fn call(&mut self, addr: u16) -> (r: Result<(), Chip8Error>)
        requires
            old(self).wf(),
            old(self).key_wait is None,
            old(self).pc + 1 < MEMORY_SIZE,
        ensures
            final(self).wf(),
            match old(self)@.execute(Instruction::Call { addr }, 0) {
                Ok(m) => r is Ok && final(self)@ == m,
                Err(e) => r == Err::<(), Chip8Error>(e) && *final(self) == *old(self),
            },
    {
        if self.sp >= 16 {
            return Err(Chip8Error::StackOverflow);
        }
        self.stack[self.sp as usize] = self.pc + 2;
        self.sp = self.sp + 1;
        self.pc = addr;
        assert(self@ =~~= old(self)@.execute(Instruction::Call { addr }, 0)->Ok_0);
        Ok(())
    }

    /// Pops the innermost return address into the program counter.
    fn ret(&mut self) -> (r: Result<(), Chip8Error>)
        requires
            old(self).wf(),
            old(self).key_wait is None,
        ensures
            final(self).wf(),
            match old(self)@.execute(Instruction::Return, 0) {
                Ok(m) => r is Ok && final(self)@ == m,
                Err(e) => r == Err::<(), Chip8Error>(e) && *final(self) == *old(self),
            },
    {
        if self.sp == 0 {
            return Err(Chip8Error::StackUnderflow);
        }
        self.sp = self.sp - 1;
        self.pc = self.stack[self.sp as usize];
        assert(self@ =~~= old(self)@.execute(Instruction::Return, 0)->Ok_0);
        Ok(())
    }

    /// Applies an `8XY_` operation to VX and VY and stores value and flag.
    fn apply_alu(&mut self, op: AluOp, x: u8, y: u8)
        requires
            x < REGISTERS,
            y < REGISTERS,
        ensures
            final(self)@ == ({
                let vx = old(self)@.v[x as int];
                let vy = old(self)@.v[y as int];
                let stored = old(self)@.set_v(x, alu_value(op, vx, vy));
                match alu_flag(op, vx, vy) {
                    Some(flag) => stored.set_v(0xF, flag),
                    None => stored,
                }
            }),
            final(self).pc == old(self).pc,
            final(self).sp == old(self).sp,
            final(self).key_wait == old(self).key_wait,
    {
        let (value, flag) = alu(op, self.v[x as usize], self.v[y as usize]);
        self.set_register(x, value);
        match flag {
            Some(f) => {
                self.set_register(15, f);
            },
            None => {},
        }
    }

    /// Stores the three decimal digits of `value` at I, I+1 and I+2.
    fn store_bcd(&mut self, value: u8)
        requires
            old(self).i + 2 < MEMORY_SIZE,
        ensures
            final(self)@ == (Machine {
                memory: old(self)@.memory.update(old(self).i as int, bcd(value).0).update(
                    old(self).i + 1,
                    bcd(value).1,
                ).update(old(self).i + 2, bcd(value).2),
                ..old(self)@
            }),
            final(self).pc == old(self).pc,
            final(self).sp == old(self).sp,
            final(self).key_wait == old(self).key_wait,
    {
        let (hundreds, tens, ones) = bcd_digits(value);
        let at: usize = self.i as usize;
        self.memory[at] = hundreds;
        self.memory[at + 1] = tens;
        self.memory[at + 2] = ones;
        assert(self@ =~~= (Machine {
            memory: old(self)@.memory.update(old(self).i as int, bcd(value).0).update(
                old(self).i + 1,
                bcd(value).1,
            ).update(old(self).i + 2, bcd(value).2),
            ..old(self)@
        }));
    }

    /// Begins a wait for a key press that ends with the key in register
    /// `x`.
    fn begin_wait(&mut self, x: u8)
        requires
            old(self).wf(),
            x < REGISTERS,
            old(self).pc + 1 < MEMORY_SIZE,
        ensures
            final(self).wf(),
            final(self)@ == (Machine {
                wait: Some(Pending { register: x, held: old(self)@.keys }),
                ..old(self)@
            }),
    {
        self.key_wait = Some(KeyWait { register: x, held: self.keyboard });
        assert(self@ =~~= (Machine {
            wait: Some(Pending { register: x, held: old(self)@.keys }),
            ..old(self)@
        }));
    }

    /// Writes `value` to the delay timer.
    fn set_delay(&mut self, value: u8)
        ensures
            final(self)@ == (Machine { dt: value, ..old(self)@ }),
            final(self).pc == old(self).pc,
            final(self).sp == old(self).sp,
            final(self).key_wait == old(self).key_wait,
    {
        self.dt = value;
        assert(self@ =~~= (Machine { dt: value, ..old(self)@ }));
    }

    /// Writes `value` to the sound timer.
    fn set_sound(&mut self, value: u8)
        ensures
            final(self)@ == (Machine { st: value, ..old(self)@ }),
            final(self).pc == old(self).pc,
            final(self).sp == old(self).sp,
            final(self).key_wait == old(self).key_wait,
    {
        self.st = value;
        assert(self@ =~~= (Machine { st: value, ..old(self)@ }));
    }

    /// Executes an instruction that only moves the program counter, the
    /// stack or the whole display: clear, return, jump, call, jump with
    /// offset.
    fn execute_flow(&mut self, instr: Instruction, random: u8) -> (r: Result<(), Chip8Error>)
        requires
            old(self).wf(),
            old(self).key_wait is None,
            instr.wf(),
            old(self).pc + 1 < MEMORY_SIZE,
            is_flow(instr),
        ensures
            final(self).wf(),
            match old(self)@.execute(instr, random) {
                Ok(m) => r is Ok && final(self)@ == m,
                Err(e) => r == Err::<(), Chip8Error>(e) && *final(self) == *old(self),
            },
    {
        match instr {
            Instruction::ClearScreen => {
                self.clear_display();
                self.advance(2);
                Ok(())
            },
            Instruction::Return => self.ret(),
            Instruction::Jump { addr } => {
                self.jump(addr);
                Ok(())
            },
            Instruction::Call { addr } => self.call(addr),
            Instruction::JumpOffset { addr } => {
                let target: u16 = addr + self.v[0] as u16;
                self.jump(target);
                Ok(())
            },
            _ => Ok(()),
        }
    }

    /// Executes a conditional skip.
    fn execute_skip(&mut self, instr: Instruction, random: u8) -> (r: Result<(), Chip8Error>)
        requires
            old(self).wf(),
            old(self).key_wait is None,
            instr.wf(),
            old(self).pc + 1 < MEMORY_SIZE,
            is_skip(instr),
        ensures
            final(self).wf(),
            match old(self)@.execute(instr, random) {
                Ok(m) => r is Ok && final(self)@ == m,
                Err(e) => r == Err::<(), Chip8Error>(e) && *final(self) == *old(self),
            },
    {
        let skip: bool = match instr {
            Instruction::SkipEqImm { x, nn } => self.v[x as usize] == nn,
            Instruction::SkipNeImm { x, nn } => self.v[x as usize] != nn,
            Instruction::SkipEqReg { x, y } => self.v[x as usize] == self.v[y as usize],
            Instruction::SkipNeReg { x, y } => self.v[x as usize] != self.v[y as usize],
            Instruction::SkipKeyDown { x } => self.key_down(self.v[x as usize]),
            Instruction::SkipKeyUp { x } => !self.key_down(self.v[x as usize]),
            _ => false,
        };
        self.advance(if skip { 4 } else { 2 });
        Ok(())
    }

    /// Executes an instruction that writes a register or a timer.
    fn execute_register(&mut self, instr: Instruction, random: u8) -> (r: Result<(), Chip8Error>)
        requires
            old(self).wf(),
            old(self).key_wait is None,
            instr.wf(),
            old(self).pc + 1 < MEMORY_SIZE,
            is_register(instr),
        ensures
            final(self).wf(),
            match old(self)@.execute(instr, random) {
                Ok(m) => r is Ok && final(self)@ == m,
                Err(e) => r == Err::<(), Chip8Error>(e) && *final(self) == *old(self),
            },
    {
        match instr {
            Instruction::LoadImm { x, nn } => {
                self.set_register(x, nn);
            },
            Instruction::AddImm { x, nn } => {
                let sum: u8 = self.v[x as usize].wrapping_add(nn);
                self.set_register(x, sum);
            },
            Instruction::Alu { op, x, y } => {
                self.apply_alu(op, x, y);
            },
            Instruction::Random { x, nn } => {
                self.set_register(x, random & nn);
            },
            Instruction::ReadDelay { x } => {
                let value: u8 = self.dt;
                self.set_register(x, value);
            },
            Instruction::SetDelay { x } => {
                let value: u8 = self.v[x as usize];
                self.set_delay(value);
            },
            Instruction::SetSound { x } => {
                let value: u8 = self.v[x as usize];
                self.set_sound(value);
            },
            _ => {},
        }
        self.advance(2);
        Ok(())
    }

    /// Executes an instruction that works through I, draws, or begins a
    /// wait for a key.
    fn execute_indexed(&mut self, instr: Instruction, random: u8) -> (r: Result<(), Chip8Error>)
        requires
            old(self).wf(),
            old(self).key_wait is None,
            instr.wf(),
            old(self).pc + 1 < MEMORY_SIZE,
            !is_flow(instr) && !is_skip(instr) && !is_register(instr),
        ensures
            final(self).wf(),
            match old(self)@.execute(instr, random) {
                Ok(m) => r is Ok && final(self)@ == m,
                Err(e) => r == Err::<(), Chip8Error>(e) && *final(self) == *old(self),
            },
    {
        match instr {
            Instruction::LoadIndex { addr } => {
                self.set_index(addr);
            },
            Instruction::AddIndex { x } => {
                let sum: u16 = self.i.wrapping_add(self.v[x as usize] as u16);
                self.set_index(sum);
            },
            Instruction::FontAddr { x } => {
                let addr: u16 = 0x50 + 5 * (self.v[x as usize] as u16);
                self.set_index(addr);
            },
            Instruction::Draw { x, y, n } => {
                let vx: u8 = self.v[x as usize];
                let vy: u8 = self.v[y as usize];
                match self.draw_sprite(vx, vy, n) {
                    Ok(()) => {},
                    Err(e) => {
                        return Err(e);
                    },
                }
            },
            Instruction::WaitKey { x } => {
                self.begin_wait(x);
                return Ok(());
            },
            Instruction::StoreBcd { x } => {
                if self.i as usize + 2 >= 4096 {
                    return Err(Chip8Error::MemoryOutOfRange);
                }
                let value: u8 = self.v[x as usize];
                self.store_bcd(value);
            },
            Instruction::StoreRegs { x } => {
                if self.i as usize + x as usize >= 4096 {
                    return Err(Chip8Error::MemoryOutOfRange);
                }
                self.store_registers(x);
            },
            Instruction::LoadRegs { x } => {
                if self.i as usize + x as usize >= 4096 {
                    return Err(Chip8Error::MemoryOutOfRange);
                }
                self.load_registers(x);
            },
            _ => {},
        }
        self.advance(2);
        Ok(())
    }

    /// Executes one decoded instruction with the program counter on it, on
    /// a machine that is not waiting for a key. `random` is the byte that
    /// `CXNN` draws. An instruction that fails leaves the machine as it
    /// was.
    pub fn execute(&mut self, instr: Instruction, random: u8) -> (r: Result<(), Chip8Error>)
        requires
            old(self).wf(),
            old(self).key_wait is None,
            instr.wf(),
            old(self).pc + 1 < MEMORY_SIZE,
        ensures
            final(self).wf(),
            match old(self)@.execute(instr, random) {
                Ok(m) => r is Ok && final(self)@ == m,
                Err(e) => r == Err::<(), Chip8Error>(e) && *final(self) == *old(self),
            },
    {
        match instr {
            Instruction::ClearScreen
            | Instruction::Return
            | Instruction::Jump { .. }
            | Instruction::Call { .. }
            | Instruction::JumpOffset { .. } => self.execute_flow(instr, random),
            Instruction::SkipEqImm { .. }
            | Instruction::SkipNeImm { .. }
            | Instruction::SkipEqReg { .. }
            | Instruction::SkipNeReg { .. }
            | Instruction::SkipKeyDown { .. }
            | Instruction::SkipKeyUp { .. } => self.execute_skip(instr, random),
            Instruction::LoadImm { .. }
            | Instruction::AddImm { .. }
            | Instruction::Alu { .. }
            | Instruction::Random { .. }
            | Instruction::ReadDelay { .. }
            | Instruction::SetDelay { .. }
            | Instruction::SetSound { .. } => self.execute_register(instr, random),
            Instruction::LoadIndex { .. }
            | Instruction::AddIndex { .. }
            | Instruction::FontAddr { .. }
            | Instruction::Draw { .. }
            | Instruction::WaitKey { .. }
            | Instruction::StoreBcd { .. }
            | Instruction::StoreRegs { .. }
            | Instruction::LoadRegs { .. } => self.execute_indexed(instr, random),
        }
    }

    /// Runs one step with `random` as the byte that `CXNN` would draw. A
    /// machine that waits for a key looks at the keys and fetches nothing;
    /// any other fetches the word at the program counter, decodes it and
    /// executes it. A word that is no instruction is reported, and only the
    /// program counter moves. A step that fails leaves the machine as it
    /// was.
    pub fn step(&mut self, random: u8) -> (r: Result<StepOutcome, Chip8Error>)
        requires
            old(self).wf(),
        ensures
            final(self).wf(),
            final(self)@ == old(self)@.step(random),
            r == old(self)@.step_result(random),
            r is Err ==> *final(self) == *old(self),
    {
        match self.key_wait {
            Some(wait) => {
                match first_new(&wait.held, &self.keyboard) {
                    Some(key) => {
                        self.v[wait.register as usize] = key;
                        self.key_wait = None;
                        self.pc = self.pc + 2;
                        assert(self@ =~~= old(self)@.step(random));
                        Ok(StepOutcome::Executed(Instruction::WaitKey { x: wait.register }))
                    },
                    None => {
                        self.key_wait = Some(
                            KeyWait { register: wait.register, held: self.keyboard },
                        );
                        assert(self@ =~~= old(self)@.step(random));
                        Ok(StepOutcome::AwaitingKey)
                    },
                }
            },
            None => {
                let word: u16 = match self.fetch() {
                    Some(word) => word,
                    None => {
                        return Err(Chip8Error::PcOutOfRange);
                    },
                };
                match decode(word) {
                    None => {
                        self.pc = self.pc + 2;
                        assert(self@ =~~= old(self)@.step(random));
                        Ok(StepOutcome::InvalidOpcode(word))
                    },
                    Some(instr) => {
                        match self.execute(instr, random) {
                            Err(e) => Err(e),
                            Ok(()) => match instr {
                                Instruction::WaitKey { .. } => Ok(StepOutcome::AwaitingKey),
                                _ => Ok(StepOutcome::Executed(instr)),
                            },
                        }
                    },
                }
            },
        }
    }

    /// Runs one step, drawing the byte for `CXNN` from the thread's random
    /// number generator. The step is [`Chip8::step`] for the byte drawn;
    /// where the instruction is not `CXNN` the byte does not matter.
    pub fn emulate_cycle(&mut self) -> (r: Result<StepOutcome, Chip8Error>)
        requires
            old(self).wf(),
        ensures
            final(self).wf(),
            exists|random: u8|
                final(self)@ == #[trigger] old(self)@.step(random) && r == old(
                    self,
                )@.step_result(random),
            !(old(self)@.fetched() matches Some(Instruction::Random { .. })) ==> final(self)@
                == old(self)@.step(0) && r == old(self)@.step_result(0),
            r is Err ==> *final(self) == *old(self),
    {
        let random: u8 = random_byte();
        proof {
            if !(self@.fetched() matches Some(Instruction::Random { .. })) {
                self@.lemma_random_matters_to_cxnn_only(random, 0);
            }
        }
        self.step(random)
    }
}

} // verus!
