//! The executable machine.

use vstd::prelude::*;
use crate::error::Chip8Error;
use crate::font::{font_table, fontset, FONT_BASE};
use crate::machine::{
    Machine, Pending, DISPLAY_HEIGHT, DISPLAY_WIDTH, MAX_ROM_SIZE, MEMORY_SIZE, PROGRAM_START,
    REGISTERS, STACK_DEPTH,
};

verus! {

/// A wait for a key press that `FX0A` has begun.
#[derive(Clone, Copy, Debug)]
pub struct KeyWait {
    /// The register that receives the key.
    pub register: u8,
    /// The keys that were down when the machine last looked.
    pub held: [bool; 16],
}

/// A CHIP-8 machine: memory, registers, call stack, timers, keypad and
/// display, owned by one value.
#[derive(Debug)]
pub struct Chip8 {
    /// The 4096 bytes of memory.
    pub memory: [u8; 4096],
    /// The registers V0 to VF.
    pub v: [u8; 16],
    /// The address register I.
    pub i: u16,
    /// The delay timer.
    pub dt: u8,
    /// The sound timer.
    pub st: u8,
    /// The program counter.
    pub pc: u16,
    /// The number of return addresses on the stack.
    pub sp: u8,
    /// The call stack: slots below `sp` hold the return addresses.
    pub stack: [u16; 16],
    /// The sixteen keys, written by the host: `true` for a key that is down.
    pub keyboard: [bool; 16],
    /// The display: 32 rows of 64 pixels, `true` for a lit pixel.
    pub display: [[bool; 64]; 32],
    /// The wait for a key press, if one is in progress.
    pub key_wait: Option<KeyWait>,
}

impl View for KeyWait {
    type V = Pending;

    open spec fn view(&self) -> Pending {
        Pending { register: self.register, held: self.held@ }
    }
}

impl View for Chip8 {
    type V = Machine;

    open spec fn view(&self) -> Machine {
        Machine {
            memory: self.memory@,
            v: self.v@,
            i: self.i,
            pc: self.pc,
            calls: self.stack@.take(self.sp as int),
            dt: self.dt,
            st: self.st,
            keys: self.keyboard@,
            display: Seq::new(DISPLAY_HEIGHT as nat, |y: int| self.display[y]@),
            wait: match self.key_wait {
                Some(w) => Some(w@),
                None => None,
            },
        }
    }
}

impl Chip8 {
    /// The stack pointer counts at most sixteen return addresses, and a
    /// wait for a key names a register and began at an instruction inside
    /// memory.
    pub open spec fn wf(&self) -> bool {
        &&& self.sp <= STACK_DEPTH
        &&& self.key_wait matches Some(w) ==> w.register < REGISTERS && self.pc + 1 < MEMORY_SIZE
    }

    /// A well-formed machine has a well-formed view.
    pub proof fn lemma_wf_view(&self)
        requires
            self.wf(),
        ensures
            self@.inv(),
    {
    }

    /// Whether the machine is well formed. A host that writes the fields
    /// itself can test this before it hands the machine back.
    pub fn is_wf(&self) -> (ok: bool)
        ensures
            ok == self.wf(),
    {
        if self.sp > 16 {
            return false;
        }
        match self.key_wait {
            Some(w) => w.register < 16 && self.pc < 4095,
            None => true,
        }
    }

    /// A machine at power-on: the font in memory at its base address,
    /// everything else zero, blank, empty or up.
    pub fn new() -> (chip: Chip8)
        ensures
            chip.wf(),
            chip@ == Machine::initial(),
    {
        let font: [u8; 80] = fontset();
        let mut memory: [u8; 4096] = [0u8; 4096];
        let mut k: usize = 0;
        while k < 80
            invariant
                k <= 80,
                font@ == font_table(),
                forall|a: int|
                    0 <= a < MEMORY_SIZE ==> memory[a] == if FONT_BASE <= a < FONT_BASE + k {
                        font_table()[a - FONT_BASE]
                    } else {
                        0u8
                    },
            decreases 80 - k,
        {
            memory[FONT_BASE as usize + k] = font[k];
            k += 1;
        }
        let chip = Chip8 {
            memory,
            v: [0u8; 16],
            i: 0,
            dt: 0,
            st: 0,
            pc: 0,
            sp: 0,
            stack: [0u16; 16],
            keyboard: [false; 16],
            display: [[false; 64]; 32],
            key_wait: None,
        };
        assert(chip@ =~~= Machine::initial());
        chip
    }

    /// Puts the machine back into its power-on state.
    pub fn reset(&mut self)
        ensures
            final(self).wf(),
            final(self)@ == Machine::initial(),
    {
        *self = Chip8::new();
    }

    /// Copies a program image to the program start and sets the program
    /// counter there. An image that does not fit between the program start
    /// and the end of memory is refused, and the machine is left as it was.
    pub fn load_rom(&mut self, rom: &[u8]) -> (r: Result<(), Chip8Error>)
        requires
            old(self).wf(),
        ensures
            final(self).wf(),
            rom@.len() <= MAX_ROM_SIZE ==> r is Ok && final(self)@ == old(self)@.load(rom@),
            rom@.len() > MAX_ROM_SIZE ==> r == Err::<(), Chip8Error>(Chip8Error::RomTooLarge)
                && *final(self) == *old(self),
    {
        let len: usize = rom.len();
        if len > MAX_ROM_SIZE {
            return Err(Chip8Error::RomTooLarge);
        }
        let mut k: usize = 0;
        while k < len
            invariant
                k <= len,
                len == rom@.len(),
                len <= MAX_ROM_SIZE,
                self.v == old(self).v,
                self.i == old(self).i,
                self.dt == old(self).dt,
                self.st == old(self).st,
                self.pc == old(self).pc,
                self.sp == old(self).sp,
                self.stack == old(self).stack,
                self.keyboard == old(self).keyboard,
                self.display == old(self).display,
                self.key_wait == old(self).key_wait,
                forall|a: int|
                    0 <= a < MEMORY_SIZE ==> self.memory[a] == if PROGRAM_START <= a
                        < PROGRAM_START + k {
                        rom@[a - PROGRAM_START]
                    } else {
                        old(self).memory[a]
                    },
            decreases len - k,
        {
            self.memory[PROGRAM_START as usize + k] = rom[k];
            k += 1;
        }
        self.pc = PROGRAM_START;
        assert(self@ =~~= old(self)@.load(rom@));
        Ok(())
    }

    /// Counts the delay timer and the sound timer down by `ticks` ticks.
    /// Each stops at zero. Nothing else changes, however many instructions
    /// have run since the last tick.
    pub fn advance_timers(&mut self, ticks: u64)
        ensures
            final(self)@ == old(self)@.tick(ticks as nat),
            final(self).wf() == old(self).wf(),
    {
        let step: u8 = if ticks > 255 { 255 } else { ticks as u8 };
        self.dt = self.dt.saturating_sub(step);
        self.st = self.st.saturating_sub(step);
        assert(self@ =~~= old(self)@.tick(ticks as nat));
    }

    /// Counts both timers down by one tick.
    pub fn tick_timers(&mut self)
        ensures
            final(self)@ == old(self)@.tick(1),
            final(self).wf() == old(self).wf(),
    {
        self.advance_timers(1);
    }

    /// Records that the host saw key `key` go down or up. A key above F
    /// does not exist: the call then changes nothing.
    pub fn set_key(&mut self, key: u8, down: bool)
        ensures
            final(self)@ == old(self)@.set_key(key, down),
            final(self).wf() == old(self).wf(),
    {
        if key < 16 {
            self.keyboard[key as usize] = down;
        }
        assert(self@ =~~= old(self)@.set_key(key, down));
    }

    /// Whether the pixel in column `x` of row `y` is lit.
    pub fn pixel(&self, x: usize, y: usize) -> (lit: bool)
        requires
            x < DISPLAY_WIDTH,
            y < DISPLAY_HEIGHT,
        ensures
            lit == self@.display[y as int][x as int],
    {
        self.display[y][x]
    }

    /// Whether the sound timer is running, which is when the host sounds
    /// its tone.
    pub fn sound_on(&self) -> (on: bool)
        ensures
            on == (self@.st > 0),
    {
        self.st > 0
    }

    /// Whether key `key` is down. A key above F does not exist and is never
    /// down.
    pub fn key_down(&self, key: u8) -> (down: bool)
        ensures
            down == self@.key_down(key),
    {
        key < 16 && self.keyboard[key as usize]
    }

    /// Fetches the big-endian word at the program counter.
    pub fn fetch(&self) -> (word: Option<u16>)
        ensures
            word == self@.fetch(),
    {
        if self.pc as usize + 1 >= MEMORY_SIZE {
            return None;
        }
        let at: usize = self.pc as usize;
        let high: u16 = self.memory[at] as u16;
        let low: u16 = self.memory[at + 1] as u16;
        assert((high << 8) | low == 0x100 * high + low) by (bit_vector)
            requires
                high < 0x100,
                low < 0x100,
        ;
        Some((high << 8) | low)
    }
}

impl Default for Chip8 {
    /// A machine at power-on, as [`Chip8::new`] makes it.
    fn default() -> (chip: Chip8)
        ensures
            chip.wf(),
            chip@ == Machine::initial(),
    {
        Chip8::new()
    }
}

} // verus!
