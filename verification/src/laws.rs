//! Laws of the machine: what holds of every state and every step.

use vstd::prelude::*;
use crate::alu::{add_wrapping, alu_flag, alu_value};
use crate::error::{Chip8Error, StepOutcome};
use crate::font::{font_table, glyph_address, GLYPH_ROWS};
use crate::instruction::{decoded, AluOp, Instruction};
use crate::machine::{
    blank_display, countdown, first_new_key, first_new_key_from, newly_pressed, Machine, Pending,
    DISPLAY_HEIGHT, DISPLAY_WIDTH, MEMORY_SIZE, REGISTERS, STACK_DEPTH,
};

verus! {

/// Executing an instruction keeps the machine's invariant.
pub proof fn lemma_execute_keeps_inv(m: Machine, instr: Instruction, random: u8)
    requires
        m.inv(),
        m.wait is None,
        instr.wf(),
        m.pc + 1 < MEMORY_SIZE,
    ensures
        m.execute(instr, random) matches Ok(after) ==> after.inv(),
{
}

/// A step keeps the machine's invariant: the sizes of its parts never
/// change, and the stack never holds more than sixteen return addresses.
pub proof fn lemma_step_keeps_inv(m: Machine, random: u8)
    requires
        m.inv(),
    ensures
        m.step(random).inv(),
{
    match m.wait {
        Some(p) => {},
        None => match m.fetch() {
            None => {},
            Some(word) => match decoded(word) {
                None => {},
                Some(instr) => {
                    crate::instruction::lemma_encode_decode(word);
                    lemma_execute_keeps_inv(m, instr, random);
                },
            },
        },
    }
}

/// A step that fails changes nothing.
pub proof fn lemma_failed_step_changes_nothing(m: Machine, random: u8)
    requires
        m.step_result(random) is Err,
    ensures
        m.step(random) == m,
{
}

/// A word that is no instruction is reported and skipped: the program
/// counter moves on by two and everything else stays as it was.
pub proof fn lemma_invalid_opcode_moves_pc_only(m: Machine, random: u8)
    requires
        m.wait is None,
        m.fetch() is Some,
        decoded(m.fetch()->Some_0) is None,
    ensures
        m.step(random) == (Machine { pc: (m.pc + 2) as u16, ..m }),
        m.step_result(random) == Ok::<StepOutcome, Chip8Error>(
            StepOutcome::InvalidOpcode(m.fetch()->Some_0),
        ),
{
}

/// The keys belong to the host: no step changes them.
pub proof fn lemma_step_keeps_keys(m: Machine, random: u8)
    ensures
        m.step(random).keys == m.keys,
{
}

/// The display has two writers: a step changes it only where it executes
/// a draw or a clear.
pub proof fn lemma_display_writers(m: Machine, random: u8)
    requires
        !(m.fetched() matches Some(Instruction::Draw { .. })),
        !(m.fetched() matches Some(Instruction::ClearScreen)),
    ensures
        m.step(random).display == m.display,
{
}

/// Memory has two writers: a step changes it only where it executes
/// `FX33` or `FX55`. The font and the program stay as they were loaded
/// through every other step.
pub proof fn lemma_memory_writers(m: Machine, random: u8)
    requires
        !(m.fetched() matches Some(Instruction::StoreBcd { .. })),
        !(m.fetched() matches Some(Instruction::StoreRegs { .. })),
    ensures
        m.step(random).memory == m.memory,
{
}

/// `7XNN` adds modulo 256 and sets no flag: VX becomes the wrapped sum and
/// every other register, VF among them, keeps its value.
pub proof fn lemma_add_imm_sets_no_flag(m: Machine, x: u8, nn: u8, random: u8)
    requires
        m.inv(),
        x < REGISTERS,
    ensures
        m.execute(Instruction::AddImm { x, nn }, random) matches Ok(after) && after.v[x as int]
            == add_wrapping(m.v[x as int], nn) && (forall|k: int|
            0 <= k < REGISTERS && k != x ==> after.v[k] == m.v[k]),
{
}

/// The flag of an `8XY_` operation is computed from the values that VX and
/// VY held before the operation, and it is what VF holds afterwards, also
/// where X or Y is F. Where X is not F, VX holds the operation's value. An
/// operation without a flag leaves VF alone unless X is F.
pub proof fn lemma_alu_flag_from_operands(m: Machine, op: AluOp, x: u8, y: u8, random: u8)
    requires
        m.inv(),
        x < REGISTERS,
        y < REGISTERS,
    ensures
        m.execute(Instruction::Alu { op, x, y }, random) matches Ok(after) && {
            let vx = m.v[x as int];
            let vy = m.v[y as int];
            &&& alu_flag(op, vx, vy) matches Some(flag) ==> after.v[0xF] == flag
            &&& x != 0xF ==> after.v[x as int] == alu_value(op, vx, vy)
            &&& alu_flag(op, vx, vy) is None && x != 0xF ==> after.v[0xF] == m.v[0xF]
            &&& forall|k: int| 0 <= k < 0xF && k != x ==> after.v[k] == m.v[k]
        },
{
}

/// A call followed by a return comes back: where the machine stands on a
/// call with room on the stack and the subroutine begins with a return, two
/// steps leave the program counter on the instruction after the call and
/// everything else, the stack among it, as it was.
pub proof fn lemma_call_then_return(m: Machine, addr: u16, r1: u8, r2: u8)
    requires
        m.inv(),
        m.calls.len() < STACK_DEPTH,
        m.fetched() == Some(Instruction::Call { addr }),
        m.step(r1).fetched() == Some(Instruction::Return),
    ensures
        m.step(r1).calls == m.calls.push((m.pc + 2) as u16),
        m.step(r1).pc == addr,
        m.step(r1).step(r2) == (Machine { pc: (m.pc + 2) as u16, ..m }),
{
    let called = m.step(r1);
    assert(called.calls.drop_last() =~= m.calls);
}

/// A timer that has counted down `a` ticks and then `b` ticks has counted
/// down `a + b` ticks.
pub proof fn lemma_countdown_adds(timer: u8, a: nat, b: nat)
    ensures
        countdown(countdown(timer, a), b) == countdown(timer, a + b),
{
}

/// A timer that holds at least `ticks` loses exactly `ticks`; one that
/// holds less stops at zero.
pub proof fn lemma_countdown_exact(timer: u8, ticks: nat)
    ensures
        ticks <= timer ==> countdown(timer, ticks) == timer - ticks,
        ticks > timer ==> countdown(timer, ticks) == 0,
{
}

/// Ticks add up: `a` ticks and then `b` ticks are `a + b` ticks.
pub proof fn lemma_tick_adds(m: Machine, a: nat, b: nat)
    ensures
        m.tick(a).tick(b) == m.tick(a + b),
{
}

/// A step does not count the timers down: the delay timer changes only
/// where the step executes `FX15`, the sound timer only where it executes
/// `FX18`, and each then holds VX.
pub proof fn lemma_step_keeps_timers(m: Machine, random: u8)
    requires
        m.inv(),
    ensures
        m.step(random).dt == match m.fetched() {
            Some(Instruction::SetDelay { x }) => m.v[x as int],
            _ => m.dt,
        },
        m.step(random).st == match m.fetched() {
            Some(Instruction::SetSound { x }) => m.v[x as int],
            _ => m.st,
        },
{
}

/// Ticks and steps do not disturb each other: where the step does not read
/// or set a timer, ticking before the step and ticking after it leave the
/// same machine, so the timers lose the ticks that passed however many
/// steps ran in between.
pub proof fn lemma_tick_commutes_with_step(m: Machine, ticks: nat, random: u8)
    requires
        m.inv(),
        !(m.fetched() matches Some(Instruction::ReadDelay { .. })),
        !(m.fetched() matches Some(Instruction::SetDelay { .. })),
        !(m.fetched() matches Some(Instruction::SetSound { .. })),
    ensures
        m.tick(ticks).step(random) == m.step(random).tick(ticks),
        m.tick(ticks).step_result(random) == m.step_result(random),
{
    let t = m.tick(ticks);
    assert(t.fetch() == m.fetch());
    match m.wait {
        Some(p) => {},
        None => match m.fetch() {
            None => {},
            Some(word) => match decoded(word) {
                None => {},
                Some(instr) => {
                    lemma_tick_commutes_with_execute(m, instr, ticks, random);
                },
            },
        },
    }
}

/// Ticking commutes with executing an instruction that neither reads nor
/// sets a timer.
pub proof fn lemma_tick_commutes_with_execute(
    m: Machine,
    instr: Instruction,
    ticks: nat,
    random: u8,
)
    requires
        !(instr is ReadDelay),
        !(instr is SetDelay),
        !(instr is SetSound),
    ensures
        match m.execute(instr, random) {
            Ok(after) => m.tick(ticks).execute(instr, random) == Ok::<Machine, Chip8Error>(
                after.tick(ticks),
            ),
            Err(e) => m.tick(ticks).execute(instr, random) == Err::<Machine, Chip8Error>(e),
        },
{
    let t = m.tick(ticks);
    match instr {
        Instruction::Draw { x, y, n } => {
            let vx = m.v[x as int];
            let vy = m.v[y as int];
            assert forall|px: int, py: int|
                t.sprite_hits(vx, vy, n, px, py) == m.sprite_hits(vx, vy, n, px, py) by {}
            assert(t.collides(vx, vy, n) == m.collides(vx, vy, n)) by {
                if m.collides(vx, vy, n) {
                    let (px, py) = choose|px: int, py: int|
                        0 <= px < DISPLAY_WIDTH && 0 <= py < DISPLAY_HEIGHT
                            && #[trigger] m.sprite_hits(vx, vy, n, px, py);
                    assert(t.sprite_hits(vx, vy, n, px, py));
                }
                if t.collides(vx, vy, n) {
                    let (px, py) = choose|px: int, py: int|
                        0 <= px < DISPLAY_WIDTH && 0 <= py < DISPLAY_HEIGHT
                            && #[trigger] t.sprite_hits(vx, vy, n, px, py);
                    assert(m.sprite_hits(vx, vy, n, px, py));
                }
            }
            assert(t.drawn(vx, vy, n) =~~= m.drawn(vx, vy, n));
        },
        _ => {},
    }
}

/// Drawing is its own inverse: the same sprite drawn twice at the same
/// place leaves the display as it was before the first drawing.
pub proof fn lemma_draw_twice_restores(m: Machine, vx: u8, vy: u8, n: u8)
    requires
        m.inv(),
        n > 0 ==> m.i + n <= MEMORY_SIZE,
    ensures
        m.draw_sprite(vx, vy, n) matches Ok(once) && once.draw_sprite(vx, vy, n) matches Ok(twice)
            && twice.display == m.display,
{
    let once = m.draw_sprite(vx, vy, n)->Ok_0;
    let twice = once.draw_sprite(vx, vy, n)->Ok_0;
    assert forall|px: int, py: int|
        once.sprite_covers(vx, vy, n, px, py) == m.sprite_covers(vx, vy, n, px, py) by {}
    assert(twice.display =~~= m.display);
}

/// On a blank display a sprite meets no lit pixel, and drawn a second time
/// it meets its own: the first drawing leaves VF at 0, and the second sets
/// VF to 1 exactly where the sprite has a set bit, and leaves the display
/// blank again.
pub proof fn lemma_draw_twice_on_blank(m: Machine, vx: u8, vy: u8, n: u8)
    requires
        m.inv(),
        m.display == blank_display(),
        n < 16,
        n > 0 ==> m.i + n <= MEMORY_SIZE,
    ensures
        m.draw_sprite(vx, vy, n) matches Ok(once) && once.draw_sprite(vx, vy, n) matches Ok(twice)
            && {
            let set = exists|px: int, py: int|
                0 <= px < DISPLAY_WIDTH && 0 <= py < DISPLAY_HEIGHT && #[trigger] m.sprite_covers(
                    vx,
                    vy,
                    n,
                    px,
                    py,
                );
            &&& once.v[0xF] == 0
            &&& twice.v[0xF] == if set { 1u8 } else { 0u8 }
            &&& twice.display == blank_display()
        },
{
    lemma_draw_twice_restores(m, vx, vy, n);
    let once = m.draw_sprite(vx, vy, n)->Ok_0;
    assert forall|px: int, py: int|
        once.sprite_covers(vx, vy, n, px, py) == m.sprite_covers(vx, vy, n, px, py) by {}
    assert(!m.collides(vx, vy, n)) by {
        assert forall|px: int, py: int| 0 <= px < DISPLAY_WIDTH && 0 <= py < DISPLAY_HEIGHT implies !(
        #[trigger] m.sprite_hits(vx, vy, n, px, py)) by {}
    }
    let set = exists|px: int, py: int|
        0 <= px < DISPLAY_WIDTH && 0 <= py < DISPLAY_HEIGHT && #[trigger] m.sprite_covers(
            vx,
            vy,
            n,
            px,
            py,
        );
    if set {
        let (px, py) = choose|px: int, py: int|
            0 <= px < DISPLAY_WIDTH && 0 <= py < DISPLAY_HEIGHT && #[trigger] m.sprite_covers(
                vx,
                vy,
                n,
                px,
                py,
            );
        assert(once.sprite_hits(vx, vy, n, px, py));
    }
    if once.collides(vx, vy, n) {
        let (px, py) = choose|px: int, py: int|
            0 <= px < DISPLAY_WIDTH && 0 <= py < DISPLAY_HEIGHT && #[trigger] once.sprite_hits(
                vx,
                vy,
                n,
                px,
                py,
            );
        assert(m.sprite_covers(vx, vy, n, px, py));
    }
}

/// The key that ends a wait is newly pressed and is the lowest such key;
/// where the wait goes on, no key is newly pressed.
pub proof fn lemma_first_new_key(held: Seq<bool>, keys: Seq<bool>)
    ensures
        match first_new_key(held, keys) {
            Some(key) => newly_pressed(held, keys, key as int) && forall|k: int|
                0 <= k < key ==> !newly_pressed(held, keys, k),
            None => forall|k: int| 0 <= k < REGISTERS ==> !newly_pressed(held, keys, k),
        },
{
    lemma_first_new_key_from(held, keys, 0);
}

/// The scan for a newly pressed key from `from` on finds the lowest one at
/// or above `from`.
proof fn lemma_first_new_key_from(held: Seq<bool>, keys: Seq<bool>, from: int)
    requires
        0 <= from <= REGISTERS,
    ensures
        match first_new_key_from(held, keys, from) {
            Some(key) => from <= key && newly_pressed(held, keys, key as int) && forall|k: int|
                from <= k < key ==> !newly_pressed(held, keys, k),
            None => forall|k: int| from <= k < REGISTERS ==> !newly_pressed(held, keys, k),
        },
    decreases REGISTERS - from,
{
    if from < REGISTERS && !newly_pressed(held, keys, from) {
        lemma_first_new_key_from(held, keys, from + 1);
    }
}

/// A machine that waits for a key does nothing until a key is newly
/// pressed: a step without one reports that it waits, fetches nothing, and
/// leaves memory, registers, program counter, stack, timers and display as
/// they were.
pub proof fn lemma_waiting_step_is_idle(m: Machine, p: Pending, random: u8)
    requires
        m.wait == Some(p),
        forall|k: int| 0 <= k < REGISTERS ==> !newly_pressed(p.held, m.keys, k),
    ensures
        m.step_result(random) == Ok::<StepOutcome, Chip8Error>(StepOutcome::AwaitingKey),
        m.step(random) == (Machine {
            wait: Some(Pending { register: p.register, held: m.keys }),
            ..m
        }),
{
    lemma_first_new_key(p.held, m.keys);
}

/// A key press ends the wait: the step that sees a newly pressed key
/// stores the lowest such key in the waiting register, moves the program
/// counter past the `FX0A` and changes nothing else.
pub proof fn lemma_key_press_ends_wait(m: Machine, p: Pending, key: u8, random: u8)
    requires
        m.wait == Some(p),
        newly_pressed(p.held, m.keys, key as int),
        forall|k: int| 0 <= k < key ==> !newly_pressed(p.held, m.keys, k),
    ensures
        m.step_result(random) == Ok::<StepOutcome, Chip8Error>(
            StepOutcome::Executed(Instruction::WaitKey { x: p.register }),
        ),
        m.step(random) == (Machine {
            wait: None,
            v: m.v.update(p.register as int, key),
            pc: (m.pc + 2) as u16,
            ..m
        }),
{
    lemma_first_new_key(p.held, m.keys);
}

/// The font stands in a fresh machine where `FX29` looks for it: the five
/// bytes from the glyph address of a hexadecimal digit are that digit's
/// rows.
pub proof fn lemma_glyphs_in_place(digit: u8, row: int)
    requires
        digit < 16,
        0 <= row < GLYPH_ROWS,
    ensures
        Machine::initial().memory[glyph_address(digit) + row] == font_table()[GLYPH_ROWS * digit
            + row],
{
}

/// The program counter and every return address on the stack are even.
pub open spec fn aligned(m: Machine) -> bool {
    &&& m.pc % 2 == 0
    &&& forall|k: int| 0 <= k < m.calls.len() ==> #[trigger] m.calls[k] % 2 == 0
}

/// Whether an instruction, executed on `m`, sends the program counter to
/// an odd address of its own choosing.
pub open spec fn transfers_to_odd(m: Machine, instr: Instruction) -> bool {
    match instr {
        Instruction::Jump { addr } | Instruction::Call { addr } => addr % 2 != 0,
        Instruction::JumpOffset { addr } => (addr + m.v[0]) % 2 != 0,
        _ => false,
    }
}

/// Executing an instruction keeps the program counter and the return
/// addresses even, unless the instruction jumps or calls to an odd address.
#[verifier::rlimit(40)]
pub proof fn lemma_execute_keeps_alignment(m: Machine, instr: Instruction, random: u8)
    requires
        m.inv(),
        aligned(m),
        instr.wf(),
        m.pc + 1 < MEMORY_SIZE,
        !transfers_to_odd(m, instr),
    ensures
        m.execute(instr, random) matches Ok(after) ==> aligned(after),
{
    match instr {
        Instruction::Return => {
            if m.calls.len() > 0 {
                let after = m.execute(instr, random)->Ok_0;
                assert(m.calls[m.calls.len() - 1] % 2 == 0);
                assert forall|k: int| 0 <= k < after.calls.len() implies #[trigger] after.calls[k]
                    % 2 == 0 by {
                    assert(after.calls[k] == m.calls[k]);
                }
            }
        },
        Instruction::Call { addr } => {
            if m.calls.len() < STACK_DEPTH {
                let after = m.execute(instr, random)->Ok_0;
                assert forall|k: int| 0 <= k < after.calls.len() implies #[trigger] after.calls[k]
                    % 2 == 0 by {
                    if k < m.calls.len() {
                        assert(after.calls[k] == m.calls[k]);
                    }
                }
            }
        },
        Instruction::Draw { x, y, n } => {},
        _ => {},
    }
}

/// The program counter stays even: where it is even and so is every return
/// address on the stack, they are even after a step too, unless the step
/// jumps or calls to an odd address.
pub proof fn lemma_step_keeps_alignment(m: Machine, random: u8)
    requires
        m.inv(),
        aligned(m),
        m.fetched() matches Some(instr) ==> !transfers_to_odd(m, instr),
    ensures
        aligned(m.step(random)),
{
    match m.wait {
        Some(p) => {},
        None => match m.fetch() {
            None => {},
            Some(word) => match decoded(word) {
                None => {},
                Some(instr) => {
                    crate::instruction::lemma_encode_decode(word);
                    lemma_execute_keeps_alignment(m, instr, random);
                },
            },
        },
    }
}

} // verus!
