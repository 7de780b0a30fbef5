//! The register dump: the state of the registers as text, for a host that
//! wants to show it.

use vstd::prelude::*;
use crate::chip8::Chip8;
use crate::machine::{Machine, REGISTERS};

verus! {

/// The character for a digit below sixteen: `0` to `9`, then `A` to `F`.
pub open spec fn digit_char(digit: int) -> char {
    if digit == 0 {
        '0'
    } else if digit == 1 {
        '1'
    } else if digit == 2 {
        '2'
    } else if digit == 3 {
        '3'
    } else if digit == 4 {
        '4'
    } else if digit == 5 {
        '5'
    } else if digit == 6 {
        '6'
    } else if digit == 7 {
        '7'
    } else if digit == 8 {
        '8'
    } else if digit == 9 {
        '9'
    } else if digit == 10 {
        'A'
    } else if digit == 11 {
        'B'
    } else if digit == 12 {
        'C'
    } else if digit == 13 {
        'D'
    } else if digit == 14 {
        'E'
    } else {
        'F'
    }
}

/// The last `width` digits of `value` written in base `base`, the most
/// significant first, with leading zeros.
pub open spec fn digits(value: nat, base: nat, width: nat) -> Seq<char>
    decreases width,
{
    if width == 0 {
        Seq::empty()
    } else {
        digits(value / base, base, (width - 1) as nat).push(digit_char((value % base) as int))
    }
}

/// One register in the dump: `v`, the register's hexadecimal digit, a colon
/// and a space, and the register's value as eight binary digits.
pub open spec fn register_text(m: Machine, k: int) -> Seq<char> {
    seq!['v', digit_char(k), ':', ' '] + digits(m.v[k] as nat, 2, 8)
}

/// The registers from `k` on in the dump, four to a line, separated by a
/// comma and a space.
pub open spec fn registers_text(m: Machine, k: int) -> Seq<char>
    decreases REGISTERS - k,
{
    if k < 0 || k >= REGISTERS {
        Seq::empty()
    } else {
        register_text(m, k) + (if k % 4 == 3 {
            seq!['\n']
        } else {
            seq![',', ' ']
        }) + registers_text(m, k + 1)
    }
}

/// The last line of the dump: I as sixteen binary digits, the two timers
/// as eight binary digits each, and the program counter as four
/// hexadecimal digits.
pub open spec fn control_text(m: Machine) -> Seq<char> {
    seq!['i', ':', ' '] + digits(m.i as nat, 2, 16) + seq![',', ' ', 'd', 't', ':', ' '] + digits(
        m.dt as nat,
        2,
        8,
    ) + seq![',', ' ', 's', 't', ':', ' '] + digits(m.st as nat, 2, 8) + seq![
        ',',
        ' ',
        'p',
        'c',
        ':',
        ' ',
    ] + digits(m.pc as nat, 16, 4) + seq!['\n']
}

/// The register dump: four lines of four registers each, then the line of
/// I, the timers and the program counter.
pub open spec fn dump_text(m: Machine) -> Seq<char> {
    registers_text(m, 0) + control_text(m)
}

/// Appends one character with `String::push`. The string then holds the
/// characters it held before, followed by `c`.
#[verifier::external_body]
fn push_char(text: &mut String, c: char)
    ensures
        final(text)@ == old(text)@.push(c),
{
    text.push(c);
}

/// The character for a digit below sixteen.
fn digit_to_char(digit: u8) -> (c: char)
    requires
        digit < 16,
    ensures
        c == digit_char(digit as int),
{
    match digit {
        0 => '0',
        1 => '1',
        2 => '2',
        3 => '3',
        4 => '4',
        5 => '5',
        6 => '6',
        7 => '7',
        8 => '8',
        9 => '9',
        10 => 'A',
        11 => 'B',
        12 => 'C',
        13 => 'D',
        14 => 'E',
        _ => 'F',
    }
}

/// Appends the last `width` digits of `value` in base `base`.
fn push_digits(text: &mut String, value: u16, base: u16, width: usize)
    requires
        2 <= base <= 16,
        width <= 16,
    ensures
        final(text)@ == old(text)@ + digits(value as nat, base as nat, width as nat),
{
    let mut buf: [char; 16] = ['0'; 16];
    let mut rest: u16 = value;
    let mut done: usize = 0;
    while done < width
        invariant
            done <= width <= 16,
            2 <= base <= 16,
            digits(value as nat, base as nat, width as nat) == digits(
                rest as nat,
                base as nat,
                (width - done) as nat,
            ) + buf@.subrange(16 - done, 16),
        decreases width - done,
    {
        let ghost tail: Seq<char> = buf@.subrange(16 - done, 16);
        let c: char = digit_to_char((rest % base) as u8);
        buf[15 - done] = c;
        proof {
            assert(buf@.subrange(16 - done - 1, 16) =~= seq![c] + tail);
            assert(digits(rest as nat, base as nat, (width - done) as nat) == digits(
                (rest / base) as nat,
                base as nat,
                (width - done - 1) as nat,
            ).push(c));
            assert(digits((rest / base) as nat, base as nat, (width - done - 1) as nat).push(c)
                + tail =~= digits((rest / base) as nat, base as nat, (width - done - 1) as nat) + (
            seq![c] + tail));
        }
        rest = rest / base;
        done += 1;
    }
    let mut k: usize = 16 - width;
    while k < 16
        invariant
            16 - width <= k <= 16,
            width <= 16,
            text@ == old(text)@ + buf@.subrange(16 - width, k as int),
        decreases 16 - k,
    {
        push_char(text, buf[k]);
        proof {
            assert(buf@.subrange(16 - width, k + 1) =~= buf@.subrange(16 - width, k as int).push(
                buf@[k as int],
            ));
        }
        k += 1;
    }
    assert(text@ =~= old(text)@ + digits(value as nat, base as nat, width as nat));
}

impl Chip8 {
    /// The register dump as text: V0 to VF in binary, four to a line, then
    /// I and the timers in binary and the program counter in hexadecimal.
    pub fn dbg(&self) -> (text: String)
        ensures
            text@ == dump_text(self@),
    {
        let mut text: String = String::new();
        let mut k: usize = 0;
        while k < 16
            invariant
                k <= 16,
                text@ + registers_text(self@, k as int) == registers_text(self@, 0),
            decreases 16 - k,
        {
            let ghost before: Seq<char> = text@;
            push_char(&mut text, 'v');
            push_char(&mut text, digit_to_char(k as u8));
            push_char(&mut text, ':');
            push_char(&mut text, ' ');
            push_digits(&mut text, self.v[k] as u16, 2, 8);
            if k % 4 == 3 {
                push_char(&mut text, '\n');
                assert(text@ =~= before + (register_text(self@, k as int) + seq!['\n']));
            } else {
                push_char(&mut text, ',');
                push_char(&mut text, ' ');
                assert(text@ =~= before + (register_text(self@, k as int) + seq![',', ' ']));
            }
            proof {
                let sep = if k % 4 == 3 {
                    seq!['\n']
                } else {
                    seq![',', ' ']
                };
                let this = register_text(self@, k as int) + sep;
                let rest = registers_text(self@, k + 1);
                assert(registers_text(self@, k as int) == this + rest);
                assert((before + this) + rest =~= before + (this + rest));
            }
            k += 1;
        }
        assert(text@ =~= registers_text(self@, 0));
        let ghost lines: Seq<char> = text@;
        push_char(&mut text, 'i');
        push_char(&mut text, ':');
        push_char(&mut text, ' ');
        push_digits(&mut text, self.i, 2, 16);
        push_char(&mut text, ',');
        push_char(&mut text, ' ');
        push_char(&mut text, 'd');
        push_char(&mut text, 't');
        push_char(&mut text, ':');
        push_char(&mut text, ' ');
        push_digits(&mut text, self.dt as u16, 2, 8);
        push_char(&mut text, ',');
        push_char(&mut text, ' ');
        push_char(&mut text, 's');
        push_char(&mut text, 't');
        push_char(&mut text, ':');
        push_char(&mut text, ' ');
        push_digits(&mut text, self.st as u16, 2, 8);
        push_char(&mut text, ',');
        push_char(&mut text, ' ');
        push_char(&mut text, 'p');
        push_char(&mut text, 'c');
        push_char(&mut text, ':');
        push_char(&mut text, ' ');
        push_digits(&mut text, self.pc, 16, 4);
        push_char(&mut text, '\n');
        assert(text@ =~= lines + control_text(self@));
        text
    }
}

} // verus!
