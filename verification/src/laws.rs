//! Properties of the machine that span instructions, timer ticks, the
//! keypad layout and the text display.

use vstd::prelude::*;
use crate::display::row_text;
use crate::keys::{KeyCode, KeyCommand, KeyEventKind, key_command, keypad_key};
use crate::machine::{
    Fault, Machine, address, alu, collides, erases, fault_of, first_pressed, first_pressed_from, instruction_at, low_byte,
    nibble, opcode, reg_x, reg_y, step, step_misc, ticked, wf,
};

verus! {

/// Calling a subroutine whose first instruction is a return comes back to
/// the instruction after the call, with the stack pointer, registers,
/// memory and screen as they were before the call.
pub proof fn law_call_then_return(m: Machine, random1: u8, random2: u8)
    requires
        wf(m),
        fault_of(m) == None::<Fault>,
        opcode(instruction_at(m)) == 0x2,
        instruction_at(step(m, random1)) == 0x00EE,
        fault_of(step(m, random1)) == None::<Fault>,
    ensures
        ({
            let back = step(step(m, random1), random2);
            &&& back.pc == m.pc + 2
            &&& back.stack_pointer == m.stack_pointer
            &&& back.stack == m.stack.update(m.stack_pointer as int, 0)
            &&& back.v == m.v
            &&& back.i == m.i
            &&& back.memory == m.memory
            &&& back.display == m.display
        }),
{
    reveal(fault_of);
    reveal(step);
    let m2 = step(m, random1);
    assert(m2.stack_pointer == m.stack_pointer + 1);
    assert(m2.stack[m.stack_pointer as int] == m.pc + 2);
    assert(step(m2, random2).stack =~= m.stack.update(m.stack_pointer as int, 0));
}

/// Storing `V0..=VX` to memory (`FX55`) and loading them back (`FX65`)
/// from the same `I` gives back the registers as they were.
pub proof fn law_store_then_load_registers(m: Machine, random1: u8, random2: u8)
    requires
        wf(m),
        fault_of(m) == None::<Fault>,
        opcode(instruction_at(m)) == 0xF,
        low_byte(instruction_at(m)) == 0x55,
        opcode(instruction_at(step(m, random1))) == 0xF,
        low_byte(instruction_at(step(m, random1))) == 0x65,
        reg_x(instruction_at(step(m, random1))) == reg_x(instruction_at(m)),
        fault_of(step(m, random1)) == None::<Fault>,
    ensures
        step(step(m, random1), random2).v == m.v,
        step(step(m, random1), random2).i == m.i,
{
    reveal(fault_of);
    reveal(step);
    let m2 = step(m, random1);
    let x = reg_x(instruction_at(m));
    assert(m2 == step_misc(m, x, 0x55));
    assert(m2.i == m.i && m2.v == m.v);
    let m3 = step(m2, random2);
    assert(m3 == step_misc(m2, x, 0x65));
    assert(m3.v =~= m.v);
}

/// Drawing the same sprite twice at the same place leaves the screen as it
/// was: drawing is an XOR. (`VX` and `VY` must not be `VF`, which the first
/// draw overwrites with the collision flag.)
pub proof fn law_draw_twice_restores_screen(m: Machine, random1: u8, random2: u8)
    requires
        wf(m),
        fault_of(m) == None::<Fault>,
        opcode(instruction_at(m)) == 0xD,
        reg_x(instruction_at(m)) != 0xF,
        reg_y(instruction_at(m)) != 0xF,
        instruction_at(step(m, random1)) == instruction_at(m),
        fault_of(step(m, random1)) == None::<Fault>,
    ensures
        step(step(m, random1), random2).display == m.display,
{
    reveal(fault_of);
    reveal(step);
    let m2 = step(m, random1);
    let m3 = step(m2, random2);
    let w = instruction_at(m);
    assert(m2.v[reg_x(w)] == m.v[reg_x(w)]);
    assert(m2.v[reg_y(w)] == m.v[reg_y(w)]);
    assert(m3.display =~~= m.display);
}

/// `CXNN` leaves only bits of `NN` set in `VX`, whatever the random byte.
pub proof fn law_random_respects_mask(m: Machine, random: u8)
    requires
        wf(m),
        fault_of(m) == None::<Fault>,
        opcode(instruction_at(m)) == 0xC,
    ensures
        ({
            let x = reg_x(instruction_at(m));
            let mask = low_byte(instruction_at(m)) as u8;
            step(m, random).v[x] & mask == step(m, random).v[x]
        }),
{
    reveal(step);
    let mask = low_byte(instruction_at(m)) as u8;
    assert((random & mask) & mask == random & mask) by (bit_vector);
}

/// `8XY4` with `X` other than `F`: the byte in `VX` and the carry in `VF`
/// together hold the full sum.
pub proof fn law_add_with_carry(m: Machine, random: u8)
    requires
        wf(m),
        fault_of(m) == None::<Fault>,
        opcode(instruction_at(m)) == 0x8,
        nibble(instruction_at(m)) == 0x4,
        reg_x(instruction_at(m)) != 0xF,
    ensures
        ({
            let w = instruction_at(m);
            let after = step(m, random);
            after.v[reg_x(w)] + 256 * after.v[15] == m.v[reg_x(w)] + m.v[reg_y(w)]
        }),
{
    reveal(step);
}

/// `FX33` stores the three decimal digits of `VX`, most significant first.
pub proof fn law_decimal_digits(m: Machine, random: u8)
    requires
        wf(m),
        fault_of(m) == None::<Fault>,
        opcode(instruction_at(m)) == 0xF,
        low_byte(instruction_at(m)) == 0x33,
    ensures
        ({
            let x = reg_x(instruction_at(m));
            let mem = step(m, random).memory;
            &&& mem[m.i as int] < 10 && mem[m.i + 1] < 10 && mem[m.i + 2] < 10
            &&& 100 * mem[m.i as int] + 10 * mem[m.i + 1] + mem[m.i + 2] == m.v[x]
        }),
{
    reveal(fault_of);
    reveal(step);
}

/// The lowest pressed key is pressed, and no key below it is.
pub proof fn law_first_pressed(input: Seq<bool>)
    ensures
        match first_pressed(input) {
            Some(k) => 0 <= k < input.len() && input[k] && forall|j: int| 0 <= j < k ==> !input[j],
            None => forall|j: int| 0 <= j < input.len() ==> !input[j],
        },
{
    lemma_first_pressed_from(input, 0);
}

proof fn lemma_first_pressed_from(input: Seq<bool>, k: int)
    requires
        0 <= k,
    ensures
        match first_pressed_from(input, k) {
            Some(j) => k <= j < input.len() && input[j] && forall|i: int| k <= i < j ==> !input[i],
            None => forall|i: int| k <= i < input.len() ==> !input[i],
        },
    decreases input.len() - k,
{
    if k < input.len() && !input[k] {
        lemma_first_pressed_from(input, k + 1);
    }
}

/// `FX0A` waits for a key: with no key pressed the machine stays exactly
/// where it is (the instruction runs again); otherwise `VX` gets the lowest
/// pressed key and execution moves on.
pub proof fn law_wait_for_key(m: Machine, random: u8)
    requires
        wf(m),
        fault_of(m) == None::<Fault>,
        opcode(instruction_at(m)) == 0xF,
        low_byte(instruction_at(m)) == 0x0A,
    ensures
        ({
            let after = step(m, random);
            let x = reg_x(instruction_at(m));
            if forall|j: int| 0 <= j < 16 ==> !m.input[j] {
                after == m
            } else {
                &&& after.pc == m.pc + 2
                &&& m.input[after.v[x] as int]
                &&& forall|j: int| 0 <= j < after.v[x] ==> !m.input[j]
            }
        }),
{
    reveal(fault_of);
    reveal(step);
    law_first_pressed(m.input);
    let x = reg_x(instruction_at(m));
    assert(step(m, random) == step_misc(m, x, 0x0A));
    match first_pressed(m.input) {
        Some(k) => {
            assert(!(forall|j: int| 0 <= j < 16 ==> !m.input[j]));
            assert(step(m, random).v[x] == k as u8);
        },
        None => {},
    }
}

/// Every instruction that does not jump, call, return, skip or wait for a
/// key moves the program counter to the next instruction.
pub proof fn law_sequential_instructions_advance(m: Machine, random: u8)
    requires
        wf(m),
        fault_of(m) == None::<Fault>,
        ({
            let w = instruction_at(m);
            let op = opcode(w);
            ||| w == 0x00E0
            ||| op == 0x6 || op == 0x7 || op == 0x8 || op == 0xA || op == 0xC || op == 0xD
            ||| (op == 0xF && low_byte(w) != 0x0A)
        }),
    ensures
        step(m, random).pc == m.pc + 2,
{
    reveal(fault_of);
    reveal(step);
}

/// Every instruction that executes keeps the shape of the machine (sixteen
/// registers, 4 KiB of memory, a 64x32 screen, a sixteen-entry stack and
/// keypad) and keeps the stack pointer within the stack.
pub proof fn law_step_keeps_machine_shape(m: Machine, random: u8)
    requires
        wf(m),
        m.stack_pointer <= 16,
        fault_of(m) == None::<Fault>,
    ensures
        wf(step(m, random)),
        step(m, random).stack_pointer <= 16,
{
    reveal(fault_of);
    reveal(step);
    let after = step(m, random);
    let w = instruction_at(m);
    if opcode(w) == 0xD {
        assert forall|r: int| 0 <= r < 32 implies (#[trigger] after.display[r]).len() == 64 by {}
    }
    if opcode(w) == 0xF {
        assert(after == step_misc(m, reg_x(w), low_byte(w)));
    }
}

/// Counting the timers down by `a` and then by `b` is counting them down by
/// `a + b`.
pub proof fn law_ticks_compose(m: Machine, a: u8, b: u8)
    requires
        a + b <= 255,
    ensures
        ticked(ticked(m, a), b) == ticked(m, (a + b) as u8),
{
}

/// A countdown by 255 stops both timers, so any larger countdown has the
/// same effect.
pub proof fn law_full_tick_stops_timers(m: Machine)
    ensures
        ticked(m, 255).delay_timer == 0,
        ticked(m, 255).sound_timer == 0,
{
}

/// A row of text shows every pixel as two characters, left to right: two
/// full blocks for a lit pixel, two spaces for a dark one.
pub proof fn law_row_text_shows_pixels(row: Seq<bool>)
    ensures
        row_text(row).len() == 2 * row.len(),
        forall|c: int| 0 <= c < row.len() ==> {
            &&& #[trigger] row_text(row)[2 * c] == (if row[c] { '\u{2588}' } else { ' ' })
            &&& row_text(row)[2 * c + 1] == (if row[c] { '\u{2588}' } else { ' ' })
        },
    decreases row.len(),
{
    if row.len() > 0 {
        let init = row.drop_last();
        law_row_text_shows_pixels(init);
        assert forall|c: int| 0 <= c < row.len() implies {
            &&& #[trigger] row_text(row)[2 * c] == (if row[c] { '\u{2588}' } else { ' ' })
            &&& row_text(row)[2 * c + 1] == (if row[c] { '\u{2588}' } else { ' ' })
        } by {
            if c < init.len() {
                assert(row_text(init)[2 * c] == (if init[c] { '\u{2588}' } else { ' ' }));
            }
        }
    }
}

/// Whether some keyboard key maps to keypad key `k`.
pub open spec fn reached_from_keyboard(k: int) -> bool {
    exists|c: char| #[trigger] keypad_key(KeyCode::Char(c)) == k
}

/// The keyboard layout reaches each of the sixteen keypad keys from exactly
/// one keyboard key, and no keyboard key maps outside the keypad.
pub proof fn law_keypad_layout()
    ensures
        forall|k: int| 0 <= k < 16 ==> #[trigger] reached_from_keyboard(k),
        forall|a: KeyCode, b: KeyCode| keypad_key(a) >= 0 && #[trigger] keypad_key(a) == #[trigger] keypad_key(b) ==> a == b,
        forall|a: KeyCode| -1 <= #[trigger] keypad_key(a) < 16,
{
    assert(keypad_key(KeyCode::Char('x')) == 0x0);
    assert(keypad_key(KeyCode::Char('1')) == 0x1);
    assert(keypad_key(KeyCode::Char('2')) == 0x2);
    assert(keypad_key(KeyCode::Char('3')) == 0x3);
    assert(keypad_key(KeyCode::Char('q')) == 0x4);
    assert(keypad_key(KeyCode::Char('w')) == 0x5);
    assert(keypad_key(KeyCode::Char('e')) == 0x6);
    assert(keypad_key(KeyCode::Char('a')) == 0x7);
    assert(keypad_key(KeyCode::Char('s')) == 0x8);
    assert(keypad_key(KeyCode::Char('d')) == 0x9);
    assert(keypad_key(KeyCode::Char('z')) == 0xA);
    assert(keypad_key(KeyCode::Char('c')) == 0xB);
    assert(keypad_key(KeyCode::Char('4')) == 0xC);
    assert(keypad_key(KeyCode::Char('r')) == 0xD);
    assert(keypad_key(KeyCode::Char('f')) == 0xE);
    assert(keypad_key(KeyCode::Char('v')) == 0xF);
    assert forall|k: int| 0 <= k < 16 implies #[trigger] reached_from_keyboard(k) by {
        assert(keypad_key(KeyCode::Char('x')) == 0x0);
    }
}

/// Whether pixel (`r`, `c`) of the screen was lit in `before` and is dark in `after`.
pub open spec fn pixel_turned_off(before: Seq<Seq<bool>>, after: Seq<Seq<bool>>, r: int, c: int) -> bool {
    0 <= r < 32 && 0 <= c < 64 && before[r][c] && !after[r][c]
}

proof fn lemma_row_bit(row: u8, k: u8)
    requires
        k < 8,
    ensures
        (row & (0x80u8 >> k) != 0) == (((row >> ((7 - k) as u8)) & 1u8) == 1u8),
{
    assert(k < 8 ==> ((row & (0x80u8 >> k) != 0) == (((row >> ((7 - k) as u8)) & 1u8) == 1u8))) by (bit_vector);
}

/// `DXYN` draws an `N`-row, 8-column sprite from memory at `I` with its top
/// left corner at (`VX` mod 64, `VY` mod 32): a screen pixel under the sprite
/// flips exactly when the sprite's bit for it (row `r - top` at `I + r - top`,
/// bit `7 - (c - left)` counted from the least significant) is set; pixels
/// past the right or bottom edge of the screen, and pixels outside the
/// sprite, are left alone. `VF` becomes 1 exactly when some pixel anywhere on
/// the screen went from lit to dark, and 0 otherwise.
pub proof fn law_draw_sprite(m: Machine, random: u8)
    requires
        wf(m),
        fault_of(m) == None::<Fault>,
        opcode(instruction_at(m)) == 0xD,
    ensures
        ({
            let w = instruction_at(m);
            let after = step(m, random);
            let left = m.v[reg_x(w)] % 64;
            let top = m.v[reg_y(w)] % 32;
            let n = nibble(w);
            &&& forall|r: int, c: int| 0 <= r < 32 && 0 <= c < 64 ==> #[trigger] after.display[r][c] == (
                m.display[r][c] != (
                    top <= r < top + n && left <= c < left + 8
                    && ((m.memory[m.i + (r - top)] >> ((7 - (c - left)) as u8)) & 1u8) == 1u8))
            &&& (after.v[15] == 1) == exists|r: int, c: int| #[trigger] pixel_turned_off(m.display, after.display, r, c)
            &&& (after.v[15] == 0 || after.v[15] == 1)
            &&& after.pc == m.pc + 2
            &&& after.memory == m.memory
            &&& after.i == m.i
            &&& forall|k: int| 0 <= k < 15 ==> #[trigger] after.v[k] == m.v[k]
        }),
{
    reveal(fault_of);
    reveal(step);
    let w = instruction_at(m);
    let x = reg_x(w);
    let y = reg_y(w);
    let n = nibble(w);
    let after = step(m, random);
    let left = m.v[x] % 64;
    let top = m.v[y] % 32;
    assert forall|r: int, c: int| 0 <= r < 32 && 0 <= c < 64 implies #[trigger] after.display[r][c] == (
        m.display[r][c] != (
            top <= r < top + n && left <= c < left + 8
            && ((m.memory[m.i + (r - top)] >> ((7 - (c - left)) as u8)) & 1u8) == 1u8)) by {
        if top <= r < top + n && left <= c < left + 8 {
            lemma_row_bit(m.memory[m.i + (r - top)], (c - left) as u8);
        }
    }
    if collides(m, x, y, n) {
        let (r, c) = choose|r: int, c: int| #[trigger] erases(m, x, y, n, r, c);
        assert(pixel_turned_off(m.display, after.display, r, c));
    }
    if exists|r: int, c: int| #[trigger] pixel_turned_off(m.display, after.display, r, c) {
        let (r, c) = choose|r: int, c: int| #[trigger] pixel_turned_off(m.display, after.display, r, c);
        assert(erases(m, x, y, n, r, c));
    }
}

/// Bit `b` of `v`, counting from the least significant.
pub open spec fn bit(v: u8, b: u8) -> bool {
    (v >> b) & 1u8 == 1u8
}

/// `8XYN` computes into `VX` from the old `VX` and `VY`, sets `VF` as a flag
/// where the operation has one, and leaves the other registers alone:
/// `8XY0` copies `VY`; `8XY1`/`8XY2`/`8XY3` combine each bit by OR / AND /
/// XOR; `8XY4` adds with carry into `VF`; `8XY5` and `8XY7` subtract
/// (`VX - VY`, `VY - VX`) modulo 256 with `VF` = 1 exactly when no borrow
/// was needed; `8XY6` halves with the dropped low bit in `VF`; `8XYE` doubles
/// modulo 256 with the dropped high bit in `VF`. (Where `X` is `F` the flag
/// overwrites the result, so the arithmetic statements assume `X` is not `F`.)
pub proof fn law_register_arithmetic(m: Machine, random: u8)
    requires
        wf(m),
        fault_of(m) == None::<Fault>,
        opcode(instruction_at(m)) == 0x8,
    ensures
        ({
            let w = instruction_at(m);
            let x = reg_x(w);
            let y = reg_y(w);
            let n = nibble(w);
            let vx = m.v[x];
            let vy = m.v[y];
            let after = step(m, random);
            let r = after.v[x];
            let f = after.v[15];
            &&& after.pc == m.pc + 2
            &&& forall|k: int| 0 <= k < 16 && k != x && k != 15 ==> #[trigger] after.v[k] == m.v[k]
            &&& n == 0 ==> r == vy && (x != 15 ==> f == m.v[15])
            &&& (n == 1 || n == 2 || n == 3) ==> (x != 15 ==> f == m.v[15]) && forall|b: u8| b < 8 ==> {
                &&& n == 1 ==> #[trigger] bit(r, b) == (bit(vx, b) || bit(vy, b))
                &&& n == 2 ==> bit(r, b) == (bit(vx, b) && bit(vy, b))
                &&& n == 3 ==> bit(r, b) == (bit(vx, b) != bit(vy, b))
            }
            &&& x != 15 ==> {
                &&& n == 4 ==> r + 256 * f == vx + vy && f <= 1
                &&& n == 5 ==> (f == 1) == (vx >= vy) && f <= 1 && r == vx - vy + 256 * (1 - f)
                &&& n == 7 ==> (f == 1) == (vy >= vx) && f <= 1 && r == vy - vx + 256 * (1 - f)
                &&& n == 6 ==> 2 * r + f == vx && f <= 1
                &&& n == 0xE ==> r + 256 * f == 2 * vx && f <= 1
            }
        }),
{
    reveal(fault_of);
    reveal(step);
    let w = instruction_at(m);
    let x = reg_x(w);
    let y = reg_y(w);
    let n = nibble(w);
    let vx = m.v[x];
    let vy = m.v[y];
    let after = step(m, random);
    assert(after.v == alu(m.v, x, y, n));
    let r = after.v[x];
    if n == 1 || n == 2 || n == 3 {
        assert forall|b: u8| b < 8 implies {
            &&& n == 1 ==> #[trigger] bit(r, b) == (bit(vx, b) || bit(vy, b))
            &&& n == 2 ==> bit(r, b) == (bit(vx, b) && bit(vy, b))
            &&& n == 3 ==> bit(r, b) == (bit(vx, b) != bit(vy, b))
        } by {
            assert((((vx | vy) >> b) & 1u8 == 1u8) == (((vx >> b) & 1u8 == 1u8) || ((vy >> b) & 1u8 == 1u8))) by (bit_vector);
            assert((((vx & vy) >> b) & 1u8 == 1u8) == (((vx >> b) & 1u8 == 1u8) && ((vy >> b) & 1u8 == 1u8))) by (bit_vector);
            assert((((vx ^ vy) >> b) & 1u8 == 1u8) == (((vx >> b) & 1u8 == 1u8) != ((vy >> b) & 1u8 == 1u8))) by (bit_vector);
        }
    }
    if x != 15 {
        if n == 6 {
            assert(2 * (vx >> 1u8) + (vx & 1u8) == vx && (vx & 1u8) <= 1) by (bit_vector);
        }
        if n == 0xE {
            assert((vx << 1u8) + 256 * ((vx & 0x80u8) >> 7u8) == 2 * vx && ((vx & 0x80u8) >> 7u8) <= 1) by (bit_vector);
        }
    }
}

/// The flow-control instructions: `1NNN` jumps to `NNN`, `BNNN` to
/// `NNN + V0`; `3XNN` skips the next instruction exactly when `VX == NN`,
/// `4XNN` exactly when `VX != NN`, `5XY0` exactly when `VX == VY`, `9XY0`
/// exactly when `VX != VY`. A skip moves the program counter by four, no
/// skip by two, and nothing else changes.
pub proof fn law_jumps_and_skips(m: Machine, random: u8)
    requires
        wf(m),
        fault_of(m) == None::<Fault>,
    ensures
        ({
            let w = instruction_at(m);
            let op = opcode(w);
            let x = reg_x(w);
            let y = reg_y(w);
            let nn = low_byte(w);
            let after = step(m, random);
            &&& op == 0x1 ==> after == Machine { pc: address(w) as u16, ..m }
            &&& op == 0xB ==> after == Machine { pc: (address(w) + m.v[0]) as u16, ..m }
            &&& (op == 0x3 || op == 0x4 || op == 0x5 || op == 0x9) ==> {
                let skips = if op == 0x3 { m.v[x] == nn }
                    else if op == 0x4 { m.v[x] != nn }
                    else if op == 0x5 { m.v[x] == m.v[y] }
                    else { m.v[x] != m.v[y] };
                &&& after == Machine { pc: after.pc, ..m }
                &&& (after.pc == m.pc + 4) == skips
                &&& (after.pc == m.pc + 2) == !skips
            }
        }),
{
    reveal(fault_of);
    reveal(step);
}

/// `EX9E` skips the next instruction exactly when the key numbered `VX` is
/// pressed, `EXA1` exactly when it is not; nothing but the program counter
/// changes.
pub proof fn law_key_skips(m: Machine, random: u8)
    requires
        wf(m),
        fault_of(m) == None::<Fault>,
        opcode(instruction_at(m)) == 0xE,
    ensures
        ({
            let w = instruction_at(m);
            let key = m.v[reg_x(w)] as int;
            let skips = if low_byte(w) == 0x9E { m.input[key] } else { !m.input[key] };
            let after = step(m, random);
            &&& low_byte(w) == 0x9E || low_byte(w) == 0xA1
            &&& after == Machine { pc: after.pc, ..m }
            &&& (after.pc == m.pc + 4) == skips
            &&& (after.pc == m.pc + 2) == !skips
        }),
{
    reveal(fault_of);
    reveal(step);
}

/// The outcome of `EX9E` / `EXA1` depends on the key numbered `VX` alone:
/// two machines that differ only in the state of other keys move to the
/// same program counter.
pub proof fn law_key_skips_read_one_key(m1: Machine, m2: Machine, random: u8)
    requires
        wf(m1),
        wf(m2),
        fault_of(m1) == None::<Fault>,
        opcode(instruction_at(m1)) == 0xE,
        m2 == (Machine { input: m2.input, ..m1 }),
        m2.input[m1.v[reg_x(instruction_at(m1))] as int] == m1.input[m1.v[reg_x(instruction_at(m1))] as int],
    ensures
        step(m1, random).pc == step(m2, random).pc,
{
    reveal(fault_of);
    reveal(step);
    assert(instruction_at(m1) == instruction_at(m2));
}

/// Every keyboard key that stands for a keypad key presses that keypad key
/// when pressed and releases it when released, and a keyboard key presses
/// keypad key `k` exactly when releasing it releases `k`.
pub proof fn law_keyboard_presses_and_releases(code: KeyCode, k: u8)
    ensures
        keypad_key(code) >= 0 ==> key_command(code, KeyEventKind::Press)
            == (KeyCommand::SetKey { key: keypad_key(code) as u8, pressed: true }),
        keypad_key(code) >= 0 ==> key_command(code, KeyEventKind::Release)
            == (KeyCommand::SetKey { key: keypad_key(code) as u8, pressed: false }),
        key_command(code, KeyEventKind::Press) == (KeyCommand::SetKey { key: k, pressed: true })
            <==> key_command(code, KeyEventKind::Release) == (KeyCommand::SetKey { key: k, pressed: false }),
{
}

/// Each keypad key `k` is pressed by pressing some keyboard key.
pub proof fn law_every_keypad_key_can_be_pressed(k: u8)
    requires
        k < 16,
    ensures
        exists|c: char| #[trigger] key_command(KeyCode::Char(c), KeyEventKind::Press)
            == (KeyCommand::SetKey { key: k, pressed: true }),
{
    law_keypad_layout();
    assert(reached_from_keyboard(k as int));
    let c = choose|c: char| #[trigger] keypad_key(KeyCode::Char(c)) == k as int;
    law_keyboard_presses_and_releases(KeyCode::Char(c), k);
    assert(key_command(KeyCode::Char(c), KeyEventKind::Press) == (KeyCommand::SetKey { key: k, pressed: true }));
}

/// The register, timer and index instructions set exactly one thing and move
/// on to the next instruction: `00E0` darkens every pixel; `6XNN` sets `VX`
/// to `NN`; `7XNN` adds `NN` to `VX` modulo 256 without touching `VF`;
/// `ANNN` sets `I` to `NNN`; `FX07` copies the delay timer into `VX`;
/// `FX15` / `FX18` set the delay / sound timer from `VX`; `FX1E` adds `VX`
/// to `I` and puts bits 12 to 15 of the new `I` in `VF`; `FX29` points `I` at
/// the five-byte glyph of the low nibble of `VX` in the font at `0x50`.
pub proof fn law_register_loads(m: Machine, random: u8)
    requires
        wf(m),
        fault_of(m) == None::<Fault>,
    ensures
        ({
            let w = instruction_at(m);
            let op = opcode(w);
            let x = reg_x(w);
            let nn = low_byte(w);
            let after = step(m, random);
            let moved = Machine { pc: (m.pc + 2) as u16, ..m };
            &&& w == 0x00E0 ==> after.pc == m.pc + 2 && after == Machine { display: after.display, ..moved }
                && forall|r: int, c: int| 0 <= r < 32 && 0 <= c < 64 ==> !#[trigger] after.display[r][c]
            &&& op == 0x6 ==> after == Machine { v: m.v.update(x, nn as u8), ..moved } && after.v[x] == nn
            &&& op == 0x7 ==> after == Machine { v: after.v, ..moved } && after.v.len() == 16
                && (after.v[x] == m.v[x] + nn || after.v[x] == m.v[x] + nn - 256)
                && forall|k: int| 0 <= k < 16 && k != x ==> #[trigger] after.v[k] == m.v[k]
            &&& op == 0xA ==> after == Machine { i: address(w) as u16, ..moved }
            &&& op == 0xF && nn == 0x07 ==> after == Machine { v: m.v.update(x, m.delay_timer), ..moved }
            &&& op == 0xF && nn == 0x15 ==> after == Machine { delay_timer: m.v[x], ..moved }
            &&& op == 0xF && nn == 0x18 ==> after == Machine { sound_timer: m.v[x], ..moved }
            &&& op == 0xF && nn == 0x1E ==> after.i == m.i + m.v[x] && after.v[15] * 4096 <= after.i
                && after.i < (after.v[15] + 1) * 4096
                && after == Machine { i: after.i, v: m.v.update(15, after.v[15]), ..moved }
            &&& op == 0xF && nn == 0x29 ==> after == Machine { i: after.i, ..moved }
                && after.i == 0x50 + 5 * (m.v[x] % 16)
        }),
{
    reveal(fault_of);
    reveal(step);
    let w = instruction_at(m);
    let after = step(m, random);
    if w == 0x00E0 {
        assert forall|r: int, c: int| 0 <= r < 32 && 0 <= c < 64 implies !#[trigger] after.display[r][c] by {}
    }
    if opcode(w) == 0xF {
        assert(after == step_misc(m, reg_x(w), low_byte(w)));
    }
}

/// `2NNN` pushes the address of the next instruction on the stack and jumps
/// to `NNN`; `00EE` pops the top of the stack into the program counter and
/// clears the slot it came from. Nothing else changes.
pub proof fn law_call_and_return(m: Machine, random: u8)
    requires
        wf(m),
        fault_of(m) == None::<Fault>,
    ensures
        ({
            let w = instruction_at(m);
            let after = step(m, random);
            let sp = m.stack_pointer as int;
            &&& opcode(w) == 0x2 ==> {
                &&& sp < 16
                &&& after.stack_pointer == sp + 1
                &&& after.stack[sp] == m.pc + 2
                &&& after.pc == address(w)
                &&& after == Machine { stack: m.stack.update(sp, (m.pc + 2) as u16), stack_pointer: after.stack_pointer, pc: after.pc, ..m }
            }
            &&& w == 0x00EE ==> {
                &&& 0 < sp <= 16
                &&& after.stack_pointer == sp - 1
                &&& after.pc == m.stack[sp - 1]
                &&& after == Machine { stack: m.stack.update(sp - 1, 0), stack_pointer: after.stack_pointer, pc: after.pc, ..m }
            }
        }),
{
    reveal(fault_of);
    reveal(step);
}

/// `FX55` writes `V0..=VX` to memory at `I..=I+X` and `FX65` reads memory
/// at `I..=I+X` into `V0..=VX`; every other byte and register, and `I`
/// itself, stay as they were.
pub proof fn law_register_block_transfers(m: Machine, random: u8)
    requires
        wf(m),
        fault_of(m) == None::<Fault>,
        opcode(instruction_at(m)) == 0xF,
    ensures
        ({
            let w = instruction_at(m);
            let x = reg_x(w);
            let after = step(m, random);
            &&& low_byte(w) == 0x55 ==> {
                &&& after.memory.len() == 4096
                &&& forall|a: int| 0 <= a < 4096 ==> #[trigger] after.memory[a]
                    == if m.i <= a <= m.i + x { m.v[a - m.i] } else { m.memory[a] }
                &&& after == Machine { memory: after.memory, pc: (m.pc + 2) as u16, ..m }
            }
            &&& low_byte(w) == 0x65 ==> {
                &&& after.v.len() == 16
                &&& forall|k: int| 0 <= k < 16 ==> #[trigger] after.v[k]
                    == if k <= x { m.memory[m.i + k] } else { m.v[k] }
                &&& after == Machine { v: after.v, pc: (m.pc + 2) as u16, ..m }
            }
        }),
{
    reveal(fault_of);
    reveal(step);
    let w = instruction_at(m);
    assert(step(m, random) == step_misc(m, reg_x(w), low_byte(w)));
}

/// The keyboard block `1234 / qwer / asdf / zxcv`, read row by row, stands
/// for the keypad `123C / 456D / 789E / A0BF` in the same positions.
pub proof fn law_keyboard_block_matches_keypad(i: int)
    requires
        0 <= i < 16,
    ensures
        keypad_key(KeyCode::Char(seq!['1', '2', '3', '4', 'q', 'w', 'e', 'r', 'a', 's', 'd', 'f', 'z', 'x', 'c', 'v'][i]))
            == seq![0x1int, 0x2, 0x3, 0xC, 0x4, 0x5, 0x6, 0xD, 0x7, 0x8, 0x9, 0xE, 0xA, 0x0, 0xB, 0xF][i],
{
}

} // verus!
