//! The mathematical model of a CHIP-8 machine: its state, when an
//! instruction faults, and what one instruction does to the state.

use vstd::prelude::*;
use crate::font::FONT;

verus! {

/// Abstract state of the machine, as sequences and integers.
#[verifier::ext_equal]
pub struct Machine {
    pub v: Seq<u8>,
    pub i: u16,
    pub pc: u16,
    pub memory: Seq<u8>,
    pub stack: Seq<u16>,
    pub stack_pointer: usize,
    pub display: Seq<Seq<bool>>,
    pub input: Seq<bool>,
    pub delay_timer: u8,
    pub sound_timer: u8,
}

/// Why an instruction cannot be executed.
#[derive(Debug, Clone, Copy, PartialEq, Eq, Structural)]
pub enum Fault {
    /// The program counter leaves no room for a two-byte instruction.
    PcOutOfRange,
    /// The fetched word is not a CHIP-8 instruction.
    UnknownInstruction,
    /// `00EE` with an empty call stack.
    StackUnderflow,
    /// `00EE` with a stack pointer past the end of the stack.
    StackPointerOutOfRange,
    /// `2NNN` with a full call stack.
    StackOverflow,
    /// `DXYN` would read sprite rows past the end of memory.
    SpriteOutOfBounds,
    /// `EX9E` / `EXA1` with a key number above `0xF`.
    KeyOutOfRange,
    /// `FX1E` would carry the index register past `0xFFFF`.
    IndexOverflow,
    /// `FX33` / `FX55` would write past the end of memory.
    MemoryWriteOutOfBounds,
    /// `FX65` would read past the end of memory.
    MemoryReadOutOfBounds,
}

impl Fault {
    /// The diagnostic the interpreter reports for this fault.
    pub fn message(&self) -> (text: &'static str)
        ensures
            text@ == match *self {
                Fault::PcOutOfRange => "Cannot fetch instruction from beyond available memory"@,
                Fault::UnknownInstruction => "Unknown instruction"@,
                Fault::StackUnderflow => "Cannot return from subroutine: stack is empty"@,
                Fault::StackPointerOutOfRange => "Cannot return from subroutine: stack pointer out of range"@,
                Fault::StackOverflow => "Cannot call subroutine: stack overflow"@,
                Fault::SpriteOutOfBounds => "Cannot fetch sprite pixels from beyond available memory"@,
                Fault::KeyOutOfRange => "Only keys from 0 to F are supported"@,
                Fault::IndexOverflow => "Index register overflow"@,
                Fault::MemoryWriteOutOfBounds => "Cannot write to memory beyond bounds"@,
                Fault::MemoryReadOutOfBounds => "Cannot read into memory beyond bounds"@,
            },
    {
        match self {
            Fault::PcOutOfRange => "Cannot fetch instruction from beyond available memory",
            Fault::UnknownInstruction => "Unknown instruction",
            Fault::StackUnderflow => "Cannot return from subroutine: stack is empty",
            Fault::StackPointerOutOfRange => "Cannot return from subroutine: stack pointer out of range",
            Fault::StackOverflow => "Cannot call subroutine: stack overflow",
            Fault::SpriteOutOfBounds => "Cannot fetch sprite pixels from beyond available memory",
            Fault::KeyOutOfRange => "Only keys from 0 to F are supported",
            Fault::IndexOverflow => "Index register overflow",
            Fault::MemoryWriteOutOfBounds => "Cannot write to memory beyond bounds",
            Fault::MemoryReadOutOfBounds => "Cannot read into memory beyond bounds",
        }
    }
}

/// The sizes that every machine state has.
pub open spec fn wf(m: Machine) -> bool {
    &&& m.v.len() == 16
    &&& m.memory.len() == 4096
    &&& m.stack.len() == 16
    &&& m.input.len() == 16
    &&& m.display.len() == 32
    &&& forall|r: int| 0 <= r < 32 ==> (#[trigger] m.display[r]).len() == 64
}

/// The 16-bit instruction word at the program counter, big-endian.
pub open spec fn instruction_at(m: Machine) -> int {
    m.memory[m.pc as int] * 256 + m.memory[m.pc + 1]
}

/// Highest nibble: the instruction group.
pub open spec fn opcode(w: int) -> int {
    w / 4096
}

/// Second nibble: the `X` register operand.
pub open spec fn reg_x(w: int) -> int {
    (w / 256) % 16
}

/// Third nibble: the `Y` register operand.
pub open spec fn reg_y(w: int) -> int {
    (w / 16) % 16
}

/// Lowest nibble: the `N` operand.
pub open spec fn nibble(w: int) -> int {
    w % 16
}

/// Lowest byte: the `NN` operand.
pub open spec fn low_byte(w: int) -> int {
    w % 256
}

/// Lowest twelve bits: the `NNN` address operand.
pub open spec fn address(w: int) -> int {
    w % 4096
}

/// The fault, if any, that executing the instruction at the program counter raises.
#[verifier::opaque]
pub open spec fn fault_of(m: Machine) -> Option<Fault> {
    if m.pc >= 4095 {
        Some(Fault::PcOutOfRange)
    } else {
        let w = instruction_at(m);
        let x = reg_x(w);
        let n = nibble(w);
        let nn = low_byte(w);
        let op = opcode(w);
        if op == 0x0 {
            if w == 0x00E0 {
                None
            } else if w == 0x00EE {
                if m.stack_pointer == 0 {
                    Some(Fault::StackUnderflow)
                } else if m.stack_pointer > 16 {
                    Some(Fault::StackPointerOutOfRange)
                } else {
                    None
                }
            } else {
                Some(Fault::UnknownInstruction)
            }
        } else if op == 0x2 {
            if m.stack_pointer >= 16 { Some(Fault::StackOverflow) } else { None }
        } else if op == 0x5 || op == 0x9 {
            if n != 0 { Some(Fault::UnknownInstruction) } else { None }
        } else if op == 0x8 {
            if n <= 7 || n == 0xE { None } else { Some(Fault::UnknownInstruction) }
        } else if op == 0xD {
            if m.i + n > 4096 { Some(Fault::SpriteOutOfBounds) } else { None }
        } else if op == 0xE {
            if nn == 0x9E || nn == 0xA1 {
                if m.v[x] > 0xF { Some(Fault::KeyOutOfRange) } else { None }
            } else {
                Some(Fault::UnknownInstruction)
            }
        } else if op == 0xF {
            if nn == 0x07 || nn == 0x0A || nn == 0x15 || nn == 0x18 || nn == 0x29 {
                None
            } else if nn == 0x1E {
                if m.i + m.v[x] > 0xFFFF { Some(Fault::IndexOverflow) } else { None }
            } else if nn == 0x33 {
                if m.i + 3 > 4096 { Some(Fault::MemoryWriteOutOfBounds) } else { None }
            } else if nn == 0x55 {
                if m.i + x + 1 > 4096 { Some(Fault::MemoryWriteOutOfBounds) } else { None }
            } else if nn == 0x65 {
                if m.i + x + 1 > 4096 { Some(Fault::MemoryReadOutOfBounds) } else { None }
            } else {
                Some(Fault::UnknownInstruction)
            }
        } else {
            None
        }
    }
}

/// A display with every pixel off.
pub open spec fn blank_display() -> Seq<Seq<bool>> {
    Seq::new(32, |r: int| Seq::new(64, |c: int| false))
}

/// The register file after `8XYN` (arithmetic and logic on `VX`, `VY`).
pub open spec fn alu(v: Seq<u8>, x: int, y: int, n: int) -> Seq<u8> {
    if n == 0x0 {
        v.update(x, v[y])
    } else if n == 0x1 {
        v.update(x, v[x] | v[y])
    } else if n == 0x2 {
        v.update(x, v[x] & v[y])
    } else if n == 0x3 {
        v.update(x, v[x] ^ v[y])
    } else if n == 0x4 {
        let sum = v[x] + v[y];
        v.update(x, (sum % 256) as u8).update(15, if sum > 255 { 1u8 } else { 0u8 })
    } else if n == 0x5 {
        v.update(x, ((v[x] - v[y]) % 256) as u8).update(15, if v[x] >= v[y] { 1u8 } else { 0u8 })
    } else if n == 0x6 {
        let flagged = v.update(15, v[x] & 1);
        flagged.update(x, flagged[x] >> 1u8)
    } else if n == 0x7 {
        v.update(x, ((v[y] - v[x]) % 256) as u8).update(15, if v[y] >= v[x] { 1u8 } else { 0u8 })
    } else {
        let flagged = v.update(15, (v[x] & 0x80) >> 7u8);
        flagged.update(x, flagged[x] << 1u8)
    }
}

/// Bit `k` of a sprite row, counting from the most significant bit.
pub open spec fn sprite_bit(row: u8, k: int) -> bool {
    row & (0x80u8 >> (k as u8)) != 0
}

/// Leftmost column of a sprite drawn at `VX`: the coordinate wraps.
pub open spec fn sprite_left(m: Machine, x: int) -> int {
    (m.v[x] % 64) as int
}

/// Top row of a sprite drawn at `VY`: the coordinate wraps.
pub open spec fn sprite_top(m: Machine, y: int) -> int {
    (m.v[y] % 32) as int
}

/// Whether display pixel (`r`, `c`) lies under an `n`-row sprite drawn at
/// (`VX`, `VY`); pixels past the right and bottom edges are clipped.
pub open spec fn under_sprite(m: Machine, x: int, y: int, n: int, r: int, c: int) -> bool {
    &&& sprite_top(m, y) <= r < 32
    &&& r < sprite_top(m, y) + n
    &&& sprite_left(m, x) <= c < 64
    &&& c < sprite_left(m, x) + 8
}

/// The sprite pixel that lands on display pixel (`r`, `c`).
pub open spec fn sprite_pixel(m: Machine, x: int, y: int, r: int, c: int) -> bool {
    sprite_bit(m.memory[m.i + (r - sprite_top(m, y))], c - sprite_left(m, x))
}

/// Whether drawing turns off a pixel that was on at (`r`, `c`).
pub open spec fn erases(m: Machine, x: int, y: int, n: int, r: int, c: int) -> bool {
    &&& under_sprite(m, x, y, n, r, c)
    &&& m.display[r][c]
    &&& sprite_pixel(m, x, y, r, c)
}

/// The display after XOR-ing an `n`-row sprite from memory at `I` onto it.
pub open spec fn drawn_display(m: Machine, x: int, y: int, n: int) -> Seq<Seq<bool>> {
    Seq::new(32, |r: int| Seq::new(64, |c: int|
        if under_sprite(m, x, y, n, r, c) {
            m.display[r][c] != sprite_pixel(m, x, y, r, c)
        } else {
            m.display[r][c]
        }))
}

/// Whether drawing the sprite turns off at least one pixel.
pub open spec fn collides(m: Machine, x: int, y: int, n: int) -> bool {
    exists|r: int, c: int| #[trigger] erases(m, x, y, n, r, c)
}

/// The lowest pressed key at or above `k`.
pub open spec fn first_pressed_from(input: Seq<bool>, k: int) -> Option<int>
    decreases input.len() - k,
{
    if k < 0 || k >= input.len() {
        None
    } else if input[k] {
        Some(k)
    } else {
        first_pressed_from(input, k + 1)
    }
}

/// The lowest pressed key, if any key is pressed.
pub open spec fn first_pressed(input: Seq<bool>) -> Option<int> {
    first_pressed_from(input, 0)
}

/// Memory after `FX55`: `V0..=VX` stored from address `I` on.
pub open spec fn stored_registers(m: Machine, x: int) -> Seq<u8> {
    Seq::new(m.memory.len(), |a: int|
        if m.i <= a <= m.i + x { m.v[a - m.i] } else { m.memory[a] })
}

/// Registers after `FX65`: `V0..=VX` loaded from address `I` on.
pub open spec fn loaded_registers(m: Machine, x: int) -> Seq<u8> {
    Seq::new(m.v.len(), |k: int|
        if k <= x { m.memory[m.i + k] } else { m.v[k] })
}

/// Memory after `FX33`: the decimal digits of `VX` at `I`, `I+1`, `I+2`.
pub open spec fn stored_digits(m: Machine, x: int) -> Seq<u8> {
    m.memory
        .update(m.i as int, m.v[x] / 100)
        .update(m.i + 1, (m.v[x] / 10) % 10)
        .update(m.i + 2, m.v[x] % 10)
}

/// The state after an `FXNN` instruction.
pub open spec fn step_misc(m: Machine, x: int, nn: int) -> Machine {
    let next = Machine { pc: (m.pc + 2) as u16, ..m };
    if nn == 0x07 {
        Machine { v: m.v.update(x, m.delay_timer), ..next }
    } else if nn == 0x0A {
        match first_pressed(m.input) {
            Some(k) => Machine { v: m.v.update(x, k as u8), ..next },
            None => m,
        }
    } else if nn == 0x15 {
        Machine { delay_timer: m.v[x], ..next }
    } else if nn == 0x18 {
        Machine { sound_timer: m.v[x], ..next }
    } else if nn == 0x1E {
        let sum = m.i + m.v[x];
        Machine { i: sum as u16, v: m.v.update(15, (sum / 4096) as u8), ..next }
    } else if nn == 0x29 {
        Machine { i: (0x50 + (m.v[x] % 16) * 5) as u16, ..next }
    } else if nn == 0x33 {
        Machine { memory: stored_digits(m, x), ..next }
    } else if nn == 0x55 {
        Machine { memory: stored_registers(m, x), ..next }
    } else {
        Machine { v: loaded_registers(m, x), ..next }
    }
}

/// The state after executing the instruction at the program counter,
/// for a state where `fault_of` is `None`. `random` is the byte that
/// `CXNN` masks.
#[verifier::opaque]
pub open spec fn step(m: Machine, random: u8) -> Machine {
    let w = instruction_at(m);
    let op = opcode(w);
    let x = reg_x(w);
    let y = reg_y(w);
    let n = nibble(w);
    let nn = low_byte(w);
    let nnn = address(w);
    let next = Machine { pc: (m.pc + 2) as u16, ..m };
    let skipped = Machine { pc: (m.pc + 4) as u16, ..m };
    if op == 0x0 {
        if w == 0x00E0 {
            Machine { display: blank_display(), ..next }
        } else {
            let sp = m.stack_pointer - 1;
            Machine {
                stack_pointer: sp as usize,
                pc: m.stack[sp],
                stack: m.stack.update(sp, 0),
                ..m
            }
        }
    } else if op == 0x1 {
        Machine { pc: nnn as u16, ..m }
    } else if op == 0x2 {
        Machine {
            stack: m.stack.update(m.stack_pointer as int, (m.pc + 2) as u16),
            stack_pointer: (m.stack_pointer + 1) as usize,
            pc: nnn as u16,
            ..m
        }
    } else if op == 0x3 {
        if m.v[x] == nn { skipped } else { next }
    } else if op == 0x4 {
        if m.v[x] != nn { skipped } else { next }
    } else if op == 0x5 {
        if m.v[x] == m.v[y] { skipped } else { next }
    } else if op == 0x6 {
        Machine { v: m.v.update(x, nn as u8), ..next }
    } else if op == 0x7 {
        Machine { v: m.v.update(x, ((m.v[x] + nn) % 256) as u8), ..next }
    } else if op == 0x8 {
        Machine { v: alu(m.v, x, y, n), ..next }
    } else if op == 0x9 {
        if m.v[x] != m.v[y] { skipped } else { next }
    } else if op == 0xA {
        Machine { i: nnn as u16, ..next }
    } else if op == 0xB {
        Machine { pc: (nnn + m.v[0]) as u16, ..m }
    } else if op == 0xC {
        Machine { v: m.v.update(x, random & (nn as u8)), ..next }
    } else if op == 0xD {
        Machine {
            display: drawn_display(m, x, y, n),
            v: m.v.update(15, if collides(m, x, y, n) { 1u8 } else { 0u8 }),
            ..next
        }
    } else if op == 0xE {
        let pressed = m.input[m.v[x] as int];
        if (nn == 0x9E && pressed) || (nn == 0xA1 && !pressed) { skipped } else { next }
    } else {
        step_misc(m, x, nn)
    }
}

/// Both timers counted down by `decrement`, stopping at zero.
pub open spec fn ticked(m: Machine, decrement: u8) -> Machine {
    Machine {
        delay_timer: if m.delay_timer >= decrement { (m.delay_timer - decrement) as u8 } else { 0u8 },
        sound_timer: if m.sound_timer >= decrement { (m.sound_timer - decrement) as u8 } else { 0u8 },
        ..m
    }
}

/// Executes one instruction per byte of `randoms` (the byte is what `CXNN`
/// would mask), stopping at the first instruction that faults. Returns the
/// state reached and the fault, if one stopped the run.
pub open spec fn run(m: Machine, randoms: Seq<u8>) -> (Machine, Option<Fault>)
    decreases randoms.len(),
{
    if randoms.len() == 0 {
        (m, None)
    } else {
        match fault_of(m) {
            Some(f) => (m, Some(f)),
            None => run(step(m, randoms[0]), randoms.drop_first()),
        }
    }
}

/// Running one more instruction after a run that did not fault is running
/// that instruction from where the run stopped.
pub proof fn lemma_run_push(m: Machine, randoms: Seq<u8>, random: u8)
    requires
        run(m, randoms).1 == None::<Fault>,
    ensures
        run(m, randoms.push(random)) == run(run(m, randoms).0, seq![random]),
    decreases randoms.len(),
{
    if randoms.len() == 0 {
        assert(randoms.push(random) =~= seq![random]);
    } else {
        assert(randoms.push(random).drop_first() =~= randoms.drop_first().push(random));
        lemma_run_push(step(m, randoms[0]), randoms.drop_first(), random);
    }
}

/// A run of one instruction executes it unless it faults.
pub proof fn lemma_run_one(m: Machine, random: u8)
    ensures
        run(m, seq![random]) == match fault_of(m) {
            Some(f) => (m, Some(f)),
            None => (step(m, random), None::<Fault>),
        },
{
    assert(seq![random].drop_first() =~= Seq::<u8>::empty());
    assert(seq![random][0] == random);
    let after = step(m, random);
    assert(run(after, Seq::<u8>::empty()) == (after, None::<Fault>));
}

/// The machine right after power-on: the font at `0x050`, everything else
/// zeroed, and the program counter at the program start `0x200`.
pub open spec fn initial_machine() -> Machine {
    Machine {
        v: Seq::new(16, |k: int| 0u8),
        i: 0,
        pc: 0x200,
        memory: Seq::new(4096, |a: int| if 0x50 <= a < 0xA0 { FONT@[a - 0x50] } else { 0u8 }),
        stack: Seq::new(16, |k: int| 0u16),
        stack_pointer: 0,
        display: blank_display(),
        input: Seq::new(16, |k: int| false),
        delay_timer: 0,
        sound_timer: 0,
    }
}

} // verus!
