//! The executable CHIP-8 interpreter, proved against `crate::machine`.

use vstd::prelude::*;
use crate::font::{FONT, FONT_SIZE};
use crate::machine::{Machine, initial_machine, ticked, wf};

verus! {

broadcast use vstd::array::group_array_axioms;

pub const MEMORY_SIZE: usize = 4096;

pub const PROGRAM_START_ADDRESS: u16 = 0x200;
pub const PROGRAM_START_INDEX: usize = 0x200;

/// Largest ROM that fits between the program start and the end of memory.
pub const MAX_ROM_SIZE: usize = 3584;

pub const DISPLAY_WIDTH: usize = 64;
pub const DISPLAY_HEIGHT: usize = 32;

pub const REGISTER_COUNT: usize = 16;
pub const STACK_SIZE: usize = 16;
pub const INPUT_KEYS_COUNT: usize = 16;

pub const FONT_START_ADDRESS: u16 = 0x050;
pub const FONT_START_INDEX: usize = 0x050;
pub const FONT_END_INDEX: usize = 0x09F;

/// The screen, row by row: `display[y][x]` is the pixel in row `y`, column `x`.
pub type Display = [[bool; DISPLAY_WIDTH]; DISPLAY_HEIGHT];

/// A CHIP-8 machine: registers, memory, call stack, screen, keypad and timers.
pub struct Emulator {
    pub v: [u8; REGISTER_COUNT],
    pub i: u16,
    pub pc: u16,
    pub memory: [u8; MEMORY_SIZE],
    pub stack: [u16; STACK_SIZE],
    pub stack_pointer: usize,
    pub display: Display,
    pub input: [bool; INPUT_KEYS_COUNT],
    pub delay_timer: u8,
    pub sound_timer: u8,
}

impl View for Emulator {
    type V = Machine;

    open spec fn view(&self) -> Machine {
        Machine {
            v: self.v@,
            i: self.i,
            pc: self.pc,
            memory: self.memory@,
            stack: self.stack@,
            stack_pointer: self.stack_pointer,
            display: Seq::new(32, |r: int| self.display[r]@),
            input: self.input@,
            delay_timer: self.delay_timer,
            sound_timer: self.sound_timer,
        }
    }
}

/// Every emulator state has the sizes of a CHIP-8 machine.
pub proof fn lemma_view_wf(e: &Emulator)
    ensures
        wf(e@),
{
    assert forall|r: int| 0 <= r < 32 implies (#[trigger] e@.display[r]).len() == 64 by {
        assert(e@.display[r] == e.display[r]@);
    }
}

impl Emulator {
    /// A freshly powered-on machine: font loaded, all else zero, `pc` at `0x200`.
    pub fn new() -> (emulator: Emulator)
        ensures
            emulator@ == initial_machine(),
    {
        let mut emulator = Emulator {
            v: [0; REGISTER_COUNT],
            i: 0,
            pc: PROGRAM_START_ADDRESS,
            memory: [0; MEMORY_SIZE],
            stack: [0; STACK_SIZE],
            stack_pointer: 0,
            display: [[false; DISPLAY_WIDTH]; DISPLAY_HEIGHT],
            input: [false; INPUT_KEYS_COUNT],
            delay_timer: 0,
            sound_timer: 0,
        };
        emulator.load_font();
        proof {
            let e = emulator@;
            let init = initial_machine();
            assert(e.v =~= init.v);
            assert(e.stack =~= init.stack);
            assert(e.input =~= init.input);
            assert(e.memory =~= init.memory);
            assert(e.display =~~= init.display);
        }
        emulator
    }

    /// Copies a ROM image to memory at the program start and points the
    /// program counter there. Memory outside the ROM's bytes is left as it was.
    pub fn load(&mut self, bytes: &[u8])
        requires
            bytes@.len() <= MAX_ROM_SIZE,
        ensures
            final(self)@ == (Machine {
                memory: Seq::new(4096, |a: int|
                    if 0x200 <= a < 0x200 + bytes@.len() { bytes@[a - 0x200] } else { old(self)@.memory[a] }),
                pc: 0x200,
                ..old(self)@
            }),
    {
        let ghost before = self.memory@;
        let len: usize = bytes.len();
        let mut k: usize = 0;
        while k < len
            invariant
                k <= len,
                len == bytes@.len(),
                len <= MAX_ROM_SIZE,
                self.memory@.len() == 4096,
                forall|a: int| 0 <= a < 4096 ==> #[trigger] self.memory@[a]
                    == if 0x200 <= a < 0x200 + k { bytes@[a - 0x200] } else { before[a] },
                self.v == old(self).v,
                self.i == old(self).i,
                self.pc == old(self).pc,
                self.stack == old(self).stack,
                self.stack_pointer == old(self).stack_pointer,
                self.display == old(self).display,
                self.input == old(self).input,
                self.delay_timer == old(self).delay_timer,
                self.sound_timer == old(self).sound_timer,
                before == old(self).memory@,
            decreases len - k,
        {
            self.memory[PROGRAM_START_INDEX + k] = bytes[k];
            k = k + 1;
        }
        self.pc = PROGRAM_START_ADDRESS;
        assert(self.memory@ =~= Seq::new(4096, |a: int|
            if 0x200 <= a < 0x200 + bytes@.len() { bytes@[a - 0x200] } else { before[a] }));
    }

    /// Counts both timers down by `decrement`, stopping at zero.
    pub fn tick_timers(&mut self, decrement: u8)
        ensures
            final(self)@ == ticked(old(self)@, decrement),
    {
        self.delay_timer = self.delay_timer.saturating_sub(decrement);
        self.sound_timer = self.sound_timer.saturating_sub(decrement);
    }

    /// Returns the machine to its power-on state (the loaded ROM is cleared too).
    pub fn reset(&mut self)
        ensures
            final(self)@ == initial_machine(),
    {
        *self = Self::new();
    }

    /// The screen.
    pub fn display(&self) -> (display: &Display)
        ensures
            *display == self.display,
    {
        &self.display
    }

    /// The sound timer: the buzzer sounds while it is above zero.
    pub fn sound_timer(&self) -> (timer: u8)
        ensures
            timer == self.sound_timer,
    {
        self.sound_timer
    }

    /// Marks key `key` (`0x0` to `0xF`) as pressed or released.
    pub fn set_key(&mut self, key: u8, pressed: bool)
        requires
            key < 16,
        ensures
            final(self)@ == (Machine { input: old(self)@.input.update(key as int, pressed), ..old(self)@ }),
    {
        self.input[key as usize] = pressed;
    }

    /// Releases every key.
    pub fn clear_keys(&mut self)
        ensures
            final(self)@ == (Machine { input: Seq::new(16, |k: int| false), ..old(self)@ }),
    {
        self.input = [false; INPUT_KEYS_COUNT];
        assert(self.input@ =~= Seq::new(16, |k: int| false));
    }

    /// Copies the built-in font to `0x050..=0x09F`.
    fn load_font(&mut self)
        ensures
            final(self)@ == (Machine {
                memory: Seq::new(4096, |a: int|
                    if 0x50 <= a < 0xA0 { FONT@[a - 0x50] } else { old(self)@.memory[a] }),
                ..old(self)@
            }),
    {
        let ghost before = self.memory@;
        let mut k: usize = 0;
        while k < FONT_SIZE
            invariant
                k <= FONT_SIZE,
                self.memory@.len() == 4096,
                forall|a: int| 0 <= a < 4096 ==> #[trigger] self.memory@[a]
                    == if 0x50 <= a < 0x50 + k { FONT@[a - 0x50] } else { before[a] },
                self.v == old(self).v,
                self.i == old(self).i,
                self.pc == old(self).pc,
                self.stack == old(self).stack,
                self.stack_pointer == old(self).stack_pointer,
                self.display == old(self).display,
                self.input == old(self).input,
                self.delay_timer == old(self).delay_timer,
                self.sound_timer == old(self).sound_timer,
                before == old(self).memory@,
            decreases FONT_SIZE - k,
        {
            self.memory[FONT_START_INDEX + k] = FONT[k];
            k = k + 1;
        }
        assert(self.memory@ =~= Seq::new(4096, |a: int|
            if 0x50 <= a < 0xA0 { FONT@[a - 0x50] } else { before[a] }));
    }
}

} // verus!
