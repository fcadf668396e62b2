//! Fetch, decode and execution of one instruction.

use vstd::prelude::*;
use crate::emulator::{Emulator, DISPLAY_HEIGHT, DISPLAY_WIDTH, FONT_START_ADDRESS, MEMORY_SIZE, STACK_SIZE};
use crate::machine::{
    Fault, Machine, address, alu, blank_display, collides, drawn_display, erases, fault_of,
    first_pressed, first_pressed_from, instruction_at, loaded_registers, low_byte, nibble,
    opcode, reg_x, reg_y, run, sprite_pixel, step, step_misc, stored_digits, stored_registers,
    under_sprite, wf, lemma_run_one, lemma_run_push,
};
use crate::emulator::lemma_view_wf;

verus! {

broadcast use vstd::array::group_array_axioms;

/// The fields of one instruction word.
struct Decoded {
    word: u16,
    opcode: u16,
    x: usize,
    y: usize,
    n: u8,
    nn: u8,
    nnn: u16,
}

impl Decoded {
    spec fn matches(self, w: int) -> bool {
        &&& self.word == w
        &&& self.opcode == opcode(w) * 4096
        &&& self.x == reg_x(w)
        &&& self.y == reg_y(w)
        &&& self.n == nibble(w)
        &&& self.nn == low_byte(w)
        &&& self.nnn == address(w)
    }
}

proof fn lemma_join(b1: u16, b2: u16)
    requires
        b1 < 256,
        b2 < 256,
    ensures
        (b1 << 8u16) | b2 == b1 * 256 + b2,
{
    assert(b1 < 256 && b2 < 256 ==> (b1 << 8u16) | b2 == b1 * 256 + b2) by (bit_vector);
}

proof fn lemma_fields(w: u16)
    ensures
        w & 0xF000u16 == (w / 4096) * 4096,
        (w & 0x0F00u16) >> 8u16 == (w / 256) % 16,
        (w & 0x00F0u16) >> 4u16 == (w / 16) % 16,
        w & 0x000Fu16 == w % 16,
        w & 0x00FFu16 == w % 256,
        w & 0x0FFFu16 == w % 4096,
{
    assert(w & 0xF000u16 == (w / 4096) * 4096) by (bit_vector);
    assert((w & 0x0F00u16) >> 8u16 == (w / 256) % 16) by (bit_vector);
    assert((w & 0x00F0u16) >> 4u16 == (w / 16) % 16) by (bit_vector);
    assert(w & 0x000Fu16 == w % 16) by (bit_vector);
    assert(w & 0x00FFu16 == w % 256) by (bit_vector);
    assert(w & 0x0FFFu16 == w % 4096) by (bit_vector);
}

/// Splits an instruction word into its fields.
fn decode(word: u16) -> (d: Decoded)
    ensures
        d.matches(word as int),
{
    proof {
        lemma_fields(word);
    }
    Decoded {
        word,
        opcode: word & 0xF000,
        x: ((word & 0x0F00) >> 8) as usize,
        y: ((word & 0x00F0) >> 4) as usize,
        n: (word & 0x000F) as u8,
        nn: (word & 0x00FF) as u8,
        nnn: word & 0x0FFF,
    }
}

impl Emulator {
    /// The instruction word at the program counter.
    fn fetch(&self) -> (word: u16)
        requires
            self.pc < 4095,
        ensures
            word == instruction_at(self@),
    {
        let pc: usize = self.pc as usize;
        let byte1: u16 = self.memory[pc] as u16;
        let byte2: u16 = self.memory[pc + 1] as u16;
        proof {
            lemma_join(byte1, byte2);
        }
        (byte1 << 8) | byte2
    }

    /// The fault that executing the instruction at the program counter
    /// would raise, or `None` when it can be executed.
    pub fn fault(&self) -> (f: Option<Fault>)
        ensures
            f == fault_of(self@),
    {
        reveal(fault_of);
        if self.pc as usize >= MEMORY_SIZE - 1 {
            return Some(Fault::PcOutOfRange);
        }
        let d = decode(self.fetch());
        let x = d.x;
        let n = d.n;
        let nn = d.nn;
        let i: usize = self.i as usize;
        if d.opcode == 0x0000 {
            if d.word == 0x00E0 {
                None
            } else if d.word == 0x00EE {
                if self.stack_pointer == 0 {
                    Some(Fault::StackUnderflow)
                } else if self.stack_pointer > STACK_SIZE {
                    Some(Fault::StackPointerOutOfRange)
                } else {
                    None
                }
            } else {
                Some(Fault::UnknownInstruction)
            }
        } else if d.opcode == 0x2000 {
            if self.stack_pointer >= STACK_SIZE { Some(Fault::StackOverflow) } else { None }
        } else if d.opcode == 0x5000 || d.opcode == 0x9000 {
            if n != 0 { Some(Fault::UnknownInstruction) } else { None }
        } else if d.opcode == 0x8000 {
            if n <= 7 || n == 0xE { None } else { Some(Fault::UnknownInstruction) }
        } else if d.opcode == 0xD000 {
            if i + n as usize > MEMORY_SIZE { Some(Fault::SpriteOutOfBounds) } else { None }
        } else if d.opcode == 0xE000 {
            if nn == 0x9E || nn == 0xA1 {
                if self.v[x] > 0xF { Some(Fault::KeyOutOfRange) } else { None }
            } else {
                Some(Fault::UnknownInstruction)
            }
        } else if d.opcode == 0xF000 {
            if nn == 0x07 || nn == 0x0A || nn == 0x15 || nn == 0x18 || nn == 0x29 {
                None
            } else if nn == 0x1E {
                if i + self.v[x] as usize > 0xFFFF { Some(Fault::IndexOverflow) } else { None }
            } else if nn == 0x33 {
                if i + 3 > MEMORY_SIZE { Some(Fault::MemoryWriteOutOfBounds) } else { None }
            } else if nn == 0x55 {
                if i + x + 1 > MEMORY_SIZE { Some(Fault::MemoryWriteOutOfBounds) } else { None }
            } else if nn == 0x65 {
                if i + x + 1 > MEMORY_SIZE { Some(Fault::MemoryReadOutOfBounds) } else { None }
            } else {
                Some(Fault::UnknownInstruction)
            }
        } else {
            None
        }
    }

    /// Executes the instruction at the program counter, for a state where it
    /// does not fault.
    fn apply(&mut self, random: u8)
        requires
            fault_of(old(self)@) == None::<Fault>,
        ensures
            final(self)@ == step(old(self)@, random),
    {
        let ghost m = self@;
        proof {
            lemma_view_wf(self);
            reveal(fault_of);
            reveal(step);
        }
        let d = decode(self.fetch());
        let x = d.x;
        let y = d.y;
        let n = d.n;
        let nn = d.nn;
        let nnn = d.nnn;
        let next: u16 = self.pc + 2;
        if d.opcode == 0x0000 {
            if d.word == 0x00E0 {
                self.display = [[false; DISPLAY_WIDTH]; DISPLAY_HEIGHT];
                self.pc = next;
                assert(self@.display =~~= blank_display());
            } else {
                self.stack_pointer = self.stack_pointer - 1;
                self.pc = self.stack[self.stack_pointer];
                self.stack[self.stack_pointer] = 0;
            }
        } else if d.opcode == 0x1000 {
            self.pc = nnn;
        } else if d.opcode == 0x2000 {
            self.stack[self.stack_pointer] = next;
            self.pc = nnn;
            self.stack_pointer = self.stack_pointer + 1;
        } else if d.opcode == 0x3000 {
            self.pc = if self.v[x] == nn { next + 2 } else { next };
        } else if d.opcode == 0x4000 {
            self.pc = if self.v[x] != nn { next + 2 } else { next };
        } else if d.opcode == 0x5000 {
            self.pc = if self.v[x] == self.v[y] { next + 2 } else { next };
        } else if d.opcode == 0x6000 {
            self.v[x] = nn;
            self.pc = next;
        } else if d.opcode == 0x7000 {
            self.v[x] = self.v[x].wrapping_add(nn);
            self.pc = next;
        } else if d.opcode == 0x8000 {
            self.apply_alu(x, y, n);
            self.pc = next;
        } else if d.opcode == 0x9000 {
            self.pc = if self.v[x] != self.v[y] { next + 2 } else { next };
        } else if d.opcode == 0xA000 {
            self.i = nnn;
            self.pc = next;
        } else if d.opcode == 0xB000 {
            self.pc = nnn + self.v[0] as u16;
        } else if d.opcode == 0xC000 {
            self.v[x] = random & nn;
            self.pc = next;
        } else if d.opcode == 0xD000 {
            self.draw_sprite(x, y, n);
            self.pc = next;
        } else if d.opcode == 0xE000 {
            let pressed = self.input[self.v[x] as usize];
            self.pc = if (nn == 0x9E && pressed) || (nn == 0xA1 && !pressed) { next + 2 } else { next };
        } else {
            self.apply_misc(x, nn);
        }
        assert(self@ =~~= step(m, random));
    }

    /// `8XYN`: arithmetic and logic on `VX` and `VY`, flags in `VF`.
    fn apply_alu(&mut self, x: usize, y: usize, n: u8)
        requires
            x < 16,
            y < 16,
            n <= 7 || n == 0xE,
        ensures
            final(self)@ == (Machine { v: alu(old(self)@.v, x as int, y as int, n as int), ..old(self)@ }),
    {
        let vx = self.v[x];
        let vy = self.v[y];
        if n == 0x0 {
            self.v[x] = vy;
        } else if n == 0x1 {
            self.v[x] = vx | vy;
        } else if n == 0x2 {
            self.v[x] = vx & vy;
        } else if n == 0x3 {
            self.v[x] = vx ^ vy;
        } else if n == 0x4 {
            let sum: u16 = vx as u16 + vy as u16;
            self.v[x] = (sum % 256) as u8;
            self.v[0xF] = if sum > 255 { 1 } else { 0 };
        } else if n == 0x5 {
            self.v[x] = vx.wrapping_sub(vy);
            self.v[0xF] = if vx >= vy { 1 } else { 0 };
        } else if n == 0x6 {
            self.v[0xF] = vx & 0b00000001;
            self.v[x] = self.v[x] >> 1;
        } else if n == 0x7 {
            self.v[x] = vy.wrapping_sub(vx);
            self.v[0xF] = if vy >= vx { 1 } else { 0 };
        } else {
            self.v[0xF] = (vx & 0b10000000) >> 7;
            self.v[x] = self.v[x] << 1;
        }
        assert(self@.v =~= alu(old(self)@.v, x as int, y as int, n as int));
    }

    /// `DXYN`: XORs the `n`-row sprite at `I` onto the screen at (`VX`, `VY`);
    /// `VF` tells whether a lit pixel was turned off.
    fn draw_sprite(&mut self, x: usize, y: usize, n: u8)
        requires
            x < 16,
            y < 16,
            n < 16,
            old(self).i + n <= 4096,
        ensures
            final(self)@ == (Machine {
                display: drawn_display(old(self)@, x as int, y as int, n as int),
                v: old(self)@.v.update(15, if collides(old(self)@, x as int, y as int, n as int) { 1u8 } else { 0u8 }),
                ..old(self)@
            }),
    {
        let ghost m = self@;
        proof {
            lemma_view_wf(self);
        }
        let x_start: usize = (self.v[x] as usize) % DISPLAY_WIDTH;
        let y_start: usize = (self.v[y] as usize) % DISPLAY_HEIGHT;
        let x_end: usize = if x_start + 8 < DISPLAY_WIDTH { x_start + 8 } else { DISPLAY_WIDTH };
        let y_end: usize = if y_start + (n as usize) < DISPLAY_HEIGHT { y_start + n as usize } else { DISPLAY_HEIGHT };
        let base: usize = self.i as usize;
        let mut display = self.display;
        let mut overflow = false;
        let mut r: usize = y_start;
        while r < y_end
            invariant
                y_start <= r <= y_end,
                y_end <= 32,
                x_end <= 64,
                x_start <= x_end,
                x < 16,
                y < 16,
                self@ == m,
                wf(m),
                base == m.i,
                base + n <= 4096,
                x_start == m.v[x as int] % 64,
                y_start == m.v[y as int] % 32,
                x_end == if x_start + 8 < 64 { x_start + 8 } else { 64 },
                y_end == if y_start + n < 32 { y_start + n } else { 32 },
                forall|rr: int, cc: int| 0 <= rr < 32 && 0 <= cc < 64 ==> #[trigger] display[rr]@[cc]
                    == if rr < r && under_sprite(m, x as int, y as int, n as int, rr, cc) {
                        m.display[rr][cc] != sprite_pixel(m, x as int, y as int, rr, cc)
                    } else {
                        m.display[rr][cc]
                    },
                overflow == exists|rr: int, cc: int| rr < r && #[trigger] erases(m, x as int, y as int, n as int, rr, cc),
            decreases y_end - r,
        {
            let sprite_pixels: u8 = self.memory[base + (r - y_start)];
            let mut row = display[r];
            let ghost old_overflow = overflow;
            let mut c: usize = x_start;
            while c < x_end
                invariant
                    y_start <= r < y_end,
                    y_end <= 32,
                    x_start <= c <= x_end,
                    x_end <= 64,
                    x < 16,
                    y < 16,
                    wf(m),
                    self@ == m,
                    base == m.i,
                    x_start == m.v[x as int] % 64,
                    y_start == m.v[y as int] % 32,
                    x_end == if x_start + 8 < 64 { x_start + 8 } else { 64 },
                    y_end == if y_start + n < 32 { y_start + n } else { 32 },
                    sprite_pixels == m.memory[m.i + (r - y_start)],
                    forall|cc: int| 0 <= cc < 64 ==> #[trigger] row@[cc]
                        == if x_start <= cc < c {
                            m.display[r as int][cc] != sprite_pixel(m, x as int, y as int, r as int, cc)
                        } else {
                            m.display[r as int][cc]
                        },
                    overflow == (old_overflow || exists|cc: int| cc < c && #[trigger] erases(m, x as int, y as int, n as int, r as int, cc)),
                    old_overflow == exists|rr: int, cc: int| rr < r && #[trigger] erases(m, x as int, y as int, n as int, rr, cc),
                decreases x_end - c,
            {
                let display_pixel = row[c];
                let sprite_on = (sprite_pixels & (0b10000000u8 >> ((c - x_start) as u8))) != 0;
                assert(sprite_on == sprite_pixel(m, x as int, y as int, r as int, c as int));
                assert(display_pixel == m.display[r as int][c as int]);
                row[c] = display_pixel != sprite_on;
                if display_pixel && sprite_on {
                    assert(erases(m, x as int, y as int, n as int, r as int, c as int));
                    overflow = true;
                }
                c = c + 1;
            }
            display[r] = row;
            r = r + 1;
        }
        self.display = display;
        self.v[0xF] = if overflow { 1 } else { 0 };
        assert(self@.display =~~= drawn_display(m, x as int, y as int, n as int));
        assert(self@.v =~= m.v.update(15, if collides(m, x as int, y as int, n as int) { 1u8 } else { 0u8 }));
    }

    /// `FXNN`: timers, keypad wait, index register, decimal digits and
    /// register block transfers.
    fn apply_misc(&mut self, x: usize, nn: u8)
        requires
            fault_of(old(self)@) == None::<Fault>,
            opcode(instruction_at(old(self)@)) == 0xF,
            x == reg_x(instruction_at(old(self)@)),
            nn == low_byte(instruction_at(old(self)@)),
        ensures
            final(self)@ == step_misc(old(self)@, x as int, nn as int),
    {
        let ghost m = self@;
        proof {
            lemma_view_wf(self);
            reveal(fault_of);
        }
        let next: u16 = self.pc + 2;
        let i: usize = self.i as usize;
        if nn == 0x07 {
            self.v[x] = self.delay_timer;
            self.pc = next;
        } else if nn == 0x0A {
            let mut k: usize = 0;
            while k < 16 && !self.input[k]
                invariant
                    k <= 16,
                    self@ == m,
                    wf(m),
                    first_pressed(m.input) == first_pressed_from(m.input, k as int),
                decreases 16 - k,
            {
                k = k + 1;
            }
            if k < 16 {
                self.v[x] = k as u8;
                self.pc = next;
            }
        } else if nn == 0x15 {
            self.delay_timer = self.v[x];
            self.pc = next;
        } else if nn == 0x18 {
            self.sound_timer = self.v[x];
            self.pc = next;
        } else if nn == 0x1E {
            let sum: u32 = self.i as u32 + self.v[x] as u32;
            self.i = sum as u16;
            let index = self.i;
            assert(index >> 12u16 == index / 4096) by (bit_vector);
            self.v[0xF] = (index >> 12) as u8;
            self.pc = next;
        } else if nn == 0x29 {
            let vx = self.v[x];
            assert(vx & 0x0Fu8 == vx % 16) by (bit_vector);
            self.i = FONT_START_ADDRESS + ((vx & 0x0F) as u16) * 5;
            self.pc = next;
        } else if nn == 0x33 {
            let vx = self.v[x];
            self.memory[i] = vx / 100;
            self.memory[i + 1] = (vx / 10) % 10;
            self.memory[i + 2] = vx % 10;
            self.pc = next;
            assert(self@.memory =~= stored_digits(m, x as int));
        } else if nn == 0x55 {
            let mut k: usize = 0;
            while k <= x
                invariant
                    k <= x + 1,
                    x < 16,
                    i == m.i,
                    i + x + 1 <= 4096,
                    wf(m),
                    self.v@ == m.v,
                    self.pc == m.pc,
                    self.i == m.i,
                    self.stack == old(self).stack,
                    self.stack_pointer == m.stack_pointer,
                    self.display == old(self).display,
                    self.input == old(self).input,
                    self.delay_timer == m.delay_timer,
                    self.sound_timer == m.sound_timer,
                    forall|a: int| 0 <= a < 4096 ==> #[trigger] self.memory@[a]
                        == if i <= a < i + k { m.v[a - i] } else { m.memory[a] },
                decreases x + 1 - k,
            {
                self.memory[i + k] = self.v[k];
                k = k + 1;
            }
            self.pc = next;
            assert(self@.memory =~= stored_registers(m, x as int));
            assert(self@.display =~~= m.display);
        } else {
            let mut k: usize = 0;
            while k <= x
                invariant
                    k <= x + 1,
                    x < 16,
                    i == m.i,
                    i + x + 1 <= 4096,
                    wf(m),
                    self.memory@ == m.memory,
                    self.pc == m.pc,
                    self.i == m.i,
                    self.stack == old(self).stack,
                    self.stack_pointer == m.stack_pointer,
                    self.display == old(self).display,
                    self.input == old(self).input,
                    self.delay_timer == m.delay_timer,
                    self.sound_timer == m.sound_timer,
                    forall|j: int| 0 <= j < 16 ==> #[trigger] self.v@[j]
                        == if j < k { m.memory[i + j] } else { m.v[j] },
                decreases x + 1 - k,
            {
                self.v[k] = self.memory[i + k];
                k = k + 1;
            }
            self.pc = next;
            assert(self@.v =~= loaded_registers(m, x as int));
            assert(self@.display =~~= m.display);
        }
        assert(self@ =~~= step_misc(m, x as int, nn as int));
    }
}

/// A byte drawn from `rand::random_range(0..=0xFF)`, the thread-local
/// generator of `rand`. Nothing is claimed of its value beyond being a byte:
/// it depends on chance.
#[verifier::external_body]
fn random_byte() -> u8 {
    rand::random_range(0..=0xFFu8)
}

impl Emulator {
    /// Executes the instruction at the program counter, with `random` as the
    /// byte that `CXNN` masks. An instruction that faults leaves the machine
    /// unchanged and reports the fault.
    pub fn execute_with_random(&mut self, random: u8) -> (result: Result<(), Fault>)
        ensures
            match result {
                Ok(()) => fault_of(old(self)@) == None::<Fault> && final(self)@ == step(old(self)@, random),
                Err(f) => fault_of(old(self)@) == Some(f) && *final(self) == *old(self),
            },
    {
        match self.fault() {
            Some(f) => Err(f),
            None => {
                self.apply(random);
                Ok(())
            },
        }
    }

    /// Executes the instruction at the program counter; `CXNN` masks a
    /// random byte. An instruction that faults leaves the machine unchanged
    /// and reports the fault.
    pub fn execute(&mut self) -> (result: Result<(), Fault>)
        ensures
            match result {
                Ok(()) => fault_of(old(self)@) == None::<Fault>
                    && exists|random: u8| final(self)@ == #[trigger] step(old(self)@, random),
                Err(f) => fault_of(old(self)@) == Some(f) && *final(self) == *old(self),
            },
    {
        let random = random_byte();
        self.execute_with_random(random)
    }

    /// Executes `steps` instructions, stopping at the first one that faults.
    pub fn run_steps(&mut self, steps: usize) -> (result: Result<(), Fault>)
        ensures
            match result {
                Ok(()) => exists|randoms: Seq<u8>| randoms.len() == steps
                    && #[trigger] run(old(self)@, randoms) == (final(self)@, None::<Fault>),
                Err(f) => exists|randoms: Seq<u8>| randoms.len() <= steps
                    && #[trigger] run(old(self)@, randoms) == (final(self)@, Some(f)),
            },
    {
        let ghost start = self@;
        let ghost mut randoms: Seq<u8> = Seq::empty();
        let mut k: usize = 0;
        while k < steps
            invariant
                k <= steps,
                randoms.len() == k,
                start == old(self)@,
                run(start, randoms) == (self@, None::<Fault>),
            decreases steps - k,
        {
            let random = random_byte();
            let ghost before = self@;
            let result = self.execute_with_random(random);
            proof {
                lemma_run_push(start, randoms, random);
                lemma_run_one(before, random);
                randoms = randoms.push(random);
            }
            match result {
                Err(f) => {
                    assert(run(start, randoms) == (self@, Some(f)));
                    return Err(f);
                },
                Ok(()) => {},
            }
            k = k + 1;
        }
        Ok(())
    }
}

} // verus!
