//! One frame of the interpreter's main loop: the instructions and timer
//! ticks that came due, and what the buzzer has to do about them.

use vstd::prelude::*;
use crate::emulator::Emulator;
use crate::machine::{Fault, run, ticked};

verus! {

/// What the buzzer has to do during a frame, in order: start sounding after
/// the frame's instructions ran, then stop once the timers were ticked.
#[derive(Debug, Clone, Copy, PartialEq, Eq, Structural)]
pub struct FrameSound {
    /// The sound timer was above zero after the instructions ran.
    pub start: bool,
    /// The sound timer is zero at the end of the frame.
    pub stop: bool,
}

/// Runs one frame: executes `instructions` instructions, then counts the
/// timers down by `timer_ticks`. The buzzer starts if the sound timer is
/// running once the instructions have run, and stops if it has run out at
/// the end of the frame. A faulting instruction ends the frame early.
pub fn run_frame(emulator: &mut Emulator, instructions: usize, timer_ticks: u8) -> (result: Result<FrameSound, Fault>)
    ensures
        match result {
            Ok(sound) => exists|randoms: Seq<u8>| {
                &&& randoms.len() == instructions
                &&& #[trigger] run(old(emulator)@, randoms).1 == None::<Fault>
                &&& final(emulator)@ == ticked(run(old(emulator)@, randoms).0, timer_ticks)
                &&& sound.start == (run(old(emulator)@, randoms).0.sound_timer > 0)
                &&& sound.stop == (final(emulator)@.sound_timer == 0)
            },
            Err(f) => exists|randoms: Seq<u8>| randoms.len() <= instructions
                && #[trigger] run(old(emulator)@, randoms) == (final(emulator)@, Some(f)),
        },
{
    match emulator.run_steps(instructions) {
        Err(f) => return Err(f),
        Ok(()) => {},
    }
    let ghost randoms = choose|randoms: Seq<u8>| randoms.len() == instructions
        && #[trigger] run(old(emulator)@, randoms) == (emulator@, None::<Fault>);
    let ghost after_run = emulator@;
    let start = emulator.sound_timer() > 0;
    if timer_ticks != 0 {
        emulator.tick_timers(timer_ticks);
    } else {
        assert(ticked(after_run, 0) =~= after_run);
    }
    let stop = emulator.sound_timer() == 0;
    assert(run(old(emulator)@, randoms).0 == after_run);
    assert(run(old(emulator)@, randoms).1 == None::<Fault>);
    assert(emulator@ == ticked(after_run, timer_ticks));
    Ok(FrameSound { start, stop })
}

} // verus!
