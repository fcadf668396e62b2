use chip8::display::{render_row, DisplayWidget};
use chip8::emulator::{Emulator, DISPLAY_HEIGHT, DISPLAY_WIDTH, MEMORY_SIZE, PROGRAM_START_INDEX};
use chip8::keys::{handle_key, map_key, KeyCode, KeyCommand, KeyEventKind};
use chip8::machine::Fault;
use chip8::runtime::{run_frame, FrameSound};

fn with_program(program: &[u8]) -> Emulator {
    let mut emulator = Emulator::new();
    emulator.load(program);
    emulator
}

#[test]
fn fault_pc_out_of_range() {
    let mut emulator = Emulator::new();
    emulator.pc = (MEMORY_SIZE - 1) as u16;
    assert_eq!(emulator.execute(), Err(Fault::PcOutOfRange));
    assert_eq!(emulator.pc, (MEMORY_SIZE - 1) as u16);
}

#[test]
fn fault_unknown_instruction_leaves_state_unchanged() {
    let mut emulator = with_program(&[0x0F, 0xFF]);
    emulator.v[3] = 7;
    assert_eq!(emulator.execute(), Err(Fault::UnknownInstruction));
    assert_eq!(emulator.pc, 0x200);
    assert_eq!(emulator.v[3], 7);
}

#[test]
fn fault_stack_underflow_and_pointer_out_of_range() {
    let mut emulator = with_program(&[0x00, 0xEE]);
    assert_eq!(emulator.execute(), Err(Fault::StackUnderflow));
    emulator.stack_pointer = 17;
    assert_eq!(emulator.execute(), Err(Fault::StackPointerOutOfRange));
}

#[test]
fn fault_stack_overflow() {
    let mut emulator = with_program(&[0x22, 0x00]);
    emulator.stack_pointer = 16;
    assert_eq!(emulator.execute(), Err(Fault::StackOverflow));
}

#[test]
fn fault_sprite_out_of_bounds() {
    let mut emulator = with_program(&[0xD0, 0x12]);
    emulator.i = (MEMORY_SIZE - 1) as u16;
    assert_eq!(emulator.execute(), Err(Fault::SpriteOutOfBounds));
    emulator.i = (MEMORY_SIZE - 2) as u16;
    assert_eq!(emulator.execute(), Ok(()));
}

#[test]
fn fault_key_out_of_range() {
    let mut emulator = with_program(&[0xE0, 0x9E]);
    emulator.v[0] = 0x10;
    assert_eq!(emulator.execute(), Err(Fault::KeyOutOfRange));
}

#[test]
fn fault_index_overflow() {
    let mut emulator = with_program(&[0xF0, 0x1E]);
    emulator.i = 0xFFF0;
    emulator.v[0] = 0x10;
    assert_eq!(emulator.execute(), Err(Fault::IndexOverflow));
    emulator.v[0] = 0x0F;
    assert_eq!(emulator.execute(), Ok(()));
    assert_eq!(emulator.i, 0xFFFF);
    assert_eq!(emulator.v[0xF], 0xF);
}

#[test]
fn fault_memory_bounds() {
    let mut emulator = with_program(&[0xF3, 0x55]);
    emulator.i = (MEMORY_SIZE - 3) as u16;
    assert_eq!(emulator.execute(), Err(Fault::MemoryWriteOutOfBounds));
    let mut emulator = with_program(&[0xF3, 0x65]);
    emulator.i = (MEMORY_SIZE - 3) as u16;
    assert_eq!(emulator.execute(), Err(Fault::MemoryReadOutOfBounds));
}

#[test]
fn fault_messages() {
    assert_eq!(Fault::UnknownInstruction.message(), "Unknown instruction");
    assert_eq!(
        Fault::StackUnderflow.message(),
        "Cannot return from subroutine: stack is empty"
    );
    assert_eq!(Fault::StackOverflow.message(), "Cannot call subroutine: stack overflow");
}

#[test]
fn fault_query_matches_execute() {
    let emulator = with_program(&[0x8A, 0xB9]);
    assert_eq!(emulator.fault(), Some(Fault::UnknownInstruction));
    let emulator = with_program(&[0x8A, 0xB4]);
    assert_eq!(emulator.fault(), None);
}

#[test]
fn execute_with_random_masks_given_byte() {
    let mut emulator = with_program(&[0xC5, 0x3C]);
    emulator.execute_with_random(0xA5).unwrap();
    assert_eq!(emulator.v[5], 0xA5 & 0x3C);
    assert_eq!(emulator.pc, 0x202);
}

#[test]
fn random_byte_respects_mask_law() {
    for _ in 0..64 {
        let mut emulator = with_program(&[0xC1, 0x81]);
        emulator.execute().unwrap();
        assert_eq!(emulator.v[1] & !0x81, 0);
    }
}

#[test]
fn random_bytes_vary() {
    let mut seen = [false; 256];
    for _ in 0..512 {
        let mut emulator = with_program(&[0xC1, 0xFF]);
        emulator.execute().unwrap();
        seen[emulator.v[1] as usize] = true;
    }
    assert!(seen.iter().filter(|s| **s).count() > 16);
}

#[test]
fn call_then_return_law() {
    let mut emulator = with_program(&[0x23, 0x00]);
    emulator.memory[0x300] = 0x00;
    emulator.memory[0x301] = 0xEE;
    emulator.execute().unwrap();
    assert_eq!(emulator.pc, 0x300);
    emulator.execute().unwrap();
    assert_eq!(emulator.pc, 0x202);
    assert_eq!(emulator.stack_pointer, 0);
}

#[test]
fn store_then_load_registers_law() {
    let mut emulator = with_program(&[0xF4, 0x55, 0xF4, 0x65]);
    emulator.i = 0x400;
    emulator.v = [9, 8, 7, 6, 5, 4, 3, 2, 1, 0, 1, 2, 3, 4, 5, 6];
    let before = emulator.v;
    emulator.execute().unwrap();
    emulator.v[0] = 0xAA;
    emulator.v[4] = 0xBB;
    emulator.execute().unwrap();
    assert_eq!(emulator.v, before);
    assert_eq!(emulator.i, 0x400);
}

#[test]
fn draw_twice_restores_screen_law() {
    let mut emulator = with_program(&[0xD1, 0x23, 0xD1, 0x23]);
    emulator.v[1] = 62;
    emulator.v[2] = 30;
    emulator.i = 0x400;
    emulator.memory[0x400] = 0b1011_0110;
    emulator.memory[0x401] = 0b1111_1111;
    emulator.memory[0x402] = 0b0100_0001;
    emulator.display[30][62] = true;
    let before = emulator.display;
    emulator.execute().unwrap();
    assert_ne!(emulator.display, before);
    assert_eq!(emulator.v[0xF], 1);
    emulator.execute().unwrap();
    assert_eq!(emulator.display, before);
    assert_eq!(emulator.v[0xF], 1);
}

#[test]
fn add_with_carry_law() {
    for (a, b) in [(0u8, 0u8), (200, 100), (255, 255), (17, 3)] {
        let mut emulator = with_program(&[0x81, 0x24]);
        emulator.v[1] = a;
        emulator.v[2] = b;
        emulator.execute().unwrap();
        assert_eq!(emulator.v[1] as u16 + 256 * emulator.v[0xF] as u16, a as u16 + b as u16);
    }
}

#[test]
fn decimal_digits_law() {
    for value in [0u8, 7, 42, 100, 255] {
        let mut emulator = with_program(&[0xF2, 0x33]);
        emulator.i = 0x500;
        emulator.v[2] = value;
        emulator.execute().unwrap();
        let m = &emulator.memory;
        assert_eq!(100 * m[0x500] as u16 + 10 * m[0x501] as u16 + m[0x502] as u16, value as u16);
    }
}

#[test]
fn wait_for_key_law() {
    let mut emulator = with_program(&[0xF7, 0x0A]);
    emulator.execute().unwrap();
    assert_eq!(emulator.pc, 0x200);
    emulator.set_key(0x9, true);
    emulator.set_key(0xC, true);
    emulator.execute().unwrap();
    assert_eq!(emulator.v[7], 0x9);
    assert_eq!(emulator.pc, 0x202);
}

#[test]
fn sequential_instructions_advance_law() {
    let program = [0x00, 0xE0, 0x61, 0x05, 0x71, 0x01, 0x81, 0x10, 0xA1, 0x23, 0xC1, 0x00, 0xF1, 0x07];
    let mut emulator = with_program(&program);
    for k in 1..=7u16 {
        emulator.execute().unwrap();
        assert_eq!(emulator.pc, 0x200 + 2 * k);
    }
}

#[test]
fn skip_instructions_skip_by_four() {
    let mut emulator = with_program(&[0x30, 0x00]);
    emulator.execute().unwrap();
    assert_eq!(emulator.pc, 0x204);
}

#[test]
fn tick_timers_saturates() {
    let mut emulator = Emulator::new();
    emulator.delay_timer = 10;
    emulator.sound_timer = 3;
    emulator.tick_timers(5);
    assert_eq!(emulator.delay_timer, 5);
    assert_eq!(emulator.sound_timer, 0);
}

#[test]
fn ticks_compose_law() {
    let mut one = Emulator::new();
    one.delay_timer = 200;
    one.sound_timer = 90;
    let mut two = Emulator::new();
    two.delay_timer = 200;
    two.sound_timer = 90;
    one.tick_timers(60);
    one.tick_timers(40);
    two.tick_timers(100);
    assert_eq!((one.delay_timer, one.sound_timer), (two.delay_timer, two.sound_timer));
}

#[test]
fn full_tick_stops_timers_law() {
    let mut emulator = Emulator::new();
    emulator.delay_timer = 255;
    emulator.sound_timer = 254;
    emulator.tick_timers(u8::MAX);
    assert_eq!(emulator.delay_timer, 0);
    assert_eq!(emulator.sound_timer, 0);
}

#[test]
fn load_leaves_other_memory() {
    let mut emulator = Emulator::new();
    emulator.memory[0x210] = 0x77;
    emulator.load(&[1, 2, 3]);
    assert_eq!(emulator.memory[PROGRAM_START_INDEX..PROGRAM_START_INDEX + 3], [1, 2, 3]);
    assert_eq!(emulator.memory[0x210], 0x77);
    assert_eq!(emulator.memory[0x50], 0xF0);
}

#[test]
fn keys_set_and_clear() {
    let mut emulator = Emulator::new();
    emulator.set_key(0xF, true);
    emulator.set_key(0x0, true);
    assert!(emulator.input[0xF] && emulator.input[0x0]);
    emulator.set_key(0x0, false);
    assert!(!emulator.input[0x0]);
    emulator.clear_keys();
    assert_eq!(emulator.input, [false; 16]);
    assert_eq!(emulator.sound_timer(), 0);
}

#[test]
fn run_steps_executes_in_order() {
    let mut emulator = with_program(&[0x60, 0x01, 0x70, 0x02, 0x70, 0x03, 0x0F, 0xFF]);
    assert_eq!(emulator.run_steps(3), Ok(()));
    assert_eq!(emulator.v[0], 6);
    assert_eq!(emulator.run_steps(5), Err(Fault::UnknownInstruction));
    assert_eq!(emulator.pc, 0x206);
}

#[test]
fn run_frame_starts_and_stops_buzzer() {
    let mut emulator = with_program(&[0x60, 0x05, 0xF0, 0x18]);
    let sound = run_frame(&mut emulator, 2, 3).unwrap();
    assert_eq!(sound, FrameSound { start: true, stop: false });
    assert_eq!(emulator.sound_timer, 2);
    emulator.pc = 0x200;
    emulator.memory[0x201] = 0x02;
    let sound = run_frame(&mut emulator, 2, 2).unwrap();
    assert_eq!(sound, FrameSound { start: true, stop: true });
    let sound = run_frame(&mut emulator, 0, 0).unwrap();
    assert_eq!(sound, FrameSound { start: false, stop: true });
}

#[test]
fn run_frame_reports_fault() {
    let mut emulator = with_program(&[0x00, 0xEE]);
    assert_eq!(run_frame(&mut emulator, 1, 1), Err(Fault::StackUnderflow));
}

#[test]
fn keypad_layout() {
    let layout = "1234qwerasdfzxcv";
    let keys = [0x1, 0x2, 0x3, 0xC, 0x4, 0x5, 0x6, 0xD, 0x7, 0x8, 0x9, 0xE, 0xA, 0x0, 0xB, 0xF];
    for (c, k) in layout.chars().zip(keys) {
        assert_eq!(map_key(KeyCode::Char(c)), k);
    }
    assert_eq!(map_key(KeyCode::Char('y')), -1);
    assert_eq!(map_key(KeyCode::Esc), -1);
    assert_eq!(map_key(KeyCode::Other), -1);
    let mut reached = [false; 16];
    for c in layout.chars() {
        reached[map_key(KeyCode::Char(c)) as usize] = true;
    }
    assert_eq!(reached, [true; 16]);
}

#[test]
fn key_events() {
    assert_eq!(handle_key(KeyCode::Esc, KeyEventKind::Press), KeyCommand::Quit);
    assert_eq!(handle_key(KeyCode::Esc, KeyEventKind::Release), KeyCommand::Ignore);
    assert_eq!(
        handle_key(KeyCode::Char('v'), KeyEventKind::Press),
        KeyCommand::SetKey { key: 0xF, pressed: true }
    );
    assert_eq!(
        handle_key(KeyCode::Char('x'), KeyEventKind::Release),
        KeyCommand::SetKey { key: 0x0, pressed: false }
    );
    assert_eq!(handle_key(KeyCode::Char('x'), KeyEventKind::Repeat), KeyCommand::Ignore);
    assert_eq!(handle_key(KeyCode::Char('p'), KeyEventKind::Press), KeyCommand::Ignore);
}

#[test]
fn display_lines_show_pixels() {
    let mut emulator = Emulator::new();
    emulator.display[0][0] = true;
    emulator.display[31][63] = true;
    let widget = DisplayWidget::new(emulator.display());
    let lines = widget.lines();
    assert_eq!(lines.len(), DISPLAY_HEIGHT);
    for line in &lines {
        assert_eq!(line.chars().count(), 2 * DISPLAY_WIDTH);
    }
    assert!(lines[0].starts_with("\u{2588}\u{2588}  "));
    assert!(lines[31].ends_with("  \u{2588}\u{2588}"));
    assert_eq!(lines[5], " ".repeat(128));
}

#[test]
fn render_row_text() {
    let mut row = [false; DISPLAY_WIDTH];
    row[1] = true;
    let text = render_row(&row);
    let chars: Vec<char> = text.chars().collect();
    assert_eq!(chars[0], ' ');
    assert_eq!(chars[2], '\u{2588}');
    assert_eq!(chars[3], '\u{2588}');
    assert_eq!(chars[4], ' ');
}

#[test]
fn reset_clears_rom_and_registers() {
    let mut emulator = with_program(&[0x12, 0x34]);
    emulator.v[2] = 9;
    emulator.delay_timer = 4;
    emulator.reset();
    assert_eq!(emulator.memory[0x200], 0);
    assert_eq!(emulator.v[2], 0);
    assert_eq!(emulator.delay_timer, 0);
    assert_eq!(emulator.pc, 0x200);
    assert_eq!(emulator.memory[0x50..0xA0], chip8::font::FONT);
}
