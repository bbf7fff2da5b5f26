use chip8::interface::{HostEvent, Interface, PixelRect, Reaction, TimerClock, TIMER_PERIOD_NANOS};
use chip8::{Chip8, Key};

fn rect(x: i32, y: i32, side: u32) -> PixelRect {
    PixelRect { x, y, width: side, height: side }
}

#[test]
fn interface_keeps_its_title_and_size() {
    let interface = Interface::new(String::from("RUST-8"), 64, 32, 25);
    assert_eq!(interface.title(), "RUST-8");
    assert_eq!(interface.pixel_width(), Some(1600));
    assert_eq!(interface.pixel_height(), Some(800));
    assert!(interface.is_drawable());
}

#[test]
fn pixel_sizes_that_overflow_are_none() {
    let interface = Interface::new(String::new(), 0x1_0000, 2, 0x1_0000);
    assert_eq!(interface.pixel_width(), None);
    assert_eq!(interface.pixel_height(), Some(0x2_0000));
}

#[test]
fn windows_larger_than_the_display_are_not_drawable() {
    assert!(!Interface::new(String::new(), 64, 33, 1).is_drawable());
    assert!(!Interface::new(String::new(), 2049, 1, 1).is_drawable());
    assert!(!Interface::new(String::new(), u32::MAX, u32::MAX, 1).is_drawable());
    assert!(!Interface::new(String::new(), 64, 32, 0x0400_0000).is_drawable());
    assert!(Interface::new(String::new(), 64, 32, 0x01FF_FFFF).is_drawable());
    assert!(!Interface::new(String::new(), 0, 7, u32::MAX).is_drawable());
    assert!(Interface::new(String::new(), 0, 7, 0x1000_0000).is_drawable());
    assert!(Interface::new(String::new(), 2048, 1, 1).is_drawable());
}

#[test]
fn draw_of_a_dark_display_is_empty() {
    let interface = Interface::new(String::from("RUST-8"), 64, 32, 25);
    assert_eq!(interface.draw(&Chip8::new(700)), vec![]);
}

#[test]
fn draw_lists_lit_cells_column_by_column() {
    let mut chip = Chip8::new(700);
    // V1 := 2, V2 := 1, I := 0x300, draw 2 rows at (V1, V2)
    chip.load_rom(&[0x61, 2, 0x62, 1, 0xA3, 0x00, 0xD1, 0x22]).unwrap();
    chip.load(&[0b1010_0000, 0b1100_0000], 0x300).unwrap();
    for _ in 0..4 {
        chip.step(0).unwrap();
    }
    let interface = Interface::new(String::from("RUST-8"), 64, 32, 10);
    assert_eq!(
        interface.draw(&chip),
        vec![rect(20, 10, 10), rect(20, 20, 10), rect(30, 20, 10), rect(40, 10, 10)]
    );
}

#[test]
fn draw_of_a_narrow_window_reads_the_display_at_its_own_width() {
    let mut chip = Chip8::new(700);
    // I := 0x300, draw 1 row at (0, 0): cells 0 to 7 are lit
    chip.load_rom(&[0xA3, 0x00, 0xD1, 0x21]).unwrap();
    chip.load(&[0xFF], 0x300).unwrap();
    chip.step(0).unwrap();
    chip.step(0).unwrap();
    // a window of 4 by 3 cells: cell (col, row) is cell col + 4 * row of the display
    let interface = Interface::new(String::new(), 4, 3, 2);
    assert_eq!(
        interface.draw(&chip),
        vec![
            rect(0, 0, 2), rect(0, 2, 2),
            rect(2, 0, 2), rect(2, 2, 2),
            rect(4, 0, 2), rect(4, 2, 2),
            rect(6, 0, 2), rect(6, 2, 2),
        ]
    );
}

#[test]
fn draw_of_an_empty_window_is_empty() {
    let mut chip = Chip8::new(700);
    chip.load_rom(&[0xA3, 0x00, 0xD1, 0x21]).unwrap();
    chip.load(&[0xFF], 0x300).unwrap();
    chip.step(0).unwrap();
    chip.step(0).unwrap();
    assert_eq!(Interface::new(String::new(), 0, 32, 5).draw(&chip), vec![]);
    assert_eq!(Interface::new(String::new(), 64, 0, 5).draw(&chip), vec![]);
}

#[test]
fn quit_stops_the_loop() {
    let interface = Interface::new(String::from("RUST-8"), 64, 32, 25);
    let mut chip = Chip8::new(700);
    assert_eq!(interface.handle_event(&mut chip, HostEvent::Quit), Reaction::Stop);
    assert_eq!(chip.keypad(), [false; 16]);
}

#[test]
fn key_events_reach_the_keypad() {
    let interface = Interface::new(String::from("RUST-8"), 64, 32, 25);
    let mut chip = Chip8::new(700);
    assert_eq!(interface.handle_event(&mut chip, HostEvent::KeyDown("W")), Reaction::KeyChanged);
    let mut expected = [false; 16];
    expected[5] = true;
    assert_eq!(chip.keypad(), expected);
    assert_eq!(interface.handle_event(&mut chip, HostEvent::KeyDown("X")), Reaction::KeyChanged);
    expected[0] = true;
    assert_eq!(chip.keypad(), expected);
    assert_eq!(interface.handle_event(&mut chip, HostEvent::KeyUp("W")), Reaction::KeyChanged);
    expected[5] = false;
    assert_eq!(chip.keypad(), expected);
}

#[test]
fn due_ticks_bring_the_timers_down() {
    let mut chip = Chip8::new(700);
    // V0 := 3, delay := V0
    chip.load_rom(&[0x60, 0x03, 0xF0, 0x15]).unwrap();
    chip.step(0).unwrap();
    chip.step(0).unwrap();
    let mut clock = TimerClock::new();
    chip.decrement_timers_by(clock.ticks_due(2 * TIMER_PERIOD_NANOS));
    assert_eq!(chip.delay_timer(), 1);
}

#[test]
fn unsupported_keys_change_nothing() {
    let interface = Interface::new(String::from("RUST-8"), 64, 32, 25);
    let mut chip = Chip8::new(700);
    chip.set_key(0, true).unwrap();
    let before = chip.keypad();
    assert_eq!(
        interface.handle_event(&mut chip, HostEvent::KeyDown("P")),
        Reaction::UnsupportedKey(Key::Pressed)
    );
    assert_eq!(
        interface.handle_event(&mut chip, HostEvent::KeyUp("Left Shift")),
        Reaction::UnsupportedKey(Key::Released)
    );
    assert_eq!(chip.keypad(), before);
}

#[test]
fn other_events_are_ignored() {
    let interface = Interface::new(String::from("RUST-8"), 64, 32, 25);
    let mut chip = Chip8::new(700);
    assert_eq!(interface.handle_event(&mut chip, HostEvent::Other), Reaction::Ignored);
    assert_eq!(chip.keypad(), [false; 16]);
}

#[test]
fn timer_period_is_a_sixtieth_of_a_second() {
    assert_eq!(TIMER_PERIOD_NANOS, 1_000_000_000 / 60);
}

#[test]
fn timer_clock_ticks_once_for_each_whole_period() {
    let mut clock = TimerClock::new();
    assert_eq!(clock.ticks_due(10_000_000), 0);
    assert_eq!(clock.ticks_due(6_666_665), 0);
    assert_eq!(clock.ticks_due(1), 1);
    assert_eq!(clock.ticks_due(16_666_665), 0);
    assert_eq!(clock.ticks_due(1), 1);
    assert_eq!(clock.ticks_due(0), 0);
}

#[test]
fn timer_clock_catches_up_after_a_long_frame() {
    let mut clock = TimerClock::new();
    assert_eq!(clock.ticks_due(3 * TIMER_PERIOD_NANOS + 5), 3);
    assert_eq!(clock.ticks_due(0), 0);
    assert_eq!(clock.ticks_due(TIMER_PERIOD_NANOS - 6), 0);
    assert_eq!(clock.ticks_due(1), 1);
}

#[test]
fn timer_clock_gives_sixty_ticks_a_second_however_time_is_cut() {
    for frame in [1_000_000u64, 4_000_000, 16_666_666, 16_666_667, 33_000_000, 250_000_000] {
        let mut clock = TimerClock::new();
        let mut ticks = 0;
        let mut passed = 0;
        while passed + frame <= 1_000_000_000 {
            ticks += clock.ticks_due(frame);
            passed += frame;
        }
        ticks += clock.ticks_due(1_000_000_000 - passed);
        assert_eq!(ticks, 60, "frames of {} ns", frame);
    }
}

#[test]
fn timer_clock_holds_at_the_greatest_span() {
    let mut clock = TimerClock::new();
    assert_eq!(clock.ticks_due(u64::MAX), u64::MAX / TIMER_PERIOD_NANOS);
    let pending = u64::MAX % TIMER_PERIOD_NANOS;
    assert_eq!(clock.ticks_due(u64::MAX), u64::MAX / TIMER_PERIOD_NANOS);
    assert_eq!(clock.ticks_due(TIMER_PERIOD_NANOS - pending), 1);
}
