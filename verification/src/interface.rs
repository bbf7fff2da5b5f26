//! What the host's window needs from the machine: where to paint, what an
//! input event does, and when the timers tick.

use vstd::prelude::*;
use crate::keypad::{key_of, Key};
use crate::machine::Chip8;
use crate::model::{Machine, DISPLAY_SIZE};

verus! {

/// A window onto the display of a machine.
pub struct Interface {
    window_title: String,
    window_width: u32,
    window_height: u32,
    window_scale: u32,
}

/// What an `Interface` holds.
pub struct Window {
    pub title: Seq<char>,
    /// The number of columns of cells.
    pub width: u32,
    /// The number of rows of cells.
    pub height: u32,
    /// The side of one cell, in pixels.
    pub scale: u32,
}

/// What the host tells the interface of an event in its window.
#[derive(Clone, Copy, Debug)]
pub enum HostEvent<'a> {
    /// The window was closed, or the key that ends the program was pressed.
    Quit,
    /// The keyboard key of this name went down.
    KeyDown(&'a str),
    /// The keyboard key of this name went up.
    KeyUp(&'a str),
    /// Anything else.
    Other,
}

/// What the host is to do after an event.
#[derive(Clone, Copy, Debug, PartialEq, Eq, Structural)]
pub enum Reaction {
    /// Leave the window loop.
    Stop,
    /// Go on; a key of the keypad changed.
    KeyChanged,
    /// Go on; the keyboard key stands for no key of the keypad.
    UnsupportedKey(Key),
    /// Go on; the event means nothing to the machine.
    Ignored,
}

/// What the host is to do after `event`.
pub open spec fn reaction_to(event: HostEvent) -> Reaction {
    match event {
        HostEvent::Quit => Reaction::Stop,
        HostEvent::KeyDown(name) => if key_of(name@) is Some {
            Reaction::KeyChanged
        } else {
            Reaction::UnsupportedKey(Key::Pressed)
        },
        HostEvent::KeyUp(name) => if key_of(name@) is Some {
            Reaction::KeyChanged
        } else {
            Reaction::UnsupportedKey(Key::Released)
        },
        HostEvent::Other => Reaction::Ignored,
    }
}

/// The state of the machine after `event`: a keyboard key that stands for a
/// key of the keypad holds that key down or lets it go, and nothing else
/// changes anything.
pub open spec fn after_event(machine: Machine, event: HostEvent) -> Machine {
    match event {
        HostEvent::KeyDown(name) => match key_of(name@) {
            Some(key) => machine.set_key(key as int, true),
            None => machine,
        },
        HostEvent::KeyUp(name) => match key_of(name@) {
            Some(key) => machine.set_key(key as int, false),
            None => machine,
        },
        _ => machine,
    }
}

/// The time between two ticks of the timers, in nanoseconds: a sixtieth of a second.
pub const TIMER_PERIOD_NANOS: u64 = 16_666_666;

/// The time that has passed and that no tick of the timers has yet accounted for.
pub struct TimerClock {
    pending_nanos: u64,
}

/// The sum of two spans of time in nanoseconds, held at the greatest `u64`.
pub open spec fn accumulated(pending: u64, elapsed: u64) -> u64 {
    if pending + elapsed > u64::MAX {
        u64::MAX
    } else {
        (pending + elapsed) as u64
    }
}

impl View for TimerClock {
    type V = u64;

    closed spec fn view(&self) -> u64 {
        self.pending_nanos
    }
}

impl TimerClock {
    /// A clock on which no time has passed.
    pub fn new() -> (clock: TimerClock)
        ensures
            clock@ == 0,
    {
        TimerClock { pending_nanos: 0 }
    }

    /// Takes note that `elapsed_nanos` have passed, and tells how many
    /// ticks of the timers are due: one for each whole period that is
    /// pending. What is left of a period stays pending, so that over any
    /// span of time the ticks come to sixty a second, however the span is
    /// cut into calls.
    pub fn ticks_due(&mut self, elapsed_nanos: u64) -> (ticks: u64)
        ensures
            ticks == accumulated(old(self)@, elapsed_nanos) / TIMER_PERIOD_NANOS,
            final(self)@ == accumulated(old(self)@, elapsed_nanos) % TIMER_PERIOD_NANOS,
    {
        let total = match self.pending_nanos.checked_add(elapsed_nanos) {
            Some(total) => total,
            None => u64::MAX,
        };
        self.pending_nanos = total % TIMER_PERIOD_NANOS;
        total / TIMER_PERIOD_NANOS
    }
}

/// A rectangle of the window, in pixels.
#[derive(Clone, Copy, Debug, PartialEq, Eq)]
pub struct PixelRect {
    pub x: i32,
    pub y: i32,
    pub width: u32,
    pub height: u32,
}

impl Window {
    /// Whether the window can be painted: its cells are cells of the
    /// display, and the pixel coordinates of its far edges fit an `i32`.
    pub open spec fn drawable(self) -> bool {
        &&& self.width * self.height <= DISPLAY_SIZE
        &&& self.width * self.scale <= i32::MAX
        &&& self.height * self.scale <= i32::MAX
    }

    /// The rectangle of the cell in column `col` of row `row`.
    pub open spec fn cell_rect(self, col: int, row: int) -> PixelRect {
        PixelRect {
            x: (col * self.scale) as i32,
            y: (row * self.scale) as i32,
            width: self.scale,
            height: self.scale,
        }
    }

    /// The rectangle of the cell in column `col` of row `row`, if the cell is lit.
    pub open spec fn rect_if_lit(self, display: Seq<bool>, col: int, row: int) -> Option<
        PixelRect,
    > {
        if display[col + self.width * row] {
            Some(self.cell_rect(col, row))
        } else {
            None
        }
    }

    /// For a row of column `col`, the rectangle of its cell if the cell is lit.
    pub open spec fn lit_in_column(self, display: Seq<bool>, col: int) -> spec_fn(int) -> Option<
        PixelRect,
    > {
        |row: int| self.rect_if_lit(display, col, row)
    }

    /// The rectangles of the lit cells of column `col`, from the top down.
    pub open spec fn column_rects(self, display: Seq<bool>, col: int) -> Seq<PixelRect> {
        Seq::new(self.height as nat, |row: int| row).filter_map(self.lit_in_column(display, col))
    }

    /// For a column, the rectangles of its lit cells.
    pub open spec fn lit_columns(self, display: Seq<bool>) -> spec_fn(int) -> Seq<PixelRect> {
        |col: int| self.column_rects(display, col)
    }

    /// The rectangles of the lit cells: column by column from the left, and
    /// within a column from the top down.
    pub open spec fn lit_rects(self, display: Seq<bool>) -> Seq<PixelRect> {
        Seq::new(self.width as nat, self.lit_columns(display)).flatten()
    }
}

impl View for Interface {
    type V = Window;

    closed spec fn view(&self) -> Window {
        Window {
            title: self.window_title@,
            width: self.window_width,
            height: self.window_height,
            scale: self.window_scale,
        }
    }
}

impl Interface {
    /// A window named `title`, of `width` by `height` cells of `scale` pixels each.
    pub fn new(title: String, width: u32, height: u32, scale: u32) -> (interface: Interface)
        ensures
            interface@ == (Window { title: title@, width, height, scale }),
    {
        Interface {
            window_title: title,
            window_width: width,
            window_height: height,
            window_scale: scale,
        }
    }

    /// The title of the window.
    pub fn title(&self) -> (title: &str)
        ensures
            title@ == self@.title,
    {
        self.window_title.as_str()
    }

    /// The width of the window, in pixels, if it fits a `u32`.
    pub fn pixel_width(&self) -> (pixels: Option<u32>)
        ensures
            pixels == if self@.width * self@.scale <= u32::MAX {
                Some((self@.width * self@.scale) as u32)
            } else {
                None
            },
    {
        self.window_width.checked_mul(self.window_scale)
    }

    /// The height of the window, in pixels, if it fits a `u32`.
    pub fn pixel_height(&self) -> (pixels: Option<u32>)
        ensures
            pixels == if self@.height * self@.scale <= u32::MAX {
                Some((self@.height * self@.scale) as u32)
            } else {
                None
            },
    {
        self.window_height.checked_mul(self.window_scale)
    }

    /// Whether the window can be painted.
    pub fn is_drawable(&self) -> (drawable: bool)
        ensures
            drawable == self@.drawable(),
    {
        let width = self.window_width as u64;
        let height = self.window_height as u64;
        let scale = self.window_scale as u64;
        assert(width * height <= 0xFFFF_FFFF * 0xFFFF_FFFF && width * scale <= 0xFFFF_FFFF
            * 0xFFFF_FFFF && height * scale <= 0xFFFF_FFFF * 0xFFFF_FFFF) by (nonlinear_arith)
            requires
                0 <= width <= 0xFFFF_FFFF,
                0 <= height <= 0xFFFF_FFFF,
                0 <= scale <= 0xFFFF_FFFF,
        ;
        width * height <= DISPLAY_SIZE as u64 && width * scale <= i32::MAX as u64 && height * scale
            <= i32::MAX as u64
    }

    /// The rectangles to fill for the display of `emulator`: one for each
    /// lit cell of the window.
    pub fn draw(&self, emulator: &Chip8) -> (rects: Vec<PixelRect>)
        requires
            self@.drawable(),
        ensures
            rects@ == self@.lit_rects(emulator@.display),
    {
        let display = emulator.get_display();
        let width = self.window_width;
        let height = self.window_height;
        let scale = self.window_scale;
        let ghost window = self@;
        let ghost columns = window.lit_columns(display@);
        let mut rects: Vec<PixelRect> = Vec::new();
        let mut col: u32 = 0;
        while col < width
            invariant
                col <= width,
                window == self@,
                window.drawable(),
                width == window.width,
                height == window.height,
                scale == window.scale,
                display@ == emulator@.display,
                display@.len() == DISPLAY_SIZE,
                columns == window.lit_columns(display@),
                rects@ == Seq::new(col as nat, columns).flatten(),
            decreases width - col,
        {
            let ghost done = rects@;
            let ghost rows = Seq::new(height as nat, |row: int| row);
            let ghost pick = window.lit_in_column(display@, col as int);
            let mut row: u32 = 0;
            while row < height
                invariant
                    row <= height,
                    col < width,
                    window.drawable(),
                    width == window.width,
                    height == window.height,
                    scale == window.scale,
                    display@.len() == DISPLAY_SIZE,
                    rows == Seq::new(height as nat, |row: int| row),
                    pick == window.lit_in_column(display@, col as int),
                    rects@ == done + rows.take(row as int).filter_map(pick),
                decreases height - row,
            {
                assert(col + width * row < width * height && col * scale <= width * scale && row
                    * scale <= height * scale) by (nonlinear_arith)
                    requires
                        0 <= col < width,
                        0 <= row < height,
                        0 <= scale,
                ;
                proof {
                    rows.lemma_filter_map_take_succ(pick, row as int);
                }
                if display[(col + width * row) as usize] {
                    rects.push(
                        PixelRect {
                            x: (col * scale) as i32,
                            y: (row * scale) as i32,
                            width: scale,
                            height: scale,
                        },
                    );
                }
                row += 1;
            }
            proof {
                assert(rows.take(height as int) =~= rows);
                let before = Seq::new(col as nat, columns);
                before.lemma_flatten_push(columns(col as int));
                assert(Seq::new((col + 1) as nat, columns) =~= before.push(columns(col as int)));
            }
            col += 1;
        }
        rects
    }

    /// Takes an event of the window: the press or release of a keyboard key
    /// that stands for a key of the keypad goes to the machine, and the
    /// result tells the host how to go on.
    pub fn handle_event(&self, emulator: &mut Chip8, event: HostEvent<'_>) -> (reaction: Reaction)
        ensures
            reaction == reaction_to(event),
            final(emulator)@ == after_event(old(emulator)@, event),
    {
        match event {
            HostEvent::Quit => Reaction::Stop,
            HostEvent::KeyDown(name) => match emulator.read_input(name, Key::Pressed) {
                Ok(()) => Reaction::KeyChanged,
                Err(_) => Reaction::UnsupportedKey(Key::Pressed),
            },
            HostEvent::KeyUp(name) => match emulator.read_input(name, Key::Released) {
                Ok(()) => Reaction::KeyChanged,
                Err(_) => Reaction::UnsupportedKey(Key::Released),
            },
            HostEvent::Other => Reaction::Ignored,
        }
    }
}

} // verus!
