//! The machine itself: the state that the host owns and drives.

use vstd::prelude::*;
use vstd::string::StringExecFns;
use crate::error::Error;
use crate::font::{font, font_bytes};
use crate::model::{
    agrees, Machine, Quirks, DISPLAY_HEIGHT, DISPLAY_SIZE, DISPLAY_WIDTH, FONT_START, KEY_COUNT,
    MEMORY_SIZE, PROGRAM_START, REGISTER_COUNT,
};

verus! {

/// A CHIP-8 virtual machine.
pub struct Chip8 {
    pub(crate) memory: [u8; MEMORY_SIZE],
    pub(crate) stack: Vec<u16>,
    pub(crate) delay_timer: u8,
    pub(crate) sound_timer: u8,
    pub(crate) display: [bool; DISPLAY_SIZE],
    pub(crate) keypad: [bool; KEY_COUNT],
    pub(crate) pc: u16,
    pub(crate) index_register: u16,
    pub(crate) registers: [u8; REGISTER_COUNT],
    pub(crate) cycle_speed: i32,
    pub(crate) quirks: Quirks,
}

impl View for Chip8 {
    type V = Machine;

    open(crate) spec fn view(&self) -> Machine {
        Machine {
            memory: self.memory@,
            registers: self.registers@,
            stack: self.stack@,
            delay_timer: self.delay_timer,
            sound_timer: self.sound_timer,
            display: self.display@,
            keypad: self.keypad@,
            pc: self.pc,
            index: self.index_register,
            cycle_speed: self.cycle_speed,
            quirks: self.quirks,
        }
    }
}

/// The display as text: a line of 64 characters for each row, `*` for a lit
/// cell and a blank for a dark one, each line closed by a line feed.
pub open spec fn picture(display: Seq<bool>) -> Seq<char> {
    Seq::new(
        (DISPLAY_HEIGHT * (DISPLAY_WIDTH + 1)) as nat,
        |i: int|
            {
                let row = i / (DISPLAY_WIDTH + 1) as int;
                let col = i % (DISPLAY_WIDTH + 1) as int;
                if col == DISPLAY_WIDTH {
                    '\n'
                } else if display[col + DISPLAY_WIDTH * row] {
                    '*'
                } else {
                    ' '
                }
            },
    )
}

impl Chip8 {
    /// The state of every machine has the fixed sizes of the model.
    pub proof fn lemma_view_wf(&self)
        ensures
            self@.wf(),
    {
    }

    /// A machine with the standard quirks: the font resident, everything
    /// else zero, ready for a program to be loaded.
    pub fn new(cycle_speed: i32) -> (chip: Chip8)
        ensures
            chip@ == Machine::initial(cycle_speed, Quirks::standard()),
    {
        Chip8::with_quirks(cycle_speed, Quirks::standard())
    }

    /// A machine with the given quirks: the font resident, everything else
    /// zero, ready for a program to be loaded.
    pub fn with_quirks(cycle_speed: i32, quirks: Quirks) -> (chip: Chip8)
        ensures
            chip@ == Machine::initial(cycle_speed, quirks),
    {
        let mut chip = Chip8 {
            memory: [0; MEMORY_SIZE],
            stack: Vec::new(),
            delay_timer: 0,
            sound_timer: 0,
            display: [false; DISPLAY_SIZE],
            keypad: [false; KEY_COUNT],
            pc: PROGRAM_START,
            index_register: 0,
            registers: [0; REGISTER_COUNT],
            cycle_speed,
            quirks,
        };
        chip.load_font();
        chip
    }

    /// Copies `bytes` into memory from `origin` on. Fails, and changes
    /// nothing, where they would reach past the end of memory.
    pub fn load(&mut self, bytes: &[u8], origin: u16) -> (r: Result<(), Error>)
        ensures
            agrees(old(self)@.try_load(bytes@, origin as int), old(self)@, final(self)@, r),
    {
        let start = origin as usize;
        let length = bytes.len();
        if start > MEMORY_SIZE || length > MEMORY_SIZE - start {
            return Err(Error::RomTooLarge);
        }
        let mut i: usize = 0;
        while i < length
            invariant
                i <= length == bytes@.len(),
                start + length <= MEMORY_SIZE,
                self@ == old(self)@.load(bytes@.subrange(0, i as int), start as int),
            decreases length - i,
        {
            self.memory[start + i] = bytes[i];
            i += 1;
        }
        assert(bytes@.subrange(0, length as int) =~= bytes@);
        Ok(())
    }

    /// Copies a program into memory at the address where execution starts.
    /// Fails, and changes nothing, where the program is longer than the
    /// memory from there on.
    pub fn load_rom(&mut self, rom: &[u8]) -> (r: Result<(), Error>)
        ensures
            agrees(old(self)@.try_load(rom@, PROGRAM_START as int), old(self)@, final(self)@, r),
    {
        self.load(rom, PROGRAM_START)
    }

    /// Copies the font into memory at its fixed place, where a new machine
    /// has it already: a program that overwrote it gets it back.
    pub fn load_font(&mut self)
        ensures
            final(self)@ == old(self)@.load(font_bytes(), FONT_START as int),
    {
        let glyphs = font();
        let _ = self.load(glyphs.as_slice(), FONT_START);
    }

    /// One tick of the 60 Hz clock: each timer that is not zero goes down by one.
    pub fn decrement_timers(&mut self)
        ensures
            final(self)@ == old(self)@.tick_timers(),
    {
        if self.delay_timer > 0 {
            self.delay_timer -= 1;
        }
        if self.sound_timer > 0 {
            self.sound_timer -= 1;
        }
    }

    /// As many ticks of the 60 Hz clock as are due at once: each timer goes
    /// down by `ticks`, and stops at zero.
    pub fn decrement_timers_by(&mut self, ticks: u64)
        ensures
            final(self)@ == old(self)@.tick_timers_by(ticks as nat),
    {
        if ticks >= self.delay_timer as u64 {
            self.delay_timer = 0;
        } else {
            self.delay_timer -= ticks as u8;
        }
        if ticks >= self.sound_timer as u64 {
            self.sound_timer = 0;
        } else {
            self.sound_timer -= ticks as u8;
        }
    }

    /// The display: cell `col + 64 * row` tells whether column `col` of row
    /// `row` is lit.
    pub fn get_display(&self) -> (display: [bool; DISPLAY_SIZE])
        ensures
            display@ == self@.display,
    {
        self.display
    }

    /// The number of instructions that the host is asked to run per frame.
    pub fn get_cycle_speed(&self) -> (speed: i32)
        ensures
            speed == self@.cycle_speed,
    {
        self.cycle_speed
    }

    /// The quirks with which the machine was made.
    pub fn quirks(&self) -> (quirks: Quirks)
        ensures
            quirks == self@.quirks,
    {
        self.quirks
    }

    /// The memory.
    pub fn memory(&self) -> (memory: &[u8; MEMORY_SIZE])
        ensures
            memory@ == self@.memory,
    {
        &self.memory
    }

    /// The registers V0 to VF.
    pub fn registers(&self) -> (registers: [u8; REGISTER_COUNT])
        ensures
            registers@ == self@.registers,
    {
        self.registers
    }

    /// Which keys are held down.
    pub fn keypad(&self) -> (keypad: [bool; KEY_COUNT])
        ensures
            keypad@ == self@.keypad,
    {
        self.keypad
    }

    /// The return addresses of the calls in progress, the innermost last.
    pub fn call_stack(&self) -> (stack: &[u16])
        ensures
            stack@ == self@.stack,
    {
        self.stack.as_slice()
    }

    /// The program counter.
    pub fn program_counter(&self) -> (pc: u16)
        ensures
            pc == self@.pc,
    {
        self.pc
    }

    /// The index register I.
    pub fn index_register(&self) -> (index: u16)
        ensures
            index == self@.index,
    {
        self.index_register
    }

    /// The delay timer.
    pub fn delay_timer(&self) -> (timer: u8)
        ensures
            timer == self@.delay_timer,
    {
        self.delay_timer
    }

    /// The sound timer.
    pub fn sound_timer(&self) -> (timer: u8)
        ensures
            timer == self@.sound_timer,
    {
        self.sound_timer
    }

    /// The display as text, for the host to print.
    pub fn debug_display(&self) -> (text: String)
        ensures
            text@ == picture(self@.display),
    {
        let mut text = String::new();
        let mut row: usize = 0;
        proof {
            reveal_strlit("*");
            reveal_strlit(" ");
            reveal_strlit("\n");
        }
        while row < DISPLAY_HEIGHT
            invariant
                row <= DISPLAY_HEIGHT,
                "*"@ == seq!['*'],
                " "@ == seq![' '],
                "\n"@ == seq!['\n'],
                text@ == picture(self@.display).take(row * 65),
            decreases DISPLAY_HEIGHT - row,
        {
            let mut col: usize = 0;
            while col < DISPLAY_WIDTH
                invariant
                    row < DISPLAY_HEIGHT,
                    col <= DISPLAY_WIDTH,
                    "*"@ == seq!['*'],
                    " "@ == seq![' '],
                    text@ == picture(self@.display).take(row * 65 + col),
                decreases DISPLAY_WIDTH - col,
            {
                if self.display[col + DISPLAY_WIDTH * row] {
                    text.append("*");
                } else {
                    text.append(" ");
                }
                col += 1;
            }
            text.append("\n");
            row += 1;
        }
        text
    }
}

} // verus!
