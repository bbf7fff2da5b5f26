//! The mathematical model of the machine: its state as sequences and
//! integers, and the effect on it of the operations that the host performs.

use vstd::prelude::*;
use crate::error::Error;
use crate::font::{font_bytes, FONT_SIZE};

verus! {

/// The number of addressable bytes.
pub const MEMORY_SIZE: usize = 4096;

/// The number of general-purpose registers, V0 to VF.
pub const REGISTER_COUNT: usize = 16;

/// The register that instructions use for carry, borrow and collision flags.
pub const FLAG_REGISTER: usize = 15;

/// The number of keys on the keypad.
pub const KEY_COUNT: usize = 16;

/// The number of columns of the display.
pub const DISPLAY_WIDTH: usize = 64;

/// The number of rows of the display.
pub const DISPLAY_HEIGHT: usize = 32;

/// The number of cells of the display; cell `col + 64 * row` is column `col` of row `row`.
pub const DISPLAY_SIZE: usize = 2048;

/// The address at which programs are loaded and at which execution starts.
pub const PROGRAM_START: u16 = 0x200;

/// The address at which the font is resident.
pub const FONT_START: u16 = 0x50;

/// The number of bytes of one font glyph.
pub const GLYPH_SIZE: u16 = 5;

/// The behaviours in which interpreters of this instruction set differ.
#[derive(Clone, Copy, Debug, PartialEq, Eq)]
pub struct Quirks {
    /// `8XY6` and `8XYE` shift the value of VY into VX, rather than VX in place.
    pub shift_uses_vy: bool,
    /// Sprites wrap around the edges of the display, rather than being clipped there.
    pub wrap_sprites: bool,
    /// The greatest number of return addresses that the call stack may hold;
    /// `None` leaves it unbounded.
    pub stack_limit: Option<usize>,
}

impl Quirks {
    /// In-place shifts, clipped sprites and an unbounded call stack.
    pub open spec fn standard_spec() -> Quirks {
        Quirks { shift_uses_vy: false, wrap_sprites: false, stack_limit: None }
    }

    /// In-place shifts, clipped sprites and an unbounded call stack.
    #[verifier::when_used_as_spec(standard_spec)]
    pub fn standard() -> (quirks: Quirks)
        ensures
            quirks == Quirks::standard_spec(),
    {
        Quirks { shift_uses_vy: false, wrap_sprites: false, stack_limit: None }
    }
}

/// The state of a machine.
#[verifier::ext_equal]
pub struct Machine {
    /// The 4096 bytes of memory.
    pub memory: Seq<u8>,
    /// The registers V0 to VF.
    pub registers: Seq<u8>,
    /// The return addresses of the calls in progress, the innermost last.
    pub stack: Seq<u16>,
    /// The delay timer.
    pub delay_timer: u8,
    /// The sound timer.
    pub sound_timer: u8,
    /// The 2048 cells of the display, row by row.
    pub display: Seq<bool>,
    /// Which of the 16 keys are held down.
    pub keypad: Seq<bool>,
    /// The program counter.
    pub pc: u16,
    /// The index register I.
    pub index: u16,
    /// The number of instructions that the host is asked to run per frame.
    pub cycle_speed: i32,
    /// The quirks with which the machine was made.
    pub quirks: Quirks,
}

/// A program counter moved by `delta`; the counter has 16 bits and wraps.
pub open spec fn pc_offset(pc: u16, delta: int) -> u16 {
    ((pc + delta) % 0x1_0000) as u16
}

/// A timer after one tick: one less, but never below zero.
pub open spec fn ticked(timer: u8) -> u8 {
    if timer > 0 {
        (timer - 1) as u8
    } else {
        0
    }
}

/// Whether an operation that began in `before` ended as `expected` asks: on
/// success in the new state, on failure with the error and in the state in
/// which it began.
pub open spec fn agrees(
    expected: Result<Machine, Error>,
    before: Machine,
    after: Machine,
    result: Result<(), Error>,
) -> bool {
    match expected {
        Ok(next) => result == Ok::<(), Error>(()) && after == next,
        Err(error) => result == Err::<(), Error>(error) && after == before,
    }
}

/// A timer after `ticks` ticks: so much less, but never below zero.
pub open spec fn ticked_by(timer: u8, ticks: nat) -> u8 {
    if timer > ticks {
        (timer - ticks) as u8
    } else {
        0
    }
}

impl Machine {
    /// Memory, registers, display and keypad have their fixed sizes.
    pub open spec fn wf(self) -> bool {
        &&& self.memory.len() == MEMORY_SIZE
        &&& self.registers.len() == REGISTER_COUNT
        &&& self.display.len() == DISPLAY_SIZE
        &&& self.keypad.len() == KEY_COUNT
    }

    /// The state of a machine that was just made: the font resident at its
    /// fixed place and every other byte zero, registers and timers zero,
    /// nothing lit, no key held, and the program counter at the start of
    /// the program.
    pub open spec fn initial(cycle_speed: i32, quirks: Quirks) -> Machine {
        Machine {
            memory: Seq::new(
                MEMORY_SIZE as nat,
                |a: int|
                    if FONT_START <= a < FONT_START + FONT_SIZE {
                        font_bytes()[a - FONT_START]
                    } else {
                        0u8
                    },
            ),
            registers: Seq::new(REGISTER_COUNT as nat, |i: int| 0u8),
            stack: Seq::empty(),
            delay_timer: 0,
            sound_timer: 0,
            display: Seq::new(DISPLAY_SIZE as nat, |p: int| false),
            keypad: Seq::new(KEY_COUNT as nat, |k: int| false),
            pc: PROGRAM_START,
            index: 0,
            cycle_speed,
            quirks,
        }
    }

    /// Whether `bytes` fit between `origin` and the end of memory.
    pub open spec fn fits(bytes: Seq<u8>, origin: int) -> bool {
        origin + bytes.len() <= MEMORY_SIZE
    }

    /// The state with `bytes` copied into memory from `origin` on.
    pub open spec fn load(self, bytes: Seq<u8>, origin: int) -> Machine {
        Machine {
            memory: Seq::new(
                MEMORY_SIZE as nat,
                |a: int|
                    if origin <= a < origin + bytes.len() {
                        bytes[a - origin]
                    } else {
                        self.memory[a]
                    },
            ),
            ..self
        }
    }

    /// Loading `bytes` at `origin`: they are copied where they fit, and
    /// refused where they do not.
    pub open spec fn try_load(self, bytes: Seq<u8>, origin: int) -> Result<Machine, Error> {
        if Machine::fits(bytes, origin) {
            Ok(self.load(bytes, origin))
        } else {
            Err(Error::RomTooLarge)
        }
    }

    /// The state with key `index` held down or not.
    pub open spec fn set_key(self, index: int, pressed: bool) -> Machine {
        Machine { keypad: self.keypad.update(index, pressed), ..self }
    }

    /// Setting key `index`: refused where there is no such key.
    pub open spec fn try_set_key(self, index: int, pressed: bool) -> Result<Machine, Error> {
        if 0 <= index < KEY_COUNT {
            Ok(self.set_key(index, pressed))
        } else {
            Err(Error::InvalidKeyIndex)
        }
    }

    /// The state after one tick of the 60 Hz clock.
    pub open spec fn tick_timers(self) -> Machine {
        Machine {
            delay_timer: ticked(self.delay_timer),
            sound_timer: ticked(self.sound_timer),
            ..self
        }
    }

    /// The state after `ticks` ticks of the 60 Hz clock.
    pub open spec fn tick_timers_by(self, ticks: nat) -> Machine {
        Machine {
            delay_timer: ticked_by(self.delay_timer, ticks),
            sound_timer: ticked_by(self.sound_timer, ticks),
            ..self
        }
    }

    /// The state with the program counter at `pc`.
    pub open spec fn with_pc(self, pc: u16) -> Machine {
        Machine { pc, ..self }
    }

    /// The state with register `x` holding `value`.
    pub open spec fn set_register(self, x: int, value: u8) -> Machine {
        Machine { registers: self.registers.update(x, value), ..self }
    }

    /// The state with VF holding 1 if `flag` and 0 if not.
    pub open spec fn set_flag(self, flag: bool) -> Machine {
        self.set_register(FLAG_REGISTER as int, if flag { 1u8 } else { 0u8 })
    }
}

} // verus!
