//! What one instruction does to the state of the machine.

use vstd::prelude::*;
use crate::decode::{field_n, field_nn, field_nnn, field_x, field_y, op_class};
use crate::error::Error;
use crate::model::{pc_offset, Machine, FONT_START, GLYPH_SIZE, MEMORY_SIZE, REGISTER_COUNT};

verus! {

/// The hundreds, tens and units of `value`, in this order.
pub open spec fn decimal_digits(value: u8) -> Seq<u8> {
    seq![(value / 100) as u8, ((value / 10) % 10) as u8, (value % 10) as u8]
}

/// Whether no key of `keypad` is held down.
pub open spec fn no_key_pressed(keypad: Seq<bool>) -> bool {
    forall|k: int| 0 <= k < keypad.len() ==> !keypad[k]
}

/// Whether `key` is held down and no key with a lower index is.
pub open spec fn is_lowest_pressed(keypad: Seq<bool>, key: int) -> bool {
    &&& 0 <= key < keypad.len()
    &&& keypad[key]
    &&& forall|k: int| 0 <= k < key ==> !keypad[k]
}

/// The lowest index of a key that is held down, where there is one.
pub open spec fn lowest_pressed(keypad: Seq<bool>) -> int {
    choose|key: int| is_lowest_pressed(keypad, key)
}

impl Machine {
    /// Whether the two bytes of an instruction can be read at the program counter.
    pub open spec fn can_fetch(self) -> bool {
        self.pc + 1 < MEMORY_SIZE
    }

    /// The instruction word at the program counter: the byte there is its
    /// high byte, the next one its low byte.
    pub open spec fn word_at_pc(self) -> u16 {
        (self.memory[self.pc as int] * 0x100 + self.memory[self.pc + 1]) as u16
    }

    /// The state with the program counter moved past one instruction.
    pub open spec fn after_fetch(self) -> Machine {
        self.with_pc(pc_offset(self.pc, 2))
    }

    /// The state with the next instruction skipped if `condition` holds.
    pub open spec fn skip_if(self, condition: bool) -> Machine {
        if condition {
            self.with_pc(pc_offset(self.pc, 2))
        } else {
            self
        }
    }

    /// `00E0`: every cell of the display is off.
    pub open spec fn clear_display(self) -> Machine {
        Machine { display: Seq::new(self.display.len(), |p: int| false), ..self }
    }

    /// `00EE`: the innermost return address leaves the stack and becomes the
    /// program counter.
    pub open spec fn ret(self) -> Result<Machine, Error> {
        if self.stack.len() == 0 {
            Err(Error::StackUnderflow)
        } else {
            Ok(Machine { pc: self.stack.last(), stack: self.stack.drop_last(), ..self })
        }
    }

    /// Whether the call stack holds as many return addresses as the quirks allow.
    pub open spec fn stack_full(self) -> bool {
        self.quirks.stack_limit matches Some(limit) && self.stack.len() >= limit
    }

    /// `2NNN`: the program counter goes onto the stack and execution continues at `target`.
    pub open spec fn call(self, target: u16) -> Result<Machine, Error> {
        if self.stack_full() {
            Err(Error::StackOverflow)
        } else {
            Ok(Machine { pc: target, stack: self.stack.push(self.pc), ..self })
        }
    }

    /// The value that `8XY6` and `8XYE` shift.
    pub open spec fn shift_source(self, x: int, y: int) -> u8 {
        if self.quirks.shift_uses_vy {
            self.registers[y]
        } else {
            self.registers[x]
        }
    }

    /// `8XYN`: the operations on two registers. Where an operation defines
    /// VF, VF is written after VX.
    #[verifier::opaque]
    pub open spec fn arithmetic(self, word: u16) -> Result<Machine, Error> {
        let x = field_x(word);
        let y = field_y(word);
        let n = field_n(word);
        let vx = self.registers[x];
        let vy = self.registers[y];
        let source = self.shift_source(x, y);
        if n == 0x0 {
            Ok(self.set_register(x, vy))
        } else if n == 0x1 {
            Ok(self.set_register(x, vx | vy))
        } else if n == 0x2 {
            Ok(self.set_register(x, vx & vy))
        } else if n == 0x3 {
            Ok(self.set_register(x, vx ^ vy))
        } else if n == 0x4 {
            Ok(self.set_register(x, ((vx + vy) % 0x100) as u8).set_flag(vx + vy > 0xFF))
        } else if n == 0x5 {
            Ok(self.set_register(x, ((vx - vy) % 0x100) as u8).set_flag(vx >= vy))
        } else if n == 0x6 {
            Ok(self.set_register(x, (source / 2) as u8).set_flag(source % 2 == 1))
        } else if n == 0x7 {
            Ok(self.set_register(x, ((vy - vx) % 0x100) as u8).set_flag(vy >= vx))
        } else if n == 0xE {
            Ok(self.set_register(x, ((source * 2) % 0x100) as u8).set_flag(source >= 0x80))
        } else {
            Err(Error::UnimplementedOpcode(word))
        }
    }

    /// `EX9E` and `EXA1`: skip the next instruction if the key named by VX is
    /// held down, or if it is not.
    #[verifier::opaque]
    pub open spec fn key_skip(self, word: u16) -> Result<Machine, Error> {
        let key = self.registers[field_x(word)];
        let nn = field_nn(word);
        if nn != 0x9E && nn != 0xA1 {
            Err(Error::UnimplementedOpcode(word))
        } else if key >= self.keypad.len() {
            Err(Error::InvalidKeyIndex)
        } else if nn == 0x9E {
            Ok(self.skip_if(self.keypad[key as int]))
        } else {
            Ok(self.skip_if(!self.keypad[key as int]))
        }
    }

    /// `FX0A`: with no key held down the program counter goes back onto this
    /// instruction; otherwise the lowest key held down goes into register `x`.
    pub open spec fn wait_for_key(self, x: int) -> Machine {
        if no_key_pressed(self.keypad) {
            self.with_pc(pc_offset(self.pc, -2))
        } else {
            self.set_register(x, lowest_pressed(self.keypad) as u8)
        }
    }

    /// `FX1E`: VX is added to the index register.
    pub open spec fn add_to_index(self, x: int) -> Result<Machine, Error> {
        if self.index + self.registers[x] >= MEMORY_SIZE {
            Err(Error::MemoryOutOfBounds)
        } else {
            Ok(Machine { index: (self.index + self.registers[x]) as u16, ..self })
        }
    }

    /// `FX29`: the index register points at the glyph of the digit in VX.
    pub open spec fn point_at_glyph(self, x: int) -> Machine {
        Machine { index: (FONT_START + GLYPH_SIZE * self.registers[x]) as u16, ..self }
    }

    /// `FX33`: the three decimal digits of VX go to memory at the index register.
    #[verifier::opaque]
    pub open spec fn store_decimal(self, x: int) -> Result<Machine, Error> {
        if self.index + 2 >= MEMORY_SIZE {
            Err(Error::MemoryOutOfBounds)
        } else {
            Ok(self.load(decimal_digits(self.registers[x]), self.index as int))
        }
    }

    /// `FX55`: V0 to VX go to memory at the index register.
    #[verifier::opaque]
    pub open spec fn store_registers(self, x: int) -> Result<Machine, Error> {
        if self.index + x >= MEMORY_SIZE {
            Err(Error::MemoryOutOfBounds)
        } else {
            Ok(self.load(self.registers.subrange(0, x + 1), self.index as int))
        }
    }

    /// `FX65`: V0 to VX are read from memory at the index register.
    #[verifier::opaque]
    pub open spec fn load_registers(self, x: int) -> Result<Machine, Error> {
        if self.index + x >= MEMORY_SIZE {
            Err(Error::MemoryOutOfBounds)
        } else {
            Ok(
                Machine {
                    registers: Seq::new(
                        REGISTER_COUNT as nat,
                        |i: int|
                            if i <= x {
                                self.memory[self.index + i]
                            } else {
                                self.registers[i]
                            },
                    ),
                    ..self
                },
            )
        }
    }

    /// `FXNN`: timers, the index register, and transfers between registers and memory.
    #[verifier::opaque]
    pub open spec fn miscellaneous(self, word: u16) -> Result<Machine, Error> {
        let x = field_x(word);
        let nn = field_nn(word);
        let vx = self.registers[x];
        if nn == 0x07 {
            Ok(self.set_register(x, self.delay_timer))
        } else if nn == 0x0A {
            Ok(self.wait_for_key(x))
        } else if nn == 0x15 {
            Ok(Machine { delay_timer: vx, ..self })
        } else if nn == 0x18 {
            Ok(Machine { sound_timer: vx, ..self })
        } else if nn == 0x1E {
            self.add_to_index(x)
        } else if nn == 0x29 {
            Ok(self.point_at_glyph(x))
        } else if nn == 0x33 {
            self.store_decimal(x)
        } else if nn == 0x55 {
            self.store_registers(x)
        } else if nn == 0x65 {
            self.load_registers(x)
        } else {
            Err(Error::UnimplementedOpcode(word))
        }
    }

    /// What the instruction `word` does to a state whose program counter
    /// is already past it. `random` is the byte that `CXNN` reads.
    pub open spec fn execute(self, word: u16, random: u8) -> Result<Machine, Error> {
        let class = op_class(word);
        let x = field_x(word);
        let y = field_y(word);
        let n = field_n(word);
        let nn = field_nn(word);
        let nnn = field_nnn(word);
        let vx = self.registers[x];
        let vy = self.registers[y];
        if word == 0x00E0 {
            Ok(self.clear_display())
        } else if word == 0x00EE {
            self.ret()
        } else if class == 0x1 {
            Ok(self.with_pc(nnn))
        } else if class == 0x2 {
            self.call(nnn)
        } else if class == 0x3 {
            Ok(self.skip_if(vx == nn))
        } else if class == 0x4 {
            Ok(self.skip_if(vx != nn))
        } else if class == 0x5 && n == 0 {
            Ok(self.skip_if(vx == vy))
        } else if class == 0x6 {
            Ok(self.set_register(x, nn))
        } else if class == 0x7 {
            Ok(self.set_register(x, ((vx + nn) % 0x100) as u8))
        } else if class == 0x8 {
            self.arithmetic(word)
        } else if class == 0x9 && n == 0 {
            Ok(self.skip_if(vx != vy))
        } else if class == 0xA {
            Ok(Machine { index: nnn, ..self })
        } else if class == 0xB {
            Ok(self.with_pc((nnn + self.registers[0]) as u16))
        } else if class == 0xC {
            Ok(self.set_register(x, random & nn))
        } else if class == 0xD {
            self.draw_sprite(x, y, n)
        } else if class == 0xE {
            self.key_skip(word)
        } else if class == 0xF {
            self.miscellaneous(word)
        } else {
            Err(Error::UnimplementedOpcode(word))
        }
    }

    /// One cycle: fetch the instruction at the program counter and execute
    /// it. The result is the state after the cycle and whether the cycle
    /// succeeded. A cycle that cannot fetch leaves the state as it is; one
    /// whose instruction fails leaves it as the fetch left it.
    pub open spec fn step(self, random: u8) -> (Machine, Result<(), Error>) {
        if !self.can_fetch() {
            (self, Err(Error::MemoryOutOfBounds))
        } else {
            match self.after_fetch().execute(self.word_at_pc(), random) {
                Ok(next) => (next, Ok(())),
                Err(error) => (self.after_fetch(), Err(error)),
            }
        }
    }

    /// The cycles that read the bytes of `randoms` in turn, up to the first
    /// that fails: the state after the last cycle that ran, and how it ended.
    pub open spec fn run(self, randoms: Seq<u8>) -> (Machine, Result<(), Error>)
        decreases randoms.len(),
    {
        if randoms.len() == 0 {
            (self, Ok(()))
        } else {
            let earlier = self.run(randoms.drop_last());
            if earlier.1 is Ok {
                earlier.0.step(randoms.last())
            } else {
                earlier
            }
        }
    }

    /// The number of cycles of one frame: the cycle speed, and none where
    /// it is negative.
    pub open spec fn cycles_per_frame(self) -> nat {
        if self.cycle_speed > 0 {
            self.cycle_speed as nat
        } else {
            0
        }
    }

    /// Whether the next cycle reads a random byte: the instruction at the
    /// program counter is `CXNN`.
    pub open spec fn draws_random(self) -> bool {
        self.can_fetch() && op_class(self.word_at_pc()) == 0xC
    }
}

} // verus!
