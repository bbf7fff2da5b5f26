//! The fetch, decode and execute cycle.

use vstd::prelude::*;
use crate::alu::{add_with_carry, add_wrapping, shift_left, shift_right, subtract_with_borrow};
use crate::decode::{decode, op_class, Instruction};
use crate::error::Error;
use crate::machine::Chip8;
use crate::model::{
    agrees, Machine, DISPLAY_SIZE, FLAG_REGISTER, FONT_START, GLYPH_SIZE, KEY_COUNT, MEMORY_SIZE,
};
use crate::random::random_byte;
use crate::semantics::{decimal_digits, is_lowest_pressed, lowest_pressed, no_key_pressed};

verus! {

impl Chip8 {
    /// Reads the instruction word at the program counter and moves the
    /// program counter past it. Fails, and changes nothing, where the two
    /// bytes do not both lie in memory.
    pub fn fetch(&mut self) -> (r: Result<u16, Error>)
        ensures
            match r {
                Ok(word) => old(self)@.can_fetch() && word == old(self)@.word_at_pc() && final(self)@
                    == old(self)@.after_fetch(),
                Err(error) => !old(self)@.can_fetch() && error == Error::MemoryOutOfBounds
                    && final(self)@ == old(self)@,
            },
    {
        let pc = self.pc as usize;
        if pc + 1 >= MEMORY_SIZE {
            return Err(Error::MemoryOutOfBounds);
        }
        let high = self.memory[pc] as u16;
        let low = self.memory[pc + 1] as u16;
        let word = (high << 8) | low;
        assert(word == high * 0x100 + low) by (bit_vector)
            requires
                high < 0x100,
                low < 0x100,
                word == (high << 8) | low,
        ;
        self.pc = self.pc + 2;
        Ok(word)
    }

    fn skip_if(&mut self, condition: bool)
        ensures
            final(self)@ == old(self)@.skip_if(condition),
    {
        if condition {
            self.pc = self.pc.wrapping_add(2);
        }
    }

    pub(crate) fn set_flag(&mut self, flag: bool)
        ensures
            final(self)@ == old(self)@.set_flag(flag),
    {
        self.registers[FLAG_REGISTER] = if flag { 1 } else { 0 };
    }

    fn ret(&mut self) -> (r: Result<(), Error>)
        ensures
            agrees(old(self)@.ret(), old(self)@, final(self)@, r),
    {
        match self.stack.pop() {
            Some(address) => {
                self.pc = address;
                Ok(())
            },
            None => Err(Error::StackUnderflow),
        }
    }

    fn call(&mut self, target: u16) -> (r: Result<(), Error>)
        ensures
            agrees(old(self)@.call(target), old(self)@, final(self)@, r),
    {
        let full = match self.quirks.stack_limit {
            Some(limit) => self.stack.len() >= limit,
            None => false,
        };
        if full {
            return Err(Error::StackOverflow);
        }
        self.stack.push(self.pc);
        self.pc = target;
        Ok(())
    }

    fn arithmetic(&mut self, instruction: &Instruction) -> (r: Result<(), Error>)
        requires
            instruction.decodes(instruction.word),
        ensures
            agrees(old(self)@.arithmetic(instruction.word), old(self)@, final(self)@, r),
    {
        reveal(Machine::arithmetic);
        let x = instruction.x;
        let vx = self.registers[x];
        let vy = self.registers[instruction.y];
        let source = if self.quirks.shift_uses_vy { vy } else { vx };
        let (value, flag) = match instruction.n {
            0x0 => (vy, None),
            0x1 => (vx | vy, None),
            0x2 => (vx & vy, None),
            0x3 => (vx ^ vy, None),
            0x4 => {
                let (sum, carry) = add_with_carry(vx, vy);
                (sum, Some(carry))
            },
            0x5 => {
                let (difference, no_borrow) = subtract_with_borrow(vx, vy);
                (difference, Some(no_borrow))
            },
            0x6 => {
                let (shifted, out) = shift_right(source);
                (shifted, Some(out))
            },
            0x7 => {
                let (difference, no_borrow) = subtract_with_borrow(vy, vx);
                (difference, Some(no_borrow))
            },
            0xE => {
                let (shifted, out) = shift_left(source);
                (shifted, Some(out))
            },
            _ => {
                return Err(Error::UnimplementedOpcode(instruction.word));
            },
        };
        self.set_register(x, value);
        if let Some(flag) = flag {
            self.set_flag(flag);
        }
        Ok(())
    }

    fn key_skip(&mut self, instruction: &Instruction) -> (r: Result<(), Error>)
        requires
            instruction.decodes(instruction.word),
        ensures
            agrees(old(self)@.key_skip(instruction.word), old(self)@, final(self)@, r),
    {
        reveal(Machine::key_skip);
        let key = self.registers[instruction.x] as usize;
        if instruction.nn != 0x9E && instruction.nn != 0xA1 {
            return Err(Error::UnimplementedOpcode(instruction.word));
        }
        if key >= KEY_COUNT {
            return Err(Error::InvalidKeyIndex);
        }
        let pressed = self.keypad[key];
        self.skip_if(pressed == (instruction.nn == 0x9E));
        Ok(())
    }

    /// The lowest key that is held down, if any is.
    fn lowest_pressed_key(&self) -> (r: Option<u8>)
        ensures
            match r {
                Some(key) => is_lowest_pressed(self@.keypad, key as int),
                None => no_key_pressed(self@.keypad),
            },
    {
        let mut key: usize = 0;
        while key < KEY_COUNT
            invariant
                key <= KEY_COUNT,
                forall|k: int| 0 <= k < key ==> !self.keypad@[k],
            decreases KEY_COUNT - key,
        {
            if self.keypad[key] {
                return Some(key as u8);
            }
            key += 1;
        }
        None
    }

    fn wait_for_key(&mut self, x: usize)
        requires
            x < 16,
        ensures
            final(self)@ == old(self)@.wait_for_key(x as int),
    {
        match self.lowest_pressed_key() {
            Some(key) => {
                assert(is_lowest_pressed(self@.keypad, lowest_pressed(self@.keypad)));
                self.registers[x] = key;
            },
            None => {
                self.pc = self.pc.wrapping_sub(2);
            },
        }
    }

    fn add_to_index(&mut self, x: usize) -> (r: Result<(), Error>)
        requires
            x < 16,
        ensures
            agrees(old(self)@.add_to_index(x as int), old(self)@, final(self)@, r),
    {
        let sum = self.index_register as u32 + self.registers[x] as u32;
        if sum >= MEMORY_SIZE as u32 {
            return Err(Error::MemoryOutOfBounds);
        }
        self.index_register = sum as u16;
        Ok(())
    }

    fn store_decimal(&mut self, x: usize) -> (r: Result<(), Error>)
        requires
            x < 16,
        ensures
            agrees(old(self)@.store_decimal(x as int), old(self)@, final(self)@, r),
    {
        reveal(Machine::store_decimal);
        let base = self.index_register as usize;
        if base + 2 >= MEMORY_SIZE {
            return Err(Error::MemoryOutOfBounds);
        }
        let value = self.registers[x];
        self.memory[base] = value / 100;
        self.memory[base + 1] = (value / 10) % 10;
        self.memory[base + 2] = value % 10;
        assert(self@ =~= old(self)@.load(decimal_digits(value), base as int));
        Ok(())
    }

    fn store_registers(&mut self, x: usize) -> (r: Result<(), Error>)
        requires
            x < 16,
        ensures
            agrees(old(self)@.store_registers(x as int), old(self)@, final(self)@, r),
    {
        reveal(Machine::store_registers);
        let base = self.index_register as usize;
        if base + x >= MEMORY_SIZE {
            return Err(Error::MemoryOutOfBounds);
        }
        let mut i: usize = 0;
        while i <= x
            invariant
                i <= x + 1,
                x < 16,
                base + x < MEMORY_SIZE,
                base == self.index_register,
                self@ == old(self)@.load(old(self)@.registers.subrange(0, i as int), base as int),
            decreases x + 1 - i,
        {
            self.memory[base + i] = self.registers[i];
            i += 1;
        }
        Ok(())
    }

    fn load_registers(&mut self, x: usize) -> (r: Result<(), Error>)
        requires
            x < 16,
        ensures
            agrees(old(self)@.load_registers(x as int), old(self)@, final(self)@, r),
    {
        reveal(Machine::load_registers);
        let base = self.index_register as usize;
        if base + x >= MEMORY_SIZE {
            return Err(Error::MemoryOutOfBounds);
        }
        let mut i: usize = 0;
        while i <= x
            invariant
                i <= x + 1,
                x < 16,
                base + x < MEMORY_SIZE,
                base == self.index_register,
                self@ == (Machine {
                    registers: Seq::new(
                        16,
                        |k: int|
                            if k < i {
                                old(self)@.memory[base + k]
                            } else {
                                old(self)@.registers[k]
                            },
                    ),
                    ..old(self)@
                }),
            decreases x + 1 - i,
        {
            self.registers[i] = self.memory[base + i];
            i += 1;
        }
        assert(self@ =~= old(self)@.load_registers(x as int)->Ok_0);
        Ok(())
    }

    fn miscellaneous(&mut self, instruction: &Instruction) -> (r: Result<(), Error>)
        requires
            instruction.decodes(instruction.word),
        ensures
            agrees(old(self)@.miscellaneous(instruction.word), old(self)@, final(self)@, r),
    {
        reveal(Machine::miscellaneous);
        let x = instruction.x;
        let vx = self.registers[x];
        match instruction.nn {
            0x07 => {
                self.registers[x] = self.delay_timer;
                Ok(())
            },
            0x0A => {
                self.wait_for_key(x);
                Ok(())
            },
            0x15 => {
                self.delay_timer = vx;
                Ok(())
            },
            0x18 => {
                self.sound_timer = vx;
                Ok(())
            },
            0x1E => self.add_to_index(x),
            0x29 => {
                self.index_register = FONT_START + GLYPH_SIZE * (vx as u16);
                Ok(())
            },
            0x33 => self.store_decimal(x),
            0x55 => self.store_registers(x),
            0x65 => self.load_registers(x),
            _ => Err(Error::UnimplementedOpcode(instruction.word)),
        }
    }

    fn clear_display(&mut self)
        ensures
            final(self)@ == old(self)@.clear_display(),
    {
        self.display = [false; DISPLAY_SIZE];
    }

    fn jump(&mut self, target: u16)
        ensures
            final(self)@ == old(self)@.with_pc(target),
    {
        self.pc = target;
    }

    fn set_register(&mut self, x: usize, value: u8)
        requires
            x < 16,
        ensures
            final(self)@ == old(self)@.set_register(x as int, value),
    {
        self.registers[x] = value;
    }

    fn set_index(&mut self, address: u16)
        ensures
            final(self)@ == (Machine { index: address, ..old(self)@ }),
    {
        self.index_register = address;
    }

    /// Executes the instruction `word` on a machine whose program counter is
    /// already past it; `random` is the byte that `CXNN` reads. An
    /// instruction that fails changes nothing.
    pub fn execute(&mut self, word: u16, random: u8) -> (r: Result<(), Error>)
        ensures
            agrees(old(self)@.execute(word, random), old(self)@, final(self)@, r),
    {
        let instruction = decode(word);
        let x = instruction.x;
        let vx = self.registers[x];
        let vy = self.registers[instruction.y];
        if word == 0x00E0 {
            self.clear_display();
            return Ok(());
        }
        if word == 0x00EE {
            return self.ret();
        }
        match instruction.class {
            0x1 => {
                self.jump(instruction.nnn);
                Ok(())
            },
            0x2 => self.call(instruction.nnn),
            0x3 => {
                self.skip_if(vx == instruction.nn);
                Ok(())
            },
            0x4 => {
                self.skip_if(vx != instruction.nn);
                Ok(())
            },
            0x5 => {
                if instruction.n != 0 {
                    return Err(Error::UnimplementedOpcode(word));
                }
                self.skip_if(vx == vy);
                Ok(())
            },
            0x6 => {
                self.set_register(x, instruction.nn);
                Ok(())
            },
            0x7 => {
                self.set_register(x, add_wrapping(vx, instruction.nn));
                Ok(())
            },
            0x8 => self.arithmetic(&instruction),
            0x9 => {
                if instruction.n != 0 {
                    return Err(Error::UnimplementedOpcode(word));
                }
                self.skip_if(vx != vy);
                Ok(())
            },
            0xA => {
                self.set_index(instruction.nnn);
                Ok(())
            },
            0xB => {
                self.jump(instruction.nnn + self.registers[0] as u16);
                Ok(())
            },
            0xC => {
                self.set_register(x, random & instruction.nn);
                Ok(())
            },
            0xD => self.draw_sprite(x, instruction.y, instruction.n),
            0xE => self.key_skip(&instruction),
            0xF => self.miscellaneous(&instruction),
            _ => Err(Error::UnimplementedOpcode(word)),
        }
    }

    /// Runs one cycle with `random` as the byte that `CXNN` reads: fetches
    /// the instruction at the program counter and executes it.
    pub fn step(&mut self, random: u8) -> (r: Result<(), Error>)
        ensures
            final(self)@ == old(self)@.step(random).0,
            r == old(self)@.step(random).1,
    {
        match self.fetch() {
            Ok(word) => self.execute(word, random),
            Err(error) => Err(error),
        }
    }

    /// Whether the instruction at the program counter is `CXNN`.
    fn next_draws_random(&self) -> (draws: bool)
        ensures
            draws == self@.draws_random(),
    {
        let pc = self.pc as usize;
        if pc + 1 >= MEMORY_SIZE {
            return false;
        }
        let high = self.memory[pc];
        proof {
            reveal(op_class);
            let low = self.memory@[pc + 1];
            assert((high * 0x100 + low) / 0x1000 == high / 0x10) by (bit_vector)
                requires
                    high < 0x100,
                    low < 0x100,
            ;
        }
        high / 0x10 == 0xC
    }

    /// Runs one cycle, drawing the byte that `CXNN` reads from the random
    /// number generator of the thread.
    pub fn cycle(&mut self) -> (r: Result<(), Error>)
        ensures
            exists|random: u8|
                final(self)@ == (#[trigger] old(self)@.step(random)).0 && r == old(self)@.step(
                    random,
                ).1,
            !old(self)@.draws_random() ==> final(self)@ == old(self)@.step(0).0 && r == old(
                self,
            )@.step(0).1,
    {
        let random = if self.next_draws_random() {
            random_byte()
        } else {
            0
        };
        self.step(random)
    }

    /// Runs `cycles` cycles, or as many as succeed: the first that fails is
    /// the last that runs.
    pub fn run(&mut self, cycles: u32) -> (r: Result<(), Error>)
        ensures
            exists|randoms: Seq<u8>|
                randoms.len() == cycles && final(self)@ == (#[trigger] old(self)@.run(randoms)).0
                    && r == old(self)@.run(randoms).1,
    {
        let ghost mut randoms: Seq<u8> = Seq::empty();
        let mut done: u32 = 0;
        while done < cycles
            invariant
                done <= cycles,
                randoms.len() == done,
                self@ == old(self)@.run(randoms).0,
                old(self)@.run(randoms).1 is Ok,
            decreases cycles - done,
        {
            let ghost before = self@;
            let result = self.cycle();
            proof {
                let random = choose|random: u8|
                    self@ == (#[trigger] before.step(random)).0 && result == before.step(random).1;
                assert(randoms.push(random).drop_last() =~= randoms);
                randoms = randoms.push(random);
            }
            if result.is_err() {
                proof {
                    let rest = Seq::new((cycles - done - 1) as nat, |i: int| 0u8);
                    lemma_run_stops(old(self)@, randoms, rest);
                    randoms = randoms + rest;
                }
                return result;
            }
            done += 1;
        }
        Ok(())
    }

    /// Runs the cycles of one frame, as many as the cycle speed says and
    /// none where it is negative, or as many of them as succeed.
    pub fn run_frame(&mut self) -> (r: Result<(), Error>)
        ensures
            exists|randoms: Seq<u8>|
                randoms.len() == old(self)@.cycles_per_frame() && final(self)@ == (
                #[trigger] old(self)@.run(randoms)).0 && r == old(self)@.run(randoms).1,
    {
        let cycles: u32 = if self.cycle_speed > 0 {
            self.cycle_speed as u32
        } else {
            0
        };
        self.run(cycles)
    }

    /// Runs one cycle for each byte of `randoms`, with that byte as the one
    /// that `CXNN` reads, or as many as succeed: the first cycle that fails
    /// is the last that runs.
    pub fn run_with(&mut self, randoms: &[u8]) -> (r: Result<(), Error>)
        ensures
            final(self)@ == old(self)@.run(randoms@).0,
            r == old(self)@.run(randoms@).1,
    {
        let mut done: usize = 0;
        while done < randoms.len()
            invariant
                done <= randoms@.len(),
                self@ == old(self)@.run(randoms@.take(done as int)).0,
                old(self)@.run(randoms@.take(done as int)).1 is Ok,
            decreases randoms@.len() - done,
        {
            let result = self.step(randoms[done]);
            proof {
                assert(randoms@.take(done + 1).drop_last() =~= randoms@.take(done as int));
            }
            if result.is_err() {
                proof {
                    lemma_run_stops(
                        old(self)@,
                        randoms@.take(done + 1),
                        randoms@.skip(done + 1),
                    );
                    assert(randoms@.take(done + 1) + randoms@.skip(done + 1) =~= randoms@);
                }
                return result;
            }
            done += 1;
        }
        assert(randoms@.take(done as int) =~= randoms@);
        Ok(())
    }
}

/// Once a cycle has failed, no later byte is read: further bytes change
/// neither the state nor the result.
pub proof fn lemma_run_stops(machine: Machine, randoms: Seq<u8>, rest: Seq<u8>)
    requires
        machine.run(randoms).1 is Err,
    ensures
        machine.run(randoms + rest) == machine.run(randoms),
    decreases rest.len(),
{
    if rest.len() == 0 {
    } else {
        lemma_run_stops(machine, randoms, rest.drop_last());
        assert((randoms + rest).drop_last() =~= randoms + rest.drop_last());
    }
}

} // verus!
