//! Laws of the machine: what holds of every state and every instruction of
//! a kind, proved from the model.

use vstd::arithmetic::div_mod::{lemma_fundamental_div_mod, lemma_fundamental_div_mod_converse};
use vstd::prelude::*;
use crate::decode::{
    field_n, field_nnn, field_x, field_y, lemma_field_ranges, lemma_fields,
    lemma_fields_with_address, lemma_fields_with_byte, op_class,
};
use crate::error::Error;
use crate::font::{font_bytes, FONT_SIZE};
use crate::interface::{accumulated, TIMER_PERIOD_NANOS};
use crate::model::{
    pc_offset, Machine, Quirks, DISPLAY_SIZE, FONT_START, KEY_COUNT, MEMORY_SIZE,
};
use crate::semantics::{decimal_digits, is_lowest_pressed, lowest_pressed, no_key_pressed};

verus! {

/// The operations on two registers keep the sizes of the state.
proof fn lemma_arithmetic_keeps_sizes(machine: Machine, word: u16)
    requires
        machine.wf(),
    ensures
        machine.arithmetic(word) matches Ok(next) ==> next.wf(),
{
    reveal(Machine::arithmetic);
    lemma_field_ranges(word);
}

/// The skips on a key keep the sizes of the state.
proof fn lemma_key_skip_keeps_sizes(machine: Machine, word: u16)
    requires
        machine.wf(),
    ensures
        machine.key_skip(word) matches Ok(next) ==> next.wf(),
{
    reveal(Machine::key_skip);
}

/// The instructions of class F keep the sizes of the state.
proof fn lemma_miscellaneous_keeps_sizes(machine: Machine, word: u16)
    requires
        machine.wf(),
    ensures
        machine.miscellaneous(word) matches Ok(next) ==> next.wf(),
{
    reveal(Machine::miscellaneous);
    reveal(Machine::store_decimal);
    reveal(Machine::store_registers);
    reveal(Machine::load_registers);
    lemma_field_ranges(word);
}

/// Drawing a sprite keeps the sizes of the state.
proof fn lemma_draw_sprite_keeps_sizes(machine: Machine, x: int, y: int, n: int)
    requires
        machine.wf(),
    ensures
        machine.draw_sprite(x, y, n) matches Ok(next) ==> next.wf(),
{
    reveal(Machine::draw_sprite);
}

/// A cycle keeps the sizes of memory, registers, display and keypad.
pub proof fn law_step_keeps_sizes(machine: Machine, random: u8)
    requires
        machine.wf(),
    ensures
        machine.step(random).0.wf(),
{
    if machine.can_fetch() {
        let fetched = machine.after_fetch();
        let word = machine.word_at_pc();
        lemma_field_ranges(word);
        lemma_arithmetic_keeps_sizes(fetched, word);
        lemma_key_skip_keeps_sizes(fetched, word);
        lemma_miscellaneous_keeps_sizes(fetched, word);
        lemma_draw_sprite_keeps_sizes(fetched, field_x(word), field_y(word), field_n(word));
    }
}

/// The instructions of class F keep the index register within memory.
proof fn lemma_miscellaneous_keeps_index(machine: Machine, word: u16)
    requires
        machine.index < MEMORY_SIZE,
    ensures
        machine.miscellaneous(word) matches Ok(next) ==> next.index < MEMORY_SIZE,
{
    reveal(Machine::miscellaneous);
    reveal(Machine::store_decimal);
    reveal(Machine::store_registers);
    reveal(Machine::load_registers);
}

/// A cycle keeps the index register within memory: no instruction leaves
/// an address in it that lies outside.
pub proof fn law_step_keeps_index_in_memory(machine: Machine, random: u8)
    requires
        machine.index < MEMORY_SIZE,
    ensures
        machine.step(random).0.index < MEMORY_SIZE,
{
    if machine.can_fetch() {
        let fetched = machine.after_fetch();
        let word = machine.word_at_pc();
        lemma_field_ranges(word);
        lemma_miscellaneous_keeps_index(fetched, word);
        reveal(Machine::arithmetic);
        reveal(Machine::key_skip);
        reveal(Machine::draw_sprite);
    }
}

/// Moving the program counter by two, forwards or backwards, keeps it even or odd.
proof fn lemma_pc_offset_keeps_parity(pc: u16)
    ensures
        pc_offset(pc, 2) % 2 == pc % 2,
        pc_offset(pc, -2) % 2 == pc % 2,
{
}

/// The instructions of classes 8, D, E and F keep the program counter even or odd.
proof fn lemma_classes_keep_pc_parity(machine: Machine, word: u16)
    ensures
        machine.arithmetic(word) matches Ok(next) ==> next.pc == machine.pc,
        machine.draw_sprite(field_x(word), field_y(word), field_n(word)) matches Ok(next)
            ==> next.pc == machine.pc,
        machine.key_skip(word) matches Ok(next) ==> next.pc % 2 == machine.pc % 2,
        machine.miscellaneous(word) matches Ok(next) ==> next.pc % 2 == machine.pc % 2,
{
    lemma_pc_offset_keeps_parity(machine.pc);
    assert(machine.arithmetic(word) matches Ok(next) ==> next.pc == machine.pc) by {
        reveal(Machine::arithmetic);
    }
    assert(machine.draw_sprite(field_x(word), field_y(word), field_n(word)) matches Ok(next)
        ==> next.pc == machine.pc) by {
        reveal(Machine::draw_sprite);
    }
    assert(machine.key_skip(word) matches Ok(next) ==> next.pc % 2 == machine.pc % 2) by {
        reveal(Machine::key_skip);
    }
    assert(machine.miscellaneous(word) matches Ok(next) ==> next.pc % 2 == machine.pc % 2) by {
        reveal(Machine::miscellaneous);
        reveal(Machine::store_decimal);
        reveal(Machine::store_registers);
        reveal(Machine::load_registers);
    }
}

/// A cycle that begins at an even address leaves the program counter even,
/// unless it takes the program to an odd address: by a jump or a call to
/// one, by an offset jump that adds up to one, or by a return to one.
pub proof fn law_program_counter_stays_even(machine: Machine, random: u8)
    requires
        machine.wf(),
        machine.pc % 2 == 0,
        ({
            let word = machine.word_at_pc();
            let class = op_class(word);
            &&& class == 0x1 || class == 0x2 ==> field_nnn(word) % 2 == 0
            &&& class == 0xB ==> (field_nnn(word) + machine.registers[0]) % 2 == 0
            &&& word == 0x00EE && machine.stack.len() > 0 ==> machine.stack.last() % 2 == 0
        }),
    ensures
        machine.step(random).0.pc % 2 == 0,
{
    if machine.can_fetch() {
        let fetched = machine.after_fetch();
        let word = machine.word_at_pc();
        lemma_field_ranges(word);
        lemma_pc_offset_keeps_parity(machine.pc);
        lemma_pc_offset_keeps_parity(fetched.pc);
        lemma_classes_keep_pc_parity(fetched, word);
    }
}

/// A new machine holds the font at its fixed place, and loading the font
/// again changes nothing.
pub proof fn law_new_machine_holds_font(cycle_speed: i32, quirks: Quirks)
    ensures
        ({
            let fresh = Machine::initial(cycle_speed, quirks);
            &&& fresh.wf()
            &&& fresh.memory.subrange(FONT_START as int, FONT_START + FONT_SIZE) == font_bytes()
            &&& fresh.load(font_bytes(), FONT_START as int) == fresh
        }),
{
}

/// After `6XNN`, register X holds NN.
pub proof fn law_load_immediate(machine: Machine, x: int, nn: u8, random: u8)
    requires
        machine.wf(),
        0 <= x < 16,
        machine.can_fetch(),
        machine.word_at_pc() == 0x6000 + 0x100 * x + nn,
    ensures
        machine.step(random).1 is Ok,
        machine.step(random).0.registers[x] == nn,
{
    lemma_fields_with_byte(6, x, nn as int);
}

/// After `7XNN`, register X holds the sum of its value and NN modulo 256,
/// and every other register, VF too, is as it was.
pub proof fn law_add_immediate_wraps(machine: Machine, x: int, nn: u8, random: u8)
    requires
        machine.wf(),
        0 <= x < 16,
        machine.can_fetch(),
        machine.word_at_pc() == 0x7000 + 0x100 * x + nn,
    ensures
        machine.step(random).1 is Ok,
        machine.step(random).0.registers == machine.registers.update(
            x,
            ((machine.registers[x] + nn) % 256) as u8,
        ),
{
    lemma_fields_with_byte(7, x, nn as int);
}

/// After `8XY4`, VF is 1 if the sum of VX and VY does not fit 8 bits and 0
/// if it does, and VX, where it is not VF, is the sum modulo 256.
pub proof fn law_add_sets_carry(machine: Machine, x: int, y: int, random: u8)
    requires
        machine.wf(),
        0 <= x < 16,
        0 <= y < 16,
        machine.can_fetch(),
        machine.word_at_pc() == 0x8004 + 0x100 * x + 0x10 * y,
    ensures
        machine.step(random).1 is Ok,
        machine.step(random).0.registers[15] == if machine.registers[x] + machine.registers[y]
            > 255 {
            1int
        } else {
            0int
        },
        x != 15 ==> machine.step(random).0.registers[x] == (machine.registers[x]
            + machine.registers[y]) % 256,
{
    reveal(Machine::arithmetic);
    lemma_fields(8, x, y, 4);
}

/// Every operation on two registers that defines VF leaves 0 or 1 in it,
/// whatever it held and whether or not it was an operand.
pub proof fn law_flag_is_overwritten(machine: Machine, x: int, y: int, n: int, random: u8)
    requires
        machine.wf(),
        0 <= x < 16,
        0 <= y < 16,
        n == 0x4 || n == 0x5 || n == 0x6 || n == 0x7 || n == 0xE,
        machine.can_fetch(),
        machine.word_at_pc() == 0x8000 + 0x100 * x + 0x10 * y + n,
    ensures
        machine.step(random).1 is Ok,
        machine.step(random).0.registers[15] == 0 || machine.step(random).0.registers[15] == 1,
{
    reveal(Machine::arithmetic);
    lemma_fields(8, x, y, n);
}

/// After `00E0`, every cell of the display is off.
pub proof fn law_clear_display(machine: Machine, random: u8)
    requires
        machine.wf(),
        machine.can_fetch(),
        machine.word_at_pc() == 0x00E0,
    ensures
        machine.step(random).1 is Ok,
        machine.step(random).0.display.len() == DISPLAY_SIZE,
        forall|cell: int| 0 <= cell < DISPLAY_SIZE ==> !machine.step(random).0.display[cell],
{
}

/// A call `2NNN` that does not find the stack at its limit puts the address
/// of the instruction after it onto the stack and goes to `NNN`.
pub proof fn law_call_pushes_return_address(machine: Machine, nnn: int, random: u8)
    requires
        machine.wf(),
        0 <= nnn < 0x1000,
        machine.can_fetch(),
        machine.word_at_pc() == 0x2000 + nnn,
        !machine.stack_full(),
    ensures
        machine.step(random).1 is Ok,
        machine.step(random).0.pc == nnn,
        machine.step(random).0.stack == machine.stack.push((machine.pc + 2) as u16),
{
    lemma_fields_with_address(2, nnn);
}

/// A return `00EE` goes to the address that the innermost call in progress
/// put onto the stack, and takes it off.
pub proof fn law_return_pops_return_address(machine: Machine, random: u8)
    requires
        machine.wf(),
        machine.can_fetch(),
        machine.word_at_pc() == 0x00EE,
        machine.stack.len() > 0,
    ensures
        machine.step(random).1 is Ok,
        machine.step(random).0.pc == machine.stack.last(),
        machine.step(random).0.stack == machine.stack.drop_last(),
{
}

/// A call `2NNN` to a subroutine that begins with the return `00EE`, run
/// for two cycles, leaves the program counter at the instruction after the
/// call and the stack as it was. The call must not find the stack at its
/// limit.
pub proof fn law_call_then_return(machine: Machine, nnn: int, first: u8, second: u8)
    requires
        machine.wf(),
        0 <= nnn < 0x1000,
        machine.can_fetch(),
        machine.word_at_pc() == 0x2000 + nnn,
        !machine.stack_full(),
        nnn + 1 < MEMORY_SIZE,
        machine.memory[nnn] == 0x00,
        machine.memory[nnn + 1] == 0xEE,
    ensures
        machine.step(first).1 is Ok,
        machine.step(first).0.pc == nnn,
        machine.step(first).0.step(second).1 is Ok,
        machine.step(first).0.step(second).0.pc == machine.pc + 2,
        machine.step(first).0.step(second).0.stack == machine.stack,
{
    lemma_fields_with_address(2, nnn);
}

/// `EX9E` moves the program counter by four if the key named by VX is held
/// down and by two if it is not; `EXA1` by four if it is not held down and
/// by two if it is. VX must name a key.
pub proof fn law_key_skip(machine: Machine, x: int, random: u8)
    requires
        machine.wf(),
        0 <= x < 16,
        machine.can_fetch(),
        machine.registers[x] < KEY_COUNT,
    ensures
        ({
            let held = machine.keypad[machine.registers[x] as int];
            let next = machine.step(random);
            &&& machine.word_at_pc() == 0xE09E + 0x100 * x ==> next.1 is Ok && next.0.pc
                == machine.pc + if held { 4int } else { 2int }
            &&& machine.word_at_pc() == 0xE0A1 + 0x100 * x ==> next.1 is Ok && next.0.pc
                == machine.pc + if held { 2int } else { 4int }
        }),
{
    reveal(Machine::key_skip);
    lemma_fields_with_byte(0xE, x, 0x9E);
    lemma_fields_with_byte(0xE, x, 0xA1);
}

/// While no key is held down, a cycle on `FX0A` changes nothing.
proof fn lemma_wait_for_key_stays(machine: Machine, x: int, random: u8)
    requires
        machine.wf(),
        0 <= x < 16,
        machine.can_fetch(),
        machine.word_at_pc() == 0xF00A + 0x100 * x,
        no_key_pressed(machine.keypad),
    ensures
        machine.step(random) == (machine, Ok::<(), Error>(())),
{
    reveal(Machine::miscellaneous);
    lemma_fields_with_byte(0xF, x, 0x0A);
    assert(machine.step(random).0 =~= machine);
}

/// While no key is held down, `FX0A` changes nothing: however many cycles
/// run, the machine stays in the state in which it reached the instruction.
pub proof fn law_wait_for_key_spins(machine: Machine, x: int, randoms: Seq<u8>)
    requires
        machine.wf(),
        0 <= x < 16,
        machine.can_fetch(),
        machine.word_at_pc() == 0xF00A + 0x100 * x,
        no_key_pressed(machine.keypad),
    ensures
        machine.run(randoms) == (machine, Ok::<(), Error>(())),
    decreases randoms.len(),
{
    if randoms.len() > 0 {
        law_wait_for_key_spins(machine, x, randoms.drop_last());
        lemma_wait_for_key_stays(machine, x, randoms.last());
    }
}

/// Once a key is held down, `FX0A` puts the lowest such key into VX and
/// the program counter moves on by two; nothing else changes.
pub proof fn law_wait_for_key_ends(machine: Machine, x: int, key: int, random: u8)
    requires
        machine.wf(),
        0 <= x < 16,
        machine.can_fetch(),
        machine.word_at_pc() == 0xF00A + 0x100 * x,
        is_lowest_pressed(machine.keypad, key),
    ensures
        machine.step(random) == (
            machine.after_fetch().set_register(x, key as u8),
            Ok::<(), Error>(()),
        ),
        machine.step(random).0.pc == machine.pc + 2,
{
    reveal(Machine::miscellaneous);
    lemma_fields_with_byte(0xF, x, 0x0A);
}

/// A key set with `set_key` while no key was held down is the key that a
/// waiting `FX0A` then stores.
pub proof fn law_wait_for_key_takes_set_key(machine: Machine, x: int, key: int, random: u8)
    requires
        machine.wf(),
        0 <= x < 16,
        0 <= key < KEY_COUNT,
        machine.can_fetch(),
        machine.word_at_pc() == 0xF00A + 0x100 * x,
        no_key_pressed(machine.keypad),
    ensures
        machine.set_key(key, true).step(random).1 is Ok,
        machine.set_key(key, true).step(random).0.registers[x] == key,
        machine.set_key(key, true).step(random).0.pc == machine.pc + 2,
{
    law_wait_for_key_ends(machine.set_key(key, true), x, key, random);
}

/// The digits that `FX33` stores are decimal digits, and they make up the value.
pub proof fn law_decimal_digits(value: u8)
    ensures
        decimal_digits(value).len() == 3,
        forall|i: int| 0 <= i < 3 ==> decimal_digits(value)[i] <= 9,
        100 * decimal_digits(value)[0] + 10 * decimal_digits(value)[1] + decimal_digits(value)[2]
            == value,
{
}

/// Only `CXNN` reads the random byte: a cycle on any other instruction ends
/// the same whatever the byte is.
pub proof fn law_random_byte_matters_to_cxnn_only(machine: Machine, first: u8, second: u8)
    requires
        !machine.draws_random(),
    ensures
        machine.step(first) == machine.step(second),
{
}

/// Where sprites are clipped, a sprite reaches no cell to the left of or
/// above its corner: what would pass the right or the lower edge of the
/// display is not drawn on the other side.
pub proof fn law_clipped_sprite_does_not_wrap(
    machine: Machine,
    left: int,
    top: int,
    n: int,
    cell: int,
)
    requires
        !machine.quirks.wrap_sprites,
        0 <= cell < DISPLAY_SIZE,
        machine.sprite_covers(left, top, n, cell),
    ensures
        left <= cell % 64 < left + 8,
        top <= cell / 64 < top + n,
{
}

/// Drawing a sprite twice in the same place leaves the display as it was,
/// and the second drawing sets VF exactly if the sprite has a set bit on a
/// cell that was off before the first. Neither coordinate may come from VF,
/// which the first drawing changes.
pub proof fn law_draw_twice_restores_display(machine: Machine, word: u16, random: u8)
    requires
        machine.wf(),
        op_class(word) == 0xD,
        field_x(word) != 15,
        field_y(word) != 15,
        machine.execute(word, random) is Ok,
    ensures
        ({
            let once = machine.execute(word, random)->Ok_0;
            let left = machine.sprite_left(field_x(word));
            let top = machine.sprite_top(field_y(word));
            &&& once.execute(word, random) matches Ok(twice)
            &&& twice.display == machine.display
            &&& twice.registers[15] == 1 <==> exists|cell: int|
                0 <= cell < DISPLAY_SIZE && !machine.display[cell] && #[trigger] machine.sprite_covers(
                    left,
                    top,
                    field_n(word),
                    cell,
                )
        }),
{
    reveal(Machine::draw_sprite);
    lemma_field_ranges(word);
    assert(word != 0x00E0 && word != 0x00EE) by {
        reveal(op_class);
    }
    let n = field_n(word);
    let left = machine.sprite_left(field_x(word));
    let top = machine.sprite_top(field_y(word));
    let once = machine.execute(word, random)->Ok_0;
    assert forall|cell: int| 0 <= cell < DISPLAY_SIZE implies once.sprite_covers(left, top, n, cell)
        == machine.sprite_covers(left, top, n, cell) by {}
}

/// Ticks of the timers add up: one tick at once is one tick, none is none,
/// and ticks taken in two lots leave the timers where all of them taken at
/// once do.
pub proof fn law_timer_ticks_add_up(machine: Machine, first: nat, second: nat)
    ensures
        machine.tick_timers_by(1) == machine.tick_timers(),
        machine.tick_timers_by(0) == machine,
        machine.tick_timers_by(first).tick_timers_by(second) == machine.tick_timers_by(
            first + second,
        ),
{
}

/// The ticks of the timers do not depend on how a span of time is cut
/// into calls of the clock: two calls give together the ticks of one call
/// for the whole span, and leave the same time pending. The time must not
/// pass what the clock can hold.
pub proof fn law_ticks_do_not_depend_on_the_cut(pending: u64, first: u64, second: u64)
    requires
        pending + first + second <= u64::MAX,
    ensures
        ({
            let whole = accumulated(pending, (first + second) as u64);
            let early = accumulated(pending, first);
            let late = accumulated((early % TIMER_PERIOD_NANOS) as u64, second);
            &&& early / TIMER_PERIOD_NANOS + late / TIMER_PERIOD_NANOS == whole / TIMER_PERIOD_NANOS
            &&& late % TIMER_PERIOD_NANOS == whole % TIMER_PERIOD_NANOS
        }),
{
    let period = TIMER_PERIOD_NANOS as int;
    let early = pending + first;
    lemma_fundamental_div_mod(early, period);
    lemma_fundamental_div_mod(early % period + second, period);
    lemma_fundamental_div_mod_converse(
        early + second,
        period,
        early / period + (early % period + second) / period,
        (early % period + second) % period,
    );
}

} // verus!
