//! Drawing sprites onto the display.

use vstd::prelude::*;
use crate::error::Error;
use crate::machine::Chip8;
use crate::model::{agrees, Machine, DISPLAY_HEIGHT, DISPLAY_SIZE, DISPLAY_WIDTH, MEMORY_SIZE};

verus! {

/// The number of columns of a sprite: the bits of one byte.
pub const SPRITE_WIDTH: usize = 8;

/// Whether bit `column` of a sprite row is set; column 0 is the most
/// significant bit of `row`.
pub open spec fn sprite_bit(row: u8, column: int) -> bool {
    row & (0x80u8 >> (column as u8)) != 0
}

/// How far the display coordinate `at` lies behind `origin` on an axis of
/// `size` cells: counted round the axis where sprites wrap.
pub open spec fn sprite_offset(wrap: bool, origin: int, at: int, size: int) -> int {
    if wrap {
        (at - origin) % size
    } else {
        at - origin
    }
}

impl Machine {
    /// The column of the display at which the sprite of `DXYN` begins.
    pub open spec fn sprite_left(self, x: int) -> int {
        self.registers[x] as int % DISPLAY_WIDTH as int
    }

    /// The row of the display at which the sprite of `DXYN` begins.
    pub open spec fn sprite_top(self, y: int) -> int {
        self.registers[y] as int % DISPLAY_HEIGHT as int
    }

    /// How many of the `n` rows of a sprite that begins at row `top` are
    /// drawn, and so read from memory: all of them where sprites wrap, and
    /// otherwise those that lie on the display.
    pub open spec fn sprite_rows(self, top: int, n: int) -> int {
        if self.quirks.wrap_sprites || top + n <= DISPLAY_HEIGHT {
            n
        } else {
            DISPLAY_HEIGHT - top
        }
    }

    /// Whether the sprite of `n` rows at the index register, drawn with its
    /// corner at column `left` of row `top`, has a set bit on cell `cell`.
    pub open spec fn sprite_covers(self, left: int, top: int, n: int, cell: int) -> bool {
        let wrap = self.quirks.wrap_sprites;
        let column = sprite_offset(wrap, left, cell % DISPLAY_WIDTH as int, DISPLAY_WIDTH as int);
        let row = sprite_offset(wrap, top, cell / DISPLAY_WIDTH as int, DISPLAY_HEIGHT as int);
        &&& 0 <= column < SPRITE_WIDTH
        &&& 0 <= row < n
        &&& sprite_bit(self.memory[self.index + row], column)
    }

    /// Whether the sprite has a set bit on a cell that is on.
    pub open spec fn sprite_collides(self, left: int, top: int, n: int) -> bool {
        exists|cell: int|
            0 <= cell < DISPLAY_SIZE && self.display[cell] && #[trigger] self.sprite_covers(
                left,
                top,
                n,
                cell,
            )
    }

    /// `DXYN`: the sprite of `n` rows at the index register is drawn with
    /// its corner at column `VX mod 64` of row `VY mod 32`. Every cell under
    /// a set bit of the sprite changes; VF tells whether one of them was on.
    /// It fails where a row that is drawn lies outside memory.
    #[verifier::opaque]
    pub open spec fn draw_sprite(self, x: int, y: int, n: int) -> Result<Machine, Error> {
        let left = self.sprite_left(x);
        let top = self.sprite_top(y);
        if self.index + self.sprite_rows(top, n) > MEMORY_SIZE {
            Err(Error::MemoryOutOfBounds)
        } else {
            Ok(
                Machine {
                    display: Seq::new(
                        DISPLAY_SIZE as nat,
                        |cell: int| self.display[cell] != self.sprite_covers(left, top, n, cell),
                    ),
                    ..self
                }.set_flag(self.sprite_collides(left, top, n)),
            )
        }
    }
}

/// Whether a sprite row `bits`, drawn on row `target_row` of the display from
/// column `left` on, has one of its first `width` bits set on cell `cell`.
spec fn row_covers(
    wrap: bool,
    bits: u8,
    width: int,
    left: int,
    target_row: int,
    cell: int,
) -> bool {
    let column = sprite_offset(wrap, left, cell % DISPLAY_WIDTH as int, DISPLAY_WIDTH as int);
    &&& cell / DISPLAY_WIDTH as int == target_row
    &&& 0 <= column < width
    &&& sprite_bit(bits, column)
}

/// The cell of row `target_row` on which bit `column` of a sprite row that
/// begins at column `left` falls, if it falls on the display at all.
spec fn target_cell(wrap: bool, left: int, column: int, target_row: int) -> Option<int> {
    if left + column < DISPLAY_WIDTH {
        Some(left + column + DISPLAY_WIDTH * target_row)
    } else if wrap {
        Some(left + column - DISPLAY_WIDTH + DISPLAY_WIDTH * target_row)
    } else {
        None
    }
}

/// A cell lies in row `target_row` at offset `column` from `left` exactly
/// when it is the target cell of that bit.
proof fn lemma_target_cell(wrap: bool, left: int, column: int, target_row: int, cell: int)
    requires
        0 <= left < DISPLAY_WIDTH,
        0 <= column < SPRITE_WIDTH,
        0 <= target_row < DISPLAY_HEIGHT,
        0 <= cell < DISPLAY_SIZE,
    ensures
        (cell / DISPLAY_WIDTH as int == target_row && sprite_offset(
            wrap,
            left,
            cell % DISPLAY_WIDTH as int,
            DISPLAY_WIDTH as int,
        ) == column) <==> target_cell(wrap, left, column, target_row) == Some(cell),
{
}

/// One more bit of a sprite row covers the target cell of that bit, if the
/// bit is set and the cell exists, and no other cell.
proof fn lemma_row_covers_next(
    wrap: bool,
    bits: u8,
    column: int,
    left: int,
    target_row: int,
    cell: int,
)
    requires
        0 <= left < DISPLAY_WIDTH,
        0 <= column < SPRITE_WIDTH,
        0 <= target_row < DISPLAY_HEIGHT,
        0 <= cell < DISPLAY_SIZE,
    ensures
        row_covers(wrap, bits, column + 1, left, target_row, cell) <==> (row_covers(
            wrap,
            bits,
            column,
            left,
            target_row,
            cell,
        ) || (sprite_bit(bits, column) && target_cell(wrap, left, column, target_row) == Some(
            cell,
        ))),
        !(row_covers(wrap, bits, column, left, target_row, cell) && target_cell(
            wrap,
            left,
            column,
            target_row,
        ) == Some(cell)),
{
    lemma_target_cell(wrap, left, column, target_row, cell);
}

/// One more row of a sprite covers what that row covers on its row of the
/// display, and none of the cells that the rows before it cover.
proof fn lemma_sprite_covers_next(machine: Machine, left: int, top: int, row: int, cell: int)
    requires
        0 <= left < DISPLAY_WIDTH,
        0 <= top < DISPLAY_HEIGHT,
        0 <= row < 16,
        machine.quirks.wrap_sprites || top + row < DISPLAY_HEIGHT,
        0 <= cell < DISPLAY_SIZE,
    ensures
        ({
            let target_row = if top + row >= DISPLAY_HEIGHT {
                top + row - DISPLAY_HEIGHT
            } else {
                top + row
            };
            let in_row = row_covers(
                machine.quirks.wrap_sprites,
                machine.memory[machine.index + row],
                SPRITE_WIDTH as int,
                left,
                target_row,
                cell,
            );
            &&& machine.sprite_covers(left, top, row + 1, cell) <==> machine.sprite_covers(
                left,
                top,
                row,
                cell,
            ) || in_row
            &&& !(machine.sprite_covers(left, top, row, cell) && in_row)
        }),
{
}

impl Chip8 {
    /// Draws the sprite row `bits` on row `target_row` of the display from
    /// column `left` on, and tells whether it turned a cell off.
    fn draw_row(&mut self, bits: u8, left: usize, target_row: usize) -> (collision: bool)
        requires
            left < DISPLAY_WIDTH,
            target_row < DISPLAY_HEIGHT,
        ensures
            final(self)@ == (Machine { display: final(self)@.display, ..old(self)@ }),
            final(self)@.display.len() == DISPLAY_SIZE,
            forall|cell: int|
                0 <= cell < DISPLAY_SIZE ==> final(self)@.display[cell] == (old(self)@.display[cell]
                    != row_covers(
                    old(self)@.quirks.wrap_sprites,
                    bits,
                    SPRITE_WIDTH as int,
                    left as int,
                    target_row as int,
                    cell,
                )),
            collision == exists|cell: int|
                0 <= cell < DISPLAY_SIZE && old(self)@.display[cell] && #[trigger] row_covers(
                    old(self)@.quirks.wrap_sprites,
                    bits,
                    SPRITE_WIDTH as int,
                    left as int,
                    target_row as int,
                    cell,
                ),
    {
        let wrap = self.quirks.wrap_sprites;
        let mut collision = false;
        let mut column: u8 = 0;
        while column < 8
            invariant
                column <= 8,
                left < DISPLAY_WIDTH,
                target_row < DISPLAY_HEIGHT,
                wrap == old(self)@.quirks.wrap_sprites,
                self@ == (Machine { display: self@.display, ..old(self)@ }),
                forall|cell: int|
                    0 <= cell < DISPLAY_SIZE ==> self@.display[cell] == (old(self)@.display[cell]
                        != row_covers(wrap, bits, column as int, left as int, target_row as int, cell)),
                collision == exists|cell: int|
                    0 <= cell < DISPLAY_SIZE && old(self)@.display[cell] && #[trigger] row_covers(
                        wrap,
                        bits,
                        column as int,
                        left as int,
                        target_row as int,
                        cell,
                    ),
            decreases 8 - column,
        {
            let reach = left + column as usize;
            let set = bits & (0x80u8 >> column) != 0;
            let ghost target = target_cell(wrap, left as int, column as int, target_row as int);
            proof {
                assert forall|other: int| 0 <= other < DISPLAY_SIZE implies (row_covers(
                    wrap,
                    bits,
                    column + 1,
                    left as int,
                    target_row as int,
                    other,
                ) <==> (#[trigger] row_covers(
                    wrap,
                    bits,
                    column as int,
                    left as int,
                    target_row as int,
                    other,
                ) || (set && target == Some(other)))) && !(row_covers(
                    wrap,
                    bits,
                    column as int,
                    left as int,
                    target_row as int,
                    other,
                ) && target == Some(other)) by {
                    lemma_row_covers_next(
                        wrap,
                        bits,
                        column as int,
                        left as int,
                        target_row as int,
                        other,
                    );
                }
            }
            if set && (wrap || reach < DISPLAY_WIDTH) {
                let target_column = if reach >= DISPLAY_WIDTH {
                    reach - DISPLAY_WIDTH
                } else {
                    reach
                };
                let cell = target_column + DISPLAY_WIDTH * target_row;
                if self.display[cell] {
                    collision = true;
                }
                self.display[cell] = !self.display[cell];
            }
            column += 1;
        }
        collision
    }

    /// `DXYN`: draws the sprite of `n` rows at the index register with its
    /// corner at column `VX mod 64` of row `VY mod 32`, and sets VF to
    /// whether a cell was turned off.
    pub(crate) fn draw_sprite(&mut self, x: usize, y: usize, n: u8) -> (r: Result<(), Error>)
        requires
            x < 16,
            y < 16,
            n < 16,
        ensures
            agrees(old(self)@.draw_sprite(x as int, y as int, n as int), old(self)@, final(self)@, r),
    {
        reveal(Machine::draw_sprite);
        let left = (self.registers[x] % 64) as usize;
        let top = (self.registers[y] % 32) as usize;
        let wrap = self.quirks.wrap_sprites;
        let rows = if wrap || top + n as usize <= DISPLAY_HEIGHT {
            n as usize
        } else {
            DISPLAY_HEIGHT - top
        };
        let base = self.index_register as usize;
        if base + rows > MEMORY_SIZE {
            return Err(Error::MemoryOutOfBounds);
        }
        let mut collision = false;
        let mut row: usize = 0;
        while row < rows
            invariant
                row <= rows <= n < 16,
                left < DISPLAY_WIDTH,
                top < DISPLAY_HEIGHT,
                wrap || top + rows <= DISPLAY_HEIGHT,
                base + rows <= MEMORY_SIZE,
                base == old(self)@.index,
                wrap == old(self)@.quirks.wrap_sprites,
                self@ == (Machine { display: self@.display, ..old(self)@ }),
                forall|cell: int|
                    0 <= cell < DISPLAY_SIZE ==> self@.display[cell] == (old(self)@.display[cell]
                        != old(self)@.sprite_covers(left as int, top as int, row as int, cell)),
                collision == old(self)@.sprite_collides(left as int, top as int, row as int),
            decreases rows - row,
        {
            let bits = self.memory[base + row];
            let target_row = if top + row >= DISPLAY_HEIGHT {
                top + row - DISPLAY_HEIGHT
            } else {
                top + row
            };
            let hit = self.draw_row(bits, left, target_row);
            proof {
                let m = old(self)@;
                assert forall|cell: int| 0 <= cell < DISPLAY_SIZE implies (m.sprite_covers(
                    left as int,
                    top as int,
                    row + 1,
                    cell,
                ) <==> (#[trigger] m.sprite_covers(left as int, top as int, row as int, cell)
                    != row_covers(
                    wrap,
                    bits,
                    SPRITE_WIDTH as int,
                    left as int,
                    target_row as int,
                    cell,
                ))) by {
                    lemma_sprite_covers_next(m, left as int, top as int, row as int, cell);
                }
            }
            if hit {
                collision = true;
            }
            row += 1;
        }
        proof {
            let m = old(self)@;
            assert forall|cell: int| 0 <= cell < DISPLAY_SIZE implies m.sprite_covers(
                left as int,
                top as int,
                rows as int,
                cell,
            ) == m.sprite_covers(left as int, top as int, n as int, cell) by {}
            assert(m.sprite_collides(left as int, top as int, rows as int) == m.sprite_collides(
                left as int,
                top as int,
                n as int,
            ));
            assert(self@.display =~= m.draw_sprite(x as int, y as int, n as int)->Ok_0.display);
        }
        self.set_flag(collision);
        Ok(())
    }
}

} // verus!
