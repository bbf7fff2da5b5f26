use chip8::{Chip8, Quirks};

fn lit_cells(chip: &Chip8) -> Vec<(usize, usize)> {
    let display = chip.get_display();
    let mut cells = Vec::new();
    for row in 0..32 {
        for col in 0..64 {
            if display[col + 64 * row] {
                cells.push((col, row));
            }
        }
    }
    cells
}

/// A machine with `sprite` at 0x300, I pointing at it, V1 = `x` and V2 = `y`.
fn with_sprite(quirks: Quirks, sprite: &[u8], x: u8, y: u8, rows: u8) -> Chip8 {
    let mut chip = Chip8::with_quirks(700, quirks);
    chip.load_rom(&[0x61, x, 0x62, y, 0xA3, 0x00, 0xD1, 0x20 | rows, 0xD1, 0x20 | rows]).unwrap();
    chip.load(sprite, 0x300).unwrap();
    for _ in 0..3 {
        chip.step(0).unwrap();
    }
    chip
}

#[test]
fn sprite_at_the_right_edge_is_clipped_and_erased_by_a_second_draw() {
    let mut chip = with_sprite(Quirks::standard(), &[0xFF], 60, 0, 1);
    chip.step(0).unwrap();
    assert_eq!(lit_cells(&chip), vec![(60, 0), (61, 0), (62, 0), (63, 0)]);
    assert_eq!(chip.registers()[15], 0);
    chip.step(0).unwrap();
    assert_eq!(lit_cells(&chip), vec![]);
    assert_eq!(chip.registers()[15], 1);
}

#[test]
fn sprite_bits_are_drawn_most_significant_first() {
    let mut chip = with_sprite(Quirks::standard(), &[0b1010_0001], 8, 3, 1);
    chip.step(0).unwrap();
    assert_eq!(lit_cells(&chip), vec![(8, 3), (10, 3), (15, 3)]);
    assert_eq!(chip.registers()[15], 0);
}

#[test]
fn sprite_rows_come_from_consecutive_bytes() {
    let mut chip = with_sprite(Quirks::standard(), &[0x80, 0x40, 0x20], 0, 0, 3);
    chip.step(0).unwrap();
    assert_eq!(lit_cells(&chip), vec![(0, 0), (1, 1), (2, 2)]);
}

#[test]
fn sprite_origin_wraps_into_the_display() {
    // 70 mod 64 = 6 and 35 mod 32 = 3
    let mut chip = with_sprite(Quirks::standard(), &[0xC0], 70, 35, 1);
    chip.step(0).unwrap();
    assert_eq!(lit_cells(&chip), vec![(6, 3), (7, 3)]);
}

#[test]
fn sprite_at_the_bottom_edge_is_clipped() {
    let mut chip = with_sprite(Quirks::standard(), &[0x80, 0x80, 0x80, 0x80], 5, 30, 4);
    chip.step(0).unwrap();
    assert_eq!(lit_cells(&chip), vec![(5, 30), (5, 31)]);
    assert_eq!(chip.registers()[15], 0);
}

#[test]
fn clipped_rows_are_not_read_from_memory() {
    let mut chip = Chip8::new(700);
    // V1 := 0, V2 := 31, I := 0xFFF, draw 15 rows at (V1, V2)
    chip.load_rom(&[0x61, 0, 0x62, 31, 0xAF, 0xFF, 0xD1, 0x2F]).unwrap();
    chip.load(&[0x80], 0xFFF).unwrap();
    for _ in 0..4 {
        chip.step(0).unwrap();
    }
    assert_eq!(lit_cells(&chip), vec![(0, 31)]);
}

#[test]
fn sprite_of_no_rows_draws_nothing_and_clears_the_flag() {
    let mut chip = Chip8::new(700);
    // VF := 1, draw 0 rows
    chip.load_rom(&[0x6F, 1, 0xD1, 0x20]).unwrap();
    chip.step(0).unwrap();
    chip.step(0).unwrap();
    assert_eq!(lit_cells(&chip), vec![]);
    assert_eq!(chip.registers()[15], 0);
}

#[test]
fn overlapping_sprites_collide_only_where_both_are_set() {
    let mut chip = Chip8::new(700);
    // V1 := 0, V2 := 0, I := 0x300, draw 1 row, I := 0x301, draw 1 row
    chip.load_rom(&[0x61, 0, 0x62, 0, 0xA3, 0x00, 0xD1, 0x21, 0xA3, 0x01, 0xD1, 0x21]).unwrap();
    chip.load(&[0b1100_0000, 0b0110_0000], 0x300).unwrap();
    for _ in 0..6 {
        chip.step(0).unwrap();
    }
    assert_eq!(lit_cells(&chip), vec![(0, 0), (2, 0)]);
    assert_eq!(chip.registers()[15], 1);
}

#[test]
fn sprites_side_by_side_do_not_collide() {
    let mut chip = Chip8::new(700);
    // draw 0xF0 at (0, 0), then VF := 1, V1 := 4, draw 0xF0 at (4, 0)
    chip.load_rom(&[0xA3, 0x00, 0xD1, 0x21, 0x6F, 1, 0x61, 4, 0xD1, 0x21]).unwrap();
    chip.load(&[0xF0], 0x300).unwrap();
    for _ in 0..5 {
        chip.step(0).unwrap();
    }
    assert_eq!(lit_cells(&chip).len(), 8);
    assert_eq!(chip.registers()[15], 0);
}

#[test]
fn sprite_coordinates_from_the_flag_register_are_read_before_it_is_reset() {
    let mut chip = Chip8::new(700);
    // VF := 9, I := 0x300, draw 1 row at (VF, VF)
    chip.load_rom(&[0x6F, 9, 0xA3, 0x00, 0xDF, 0xF1]).unwrap();
    chip.load(&[0x80], 0x300).unwrap();
    for _ in 0..3 {
        chip.step(0).unwrap();
    }
    assert_eq!(lit_cells(&chip), vec![(9, 9)]);
    assert_eq!(chip.registers()[15], 0);
}

#[test]
fn clear_display_turns_every_cell_off() {
    let mut chip = with_sprite(Quirks::standard(), &[0xFF, 0xFF], 10, 10, 2);
    chip.step(0).unwrap();
    assert_eq!(lit_cells(&chip).len(), 16);
    chip.load(&[0x00, 0xE0], 0x208).unwrap();
    chip.step(0).unwrap();
    assert!(chip.get_display().iter().all(|cell| !cell));
    assert_eq!(chip.program_counter(), 0x20A);
}

#[test]
fn wrapping_sprites_continue_on_the_other_side() {
    let quirks = Quirks { wrap_sprites: true, ..Quirks::standard() };
    let mut chip = with_sprite(quirks, &[0xFF, 0x81], 60, 31, 2);
    chip.step(0).unwrap();
    assert_eq!(
        lit_cells(&chip),
        vec![
            (3, 0), (60, 0),
            (0, 31), (1, 31), (2, 31), (3, 31), (60, 31), (61, 31), (62, 31), (63, 31),
        ]
    );
    assert_eq!(chip.registers()[15], 0);
    chip.step(0).unwrap();
    assert_eq!(lit_cells(&chip), vec![]);
    assert_eq!(chip.registers()[15], 1);
}

#[test]
fn wrapping_sprites_read_every_row_from_memory() {
    let quirks = Quirks { wrap_sprites: true, ..Quirks::standard() };
    let mut chip = Chip8::with_quirks(700, quirks);
    // V1 := 0, V2 := 31, I := 0xFFF, draw 2 rows at (V1, V2)
    chip.load_rom(&[0x61, 0, 0x62, 31, 0xAF, 0xFF, 0xD1, 0x22]).unwrap();
    for _ in 0..3 {
        chip.step(0).unwrap();
    }
    assert_eq!(chip.step(0), Err(chip8::Error::MemoryOutOfBounds));
}
