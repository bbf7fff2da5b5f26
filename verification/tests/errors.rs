use chip8::{Chip8, Error, Quirks};

fn loaded(program: &[u8]) -> Chip8 {
    let mut chip = Chip8::new(700);
    chip.load_rom(program).unwrap();
    chip
}

#[test]
fn return_with_an_empty_stack_underflows() {
    let mut chip = loaded(&[0x00, 0xEE]);
    assert_eq!(chip.step(0), Err(Error::StackUnderflow));
    assert_eq!(chip.program_counter(), 0x202);
    assert!(chip.call_stack().is_empty());
}

#[test]
fn call_at_the_stack_limit_overflows() {
    let quirks = Quirks { stack_limit: Some(2), ..Quirks::standard() };
    let mut chip = Chip8::with_quirks(700, quirks);
    // 0x200: call 0x200
    chip.load_rom(&[0x22, 0x00]).unwrap();
    assert_eq!(chip.step(0), Ok(()));
    assert_eq!(chip.step(0), Ok(()));
    assert_eq!(chip.step(0), Err(Error::StackOverflow));
    assert_eq!(chip.call_stack(), &[0x202, 0x202]);
    assert_eq!(chip.program_counter(), 0x202);
}

#[test]
fn a_stack_limit_of_zero_refuses_every_call() {
    let quirks = Quirks { stack_limit: Some(0), ..Quirks::standard() };
    let mut chip = Chip8::with_quirks(700, quirks);
    chip.load_rom(&[0x23, 0x00]).unwrap();
    assert_eq!(chip.step(0), Err(Error::StackOverflow));
    assert!(chip.call_stack().is_empty());
}

#[test]
fn unknown_words_are_unimplemented() {
    for word in [
        0x0000u16, 0x00E1, 0x00FF, 0x0123, 0x01E0, 0x5121, 0x512F, 0x9121, 0x8128, 0x812D, 0x812F,
        0xE19F, 0xE1A0, 0xE100, 0xF100, 0xF108, 0xF130, 0xF156, 0xF1FF,
    ] {
        let mut chip = loaded(&[(word >> 8) as u8, word as u8]);
        assert_eq!(chip.step(0), Err(Error::UnimplementedOpcode(word)), "{:#06x}", word);
        assert_eq!(chip.program_counter(), 0x202);
        assert_eq!(chip.registers(), [0u8; 16]);
    }
}

#[test]
fn execute_reports_an_unknown_word_and_changes_nothing() {
    let mut chip = Chip8::new(700);
    assert_eq!(chip.execute(0xFFFF, 0), Err(Error::UnimplementedOpcode(0xFFFF)));
    assert_eq!(chip.program_counter(), 0x200);
    assert_eq!(chip.registers(), [0u8; 16]);
}

#[test]
fn every_word_of_a_known_pattern_is_accepted_or_fails_otherwise() {
    // No word of a pattern of the instruction table is reported as unimplemented.
    let known = |word: u16| -> bool {
        let class = word >> 12;
        let n = word & 0xF;
        let nn = word & 0xFF;
        match class {
            0x0 => word == 0x00E0 || word == 0x00EE,
            0x5 | 0x9 => n == 0,
            0x8 => n <= 7 || n == 0xE,
            0xE => nn == 0x9E || nn == 0xA1,
            0xF => [0x07, 0x0A, 0x15, 0x18, 0x1E, 0x29, 0x33, 0x55, 0x65].contains(&nn),
            _ => true,
        }
    };
    for word in 0..=0xFFFFu16 {
        let mut chip = Chip8::new(700);
        let result = chip.execute(word, 0);
        assert_eq!(result == Err(Error::UnimplementedOpcode(word)), !known(word), "{:#06x}", word);
    }
}

#[test]
fn fetch_past_the_end_of_memory_fails_and_changes_nothing() {
    // jump to 0xFFF: the second byte of the next word lies outside memory
    let mut chip = loaded(&[0x1F, 0xFF]);
    assert_eq!(chip.step(0), Ok(()));
    assert_eq!(chip.program_counter(), 0xFFF);
    assert_eq!(chip.step(0), Err(Error::MemoryOutOfBounds));
    assert_eq!(chip.program_counter(), 0xFFF);
    assert_eq!(chip.fetch(), Err(Error::MemoryOutOfBounds));
    assert_eq!(chip.program_counter(), 0xFFF);
}

#[test]
fn fetch_of_the_last_word_of_memory_succeeds() {
    let mut chip = loaded(&[0x1F, 0xFE]);
    chip.load(&[0x61, 0x07], 0xFFE).unwrap();
    assert_eq!(chip.step(0), Ok(()));
    assert_eq!(chip.step(0), Ok(()));
    assert_eq!(chip.registers()[1], 7);
    assert_eq!(chip.program_counter(), 0x1000);
    assert_eq!(chip.step(0), Err(Error::MemoryOutOfBounds));
    assert_eq!(chip.program_counter(), 0x1000);
}

#[test]
fn jump_with_offset_past_memory_fails_at_the_next_fetch() {
    // V0 := 0xFF, jump to 0xFFF + V0
    let mut chip = loaded(&[0x60, 0xFF, 0xBF, 0xFF]);
    chip.step(0).unwrap();
    assert_eq!(chip.step(0), Ok(()));
    assert_eq!(chip.step(0), Err(Error::MemoryOutOfBounds));
    assert_eq!(chip.program_counter(), 0x10FE);
}

#[test]
fn add_to_index_past_memory_fails() {
    // I := 0xF01, V1 := 0xFF, I += V1
    let mut chip = loaded(&[0xAF, 0x01, 0x61, 0xFF, 0xF1, 0x1E]);
    chip.step(0).unwrap();
    chip.step(0).unwrap();
    assert_eq!(chip.step(0), Err(Error::MemoryOutOfBounds));
    assert_eq!(chip.index_register(), 0xF01);
    assert_eq!(chip.program_counter(), 0x206);
}

#[test]
fn decimal_digits_past_memory_fail_and_write_nothing() {
    // V3 := 234, I := 0xFFE, store the digits of V3
    let mut chip = loaded(&[0x63, 234, 0xAF, 0xFE, 0xF3, 0x33]);
    chip.step(0).unwrap();
    chip.step(0).unwrap();
    assert_eq!(chip.step(0), Err(Error::MemoryOutOfBounds));
    assert_eq!(chip.memory()[0xFFE], 0);
    assert_eq!(chip.memory()[0xFFF], 0);
}

#[test]
fn store_registers_past_memory_fails_and_writes_nothing() {
    // V0 := 1, V1 := 2, I := 0xFFF, store V0..V1
    let mut chip = loaded(&[0x60, 1, 0x61, 2, 0xAF, 0xFF, 0xF1, 0x55]);
    for _ in 0..3 {
        chip.step(0).unwrap();
    }
    assert_eq!(chip.step(0), Err(Error::MemoryOutOfBounds));
    assert_eq!(chip.memory()[0xFFF], 0);
}

#[test]
fn load_registers_past_memory_fails_and_reads_nothing() {
    let mut chip = loaded(&[0x60, 1, 0x61, 2, 0xAF, 0xFF, 0xF1, 0x65]);
    chip.load(&[9], 0xFFF).unwrap();
    for _ in 0..3 {
        chip.step(0).unwrap();
    }
    assert_eq!(chip.step(0), Err(Error::MemoryOutOfBounds));
    assert_eq!(&chip.registers()[0..2], &[1, 2]);
}

#[test]
fn draw_past_memory_fails_and_draws_nothing() {
    // VF := 1, I := 0xFFF, draw 2 rows at (V0, V0)
    let mut chip = loaded(&[0x6F, 1, 0xAF, 0xFF, 0xD0, 0x02]);
    chip.load(&[0xFF], 0xFFF).unwrap();
    chip.step(0).unwrap();
    chip.step(0).unwrap();
    assert_eq!(chip.step(0), Err(Error::MemoryOutOfBounds));
    assert!(chip.get_display().iter().all(|cell| !cell));
    assert_eq!(chip.registers()[15], 1);
    assert_eq!(chip.program_counter(), 0x206);
}

#[test]
fn key_skip_with_no_such_key_fails() {
    for low in [0x9Eu8, 0xA1] {
        // V1 := 16, skip on key V1
        let mut chip = loaded(&[0x61, 16, 0xE1, low]);
        chip.step(0).unwrap();
        assert_eq!(chip.step(0), Err(Error::InvalidKeyIndex));
        assert_eq!(chip.program_counter(), 0x204);
    }
}

#[test]
fn a_failed_instruction_can_be_skipped() {
    // an unknown word, then V1 := 5
    let mut chip = loaded(&[0xF1, 0xFF, 0x61, 0x05]);
    assert_eq!(chip.step(0), Err(Error::UnimplementedOpcode(0xF1FF)));
    assert_eq!(chip.step(0), Ok(()));
    assert_eq!(chip.registers()[1], 5);
}
