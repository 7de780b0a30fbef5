use chip8::{fontset, Chip8, Chip8Error, Instruction, StepOutcome, FONT_BASE};

fn machine_with(program: &[u8]) -> Chip8 {
    let mut chip = Chip8::new();
    assert_eq!(chip.load_rom(program), Ok(()));
    chip
}

#[test]
fn new_machine_holds_the_font_and_nothing_else() {
    let chip = Chip8::new();
    let font = fontset();
    assert_eq!(FONT_BASE, 0x50);
    for (a, byte) in chip.memory.iter().enumerate() {
        let expected = if (0x50..0xA0).contains(&a) { font[a - 0x50] } else { 0 };
        assert_eq!(*byte, expected, "address {:#X}", a);
    }
    assert_eq!(chip.v, [0; 16]);
    assert_eq!((chip.i, chip.pc, chip.sp, chip.dt, chip.st), (0, 0, 0, 0, 0));
    assert_eq!(chip.keyboard, [false; 16]);
    assert_eq!(chip.display, [[false; 64]; 32]);
    assert!(chip.key_wait.is_none());
    assert!(chip.is_wf());
}

#[test]
fn font_has_five_rows_for_each_digit() {
    let font = fontset();
    assert_eq!(font.len(), 80);
    assert_eq!(&font[0..5], &[0xF0, 0x90, 0x90, 0x90, 0xF0]);
    assert_eq!(&font[5..10], &[0x20, 0x60, 0x20, 0x20, 0x70]);
    assert_eq!(&font[75..80], &[0xF0, 0x80, 0xF0, 0x80, 0x80]);
    assert!(font.iter().all(|row| row & 0x0F == 0));
}

#[test]
fn default_is_a_new_machine() {
    let a = Chip8::default();
    let b = Chip8::new();
    assert_eq!(a.memory, b.memory);
    assert_eq!((a.pc, a.sp, a.i), (b.pc, b.sp, b.i));
}

#[test]
fn reset_restores_the_power_on_state() {
    let mut chip = machine_with(&[0x6A, 0x12, 0x22, 0x04, 0xF1, 0x0A]);
    chip.step(0).unwrap();
    chip.step(0).unwrap();
    chip.step(0).unwrap();
    chip.dt = 5;
    chip.display[1][1] = true;
    chip.keyboard[3] = true;
    assert!(chip.key_wait.is_some());
    chip.reset();
    let fresh = Chip8::new();
    assert_eq!(chip.memory, fresh.memory);
    assert_eq!(chip.v, fresh.v);
    assert_eq!(chip.display, fresh.display);
    assert_eq!(chip.keyboard, fresh.keyboard);
    assert_eq!((chip.i, chip.pc, chip.sp, chip.dt, chip.st), (0, 0, 0, 0, 0));
    assert!(chip.key_wait.is_none());
}

#[test]
fn load_copies_the_image_to_the_program_start() {
    let mut chip = Chip8::new();
    chip.v[3] = 9;
    chip.memory[0x1FF] = 0x11;
    chip.memory[0x203] = 0x22;
    assert_eq!(chip.load_rom(&[0xDE, 0xAD, 0xBE]), Ok(()));
    assert_eq!(&chip.memory[0x1FF..0x204], &[0x11, 0xDE, 0xAD, 0xBE, 0x22]);
    assert_eq!(chip.pc, 0x200);
    assert_eq!(chip.v[3], 9);
    assert_eq!(&chip.memory[0x50..0xA0], &fontset()[..]);
}

#[test]
fn load_accepts_an_image_that_just_fits() {
    let mut chip = Chip8::new();
    let image: Vec<u8> = (0..3584u32).map(|k| (k % 251) as u8 + 1).collect();
    assert_eq!(chip.load_rom(&image), Ok(()));
    assert_eq!(&chip.memory[0x200..], &image[..]);
    assert_eq!(chip.pc, 0x200);
}

#[test]
fn load_refuses_an_image_that_is_too_large() {
    let mut chip = Chip8::new();
    chip.pc = 0x123;
    let before = chip.memory;
    let image = vec![0xAAu8; 3585];
    assert_eq!(chip.load_rom(&image), Err(Chip8Error::RomTooLarge));
    assert_eq!(chip.memory, before);
    assert_eq!(chip.pc, 0x123);
}

#[test]
fn load_of_an_empty_image_only_sets_the_program_counter() {
    let mut chip = Chip8::new();
    let before = chip.memory;
    assert_eq!(chip.load_rom(&[]), Ok(()));
    assert_eq!(chip.memory, before);
    assert_eq!(chip.pc, 0x200);
}

#[test]
fn load_index_and_add_index() {
    let mut chip = machine_with(&[0xA1, 0x23, 0xF2, 0x1E]);
    chip.v[2] = 0x10;
    chip.v[15] = 0x33;
    chip.step(0).unwrap();
    assert_eq!(chip.i, 0x123);
    chip.step(0).unwrap();
    assert_eq!(chip.i, 0x133);
    assert_eq!(chip.v[15], 0x33);
}

#[test]
fn add_index_wraps_at_sixteen_bits() {
    let mut chip = machine_with(&[0xF2, 0x1E]);
    chip.i = 0xFFFF;
    chip.v[2] = 0x02;
    chip.v[15] = 0x33;
    chip.step(0).unwrap();
    assert_eq!(chip.i, 0x0001);
    assert_eq!(chip.v[15], 0x33);
}

#[test]
fn font_address_is_base_plus_five_per_digit() {
    for (digit, address) in [(0u8, 0x50u16), (1, 0x55), (0xA, 0x82), (0xF, 0x9B), (0xFF, 0x54B)] {
        let mut chip = machine_with(&[0xF4, 0x29]);
        chip.v[4] = digit;
        chip.step(0).unwrap();
        assert_eq!(chip.i, address);
    }
}

#[test]
fn glyphs_stand_at_their_font_addresses() {
    let font = fontset();
    for digit in 0..16u8 {
        let mut chip = machine_with(&[0xF4, 0x29]);
        chip.v[4] = digit;
        chip.step(0).unwrap();
        let at = chip.i as usize;
        assert_eq!(&chip.memory[at..at + 5], &font[5 * digit as usize..5 * digit as usize + 5]);
    }
}

#[test]
fn store_registers_copies_v0_to_vx_and_advances_i() {
    let mut chip = machine_with(&[0xF3, 0x55]);
    chip.v = [10, 11, 12, 13, 14, 15, 16, 17, 18, 19, 20, 21, 22, 23, 24, 25];
    chip.i = 0x300;
    chip.memory[0x304] = 0x99;
    assert_eq!(chip.step(0), Ok(StepOutcome::Executed(Instruction::StoreRegs { x: 3 })));
    assert_eq!(&chip.memory[0x300..0x305], &[10, 11, 12, 13, 0x99]);
    assert_eq!(chip.i, 0x304);
    assert_eq!(chip.pc, 0x202);
}

#[test]
fn store_registers_uses_the_index_not_the_value() {
    // VX holds 0: X itself, 2, says how many registers are stored.
    let mut chip = machine_with(&[0xF2, 0x55]);
    chip.v[0] = 7;
    chip.v[1] = 8;
    chip.v[2] = 0;
    chip.v[3] = 9;
    chip.i = 0x300;
    chip.memory[0x302] = 0x55;
    chip.memory[0x303] = 0x66;
    chip.step(0).unwrap();
    assert_eq!(&chip.memory[0x300..0x304], &[7, 8, 0, 0x66]);
    assert_eq!(chip.i, 0x303);
}

#[test]
fn load_registers_copies_memory_to_v0_to_vx_and_advances_i() {
    let mut chip = machine_with(&[0xF2, 0x65]);
    chip.v = [0xEE; 16];
    chip.i = 0x300;
    chip.memory[0x300..0x304].copy_from_slice(&[1, 2, 3, 4]);
    assert_eq!(chip.step(0), Ok(StepOutcome::Executed(Instruction::LoadRegs { x: 2 })));
    assert_eq!(&chip.v[0..4], &[1, 2, 3, 0xEE]);
    assert_eq!(chip.i, 0x303);
}

#[test]
fn store_and_load_all_sixteen_registers() {
    let mut chip = machine_with(&[0xFF, 0x55, 0xA3, 0x00, 0xFF, 0x65]);
    chip.v = [1, 2, 3, 4, 5, 6, 7, 8, 9, 10, 11, 12, 13, 14, 15, 16];
    chip.i = 0x300;
    chip.step(0).unwrap();
    assert_eq!(chip.i, 0x310);
    chip.v = [0; 16];
    chip.step(0).unwrap();
    chip.step(0).unwrap();
    assert_eq!(chip.v, [1, 2, 3, 4, 5, 6, 7, 8, 9, 10, 11, 12, 13, 14, 15, 16]);
    assert_eq!(chip.i, 0x310);
}

#[test]
fn register_block_at_the_end_of_memory() {
    let mut chip = machine_with(&[0xF1, 0x55]);
    chip.v[0] = 0xAA;
    chip.v[1] = 0xBB;
    chip.i = 4094;
    chip.step(0).unwrap();
    assert_eq!(&chip.memory[4094..], &[0xAA, 0xBB]);
    assert_eq!(chip.i, 4096);

    for low in [0x55u8, 0x65] {
        let mut chip = machine_with(&[0xF1, low]);
        chip.v[0] = 0xAA;
        chip.v[1] = 0xBB;
        chip.i = 4095;
        let before = chip.memory;
        assert_eq!(chip.step(0), Err(Chip8Error::MemoryOutOfRange));
        assert_eq!(chip.memory, before);
        assert_eq!(chip.v[0], 0xAA);
        assert_eq!(chip.i, 4095);
        assert_eq!(chip.pc, 0x200);
    }
}
