use chip8::{Chip8, Graphics, Instruction, VmError};

struct NullGraphics;

impl Graphics for NullGraphics {
    fn clear_pixel(&mut self, _x: usize, _y: usize) {}

    fn draw_pixel(&mut self, _x: usize, _y: usize) {}
}

fn exec(m: &mut Chip8, inst: Instruction) {
    let mut g = NullGraphics;
    m.execute_instruction(inst, &mut g).unwrap();
}

fn exec_err(m: &mut Chip8, inst: Instruction) -> VmError {
    let mut g = NullGraphics;
    m.execute_instruction(inst, &mut g).unwrap_err()
}

#[test]
fn a_fresh_machine_starts_at_the_program_offset_with_the_font_loaded() {
    let m = Chip8::new(700);
    assert_eq!(m.program_counter(), 512);
    assert_eq!(m.index_register(), 0);
    assert_eq!(m.stack_depth(), 0);
    assert_eq!(m.delay_timer_value(), 0);
    assert_eq!(m.sound_timer_value(), 0);
    assert!(!m.is_beeping());
    assert!(!m.is_waiting_for_key());
    for x in 0..16 {
        assert_eq!(m.register(x), 0);
    }
    // glyph 0 starts with 0xF0, glyph F ends with 0x80
    assert_eq!(m.ram_byte(0x50), 0xF0);
    assert_eq!(m.ram_byte(0x50 + 79), 0x80);
    // outside the font everything is zero
    assert_eq!(m.ram_byte(0x4F), 0);
    assert_eq!(m.ram_byte(0xA0), 0);
    assert_eq!(m.ram_byte(512), 0);
    assert_eq!(m.ram_byte(4095), 0);
}

#[test]
fn a_rom_is_copied_to_the_program_offset() {
    let mut m = Chip8::new(700);
    m.store_in_ram(&[0x12, 0x34, 0x56]).unwrap();
    assert_eq!(m.ram_byte(512), 0x12);
    assert_eq!(m.ram_byte(513), 0x34);
    assert_eq!(m.ram_byte(514), 0x56);
    assert_eq!(m.ram_byte(515), 0x00);
}

#[test]
fn the_largest_rom_fits_exactly() {
    let mut m = Chip8::new(700);
    let rom = vec![0xABu8; 4096 - 512];
    m.store_in_ram(&rom).unwrap();
    assert_eq!(m.ram_byte(512), 0xAB);
    assert_eq!(m.ram_byte(4095), 0xAB);
}

#[test]
fn an_oversized_rom_is_rejected_whole() {
    let mut m = Chip8::new(700);
    let rom = vec![0xABu8; 4096 - 512 + 1];
    assert_eq!(m.store_in_ram(&rom), Err(VmError::RomTooLarge));
    // nothing was partially loaded
    assert_eq!(m.ram_byte(512), 0x00);
    assert_eq!(m.ram_byte(4095), 0x00);
}

#[test]
fn bcd_writes_the_decimal_digits_at_the_index() {
    let mut m = Chip8::new(700);
    exec(&mut m, Instruction::SetVRegister6XNN(3, 157));
    exec(&mut m, Instruction::SetIndexRegisterANNN(0x300));
    exec(&mut m, Instruction::BinaryCodedDecimalConversionFX33(3));
    assert_eq!(m.ram_byte(0x300), 1);
    assert_eq!(m.ram_byte(0x301), 5);
    assert_eq!(m.ram_byte(0x302), 7);
    assert_eq!(m.index_register(), 0x300);
}

#[test]
fn bcd_outside_memory_is_a_fatal_error() {
    let mut m = Chip8::new(700);
    exec(&mut m, Instruction::SetIndexRegisterANNN(0xFFE));
    assert_eq!(
        exec_err(&mut m, Instruction::BinaryCodedDecimalConversionFX33(0)),
        VmError::OutOfRangeMemory
    );
    // the last position that still fits works
    exec(&mut m, Instruction::SetIndexRegisterANNN(0xFFD));
    exec(&mut m, Instruction::BinaryCodedDecimalConversionFX33(0));
    assert_eq!(m.ram_byte(0xFFD), 0);
}

#[test]
fn font_lookup_scales_by_glyph_size() {
    let mut m = Chip8::new(700);
    exec(&mut m, Instruction::SetVRegister6XNN(0, 0xA));
    exec(&mut m, Instruction::FontCharacterFX29(0));
    assert_eq!(m.index_register(), 0x50 + 10 * 5);
    // the glyph for 0 sits at the font base itself
    exec(&mut m, Instruction::SetVRegister6XNN(0, 0));
    exec(&mut m, Instruction::FontCharacterFX29(0));
    assert_eq!(m.index_register(), 0x50);
}

#[test]
fn add_to_index_flags_a_twelve_bit_overflow() {
    let mut m = Chip8::new(700);
    exec(&mut m, Instruction::SetIndexRegisterANNN(0xFFF));
    exec(&mut m, Instruction::SetVRegister6XNN(0, 1));
    exec(&mut m, Instruction::AddToIndexFX1E(0));
    assert_eq!(m.index_register(), 0x1000);
    assert_eq!(m.register(15), 1);
}

#[test]
fn add_to_index_without_overflow_leaves_vf_alone() {
    let mut m = Chip8::new(700);
    exec(&mut m, Instruction::SetIndexRegisterANNN(0x100));
    exec(&mut m, Instruction::SetVRegister6XNN(0, 5));
    exec(&mut m, Instruction::AddToIndexFX1E(0));
    assert_eq!(m.index_register(), 0x105);
    assert_eq!(m.register(15), 0);
}

#[test]
fn register_blocks_store_and_load_inclusively() {
    let mut m = Chip8::new(700);
    exec(&mut m, Instruction::SetVRegister6XNN(0, 0x11));
    exec(&mut m, Instruction::SetVRegister6XNN(1, 0x22));
    exec(&mut m, Instruction::SetVRegister6XNN(2, 0x33));
    exec(&mut m, Instruction::SetIndexRegisterANNN(0x400));
    exec(&mut m, Instruction::StoreRegistersToMemoryFX55(2));
    assert_eq!(m.ram_byte(0x400), 0x11);
    assert_eq!(m.ram_byte(0x401), 0x22);
    assert_eq!(m.ram_byte(0x402), 0x33);
    assert_eq!(m.ram_byte(0x403), 0x00);
    assert_eq!(m.index_register(), 0x400);

    exec(&mut m, Instruction::SetVRegister6XNN(0, 0));
    exec(&mut m, Instruction::SetVRegister6XNN(1, 0));
    exec(&mut m, Instruction::SetVRegister6XNN(2, 0));
    exec(&mut m, Instruction::SetVRegister6XNN(3, 0x99));
    exec(&mut m, Instruction::LoadRegistersFromMemoryFX65(2));
    assert_eq!(m.register(0), 0x11);
    assert_eq!(m.register(1), 0x22);
    assert_eq!(m.register(2), 0x33);
    assert_eq!(m.register(3), 0x99);
    assert_eq!(m.index_register(), 0x400);
}

#[test]
fn register_blocks_outside_memory_are_fatal() {
    let mut m = Chip8::new(700);
    exec(&mut m, Instruction::SetIndexRegisterANNN(0xFFF));
    assert_eq!(
        exec_err(&mut m, Instruction::StoreRegistersToMemoryFX55(1)),
        VmError::OutOfRangeMemory
    );
    assert_eq!(
        exec_err(&mut m, Instruction::LoadRegistersFromMemoryFX65(1)),
        VmError::OutOfRangeMemory
    );
    // a single register still fits at the last byte
    exec(&mut m, Instruction::StoreRegistersToMemoryFX55(0));
    assert_eq!(m.ram_byte(0xFFF), 0);
}

#[test]
fn timers_are_set_and_read_through_registers() {
    let mut m = Chip8::new(700);
    exec(&mut m, Instruction::SetVRegister6XNN(2, 42));
    exec(&mut m, Instruction::SetDelayTimerFX15(2));
    assert_eq!(m.delay_timer_value(), 42);
    exec(&mut m, Instruction::ReadDelayTimerFX07(5));
    assert_eq!(m.register(5), 42);
    exec(&mut m, Instruction::SetSoundTimerFX18(2));
    assert_eq!(m.sound_timer_value(), 42);
}

#[test]
fn check_coordinates_accepts_the_screen_and_nothing_else() {
    assert!(chip8::check_coordinates(0, 0).is_ok());
    assert!(chip8::check_coordinates(63, 31).is_ok());
    assert_eq!(chip8::check_coordinates(64, 0), Err(VmError::OutOfRangeMemory));
    assert_eq!(chip8::check_coordinates(0, 32), Err(VmError::OutOfRangeMemory));
}

#[test]
fn pixel_queries_outside_the_screen_fail() {
    let m = Chip8::new(700);
    assert_eq!(m.is_pixel_on(0, 0), Ok(false));
    assert_eq!(m.is_pixel_on(64, 0), Err(VmError::OutOfRangeMemory));
    assert_eq!(m.is_pixel_on(0, 32), Err(VmError::OutOfRangeMemory));
}
