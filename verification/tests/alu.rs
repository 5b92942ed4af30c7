use chip8::{Chip8, Graphics, Instruction};

struct NullGraphics;

impl Graphics for NullGraphics {
    fn clear_pixel(&mut self, _x: usize, _y: usize) {}

    fn draw_pixel(&mut self, _x: usize, _y: usize) {}
}

fn machine() -> Chip8 {
    Chip8::new(700)
}

fn exec(m: &mut Chip8, inst: Instruction) {
    let mut g = NullGraphics;
    m.execute_instruction(inst, &mut g).unwrap();
}

#[test]
fn add_immediate_wraps_and_leaves_vf_alone() {
    let mut m = machine();
    exec(&mut m, Instruction::SetVRegister6XNN(0, 0xFF));
    exec(&mut m, Instruction::Add7XNN(0, 0x02));
    assert_eq!(m.register(0), 0x01);
    assert_eq!(m.register(15), 0);
}

#[test]
fn add_immediate_leaves_a_nonzero_vf_alone_too() {
    let mut m = machine();
    exec(&mut m, Instruction::SetVRegister6XNN(15, 1));
    exec(&mut m, Instruction::SetVRegister6XNN(0, 0xFF));
    exec(&mut m, Instruction::Add7XNN(0, 0x02));
    assert_eq!(m.register(0), 0x01);
    assert_eq!(m.register(15), 1);
}

#[test]
fn add_with_carry_sets_vf_on_overflow() {
    let mut m = machine();
    exec(&mut m, Instruction::SetVRegister6XNN(1, 0xFF));
    exec(&mut m, Instruction::SetVRegister6XNN(2, 0x01));
    exec(&mut m, Instruction::RegisterAdd8XY4(1, 2));
    assert_eq!(m.register(1), 0x00);
    assert_eq!(m.register(15), 1);
}

#[test]
fn add_with_carry_clears_vf_without_overflow() {
    let mut m = machine();
    exec(&mut m, Instruction::SetVRegister6XNN(15, 1));
    exec(&mut m, Instruction::SetVRegister6XNN(1, 0x10));
    exec(&mut m, Instruction::SetVRegister6XNN(2, 0x20));
    exec(&mut m, Instruction::RegisterAdd8XY4(1, 2));
    assert_eq!(m.register(1), 0x30);
    assert_eq!(m.register(15), 0);
}

#[test]
fn subtract_with_borrow_wraps_and_clears_vf() {
    let mut m = machine();
    exec(&mut m, Instruction::SetVRegister6XNN(1, 0x01));
    exec(&mut m, Instruction::SetVRegister6XNN(2, 0x02));
    exec(&mut m, Instruction::RegisterSub8XY5(1, 2));
    assert_eq!(m.register(1), 0xFF);
    assert_eq!(m.register(15), 0);
}

#[test]
fn subtract_without_borrow_sets_vf() {
    let mut m = machine();
    exec(&mut m, Instruction::SetVRegister6XNN(1, 0x05));
    exec(&mut m, Instruction::SetVRegister6XNN(2, 0x03));
    exec(&mut m, Instruction::RegisterSub8XY5(1, 2));
    assert_eq!(m.register(1), 0x02);
    assert_eq!(m.register(15), 1);
}

#[test]
fn subtract_reverse_uses_vy_minus_vx() {
    let mut m = machine();
    exec(&mut m, Instruction::SetVRegister6XNN(1, 0x01));
    exec(&mut m, Instruction::SetVRegister6XNN(2, 0x02));
    exec(&mut m, Instruction::RegisterSubRev8XY7(1, 2));
    assert_eq!(m.register(1), 0x01);
    assert_eq!(m.register(15), 1);

    exec(&mut m, Instruction::SetVRegister6XNN(3, 0x05));
    exec(&mut m, Instruction::SetVRegister6XNN(4, 0x02));
    exec(&mut m, Instruction::RegisterSubRev8XY7(3, 4));
    assert_eq!(m.register(3), 0xFD);
    assert_eq!(m.register(15), 0);
}

#[test]
fn shift_right_keeps_the_dropped_bit_in_vf() {
    let mut m = machine();
    exec(&mut m, Instruction::SetVRegister6XNN(0, 0x05));
    exec(&mut m, Instruction::ShiftRight8XY6(0, 1));
    assert_eq!(m.register(0), 0x02);
    assert_eq!(m.register(15), 1);

    exec(&mut m, Instruction::SetVRegister6XNN(0, 0x04));
    exec(&mut m, Instruction::ShiftRight8XY6(0, 1));
    assert_eq!(m.register(0), 0x02);
    assert_eq!(m.register(15), 0);
}

#[test]
fn shift_left_keeps_the_dropped_high_bit_in_vf() {
    let mut m = machine();
    exec(&mut m, Instruction::SetVRegister6XNN(0, 0x81));
    exec(&mut m, Instruction::ShiftLeft8XYE(0, 1));
    assert_eq!(m.register(0), 0x02);
    assert_eq!(m.register(15), 1);

    exec(&mut m, Instruction::SetVRegister6XNN(0, 0x41));
    exec(&mut m, Instruction::ShiftLeft8XYE(0, 1));
    assert_eq!(m.register(0), 0x82);
    assert_eq!(m.register(15), 0);
}

#[test]
fn and_xor_and_copy() {
    let mut m = machine();
    exec(&mut m, Instruction::SetVRegister6XNN(1, 0b1100));
    exec(&mut m, Instruction::SetVRegister6XNN(2, 0b1010));
    exec(&mut m, Instruction::BinaryAnd8XY2(1, 2));
    assert_eq!(m.register(1), 0b1000);

    exec(&mut m, Instruction::SetVRegister6XNN(1, 0b1100));
    exec(&mut m, Instruction::Xor8XY3(1, 2));
    assert_eq!(m.register(1), 0b0110);

    exec(&mut m, Instruction::RegisterSet8XY0(3, 2));
    assert_eq!(m.register(3), 0b1010);
}

#[test]
fn skip_instructions_advance_pc_by_two_only_on_their_condition() {
    let mut m = machine();
    let start = m.program_counter();
    exec(&mut m, Instruction::SetVRegister6XNN(0, 5));
    exec(&mut m, Instruction::SkipEqual3XNN(0, 5));
    assert_eq!(m.program_counter(), start + 2);
    exec(&mut m, Instruction::SkipEqual3XNN(0, 6));
    assert_eq!(m.program_counter(), start + 2);
    exec(&mut m, Instruction::SkipNotEqual4XNN(0, 6));
    assert_eq!(m.program_counter(), start + 4);
    exec(&mut m, Instruction::SkipNotEqual4XNN(0, 5));
    assert_eq!(m.program_counter(), start + 4);

    exec(&mut m, Instruction::SetVRegister6XNN(1, 5));
    exec(&mut m, Instruction::SkipIfEqual5XY0(0, 1));
    assert_eq!(m.program_counter(), start + 6);
    exec(&mut m, Instruction::SetVRegister6XNN(1, 9));
    exec(&mut m, Instruction::SkipIfEqual5XY0(0, 1));
    assert_eq!(m.program_counter(), start + 6);
    exec(&mut m, Instruction::SkipIfNotEqual9XY0(0, 1));
    assert_eq!(m.program_counter(), start + 8);
}

#[test]
fn random_respects_the_mask() {
    let mut m = machine();
    for _ in 0..32 {
        exec(&mut m, Instruction::RandomCXNN(4, 0x0F));
        assert_eq!(m.register(4) & !0x0F, 0);
    }
    exec(&mut m, Instruction::RandomCXNN(4, 0x00));
    assert_eq!(m.register(4), 0);
}
