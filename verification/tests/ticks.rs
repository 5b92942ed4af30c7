use chip8::{Audio, Chip8, Graphics, Instruction, VmError};

struct NullGraphics;

impl Graphics for NullGraphics {
    fn clear_pixel(&mut self, _x: usize, _y: usize) {}

    fn draw_pixel(&mut self, _x: usize, _y: usize) {}
}

struct CountingAudio {
    starts: usize,
    stops: usize,
}

impl CountingAudio {
    fn new() -> CountingAudio {
        CountingAudio { starts: 0, stops: 0 }
    }
}

impl Audio for CountingAudio {
    fn start_beep(&mut self) {
        self.starts += 1;
    }

    fn stop_beep(&mut self) {
        self.stops += 1;
    }
}

fn exec(m: &mut Chip8, inst: Instruction) {
    let mut g = NullGraphics;
    m.execute_instruction(inst, &mut g).unwrap();
}

#[test]
fn call_and_return_restore_the_pre_call_pc() {
    let mut m = Chip8::new(700);
    let before = m.program_counter();
    exec(&mut m, Instruction::SubroutineCall2NNN(0x300));
    assert_eq!(m.program_counter(), 0x300);
    assert_eq!(m.stack_depth(), 1);
    exec(&mut m, Instruction::SubroutineReturn00EE);
    assert_eq!(m.program_counter(), before);
    assert_eq!(m.stack_depth(), 0);
}

#[test]
fn nested_calls_return_in_order() {
    let mut m = Chip8::new(700);
    exec(&mut m, Instruction::SubroutineCall2NNN(0x300));
    exec(&mut m, Instruction::SubroutineCall2NNN(0x400));
    assert_eq!(m.stack_depth(), 2);
    exec(&mut m, Instruction::SubroutineReturn00EE);
    assert_eq!(m.program_counter(), 0x300);
    exec(&mut m, Instruction::SubroutineReturn00EE);
    assert_eq!(m.program_counter(), 512);
}

#[test]
fn returning_with_an_empty_stack_is_a_fatal_error_not_a_no_op() {
    let mut m = Chip8::new(700);
    let mut g = NullGraphics;
    let err = m.execute_instruction(Instruction::SubroutineReturn00EE, &mut g).unwrap_err();
    assert_eq!(err, VmError::StackUnderflow);
    // the failure left the machine exactly as it was
    assert_eq!(m.program_counter(), 512);
    assert_eq!(m.stack_depth(), 0);
}

#[test]
fn jump_sets_pc_directly() {
    let mut m = Chip8::new(700);
    exec(&mut m, Instruction::Jump1NNN(0xABC));
    assert_eq!(m.program_counter(), 0xABC);
}

#[test]
fn key_skips_compare_against_the_latched_key() {
    let mut m = Chip8::new(700);
    let start = m.program_counter();
    exec(&mut m, Instruction::SetVRegister6XNN(0, 7));
    // no key pressed: EX9E does not skip, EXA1 does
    exec(&mut m, Instruction::SkipIfKeyPressedEX9E(0));
    assert_eq!(m.program_counter(), start);
    exec(&mut m, Instruction::SkipIfKeyNotPressedEXA1(0));
    assert_eq!(m.program_counter(), start + 2);

    m.handle_key_pressed(7);
    exec(&mut m, Instruction::SkipIfKeyPressedEX9E(0));
    assert_eq!(m.program_counter(), start + 4);
    exec(&mut m, Instruction::SkipIfKeyNotPressedEXA1(0));
    assert_eq!(m.program_counter(), start + 4);

    m.handle_key_released();
    exec(&mut m, Instruction::SkipIfKeyPressedEX9E(0));
    assert_eq!(m.program_counter(), start + 4);
}

#[test]
fn a_tick_runs_clock_over_sixty_instructions() {
    // V0 += 1 three times per tick, then keep jumping in place
    let mut m = Chip8::new(180);
    let mut g = NullGraphics;
    let mut a = CountingAudio::new();
    m.store_in_ram(&[0x70, 0x01, 0x70, 0x01, 0x70, 0x01, 0x12, 0x06]).unwrap();
    m.tick(&mut g, &mut a).unwrap();
    assert_eq!(m.register(0), 3);
    assert_eq!(m.program_counter(), 512 + 6);
    m.tick(&mut g, &mut a).unwrap();
    assert_eq!(m.register(0), 3);
}

#[test]
fn a_fatal_error_stops_the_tick_and_is_surfaced() {
    let mut m = Chip8::new(60);
    let mut g = NullGraphics;
    let mut a = CountingAudio::new();
    // memory at the program start is zero: 0x0000 is not in the decode table
    assert_eq!(m.tick(&mut g, &mut a), Err(VmError::UnknownOpcode));
}

#[test]
fn timers_decrement_once_per_tick_and_saturate_at_zero() {
    let mut m = Chip8::new(60);
    let mut g = NullGraphics;
    let mut a = CountingAudio::new();
    m.store_in_ram(&[0x12, 0x00]).unwrap();
    exec(&mut m, Instruction::SetVRegister6XNN(0, 2));
    exec(&mut m, Instruction::SetDelayTimerFX15(0));
    assert_eq!(m.delay_timer_value(), 2);
    m.tick(&mut g, &mut a).unwrap();
    assert_eq!(m.delay_timer_value(), 1);
    m.tick(&mut g, &mut a).unwrap();
    assert_eq!(m.delay_timer_value(), 0);
    // saturation: a zero timer stays zero
    m.tick(&mut g, &mut a).unwrap();
    assert_eq!(m.delay_timer_value(), 0);
    assert_eq!(m.sound_timer_value(), 0);
    // audio "stop" is never invoked while the beep is inactive
    assert_eq!(a.stops, 0);
    assert_eq!(a.starts, 0);
}

#[test]
fn audio_is_invoked_exactly_on_the_beep_edges() {
    // program: V2 = 5; sound = V2; jump in place
    let mut m = Chip8::new(60);
    let mut g = NullGraphics;
    let mut a = CountingAudio::new();
    m.store_in_ram(&[0x62, 0x05, 0xF2, 0x18, 0x12, 0x04]).unwrap();
    m.tick(&mut g, &mut a).unwrap(); // V2 = 5
    assert_eq!(a.starts, 0);
    m.tick(&mut g, &mut a).unwrap(); // sound = 5, beep starts
    assert_eq!(a.starts, 1);
    assert!(m.is_beeping());
    for _ in 0..4 {
        m.tick(&mut g, &mut a).unwrap(); // sound 4, 3, 2, 1
    }
    assert_eq!(a.starts, 1);
    assert_eq!(a.stops, 0);
    assert!(m.is_beeping());
    m.tick(&mut g, &mut a).unwrap(); // sound reaches 0, beep stops
    assert_eq!(a.stops, 1);
    assert!(!m.is_beeping());
    // further ticks do not re-invoke stop
    m.tick(&mut g, &mut a).unwrap();
    m.tick(&mut g, &mut a).unwrap();
    assert_eq!(a.starts, 1);
    assert_eq!(a.stops, 1);
}

#[test]
fn block_for_key_stalls_the_machine_and_a_press_resumes_it() {
    // program: wait for a key into V5; then V1 = 0x42; jump in place
    let mut m = Chip8::new(60);
    let mut g = NullGraphics;
    let mut a = CountingAudio::new();
    m.store_in_ram(&[0xF5, 0x0A, 0x61, 0x42, 0x12, 0x04]).unwrap();
    m.tick(&mut g, &mut a).unwrap(); // executes the wait
    assert!(m.is_waiting_for_key());
    let stalled_pc = m.program_counter();
    // stalled ticks execute nothing
    m.tick(&mut g, &mut a).unwrap();
    m.tick(&mut g, &mut a).unwrap();
    assert!(m.is_waiting_for_key());
    assert_eq!(m.program_counter(), stalled_pc);
    assert_eq!(m.register(1), 0);

    m.handle_key_pressed(7);
    assert!(!m.is_waiting_for_key());
    assert_eq!(m.register(5), 7);

    // the following tick resumes instruction execution
    m.tick(&mut g, &mut a).unwrap();
    assert_eq!(m.register(1), 0x42);
}

#[test]
fn timers_still_decrement_while_waiting_for_a_key() {
    let mut m = Chip8::new(60);
    let mut g = NullGraphics;
    let mut a = CountingAudio::new();
    m.store_in_ram(&[0xF5, 0x0A, 0x12, 0x02]).unwrap();
    exec(&mut m, Instruction::SetVRegister6XNN(0, 3));
    exec(&mut m, Instruction::SetDelayTimerFX15(0));
    m.tick(&mut g, &mut a).unwrap(); // executes the wait, delay 3 -> 2
    assert!(m.is_waiting_for_key());
    m.tick(&mut g, &mut a).unwrap(); // stalled, delay 2 -> 1
    m.tick(&mut g, &mut a).unwrap(); // stalled, delay 1 -> 0
    assert_eq!(m.delay_timer_value(), 0);
    assert!(m.is_waiting_for_key());
}

#[test]
fn a_key_press_without_a_pending_wait_only_latches() {
    let mut m = Chip8::new(700);
    m.handle_key_pressed(3);
    for x in 0..16 {
        assert_eq!(m.register(x), 0);
    }
    assert!(!m.is_waiting_for_key());
    m.handle_key_released();
    let start = m.program_counter();
    exec(&mut m, Instruction::SetVRegister6XNN(0, 3));
    exec(&mut m, Instruction::SkipIfKeyPressedEX9E(0));
    assert_eq!(m.program_counter(), start);
}
