use chip8::display::Chip8NullDisplay;
use chip8::machine::Chip8Emulator;
use chip8::state::{Chip8Error, StepOutcome};

fn machine(program: Vec<u8>) -> Chip8Emulator<Chip8NullDisplay> {
    Chip8Emulator::new(&program, Chip8NullDisplay {}).unwrap()
}

#[test]
fn construction_layout() {
    let m = machine(vec![0x12, 0x34]);
    assert_eq!(m.program_counter(), 0x200);
    assert_eq!(m.index_register(), 0);
    assert_eq!(m.stack_depth(), 0);
    assert_eq!(m.delay_timer(), 0);
    assert_eq!(m.sound_timer(), 0);
    assert!(!m.is_running());
    for x in 0..16 {
        assert_eq!(m.register(x), 0);
    }
    // The program sits at 0x200.
    assert_eq!(m.memory_byte(0x200), 0x12);
    assert_eq!(m.memory_byte(0x201), 0x34);
    assert_eq!(m.memory_byte(0x202), 0);
    // The font table sits at 0x50: glyph "0" first, glyph "F" last.
    assert_eq!(m.memory_byte(0x50), 0xF0);
    assert_eq!(m.memory_byte(0x51), 0x90);
    assert_eq!(m.memory_byte(0x9F), 0x80);
    assert_eq!(m.memory_byte(0xA0), 0);
    // The frame starts blank.
    for y in 0..32 {
        for x in 0..64 {
            assert!(!m.pixel(x, y));
        }
    }
}

#[test]
fn construction_rejects_oversized_program() {
    let exact = vec![0u8; 3584];
    assert!(Chip8Emulator::new(&exact, Chip8NullDisplay {}).is_ok());
    let too_large = vec![0u8; 3585];
    let r = Chip8Emulator::new(&too_large, Chip8NullDisplay {});
    assert!(matches!(r, Err(Chip8Error::ProgramTooLarge)));
}

#[test]
fn start_and_halt() {
    let mut m = machine(vec![]);
    assert!(!m.is_running());
    m.start();
    assert!(m.is_running());
    m.halt();
    assert!(!m.is_running());
}

#[test]
fn jump_sets_pc() {
    let mut m = machine(vec![0x13, 0x45]);
    assert_eq!(m.step(), Ok(StepOutcome::Ran));
    assert_eq!(m.program_counter(), 0x345);
}

#[test]
fn jump_offset_adds_v0() {
    let mut m = machine(vec![0x60, 0x04, 0xB2, 0x0A]);
    assert_eq!(m.step(), Ok(StepOutcome::Ran));
    assert_eq!(m.step(), Ok(StepOutcome::Ran));
    assert_eq!(m.program_counter(), 0x20E);
}

#[test]
fn call_then_return_resumes_after_call() {
    // 0x200: call 0x204; 0x202: (never reached until the return); 0x204: return.
    let mut m = machine(vec![0x22, 0x04, 0x00, 0x00, 0x00, 0xEE]);
    assert_eq!(m.step(), Ok(StepOutcome::Ran));
    assert_eq!(m.program_counter(), 0x204);
    assert_eq!(m.stack_depth(), 1);
    assert_eq!(m.step(), Ok(StepOutcome::Ran));
    // The return lands on the instruction following the call.
    assert_eq!(m.program_counter(), 0x202);
    assert_eq!(m.stack_depth(), 0);
}

#[test]
fn return_on_empty_stack_is_fatal() {
    let mut m = machine(vec![0x00, 0xEE]);
    let r = m.step();
    assert_eq!(r, Err(Chip8Error::StackUnderflow { pc: 0x200 }));
    // A fatal step leaves the machine unchanged.
    assert_eq!(m.program_counter(), 0x200);
    assert_eq!(m.stack_depth(), 0);
}

#[test]
fn skip_instructions() {
    // skip-eq-imm taken: V0 == 0.
    let mut m = machine(vec![0x30, 0x00]);
    assert_eq!(m.step(), Ok(StepOutcome::Ran));
    assert_eq!(m.program_counter(), 0x204);

    // skip-eq-imm not taken.
    let mut m = machine(vec![0x30, 0x01]);
    assert_eq!(m.step(), Ok(StepOutcome::Ran));
    assert_eq!(m.program_counter(), 0x202);

    // skip-ne-imm taken.
    let mut m = machine(vec![0x40, 0x01]);
    assert_eq!(m.step(), Ok(StepOutcome::Ran));
    assert_eq!(m.program_counter(), 0x204);

    // skip-eq-reg taken (both registers zero).
    let mut m = machine(vec![0x50, 0x10]);
    assert_eq!(m.step(), Ok(StepOutcome::Ran));
    assert_eq!(m.program_counter(), 0x204);

    // skip-ne-reg not taken (both registers zero).
    let mut m = machine(vec![0x90, 0x10]);
    assert_eq!(m.step(), Ok(StepOutcome::Ran));
    assert_eq!(m.program_counter(), 0x202);
}

#[test]
fn load_immediate_by_step() {
    let mut m = machine(vec![0x6A, 0x42]);
    assert_eq!(m.step(), Ok(StepOutcome::Ran));
    assert_eq!(m.register(0xA), 0x42);
    assert_eq!(m.program_counter(), 0x202);
}

#[test]
fn invalid_opcode_is_fatal_and_leaves_state() {
    let mut m = machine(vec![0xFF, 0xFF]);
    let r = m.step();
    assert_eq!(r, Err(Chip8Error::InvalidOpcode { word: 0xFFFF }));
    assert_eq!(m.program_counter(), 0x200);

    // 5xyn with a nonzero low nibble names no instruction.
    let mut m = machine(vec![0x50, 0x11]);
    assert_eq!(m.step(), Err(Chip8Error::InvalidOpcode { word: 0x5011 }));

    // 8xyn with an unused low nibble names no instruction.
    let mut m = machine(vec![0x80, 0x18]);
    assert_eq!(m.step(), Err(Chip8Error::InvalidOpcode { word: 0x8018 }));

    // 00E1 names no instruction.
    let mut m = machine(vec![0x00, 0xE1]);
    assert_eq!(m.step(), Err(Chip8Error::InvalidOpcode { word: 0x00E1 }));
}

#[test]
fn fetch_past_memory_bounds_is_fatal() {
    let mut m = machine(vec![0x1F, 0xFF]);
    assert_eq!(m.step(), Ok(StepOutcome::Ran));
    assert_eq!(m.program_counter(), 0xFFF);
    assert_eq!(m.step(), Err(Chip8Error::PcOutOfBounds { pc: 0xFFF }));
    assert_eq!(m.program_counter(), 0xFFF);
}

#[test]
fn draw_past_memory_bounds_is_fatal() {
    let mut m = machine(vec![0xAF, 0xFF, 0xD0, 0x15]);
    assert_eq!(m.step(), Ok(StepOutcome::Ran));
    assert_eq!(m.step(), Err(Chip8Error::MemoryOutOfBounds { index: 0xFFF }));
    assert_eq!(m.program_counter(), 0x202);
}

#[test]
fn bcd_past_memory_bounds_is_fatal() {
    let mut m = machine(vec![0xAF, 0xFE, 0xF0, 0x33]);
    assert_eq!(m.step(), Ok(StepOutcome::Ran));
    assert_eq!(m.step(), Err(Chip8Error::MemoryOutOfBounds { index: 0xFFE }));
}

#[test]
fn store_past_memory_bounds_is_fatal() {
    let mut m = machine(vec![0xAF, 0xFE, 0xF2, 0x55]);
    assert_eq!(m.step(), Ok(StepOutcome::Ran));
    assert_eq!(m.step(), Err(Chip8Error::MemoryOutOfBounds { index: 0xFFE }));
}

#[test]
fn load_past_memory_bounds_is_fatal() {
    let mut m = machine(vec![0xAF, 0xFE, 0xF2, 0x65]);
    assert_eq!(m.step(), Ok(StepOutcome::Ran));
    assert_eq!(m.step(), Err(Chip8Error::MemoryOutOfBounds { index: 0xFFE }));
}

#[test]
fn block_for_key_suspends_until_provided() {
    let mut m = machine(vec![0xF2, 0x0A]);
    assert_eq!(m.step(), Ok(StepOutcome::NeedKey { x: 2 }));
    assert_eq!(m.program_counter(), 0x202);
    assert_eq!(m.register(2), 0);
    m.provide_key(2, 0xA);
    assert_eq!(m.register(2), 0xA);
}

#[test]
fn random_is_masked_by_immediate() {
    // A zero mask pins the stored byte to zero whatever the generator gave.
    let mut m = machine(vec![0xC0, 0x00]);
    assert_eq!(m.step(), Ok(StepOutcome::Ran));
    assert_eq!(m.register(0), 0);

    let mut m = machine(vec![0xC1, 0x0F]);
    assert_eq!(m.step(), Ok(StepOutcome::Ran));
    assert!(m.register(1) <= 0x0F);
}

#[test]
fn timers_read_and_write_by_opcode() {
    let mut m = machine(vec![]);
    m.op_fx15_set_delay(7);
    assert_eq!(m.delay_timer(), 7);
    m.op_fx07_xtdtime(3);
    assert_eq!(m.register(3), 7);
    m.op_fx18_set_sound(9);
    assert_eq!(m.sound_timer(), 9);
}

#[test]
fn timers_count_down_to_zero_and_stop() {
    let mut m = machine(vec![]);
    m.op_fx15_set_delay(10);
    m.op_fx18_set_sound(3);
    // Ten or more ticks (at 60 Hz, anything past 167 ms) floor the delay
    // counter at zero; it never wraps below.
    for _ in 0..10 {
        m.tick_timers();
    }
    assert_eq!(m.delay_timer(), 0);
    assert_eq!(m.sound_timer(), 0);
    m.tick_timers();
    assert_eq!(m.delay_timer(), 0);
    assert_eq!(m.sound_timer(), 0);
}
