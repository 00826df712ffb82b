use chip8::display::Chip8NullDisplay;
use chip8::machine::Chip8Emulator;

fn machine(program: Vec<u8>) -> Chip8Emulator<Chip8NullDisplay> {
    Chip8Emulator::new(&program, Chip8NullDisplay {}).unwrap()
}

#[test]
fn add_imm_wraps_without_flag() {
    let mut m = machine(vec![]);
    m.op_6xnn_load(0xF, 1);
    m.op_6xnn_load(0, 250);
    m.op_7xnn_add(0, 10);
    assert_eq!(m.register(0), 4);
    // add-imm never touches the flag register.
    assert_eq!(m.register(0xF), 1);
}

#[test]
fn add_sets_carry_exactly_on_overflow() {
    let mut m = machine(vec![]);
    m.op_6xnn_load(0, 200);
    m.op_6xnn_load(1, 100);
    m.op_8xy4_add(0, 1);
    assert_eq!(m.register(0), 44);
    assert_eq!(m.register(0xF), 1);

    m.op_6xnn_load(2, 10);
    m.op_6xnn_load(3, 20);
    m.op_8xy4_add(2, 3);
    assert_eq!(m.register(2), 30);
    assert_eq!(m.register(0xF), 0);

    // The boundary: 255 + 0 does not carry, 255 + 1 does.
    m.op_6xnn_load(4, 255);
    m.op_6xnn_load(5, 0);
    m.op_8xy4_add(4, 5);
    assert_eq!(m.register(4), 255);
    assert_eq!(m.register(0xF), 0);
    m.op_6xnn_load(6, 255);
    m.op_6xnn_load(7, 1);
    m.op_8xy4_add(6, 7);
    assert_eq!(m.register(6), 0);
    assert_eq!(m.register(0xF), 1);
}

#[test]
fn sub_flag_is_no_borrow() {
    let mut m = machine(vec![]);
    m.op_6xnn_load(0, 5);
    m.op_6xnn_load(1, 10);
    m.op_8xy5_sub(0, 1);
    assert_eq!(m.register(0), 251);
    assert_eq!(m.register(0xF), 0);

    m.op_6xnn_load(2, 10);
    m.op_6xnn_load(3, 5);
    m.op_8xy5_sub(2, 3);
    assert_eq!(m.register(2), 5);
    assert_eq!(m.register(0xF), 1);

    // Equal operands: no borrow, result zero.
    m.op_6xnn_load(4, 7);
    m.op_6xnn_load(5, 7);
    m.op_8xy5_sub(4, 5);
    assert_eq!(m.register(4), 0);
    assert_eq!(m.register(0xF), 1);
}

#[test]
fn sub_reverse_swaps_operands() {
    let mut m = machine(vec![]);
    m.op_6xnn_load(0, 10);
    m.op_6xnn_load(1, 5);
    m.op_8xy7_sub_rev(0, 1);
    assert_eq!(m.register(1), 251);
    assert_eq!(m.register(0xF), 0);

    m.op_6xnn_load(2, 5);
    m.op_6xnn_load(3, 10);
    m.op_8xy7_sub_rev(2, 3);
    assert_eq!(m.register(3), 5);
    assert_eq!(m.register(0xF), 1);
}

#[test]
fn shift_right_reports_low_bit() {
    let mut m = machine(vec![]);
    m.op_6xnn_load(0, 0b1011_0101);
    m.op_8xy6_rshift(0);
    assert_eq!(m.register(0), 0b0101_1010);
    assert_eq!(m.register(0xF), 1);

    m.op_6xnn_load(1, 0b0000_0100);
    m.op_8xy6_rshift(1);
    assert_eq!(m.register(1), 0b0000_0010);
    assert_eq!(m.register(0xF), 0);
}

#[test]
fn shift_left_reports_high_bit() {
    let mut m = machine(vec![]);
    m.op_6xnn_load(0, 0b1011_0101);
    m.op_8xye_lshift(0);
    assert_eq!(m.register(0), 0b0110_1010);
    assert_eq!(m.register(0xF), 1);

    m.op_6xnn_load(1, 0b0100_0000);
    m.op_8xye_lshift(1);
    assert_eq!(m.register(1), 0b1000_0000);
    assert_eq!(m.register(0xF), 0);
}

#[test]
fn bitwise_ops() {
    let mut m = machine(vec![]);
    m.op_6xnn_load(0, 0b1100);
    m.op_6xnn_load(1, 0b1010);
    m.op_8xy1_or(0, 1);
    assert_eq!(m.register(0), 0b1110);

    m.op_6xnn_load(2, 0b1100);
    m.op_8xy2_and(2, 1);
    assert_eq!(m.register(2), 0b1000);

    m.op_6xnn_load(3, 0b1100);
    m.op_8xy3_xor(3, 1);
    assert_eq!(m.register(3), 0b0110);

    m.op_6xnn_load(4, 42);
    m.op_8xy0_set(5, 4);
    assert_eq!(m.register(5), 42);
}

#[test]
fn bcd_digits() {
    let mut m = machine(vec![0xA3, 0x00]);
    assert!(m.step().is_ok());
    assert_eq!(m.index_register(), 0x300);
    m.op_fx33_conv(234);
    assert_eq!(m.memory_byte(0x300), 2);
    assert_eq!(m.memory_byte(0x301), 3);
    assert_eq!(m.memory_byte(0x302), 4);

    m.op_fx33_conv(7);
    assert_eq!(m.memory_byte(0x300), 0);
    assert_eq!(m.memory_byte(0x301), 0);
    assert_eq!(m.memory_byte(0x302), 7);
}

#[test]
fn store_and_load_registers() {
    let mut m = machine(vec![0xA3, 0x00]);
    assert!(m.step().is_ok());
    m.op_6xnn_load(0, 11);
    m.op_6xnn_load(1, 22);
    m.op_6xnn_load(2, 33);
    m.op_fx55_store(2);
    assert_eq!(m.memory_byte(0x300), 11);
    assert_eq!(m.memory_byte(0x301), 22);
    assert_eq!(m.memory_byte(0x302), 33);
    // Memory past the stored range is untouched.
    assert_eq!(m.memory_byte(0x303), 0);

    m.op_6xnn_load(0, 0);
    m.op_6xnn_load(1, 0);
    m.op_6xnn_load(3, 44);
    m.op_fx65_load(1);
    assert_eq!(m.register(0), 11);
    assert_eq!(m.register(1), 22);
    // Registers past the loaded range keep their values.
    assert_eq!(m.register(3), 44);
}

#[test]
fn add_to_index_wraps_and_optionally_flags() {
    let mut m = machine(vec![0xAF, 0xFF]);
    assert!(m.step().is_ok());
    assert_eq!(m.index_register(), 0xFFF);
    m.op_fx1e_add_idx(2);
    assert_eq!(m.index_register(), 0x1001);
    // The overflow flag is off by default.
    assert_eq!(m.register(0xF), 0);

    let mut m2 = machine(vec![0xAF, 0xFF]);
    m2.set_vf_on_index_add(true);
    assert!(m2.step().is_ok());
    m2.op_fx1e_add_idx(2);
    assert_eq!(m2.index_register(), 0x1001);
    assert_eq!(m2.register(0xF), 1);

    let mut m3 = machine(vec![0xA0, 0x10]);
    m3.set_vf_on_index_add(true);
    assert!(m3.step().is_ok());
    m3.op_fx1e_add_idx(2);
    assert_eq!(m3.index_register(), 0x12);
    assert_eq!(m3.register(0xF), 0);
}
