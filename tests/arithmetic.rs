use my_chip8::Chip8;

fn after(program: &[u8], cycles: usize) -> Chip8 {
    let mut c = Chip8::new();
    c.load_rom(program).unwrap();
    for _ in 0..cycles {
        c.step(0).unwrap();
    }
    c
}

#[test]
fn add_with_carry_sets_flag() {
    let c = after(&[0x60, 0xff, 0x61, 0x01, 0x80, 0x14], 3);
    assert_eq!(c.register(0), 0);
    assert_eq!(c.register(15), 1);
    let c = after(&[0x60, 0x05, 0x61, 0x03, 0x80, 0x14], 3);
    assert_eq!(c.register(0), 8);
    assert_eq!(c.register(15), 0);
    let c = after(&[0x60, 0x80, 0x61, 0x80, 0x80, 0x14], 3);
    assert_eq!(c.register(0), 0);
    assert_eq!(c.register(15), 1);
}

#[test]
fn add_into_flag_register_keeps_carry() {
    let c = after(&[0x6f, 0xff, 0x61, 0x02, 0x8f, 0x14], 3);
    assert_eq!(c.register(15), 1);
}

#[test]
fn subtract_with_borrow_sets_flag() {
    let c = after(&[0x60, 0x05, 0x61, 0x03, 0x80, 0x15], 3);
    assert_eq!(c.register(0), 2);
    assert_eq!(c.register(15), 1);
    let c = after(&[0x60, 0x03, 0x61, 0x05, 0x80, 0x15], 3);
    assert_eq!(c.register(0), 254);
    assert_eq!(c.register(15), 0);
    let c = after(&[0x60, 0x07, 0x61, 0x07, 0x80, 0x15], 3);
    assert_eq!(c.register(0), 0);
    assert_eq!(c.register(15), 1);
}

#[test]
fn reverse_subtract_uses_both_registers() {
    let c = after(&[0x60, 0x03, 0x61, 0x05, 0x80, 0x17], 3);
    assert_eq!(c.register(0), 2);
    assert_eq!(c.register(15), 1);
    let c = after(&[0x60, 0x05, 0x61, 0x03, 0x80, 0x17], 3);
    assert_eq!(c.register(0), 254);
    assert_eq!(c.register(15), 0);
}

#[test]
fn add_immediate_wraps_and_keeps_flag() {
    let c = after(&[0x6f, 0x07, 0x60, 0xfe, 0x70, 0x05], 3);
    assert_eq!(c.register(0), 3);
    assert_eq!(c.register(15), 7);
}

#[test]
fn shift_right_captures_low_bit() {
    let c = after(&[0x60, 0x81, 0x80, 0x06], 2);
    assert_eq!(c.register(0), 0x40);
    assert_eq!(c.register(15), 1);
    let c = after(&[0x60, 0x80, 0x80, 0x06], 2);
    assert_eq!(c.register(0), 0x40);
    assert_eq!(c.register(15), 0);
}

#[test]
fn shift_left_captures_high_bit() {
    let c = after(&[0x60, 0x81, 0x80, 0x0e], 2);
    assert_eq!(c.register(0), 0x02);
    assert_eq!(c.register(15), 1);
    let c = after(&[0x60, 0x41, 0x80, 0x0e], 2);
    assert_eq!(c.register(0), 0x82);
    assert_eq!(c.register(15), 0);
}

#[test]
fn bitwise_operations() {
    let c = after(&[0x60, 0b1100, 0x61, 0b1010, 0x80, 0x11], 3);
    assert_eq!(c.register(0), 0b1110);
    let c = after(&[0x60, 0b1100, 0x61, 0b1010, 0x80, 0x12], 3);
    assert_eq!(c.register(0), 0b1000);
    let c = after(&[0x60, 0b1100, 0x61, 0b1010, 0x80, 0x13], 3);
    assert_eq!(c.register(0), 0b0110);
    let c = after(&[0x61, 0x2a, 0x80, 0x10], 2);
    assert_eq!(c.register(0), 0x2a);
}

#[test]
fn skips_compare_registers_and_immediates() {
    // 3XNN taken, lands on 0x206
    let c = after(&[0x60, 0x05, 0x30, 0x05], 2);
    assert_eq!(c.program_counter(), 0x206);
    let c = after(&[0x60, 0x05, 0x30, 0x06], 2);
    assert_eq!(c.program_counter(), 0x204);
    let c = after(&[0x60, 0x05, 0x40, 0x06], 2);
    assert_eq!(c.program_counter(), 0x206);
    let c = after(&[0x60, 0x05, 0x61, 0x05, 0x50, 0x10], 3);
    assert_eq!(c.program_counter(), 0x208);
    let c = after(&[0x60, 0x05, 0x61, 0x05, 0x90, 0x10], 3);
    assert_eq!(c.program_counter(), 0x206);
}

#[test]
fn jumps() {
    let c = after(&[0x13, 0x45], 1);
    assert_eq!(c.program_counter(), 0x345);
    let c = after(&[0x60, 0x10, 0xb3, 0x00], 2);
    assert_eq!(c.program_counter(), 0x310);
    // the target wraps into memory
    let c = after(&[0x60, 0x10, 0xbf, 0xf8], 2);
    assert_eq!(c.program_counter(), 0x008);
}

#[test]
fn address_register_operations() {
    let c = after(&[0xa1, 0x23, 0x60, 0x10, 0xf0, 0x1e], 3);
    assert_eq!(c.address_register(), 0x133);
    let c = after(&[0x60, 0x0a, 0xf0, 0x29], 2);
    assert_eq!(c.address_register(), 0x50 + 50);
}

#[test]
fn register_dump_and_load() {
    let c = after(&[0x60, 0x11, 0x61, 0x22, 0x62, 0x33, 0xa3, 0x00, 0xf1, 0x55], 5);
    assert_eq!(c.memory_byte(0x300), 0x11);
    assert_eq!(c.memory_byte(0x301), 0x22);
    assert_eq!(c.memory_byte(0x302), 0x00);
    let mut rom = vec![0xa2, 0x08, 0xf2, 0x65, 0x00, 0x00, 0x00, 0x00];
    rom.extend_from_slice(&[0x0a, 0x0b, 0x0c, 0x0d]);
    let c = after(&rom, 2);
    assert_eq!(c.register(0), 0x0a);
    assert_eq!(c.register(1), 0x0b);
    assert_eq!(c.register(2), 0x0c);
    assert_eq!(c.register(3), 0);
}

#[test]
fn decimal_digits_of_small_values() {
    let c = after(&[0x60, 0x07, 0xa3, 0x00, 0xf0, 0x33], 3);
    assert_eq!(c.memory_byte(0x300), 0);
    assert_eq!(c.memory_byte(0x301), 0);
    assert_eq!(c.memory_byte(0x302), 7);
    let c = after(&[0x60, 0x80, 0xa3, 0x00, 0xf0, 0x33], 3);
    assert_eq!(c.memory_byte(0x300), 1);
    assert_eq!(c.memory_byte(0x301), 2);
    assert_eq!(c.memory_byte(0x302), 8);
}

#[test]
fn random_uses_given_byte_masked() {
    let mut c = Chip8::new();
    c.load_rom(&[0xc0, 0x0f]).unwrap();
    c.step(0xab).unwrap();
    assert_eq!(c.register(0), 0x0b);
}

#[test]
fn random_from_thread_generator_is_masked() {
    for _ in 0..20 {
        let mut c = Chip8::new();
        c.load_rom(&[0xc0, 0x0f]).unwrap();
        c.run_cycle().unwrap();
        assert!(c.register(0) <= 0x0f);
        assert_eq!(c.program_counter(), 0x202);
    }
}

#[test]
fn random_draws_vary() {
    let mut seen = std::collections::HashSet::new();
    for _ in 0..64 {
        let mut c = Chip8::new();
        c.load_rom(&[0xc0, 0xff]).unwrap();
        c.run_cycle().unwrap();
        seen.insert(c.register(0));
    }
    assert!(seen.len() > 1);
}
