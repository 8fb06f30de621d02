use my_chip8::{Chip8, Chip8Error, CYCLES_PER_SECOND, DISPLAY_WIDTH};

fn machine_with(program: &[u8]) -> Chip8 {
    let mut c = Chip8::new();
    c.load_rom(program).unwrap();
    c
}

fn run(c: &mut Chip8, cycles: usize) {
    for _ in 0..cycles {
        c.step(0).unwrap();
    }
}

fn lit_cells(c: &Chip8) -> Vec<(usize, usize)> {
    c.display()
        .iter()
        .enumerate()
        .filter(|(_, &p)| p == 1)
        .map(|(i, _)| (i % DISPLAY_WIDTH, i / DISPLAY_WIDTH))
        .collect()
}

#[test]
fn fresh_machine_holds_font() {
    let c = Chip8::new();
    assert_eq!(c.program_counter(), 0x200);
    assert_eq!(c.stack_pointer(), 0);
    assert_eq!(c.memory_byte(0x4f), 0);
    assert_eq!(c.memory_byte(0x50), 0xf0);
    assert_eq!(c.memory_byte(0x55), 0x20);
    assert_eq!(c.memory_byte(0x9f), 0x80);
    assert_eq!(c.memory_byte(0xa0), 0);
    assert_eq!(c.memory_byte(0x200), 0);
    assert!(c.display().iter().all(|&p| p == 0));
    assert!(!c.draw_flag());
}

#[test]
fn load_rejects_oversized_program() {
    let mut c = Chip8::new();
    let rom = vec![0xaau8; 3585];
    assert_eq!(c.load_rom(&rom), Err(Chip8Error::RomTooLarge(3585)));
    assert_eq!(c.memory_byte(0x200), 0);
    let rom = vec![0xaau8; 3584];
    assert_eq!(c.load_rom(&rom), Ok(()));
    assert_eq!(c.memory_byte(0x200), 0xaa);
    assert_eq!(c.memory_byte(0xfff), 0xaa);
    assert_eq!(c.memory_byte(0x1ff), 0);
}

#[test]
fn load_empty_program() {
    let mut c = Chip8::new();
    assert_eq!(c.load_rom(&[]), Ok(()));
    assert_eq!(c.memory_byte(0x200), 0);
}

#[test]
fn draw_twice_restores_grid_and_reports_collision() {
    // glyph 8 at (3, 4), drawn twice
    let mut c = machine_with(&[0x60, 0x08, 0xf0, 0x29, 0x61, 0x03, 0x62, 0x04, 0xd1, 0x25, 0xd1, 0x25]);
    run(&mut c, 5);
    assert_eq!(c.register(15), 0);
    assert!(!lit_cells(&c).is_empty());
    run(&mut c, 1);
    assert_eq!(c.register(15), 1);
    assert!(lit_cells(&c).is_empty());
    assert!(c.draw_flag());
}

#[test]
fn draw_overlap_toggles_and_collides() {
    // glyph 0 at (0,0), then glyph 1 at (0,0)
    let mut c = machine_with(&[0xf0, 0x29, 0xd0, 0x15, 0x61, 0x01, 0xf1, 0x29, 0xd0, 0x05]);
    run(&mut c, 5);
    assert_eq!(c.register(15), 1);
    // row 0: 0xf0 ^ 0x20 = 0xd0
    let row0: Vec<usize> = lit_cells(&c).into_iter().filter(|&(_, y)| y == 0).map(|(x, _)| x).collect();
    assert_eq!(row0, vec![0, 1, 3]);
}

#[test]
fn draw_clips_at_right_and_bottom_edges() {
    // glyph 0 at (62, 30): only columns 62-63 and rows 30-31 show
    let mut c = machine_with(&[0xf0, 0x29, 0x61, 62, 0x62, 30, 0xd1, 0x25]);
    run(&mut c, 4);
    assert_eq!(lit_cells(&c), vec![(62, 30), (63, 30), (62, 31)]);
}

#[test]
fn draw_coordinates_wrap_before_drawing() {
    // x = 64 + 2, y = 32 + 1
    let mut c = machine_with(&[0xf0, 0x29, 0x61, 66, 0x62, 33, 0xd1, 0x21]);
    run(&mut c, 4);
    assert_eq!(lit_cells(&c), vec![(2, 1), (3, 1), (4, 1), (5, 1)]);
}

#[test]
fn nested_calls_unwind_to_start() {
    // 0x200 calls routine 0; routine k at 0x300 + 4k calls routine k + 1 and
    // then returns; routine 15 only returns
    let mut rom = vec![0u8; 0x140];
    rom[0] = 0x23;
    rom[1] = 0x00;
    for k in 0..16usize {
        let at = 0x100 + 4 * k;
        if k < 15 {
            let target = 0x300 + 4 * (k + 1);
            rom[at] = 0x20 | (target >> 8) as u8;
            rom[at + 1] = (target & 0xff) as u8;
            rom[at + 2] = 0x00;
            rom[at + 3] = 0xee;
        } else {
            rom[at] = 0x00;
            rom[at + 1] = 0xee;
        }
    }
    let mut c = machine_with(&rom);
    run(&mut c, 16);
    assert_eq!(c.stack_pointer(), 16);
    assert_eq!(c.program_counter(), 0x33c);
    run(&mut c, 16);
    assert_eq!(c.stack_pointer(), 0);
    assert_eq!(c.program_counter(), 0x202);
}

#[test]
fn call_beyond_depth_overflows() {
    // 0x200: call 0x200, forever
    let mut c = machine_with(&[0x22, 0x00]);
    run(&mut c, 16);
    assert_eq!(c.stack_pointer(), 16);
    assert_eq!(c.step(0), Err(Chip8Error::StackOverflow));
    assert_eq!(c.stack_pointer(), 16);
}

#[test]
fn return_on_empty_stack_underflows() {
    let mut c = machine_with(&[0x00, 0xee]);
    assert_eq!(c.step(0), Err(Chip8Error::StackUnderflow));
    assert_eq!(c.stack_pointer(), 0);
    assert_eq!(c.program_counter(), 0x202);
}

#[test]
fn wait_for_key_holds_until_pressed() {
    let mut c = machine_with(&[0xf3, 0x0a]);
    run(&mut c, 5);
    assert_eq!(c.program_counter(), 0x200);
    c.key_down(9);
    c.key_down(4);
    run(&mut c, 1);
    assert_eq!(c.program_counter(), 0x202);
    assert_eq!(c.register(3), 4);
}

#[test]
fn key_release_is_seen() {
    let mut c = machine_with(&[0xf3, 0x0a]);
    c.key_down(2);
    c.key_up(2);
    run(&mut c, 1);
    assert_eq!(c.program_counter(), 0x200);
}

#[test]
fn key_skips() {
    let mut c = machine_with(&[0x60, 0x05, 0xe0, 0x9e]);
    c.key_down(5);
    run(&mut c, 2);
    assert_eq!(c.program_counter(), 0x206);
    let mut c = machine_with(&[0x60, 0x05, 0xe0, 0xa1]);
    run(&mut c, 2);
    assert_eq!(c.program_counter(), 0x206);
    let mut c = machine_with(&[0x60, 0x05, 0xe0, 0xa1]);
    c.key_down(5);
    run(&mut c, 2);
    assert_eq!(c.program_counter(), 0x204);
    // a register value above 15 names no key, so none is down
    let mut c = machine_with(&[0x60, 0x15, 0xe0, 0x9e]);
    c.key_down(5);
    run(&mut c, 2);
    assert_eq!(c.program_counter(), 0x204);
}

#[test]
fn timers_count_down_once_per_period() {
    // set delay to 255, then jump in place
    let mut c = machine_with(&[0x60, 0xff, 0xf0, 0x15, 0xf0, 0x18, 0x12, 0x06]);
    let cycles = 100usize;
    run(&mut c, cycles);
    let ticks = (cycles as u64 * 60 / CYCLES_PER_SECOND) as u8;
    assert_eq!(ticks, 10);
    assert_eq!(c.delay_timer(), 255 - ticks);
    assert_eq!(c.sound_timer(), 255 - ticks);
}

#[test]
fn timers_stop_at_zero() {
    let mut c = machine_with(&[0x60, 0x02, 0xf0, 0x15, 0x12, 0x04]);
    run(&mut c, 200);
    assert_eq!(c.delay_timer(), 0);
    assert_eq!(c.sound_timer(), 0);
}

#[test]
fn timer_value_can_be_read() {
    let mut c = machine_with(&[0x60, 0x30, 0xf0, 0x15, 0x12, 0x06, 0xf1, 0x07]);
    run(&mut c, 3);
    assert_eq!(c.delay_timer(), 0x30);
    let mut c = machine_with(&[0x60, 0x30, 0xf0, 0x15, 0xf1, 0x07]);
    run(&mut c, 3);
    assert_eq!(c.register(1), 0x30);
}

#[test]
fn frame_flag_resets_each_cycle() {
    let mut c = machine_with(&[0x00, 0xe0, 0x60, 0x01]);
    run(&mut c, 1);
    assert!(c.draw_flag());
    run(&mut c, 1);
    assert!(!c.draw_flag());
}
