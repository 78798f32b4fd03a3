use chip8::{Chip8, Fault};

fn machine_with(program: &[u8]) -> Chip8 {
    let mut m = Chip8::new();
    m.load_rom(program);
    m
}

fn steps(m: &mut Chip8, count: usize) {
    for _ in 0..count {
        assert_eq!(m.step(0), Ok(()));
    }
}

#[test]
fn new_machine_is_at_power_on() {
    let m = Chip8::new();
    assert_eq!(m.pc(), 512);
    assert_eq!(m.stack_pointer(), 0);
    assert_eq!(m.index_register(), 0);
    assert_eq!(m.delay_timer(), 0);
    assert_eq!(m.sound_timer(), 0);
    assert!(!m.redraw_flag());
    assert_eq!(m.pressed_key(), None);
    assert_eq!(m.display().len(), 64 * 32);
    assert!(m.display().iter().all(|p| !p));
    for r in 0..16 {
        assert_eq!(m.register(r), 0);
    }
}

#[test]
fn fonts_and_program_land_at_their_addresses() {
    let mut m = Chip8::new();
    m.load_fonts(vec![0xF0, 0x90, 0x90, 0x90, 0xF0]);
    m.load_rom(&[0x12, 0x34]);
    assert_eq!(m.memory_at(0), 0xF0);
    assert_eq!(m.memory_at(1), 0x90);
    assert_eq!(m.memory_at(4), 0xF0);
    assert_eq!(m.memory_at(5), 0);
    assert_eq!(m.memory_at(512), 0x12);
    assert_eq!(m.memory_at(513), 0x34);
    assert_eq!(m.memory_at(514), 0);
}

#[test]
fn add_immediate_wraps_and_leaves_flag() {
    // V1 = 0xFF, VF = 7, then V1 += 0xFF
    let mut m = machine_with(&[0x61, 0xFF, 0x6F, 0x07, 0x71, 0xFF]);
    steps(&mut m, 3);
    assert_eq!(m.register(1), 0xFE);
    assert_eq!(m.register(15), 7);
    assert_eq!(m.pc(), 518);
}

#[test]
fn add_with_carry_sets_flag() {
    let mut m = machine_with(&[0x61, 0xFF, 0x62, 0x02, 0x81, 0x24]);
    steps(&mut m, 3);
    assert_eq!(m.register(1), 0x01);
    assert_eq!(m.register(15), 1);
}

#[test]
fn add_without_carry_clears_flag() {
    let mut m = machine_with(&[0x61, 0x01, 0x62, 0x01, 0x6F, 0x09, 0x81, 0x24]);
    steps(&mut m, 4);
    assert_eq!(m.register(1), 0x02);
    assert_eq!(m.register(15), 0);
}

#[test]
fn subtract_with_borrow_wraps_and_sets_flag() {
    let mut m = machine_with(&[0x61, 0x05, 0x62, 0x0A, 0x81, 0x25]);
    steps(&mut m, 3);
    assert_eq!(m.register(1), 0xFB);
    assert_eq!(m.register(15), 1);
}

#[test]
fn subtract_without_borrow_clears_flag() {
    let mut m = machine_with(&[0x61, 0x0A, 0x62, 0x05, 0x6F, 0x01, 0x81, 0x25]);
    steps(&mut m, 4);
    assert_eq!(m.register(1), 0x05);
    assert_eq!(m.register(15), 0);
}

#[test]
fn reverse_subtract_and_logic() {
    // V1 = 0x05, V2 = 0x0A, V1 = V2 - V1
    let mut m = machine_with(&[0x61, 0x05, 0x62, 0x0A, 0x81, 0x27]);
    steps(&mut m, 3);
    assert_eq!(m.register(1), 0x05);
    assert_eq!(m.register(15), 0);
    // V3 = 0b1100, V4 = 0b1010: OR, AND, XOR into V5..V7 through copies
    let mut m = machine_with(&[
        0x63, 0x0C, 0x64, 0x0A, 0x85, 0x30, 0x85, 0x41, 0x86, 0x30, 0x86, 0x42, 0x87, 0x30, 0x87,
        0x43,
    ]);
    steps(&mut m, 8);
    assert_eq!(m.register(5), 0x0E);
    assert_eq!(m.register(6), 0x08);
    assert_eq!(m.register(7), 0x06);
}

#[test]
fn shifts_move_the_outgoing_bit_to_flag() {
    let mut m = machine_with(&[0x61, 0x81, 0x81, 0x06]);
    steps(&mut m, 2);
    assert_eq!(m.register(1), 0x40);
    assert_eq!(m.register(15), 1);
    let mut m = machine_with(&[0x61, 0x81, 0x81, 0x0E]);
    steps(&mut m, 2);
    assert_eq!(m.register(1), 0x02);
    assert_eq!(m.register(15), 1);
}

#[test]
fn bcd_store_writes_three_digits() {
    // V1 = 156, I = 0x300, BCD
    let mut m = machine_with(&[0x61, 0x9C, 0xA3, 0x00, 0xF1, 0x33]);
    steps(&mut m, 3);
    assert_eq!(m.memory_at(0x300), 1);
    assert_eq!(m.memory_at(0x301), 5);
    assert_eq!(m.memory_at(0x302), 6);
}

#[test]
fn register_block_store_and_load() {
    // V0 = 1, V1 = 2, V2 = 3, I = 0x300, store V0..V2, clear, load V0..V2
    let mut m = machine_with(&[
        0x60, 0x01, 0x61, 0x02, 0x62, 0x03, 0xA3, 0x00, 0xF2, 0x55, 0x60, 0x00, 0x61, 0x00, 0x62,
        0x00, 0xF2, 0x65,
    ]);
    steps(&mut m, 5);
    assert_eq!(m.memory_at(0x300), 1);
    assert_eq!(m.memory_at(0x301), 2);
    assert_eq!(m.memory_at(0x302), 3);
    assert_eq!(m.memory_at(0x303), 0);
    steps(&mut m, 4);
    assert_eq!(m.register(0), 1);
    assert_eq!(m.register(1), 2);
    assert_eq!(m.register(2), 3);
}

#[test]
fn sprite_wraps_past_right_edge() {
    // sprite row 0xFF at 0x300; V0 = 62, V1 = 0; draw one row
    let mut image = vec![0u8; 0x300 - 512 + 1];
    image[..8].copy_from_slice(&[0x60, 0x3E, 0x61, 0x00, 0xA3, 0x00, 0xD0, 0x11]);
    image[0x300 - 512] = 0xFF;
    let mut m = machine_with(&image);
    steps(&mut m, 4);
    for x in [62, 63, 0, 1, 2, 3, 4, 5] {
        assert!(m.pixel(x, 0), "column {}", x);
    }
    assert!(!m.pixel(6, 0));
    assert!(!m.pixel(61, 0));
    assert!(!m.pixel(0, 1));
    assert_eq!(m.register(15), 0);
    assert!(m.redraw_flag());
}

#[test]
fn same_draw_at_consecutive_addresses_restores_display() {
    // V0 = 0, V1 = 0, I = 0x300, then D011 twice; pixel (1,0) lit beforehand
    let mut image = vec![0u8; 0x302 - 512];
    image[..14].copy_from_slice(&[
        0x60, 0x01, 0xA3, 0x01, 0xD0, 0x11, 0x60, 0x00, 0xA3, 0x00, 0xD0, 0x11, 0xD0, 0x11,
    ]);
    image[0x300 - 512] = 0xC0;
    image[0x301 - 512] = 0x80;
    let mut m = machine_with(&image);
    steps(&mut m, 3);
    let before: Vec<bool> = m.display().to_vec();
    steps(&mut m, 3);
    // first draw erased (1,0): collision
    assert_eq!(m.register(15), 1);
    assert!(m.pixel(0, 0));
    steps(&mut m, 1);
    assert_eq!(m.display().to_vec(), before);
    // the second draw collides only on (0,0), which the first one lit
    assert_eq!(m.register(15), 1);
}

#[test]
fn call_and_return_round_trip() {
    // 0x200: call 0x300; 0x300: return
    let mut image = vec![0u8; 0x302 - 512];
    image[0] = 0x23;
    image[1] = 0x00;
    image[0x300 - 512] = 0x00;
    image[0x301 - 512] = 0xEE;
    let mut m = machine_with(&image);
    steps(&mut m, 1);
    assert_eq!(m.pc(), 0x300);
    assert_eq!(m.stack_pointer(), 1);
    steps(&mut m, 1);
    assert_eq!(m.pc(), 0x202);
    assert_eq!(m.stack_pointer(), 0);
}

#[test]
fn call_on_full_stack_is_a_fault() {
    // 0x200: call 0x200, forever
    let mut m = machine_with(&[0x22, 0x00]);
    steps(&mut m, 16);
    assert_eq!(m.stack_pointer(), 16);
    assert_eq!(m.step(0), Err(Fault::StackOverflow));
    assert_eq!(m.stack_pointer(), 16);
    assert_eq!(m.pc(), 0x200);
}

#[test]
fn return_on_empty_stack_is_a_fault() {
    let mut m = machine_with(&[0x00, 0xEE]);
    assert_eq!(m.step(0), Err(Fault::StackUnderflow));
    assert_eq!(m.pc(), 512);
}

#[test]
fn unknown_instructions_are_faults() {
    let mut m = machine_with(&[0x81, 0x28]);
    assert_eq!(m.step(0), Err(Fault::IllegalInstruction(0x8128)));
    let mut m = machine_with(&[0xE1, 0x00]);
    assert_eq!(m.step(0), Err(Fault::IllegalInstruction(0xE100)));
    let mut m = machine_with(&[0xF1, 0x99]);
    assert_eq!(m.step(0), Err(Fault::IllegalInstruction(0xF199)));
}

#[test]
fn memory_outside_range_is_a_fault() {
    // jump to 0xFFF: the second byte of the word lies past memory
    let mut m = machine_with(&[0x1F, 0xFF]);
    steps(&mut m, 1);
    assert_eq!(m.pc(), 0xFFF);
    assert_eq!(m.step(0), Err(Fault::MemoryOutOfRange));
    // BCD at I = 0xFFE
    let mut m = machine_with(&[0xAF, 0xFE, 0xF0, 0x33]);
    steps(&mut m, 1);
    assert_eq!(m.step(0), Err(Fault::MemoryOutOfRange));
    // sprite of two rows at I = 0xFFF
    let mut m = machine_with(&[0xAF, 0xFF, 0xD0, 0x02]);
    steps(&mut m, 1);
    assert_eq!(m.step(0), Err(Fault::MemoryOutOfRange));
    // store V0..V2 at I = 0xFFE
    let mut m = machine_with(&[0xAF, 0xFE, 0xF2, 0x55]);
    steps(&mut m, 1);
    assert_eq!(m.step(0), Err(Fault::MemoryOutOfRange));
}

#[test]
fn delay_timer_decays_to_zero() {
    // V1 = 5; delay = V1; then jumps to itself
    let mut m = machine_with(&[0x61, 0x05, 0xF1, 0x15, 0x12, 0x04]);
    steps(&mut m, 1);
    assert_eq!(m.delay_timer(), 0);
    m.step(0).unwrap();
    // the step that sets the timer also ticks it
    assert_eq!(m.delay_timer(), 4);
    steps(&mut m, 3);
    assert_eq!(m.delay_timer(), 1);
    steps(&mut m, 1);
    assert_eq!(m.delay_timer(), 0);
    steps(&mut m, 5);
    assert_eq!(m.delay_timer(), 0);
    // V2 = delay timer
    let mut m = machine_with(&[0x61, 0x09, 0xF1, 0x15, 0xF2, 0x07, 0xF1, 0x18]);
    steps(&mut m, 4);
    assert_eq!(m.register(2), 8);
    assert_eq!(m.sound_timer(), 8);
}

#[test]
fn skips_compare_registers_and_immediates() {
    // V1 = 3; skip if V1 == 3 -> pc 0x206
    let mut m = machine_with(&[0x61, 0x03, 0x31, 0x03]);
    steps(&mut m, 2);
    assert_eq!(m.pc(), 0x206);
    let mut m = machine_with(&[0x61, 0x03, 0x41, 0x03]);
    steps(&mut m, 2);
    assert_eq!(m.pc(), 0x204);
    let mut m = machine_with(&[0x61, 0x03, 0x51, 0x20]);
    steps(&mut m, 2);
    assert_eq!(m.pc(), 0x204);
    let mut m = machine_with(&[0x61, 0x03, 0x91, 0x20]);
    steps(&mut m, 2);
    assert_eq!(m.pc(), 0x206);
}

#[test]
fn jumps_and_address_register() {
    let mut m = machine_with(&[0x60, 0x10, 0xB3, 0x00]);
    steps(&mut m, 2);
    assert_eq!(m.pc(), 0x310);
    // I = 0xEFF, I += V1 (= 2) -> 0xF01, VF = 1
    let mut m = machine_with(&[0xAE, 0xFF, 0x61, 0x02, 0xF1, 0x1E]);
    steps(&mut m, 3);
    assert_eq!(m.index_register(), 0xF01);
    assert_eq!(m.register(15), 1);
    // glyph address of digit 0xA
    let mut m = machine_with(&[0x61, 0x0A, 0xF1, 0x29]);
    steps(&mut m, 2);
    assert_eq!(m.index_register(), 50);
    // legacy machine-code call: skipped
    let mut m = machine_with(&[0x03, 0x00]);
    steps(&mut m, 1);
    assert_eq!(m.pc(), 0x202);
}

#[test]
fn clear_screen_turns_every_pixel_off() {
    let mut image = vec![0u8; 0x301 - 512];
    image[..6].copy_from_slice(&[0xA3, 0x00, 0xD0, 0x01, 0x00, 0xE0]);
    image[0x300 - 512] = 0xFF;
    let mut m = machine_with(&image);
    steps(&mut m, 2);
    assert!(m.pixel(0, 0));
    m.clear_redraw_flag();
    assert!(!m.redraw_flag());
    steps(&mut m, 1);
    assert!(m.display().iter().all(|p| !p));
    assert!(m.redraw_flag());
}

#[test]
fn keys_drive_skips_and_waits() {
    // V1 = 7; skip if key V1 pressed
    let mut m = machine_with(&[0x61, 0x07, 0xE1, 0x9E]);
    m.set_pressed_key(Some(7));
    steps(&mut m, 2);
    assert_eq!(m.pc(), 0x206);
    let mut m = machine_with(&[0x61, 0x07, 0xE1, 0xA1]);
    m.set_pressed_key(None);
    steps(&mut m, 2);
    assert_eq!(m.pc(), 0x204);
    let mut m = machine_with(&[0x61, 0x07, 0xE1, 0xA1]);
    m.set_pressed_key(Some(3));
    steps(&mut m, 2);
    assert_eq!(m.pc(), 0x206);
    // wait for a key: stays put until one is pressed
    let mut m = machine_with(&[0xF4, 0x0A]);
    steps(&mut m, 2);
    assert_eq!(m.pc(), 0x200);
    assert!(m.redraw_flag());
    m.set_pressed_key(Some(0xB));
    steps(&mut m, 1);
    assert_eq!(m.pc(), 0x202);
    assert_eq!(m.register(4), 0xB);
}

#[test]
fn random_byte_is_masked() {
    let mut m = machine_with(&[0xC1, 0x0F]);
    m.step(0xAB).unwrap();
    assert_eq!(m.register(1), 0x0B);
    let mut m = machine_with(&[0xC1, 0x00]);
    assert_eq!(m.run(), Ok(()));
    assert_eq!(m.register(1), 0);
    for _ in 0..20 {
        let mut m = machine_with(&[0xC1, 0x0F]);
        assert_eq!(m.run(), Ok(()));
        assert!(m.register(1) <= 0x0F);
        assert_eq!(m.pc(), 0x202);
    }
}
