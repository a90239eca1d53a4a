use chip8::chip8::Chip8;
use chip8::Chip8Error;

fn loaded(program: &[u8]) -> Chip8 {
    let mut machine = Chip8::new();
    let data: Vec<u8> = program.to_vec();
    machine.load_rom(&data).unwrap();
    machine
}

#[test]
fn set_and_add_registers_scenario() {
    // set V0 = 5, set V1 = 10, add V1 into V0 with carry flag
    let mut machine = loaded(&[0x60, 0x05, 0x61, 0x0A, 0x80, 0x14]);
    machine.run_instruction().unwrap();
    machine.run_instruction().unwrap();
    machine.run_instruction().unwrap();
    assert_eq!(machine.cpu().read_reg(0x0), 15);
    assert_eq!(machine.cpu().read_reg(0xF), 0);
    assert_eq!(machine.cpu().get_pc(), 0x206);
}

#[test]
fn jump_to_self_scenario() {
    // jump to 0x200, i.e. to itself
    let mut machine = loaded(&[0x12, 0x00]);
    machine.run_instruction().unwrap();
    assert_eq!(machine.cpu().get_pc(), 0x200);
}

#[test]
fn call_then_return_scenario() {
    let mut machine = loaded(&[0x22, 0x04, 0x00, 0x00, 0x00, 0xEE]);
    machine.run_instruction().unwrap();
    assert_eq!(machine.cpu().get_pc(), 0x204);
    assert_eq!(machine.cpu().get_stack().len(), 1);
    assert_eq!(machine.cpu().get_stack()[0], 0x202);
    machine.run_instruction().unwrap();
    // the return resumes at the pushed return address
    assert_eq!(machine.cpu().get_pc(), 0x202);
    assert_eq!(machine.cpu().get_stack().len(), 0);
}

#[test]
fn draw_twice_restores_display() {
    // I = 0x300, V0 = 60, V1 = 30, then draw the same 5-row sprite twice;
    // the sprite bytes sit at offset 0x100 of the image, so at 0x300
    let mut rom = vec![
        0xA3, 0x00, // I = 0x300
        0x60, 0x3C, // V0 = 60
        0x61, 0x1E, // V1 = 30
        0xD0, 0x15, // draw 5 rows at (V0, V1)
        0xD0, 0x15, // draw the same sprite again
    ];
    rom.resize(0x100, 0);
    rom.extend_from_slice(&[0xFF, 0x81, 0x81, 0x81, 0xFF]);
    let mut machine = loaded(&rom);
    for _ in 0..3 {
        machine.run_instruction().unwrap();
    }
    let blank: Vec<u8> = machine.get_display_buffer().clone();
    assert!(blank.iter().all(|&c| c == 0));

    machine.run_instruction().unwrap();
    // first draw on a blank screen: no pixel went on to off
    assert_eq!(machine.cpu().read_reg(0xF), 0);
    let drawn: Vec<u8> = machine.get_display_buffer().clone();
    // top-left bit of the first row lands at column 60, row 30
    assert_eq!(drawn[30 * 64 + 60], 1);
    // the row wraps horizontally: bit 4 of the first row lands at column 0
    assert_eq!(drawn[30 * 64 + 0], 1);
    // the sprite wraps vertically: its third row lands at row 0
    assert_eq!(drawn[0 * 64 + 60], 1);
    assert_ne!(drawn, blank);

    machine.run_instruction().unwrap();
    // the second identical draw restores the prior (blank) display, and
    // its collision flag is set: the sprite bits all sat on pixels that
    // were off before the first draw
    assert_eq!(machine.cpu().read_reg(0xF), 1);
    let restored: Vec<u8> = machine.get_display_buffer().clone();
    assert_eq!(restored, blank);
}

#[test]
fn draw_at_width_and_height_wraps_to_origin() {
    // x = 64 and y = 32 wrap exactly to column 0, row 0
    let mut rom = vec![
        0xA3, 0x00, // I = 0x300
        0x60, 0x40, // V0 = 64
        0x61, 0x20, // V1 = 32
        0xD0, 0x11, // draw 1 row at (V0, V1)
    ];
    rom.resize(0x100, 0);
    rom.push(0x80); // a single lit pixel, the leftmost bit
    let mut machine = loaded(&rom);
    for _ in 0..4 {
        machine.run_instruction().unwrap();
    }
    let buffer = machine.get_display_buffer();
    assert_eq!(buffer[0], 1);
    assert_eq!(buffer.iter().filter(|&&c| c == 1).count(), 1);
}

#[test]
fn clear_display_opcode_blanks_screen() {
    let mut rom = vec![
        0xA3, 0x00, // I = 0x300
        0xD0, 0x11, // draw 1 row at (V0, V1) = (0, 0)
        0x00, 0xE0, // clear the display
    ];
    rom.resize(0x100, 0);
    rom.push(0xFF);
    let mut machine = loaded(&rom);
    machine.run_instruction().unwrap();
    machine.run_instruction().unwrap();
    assert!(machine.get_display_buffer().iter().any(|&c| c == 1));
    machine.run_instruction().unwrap();
    assert!(machine.get_display_buffer().iter().all(|&c| c == 0));
}

#[test]
fn key_wait_blocks_until_key_pressed() {
    let mut machine = loaded(&[0xF0, 0x0A]);
    machine.run_instruction().unwrap();
    assert_eq!(machine.cpu().get_pc(), 0x200);
    machine.run_instruction().unwrap();
    assert_eq!(machine.cpu().get_pc(), 0x200);
    machine.set_key_pressed(Some(0x7));
    machine.run_instruction().unwrap();
    assert_eq!(machine.cpu().get_pc(), 0x202);
    assert_eq!(machine.cpu().read_reg(0x0), 0x7);
}

#[test]
fn skip_if_key_opcodes() {
    // V0 = 4; skip-if-pressed does not skip without the key; after the key
    // arrives, a second skip-if-pressed skips over a jump
    let mut machine = loaded(&[
        0x60, 0x04, // V0 = 4
        0xE0, 0x9E, // skip next if key V0 pressed (it is not)
        0xE0, 0xA1, // skip next if key V0 not pressed (it is not: skip)
        0x00, 0x00, // skipped
        0xE0, 0x9E, // skip next if key V0 pressed (now it is)
        0x00, 0x00, // skipped
        0x61, 0x01, // V1 = 1
    ]);
    machine.run_instruction().unwrap();
    machine.run_instruction().unwrap();
    assert_eq!(machine.cpu().get_pc(), 0x204);
    machine.run_instruction().unwrap();
    assert_eq!(machine.cpu().get_pc(), 0x208);
    machine.set_key_pressed(Some(0x4));
    machine.run_instruction().unwrap();
    assert_eq!(machine.cpu().get_pc(), 0x20C);
    machine.run_instruction().unwrap();
    assert_eq!(machine.cpu().read_reg(0x1), 1);
}

#[test]
fn delay_timer_opcodes() {
    let mut machine = loaded(&[
        0x60, 0x05, // V0 = 5
        0xF0, 0x15, // delay timer = V0
        0xF1, 0x07, // V1 = delay timer
    ]);
    machine.run_instruction().unwrap();
    machine.run_instruction().unwrap();
    assert_eq!(machine.bus().get_delay_timer(), 5);
    // the next step ticks the timer down to 4 before reading it
    machine.run_instruction().unwrap();
    assert_eq!(machine.cpu().read_reg(0x1), 4);
    assert_eq!(machine.bus().get_delay_timer(), 4);
}

#[test]
fn return_with_empty_stack_fails() {
    let mut machine = loaded(&[0x00, 0xEE]);
    assert_eq!(machine.run_instruction(), Err(Chip8Error::StackUnderflow));
    // the failed step leaves the interpreter where it was
    assert_eq!(machine.cpu().get_pc(), 0x200);
}

#[test]
fn unknown_opcode_fails() {
    let mut machine = loaded(&[0xF0, 0xFF]);
    assert_eq!(
        machine.run_instruction(),
        Err(Chip8Error::UnknownOpcode(0xF0FF))
    );
}

#[test]
fn bcd_store_past_memory_end_fails() {
    let mut machine = loaded(&[
        0xAF, 0xFF, // I = 0xFFF
        0xF0, 0x33, // BCD store at I, I+1, I+2: reaches past memory
    ]);
    machine.run_instruction().unwrap();
    assert_eq!(
        machine.run_instruction(),
        Err(Chip8Error::MemoryOutOfBounds(4096))
    );
}

#[test]
fn rom_larger_than_memory_is_rejected() {
    let mut machine = Chip8::new();
    let data: Vec<u8> = vec![0; 4096 - 0x200 + 1];
    assert_eq!(
        machine.load_rom(&data),
        Err(Chip8Error::MemoryOutOfBounds(4096))
    );
    let largest: Vec<u8> = vec![0x77; 4096 - 0x200];
    machine.load_rom(&largest).unwrap();
    assert_eq!(machine.bus().ram_read_byte(0x200).unwrap(), 0x77);
    assert_eq!(machine.bus().ram_read_byte(0xFFF).unwrap(), 0x77);
}

#[test]
fn load_rom_places_image_at_origin() {
    let machine = loaded(&[0xAB, 0xCD, 0xEF]);
    assert_eq!(machine.bus().ram_read_byte(0x200).unwrap(), 0xAB);
    assert_eq!(machine.bus().ram_read_byte(0x201).unwrap(), 0xCD);
    assert_eq!(machine.bus().ram_read_byte(0x202).unwrap(), 0xEF);
    assert_eq!(machine.bus().ram_read_byte(0x203).unwrap(), 0x00);
}
