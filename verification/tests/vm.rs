use chip8_core::{Emu, Instr, VmError};

fn boot(rom: &[u8]) -> Emu {
    let mut e = Emu::new();
    e.load(rom).unwrap();
    e
}

fn run(e: &mut Emu, ticks: usize) {
    let mut k: usize = 0;
    while k < ticks {
        e.tick().unwrap();
        k += 1;
    }
}

#[test]
fn decode_is_total_and_deterministic() {
    let mut w: u32 = 0;
    while w <= 0xFFFF {
        assert_eq!(chip8_core::instr::decode(w as u16), chip8_core::instr::decode(w as u16));
        w += 1;
    }
    assert_eq!(chip8_core::instr::decode(0x00E0), Some(Instr::Cls));
    assert_eq!(chip8_core::instr::decode(0x00EE), Some(Instr::Ret));
    assert_eq!(chip8_core::instr::decode(0x1ABC), Some(Instr::Jump { nnn: 0xABC }));
    assert_eq!(chip8_core::instr::decode(0x2ABC), Some(Instr::Call { nnn: 0xABC }));
    assert_eq!(chip8_core::instr::decode(0x3A42), Some(Instr::SkipEqImm { x: 0xA, nn: 0x42 }));
    assert_eq!(chip8_core::instr::decode(0x4A42), Some(Instr::SkipNeImm { x: 0xA, nn: 0x42 }));
    assert_eq!(chip8_core::instr::decode(0x5AB0), Some(Instr::SkipEqReg { x: 0xA, y: 0xB }));
    assert_eq!(chip8_core::instr::decode(0x6A42), Some(Instr::SetImm { x: 0xA, nn: 0x42 }));
    assert_eq!(chip8_core::instr::decode(0x7A42), Some(Instr::AddImm { x: 0xA, nn: 0x42 }));
    assert_eq!(chip8_core::instr::decode(0x8AB0), Some(Instr::MovReg { x: 0xA, y: 0xB }));
    assert_eq!(chip8_core::instr::decode(0x8AB1), Some(Instr::OrReg { x: 0xA, y: 0xB }));
    assert_eq!(chip8_core::instr::decode(0x8AB2), Some(Instr::AndReg { x: 0xA, y: 0xB }));
    assert_eq!(chip8_core::instr::decode(0x8AB3), Some(Instr::XorReg { x: 0xA, y: 0xB }));
    assert_eq!(chip8_core::instr::decode(0x8AB4), Some(Instr::AddReg { x: 0xA, y: 0xB }));
    assert_eq!(chip8_core::instr::decode(0x8AB5), Some(Instr::SubReg { x: 0xA, y: 0xB }));
    assert_eq!(chip8_core::instr::decode(0x8AB6), Some(Instr::ShrReg { x: 0xA }));
    assert_eq!(chip8_core::instr::decode(0x8AB7), Some(Instr::SubFrom { x: 0xA, y: 0xB }));
    assert_eq!(chip8_core::instr::decode(0x8ABE), Some(Instr::ShlReg { x: 0xA }));
    assert_eq!(chip8_core::instr::decode(0x9AB0), Some(Instr::SkipNeReg { x: 0xA, y: 0xB }));
    assert_eq!(chip8_core::instr::decode(0xAABC), Some(Instr::SetIndex { nnn: 0xABC }));
    assert_eq!(chip8_core::instr::decode(0xBABC), Some(Instr::JumpV0 { nnn: 0xABC }));
    assert_eq!(chip8_core::instr::decode(0xCA42), Some(Instr::Rand { x: 0xA, nn: 0x42 }));
    assert_eq!(chip8_core::instr::decode(0xDAB5), Some(Instr::Draw { x: 0xA, y: 0xB, n: 5 }));
    assert_eq!(chip8_core::instr::decode(0xEA9E), Some(Instr::SkipKey { x: 0xA }));
    assert_eq!(chip8_core::instr::decode(0xEAA1), Some(Instr::SkipNoKey { x: 0xA }));
    assert_eq!(chip8_core::instr::decode(0xFA07), Some(Instr::GetDelay { x: 0xA }));
    assert_eq!(chip8_core::instr::decode(0xFA0A), Some(Instr::WaitKey { x: 0xA }));
    assert_eq!(chip8_core::instr::decode(0xFA15), Some(Instr::SetDelay { x: 0xA }));
    assert_eq!(chip8_core::instr::decode(0xFA18), Some(Instr::SetSound { x: 0xA }));
    assert_eq!(chip8_core::instr::decode(0xFA1E), Some(Instr::AddIndex { x: 0xA }));
    assert_eq!(chip8_core::instr::decode(0xFA29), Some(Instr::FontChar { x: 0xA }));
    assert_eq!(chip8_core::instr::decode(0xFA33), Some(Instr::Bcd { x: 0xA }));
    assert_eq!(chip8_core::instr::decode(0xFA55), Some(Instr::StoreRegs { x: 0xA }));
    assert_eq!(chip8_core::instr::decode(0xFA65), Some(Instr::LoadRegs { x: 0xA }));
    assert_eq!(chip8_core::instr::decode(0x0000), None);
    assert_eq!(chip8_core::instr::decode(0x5AB1), None);
    assert_eq!(chip8_core::instr::decode(0x8AB8), None);
    assert_eq!(chip8_core::instr::decode(0x9AB1), None);
    assert_eq!(chip8_core::instr::decode(0xEAFF), None);
    assert_eq!(chip8_core::instr::decode(0xFAFF), None);
}

#[test]
fn set_register_immediate() {
    let mut e = boot(&[0x6A, 0x42]);
    run(&mut e, 1);
    assert_eq!(e.reg(0xA), 0x42);
    assert_eq!(e.pc(), 0x202);
}

#[test]
fn add_immediate_wraps_without_flag() {
    let mut e = boot(&[0x6A, 0xFF, 0x7A, 0x01]);
    run(&mut e, 2);
    assert_eq!(e.reg(0xA), 0x00);
    assert_eq!(e.reg(0xF), 0x00);
}

#[test]
fn add_register_carry() {
    let mut e = boot(&[0x6A, 0xFF, 0x6B, 0x01, 0x8A, 0xB4]);
    run(&mut e, 3);
    assert_eq!(e.reg(0xA), 0x00);
    assert_eq!(e.reg(0xF), 1);

    let mut e = boot(&[0x6A, 0x01, 0x6B, 0x01, 0x8A, 0xB4]);
    run(&mut e, 3);
    assert_eq!(e.reg(0xA), 0x02);
    assert_eq!(e.reg(0xF), 0);
}

#[test]
fn sub_register_borrow() {
    let mut e = boot(&[0x6A, 0x01, 0x6B, 0x02, 0x8A, 0xB5]);
    run(&mut e, 3);
    assert_eq!(e.reg(0xA), 0xFF);
    assert_eq!(e.reg(0xF), 0);

    let mut e = boot(&[0x6A, 0x02, 0x6B, 0x01, 0x8A, 0xB5]);
    run(&mut e, 3);
    assert_eq!(e.reg(0xA), 0x01);
    assert_eq!(e.reg(0xF), 1);
}

#[test]
fn sub_from_register() {
    let mut e = boot(&[0x6A, 0x01, 0x6B, 0x05, 0x8A, 0xB7]);
    run(&mut e, 3);
    assert_eq!(e.reg(0xA), 0x04);
    assert_eq!(e.reg(0xF), 1);

    let mut e = boot(&[0x6A, 0x05, 0x6B, 0x01, 0x8A, 0xB7]);
    run(&mut e, 3);
    assert_eq!(e.reg(0xA), 0xFC);
    assert_eq!(e.reg(0xF), 0);
}

#[test]
fn bitwise_and_shift_ops() {
    let mut e = boot(&[0x6A, 0x0C, 0x6B, 0x0A, 0x8A, 0xB1]);
    run(&mut e, 3);
    assert_eq!(e.reg(0xA), 0x0E);

    let mut e = boot(&[0x6A, 0x0C, 0x6B, 0x0A, 0x8A, 0xB2]);
    run(&mut e, 3);
    assert_eq!(e.reg(0xA), 0x08);

    let mut e = boot(&[0x6A, 0x0C, 0x6B, 0x0A, 0x8A, 0xB3]);
    run(&mut e, 3);
    assert_eq!(e.reg(0xA), 0x06);

    let mut e = boot(&[0x6A, 0x0C, 0x8A, 0xB0, 0x6B, 0x0A]);
    run(&mut e, 2);
    assert_eq!(e.reg(0xA), 0x00);

    let mut e = boot(&[0x6A, 0x05, 0x8A, 0xB6]);
    run(&mut e, 2);
    assert_eq!(e.reg(0xA), 0x02);
    assert_eq!(e.reg(0xF), 1);

    let mut e = boot(&[0x6A, 0x81, 0x8A, 0xBE]);
    run(&mut e, 2);
    assert_eq!(e.reg(0xA), 0x02);
    assert_eq!(e.reg(0xF), 1);
}

#[test]
fn skip_instructions() {
    let mut e = boot(&[0x6A, 0x42, 0x3A, 0x42]);
    run(&mut e, 2);
    assert_eq!(e.pc(), 0x206);

    let mut e = boot(&[0x6A, 0x42, 0x3A, 0x43]);
    run(&mut e, 2);
    assert_eq!(e.pc(), 0x204);

    let mut e = boot(&[0x6A, 0x42, 0x4A, 0x43]);
    run(&mut e, 2);
    assert_eq!(e.pc(), 0x206);

    let mut e = boot(&[0x6A, 0x42, 0x6B, 0x42, 0x5A, 0xB0]);
    run(&mut e, 3);
    assert_eq!(e.pc(), 0x208);

    let mut e = boot(&[0x6A, 0x42, 0x6B, 0x43, 0x9A, 0xB0]);
    run(&mut e, 3);
    assert_eq!(e.pc(), 0x208);
}

#[test]
fn jumps() {
    let mut e = boot(&[0x1A, 0xBC]);
    run(&mut e, 1);
    assert_eq!(e.pc(), 0xABC);

    let mut e = boot(&[0x60, 0x05, 0xB3, 0x00]);
    run(&mut e, 2);
    assert_eq!(e.pc(), 0x305);
}

#[test]
fn stack_round_trip() {
    let mut e = boot(&[0x22, 0x08, 0x00, 0x00, 0x00, 0x00, 0x00, 0x00, 0x00, 0xEE]);
    run(&mut e, 1);
    assert_eq!(e.pc(), 0x208);
    assert_eq!(e.stack_ptr(), 1);
    run(&mut e, 1);
    assert_eq!(e.pc(), 0x202);
    assert_eq!(e.stack_ptr(), 0);
}

#[test]
fn double_draw_restores_display_and_collides() {
    // I = 0 selects the built-in glyph for 0; draw it twice at (5, 3).
    let mut e = boot(&[0x6A, 0x05, 0x6B, 0x03, 0xA0, 0x00, 0xDA, 0xB5, 0xDA, 0xB5]);
    run(&mut e, 4);
    assert_eq!(e.reg(0xF), 0);
    let display = e.get_display();
    assert!(display[3 * 64 + 5]);
    assert!(display[3 * 64 + 6]);
    let mut lit: usize = 0;
    for cell in display.iter() {
        if *cell {
            lit += 1;
        }
    }
    assert!(lit > 0);
    run(&mut e, 1);
    assert_eq!(e.reg(0xF), 1);
    for cell in e.get_display().iter() {
        assert!(!*cell);
    }
}

#[test]
fn draw_wraps_around_right_edge() {
    // Glyph 0's top row is 0xF0: columns 0..4 lit.  Drawn at x = 63 the
    // second column wraps to x = 0.
    let mut e = boot(&[0x6A, 0x3F, 0x6B, 0x00, 0xA0, 0x00, 0xDA, 0xB1]);
    run(&mut e, 4);
    let display = e.get_display();
    assert!(display[63]);
    assert!(display[0]);
    assert!(display[1]);
    assert!(display[2]);
    assert!(!display[3]);
    assert_eq!(e.reg(0xF), 0);
}

#[test]
fn clear_display() {
    let mut e = boot(&[0xA0, 0x00, 0xDA, 0xB5, 0x00, 0xE0]);
    run(&mut e, 3);
    for cell in e.get_display().iter() {
        assert!(!*cell);
    }
    assert_eq!(e.get_display().len(), 2048);
}

#[test]
fn bcd_digits() {
    let mut e = boot(&[0x6A, 0x9D, 0xA3, 0x00, 0xFA, 0x33]);
    run(&mut e, 3);
    assert_eq!(e.ram_byte(0x300), 1);
    assert_eq!(e.ram_byte(0x301), 5);
    assert_eq!(e.ram_byte(0x302), 7);
}

#[test]
fn timers_count_down_and_hold_at_zero() {
    let mut e = boot(&[0x6A, 0x05, 0xFA, 0x15, 0xFA, 0x18]);
    run(&mut e, 3);
    assert_eq!(e.delay_timer(), 5);
    assert_eq!(e.sound_timer(), 5);
    for _ in 0..5 {
        e.tick_timers();
    }
    assert_eq!(e.delay_timer(), 0);
    assert_eq!(e.sound_timer(), 0);
    e.tick_timers();
    assert_eq!(e.delay_timer(), 0);
    assert_eq!(e.sound_timer(), 0);
}

#[test]
fn get_delay_into_register() {
    let mut e = boot(&[0x6A, 0x07, 0xFA, 0x15, 0xFB, 0x07]);
    run(&mut e, 3);
    assert_eq!(e.reg(0xB), 7);
}

#[test]
fn reset_restores_baseline() {
    let mut e = boot(&[0x6A, 0x42, 0xA0, 0x00, 0xDA, 0xB5, 0x22, 0x0A]);
    run(&mut e, 4);
    e.keypress(2, true).unwrap();
    e.reset();
    assert_eq!(e.pc(), 0x200);
    assert_eq!(e.index_reg(), 0);
    assert_eq!(e.stack_ptr(), 0);
    assert_eq!(e.delay_timer(), 0);
    assert_eq!(e.sound_timer(), 0);
    for x in 0..16usize {
        assert_eq!(e.reg(x), 0);
        assert!(!e.key(x));
    }
    for cell in e.get_display().iter() {
        assert!(!*cell);
    }
    // Program memory is gone, the font is back in place.
    assert_eq!(e.ram_byte(0x200), 0);
    assert_eq!(e.ram_byte(0), 0xF0);
    assert_eq!(e.ram_byte(79), 0x80);
}

#[test]
fn font_loaded_at_construction() {
    let e = Emu::new();
    assert_eq!(e.pc(), 0x200);
    assert_eq!(e.ram_byte(0), 0xF0);
    assert_eq!(e.ram_byte(5), 0x20);
    assert_eq!(e.ram_byte(79), 0x80);
}

#[test]
fn font_char_address() {
    let mut e = boot(&[0x6A, 0x07, 0xFA, 0x29]);
    run(&mut e, 2);
    assert_eq!(e.index_reg(), 35);
}

#[test]
fn add_index_wraps_sixteen_bits() {
    // I starts at 0xFFF; 257 additions of 0xFF pass 0xFFFF and wrap.
    let mut rom: Vec<u8> = vec![0xAF, 0xFF, 0x6A, 0xFF];
    for _ in 0..257 {
        rom.push(0xFA);
        rom.push(0x1E);
    }
    let mut e = boot(rom.as_slice());
    run(&mut e, 2 + 257);
    assert_eq!(e.index_reg(), 0x0FFE);
}

#[test]
fn store_and_load_registers() {
    let mut e = boot(&[
        0x60, 0x11, 0x61, 0x22, 0x62, 0x33, 0xA3, 0x00, 0xF2, 0x55, 0x60, 0x00, 0x61, 0x00, 0x62,
        0x00, 0xF2, 0x65,
    ]);
    run(&mut e, 5);
    assert_eq!(e.ram_byte(0x300), 0x11);
    assert_eq!(e.ram_byte(0x301), 0x22);
    assert_eq!(e.ram_byte(0x302), 0x33);
    assert_eq!(e.ram_byte(0x303), 0);
    run(&mut e, 4);
    assert_eq!(e.reg(0), 0x11);
    assert_eq!(e.reg(1), 0x22);
    assert_eq!(e.reg(2), 0x33);
}

#[test]
fn random_byte_is_masked() {
    let mut e = boot(&[0xCA, 0x0F]);
    run(&mut e, 1);
    assert_eq!(e.reg(0xA) & 0xF0, 0);

    let mut e = boot(&[0xCA, 0x00]);
    run(&mut e, 1);
    assert_eq!(e.reg(0xA), 0);
}

#[test]
fn skip_on_key_state() {
    let mut e = boot(&[0x6A, 0x03, 0xEA, 0x9E]);
    e.keypress(3, true).unwrap();
    run(&mut e, 2);
    assert_eq!(e.pc(), 0x206);

    let mut e = boot(&[0x6A, 0x03, 0xEA, 0x9E]);
    run(&mut e, 2);
    assert_eq!(e.pc(), 0x204);

    let mut e = boot(&[0x6A, 0x03, 0xEA, 0xA1]);
    run(&mut e, 2);
    assert_eq!(e.pc(), 0x206);

    let mut e = boot(&[0x6A, 0x03, 0xEA, 0xA1]);
    e.keypress(3, true).unwrap();
    run(&mut e, 2);
    assert_eq!(e.pc(), 0x204);
}

#[test]
fn wait_key_polls_and_takes_lowest() {
    let mut e = boot(&[0xFA, 0x0A]);
    run(&mut e, 1);
    assert_eq!(e.pc(), 0x200);
    run(&mut e, 1);
    assert_eq!(e.pc(), 0x200);
    e.keypress(7, true).unwrap();
    e.keypress(3, true).unwrap();
    run(&mut e, 1);
    assert_eq!(e.pc(), 0x202);
    assert_eq!(e.reg(0xA), 3);
}

#[test]
fn keypress_toggles_state() {
    let mut e = Emu::new();
    e.keypress(5, true).unwrap();
    assert!(e.key(5));
    e.keypress(5, false).unwrap();
    assert!(!e.key(5));
}

#[test]
fn unknown_opcode_is_fatal_and_harmless() {
    let mut e = boot(&[0xFF, 0xFF]);
    assert_eq!(e.tick(), Err(VmError::UnknownOpcode { op: 0xFFFF, pc: 0x200 }));
    assert_eq!(e.pc(), 0x200);

    let mut e = Emu::new();
    assert_eq!(e.tick(), Err(VmError::UnknownOpcode { op: 0x0000, pc: 0x200 }));
    assert_eq!(e.pc(), 0x200);
}

#[test]
fn stack_underflow_is_fatal() {
    let mut e = boot(&[0x00, 0xEE]);
    assert_eq!(e.tick(), Err(VmError::StackUnderflow));
    assert_eq!(e.pc(), 0x200);
    assert_eq!(e.stack_ptr(), 0);
}

#[test]
fn stack_overflow_is_fatal() {
    let mut rom: Vec<u8> = vec![];
    for k in 0..17u16 {
        rom.push(0x22);
        rom.push((0x02 + 2 * k) as u8);
    }
    let mut e = boot(rom.as_slice());
    run(&mut e, 16);
    assert_eq!(e.stack_ptr(), 16);
    let pc_before: u16 = e.pc();
    assert_eq!(e.tick(), Err(VmError::StackOverflow));
    assert_eq!(e.pc(), pc_before);
    assert_eq!(e.stack_ptr(), 16);
}

#[test]
fn fetch_out_of_bounds_is_fatal() {
    let mut e = boot(&[0x1F, 0xFF]);
    run(&mut e, 1);
    assert_eq!(e.pc(), 0xFFF);
    assert_eq!(e.tick(), Err(VmError::MemOutOfBounds));
    assert_eq!(e.pc(), 0xFFF);
}

#[test]
fn indexed_access_out_of_bounds_is_fatal() {
    let mut e = boot(&[0xAF, 0xFF, 0xFA, 0x33]);
    run(&mut e, 1);
    assert_eq!(e.tick(), Err(VmError::MemOutOfBounds));

    let mut e = boot(&[0xAF, 0xFE, 0xDA, 0xB5]);
    run(&mut e, 1);
    assert_eq!(e.tick(), Err(VmError::MemOutOfBounds));

    let mut e = boot(&[0xAF, 0xFE, 0xF5, 0x55]);
    run(&mut e, 1);
    assert_eq!(e.tick(), Err(VmError::MemOutOfBounds));

    let mut e = boot(&[0xAF, 0xFE, 0xF5, 0x65]);
    run(&mut e, 1);
    assert_eq!(e.tick(), Err(VmError::MemOutOfBounds));
}

#[test]
fn invalid_key_index_is_fatal() {
    let mut e = Emu::new();
    assert_eq!(e.keypress(16, true), Err(VmError::InvalidKey));

    let mut e = boot(&[0x6A, 0xFF, 0xEA, 0x9E]);
    run(&mut e, 1);
    assert_eq!(e.tick(), Err(VmError::InvalidKey));

    let mut e = boot(&[0x6A, 0x10, 0xEA, 0xA1]);
    run(&mut e, 1);
    assert_eq!(e.tick(), Err(VmError::InvalidKey));
}

#[test]
fn load_rejects_oversized_program() {
    let mut e = Emu::new();
    let big: Vec<u8> = vec![0u8; 3585];
    assert_eq!(e.load(big.as_slice()), Err(VmError::MemOutOfBounds));
    let exact: Vec<u8> = vec![0u8; 3584];
    assert_eq!(e.load(exact.as_slice()), Ok(()));
}
