use nibble_8_core::memory::{Bus, Keypad};
use nibble_8_core::Cpu;

#[test]
fn test_add_reg_no_carry_at_exactly_255() {
    let (mut cpu, mut bus) = (Cpu::new(), Bus::new());
    cpu.v_registers[0] = 0xFE;
    cpu.v_registers[1] = 0x01;

    cpu.execute(0x8014, &mut bus);
    // A raw sum of exactly 255 does not overflow: no carry.
    assert_eq!(cpu.v_registers[0], 0xFF);
    assert_eq!(cpu.v_registers[0xF], 0);
}

#[test]
fn test_sub_reg_equal_operands_no_borrow() {
    let (mut cpu, mut bus) = (Cpu::new(), Bus::new());
    cpu.v_registers[0] = 0x42;
    cpu.v_registers[1] = 0x42;

    cpu.execute(0x8015, &mut bus);
    // Minuend equals subtrahend: no borrow, so the flag is 1 and the result 0.
    assert_eq!(cpu.v_registers[0], 0x00);
    assert_eq!(cpu.v_registers[0xF], 1);
}

#[test]
fn test_call_then_ret_round_trip() {
    let (mut cpu, mut bus) = (Cpu::new(), Bus::new());
    let old_pc = cpu.pc;
    let old_sp = cpu.sp;

    cpu.execute(0x2ABC, &mut bus);
    assert_eq!(cpu.pc, 0xABC);
    assert_eq!(cpu.sp, old_sp + 1);

    cpu.execute(0x00EE, &mut bus);
    assert_eq!(cpu.pc, old_pc);
    assert_eq!(cpu.sp, old_sp);
}

#[test]
fn test_draw_twice_restores_display() {
    let (mut cpu, mut bus) = (Cpu::new(), Bus::new());
    // A 5-row glyph drawn onto a patterned background.
    bus.write_pixel(12, 9, 1);
    bus.write_pixel(13, 10, 1);
    let glyph = [0xF0, 0x90, 0x90, 0x90, 0xF0];
    for (offset, byte) in glyph.iter().enumerate() {
        bus.memory[0x400 + offset] = *byte;
    }
    cpu.i = 0x400;
    cpu.v_registers[0] = 12;
    cpu.v_registers[1] = 8;

    cpu.execute(0xD015, &mut bus);
    cpu.execute(0xD015, &mut bus);

    // Double-XOR restored every pixel, and the second draw collided.
    for y in 0..32 {
        for x in 0..64 {
            let expected = if (x, y) == (12, 9) || (x, y) == (13, 10) { 1 } else { 0 };
            assert_eq!(bus.get_pixel(x, y), expected);
        }
    }
    assert_eq!(cpu.v_registers[0xF], 1);
}

#[test]
fn test_draw_clips_at_right_edge() {
    let (mut cpu, mut bus) = (Cpu::new(), Bus::new());
    bus.memory[0x300] = 0xFF;
    cpu.i = 0x300;
    cpu.v_registers[0] = 60;
    cpu.v_registers[1] = 0;

    cpu.execute(0xD011, &mut bus);

    // Columns 60..64 are drawn; the rest of the row is clipped, not wrapped.
    for x in 60..64 {
        assert_eq!(bus.get_pixel(x, 0), 1);
    }
    for x in 0..4 {
        assert_eq!(bus.get_pixel(x, 0), 0);
    }
}

#[test]
fn test_draw_clips_at_bottom_edge() {
    let (mut cpu, mut bus) = (Cpu::new(), Bus::new());
    for offset in 0..5 {
        bus.memory[0x300 + offset] = 0xFF;
    }
    cpu.i = 0x300;
    cpu.v_registers[0] = 0;
    cpu.v_registers[1] = 30;

    cpu.execute(0xD015, &mut bus);

    // Rows 30 and 31 are drawn; rows past the bottom are clipped, not wrapped.
    assert_eq!(bus.get_pixel(0, 30), 1);
    assert_eq!(bus.get_pixel(0, 31), 1);
    assert_eq!(bus.get_pixel(0, 0), 0);
    assert_eq!(bus.get_pixel(0, 1), 0);
}

#[test]
fn test_draw_origin_wraps() {
    let (mut cpu, mut bus) = (Cpu::new(), Bus::new());
    bus.memory[0x300] = 0x80;
    cpu.i = 0x300;
    // Coordinates wrap modulo the display size at the start of the draw.
    cpu.v_registers[0] = 70; // 70 % 64 == 6
    cpu.v_registers[1] = 33; // 33 % 32 == 1

    cpu.execute(0xD011, &mut bus);
    assert_eq!(bus.get_pixel(6, 1), 1);
}

#[test]
fn test_unimplemented_opcode_is_noop() {
    let (mut cpu, mut bus) = (Cpu::new(), Bus::new());
    cpu.v_registers[0] = 7;
    let old_pc = cpu.pc;

    // 9XY0 decodes but is not implemented by the engine: a silent no-op.
    let redraw = cpu.execute(0x9010, &mut bus);
    assert!(!redraw);
    assert_eq!(cpu.pc, old_pc);
    assert_eq!(cpu.v_registers[0], 7);
}

#[test]
fn test_decrease_timers_stop_at_zero() {
    let mut cpu = Cpu::new();
    cpu.delay_timer = 2;
    cpu.sound_timer = 1;

    cpu.decrease_timers();
    assert_eq!(cpu.delay_timer, 1);
    assert_eq!(cpu.sound_timer, 0);

    cpu.decrease_timers();
    assert_eq!(cpu.delay_timer, 0);
    assert_eq!(cpu.sound_timer, 0);

    cpu.decrease_timers();
    assert_eq!(cpu.delay_timer, 0);
    assert_eq!(cpu.sound_timer, 0);
}

#[test]
fn test_keypad_direct() {
    let mut keypad = Keypad::new();
    assert!(!keypad.is_pressed(0xA));

    keypad.set_key(0xA, true);
    assert!(keypad.is_pressed(0xA));
    assert!(!keypad.is_pressed(0xB));

    keypad.set_key(0xA, false);
    assert!(!keypad.is_pressed(0xA));
}

#[test]
fn test_cpu_new_initial_state() {
    let cpu = Cpu::new();
    assert_eq!(cpu.pc, 0x200);
    assert_eq!(cpu.i, 0);
    assert_eq!(cpu.sp, 0);
    assert_eq!(cpu.delay_timer, 0);
    assert_eq!(cpu.sound_timer, 0);
    assert_eq!(cpu.v_registers, vec![0u8; 16]);
    assert_eq!(cpu.stack, vec![0u16; 16]);
}
