use nibble_8_core::memory::Bus;
use nibble_8_core::Cpu;

fn setup() -> (Cpu, Bus) {
    (Cpu::new(), Bus::new())
}

fn setup_with_sprite(bus: &mut Bus, cpu: &mut Cpu, address: u16, data: u8) {
    bus.memory[address as usize] = data;
    cpu.i = address;
}

#[test]
fn test_fetch_opcode_logic() {
    let (mut cpu, mut bus) = setup();

    let dummy_rom = [0x12, 0x34];

    bus.load_rom(&dummy_rom).unwrap();

    let opcode = cpu.fetch(&bus);
    // bytes should be successfully fetched and combined into a u16 opcode (Big Endian)
    assert_eq!(opcode, 0x1234);
    // pc should move forward upon reading bytes from memory (2 bytes at a time)
    assert_eq!(cpu.pc, 0x202);
}

#[test]
fn test_op_cls() {
    let (mut cpu, mut bus) = setup();
    setup_with_sprite(&mut bus, &mut cpu, 0x400, 0xF0);

    cpu.v_registers[0] = 10;
    cpu.v_registers[1] = 10;

    // Draw something first
    cpu.execute(0xD011, &mut bus);
    assert_eq!(bus.get_pixel(10, 10), 1);

    // Test the Clear
    cpu.execute(0x00E0, &mut bus);
    assert_eq!(bus.get_pixel(10, 10), 0);
}

#[test]
fn test_op_ret() {
    let (mut cpu, mut bus) = setup();
    cpu.pc = 0x532;
    cpu.sp = 3;
    cpu.stack[cpu.sp as usize] = 0x123;

    let old_sp = cpu.sp;

    cpu.execute(0x00EE, &mut bus);
    assert_eq!(cpu.pc, 0x123);
    assert_eq!(cpu.sp, old_sp - 1);
}

#[test]
fn test_op_1nnn_jump() {
    let (mut cpu, mut bus) = setup();

    cpu.execute(0x1234, &mut bus);
    assert_eq!(cpu.pc, 0x234);
}

#[test]
fn test_op_2nnn_call() {
    let (mut cpu, mut bus) = setup();

    let old_pc = cpu.pc;

    cpu.execute(0x2432, &mut bus);
    assert_eq!(cpu.sp, 1);
    assert_eq!(cpu.stack[cpu.sp as usize], old_pc);
    assert_eq!(cpu.pc, 0x432);
}

#[test]
fn test_op_3xkk_skip_eq() {
    let (mut cpu, mut bus) = setup();

    cpu.v_registers[0x6] = 0x78;
    let old_pc = cpu.pc;

    cpu.execute(0x3612, &mut bus);
    assert_ne!(cpu.v_registers[0x6], 0x12);
    assert_eq!(cpu.pc, old_pc);

    cpu.execute(0x3678, &mut bus);
    assert_eq!(cpu.v_registers[0x6], 0x78);
    assert_eq!(cpu.pc, old_pc + 2);
}

#[test]
fn test_op_4xkk_skip_not_eq() {
    let (mut cpu, mut bus) = setup();

    cpu.v_registers[0x6] = 0x78;
    let old_pc = cpu.pc;

    cpu.execute(0x4678, &mut bus);
    assert_eq!(cpu.v_registers[0x6], 0x78);
    assert_eq!(cpu.pc, old_pc);

    cpu.execute(0x4612, &mut bus);
    assert_ne!(cpu.v_registers[0x6], 0x12);
    assert_eq!(cpu.pc, old_pc + 2);
}

#[test]
fn test_op_5xy0_skip_reg_eq() {
    let (mut cpu, mut bus) = setup();

    cpu.v_registers[0x6] = 0x78;
    cpu.v_registers[0x7] = 0x67;
    let old_pc = cpu.pc;

    cpu.execute(0x5670, &mut bus);
    assert_ne!(cpu.v_registers[0x6], cpu.v_registers[0x7]);
    assert_eq!(cpu.pc, old_pc);

    cpu.v_registers[0x6] = 0x67;
    cpu.execute(0x5670, &mut bus);
    assert_eq!(cpu.v_registers[0x6], cpu.v_registers[0x7]);
    assert_eq!(cpu.pc, old_pc + 2);
}

#[test]
fn test_op_6xkk_load() {
    let (mut cpu, mut bus) = setup();

    cpu.execute(0x6350, &mut bus);
    assert_eq!(cpu.v_registers[3], 0x50);
}

#[test]
fn test_op_7xkk_add() {
    let (mut cpu, mut bus) = setup();
    cpu.v_registers[1] = 0xFE; // 254

    // Add 3 to register 1 (should result in 1, wrapping around)
    cpu.execute(0x7103, &mut bus);

    assert_eq!(cpu.v_registers[1], 0x01);
    assert_eq!(cpu.v_registers[0xF], 0, "VF should NOT be affected by 7XKK");
}

#[test]
fn test_op_8xy0_load() {
    let (mut cpu, mut bus) = setup();

    cpu.v_registers[0x7] = 0x42;
    cpu.v_registers[0x4] = 0x00;

    cpu.execute(0x8470, &mut bus);
    assert_eq!(cpu.v_registers[0x4], cpu.v_registers[0x7]);
}

#[test]
fn test_op_8xy1_or() {
    let (mut cpu, mut bus) = setup();

    cpu.v_registers[0x7] = 0x42;
    cpu.v_registers[0x4] = 0x54;

    cpu.execute(0x8471, &mut bus);
    assert_eq!(cpu.v_registers[0x4], 0x56);
}

#[test]
fn test_op_8xy2_and() {
    let (mut cpu, mut bus) = setup();

    cpu.v_registers[0x7] = 0x42;
    cpu.v_registers[0x4] = 0x54;

    cpu.execute(0x8472, &mut bus);
    assert_eq!(cpu.v_registers[0x4], 0x40);
}

#[test]
fn test_op_8xy3_xor() {
    let (mut cpu, mut bus) = setup();

    cpu.v_registers[0x7] = 0x42;
    cpu.v_registers[0x4] = 0x54;

    cpu.execute(0x8473, &mut bus);
    assert_eq!(cpu.v_registers[0x4], 0x16);
}

#[test]
fn test_op_8xy4_add_reg() {
    let (mut cpu, mut bus) = setup();

    cpu.v_registers[0x7] = 0x42;
    cpu.v_registers[0x4] = 0x54;

    // carry flag should be 0 at start
    assert_eq!(cpu.v_registers[0xF], 0);
    cpu.execute(0x8474, &mut bus);
    // should still be 0, since result < 255
    assert_eq!(cpu.v_registers[0xF], 0);
    assert_eq!(cpu.v_registers[0x4], 0x96);

    cpu.v_registers[0x7] = 0x96;
    cpu.execute(0x8474, &mut bus);
    // carry flag should be set to 1, since result > 255
    assert_eq!(cpu.v_registers[0xF], 1);
    assert_eq!(cpu.v_registers[0x4], 0x2C);

    cpu.v_registers[0x7] = 0x01;
    cpu.v_registers[0x4] = 0x01;
    cpu.execute(0x8474, &mut bus);
    // carry flag should be set back to 0, since result < 255
    assert_eq!(cpu.v_registers[0xF], 0);
}

#[test]
fn test_op_8xy5_sub_reg() {
    let (mut cpu, mut bus) = setup();

    cpu.v_registers[0x4] = 0x54;
    cpu.v_registers[0x7] = 0x42;

    // carry flag should be 0 at start
    assert_eq!(cpu.v_registers[0xF], 0);
    cpu.execute(0x8475, &mut bus);
    // should become 1, since VX > VY
    assert_eq!(cpu.v_registers[0xF], 1);
    assert_eq!(cpu.v_registers[0x4], 0x12);

    cpu.execute(0x8475, &mut bus);
    // carry flag should become 0, since VX < VY
    assert_eq!(cpu.v_registers[0xF], 0);
    // underflow should be handled correctly
    assert_eq!(cpu.v_registers[0x4], 0xD0);
}

// If the least-significant bit of Vx is 1, then VF is set to 1, otherwise 0.
// Then Vx is divided by 2. This engine uses the modern in-place convention:
// the shift reads and writes Vx alone and ignores Vy.
#[test]
fn test_op_8xy6_shr() {
    let (mut cpu, mut bus) = setup();

    cpu.v_registers[0x4] = 0xA9;
    // carry flag should be 0 at start
    assert_eq!(cpu.v_registers[0xF], 0);
    cpu.execute(0x8476, &mut bus);
    // carry flag should be set to 1, since lsb is 1
    assert_eq!(cpu.v_registers[0xF], 1);
    assert_eq!(cpu.v_registers[0x4], 0x54);

    cpu.execute(0x8476, &mut bus);
    // carry flag should be set to 0, since lsb is 0
    assert_eq!(cpu.v_registers[0xF], 0);
    assert_eq!(cpu.v_registers[0x4], 0x2A);
}

#[test]
fn test_op_annn_load_i() {
    let (mut cpu, mut bus) = setup();

    cpu.execute(0xA123, &mut bus);
    assert_eq!(cpu.i, 0x123);
}

#[test]
fn test_op_dxyn_draw() {
    let (mut cpu, mut bus) = setup();
    setup_with_sprite(&mut bus, &mut cpu, 0x400, 0xF0);

    cpu.v_registers[0] = 10;
    cpu.v_registers[1] = 10;

    cpu.execute(0xD011, &mut bus);
    assert_eq!(bus.get_pixel(10, 10), 1);
    assert_eq!(cpu.v_registers[0xF], 0);

    // Test Collision
    cpu.execute(0xD011, &mut bus);
    assert_eq!(bus.get_pixel(10, 10), 0);
    assert_eq!(cpu.v_registers[0xF], 1);
}
