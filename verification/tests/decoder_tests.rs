use nibble_8_core::decoder::{decode, OpcodeComponents};
use nibble_8_core::Instruction;

#[test]
fn test_accurate_opcode_component_constructor() {
    let opcode = 0xD123;
    let opcode_components = OpcodeComponents::from(opcode);

    let expected = OpcodeComponents {
        op: 0xD,
        x: 0x1,
        y: 0x2,
        n: 0x3,
        kk: 0x23,
        nnn: 0x123,
    };

    assert_eq!(opcode_components, expected);
}

#[test]
fn test_decode_opcode() {
    let opcode = 0xD123;

    let decoded = decode(opcode);
    assert_eq!(decoded, Some(Instruction::Draw(0x1, 0x2, 0x3)));
}

#[test]
fn test_decode_all_families() {
    assert_eq!(decode(0x00E0), Some(Instruction::Cls));
    assert_eq!(decode(0x00EE), Some(Instruction::Ret));
    assert_eq!(decode(0x1ABC), Some(Instruction::Jump(0xABC)));
    assert_eq!(decode(0x2ABC), Some(Instruction::Call(0xABC)));
    assert_eq!(decode(0x3A12), Some(Instruction::SkipEq(0xA, 0x12)));
    assert_eq!(decode(0x4A12), Some(Instruction::SkipNotEq(0xA, 0x12)));
    assert_eq!(decode(0x5AB0), Some(Instruction::SkipRegEq(0xA, 0xB)));
    assert_eq!(decode(0x6A12), Some(Instruction::Load(0xA, 0x12)));
    assert_eq!(decode(0x7A12), Some(Instruction::Add(0xA, 0x12)));
    assert_eq!(decode(0x8AB0), Some(Instruction::LoadReg(0xA, 0xB)));
    assert_eq!(decode(0x8AB1), Some(Instruction::Or(0xA, 0xB)));
    assert_eq!(decode(0x8AB2), Some(Instruction::And(0xA, 0xB)));
    assert_eq!(decode(0x8AB3), Some(Instruction::Xor(0xA, 0xB)));
    assert_eq!(decode(0x8AB4), Some(Instruction::AddReg(0xA, 0xB)));
    assert_eq!(decode(0x8AB5), Some(Instruction::SubReg(0xA, 0xB)));
    assert_eq!(decode(0x8AB6), Some(Instruction::Shr(0xA, 0xB)));
    assert_eq!(decode(0x8AB7), Some(Instruction::Subn(0xA, 0xB)));
    assert_eq!(decode(0x8ABE), Some(Instruction::Shl(0xA, 0xB)));
    assert_eq!(decode(0x9AB0), Some(Instruction::SkipRegNotEq(0xA, 0xB)));
    assert_eq!(decode(0xAABC), Some(Instruction::LoadI(0xABC)));
    assert_eq!(decode(0xBABC), Some(Instruction::JumpOffset(0xABC)));
    assert_eq!(decode(0xCA12), Some(Instruction::Rand(0xA, 0x12)));
    assert_eq!(decode(0xEA9E), Some(Instruction::SkipIfPressed(0xA)));
    assert_eq!(decode(0xEAA1), Some(Instruction::SkipIfNotPressed(0xA)));
    assert_eq!(decode(0xFA07), Some(Instruction::LoadRegFromDelay(0xA)));
    assert_eq!(decode(0xFA0A), Some(Instruction::WaitForKey(0xA)));
    assert_eq!(decode(0xFA15), Some(Instruction::LoadDelayFromReg(0xA)));
    assert_eq!(decode(0xFA18), Some(Instruction::LoadSoundFromReg(0xA)));
    assert_eq!(decode(0xFA1E), Some(Instruction::AddIndex(0xA)));
    assert_eq!(decode(0xFA29), Some(Instruction::LoadFont(0xA)));
    assert_eq!(decode(0xFA33), Some(Instruction::Bcd(0xA)));
    assert_eq!(decode(0xFA55), Some(Instruction::DumpRegs(0xA)));
    assert_eq!(decode(0xFA65), Some(Instruction::FillRegs(0xA)));
}

#[test]
fn test_decode_is_deterministic() {
    // Decoding the same word twice always yields the same instruction.
    for opcode in [0x00E0u16, 0x1234, 0x8AB4, 0xD123, 0xFA65] {
        assert_eq!(decode(opcode), decode(opcode));
    }
}

#[test]
fn test_decode_invalid_opcodes() {
    // Words outside the canonical table decode to None.
    assert_eq!(decode(0x0000), None);
    assert_eq!(decode(0x00E1), None);
    assert_eq!(decode(0x5AB1), None);
    assert_eq!(decode(0x8AB8), None);
    assert_eq!(decode(0x8ABF), None);
    assert_eq!(decode(0x9AB5), None);
    assert_eq!(decode(0xEA00), None);
    assert_eq!(decode(0xFA00), None);
    assert_eq!(decode(0xFAFF), None);
}
