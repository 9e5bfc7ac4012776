use chip8::chip8::Chip8;
use chip8::instruction::Instruction;

fn machine() -> Chip8 {
    Chip8::new(&[]).unwrap()
}

#[test]
fn decodes_clear_display() {
    let chip = machine();
    assert_eq!(chip.to_instruction(0x00E0), Some(Instruction::ClearDisplay));
}

#[test]
fn decodes_return() {
    let chip = machine();
    assert_eq!(chip.to_instruction(0x00EE), Some(Instruction::Return));
}

#[test]
fn decodes_jump() {
    let chip = machine();
    assert_eq!(chip.to_instruction(0x1ABC), Some(Instruction::Jump(0xABC)));
}

#[test]
fn decodes_call_and_skips() {
    let chip = machine();
    assert_eq!(chip.to_instruction(0x2123), Some(Instruction::Call(0x123)));
    assert_eq!(
        chip.to_instruction(0x3A55),
        Some(Instruction::SkipIfEqualsByte(0xA, 0x55))
    );
    assert_eq!(
        chip.to_instruction(0x4A55),
        Some(Instruction::SkipIfNotEqualsByte(0xA, 0x55))
    );
    assert_eq!(
        chip.to_instruction(0x5AB0),
        Some(Instruction::SkipIfEqual(0xA, 0xB))
    );
    assert_eq!(
        chip.to_instruction(0x9AB0),
        Some(Instruction::SkipIfNotEqual(0xA, 0xB))
    );
}

#[test]
fn decodes_register_group() {
    let chip = machine();
    assert_eq!(chip.to_instruction(0x6C42), Some(Instruction::LoadByte(0xC, 0x42)));
    assert_eq!(chip.to_instruction(0x7C42), Some(Instruction::AddByte(0xC, 0x42)));
    assert_eq!(chip.to_instruction(0x8120), Some(Instruction::Move(1, 2)));
    assert_eq!(chip.to_instruction(0x8121), Some(Instruction::Or(1, 2)));
    assert_eq!(chip.to_instruction(0x8122), Some(Instruction::And(1, 2)));
    assert_eq!(chip.to_instruction(0x8123), Some(Instruction::Xor(1, 2)));
    assert_eq!(chip.to_instruction(0x8124), Some(Instruction::Add(1, 2)));
    assert_eq!(chip.to_instruction(0x8125), Some(Instruction::Sub(1, 2)));
    assert_eq!(chip.to_instruction(0x8126), Some(Instruction::ShiftRight(1)));
    assert_eq!(chip.to_instruction(0x8127), Some(Instruction::ReverseSub(1, 2)));
    assert_eq!(chip.to_instruction(0x812E), Some(Instruction::ShiftLeft(1)));
}

#[test]
fn decodes_remaining_groups() {
    let chip = machine();
    assert_eq!(chip.to_instruction(0xA123), Some(Instruction::LoadI(0x123)));
    assert_eq!(chip.to_instruction(0xB123), Some(Instruction::JumpPlusZero(0x123)));
    assert_eq!(chip.to_instruction(0xC4AA), Some(Instruction::Random(4, 0xAA)));
    assert_eq!(chip.to_instruction(0xD125), Some(Instruction::Draw(1, 2, 5)));
    assert_eq!(chip.to_instruction(0xE39E), Some(Instruction::SkipIfPressed(3)));
    assert_eq!(chip.to_instruction(0xE3A1), Some(Instruction::SkipIfNotPressed(3)));
    assert_eq!(chip.to_instruction(0xF307), Some(Instruction::LoadDelayTimer(3)));
    assert_eq!(chip.to_instruction(0xF30A), Some(Instruction::WaitForKeyPress(3)));
    assert_eq!(chip.to_instruction(0xF315), Some(Instruction::SetDelayTimer(3)));
    assert_eq!(chip.to_instruction(0xF318), Some(Instruction::SetSoundTimer(3)));
    assert_eq!(chip.to_instruction(0xF31E), Some(Instruction::AddToI(3)));
    assert_eq!(chip.to_instruction(0xF329), Some(Instruction::LoadSprite(3)));
    assert_eq!(chip.to_instruction(0xF333), Some(Instruction::BCDRepresentation(3)));
    assert_eq!(chip.to_instruction(0xF355), Some(Instruction::StoreRegisters(3)));
    assert_eq!(chip.to_instruction(0xF365), Some(Instruction::LoadRegisters(3)));
}

#[test]
fn rejects_undefined_patterns() {
    let chip = machine();
    // 5xy0 requires a zero low nibble.
    assert_eq!(chip.to_instruction(0x5001), None);
    assert_eq!(chip.to_instruction(0x9AB7), None);
    assert_eq!(chip.to_instruction(0x0123), None);
    assert_eq!(chip.to_instruction(0x8008), None);
    assert_eq!(chip.to_instruction(0xE000), None);
    assert_eq!(chip.to_instruction(0xF399), None);
    assert_eq!(chip.to_instruction(0xFFFF), None);
}
