//! The CHIP-8 instruction set and the decoder from 16-bit opcodes.

use vstd::prelude::*;

verus! {

/// A 12-bit memory address carried by an opcode.
pub type Address = u16;

/// A register number (the machine has sixteen registers, V0 through VF).
pub type Register = u8;

/// The thirty-five CHIP-8 instructions.  The comment on each variant gives
/// the opcode shape it is decoded from: `nnn` is a 12-bit address, `kk` an
/// 8-bit immediate, `x` and `y` register numbers and `n` a 4-bit count.
#[derive(Clone, Copy, Debug, PartialEq, Eq, Structural)]
pub enum Instruction {
    ClearDisplay,                       // 00E0
    Return,                             // 00EE
    Jump(Address),                      // 1nnn
    Call(Address),                      // 2nnn
    SkipIfEqualsByte(Register, u8),     // 3xkk
    SkipIfNotEqualsByte(Register, u8),  // 4xkk
    SkipIfEqual(Register, Register),    // 5xy0
    LoadByte(Register, u8),             // 6xkk
    AddByte(Register, u8),              // 7xkk
    Move(Register, Register),           // 8xy0
    Or(Register, Register),             // 8xy1
    And(Register, Register),            // 8xy2
    Xor(Register, Register),            // 8xy3
    Add(Register, Register),            // 8xy4
    Sub(Register, Register),            // 8xy5
    ShiftRight(Register),               // 8xy6
    ReverseSub(Register, Register),     // 8xy7
    ShiftLeft(Register),                // 8xyE
    SkipIfNotEqual(Register, Register), // 9xy0
    LoadI(u16),                         // Annn
    JumpPlusZero(Address),              // Bnnn
    Random(Register, u8),               // Cxkk
    Draw(Register, Register, u8),       // Dxyn
    SkipIfPressed(Register),            // Ex9E
    SkipIfNotPressed(Register),         // ExA1
    LoadDelayTimer(Register),           // Fx07
    WaitForKeyPress(Register),          // Fx0A
    SetDelayTimer(Register),            // Fx15
    SetSoundTimer(Register),            // Fx18
    AddToI(Register),                   // Fx1E
    LoadSprite(Register),               // Fx29
    BCDRepresentation(Register),        // Fx33
    StoreRegisters(Register),           // Fx55
    LoadRegisters(Register),            // Fx65
}

/// The directive an instruction hands back for the program counter:
/// advance by one instruction, skip one, or jump to an address.
#[derive(Clone, Copy, Debug, PartialEq, Eq, Structural)]
pub enum ProgramCounter {
    Next,
    Skip,
    Jump(u16),
}

/// Every register field of a decoded instruction addresses one of the
/// sixteen registers, every address field fits in 12 bits, and a sprite
/// height fits in 4 bits.
pub open spec fn inst_wf(inst: Instruction) -> bool {
    match inst {
        Instruction::ClearDisplay => true,
        Instruction::Return => true,
        Instruction::Jump(nnn) => nnn < 0x1000,
        Instruction::Call(nnn) => nnn < 0x1000,
        Instruction::SkipIfEqualsByte(x, _) => x < 16,
        Instruction::SkipIfNotEqualsByte(x, _) => x < 16,
        Instruction::SkipIfEqual(x, y) => x < 16 && y < 16,
        Instruction::LoadByte(x, _) => x < 16,
        Instruction::AddByte(x, _) => x < 16,
        Instruction::Move(x, y) => x < 16 && y < 16,
        Instruction::Or(x, y) => x < 16 && y < 16,
        Instruction::And(x, y) => x < 16 && y < 16,
        Instruction::Xor(x, y) => x < 16 && y < 16,
        Instruction::Add(x, y) => x < 16 && y < 16,
        Instruction::Sub(x, y) => x < 16 && y < 16,
        Instruction::ShiftRight(x) => x < 16,
        Instruction::ReverseSub(x, y) => x < 16 && y < 16,
        Instruction::ShiftLeft(x) => x < 16,
        Instruction::SkipIfNotEqual(x, y) => x < 16 && y < 16,
        Instruction::LoadI(nnn) => nnn < 0x1000,
        Instruction::JumpPlusZero(nnn) => nnn < 0x1000,
        Instruction::Random(x, _) => x < 16,
        Instruction::Draw(x, y, n) => x < 16 && y < 16 && n < 16,
        Instruction::SkipIfPressed(x) => x < 16,
        Instruction::SkipIfNotPressed(x) => x < 16,
        Instruction::LoadDelayTimer(x) => x < 16,
        Instruction::WaitForKeyPress(x) => x < 16,
        Instruction::SetDelayTimer(x) => x < 16,
        Instruction::SetSoundTimer(x) => x < 16,
        Instruction::AddToI(x) => x < 16,
        Instruction::LoadSprite(x) => x < 16,
        Instruction::BCDRepresentation(x) => x < 16,
        Instruction::StoreRegisters(x) => x < 16,
        Instruction::LoadRegisters(x) => x < 16,
    }
}

/// The instruction a 16-bit opcode stands for, or `None` for a bit pattern
/// outside the defined set.
pub open spec fn decode(opcode: u16) -> Option<Instruction> {
    let x = ((opcode >> 8) & 0xF) as u8;
    let y = ((opcode >> 4) & 0xF) as u8;
    let n = (opcode & 0xF) as u8;
    let nnn = opcode & 0xFFF;
    let kk = (opcode & 0xFF) as u8;
    match (opcode >> 12) & 0xF {
        0x0 => {
            if opcode == 0x00E0 {
                Some(Instruction::ClearDisplay)
            } else if opcode == 0x00EE {
                Some(Instruction::Return)
            } else {
                None
            }
        },
        0x1 => Some(Instruction::Jump(nnn)),
        0x2 => Some(Instruction::Call(nnn)),
        0x3 => Some(Instruction::SkipIfEqualsByte(x, kk)),
        0x4 => Some(Instruction::SkipIfNotEqualsByte(x, kk)),
        0x5 => if n == 0x0 { Some(Instruction::SkipIfEqual(x, y)) } else { None },
        0x6 => Some(Instruction::LoadByte(x, kk)),
        0x7 => Some(Instruction::AddByte(x, kk)),
        0x8 => {
            match n {
                0x0 => Some(Instruction::Move(x, y)),
                0x1 => Some(Instruction::Or(x, y)),
                0x2 => Some(Instruction::And(x, y)),
                0x3 => Some(Instruction::Xor(x, y)),
                0x4 => Some(Instruction::Add(x, y)),
                0x5 => Some(Instruction::Sub(x, y)),
                0x6 => Some(Instruction::ShiftRight(x)),
                0x7 => Some(Instruction::ReverseSub(x, y)),
                0xE => Some(Instruction::ShiftLeft(x)),
                _ => None,
            }
        },
        0x9 => if n == 0x0 { Some(Instruction::SkipIfNotEqual(x, y)) } else { None },
        0xA => Some(Instruction::LoadI(nnn)),
        0xB => Some(Instruction::JumpPlusZero(nnn)),
        0xC => Some(Instruction::Random(x, kk)),
        0xD => Some(Instruction::Draw(x, y, n)),
        0xE => {
            match kk {
                0x9E => Some(Instruction::SkipIfPressed(x)),
                0xA1 => Some(Instruction::SkipIfNotPressed(x)),
                _ => None,
            }
        },
        0xF => {
            match kk {
                0x07 => Some(Instruction::LoadDelayTimer(x)),
                0x0A => Some(Instruction::WaitForKeyPress(x)),
                0x15 => Some(Instruction::SetDelayTimer(x)),
                0x18 => Some(Instruction::SetSoundTimer(x)),
                0x1E => Some(Instruction::AddToI(x)),
                0x29 => Some(Instruction::LoadSprite(x)),
                0x33 => Some(Instruction::BCDRepresentation(x)),
                0x55 => Some(Instruction::StoreRegisters(x)),
                0x65 => Some(Instruction::LoadRegisters(x)),
                _ => None,
            }
        },
        _ => None,
    }
}

/// A decoded instruction is always well formed: its fields come out of
/// 4-bit and 12-bit masks.
pub proof fn lemma_decode_wf(opcode: u16)
    ensures
        decode(opcode) matches Some(inst) ==> inst_wf(inst),
{
    assert(((opcode >> 8) & 0xF) < 16) by (bit_vector);
    assert(((opcode >> 4) & 0xF) < 16) by (bit_vector);
    assert((opcode & 0xF) < 16) by (bit_vector);
    assert((opcode & 0xFFF) < 0x1000) by (bit_vector);
}

} // verus!
