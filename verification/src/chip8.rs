//! The CHIP-8 CPU engine: registers, memory, stack, timers, keyboard wait
//! state, and the execution of decoded instructions.

use crate::display::{draw_buf, draw_collides, Display};
use crate::instruction::{decode, inst_wf, Instruction, ProgramCounter};
use vstd::pervasive::VecAdditionalExecFns;
use vstd::prelude::*;

verus! {

/// Offset at which program bytes are loaded; everything below is reserved
/// (the font glyphs sit at the bottom of memory).
pub const PROGRAM_MEMORY_OFFSET: usize = 0x200;

/// Size of the addressable memory in bytes.
pub const MEMORY_SIZE: usize = 4096;

/// Number of general-purpose registers (V0 through VF).
pub const NUM_REGISTERS: usize = 16;

/// Maximum number of nested calls the stack can hold.
pub const STACK_DEPTH: usize = 16;

/// Number of keys on the keypad.
pub const NUM_KEYS: usize = 16;

/// The fatal conditions that stop emulation; none of them is recoverable,
/// and each is reported distinctly.
#[derive(Clone, Copy, Debug, PartialEq, Eq, Structural)]
pub enum Chip8Error {
    /// The program image does not fit in the memory left above the
    /// reserved region.
    ProgramTooLarge,
    /// The fetched opcode matches no defined instruction.
    InvalidOpcode,
    /// A memory access reached past the end of the 4096-byte memory.
    MemoryOutOfBounds,
    /// A call would nest more than sixteen levels deep.
    StackOverflow,
    /// A return was executed with an empty call stack.
    StackUnderflow,
}

/// The mathematical model of the whole machine state.
#[verifier::ext_equal]
pub struct Chip8View {
    /// Program counter.
    pub pc: u16,
    /// The sixteen general-purpose registers V0 through VF.
    pub v: Seq<u8>,
    /// The index register I.
    pub i: u16,
    /// Stack pointer: number of return addresses on the stack.
    pub sp: u8,
    /// The sixteen stack slots; only those below `sp` are meaningful.
    pub stack: Seq<u16>,
    /// Delay timer value.
    pub delay: u8,
    /// Sound timer value.
    pub sound: u8,
    /// The 4096 bytes of memory.
    pub memory: Seq<u8>,
    /// Which of the sixteen keys are currently held down.
    pub keyboard: Seq<bool>,
    /// The register awaiting a keypress, if execution is suspended.
    pub wait: Option<u8>,
    /// The frame buffer pixels, row-major.
    pub display: Seq<bool>,
}

impl Chip8View {
    /// Every collection has its fixed size, the stack pointer stays within
    /// the stack, and a waiting register is a real register.
    pub open spec fn wf(self) -> bool {
        &&& self.v.len() == NUM_REGISTERS
        &&& self.stack.len() == STACK_DEPTH
        &&& self.memory.len() == MEMORY_SIZE
        &&& self.keyboard.len() == NUM_KEYS
        &&& self.sp <= STACK_DEPTH
        &&& self.display.len() == 2048
        &&& (self.wait matches Some(x) ==> x < 16)
    }

    /// This state with register `x` set to `value`.
    pub open spec fn with_reg(self, x: int, value: u8) -> Chip8View {
        Chip8View { v: self.v.update(x, value), ..self }
    }

    /// This state with the flag register VF set to `flag` and then register
    /// `x` set to `value`: when `x` is VF itself, the primary result wins.
    pub open spec fn with_flag_and_reg(self, flag: u8, x: int, value: u8) -> Chip8View {
        Chip8View { v: self.v.update(15, flag).update(x, value), ..self }
    }
}

/// The eighty bytes of the built-in font: sixteen glyphs of five bytes
/// each, one per hex digit, loaded at the bottom of memory.
pub open spec fn font_glyphs() -> Seq<u8> {
    seq![
        0xF0u8, 0x90, 0x90, 0x90, 0xF0, // 0
        0x20, 0x60, 0x20, 0x20, 0x70, // 1
        0xF0, 0x10, 0xF0, 0x80, 0xF0, // 2
        0xF0, 0x10, 0xF0, 0x10, 0xF0, // 3
        0x90, 0x90, 0xF0, 0x10, 0x10, // 4
        0xF0, 0x80, 0xF0, 0x10, 0xF0, // 5
        0xF0, 0x80, 0xF0, 0x90, 0xF0, // 6
        0xF0, 0x10, 0x20, 0x40, 0x40, // 7
        0xF0, 0x90, 0xF0, 0x90, 0xF0, // 8
        0xF0, 0x90, 0xF0, 0x10, 0xF0, // 9
        0xF0, 0x90, 0xF0, 0x90, 0x90, // A
        0xE0, 0x90, 0xE0, 0x90, 0xE0, // B
        0xF0, 0x80, 0x80, 0x80, 0xF0, // C
        0xE0, 0x90, 0x90, 0x90, 0xE0, // D
        0xF0, 0x80, 0xF0, 0x80, 0xF0, // E
        0xF0, 0x80, 0xF0, 0x80, 0x80, // F
    ]
}

/// The built-in font as a vector, for loading into memory.
fn font_data() -> (r: Vec<u8>)
    ensures
        r@ == font_glyphs(),
{
    let glyphs: Vec<u8> = vec![
        0xF0u8, 0x90, 0x90, 0x90, 0xF0, // 0
        0x20, 0x60, 0x20, 0x20, 0x70, // 1
        0xF0, 0x10, 0xF0, 0x80, 0xF0, // 2
        0xF0, 0x10, 0xF0, 0x10, 0xF0, // 3
        0x90, 0x90, 0xF0, 0x10, 0x10, // 4
        0xF0, 0x80, 0xF0, 0x10, 0xF0, // 5
        0xF0, 0x80, 0xF0, 0x90, 0xF0, // 6
        0xF0, 0x10, 0x20, 0x40, 0x40, // 7
        0xF0, 0x90, 0xF0, 0x90, 0xF0, // 8
        0xF0, 0x90, 0xF0, 0x10, 0xF0, // 9
        0xF0, 0x90, 0xF0, 0x90, 0x90, // A
        0xE0, 0x90, 0xE0, 0x90, 0xE0, // B
        0xF0, 0x80, 0x80, 0x80, 0xF0, // C
        0xE0, 0x90, 0x90, 0x90, 0xE0, // D
        0xF0, 0x80, 0xF0, 0x80, 0xF0, // E
        0xF0, 0x80, 0xF0, 0x80, 0x80, // F
    ];
    proof {
        assert(glyphs@ =~= font_glyphs());
    }
    glyphs
}

/// Memory as construction leaves it: the font at the bottom, the program
/// image starting at the program offset, zero everywhere else.
pub open spec fn initial_memory(program: Seq<u8>) -> Seq<u8> {
    Seq::new(
        MEMORY_SIZE as nat,
        |k: int|
            if k < font_glyphs().len() {
                font_glyphs()[k]
            } else if PROGRAM_MEMORY_OFFSET <= k < PROGRAM_MEMORY_OFFSET + program.len() {
                program[k - PROGRAM_MEMORY_OFFSET]
            } else {
                0u8
            },
    )
}

/// The machine state right after construction: the program counter at the
/// program offset and everything else zeroed or cleared.
pub open spec fn initial_state(program: Seq<u8>) -> Chip8View {
    Chip8View {
        pc: 0x200,
        v: Seq::new(NUM_REGISTERS as nat, |j: int| 0u8),
        i: 0,
        sp: 0,
        stack: Seq::new(STACK_DEPTH as nat, |j: int| 0u16),
        delay: 0,
        sound: 0,
        memory: initial_memory(program),
        keyboard: Seq::new(NUM_KEYS as nat, |j: int| false),
        wait: None,
        display: Seq::new(2048, |j: int| false),
    }
}

/// The state after a key goes down: the key is marked held, and if a
/// register was awaiting a keypress, the key index lands in it and the
/// wait is resolved.
pub open spec fn key_down_spec(pre: Chip8View, key: int) -> Chip8View {
    let held = Chip8View { keyboard: pre.keyboard.update(key, true), ..pre };
    match pre.wait {
        Some(x) => Chip8View { v: held.v.update(x as int, key as u8), wait: None, ..held },
        None => held,
    }
}

/// What executing one decoded instruction does to the machine state: the
/// state afterwards, and either the program-counter directive or the fatal
/// error.  An erring instruction leaves the state unchanged.  `rb` is the
/// byte the random source produced; only the random instruction reads it.
pub open spec fn run_inst_spec(pre: Chip8View, inst: Instruction, rb: u8) -> (Chip8View, Result<
    ProgramCounter,
    Chip8Error,
>)
    recommends
        pre.wf(),
        inst_wf(inst),
{
    match inst {
        Instruction::ClearDisplay => (
            Chip8View { display: Seq::new(2048, |j: int| false), ..pre },
            Ok(ProgramCounter::Next),
        ),
        Instruction::Return => {
            if pre.sp == 0 {
                (pre, Err(Chip8Error::StackUnderflow))
            } else {
                (
                    Chip8View { sp: (pre.sp - 1) as u8, ..pre },
                    Ok(ProgramCounter::Jump(pre.stack[pre.sp - 1])),
                )
            }
        },
        Instruction::Jump(nnn) => (pre, Ok(ProgramCounter::Jump(nnn))),
        Instruction::Call(nnn) => {
            if pre.sp >= STACK_DEPTH {
                (pre, Err(Chip8Error::StackOverflow))
            } else if pre.pc > 0xFFFD {
                // The return address PC + 2 would lie past the end of the
                // address space: the program counter has already run out.
                (pre, Err(Chip8Error::MemoryOutOfBounds))
            } else {
                (
                    Chip8View {
                        stack: pre.stack.update(pre.sp as int, (pre.pc + 2) as u16),
                        sp: (pre.sp + 1) as u8,
                        ..pre
                    },
                    Ok(ProgramCounter::Jump(nnn)),
                )
            }
        },
        Instruction::SkipIfEqualsByte(x, kk) => (
            pre,
            Ok(
                if pre.v[x as int] == kk {
                    ProgramCounter::Skip
                } else {
                    ProgramCounter::Next
                },
            ),
        ),
        Instruction::SkipIfNotEqualsByte(x, kk) => (
            pre,
            Ok(
                if pre.v[x as int] != kk {
                    ProgramCounter::Skip
                } else {
                    ProgramCounter::Next
                },
            ),
        ),
        Instruction::SkipIfEqual(x, y) => (
            pre,
            Ok(
                if pre.v[x as int] == pre.v[y as int] {
                    ProgramCounter::Skip
                } else {
                    ProgramCounter::Next
                },
            ),
        ),
        Instruction::LoadByte(x, kk) => (pre.with_reg(x as int, kk), Ok(ProgramCounter::Next)),
        Instruction::AddByte(x, kk) => (
            pre.with_reg(x as int, ((pre.v[x as int] + kk) % 256) as u8),
            Ok(ProgramCounter::Next),
        ),
        Instruction::Move(x, y) => (
            pre.with_reg(x as int, pre.v[y as int]),
            Ok(ProgramCounter::Next),
        ),
        Instruction::Or(x, y) => (
            pre.with_reg(x as int, pre.v[x as int] | pre.v[y as int]),
            Ok(ProgramCounter::Next),
        ),
        Instruction::And(x, y) => (
            pre.with_reg(x as int, pre.v[x as int] & pre.v[y as int]),
            Ok(ProgramCounter::Next),
        ),
        Instruction::Xor(x, y) => (
            pre.with_reg(x as int, pre.v[x as int] ^ pre.v[y as int]),
            Ok(ProgramCounter::Next),
        ),
        Instruction::Add(x, y) => {
            let sum = pre.v[x as int] + pre.v[y as int];
            let carry: u8 = if sum > 255 {
                1
            } else {
                0
            };
            (
                pre.with_flag_and_reg(carry, x as int, (sum % 256) as u8),
                Ok(ProgramCounter::Next),
            )
        },
        Instruction::Sub(x, y) => {
            let vx = pre.v[x as int];
            let vy = pre.v[y as int];
            let no_borrow: u8 = if vx >= vy {
                1
            } else {
                0
            };
            let diff: u8 = if vx >= vy {
                (vx - vy) as u8
            } else {
                (vx - vy + 256) as u8
            };
            (pre.with_flag_and_reg(no_borrow, x as int, diff), Ok(ProgramCounter::Next))
        },
        Instruction::ShiftRight(x) => {
            let vx = pre.v[x as int];
            (
                pre.with_flag_and_reg((vx % 2) as u8, x as int, (vx / 2) as u8),
                Ok(ProgramCounter::Next),
            )
        },
        Instruction::ReverseSub(x, y) => {
            let vx = pre.v[x as int];
            let vy = pre.v[y as int];
            let no_borrow: u8 = if vy >= vx {
                1
            } else {
                0
            };
            let diff: u8 = if vy >= vx {
                (vy - vx) as u8
            } else {
                (vy - vx + 256) as u8
            };
            (pre.with_flag_and_reg(no_borrow, x as int, diff), Ok(ProgramCounter::Next))
        },
        Instruction::ShiftLeft(x) => {
            let vx = pre.v[x as int];
            (
                pre.with_flag_and_reg((vx / 128) as u8, x as int, ((2 * vx) % 256) as u8),
                Ok(ProgramCounter::Next),
            )
        },
        Instruction::SkipIfNotEqual(x, y) => (
            pre,
            Ok(
                if pre.v[x as int] != pre.v[y as int] {
                    ProgramCounter::Skip
                } else {
                    ProgramCounter::Next
                },
            ),
        ),
        Instruction::LoadI(nnn) => (Chip8View { i: nnn, ..pre }, Ok(ProgramCounter::Next)),
        Instruction::JumpPlusZero(nnn) => (
            pre,
            Ok(ProgramCounter::Jump((nnn + pre.v[0]) as u16)),
        ),
        Instruction::Random(x, kk) => (pre.with_reg(x as int, rb & kk), Ok(ProgramCounter::Next)),
        Instruction::Draw(x, y, n) => {
            if pre.i + n > MEMORY_SIZE {
                (pre, Err(Chip8Error::MemoryOutOfBounds))
            } else {
                let sprite = pre.memory.subrange(pre.i as int, pre.i + n);
                let vx = pre.v[x as int];
                let vy = pre.v[y as int];
                let collision: u8 = if draw_collides(pre.display, vx as int, vy as int, sprite) {
                    1
                } else {
                    0
                };
                (
                    Chip8View {
                        display: draw_buf(pre.display, vx as int, vy as int, sprite),
                        v: pre.v.update(15, collision),
                        ..pre
                    },
                    Ok(ProgramCounter::Next),
                )
            }
        },
        Instruction::SkipIfPressed(x) => {
            // A register value beyond the sixteen key indices names no
            // key, so no such key is ever held down.
            let key = pre.v[x as int];
            let pressed = key < NUM_KEYS && pre.keyboard[key as int];
            (
                pre,
                Ok(
                    if pressed {
                        ProgramCounter::Skip
                    } else {
                        ProgramCounter::Next
                    },
                ),
            )
        },
        Instruction::SkipIfNotPressed(x) => {
            let key = pre.v[x as int];
            let pressed = key < NUM_KEYS && pre.keyboard[key as int];
            (
                pre,
                Ok(
                    if !pressed {
                        ProgramCounter::Skip
                    } else {
                        ProgramCounter::Next
                    },
                ),
            )
        },
        Instruction::LoadDelayTimer(x) => (
            pre.with_reg(x as int, pre.delay),
            Ok(ProgramCounter::Next),
        ),
        Instruction::WaitForKeyPress(x) => (
            Chip8View { wait: Some(x), ..pre },
            Ok(ProgramCounter::Next),
        ),
        Instruction::SetDelayTimer(x) => (
            Chip8View { delay: pre.v[x as int], ..pre },
            Ok(ProgramCounter::Next),
        ),
        Instruction::SetSoundTimer(x) => (
            Chip8View { sound: pre.v[x as int], ..pre },
            Ok(ProgramCounter::Next),
        ),
        Instruction::AddToI(x) => (
            Chip8View { i: ((pre.i + pre.v[x as int]) % 0x10000) as u16, ..pre },
            Ok(ProgramCounter::Next),
        ),
        Instruction::LoadSprite(x) => (
            Chip8View { i: ((pre.v[x as int] % 16) * 5) as u16, ..pre },
            Ok(ProgramCounter::Next),
        ),
        Instruction::BCDRepresentation(x) => {
            if pre.i + 3 > MEMORY_SIZE {
                (pre, Err(Chip8Error::MemoryOutOfBounds))
            } else {
                let vx = pre.v[x as int];
                let a = pre.i as int;
                (
                    Chip8View {
                        memory: pre.memory.update(a, (vx / 100) as u8).update(
                            a + 1,
                            ((vx / 10) % 10) as u8,
                        ).update(a + 2, (vx % 10) as u8),
                        ..pre
                    },
                    Ok(ProgramCounter::Next),
                )
            }
        },
        Instruction::StoreRegisters(x) => {
            if pre.i + x + 1 > MEMORY_SIZE {
                (pre, Err(Chip8Error::MemoryOutOfBounds))
            } else {
                (
                    Chip8View {
                        memory: Seq::new(
                            MEMORY_SIZE as nat,
                            |k: int|
                                if pre.i <= k <= pre.i + x {
                                    pre.v[k - pre.i]
                                } else {
                                    pre.memory[k]
                                },
                        ),
                        ..pre
                    },
                    Ok(ProgramCounter::Next),
                )
            }
        },
        Instruction::LoadRegisters(x) => {
            if pre.i + x + 1 > MEMORY_SIZE {
                (pre, Err(Chip8Error::MemoryOutOfBounds))
            } else {
                (
                    Chip8View {
                        v: Seq::new(
                            NUM_REGISTERS as nat,
                            |j: int|
                                if j <= x {
                                    pre.memory[pre.i + j]
                                } else {
                                    pre.v[j]
                                },
                        ),
                        ..pre
                    },
                    Ok(ProgramCounter::Next),
                )
            }
        },
    }
}

/// The 16-bit opcode at the program counter: high byte first.
pub open spec fn fetch(pre: Chip8View) -> u16
    recommends
        pre.wf(),
        pre.pc + 1 < MEMORY_SIZE,
{
    (pre.memory[pre.pc as int] * 256 + pre.memory[pre.pc as int + 1]) as u16
}

/// The state with a program-counter directive applied: advance by one
/// 2-byte instruction, skip one, or jump to the given address.
pub open spec fn apply_pc(s: Chip8View, d: ProgramCounter) -> Chip8View {
    match d {
        ProgramCounter::Next => Chip8View { pc: ((s.pc + 2) % 0x10000) as u16, ..s },
        ProgramCounter::Skip => Chip8View { pc: ((s.pc + 4) % 0x10000) as u16, ..s },
        ProgramCounter::Jump(a) => Chip8View { pc: a, ..s },
    }
}

/// One decoded instruction carried through a whole step: on success the
/// directive is applied to the program counter; on a fatal error the step
/// reports it and the state is what the erring instruction left (which is
/// the pre-state, as instructions err before mutating).
pub open spec fn step_result(
    pre: Chip8View,
    inst: Instruction,
    rb: u8,
    post: Chip8View,
    r: Result<(), Chip8Error>,
) -> bool {
    let (mid, pr) = run_inst_spec(pre, inst, rb);
    match pr {
        Ok(d) => post == apply_pc(mid, d) && r == Ok::<(), Chip8Error>(()),
        Err(e) => post == mid && r == Err::<(), Chip8Error>(e),
    }
}

/// What one step request does.  While a register awaits a keypress the
/// step is a no-op; a program counter at the end of memory, or an opcode
/// outside the defined set, is fatal and leaves the state unchanged;
/// otherwise the fetched instruction executes and the program counter
/// moves.  The random byte is existentially quantified: the step promises
/// the same for every value the random source may produce.
pub open spec fn cycle_spec(pre: Chip8View, post: Chip8View, r: Result<(), Chip8Error>) -> bool {
    if pre.wait is Some {
        post == pre && r == Ok::<(), Chip8Error>(())
    } else if pre.pc + 1 >= MEMORY_SIZE {
        post == pre && r == Err::<(), Chip8Error>(Chip8Error::MemoryOutOfBounds)
    } else {
        match decode(fetch(pre)) {
            None => post == pre && r == Err::<(), Chip8Error>(Chip8Error::InvalidOpcode),
            Some(inst) => exists|rb: u8| step_result(pre, inst, rb, post, r),
        }
    }
}

/// Relies on rand::random for a uniformly distributed byte; nothing is
/// assumed of the value.
#[verifier::external_body]
fn random_byte() -> u8 {
    rand::random::<u8>()
}

/// The CHIP-8 machine: CPU state plus the frame buffer it draws to.  The
/// frame buffer is public so a renderer can read it; everything else is
/// reached through the methods.
pub struct Chip8 {
    pc: u16,
    v: Vec<u8>,
    i: u16,
    sp: u8,
    stack: Vec<u16>,
    v_delay: u8,
    v_sound: u8,
    memory: Vec<u8>,
    keyboard: Vec<bool>,
    keyboard_wait_key: Option<u8>,
    /// The frame buffer, read by the external renderer.
    pub display: Display,
}

impl View for Chip8 {
    type V = Chip8View;

    closed spec fn view(&self) -> Chip8View {
        Chip8View {
            pc: self.pc,
            v: self.v@,
            i: self.i,
            sp: self.sp,
            stack: self.stack@,
            delay: self.v_delay,
            sound: self.v_sound,
            memory: self.memory@,
            keyboard: self.keyboard@,
            wait: self.keyboard_wait_key,
            display: self.display@,
        }
    }
}

/// A vector of `n` zero bytes.
fn zero_bytes(n: usize) -> (r: Vec<u8>)
    ensures
        r@.len() == n,
        forall|j: int| 0 <= j < n ==> r@[j] == 0u8,
{
    let mut r: Vec<u8> = Vec::new();
    let mut k: usize = 0;
    while k < n
        invariant
            k <= n,
            r@.len() == k,
            forall|j: int| 0 <= j < k ==> r@[j] == 0u8,
        decreases n - k,
    {
        r.push(0);
        k = k + 1;
    }
    r
}

impl Chip8 {
    /// Builds a machine holding `program`, or fails when the image does
    /// not fit in the memory above the reserved region.
    pub fn new(program: &[u8]) -> (result: Result<Chip8, Chip8Error>)
        ensures
            program@.len() <= MEMORY_SIZE - PROGRAM_MEMORY_OFFSET ==> (result matches Ok(c)
                && c@ == initial_state(program@)),
            program@.len() > MEMORY_SIZE - PROGRAM_MEMORY_OFFSET ==> result == Err::<
                Chip8,
                Chip8Error,
            >(Chip8Error::ProgramTooLarge),
    {
        if program.len() > MEMORY_SIZE - PROGRAM_MEMORY_OFFSET {
            return Err(Chip8Error::ProgramTooLarge);
        }
        let mut memory = zero_bytes(MEMORY_SIZE);
        let font = font_data();
        let mut k: usize = 0;
        while k < font.len()
            invariant
                k <= font_glyphs().len(),
                font@ == font_glyphs(),
                memory@.len() == MEMORY_SIZE,
                forall|j: int| 0 <= j < k ==> memory@[j] == font_glyphs()[j],
                forall|j: int| k <= j < MEMORY_SIZE ==> memory@[j] == 0u8,
            decreases font_glyphs().len() - k,
        {
            memory.set(k, font[k]);
            k = k + 1;
        }
        let mut k: usize = 0;
        while k < program.len()
            invariant
                k <= program@.len(),
                program@.len() <= MEMORY_SIZE - PROGRAM_MEMORY_OFFSET,
                memory@.len() == MEMORY_SIZE,
                forall|j: int| 0 <= j < font_glyphs().len() ==> memory@[j] == font_glyphs()[j],
                forall|j: int|
                    PROGRAM_MEMORY_OFFSET <= j < PROGRAM_MEMORY_OFFSET + k ==> memory@[j]
                        == program@[j - PROGRAM_MEMORY_OFFSET],
                forall|j: int|
                    font_glyphs().len() <= j < MEMORY_SIZE && !(PROGRAM_MEMORY_OFFSET <= j
                        < PROGRAM_MEMORY_OFFSET + k) ==> memory@[j] == 0u8,
            decreases program@.len() - k,
        {
            memory.set(PROGRAM_MEMORY_OFFSET + k, program[k]);
            k = k + 1;
        }
        let mut v: Vec<u8> = Vec::new();
        let mut k: usize = 0;
        while k < NUM_REGISTERS
            invariant
                k <= NUM_REGISTERS,
                v@.len() == k,
                forall|j: int| 0 <= j < k ==> v@[j] == 0u8,
            decreases NUM_REGISTERS - k,
        {
            v.push(0);
            k = k + 1;
        }
        let mut stack: Vec<u16> = Vec::new();
        let mut k: usize = 0;
        while k < STACK_DEPTH
            invariant
                k <= STACK_DEPTH,
                stack@.len() == k,
                forall|j: int| 0 <= j < k ==> stack@[j] == 0u16,
            decreases STACK_DEPTH - k,
        {
            stack.push(0);
            k = k + 1;
        }
        let mut keyboard: Vec<bool> = Vec::new();
        let mut k: usize = 0;
        while k < NUM_KEYS
            invariant
                k <= NUM_KEYS,
                keyboard@.len() == k,
                forall|j: int| 0 <= j < k ==> !keyboard@[j],
            decreases NUM_KEYS - k,
        {
            keyboard.push(false);
            k = k + 1;
        }
        let chip = Chip8 {
            pc: 0x200,
            v,
            i: 0,
            sp: 0,
            stack,
            v_delay: 0,
            v_sound: 0,
            memory,
            keyboard,
            keyboard_wait_key: None,
            display: Display::new(),
        };
        proof {
            assert(chip@ =~~= initial_state(program@));
        }
        Ok(chip)
    }

    /// Reads register `idx`.
    pub fn read_register(&self, idx: u8) -> (value: u8)
        requires
            self@.wf(),
            idx < 16,
        ensures
            value == self@.v[idx as int],
    {
        self.v[idx as usize]
    }

    /// Writes `value` into register `idx`.
    pub fn load_register(&mut self, idx: u8, value: u8)
        requires
            old(self)@.wf(),
            idx < 16,
        ensures
            final(self)@ == old(self)@.with_reg(idx as int, value),
    {
        self.v.set(idx as usize, value);
    }

    /// The current sound timer value, for an audio collaborator to gate
    /// tone playback while it is nonzero.
    pub fn sound_timer(&self) -> (value: u8)
        ensures
            value == self@.sound,
    {
        self.v_sound
    }

    /// Decodes a 16-bit opcode, or reports `None` for a bit pattern
    /// outside the defined instruction set.
    pub fn to_instruction(&self, opcode: u16) -> (r: Option<Instruction>)
        ensures
            r == decode(opcode),
            r matches Some(inst) ==> inst_wf(inst),
    {
        proof {
            crate::instruction::lemma_decode_wf(opcode);
        }
        let x = ((opcode >> 8) & 0xF) as u8;
        let y = ((opcode >> 4) & 0xF) as u8;
        let n = (opcode & 0xF) as u8;
        let nnn = opcode & 0xFFF;
        let kk = (opcode & 0xFF) as u8;
        match (opcode >> 12) & 0xF {
            0x0 => {
                if opcode == 0x00E0 {
                    Some(Instruction::ClearDisplay)
                } else if opcode == 0x00EE {
                    Some(Instruction::Return)
                } else {
                    None
                }
            },
            0x1 => Some(Instruction::Jump(nnn)),
            0x2 => Some(Instruction::Call(nnn)),
            0x3 => Some(Instruction::SkipIfEqualsByte(x, kk)),
            0x4 => Some(Instruction::SkipIfNotEqualsByte(x, kk)),
            0x5 => if n == 0x0 {
                Some(Instruction::SkipIfEqual(x, y))
            } else {
                None
            },
            0x6 => Some(Instruction::LoadByte(x, kk)),
            0x7 => Some(Instruction::AddByte(x, kk)),
            0x8 => {
                match n {
                    0x0 => Some(Instruction::Move(x, y)),
                    0x1 => Some(Instruction::Or(x, y)),
                    0x2 => Some(Instruction::And(x, y)),
                    0x3 => Some(Instruction::Xor(x, y)),
                    0x4 => Some(Instruction::Add(x, y)),
                    0x5 => Some(Instruction::Sub(x, y)),
                    0x6 => Some(Instruction::ShiftRight(x)),
                    0x7 => Some(Instruction::ReverseSub(x, y)),
                    0xE => Some(Instruction::ShiftLeft(x)),
                    _ => None,
                }
            },
            0x9 => if n == 0x0 {
                Some(Instruction::SkipIfNotEqual(x, y))
            } else {
                None
            },
            0xA => Some(Instruction::LoadI(nnn)),
            0xB => Some(Instruction::JumpPlusZero(nnn)),
            0xC => Some(Instruction::Random(x, kk)),
            0xD => Some(Instruction::Draw(x, y, n)),
            0xE => {
                match kk {
                    0x9E => Some(Instruction::SkipIfPressed(x)),
                    0xA1 => Some(Instruction::SkipIfNotPressed(x)),
                    _ => None,
                }
            },
            0xF => {
                match kk {
                    0x07 => Some(Instruction::LoadDelayTimer(x)),
                    0x0A => Some(Instruction::WaitForKeyPress(x)),
                    0x15 => Some(Instruction::SetDelayTimer(x)),
                    0x18 => Some(Instruction::SetSoundTimer(x)),
                    0x1E => Some(Instruction::AddToI(x)),
                    0x29 => Some(Instruction::LoadSprite(x)),
                    0x33 => Some(Instruction::BCDRepresentation(x)),
                    0x55 => Some(Instruction::StoreRegisters(x)),
                    0x65 => Some(Instruction::LoadRegisters(x)),
                    _ => None,
                }
            },
            _ => None,
        }
    }

    /// Executes one decoded instruction: mutates the machine state and
    /// returns the program-counter directive, or the fatal error, in which
    /// case the state is left unchanged.  The program counter itself is
    /// never written here; the caller applies the directive.
    pub fn run_instruction(&mut self, instruction: Instruction) -> (r: Result<
        ProgramCounter,
        Chip8Error,
    >)
        requires
            old(self)@.wf(),
            inst_wf(instruction),
        ensures
            final(self)@.wf(),
            final(self)@.pc == old(self)@.pc,
            exists|rb: u8| (final(self)@, r) == #[trigger] run_inst_spec(old(self)@, instruction, rb),
            !(instruction is Random) ==> (final(self)@, r) == run_inst_spec(
                old(self)@,
                instruction,
                0,
            ),
    {
        match instruction {
            Instruction::ClearDisplay | Instruction::Draw(..) => self.run_display(instruction),
            Instruction::Return | Instruction::Jump(_) | Instruction::Call(_)
                | Instruction::JumpPlusZero(_) | Instruction::SkipIfEqualsByte(..)
                | Instruction::SkipIfNotEqualsByte(..) | Instruction::SkipIfEqual(..)
                | Instruction::SkipIfNotEqual(..) | Instruction::SkipIfPressed(_)
                | Instruction::SkipIfNotPressed(_) => self.run_control(instruction),
            Instruction::LoadByte(..) | Instruction::AddByte(..) | Instruction::Move(..)
                | Instruction::Or(..) | Instruction::And(..) | Instruction::Xor(..)
                | Instruction::Add(..) | Instruction::Sub(..) | Instruction::ShiftRight(_)
                | Instruction::ReverseSub(..) | Instruction::ShiftLeft(_)
                | Instruction::Random(..) => self.run_arithmetic(instruction),
            Instruction::LoadI(_) | Instruction::AddToI(_) | Instruction::LoadSprite(_)
                | Instruction::BCDRepresentation(_) | Instruction::StoreRegisters(_)
                | Instruction::LoadRegisters(_) => self.run_memory(instruction),
            Instruction::LoadDelayTimer(_) | Instruction::WaitForKeyPress(_)
                | Instruction::SetDelayTimer(_) | Instruction::SetSoundTimer(_) => self
                .run_timers(instruction),
        }
    }

    /// The display instructions of `run_instruction`: clear and draw.
    #[verifier::rlimit(50)]
    fn run_display(&mut self, instruction: Instruction) -> (r: Result<ProgramCounter, Chip8Error>)
        requires
            old(self)@.wf(),
            inst_wf(instruction),
            instruction is ClearDisplay || instruction is Draw,
        ensures
            final(self)@.wf(),
            final(self)@.pc == old(self)@.pc,
            (final(self)@, r) == run_inst_spec(old(self)@, instruction, 0),
    {
        match instruction {
            Instruction::ClearDisplay => {
                self.display.clear();
                proof {
                    assert(self@.display =~= Seq::new(2048, |j: int| false));
                }
                Ok(ProgramCounter::Next)
            },
            Instruction::Draw(x, y, n) => {
                let start = self.i as usize;
                if start + n as usize > MEMORY_SIZE {
                    return Err(Chip8Error::MemoryOutOfBounds);
                }
                let vx = self.read_register(x);
                let vy = self.read_register(y);
                let sprite = &self.memory[start..start + n as usize];
                let collision = self.display.draw(vx, vy, sprite);
                self.load_register(
                    0xF,
                    if collision {
                        1
                    } else {
                        0
                    },
                );
                Ok(ProgramCounter::Next)
            },
            // Unreachable: the dispatcher sends only the variants above.
            _ => Err(Chip8Error::InvalidOpcode),
        }
    }

    /// The control-flow instructions of `run_instruction`: jumps, calls,
    /// return, and the conditional skips.
    #[verifier::rlimit(50)]
    fn run_control(&mut self, instruction: Instruction) -> (r: Result<ProgramCounter, Chip8Error>)
        requires
            old(self)@.wf(),
            inst_wf(instruction),
            instruction is Return || instruction is Jump || instruction is Call
                || instruction is JumpPlusZero || instruction is SkipIfEqualsByte
                || instruction is SkipIfNotEqualsByte || instruction is SkipIfEqual
                || instruction is SkipIfNotEqual || instruction is SkipIfPressed
                || instruction is SkipIfNotPressed,
        ensures
            final(self)@.wf(),
            final(self)@.pc == old(self)@.pc,
            (final(self)@, r) == run_inst_spec(old(self)@, instruction, 0),
    {
        match instruction {
            Instruction::Return => {
                if self.sp == 0 {
                    return Err(Chip8Error::StackUnderflow);
                }
                self.sp = self.sp - 1;
                let addr = self.stack[self.sp as usize];
                Ok(ProgramCounter::Jump(addr))
            },
            Instruction::Jump(nnn) => Ok(ProgramCounter::Jump(nnn)),
            Instruction::Call(nnn) => {
                if self.sp as usize >= STACK_DEPTH {
                    return Err(Chip8Error::StackOverflow);
                }
                if self.pc > 0xFFFD {
                    return Err(Chip8Error::MemoryOutOfBounds);
                }
                self.stack.set(self.sp as usize, self.pc + 2);
                self.sp = self.sp + 1;
                Ok(ProgramCounter::Jump(nnn))
            },
            Instruction::JumpPlusZero(nnn) => {
                let target = nnn + self.read_register(0) as u16;
                Ok(ProgramCounter::Jump(target))
            },
            Instruction::SkipIfEqualsByte(x, kk) => {
                if self.read_register(x) == kk {
                    Ok(ProgramCounter::Skip)
                } else {
                    Ok(ProgramCounter::Next)
                }
            },
            Instruction::SkipIfNotEqualsByte(x, kk) => {
                if self.read_register(x) != kk {
                    Ok(ProgramCounter::Skip)
                } else {
                    Ok(ProgramCounter::Next)
                }
            },
            Instruction::SkipIfEqual(x, y) => {
                if self.read_register(x) == self.read_register(y) {
                    Ok(ProgramCounter::Skip)
                } else {
                    Ok(ProgramCounter::Next)
                }
            },
            Instruction::SkipIfNotEqual(x, y) => {
                if self.read_register(x) != self.read_register(y) {
                    Ok(ProgramCounter::Skip)
                } else {
                    Ok(ProgramCounter::Next)
                }
            },
            Instruction::SkipIfPressed(x) => {
                let key = self.read_register(x);
                let pressed = (key as usize) < NUM_KEYS && self.keyboard[key as usize];
                if pressed {
                    Ok(ProgramCounter::Skip)
                } else {
                    Ok(ProgramCounter::Next)
                }
            },
            Instruction::SkipIfNotPressed(x) => {
                let key = self.read_register(x);
                let pressed = (key as usize) < NUM_KEYS && self.keyboard[key as usize];
                if !pressed {
                    Ok(ProgramCounter::Skip)
                } else {
                    Ok(ProgramCounter::Next)
                }
            },
            // Unreachable: the dispatcher sends only the variants above.
            _ => Err(Chip8Error::InvalidOpcode),
        }
    }

    /// The register-arithmetic instructions of `run_instruction`,
    /// including the masked random byte.
    #[verifier::rlimit(100)]
    fn run_arithmetic(&mut self, instruction: Instruction) -> (r: Result<
        ProgramCounter,
        Chip8Error,
    >)
        requires
            old(self)@.wf(),
            inst_wf(instruction),
            instruction is LoadByte || instruction is AddByte || instruction is Move
                || instruction is Or || instruction is And || instruction is Xor
                || instruction is Add || instruction is Sub || instruction is ShiftRight
                || instruction is ReverseSub || instruction is ShiftLeft
                || instruction is Random,
        ensures
            final(self)@.wf(),
            final(self)@.pc == old(self)@.pc,
            exists|rb: u8| (final(self)@, r) == #[trigger] run_inst_spec(old(self)@, instruction, rb),
            !(instruction is Random) ==> (final(self)@, r) == run_inst_spec(
                old(self)@,
                instruction,
                0,
            ),
    {
        let r = match instruction {
            Instruction::LoadByte(x, kk) => {
                self.load_register(x, kk);
                Ok(ProgramCounter::Next)
            },
            Instruction::AddByte(x, kk) => {
                let value = self.read_register(x).wrapping_add(kk);
                self.load_register(x, value);
                Ok(ProgramCounter::Next)
            },
            Instruction::Move(x, y) => {
                let value = self.read_register(y);
                self.load_register(x, value);
                Ok(ProgramCounter::Next)
            },
            Instruction::Or(x, y) => {
                let value = self.read_register(x) | self.read_register(y);
                self.load_register(x, value);
                Ok(ProgramCounter::Next)
            },
            Instruction::And(x, y) => {
                let value = self.read_register(x) & self.read_register(y);
                self.load_register(x, value);
                Ok(ProgramCounter::Next)
            },
            Instruction::Xor(x, y) => {
                let value = self.read_register(x) ^ self.read_register(y);
                self.load_register(x, value);
                Ok(ProgramCounter::Next)
            },
            Instruction::Add(x, y) => {
                let sum = self.read_register(x) as u16 + self.read_register(y) as u16;
                let carry: u8 = if sum > 255 {
                    1
                } else {
                    0
                };
                self.load_register(0xF, carry);
                self.load_register(x, (sum % 256) as u8);
                Ok(ProgramCounter::Next)
            },
            Instruction::Sub(x, y) => {
                let vx = self.read_register(x);
                let vy = self.read_register(y);
                let no_borrow: u8 = if vx >= vy {
                    1
                } else {
                    0
                };
                self.load_register(0xF, no_borrow);
                self.load_register(x, vx.wrapping_sub(vy));
                Ok(ProgramCounter::Next)
            },
            Instruction::ShiftRight(x) => {
                let vx = self.read_register(x);
                self.load_register(0xF, vx % 2);
                self.load_register(x, vx / 2);
                Ok(ProgramCounter::Next)
            },
            Instruction::ReverseSub(x, y) => {
                let vx = self.read_register(x);
                let vy = self.read_register(y);
                let no_borrow: u8 = if vy >= vx {
                    1
                } else {
                    0
                };
                self.load_register(0xF, no_borrow);
                self.load_register(x, vy.wrapping_sub(vx));
                Ok(ProgramCounter::Next)
            },
            Instruction::ShiftLeft(x) => {
                let vx = self.read_register(x);
                let doubled: u8 = if vx >= 128 {
                    (vx - 128) * 2
                } else {
                    vx * 2
                };
                self.load_register(0xF, vx / 128);
                self.load_register(x, doubled);
                Ok(ProgramCounter::Next)
            },
            Instruction::Random(x, kk) => {
                let rbyte = random_byte();
                self.load_register(x, rbyte & kk);
                proof {
                    assert((self@, Ok::<ProgramCounter, Chip8Error>(ProgramCounter::Next))
                        == run_inst_spec(old(self)@, instruction, rbyte));
                }
                Ok(ProgramCounter::Next)
            },
            // Unreachable: the dispatcher sends only the variants above.
            _ => Err(Chip8Error::InvalidOpcode),
        };
        proof {
            if !(instruction is Random) {
                assert((self@, r) == run_inst_spec(old(self)@, instruction, 0));
            }
        }
        r
    }

    /// The memory instructions of `run_instruction`: the index register,
    /// binary-coded decimal, and the register-block transfers.
    #[verifier::rlimit(50)]
    #[verifier::loop_isolation(false)]
    fn run_memory(&mut self, instruction: Instruction) -> (r: Result<ProgramCounter, Chip8Error>)
        requires
            old(self)@.wf(),
            inst_wf(instruction),
            instruction is LoadI || instruction is AddToI || instruction is LoadSprite
                || instruction is BCDRepresentation || instruction is StoreRegisters
                || instruction is LoadRegisters,
        ensures
            final(self)@.wf(),
            final(self)@.pc == old(self)@.pc,
            (final(self)@, r) == run_inst_spec(old(self)@, instruction, 0),
    {
        match instruction {
            Instruction::LoadI(nnn) => {
                self.i = nnn;
                Ok(ProgramCounter::Next)
            },
            Instruction::AddToI(x) => {
                let value = self.read_register(x);
                self.i = self.i.wrapping_add(value as u16);
                Ok(ProgramCounter::Next)
            },
            Instruction::LoadSprite(x) => {
                let glyph = self.read_register(x) % 16;
                self.i = glyph as u16 * 5;
                Ok(ProgramCounter::Next)
            },
            Instruction::BCDRepresentation(x) => {
                let a = self.i as usize;
                if a + 3 > MEMORY_SIZE {
                    return Err(Chip8Error::MemoryOutOfBounds);
                }
                let value = self.read_register(x);
                self.memory.set(a, value / 100);
                self.memory.set(a + 1, (value / 10) % 10);
                self.memory.set(a + 2, value % 10);
                Ok(ProgramCounter::Next)
            },
            Instruction::StoreRegisters(x) => {
                let a = self.i as usize;
                let limit = x as usize + 1;
                if a + limit > MEMORY_SIZE {
                    return Err(Chip8Error::MemoryOutOfBounds);
                }
                let mut offset: usize = 0;
                while offset < limit
                    invariant
                        offset <= limit,
                        self@ == (Chip8View { memory: self@.memory, ..old(self)@ }),
                        self@.memory.len() == MEMORY_SIZE,
                        forall|k: int|
                            0 <= k < MEMORY_SIZE ==> self@.memory[k] == if a <= k < a + offset {
                                old(self)@.v[k - a]
                            } else {
                                old(self)@.memory[k]
                            },
                    decreases limit - offset,
                {
                    let value = self.read_register(offset as u8);
                    self.memory.set(a + offset, value);
                    offset = offset + 1;
                }
                proof {
                    assert(self@.memory =~= run_inst_spec(old(self)@, instruction, 0).0.memory);
                }
                Ok(ProgramCounter::Next)
            },
            Instruction::LoadRegisters(x) => {
                let a = self.i as usize;
                let limit = x as usize + 1;
                if a + limit > MEMORY_SIZE {
                    return Err(Chip8Error::MemoryOutOfBounds);
                }
                let mut offset: usize = 0;
                while offset < limit
                    invariant
                        offset <= limit,
                        self@ == (Chip8View { v: self@.v, ..old(self)@ }),
                        self@.v.len() == NUM_REGISTERS,
                        forall|j: int|
                            0 <= j < NUM_REGISTERS ==> self@.v[j] == if 0 <= j < offset {
                                old(self)@.memory[a + j]
                            } else {
                                old(self)@.v[j]
                            },
                    decreases limit - offset,
                {
                    let value = self.memory[a + offset];
                    self.load_register(offset as u8, value);
                    offset = offset + 1;
                }
                proof {
                    assert(self@.v =~= run_inst_spec(old(self)@, instruction, 0).0.v);
                }
                Ok(ProgramCounter::Next)
            },
            // Unreachable: the dispatcher sends only the variants above.
            _ => Err(Chip8Error::InvalidOpcode),
        }
    }

    /// The timer and keypress-wait instructions of `run_instruction`.
    #[verifier::rlimit(50)]
    fn run_timers(&mut self, instruction: Instruction) -> (r: Result<ProgramCounter, Chip8Error>)
        requires
            old(self)@.wf(),
            inst_wf(instruction),
            instruction is LoadDelayTimer || instruction is WaitForKeyPress
                || instruction is SetDelayTimer || instruction is SetSoundTimer,
        ensures
            final(self)@.wf(),
            final(self)@.pc == old(self)@.pc,
            (final(self)@, r) == run_inst_spec(old(self)@, instruction, 0),
    {
        match instruction {
            Instruction::LoadDelayTimer(x) => {
                let value = self.v_delay;
                self.load_register(x, value);
                Ok(ProgramCounter::Next)
            },
            Instruction::WaitForKeyPress(x) => {
                self.keyboard_wait_key = Some(x);
                Ok(ProgramCounter::Next)
            },
            Instruction::SetDelayTimer(x) => {
                self.v_delay = self.read_register(x);
                Ok(ProgramCounter::Next)
            },
            Instruction::SetSoundTimer(x) => {
                self.v_sound = self.read_register(x);
                Ok(ProgramCounter::Next)
            },
            // Unreachable: the dispatcher sends only the variants above.
            _ => Err(Chip8Error::InvalidOpcode),
        }
    }

    /// One step: fetches, decodes and executes the instruction at the
    /// program counter and applies its program-counter directive.  While a
    /// register awaits a keypress this is a no-op, so the driving loop
    /// never blocks.  A fatal condition is reported and stops the machine
    /// in the state the ensures clause describes.
    #[verifier::rlimit(100)]
    pub fn cycle(&mut self) -> (r: Result<(), Chip8Error>)
        requires
            old(self)@.wf(),
        ensures
            final(self)@.wf(),
            cycle_spec(old(self)@, final(self)@, r),
    {
        if self.keyboard_wait_key.is_some() {
            return Ok(());
        }
        let pc = self.pc as usize;
        if pc + 1 >= MEMORY_SIZE {
            return Err(Chip8Error::MemoryOutOfBounds);
        }
        let opcode = (self.memory[pc] as u16) * 256 + (self.memory[pc + 1] as u16);
        let instruction = match self.to_instruction(opcode) {
            Some(instruction) => instruction,
            None => {
                return Err(Chip8Error::InvalidOpcode);
            },
        };
        let directive = match self.run_instruction(instruction) {
            Ok(directive) => directive,
            Err(e) => {
                proof {
                    let rb = choose|rb: u8|
                        (self@, Err::<ProgramCounter, Chip8Error>(e)) == run_inst_spec(
                            old(self)@,
                            instruction,
                            rb,
                        );
                    assert(step_result(old(self)@, instruction, rb, self@, Err(e)));
                }
                return Err(e);
            },
        };
        let ghost mid = self@;
        let ghost rb = choose|rb: u8|
            (self@, Ok::<ProgramCounter, Chip8Error>(directive)) == run_inst_spec(
                old(self)@,
                instruction,
                rb,
            );
        match directive {
            ProgramCounter::Next => {
                self.pc = self.pc + 2;
            },
            ProgramCounter::Skip => {
                self.pc = self.pc + 4;
            },
            ProgramCounter::Jump(address) => {
                self.pc = address;
            },
        }
        proof {
            assert(self@ =~= apply_pc(mid, directive));
            assert(step_result(old(self)@, instruction, rb, self@, Ok(())));
        }
        Ok(())
    }

    /// Marks `key` held down; if a register was awaiting a keypress, the
    /// key index is written into it and the wait is resolved.
    pub fn handle_key_down(&mut self, key: usize)
        requires
            old(self)@.wf(),
            key < NUM_KEYS,
        ensures
            final(self)@ == key_down_spec(old(self)@, key as int),
            final(self)@.wf(),
    {
        self.keyboard.set(key, true);
        if let Some(x) = self.keyboard_wait_key {
            self.v.set(x as usize, key as u8);
            self.keyboard_wait_key = None;
        }
    }

    /// Marks `key` released.
    pub fn handle_key_up(&mut self, key: usize)
        requires
            old(self)@.wf(),
            key < NUM_KEYS,
        ensures
            final(self)@ == (Chip8View {
                keyboard: old(self)@.keyboard.update(key as int, false),
                ..old(self)@
            }),
            final(self)@.wf(),
    {
        self.keyboard.set(key, false);
    }

    /// One 60 Hz tick: each timer that is above zero goes down by one, and
    /// a timer already at zero stays at zero.
    pub fn decrement_timers(&mut self)
        ensures
            final(self)@ == (Chip8View {
                delay: if old(self)@.delay > 0 {
                    (old(self)@.delay - 1) as u8
                } else {
                    0u8
                },
                sound: if old(self)@.sound > 0 {
                    (old(self)@.sound - 1) as u8
                } else {
                    0u8
                },
                ..old(self)@
            }),
    {
        if self.v_delay > 0 {
            self.v_delay = self.v_delay - 1;
        }
        if self.v_sound > 0 {
            self.v_sound = self.v_sound - 1;
        }
    }
}

} // verus!
