//! Machine-level laws of the instruction semantics, stated over the
//! mathematical model and proved once for every machine state.

use crate::chip8::{apply_pc, cycle_spec, key_down_spec, run_inst_spec, Chip8Error, Chip8View};
use crate::instruction::{Instruction, ProgramCounter};
use vstd::prelude::*;

verus! {

/// Adding two registers is exact 8-bit modular arithmetic: the
/// destination receives the sum modulo 256 and, when the destination is
/// not VF itself, VF receives the carry bit.
pub proof fn lemma_add_is_modular(pre: Chip8View, x: u8, y: u8, rb: u8)
    requires
        pre.wf(),
        x < 16,
        y < 16,
    ensures
        ({
            let (post, r) = run_inst_spec(pre, Instruction::Add(x, y), rb);
            &&& post.v[x as int] == (pre.v[x as int] + pre.v[y as int]) % 256
            &&& x != 15 ==> post.v[15] == (if pre.v[x as int] + pre.v[y as int] > 255 {
                1u8
            } else {
                0u8
            })
            &&& r == Ok::<ProgramCounter, Chip8Error>(ProgramCounter::Next)
        }),
{
}

/// Adding an immediate to a register wraps modulo 256 and touches no
/// other register; in particular VF keeps its value when it is not the
/// destination.
pub proof fn lemma_add_byte_is_modular(pre: Chip8View, x: u8, kk: u8, rb: u8)
    requires
        pre.wf(),
        x < 16,
    ensures
        ({
            let (post, r) = run_inst_spec(pre, Instruction::AddByte(x, kk), rb);
            &&& post.v[x as int] == (pre.v[x as int] + kk) % 256
            &&& forall|j: int| 0 <= j < 16 && j != x ==> post.v[j] == pre.v[j]
            &&& r == Ok::<ProgramCounter, Chip8Error>(ProgramCounter::Next)
        }),
{
}

/// Subtraction sets VF to 1 exactly when no borrow occurs — the minuend
/// is at least the subtrahend — and else to 0, with the wrapped
/// difference in the destination.  Stated for a destination other than VF
/// itself, where the difference overwrites the flag.
pub proof fn lemma_sub_borrow_flag(pre: Chip8View, x: u8, y: u8, rb: u8)
    requires
        pre.wf(),
        x < 16,
        y < 16,
        x != 15,
    ensures
        ({
            let (post, r) = run_inst_spec(pre, Instruction::Sub(x, y), rb);
            &&& post.v[15] == (if pre.v[x as int] >= pre.v[y as int] {
                1u8
            } else {
                0u8
            })
            &&& post.v[x as int] == (pre.v[x as int] - pre.v[y as int]) % 256
            &&& r == Ok::<ProgramCounter, Chip8Error>(ProgramCounter::Next)
        }),
{
}

/// Reverse subtraction sets VF to 1 exactly when no borrow occurs — the
/// minuend, here the second register, is at least the subtrahend — and
/// else to 0, with the wrapped difference in the destination.  Stated for
/// a destination other than VF itself.
pub proof fn lemma_reverse_sub_borrow_flag(pre: Chip8View, x: u8, y: u8, rb: u8)
    requires
        pre.wf(),
        x < 16,
        y < 16,
        x != 15,
    ensures
        ({
            let (post, r) = run_inst_spec(pre, Instruction::ReverseSub(x, y), rb);
            &&& post.v[15] == (if pre.v[y as int] >= pre.v[x as int] {
                1u8
            } else {
                0u8
            })
            &&& post.v[x as int] == (pre.v[y as int] - pre.v[x as int]) % 256
            &&& r == Ok::<ProgramCounter, Chip8Error>(ProgramCounter::Next)
        }),
{
}

/// A right shift captures the shifted-out low bit in VF, overwriting
/// whatever VF held before, and halves the register.  Stated for a
/// destination other than VF itself, where the shifted value overwrites
/// the flag.
pub proof fn lemma_shift_right_flag(pre: Chip8View, x: u8, rb: u8)
    requires
        pre.wf(),
        x < 16,
        x != 15,
    ensures
        ({
            let (post, r) = run_inst_spec(pre, Instruction::ShiftRight(x), rb);
            &&& post.v[15] == pre.v[x as int] % 2
            &&& post.v[x as int] == pre.v[x as int] / 2
            &&& r == Ok::<ProgramCounter, Chip8Error>(ProgramCounter::Next)
        }),
{
}

/// A left shift captures the shifted-out high bit in VF, overwriting
/// whatever VF held before, and doubles the register modulo 256.  Stated
/// for a destination other than VF itself.
pub proof fn lemma_shift_left_flag(pre: Chip8View, x: u8, rb: u8)
    requires
        pre.wf(),
        x < 16,
        x != 15,
    ensures
        ({
            let (post, r) = run_inst_spec(pre, Instruction::ShiftLeft(x), rb);
            &&& post.v[15] == pre.v[x as int] / 128
            &&& post.v[x as int] == (2 * pre.v[x as int]) % 256
            &&& r == Ok::<ProgramCounter, Chip8Error>(ProgramCounter::Next)
        }),
{
}

/// A call followed immediately by a return: the call jumps to its target
/// after pushing the address of the following instruction, and the return
/// directs the program counter right back there, with the stack pointer
/// and the registers as they were before the call.
pub proof fn lemma_call_return_round_trip(pre: Chip8View, nnn: u16, rb1: u8, rb2: u8)
    requires
        pre.wf(),
        pre.sp < 16,
        pre.pc <= 0xFFFD,
    ensures
        ({
            let (after_call, r1) = run_inst_spec(pre, Instruction::Call(nnn), rb1);
            let jumped = apply_pc(after_call, ProgramCounter::Jump(nnn));
            let (after_return, r2) = run_inst_spec(jumped, Instruction::Return, rb2);
            &&& r1 == Ok::<ProgramCounter, Chip8Error>(ProgramCounter::Jump(nnn))
            &&& r2 == Ok::<ProgramCounter, Chip8Error>(
                ProgramCounter::Jump((pre.pc + 2) as u16),
            )
            &&& apply_pc(after_return, ProgramCounter::Jump((pre.pc + 2) as u16)).pc == pre.pc
                + 2
            &&& after_return.sp == pre.sp
            &&& after_return.v == pre.v
        }),
{
}

/// While a register awaits a keypress, a step request is a no-op: it
/// changes nothing — neither the program counter nor any register — and
/// reports success.
pub proof fn lemma_step_while_waiting_is_noop(
    pre: Chip8View,
    post: Chip8View,
    r: Result<(), Chip8Error>,
)
    requires
        pre.wait is Some,
        cycle_spec(pre, post, r),
    ensures
        post == pre,
        r == Ok::<(), Chip8Error>(()),
{
}

/// A key-down event while a register awaits a keypress writes the key
/// index into that register and resolves the wait, leaving the program
/// counter alone, so the next step proceeds normally.
pub proof fn lemma_key_down_resolves_wait(pre: Chip8View, key: int, x: u8)
    requires
        pre.wf(),
        0 <= key < 16,
        pre.wait == Some(x),
    ensures
        key_down_spec(pre, key).wait is None,
        key_down_spec(pre, key).v[x as int] == key,
        key_down_spec(pre, key).pc == pre.pc,
{
}

} // verus!
