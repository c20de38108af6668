//! What each instruction does to the machine, as functions from a state to
//! the next state and an outcome.
use vstd::prelude::*;
use crate::cpu::{CpuView, FaultKind, IoRequest, Completion, UnrecoverableError};
use crate::isa::{Argument, Instruction};

verus! {

/// The outcome of executing an instruction on the integer core.
#[derive(Clone, Copy, Debug, PartialEq, Eq, Structural)]
pub enum Outcome {
    /// Executed; nothing is asked of the outside.
    Done,
    /// Executed; the machine asks for input or output.
    Io(IoRequest),
    /// Stopped with an unrecoverable error of the given kind, instruction
    /// register and program counter.
    Fault(FaultKind, i16, u16),
    /// The instruction cannot be executed on this state: a register would
    /// leave its range or a memory index would be negative.
    Trap,
}

/// The word held in memory cell `a`; a cell never written reads as zero.
pub open spec fn mem_word(s: CpuView, a: int) -> int {
    match s.memory[a] {
        Some(v) => v as int,
        None => 0,
    }
}

/// `v` clamped into the range of `u16`.
pub open spec fn sat_u16(v: int) -> int {
    if v < 0 {
        0
    } else if v > 65535 {
        65535
    } else {
        v
    }
}

/// `v` clamped into the range of `i16`.
pub open spec fn sat_i16(v: int) -> int {
    if v < -32768 {
        -32768
    } else if v > 32767 {
        32767
    } else {
        v
    }
}

/// The two's complement reading of a 16-bit word as a signed number.
pub open spec fn as_signed(v: int) -> int {
    if v > 32767 {
        v - 65536
    } else {
        v
    }
}

/// The 16-bit word whose two's complement reading is `v`.
pub open spec fn as_word(v: int) -> int {
    if v < 0 {
        v + 65536
    } else {
        v
    }
}

pub open spec fn is_float_register(n: i16) -> bool {
    n == 6 || n == 7
}

/// An operand that names floating-point register r6 or r7.
pub open spec fn float_operand(a: Argument) -> bool {
    match a {
        Argument::Register(n) => is_float_register(n),
        Argument::RegPtr(n) => is_float_register(n),
        _ => false,
    }
}

pub open spec fn float_destination(a: Argument) -> bool {
    match a {
        Argument::Register(n) => is_float_register(n),
        _ => false,
    }
}

/// Whether executing the instruction reads or writes r6 or r7.
pub open spec fn needs_float_unit(ins: Instruction) -> bool {
    match ins {
        Instruction::ADD(a1, a2) | Instruction::DIV(a1, a2) | Instruction::NAND(a1, a2)
        | Instruction::MOV(a1, a2) | Instruction::CMP(a1, a2) | Instruction::LD(a1, a2) => {
            float_operand(a2) || float_destination(a1)
        },
        Instruction::LEA(a1, _) => float_destination(a1),
        Instruction::ST(a1, a2) => float_operand(a2) || (a1 matches Argument::RegPtr(n)
            && is_float_register(n)),
        Instruction::PUSH(a) | Instruction::INT(a) => float_operand(a),
        Instruction::POP(a) => float_destination(a),
        Instruction::BO(a) | Instruction::BNO(a) | Instruction::BL(a) | Instruction::BG(a)
        | Instruction::JMP(a) | Instruction::BZ(a) | Instruction::BNZ(a) => a matches Argument::RegPtr(
            n,
        ) && is_float_register(n),
        Instruction::HLT | Instruction::RET => false,
    }
}

/// The value of an integer register: r0..r5, the program counter (r8) or
/// the stack pointer (r9).
pub open spec fn register_value(s: CpuView, n: i16) -> Option<int> {
    if 0 <= n <= 5 {
        Some(s.int_reg[n as int] as int)
    } else if n == 8 {
        Some(s.pc as int)
    } else if n == 9 {
        Some(s.sp as int)
    } else {
        None
    }
}

/// The value of an operand, when it has one on this state.
pub open spec fn operand(s: CpuView, a: Argument) -> Option<int> {
    match a {
        Argument::Register(n) => register_value(s, n),
        Argument::Literal(n) => Some(n as int),
        Argument::MemAddr(n) => if n >= 0 {
            Some(mem_word(s, n as int))
        } else {
            None
        },
        Argument::MemPtr(n) => if n >= 0 {
            Some(mem_word(s, mem_word(s, n as int)))
        } else {
            None
        },
        Argument::RegPtr(n) => match register_value(s, n) {
            Some(v) => Some(mem_word(s, v)),
            None => None,
        },
    }
}

/// A register number that names no integer register stops the machine.
#[verifier::opaque]
pub open spec fn invalid_register(s: CpuView) -> (CpuView, Outcome) {
    (CpuView { running: false, ..s }, Outcome::Fault(FaultKind::IllegalInstruction, s.ir, s.pc))
}

/// What happens when an operand has no value.
pub open spec fn operand_failure(s: CpuView, a: Argument) -> (CpuView, Outcome) {
    match a {
        Argument::MemAddr(_) | Argument::MemPtr(_) => (s, Outcome::Trap),
        _ => invalid_register(s),
    }
}

/// A register write that does not fit: the overflow flag is set, and the
/// machine halts when it halts on overflow.
#[verifier::opaque]
pub open spec fn overflowed(s: CpuView) -> CpuView {
    CpuView {
        oflag: true,
        running: if s.hlt_on_overflow {
            false
        } else {
            s.running
        },
        ..s
    }
}

/// Whether `value` fits register `n` (`CPU::check_overflow`): r0..r3 are
/// signed 16-bit registers, r4 and r5 unsigned ones, r6 and r7 take any
/// integer, and no other register can be written.
pub open spec fn fits_register(n: int, value: int) -> bool {
    if 0 <= n <= 3 {
        -32768 <= value <= 32767
    } else if 4 <= n <= 5 {
        0 <= value <= 65535
    } else {
        n == 6 || n == 7
    }
}

/// Writing `value` to the register operand `a`. A value that does not fit
/// the register (see `fits_register`) overflows. r0..r5 take a value in
/// `0..=32767` and `0..=65535` respectively; a negative value that fits
/// r0..r3 leaves the machine unchanged.
#[verifier::opaque]
pub open spec fn write_register(s: CpuView, a: Argument, value: int) -> CpuView {
    match a {
        Argument::Register(n) => if !(0 <= n <= 5) || !fits_register(n as int, value) {
            overflowed(s)
        } else if value < 0 {
            s
        } else {
            CpuView { int_reg: s.int_reg.update(n as int, value as u16), ..s }
        },
        _ => s,
    }
}

/// Advancing the program counter by one.
pub open spec fn bump(s: CpuView) -> (CpuView, Outcome) {
    if s.pc == 65535 {
        (s, Outcome::Trap)
    } else {
        (CpuView { pc: (s.pc + 1) as u16, ..s }, Outcome::Done)
    }
}

/// The result of `first`, followed by advancing the program counter when
/// `first` completed.
pub open spec fn then_bump(first: (CpuView, Outcome)) -> (CpuView, Outcome) {
    if first.1 is Done {
        bump(first.0)
    } else {
        first
    }
}

/// Pushing a word onto the stack. The stack grows down from the base
/// pointer, or up once the stack pointer is above the base pointer.
#[verifier::opaque]
pub open spec fn push_spec(s: CpuView, w: u16) -> (CpuView, Outcome) {
    if s.sp > s.bp || s.backward_stack {
        if s.sp == 65535 {
            (s, Outcome::Trap)
        } else {
            let sp = (s.sp + 1) as u16;
            (
                CpuView {
                    sp,
                    memory: s.memory.update(sp as int, Some(w)),
                    backward_stack: sp >= s.bp,
                    ..s
                },
                Outcome::Done,
            )
        }
    } else if s.sp == 0 {
        (
            CpuView { running: false, err: true, ..s },
            Outcome::Fault(FaultKind::StackOverflow, s.ir, s.pc),
        )
    } else {
        let sp = (s.sp - 1) as u16;
        (CpuView { sp, memory: s.memory.update(sp as int, Some(w)), ..s }, Outcome::Done)
    }
}

/// Removing the top of the stack: the cell is emptied and the stack pointer
/// moves toward the base pointer.
#[verifier::opaque]
pub open spec fn drop_top(s: CpuView) -> CpuView {
    let memory = s.memory.update(s.sp as int, None);
    if s.sp > s.bp {
        CpuView { memory, sp: (s.sp - 1) as u16, ..s }
    } else if s.sp != s.bp {
        CpuView { memory, sp: (s.sp + 1) as u16, ..s }
    } else {
        CpuView { memory, ..s }
    }
}

/// `ADD a1, a2`: adds the source to a register, wrapping at 16 bits. The
/// overflow flag tells whether the sum of the register and the (non-negative
/// part of the) source exceeds 16 bits; a literal source is added as its
/// two's complement word.
#[verifier::opaque]
pub open spec fn add_spec(s: CpuView, a1: Argument, a2: Argument) -> (CpuView, Outcome) {
    match operand(s, a2) {
        None => operand_failure(s, a2),
        Some(v) => match a1 {
            Argument::Register(n) => if !(0 <= n <= 5) {
                invalid_register(s)
            } else {
                let r = s.int_reg[n as int] as int;
                let addend = if a2 is Literal {
                    as_word(v)
                } else {
                    v
                };
                let s1 = CpuView { oflag: r + sat_u16(v) > 65535, ..s };
                let sum = (r + addend) % 65536;
                bump(write_register(s1, a1, sum))
            },
            _ => bump(s),
        },
    }
}

/// `DIV a1, a2`: unsigned division of a register by the source; the
/// remainder flag tells whether the division was inexact. A source that is
/// zero or negative is a division by zero.
#[verifier::opaque]
pub open spec fn div_spec(s: CpuView, a1: Argument, a2: Argument) -> (CpuView, Outcome) {
    match operand(s, a2) {
        None => operand_failure(s, a2),
        Some(v) => if v <= 0 {
            (
                CpuView { running: false, ..s },
                Outcome::Fault(FaultKind::DivideByZero, s.ir, s.pc),
            )
        } else {
            match a1 {
                Argument::Register(n) => if !(0 <= n <= 5) {
                    invalid_register(s)
                } else {
                    let r = s.int_reg[n as int] as int;
                    let s1 = CpuView { rflag: r % v != 0, ..s };
                    bump(write_register(s1, a1, r / v))
                },
                _ => bump(s),
            }
        },
    }
}

/// `NAND a1, a2`: the bitwise NAND of a register and the source.
pub open spec fn nand_spec(s: CpuView, a1: Argument, a2: Argument) -> (CpuView, Outcome) {
    match operand(s, a2) {
        None => operand_failure(s, a2),
        Some(v) => match a1 {
            Argument::Register(n) => if !(0 <= n <= 5) {
                invalid_register(s)
            } else {
                let r = s.int_reg[n as int];
                let result = !(r & (sat_u16(v) as u16));
                bump(write_register(s, a1, result as int))
            },
            _ => bump(s),
        },
    }
}

/// `MOV a1, a2`: copies the source into a register; a word read through a
/// pointer is taken as a signed number.
pub open spec fn mov_spec(s: CpuView, a1: Argument, a2: Argument) -> (CpuView, Outcome) {
    match operand(s, a2) {
        None => operand_failure(s, a2),
        Some(v) => {
            let value = if a2 is RegPtr || a2 is MemPtr {
                as_signed(v)
            } else {
                v
            };
            bump(write_register(s, a1, value))
        },
    }
}

/// `CMP a1, a2`: sets the zero flag when the register equals the source and
/// the sign flag when it is smaller.
pub open spec fn cmp_spec(s: CpuView, a1: Argument, a2: Argument) -> (CpuView, Outcome) {
    match operand(s, a2) {
        None => operand_failure(s, a2),
        Some(src) => match a1 {
            Argument::Register(_) => match operand(s, a1) {
                None => operand_failure(s, a1),
                Some(value) => bump(CpuView { zflag: value == src, sflag: value < src, ..s }),
            },
            _ => bump(s),
        },
    }
}

/// `LD a1, a2`: loads the source into a register.
pub open spec fn ld_spec(s: CpuView, a1: Argument, a2: Argument) -> (CpuView, Outcome) {
    match operand(s, a2) {
        None => operand_failure(s, a2),
        Some(v) => bump(write_register(s, a1, v)),
    }
}

/// `LEA a1, a2`: loads the address `a2` itself into a register.
pub open spec fn lea_spec(s: CpuView, a1: Argument, a2: Argument) -> (CpuView, Outcome) {
    match a2 {
        Argument::MemAddr(v) => bump(write_register(s, a1, v as int)),
        _ => (s, Outcome::Fault(FaultKind::IllegalInstruction, s.ir, s.pc)),
    }
}

/// `ST a1, a2`: stores the source, clamped to a signed 16-bit number, at an
/// address or at the address held in a register.
pub open spec fn st_spec(s: CpuView, a1: Argument, a2: Argument) -> (CpuView, Outcome) {
    match operand(s, a2) {
        None => operand_failure(s, a2),
        Some(v) => {
            let w = as_word(sat_i16(v)) as u16;
            match a1 {
                Argument::MemAddr(n) => if n < 0 {
                    (s, Outcome::Fault(FaultKind::SegmentationFault, s.ir, s.pc))
                } else {
                    bump(CpuView { memory: s.memory.update(n as int, Some(w)), ..s })
                },
                Argument::RegPtr(n) => match register_value(s, n) {
                    None => invalid_register(s),
                    Some(addr) => bump(CpuView { memory: s.memory.update(addr, Some(w)), ..s }),
                },
                _ => bump(s),
            }
        },
    }
}

/// `PUSH a`: pushes the source, clamped to 16 bits, onto the stack.
pub open spec fn push_ins_spec(s: CpuView, a: Argument) -> (CpuView, Outcome) {
    match operand(s, a) {
        None => operand_failure(s, a),
        Some(v) => then_bump(push_spec(s, sat_u16(v) as u16)),
    }
}

/// `POP a`: moves the top of the stack into a register or a memory cell.
pub open spec fn pop_spec(s: CpuView, a: Argument) -> (CpuView, Outcome) {
    let v = mem_word(s, s.sp as int);
    match a {
        Argument::MemAddr(n) if n < 0 => (s, Outcome::Trap),
        _ => {
            let s1 = match a {
                Argument::Register(_) => write_register(s, a, v),
                Argument::MemAddr(n) => CpuView {
                    memory: s.memory.update(n as int, Some(v as u16)),
                    ..s
                },
                _ => s,
            };
            bump(drop_top(s1))
        },
    }
}

/// `RET`: returns to the instruction after the address on top of the stack.
pub open spec fn ret_spec(s: CpuView) -> (CpuView, Outcome) {
    match s.memory[s.sp as int] {
        None => (s, Outcome::Fault(FaultKind::StackUnderflow, s.ir, s.pc)),
        Some(v) => if v == 65535 {
            (s, Outcome::Trap)
        } else {
            (drop_top(CpuView { pc: (v + 1) as u16, ..s }), Outcome::Done)
        },
    }
}

/// Setting the program counter to the target of a jump.
pub open spec fn goto_spec(s: CpuView, a: Argument) -> (CpuView, Outcome) {
    match a {
        Argument::MemAddr(n) => if n < 0 {
            (s, Outcome::Fault(FaultKind::SegmentationFault, s.ir, s.pc))
        } else {
            (CpuView { pc: n as u16, ..s }, Outcome::Done)
        },
        Argument::RegPtr(n) => match register_value(s, n) {
            None => invalid_register(s),
            Some(v) => (CpuView { pc: v as u16, ..s }, Outcome::Done),
        },
        _ => (s, Outcome::Done),
    }
}

/// A taken jump: when return addresses are pushed, the program counter is
/// pushed first (and advanced), then the program counter is set to the target.
pub open spec fn jump_spec(s: CpuView, a: Argument) -> (CpuView, Outcome) {
    if s.pushret {
        if s.pc > 32767 {
            (s, Outcome::Trap)
        } else {
            let pushed = then_bump(push_spec(s, s.pc));
            if pushed.1 is Done {
                goto_spec(pushed.0, a)
            } else {
                pushed
            }
        }
    } else {
        goto_spec(s, a)
    }
}

/// Landing on a target that was worked out beforehand: `None` stands for a
/// target outside memory, which is a segmentation fault.
pub open spec fn land(s: CpuView, target: Option<u16>) -> (CpuView, Outcome) {
    match target {
        Some(t) => (CpuView { pc: t, ..s }, Outcome::Done),
        None => (s, Outcome::Fault(FaultKind::SegmentationFault, s.ir, s.pc)),
    }
}

/// A taken jump to a target that was worked out beforehand (as for a
/// target held in a floating-point register): like `jump_spec`, the return
/// address is pushed first when return addresses are pushed.
pub open spec fn resolved_jump_spec(s: CpuView, target: Option<u16>) -> (CpuView, Outcome) {
    if s.pushret {
        if s.pc > 32767 {
            (s, Outcome::Trap)
        } else {
            let pushed = then_bump(push_spec(s, s.pc));
            if pushed.1 is Done {
                land(pushed.0, target)
            } else {
                pushed
            }
        }
    } else {
        land(s, target)
    }
}

/// Whether a jump or branch instruction jumps in state `s`; `None` for
/// other instructions.
pub open spec fn branch_condition(s: CpuView, ins: Instruction) -> Option<bool> {
    match ins {
        Instruction::JMP(_) => Some(true),
        Instruction::BO(_) => Some(s.oflag),
        Instruction::BNO(_) => Some(!s.oflag),
        Instruction::BZ(_) => Some(s.zflag),
        Instruction::BNZ(_) => Some(!s.zflag),
        Instruction::BL(_) => Some(s.sflag),
        Instruction::BG(_) => Some(!s.sflag),
        _ => None,
    }
}

/// A conditional jump: jumps when `taken`, otherwise goes to the next instruction.
pub open spec fn branch_spec(s: CpuView, taken: bool, a: Argument) -> (CpuView, Outcome) {
    if taken {
        jump_spec(s, a)
    } else {
        bump(s)
    }
}

/// `INT a`: the interrupt with the code given by the source.
pub open spec fn int_spec(s: CpuView, a: Argument) -> (CpuView, Outcome) {
    if s.fuzz {
        (s, Outcome::Done)
    } else {
        match operand(s, a) {
            None => operand_failure(s, a),
            Some(v) => {
                let code = sat_u16(v);
                let (s1, req) = interrupt_effect(s, code);
                let (s2, o) = bump(s1);
                match (o, req) {
                    (Outcome::Done, Some(r)) => (s2, Outcome::Io(r)),
                    _ => (s2, o),
                }
            },
        }
    }
}

/// What interrupt `code` asks of the outside, if anything.
pub open spec fn interrupt_request(s: CpuView, code: int) -> Option<IoRequest> {
    if 0 <= code <= 5 {
        Some(IoRequest::PrintRegister(s.int_reg[code]))
    } else if code == 6 || code == 7 {
        Some(IoRequest::PrintFloatRegister((code - 6) as u8))
    } else if code == 8 {
        Some(IoRequest::PrintText(s.int_reg[0], s.int_reg[1]))
    } else if code == 9 {
        Some(IoRequest::ReadChar)
    } else if code == 10 {
        Some(IoRequest::Sleep)
    } else if code == 30 {
        Some(IoRequest::ClearScreen)
    } else if code == 40 {
        Some(IoRequest::ReadNumber)
    } else if is_state_interrupt(code) {
        None
    } else {
        Some(IoRequest::UnknownFlag)
    }
}

/// The interrupt codes that change the machine state.
pub open spec fn is_state_interrupt(code: int) -> bool {
    11 <= code <= 13 || 20 <= code <= 23 || 31 <= code <= 33 || 41 <= code <= 43 || 51 <= code
        <= 53 || code == 60 || code == 61 || code == 70 || code == 71
}

/// A flag under interrupt control: set (`x1`), cleared (`x2`) or toggled (`x3`).
pub open spec fn flag_update(flag: bool, code: int, base: int) -> bool {
    if code == base + 1 {
        true
    } else if code == base + 2 {
        false
    } else {
        !flag
    }
}

/// What the zero, overflow and remainder flag interrupts (codes 11 through 33) do.
pub open spec fn low_flag_state(s: CpuView, code: int) -> CpuView {
    CpuView {
        zflag: if 11 <= code <= 13 { flag_update(s.zflag, code, 10) } else { s.zflag },
        oflag: if 21 <= code <= 23 { flag_update(s.oflag, code, 20) } else { s.oflag },
        rflag: if 31 <= code <= 33 { flag_update(s.rflag, code, 30) } else { s.rflag },
        ..s
    }
}

/// What the sign flag and halt-on-overflow interrupts (codes 41 through 53) do.
pub open spec fn high_flag_state(s: CpuView, code: int) -> CpuView {
    CpuView {
        sflag: if 41 <= code <= 43 { flag_update(s.sflag, code, 40) } else { s.sflag },
        hlt_on_overflow: if 51 <= code <= 53 {
            flag_update(s.hlt_on_overflow, code, 50)
        } else {
            s.hlt_on_overflow
        },
        ..s
    }
}

/// What the flag interrupts (codes 11 through 53) do to the machine state.
pub open spec fn flag_interrupt_state(s: CpuView, code: int) -> CpuView {
    high_flag_state(low_flag_state(s, code), code)
}

/// What the clock, stack and return-address interrupts do to the machine state.
pub open spec fn control_interrupt_state(s: CpuView, code: int) -> CpuView {
    CpuView {
        max_clk: if code == 20 { Some(s.int_reg[0] as usize) } else { s.max_clk },
        sp: if code == 60 { s.int_reg[4] } else { s.sp },
        bp: if code == 61 { s.int_reg[4] } else { s.bp },
        pushret: if code == 70 || code == 71 { code == 70 } else { s.pushret },
        ..s
    }
}

/// What interrupt `code` does to the machine state.
pub open spec fn interrupt_state(s: CpuView, code: int) -> CpuView {
    if code == 20 || code == 60 || code == 61 || code == 70 || code == 71 {
        control_interrupt_state(s, code)
    } else {
        flag_interrupt_state(s, code)
    }
}

/// What interrupt `code` does to the machine, and what it asks of the outside.
pub open spec fn interrupt_effect(s: CpuView, code: int) -> (CpuView, Option<IoRequest>) {
    (interrupt_state(s, code), interrupt_request(s, code))
}

/// What executing `ins` does to a machine in state `s` (for instructions
/// that do not need the floating-point unit).
#[verifier::opaque]
pub open spec fn execute_spec(s: CpuView, ins: Instruction) -> (CpuView, Outcome) {
    match ins {
        Instruction::HLT => (CpuView { running: false, ..s }, Outcome::Done),
        Instruction::ADD(a1, a2) => add_spec(s, a1, a2),
        Instruction::BO(a) => branch_spec(s, s.oflag, a),
        Instruction::BNO(a) => branch_spec(s, !s.oflag, a),
        Instruction::POP(a) => pop_spec(s, a),
        Instruction::DIV(a1, a2) => div_spec(s, a1, a2),
        Instruction::RET => ret_spec(s),
        Instruction::BL(a) => branch_spec(s, s.sflag, a),
        Instruction::BG(a) => branch_spec(s, !s.sflag, a),
        Instruction::LD(a1, a2) => ld_spec(s, a1, a2),
        Instruction::ST(a1, a2) => st_spec(s, a1, a2),
        Instruction::JMP(a) => jump_spec(s, a),
        Instruction::BZ(a) => branch_spec(s, s.zflag, a),
        Instruction::BNZ(a) => branch_spec(s, !s.zflag, a),
        Instruction::CMP(a1, a2) => cmp_spec(s, a1, a2),
        Instruction::NAND(a1, a2) => nand_spec(s, a1, a2),
        Instruction::PUSH(a) => push_ins_spec(s, a),
        Instruction::INT(a) => int_spec(s, a),
        Instruction::MOV(a1, a2) => mov_spec(s, a1, a2),
        Instruction::LEA(a1, a2) => lea_spec(s, a1, a2),
    }
}

/// The outcome that an executed instruction reports.
pub open spec fn outcome_of(r: Result<Completion, UnrecoverableError>) -> Outcome {
    match r {
        Ok(Completion::Io(req)) => Outcome::Io(req),
        Ok(_) => Outcome::Done,
        Err(e) => Outcome::Fault(e.fault().0, e.fault().1, e.fault().2),
    }
}

/// The outcome that an error reports.
pub open spec fn fault_outcome(e: UnrecoverableError) -> Outcome {
    Outcome::Fault(e.fault().0, e.fault().1, e.fault().2)
}

/// The outcome that a step without a completion value reports.
pub open spec fn unit_outcome(r: Result<(), UnrecoverableError>) -> Outcome {
    match r {
        Ok(_) => Outcome::Done,
        Err(e) => Outcome::Fault(e.fault().0, e.fault().1, e.fault().2),
    }
}

/// `drop_top` changes only the memory and the stack pointer.
pub proof fn lemma_drop_top_frame(s: CpuView)
    requires
        s.wf(),
    ensures
        drop_top(s) == (CpuView { memory: drop_top(s).memory, sp: drop_top(s).sp, ..s }),
        drop_top(s).memory.len() == s.memory.len(),
{
    reveal(drop_top);
}

/// `write_register` changes only the integer registers, the overflow flag and the running flag.
pub proof fn lemma_write_register_frame(s: CpuView, a: Argument, v: int)
    requires
        s.wf(),
    ensures
        write_register(s, a, v) == (CpuView {
            int_reg: write_register(s, a, v).int_reg,
            oflag: write_register(s, a, v).oflag,
            running: write_register(s, a, v).running,
            ..s
        }),
        write_register(s, a, v).int_reg.len() == s.int_reg.len(),
{
    reveal(write_register);
    reveal(overflowed);
}

/// A push changes only the stack pointer, the memory, the stack direction and the error state.
pub proof fn lemma_push_frame(s: CpuView, w: u16)
    requires
        s.wf(),
    ensures
        push_spec(s, w).0 == (CpuView {
            sp: push_spec(s, w).0.sp,
            memory: push_spec(s, w).0.memory,
            backward_stack: push_spec(s, w).0.backward_stack,
            running: push_spec(s, w).0.running,
            err: push_spec(s, w).0.err,
            ..s
        }),
        push_spec(s, w).0.memory.len() == s.memory.len(),
{
    reveal(push_spec);
}

/// An invalid register stops the machine and changes nothing else.
pub proof fn lemma_invalid_register_frame(s: CpuView)
    ensures
        invalid_register(s).0 == (CpuView { running: false, ..s }),
        invalid_register(s).1 == Outcome::Fault(FaultKind::IllegalInstruction, s.ir, s.pc),
{
    reveal(invalid_register);
}

/// Every operand value is a signed or unsigned 16-bit number; only
/// literals can be negative.
pub proof fn lemma_operand_bounds(s: CpuView, a: Argument)
    requires
        operand(s, a) is Some,
    ensures
        -32768 <= operand(s, a).unwrap() <= 65535,
        !(a is Literal) ==> operand(s, a).unwrap() >= 0,
{
    match a {
        Argument::MemAddr(n) => {
            assert(mem_word(s, n as int) <= 65535);
        },
        Argument::MemPtr(n) => {
            assert(mem_word(s, mem_word(s, n as int)) <= 65535);
        },
        Argument::RegPtr(n) => {
            assert(mem_word(s, register_value(s, n).unwrap()) <= 65535);
        },
        _ => {},
    }
}

} // verus!
