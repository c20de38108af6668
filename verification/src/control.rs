//! Jumps, branches, interrupts, and the execution of a whole instruction.
use vstd::prelude::*;
use crate::cpu::{CPU, CpuView, Completion, IoRequest, UnrecoverableError};
use crate::execute::saturate_u16;
use crate::isa::{Argument, Instruction};
use crate::numbers::{parse_i16, parse_i16_spec};
use crate::text::{chars_of, trim, trimmed};
use crate::semantics::{Outcome, float_operand, float_destination, is_float_register, needs_float_unit, operand, bump, push_spec, goto_spec, jump_spec, branch_spec, resolved_jump_spec, branch_condition, int_spec, interrupt_effect, interrupt_request, interrupt_state, flag_interrupt_state, control_interrupt_state, low_flag_state, high_flag_state, flag_update, outcome_of, unit_outcome, lemma_invalid_register_frame, sat_u16, invalid_register};

verus! {

/// A taken jump lands where `goto_spec` says, so setting the program counter
/// to the target once more changes nothing.
proof fn lemma_goto_after_jump(s: CpuView, a: Argument)
    requires
        s.wf(),
        jump_spec(s, a).1 == Outcome::Done,
    ensures
        goto_spec(jump_spec(s, a).0, a) == jump_spec(s, a),
{
    reveal(push_spec);
    reveal(invalid_register);
}

impl Argument {
    /// Whether the operand names floating-point register r6 or r7.
    pub fn is_float_operand(&self) -> (r: bool)
        ensures
            r == float_operand(*self),
    {
        match self {
            Argument::Register(n) | Argument::RegPtr(n) => *n == 6 || *n == 7,
            _ => false,
        }
    }

    fn is_float_destination(&self) -> (r: bool)
        ensures
            r == float_destination(*self),
    {
        match self {
            Argument::Register(n) => *n == 6 || *n == 7,
            _ => false,
        }
    }

    fn is_float_pointer(&self) -> (r: bool)
        ensures
            r == (*self matches Argument::RegPtr(n) && is_float_register(n)),
    {
        match self {
            Argument::RegPtr(n) => *n == 6 || *n == 7,
            _ => false,
        }
    }
}

impl Instruction {
    /// Whether executing the instruction reads or writes r6 or r7, which
    /// only the floating-point unit holds.
    pub fn uses_float_unit(&self) -> (r: bool)
        ensures
            r == needs_float_unit(*self),
    {
        match self {
            Instruction::ADD(a1, a2) | Instruction::DIV(a1, a2) | Instruction::NAND(a1, a2)
            | Instruction::MOV(a1, a2) | Instruction::CMP(a1, a2) | Instruction::LD(a1, a2) => {
                a2.is_float_operand() || a1.is_float_destination()
            },
            Instruction::LEA(a1, _) => a1.is_float_destination(),
            Instruction::ST(a1, a2) => a2.is_float_operand() || a1.is_float_pointer(),
            Instruction::PUSH(a) | Instruction::INT(a) => a.is_float_operand(),
            Instruction::POP(a) => a.is_float_destination(),
            Instruction::BO(a) | Instruction::BNO(a) | Instruction::BL(a) | Instruction::BG(a)
            | Instruction::JMP(a) | Instruction::BZ(a) | Instruction::BNZ(a) => a.is_float_pointer(),
            Instruction::HLT | Instruction::RET => false,
        }
    }
}

/// A flag under interrupt control: set by `base + 1`, cleared by
/// `base + 2`, toggled by `base + 3`.
pub(crate) fn flag_after(flag: bool, code: u16, base: u16) -> (r: bool)
    requires
        base + 1 <= code <= base + 3,
    ensures
        r == flag_update(flag, code as int, base as int),
{
    if code == base + 1 {
        true
    } else if code == base + 2 {
        false
    } else {
        !flag
    }
}

impl CPU {
    /// Sets the program counter to the target of a jump (see `goto_spec`).
    fn goto(&mut self, arg: &Argument) -> (r: Result<(), UnrecoverableError>)
        requires
            old(self).wf(),
            !(*arg matches Argument::RegPtr(n) && is_float_register(n)),
        ensures
            final(self).wf(),
            (final(self)@, unit_outcome(r)) == goto_spec(old(self)@, *arg),
    {
        proof {
            lemma_invalid_register_frame(self@);
        }
        if let Argument::MemAddr(n) = arg {
            if *n < 0 {
                return Err(
                    UnrecoverableError::SegmentationFault(
                        self.ir,
                        self.pc,
                        Some("attempted to jump to an invalid address".to_string()),
                    ),
                );
            }
            self.pc = *n as u16;
        } else if let Argument::RegPtr(n) = arg {
            let target = self.get_value(&Argument::Register(*n))?;
            if target < 0 || target > 65536 {
                return Err(
                    UnrecoverableError::SegmentationFault(
                        self.ir,
                        self.pc,
                        Some("attempted to jump to an invalid address".to_string()),
                    ),
                );
            }
            self.pc = target as u16;
        }
        Ok(())
    }

    /// A taken jump: pushes the return address when return addresses are
    /// pushed, then sets the program counter to the target.
    fn jmp(&mut self, arg: &Argument) -> (r: Result<(), UnrecoverableError>)
        requires
            old(self).wf(),
            !(*arg matches Argument::RegPtr(n) && is_float_register(n)),
            !(jump_spec(old(self)@, *arg).1 is Trap),
        ensures
            final(self).wf(),
            (final(self)@, unit_outcome(r)) == jump_spec(old(self)@, *arg),
    {
        if self.pushret {
            let here = self.pc as i16;
            assert(sat_u16(here as int) == self.pc);
            self.handle_push(&Argument::Literal(here))?;
        }
        self.goto(arg)
    }

    /// A taken jump to a target worked out by the caller, `None` standing for
    /// a target outside memory (see `resolved_jump_spec`).
    pub fn jump_resolved(&mut self, target: Option<u16>) -> (r: Result<(), UnrecoverableError>)
        requires
            old(self).wf(),
            !(resolved_jump_spec(old(self)@, target).1 is Trap),
        ensures
            final(self).wf(),
            (final(self)@, unit_outcome(r)) == resolved_jump_spec(old(self)@, target),
    {
        if self.pushret {
            let here = self.pc as i16;
            assert(sat_u16(here as int) == self.pc);
            self.handle_push(&Argument::Literal(here))?;
        }
        match target {
            Some(t) => {
                self.pc = t;
                Ok(())
            },
            None => Err(
                UnrecoverableError::SegmentationFault(
                    self.ir,
                    self.pc,
                    Some("attempted to jump to an invalid address".to_string()),
                ),
            ),
        }
    }

    /// Whether a jump whose target is worked out by the caller cannot be
    /// done here: the return address to push does not fit a signed word,
    /// or the stack has no room above.
    pub fn resolved_jump_traps(&self) -> (b: bool)
        requires
            self.wf(),
        ensures
            b == (resolved_jump_spec(self@, None).1 is Trap),
            forall|t: Option<u16>| b == (#[trigger] resolved_jump_spec(self@, t).1 is Trap),
    {
        proof {
            reveal(push_spec);
        }
        self.pushret && (self.pc > 32767 || ((self.sp > self.bp || self.backward_stack) && self.sp == 65535))
    }

    /// Whether a jump or branch instruction jumps now; `None` for other
    /// instructions (see `branch_condition`).
    pub fn branch_taken(&self, ins: &Instruction) -> (r: Option<bool>)
        ensures
            r == branch_condition(self@, *ins),
    {
        match ins {
            Instruction::JMP(_) => Some(true),
            Instruction::BO(_) => Some(self.oflag),
            Instruction::BNO(_) => Some(!self.oflag),
            Instruction::BZ(_) => Some(self.zflag),
            Instruction::BNZ(_) => Some(!self.zflag),
            Instruction::BL(_) => Some(self.sflag),
            Instruction::BG(_) => Some(!self.sflag),
            _ => None,
        }
    }

    /// `JMP arg`.
    pub fn handle_jmp(&mut self, arg: &Argument) -> (r: Result<(), UnrecoverableError>)
        requires
            old(self).wf(),
            !(*arg matches Argument::RegPtr(n) && is_float_register(n)),
            !(jump_spec(old(self)@, *arg).1 is Trap),
        ensures
            final(self).wf(),
            (final(self)@, unit_outcome(r)) == jump_spec(old(self)@, *arg),
    {
        let ghost s0 = self@;
        self.jmp(arg)?;
        proof {
            lemma_goto_after_jump(s0, *arg);
        }
        self.goto(arg)
    }

    /// A conditional jump: jumps when `taken`, otherwise moves to the next instruction.
    fn branch(&mut self, taken: bool, arg: &Argument) -> (r: Result<(), UnrecoverableError>)
        requires
            old(self).wf(),
            !(*arg matches Argument::RegPtr(n) && is_float_register(n)),
            !(branch_spec(old(self)@, taken, *arg).1 is Trap),
        ensures
            final(self).wf(),
            (final(self)@, unit_outcome(r)) == branch_spec(old(self)@, taken, *arg),
    {
        if !taken {
            self.advance();
            return Ok(());
        }
        self.jmp(arg)?;
        Ok(())
    }

    /// `BO arg`: jumps when the overflow flag is set.
    pub fn handle_bo(&mut self, arg: &Argument) -> (r: Result<(), UnrecoverableError>)
        requires
            old(self).wf(),
            !(*arg matches Argument::RegPtr(n) && is_float_register(n)),
            !(branch_spec(old(self)@, old(self).oflag, *arg).1 is Trap),
        ensures
            final(self).wf(),
            (final(self)@, unit_outcome(r)) == branch_spec(old(self)@, old(self).oflag, *arg),
    {
        self.branch(self.oflag, arg)
    }

    /// `BNO arg`: jumps when the overflow flag is clear.
    pub fn handle_bno(&mut self, arg: &Argument) -> (r: Result<(), UnrecoverableError>)
        requires
            old(self).wf(),
            !(*arg matches Argument::RegPtr(n) && is_float_register(n)),
            !(branch_spec(old(self)@, !old(self).oflag, *arg).1 is Trap),
        ensures
            final(self).wf(),
            (final(self)@, unit_outcome(r)) == branch_spec(old(self)@, !old(self).oflag, *arg),
    {
        self.branch(!self.oflag, arg)
    }

    /// `BG arg`: jumps unless the sign flag is set.
    pub fn handle_bg(&mut self, arg: &Argument) -> (r: Result<(), UnrecoverableError>)
        requires
            old(self).wf(),
            !(*arg matches Argument::RegPtr(n) && is_float_register(n)),
            !(branch_spec(old(self)@, !old(self).sflag, *arg).1 is Trap),
        ensures
            final(self).wf(),
            (final(self)@, unit_outcome(r)) == branch_spec(old(self)@, !old(self).sflag, *arg),
    {
        self.branch(!self.sflag, arg)
    }

    /// `BL arg`: jumps when the sign flag is set.
    pub fn handle_bl(&mut self, arg: &Argument) -> (r: Result<(), UnrecoverableError>)
        requires
            old(self).wf(),
            !(*arg matches Argument::RegPtr(n) && is_float_register(n)),
            !(branch_spec(old(self)@, old(self).sflag, *arg).1 is Trap),
        ensures
            final(self).wf(),
            (final(self)@, unit_outcome(r)) == branch_spec(old(self)@, old(self).sflag, *arg),
    {
        self.branch(self.sflag, arg)
    }

    /// `BZ arg`: jumps when the zero flag is set.
    pub fn handle_bz(&mut self, arg: &Argument) -> (r: Result<(), UnrecoverableError>)
        requires
            old(self).wf(),
            !(*arg matches Argument::RegPtr(n) && is_float_register(n)),
            !(branch_spec(old(self)@, old(self).zflag, *arg).1 is Trap),
        ensures
            final(self).wf(),
            (final(self)@, unit_outcome(r)) == branch_spec(old(self)@, old(self).zflag, *arg),
    {
        self.branch(self.zflag, arg)
    }

    /// `BNZ arg`: jumps when the zero flag is clear.
    pub fn handle_bnz(&mut self, arg: &Argument) -> (r: Result<(), UnrecoverableError>)
        requires
            old(self).wf(),
            !(*arg matches Argument::RegPtr(n) && is_float_register(n)),
            !(branch_spec(old(self)@, !old(self).zflag, *arg).1 is Trap),
        ensures
            final(self).wf(),
            (final(self)@, unit_outcome(r)) == branch_spec(old(self)@, !old(self).zflag, *arg),
    {
        self.branch(!self.zflag, arg)
    }

    /// What interrupt `code` asks of the outside (see `interrupt_request`).
    fn interrupt_request(&self, code: u16) -> (r: Option<IoRequest>)
        requires
            self.wf(),
        ensures
            r == interrupt_request(self@, code as int),
    {
        if code <= 5 {
            Some(IoRequest::PrintRegister(self.int_reg[code as usize]))
        } else if code == 6 || code == 7 {
            Some(IoRequest::PrintFloatRegister((code - 6) as u8))
        } else if code == 8 {
            Some(IoRequest::PrintText(self.int_reg[0], self.int_reg[1]))
        } else if code == 9 {
            Some(IoRequest::ReadChar)
        } else if code == 10 {
            Some(IoRequest::Sleep)
        } else if code == 30 {
            Some(IoRequest::ClearScreen)
        } else if code == 40 {
            Some(IoRequest::ReadNumber)
        } else if (11 <= code && code <= 13) || (20 <= code && code <= 23) || (31 <= code && code
            <= 33) || (41 <= code && code <= 43) || (51 <= code && code <= 53) || code == 60 || code
            == 61 || code == 70 || code == 71 {
            None
        } else {
            Some(IoRequest::UnknownFlag)
        }
    }

    fn apply_low_flag_interrupt(&mut self, code: u16)
        requires
            old(self).wf(),
        ensures
            final(self).wf(),
            final(self)@ == low_flag_state(old(self)@, code as int),
    {
        if 11 <= code && code <= 13 {
            self.zflag = flag_after(self.zflag, code, 10);
        } else if 21 <= code && code <= 23 {
            self.oflag = flag_after(self.oflag, code, 20);
        } else if 31 <= code && code <= 33 {
            self.rflag = flag_after(self.rflag, code, 30);
        }
    }

    fn apply_high_flag_interrupt(&mut self, code: u16)
        requires
            old(self).wf(),
        ensures
            final(self).wf(),
            final(self)@ == high_flag_state(old(self)@, code as int),
    {
        if 41 <= code && code <= 43 {
            self.sflag = flag_after(self.sflag, code, 40);
        } else if 51 <= code && code <= 53 {
            self.hlt_on_overflow = flag_after(self.hlt_on_overflow, code, 50);
        }
    }

    fn apply_flag_interrupt(&mut self, code: u16)
        requires
            old(self).wf(),
        ensures
            final(self).wf(),
            final(self)@ == flag_interrupt_state(old(self)@, code as int),
    {
        self.apply_low_flag_interrupt(code);
        self.apply_high_flag_interrupt(code);
    }

    fn apply_control_interrupt(&mut self, code: u16)
        requires
            old(self).wf(),
        ensures
            final(self).wf(),
            final(self)@ == control_interrupt_state(old(self)@, code as int),
    {
        if code == 20 {
            self.max_clk = Some(self.int_reg[0] as usize);
        } else if code == 60 {
            self.sp = self.int_reg[4];
        } else if code == 61 {
            self.bp = self.int_reg[4];
        } else if code == 70 || code == 71 {
            self.pushret = code == 70;
        }
    }

    /// What interrupt `code` does to the machine state (see `interrupt_state`).
    fn apply_interrupt(&mut self, code: u16)
        requires
            old(self).wf(),
        ensures
            final(self).wf(),
            final(self)@ == interrupt_state(old(self)@, code as int),
    {
        if code == 20 || code == 60 || code == 61 || code == 70 || code == 71 {
            self.apply_control_interrupt(code);
        } else {
            self.apply_flag_interrupt(code);
        }
    }

    /// Performs interrupt `code` and moves to the next instruction; input and
    /// output are left to the caller through the returned request.
    pub fn interrupt_and_advance(&mut self, code: u16) -> (r: Completion)
        requires
            old(self).wf(),
            old(self).pc != 65535,
        ensures
            final(self).wf(),
            (final(self)@, outcome_of(Ok(r))) == ({
                let (s1, req) = interrupt_effect(old(self)@, code as int);
                match req {
                    Some(q) => (bump(s1).0, Outcome::Io(q)),
                    None => bump(s1),
                }
            }),
            !(r is FloatUnit),
    {
        let req = self.interrupt_request(code);
        self.apply_interrupt(code);
        self.advance();
        match req {
            Some(q) => Completion::Io(q),
            None => Completion::Done,
        }
    }

    /// `INT arg`: the interrupt whose code is the source operand. Input and
    /// output are left to the caller through the returned request.
    pub fn handle_int(&mut self, arg: &Argument) -> (r: Result<Completion, UnrecoverableError>)
        requires
            old(self).wf(),
            old(self).fuzz || !float_operand(*arg),
            !(int_spec(old(self)@, *arg).1 is Trap),
        ensures
            final(self).wf(),
            (final(self)@, outcome_of(r)) == int_spec(old(self)@, *arg),
            !(r matches Ok(Completion::FloatUnit)),
    {
        if self.fuzz {
            return Ok(Completion::Done);
        }
        let value = match self.get_value(arg) {
            Ok(v) => v,
            Err(e) => return Err(e),
        };
        let code = saturate_u16(value);
        Ok(self.interrupt_and_advance(code))
    }

    /// Hands back the character that an `IoRequest::ReadChar` read: it goes to r0.
    pub fn finish_read_char(&mut self, byte: u8)
        requires
            old(self).wf(),
        ensures
            final(self).wf(),
            final(self)@ == (CpuView { int_reg: old(self)@.int_reg.update(0, byte as u16), ..old(self)@ }),
    {
        self.int_reg.set(0, byte as u16);
    }

    /// Hands back the number that an `IoRequest::ReadNumber` read: it goes to
    /// r0 as a 16-bit word.
    pub fn finish_read_number(&mut self, value: i16)
        requires
            old(self).wf(),
        ensures
            final(self).wf(),
            final(self)@ == (CpuView { int_reg: old(self)@.int_reg.update(0, value as u16), ..old(self)@ }),
    {
        self.int_reg.set(0, value as u16);
    }
}

/// The number that a line typed for an `IoRequest::ReadNumber` holds: the
/// line without surrounding white space, read as a decimal `i16`.
pub fn parse_input_number(line: &str) -> (r: Option<i16>)
    ensures
        r == parse_i16_spec(trimmed(line@)),
{
    let cs = chars_of(line);
    let t = trim(cs.as_slice());
    assert(t@.subrange(0, t@.len() as int) =~= t@);
    parse_i16(t.as_slice(), 0, t.len())
}

} // verus!
