//! Executing instructions on the integer core.
use vstd::prelude::*;
use crate::cpu::{CPU, CpuView, FaultKind, UnrecoverableError, RecoverableError, MEMORY_SIZE};
use crate::isa::Argument;
use crate::semantics::{mem_word, sat_u16, sat_i16, as_word, as_signed, is_float_register, float_operand, float_destination, register_value, operand, invalid_register, operand_failure, overflowed, write_register, fits_register, lemma_drop_top_frame, lemma_write_register_frame, lemma_push_frame, bump, push_spec, drop_top, push_ins_spec, pop_spec, ret_spec, unit_outcome, fault_outcome};

verus! {

/// The text of an error's message.
fn message(text: &str) -> (m: Option<String>)
    ensures
        m matches Some(s) && s@ == text@,
{
    Some(crate::text::string_from(text))
}

/// The explanation of an error for a register number that names no
/// integer register.
pub open spec fn register_too_large() -> Seq<char> {
    "The register number is too large."@
}

impl CPU {
    /// The error for a register number that names no integer register; the machine stops.
    pub fn generate_invalid_register(&mut self) -> (e: UnrecoverableError)
        ensures
            final(self)@ == (CpuView { running: false, ..old(self)@ }),
            e.fault() == (FaultKind::IllegalInstruction, old(self).ir, old(self).pc),
            e.explanation() == Some(register_too_large()),
    {
        self.running = false;
        UnrecoverableError::IllegalInstruction(
            self.ir,
            self.pc,
            message("The register number is too large."),
        )
    }

    /// The warning for an unknown flag in an instruction.
    pub fn generate_unknown_flag(&self, instruction: &str) -> (e: RecoverableError)
        ensures
            e matches RecoverableError::UnknownFlag(pc, Some(_)) && pc == self.pc,
    {
        let mut text = String::from_str("Unknown flag in ");
        text.append(instruction);
        text.append(" instruction");
        RecoverableError::UnknownFlag(self.pc, Some(text))
    }

    /// The error for a division by zero; the machine stops.
    pub fn generate_divbyz(&mut self) -> (e: UnrecoverableError)
        ensures
            final(self)@ == (CpuView { running: false, ..old(self)@ }),
            e.fault() == (FaultKind::DivideByZero, old(self).ir, old(self).pc),
            e.explanation() == Some("Attempted to divide by zero."@),
    {
        self.running = false;
        UnrecoverableError::DivideByZero(self.ir, self.pc, message("Attempted to divide by zero."))
    }

    /// The error for an access outside memory; the machine stops and is marked as crashed.
    pub fn generate_segfault(&mut self, text: &str) -> (e: UnrecoverableError)
        ensures
            final(self)@ == (CpuView { running: false, err: true, ..old(self)@ }),
            e.fault() == (FaultKind::SegmentationFault, old(self).ir, old(self).pc),
            e.explanation() == Some(text@),
    {
        self.running = false;
        self.err = true;
        UnrecoverableError::SegmentationFault(self.ir, self.pc, message(text))
    }

    /// Whether `new_value` fits in `register`: r0..r3 hold signed 16-bit
    /// numbers, r4 and r5 unsigned ones, the floating-point registers r6 and
    /// r7 take any integer, and no other register can be written (see
    /// `fits_register`). On overflow the overflow flag is set and the
    /// machine halts if it halts on overflow.
    pub fn check_overflow(&mut self, new_value: i64, register: u16) -> (r: Result<(), RecoverableError>)
        requires
            old(self).wf(),
        ensures
            final(self).wf(),
            ({
                let fits = fits_register(register as int, new_value as int);
                &&& fits ==> r is Ok && final(self)@ == old(self)@
                &&& !fits ==> (r matches Err(RecoverableError::Overflow(pc, _)) && pc == old(self).pc
                    && final(self)@ == overflowed(old(self)@))
            }),
    {
        proof {
            reveal(overflowed);
        }
        let overflowed = if register <= 3 {
            new_value > 32767 || new_value < -32768
        } else if register <= 5 {
            new_value > 65535 || new_value < 0
        } else if register <= 7 {
            false
        } else {
            true
        };
        if overflowed {
            self.oflag = true;
            if self.hlt_on_overflow {
                self.running = false;
            }
            return Err(RecoverableError::Overflow(self.pc, message("Overflowed a register.")));
        }
        Ok(())
    }

    fn read_cell(&self, a: usize) -> (v: u16)
        requires
            self.wf(),
            a < MEMORY_SIZE,
        ensures
            v as int == mem_word(self@, a as int),
    {
        match self.memory[a] {
            Some(v) => v,
            None => 0,
        }
    }

    fn read_register(&mut self, n: i16) -> (r: Result<u16, UnrecoverableError>)
        requires
            old(self).wf(),
            !is_float_register(n),
        ensures
            final(self).wf(),
            match register_value(old(self)@, n) {
                Some(v) => r == Ok::<u16, UnrecoverableError>(v as u16) && final(self)@ == old(self)@,
                None => match r {
                    Ok(_) => false,
                    Err(e) => (final(self)@, fault_outcome(e)) == invalid_register(old(self)@)
                        && e.explanation() == Some(register_too_large()),
                },
            },
    {
        proof {
            reveal(invalid_register);
        }
        if n == 8 {
            Ok(self.pc)
        } else if n == 9 {
            Ok(self.sp)
        } else if n > 5 || n < 0 {
            Err(self.generate_invalid_register())
        } else {
            Ok(self.int_reg[n as usize])
        }
    }

    /// The value of an operand: a register, a literal, the word at a memory
    /// address, or the word that a memory cell or register points to.
    pub fn get_value(&mut self, arg: &Argument) -> (r: Result<i32, UnrecoverableError>)
        requires
            old(self).wf(),
            !float_operand(*arg),
            operand(old(self)@, *arg) is Some || !(*arg is MemAddr || *arg is MemPtr),
        ensures
            final(self).wf(),
            match operand(old(self)@, *arg) {
                Some(v) => r == Ok::<i32, UnrecoverableError>(v as i32) && final(self)@ == old(self)@,
                None => match r {
                    Ok(_) => false,
                    Err(e) => (final(self)@, fault_outcome(e)) == operand_failure(old(self)@, *arg),
                },
            },
            r matches Err(e) ==> e.explanation() == Some(register_too_large()),
    {
        match arg {
            Argument::Register(n) => match self.read_register(*n) {
                Ok(v) => Ok(v as i32),
                Err(e) => Err(e),
            },
            Argument::Literal(n) => Ok(*n as i32),
            Argument::MemPtr(n) => {
                let tmp = self.read_cell(*n as usize);
                Ok(self.read_cell(tmp as usize) as i32)
            },
            Argument::RegPtr(n) => match self.read_register(*n) {
                Ok(v) => Ok(self.read_cell(v as usize) as i32),
                Err(e) => Err(e),
            },
            Argument::MemAddr(n) => Ok(self.read_cell(*n as usize) as i32),
        }
    }

    /// Writes `value` to a register operand; other operands are left alone.
    /// A value that does not fit the register only sets the overflow flag
    /// (see `check_overflow`).
    pub fn set_register_value(&mut self, arg: &Argument, value: i64) -> (r: Result<(), UnrecoverableError>)
        requires
            old(self).wf(),
            !float_destination(*arg),
        ensures
            final(self).wf(),
            r is Ok,
            final(self)@ == write_register(old(self)@, *arg, value as int),
    {
        proof {
            reveal(write_register);
        }
        if let Argument::Register(n) = arg {
            let n16 = *n;
            assert(n16 < 0 ==> (n16 as u16) >= 32768) by (bit_vector);
            assert(n16 >= 0 ==> (n16 as u16) == n16) by (bit_vector);
            if self.check_overflow(value, #[verifier::truncate] (*n as u16)).is_err() {
                return Ok(());
            }
            if *n >= 0 && *n <= 3 && value < 0 {
                return Ok(());
            }
            if *n > 5 || *n < 0 {
                return Err(self.generate_invalid_register());
            }
            self.int_reg.set(*n as usize, value as u16);
        }
        Ok(())
    }

    /// Pushes a word onto the stack (see `push_spec`).
    pub fn push_word(&mut self, w: u16) -> (r: Result<(), UnrecoverableError>)
        requires
            old(self).wf(),
            !(push_spec(old(self)@, w).1 is Trap),
        ensures
            final(self).wf(),
            (final(self)@, unit_outcome(r)) == push_spec(old(self)@, w),
    {
        proof {
            reveal(push_spec);
        }
        let ghost s0 = self@;
        if self.sp > self.bp || self.backward_stack {
            self.sp = self.sp + 1;
            if self.sp as usize >= MEMORY_SIZE {
                self.running = false;
                self.err = true;
                return Err(
                    UnrecoverableError::StackOverflow(
                        self.ir,
                        self.pc,
                        message("Overflowed while pushing onto stack"),
                    ),
                );
            }
            self.memory.set(self.sp as usize, Some(w));
            self.backward_stack = self.sp >= self.bp;
            assert(self@ == push_spec(s0, w).0);
        } else {
            if self.sp == 0 {
                self.running = false;
                self.err = true;
                let e = UnrecoverableError::StackOverflow(
                    self.ir,
                    self.pc,
                    message("Overflowed while pushing onto stack"),
                );
                assert(self@ == push_spec(s0, w).0);
                return Err(e);
            }
            self.sp = self.sp - 1;
            self.memory.set(self.sp as usize, Some(w));
            assert(self@ == push_spec(s0, w).0);
        }
        Ok(())
    }

    /// Empties the top of the stack and moves the stack pointer toward the base pointer.
    pub fn drop_top(&mut self)
        requires
            old(self).wf(),
        ensures
            final(self).wf(),
            final(self)@ == drop_top(old(self)@),
    {
        proof {
            reveal(drop_top);
        }
        self.memory.set(self.sp as usize, None);
        if self.sp > self.bp {
            self.sp = self.sp - 1;
        } else if self.sp != self.bp {
            self.sp = self.sp + 1;
        }
    }

    /// Moves the program counter to the next instruction.
    pub(crate) fn advance(&mut self)
        requires
            old(self).wf(),
            old(self).pc != 65535,
        ensures
            final(self).wf(),
            final(self)@ == bump(old(self)@).0,
    {
        self.pc = self.pc + 1;
    }

    /// `PUSH arg`.
    pub fn handle_push(&mut self, arg: &Argument) -> (r: Result<(), UnrecoverableError>)
        requires
            old(self).wf(),
            !float_operand(*arg),
            !(push_ins_spec(old(self)@, *arg).1 is Trap),
        ensures
            final(self).wf(),
            (final(self)@, unit_outcome(r)) == push_ins_spec(old(self)@, *arg),
    {
        let val = self.get_value(arg)?;
        let w = saturate_u16(val);
        proof {
            lemma_push_frame(self@, w);
        }
        self.push_word(w)?;
        self.advance();
        Ok(())
    }

    fn pop_finish(&mut self)
        requires
            old(self).wf(),
            drop_top(old(self)@).pc != 65535,
        ensures
            final(self).wf(),
            final(self)@ == bump(drop_top(old(self)@)).0,
    {
        proof {
            lemma_drop_top_frame(old(self)@);
        }
        self.drop_top();
        self.advance();
    }

    /// `POP arg`.
    pub fn handle_pop(&mut self, arg: &Argument) -> (r: Result<(), UnrecoverableError>)
        requires
            old(self).wf(),
            !float_destination(*arg),
            !(pop_spec(old(self)@, *arg).1 is Trap),
        ensures
            final(self).wf(),
            (final(self)@, unit_outcome(r)) == pop_spec(old(self)@, *arg),
    {
        let ghost s0 = self@;
        let v = self.read_cell(self.sp as usize);
        let ghost s1 = match *arg {
            Argument::Register(_) => write_register(s0, *arg, v as int),
            Argument::MemAddr(n) => CpuView { memory: s0.memory.update(n as int, Some(v)), ..s0 },
            _ => s0,
        };
        assert(pop_spec(s0, *arg) == bump(drop_top(s1)));
        proof {
            lemma_write_register_frame(s0, *arg, v as int);
            lemma_drop_top_frame(s1);
        }
        if let Argument::Register(_) = arg {
            self.set_register_value(arg, v as i64)?;
        } else if let Argument::MemAddr(val) = arg {
            self.memory.set(*val as usize, Some(v));
        }
        assert(self@ == s1);
        self.pop_finish();
        Ok(())
    }

    fn ret_finish(&mut self, v: u16)
        requires
            old(self).wf(),
            v != 65535,
        ensures
            final(self).wf(),
            final(self)@ == drop_top(CpuView { pc: (v + 1) as u16, ..old(self)@ }),
    {
        self.pc = v + 1;
        self.drop_top();
    }

    /// `RET`.
    pub fn handle_ret(&mut self) -> (r: Result<(), UnrecoverableError>)
        requires
            old(self).wf(),
            !(ret_spec(old(self)@).1 is Trap),
        ensures
            final(self).wf(),
            (final(self)@, unit_outcome(r)) == ret_spec(old(self)@),
            r matches Err(e) ==> e.explanation() is None,
    {
        if let Some(v) = self.memory[self.sp as usize] {
            self.ret_finish(v);
        } else {
            return Err(UnrecoverableError::StackUnderflow(self.ir, self.pc, None));
        }
        Ok(())
    }
}

/// `v` clamped into the range of `u16`.
pub fn saturate_u16(v: i32) -> (w: u16)
    ensures
        w as int == sat_u16(v as int),
{
    if v < 0 {
        0
    } else if v > 65535 {
        65535
    } else {
        v as u16
    }
}

/// `v` clamped into the range of `i16`.
pub fn saturate_i16(v: i32) -> (w: i16)
    ensures
        w as int == sat_i16(v as int),
{
    if v < -32768 {
        -32768
    } else if v > 32767 {
        32767
    } else {
        v as i16
    }
}

/// The 16-bit word whose two's complement reading is `v`.
pub fn to_word(v: i32) -> (w: u16)
    requires
        -32768 <= v <= 65535,
    ensures
        w as int == as_word(v as int),
{
    if v < 0 {
        (v + 65536) as u16
    } else {
        v as u16
    }
}

/// The two's complement reading of a 16-bit word.
pub fn to_signed(v: i32) -> (w: i32)
    requires
        0 <= v <= 65535,
    ensures
        w as int == as_signed(v as int),
{
    if v > 32767 {
        v - 65536
    } else {
        v
    }
}

} // verus!
