//! Arithmetic, move, compare, load and store instructions.
use vstd::prelude::*;
use crate::cpu::{CPU, CpuView, UnrecoverableError, FaultKind};
use crate::execute::{register_too_large, saturate_u16, saturate_i16, to_word, to_signed};
use crate::isa::Argument;
use crate::semantics::{Outcome, sat_u16, as_word, float_operand, float_destination, operand, write_register, bump, add_spec, div_spec, nand_spec, mov_spec, cmp_spec, ld_spec, lea_spec, st_spec, unit_outcome, lemma_write_register_frame, lemma_invalid_register_frame, lemma_operand_bounds, operand_failure, invalid_register};

verus! {

pub(crate) proof fn lemma_add_register(s0: CpuView, a1: Argument, a2: Argument, v: int, overflow: bool, sum: int)
    requires
        operand(s0, a2) == Some(v),
        a1 matches Argument::Register(n) && 0 <= n <= 5 && overflow == (s0.int_reg[n as int] + sat_u16(v) > 65535)
            && sum == (s0.int_reg[n as int] + (if a2 is Literal { as_word(v) } else { v })) % 65536,
    ensures
        add_spec(s0, a1, a2) == bump(write_register(CpuView { oflag: overflow, ..s0 }, a1, sum)),
{
    reveal(add_spec);
}

/// The cases of `ADD` that do not write a register.
pub(crate) proof fn lemma_add_other(s0: CpuView, a1: Argument, a2: Argument)
    ensures
        operand(s0, a2) is None ==> add_spec(s0, a1, a2) == operand_failure(s0, a2),
        operand(s0, a2) is Some && !(a1 is Register) ==> add_spec(s0, a1, a2) == bump(s0),
        operand(s0, a2) is Some && (a1 matches Argument::Register(n) && !(0 <= n <= 5)) ==> add_spec(
            s0,
            a1,
            a2,
        ) == invalid_register(s0),
{
    reveal(add_spec);
}

proof fn lemma_div_register(s0: CpuView, a1: Argument, a2: Argument, v: int, remainder: bool, quotient: int)
    requires
        operand(s0, a2) == Some(v),
        v > 0,
        a1 matches Argument::Register(n) && 0 <= n <= 5 && remainder == ((s0.int_reg[n as int] as int) % v != 0)
            && quotient == (s0.int_reg[n as int] as int) / v,
    ensures
        div_spec(s0, a1, a2) == bump(write_register(CpuView { rflag: remainder, ..s0 }, a1, quotient)),
{
    reveal(div_spec);
}

/// The cases of `DIV` that do not write a register.
proof fn lemma_div_other(s0: CpuView, a1: Argument, a2: Argument)
    ensures
        operand(s0, a2) is None ==> div_spec(s0, a1, a2) == operand_failure(s0, a2),
        operand(s0, a2) matches Some(v) && v <= 0 ==> div_spec(s0, a1, a2) == (
            CpuView { running: false, ..s0 },
            Outcome::Fault(FaultKind::DivideByZero, s0.ir, s0.pc),
        ),
        operand(s0, a2) matches Some(v) && v > 0 && !(a1 is Register) ==> div_spec(s0, a1, a2)
            == bump(s0),
        operand(s0, a2) matches Some(v) && v > 0 && (a1 matches Argument::Register(n) && !(0 <= n
            <= 5)) ==> div_spec(s0, a1, a2) == invalid_register(s0),
{
    reveal(div_spec);
}

/// The 16-bit sum of a register and an addend, and whether the sum of the
/// register and the non-negative part of the addend overflows.
pub(crate) fn add_words(current: u16, value: i32, literal: bool) -> (r: (bool, u16))
    requires
        -32768 <= value <= 65535,
        !literal ==> value >= 0,
    ensures
        r.0 == (current + sat_u16(value as int) > 65535),
        r.1 as int == (current + (if literal { as_word(value as int) } else { value as int })) % 65536,
{
    let v: u16 = if literal {
        to_word(value)
    } else {
        value as u16
    };
    let overflow = current.checked_add(saturate_u16(value)).is_none();
    (overflow, current.wrapping_add(v))
}

/// Whether dividing a register by a positive divisor leaves a remainder, and the quotient.
fn div_words(current: u16, divisor: i32) -> (r: (bool, u16))
    requires
        0 < divisor <= 65535,
    ensures
        r.0 == ((current as int) % (divisor as int) != 0),
        r.1 as int == (current as int) / (divisor as int),
{
    (current as i32 % divisor != 0, current / (divisor as u16))
}

impl CPU {
    fn write_and_advance(&mut self, arg: &Argument, value: i64)
        requires
            old(self).wf(),
            !float_destination(*arg),
            write_register(old(self)@, *arg, value as int).pc != 65535,
        ensures
            final(self).wf(),
            final(self)@ == bump(write_register(old(self)@, *arg, value as int)).0,
    {
        proof {
            lemma_write_register_frame(old(self)@, *arg, value as int);
        }
        let _ = self.set_register_value(arg, value);
        self.advance();
    }

    pub(crate) fn oflag_write_and_advance(&mut self, flag: bool, arg: &Argument, value: i64)
        requires
            old(self).wf(),
            !float_destination(*arg),
            old(self).pc != 65535,
        ensures
            final(self).wf(),
            final(self)@ == bump(write_register(CpuView { oflag: flag, ..old(self)@ }, *arg, value as int)).0,
    {
        self.oflag = flag;
        proof {
            lemma_write_register_frame(self@, *arg, value as int);
        }
        self.write_and_advance(arg, value);
    }

    fn rflag_write_and_advance(&mut self, flag: bool, arg: &Argument, value: i64)
        requires
            old(self).wf(),
            !float_destination(*arg),
            old(self).pc != 65535,
        ensures
            final(self).wf(),
            final(self)@ == bump(write_register(CpuView { rflag: flag, ..old(self)@ }, *arg, value as int)).0,
    {
        self.rflag = flag;
        proof {
            lemma_write_register_frame(self@, *arg, value as int);
        }
        self.write_and_advance(arg, value);
    }

    fn add_to_register(&mut self, arg1: &Argument, arg2: &Argument, n: i16, value: i32)
        requires
            old(self).wf(),
            !float_destination(*arg1),
            *arg1 == Argument::Register(n),
            0 <= n <= 5,
            operand(old(self)@, *arg2) == Some(value as int),
            !(add_spec(old(self)@, *arg1, *arg2).1 is Trap),
        ensures
            final(self).wf(),
            (final(self)@, Outcome::Done) == add_spec(old(self)@, *arg1, *arg2),
    {
        let ghost s0 = self@;
        proof {
            lemma_operand_bounds(s0, *arg2);
        }
        let current = self.int_reg[n as usize];
        let literal = arg2.is_literal();
        let (overflow, new_value) = add_words(current, value, literal);
        proof {
            lemma_write_register_frame(CpuView { oflag: overflow, ..s0 }, *arg1, new_value as int);
            lemma_add_register(s0, *arg1, *arg2, value as int, overflow, new_value as int);
        }
        self.oflag_write_and_advance(overflow, arg1, new_value as i64);
    }

    /// `ADD arg1, arg2`.
    pub fn handle_add(&mut self, arg1: &Argument, arg2: &Argument) -> (r: Result<(), UnrecoverableError>)
        requires
            old(self).wf(),
            !float_operand(*arg2),
            !float_destination(*arg1),
            !(add_spec(old(self)@, *arg1, *arg2).1 is Trap),
        ensures
            final(self).wf(),
            (final(self)@, unit_outcome(r)) == add_spec(old(self)@, *arg1, *arg2),
    {
        let ghost s0 = self@;
        proof {
            lemma_add_other(s0, *arg1, *arg2);
        }
        let value = self.get_value(arg2)?;
        if let Argument::Register(n) = arg1 {
            if *n < 0 || *n > 5 {
                proof {
                    lemma_invalid_register_frame(s0);
                }
                return Err(self.generate_invalid_register());
            }
            self.add_to_register(arg1, arg2, *n, value);
        } else {
            self.advance();
        }
        Ok(())
    }

    fn div_register(&mut self, arg1: &Argument, arg2: &Argument, n: i16, divisor: i32)
        requires
            old(self).wf(),
            !float_destination(*arg1),
            *arg1 == Argument::Register(n),
            0 <= n <= 5,
            divisor > 0,
            operand(old(self)@, *arg2) == Some(divisor as int),
            !(div_spec(old(self)@, *arg1, *arg2).1 is Trap),
        ensures
            final(self).wf(),
            (final(self)@, Outcome::Done) == div_spec(old(self)@, *arg1, *arg2),
    {
        let ghost s0 = self@;
        proof {
            lemma_operand_bounds(s0, *arg2);
        }
        let current = self.int_reg[n as usize];
        let (remainder, result) = div_words(current, divisor);
        proof {
            lemma_write_register_frame(CpuView { rflag: remainder, ..s0 }, *arg1, result as int);
            lemma_div_register(s0, *arg1, *arg2, divisor as int, remainder, result as int);
        }
        self.rflag_write_and_advance(remainder, arg1, result as i64);
    }

    fn divide_by_zero(&mut self) -> (e: UnrecoverableError)
        ensures
            final(self)@ == (CpuView { running: false, ..old(self)@ }),
            e.fault() == (FaultKind::DivideByZero, old(self).ir, old(self).pc),
            e.explanation() is None,
    {
        self.generate_divbyz();
        UnrecoverableError::DivideByZero(self.ir, self.pc, None)
    }

    /// `DIV arg1, arg2`.
    #[verifier::rlimit(50)]
    pub fn handle_div(&mut self, arg1: &Argument, arg2: &Argument) -> (r: Result<(), UnrecoverableError>)
        requires
            old(self).wf(),
            !float_operand(*arg2),
            !float_destination(*arg1),
            !(div_spec(old(self)@, *arg1, *arg2).1 is Trap),
        ensures
            final(self).wf(),
            (final(self)@, unit_outcome(r)) == div_spec(old(self)@, *arg1, *arg2),
            r matches Err(e) ==> e.explanation() == if e.fault().0 == FaultKind::DivideByZero {
                None
            } else {
                Some(register_too_large())
            },
    {
        let ghost s0 = self@;
        proof {
            lemma_div_other(s0, *arg1, *arg2);
        }
        let divisor = match self.get_value(arg2) {
            Ok(v) => v,
            Err(e) => {
                proof {
                    reveal(invalid_register);
                }
                return Err(e);
            },
        };
        proof {
            lemma_operand_bounds(s0, *arg2);
        }
        if divisor == 0 || saturate_u16(divisor) == 0 {
            return Err(self.divide_by_zero());
        }
        if let Argument::Register(n) = arg1 {
            if *n < 0 || *n > 5 {
                proof {
                    lemma_invalid_register_frame(s0);
                }
                return Err(self.generate_invalid_register());
            }
            self.div_register(arg1, arg2, *n, divisor);
        } else {
            self.advance();
        }
        Ok(())
    }

    /// `NAND arg1, arg2`.
    pub fn handle_nand(&mut self, arg1: &Argument, arg2: &Argument) -> (r: Result<(), UnrecoverableError>)
        requires
            old(self).wf(),
            !float_operand(*arg2),
            !float_destination(*arg1),
            !(nand_spec(old(self)@, *arg1, *arg2).1 is Trap),
        ensures
            final(self).wf(),
            (final(self)@, unit_outcome(r)) == nand_spec(old(self)@, *arg1, *arg2),
    {
        let ghost s0 = self@;
        let value = self.get_value(arg2)?;
        if let Argument::Register(n) = arg1 {
            if *n < 0 || *n > 5 {
                proof {
                    lemma_invalid_register_frame(s0);
                }
                return Err(self.generate_invalid_register());
            }
            let result: u16 = !(self.int_reg[*n as usize] & saturate_u16(value));
            proof {
                lemma_write_register_frame(self@, *arg1, result as int);
            }
            self.write_and_advance(arg1, result as i64);
        } else {
            self.advance();
        }
        Ok(())
    }

    /// `MOV arg1, arg2`.
    pub fn handle_mov(&mut self, arg1: &Argument, arg2: &Argument) -> (r: Result<(), UnrecoverableError>)
        requires
            old(self).wf(),
            !float_operand(*arg2),
            !float_destination(*arg1),
            !(mov_spec(old(self)@, *arg1, *arg2).1 is Trap),
        ensures
            final(self).wf(),
            (final(self)@, unit_outcome(r)) == mov_spec(old(self)@, *arg1, *arg2),
    {
        let value = self.get_value(arg2)?;
        let value = if arg2.is_ptr() {
            to_signed(value)
        } else {
            value
        };
        proof {
            lemma_write_register_frame(self@, *arg1, value as int);
        }
        self.write_and_advance(arg1, value as i64);
        Ok(())
    }

    /// `CMP arg1, arg2`.
    pub fn handle_cmp(&mut self, arg1: &Argument, arg2: &Argument) -> (r: Result<(), UnrecoverableError>)
        requires
            old(self).wf(),
            !float_operand(*arg2),
            !float_destination(*arg1),
            !(cmp_spec(old(self)@, *arg1, *arg2).1 is Trap),
        ensures
            final(self).wf(),
            (final(self)@, unit_outcome(r)) == cmp_spec(old(self)@, *arg1, *arg2),
    {
        let src = self.get_value(arg2)?;
        if let Argument::Register(_) = arg1 {
            let value = self.get_value(arg1)?;
            let result = value - src;
            self.zflag = result == 0;
            self.sflag = result < 0;
        }
        self.advance();
        Ok(())
    }

    /// `LD arg1, arg2`.
    pub fn handle_ld(&mut self, arg1: &Argument, arg2: &Argument) -> (r: Result<(), UnrecoverableError>)
        requires
            old(self).wf(),
            !float_operand(*arg2),
            !float_destination(*arg1),
            !(ld_spec(old(self)@, *arg1, *arg2).1 is Trap),
        ensures
            final(self).wf(),
            (final(self)@, unit_outcome(r)) == ld_spec(old(self)@, *arg1, *arg2),
    {
        let source = self.get_value(arg2)?;
        proof {
            lemma_write_register_frame(self@, *arg1, source as int);
        }
        self.write_and_advance(arg1, source as i64);
        Ok(())
    }

    /// `LEA arg1, arg2`.
    pub fn handle_lea(&mut self, arg1: &Argument, arg2: &Argument) -> (r: Result<(), UnrecoverableError>)
        requires
            old(self).wf(),
            !float_destination(*arg1),
            !(lea_spec(old(self)@, *arg1, *arg2).1 is Trap),
        ensures
            final(self).wf(),
            (final(self)@, unit_outcome(r)) == lea_spec(old(self)@, *arg1, *arg2),
    {
        let source = if let Argument::MemAddr(value) = arg2 {
            *value
        } else {
            return Err(
                UnrecoverableError::IllegalInstruction(
                    self.ir,
                    self.pc,
                    Some("Illegal instruction reached on LEA".to_string()),
                ),
            );
        };
        proof {
            lemma_write_register_frame(self@, *arg1, source as int);
        }
        self.write_and_advance(arg1, source as i64);
        Ok(())
    }

    fn store_and_advance(&mut self, index: usize, word: u16)
        requires
            old(self).wf(),
            index < old(self).memory.len(),
            old(self).pc != 65535,
        ensures
            final(self).wf(),
            final(self)@ == bump(CpuView { memory: old(self)@.memory.update(index as int, Some(word)), ..old(self)@ }).0,
    {
        self.memory.set(index, Some(word));
        self.advance();
    }

    /// `ST arg1, arg2`.
    pub fn handle_st(&mut self, arg1: &Argument, arg2: &Argument) -> (r: Result<(), UnrecoverableError>)
        requires
            old(self).wf(),
            !float_operand(*arg2),
            !(arg1 matches Argument::RegPtr(n) && (n == 6 || n == 7)),
            !(st_spec(old(self)@, *arg1, *arg2).1 is Trap),
        ensures
            final(self).wf(),
            (final(self)@, unit_outcome(r)) == st_spec(old(self)@, *arg1, *arg2),
    {
        let source = saturate_i16(self.get_value(arg2)?);
        let word = to_word(source as i32);
        if let Argument::MemAddr(n) = arg1 {
            if *n < 0 || *n as usize >= self.memory.len() {
                return Err(
                    UnrecoverableError::SegmentationFault(
                        self.ir,
                        self.pc,
                        Some("segmentation fault whilst storing to an address. OOB".to_string()),
                    ),
                );
            }
            self.store_and_advance(*n as usize, word);
        } else if let Argument::RegPtr(n) = arg1 {
            let addr = match self.get_value(&Argument::Register(*n)) {
                Ok(a) => a as usize,
                Err(e) => return Err(e),
            };
            if addr >= self.memory.len() {
                return Err(UnrecoverableError::SegmentationFault(self.ir, self.pc, None));
            }
            self.store_and_advance(addr, word);
        } else {
            self.advance();
        }
        Ok(())
    }
}

} // verus!
