//! Executing a decoded instruction, and one fetch-decode-execute step.
use vstd::prelude::*;
use crate::cpu::{CPU, CpuView, Completion, FaultKind, UnrecoverableError, MEMORY_SIZE};
use crate::isa::{Argument, Instruction, decode, decode_spec};
use crate::semantics::{Outcome, needs_float_unit, execute_spec, outcome_of, operand, operand_failure, register_value, invalid_register, add_spec, div_spec, nand_spec, push_spec, drop_top, mem_word, sat_u16, as_word, as_signed, lemma_write_register_frame, float_operand};

verus! {

/// Decoding and executing the instruction register; an instruction that
/// fails stops the machine and marks it as crashed.
pub open spec fn run_fetched(s: CpuView) -> (CpuView, Outcome) {
    let (s2, o) = execute_spec(s, decode_spec(s.ir));
    match o {
        Outcome::Fault(..) => (CpuView { err: true, running: false, ..s2 }, o),
        _ => (s2, o),
    }
}

/// One fetch-decode-execute step: the word at the program counter becomes
/// the instruction register, is decoded and executed. Fetching an empty
/// cell stops the machine and marks it as crashed.
pub open spec fn step_spec(s: CpuView) -> (CpuView, Outcome) {
    match s.memory[s.pc as int] {
        None => (
            CpuView { err: true, running: false, ..s },
            Outcome::Fault(FaultKind::SegmentationFault, s.ir, s.pc),
        ),
        Some(word) => run_fetched(CpuView { ir: word as i16, ..s }),
    }
}

/// Whether the word at the program counter is an instruction for the
/// floating-point unit.
pub open spec fn fetched_needs_float_unit(s: CpuView) -> bool {
    s.memory[s.pc as int] matches Some(word) && needs_float_unit(decode_spec(word as i16))
}

impl CPU {
    /// Executes a decoded instruction on the integer core. An instruction that
    /// reads or writes r6 or r7 is left to the caller's floating-point unit:
    /// nothing changes and `Completion::FloatUnit` is returned.
    pub fn execute_instruction(&mut self, ins: &Instruction) -> (r: Result<Completion, UnrecoverableError>)
        requires
            old(self).wf(),
            needs_float_unit(*ins) || !(execute_spec(old(self)@, *ins).1 is Trap),
        ensures
            final(self).wf(),
            needs_float_unit(*ins) ==> (r matches Ok(Completion::FloatUnit) && final(self)@ == old(
                self,
            )@),
            !needs_float_unit(*ins) ==> (final(self)@, outcome_of(r)) == execute_spec(
                old(self)@,
                *ins,
            ) && !(r matches Ok(Completion::FloatUnit)),
    {
        proof {
            reveal(execute_spec);
        }
        if ins.uses_float_unit() {
            return Ok(Completion::FloatUnit);
        }
        match ins {
            Instruction::HLT => self.running = false,
            Instruction::ADD(arg1, arg2) => self.handle_add(arg1, arg2)?,
            Instruction::BO(arg) => self.handle_bo(arg)?,
            Instruction::BNO(arg) => self.handle_bno(arg)?,
            Instruction::POP(arg) => self.handle_pop(arg)?,
            Instruction::DIV(arg1, arg2) => self.handle_div(arg1, arg2)?,
            Instruction::RET => self.handle_ret()?,
            Instruction::BL(arg) => self.handle_bl(arg)?,
            Instruction::BG(arg) => self.handle_bg(arg)?,
            Instruction::LD(arg1, arg2) => self.handle_ld(arg1, arg2)?,
            Instruction::ST(arg1, arg2) => self.handle_st(arg1, arg2)?,
            Instruction::JMP(arg) => self.handle_jmp(arg)?,
            Instruction::BZ(arg) => self.handle_bz(arg)?,
            Instruction::BNZ(arg) => self.handle_bnz(arg)?,
            Instruction::CMP(arg1, arg2) => self.handle_cmp(arg1, arg2)?,
            Instruction::NAND(arg1, arg2) => self.handle_nand(arg1, arg2)?,
            Instruction::PUSH(arg) => self.handle_push(arg)?,
            Instruction::INT(arg) => return self.handle_int(arg),
            Instruction::MOV(arg1, arg2) => self.handle_mov(arg1, arg2)?,
            Instruction::LEA(arg1, arg2) => self.handle_lea(arg1, arg2)?,
        }
        Ok(Completion::Done)
    }

    fn crash(&mut self, e: UnrecoverableError) -> (r: UnrecoverableError)
        ensures
            final(self)@ == (CpuView { err: true, running: false, ..old(self)@ }),
            r == e,
    {
        self.err = true;
        self.running = false;
        e
    }

    /// One fetch-decode-execute step (see `step_spec`).
    pub fn step(&mut self) -> (r: Result<Completion, UnrecoverableError>)
        requires
            old(self).wf(),
            fetched_needs_float_unit(old(self)@) || !(step_spec(old(self)@).1 is Trap),
        ensures
            final(self).wf(),
            fetched_needs_float_unit(old(self)@) ==> (r matches Ok(Completion::FloatUnit)
                && final(self)@ == (CpuView { ir: old(self)@.memory[old(self).pc as int].unwrap() as i16, ..old(self)@ })),
            !fetched_needs_float_unit(old(self)@) ==> (final(self)@, outcome_of(r)) == step_spec(
                old(self)@,
            ),
    {
        match self.memory[self.pc as usize] {
            Some(instruction) => self.ir = instruction as i16,
            None => {
                let e = UnrecoverableError::SegmentationFault(
                    self.ir,
                    self.pc,
                    Some("Segmentation fault while finding next instruction".to_string()),
                );
                return Err(self.crash(e));
            },
        }
        self.execute_fetched()
    }

    fn execute_fetched(&mut self) -> (r: Result<Completion, UnrecoverableError>)
        requires
            old(self).wf(),
            needs_float_unit(decode_spec(old(self).ir)) || !(run_fetched(old(self)@).1 is Trap),
        ensures
            final(self).wf(),
            needs_float_unit(decode_spec(old(self).ir)) ==> (r matches Ok(Completion::FloatUnit)
                && final(self)@ == old(self)@),
            !needs_float_unit(decode_spec(old(self).ir)) ==> (final(self)@, outcome_of(r))
                == run_fetched(old(self)@),
    {
        let parsed = decode(self.ir);
        match self.execute_instruction(&parsed) {
            Ok(c) => Ok(c),
            Err(e) => Err(self.crash(e)),
        }
    }
}

/// An operand that reads memory at a negative address.
pub open spec fn operand_traps(a: Argument) -> bool {
    match a {
        Argument::MemAddr(n) | Argument::MemPtr(n) => n < 0,
        _ => false,
    }
}

/// A register operand that names no integer register.
pub open spec fn bad_register(a: Argument) -> bool {
    a matches Argument::Register(n) && !(0 <= n <= 5)
}

/// Pushing traps when the stack grows up past the last address; when it
/// succeeds, the program counter still has to advance.
pub open spec fn push_traps(s: CpuView) -> bool {
    if s.sp > s.bp || s.backward_stack {
        s.sp == 65535 || s.pc == 65535
    } else {
        s.sp != 0 && s.pc == 65535
    }
}

/// A taken jump traps when the return address to push does not fit a
/// signed word, or when the push traps.
pub open spec fn jump_traps(s: CpuView) -> bool {
    s.pushret && (s.pc > 32767 || ((s.sp > s.bp || s.backward_stack) && s.sp == 65535))
}

/// The states and instructions on which execution traps (see `Outcome::Trap`).
pub open spec fn traps(s: CpuView, ins: Instruction) -> bool {
    match ins {
        Instruction::HLT => false,
        Instruction::ADD(a1, a2) | Instruction::NAND(a1, a2) => operand_traps(a2) || (operand(s, a2) is Some
            && !bad_register(a1) && s.pc == 65535),
        Instruction::DIV(a1, a2) => operand_traps(a2) || (operand(s, a2) matches Some(v) && v > 0
            && !bad_register(a1) && s.pc == 65535),
        Instruction::MOV(_, a2) | Instruction::LD(_, a2) => operand_traps(a2) || (operand(s, a2) is Some
            && s.pc == 65535),
        Instruction::CMP(a1, a2) => operand_traps(a2) || (operand(s, a2) is Some && !(a1 is Register
            && operand(s, a1) is None) && s.pc == 65535),
        Instruction::LEA(_, a2) => a2 is MemAddr && s.pc == 65535,
        Instruction::ST(a1, a2) => operand_traps(a2) || (operand(s, a2) is Some && !(a1 matches Argument::MemAddr(
            n,
        ) && n < 0) && !(a1 matches Argument::RegPtr(n) && register_value(s, n) is None) && s.pc
            == 65535),
        Instruction::PUSH(a) => operand_traps(a) || (operand(s, a) is Some && push_traps(s)),
        Instruction::POP(a) => (a matches Argument::MemAddr(n) && n < 0) || s.pc == 65535,
        Instruction::RET => s.memory[s.sp as int] == Some(65535u16),
        Instruction::BO(_) => if s.oflag { jump_traps(s) } else { s.pc == 65535 },
        Instruction::BNO(_) => if !s.oflag { jump_traps(s) } else { s.pc == 65535 },
        Instruction::BL(_) => if s.sflag { jump_traps(s) } else { s.pc == 65535 },
        Instruction::BG(_) => if !s.sflag { jump_traps(s) } else { s.pc == 65535 },
        Instruction::BZ(_) => if s.zflag { jump_traps(s) } else { s.pc == 65535 },
        Instruction::BNZ(_) => if !s.zflag { jump_traps(s) } else { s.pc == 65535 },
        Instruction::JMP(_) => jump_traps(s),
        Instruction::INT(a) => !s.fuzz && (operand_traps(a) || (operand(s, a) is Some && s.pc == 65535)),
    }
}

proof fn lemma_operand_traps(s: CpuView, a: Argument)
    requires
        s.wf(),
    ensures
        operand_traps(a) ==> operand(s, a) is None,
        operand(s, a) is None ==> (operand_failure(s, a).1 is Trap <==> operand_traps(a)),
{
    reveal(invalid_register);
}

proof fn lemma_traps_add(s: CpuView, a1: Argument, a2: Argument)
    requires
        s.wf(),
        !needs_float_unit(Instruction::ADD(a1, a2)),
    ensures
        traps(s, Instruction::ADD(a1, a2)) == (add_spec(s, a1, a2).1 is Trap),
{
    reveal(add_spec);
    reveal(invalid_register);
    lemma_operand_traps(s, a2);
    if operand(s, a2) is Some {
        let v = operand(s, a2).unwrap();
        if let Argument::Register(n) = a1 {
            if 0 <= n <= 5 {
                let r = s.int_reg[n as int] as int;
                lemma_write_register_frame(CpuView { oflag: r + sat_u16(v) > 65535, ..s }, a1, (r + (
                if a2 is Literal {
                    as_word(v)
                } else {
                    v
                })) % 65536);
            }
        }
    }
}

proof fn lemma_traps_nand(s: CpuView, a1: Argument, a2: Argument)
    requires
        s.wf(),
        !needs_float_unit(Instruction::NAND(a1, a2)),
    ensures
        traps(s, Instruction::NAND(a1, a2)) == (nand_spec(s, a1, a2).1 is Trap),
{
    reveal(invalid_register);
    lemma_operand_traps(s, a2);
    if operand(s, a2) is Some {
        let v = operand(s, a2).unwrap();
        if let Argument::Register(n) = a1 {
            if 0 <= n <= 5 {
                lemma_write_register_frame(s, a1, (!(s.int_reg[n as int] & (sat_u16(v) as u16))) as int);
            }
        }
    }
}

proof fn lemma_traps_div(s: CpuView, a1: Argument, a2: Argument)
    requires
        s.wf(),
        !needs_float_unit(Instruction::DIV(a1, a2)),
    ensures
        traps(s, Instruction::DIV(a1, a2)) == (div_spec(s, a1, a2).1 is Trap),
{
    reveal(div_spec);
    reveal(invalid_register);
    lemma_operand_traps(s, a2);
    if operand(s, a2) is Some {
        let v = operand(s, a2).unwrap();
        if let Argument::Register(n) = a1 {
            if 0 <= n <= 5 && v > 0 {
                let r = s.int_reg[n as int] as int;
                lemma_write_register_frame(CpuView { rflag: r % v != 0, ..s }, a1, r / v);
            }
        }
    }
}

proof fn lemma_traps_move(s: CpuView, ins: Instruction)
    requires
        s.wf(),
        !needs_float_unit(ins),
        ins is MOV || ins is LD || ins is CMP || ins is LEA || ins is ST,
    ensures
        traps(s, ins) == (execute_spec(s, ins).1 is Trap),
{
    reveal(execute_spec);
    reveal(invalid_register);
    match ins {
        Instruction::MOV(a1, a2) | Instruction::LD(a1, a2) | Instruction::CMP(a1, a2)
        | Instruction::ST(a1, a2) => {
            lemma_operand_traps(s, a2);
            lemma_operand_traps(s, a1);
            if operand(s, a2) is Some {
                let v = operand(s, a2).unwrap();
                lemma_write_register_frame(s, a1, v);
                lemma_write_register_frame(s, a1, as_signed(v));
            }
        },
        Instruction::LEA(a1, a2) => {
            if let Argument::MemAddr(v) = a2 {
                lemma_write_register_frame(s, a1, v as int);
            }
        },
        _ => {},
    }
}

proof fn lemma_traps_arith(s: CpuView, ins: Instruction)
    requires
        s.wf(),
        !needs_float_unit(ins),
        ins is ADD || ins is NAND || ins is DIV || ins is MOV || ins is LD || ins is CMP || ins is LEA
            || ins is ST,
    ensures
        traps(s, ins) == (execute_spec(s, ins).1 is Trap),
{
    reveal(execute_spec);
    match ins {
        Instruction::ADD(a1, a2) => lemma_traps_add(s, a1, a2),
        Instruction::NAND(a1, a2) => lemma_traps_nand(s, a1, a2),
        Instruction::DIV(a1, a2) => lemma_traps_div(s, a1, a2),
        _ => lemma_traps_move(s, ins),
    }
}

proof fn lemma_traps_stack(s: CpuView, ins: Instruction)
    requires
        s.wf(),
        !needs_float_unit(ins),
        ins is PUSH || ins is POP || ins is RET || ins is HLT || ins is INT,
    ensures
        traps(s, ins) == (execute_spec(s, ins).1 is Trap),
{
    reveal(execute_spec);
    reveal(push_spec);
    reveal(invalid_register);
    reveal(drop_top);
    match ins {
        Instruction::PUSH(a) | Instruction::INT(a) => {
            lemma_operand_traps(s, a);
        },
        Instruction::POP(a) => {
            let v = mem_word(s, s.sp as int);
            lemma_write_register_frame(s, a, v);
        },
        _ => {},
    }
}

proof fn lemma_traps_jump(s: CpuView, ins: Instruction)
    requires
        s.wf(),
        !needs_float_unit(ins),
        ins is BO || ins is BNO || ins is BL || ins is BG || ins is BZ || ins is BNZ || ins is JMP,
    ensures
        traps(s, ins) == (execute_spec(s, ins).1 is Trap),
{
    reveal(execute_spec);
    reveal(push_spec);
    reveal(invalid_register);
}

/// Execution traps exactly on the states and instructions that `traps` names.
pub proof fn lemma_traps(s: CpuView, ins: Instruction)
    requires
        s.wf(),
        !needs_float_unit(ins),
    ensures
        traps(s, ins) == (execute_spec(s, ins).1 is Trap),
{
    if ins is ADD || ins is NAND || ins is DIV || ins is MOV || ins is LD || ins is CMP || ins is LEA
        || ins is ST {
        lemma_traps_arith(s, ins);
    } else if ins is PUSH || ins is POP || ins is RET || ins is HLT || ins is INT {
        lemma_traps_stack(s, ins);
    } else {
        lemma_traps_jump(s, ins);
    }
}

impl CPU {
    /// The value of an operand without changing the machine; `None` when the
    /// operand names no integer register or a negative address.
    pub fn peek_operand(&self, arg: &Argument) -> (r: Option<i32>)
        requires
            self.wf(),
            !float_operand(*arg),
        ensures
            match operand(self@, *arg) {
                Some(v) => r == Some(v as i32),
                None => r is None,
            },
    {
        let reg = |n: i16| -> (v: Option<u16>)
            ensures
                match register_value(self@, n) {
                    Some(x) => v == Some(x as u16),
                    None => v is None,
                },
            {
                if n == 8 {
                    Some(self.pc)
                } else if n == 9 {
                    Some(self.sp)
                } else if 0 <= n && n <= 5 {
                    Some(self.int_reg[n as usize])
                } else {
                    None
                }
            };
        match arg {
            Argument::Register(n) => match reg(*n) {
                Some(v) => Some(v as i32),
                None => None,
            },
            Argument::Literal(n) => Some(*n as i32),
            Argument::MemAddr(n) => if *n < 0 {
                None
            } else {
                Some(self.read_word(*n as usize) as i32)
            },
            Argument::MemPtr(n) => if *n < 0 {
                None
            } else {
                let tmp = self.read_word(*n as usize);
                Some(self.read_word(tmp as usize) as i32)
            },
            Argument::RegPtr(n) => match reg(*n) {
                Some(v) => Some(self.read_word(v as usize) as i32),
                None => None,
            },
        }
    }

    /// The instruction in the instruction register.
    pub fn decode_instruction(&self) -> (ins: Instruction)
        ensures
            ins == decode_spec(self.ir),
    {
        decode(self.ir)
    }

    /// The word held in memory cell `a`; a cell never written reads as zero.
    pub fn read_word(&self, a: usize) -> (v: u16)
        requires
            self.wf(),
            a < MEMORY_SIZE,
        ensures
            v as int == mem_word(self@, a as int),
    {
        match self.memory[a] {
            Some(v) => v,
            None => 0,
        }
    }

    /// Whether executing `ins` on the integer core would trap (see
    /// `Outcome::Trap`); `execute_instruction` may be called exactly when it
    /// would not.
    pub fn would_trap(&self, ins: &Instruction) -> (r: bool)
        requires
            self.wf(),
        ensures
            r == (!needs_float_unit(*ins) && (execute_spec(self@, *ins).1 is Trap)),
    {
        if ins.uses_float_unit() {
            return false;
        }
        proof {
            lemma_traps(self@, *ins);
        }
        let pc_end = self.pc == 65535;
        let push_traps = if self.sp > self.bp || self.backward_stack {
            self.sp == 65535 || pc_end
        } else {
            self.sp != 0 && pc_end
        };
        let jump_traps = self.pushret && (self.pc > 32767 || ((self.sp > self.bp
            || self.backward_stack) && self.sp == 65535));
        match ins {
            Instruction::HLT => false,
            Instruction::ADD(a1, a2) | Instruction::NAND(a1, a2) => negative_address(a2) || (
            self.peek_operand(a2).is_some() && !register_out_of_range(a1) && pc_end),
            Instruction::DIV(a1, a2) => negative_address(a2) || (match self.peek_operand(a2) {
                Some(v) => v > 0 && !register_out_of_range(a1) && pc_end,
                None => false,
            }),
            Instruction::MOV(_, a2) | Instruction::LD(_, a2) => negative_address(a2) || (
            self.peek_operand(a2).is_some() && pc_end),
            Instruction::CMP(a1, a2) => negative_address(a2) || (self.peek_operand(a2).is_some()
                && !(matches!(a1, Argument::Register(_)) && self.peek_operand(a1).is_none())
                && pc_end),
            Instruction::LEA(_, a2) => matches!(a2, Argument::MemAddr(_)) && pc_end,
            Instruction::ST(a1, a2) => negative_address(a2) || (self.peek_operand(a2).is_some()
                && !(match a1 {
                Argument::MemAddr(n) => *n < 0,
                _ => false,
            }) && !(match a1 {
                Argument::RegPtr(n) => self.peek_operand(&Argument::Register(*n)).is_none(),
                _ => false,
            }) && pc_end),
            Instruction::PUSH(a) => negative_address(a) || (self.peek_operand(a).is_some()
                && push_traps),
            Instruction::POP(a) => (match a {
                Argument::MemAddr(n) => *n < 0,
                _ => false,
            }) || pc_end,
            Instruction::RET => self.memory[self.sp as usize] == Some(65535u16),
            Instruction::BO(_) => if self.oflag {
                jump_traps
            } else {
                pc_end
            },
            Instruction::BNO(_) => if !self.oflag {
                jump_traps
            } else {
                pc_end
            },
            Instruction::BL(_) => if self.sflag {
                jump_traps
            } else {
                pc_end
            },
            Instruction::BG(_) => if !self.sflag {
                jump_traps
            } else {
                pc_end
            },
            Instruction::BZ(_) => if self.zflag {
                jump_traps
            } else {
                pc_end
            },
            Instruction::BNZ(_) => if !self.zflag {
                jump_traps
            } else {
                pc_end
            },
            Instruction::JMP(_) => jump_traps,
            Instruction::INT(a) => !self.fuzz && (negative_address(a) || (
            self.peek_operand(a).is_some() && pc_end)),
        }
    }

    /// Whether the next `step` would trap; `step` may be called exactly when it would not.
    pub fn step_would_trap(&self) -> (r: bool)
        requires
            self.wf(),
        ensures
            r == (!fetched_needs_float_unit(self@) && (step_spec(self@).1 is Trap)),
    {
        match self.memory[self.pc as usize] {
            None => false,
            Some(word) => {
                let ins = decode(word as i16);
                let ghost s1 = CpuView { ir: word as i16, ..self@ };
                proof {
                    if !needs_float_unit(ins) {
                        lemma_traps(self@, ins);
                        lemma_traps(s1, ins);
                        assert(traps(self@, ins) == traps(s1, ins));
                    }
                }
                self.would_trap(&ins)
            },
        }
    }
}

/// An operand that reads memory at a negative address.
fn negative_address(a: &Argument) -> (r: bool)
    ensures
        r == operand_traps(*a),
{
    match a {
        Argument::MemAddr(n) | Argument::MemPtr(n) => *n < 0,
        _ => false,
    }
}

/// A register operand that names no integer register.
fn register_out_of_range(a: &Argument) -> (r: bool)
    ensures
        r == bad_register(*a),
{
    match a {
        Argument::Register(n) => *n < 0 || *n > 5,
        _ => false,
    }
}

} // verus!
