//! The machine state of the BELLE emulator, its errors, and what an executed
//! instruction asks of the world outside the machine.
use vstd::prelude::*;

verus! {

/// Number of addressable memory words.
pub const MEMORY_SIZE: usize = 65536;

/// The state of the integer core of the BELLE CPU.
///
/// Registers r0 through r5 live in `int_reg`; r8 reads the program counter
/// and r9 the stack pointer. The floating-point registers r6 and r7 are not
/// part of this state (see `Completion::FloatUnit`). A memory cell that was
/// never written holds `None`.
pub struct CPU {
    pub int_reg: Vec<u16>,
    pub memory: Vec<Option<u16>>,
    pub pc: u16,
    pub ir: i16,
    pub starts_at: u16,
    pub running: bool,
    pub zflag: bool,
    pub oflag: bool,
    pub rflag: bool,
    pub sflag: bool,
    pub sp: u16,
    pub bp: u16,
    pub backward_stack: bool,
    pub do_not_run: bool,
    pub err: bool,
    pub debugging: bool,
    pub pushret: bool,
    pub fuzz: bool,
    pub hlt_on_overflow: bool,
    pub max_clk: Option<usize>,
}

/// The mathematical model of a `CPU`.
pub struct CpuView {
    pub int_reg: Seq<u16>,
    pub memory: Seq<Option<u16>>,
    pub pc: u16,
    pub ir: i16,
    pub starts_at: u16,
    pub running: bool,
    pub zflag: bool,
    pub oflag: bool,
    pub rflag: bool,
    pub sflag: bool,
    pub sp: u16,
    pub bp: u16,
    pub backward_stack: bool,
    pub do_not_run: bool,
    pub err: bool,
    pub debugging: bool,
    pub pushret: bool,
    pub fuzz: bool,
    pub hlt_on_overflow: bool,
    pub max_clk: Option<usize>,
}

impl View for CPU {
    type V = CpuView;

    open spec fn view(&self) -> CpuView {
        CpuView {
            int_reg: self.int_reg@,
            memory: self.memory@,
            pc: self.pc,
            ir: self.ir,
            starts_at: self.starts_at,
            running: self.running,
            zflag: self.zflag,
            oflag: self.oflag,
            rflag: self.rflag,
            sflag: self.sflag,
            sp: self.sp,
            bp: self.bp,
            backward_stack: self.backward_stack,
            do_not_run: self.do_not_run,
            err: self.err,
            debugging: self.debugging,
            pushret: self.pushret,
            fuzz: self.fuzz,
            hlt_on_overflow: self.hlt_on_overflow,
            max_clk: self.max_clk,
        }
    }
}

impl CpuView {
    /// A well-formed machine has exactly `MEMORY_SIZE` memory cells and six integer registers.
    pub open spec fn wf(self) -> bool {
        self.memory.len() == MEMORY_SIZE && self.int_reg.len() == 6
    }
}

impl CPU {
    pub open spec fn wf(&self) -> bool {
        self@.wf()
    }

    /// A machine with empty memory, all registers zero, the stack and base
    /// pointers at 99 and programs starting at address 100.
    pub fn new() -> (cpu: CPU)
        ensures
            cpu.wf(),
            cpu@ == CPU::initial(),
    {
        let mut memory: Vec<Option<u16>> = Vec::with_capacity(MEMORY_SIZE);
        let mut i: usize = 0;
        while i < MEMORY_SIZE
            invariant
                i <= MEMORY_SIZE,
                memory@.len() == i,
                forall|j: int| 0 <= j < i ==> memory@[j] is None,
            decreases MEMORY_SIZE - i,
        {
            memory.push(None);
            i = i + 1;
        }
        let cpu = CPU {
            int_reg: vec![0, 0, 0, 0, 0, 0],
            memory,
            pc: 0,
            ir: 0,
            starts_at: 100,
            running: false,
            zflag: false,
            oflag: false,
            rflag: false,
            sflag: false,
            sp: 99,
            bp: 99,
            backward_stack: false,
            do_not_run: false,
            err: false,
            debugging: false,
            pushret: true,
            fuzz: false,
            hlt_on_overflow: false,
            max_clk: None,
        };
        assert(cpu.int_reg@ =~= Seq::new(6, |i: int| 0u16));
        assert(cpu.memory@ =~= Seq::new(MEMORY_SIZE as nat, |i: int| None::<u16>));
        cpu
    }

    /// The state of a freshly created machine.
    pub open spec fn initial() -> CpuView {
        CpuView {
            int_reg: Seq::new(6, |i: int| 0u16),
            memory: Seq::new(MEMORY_SIZE as nat, |i: int| None::<u16>),
            pc: 0,
            ir: 0,
            starts_at: 100,
            running: false,
            zflag: false,
            oflag: false,
            rflag: false,
            sflag: false,
            sp: 99,
            bp: 99,
            backward_stack: false,
            do_not_run: false,
            err: false,
            debugging: false,
            pushret: true,
            fuzz: false,
            hlt_on_overflow: false,
            max_clk: None,
        }
    }
}

impl Default for CPU {
    fn default() -> (cpu: CPU)
        ensures
            cpu.wf(),
            cpu@ == CPU::initial(),
    {
        CPU::new()
    }
}

/// The kind of an unrecoverable error.
#[derive(Clone, Copy, Debug, PartialEq, Eq, Structural)]
pub enum FaultKind {
    SegmentationFault,
    IllegalInstruction,
    DivideByZero,
    InvalidRegister,
    StackOverflow,
    StackUnderflow,
    ReadFail,
    WindowFail,
}

/// An error that stops the machine: the instruction register and program
/// counter at the time of the error, and an optional explanation.
#[derive(Debug)]
pub enum UnrecoverableError {
    SegmentationFault(i16, u16, Option<String>),
    IllegalInstruction(i16, u16, Option<String>),
    DivideByZero(i16, u16, Option<String>),
    InvalidRegister(i16, u16, Option<String>),
    StackOverflow(i16, u16, Option<String>),
    StackUnderflow(i16, u16, Option<String>),
    ReadFail(i16, u16, Option<String>),
    WindowFail(i16, u16, Option<String>),
}

impl UnrecoverableError {
    /// The kind, instruction register and program counter of the error.
    pub open spec fn fault(self) -> (FaultKind, i16, u16) {
        match self {
            UnrecoverableError::SegmentationFault(ir, pc, _) => (FaultKind::SegmentationFault, ir, pc),
            UnrecoverableError::IllegalInstruction(ir, pc, _) => (FaultKind::IllegalInstruction, ir, pc),
            UnrecoverableError::DivideByZero(ir, pc, _) => (FaultKind::DivideByZero, ir, pc),
            UnrecoverableError::InvalidRegister(ir, pc, _) => (FaultKind::InvalidRegister, ir, pc),
            UnrecoverableError::StackOverflow(ir, pc, _) => (FaultKind::StackOverflow, ir, pc),
            UnrecoverableError::StackUnderflow(ir, pc, _) => (FaultKind::StackUnderflow, ir, pc),
            UnrecoverableError::ReadFail(ir, pc, _) => (FaultKind::ReadFail, ir, pc),
            UnrecoverableError::WindowFail(ir, pc, _) => (FaultKind::WindowFail, ir, pc),
        }
    }

    /// The explanation that the error carries, if any.
    pub open spec fn explanation(self) -> Option<Seq<char>> {
        let m = match self {
            UnrecoverableError::SegmentationFault(_, _, m) => m,
            UnrecoverableError::IllegalInstruction(_, _, m) => m,
            UnrecoverableError::DivideByZero(_, _, m) => m,
            UnrecoverableError::InvalidRegister(_, _, m) => m,
            UnrecoverableError::StackOverflow(_, _, m) => m,
            UnrecoverableError::StackUnderflow(_, _, m) => m,
            UnrecoverableError::ReadFail(_, _, m) => m,
            UnrecoverableError::WindowFail(_, _, m) => m,
        };
        match m {
            Some(t) => Some(t@),
            None => None,
        }
    }

    /// The kind of the error.
    pub fn kind(&self) -> (k: FaultKind)
        ensures
            k == self.fault().0,
    {
        match self {
            UnrecoverableError::SegmentationFault(..) => FaultKind::SegmentationFault,
            UnrecoverableError::IllegalInstruction(..) => FaultKind::IllegalInstruction,
            UnrecoverableError::DivideByZero(..) => FaultKind::DivideByZero,
            UnrecoverableError::InvalidRegister(..) => FaultKind::InvalidRegister,
            UnrecoverableError::StackOverflow(..) => FaultKind::StackOverflow,
            UnrecoverableError::StackUnderflow(..) => FaultKind::StackUnderflow,
            UnrecoverableError::ReadFail(..) => FaultKind::ReadFail,
            UnrecoverableError::WindowFail(..) => FaultKind::WindowFail,
        }
    }
}

/// The name of a kind of unrecoverable error.
pub open spec fn fault_name(k: FaultKind) -> Seq<char> {
    match k {
        FaultKind::SegmentationFault => "Segmentation fault"@,
        FaultKind::IllegalInstruction => "Illegal instruction"@,
        FaultKind::DivideByZero => "Divide by zero"@,
        FaultKind::InvalidRegister => "Invalid register"@,
        FaultKind::StackOverflow => "Stack overflow"@,
        FaultKind::StackUnderflow => "Stack underflow"@,
        FaultKind::ReadFail => "Read fail"@,
        FaultKind::WindowFail => "Window fail"@,
    }
}

impl UnrecoverableError {
    /// The instruction register, the name of the error and the program
    /// counter.
    pub fn details(&self) -> (r: (i16, String, u16))
        ensures
            r.0 == self.fault().1,
            r.1@ == fault_name(self.fault().0),
            r.2 == self.fault().2,
    {
        let (ir, pc) = match self {
            UnrecoverableError::SegmentationFault(ir, pc, _)
            | UnrecoverableError::IllegalInstruction(ir, pc, _)
            | UnrecoverableError::DivideByZero(ir, pc, _)
            | UnrecoverableError::InvalidRegister(ir, pc, _)
            | UnrecoverableError::StackOverflow(ir, pc, _)
            | UnrecoverableError::StackUnderflow(ir, pc, _)
            | UnrecoverableError::ReadFail(ir, pc, _)
            | UnrecoverableError::WindowFail(ir, pc, _) => (*ir, *pc),
        };
        let name = match self.kind() {
            FaultKind::SegmentationFault => String::from_str("Segmentation fault"),
            FaultKind::IllegalInstruction => String::from_str("Illegal instruction"),
            FaultKind::DivideByZero => String::from_str("Divide by zero"),
            FaultKind::InvalidRegister => String::from_str("Invalid register"),
            FaultKind::StackOverflow => String::from_str("Stack overflow"),
            FaultKind::StackUnderflow => String::from_str("Stack underflow"),
            FaultKind::ReadFail => String::from_str("Read fail"),
            FaultKind::WindowFail => String::from_str("Window fail"),
        };
        (ir, name, pc)
    }

    /// The headline of the error: "UNRECOVERABLE ERROR: " and its name.
    pub fn only_err(&self) -> (s: String)
        ensures
            s@ == "UNRECOVERABLE ERROR: "@ + fault_name(self.fault().0),
    {
        let (_, name, _) = self.details();
        String::from_str("UNRECOVERABLE ERROR: ").concat(name.as_str())
    }
}

/// An error after which the machine goes on.
#[derive(Debug)]
pub enum RecoverableError {
    UnknownFlag(u16, Option<String>),
    Overflow(u16, Option<String>),
    BackwardStack(u16, Option<String>),
}

impl RecoverableError {
    /// The name of the error and the program counter.
    pub fn details(&self) -> (r: (String, u16))
        ensures
            r.1 == match self {
                RecoverableError::UnknownFlag(pc, _) => *pc,
                RecoverableError::Overflow(pc, _) => *pc,
                RecoverableError::BackwardStack(pc, _) => *pc,
            },
            r.0@ == match self {
                RecoverableError::UnknownFlag(..) => "Unknown flag"@,
                RecoverableError::Overflow(..) => "Overflow"@,
                RecoverableError::BackwardStack(..) => "Backwards stack"@,
            },
    {
        match self {
            RecoverableError::UnknownFlag(pc, _) => (String::from_str("Unknown flag"), *pc),
            RecoverableError::Overflow(pc, _) => (String::from_str("Overflow"), *pc),
            RecoverableError::BackwardStack(pc, _) => (String::from_str("Backwards stack"), *pc),
        }
    }
}

/// Input or output that an interrupt asks for. The machine state has
/// already been updated; for `ReadChar` and `ReadNumber` the value read is
/// handed back with `CPU::finish_read_char` / `CPU::finish_read_number`.
#[derive(Clone, Copy, Debug, PartialEq, Eq, Structural)]
pub enum IoRequest {
    /// Print the value of an integer register.
    PrintRegister(u16),
    /// Print floating-point register r6 (0) or r7 (1).
    PrintFloatRegister(u8),
    /// Print the characters held in memory from `start` (inclusive) to `end`
    /// (exclusive); see `CPU::memory_text`.
    PrintText(u16, u16),
    /// Read one character into r0.
    ReadChar,
    /// Pause for one second.
    Sleep,
    /// Clear the terminal.
    ClearScreen,
    /// Read a number from a line of input into r0.
    ReadNumber,
    /// Report an interrupt code that is not known.
    UnknownFlag,
}

/// How an instruction was carried out.
#[derive(Clone, Copy, Debug, PartialEq, Eq, Structural)]
pub enum Completion {
    /// The instruction was executed.
    Done,
    /// The instruction was executed and asks for input or output.
    Io(IoRequest),
    /// The instruction reads or writes a floating-point register; nothing was
    /// changed, and the caller's floating-point unit executes it.
    FloatUnit,
}

} // verus!
