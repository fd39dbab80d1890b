//! The machine: its state, the meaning of each instruction, and the
//! fetch-decode-execute loop.

use vstd::prelude::*;

use crate::image::has_magic;
use crate::opcode::{lemma_decode_to_u8, OpCode};
use crate::ports::{InputPort, OutputPort, ReadOutcome};
use crate::text::{hex2, push_hex2, push_str, text_of};

verus! {

/// Number of memory cells.
pub const MEMORY_SIZE: usize = 256;

/// Most entries the operand stack holds.
pub const STACK_SIZE: usize = 256;

/// Most entries the call stack holds.
pub const CALL_SIZE: usize = 256;

/// A failure inside a system call.
#[derive(Debug, Clone, Copy, PartialEq, Eq, Structural)]
pub enum SysError {
    InvalidCharacter,
}

impl SysError {
    /// A short description of the failure.
    pub fn message(&self) -> (r: String)
        ensures
            r@ == sys_error_message(*self),
    {
        String::from_str("Invalid character")
    }
}

/// The description of a system call failure.
pub open spec fn sys_error_message(e: SysError) -> Seq<char> {
    match e {
        SysError::InvalidCharacter => "Invalid character"@,
    }
}

/// Why a run stopped before its end.
#[derive(Debug, Clone, Copy, PartialEq, Eq, Structural)]
pub enum VmError {
    /// A pop from an empty operand stack.
    StackUnderflow,
    /// A push onto a full operand stack.
    StackOverflow,
    /// A return with an empty call stack.
    CallUnderflow,
    /// A call with a full call stack.
    CallOverflow,
    /// A division or remainder by zero.
    DivisionByZero,
    /// A byte that encodes no opcode.
    InvalidOpcode(u8),
    /// A memory address past the last cell.
    InvalidMemoryAccess(usize),
    /// A read of a memory cell that was never written.
    UninitializedMemory(usize),
    /// A system call selector that names no system call.
    UnexpectedSysCall(u8),
    /// The stream ended where an instruction needed one more byte.
    UnexpectedEof,
    /// A port failed during a system call.
    SysError(SysError),
}

/// The description of a run's error, with the value it carries in hex.
pub open spec fn error_message(e: VmError) -> Seq<char> {
    match e {
        VmError::StackUnderflow => "Stack underflow"@,
        VmError::StackOverflow => "Stack Overflow"@,
        VmError::CallUnderflow => "Call underflow"@,
        VmError::CallOverflow => "Call Overflow"@,
        VmError::DivisionByZero => "Division by zero"@,
        VmError::InvalidOpcode(op) => "Invalid Opcode: "@ + hex2(op as nat),
        VmError::InvalidMemoryAccess(dst) => "Invalid memory access: "@ + hex2(dst as nat),
        VmError::UninitializedMemory(dst) => "Not exist designated memory: "@ + hex2(dst as nat),
        VmError::UnexpectedSysCall(n) => "Unexpected SysCall: "@ + hex2(n as nat),
        VmError::UnexpectedEof => "Unexpected EOF"@,
        VmError::SysError(s) => "SysCall Error: "@ + sys_error_message(s),
    }
}

impl VmError {
    /// A description of the error.
    pub fn message(&self) -> (r: String)
        ensures
            r@ == error_message(*self),
    {
        let mut m: Vec<char> = Vec::new();
        match self {
            VmError::StackUnderflow => push_str(&mut m, "Stack underflow"),
            VmError::StackOverflow => push_str(&mut m, "Stack Overflow"),
            VmError::CallUnderflow => push_str(&mut m, "Call underflow"),
            VmError::CallOverflow => push_str(&mut m, "Call Overflow"),
            VmError::DivisionByZero => push_str(&mut m, "Division by zero"),
            VmError::InvalidOpcode(op) => {
                push_str(&mut m, "Invalid Opcode: ");
                push_hex2(&mut m, *op as usize);
            },
            VmError::InvalidMemoryAccess(dst) => {
                push_str(&mut m, "Invalid memory access: ");
                push_hex2(&mut m, *dst);
            },
            VmError::UninitializedMemory(dst) => {
                push_str(&mut m, "Not exist designated memory: ");
                push_hex2(&mut m, *dst);
            },
            VmError::UnexpectedSysCall(n) => {
                push_str(&mut m, "Unexpected SysCall: ");
                push_hex2(&mut m, *n as usize);
            },
            VmError::UnexpectedEof => push_str(&mut m, "Unexpected EOF"),
            VmError::SysError(_) => {
                push_str(&mut m, "SysCall Error: ");
                push_str(&mut m, "Invalid character");
            },
        }
        proof {
            match self {
                VmError::StackUnderflow => assert(m@ =~= "Stack underflow"@),
                VmError::StackOverflow => assert(m@ =~= "Stack Overflow"@),
                VmError::CallUnderflow => assert(m@ =~= "Call underflow"@),
                VmError::CallOverflow => assert(m@ =~= "Call Overflow"@),
                VmError::DivisionByZero => assert(m@ =~= "Division by zero"@),
                VmError::UnexpectedEof => assert(m@ =~= "Unexpected EOF"@),
                VmError::SysError(_) => assert(m@ =~= "SysCall Error: "@ + "Invalid character"@),
                _ => {},
            }
        }
        text_of(&m)
    }
}

/// The state of a machine, as plain values.
pub struct Machine {
    pub pc: usize,
    pub stack: Seq<u8>,
    pub memory: Seq<Option<u8>>,
    pub call: Seq<usize>,
    pub code: Seq<u8>,
    pub halted: bool,
    pub exit_code: u8,
}

/// The result of a part of an instruction: the new state, or the error
/// together with the state at the time of failure.
pub type Fallible<T> = Result<T, (VmError, Machine)>;

impl Machine {
    /// The machine is still fetching instructions.
    pub open spec fn running(self) -> bool {
        !self.halted && self.pc < self.code.len()
    }

    /// This state with another program counter.
    pub open spec fn with_pc(self, pc: usize) -> Machine {
        Machine { pc, ..self }
    }

    /// This state with another operand stack.
    pub open spec fn with_stack(self, stack: Seq<u8>) -> Machine {
        Machine { stack, ..self }
    }

    /// This state with another call stack.
    pub open spec fn with_call(self, call: Seq<usize>) -> Machine {
        Machine { call, ..self }
    }

    /// Takes the top of the operand stack.
    pub open spec fn pop(self) -> Fallible<(Machine, u8)> {
        if self.stack.len() == 0 {
            Err((VmError::StackUnderflow, self))
        } else {
            Ok((self.with_stack(self.stack.drop_last()), self.stack.last()))
        }
    }

    /// Puts a byte on top of the operand stack.
    pub open spec fn push(self, v: u8) -> Fallible<Machine> {
        if self.stack.len() >= STACK_SIZE {
            Err((VmError::StackOverflow, self))
        } else {
            Ok(self.with_stack(self.stack.push(v)))
        }
    }

    /// Moves to the byte after the program counter and reads it.
    pub open spec fn immediate(self) -> Fallible<(Machine, u8)> {
        if self.pc + 1 < self.code.len() {
            Ok((self.with_pc((self.pc + 1) as usize), self.code[self.pc + 1]))
        } else {
            Err((VmError::UnexpectedEof, self))
        }
    }

    /// Writes a byte to a memory cell.
    pub open spec fn store(self, v: u8, addr: usize) -> Fallible<Machine> {
        if addr >= MEMORY_SIZE {
            Err((VmError::InvalidMemoryAccess(addr), self))
        } else {
            Ok(Machine { memory: self.memory.update(addr as int, Some(v)), ..self })
        }
    }

    /// Reads a memory cell, which must have been written.
    pub open spec fn load(self, addr: usize) -> Fallible<u8> {
        if addr >= MEMORY_SIZE {
            Err((VmError::InvalidMemoryAccess(addr), self))
        } else {
            match self.memory[addr as int] {
                Some(v) => Ok(v),
                None => Err((VmError::UninitializedMemory(addr), self)),
            }
        }
    }

    /// Puts a return address on the call stack.
    pub open spec fn push_call(self, a: usize) -> Fallible<Machine> {
        if self.call.len() >= CALL_SIZE {
            Err((VmError::CallOverflow, self))
        } else {
            Ok(self.with_call(self.call.push(a)))
        }
    }

    /// Takes the top of the call stack.
    pub open spec fn pop_call(self) -> Fallible<(Machine, usize)> {
        if self.call.len() == 0 {
            Err((VmError::CallUnderflow, self))
        } else {
            Ok((self.with_call(self.call.drop_last()), self.call.last()))
        }
    }

    /// Pushes a loaded byte.
    pub open spec fn load_push(self, addr: usize) -> Fallible<Machine> {
        match self.load(addr) {
            Err(f) => Err(f),
            Ok(v) => self.push(v),
        }
    }

    /// Stores a popped byte.
    pub open spec fn pop_store(self, addr: usize) -> Fallible<Machine> {
        match self.pop() {
            Err(f) => Err(f),
            Ok((m, v)) => m.store(v, addr),
        }
    }

    /// Pops `a`, the left operand, applies `op` to `a` and `b` and pushes the
    /// result.
    pub open spec fn apply(self, op: OpCode, b: u8) -> Fallible<Machine> {
        match self.pop() {
            Err(f) => Err(f),
            Ok((m, a)) => match arith(op, a, b) {
                None => Err((VmError::DivisionByZero, m)),
                Some(v) => m.push(v),
            },
        }
    }

    /// The system call that selector `n` names, on a machine whose selector
    /// is already popped. `input` is what a read from the input port gives,
    /// `written` whether a write to the output port succeeds.
    pub open spec fn syscall(self, n: u8, input: ReadOutcome, written: bool) -> Fallible<Machine> {
        if n == 0 {
            match input {
                ReadOutcome::Byte(b) => self.push(b),
                ReadOutcome::End => self.push(0),
                ReadOutcome::Failed => Err((VmError::SysError(SysError::InvalidCharacter), self)),
            }
        } else if n == 1 {
            match self.pop() {
                Err(f) => Err(f),
                Ok((m, _)) => if written {
                    Ok(m)
                } else {
                    Err((VmError::SysError(SysError::InvalidCharacter), m))
                },
            }
        } else if n == 2 {
            Ok(self)
        } else if n == 3 {
            match self.pop() {
                Err(f) => Err(f),
                Ok((m, code)) => Ok(Machine { exit_code: code, halted: true, ..m }),
            }
        } else {
            Err((VmError::UnexpectedSysCall(n), self))
        }
    }

    /// What instruction `op` does, before the program counter moves past it.
    /// The flag says whether it moves: jumps and calls set it themselves.
    pub open spec fn execute(self, op: OpCode, input: ReadOutcome, written: bool) -> Fallible<(Machine, bool)> {
        match op {
            OpCode::SysCall => match self.pop() {
                Err(f) => Err(f),
                Ok((m, n)) => moved(m.syscall(n, input, written)),
            },
            OpCode::Push => match self.immediate() {
                Err(f) => Err(f),
                Ok((m, v)) => moved(m.push(v)),
            },
            OpCode::Pop => match self.pop() {
                Err(f) => Err(f),
                Ok((m, _)) => Ok((m, true)),
            },
            OpCode::Dup => match self.pop() {
                Err(f) => Err(f),
                Ok((m, a)) => match m.push(a) {
                    Err(f) => Err(f),
                    Ok(m2) => moved(m2.push(a)),
                },
            },
            OpCode::Swap => match self.pop() {
                Err(f) => Err(f),
                Ok((m, a)) => match m.pop() {
                    Err(f) => Err(f),
                    Ok((m2, b)) => match m2.push(a) {
                        Err(f) => Err(f),
                        Ok(m3) => moved(m3.push(b)),
                    },
                },
            },
            OpCode::Add | OpCode::Sub | OpCode::Mul | OpCode::Div | OpCode::Mod | OpCode::Eq
            | OpCode::Neq | OpCode::Lt | OpCode::Le | OpCode::Gt | OpCode::Ge => match self.pop() {
                Err(f) => Err(f),
                Ok((m, b)) => moved(m.apply(op, b)),
            },
            OpCode::AddI | OpCode::SubI | OpCode::MulI | OpCode::DivI | OpCode::ModI => match self.immediate() {
                Err(f) => Err(f),
                Ok((m, b)) => moved(m.apply(op, b)),
            },
            OpCode::Jz => match self.pop() {
                Err(f) => Err(f),
                Ok((m, flag)) => match m.immediate() {
                    Err(f) => Err(f),
                    Ok((m2, dst)) => if flag == 0 {
                        Ok((m2.with_pc(dst as usize), false))
                    } else {
                        Ok((m2, true))
                    },
                },
            },
            OpCode::Jmz => match self.immediate() {
                Err(f) => Err(f),
                Ok((m, dst)) => Ok((m.with_pc(dst as usize), false)),
            },
            OpCode::Store => match self.pop() {
                Err(f) => Err(f),
                Ok((m, addr)) => moved(m.pop_store(addr as usize)),
            },
            OpCode::Load => match self.pop() {
                Err(f) => Err(f),
                Ok((m, addr)) => moved(m.load_push(addr as usize)),
            },
            OpCode::StoreI => match self.immediate() {
                Err(f) => Err(f),
                Ok((m, addr)) => moved(m.pop_store(addr as usize)),
            },
            OpCode::LoadI => match self.immediate() {
                Err(f) => Err(f),
                Ok((m, addr)) => moved(m.load_push(addr as usize)),
            },
            OpCode::Call => match self.immediate() {
                Err(f) => Err(f),
                Ok((m, dst)) => match m.push_call(m.pc) {
                    Err(f) => Err(f),
                    Ok(m2) => Ok((m2.with_pc(dst as usize), false)),
                },
            },
            OpCode::Ret => match self.pop_call() {
                Err(f) => Err(f),
                Ok((m, dst)) => Ok((m.with_pc(dst), true)),
            },
            OpCode::Fin => Ok((Machine { halted: true, exit_code: 0, ..self }, true)),
        }
    }

    /// One cycle on a running machine: fetch the byte at the program counter,
    /// decode it, execute it, and move past it unless it jumped.
    pub open spec fn step(self, input: ReadOutcome, written: bool) -> Fallible<Machine> {
        let b = self.code[self.pc as int];
        match OpCode::decode(b) {
            None => Err((VmError::InvalidOpcode(b), self)),
            Some(op) => match self.execute(op, input, written) {
                Err(f) => Err(f),
                Ok((m, true)) => Ok(m.with_pc(advance(m.pc))),
                Ok((m, false)) => Ok(m),
            },
        }
    }

    /// `next` is a state that one cycle can lead to, whatever the ports give.
    pub open spec fn steps_to(self, next: Machine) -> bool {
        self.running() && exists|input: ReadOutcome, written: bool|
            #[trigger] self.step(input, written) == Ok::<Machine, (VmError, Machine)>(next)
    }

    /// One cycle can fail with `e`, leaving the state `last`.
    pub open spec fn fails_with(self, e: VmError, last: Machine) -> bool {
        self.running() && exists|input: ReadOutcome, written: bool|
            #[trigger] self.step(input, written) == Err::<Machine, (VmError, Machine)>((e, last))
    }

    /// `n` cycles can lead from this state to `last`.
    pub open spec fn reaches(self, last: Machine, n: nat) -> bool
        decreases n,
    {
        if n == 0 {
            self == last
        } else {
            exists|mid: Machine| self.reaches(mid, (n - 1) as nat) && #[trigger] mid.steps_to(last)
        }
    }
}

/// What a run from `first` that ended in `last` with result `r` has done:
/// on success, reached `last` by cycles and found it stopped, or did
/// `u64::MAX` cycles; on an error, reached a state whose next cycle fails
/// with it and leaves `last`.
pub open spec fn ran(first: Machine, r: Result<(), VmError>, last: Machine) -> bool {
    match r {
        Ok(()) => exists|n: nat| #[trigger] first.reaches(last, n) && (!last.running() || n == u64::MAX),
        Err(e) => exists|n: nat, mid: Machine| #[trigger] first.reaches(mid, n) && mid.fails_with(e, last),
    }
}

/// A run that reaches `mid` in `n` cycles reaches, in one more, any state
/// that `mid` steps to.
pub proof fn lemma_reaches_extend(first: Machine, mid: Machine, last: Machine, n: nat)
    requires
        first.reaches(mid, n),
        mid.steps_to(last),
    ensures
        first.reaches(last, n + 1),
{
    assert(first.reaches(mid, ((n + 1) - 1) as nat));
}

/// The program counter after an instruction that does not jump. Only a
/// return address of `usize::MAX`, which lies past every stream, stays put.
pub open spec fn advance(pc: usize) -> usize {
    if pc < usize::MAX {
        (pc + 1) as usize
    } else {
        pc
    }
}

/// `a + b`, clamped to a byte.
pub open spec fn sat_add(a: u8, b: u8) -> u8 {
    if a + b > 255 {
        255
    } else {
        (a + b) as u8
    }
}

/// `a - b`, clamped at zero.
pub open spec fn sat_sub(a: u8, b: u8) -> u8 {
    if a < b {
        0
    } else {
        (a - b) as u8
    }
}

/// `a * b`, clamped to a byte.
pub open spec fn sat_mul(a: u8, b: u8) -> u8 {
    if a * b > 255 {
        255
    } else {
        (a * b) as u8
    }
}

/// The flag that a comparison pushes: 0 when it holds, 1 when not.
pub open spec fn flag(holds: bool) -> u8 {
    if holds {
        0
    } else {
        1
    }
}

/// The byte that the arithmetic or comparison `op` gives on `a` (below) and
/// `b` (on top, or the immediate); `None` for a zero divisor.
pub open spec fn arith(op: OpCode, a: u8, b: u8) -> Option<u8> {
    match op {
        OpCode::Add | OpCode::AddI => Some(sat_add(a, b)),
        OpCode::Sub | OpCode::SubI => Some(sat_sub(a, b)),
        OpCode::Mul | OpCode::MulI => Some(sat_mul(a, b)),
        OpCode::Div | OpCode::DivI => if b == 0 {
            None
        } else {
            Some((a / b) as u8)
        },
        OpCode::Mod | OpCode::ModI => if b == 0 {
            None
        } else {
            Some((a % b) as u8)
        },
        OpCode::Eq => Some(flag(a == b)),
        OpCode::Neq => Some(flag(a != b)),
        OpCode::Lt => Some(flag(a < b)),
        OpCode::Le => Some(flag(a <= b)),
        OpCode::Gt => Some(flag(a > b)),
        OpCode::Ge => Some(flag(a >= b)),
        _ => None,
    }
}

/// Computes `arith(op, a, b)`.
pub fn compute(op: OpCode, a: u8, b: u8) -> (r: Option<u8>)
    ensures
        r == arith(op, a, b),
{
    match op {
        OpCode::Add | OpCode::AddI => {
            let s: u16 = a as u16 + b as u16;
            if s > 255 {
                Some(255)
            } else {
                Some(s as u8)
            }
        },
        OpCode::Sub | OpCode::SubI => {
            if a < b {
                Some(0)
            } else {
                Some(a - b)
            }
        },
        OpCode::Mul | OpCode::MulI => {
            assert((a as int) * (b as int) <= 255 * 255) by (nonlinear_arith)
                requires
                    a <= 255,
                    b <= 255,
            ;
            let p: u16 = a as u16 * b as u16;
            if p > 255 {
                Some(255)
            } else {
                Some(p as u8)
            }
        },
        OpCode::Div | OpCode::DivI => {
            if b == 0 {
                None
            } else {
                Some(a / b)
            }
        },
        OpCode::Mod | OpCode::ModI => {
            if b == 0 {
                None
            } else {
                Some(a % b)
            }
        },
        OpCode::Eq => Some(if a == b { 0 } else { 1 }),
        OpCode::Neq => Some(if a != b { 0 } else { 1 }),
        OpCode::Lt => Some(if a < b { 0 } else { 1 }),
        OpCode::Le => Some(if a <= b { 0 } else { 1 }),
        OpCode::Gt => Some(if a > b { 0 } else { 1 }),
        OpCode::Ge => Some(if a >= b { 0 } else { 1 }),
        _ => None,
    }
}

/// `r` and the state `after` are what the outcome `spec` prescribes: its
/// value and state on success, its error and state on failure.
pub open spec fn follows<T>(r: Result<T, VmError>, after: Machine, spec: Fallible<(Machine, T)>) -> bool {
    match spec {
        Ok((m, v)) => r == Ok::<T, VmError>(v) && after == m,
        Err((e, m)) => r == Err::<T, VmError>(e) && after == m,
    }
}

/// A state that moves past its instruction afterwards.
pub open spec fn moved(r: Fallible<Machine>) -> Fallible<(Machine, bool)> {
    match r {
        Err(f) => Err(f),
        Ok(m) => Ok((m, true)),
    }
}

/// Pairs a state with the unit value, for [`follows`].
pub open spec fn unit(r: Fallible<Machine>) -> Fallible<(Machine, ())> {
    match r {
        Ok(m) => Ok((m, ())),
        Err(f) => Err(f),
    }
}

/// A machine loaded with an image, together with its two ports.
pub struct VM<R: InputPort, W: OutputPort> {
    /// Index of the next byte to fetch in `tokens`.
    pub pc: usize,
    /// The operand stack, bottom first.
    pub stack: Vec<u8>,
    /// The memory cells; `None` for a cell never written.
    pub memory: Vec<Option<u8>>,
    /// The call stack of return addresses, bottom first.
    pub call: Vec<usize>,
    /// The instruction stream: the image without its header.
    pub tokens: Vec<u8>,
    pub halted: bool,
    pub exit_code: u8,
    pub in_port: R,
    pub out_port: W,
}

impl<R: InputPort, W: OutputPort> View for VM<R, W> {
    type V = Machine;

    open spec fn view(&self) -> Machine {
        Machine {
            pc: self.pc,
            stack: self.stack@,
            memory: self.memory@,
            call: self.call@,
            code: self.tokens@,
            halted: self.halted,
            exit_code: self.exit_code,
        }
    }
}

/// The state of a machine freshly loaded with `image`.
pub open spec fn loaded(image: Seq<u8>) -> Machine {
    Machine {
        pc: 0,
        stack: Seq::empty(),
        memory: Seq::new(MEMORY_SIZE as nat, |i: int| None),
        call: Seq::empty(),
        code: image.skip(4),
        halted: false,
        exit_code: 0,
    }
}

impl<R: InputPort, W: OutputPort> VM<R, W> {
    /// Memory has all its cells.
    pub open spec fn wf(&self) -> bool {
        self.memory@.len() == MEMORY_SIZE
    }

    /// Loads an image, which must start with the header: the instruction
    /// stream is what follows it, and everything else starts empty.
    pub fn new(tokens: Vec<u8>, in_port: R, out_port: W) -> (vm: Self)
        requires
            has_magic(tokens@),
        ensures
            vm.wf(),
            vm@ == loaded(tokens@),
            vm.in_port == in_port,
            vm.out_port == out_port,
    {
        let mut code: Vec<u8> = Vec::new();
        let mut i: usize = 4;
        while i < tokens.len()
            invariant
                4 <= i <= tokens.len(),
                code@ == tokens@.subrange(4, i as int),
            decreases tokens.len() - i,
        {
            code.push(tokens[i]);
            assert(code@ =~= tokens@.subrange(4, i + 1));
            i = i + 1;
        }
        let mut memory: Vec<Option<u8>> = Vec::new();
        while memory.len() < MEMORY_SIZE
            invariant
                memory@.len() <= MEMORY_SIZE,
                forall|j: int| 0 <= j < memory@.len() ==> memory@[j] == None::<u8>,
            decreases MEMORY_SIZE - memory@.len(),
        {
            memory.push(None);
        }
        let vm = VM {
            pc: 0,
            stack: Vec::new(),
            memory,
            call: Vec::new(),
            tokens: code,
            halted: false,
            exit_code: 0,
            in_port,
            out_port,
        };
        assert(vm@.memory =~= loaded(tokens@).memory);
        assert(vm@.code =~= loaded(tokens@).code);
        assert(vm@.stack =~= Seq::<u8>::empty());
        assert(vm@.call =~= Seq::<usize>::empty());
        vm
    }

    /// Moves the program counter to the next byte and reads it; fails where
    /// the stream has no byte there.
    pub fn next_byte(&mut self) -> (r: Result<u8, VmError>)
        requires
            old(self).wf(),
        ensures
            final(self).wf(),
            final(self).in_port == old(self).in_port,
            final(self).out_port == old(self).out_port,
            follows(r, final(self)@, old(self)@.immediate()),
    {
        if self.tokens.len() == 0 || self.tokens.len() - 1 <= self.pc {
            return Err(VmError::UnexpectedEof);
        }
        self.pc = self.pc + 1;
        Ok(self.tokens[self.pc])
    }

    /// Pushes a byte onto the operand stack; fails when it is full.
    pub fn push_stack(&mut self, content: u8) -> (r: Result<(), VmError>)
        requires
            old(self).wf(),
        ensures
            final(self).wf(),
            final(self).in_port == old(self).in_port,
            final(self).out_port == old(self).out_port,
            follows(r, final(self)@, unit(old(self)@.push(content))),
    {
        if STACK_SIZE <= self.stack.len() {
            return Err(VmError::StackOverflow);
        }
        self.stack.push(content);
        Ok(())
    }

    /// Pops the top of the operand stack; fails when it is empty.
    pub fn pop_stack(&mut self) -> (r: Result<u8, VmError>)
        requires
            old(self).wf(),
        ensures
            final(self).wf(),
            final(self).in_port == old(self).in_port,
            final(self).out_port == old(self).out_port,
            follows(r, final(self)@, old(self)@.pop()),
    {
        match self.stack.pop() {
            Some(v) => Ok(v),
            None => Err(VmError::StackUnderflow),
        }
    }

    /// Writes `content` to the memory cell `dst`.
    pub fn store_memory(&mut self, content: u8, dst: usize) -> (r: Result<(), VmError>)
        requires
            old(self).wf(),
        ensures
            final(self).wf(),
            final(self).in_port == old(self).in_port,
            final(self).out_port == old(self).out_port,
            follows(r, final(self)@, unit(old(self)@.store(content, dst))),
    {
        if MEMORY_SIZE <= dst {
            return Err(VmError::InvalidMemoryAccess(dst));
        }
        self.memory.set(dst, Some(content));
        Ok(())
    }

    /// Reads the memory cell `dst`; fails when it was never written.
    pub fn load_memory(&self, dst: usize) -> (r: Result<Option<u8>, VmError>)
        requires
            self.wf(),
        ensures
            match self@.load(dst) {
                Ok(v) => r == Ok::<Option<u8>, VmError>(Some(v)),
                Err((e, _)) => r == Err::<Option<u8>, VmError>(e),
            },
    {
        if MEMORY_SIZE <= dst {
            return Err(VmError::InvalidMemoryAccess(dst));
        }
        match self.memory[dst] {
            Some(content) => Ok(Some(content)),
            None => Err(VmError::UninitializedMemory(dst)),
        }
    }

    /// Pushes a return address onto the call stack; fails when it is full.
    pub fn push_call(&mut self, content: usize) -> (r: Result<(), VmError>)
        requires
            old(self).wf(),
        ensures
            final(self).wf(),
            final(self).in_port == old(self).in_port,
            final(self).out_port == old(self).out_port,
            follows(r, final(self)@, unit(old(self)@.push_call(content))),
    {
        if CALL_SIZE <= self.call.len() {
            return Err(VmError::CallOverflow);
        }
        self.call.push(content);
        Ok(())
    }

    /// Pops the top of the call stack; fails when it is empty.
    pub fn pop_call(&mut self) -> (r: Result<usize, VmError>)
        requires
            old(self).wf(),
        ensures
            final(self).wf(),
            final(self).in_port == old(self).in_port,
            final(self).out_port == old(self).out_port,
            follows(r, final(self)@, old(self)@.pop_call()),
    {
        match self.call.pop() {
            Some(v) => Ok(v),
            None => Err(VmError::CallUnderflow),
        }
    }

    /// Pushes what a read from the input port gave: the byte, or 0 at the
    /// end of the input; a failed read is a system call error.
    pub fn push_input(&mut self, got: ReadOutcome) -> (r: Result<(), VmError>)
        requires
            old(self).wf(),
        ensures
            final(self).wf(),
            final(self).in_port == old(self).in_port,
            final(self).out_port == old(self).out_port,
            follows(r, final(self)@, unit(old(self)@.syscall(0, got, true))),
    {
        match got {
            ReadOutcome::Byte(b) => self.push_stack(b),
            ReadOutcome::End => self.push_stack(0),
            ReadOutcome::Failed => Err(VmError::SysError(SysError::InvalidCharacter)),
        }
    }

    /// System call 0: reads a byte from the input port and pushes it, or 0
    /// at the end of the input.
    pub fn sys_read(&mut self) -> (r: Result<(), VmError>)
        requires
            old(self).wf(),
        ensures
            final(self).wf(),
            final(self).out_port == old(self).out_port,
            exists|input: ReadOutcome|
                follows(r, final(self)@, unit(#[trigger] old(self)@.syscall(0, input, true))),
    {
        let got = self.in_port.read_byte();
        let r = self.push_input(got);
        assert(follows(r, self@, unit(old(self)@.syscall(0, got, true))));
        r
    }

    /// Pops the byte that system call 1 prints and gives it as the character
    /// with that code.
    pub fn take_output(&mut self) -> (r: Result<char, VmError>)
        requires
            old(self).wf(),
        ensures
            final(self).wf(),
            final(self).in_port == old(self).in_port,
            final(self).out_port == old(self).out_port,
            match old(self)@.pop() {
                Ok((m, b)) => r == Ok::<char, VmError>(b as char) && final(self)@ == m,
                Err((e, m)) => r == Err::<char, VmError>(e) && final(self)@ == m,
            },
    {
        let target = self.pop_stack()?;
        Ok(target as char)
    }

    /// System call 1: pops a byte and writes it to the output port as one
    /// character, the one that `take_output` gives.
    pub fn sys_print(&mut self) -> (r: Result<(), VmError>)
        requires
            old(self).wf(),
        ensures
            final(self).wf(),
            final(self).in_port == old(self).in_port,
            old(self)@.stack.len() == 0 ==> final(self).out_port == old(self).out_port,
            exists|written: bool|
                follows(r, final(self)@, unit(#[trigger] old(self)@.syscall(1, ReadOutcome::End, written))),
    {
        let c = self.take_output()?;
        let written = self.out_port.write_char(c);
        if !written {
            assert(follows(Err::<(), VmError>(VmError::SysError(SysError::InvalidCharacter)), self@,
                unit(old(self)@.syscall(1, ReadOutcome::End, false))));
            return Err(VmError::SysError(SysError::InvalidCharacter));
        }
        assert(follows(Ok::<(), VmError>(()), self@, unit(old(self)@.syscall(1, ReadOutcome::End, true))));
        Ok(())
    }

    /// System call 2: reports the operand stack and the memory, as runs of
    /// equal cells, to the output port; the state is left as it was.
    pub fn sys_dump(&mut self)
        requires
            old(self).wf(),
        ensures
            final(self).wf(),
            final(self)@ == old(self)@,
            final(self).in_port == old(self).in_port,
    {
        let runs = memory_runs(&self.memory);
        self.out_port.report_state(&self.stack, &runs);
    }

    /// System call 3: pops the exit code and halts.
    pub fn sys_exit(&mut self) -> (r: Result<(), VmError>)
        requires
            old(self).wf(),
        ensures
            final(self).wf(),
            final(self).in_port == old(self).in_port,
            final(self).out_port == old(self).out_port,
            follows(r, final(self)@, unit(old(self)@.syscall(3, ReadOutcome::End, true))),
    {
        let code = self.pop_stack()?;
        self.exit_code = code;
        self.halted = true;
        Ok(())
    }

    /// Pops `a` and pushes the byte that `op` gives on `a` and `b`.
    fn apply(&mut self, op: OpCode, b: u8) -> (r: Result<(), VmError>)
        requires
            old(self).wf(),
        ensures
            final(self).wf(),
            final(self).in_port == old(self).in_port,
            final(self).out_port == old(self).out_port,
            follows(r, final(self)@, unit(old(self)@.apply(op, b))),
    {
        let a = self.pop_stack()?;
        match compute(op, a, b) {
            None => Err(VmError::DivisionByZero),
            Some(v) => self.push_stack(v),
        }
    }

    /// Pops a byte and stores it at `addr`.
    fn pop_store(&mut self, addr: usize) -> (r: Result<(), VmError>)
        requires
            old(self).wf(),
        ensures
            final(self).wf(),
            final(self).in_port == old(self).in_port,
            final(self).out_port == old(self).out_port,
            follows(r, final(self)@, unit(old(self)@.pop_store(addr))),
    {
        let target = self.pop_stack()?;
        self.store_memory(target, addr)
    }

    /// Loads the byte at `addr` and pushes it.
    fn load_push(&mut self, addr: usize) -> (r: Result<(), VmError>)
        requires
            old(self).wf(),
        ensures
            final(self).wf(),
            final(self).in_port == old(self).in_port,
            final(self).out_port == old(self).out_port,
            follows(r, final(self)@, unit(old(self)@.load_push(addr))),
    {
        let target = match self.load_memory(addr)? {
            Some(v) => v,
            None => {
                return Err(VmError::UninitializedMemory(addr));
            },
        };
        self.push_stack(target)
    }

    /// Executes an instruction other than a system call; the result tells
    /// whether the program counter is still to move past it.
    fn execute_plain(&mut self, op: OpCode) -> (r: Result<bool, VmError>)
        requires
            old(self).wf(),
            op != OpCode::SysCall,
        ensures
            final(self).wf(),
            final(self).in_port == old(self).in_port,
            final(self).out_port == old(self).out_port,
            follows(r, final(self)@, old(self)@.execute(op, ReadOutcome::End, true)),
    {
        match op {
            OpCode::Push => {
                let val = self.next_byte()?;
                self.push_stack(val)?;
            },
            OpCode::Pop => {
                self.pop_stack()?;
            },
            OpCode::Dup => {
                let a = self.pop_stack()?;
                self.push_stack(a)?;
                self.push_stack(a)?;
            },
            OpCode::Swap => {
                let a = self.pop_stack()?;
                let b = self.pop_stack()?;
                self.push_stack(a)?;
                self.push_stack(b)?;
            },
            OpCode::Add | OpCode::Sub | OpCode::Mul | OpCode::Div | OpCode::Mod | OpCode::Eq
            | OpCode::Neq | OpCode::Lt | OpCode::Le | OpCode::Gt | OpCode::Ge => {
                let b = self.pop_stack()?;
                self.apply(op, b)?;
            },
            OpCode::AddI | OpCode::SubI | OpCode::MulI | OpCode::DivI | OpCode::ModI => {
                let b = self.next_byte()?;
                self.apply(op, b)?;
            },
            OpCode::Jz => {
                let flag = self.pop_stack()?;
                let dst = self.next_byte()?;
                if flag == 0 {
                    self.pc = dst as usize;
                    return Ok(false);
                }
            },
            OpCode::Jmz => {
                let dst = self.next_byte()?;
                self.pc = dst as usize;
                return Ok(false);
            },
            OpCode::Store => {
                let dst = self.pop_stack()?;
                self.pop_store(dst as usize)?;
            },
            OpCode::Load => {
                let dst = self.pop_stack()?;
                self.load_push(dst as usize)?;
            },
            OpCode::StoreI => {
                let dst = self.next_byte()?;
                self.pop_store(dst as usize)?;
            },
            OpCode::LoadI => {
                let dst = self.next_byte()?;
                self.load_push(dst as usize)?;
            },
            OpCode::Call => {
                let dst = self.next_byte()?;
                let here = self.pc;
                self.push_call(here)?;
                self.pc = dst as usize;
                return Ok(false);
            },
            OpCode::Ret => {
                let dst = self.pop_call()?;
                self.pc = dst;
            },
            OpCode::Fin => {
                self.halted = true;
                self.exit_code = 0;
            },
            OpCode::SysCall => {},
        }
        Ok(true)
    }

    /// Executes a system call: pops the selector and runs the call it names.
    fn execute_syscall(&mut self) -> (r: Result<bool, VmError>)
        requires
            old(self).wf(),
        ensures
            final(self).wf(),
            exists|input: ReadOutcome, written: bool|
                follows(r, final(self)@, #[trigger] old(self)@.execute(OpCode::SysCall, input, written)),
    {
        let ghost start = self@;
        let n = match self.pop_stack() {
            Ok(n) => n,
            Err(e) => {
                assert(follows(Err::<bool, VmError>(e), self@, start.execute(OpCode::SysCall, ReadOutcome::End, true)));
                return Err(e);
            },
        };
        let ghost mid = self@;
        let r = if n == 0 {
            self.sys_read()
        } else if n == 1 {
            self.sys_print()
        } else if n == 2 {
            self.sys_dump();
            Ok(())
        } else if n == 3 {
            self.sys_exit()
        } else {
            Err(VmError::UnexpectedSysCall(n))
        };
        let ghost (input, written) = choose|input: ReadOutcome, written: bool|
            follows(r, self@, unit(#[trigger] mid.syscall(n, input, written)));
        proof {
            if n == 0 {
                let i = choose|i: ReadOutcome| follows(r, self@, unit(#[trigger] mid.syscall(0, i, true)));
                assert(follows(r, self@, unit(mid.syscall(n, i, true))));
            } else if n == 1 {
                let w = choose|w: bool| follows(r, self@, unit(#[trigger] mid.syscall(1, ReadOutcome::End, w)));
                assert(follows(r, self@, unit(mid.syscall(n, ReadOutcome::End, w))));
            } else {
                assert(follows(r, self@, unit(mid.syscall(n, ReadOutcome::End, true))));
            }
            assert(follows(r, self@, unit(mid.syscall(n, input, written))));
            assert(start.execute(OpCode::SysCall, input, written) == moved(mid.syscall(n, input, written)));
        }
        match r {
            Ok(()) => Ok(true),
            Err(e) => Err(e),
        }
    }

    /// Runs one cycle of a running machine: fetches the byte at the program
    /// counter, decodes and executes it, and moves past it unless it jumped.
    pub fn step(&mut self) -> (r: Result<(), VmError>)
        requires
            old(self).wf(),
            old(self)@.running(),
        ensures
            final(self).wf(),
            match r {
                Ok(()) => old(self)@.steps_to(final(self)@),
                Err(e) => old(self)@.fails_with(e, final(self)@),
            },
    {
        let ghost start = self@;
        let b = self.tokens[self.pc];
        let op = match OpCode::from_u8(b) {
            Some(op) => op,
            None => {
                assert(start.step(ReadOutcome::End, true) == Err::<Machine, (VmError, Machine)>(
                    (VmError::InvalidOpcode(b), self@),
                ));
                return Err(VmError::InvalidOpcode(b));
            },
        };
        let moves = if op == OpCode::SysCall {
            self.execute_syscall()
        } else {
            self.execute_plain(op)
        };
        let ghost (input, written) = if op == OpCode::SysCall {
            choose|input: ReadOutcome, written: bool|
                follows(moves, self@, #[trigger] start.execute(op, input, written))
        } else {
            (ReadOutcome::End, true)
        };
        assert(follows(moves, self@, start.execute(op, input, written)));
        match moves {
            Err(e) => {
                assert(start.step(input, written) == Err::<Machine, (VmError, Machine)>((e, self@)));
                Err(e)
            },
            Ok(adv) => {
                if adv {
                    if self.pc < usize::MAX {
                        self.pc = self.pc + 1;
                    }
                }
                assert(start.step(input, written) == Ok::<Machine, (VmError, Machine)>(self@));
                Ok(())
            },
        }
    }

    /// Runs the machine until it halts, its program counter leaves the
    /// stream, or an instruction fails. A run that has done `u64::MAX`
    /// cycles without stopping returns as well, still running.
    pub fn run(&mut self) -> (r: Result<(), VmError>)
        requires
            old(self).wf(),
        ensures
            final(self).wf(),
            ran(old(self)@, r, final(self)@),
    {
        let ghost start = self@;
        let ghost mut n: nat = 0;
        let mut left: u64 = u64::MAX;
        while !self.halted && self.pc < self.tokens.len()
            invariant
                self.wf(),
                start == old(self)@,
                start.reaches(self@, n),
                n + left == u64::MAX,
            decreases left,
        {
            if left == 0 {
                assert(old(self)@.reaches(self@, n));
                return Ok(());
            }
            let ghost before = self@;
            match self.step() {
                Ok(()) => {},
                Err(e) => {
                    assert(old(self)@.reaches(before, n) && before.fails_with(e, self@));
                    return Err(e);
                },
            }
            proof {
                assert(start.reaches(before, n) && before.steps_to(self@));
                lemma_reaches_extend(start, before, self@, n);
                n = n + 1;
            }
            left = left - 1;
        }
        assert(old(self)@.reaches(self@, n));
        Ok(())
    }
}

/// The cells of `memory` as runs of equal values in order, each with its
/// length.
pub open spec fn runs(memory: Seq<Option<u8>>) -> Seq<(Option<u8>, usize)>
    decreases memory.len(),
{
    if memory.len() == 0 {
        Seq::empty()
    } else {
        let before = runs(memory.drop_last());
        let c = memory.last();
        if before.len() > 0 && before.last().0 == c {
            before.update(before.len() - 1, (c, (before.last().1 + 1) as usize))
        } else {
            before.push((c, 1usize))
        }
    }
}

/// Every run of `runs(memory)` is at most as long as `memory`.
proof fn lemma_runs_bounded(memory: Seq<Option<u8>>)
    requires
        memory.len() <= usize::MAX,
    ensures
        forall|j: int| 0 <= j < runs(memory).len() ==> #[trigger] runs(memory)[j].1 <= memory.len(),
    decreases memory.len(),
{
    if memory.len() > 0 {
        let pre = memory.drop_last();
        lemma_runs_bounded(pre);
        let before = runs(pre);
        if before.len() > 0 && before.last().0 == memory.last() {
            assert(before[before.len() - 1].1 <= pre.len());
        }
    }
}

/// Splits `memory` into runs of equal cells.
pub fn memory_runs(memory: &Vec<Option<u8>>) -> (r: Vec<(Option<u8>, usize)>)
    ensures
        r@ == runs(memory@),
{
    let mut out: Vec<(Option<u8>, usize)> = Vec::new();
    let mut i: usize = 0;
    while i < memory.len()
        invariant
            i <= memory@.len(),
            out@ == runs(memory@.subrange(0, i as int)),
        decreases memory.len() - i,
    {
        let c = memory[i];
        proof {
            let pre = memory@.subrange(0, i as int);
            assert(memory@.subrange(0, i + 1).drop_last() =~= pre);
            lemma_runs_bounded(pre);
            if out@.len() > 0 {
                assert(out@[out@.len() - 1].1 <= i);
            }
        }
        let n = out.len();
        if n > 0 && out[n - 1].0 == c {
            let k = out[n - 1].1;
            out.set(n - 1, (c, k + 1));
        } else {
            out.push((c, 1));
        }
        i = i + 1;
    }
    assert(memory@.subrange(0, memory@.len() as int) =~= memory@);
    out
}

/// A call jumps to its target and leaves on the call stack the address of
/// its own immediate byte; a later return, with the call stack as the call
/// left it, resumes at the instruction right after the call.
pub proof fn lemma_call_then_ret(m: Machine, sub: Machine, input: ReadOutcome, written: bool)
    requires
        m.running(),
        m.code.len() <= usize::MAX,
        m.code[m.pc as int] == OpCode::Call.to_u8(),
        m.pc + 1 < m.code.len(),
        m.call.len() < CALL_SIZE,
        sub.running(),
        sub.code[sub.pc as int] == OpCode::Ret.to_u8(),
        sub.call == m.call.push((m.pc + 1) as usize),
    ensures
        m.step(input, written) matches Ok(entered) && entered.pc == m.code[m.pc + 1] as usize
            && entered.call == sub.call && entered.stack == m.stack && entered.memory
            == m.memory,
        sub.step(input, written) matches Ok(back) && back.pc == m.pc + 2 && back.call == m.call,
{
    lemma_decode_to_u8(OpCode::Call);
    lemma_decode_to_u8(OpCode::Ret);
    assert(sub.call.drop_last() =~= m.call);
}

/// A `Pop` on an empty operand stack fails with a stack underflow and
/// leaves the state as it was.
pub proof fn lemma_pop_empty_fails(m: Machine, input: ReadOutcome, written: bool)
    requires
        m.running(),
        m.code[m.pc as int] == OpCode::Pop.to_u8(),
        m.stack.len() == 0,
    ensures
        m.step(input, written) == Err::<Machine, (VmError, Machine)>((VmError::StackUnderflow, m)),
{
    lemma_decode_to_u8(OpCode::Pop);
}

/// A `Div` whose divisor on top of the stack is zero fails with a division
/// by zero, not a saturated quotient: both operands are gone and nothing is
/// pushed.
pub proof fn lemma_div_by_zero_fails(m: Machine, rest: Seq<u8>, a: u8, input: ReadOutcome, written: bool)
    requires
        m.running(),
        m.code[m.pc as int] == OpCode::Div.to_u8(),
        m.stack == rest.push(a).push(0),
    ensures
        m.step(input, written) == Err::<Machine, (VmError, Machine)>(
            (VmError::DivisionByZero, m.with_stack(rest)),
        ),
{
    lemma_decode_to_u8(OpCode::Div);
    assert(m.stack.drop_last() == rest.push(a));
    assert(rest.push(a).drop_last() == rest);
}

/// A `Load` from a cell never written fails with an uninitialized-memory
/// error for that address, not an out-of-range one, and pushes nothing.
pub proof fn lemma_load_unwritten_fails(m: Machine, rest: Seq<u8>, addr: u8, input: ReadOutcome, written: bool)
    requires
        m.running(),
        m.code[m.pc as int] == OpCode::Load.to_u8(),
        m.stack == rest.push(addr),
        m.memory.len() == MEMORY_SIZE,
        m.memory[addr as int] is None,
    ensures
        m.step(input, written) == Err::<Machine, (VmError, Machine)>(
            (VmError::UninitializedMemory(addr as usize), m.with_stack(rest)),
        ),
{
    lemma_decode_to_u8(OpCode::Load);
    assert(m.stack.drop_last() == rest);
}

/// The same for `LoadI`, whose address is its immediate byte.
pub proof fn lemma_load_immediate_unwritten_fails(m: Machine, input: ReadOutcome, written: bool)
    requires
        m.running(),
        m.code[m.pc as int] == OpCode::LoadI.to_u8(),
        m.pc + 1 < m.code.len(),
        m.memory.len() == MEMORY_SIZE,
        m.memory[m.code[m.pc + 1] as int] is None,
    ensures
        m.step(input, written) == Err::<Machine, (VmError, Machine)>(
            (VmError::UninitializedMemory(m.code[m.pc + 1] as usize), m.with_pc((m.pc + 1) as usize)),
        ),
{
    lemma_decode_to_u8(OpCode::LoadI);
}

} // verus!
