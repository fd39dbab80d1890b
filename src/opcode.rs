//! The instruction set: each opcode with its byte and its mnemonic.

use vstd::prelude::*;

use crate::text::{chars_of, same_chars, upper_of, uppercase};

verus! {

/// One instruction of the machine. Each has a unique byte in the image and a
/// mnemonic in assembly source.
#[derive(Debug, Clone, Copy, PartialEq, Eq, Structural)]
pub enum OpCode {
    SysCall,
    Push,
    Pop,
    Dup,
    Swap,
    Add,
    Sub,
    Mul,
    Div,
    Mod,
    AddI,
    SubI,
    MulI,
    DivI,
    ModI,
    Eq,
    Neq,
    Lt,
    Le,
    Gt,
    Ge,
    Jz,
    Jmz,
    Store,
    Load,
    StoreI,
    LoadI,
    Call,
    Ret,
    Fin,
}

impl OpCode {
    /// The byte that encodes this opcode.
    pub open spec fn spec_to_u8(self) -> u8 {
        match self {
            OpCode::SysCall => 0x00,
            OpCode::Push => 0x01,
            OpCode::Pop => 0x02,
            OpCode::Dup => 0x03,
            OpCode::Swap => 0x04,
            OpCode::Add => 0x10,
            OpCode::Sub => 0x11,
            OpCode::Mul => 0x12,
            OpCode::Div => 0x13,
            OpCode::Mod => 0x14,
            OpCode::AddI => 0x15,
            OpCode::SubI => 0x16,
            OpCode::MulI => 0x17,
            OpCode::DivI => 0x18,
            OpCode::ModI => 0x19,
            OpCode::Eq => 0x1A,
            OpCode::Neq => 0x1B,
            OpCode::Lt => 0x1C,
            OpCode::Le => 0x1D,
            OpCode::Gt => 0x1E,
            OpCode::Ge => 0x1F,
            OpCode::Jz => 0x20,
            OpCode::Jmz => 0x21,
            OpCode::Store => 0x30,
            OpCode::Load => 0x31,
            OpCode::StoreI => 0x32,
            OpCode::LoadI => 0x33,
            OpCode::Call => 0x40,
            OpCode::Ret => 0x41,
            OpCode::Fin => 0xFF,
        }
    }

    /// The opcode that a byte encodes, if any.
    pub open spec fn decode(n: u8) -> Option<OpCode> {
        if n == 0x00 {
            Some(OpCode::SysCall)
        } else if n == 0x01 {
            Some(OpCode::Push)
        } else if n == 0x02 {
            Some(OpCode::Pop)
        } else if n == 0x03 {
            Some(OpCode::Dup)
        } else if n == 0x04 {
            Some(OpCode::Swap)
        } else if n == 0x10 {
            Some(OpCode::Add)
        } else if n == 0x11 {
            Some(OpCode::Sub)
        } else if n == 0x12 {
            Some(OpCode::Mul)
        } else if n == 0x13 {
            Some(OpCode::Div)
        } else if n == 0x14 {
            Some(OpCode::Mod)
        } else if n == 0x15 {
            Some(OpCode::AddI)
        } else if n == 0x16 {
            Some(OpCode::SubI)
        } else if n == 0x17 {
            Some(OpCode::MulI)
        } else if n == 0x18 {
            Some(OpCode::DivI)
        } else if n == 0x19 {
            Some(OpCode::ModI)
        } else if n == 0x1A {
            Some(OpCode::Eq)
        } else if n == 0x1B {
            Some(OpCode::Neq)
        } else if n == 0x1C {
            Some(OpCode::Lt)
        } else if n == 0x1D {
            Some(OpCode::Le)
        } else if n == 0x1E {
            Some(OpCode::Gt)
        } else if n == 0x1F {
            Some(OpCode::Ge)
        } else if n == 0x20 {
            Some(OpCode::Jz)
        } else if n == 0x21 {
            Some(OpCode::Jmz)
        } else if n == 0x30 {
            Some(OpCode::Store)
        } else if n == 0x31 {
            Some(OpCode::Load)
        } else if n == 0x32 {
            Some(OpCode::StoreI)
        } else if n == 0x33 {
            Some(OpCode::LoadI)
        } else if n == 0x40 {
            Some(OpCode::Call)
        } else if n == 0x41 {
            Some(OpCode::Ret)
        } else if n == 0xFF {
            Some(OpCode::Fin)
        } else {
            None
        }
    }

    /// The opcode whose upper-case mnemonic is `t`, if any.
    pub open spec fn named(t: Seq<char>) -> Option<OpCode> {
        if t == "SYSCALL"@ {
            Some(OpCode::SysCall)
        } else if t == "PUSH"@ {
            Some(OpCode::Push)
        } else if t == "POP"@ {
            Some(OpCode::Pop)
        } else if t == "DUP"@ {
            Some(OpCode::Dup)
        } else if t == "SWAP"@ {
            Some(OpCode::Swap)
        } else if t == "ADD"@ {
            Some(OpCode::Add)
        } else if t == "SUB"@ {
            Some(OpCode::Sub)
        } else if t == "MUL"@ {
            Some(OpCode::Mul)
        } else if t == "DIV"@ {
            Some(OpCode::Div)
        } else if t == "MOD"@ {
            Some(OpCode::Mod)
        } else if t == "ADDI"@ {
            Some(OpCode::AddI)
        } else if t == "SUBI"@ {
            Some(OpCode::SubI)
        } else if t == "MULI"@ {
            Some(OpCode::MulI)
        } else if t == "DIVI"@ {
            Some(OpCode::DivI)
        } else if t == "MODI"@ {
            Some(OpCode::ModI)
        } else if t == "EQ"@ {
            Some(OpCode::Eq)
        } else if t == "NEQ"@ {
            Some(OpCode::Neq)
        } else if t == "LT"@ {
            Some(OpCode::Lt)
        } else if t == "LE"@ {
            Some(OpCode::Le)
        } else if t == "GT"@ {
            Some(OpCode::Gt)
        } else if t == "GE"@ {
            Some(OpCode::Ge)
        } else if t == "JZ"@ {
            Some(OpCode::Jz)
        } else if t == "JMZ"@ {
            Some(OpCode::Jmz)
        } else if t == "STORE"@ {
            Some(OpCode::Store)
        } else if t == "LOAD"@ {
            Some(OpCode::Load)
        } else if t == "STOREI"@ {
            Some(OpCode::StoreI)
        } else if t == "LOADI"@ {
            Some(OpCode::LoadI)
        } else if t == "CALL"@ {
            Some(OpCode::Call)
        } else if t == "RET"@ {
            Some(OpCode::Ret)
        } else if t == "FIN"@ {
            Some(OpCode::Fin)
        } else {
            None
        }
    }

    /// The byte that encodes this opcode.
    #[verifier::when_used_as_spec(spec_to_u8)]
    pub fn to_u8(self) -> (r: u8)
        ensures
            r == self.spec_to_u8(),
    {
        match self {
            OpCode::SysCall => 0x00,
            OpCode::Push => 0x01,
            OpCode::Pop => 0x02,
            OpCode::Dup => 0x03,
            OpCode::Swap => 0x04,
            OpCode::Add => 0x10,
            OpCode::Sub => 0x11,
            OpCode::Mul => 0x12,
            OpCode::Div => 0x13,
            OpCode::Mod => 0x14,
            OpCode::AddI => 0x15,
            OpCode::SubI => 0x16,
            OpCode::MulI => 0x17,
            OpCode::DivI => 0x18,
            OpCode::ModI => 0x19,
            OpCode::Eq => 0x1A,
            OpCode::Neq => 0x1B,
            OpCode::Lt => 0x1C,
            OpCode::Le => 0x1D,
            OpCode::Gt => 0x1E,
            OpCode::Ge => 0x1F,
            OpCode::Jz => 0x20,
            OpCode::Jmz => 0x21,
            OpCode::Store => 0x30,
            OpCode::Load => 0x31,
            OpCode::StoreI => 0x32,
            OpCode::LoadI => 0x33,
            OpCode::Call => 0x40,
            OpCode::Ret => 0x41,
            OpCode::Fin => 0xFF,
        }
    }

    /// Decodes a byte; `None` for a byte that encodes no opcode.
    pub fn from_u8(n: u8) -> (r: Option<Self>)
        ensures
            r == OpCode::decode(n),
    {
        match n {
            0x00 => Some(OpCode::SysCall),
            0x01 => Some(OpCode::Push),
            0x02 => Some(OpCode::Pop),
            0x03 => Some(OpCode::Dup),
            0x04 => Some(OpCode::Swap),
            0x10 => Some(OpCode::Add),
            0x11 => Some(OpCode::Sub),
            0x12 => Some(OpCode::Mul),
            0x13 => Some(OpCode::Div),
            0x14 => Some(OpCode::Mod),
            0x15 => Some(OpCode::AddI),
            0x16 => Some(OpCode::SubI),
            0x17 => Some(OpCode::MulI),
            0x18 => Some(OpCode::DivI),
            0x19 => Some(OpCode::ModI),
            0x1A => Some(OpCode::Eq),
            0x1B => Some(OpCode::Neq),
            0x1C => Some(OpCode::Lt),
            0x1D => Some(OpCode::Le),
            0x1E => Some(OpCode::Gt),
            0x1F => Some(OpCode::Ge),
            0x20 => Some(OpCode::Jz),
            0x21 => Some(OpCode::Jmz),
            0x30 => Some(OpCode::Store),
            0x31 => Some(OpCode::Load),
            0x32 => Some(OpCode::StoreI),
            0x33 => Some(OpCode::LoadI),
            0x40 => Some(OpCode::Call),
            0x41 => Some(OpCode::Ret),
            0xFF => Some(OpCode::Fin),
            _ => None,
        }
    }

    /// Looks up a mnemonic, in any case.
    pub fn from_str(s: &str) -> (r: Option<Self>)
        ensures
            r == OpCode::named(upper_of(s@)),
    {
        let up = uppercase(s);
        let t = chars_of(up.as_str());
        OpCode::from_mnemonic(&t)
    }

    /// Looks up an upper-case mnemonic, exactly as written.
    pub fn from_mnemonic(t: &Vec<char>) -> (r: Option<Self>)
        ensures
            r == OpCode::named(t@),
    {
        if same_chars(t, "SYSCALL") {
            return Some(OpCode::SysCall);
        }
        if same_chars(t, "PUSH") {
            return Some(OpCode::Push);
        }
        if same_chars(t, "POP") {
            return Some(OpCode::Pop);
        }
        if same_chars(t, "DUP") {
            return Some(OpCode::Dup);
        }
        if same_chars(t, "SWAP") {
            return Some(OpCode::Swap);
        }
        if same_chars(t, "ADD") {
            return Some(OpCode::Add);
        }
        if same_chars(t, "SUB") {
            return Some(OpCode::Sub);
        }
        if same_chars(t, "MUL") {
            return Some(OpCode::Mul);
        }
        if same_chars(t, "DIV") {
            return Some(OpCode::Div);
        }
        if same_chars(t, "MOD") {
            return Some(OpCode::Mod);
        }
        if same_chars(t, "ADDI") {
            return Some(OpCode::AddI);
        }
        if same_chars(t, "SUBI") {
            return Some(OpCode::SubI);
        }
        if same_chars(t, "MULI") {
            return Some(OpCode::MulI);
        }
        if same_chars(t, "DIVI") {
            return Some(OpCode::DivI);
        }
        if same_chars(t, "MODI") {
            return Some(OpCode::ModI);
        }
        if same_chars(t, "EQ") {
            return Some(OpCode::Eq);
        }
        if same_chars(t, "NEQ") {
            return Some(OpCode::Neq);
        }
        if same_chars(t, "LT") {
            return Some(OpCode::Lt);
        }
        if same_chars(t, "LE") {
            return Some(OpCode::Le);
        }
        if same_chars(t, "GT") {
            return Some(OpCode::Gt);
        }
        if same_chars(t, "GE") {
            return Some(OpCode::Ge);
        }
        if same_chars(t, "JZ") {
            return Some(OpCode::Jz);
        }
        if same_chars(t, "JMZ") {
            return Some(OpCode::Jmz);
        }
        if same_chars(t, "STORE") {
            return Some(OpCode::Store);
        }
        if same_chars(t, "LOAD") {
            return Some(OpCode::Load);
        }
        if same_chars(t, "STOREI") {
            return Some(OpCode::StoreI);
        }
        if same_chars(t, "LOADI") {
            return Some(OpCode::LoadI);
        }
        if same_chars(t, "CALL") {
            return Some(OpCode::Call);
        }
        if same_chars(t, "RET") {
            return Some(OpCode::Ret);
        }
        if same_chars(t, "FIN") {
            return Some(OpCode::Fin);
        }
        None
    }
}

/// Decoding the byte of an opcode gives the opcode back.
pub proof fn lemma_decode_to_u8(op: OpCode)
    ensures
        OpCode::decode(op.to_u8()) == Some(op),
{
}

} // verus!
