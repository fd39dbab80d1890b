//! The machine's two links to the outside world: a source of bytes and a sink
//! of characters. Whoever runs the machine supplies both.

use vstd::prelude::*;

verus! {

/// What one read from an input port gave.
#[derive(Debug, Clone, Copy, PartialEq, Eq, Structural)]
pub enum ReadOutcome {
    /// One byte was read.
    Byte(u8),
    /// The input has no more bytes.
    End,
    /// The read failed.
    Failed,
}

/// A source of bytes, read one at a time.
pub trait InputPort {
    /// Reads the next byte; may block until one is available.
    fn read_byte(&mut self) -> ReadOutcome;
}

/// A sink for the characters that a program prints, and for reports of the
/// machine's state.
pub trait OutputPort {
    /// Writes one character; `false` when the write failed.
    fn write_char(&mut self, c: char) -> bool;

    /// Receives a report of the operand stack (bottom first) and of memory,
    /// as runs of equal cells in address order, each with its length.
    fn report_state(&mut self, stack: &Vec<u8>, memory: &Vec<(Option<u8>, usize)>);
}

/// An input port with no bytes: every read gives the end of the input.
pub struct EmptyInput;

impl InputPort for EmptyInput {
    fn read_byte(&mut self) -> ReadOutcome {
        ReadOutcome::End
    }
}

/// An input port that gives the bytes of a buffer in order, then the end of
/// the input.
pub struct BufferInput {
    pub bytes: Vec<u8>,
    pub pos: usize,
}

impl BufferInput {
    pub fn new(bytes: Vec<u8>) -> (r: Self)
        ensures
            r.bytes@ == bytes@,
            r.pos == 0,
    {
        BufferInput { bytes, pos: 0 }
    }
}

impl InputPort for BufferInput {
    fn read_byte(&mut self) -> ReadOutcome {
        if self.pos < self.bytes.len() {
            let b = self.bytes[self.pos];
            self.pos = self.pos + 1;
            ReadOutcome::Byte(b)
        } else {
            ReadOutcome::End
        }
    }
}

/// An output port that accepts and drops everything.
pub struct Sink;

impl OutputPort for Sink {
    fn write_char(&mut self, c: char) -> bool {
        true
    }

    fn report_state(&mut self, stack: &Vec<u8>, memory: &Vec<(Option<u8>, usize)>) {
    }
}

/// An output port that keeps the characters written and counts the reports.
pub struct BufferOutput {
    pub text: Vec<char>,
    pub reports: usize,
}

impl BufferOutput {
    pub fn new() -> (r: Self)
        ensures
            r.text@.len() == 0,
            r.reports == 0,
    {
        BufferOutput { text: Vec::new(), reports: 0 }
    }
}

impl OutputPort for BufferOutput {
    fn write_char(&mut self, c: char) -> bool {
        self.text.push(c);
        true
    }

    fn report_state(&mut self, stack: &Vec<u8>, memory: &Vec<(Option<u8>, usize)>) {
        if self.reports < usize::MAX {
            self.reports = self.reports + 1;
        }
    }
}

} // verus!
