use vstd::prelude::*;

verus! {

/// Errors reported by the virtual machine. `ProgramTooLarge` is a load-time
/// error; the others are execution-time errors that are fatal to the current
/// run: the engine halts and never skips a bad instruction.
#[derive(Clone, Copy, Debug, PartialEq, Eq, Structural)]
pub enum EngineError {
    /// The program does not fit in the 2048 bytes above the reserved region.
    ProgramTooLarge,
    /// An instruction fetch ran past the end of addressable memory.
    MemoryFault,
    /// A call was made with the 16-entry call stack already full.
    StackOverflow,
    /// A return was executed with the call stack empty.
    StackUnderflow,
    /// The fetched word matches no opcode of the instruction set.
    IllegalInstruction,
    /// A decoded operand is outside the range its operation accepts.
    InvalidOperand,
}

/// What a successful step did: either one instruction was executed, or the
/// engine yielded back to the caller without advancing ("idle, call again").
#[derive(Clone, Copy, Debug, PartialEq, Eq, Structural)]
pub enum StepOutcome {
    /// One instruction was fetched, decoded and executed.
    Executed,
    /// Not enough wall-clock time has elapsed for the next cycle.
    Paced,
    /// The machine is in the await-key state and no new key is down yet.
    AwaitingKey,
}

impl EngineError {
    /// A short human-readable description of the error.
    pub fn message(&self) -> (s: &'static str) {
        match self {
            EngineError::ProgramTooLarge => "the program is too large to fit into memory",
            EngineError::MemoryFault => "instruction fetch past the end of memory",
            EngineError::StackOverflow => "call stack overflow",
            EngineError::StackUnderflow => "return with an empty call stack",
            EngineError::IllegalInstruction => "illegal instruction",
            EngineError::InvalidOperand => "operand out of range",
        }
    }
}

} // verus!
