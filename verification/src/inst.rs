use vstd::prelude::*;

verus! {

/// One instruction of the eight-symbol tape language. Every other source byte
/// is a comment and never reaches the instruction stream.
#[derive(Clone, Copy, PartialEq, Eq, Structural, Debug)]
pub enum Instruction {
    /// `>`: move the cursor one cell to the right, growing the tape on demand.
    Advance,
    /// `<`: move the cursor one cell to the left; a no-op at cell zero.
    Retreat,
    /// `+`: wrapping increment of the cell under the cursor.
    Increment,
    /// `-`: wrapping decrement of the cell under the cursor.
    Decrement,
    /// `.`: write the cell under the cursor to the output channel.
    Output,
    /// `,`: read one byte into the cell under the cursor; at end of input the
    /// cell is left unchanged.
    Input,
    /// `[`: jump to the matching `BranchIfNonzero` when the cell is zero.
    BranchIfZero,
    /// `]`: jump back to the matching `BranchIfZero` when the cell is nonzero.
    BranchIfNonzero,
}

/// The instruction a source byte stands for, if any.
pub open spec fn instruction_of(b: u8) -> Option<Instruction> {
    if b == 62 {
        Some(Instruction::Advance)
    } else if b == 60 {
        Some(Instruction::Retreat)
    } else if b == 43 {
        Some(Instruction::Increment)
    } else if b == 45 {
        Some(Instruction::Decrement)
    } else if b == 46 {
        Some(Instruction::Output)
    } else if b == 44 {
        Some(Instruction::Input)
    } else if b == 91 {
        Some(Instruction::BranchIfZero)
    } else if b == 93 {
        Some(Instruction::BranchIfNonzero)
    } else {
        None
    }
}

/// Whether an instruction is one of the two bracket branches.
pub open spec fn is_branch(i: Instruction) -> bool {
    i is BranchIfZero || i is BranchIfNonzero
}

/// Decode one source byte.
pub fn parse_byte(b: u8) -> (r: Option<Instruction>)
    ensures
        r == instruction_of(b),
{
    match b {
        62 => Some(Instruction::Advance),
        60 => Some(Instruction::Retreat),
        43 => Some(Instruction::Increment),
        45 => Some(Instruction::Decrement),
        46 => Some(Instruction::Output),
        44 => Some(Instruction::Input),
        91 => Some(Instruction::BranchIfZero),
        93 => Some(Instruction::BranchIfNonzero),
        _ => None,
    }
}

} // verus!
