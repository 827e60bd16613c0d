use vstd::prelude::*;

use crate::inst::Instruction;
use crate::machine::{ExecutionState, IoChannel, IoV, MachineV};
use crate::step::{interp_step, step_spec, write_cur, StepOutcome};

verus! {

/// One recorded pass of the interpreter step: the program point it entered
/// at, the instruction it executed, and whether the cell under the cursor
/// was zero — the control-flow assumption a compiled unit will guard on.
pub struct RawTrace {
    pub entry_pc: usize,
    pub insn: Instruction,
    pub cell_was_zero: bool,
}

/// Why a recorded trace could not be compiled.
#[derive(Clone, Copy, PartialEq, Eq, Structural, Debug)]
pub enum CompileError {
    /// The trace holds an operation the backend cannot represent: the
    /// blocking byte transfers of the input and output instructions.
    Unrepresentable,
}

/// What executing a compiled unit reported: the unit ran to completion, or a
/// guard found a recording-time assumption broken and the state must be
/// discarded by the caller.
#[derive(Clone, Copy, PartialEq, Eq, Structural, Debug)]
pub enum GuardResult {
    Completed,
    GuardFailed,
}

/// An executable unit compiled from a recorded trace, tied to the program
/// point it was recorded at and to the assumptions captured while recording.
#[derive(Clone, Copy)]
pub struct CompiledUnit {
    pub entry_pc: usize,
    pub insn: Instruction,
    pub cell_was_zero: bool,
}

/// The backend can represent every tape operation, but not the blocking byte
/// transfers of the channel instructions.
pub open spec fn representable(i: Instruction) -> bool {
    !(i is Input || i is Output)
}

/// Record one pass of the interpreter step into a raw trace: the step
/// executes exactly as it would have under plain interpretation, and the
/// trace logs what was observed. Recording stops on every exit path; there
/// is never more than one recording in flight.
pub fn record(state: &mut ExecutionState, io: &mut IoChannel) -> (r: (RawTrace, StepOutcome))
    requires
        old(state)@.wf(),
        !old(state)@.halted(),
    ensures
        final(state)@ == step_spec(old(state)@, old(io)@).0,
        final(io)@ == step_spec(old(state)@, old(io)@).1,
        final(state)@.wf(),
        r.1 is Halted <==> final(state)@.halted(),
        r.0.entry_pc == old(state)@.pc,
        r.0.insn == old(state)@.prog[old(state)@.pc as int],
        r.0.cell_was_zero == (old(state)@.cur_cell() == 0),
{
    let entry_pc = state.pc;
    let insn = state.prog[state.pc];
    let cell_was_zero = state.read_cur() == 0;
    let outcome = interp_step(state, io);
    (RawTrace { entry_pc, insn, cell_was_zero }, outcome)
}

/// Compile a raw trace into an executable unit, or report that the trace
/// holds an operation the backend cannot represent.
pub fn compile_trace(t: &RawTrace) -> (r: Result<CompiledUnit, CompileError>)
    ensures
        r is Ok <==> representable(t.insn),
        r matches Ok(u) ==> u.entry_pc == t.entry_pc && u.insn == t.insn && u.cell_was_zero
            == t.cell_was_zero,
{
    match t.insn {
        Instruction::Input => Err(CompileError::Unrepresentable),
        Instruction::Output => Err(CompileError::Unrepresentable),
        _ => Ok(CompiledUnit { entry_pc: t.entry_pc, insn: t.insn, cell_was_zero: t.cell_was_zero }),
    }
}

/// The unit's guards against the current machine: it is entered at the point
/// it was recorded for, over the instruction it recorded, and any branch
/// goes the way it went while recording.
pub open spec fn guards_hold(u: CompiledUnit, m: MachineV) -> bool {
    &&& m.pc == u.entry_pc
    &&& m.prog[m.pc as int] == u.insn
    &&& representable(u.insn)
    &&& crate::inst::is_branch(u.insn) ==> ((m.cur_cell() == 0) <==> u.cell_was_zero)
}

impl CompiledUnit {
    /// Run the unit against the state. On `Completed` the state reflects
    /// exactly the effect of re-running the recorded instruction under the
    /// interpreter — and the channel is untouched, since no channel
    /// operation is representable. On `GuardFailed` the state may be
    /// partially updated and the caller must discard it and restore its
    /// snapshot. Completion is owed exactly when every guard holds.
    pub fn execute(&self, state: &mut ExecutionState) -> (r: GuardResult)
        requires
            old(state)@.wf(),
            !old(state)@.halted(),
        ensures
            r is Completed <==> guards_hold(*self, old(state)@),
            r is Completed ==> final(state)@.wf() && forall|io: IoV|
                #[trigger] step_spec(old(state)@, io) == (final(state)@, io),
    {
        if state.pc != self.entry_pc {
            return GuardResult::GuardFailed;
        }
        let insn = state.prog[state.pc];
        if insn != self.insn {
            return GuardResult::GuardFailed;
        }
        let ghost m0 = state@;
        // Pins the stream length into usize range for the program-counter
        // bound checks below.
        let n = state.prog.len();
        match insn {
            Instruction::Advance => {
                if state.ptr == state.cells.len() {
                    if state.ptr < usize::MAX {
                        state.cells.push(0);
                        state.ptr = state.ptr + 1;
                    }
                } else {
                    state.ptr = state.ptr + 1;
                }
            },
            Instruction::Retreat => {
                if state.ptr > 0 {
                    state.ptr = state.ptr - 1;
                }
            },
            Instruction::Increment => {
                let v = state.read_cur();
                let w = if v == 255 {
                    0
                } else {
                    v + 1
                };
                if state.ptr < state.cells.len() {
                    state.cells.set(state.ptr, w);
                } else if state.cells.len() < usize::MAX {
                    state.cells.push(w);
                }
                proof {
                    assert(state@.cells =~= write_cur(m0, crate::step::wrap_inc(m0.cur_cell())));
                }
            },
            Instruction::Decrement => {
                let v = state.read_cur();
                let w = if v == 0 {
                    255
                } else {
                    v - 1
                };
                if state.ptr < state.cells.len() {
                    state.cells.set(state.ptr, w);
                } else if state.cells.len() < usize::MAX {
                    state.cells.push(w);
                }
                proof {
                    assert(state@.cells =~= write_cur(m0, crate::step::wrap_dec(m0.cur_cell())));
                }
            },
            Instruction::Output => {
                return GuardResult::GuardFailed;
            },
            Instruction::Input => {
                return GuardResult::GuardFailed;
            },
            Instruction::BranchIfZero => {
                let zero = state.read_cur() == 0;
                if zero != self.cell_was_zero {
                    return GuardResult::GuardFailed;
                }
                if zero {
                    state.pc = state.jumps[state.pc];
                }
            },
            Instruction::BranchIfNonzero => {
                let zero = state.read_cur() == 0;
                if zero != self.cell_was_zero {
                    return GuardResult::GuardFailed;
                }
                if !zero {
                    state.pc = state.jumps[state.pc];
                }
            },
        }
        state.pc = state.pc + 1;
        proof {
            assert forall|io: IoV| #[trigger] step_spec(m0, io) == (state@, io) by {
                assert(step_spec(m0, io).0 =~= state@);
                assert(step_spec(m0, io).1 =~= io);
            }
        }
        GuardResult::Completed
    }
}

} // verus!
