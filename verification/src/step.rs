use vstd::prelude::*;

use crate::inst::Instruction;
use crate::machine::{ExecutionState, IoChannel, IoV, MachineV};

verus! {

/// What one interpreter step reported: the run goes on, or the program
/// counter ran off the end of the instruction stream.
#[derive(Clone, Copy, PartialEq, Eq, Structural, Debug)]
pub enum StepOutcome {
    Continue,
    Halted,
}

/// Eight-bit wrapping increment: 255 wraps to 0.
pub open spec fn wrap_inc(v: u8) -> u8 {
    if v == 255 {
        0
    } else {
        (v + 1) as u8
    }
}

/// Eight-bit wrapping decrement: 0 wraps to 255.
pub open spec fn wrap_dec(v: u8) -> u8 {
    if v == 0 {
        255
    } else {
        (v - 1) as u8
    }
}

/// The tape after writing `v` at the cursor. A cursor one past the last cell
/// first materialises the zero cell it rests on; a tape that already holds
/// `usize::MAX` cells cannot exist in memory, and the write saturates there.
pub open spec fn write_cur(m: MachineV, v: u8) -> Seq<u8> {
    if m.ptr < m.cells.len() {
        m.cells.update(m.ptr as int, v)
    } else if m.cells.len() < usize::MAX {
        m.cells.push(v)
    } else {
        m.cells
    }
}

/// The machine and channel after executing exactly one instruction at the
/// program counter. Jumps land on the matching bracket itself; the final
/// increment of the program counter then moves past it.
pub open spec fn step_spec(m: MachineV, io: IoV) -> (MachineV, IoV)
    recommends
        m.wf(),
        !m.halted(),
{
    match m.prog[m.pc as int] {
        Instruction::Advance => {
            let cells = if m.ptr == m.cells.len() && m.cells.len() < usize::MAX {
                m.cells.push(0u8)
            } else {
                m.cells
            };
            let ptr = if m.ptr < cells.len() {
                (m.ptr + 1) as usize
            } else {
                m.ptr
            };
            (MachineV { pc: (m.pc + 1) as usize, ptr: ptr, cells: cells, ..m }, io)
        },
        Instruction::Retreat => {
            let ptr = if m.ptr > 0 {
                (m.ptr - 1) as usize
            } else {
                0
            };
            (MachineV { pc: (m.pc + 1) as usize, ptr: ptr, ..m }, io)
        },
        Instruction::Increment => (
            MachineV {
                pc: (m.pc + 1) as usize,
                cells: write_cur(m, wrap_inc(m.cur_cell())),
                ..m
            },
            io,
        ),
        Instruction::Decrement => (
            MachineV {
                pc: (m.pc + 1) as usize,
                cells: write_cur(m, wrap_dec(m.cur_cell())),
                ..m
            },
            io,
        ),
        Instruction::Output => (
            MachineV { pc: (m.pc + 1) as usize, ..m },
            IoV { output: io.output.push(m.cur_cell()), ..io },
        ),
        Instruction::Input => {
            if io.read < io.input.len() {
                (
                    MachineV {
                        pc: (m.pc + 1) as usize,
                        cells: write_cur(m, io.input[io.read as int]),
                        ..m
                    },
                    IoV { read: (io.read + 1) as usize, ..io },
                )
            } else {
                (MachineV { pc: (m.pc + 1) as usize, ..m }, io)
            }
        },
        Instruction::BranchIfZero => {
            let pc = if m.cur_cell() == 0 {
                (m.jumps[m.pc as int] + 1) as usize
            } else {
                (m.pc + 1) as usize
            };
            (MachineV { pc: pc, ..m }, io)
        },
        Instruction::BranchIfNonzero => {
            let pc = if m.cur_cell() != 0 {
                (m.jumps[m.pc as int] + 1) as usize
            } else {
                (m.pc + 1) as usize
            };
            (MachineV { pc: pc, ..m }, io)
        },
    }
}

/// One step keeps the machine well formed and never touches the program, the
/// jump map or the unread part of the input.
pub proof fn lemma_step_wf(m: MachineV, io: IoV)
    requires
        m.wf(),
        !m.halted(),
    ensures
        step_spec(m, io).0.wf(),
        step_spec(m, io).0.prog == m.prog,
        step_spec(m, io).0.jumps == m.jumps,
        step_spec(m, io).1.input == io.input,
{
}

/// Write `v` into the cell under the cursor, materialising the cell when the
/// cursor rests one past the end of the tape.
fn write_cell(state: &mut ExecutionState, v: u8)
    requires
        old(state)@.wf(),
    ensures
        final(state)@ == (MachineV { cells: write_cur(old(state)@, v), ..old(state)@ }),
{
    if state.ptr < state.cells.len() {
        state.cells.set(state.ptr, v);
    } else if state.cells.len() < usize::MAX {
        state.cells.push(v);
    }
    proof {
        assert(state@ =~= MachineV { cells: write_cur(old(state)@, v), ..old(state)@ });
    }
}

/// Execute exactly one instruction against the state and advance the program
/// counter; deterministic, side-effecting only through the state and the
/// channel. Reports `Halted` when the new program counter has left the
/// instruction stream.
pub fn interp_step(state: &mut ExecutionState, io: &mut IoChannel) -> (o: StepOutcome)
    requires
        old(state)@.wf(),
        !old(state)@.halted(),
    ensures
        final(state)@ == step_spec(old(state)@, old(io)@).0,
        final(io)@ == step_spec(old(state)@, old(io)@).1,
        final(state)@.wf(),
        o is Halted <==> final(state)@.halted(),
{
    let n = state.prog.len();
    match state.prog[state.pc] {
        Instruction::Advance => {
            if state.ptr == state.cells.len() {
                if state.ptr < usize::MAX {
                    state.cells.push(0);
                    state.ptr = state.ptr + 1;
                }
            } else {
                state.ptr = state.ptr + 1;
            }
        },
        Instruction::Retreat => {
            if state.ptr > 0 {
                state.ptr = state.ptr - 1;
            }
        },
        Instruction::Increment => {
            let v = state.read_cur();
            let w = if v == 255 {
                0
            } else {
                v + 1
            };
            write_cell(state, w);
        },
        Instruction::Decrement => {
            let v = state.read_cur();
            let w = if v == 0 {
                255
            } else {
                v - 1
            };
            write_cell(state, w);
        },
        Instruction::Output => {
            let v = state.read_cur();
            io.output.push(v);
        },
        Instruction::Input => {
            if io.read < io.input.len() {
                let b = io.input[io.read];
                io.read = io.read + 1;
                write_cell(state, b);
            }
        },
        Instruction::BranchIfZero => {
            if state.read_cur() == 0 {
                state.pc = state.jumps[state.pc];
            }
        },
        Instruction::BranchIfNonzero => {
            if state.read_cur() != 0 {
                state.pc = state.jumps[state.pc];
            }
        },
    }
    state.pc = state.pc + 1;
    proof {
        assert(state@ =~= step_spec(old(state)@, old(io)@).0);
        assert(io@ =~= step_spec(old(state)@, old(io)@).1);
    }
    if state.pc >= n {
        StepOutcome::Halted
    } else {
        StepOutcome::Continue
    }
}

/// The machine and channel after `n` interpreter steps, stopping early at the
/// halt condition. This is the reference semantics every execution mode of
/// the control loop is held to.
pub open spec fn run_n(m: MachineV, io: IoV, n: nat) -> (MachineV, IoV)
    decreases n,
{
    if n == 0 || m.halted() {
        (m, io)
    } else {
        let s = step_spec(m, io);
        run_n(s.0, s.1, (n - 1) as nat)
    }
}

/// Splitting a run: `a + b` steps are `a` steps followed by `b` more.
pub proof fn lemma_run_n_add(m: MachineV, io: IoV, a: nat, b: nat)
    ensures
        run_n(m, io, a + b) == run_n(run_n(m, io, a).0, run_n(m, io, a).1, b),
    decreases a,
{
    if a == 0 || m.halted() {
        if m.halted() {
            lemma_run_n_halted(m, io, a + b);
            lemma_run_n_halted(m, io, a);
            lemma_run_n_halted(m, io, b);
        }
    } else {
        let s = step_spec(m, io);
        lemma_run_n_add(s.0, s.1, (a - 1) as nat, b);
    }
}

/// A halted machine stays exactly as it is, however many more steps are asked.
pub proof fn lemma_run_n_halted(m: MachineV, io: IoV, n: nat)
    requires
        m.halted(),
    ensures
        run_n(m, io, n) == (m, io),
{
}

/// Extending a run that has not halted by one step.
pub proof fn lemma_run_n_snoc(m: MachineV, io: IoV, n: nat)
    requires
        !run_n(m, io, n).0.halted(),
    ensures
        run_n(m, io, (n + 1) as nat) == step_spec(run_n(m, io, n).0, run_n(m, io, n).1),
{
    lemma_run_n_add(m, io, n, 1);
    let x = run_n(m, io, n);
    let s = step_spec(x.0, x.1);
    assert(run_n(s.0, s.1, 0) == s);
    assert(run_n(x.0, x.1, 1) == s);
}

/// Equivalence law: two runs of the same machine on the same input that both
/// reach the halt condition end in the same machine — same tape, same cursor
/// — and the same output bytes, whatever their step counts. Every execution
/// mode of the control loop returns some `run_n`, so a traced run and a plain
/// interpreted run that halt are interchangeable.
pub proof fn lemma_execution_equivalence(m: MachineV, io: IoV, n1: nat, n2: nat)
    requires
        run_n(m, io, n1).0.halted(),
        run_n(m, io, n2).0.halted(),
    ensures
        run_n(m, io, n1) == run_n(m, io, n2),
{
    if n1 <= n2 {
        lemma_run_n_add(m, io, n1, (n2 - n1) as nat);
        lemma_run_n_halted(run_n(m, io, n1).0, run_n(m, io, n1).1, (n2 - n1) as nat);
    } else {
        lemma_run_n_add(m, io, n2, (n1 - n2) as nat);
        lemma_run_n_halted(run_n(m, io, n2).0, run_n(m, io, n2).1, (n1 - n2) as nat);
    }
}

/// Wrap-around law: incrementing a cell at 255 yields 0, decrementing a cell
/// at 0 yields 255; neither is ever an error. The decrement half asks that
/// the tape can still materialise the cell the cursor rests on, which only a
/// tape of `usize::MAX` cells — impossible to allocate — would refuse.
pub proof fn lemma_cell_wraparound(m: MachineV, io: IoV)
    requires
        m.wf(),
        !m.halted(),
        m.ptr < m.cells.len() || m.cells.len() < usize::MAX,
    ensures
        m.prog[m.pc as int] is Increment && m.cur_cell() == 255 ==> step_spec(
            m,
            io,
        ).0.cur_cell() == 0,
        m.prog[m.pc as int] is Decrement && m.cur_cell() == 0 ==> step_spec(m, io).0.cur_cell()
            == 255,
{
}

/// Tape growth law: advancing the cursor past the current tape length appends
/// exactly one zero cell; an advance inside the tape appends nothing. Growth
/// stops only at a tape of `usize::MAX` cells, which cannot be allocated.
pub proof fn lemma_tape_growth(m: MachineV, io: IoV)
    requires
        m.wf(),
        !m.halted(),
        m.prog[m.pc as int] is Advance,
    ensures
        m.ptr == m.cells.len() && m.cells.len() < usize::MAX ==> step_spec(m, io).0.cells
            == m.cells.push(0u8) && step_spec(m, io).0.cells.len() == m.cells.len() + 1,
        m.ptr < m.cells.len() ==> step_spec(m, io).0.cells == m.cells,
{
}

} // verus!
