use vstd::prelude::*;

use crate::backend::{compile_trace, record, GuardResult};
use crate::cache::TraceCache;
use crate::hotness::HotnessTracker;
use crate::inst::Instruction;
use crate::loader::Program;
use crate::machine::{init_machine, wf_jumps, ExecutionState, IoChannel, MachineV};
use crate::step::{interp_step, run_n, step_spec};

verus! {

/// A program point is a candidate trace entry exactly when it immediately
/// follows a `BranchIfZero`: only loop-body entry points are re-entered
/// across iterations, so only they are stable recording anchors.
pub open spec fn loop_entry_candidate(m: MachineV) -> bool {
    m.pc >= 1 && m.prog[m.pc - 1] is BranchIfZero
}

/// Whether the current program point is a candidate trace entry.
fn is_loop_entry_candidate(state: &ExecutionState) -> (r: bool)
    requires
        state@.pc <= state@.prog.len(),
    ensures
        r == loop_entry_candidate(state@),
{
    if state.pc >= 1 {
        let prev = state.prog[state.pc - 1];
        prev == Instruction::BranchIfZero
    } else {
        false
    }
}

/// The top-level driver. For every step it decides between plain
/// interpretation, recording a trace, and executing a cached compiled unit,
/// and it rolls the state back when a unit's guard fails.
pub struct Engine {
    pub hotness: HotnessTracker,
    pub cache: TraceCache,
    /// Points whose recorded trace the backend could not compile; they are
    /// excluded from all future tracing attempts.
    pub excluded: Vec<bool>,
    /// With tracing off, every step is interpreted.
    pub tracing: bool,
    pub traces_compiled: u64,
    pub guard_failures: u64,
    pub compile_failures: u64,
}

impl Engine {
    /// The engine's tables cover a program of `n` instructions.
    pub open spec fn sized_for(self, n: nat) -> bool {
        &&& self.hotness.counts@.len() == n
        &&& self.cache.units@.len() == n
        &&& self.excluded@.len() == n
    }

    /// An engine for a program of `n` instructions, with nothing hot,
    /// nothing cached and nothing excluded.
    pub fn new(n: usize, threshold: u64, tracing: bool) -> (r: Engine)
        ensures
            r.sized_for(n as nat),
            r.tracing == tracing,
            r.hotness.threshold == threshold,
            r.traces_compiled == 0,
            r.guard_failures == 0,
            r.compile_failures == 0,
            forall|i: int| 0 <= i < n ==> r.cache.units@[i] is None,
    {
        Engine {
            hotness: HotnessTracker::new(n, threshold),
            cache: TraceCache::new(n),
            excluded: crate::util::filled_vec(n, false),
            tracing,
            traces_compiled: 0,
            guard_failures: 0,
            compile_failures: 0,
        }
    }

    /// Drive the machine for at most `fuel` steps, stopping early at the
    /// halt condition. Whatever mixture of interpretation, recording and
    /// compiled-unit execution the engine chooses — and whatever guards
    /// fail on the way — the machine and channel afterwards are exactly
    /// those of some number of plain interpreter steps: tracing is a pure
    /// optimisation and never changes the outcome. Returns whether the run
    /// reached the halt condition; when it has not, all `fuel` steps were
    /// taken, and calling again resumes where this call stopped.
    pub fn run(&mut self, state: &mut ExecutionState, io: &mut IoChannel, fuel: u64) -> (halted:
        bool)
        requires
            old(state)@.wf(),
            old(self).sized_for(old(state)@.prog.len()),
        ensures
            final(self).sized_for(old(state)@.prog.len()),
            final(self).tracing == old(self).tracing,
            final(state)@.wf(),
            final(state)@.prog == old(state)@.prog,
            final(state)@.jumps == old(state)@.jumps,
            halted <==> final(state)@.halted(),
            exists|k: nat|
                k <= fuel && (final(state)@, final(io)@) == #[trigger] run_n(
                    old(state)@,
                    old(io)@,
                    k,
                ) && (!final(state)@.halted() ==> k == fuel),
    {
        let ghost m0 = state@;
        let ghost io0 = io@;
        let n = state.prog.len();
        let mut halted = state.pc >= n;
        let mut i: u64 = 0;
        while i < fuel && !halted
            invariant
                state@.wf(),
                state@.prog == m0.prog,
                state@.jumps == m0.jumps,
                state@.prog.len() == n,
                self.sized_for(m0.prog.len()),
                self.tracing == old(self).tracing,
                i <= fuel,
                halted <==> state@.halted(),
                state@ == run_n(m0, io0, i as nat).0,
                io@ == run_n(m0, io0, i as nat).1,
            decreases fuel - i,
        {
            let pc = state.pc;
            let ghost pre = state@;
            let ghost io_pre = io@;
            let cached = if self.tracing {
                self.cache.lookup(pc)
            } else {
                None
            };
            match cached {
                Some(unit) => {
                    // EXECUTE_TRACE: snapshot first, so that a guard failure
                    // can discard whatever the unit left behind.
                    let snapshot = state.snapshot();
                    match unit.execute(state) {
                        GuardResult::Completed => {
                            proof {
                                assert(step_spec(pre, io_pre) == (state@, io_pre));
                                crate::step::lemma_run_n_snoc(m0, io0, i as nat);
                                crate::step::lemma_step_wf(pre, io_pre);
                            }
                        },
                        GuardResult::GuardFailed => {
                            // Rollback: restore the snapshot, evict the unit,
                            // let the point cool down, and interpret this
                            // step directly.
                            *state = snapshot;
                            self.cache.evict(pc);
                            self.hotness.reset(pc);
                            if self.guard_failures < u64::MAX {
                                self.guard_failures = self.guard_failures + 1;
                            }
                            let _ = interp_step(state, io);
                            proof {
                                crate::step::lemma_run_n_snoc(m0, io0, i as nat);
                            }
                        },
                    }
                },
                None => {
                    let candidate = is_loop_entry_candidate(state);
                    let mut traced = false;
                    if self.tracing && candidate && !self.excluded[pc] {
                        if self.hotness.record_entry(pc) {
                            // RECORD: the step executes as part of recording,
                            // so the loop continues without interpreting it a
                            // second time.
                            let (trace, _outcome) = record(state, io);
                            proof {
                                crate::step::lemma_run_n_snoc(m0, io0, i as nat);
                            }
                            match compile_trace(&trace) {
                                Ok(unit) => {
                                    self.cache.insert(pc, unit);
                                    if self.traces_compiled < u64::MAX {
                                        self.traces_compiled = self.traces_compiled + 1;
                                    }
                                },
                                Err(_) => {
                                    self.excluded.set(pc, true);
                                    if self.compile_failures < u64::MAX {
                                        self.compile_failures = self.compile_failures + 1;
                                    }
                                },
                            }
                            traced = true;
                        }
                    }
                    if !traced {
                        // INTERPRET: the cold path.
                        let _ = interp_step(state, io);
                        proof {
                            crate::step::lemma_run_n_snoc(m0, io0, i as nat);
                        }
                    }
                },
            }
            halted = state.pc >= n;
            i = i + 1;
        }
        proof {
            assert((state@, io@) == run_n(m0, io0, i as nat));
        }
        halted
    }
}

/// Load-and-go entry point: run `prog` against the channel under a tracing
/// engine with the default hotness threshold, for at most `fuel` steps.
/// Returns the final machine state and whether the program halted; the
/// outcome — output bytes and final tape — equals some number of plain
/// interpreter steps from the freshly initialised machine.
pub fn interp(prog: Program, io: &mut IoChannel, fuel: u64) -> (r: (ExecutionState, bool))
    requires
        wf_jumps(prog@.insns, prog@.jumps),
    ensures
        r.0@.wf(),
        r.1 <==> r.0@.halted(),
        exists|k: nat|
            k <= fuel && (r.0@, final(io)@) == #[trigger] run_n(
                init_machine(prog@.insns, prog@.jumps),
                old(io)@,
                k,
            ) && (!r.0@.halted() ==> k == fuel),
{
    let Program { insns, jumps } = prog;
    let mut state = ExecutionState::new(insns, jumps);
    let n = state.prog.len();
    let mut engine = Engine::new(n, 2, true);
    let halted = engine.run(&mut state, io, fuel);
    (state, halted)
}

} // verus!
