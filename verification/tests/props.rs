use ykbf::backend::CompiledUnit;
use ykbf::control::{interp, Engine};
use ykbf::inst::Instruction;
use ykbf::loader::{compile, LoadError};
use ykbf::machine::{ExecutionState, IoChannel};

const FUEL: u64 = 100_000_000;

/// Run a program under an engine built by hand, so that threshold, tracing
/// mode and the engine's counters stay observable.
fn run_with_engine(
    src: &str,
    input: &[u8],
    threshold: u64,
    tracing: bool,
) -> (Vec<u8>, Engine, ExecutionState) {
    let prog = compile(src.as_bytes()).unwrap();
    let mut state = ExecutionState::new(prog.insns, prog.jumps);
    let mut io = IoChannel::new(input.to_vec());
    let mut engine = Engine::new(state.prog.len(), threshold, tracing);
    let halted = engine.run(&mut state, &mut io, FUEL);
    assert!(halted);
    (io.output, engine, state)
}

fn run_plain(src: &str, input: &[u8]) -> (Vec<u8>, ExecutionState) {
    let (out, _eng, state) = run_with_engine(src, input, 2, false);
    (out, state)
}

const HELLO: &str = "++++++++++[>+++++++>++++++++++>+++>+<<<<-]>++.>+.+++++++..+++.>++.<<+++++++++++++++.>.+++.------.--------.>+.>.";

#[test]
fn test_reload_is_idempotent() {
    let src = "++[>+<-],[.,]";
    let p1 = compile(src.as_bytes()).unwrap();
    let p2 = compile(src.as_bytes()).unwrap();
    assert_eq!(p1.insns, p2.insns);
    assert_eq!(p1.jumps, p2.jumps);
}

#[test]
fn test_bracket_involution() {
    let src = "+[>[,]<[-]]-[]";
    let p = compile(src.as_bytes()).unwrap();
    for i in 0..p.insns.len() {
        if matches!(p.insns[i], Instruction::BranchIfZero | Instruction::BranchIfNonzero) {
            assert_eq!(p.jumps[p.jumps[i]], i);
        }
    }
}

#[test]
fn test_unmatched_close_is_refused() {
    assert!(matches!(compile(b"]"), Err(LoadError::UnmatchedClose)));
    assert!(matches!(compile(b"+[+]+]+["), Err(LoadError::UnmatchedClose)));
}

#[test]
fn test_unmatched_open_is_refused() {
    assert!(matches!(compile(b"["), Err(LoadError::UnmatchedOpen)));
    assert!(matches!(compile(b"+[[]"), Err(LoadError::UnmatchedOpen)));
}

#[test]
fn test_comments_are_scrubbed() {
    let p = compile(b"a + b + c . done").unwrap();
    assert_eq!(
        p.insns,
        vec![Instruction::Increment, Instruction::Increment, Instruction::Output]
    );
    let (out, _state) = run_plain("a + b + c . done", b"");
    assert_eq!(out, vec![2u8]);
}

#[test]
fn test_increment_wraps_at_255() {
    // 256 increments wrap the cell back to zero.
    let mut src = String::new();
    for _ in 0..256 {
        src.push('+');
    }
    src.push('.');
    let (out, _state) = run_plain(&src, b"");
    assert_eq!(out, vec![0u8]);
}

#[test]
fn test_decrement_wraps_at_0() {
    let (out, _state) = run_plain("-.", b"");
    assert_eq!(out, vec![255u8]);
}

#[test]
fn test_retreat_at_cell_zero_is_a_no_op() {
    let (out, _state) = run_plain("<<+.", b"");
    assert_eq!(out, vec![1u8]);
}

#[test]
fn test_tape_grows_one_cell_per_advance() {
    // 30005 advances run five cells past the initial tape: each of those
    // five appends exactly one zero cell.
    let mut src = String::new();
    for _ in 0..30005 {
        src.push('>');
    }
    src.push('.');
    let (out, state) = run_plain(&src, b"");
    assert_eq!(out, vec![0u8]);
    assert_eq!(state.cells.len(), 30005);
    assert_eq!(state.ptr, 30005);
}

#[test]
fn test_input_at_end_of_stream_leaves_cell_unchanged() {
    let (out, _state) = run_plain("+++,.", b"");
    assert_eq!(out, vec![3u8]);
    let (out2, _state2) = run_plain("+++,.", b"A");
    assert_eq!(out2, vec![65u8]);
}

#[test]
fn test_traced_run_equals_plain_run() {
    // The hello-world loops cross the threshold mid-run, so at least one
    // trace is recorded and executed; output and final tape must not move.
    let (traced_out, engine, traced_state) = run_with_engine(HELLO, b"", 2, true);
    let (plain_out, plain_state) = run_plain(HELLO, b"");
    assert_eq!(traced_out, plain_out);
    assert_eq!(traced_state.cells, plain_state.cells);
    assert!(engine.traces_compiled > 0);
    assert_eq!(engine.guard_failures, 0);
}

#[test]
fn test_traced_echo_equals_plain_echo() {
    let (traced_out, _engine, _s1) = run_with_engine(",[.[-],]", b"ABCdef", 2, true);
    let (plain_out, _s2) = run_plain(",[.[-],]", b"ABCdef");
    assert_eq!(traced_out, plain_out);
    assert_eq!(traced_out, b"ABCdef".to_vec());
}

#[test]
fn test_threshold_one_traces_first_entry() {
    let (traced_out, engine, _state) = run_with_engine(HELLO, b"", 1, true);
    let (plain_out, _plain_state) = run_plain(HELLO, b"");
    assert_eq!(traced_out, plain_out);
    assert!(engine.traces_compiled > 0);
}

#[test]
fn test_unrepresentable_trace_excludes_the_point() {
    // In `,[.[-],]` the outer loop body starts with `.`, whose trace the
    // backend cannot compile: the point is excluded and never cached, while
    // the inner `[-]` body is traced as usual.
    let (out, engine, _state) = run_with_engine(",[.[-],]", b"ABCdef", 2, true);
    assert_eq!(out, b"ABCdef".to_vec());
    assert!(engine.compile_failures >= 1);
    assert!(!engine.cache.has_unit(2));
    assert!(engine.traces_compiled >= 1);
}

#[test]
fn test_fabricated_guard_failure_evicts_and_retraces_once() {
    // The loop body of `[[>]<<-]` starts at point 9 with a branch that in
    // this run always sees a nonzero cell. A unit fabricated with the
    // opposite assumption fails its guard on first use: one rollback, one
    // eviction, a cooled counter — and once the point is hot again it is
    // re-traced with the true assumption, so the cache ends repopulated and
    // the output never moves.
    let src = "+++++>+<[[>]<<-]>.";
    let prog = compile(src.as_bytes()).unwrap();
    let mut state = ExecutionState::new(prog.insns, prog.jumps);
    let mut io = IoChannel::new(Vec::new());
    let mut engine = Engine::new(state.prog.len(), 2, true);
    engine.cache.insert(
        9,
        CompiledUnit { entry_pc: 9, insn: Instruction::BranchIfZero, cell_was_zero: true },
    );
    let halted = engine.run(&mut state, &mut io, FUEL);
    assert!(halted);
    assert_eq!(engine.guard_failures, 1);
    assert!(engine.cache.has_unit(9));
    let (plain_out, _plain_state) = run_plain(src, b"");
    assert_eq!(io.output, plain_out);
    assert_eq!(io.output, vec![1u8]);
}

#[test]
fn test_interp_uses_default_threshold() {
    let prog = compile(HELLO.as_bytes()).unwrap();
    let mut io = IoChannel::new(Vec::new());
    let (state, halted) = interp(prog, &mut io, FUEL);
    assert!(halted);
    assert_eq!(io.output, b"Hello World!\n".to_vec());
    assert!(state.pc >= state.prog.len());
}

#[test]
fn test_out_of_fuel_run_can_resume() {
    let prog = compile(HELLO.as_bytes()).unwrap();
    let mut state = ExecutionState::new(prog.insns, prog.jumps);
    let mut io = IoChannel::new(Vec::new());
    let mut engine = Engine::new(state.prog.len(), 2, true);
    let mut halted = false;
    for _ in 0..FUEL {
        halted = engine.run(&mut state, &mut io, 7);
        if halted {
            break;
        }
    }
    assert!(halted);
    assert_eq!(io.output, b"Hello World!\n".to_vec());
}
