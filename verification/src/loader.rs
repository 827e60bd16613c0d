use vstd::prelude::*;

use crate::inst::{instruction_of, parse_byte, Instruction};
use crate::machine::wf_jumps;

verus! {

/// Why a source text was refused: a closing bracket with no opening bracket
/// before it, or opening brackets still unclosed at the end of the text.
#[derive(Clone, Copy, PartialEq, Eq, Structural, Debug)]
pub enum LoadError {
    UnmatchedOpen,
    UnmatchedClose,
}

/// A loaded program: the scrubbed instruction stream and the jump map that
/// links every bracket to its structural match.
pub struct Program {
    pub insns: Vec<Instruction>,
    pub jumps: Vec<usize>,
}

/// Mathematical model of a loaded program.
#[verifier::ext_equal]
pub ghost struct ProgramV {
    pub insns: Seq<Instruction>,
    pub jumps: Seq<usize>,
}

impl View for Program {
    type V = ProgramV;

    open spec fn view(&self) -> ProgramV {
        ProgramV { insns: self.insns@, jumps: self.jumps@ }
    }
}

/// The instruction stream a source text scrubs to: command bytes in order,
/// every other byte dropped as a comment.
pub open spec fn scrub(s: Seq<u8>) -> Seq<Instruction>
    decreases s.len(),
{
    if s.len() == 0 {
        Seq::empty()
    } else {
        let rest = scrub(s.drop_last());
        match instruction_of(s.last()) {
            Some(i) => rest.push(i),
            None => rest,
        }
    }
}

/// The single left-to-right bracket-matching scan, from position `i` with
/// the pending opening brackets on `stack` and the links written so far in
/// `jumps`. Its result is what loading is held to.
pub open spec fn scan(
    prog: Seq<Instruction>,
    i: int,
    stack: Seq<usize>,
    jumps: Seq<usize>,
) -> Result<Seq<usize>, LoadError>
    decreases prog.len() - i,
{
    if i >= prog.len() {
        if stack.len() == 0 {
            Ok(jumps)
        } else {
            Err(LoadError::UnmatchedOpen)
        }
    } else if prog[i] is BranchIfZero {
        scan(prog, i + 1, stack.push(i as usize), jumps)
    } else if prog[i] is BranchIfNonzero {
        if stack.len() == 0 {
            Err(LoadError::UnmatchedClose)
        } else {
            let s = stack.last();
            scan(prog, i + 1, stack.drop_last(), jumps.update(s as int, i as usize).update(i, s))
        }
    } else {
        scan(prog, i + 1, stack, jumps)
    }
}

/// A jump map with every link still unset.
pub open spec fn zero_jumps(n: nat) -> Seq<usize> {
    Seq::new(n, |i: int| 0usize)
}

/// The jump map of a program, when its brackets balance.
pub open spec fn match_map(prog: Seq<Instruction>) -> Result<Seq<usize>, LoadError> {
    scan(prog, 0, Seq::empty(), zero_jumps(prog.len()))
}

/// No prefix from position `i` on closes more brackets than are open,
/// starting `d` brackets deep.
pub open spec fn prefix_ok(s: Seq<Instruction>, i: int, d: int) -> bool
    decreases s.len() - i,
{
    if i >= s.len() {
        true
    } else if s[i] is BranchIfZero {
        prefix_ok(s, i + 1, d + 1)
    } else if s[i] is BranchIfNonzero {
        d > 0 && prefix_ok(s, i + 1, d - 1)
    } else {
        prefix_ok(s, i + 1, d)
    }
}

/// The brackets from position `i` on balance, starting `d` brackets deep: no
/// prefix closes more than is open, and the depth returns to zero at the end.
pub open spec fn bal_from(s: Seq<Instruction>, i: int, d: int) -> bool
    decreases s.len() - i,
{
    if i >= s.len() {
        d == 0
    } else if s[i] is BranchIfZero {
        bal_from(s, i + 1, d + 1)
    } else if s[i] is BranchIfNonzero {
        d > 0 && bal_from(s, i + 1, d - 1)
    } else {
        bal_from(s, i + 1, d)
    }
}

/// The brackets of an instruction stream balance.
pub open spec fn balanced(s: Seq<Instruction>) -> bool {
    bal_from(s, 0, 0)
}

/// The scan succeeds exactly on balanced streams, and reports an unmatched
/// closing bracket exactly when some prefix closes more than it opens.
pub proof fn lemma_scan_balance(prog: Seq<Instruction>, i: int, stack: Seq<usize>, jumps: Seq<usize>)
    requires
        0 <= i <= prog.len(),
    ensures
        scan(prog, i, stack, jumps) is Ok <==> bal_from(prog, i, stack.len() as int),
        scan(prog, i, stack, jumps) == Err::<Seq<usize>, LoadError>(LoadError::UnmatchedClose)
            <==> !prefix_ok(prog, i, stack.len() as int),
    decreases prog.len() - i,
{
    if i >= prog.len() {
    } else if prog[i] is BranchIfZero {
        lemma_scan_balance(prog, i + 1, stack.push(i as usize), jumps);
    } else if prog[i] is BranchIfNonzero {
        if stack.len() == 0 {
        } else {
            let s = stack.last();
            lemma_scan_balance(
                prog,
                i + 1,
                stack.drop_last(),
                jumps.update(s as int, i as usize).update(i, s),
            );
        }
    } else {
        lemma_scan_balance(prog, i + 1, stack, jumps);
    }
}

/// Every bracket is cross-linked with its structural match: an opening
/// bracket points forward to a closing one, a closing bracket points back to
/// an opening one, and following a link twice returns to where it began.
pub open spec fn links_ok(prog: Seq<Instruction>, jumps: Seq<usize>) -> bool {
    &&& jumps.len() == prog.len()
    &&& forall|j: int|
        0 <= j < prog.len() && prog[j] is BranchIfZero ==> j < #[trigger] jumps[j] < prog.len()
            && prog[jumps[j] as int] is BranchIfNonzero && jumps[jumps[j] as int] == j
    &&& forall|j: int|
        0 <= j < prog.len() && prog[j] is BranchIfNonzero ==> #[trigger] jumps[j] < j
            && prog[jumps[j] as int] is BranchIfZero && jumps[jumps[j] as int] == j
}

/// Cross-linking implies the jump-map well-formedness the machine needs.
pub proof fn lemma_links_wf(prog: Seq<Instruction>, jumps: Seq<usize>)
    requires
        links_ok(prog, jumps),
    ensures
        wf_jumps(prog, jumps),
{
    assert forall|i: int|
        0 <= i < prog.len() && crate::inst::is_branch(prog[i]) implies #[trigger] jumps[i]
        < prog.len() by {
        if prog[i] is BranchIfZero {
        } else {
            assert(jumps[i] < i);
        }
    }
}

/// What holds of the scan state after the first `i` positions: the stack
/// lists the still-open brackets in increasing order, and every bracket
/// already matched is cross-linked with its partner.
pub open spec fn scan_inv(prog: Seq<Instruction>, i: int, stack: Seq<usize>, jumps: Seq<usize>) -> bool {
    &&& jumps.len() == prog.len()
    &&& 0 <= i <= prog.len()
    &&& forall|k: int|
        0 <= k < stack.len() ==> #[trigger] stack[k] < i && prog[stack[k] as int] is BranchIfZero
    &&& forall|k1: int, k2: int| 0 <= k1 < k2 < stack.len() ==> stack[k1] < stack[k2]
    &&& forall|j: int|
        0 <= j < i && prog[j] is BranchIfZero && !stack.contains(j as usize) ==> j
            < #[trigger] jumps[j] < i && prog[jumps[j] as int] is BranchIfNonzero
            && jumps[jumps[j] as int] == j && !stack.contains(jumps[j])
    &&& forall|j: int|
        0 <= j < i && prog[j] is BranchIfNonzero ==> #[trigger] jumps[j] < j
            && prog[jumps[j] as int] is BranchIfZero && jumps[jumps[j] as int] == j
            && !stack.contains(jumps[j])
}

/// A finished scan whose stack is empty has cross-linked every bracket.
pub proof fn lemma_scan_inv_links(prog: Seq<Instruction>, stack: Seq<usize>, jumps: Seq<usize>)
    requires
        scan_inv(prog, prog.len() as int, stack, jumps),
        stack.len() == 0,
    ensures
        links_ok(prog, jumps),
{
}

/// Turn a source text into the instruction stream and the jump map, or
/// refuse it when its brackets do not balance. Every byte that is not a
/// command character is a comment and is dropped silently.
pub fn compile(src: &[u8]) -> (r: Result<Program, LoadError>)
    ensures
        match r {
            Ok(p) => {
                &&& p@.insns == scrub(src@)
                &&& match_map(scrub(src@)) == Ok::<Seq<usize>, LoadError>(p@.jumps)
                &&& balanced(scrub(src@))
                &&& links_ok(p@.insns, p@.jumps)
                &&& wf_jumps(p@.insns, p@.jumps)
            },
            Err(e) => {
                &&& match_map(scrub(src@)) == Err::<Seq<usize>, LoadError>(e)
                &&& !balanced(scrub(src@))
                &&& (e is UnmatchedClose <==> !prefix_ok(scrub(src@), 0, 0))
            },
        },
{
    let mut insns: Vec<Instruction> = Vec::new();
    let mut idx: usize = 0;
    while idx < src.len()
        invariant
            idx <= src@.len(),
            insns@ == scrub(src@.take(idx as int)),
        decreases src@.len() - idx,
    {
        proof {
            assert(src@.take(idx + 1).drop_last() =~= src@.take(idx as int));
            assert(src@.take(idx + 1).last() == src@[idx as int]);
        }
        match parse_byte(src[idx]) {
            Some(i) => insns.push(i),
            None => {},
        }
        idx = idx + 1;
    }
    proof {
        assert(src@.take(src@.len() as int) =~= src@);
    }
    let ghost prog = insns@;

    let n = insns.len();
    let mut jumps: Vec<usize> = crate::util::filled_vec(n, 0usize);
    let mut stack: Vec<usize> = Vec::new();
    let mut i: usize = 0;
    proof {
        assert(match_map(prog) == scan(prog, 0, stack@, jumps@));
    }
    while i < n
        invariant
            insns@ == prog,
            prog == scrub(src@),
            prog.len() == n,
            i <= n,
            match_map(prog) == scan(prog, i as int, stack@, jumps@),
            scan_inv(prog, i as int, stack@, jumps@),
        decreases n - i,
    {
        let c = insns[i];
        match c {
            Instruction::BranchIfZero => {
                let ghost old_stack = stack@;
                stack.push(i);
                proof {
                    assert forall|k1: int, k2: int|
                        0 <= k1 < k2 < stack@.len() implies stack@[k1] < stack@[k2] by {
                        assert(stack@[k2] == i || stack@[k2] == old_stack[k2]);
                    }
                    assert forall|x: usize| old_stack.contains(x) implies stack@.contains(x) by {
                        let k = choose|k: int| 0 <= k < old_stack.len() && old_stack[k] == x;
                        assert(stack@[k] == x);
                    }
                    assert forall|x: usize| stack@.contains(x) && x != i implies old_stack.contains(
                        x,
                    ) by {
                        let k = choose|k: int| 0 <= k < stack@.len() && stack@[k] == x;
                        assert(old_stack[k] == x);
                    }
                    assert(scan_inv(prog, i + 1, stack@, jumps@));
                }
            },
            Instruction::BranchIfNonzero => {
                let ghost old_stack = stack@;
                let ghost old_jumps = jumps@;
                match stack.pop() {
                    None => {
                        proof {
                            assert(scan(prog, i as int, old_stack, old_jumps)
                                == Err::<Seq<usize>, LoadError>(LoadError::UnmatchedClose));
                            lemma_scan_balance(prog, 0, Seq::<usize>::empty(), zero_jumps(prog.len()));
                        }
                        return Err(LoadError::UnmatchedClose);
                    },
                    Some(s) => {
                        jumps.set(s, i);
                        jumps.set(i, s);
                        proof {
                            assert(stack@ == old_stack.drop_last());
                            assert(s == old_stack.last());
                            assert(jumps@ =~= old_jumps.update(s as int, i as usize).update(
                                i as int,
                                s,
                            ));
                            assert forall|x: usize| stack@.contains(x) implies old_stack.contains(
                                x,
                            ) && x != s by {
                                let k = choose|k: int| 0 <= k < stack@.len() && stack@[k] == x;
                                assert(old_stack[k] == x);
                                assert(old_stack[k] < old_stack[old_stack.len() - 1]);
                            }
                            assert forall|x: usize|
                                old_stack.contains(x) && x != s implies stack@.contains(x) by {
                                let k = choose|k: int| 0 <= k < old_stack.len() && old_stack[k] == x;
                                assert(k < old_stack.len() - 1);
                                assert(stack@[k] == x);
                            }
                            assert(scan_inv(prog, i + 1, stack@, jumps@)) by {
                                assert forall|j: int|
                                    0 <= j < i + 1 && prog[j] is BranchIfZero && !stack@.contains(
                                        j as usize,
                                    ) implies j < #[trigger] jumps@[j] < i + 1
                                    && prog[jumps@[j] as int] is BranchIfNonzero
                                    && jumps@[jumps@[j] as int] == j && !stack@.contains(
                                    jumps@[j],
                                ) by {
                                    if j == s {
                                        assert(jumps@[j] == i);
                                    } else {
                                        assert(!old_stack.contains(j as usize));
                                        assert(old_jumps[j] < i);
                                        assert(jumps@[j] == old_jumps[j]);
                                        assert(!old_stack.contains(old_jumps[j]));
                                        assert(jumps@[old_jumps[j] as int] == old_jumps[old_jumps[j] as int]);
                                    }
                                }
                                assert forall|j: int|
                                    0 <= j < i + 1 && prog[j] is BranchIfNonzero implies #[trigger] jumps@[j]
                                    < j && prog[jumps@[j] as int] is BranchIfZero
                                    && jumps@[jumps@[j] as int] == j && !stack@.contains(
                                    jumps@[j],
                                ) by {
                                    if j == i {
                                        assert(jumps@[j] == s);
                                        assert(jumps@[s as int] == i);
                                    } else {
                                        assert(old_jumps[j] < j);
                                        assert(!old_stack.contains(old_jumps[j]));
                                        assert(jumps@[j] == old_jumps[j]);
                                        assert(jumps@[old_jumps[j] as int] == old_jumps[old_jumps[j] as int]);
                                    }
                                }
                            }
                        }
                    },
                }
            },
            _ => {
                proof {
                    assert(scan(prog, i as int, stack@, jumps@) == scan(
                        prog,
                        i + 1,
                        stack@,
                        jumps@,
                    ));
                }
            },
        }
        i = i + 1;
    }
    if stack.len() > 0 {
        proof {
            lemma_scan_balance(prog, 0, Seq::<usize>::empty(), zero_jumps(prog.len()));
        }
        return Err(LoadError::UnmatchedOpen);
    }
    proof {
        lemma_scan_inv_links(prog, stack@, jumps@);
        lemma_links_wf(prog, jumps@);
        lemma_scan_balance(prog, 0, Seq::<usize>::empty(), zero_jumps(prog.len()));
    }
    Ok(Program { insns, jumps })
}

/// Idempotent-reload law: loading the same source text twice yields
/// structurally identical instruction streams and jump maps — the loaded
/// pair is a function of the text alone.
pub proof fn lemma_idempotent_reload(src: Seq<u8>, p1: ProgramV, p2: ProgramV)
    requires
        p1.insns == scrub(src),
        match_map(scrub(src)) == Ok::<Seq<usize>, LoadError>(p1.jumps),
        p2.insns == scrub(src),
        match_map(scrub(src)) == Ok::<Seq<usize>, LoadError>(p2.jumps),
    ensures
        p1 == p2,
{
    assert(p1 =~= p2);
}

/// Bracket-invariant law: in every loaded program, following a branch's link
/// twice returns to the branch itself.
pub proof fn lemma_bracket_involution(prog: Seq<Instruction>, jumps: Seq<usize>)
    requires
        links_ok(prog, jumps),
    ensures
        forall|i: int|
            0 <= i < prog.len() && crate::inst::is_branch(prog[i]) ==> jumps[#[trigger] jumps[i] as int]
                == i,
{
}

} // verus!
