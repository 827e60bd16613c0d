use vstd::prelude::*;

use crate::inst::{is_branch, Instruction};

verus! {

/// Initial number of tape cells, all zero.
pub const TAPE_LEN: usize = 30000;

/// Mathematical model of the machine: the loaded program, its jump map, and
/// the mutable execution state (program counter, cursor, tape).
#[verifier::ext_equal]
pub ghost struct MachineV {
    pub prog: Seq<Instruction>,
    pub jumps: Seq<usize>,
    pub pc: usize,
    pub ptr: usize,
    pub cells: Seq<u8>,
}

/// Mathematical model of the I/O channel: the input bytes with a read mark,
/// and the output bytes written so far.
#[verifier::ext_equal]
pub ghost struct IoV {
    pub input: Seq<u8>,
    pub read: usize,
    pub output: Seq<u8>,
}

/// The jump map covers the program and every branch target is in range.
pub open spec fn wf_jumps(prog: Seq<Instruction>, jumps: Seq<usize>) -> bool {
    &&& jumps.len() == prog.len()
    &&& forall|i: int|
        0 <= i < prog.len() && is_branch(prog[i]) ==> #[trigger] jumps[i] < prog.len()
}

impl MachineV {
    /// Basic well-formedness, preserved by every step: the jump map is in
    /// range, the program counter never runs further than one past the end,
    /// and the cursor sits on a cell or one past the last cell.
    pub open spec fn wf(self) -> bool {
        &&& wf_jumps(self.prog, self.jumps)
        &&& self.pc <= self.prog.len()
        &&& self.ptr <= self.cells.len()
    }

    /// The run is over: the program counter has left the instruction stream.
    pub open spec fn halted(self) -> bool {
        self.pc >= self.prog.len()
    }

    /// The cell under the cursor. A cursor resting one past the last cell
    /// reads the zero cell that advancing materialises.
    pub open spec fn cur_cell(self) -> u8 {
        if self.ptr < self.cells.len() {
            self.cells[self.ptr as int]
        } else {
            0
        }
    }
}

/// The execution state threaded through every interpreter step: program
/// counter, cursor, growable tape, plus the instruction stream and jump map.
pub struct ExecutionState {
    pub prog: Vec<Instruction>,
    pub jumps: Vec<usize>,
    pub pc: usize,
    pub ptr: usize,
    pub cells: Vec<u8>,
}

impl View for ExecutionState {
    type V = MachineV;

    open spec fn view(&self) -> MachineV {
        MachineV {
            prog: self.prog@,
            jumps: self.jumps@,
            pc: self.pc,
            ptr: self.ptr,
            cells: self.cells@,
        }
    }
}

/// The buffered byte channel the machine reads from and writes to.
pub struct IoChannel {
    pub input: Vec<u8>,
    pub read: usize,
    pub output: Vec<u8>,
}

impl View for IoChannel {
    type V = IoV;

    open spec fn view(&self) -> IoV {
        IoV { input: self.input@, read: self.read, output: self.output@ }
    }
}

impl IoChannel {
    /// A channel holding `input` with nothing read and nothing written yet.
    pub fn new(input: Vec<u8>) -> (r: IoChannel)
        ensures
            r@ == (IoV { input: input@, read: 0, output: Seq::<u8>::empty() }),
    {
        let r = IoChannel { input, read: 0, output: Vec::new() };
        proof {
            assert(r@ =~= IoV { input: r.input@, read: 0, output: Seq::<u8>::empty() });
        }
        r
    }
}

/// The machine a freshly loaded program starts in: program counter and cursor
/// at zero, the tape all zero.
pub open spec fn init_machine(prog: Seq<Instruction>, jumps: Seq<usize>) -> MachineV {
    MachineV {
        prog: prog,
        jumps: jumps,
        pc: 0,
        ptr: 0,
        cells: Seq::new(TAPE_LEN as nat, |i: int| 0u8),
    }
}

impl ExecutionState {
    /// Fresh state for a loaded program.
    pub fn new(prog: Vec<Instruction>, jumps: Vec<usize>) -> (r: ExecutionState)
        ensures
            r@ == init_machine(prog@, jumps@),
    {
        let cells = crate::util::filled_vec(TAPE_LEN, 0u8);
        let r = ExecutionState { prog, jumps, pc: 0, ptr: 0, cells };
        proof {
            assert(r@ =~= init_machine(r.prog@, r.jumps@));
        }
        r
    }

    /// An independent deep copy, taken before a compiled unit runs so that a
    /// guard failure can restore the state it started from.
    pub fn snapshot(&self) -> (r: ExecutionState)
        ensures
            r@ == self@,
    {
        let r = ExecutionState {
            prog: crate::util::copy_vec(&self.prog),
            jumps: crate::util::copy_vec(&self.jumps),
            pc: self.pc,
            ptr: self.ptr,
            cells: crate::util::copy_vec(&self.cells),
        };
        proof {
            assert(r@ =~= self@);
        }
        r
    }

    /// The cell under the cursor.
    pub fn read_cur(&self) -> (v: u8)
        requires
            self@.wf(),
        ensures
            v == self@.cur_cell(),
    {
        if self.ptr < self.cells.len() {
            self.cells[self.ptr]
        } else {
            0
        }
    }
}

} // verus!
