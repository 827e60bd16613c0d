use vstd::prelude::*;

use crate::backend::CompiledUnit;

verus! {

/// The cache of compiled units, keyed by the program point that triggered
/// compilation. At most one live unit per point: recompiling after an
/// eviction replaces, never appends.
pub struct TraceCache {
    pub units: Vec<Option<CompiledUnit>>,
}

impl TraceCache {
    /// An empty cache covering `n` program points.
    pub fn new(n: usize) -> (r: TraceCache)
        ensures
            r.units@ == Seq::new(n as nat, |i: int| None::<CompiledUnit>),
    {
        TraceCache { units: crate::util::filled_vec(n, None) }
    }

    /// The unit cached for `pc`, if one is live.
    pub fn lookup(&self, pc: usize) -> (r: Option<CompiledUnit>)
        requires
            pc < self.units@.len(),
        ensures
            r == self.units@[pc as int],
    {
        match &self.units[pc] {
            Some(u) => Some(*u),
            None => None,
        }
    }

    /// Whether a unit is live for `pc`.
    pub fn has_unit(&self, pc: usize) -> (r: bool)
        requires
            pc < self.units@.len(),
        ensures
            r == self.units@[pc as int] is Some,
    {
        self.units[pc].is_some()
    }

    /// Make `unit` the live unit for `pc`, replacing any old one.
    pub fn insert(&mut self, pc: usize, unit: CompiledUnit)
        requires
            pc < old(self).units@.len(),
        ensures
            final(self).units@ == old(self).units@.update(pc as int, Some(unit)),
    {
        self.units.set(pc, Some(unit));
    }

    /// Drop the live unit for `pc`.
    pub fn evict(&mut self, pc: usize)
        requires
            pc < old(self).units@.len(),
        ensures
            final(self).units@ == old(self).units@.update(pc as int, None::<CompiledUnit>),
    {
        self.units.set(pc, None);
    }
}

} // verus!
