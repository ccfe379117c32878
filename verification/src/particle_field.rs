//! A field of particle aggregates, stepped aggregate by aggregate.

use vstd::prelude::*;
use crate::mass::{is_mass_step, wf_mass, Mass};

verus! {

pub struct ParticleField {
    pub field: Vec<Mass>,
}

impl ParticleField {
    /// Step every aggregate of the field.
    pub fn time_step(&self) -> (r: ParticleField)
        requires
            forall|i: int| 0 <= i < self.field@.len() ==> wf_mass(#[trigger] self.field@[i]),
        ensures
            r.field@.len() == self.field@.len(),
            forall|i: int|
                0 <= i < self.field@.len() ==> is_mass_step(#[trigger] self.field@[i],
                    r.field@[i]),
    {
        let n = self.field.len();
        let mut out: Vec<Mass> = Vec::new();
        let mut i: usize = 0;
        while i < n
            invariant
                i <= n,
                n == self.field@.len(),
                out@.len() == i,
                forall|k: int| 0 <= k < n ==> wf_mass(#[trigger] self.field@[k]),
                forall|k: int|
                    0 <= k < i ==> is_mass_step(#[trigger] self.field@[k], out@[k]),
            decreases n - i,
        {
            out.push(self.field[i].time_step());
            i += 1;
        }
        ParticleField { field: out }
    }
}

} // verus!
