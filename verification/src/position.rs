//! The `(step, substep)` position primitive that totally orders every record
//! the connector publishes.

use vstd::prelude::*;

verus! {

/// A position in the JetStream output.
///
/// `step` corresponds one to one to the engine's external checkpoint step;
/// `substep` is the zero-based index of a record within that step's batch,
/// assigned in push order.
#[derive(Clone, Copy, Debug, PartialEq, Eq, Structural)]
pub struct OutputPosition {
    /// The step number.
    pub step: u64,
    /// An index within the step. The first message output in a step has
    /// substep 0, the second has substep 1, and so on.
    pub substep: u64,
}

impl OutputPosition {
    /// The position of the first record of the batch for `step`.
    pub fn new(step: u64) -> (p: Self)
        ensures
            p.step == step,
            p.substep == 0,
    {
        Self { step, substep: 0 }
    }

    /// Advance to the position the next pushed record will receive.
    pub fn next_substep(&mut self)
        requires
            old(self).substep < u64::MAX,
        ensures
            final(self).step == old(self).step,
            final(self).substep == old(self).substep + 1,
    {
        self.substep = self.substep + 1;
    }
}

} // verus!
