//! The phase of a column, kept apart so that only the three phase markers
//! can make one.

use vstd::prelude::*;

verus! {

/// The phase in which an advice column is committed or a challenge drawn.
#[derive(Clone, Copy, Debug, PartialEq, Eq, Structural)]
pub struct Phase(pub u8);

impl Phase {
    /// The phase before this one; none before the first.
    pub fn prev(&self) -> (r: Option<Phase>)
        ensures
            self.0 == 0 ==> r.is_none(),
            self.0 > 0 ==> r == Some(Phase((self.0 - 1) as u8)),
    {
        if self.0 == 0 {
            None
        } else {
            Some(Phase(self.0 - 1))
        }
    }
}

/// A marker that stands for a phase.
pub trait SealedPhase: Sized {
    /// The number of the phase the marker stands for.
    spec fn number(&self) -> u8;

    /// The phase the marker stands for.
    fn to_sealed(self) -> (p: Phase)
        ensures
            p.0 == self.number(),
    ;
}

} // verus!
