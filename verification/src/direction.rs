//! The two traffic directions that are monitored independently.

use vstd::prelude::*;

verus! {

/// Traffic flow classification. Each direction has its own counter record,
/// its own quota period and its own worker.
#[derive(Clone, Copy, Debug, PartialEq, Eq, Structural)]
pub enum Direction {
    Ingress,
    Egress,
}

impl Direction {
    /// The lower-case label that starts every log line of this direction.
    pub open spec fn label(self) -> Seq<char> {
        match self {
            Direction::Ingress => "ingress"@,
            Direction::Egress => "egress"@,
        }
    }

    pub fn name(self) -> (s: &'static str)
        ensures
            s@ == self.label(),
    {
        match self {
            Direction::Ingress => "ingress",
            Direction::Egress => "egress",
        }
    }
}

} // verus!
