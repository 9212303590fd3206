//! The types that the datapath and its administration share.

use vstd::prelude::*;

verus! {

/// The direction of a packet, as the guest sees it.
#[derive(Clone, Copy, Debug, PartialEq, Eq, Structural)]
pub enum Direction {
    /// Towards the guest.
    In,
    /// Away from the guest.
    Out,
}

impl Direction {
    /// The other direction.
    pub open spec fn spec_flip(self) -> Direction {
        match self {
            Direction::In => Direction::Out,
            Direction::Out => Direction::In,
        }
    }

    /// The other direction.
    pub fn flip(&self) -> (r: Direction)
        ensures
            r == self.spec_flip(),
    {
        match self {
            Direction::In => Direction::Out,
            Direction::Out => Direction::In,
        }
    }

    /// The word for the direction: `in` or `out`.
    pub open spec fn text(self) -> Seq<char> {
        match self {
            Direction::In => "in"@,
            Direction::Out => "out"@,
        }
    }

    /// The word for the direction.
    pub fn to_string(&self) -> (r: String)
        ensures
            r@ == self.text(),
    {
        match self {
            Direction::In => "in".to_owned(),
            Direction::Out => "out".to_owned(),
        }
    }
}

/// The answer of a command that has nothing to say but that it worked.
#[derive(Clone, Copy, Debug, PartialEq, Eq, Structural)]
pub struct NoResp {
    pub unused: u64,
}

impl Default for NoResp {
    fn default() -> (r: NoResp)
        ensures
            r == (NoResp { unused: 99 }),
    {
        NoResp { unused: 99 }
    }
}

} // verus!
