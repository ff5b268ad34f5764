use vstd::prelude::*;

verus! {

/// Which hand a landmark set belongs to.
#[derive(Debug, Clone, Copy, PartialEq, Eq, Structural)]
pub enum Hand {
    Left,
    Right,
}

impl Hand {
    /// The position of the hand in a two-entry selector: `Left` first.
    pub fn index(self) -> (i: u32)
        ensures
            i == (if self == Hand::Left { 0u32 } else { 1u32 }),
    {
        match self {
            Hand::Left => 0,
            Hand::Right => 1,
        }
    }

    /// The hand that a selector position stands for: position 0 is `Left`,
    /// every other position `Right`.
    pub fn from_index(i: u32) -> (h: Hand)
        ensures
            h == (if i == 0 { Hand::Left } else { Hand::Right }),
    {
        if i == 0 {
            Hand::Left
        } else {
            Hand::Right
        }
    }
}

/// Reading a hand back from its selector position gives the same hand.
pub proof fn law_hand_index_round_trip(h: Hand)
    ensures
        (if (if h == Hand::Left { 0u32 } else { 1u32 }) == 0 { Hand::Left } else { Hand::Right })
            == h,
{
}

} // verus!
