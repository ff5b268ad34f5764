use vstd::prelude::*;

use crate::hand::Hand;
use crate::point::Point;

verus! {

/// Index of the index-finger tip among the hand landmarks.
pub const TIP_INDEX: usize = 8;

/// One frame of hand landmarks as the tracker reports it.
#[derive(Debug, Clone)]
pub struct Landmark {
    pub hand: Hand,
    pub camera_width: i16,
    pub camera_height: i16,
    pub points: Vec<Point>,
}

impl Landmark {
    /// The index-finger tip, when the frame has that many points.
    pub fn fingertip(&self) -> (p: Option<Point>)
        ensures
            p == (if TIP_INDEX < self.points@.len() {
                Some(self.points@[TIP_INDEX as int])
            } else {
                None
            }),
    {
        if TIP_INDEX < self.points.len() {
            Some(self.points[TIP_INDEX])
        } else {
            None
        }
    }

    /// Whether this frame comes from the hand that drives gestures.
    pub fn is_from(&self, dominant: Hand) -> (b: bool)
        ensures
            b == (self.hand == dominant),
    {
        self.hand == dominant
    }
}

} // verus!
