use vstd::prelude::*;

use crate::direction::Direction;

verus! {

/// The compositor focus moves that swipes trigger.
#[derive(Debug, Clone, Copy, PartialEq, Eq, Structural)]
pub enum FocusAction {
    FocusWorkspaceUp,
    FocusWorkspaceDown,
    FocusColumnLeft,
    FocusColumnRight,
}

/// The focus move for a swipe: vertical swipes change workspace, horizontal
/// ones change column.
pub open spec fn focus_for(dir: Direction) -> FocusAction {
    match dir {
        Direction::Up => FocusAction::FocusWorkspaceUp,
        Direction::Down => FocusAction::FocusWorkspaceDown,
        Direction::Left => FocusAction::FocusColumnLeft,
        Direction::Right => FocusAction::FocusColumnRight,
    }
}

/// The focus move to request for a swipe in direction `dir`.
pub fn focus_action(dir: Direction) -> (a: FocusAction)
    ensures
        a == focus_for(dir),
{
    match dir {
        Direction::Up => FocusAction::FocusWorkspaceUp,
        Direction::Down => FocusAction::FocusWorkspaceDown,
        Direction::Left => FocusAction::FocusColumnLeft,
        Direction::Right => FocusAction::FocusColumnRight,
    }
}

/// Different swipes request different focus moves.
pub proof fn law_focus_is_injective(a: Direction, b: Direction)
    ensures
        focus_for(a) == focus_for(b) ==> a == b,
{
}

} // verus!
