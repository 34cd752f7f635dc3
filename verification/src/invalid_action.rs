use vstd::prelude::*;

verus! {

/// Enum giving a reason for why an action was invalid
#[derive(Debug, Clone, Copy, PartialEq, Eq, Structural)]
pub enum InvalidAction {
    UnknownUsername,
    NotPlayerTurn,
    CannotPlayCard,
    CardNotInHand,
    GameIsOver,
}

} // verus!
