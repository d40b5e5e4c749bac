//! The row of actions offered to the player during their turn.

use vstd::prelude::*;

use crate::game_state::GameState;

verus! {

/// An action the player can choose during their turn, presented as a row of
/// buttons the cursor moves across.
#[derive(Debug, Copy, Clone, PartialEq, Eq, Structural)]
pub enum PlayerAction {
    Hit,
    Stand,
    Double,
}

/// The actions offered in `game_state`: hit and stand, and doubling when it
/// is allowed.
pub open spec fn available_view(game_state: GameState) -> Seq<PlayerAction> {
    if game_state.can_double_view() {
        seq![PlayerAction::Hit, PlayerAction::Stand, PlayerAction::Double]
    } else {
        seq![PlayerAction::Hit, PlayerAction::Stand]
    }
}

/// The cursor brought onto the row of available actions.
pub open spec fn clamped_cursor(cursor: int, game_state: GameState) -> int {
    let last = available_view(game_state).len() - 1;
    if cursor < last {
        cursor
    } else {
        last
    }
}

impl PlayerAction {
    pub open spec fn label_view(self) -> Seq<char> {
        match self {
            PlayerAction::Hit => "Hit"@,
            PlayerAction::Stand => "Stand"@,
            PlayerAction::Double => "Double"@,
        }
    }

    pub fn label(self) -> (s: &'static str)
        ensures
            s@ == self.label_view(),
    {
        match self {
            PlayerAction::Hit => "Hit",
            PlayerAction::Stand => "Stand",
            PlayerAction::Double => "Double",
        }
    }

    /// Actions currently available, given the game state (e.g. doubling is
    /// only offered on the first two cards when affordable).
    pub fn available(game_state: &GameState) -> (actions: Vec<PlayerAction>)
        ensures
            actions@ == available_view(*game_state),
    {
        let mut actions = vec![PlayerAction::Hit, PlayerAction::Stand];
        if game_state.can_double() {
            actions.push(PlayerAction::Double);
        }
        assert(actions@ =~= available_view(*game_state));
        actions
    }
}

/// Clamp a cursor index to the available action range.
pub fn clamp_cursor(cursor: usize, game_state: &GameState) -> (c: usize)
    ensures
        c == clamped_cursor(cursor as int, *game_state),
{
    let len = PlayerAction::available(game_state).len();
    if len == 0 {
        0
    } else {
        cursor.min(len - 1)
    }
}

} // verus!
