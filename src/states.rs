use vstd::prelude::*;

verus! {

/// Whether the map is still being set up or the game is running.
#[derive(Clone, Copy, Debug, PartialEq, Eq, Structural, Hash)]
pub enum AppState {
    LoadingMap,
    InGame,
}

/// The player's interaction mode; it decides which updates run.
#[derive(Clone, Copy, Debug, PartialEq, Eq, Structural, Hash)]
pub enum PlayerState {
    Idle,
    UnitSelected,
    UnitMoving,
}

impl Default for AppState {
    fn default() -> (r: AppState)
        ensures
            r == AppState::LoadingMap,
    {
        AppState::LoadingMap
    }
}

impl Default for PlayerState {
    fn default() -> (r: PlayerState)
        ensures
            r == PlayerState::Idle,
    {
        PlayerState::Idle
    }
}

/// The turn counter; it starts at one and only grows.
pub struct TurnQueue {
    pub turn_number: i32,
}

impl Default for TurnQueue {
    fn default() -> (r: TurnQueue)
        ensures
            r.turn_number == 1,
    {
        TurnQueue { turn_number: 1 }
    }
}

impl TurnQueue {
    /// Moves on to the next turn, once for each press of the turn button.
    pub fn update_turn_number(&mut self, presses: u32)
        requires
            old(self).turn_number + presses <= i32::MAX,
        ensures
            final(self).turn_number == old(self).turn_number + presses,
    {
        let mut k: u32 = 0;
        while k < presses
            invariant
                k <= presses,
                self.turn_number == old(self).turn_number + k,
                old(self).turn_number + presses <= i32::MAX,
            decreases presses - k,
        {
            self.turn_number = self.turn_number + 1;
            k = k + 1;
        }
    }
}

} // verus!
