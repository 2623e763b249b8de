//! Turns: the turn counter, whose move it is, and where NPCs call home.
use vstd::prelude::*;
use crate::components::Position;

verus! {

/// How many turns have passed.
#[derive(Debug, Clone, Copy, PartialEq, Eq, Structural)]
pub struct TurnCounter(pub u64);

impl TurnCounter {
    /// Turn zero.
    pub fn new() -> (r: Self)
        ensures
            r.0 == 0,
    {
        TurnCounter(0)
    }

    /// Counts a turn.
    pub fn increment(&mut self)
        requires
            old(self).0 < u64::MAX,
        ensures
            final(self).0 == old(self).0 + 1,
    {
        self.0 = self.0 + 1;
    }

    /// The current turn.
    pub fn current(&self) -> (r: u64)
        ensures
            r == self.0,
    {
        self.0
    }
}

impl Default for TurnCounter {
    /// Turn zero.
    fn default() -> (r: Self)
        ensures
            r.0 == 0,
    {
        TurnCounter(0)
    }
}

/// Whose move it is.
#[derive(Debug, Clone, Copy, PartialEq, Eq, Structural)]
pub enum TurnPhase {
    Player,
    Npcs,
    Processing,
}

impl Default for TurnPhase {
    /// The player's move.
    fn default() -> (r: Self)
        ensures
            r == TurnPhase::Player,
    {
        TurnPhase::Player
    }
}

/// The phase of the current turn.
#[derive(Debug, Clone, Copy, PartialEq, Eq, Structural)]
pub struct TurnState {
    pub phase: TurnPhase,
}

impl TurnState {
    /// The player's move.
    pub fn new() -> (r: Self)
        ensures
            r.phase == TurnPhase::Player,
    {
        TurnState { phase: TurnPhase::Player }
    }

    /// Moves to a phase.
    pub fn set_phase(&mut self, phase: TurnPhase)
        ensures
            final(self).phase == phase,
    {
        self.phase = phase;
    }

    /// Whether it is the player's move.
    pub fn is_player_turn(&self) -> (r: bool)
        ensures
            r == (self.phase == TurnPhase::Player),
    {
        self.phase == TurnPhase::Player
    }

    /// Whether the NPCs are moving.
    pub fn is_npc_turn(&self) -> (r: bool)
        ensures
            r == (self.phase == TurnPhase::Npcs),
    {
        self.phase == TurnPhase::Npcs
    }
}

impl Default for TurnState {
    /// The player's move.
    fn default() -> (r: Self)
        ensures
            r.phase == TurnPhase::Player,
    {
        TurnState { phase: TurnPhase::Player }
    }
}

/// Where an NPC returns to, if anywhere.
#[derive(Debug, Clone, Copy, PartialEq, Eq, Structural)]
pub struct BehaviorState {
    pub home_pos: Option<Position>,
}

} // verus!
