//! Examine mode: a cursor the player moves to look at tiles.
use vstd::prelude::*;
use crate::components::Position;

verus! {

/// Whether examine mode is on, and where its cursor is.
#[derive(Debug, Clone, Copy, PartialEq, Eq, Structural)]
pub struct ExamineMode {
    pub active: bool,
    pub cursor: Position,
}

impl ExamineMode {
    /// Off, with the cursor at the origin.
    pub fn new() -> (r: Self)
        ensures
            r == (ExamineMode { active: false, cursor: Position { x: 0, y: 0, z: 0 } }),
    {
        ExamineMode { active: false, cursor: Position { x: 0, y: 0, z: 0 } }
    }

    /// Puts the cursor on a tile of the surface level.
    pub fn set_cursor(&mut self, x: u32, y: u32)
        ensures
            *final(self) == (ExamineMode { cursor: Position { x, y, z: 0 }, ..*old(self) }),
    {
        self.cursor = Position { x, y, z: 0 };
    }
}

impl Default for ExamineMode {
    /// Off, with the cursor at the origin.
    fn default() -> (r: Self)
        ensures
            r == (ExamineMode { active: false, cursor: Position { x: 0, y: 0, z: 0 } }),
    {
        ExamineMode::new()
    }
}

} // verus!
