//! The world overview screen: zoom, cursor and tabs.
use vstd::prelude::*;

verus! {

/// What the overview is open for.
#[derive(Debug, Clone, Copy, PartialEq, Eq, Structural)]
pub enum WorldOverviewMode {
    ReadOnly,
    SpawnSelection,
    InWorld,
}

impl Default for WorldOverviewMode {
    fn default() -> (r: Self)
        ensures
            r == WorldOverviewMode::ReadOnly,
    {
        WorldOverviewMode::ReadOnly
    }
}

/// The overview's tabs.
#[derive(Debug, Clone, Copy, PartialEq, Eq, Structural)]
pub enum OverviewTab {
    Minimap,
    History,
    CivSummary,
}

impl Default for OverviewTab {
    fn default() -> (r: Self)
        ensures
            r == OverviewTab::Minimap,
    {
        OverviewTab::Minimap
    }
}

/// The overview's state. The zoom level runs from 0 (widest) to 2.
#[derive(Debug, Clone, Copy, PartialEq, Eq, Structural)]
pub struct WorldOverviewState {
    pub active: bool,
    pub mode: WorldOverviewMode,
    pub zoom: u32,
    pub pan_x: u32,
    pub pan_y: u32,
    pub cursor_x: u32,
    pub cursor_y: u32,
    pub player_x: u32,
    pub player_y: u32,
    pub tab: OverviewTab,
    pub history_scroll: usize,
    pub civ_scroll: usize,
}

/// The closed overview.
pub open spec fn closed_overview() -> WorldOverviewState {
    WorldOverviewState {
        active: false,
        mode: WorldOverviewMode::ReadOnly,
        zoom: 0,
        pan_x: 0,
        pan_y: 0,
        cursor_x: 0,
        cursor_y: 0,
        player_x: 0,
        player_y: 0,
        tab: OverviewTab::Minimap,
        history_scroll: 0,
        civ_scroll: 0,
    }
}

/// Map tiles per overview cell at a zoom level: 4, 2, 1.
pub open spec fn cell_tiles(zoom: u32) -> u32 {
    if zoom == 0 { 4 } else if zoom == 1 { 2 } else { 1 }
}

impl Default for WorldOverviewState {
    /// Closed, read-only, widest zoom, everything at zero, on the minimap tab.
    fn default() -> (r: Self)
        ensures
            r == closed_overview(),
    {
        WorldOverviewState {
            active: false,
            mode: WorldOverviewMode::ReadOnly,
            zoom: 0,
            pan_x: 0,
            pan_y: 0,
            cursor_x: 0,
            cursor_y: 0,
            player_x: 0,
            player_y: 0,
            tab: OverviewTab::Minimap,
            history_scroll: 0,
            civ_scroll: 0,
        }
    }
}

impl WorldOverviewState {
    /// An open overview in the given mode, otherwise as the default.
    pub fn new(mode: WorldOverviewMode) -> (r: Self)
        ensures
            r == (WorldOverviewState { active: true, mode, ..closed_overview() }),
    {
        let d = WorldOverviewState::default();
        WorldOverviewState { active: true, mode, ..d }
    }

    /// One zoom level closer, up to 2.
    pub fn zoom_in(&mut self)
        ensures
            *final(self) == (WorldOverviewState { zoom: if old(self).zoom < 2 { (old(self).zoom + 1) as u32 } else { old(self).zoom }, ..*old(self) }),
    {
        if self.zoom < 2 {
            self.zoom = self.zoom + 1;
        }
    }

    /// One zoom level wider, down to 0.
    pub fn zoom_out(&mut self)
        ensures
            *final(self) == (WorldOverviewState { zoom: if old(self).zoom > 0 { (old(self).zoom - 1) as u32 } else { old(self).zoom }, ..*old(self) }),
    {
        if self.zoom > 0 {
            self.zoom = self.zoom - 1;
        }
    }

    /// Map tiles per overview cell: `2^(2 - zoom)`.
    pub fn tiles_per_cell(&self) -> (r: u32)
        requires
            self.zoom <= 2,
        ensures
            r == cell_tiles(self.zoom),
    {
        let shift = 2 - self.zoom;
        assert(shift <= 2);
        let r = 1u32 << shift;
        assert(1u32 << 0u32 == 1u32 && 1u32 << 1u32 == 2u32 && 1u32 << 2u32 == 4u32) by (bit_vector);
        r
    }

    /// Cursor up a cell, not past the top.
    pub fn move_cursor_up(&mut self, map_height: u32)
        requires
            old(self).zoom <= 2,
        ensures
            *final(self) == (WorldOverviewState {
                cursor_y: if old(self).cursor_y >= cell_tiles(old(self).zoom) { (old(self).cursor_y - cell_tiles(old(self).zoom)) as u32 } else { 0 },
                ..*old(self)
            }),
    {
        let step = self.tiles_per_cell();
        self.cursor_y = self.cursor_y.saturating_sub(step);
    }

    /// Cursor down a cell, not past the last row.
    pub fn move_cursor_down(&mut self, map_height: u32)
        requires
            old(self).zoom <= 2,
            old(self).cursor_y + cell_tiles(old(self).zoom) <= u32::MAX,
        ensures
            ({
                let last: u32 = if map_height >= 1 { (map_height - 1) as u32 } else { 0 };
                let moved = old(self).cursor_y + cell_tiles(old(self).zoom);
                *final(self) == (WorldOverviewState { cursor_y: if moved <= last { moved as u32 } else { last }, ..*old(self) })
            }),
    {
        let step = self.tiles_per_cell();
        let moved = self.cursor_y + step;
        let last = map_height.saturating_sub(1);
        self.cursor_y = if moved <= last { moved } else { last };
    }

    /// Cursor left a cell, not past the left edge.
    pub fn move_cursor_left(&mut self, map_width: u32)
        requires
            old(self).zoom <= 2,
        ensures
            *final(self) == (WorldOverviewState {
                cursor_x: if old(self).cursor_x >= cell_tiles(old(self).zoom) { (old(self).cursor_x - cell_tiles(old(self).zoom)) as u32 } else { 0 },
                ..*old(self)
            }),
    {
        let step = self.tiles_per_cell();
        self.cursor_x = self.cursor_x.saturating_sub(step);
    }

    /// Cursor right a cell, not past the last column.
    pub fn move_cursor_right(&mut self, map_width: u32)
        requires
            old(self).zoom <= 2,
            old(self).cursor_x + cell_tiles(old(self).zoom) <= u32::MAX,
        ensures
            ({
                let last: u32 = if map_width >= 1 { (map_width - 1) as u32 } else { 0 };
                let moved = old(self).cursor_x + cell_tiles(old(self).zoom);
                *final(self) == (WorldOverviewState { cursor_x: if moved <= last { moved as u32 } else { last }, ..*old(self) })
            }),
    {
        let step = self.tiles_per_cell();
        let moved = self.cursor_x + step;
        let last = map_width.saturating_sub(1);
        self.cursor_x = if moved <= last { moved } else { last };
    }
}

/// Zooming keeps the level within 0..=2.
pub proof fn law_zoom_in_range(zoom: u32)
    requires
        zoom <= 2,
    ensures
        (if zoom < 2 { zoom + 1 } else { zoom as int }) <= 2,
        (if zoom > 0 { zoom - 1 } else { zoom as int }) >= 0,
{
}

} // verus!
