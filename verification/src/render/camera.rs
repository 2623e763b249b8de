//! The map view's camera: a viewport that scrolls over the world map.
use vstd::prelude::*;
use crate::camera::{clamp_to, min_u32, sub0};

verus! {

/// The size of the world map, in tiles.
#[derive(Debug, Clone, Copy, PartialEq, Eq, Structural)]
pub struct MapSize {
    pub width: u32,
    pub height: u32,
}

/// A tile position on the world map.
#[derive(Debug, Clone, Copy, PartialEq, Eq, Structural)]
pub struct TilePos {
    pub x: u32,
    pub y: u32,
}

/// The top-left tile the viewport shows, its size and how far it scrolls a step.
#[derive(Debug, Clone, Copy, PartialEq, Eq, Structural)]
pub struct Camera {
    pub x: u32,
    pub y: u32,
    pub z: u32,
    pub viewport_width: u32,
    pub viewport_height: u32,
    pub scroll_speed: u32,
}

impl Camera {
    /// A camera at the origin scrolling 2 tiles a step.
    pub fn new(viewport_width: u32, viewport_height: u32) -> (r: Self)
        ensures
            r == (Camera { x: 0, y: 0, z: 0, viewport_width, viewport_height, scroll_speed: 2 }),
    {
        Camera { x: 0, y: 0, z: 0, viewport_width, viewport_height, scroll_speed: 2 }
    }

    /// Scrolls up a step, not past the top.
    pub fn move_up(&mut self, map: &MapSize)
        ensures
            *final(self) == (Camera { y: sub0(old(self).y, old(self).scroll_speed), ..*old(self) }),
    {
        self.y = self.y.saturating_sub(self.scroll_speed);
    }

    /// Scrolls down a step, not past the bottom of the map.
    pub fn move_down(&mut self, map: &MapSize)
        requires
            old(self).y + old(self).scroll_speed <= u32::MAX,
        ensures
            *final(self) == (Camera {
                y: min_u32((old(self).y + old(self).scroll_speed) as u32, sub0(map.height, old(self).viewport_height)),
                ..*old(self)
            }),
    {
        let moved = self.y + self.scroll_speed;
        let limit = map.height.saturating_sub(self.viewport_height);
        self.y = if moved <= limit { moved } else { limit };
    }

    /// Scrolls left a step, not past the left edge.
    pub fn move_left(&mut self, map: &MapSize)
        ensures
            *final(self) == (Camera { x: sub0(old(self).x, old(self).scroll_speed), ..*old(self) }),
    {
        self.x = self.x.saturating_sub(self.scroll_speed);
    }

    /// Scrolls right a step, not past the right edge of the map.
    pub fn move_right(&mut self, map: &MapSize)
        requires
            old(self).x + old(self).scroll_speed <= u32::MAX,
        ensures
            *final(self) == (Camera {
                x: min_u32((old(self).x + old(self).scroll_speed) as u32, sub0(map.width, old(self).viewport_width)),
                ..*old(self)
            }),
    {
        let moved = self.x + self.scroll_speed;
        let limit = map.width.saturating_sub(self.viewport_width);
        self.x = if moved <= limit { moved } else { limit };
    }

    /// Puts `pos` in the middle of the view, kept within the map.
    pub fn centered_on(&mut self, pos: TilePos, map: &MapSize)
        ensures
            *final(self) == (Camera {
                x: clamp_to(sub0(pos.x, old(self).viewport_width / 2), map.width, old(self).viewport_width),
                y: clamp_to(sub0(pos.y, old(self).viewport_height / 2), map.height, old(self).viewport_height),
                ..*old(self)
            }),
    {
        self.x = pos.x.saturating_sub(self.viewport_width / 2);
        self.y = pos.y.saturating_sub(self.viewport_height / 2);
        self.clamp(map);
    }

    fn clamp(&mut self, map: &MapSize)
        ensures
            *final(self) == (Camera {
                x: clamp_to(old(self).x, map.width, old(self).viewport_width),
                y: clamp_to(old(self).y, map.height, old(self).viewport_height),
                ..*old(self)
            }),
    {
        let lx = map.width.saturating_sub(self.viewport_width);
        let ly = map.height.saturating_sub(self.viewport_height);
        if self.x > lx { self.x = lx; }
        if self.y > ly { self.y = ly; }
    }
}

} // verus!
