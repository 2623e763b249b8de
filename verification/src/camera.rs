//! The game camera: which part of the map the viewport shows, and where it is heading.
use vstd::prelude::*;

verus! {

/// The camera's position, the position it glides toward, and the viewport size. (How fast
/// it glides is kept by the front end, which animates it.)
#[derive(Debug, Clone, Copy, PartialEq, Eq, Structural)]
pub struct Camera {
    pub x: u32,
    pub y: u32,
    pub z: u32,
    pub target_x: u32,
    pub target_y: u32,
    pub viewport_width: u32,
    pub viewport_height: u32,
    pub scroll_speed: u32,
}

/// `a - b`, stopping at zero.
pub open spec fn sub0(a: u32, b: u32) -> u32 {
    if a >= b { (a - b) as u32 } else { 0 }
}

/// The smaller of two values.
pub open spec fn min_u32(a: u32, b: u32) -> u32 {
    if a <= b { a } else { b }
}

/// The farthest a viewport of width `view` can go on a map of width `size`.
pub open spec fn clamp_to(v: u32, size: u32, view: u32) -> u32 {
    min_u32(v, sub0(size, view))
}

impl Camera {
    /// A camera at the origin scrolling 2 tiles a step.
    pub fn new(viewport_width: u32, viewport_height: u32) -> (r: Self)
        ensures
            r == (Camera { x: 0, y: 0, z: 0, target_x: 0, target_y: 0, viewport_width, viewport_height, scroll_speed: 2 }),
    {
        Camera { x: 0, y: 0, z: 0, target_x: 0, target_y: 0, viewport_width, viewport_height, scroll_speed: 2 }
    }

    fn clamp_x(&self, x: u32, map_width: u32) -> (r: u32)
        ensures
            r == clamp_to(x, map_width, self.viewport_width),
    {
        let limit = map_width.saturating_sub(self.viewport_width);
        if x <= limit { x } else { limit }
    }

    fn clamp_y(&self, y: u32, map_height: u32) -> (r: u32)
        ensures
            r == clamp_to(y, map_height, self.viewport_height),
    {
        let limit = map_height.saturating_sub(self.viewport_height);
        if y <= limit { y } else { limit }
    }

    /// Heads up by a scroll step (not past the top), kept within the map.
    pub fn move_up(&mut self, map_height: u32)
        ensures
            *final(self) == (Camera {
                target_y: clamp_to(sub0(old(self).target_y, old(self).scroll_speed), map_height, old(self).viewport_height),
                ..*old(self)
            }),
    {
        let ty = self.target_y.saturating_sub(self.scroll_speed);
        self.target_y = self.clamp_y(ty, map_height);
    }

    /// Heads down by a scroll step, kept within the map.
    pub fn move_down(&mut self, map_height: u32)
        requires
            old(self).target_y + old(self).scroll_speed <= u32::MAX,
        ensures
            *final(self) == (Camera {
                target_y: clamp_to((old(self).target_y + old(self).scroll_speed) as u32, map_height, old(self).viewport_height),
                ..*old(self)
            }),
    {
        let ty = self.target_y + self.scroll_speed;
        self.target_y = self.clamp_y(ty, map_height);
    }

    /// Heads left by a scroll step, not past the left edge.
    pub fn move_left(&mut self, map_width: u32)
        ensures
            *final(self) == (Camera { target_x: sub0(old(self).target_x, old(self).scroll_speed), ..*old(self) }),
    {
        self.target_x = self.target_x.saturating_sub(self.scroll_speed);
    }

    /// Heads right by a scroll step, kept within the map.
    pub fn move_right(&mut self, map_width: u32)
        requires
            old(self).target_x + old(self).scroll_speed <= u32::MAX,
        ensures
            *final(self) == (Camera {
                target_x: clamp_to((old(self).target_x + old(self).scroll_speed) as u32, map_width, old(self).viewport_width),
                ..*old(self)
            }),
    {
        let tx = self.target_x + self.scroll_speed;
        self.target_x = self.clamp_x(tx, map_width);
    }

    /// Jumps so that `(x, y)` is in the middle of the view, kept within the map.
    pub fn centered_on(&mut self, x: u32, y: u32, map_width: u32, map_height: u32)
        ensures
            ({
                let tx = clamp_to(sub0(x, old(self).viewport_width / 2), map_width, old(self).viewport_width);
                let ty = clamp_to(sub0(y, old(self).viewport_height / 2), map_height, old(self).viewport_height);
                *final(self) == (Camera { x: tx, y: ty, target_x: tx, target_y: ty, ..*old(self) })
            }),
    {
        let tx = x.saturating_sub(self.viewport_width / 2);
        let ty = y.saturating_sub(self.viewport_height / 2);
        let tx = self.clamp_x(tx, map_width);
        let ty = self.clamp_y(ty, map_height);
        self.x = tx;
        self.y = ty;
        self.target_x = tx;
        self.target_y = ty;
    }

    /// Heads toward a position, kept within the map.
    pub fn pan_to(&mut self, target: (u32, u32), map_width: u32, map_height: u32)
        ensures
            *final(self) == (Camera {
                target_x: clamp_to(target.0, map_width, old(self).viewport_width),
                target_y: clamp_to(target.1, map_height, old(self).viewport_height),
                ..*old(self)
            }),
    {
        self.target_x = self.clamp_x(target.0, map_width);
        self.target_y = self.clamp_y(target.1, map_height);
    }

    /// Shows the player's depth level.
    pub fn follow_z(&mut self, player_z: u32)
        ensures
            *final(self) == (Camera { z: player_z, ..*old(self) }),
    {
        self.z = player_z;
    }
}

/// Wherever the camera heads, the whole viewport stays on the map (when the map is at least as
/// large as the viewport).
pub proof fn law_camera_target_on_map(v: u32, size: u32, view: u32)
    requires
        view <= size,
    ensures
        clamp_to(v, size, view) + view <= size,
{
}

} // verus!
