//! Which entities of the world appear on screen, where, and in which order they are drawn.
use vstd::prelude::*;
use crate::components::{EntityId, Glyph, Position};
use crate::render::glyphs::{GlyphRegistry, resolved_char};

verus! {

/// The screen rectangle the world view is drawn in.
#[derive(Debug, Clone, Copy, PartialEq, Eq, Structural)]
pub struct ScreenArea {
    pub x: u16,
    pub y: u16,
    pub width: u16,
    pub height: u16,
}

/// An entity as drawn: its screen cell, its glyph's color (before depth dimming), the
/// character drawn and its depth.
#[derive(Debug, Clone, Copy)]
pub struct ScreenGlyph {
    pub x: u16,
    pub y: u16,
    pub color: (u8, u8, u8),
    pub ch: char,
    pub z: u32,
}

/// Whether a world position falls inside the view whose top-left world tile is
/// `(cam_x, cam_y)`.
pub open spec fn on_screen(p: Position, cam_x: u32, cam_y: u32, area: ScreenArea) -> bool {
    cam_x <= p.x && p.x - cam_x < area.width && cam_y <= p.y && p.y - cam_y < area.height
}

/// Where and how an on-screen entity is drawn.
pub open spec fn screen_glyph_of(p: Position, g: Glyph, cam_x: u32, cam_y: u32, area: ScreenArea, reg: GlyphRegistry) -> ScreenGlyph {
    ScreenGlyph {
        x: (area.x + (p.x - cam_x)) as u16,
        y: (area.y + (p.y - cam_y)) as u16,
        color: g.color,
        ch: resolved_char(reg, g.char),
        z: p.z,
    }
}

/// The on-screen entities other than the player, in the order given.
pub open spec fn others_on_screen(es: Seq<(EntityId, Position, Glyph)>, player: Option<EntityId>, cam_x: u32, cam_y: u32,
    area: ScreenArea, reg: GlyphRegistry) -> Seq<ScreenGlyph>
    decreases es.len(),
{
    if es.len() == 0 {
        seq![]
    } else {
        let rest = others_on_screen(es.drop_last(), player, cam_x, cam_y, area, reg);
        let e = es.last();
        if on_screen(e.1, cam_x, cam_y, area) && player != Some(e.0) {
            rest.push(screen_glyph_of(e.1, e.2, cam_x, cam_y, area, reg))
        } else {
            rest
        }
    }
}

/// The player's screen glyph: that of the last on-screen entity with the player's id.
pub open spec fn player_on_screen(es: Seq<(EntityId, Position, Glyph)>, player: Option<EntityId>, cam_x: u32, cam_y: u32,
    area: ScreenArea, reg: GlyphRegistry) -> Option<ScreenGlyph>
    decreases es.len(),
{
    if es.len() == 0 {
        None
    } else {
        let e = es.last();
        if on_screen(e.1, cam_x, cam_y, area) && player == Some(e.0) {
            Some(screen_glyph_of(e.1, e.2, cam_x, cam_y, area, reg))
        } else {
            player_on_screen(es.drop_last(), player, cam_x, cam_y, area, reg)
        }
    }
}

/// Whether screen glyphs are in drawing order: shallower depths first.
pub open spec fn depth_ordered(s: Seq<ScreenGlyph>) -> bool {
    forall|i: int, j: int| 0 <= i < j < s.len() ==> s[i].z <= s[j].z
}

/// Trusted: `slice::sort_unstable_by_key` with the depth as key leaves the same glyphs,
/// ordered by depth; the order among equal depths is left open, as its documentation says.
#[verifier::external_body]
fn sort_by_depth(v: &mut Vec<ScreenGlyph>)
    ensures
        final(v)@.to_multiset() == old(v)@.to_multiset(),
        depth_ordered(final(v)@),
{
    v.sort_unstable_by_key(|e| e.z);
}

/// The entities to draw over the terrain: the others on screen in depth order, and the
/// player, drawn last, when on screen.
pub fn screen_entities(
    entities: &Vec<(EntityId, Position, Glyph)>,
    player: Option<EntityId>,
    cam_x: u32,
    cam_y: u32,
    area: ScreenArea,
    registry: &GlyphRegistry,
) -> (r: (Vec<ScreenGlyph>, Option<ScreenGlyph>))
    requires
        area.x + area.width <= u16::MAX,
        area.y + area.height <= u16::MAX,
    ensures
        r.0@.to_multiset() == others_on_screen(entities@, player, cam_x, cam_y, area, *registry).to_multiset(),
        depth_ordered(r.0@),
        r.1 == player_on_screen(entities@, player, cam_x, cam_y, area, *registry),
{
    let mut others: Vec<ScreenGlyph> = Vec::new();
    let mut me: Option<ScreenGlyph> = None;
    let mut i: usize = 0;
    while i < entities.len()
        invariant
            i <= entities@.len(),
            area.x + area.width <= u16::MAX,
            area.y + area.height <= u16::MAX,
            others@ == others_on_screen(entities@.subrange(0, i as int), player, cam_x, cam_y, area, *registry),
            me == player_on_screen(entities@.subrange(0, i as int), player, cam_x, cam_y, area, *registry),
        decreases entities.len() - i,
    {
        let ghost prefix = entities@.subrange(0, i + 1);
        assert(prefix.drop_last() =~= entities@.subrange(0, i as int));
        let (id, pos, glyph) = entities[i];
        let sx: i64 = pos.x as i64 - cam_x as i64;
        let sy: i64 = pos.y as i64 - cam_y as i64;
        if sx >= 0 && sx < area.width as i64 && sy >= 0 && sy < area.height as i64 {
            let entry = ScreenGlyph {
                x: area.x + sx as u16,
                y: area.y + sy as u16,
                color: glyph.color,
                ch: registry.resolve_char(glyph.char),
                z: pos.z,
            };
            let is_player = match player {
                Some(p) => p == id,
                None => false,
            };
            if is_player {
                me = Some(entry);
            } else {
                others.push(entry);
            }
        }
        i = i + 1;
    }
    assert(entities@.subrange(0, entities@.len() as int) =~= entities@);
    sort_by_depth(&mut others);
    (others, me)
}

} // verus!
