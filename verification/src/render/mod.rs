//! What the renderers share: the glyph registry, the view camera, typography and the
//! glyph atlas layout.
pub mod camera;

pub mod glyphs;
pub mod panels;
pub mod spritesheet;
pub mod style;
pub mod world;
