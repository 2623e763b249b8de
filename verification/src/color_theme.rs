//! The UI color theme.
use vstd::prelude::*;

verus! {

/// Named UI colors as RGB triples.
#[derive(Debug, Clone, Copy)]
pub struct ColorTheme {
    pub title: (u8, u8, u8),
    pub heading: (u8, u8, u8),
    pub label: (u8, u8, u8),
    pub body: (u8, u8, u8),
    pub muted: (u8, u8, u8),
    pub border: (u8, u8, u8),
    pub cursor: (u8, u8, u8),
    pub highlighted: (u8, u8, u8),
    pub success: (u8, u8, u8),
    pub warning: (u8, u8, u8),
    pub danger: (u8, u8, u8),
    pub accent: (u8, u8, u8),
    pub menu_border: (u8, u8, u8),
    pub quest_board: (u8, u8, u8),
    pub death: (u8, u8, u8),
    pub pause: (u8, u8, u8),
    pub debug: (u8, u8, u8),
    pub biome: (u8, u8, u8),
    pub equipped: (u8, u8, u8),
    pub empty_slot: (u8, u8, u8),
    pub loading: (u8, u8, u8),
    pub speaker: (u8, u8, u8),
    pub messages_title: (u8, u8, u8),
    pub selector: (u8, u8, u8),
}

impl Default for ColorTheme {
    fn default() -> (r: Self)
        ensures
            r.title == (0u8, 255u8, 255u8),
            r.heading == (255u8, 255u8, 0u8),
            r.label == (0u8, 255u8, 255u8),
            r.body == (255u8, 255u8, 255u8),
            r.muted == (64u8, 64u8, 64u8),
            r.border == (255u8, 255u8, 255u8),
            r.cursor == (255u8, 255u8, 0u8),
            r.highlighted == (255u8, 255u8, 255u8),
            r.success == (0u8, 255u8, 0u8),
            r.warning == (255u8, 255u8, 0u8),
            r.danger == (255u8, 0u8, 0u8),
            r.accent == (255u8, 0u8, 255u8),
            r.menu_border == (0u8, 255u8, 255u8),
            r.quest_board == (160u8, 120u8, 60u8),
            r.death == (255u8, 0u8, 0u8),
            r.pause == (255u8, 255u8, 0u8),
            r.debug == (255u8, 255u8, 0u8),
            r.biome == (255u8, 0u8, 255u8),
            r.equipped == (0u8, 255u8, 0u8),
            r.empty_slot == (64u8, 64u8, 64u8),
            r.loading == (255u8, 255u8, 0u8),
            r.speaker == (0u8, 255u8, 255u8),
            r.messages_title == (64u8, 64u8, 64u8),
            r.selector == (255u8, 255u8, 0u8),
    {
        ColorTheme {
            title: (0, 255, 255),
            heading: (255, 255, 0),
            label: (0, 255, 255),
            body: (255, 255, 255),
            muted: (64, 64, 64),
            border: (255, 255, 255),
            cursor: (255, 255, 0),
            highlighted: (255, 255, 255),
            success: (0, 255, 0),
            warning: (255, 255, 0),
            danger: (255, 0, 0),
            accent: (255, 0, 255),
            menu_border: (0, 255, 255),
            quest_board: (160, 120, 60),
            death: (255, 0, 0),
            pause: (255, 255, 0),
            debug: (255, 255, 0),
            biome: (255, 0, 255),
            equipped: (0, 255, 0),
            empty_slot: (64, 64, 64),
            loading: (255, 255, 0),
            speaker: (0, 255, 255),
            messages_title: (64, 64, 64),
            selector: (255, 255, 0),
        }
    }
}

} // verus!
