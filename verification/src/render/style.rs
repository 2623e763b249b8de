//! Text styles of the interface: which theme color and weight each kind of text uses.
use vstd::prelude::*;
use crate::color_theme::ColorTheme;

verus! {

/// The interface's text styles.
pub struct Typography;

/// The kinds of styled text.
#[derive(Debug, Clone, Copy, PartialEq, Eq, Structural)]
pub enum TextRole {
    Title,
    Heading,
    Label,
    Body,
    Muted,
    Border,
    Cursor,
    Highlighted,
    Success,
    SuccessBody,
    Warning,
    Danger,
    DangerBody,
    Accent,
    MenuBorder,
    QuestBoardTitle,
    EquippedSlot,
    EmptySlot,
}

/// The color and boldness of a kind of text under a theme.
pub open spec fn role_style(role: TextRole, t: ColorTheme) -> ((u8, u8, u8), bool) {
    match role {
        TextRole::Title => (t.title, true),
        TextRole::Heading => (t.heading, true),
        TextRole::Label => (t.label, false),
        TextRole::Body => (t.body, false),
        TextRole::Muted => (t.muted, false),
        TextRole::Border => (t.border, false),
        TextRole::Cursor => (t.cursor, false),
        TextRole::Highlighted => (t.highlighted, true),
        TextRole::Success => (t.success, true),
        TextRole::SuccessBody => (t.success, false),
        TextRole::Warning => (t.warning, false),
        TextRole::Danger => (t.danger, true),
        TextRole::DangerBody => (t.danger, false),
        TextRole::Accent => (t.accent, false),
        TextRole::MenuBorder => (t.menu_border, false),
        TextRole::QuestBoardTitle => (t.quest_board, true),
        TextRole::EquippedSlot => (t.equipped, false),
        TextRole::EmptySlot => (t.empty_slot, false),
    }
}

impl Typography {
    /// The color (from the theme) and boldness of a kind of text.
    pub fn role(role: TextRole, theme: &ColorTheme) -> (r: ((u8, u8, u8), bool))
        ensures
            r == role_style(role, *theme),
    {
        match role {
            TextRole::Title => (theme.title, true),
            TextRole::Heading => (theme.heading, true),
            TextRole::Label => (theme.label, false),
            TextRole::Body => (theme.body, false),
            TextRole::Muted => (theme.muted, false),
            TextRole::Border => (theme.border, false),
            TextRole::Cursor => (theme.cursor, false),
            TextRole::Highlighted => (theme.highlighted, true),
            TextRole::Success => (theme.success, true),
            TextRole::SuccessBody => (theme.success, false),
            TextRole::Warning => (theme.warning, false),
            TextRole::Danger => (theme.danger, true),
            TextRole::DangerBody => (theme.danger, false),
            TextRole::Accent => (theme.accent, false),
            TextRole::MenuBorder => (theme.menu_border, false),
            TextRole::QuestBoardTitle => (theme.quest_board, true),
            TextRole::EquippedSlot => (theme.equipped, false),
            TextRole::EmptySlot => (theme.empty_slot, false),
        }
    }

    /// The style of an equipment slot: the equipped color when it holds an item, else the
    /// empty-slot color.
    pub fn slot_role(has_item: bool) -> (r: TextRole)
        ensures
            r == if has_item { TextRole::EquippedSlot } else { TextRole::EmptySlot },
    {
        if has_item { TextRole::EquippedSlot } else { TextRole::EmptySlot }
    }
}

} // verus!
