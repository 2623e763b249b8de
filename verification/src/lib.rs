//! Game rules of the Carapace roguelike: tags, trading, quests, crafting,
//! encounters, traps, reputation, narrative prompts and glyph lookup,
//! written over plain values and verified with Verus.
pub mod artifacts;
pub mod barter;
pub mod calc;
pub mod camera;
pub mod color_theme;
pub mod components;
pub mod crafting;
pub mod dialogue;
pub mod dice;
pub mod durability;
pub mod emotion;
pub mod encounters;
pub mod environment;
pub mod events;
pub mod examine;
pub mod interaction;
pub mod llm;
pub mod narrative;
pub mod npc_action;
pub mod npc_personality;
pub mod personality;
pub mod quest;
pub mod render;
pub mod reputation;
pub mod save;
pub mod screen;
pub mod stats;
pub mod tags;
pub mod text;
pub mod traps;
pub mod turn;
pub mod weather;
pub mod world_overview;
