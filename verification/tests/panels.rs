use carapace::components::{Glyph, Health, Position};
use carapace::crafting::{CraftingRecipe, RecipeAvailability};
use carapace::examine::ExamineMode;
use carapace::quest::{ActiveQuest, QuestObjective, QuestState};
use carapace::render::glyphs::{GlyphEntry, GlyphRegistry};
use carapace::render::panels::{
    backpack_title, death_summary, dialogue_text_lines, examine_focus, hp_band, hud_hp_text, hud_position_text,
    hud_quest_index, hud_quest_text, hud_slot_text, inventory_item_name, inventory_slot_name, journal_entries,
    recipe_line, examine_lines, ExamineLineKind, HpBand,
};
use carapace::render::world::{screen_entities, ScreenArea};
use carapace::stats::PlayerStats;
use carapace::tags::{TagRegistry, Tags};

fn quest(name: &str, state: QuestState, killed: u32) -> ActiveQuest {
    ActiveQuest {
        quest_id: format!("q_{}", name),
        template_id: "hunt".to_string(),
        name: name.to_string(),
        description: String::new(),
        objective: QuestObjective::Kill { target_name: "Rat".to_string(), killed, required: 3 },
        state,
        reward_tags: vec![],
    }
}

#[test]
fn hud_health_bands_and_text() {
    assert_eq!(hp_band(Health { current: 24, max: 100 }), HpBand::Critical);
    assert_eq!(hp_band(Health { current: 25, max: 100 }), HpBand::Wounded);
    assert_eq!(hp_band(Health { current: 49, max: 100 }), HpBand::Wounded);
    assert_eq!(hp_band(Health { current: 50, max: 100 }), HpBand::Healthy);
    assert_eq!(hud_hp_text(Health { current: 80, max: 100 }), " HP: 80/100 ");
    assert_eq!(hud_position_text(Position { x: 3, y: 14, z: 0 }), " (3, 14) ");
    assert_eq!(hud_slot_text("W", Some(&"Blade".to_string())), " W:Blade");
    assert_eq!(hud_slot_text("A", None), " A:-");
}

#[test]
fn hud_follows_first_listed_quest() {
    let quests = vec![
        quest("Old", QuestState::TurnedIn, 3),
        quest("Hunt", QuestState::Active, 1),
        quest("Later", QuestState::Complete, 3),
    ];
    let i = hud_quest_index(&quests).unwrap();
    assert_eq!(i, 1);
    assert_eq!(hud_quest_text(&quests[i]), " Hunt [1/3 Rat]");
    assert_eq!(hud_quest_index(&vec![quest("Gone", QuestState::Failed, 0)]), None);
}

#[test]
fn journal_lists_active_and_complete_quests() {
    let quests = vec![
        quest("Hunt", QuestState::Active, 1),
        quest("Old", QuestState::TurnedIn, 3),
        quest("Done", QuestState::Complete, 3),
    ];
    let entries = journal_entries(&quests);
    assert_eq!(entries.len(), 2);
    assert_eq!(entries[0].name, "Hunt");
    assert_eq!(entries[0].progress, "[1/3 Rat]");
    assert!(!entries[0].done);
    assert_eq!(entries[1].progress, "[3/3 Rat] DONE!");
    assert!(entries[1].done);
}

#[test]
fn examine_focus_prefers_the_cursor() {
    let mut mode = ExamineMode::new();
    let player = Some(Position { x: 4, y: 5, z: 0 });
    assert_eq!(examine_focus(Some(&mode), player), Some((4, 5)));
    mode.active = true;
    mode.cursor = Position { x: 9, y: 1, z: 0 };
    assert_eq!(examine_focus(Some(&mode), player), Some((9, 1)));
    assert_eq!(examine_focus(None, None), None);
}

#[test]
fn inventory_names_items() {
    let mut reg = TagRegistry::new();
    let ore = reg.add_tag("resource", "ORE_IRON_DEEP", None, None);
    let metal = reg.add_tag("material", "METAL", None, None);
    let gem = reg.add_tag("resource", "GEM_RUBY", None, None);
    let mut tags = Tags::new(reg.tag_count());
    tags.add_tag(ore);
    tags.add_tag(metal);
    tags.add_tag(gem);
    assert_eq!(inventory_item_name(None, '*', Some(&tags), Some(&reg)), "ORE IRON DEEP, GEM RUBY");
    assert_eq!(inventory_item_name(Some(&"Rock".to_string()), '*', Some(&tags), Some(&reg)), "Rock");
    let mut plain = Tags::new(reg.tag_count());
    plain.add_tag(metal);
    assert_eq!(inventory_item_name(None, '*', Some(&plain), Some(&reg)), "*");
    assert_eq!(inventory_item_name(None, '/', None, Some(&reg)), "/");
    assert_eq!(inventory_slot_name(None, Some('/')), "/");
    assert_eq!(inventory_slot_name(None, None), "(empty)");
    assert_eq!(backpack_title(2, 20), " Backpack (2/20):");
}

fn availability(env_met: bool) -> RecipeAvailability {
    RecipeAvailability {
        recipe: CraftingRecipe {
            name: "Torch".to_string(),
            inputs: vec!["WOOD".to_string(), "RESIN".to_string()],
            requires_env: vec!["FIRE".to_string(), "DRY".to_string()],
            outputs: vec![],
        },
        available: env_met,
        missing_inputs: vec![],
        env_met,
    }
}

#[test]
fn crafting_lines_pad_names_and_note_needs() {
    let (name, detail) = recipe_line(&availability(false));
    assert_eq!(name, "Torch               ");
    assert_eq!(name.len(), 20);
    assert_eq!(detail, "[WOOD, RESIN] [need FIRE,DRY]");
    let (_, detail) = recipe_line(&availability(true));
    assert_eq!(detail, "[WOOD, RESIN]");
}

#[test]
fn dialogue_text_wraps_greedily() {
    let lines = dialogue_text_lines("The  quick brown\tfox jumps over", 10);
    assert_eq!(lines, vec![" The quick", " brown fox", " jumps over"]);
    let lines = dialogue_text_lines("a extraordinarily b", 5);
    assert_eq!(lines, vec![" a", " extraordinarily", " b"]);
    assert!(dialogue_text_lines("   ", 10).is_empty());
}

#[test]
fn death_summary_lines() {
    let stats = PlayerStats { enemies_defeated: 4, items_collected: 9 };
    assert_eq!(
        death_summary(120, &stats),
        vec![" Turns survived:  120", " Enemies slain:   4", " Items collected: 9"]
    );
}

#[test]
fn world_view_culls_and_orders_entities() {
    let reg = GlyphRegistry::from_config(&vec![
        GlyphEntry { name: "player".to_string(), glyph: '@', color: [0, 255, 255] },
        GlyphEntry { name: "rat".to_string(), glyph: 'r', color: [200, 0, 0] },
    ]);
    let g = |c: char| Glyph { char: c, color: (1, 2, 3) };
    let entities = vec![
        (1u64, Position { x: 12, y: 11, z: 2 }, g('r')),
        (2u64, Position { x: 10, y: 10, z: 0 }, g('@')),
        (3u64, Position { x: 13, y: 10, z: 1 }, g('x')),
        (4u64, Position { x: 50, y: 10, z: 0 }, g('r')),
        (5u64, Position { x: 9, y: 10, z: 0 }, g('r')),
    ];
    let area = ScreenArea { x: 1, y: 2, width: 20, height: 10 };
    let (others, me) = screen_entities(&entities, Some(2), 10, 10, area, &reg);
    let me = me.unwrap();
    assert_eq!((me.x, me.y, me.ch), (1, 2, '@'));
    assert_eq!(others.len(), 2);
    assert_eq!((others[0].x, others[0].y, others[0].ch, others[0].z), (4, 2, '?', 1));
    assert_eq!((others[1].x, others[1].y, others[1].ch, others[1].z), (3, 3, 'r', 2));
}

#[test]
fn examine_lines_describe_tile_and_player() {
    let reg = GlyphRegistry::from_config(&vec![GlyphEntry { name: "player".to_string(), glyph: '@', color: [0, 255, 255] }]);
    let lines = examine_lines(
        3,
        4,
        Some(("forest", (0, 120, 7))),
        &reg,
        Some((Position { x: 3, y: 4, z: 0 }, 'X')),
        Some(Health { current: 7, max: 10 }),
    );
    let text: Vec<(ExamineLineKind, &str)> = lines.iter().map(|(k, t)| (*k, t.as_str())).collect();
    assert_eq!(
        text,
        vec![
            (ExamineLineKind::Cursor, " Cursor: (3, 4)"),
            (ExamineLineKind::Biome, " Biome: forest"),
            (ExamineLineKind::TileColor, " Color: (0, 120, 7)"),
            (ExamineLineKind::GlyphInfo, " Glyph: @ (known)"),
            (ExamineLineKind::Blank, ""),
            (ExamineLineKind::PlayerGlyph, " Player: ?"),
            (ExamineLineKind::PlayerPosition, " Pos: (3, 4)"),
            (ExamineLineKind::PlayerHealth, " HP: 7/10"),
            (ExamineLineKind::Blank, ""),
            (ExamineLineKind::CloseHint, " [X] Close "),
        ]
    );
}

#[test]
fn examine_lines_without_tile_or_player() {
    let reg = GlyphRegistry::empty();
    let lines = examine_lines(0, 9, None, &reg, None, None);
    let text: Vec<&str> = lines.iter().map(|(_, t)| t.as_str()).collect();
    assert_eq!(text, vec![" Cursor: (0, 9)", "", " [X] Close "]);
}
