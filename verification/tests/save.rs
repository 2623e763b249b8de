use carapace::components::{Equipment, Glyph, Health, MessageLog, Position};
use carapace::quest::{QuestLog, QuestObjective, QuestState};
use carapace::save::{
    build_save, deserialize_to_world, quest_state_to_string, save_filename, serialize_entities, serialize_item,
    serialize_player, should_auto_save, string_to_quest_state, EntityRecord, EntitySave, ItemRecord, PlayerRecord,
    PlayerSave, QuestLogSave, QuestObjectiveSave, SaveGame, AUTO_SAVE_INTERVAL, SAVE_VERSION,
};
use carapace::save::{has_toml_extension, save_listing};
use carapace::turn::TurnCounter;

#[test]
fn quest_objective_round_trip_kill() {
    let obj = QuestObjective::Kill { target_name: "Target".to_string(), killed: 2, required: 5 };
    let save: QuestObjectiveSave = (&obj).into();
    let restored: QuestObjective = (&save).into();
    if let QuestObjective::Kill { target_name, killed, required } = restored {
        assert_eq!(target_name, "Target");
        assert_eq!(killed, 2);
        assert_eq!(required, 5);
    } else {
        panic!("Wrong variant");
    }
}

#[test]
fn quest_objective_round_trip_collect() {
    let obj = QuestObjective::Collect { tag_name: "ORE_IRON".to_string(), collected: 3, required: 5 };
    let save: QuestObjectiveSave = (&obj).into();
    let restored: QuestObjective = (&save).into();
    if let QuestObjective::Collect { tag_name, collected, required } = restored {
        assert_eq!(tag_name, "ORE_IRON");
        assert_eq!(collected, 3);
        assert_eq!(required, 5);
    } else {
        panic!("Wrong variant");
    }
}

#[test]
fn quest_objective_round_trip_reach() {
    let obj = QuestObjective::Reach { biome: "Forest".to_string(), reached: true };
    let save: QuestObjectiveSave = (&obj).into();
    let restored: QuestObjective = (&save).into();
    if let QuestObjective::Reach { biome, reached } = restored {
        assert_eq!(biome, "Forest");
        assert!(reached);
    } else {
        panic!("Wrong variant");
    }
}

#[test]
fn quest_state_serialization() {
    assert_eq!(quest_state_to_string(&QuestState::Active), "Active");
    assert_eq!(quest_state_to_string(&QuestState::Complete), "Complete");
    assert_eq!(quest_state_to_string(&QuestState::TurnedIn), "TurnedIn");
}

#[test]
fn quest_state_deserialization() {
    assert!(matches!(string_to_quest_state("Active"), QuestState::Active));
    assert!(matches!(string_to_quest_state("Complete"), QuestState::Complete));
    assert!(matches!(string_to_quest_state("TurnedIn"), QuestState::TurnedIn));
    assert!(matches!(string_to_quest_state("Failed"), QuestState::Failed));
    assert!(matches!(string_to_quest_state("whatever"), QuestState::Active));
}

#[test]
fn save_game_version() {
    assert_eq!(SAVE_VERSION, 1);
}

#[test]
fn auto_save_interval() {
    assert_eq!(AUTO_SAVE_INTERVAL, 100);
}

#[test]
fn save_filename_format() {
    let name = save_filename(42, 100);
    assert_eq!(name, "save_42_100.toml");
    assert_eq!(save_filename(0, u64::MAX), "save_0_18446744073709551615.toml");
}

fn player_record(x: u32, y: u32, hp: u32) -> PlayerRecord {
    PlayerRecord {
        position: Position { x, y, z: 0 },
        health: Health { current: hp, max: 100 },
        glyph: Glyph { char: '@', color: (255, 255, 0) },
        inventory_items: vec![],
        inventory_capacity: 20,
        equipment: Equipment::default(),
    }
}

fn creature_record(name: Option<&str>) -> EntityRecord {
    EntityRecord {
        is_player: false,
        position: Position { x: 5, y: 5, z: 0 },
        health: Health { current: 30, max: 50 },
        glyph: Glyph { char: 'g', color: (0, 255, 0) },
        name: name.map(|s| s.to_string()),
        inventory: None,
        is_item: false,
        is_creature: true,
        active_quest: None,
    }
}

#[test]
fn serialize_deserialize_player() {
    let player = player_record(10, 20, 80);
    let player_save = serialize_player(Some(&player)).unwrap();
    assert_eq!(player_save.x, 10);
    assert_eq!(player_save.y, 20);
    assert_eq!(player_save.hp_current, 80);
    assert_eq!(player_save.hp_max, 100);
    assert_eq!(player_save.glyph, '@');
    assert_eq!(serialize_player(None).unwrap_err(), "No player entity found");
}

#[test]
fn serialize_entities_excludes_player() {
    let player_as_entity = EntityRecord {
        is_player: true,
        position: Position { x: 0, y: 0, z: 0 },
        health: Health { current: 100, max: 100 },
        glyph: Glyph { char: '@', color: (255, 255, 0) },
        name: None,
        inventory: None,
        is_item: false,
        is_creature: false,
        active_quest: None,
    };
    let entities = serialize_entities(&vec![player_as_entity, creature_record(None)]);
    assert_eq!(entities.len(), 1);
    assert_eq!(entities[0].x, 5);
    assert!(entities[0].is_creature);
}

#[test]
fn full_round_trip() {
    let turn = TurnCounter(150);
    let log = QuestLog { turned_in: vec!["quest_1".to_string()] };
    let messages = MessageLog::new(100);
    let player = player_record(10, 20, 80);
    let entities = vec![creature_record(Some("Creature"))];

    let save = build_save(42, Some(&turn), Some(&player), &entities, Some(&log), Some(&messages)).unwrap();
    assert_eq!(save.version, SAVE_VERSION);
    assert_eq!(save.seed, 42);
    assert_eq!(save.turn, 150);
    assert_eq!(save.player.x, 10);
    assert_eq!(save.entities.len(), 1);
    assert_eq!(save.quest_log.turned_in.len(), 1);

    let restored = deserialize_to_world(&save);
    assert_eq!(restored.turn.0, 150);
    assert_eq!(restored.player.position.x, 10);
    assert_eq!(restored.player.health.current, 80);
    assert_eq!(restored.entities.len(), 1);
    assert_eq!(restored.entities[0].name.as_deref(), Some("Creature"));
    assert_eq!(restored.quest_log.turned_in, vec!["quest_1".to_string()]);
}

#[test]
fn build_save_without_player_fails() {
    assert!(build_save(1, None, None, &vec![], None, None).is_err());
    let player = player_record(1, 2, 3);
    let save = build_save(1, None, Some(&player), &vec![], None, None).unwrap();
    assert_eq!(save.turn, 0);
    assert!(save.messages.is_empty());
}

#[test]
fn deserialize_creates_entities() {
    let save = SaveGame {
        version: 1,
        seed: 42,
        turn: 100,
        player: PlayerSave {
            x: 5,
            y: 10,
            hp_current: 90,
            hp_max: 100,
            glyph: '@',
            glyph_color: (255, 255, 0),
            inventory_items: vec![],
            inventory_capacity: 20,
            equipment_weapon: None,
            equipment_armor: None,
            equipment_accessory: None,
        },
        entities: vec![EntitySave {
            x: 15,
            y: 15,
            hp_current: 20,
            hp_max: 30,
            glyph: 'g',
            glyph_color: (0, 255, 0),
            name: Some("Creature".to_string()),
            inventory_items: vec![],
            inventory_capacity: 0,
            is_item: false,
            is_creature: true,
            active_quest: None,
        }],
        quest_log: QuestLogSave { turned_in: vec![] },
        messages: vec!["Hello".to_string()],
    };

    let restored = deserialize_to_world(&save);
    assert_eq!(restored.turn.0, 100);
    assert_eq!(restored.player.position.x, 5);
    assert_eq!(restored.player.position.y, 10);
    let creatures: Vec<_> = restored.entities.iter().filter(|e| e.is_creature).collect();
    assert_eq!(creatures.len(), 1);
    assert_eq!(creatures[0].health.current, 20);
    assert_eq!(creatures[0].name.as_deref(), Some("Creature"));
    assert_eq!(restored.messages.messages, vec!["Hello".to_string()]);
}

#[test]
fn item_without_glyph_saves_as_grey_question_mark() {
    let s = serialize_item(&ItemRecord { glyph: None, name: Some("Rock".to_string()) });
    assert_eq!(s.glyph, '?');
    assert_eq!(s.glyph_color, (128, 128, 128));
    assert_eq!(s.name.as_deref(), Some("Rock"));
}

#[test]
fn should_auto_save_at_interval() {
    assert!(should_auto_save(Some(&TurnCounter(100))));
}

#[test]
fn should_auto_save_not_at_interval() {
    assert!(!should_auto_save(Some(&TurnCounter(50))));
}

#[test]
fn should_auto_save_no_counter() {
    assert!(!should_auto_save(None));
}

#[test]
fn should_auto_save_zero_turn() {
    assert!(!should_auto_save(Some(&TurnCounter(0))));
}

#[test]
fn should_auto_save_200() {
    assert!(should_auto_save(Some(&TurnCounter(200))));
}

#[test]
fn save_files_are_recognised_by_extension() {
    assert!(has_toml_extension("save_1_2.toml"));
    assert!(has_toml_extension(".hidden.toml"));
    assert!(!has_toml_extension(".toml"));
    assert!(!has_toml_extension("a.toml.bak"));
    assert!(!has_toml_extension("toml"));
    assert!(!has_toml_extension("x.TOML"));
}

#[test]
fn save_listing_puts_newest_names_first() {
    let names: Vec<String> = ["save_1_5.toml", "notes.txt", "save_1_10.toml", "save_2_1.toml"]
        .iter()
        .map(|s| s.to_string())
        .collect();
    assert_eq!(save_listing(&names), vec!["save_2_1.toml", "save_1_5.toml", "save_1_10.toml"]);
    assert!(save_listing(&vec![]).is_empty());
}

#[test]
fn restored_log_keeps_the_last_hundred_messages() {
    let player = player_record(1, 1, 10);
    let mut log = MessageLog::new(200);
    for i in 0..101 {
        log.push(format!("m{}", i));
    }
    let save = build_save(7, None, Some(&player), &vec![], None, Some(&log)).unwrap();
    assert_eq!(save.messages.len(), 101);
    let restored = deserialize_to_world(&save);
    assert_eq!(restored.messages.messages.len(), 100);
    assert_eq!(restored.messages.messages[0], "m1");
    assert_eq!(restored.messages.messages[99], "m100");
}
