use carapace::components::Inventory;
use carapace::events::{EventBus, GameEvent};
use carapace::quest::{
    accept_board_quest, check_player_near_quest_board, check_quest_board_refresh, check_quest_completion,
    generate_board_quests, generate_quests, handle_quest_turn_in, track_collect, track_kill, track_kill_area,
    track_reach, turn_in_quest, ActiveQuest, QuestBoardEntry, QuestBoardState, QuestLog, QuestObjective,
    QuestState, QuestTemplate,
};
use carapace::components::Position;
use carapace::tags::{TagRegistry, Tags};

fn setup_registry() -> TagRegistry {
    let mut r = TagRegistry::new();
    for (arch, name) in [
        ("creature", "BEAST"),
        ("behavior", "AGGRESSIVE"),
        ("material", "HERB_MEDICINAL"),
        ("rarity", "COMMON"),
        ("material", "METAL"),
        ("rarity", "UNCOMMON"),
        ("material", "ORE_IRON"),
        ("equipment", "EQUIP_WEAPON"),
        ("equipment", "EQUIP_ARMOR"),
        ("creature", "UNDEAD"),
    ] {
        r.add_tag(arch, name, None, None);
    }
    r
}

fn quest(id: &str, template: &str, objective: QuestObjective, state: QuestState) -> ActiveQuest {
    ActiveQuest {
        quest_id: id.to_string(),
        template_id: template.to_string(),
        name: "Test".to_string(),
        description: "Desc".to_string(),
        objective,
        state,
        reward_tags: vec![],
    }
}

fn template(id: &str, name: &str, desc: &str, kind: &str, target: &[&str], reward: &[&str], biome: &[&str], required: u32) -> QuestTemplate {
    QuestTemplate {
        id: id.to_string(),
        name_pattern: name.to_string(),
        description_pattern: desc.to_string(),
        objective_type: kind.to_string(),
        target_tags: target.iter().map(|s| s.to_string()).collect(),
        reward_tags: reward.iter().map(|s| s.to_string()).collect(),
        biome_tags: biome.iter().map(|s| s.to_string()).collect(),
        required_count: required,
        kill_count: 3,
    }
}

fn tagged(reg: &TagRegistry, names: &[&str]) -> Tags {
    let mut t = Tags::new(reg.tag_count());
    for n in names {
        t.add_tag(reg.tag_id(n).unwrap());
    }
    t
}

#[test]
fn kill_objective_progress() {
    let obj = QuestObjective::Kill { target_name: "Target".to_string(), killed: 1, required: 3 };
    assert_eq!(obj.progress_text(), "1/3 Target");
    assert!(!obj.is_complete());
}

#[test]
fn kill_objective_complete() {
    let obj = QuestObjective::Kill { target_name: "Target".to_string(), killed: 3, required: 3 };
    assert!(obj.is_complete());
}

#[test]
fn collect_objective_progress() {
    let obj = QuestObjective::Collect { tag_name: "ORE IRON".to_string(), collected: 0, required: 3 };
    assert_eq!(obj.progress_text(), "0/3 ORE IRON");
    assert!(!obj.is_complete());
}

#[test]
fn reach_objective_not_reached() {
    let obj = QuestObjective::Reach { biome: "forest".to_string(), reached: false };
    assert_eq!(obj.progress_text(), "Find forest");
    assert!(!obj.is_complete());
}

#[test]
fn reach_objective_reached() {
    let obj = QuestObjective::Reach { biome: "forest".to_string(), reached: true };
    assert_eq!(obj.progress_text(), "Reached forest");
    assert!(obj.is_complete());
}

#[test]
fn kill_in_area_objective() {
    let obj = QuestObjective::KillInArea { biome: "swamp".to_string(), killed: 2, required: 3 };
    assert_eq!(obj.progress_text(), "2/3 in swamp");
    assert!(!obj.is_complete());
}

#[test]
fn quest_log_records_turn_in() {
    let mut log = QuestLog::new();
    log.record_turn_in("Hunt Complete".to_string());
    log.record_turn_in("Gather ORE IRON".to_string());
    assert_eq!(log.turned_in.len(), 2);
    assert_eq!(log.turned_in[0], "Hunt Complete");
}

#[test]
fn quest_state_variants() {
    assert_eq!(QuestState::Active, QuestState::Active);
    assert_ne!(QuestState::Active, QuestState::Complete);
}

#[test]
fn generate_kill_quest_from_world() {
    let registry = setup_registry();
    let entities = vec![(tagged(&registry, &["BEAST", "AGGRESSIVE"]), Some("Target".to_string()))];
    let templates = vec![template("hunt_creature", "Hunt the {target}", "Slay the {target}.", "kill",
        &["BEAST", "AGGRESSIVE"], &["HERB_MEDICINAL", "COMMON"], &[], 1)];
    let quests = generate_quests(&templates, &entities, &vec![], &registry);
    assert_eq!(quests.len(), 1);
    assert_eq!(quests[0].name, "Hunt the Target");
    assert_eq!(quests[0].quest_id, "quest_1");
    assert!(matches!(quests[0].objective, QuestObjective::Kill { ref target_name, .. } if target_name == "Target"));
}

#[test]
fn generate_collect_quest() {
    let registry = setup_registry();
    let templates = vec![template("gather_resource", "Gather {resource}", "Collect {resource}.", "collect",
        &["ORE_IRON"], &["METAL"], &[], 3)];
    let quests = generate_quests(&templates, &vec![], &vec![], &registry);
    assert_eq!(quests.len(), 1);
    assert!(quests[0].name.to_lowercase().contains("ore iron"));
    assert!(matches!(quests[0].objective, QuestObjective::Collect { required: 3, .. }));
}

#[test]
fn generate_reach_quest() {
    let registry = setup_registry();
    let templates = vec![template("explore_biome", "Explore the {biome}", "Journey to the {biome}.", "reach",
        &[], &["EQUIP_WEAPON"], &["BIOME_TEMPERATE_FOREST"], 1)];
    let quests = generate_quests(&templates, &vec![], &vec![], &registry);
    assert_eq!(quests.len(), 1);
    assert!(quests[0].name.contains("temperate forest"));
    assert!(matches!(quests[0].objective, QuestObjective::Reach { .. }));
}

#[test]
fn generate_does_not_duplicate_active_quests() {
    let registry = setup_registry();
    let active = vec![quest("quest_1", "hunt_creature",
        QuestObjective::Kill { target_name: "Target".to_string(), killed: 0, required: 1 }, QuestState::Active)];
    let entities = vec![(tagged(&registry, &["BEAST", "AGGRESSIVE"]), Some("Target".to_string()))];
    let templates = vec![template("hunt_creature", "Hunt the {target}", "Slay it.", "kill",
        &["BEAST", "AGGRESSIVE"], &[], &[], 1)];
    let quests = generate_quests(&templates, &entities, &active, &registry);
    assert!(quests.is_empty(), "should not generate duplicate quest for active template");
}

#[test]
fn generate_kill_quest_without_target_is_skipped() {
    let registry = setup_registry();
    let entities = vec![(tagged(&registry, &["BEAST"]), Some("Rabbit".to_string()))];
    let templates = vec![
        template("hunt_creature", "Hunt the {target}", "Slay it.", "kill", &["BEAST", "AGGRESSIVE"], &[], &[], 1),
        template("explore", "Explore the {biome}", "Go.", "reach", &[], &[], &["BIOME_SWAMP"], 1),
    ];
    let quests = generate_quests(&templates, &entities, &vec![], &registry);
    assert_eq!(quests.len(), 1);
    assert_eq!(quests[0].quest_id, "quest_1");
    assert_eq!(quests[0].name, "Explore the swamp");
}

#[test]
fn generate_kill_quest_nameless_target_uses_tag_phrase() {
    let registry = setup_registry();
    let entities = vec![(tagged(&registry, &["BEAST", "AGGRESSIVE"]), None)];
    let templates = vec![template("hunt", "Hunt the {target}", "Slay it.", "kill", &["AGGRESSIVE", "BEAST"], &[], &[], 1)];
    let quests = generate_quests(&templates, &entities, &vec![], &registry);
    assert_eq!(quests[0].name, "Hunt the aggressive");
}

#[test]
fn check_quest_completion_transitions_state() {
    let mut q = quest("q1", "test", QuestObjective::Kill { target_name: "Target".to_string(), killed: 1, required: 1 }, QuestState::Active);
    assert!(check_quest_completion(&mut q));
    assert_eq!(q.state, QuestState::Complete);
    assert!(!check_quest_completion(&mut q));
}

#[test]
fn check_quest_completion_not_done() {
    let mut q = quest("q1", "test", QuestObjective::Kill { target_name: "Target".to_string(), killed: 0, required: 1 }, QuestState::Active);
    assert!(!check_quest_completion(&mut q));
    assert_eq!(q.state, QuestState::Active);
}

#[test]
fn track_kill_updates_quest() {
    let mut quests = vec![quest("q1", "hunt", QuestObjective::Kill { target_name: "Target".to_string(), killed: 0, required: 1 }, QuestState::Active)];
    track_kill(&mut quests, "Target");
    assert!(matches!(&quests[0].objective, QuestObjective::Kill { killed: 1, .. }));
    assert_eq!(quests[0].state, QuestState::Complete);
}

#[test]
fn track_kill_ignores_wrong_target() {
    let mut quests = vec![quest("q1", "hunt", QuestObjective::Kill { target_name: "Target".to_string(), killed: 0, required: 1 }, QuestState::Active)];
    track_kill(&mut quests, "Large Predator");
    assert!(matches!(&quests[0].objective, QuestObjective::Kill { killed: 0, .. }));
    assert_eq!(quests[0].state, QuestState::Active);
}

#[test]
fn track_kill_is_case_insensitive() {
    let mut quests = vec![quest("q1", "hunt", QuestObjective::Kill { target_name: "Target".to_string(), killed: 0, required: 2 }, QuestState::Active)];
    track_kill(&mut quests, "TARGET");
    assert!(matches!(&quests[0].objective, QuestObjective::Kill { killed: 1, .. }));
    assert_eq!(quests[0].state, QuestState::Active);
}

#[test]
fn track_collect_updates_quest() {
    let mut quests = vec![quest("q1", "gather", QuestObjective::Collect { tag_name: "ORE IRON".to_string(), collected: 0, required: 3 }, QuestState::Active)];
    track_collect(&mut quests, "ORE_IRON");
    assert!(matches!(&quests[0].objective, QuestObjective::Collect { collected: 1, .. }));
    assert_eq!(quests[0].state, QuestState::Active);
}

#[test]
fn track_reach_updates_quest() {
    let mut quests = vec![quest("q1", "explore", QuestObjective::Reach { biome: "temperate forest".to_string(), reached: false }, QuestState::Active)];
    track_reach(&mut quests, "temperate forest");
    assert!(matches!(&quests[0].objective, QuestObjective::Reach { reached: true, .. }));
    assert_eq!(quests[0].state, QuestState::Complete);
}

#[test]
fn turn_in_quest_generates_rewards() {
    let registry = setup_registry();
    let mut player = Some(Inventory { items: vec![], capacity: 20 });
    let reward_tags = vec!["METAL".to_string(), "UNCOMMON".to_string()];
    let rewards = turn_in_quest(&reward_tags, &registry, 77, &mut player);
    assert!(!rewards.is_empty());
    assert_eq!(rewards[0].name, "metal");
    assert_eq!(rewards[0].glyph.char, '*');
    assert!(rewards[0].tags.has(registry.tag_id("METAL").unwrap()));
    assert!(rewards[0].tags.has(registry.tag_id("UNCOMMON").unwrap()));
    let inv = player.unwrap();
    assert_eq!(inv.items.len(), 1, "reward should be in player inventory");
    assert_eq!(inv.items[0], 77);
}

#[test]
fn turn_in_quest_empty_tags_no_reward() {
    let registry = setup_registry();
    let mut player = Some(Inventory { items: vec![], capacity: 20 });
    let rewards = turn_in_quest(&vec![], &registry, 1, &mut player);
    assert!(rewards.is_empty());
    assert!(player.unwrap().items.is_empty());
}

#[test]
fn track_kill_area_updates_matching_quest() {
    let mut quests = vec![quest("q1", "clear_area", QuestObjective::KillInArea { biome: "swamp".to_string(), killed: 0, required: 3 }, QuestState::Active)];
    track_kill_area(&mut quests, "SWAMP");
    assert!(matches!(&quests[0].objective, QuestObjective::KillInArea { killed: 1, .. }));
    assert_eq!(quests[0].state, QuestState::Active);
}

#[test]
fn track_kill_area_completes_quest() {
    let mut quests = vec![quest("q1", "clear_area", QuestObjective::KillInArea { biome: "swamp".to_string(), killed: 2, required: 3 }, QuestState::Active)];
    track_kill_area(&mut quests, "swamp");
    assert!(matches!(&quests[0].objective, QuestObjective::KillInArea { killed: 3, .. }));
    assert_eq!(quests[0].state, QuestState::Complete);
}

#[test]
fn track_kill_area_ignores_wrong_biome() {
    let mut quests = vec![quest("q1", "clear_area", QuestObjective::KillInArea { biome: "swamp".to_string(), killed: 0, required: 3 }, QuestState::Active)];
    track_kill_area(&mut quests, "desert");
    assert!(matches!(&quests[0].objective, QuestObjective::KillInArea { killed: 0, .. }));
    assert_eq!(quests[0].state, QuestState::Active);
}

#[test]
fn track_kill_area_does_not_exceed_required() {
    let mut quests = vec![quest("q1", "clear_area", QuestObjective::KillInArea { biome: "swamp".to_string(), killed: 3, required: 3 }, QuestState::Complete)];
    track_kill_area(&mut quests, "swamp");
    assert!(matches!(&quests[0].objective, QuestObjective::KillInArea { killed: 3, .. }));
}

#[test]
fn track_kill_with_shared_id_updates_every_quest_with_it() {
    let mut quests = vec![
        quest("quest_1", "a", QuestObjective::Kill { target_name: "Wolf".to_string(), killed: 0, required: 2 }, QuestState::Active),
        quest("quest_1", "b", QuestObjective::Kill { target_name: "Bear".to_string(), killed: 0, required: 5 }, QuestState::Active),
    ];
    track_kill(&mut quests, "wolf");
    assert!(matches!(&quests[0].objective, QuestObjective::Kill { killed: 1, .. }));
    assert!(matches!(&quests[1].objective, QuestObjective::Kill { killed: 1, .. }));
}

#[test]
fn generate_kill_area_quest() {
    let registry = setup_registry();
    let templates = vec![template("clear_area", "Clear the {biome}", "Clear them out of the {biome}.", "kill_area",
        &["UNDEAD"], &["EQUIP_ARMOR"], &["BIOME_SWAMP"], 1)];
    let quests = generate_quests(&templates, &vec![], &vec![], &registry);
    assert_eq!(quests.len(), 1);
    assert!(quests[0].name.contains("swamp"));
    assert!(matches!(quests[0].objective, QuestObjective::KillInArea { killed: 0, required: 3, .. }));
}

#[test]
fn generate_board_quests_fills_slots() {
    let templates = vec![template("gather", "Gather {resource}", "Collect {resource}.", "collect", &["ORE_IRON"], &["METAL"], &[], 3)];
    let board = generate_board_quests(&templates, &vec![], 4);
    assert_eq!(board.len(), 4);
    for (i, e) in board.iter().enumerate() {
        assert_eq!(e.slot, i);
        assert_eq!(e.name, "Gather ore iron");
        assert_eq!(e.target_info, "Gather ore iron (x3)");
        assert_eq!(e.reward_info, "metal");
    }
}

#[test]
fn generate_board_quests_empty_when_all_taken() {
    let templates = vec![template("gather", "Gather {resource}", "x", "collect", &[], &[], &[], 3)];
    let active = vec![quest("q", "gather", QuestObjective::Collect { tag_name: "x".into(), collected: 0, required: 1 }, QuestState::Active)];
    assert!(generate_board_quests(&templates, &active, 4).is_empty());
}

#[test]
fn accept_board_quest_generates_from_template() {
    let registry = setup_registry();
    let templates = vec![template("explore", "Explore the {biome}", "Go to the {biome}.", "reach", &[], &[], &["BIOME_TUNDRA"], 1)];
    let entry = QuestBoardEntry {
        slot: 0,
        template_id: "explore".into(),
        name: String::new(),
        description: String::new(),
        objective_type: "reach".into(),
        target_info: String::new(),
        reward_info: String::new(),
    };
    let q = accept_board_quest(&templates, &entry, &vec![], &vec![], &registry).unwrap();
    assert_eq!(q.quest_id, "quest_1");
    assert_eq!(q.name, "Explore the tundra");
    let missing = QuestBoardEntry { template_id: "nope".into(), ..entry };
    assert!(accept_board_quest(&templates, &missing, &vec![], &vec![], &registry).is_none());
}

#[test]
fn quest_board_refresh_counts_then_refreshes() {
    let templates = vec![template("explore", "Explore the {biome}", "Go.", "reach", &[], &[], &["BIOME_TUNDRA"], 1)];
    let mut state = QuestBoardState::default();
    assert_eq!(state.refresh_interval, 20);
    check_quest_board_refresh(&mut state, &templates, &vec![]);
    assert_eq!(state.turn_count_since_refresh, 1);
    assert!(state.available_quests.is_empty());
    state.turn_count_since_refresh = 20;
    check_quest_board_refresh(&mut state, &templates, &vec![]);
    assert_eq!(state.turn_count_since_refresh, 0);
    assert_eq!(state.available_quests.len(), 4);
}

#[test]
fn player_near_quest_board() {
    let boards = vec![Position { x: 10, y: 10, z: 0 }];
    assert!(check_player_near_quest_board(Some(Position { x: 11, y: 9, z: 0 }), &boards));
    assert!(check_player_near_quest_board(Some(Position { x: 10, y: 10, z: 0 }), &boards));
    assert!(!check_player_near_quest_board(Some(Position { x: 12, y: 10, z: 0 }), &boards));
    assert!(!check_player_near_quest_board(None, &boards));
}

#[test]
fn handle_turn_in_marks_quest_and_logs() {
    let registry = setup_registry();
    let mut quests = vec![ActiveQuest {
        reward_tags: vec!["METAL".into()],
        name: "Hunt".into(),
        ..quest("q1", "hunt", QuestObjective::Kill { target_name: "T".into(), killed: 1, required: 1 }, QuestState::Complete)
    }];
    let mut player = Some(Inventory { items: vec![], capacity: 10 });
    let mut bus = EventBus::new();
    let mut log = QuestLog::new();
    let rewards = handle_quest_turn_in(&mut quests, 0, &registry, 5, &mut player, &mut bus, &mut log);
    assert_eq!(rewards.len(), 1);
    assert_eq!(quests[0].state, QuestState::TurnedIn);
    assert_eq!(log.turned_in, vec!["Hunt".to_string()]);
    assert!(matches!(&bus.events[0], GameEvent::QuestCompleted { name } if name == "Hunt"));
    assert_eq!(player.unwrap().items, vec![5]);
}

#[test]
fn handle_turn_in_ignores_unfinished_quest() {
    let registry = setup_registry();
    let mut quests = vec![quest("q1", "hunt", QuestObjective::Kill { target_name: "T".into(), killed: 0, required: 1 }, QuestState::Active)];
    let mut player = None;
    let mut bus = EventBus::new();
    let mut log = QuestLog::new();
    let rewards = handle_quest_turn_in(&mut quests, 0, &registry, 5, &mut player, &mut bus, &mut log);
    assert!(rewards.is_empty());
    assert_eq!(quests[0].state, QuestState::Active);
    assert!(bus.events.is_empty());
    assert!(log.turned_in.is_empty());
}
