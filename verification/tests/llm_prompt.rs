use carapace::llm::config::PromptConfig;
use carapace::llm::context::{
    EntityHealth, EntityInfo, EntityPosition, InteractionAction, InteractionOutcome, PromptContext, SceneInfo,
    TagDetail, TagDetailKind,
};
use carapace::llm::prompt::{
    format_faction_standings, format_health, format_health_context, format_nearby_summary, format_position,
    format_tag_list, substitute, PromptBuilder,
};

fn make_test_context() -> PromptContext {
    PromptContext {
        system_instructions: "Dark fantasy RPG narrator.".into(),
        scene: SceneInfo {
            location: "Ruined Cathedral".into(),
            turn: 42,
            environment: Some("Moonlit night with drifting ash".into()),
        },
        player: EntityInfo {
            name: "Remnant-7".into(),
            tag_names: vec!["HasChitin".into(), "CanTalk".into()],
            tag_details: vec![],
            health: Some(EntityHealth { current: 75, max: 100 }),
            position: Some(EntityPosition { x: 10, y: 15, z: 0 }),
            is_player: true,
        },
        npc: EntityInfo {
            name: "Gate Guard".into(),
            tag_names: vec!["Predatory".into(), "Deceptive".into()],
            tag_details: vec![],
            health: Some(EntityHealth { current: 30, max: 50 }),
            position: Some(EntityPosition { x: 12, y: 14, z: 0 }),
            is_player: false,
        },
        action: Some(InteractionAction {
            intent: "DECEIVE via chromatophores".into(),
            outcome: InteractionOutcome::Success,
        }),
    }
}

fn make_test_builder() -> PromptBuilder {
    PromptBuilder {
        system_prompt: "You are a dark fantasy narrator.".into(),
        examine_entity_template: "Describe {npc_name} ({npc_kind}) at {npc_position} with tags: {npc_tags}.".into(),
        examine_location_template: "Describe {location} at turn {turn}. Environment: {environment}. Player {player_name} at {player_position}. Nearby: {nearby_summary}.".into(),
        npc_interaction_template: "{player_name} attempts {action_intent} on {npc_name}. Outcome: {action_outcome}. {npc_tags}.".into(),
    }
}

fn vars(pairs: &[(&str, &str)]) -> Vec<(String, String)> {
    pairs.iter().map(|(k, v)| (k.to_string(), v.to_string())).collect()
}

#[test]
fn builder_extracts_templates_from_config() {
    let prompts = PromptConfig {
        system: "System prompt".into(),
        examine_entity: "Entity template".into(),
        examine_location: "Location template".into(),
        npc_interaction: "Interaction template".into(),
        greeting: String::new(),
        conversation: String::new(),
        farewell: String::new(),
    };
    let builder = PromptBuilder::new(&prompts);
    assert_eq!(builder.system_prompt, "System prompt");
    assert_eq!(builder.examine_entity_template, "Entity template");
    assert_eq!(builder.examine_location_template, "Location template");
    assert_eq!(builder.npc_interaction_template, "Interaction template");
}

#[test]
fn build_messages_with_action_uses_interaction_template() {
    let builder = make_test_builder();
    let ctx = make_test_context();
    let messages = builder.build_messages(&ctx);
    assert_eq!(messages.len(), 2);
    assert_eq!(messages[0].role, "system");
    assert!(messages[1].content.contains("Remnant-7"));
    assert!(messages[1].content.contains("DECEIVE via chromatophores"));
    assert!(messages[1].content.contains("SUCCESS"));
    assert!(messages[1].content.contains("Gate Guard"));
}

#[test]
fn build_messages_no_action_uses_entity_template() {
    let builder = make_test_builder();
    let mut ctx = make_test_context();
    ctx.action = None;
    let messages = builder.build_messages(&ctx);
    assert_eq!(messages.len(), 2);
    assert!(messages[1].content.contains("Describe"));
    assert!(messages[1].content.contains("Gate Guard"));
    assert!(messages[1].content.contains("Creature"));
}

#[test]
fn build_messages_falls_back_to_location_when_npc_unknown() {
    let builder = make_test_builder();
    let mut ctx = make_test_context();
    ctx.action = None;
    ctx.npc.name = "Unknown".into();
    let messages = builder.build_messages(&ctx);
    assert!(messages[1].content.contains("Ruined Cathedral"));
    assert!(messages[1].content.contains("turn 42"));
}

#[test]
fn missing_context_keys_do_not_panic() {
    let builder = make_test_builder();
    let ctx = make_test_context();
    let messages = builder.build_messages(&ctx);
    assert_eq!(messages.len(), 2);
}

#[test]
fn empty_system_prompt_falls_back_to_context_instructions() {
    let builder = PromptBuilder {
        system_prompt: "".into(),
        examine_entity_template: "Describe {npc_name}.".into(),
        examine_location_template: "Describe {location}.".into(),
        npc_interaction_template: "{player_name} interacts with {npc_name}.".into(),
    };
    let ctx = make_test_context();
    let messages = builder.build_messages(&ctx);
    assert_eq!(messages[0].role, "system");
    assert_eq!(messages[0].content, "Dark fantasy RPG narrator.");
}

#[test]
fn build_messages_with_nearby_includes_summary() {
    let builder = make_test_builder();
    let mut ctx = make_test_context();
    ctx.action = None;
    ctx.npc.name = "Unknown".into();
    let nearby = vec![EntityInfo {
        name: "Scavenger".into(),
        tag_names: vec!["HOSTILE".into()],
        tag_details: vec![],
        health: Some(EntityHealth { current: 40, max: 40 }),
        position: Some(EntityPosition { x: 11, y: 14, z: 0 }),
        is_player: false,
    }];
    let messages = builder.build_messages_with_nearby(&ctx, &nearby);
    assert_eq!(messages.len(), 2);
    assert!(messages[1].content.contains("Scavenger"));
    assert!(messages[1].content.contains("Ruined Cathedral"));
}

#[test]
fn build_messages_with_nearby_uses_interaction_template_when_action_present() {
    let builder = make_test_builder();
    let ctx = make_test_context();
    let nearby = vec![];
    let messages = builder.build_messages_with_nearby(&ctx, &nearby);
    assert!(messages[1].content.contains("DECEIVE via chromatophores"));
    assert!(messages[1].content.contains("SUCCESS"));
}

#[test]
fn format_tag_list_empty() {
    assert_eq!(format_tag_list(&vec![]), "none");
}

#[test]
fn format_tag_list_populated() {
    let tags = vec!["FIRE".into(), "BURNING".into(), "HOSTILE".into()];
    assert_eq!(format_tag_list(&tags), "FIRE, BURNING, HOSTILE");
}

#[test]
fn format_faction_standings_empty() {
    assert_eq!(format_faction_standings(&vec![]), "no known affiliations");
}

#[test]
fn format_faction_standings_various_rep() {
    let standings = vec![
        ("Iron Covenant".into(), 75),
        ("Ash Walkers".into(), 0),
        ("Scavenger Guild".into(), -30),
        ("Bone Court".into(), -80),
    ];
    let result = format_faction_standings(&standings);
    assert!(result.contains("Iron Covenant (friendly, 75)"));
    assert!(result.contains("Ash Walkers (neutral, 0)"));
    assert!(result.contains("Scavenger Guild (hostile, -30)"));
    assert!(result.contains("Bone Court (sworn enemy, -80)"));
}

#[test]
fn format_nearby_summary_empty() {
    assert_eq!(format_nearby_summary(&vec![]), "none notable");
}

#[test]
fn format_nearby_summary_with_entities() {
    let entities = vec![
        EntityInfo {
            name: "Scavenger".into(),
            tag_names: vec!["HOSTILE".into(), "ARMED".into()],
            tag_details: vec![],
            health: Some(EntityHealth { current: 40, max: 40 }),
            position: Some(EntityPosition { x: 11, y: 14, z: 0 }),
            is_player: false,
        },
        EntityInfo {
            name: "Wreckage".into(),
            tag_names: vec!["LOOTABLE".into()],
            tag_details: vec![],
            health: None,
            position: Some(EntityPosition { x: 9, y: 16, z: 0 }),
            is_player: false,
        },
    ];
    let result = format_nearby_summary(&entities);
    assert!(result.contains("Scavenger [HOSTILE, ARMED]"));
    assert!(result.contains("Wreckage [LOOTABLE]"));
}

#[test]
fn substitution_replaces_all_keys() {
    let template = "{player_name} sees {npc_name} in {location}.";
    let v = vars(&[("player_name", "Remnant-7"), ("npc_name", "Gate Guard"), ("location", "Ruined Cathedral")]);
    let result = substitute(template, &v);
    assert_eq!(result, "Remnant-7 sees Gate Guard in Ruined Cathedral.");
}

#[test]
fn substitution_missing_key_omitted_gracefully() {
    let template = "{player_name} sees {npc_name} at {missing_key}.";
    let v = vars(&[("player_name", "Remnant-7"), ("npc_name", "Gate Guard")]);
    let result = substitute(template, &v);
    assert_eq!(result, "Remnant-7 sees Gate Guard at .");
}

#[test]
fn substitution_no_keys_returns_template_as_is() {
    let template = "Plain text with no substitutions.";
    let v = vars(&[]);
    let result = substitute(template, &v);
    assert_eq!(result, "Plain text with no substitutions.");
}

#[test]
fn format_health_and_position_texts() {
    assert_eq!(format_health(&Some(EntityHealth { current: 3, max: 9 })), "3/9");
    assert_eq!(format_health(&None), "unknown");
    assert_eq!(format_position(&Some(EntityPosition { x: 4, y: 7, z: 0 })), "(4, 7)");
    assert_eq!(format_position(&None), "unknown");
    let ctx = format_health_context(&Some(EntityHealth { current: 30, max: 50 }));
    assert!(ctx.contains("30"));
}

#[test]
fn tag_detail_kind_roundtrip() {
    let present = TagDetail { name: "FIRE".into(), kind: TagDetailKind::Present };
    assert_eq!(present.name, "FIRE");
    assert!(matches!(present.kind, TagDetailKind::Present));
    let mag = TagDetail { name: "POISON".into(), kind: TagDetailKind::Magnitude("3.5".into()) };
    assert!(matches!(mag.kind, TagDetailKind::Magnitude(ref m) if m == "3.5"));
}
