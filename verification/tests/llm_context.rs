use carapace::llm::client::LlmError;
use carapace::llm::config::{settings_from_env_values, PromptConfig};
use carapace::llm::context::InteractionOutcome;

#[test]
fn prompt_config_defaults_are_empty() {
    let prompts = PromptConfig::default();
    assert_eq!(prompts.system, "");
    assert_eq!(prompts.examine_entity, "");
    assert_eq!(prompts.examine_location, "");
    assert_eq!(prompts.npc_interaction, "");
}

#[test]
fn interaction_outcome_display() {
    assert_eq!(InteractionOutcome::Success.as_str(), "SUCCESS");
    assert_eq!(InteractionOutcome::Failure.as_str(), "FAILURE");
    assert_eq!(InteractionOutcome::CriticalSuccess.as_str(), "CRITICAL SUCCESS");
    assert_eq!(InteractionOutcome::CriticalFailure.as_str(), "CRITICAL FAILURE");
}

use carapace::components::{Health, Position};
use carapace::llm::context::{
    build_prompt_context, collect_entity_info, render_prompt, EntityInfo, InteractionAction, PromptContext,
    TagDetailKind,
};
use carapace::tags::{TagRegistry, Tags};

fn registry() -> TagRegistry {
    let mut reg = TagRegistry::new();
    reg.add_tag("body", "HasChitin", None, None);
    reg.add_tag("behavior", "Predatory", None, None);
    reg
}

fn player_info(reg: &TagRegistry, tags: &Tags) -> EntityInfo {
    collect_entity_info(
        Some(&"Remnant-7".to_string()),
        Some(tags),
        Some(Health { current: 80, max: 100 }),
        Some(Position { x: 10, y: 15, z: 0 }),
        reg,
        true,
    )
}

fn npc_info(reg: &TagRegistry, tags: &Tags) -> EntityInfo {
    collect_entity_info(
        Some(&"Gate Guard".to_string()),
        Some(tags),
        Some(Health { current: 50, max: 50 }),
        Some(Position { x: 12, y: 14, z: 0 }),
        reg,
        false,
    )
}

fn village_context(location: &str, environment: Option<&str>, action: Option<InteractionAction>) -> PromptContext {
    let reg = registry();
    let empty = Tags::new(reg.tag_count());
    build_prompt_context(0, player_info(&reg, &empty), npc_info(&reg, &empty), location, environment, action)
}

#[test]
fn build_context_includes_entity_names() {
    let ctx = village_context("Village Gates", None, None);
    assert_eq!(ctx.player.name, "Remnant-7");
    assert_eq!(ctx.npc.name, "Gate Guard");
}

#[test]
fn build_context_includes_health() {
    let ctx = village_context("Village Gates", None, None);
    let p_health = ctx.player.health.unwrap();
    assert_eq!(p_health.current, 80);
    assert_eq!(p_health.max, 100);
    let n_health = ctx.npc.health.unwrap();
    assert_eq!(n_health.current, 50);
    assert_eq!(n_health.max, 50);
}

#[test]
fn build_context_includes_position() {
    let ctx = village_context("Village Gates", None, None);
    assert_eq!(ctx.player.position.as_ref().unwrap().x, 10);
    assert_eq!(ctx.player.position.as_ref().unwrap().y, 15);
    assert_eq!(ctx.npc.position.as_ref().unwrap().x, 12);
    assert_eq!(ctx.npc.position.as_ref().unwrap().y, 14);
}

#[test]
fn build_context_with_tags_populates_tag_names() {
    let reg = registry();
    let mut player_tags = Tags::new(reg.tag_count());
    player_tags.add_tag(reg.tag_id("HasChitin").unwrap());
    let mut npc_tags = Tags::new(reg.tag_count());
    npc_tags.add_tag(reg.tag_id("Predatory").unwrap());
    let ctx = build_prompt_context(
        0,
        player_info(&reg, &player_tags),
        npc_info(&reg, &npc_tags),
        "Village Gates",
        None,
        None,
    );
    assert!(ctx.player.tag_names.contains(&"HasChitin".to_string()));
    assert!(ctx.npc.tag_names.contains(&"Predatory".to_string()));
    assert!(matches!(ctx.npc.tag_details[0].kind, TagDetailKind::Present));
}

#[test]
fn build_context_includes_scene_metadata() {
    let ctx = village_context("Deep Trench", Some("Stormy Night"), None);
    assert_eq!(ctx.scene.location, "Deep Trench");
    assert_eq!(ctx.scene.turn, 0);
    assert_eq!(ctx.scene.environment.unwrap(), "Stormy Night");
}

#[test]
fn build_context_with_action_includes_action_info() {
    let action = InteractionAction { intent: "DECEIVE via chromatophores".into(), outcome: InteractionOutcome::Success };
    let ctx = village_context("Village Gates", Some("Pitch Black"), Some(action));
    let a = ctx.action.unwrap();
    assert_eq!(a.intent, "DECEIVE via chromatophores");
    assert!(matches!(a.outcome, InteractionOutcome::Success));
}

#[test]
fn render_prompt_outputs_expected_sections() {
    let ctx = village_context("Village Gates", None, None);
    let rendered = render_prompt(&ctx);
    assert!(rendered.contains("### SYSTEM INSTRUCTIONS"));
    assert!(rendered.contains("### SCENE METADATA"));
    assert!(rendered.contains("### ENTITY A: THE PLAYER"));
    assert!(rendered.contains("### ENTITY B: THE NPC"));
    assert!(rendered.contains("### OUTPUT FORMAT"));
}

#[test]
fn render_prompt_includes_entity_details() {
    let ctx = village_context("Village Gates", None, None);
    let rendered = render_prompt(&ctx);
    assert!(rendered.contains("Remnant-7"));
    assert!(rendered.contains("Gate Guard"));
    assert!(rendered.contains("Health: 80/100"));
    assert!(rendered.contains("Health: 50/50"));
}

#[test]
fn context_with_unknown_entity_uses_fallback_name() {
    let reg = TagRegistry::new();
    let npc = collect_entity_info(None, None, None, None, &reg, false);
    let player = collect_entity_info(Some(&"Hero".to_string()), None, None, None, &reg, true);
    let ctx = build_prompt_context(0, player, npc, "Nowhere", None, None);
    assert_eq!(ctx.npc.name, "Unknown");
    assert!(ctx.npc.health.is_none());
}

#[test]
fn from_env_without_key_returns_missing_config() {
    let r = settings_from_env_values(None, None, Some("m".to_string()), None, None);
    match r {
        Err(LlmError::MissingConfig(m)) => {
            assert_eq!(m, "OPENROUTER_API_KEY or LLM_API_KEY environment variable not set")
        }
        _ => panic!("expected a missing configuration"),
    }
}

#[test]
fn from_env_with_openrouter_key_reads_correctly() {
    let s = settings_from_env_values(
        Some("sk-test-key-12345".to_string()),
        Some("generic".to_string()),
        None,
        Some("https://example.org".to_string()),
        Some("Carapace".to_string()),
    )
    .unwrap();
    assert_eq!(s.api_key, "sk-test-key-12345");
    assert_eq!(s.provider, "openrouter");
    assert_eq!(s.endpoint, "https://openrouter.ai/api/v1/chat/completions");
    assert_eq!(s.model, "openai/gpt-4o-mini");
    assert_eq!(s.site_url.as_deref(), Some("https://example.org"));
    assert_eq!(s.app_name.as_deref(), Some("Carapace"));
    let s = settings_from_env_values(None, Some("generic".to_string()), Some("x/y".to_string()), None, None).unwrap();
    assert_eq!(s.api_key, "generic");
    assert_eq!(s.model, "x/y");
}
