use carapace::dialogue::{select_dialogue, DialogueLine};
use carapace::tags::{TagRegistry, Tags};

fn setup_registry() -> TagRegistry {
    let mut reg = TagRegistry::new();
    for name in ["AGGRESSIVE", "PEACEFUL", "TERRITORIAL", "CURIOUS"] {
        reg.add_tag("personality", name, None, None);
    }
    reg
}

fn entry(triggers: &[&str], standing: Option<&str>, lines: &[&str]) -> DialogueLine {
    DialogueLine {
        trigger_tags: triggers.iter().map(|s| s.to_string()).collect(),
        standing: standing.map(|s| s.to_string()),
        lines: lines.iter().map(|s| s.to_string()).collect(),
    }
}

fn entries() -> Vec<DialogueLine> {
    vec![
        entry(&["AGGRESSIVE"], Some("hostile"), &["What do you want?", "Make it quick."]),
        entry(&["PEACEFUL"], Some("ally"), &["Good to see you, friend!", "How can I help?"]),
        entry(&["TERRITORIAL"], None, &["You're in my territory.", "Watch yourself."]),
        entry(&["CURIOUS"], None, &["What's that you're carrying?", "Interesting..."]),
    ]
}

fn tags_with(registry: &TagRegistry, names: &[&str]) -> Tags {
    let mut tags = Tags::new(registry.tag_count());
    for n in names {
        tags.add_tag(registry.tag_id(n).unwrap());
    }
    tags
}

#[test]
fn select_dialogue_matches_aggressive_hostile() {
    let registry = setup_registry();
    let entries = entries();
    let tags = tags_with(&registry, &["AGGRESSIVE"]);
    let result = select_dialogue(&tags, "hostile", &entries, &registry);
    assert!(result.is_some());
    let text = result.unwrap();
    assert!(text == "What do you want?" || text == "Make it quick.");
}

#[test]
fn select_dialogue_standing_filter_rejects_mismatch() {
    let registry = setup_registry();
    let entries = entries();
    let tags = tags_with(&registry, &["AGGRESSIVE"]);
    let result = select_dialogue(&tags, "ally", &entries, &registry);
    assert!(result.is_none(), "AGGRESSIVE entry requires hostile standing, should not match ally");
}

#[test]
fn select_dialogue_matches_peaceful_ally() {
    let registry = setup_registry();
    let entries = entries();
    let tags = tags_with(&registry, &["PEACEFUL"]);
    let result = select_dialogue(&tags, "ally", &entries, &registry);
    assert!(result.is_some());
    let text = result.unwrap();
    assert!(text == "Good to see you, friend!" || text == "How can I help?");
}

#[test]
fn select_dialogue_matches_no_standing_filter() {
    let registry = setup_registry();
    let entries = entries();
    let tags = tags_with(&registry, &["TERRITORIAL"]);
    let result = select_dialogue(&tags, "neutral", &entries, &registry);
    assert!(result.is_some());
}

#[test]
fn select_dialogue_no_match_returns_none() {
    let registry = setup_registry();
    let entries = entries();
    let tags = Tags::new(registry.tag_count());
    let result = select_dialogue(&tags, "neutral", &entries, &registry);
    assert!(result.is_none());
}

#[test]
fn select_dialogue_prefers_standing_specific_match() {
    let registry = setup_registry();
    let entries = entries();
    let tags = tags_with(&registry, &["AGGRESSIVE", "TERRITORIAL"]);
    let result = select_dialogue(&tags, "hostile", &entries, &registry);
    assert!(result.is_some());
    let text = result.unwrap();
    assert!(text == "What do you want?" || text == "Make it quick.");
}

#[test]
fn select_dialogue_entry_without_lines_gives_none() {
    let registry = setup_registry();
    let entries = vec![entry(&["CURIOUS"], None, &[])];
    let tags = tags_with(&registry, &["CURIOUS"]);
    assert!(select_dialogue(&tags, "neutral", &entries, &registry).is_none());
}
