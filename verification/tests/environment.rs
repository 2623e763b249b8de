use carapace::environment::EnvironmentalScores;
use carapace::tags::{TagId, TagRegistry};
use carapace::weather::TimeOfDay;

fn make_registry() -> TagRegistry {
    let mut reg = TagRegistry::new();
    reg.add_tag("light", "DARK", None, Some((0, 20)));
    reg.add_tag("light", "DIM", None, Some((20, 40)));
    reg.add_tag("light", "BRIGHT", None, Some((60, 100)));

    reg.add_tag("temperature", "FREEZING", None, Some((0, 15)));
    reg.add_tag("temperature", "COLD", None, Some((15, 35)));
    reg.add_tag("temperature", "NEUTRAL", None, Some((35, 65)));
    reg.add_tag("temperature", "WARM", None, Some((65, 85)));
    reg.add_tag("temperature", "HOT", None, Some((85, 100)));

    reg.add_tag("moisture", "DRY", None, Some((0, 20)));
    reg.add_tag("moisture", "DAMP", None, Some((20, 40)));
    reg.add_tag("moisture", "WET", None, Some((40, 70)));
    reg.add_tag("moisture", "SOAKED", None, Some((70, 100)));
    reg
}

fn tag_names(registry: &TagRegistry, tags: &[TagId]) -> Vec<String> {
    tags.iter().map(|t| registry.tag_by_id(*t).name.clone()).collect()
}

fn mods(pairs: &[(&str, i32)]) -> Vec<(String, i32)> {
    pairs.iter().map(|(k, v)| (k.to_string(), *v)).collect()
}

#[test]
fn test_desert_day_scores() {
    let base = EnvironmentalScores { light: 85, temperature: 85, moisture: 5 };
    let scores = EnvironmentalScores::compute(base, &mods(&[]), &TimeOfDay::Day);
    assert_eq!(scores.light, 85);
    assert_eq!(scores.temperature, 85);
    assert_eq!(scores.moisture, 5);
}

#[test]
fn test_rain_modifier() {
    let base = EnvironmentalScores { light: 70, temperature: 50, moisture: 30 };
    let scores = EnvironmentalScores::compute(base, &mods(&[("moisture", 50)]), &TimeOfDay::Day);
    assert_eq!(scores.moisture, 80);
    assert_eq!(scores.light, 70);
}

#[test]
fn test_night_reduces_light() {
    let base = EnvironmentalScores { light: 70, temperature: 50, moisture: 50 };
    let scores = EnvironmentalScores::compute(base, &mods(&[]), &TimeOfDay::Night);
    assert_eq!(scores.light, 0);
}

#[test]
fn test_clamp_lower_bound() {
    let base = EnvironmentalScores { light: 10, temperature: 10, moisture: 10 };
    let scores = EnvironmentalScores::compute(base, &mods(&[("temperature", -40)]), &TimeOfDay::Night);
    assert_eq!(scores.temperature, 0);
    assert_eq!(scores.light, 0);
}

#[test]
fn test_clamp_upper_bound() {
    let base = EnvironmentalScores { light: 90, temperature: 90, moisture: 90 };
    let scores = EnvironmentalScores::compute(base, &mods(&[("moisture", 50)]), &TimeOfDay::Day);
    assert_eq!(scores.moisture, 100);
}

#[test]
fn test_desert_day_tags() {
    let registry = make_registry();
    let base = EnvironmentalScores { light: 85, temperature: 85, moisture: 5 };
    let scores = EnvironmentalScores::compute(base, &mods(&[]), &TimeOfDay::Day);
    let names = tag_names(&registry, &scores.resolve_tags(&registry));
    assert!(names.contains(&"BRIGHT".to_string()), "desert day should be BRIGHT, got {:?}", names);
    assert!(names.contains(&"HOT".to_string()), "desert should be HOT, got {:?}", names);
    assert!(names.contains(&"DRY".to_string()), "desert should be DRY, got {:?}", names);
}

#[test]
fn test_rain_forest_tags() {
    let registry = make_registry();
    let base = EnvironmentalScores { light: 45, temperature: 75, moisture: 80 };
    let scores = EnvironmentalScores::compute(base, &mods(&[("moisture", 50)]), &TimeOfDay::Dusk);
    let names = tag_names(&registry, &scores.resolve_tags(&registry));
    assert!(names.contains(&"DARK".to_string()), "dusk rainforest should be DARK, got {:?}", names);
    assert!(names.contains(&"WARM".to_string()), "tropical should be WARM, got {:?}", names);
    assert!(names.contains(&"SOAKED".to_string()), "rainforest+rain should be SOAKED, got {:?}", names);
}

#[test]
fn test_tundra_night_tags() {
    let registry = make_registry();
    let base = EnvironmentalScores { light: 55, temperature: 10, moisture: 30 };
    let scores = EnvironmentalScores::compute(base, &mods(&[]), &TimeOfDay::Night);
    let names = tag_names(&registry, &scores.resolve_tags(&registry));
    assert!(names.contains(&"DARK".to_string()));
    assert!(names.contains(&"FREEZING".to_string()), "tundra temp=10 should be FREEZING, got {:?}", names);
}

#[test]
fn boundary_scores_match_both_bands() {
    let registry = make_registry();
    let scores = EnvironmentalScores { light: 20, temperature: 35, moisture: 70 };
    let names = tag_names(&registry, &scores.resolve_tags(&registry));
    assert_eq!(names, vec!["DARK", "DIM", "COLD", "NEUTRAL", "WET", "SOAKED"]);
}

#[test]
fn light_modifier_and_dawn_dim() {
    let base = EnvironmentalScores { light: 50, temperature: 50, moisture: 50 };
    let scores = EnvironmentalScores::compute(base, &mods(&[("light", 5), ("temperature", -60)]), &TimeOfDay::Dawn);
    assert_eq!(scores.light, 15);
    assert_eq!(scores.temperature, 0);
}
