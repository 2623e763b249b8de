use carapace::render::glyphs::{name_category, CharOrString, GlyphEntry, GlyphRegistry};
use carapace::render::spritesheet::{atlas_glyphs, sprite_lookups};

fn entry(name: &str, glyph: char, color: [u8; 3]) -> GlyphEntry {
    GlyphEntry { name: name.to_string(), glyph, color }
}

fn test_registry() -> GlyphRegistry {
    let mut entries = vec![
        entry("grass", '"', [0, 200, 0]),
        entry("dirt", '.', [140, 100, 60]),
        entry("stone", '#', [128, 128, 128]),
        entry("sand", ':', [230, 210, 150]),
        entry("water", '~', [0, 100, 255]),
        entry("forest", 'T', [0, 120, 0]),
        entry("swamp", ',', [60, 90, 40]),
        entry("snow", '*', [250, 250, 250]),
        entry("lava", '^', [255, 80, 0]),
        entry("tech_terminal", '&', [0, 255, 128]),
        entry("player", '@', [0, 255, 255]),
    ];
    for (i, c) in "abcdefghijklmnopqrstuv".chars().enumerate() {
        entries.push(entry(&format!("creature_{}", i), c, [200, 50, 50]));
    }
    GlyphRegistry::from_config(&entries)
}

#[test]
fn load_glyphs_toml() {
    let reg = test_registry();
    assert!(reg.glyph_count() >= 30, "should have many glyphs, got {}", reg.glyph_count());
}

#[test]
fn fallback_is_question_mark() {
    let reg = test_registry();
    assert_eq!(reg.fallback().glyph, '?');
    assert_eq!(reg.fallback().color, [255, 0, 255]);
}

#[test]
fn known_and_unknown_chars() {
    let reg = test_registry();
    assert!(reg.is_known('@'), "@ should be known");
    assert!(reg.is_known('"'), "quote should be known");
    assert!(!reg.is_known('\0'), "null should be unknown");
    assert!(!reg.is_known('¿'), "inverted ? should be unknown");
}

#[test]
fn resolve_known_returns_same() {
    let reg = test_registry();
    assert_eq!(reg.resolve_char('@'), '@');
    assert_eq!(reg.resolve_char('.'), '.');
}

#[test]
fn resolve_unknown_returns_fallback() {
    let reg = test_registry();
    assert_eq!(reg.resolve_char('\0'), '?');
}

#[test]
fn tile_lookup() {
    let reg = test_registry();
    let grass = reg.tile_glyph("grass").expect("grass tile should exist");
    assert_eq!(grass.glyph, '"');
    assert!(reg.entity_glyph("grass").is_none());
}

#[test]
fn entity_lookup() {
    let reg = test_registry();
    let player = reg.entity_glyph("player").expect("player entity should exist");
    assert_eq!(player.glyph, '@');
    assert!(reg.tile_glyph("player").is_none());
}

#[test]
fn color_for_char() {
    let reg = test_registry();
    let color = reg.color_for_char('@').expect("@ should have a color");
    assert_eq!(color, [0, 255, 255]);
    assert!(reg.color_for_char('\0').is_none());
}

#[test]
fn empty_registry_fallback() {
    let reg = GlyphRegistry::empty();
    assert_eq!(reg.fallback().glyph, '?');
    assert_eq!(reg.fallback().color, [255, 0, 255]);
    assert_eq!(reg.glyph_count(), 0);
}

#[test]
fn tiles_and_entities_populated() {
    let reg = test_registry();
    assert!(reg.tile_count() >= 5, "should have tile definitions, got {}", reg.tile_count());
    assert!(reg.entity_count() >= 20, "should have entity definitions, got {}", reg.entity_count());
}

#[test]
fn later_entry_replaces_earlier() {
    let entries = vec![entry("player", '@', [1, 2, 3]), entry("player", 'P', [4, 5, 6]), entry("ghost", '@', [7, 8, 9])];
    let reg = GlyphRegistry::from_config(&entries);
    assert_eq!(reg.entity_glyph("player").unwrap().glyph, 'P');
    assert_eq!(reg.color_for_char('@'), Some([7, 8, 9]));
    assert_eq!(reg.entity_count(), 2);
}

#[test]
fn glyph_strings_and_categories() {
    assert_eq!(CharOrString::Char('x').to_char(), 'x');
    assert_eq!(CharOrString::String("  \"#\" ".to_string()).to_char(), '#');
    assert_eq!(CharOrString::String("\"\"".to_string()).to_char(), '?');
    assert_eq!(name_category("lava"), "tile");
    assert_eq!(name_category("player"), "entity");
}

#[test]
fn glyph_count_counts_each_character_once() {
    let entries = vec![
        entry("grass", '"', [0, 200, 0]),
        entry("forest", '"', [0, 120, 0]),
        entry("player", '@', [0, 255, 255]),
    ];
    let reg = GlyphRegistry::from_config(&entries);
    assert_eq!(reg.glyph_count(), 2);
    assert_eq!(GlyphRegistry::empty().glyph_count(), 0);
}

#[test]
fn sprite_lookups_point_at_their_glyph_tile() {
    let sprites = vec![("tree".to_string(), 'T'), ("rock".to_string(), '#'), ("bush".to_string(), 'T')];
    let glyphs = atlas_glyphs('?', &sprites.iter().map(|s| s.1).collect());
    assert_eq!(glyphs, vec!['?', 'T', '#']);
    let keys = vec![
        ("forest".to_string(), "tree".to_string()),
        ("mountain".to_string(), "rock".to_string()),
        ("void".to_string(), "nothing".to_string()),
    ];
    let lookups = sprite_lookups(&keys, &sprites, '?', &glyphs);
    assert_eq!(
        lookups,
        vec![("forest".to_string(), 'T', 1), ("mountain".to_string(), '#', 2), ("void".to_string(), '?', 0)]
    );
}
