use carapace::components::{Inventory, Position};
use carapace::crafting::{collect_adjacent_tags, execute_recipe, find_available_recipes, CraftingRecipe, RecipeOutput};
use carapace::tags::{TagRegistry, Tags};

fn setup_registry() -> TagRegistry {
    let mut r = TagRegistry::new();
    for n in ["WOOD", "CLOTH", "FLAMMABLE", "HOLDABLE", "LUMINESCENT", "METAL", "HARD", "EQUIP_WEAPON", "MELEE", "FIRE"] {
        r.add_tag("material", n, None, None);
    }
    r
}

fn tags_of(reg: &TagRegistry, names: &[&str]) -> Tags {
    let mut t = Tags::new(reg.tag_count());
    for n in names {
        t.add_tag(reg.tag_id(n).unwrap());
    }
    t
}

fn strings(v: &[&str]) -> Vec<String> {
    v.iter().map(|s| s.to_string()).collect()
}

fn torch(output_tags: &[&str]) -> CraftingRecipe {
    CraftingRecipe {
        name: "Torch".to_string(),
        inputs: strings(&["WOOD", "CLOTH"]),
        requires_env: vec![],
        outputs: vec![RecipeOutput { tags: strings(output_tags), name: "Torch".to_string(), glyph: 't', color: [255, 200, 50] }],
    }
}

#[test]
fn test_find_available_recipes_with_matching_inventory() {
    let registry = setup_registry();
    let carried = vec![tags_of(&registry, &["WOOD"]), tags_of(&registry, &["CLOTH"])];
    let recipe = torch(&["WOOD", "CLOTH", "FLAMMABLE", "HOLDABLE", "LUMINESCENT"]);
    let results = find_available_recipes(&vec![recipe], &carried, &vec![], (50, 50), &registry);
    assert_eq!(results.len(), 1);
    assert!(results[0].available);
    assert!(results[0].missing_inputs.is_empty());
}

#[test]
fn test_find_available_recipes_missing_input() {
    let registry = setup_registry();
    let carried = vec![tags_of(&registry, &["WOOD"])];
    let recipe = torch(&["WOOD", "CLOTH"]);
    let results = find_available_recipes(&vec![recipe], &carried, &vec![], (50, 50), &registry);
    assert_eq!(results.len(), 1);
    assert!(!results[0].available);
    assert!(results[0].missing_inputs.contains(&"CLOTH".to_string()));
    assert_eq!(results[0].missing_inputs, vec!["CLOTH".to_string()]);
}

#[test]
fn missing_inputs_count_each_short_item() {
    let registry = setup_registry();
    let carried = vec![tags_of(&registry, &["METAL"])];
    let recipe = CraftingRecipe {
        name: "Plate".into(),
        inputs: strings(&["METAL", "METAL", "METAL", "WOOD"]),
        requires_env: vec![],
        outputs: vec![],
    };
    let results = find_available_recipes(&vec![recipe], &carried, &vec![], (50, 50), &registry);
    assert_eq!(results[0].missing_inputs, strings(&["METAL", "METAL", "WOOD"]));
}

#[test]
fn recipe_needing_fire_checks_neighbours() {
    let registry = setup_registry();
    let carried = vec![tags_of(&registry, &["WOOD"]), tags_of(&registry, &["CLOTH"])];
    let mut recipe = torch(&["WOOD"]);
    recipe.requires_env = strings(&["FIRE"]);
    let far = vec![(Position { x: 60, y: 60, z: 0 }, tags_of(&registry, &["FIRE"]))];
    let near = vec![(Position { x: 51, y: 49, z: 0 }, tags_of(&registry, &["FIRE"]))];
    let r_far = find_available_recipes(&vec![torch(&["WOOD"]), recipe.clone()], &carried, &far, (50, 50), &registry);
    assert!(r_far[0].available && r_far[0].env_met);
    assert!(!r_far[1].available && !r_far[1].env_met);
    let r_near = find_available_recipes(&vec![recipe], &carried, &near, (50, 50), &registry);
    assert!(r_near[0].available && r_near[0].env_met);
}

#[test]
fn adjacent_tags_skip_the_centre_tile() {
    let registry = setup_registry();
    let fire = registry.tag_id("FIRE").unwrap();
    let nearby = vec![
        (Position { x: 5, y: 5, z: 0 }, tags_of(&registry, &["FIRE"])),
        (Position { x: 4, y: 6, z: 0 }, tags_of(&registry, &["FIRE"])),
        (Position { x: 6, y: 5, z: 0 }, tags_of(&registry, &["FIRE"])),
    ];
    let counts = collect_adjacent_tags(&nearby, (5, 5), registry.tag_count());
    assert_eq!(counts[fire], 2);
}

#[test]
fn test_execute_recipe_consumes_and_produces() {
    let registry = setup_registry();
    let mut inventory = Inventory { items: vec![1, 2], capacity: 20 };
    let item_tags = vec![Some(tags_of(&registry, &["WOOD"])), Some(tags_of(&registry, &["CLOTH"]))];
    let recipe = torch(&["WOOD", "CLOTH", "FLAMMABLE", "HOLDABLE", "LUMINESCENT"]);
    let result = execute_recipe(&recipe, &mut inventory, &item_tags, &registry, 100);
    let created = result.created;
    assert_eq!(created.len(), 1);
    assert_eq!(inventory.items.len(), 1);
    assert_eq!(created[0].name, "Torch");
    assert_eq!(created[0].glyph.char, 't');
    assert_eq!(result.consumed, vec![1, 2]);
    assert_eq!(inventory.items, vec![100]);
}

#[test]
fn test_execute_recipe_with_duplicate_inputs() {
    let registry = setup_registry();
    let mut inventory = Inventory { items: vec![1, 2], capacity: 20 };
    let item_tags = vec![Some(tags_of(&registry, &["METAL"])), Some(tags_of(&registry, &["METAL"]))];
    let recipe = CraftingRecipe {
        name: "Forge Blade".to_string(),
        inputs: strings(&["METAL", "METAL"]),
        requires_env: vec![],
        outputs: vec![RecipeOutput {
            tags: strings(&["METAL", "HARD", "EQUIP_WEAPON", "MELEE"]),
            name: "Forged Blade".to_string(),
            glyph: '/',
            color: [200, 200, 210],
        }],
    };
    let result = execute_recipe(&recipe, &mut inventory, &item_tags, &registry, 7);
    assert_eq!(result.created.len(), 1);
    assert_eq!(inventory.items.len(), 1);
    assert_eq!(result.created[0].name, "Forged Blade");
}

#[test]
fn execute_recipe_keeps_unneeded_items() {
    let registry = setup_registry();
    let mut inventory = Inventory { items: vec![1, 2, 3], capacity: 20 };
    let item_tags = vec![Some(tags_of(&registry, &["METAL"])), None, Some(tags_of(&registry, &["METAL"]))];
    let recipe = CraftingRecipe { name: "Nail".into(), inputs: strings(&["METAL"]), requires_env: vec![], outputs: vec![] };
    let result = execute_recipe(&recipe, &mut inventory, &item_tags, &registry, 50);
    assert_eq!(result.consumed, vec![1]);
    assert_eq!(inventory.items, vec![2, 3]);
}
