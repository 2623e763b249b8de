use carapace::components::{Equipment, EquipmentSlot, Glyph, Health, Inventory, MessageLog, Name, Position};

#[test]
fn player_components() {
    let pos = Position { x: 5, y: 10, z: 0 };
    assert_eq!(pos.x, 5);
    assert_eq!(pos.y, 10);

    let health = Health { current: 100, max: 100 };
    assert_eq!(health.current, 100);

    let glyph = Glyph { char: '@', color: (255, 255, 0) };
    assert_eq!(glyph.char, '@');
}

#[test]
fn message_log_push_and_recent() {
    let mut log = MessageLog::new(5);
    for i in 0..7 {
        log.push(format!("msg {}", i));
    }
    assert_eq!(log.messages.len(), 5);
    assert_eq!(log.messages[0], "msg 2");
    assert_eq!(log.recent(3), vec!["msg 4", "msg 5", "msg 6"]);
}

#[test]
fn message_log_recent_more_than_held() {
    let mut log = MessageLog::new(3);
    log.push("a".to_string());
    log.push("b".to_string());
    assert_eq!(log.recent(10), vec!["a", "b"]);
    assert!(log.recent(0).is_empty());
}

#[test]
fn inventory_capacity() {
    let inv = Inventory { items: vec![], capacity: 20 };
    assert_eq!(inv.capacity, 20);
    assert!(inv.items.is_empty());
}

#[test]
fn equipment_slot_variants() {
    assert_eq!(EquipmentSlot::Weapon, EquipmentSlot::Weapon);
    assert_ne!(EquipmentSlot::Weapon, EquipmentSlot::Armor);
    assert_ne!(EquipmentSlot::Armor, EquipmentSlot::Accessory);
}

#[test]
fn equipment_with_entities() {
    let sword = 1u64;
    let shield = 2u64;
    let ring = 3u64;
    let eq = Equipment { weapon: Some(sword), armor: Some(shield), accessory: Some(ring) };
    assert_eq!(eq.weapon, Some(sword));
    assert_eq!(eq.armor, Some(shield));
    assert_eq!(eq.accessory, Some(ring));
}

#[test]
fn name_component() {
    let name = Name("Hero".to_string());
    assert_eq!(name.0, "Hero");
}

#[test]
fn glyph_equality() {
    let g1 = Glyph { char: '@', color: (255, 255, 0) };
    let g2 = Glyph { char: '@', color: (255, 255, 0) };
    let g3 = Glyph { char: '@', color: (255, 0, 0) };
    assert_eq!(g1, g2);
    assert_ne!(g1, g3);
}
