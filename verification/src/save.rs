//! Saved games: what a save holds, how the game's state is put into one and read back, and
//! when the game saves by itself. Files and the text format are handled by the front end.
use vstd::prelude::*;
use vstd::string::*;
use vstd::std_specs::convert::FromSpecImpl;
use crate::components::{Equipment, Glyph, Health, MessageLog, Position, log_after_push};
use crate::quest::{ActiveQuest, QuestLog, QuestObjective, QuestState};
use crate::text::{chars_of, decimal, str_eq, u64_text, views};
use crate::turn::TurnCounter;

verus! {

/// The save format's version.
pub const SAVE_VERSION: u32 = 1;

/// The game saves by itself every this many turns.
pub const AUTO_SAVE_INTERVAL: u64 = 100;

/// A saved game.
#[derive(Debug)]
pub struct SaveGame {
    pub version: u32,
    pub seed: u64,
    pub turn: u64,
    pub player: PlayerSave,
    pub entities: Vec<EntitySave>,
    pub quest_log: QuestLogSave,
    pub messages: Vec<String>,
}

/// The saved player.
#[derive(Debug)]
pub struct PlayerSave {
    pub x: u32,
    pub y: u32,
    pub hp_current: u32,
    pub hp_max: u32,
    pub glyph: char,
    pub glyph_color: (u8, u8, u8),
    pub inventory_items: Vec<ItemSave>,
    pub inventory_capacity: usize,
    pub equipment_weapon: Option<usize>,
    pub equipment_armor: Option<usize>,
    pub equipment_accessory: Option<usize>,
}

/// A saved entity other than the player.
#[derive(Debug)]
pub struct EntitySave {
    pub x: u32,
    pub y: u32,
    pub hp_current: u32,
    pub hp_max: u32,
    pub glyph: char,
    pub glyph_color: (u8, u8, u8),
    pub name: Option<String>,
    pub inventory_items: Vec<ItemSave>,
    pub inventory_capacity: usize,
    pub is_item: bool,
    pub is_creature: bool,
    pub active_quest: Option<ActiveQuestSave>,
}

/// A saved carried item.
#[derive(Debug)]
pub struct ItemSave {
    pub glyph: char,
    pub glyph_color: (u8, u8, u8),
    pub name: Option<String>,
}

/// A saved quest.
#[derive(Debug)]
pub struct ActiveQuestSave {
    pub quest_id: String,
    pub template_id: String,
    pub name: String,
    pub description: String,
    pub objective: QuestObjectiveSave,
    pub state: String,
    pub reward_tags: Vec<String>,
}

/// A saved objective.
#[derive(Debug)]
pub enum QuestObjectiveSave {
    Kill { target_name: String, killed: u32, required: u32 },
    Collect { tag_name: String, collected: u32, required: u32 },
    Reach { biome: String, reached: bool },
    KillInArea { biome: String, killed: u32, required: u32 },
}

/// The saved quest log.
#[derive(Debug)]
pub struct QuestLogSave {
    pub turned_in: Vec<String>,
}

/// An objective as saved.
pub open spec fn objective_saved(obj: QuestObjective) -> QuestObjectiveSave {
    match obj {
        QuestObjective::Kill { target_name, killed, required } => QuestObjectiveSave::Kill { target_name, killed, required },
        QuestObjective::Collect { tag_name, collected, required } => QuestObjectiveSave::Collect { tag_name, collected, required },
        QuestObjective::Reach { biome, reached } => QuestObjectiveSave::Reach { biome, reached },
        QuestObjective::KillInArea { biome, killed, required } => QuestObjectiveSave::KillInArea { biome, killed, required },
    }
}

/// A saved objective read back.
pub open spec fn objective_restored(obj: QuestObjectiveSave) -> QuestObjective {
    match obj {
        QuestObjectiveSave::Kill { target_name, killed, required } => QuestObjective::Kill { target_name, killed, required },
        QuestObjectiveSave::Collect { tag_name, collected, required } => QuestObjective::Collect { tag_name, collected, required },
        QuestObjectiveSave::Reach { biome, reached } => QuestObjective::Reach { biome, reached },
        QuestObjectiveSave::KillInArea { biome, killed, required } => QuestObjective::KillInArea { biome, killed, required },
    }
}

impl<'a> From<&'a QuestObjective> for QuestObjectiveSave {
    fn from(obj: &'a QuestObjective) -> (r: Self) {
        match obj {
            QuestObjective::Kill { target_name, killed, required } =>
                QuestObjectiveSave::Kill { target_name: target_name.clone(), killed: *killed, required: *required },
            QuestObjective::Collect { tag_name, collected, required } =>
                QuestObjectiveSave::Collect { tag_name: tag_name.clone(), collected: *collected, required: *required },
            QuestObjective::Reach { biome, reached } =>
                QuestObjectiveSave::Reach { biome: biome.clone(), reached: *reached },
            QuestObjective::KillInArea { biome, killed, required } =>
                QuestObjectiveSave::KillInArea { biome: biome.clone(), killed: *killed, required: *required },
        }
    }
}

impl<'a> FromSpecImpl<&'a QuestObjective> for QuestObjectiveSave {
    open spec fn obeys_from_spec() -> bool {
        true
    }

    open spec fn from_spec(obj: &'a QuestObjective) -> QuestObjectiveSave {
        objective_saved(*obj)
    }
}

impl<'a> From<&'a QuestObjectiveSave> for QuestObjective {
    fn from(obj: &'a QuestObjectiveSave) -> (r: Self) {
        match obj {
            QuestObjectiveSave::Kill { target_name, killed, required } =>
                QuestObjective::Kill { target_name: target_name.clone(), killed: *killed, required: *required },
            QuestObjectiveSave::Collect { tag_name, collected, required } =>
                QuestObjective::Collect { tag_name: tag_name.clone(), collected: *collected, required: *required },
            QuestObjectiveSave::Reach { biome, reached } =>
                QuestObjective::Reach { biome: biome.clone(), reached: *reached },
            QuestObjectiveSave::KillInArea { biome, killed, required } =>
                QuestObjective::KillInArea { biome: biome.clone(), killed: *killed, required: *required },
        }
    }
}

impl<'a> FromSpecImpl<&'a QuestObjectiveSave> for QuestObjective {
    open spec fn obeys_from_spec() -> bool {
        true
    }

    open spec fn from_spec(obj: &'a QuestObjectiveSave) -> QuestObjective {
        objective_restored(*obj)
    }
}

/// Saving an objective and reading it back gives the same objective.
pub proof fn law_objective_round_trip(obj: QuestObjective)
    ensures
        objective_restored(objective_saved(obj)) == obj,
{
}

/// The saved name of a quest state.
pub open spec fn state_name(s: QuestState) -> Seq<char> {
    match s {
        QuestState::Active => "Active"@,
        QuestState::Complete => "Complete"@,
        QuestState::TurnedIn => "TurnedIn"@,
        QuestState::Failed => "Failed"@,
    }
}

/// The quest state a saved name stands for; anything unknown reads as active.
pub open spec fn state_of_name(s: Seq<char>) -> QuestState {
    if s == "Complete"@ { QuestState::Complete }
    else if s == "TurnedIn"@ { QuestState::TurnedIn }
    else if s == "Failed"@ { QuestState::Failed }
    else { QuestState::Active }
}

/// The saved name of a quest state.
pub fn quest_state_to_string(state: &QuestState) -> (r: String)
    ensures
        r@ == state_name(*state),
{
    match state {
        QuestState::Active => String::from_str("Active"),
        QuestState::Complete => String::from_str("Complete"),
        QuestState::TurnedIn => String::from_str("TurnedIn"),
        QuestState::Failed => String::from_str("Failed"),
    }
}

/// The quest state a saved name stands for.
pub fn string_to_quest_state(s: &str) -> (r: QuestState)
    ensures
        r == state_of_name(s@),
{
    if str_eq(s, "Complete") { QuestState::Complete }
    else if str_eq(s, "TurnedIn") { QuestState::TurnedIn }
    else if str_eq(s, "Failed") { QuestState::Failed }
    else { QuestState::Active }
}

/// Every quest state survives being saved by name and read back.
pub proof fn law_state_round_trip(s: QuestState)
    ensures
        state_of_name(state_name(s)) == s,
{
    reveal_strlit("Active");
    reveal_strlit("Complete");
    reveal_strlit("TurnedIn");
    reveal_strlit("Failed");
    assert("Active"@.len() == 6 && "Complete"@.len() == 8 && "TurnedIn"@.len() == 8 && "Failed"@.len() == 6);
    assert("Complete"@[0] != "TurnedIn"@[0]);
    assert("Active"@[0] != "Failed"@[0]);
    assert("Active"@ != "Complete"@ && "Active"@ != "TurnedIn"@ && "Active"@ != "Failed"@);
    assert("TurnedIn"@ != "Complete"@ && "Failed"@ != "Complete"@ && "Failed"@ != "TurnedIn"@);
}

/// The file name of a save: "save_<seed>_<turn>.toml".
pub open spec fn save_name(seed: u64, turn: u64) -> Seq<char> {
    "save_"@ + decimal(seed as nat) + "_"@ + decimal(turn as nat) + ".toml"@
}

/// The file name of a save.
pub fn save_filename(seed: u64, turn: u64) -> (r: String)
    ensures
        r@ == save_name(seed, turn),
{
    let mut s = String::from_str("save_");
    let a = u64_text(seed);
    s.append(a.as_str());
    s.append("_");
    let b = u64_text(turn);
    s.append(b.as_str());
    s.append(".toml");
    s
}

/// The extension of a file name, as `Path::extension` sees it: what follows the last '.',
/// unless that '.' begins the name.
pub open spec fn extension_of(name: Seq<char>) -> Option<Seq<char>>
    decreases name.len(),
{
    if name.len() == 0 {
        None
    } else if name.last() == '.' {
        if name.len() == 1 { None } else { Some(seq![]) }
    } else {
        match extension_of(name.drop_last()) {
            Some(e) => Some(e.push(name.last())),
            None => None,
        }
    }
}

/// Whether a file name has the "toml" extension.
pub fn has_toml_extension(name: &str) -> (r: bool)
    ensures
        r == (extension_of(name@) == Some("toml"@)),
{
    let cs = chars_of(name);
    let n = cs.len();
    let mut i: usize = n;
    proof {
        assert(cs@.subrange(0, n as int) =~= cs@);
        match extension_of(name@) {
            Some(e) => { assert(e + cs@.subrange(n as int, n as int) =~= e); },
            None => {},
        }
    }
    // Find the last '.'.
    while i > 0 && cs[i - 1] != '.'
        invariant
            i <= n,
            n == cs@.len(),
            cs@ == name@,
            forall|j: int| i <= j < n ==> cs@[j] != '.',
            extension_of(name@) == match extension_of(cs@.subrange(0, i as int)) {
                Some(e) => Some(e + cs@.subrange(i as int, n as int)),
                None => None,
            },
        decreases i,
    {
        let ghost pre = cs@.subrange(0, i as int);
        assert(pre.drop_last() =~= cs@.subrange(0, i - 1));
        assert(pre.last() == cs@[i - 1]);
        proof {
            match extension_of(cs@.subrange(0, i - 1)) {
                Some(e) => {
                    assert(e.push(cs@[i - 1]) + cs@.subrange(i as int, n as int) =~= e + cs@.subrange(i - 1, n as int));
                },
                None => {},
            }
        }
        i = i - 1;
    }
    if i <= 1 {
        // No '.' at all, or only a leading one.
        proof {
            if i == 0 {
                assert(cs@.subrange(0, 0) =~= Seq::<char>::empty());
            } else {
                assert(cs@.subrange(0, 1).last() == '.');
                assert(cs@.subrange(0, 1).len() == 1);
            }
        }
        return false;
    }
    proof {
        assert(cs@.subrange(0, i as int).last() == '.');
        assert(seq![] + cs@.subrange(i as int, n as int) =~= cs@.subrange(i as int, n as int));
        reveal_strlit("toml");
    }
    if n - i != 4 {
        return false;
    }
    let r = cs[i] == 't' && cs[i + 1] == 'o' && cs[i + 2] == 'm' && cs[i + 3] == 'l';
    proof {
        if r {
            assert(cs@.subrange(i as int, n as int) =~= "toml"@);
        } else {
            assert(cs@.subrange(i as int, n as int) != "toml"@) by {
                if cs@.subrange(i as int, n as int) == "toml"@ {
                    assert(cs@.subrange(i as int, n as int)[0] == cs@[i as int]);
                    assert(cs@.subrange(i as int, n as int)[1] == cs@[i + 1]);
                    assert(cs@.subrange(i as int, n as int)[2] == cs@[i + 2]);
                    assert(cs@.subrange(i as int, n as int)[3] == cs@[i + 3]);
                }
            }
        }
    }
    r
}

/// Whether `a` comes before `b` in lexicographic order of characters (which, for UTF-8
/// text, is the order of their bytes).
pub open spec fn lex_less(a: Seq<char>, b: Seq<char>) -> bool
    decreases a.len(),
{
    if a.len() == 0 {
        b.len() > 0
    } else if b.len() == 0 {
        false
    } else if a[0] != b[0] {
        (a[0] as u32) < (b[0] as u32)
    } else {
        lex_less(a.drop_first(), b.drop_first())
    }
}

/// Whether names are in descending lexicographic order.
pub open spec fn descending(s: Seq<Seq<char>>) -> bool {
    forall|i: int, j: int| 0 <= i < j < s.len() ==> !lex_less(s[i], s[j])
}

/// Trusted: `slice::sort` on strings leaves the same strings in ascending order (strings
/// compare by their bytes, which for UTF-8 is `lex_less`).
#[verifier::external_body]
fn sort_names(v: &mut Vec<String>)
    ensures
        views(final(v)@).to_multiset() == views(old(v)@).to_multiset(),
        forall|i: int, j: int| 0 <= i < j < final(v)@.len() ==> !lex_less(final(v)@[j]@, final(v)@[i]@),
{
    v.sort();
}

/// The save files among directory entries, newest name first: those with the "toml"
/// extension, in descending order of name.
pub fn save_listing(names: &Vec<String>) -> (r: Vec<String>)
    ensures
        views(r@).to_multiset() == views(names@).filter(|n: Seq<char>| extension_of(n) == Some("toml"@)).to_multiset(),
        descending(views(r@)),
{
    let mut kept: Vec<String> = Vec::new();
    let mut i: usize = 0;
    while i < names.len()
        invariant
            i <= names@.len(),
            views(kept@) == views(names@.subrange(0, i as int)).filter(|n: Seq<char>| extension_of(n) == Some("toml"@)),
        decreases names.len() - i,
    {
        let ghost pre = views(names@.subrange(0, i as int));
        let ghost post = views(names@.subrange(0, i + 1));
        assert(post.drop_last() =~= pre);
        assert(post.last() == names@[i as int]@);
        proof {
            Seq::filter_distributes_over_add(pre, seq![names@[i as int]@], |n: Seq<char>| extension_of(n) == Some("toml"@));
            assert(post =~= pre + seq![names@[i as int]@]);
        }
        if has_toml_extension(names[i].as_str()) {
            let ghost before = views(kept@);
            kept.push(names[i].clone());
            assert(views(kept@) =~= before.push(names@[i as int]@));
            assert(seq![names@[i as int]@].filter(|n: Seq<char>| extension_of(n) == Some("toml"@)) =~= seq![names@[i as int]@]) by {
                reveal(Seq::filter);
            }
        } else {
            assert(seq![names@[i as int]@].filter(|n: Seq<char>| extension_of(n) == Some("toml"@)) =~= Seq::<Seq<char>>::empty()) by {
                reveal(Seq::filter);
            }
        }
        i = i + 1;
    }
    assert(names@.subrange(0, names@.len() as int) =~= names@);
    sort_names(&mut kept);
    let mut r: Vec<String> = Vec::new();
    let mut k: usize = kept.len();
    while k > 0
        invariant
            k <= kept@.len(),
            r@.len() == kept@.len() - k,
            forall|j: int| 0 <= j < r@.len() ==> #[trigger] r@[j]@ == kept@[kept@.len() - 1 - j]@,
        decreases k,
    {
        k = k - 1;
        r.push(kept[k].clone());
    }
    proof {
        assert(views(r@) =~= views(kept@).reverse());
        views(kept@).lemma_reverse_to_multiset();
    }
    r
}

/// Whether the game saves by itself on this turn: on every hundredth turn after the first.
pub fn should_auto_save(turn: Option<&TurnCounter>) -> (r: bool)
    ensures
        r == match turn { Some(t) => t.0 > 0 && t.0 % 100 == 0, None => false },
{
    match turn {
        Some(t) => t.0 > 0 && t.0 % AUTO_SAVE_INTERVAL == 0,
        None => false,
    }
}

/// What is known of a carried item: its glyph and name, if it has them.
#[derive(Debug)]
pub struct ItemRecord {
    pub glyph: Option<Glyph>,
    pub name: Option<String>,
}

/// A carried item as saved: its glyph (a grey '?' when it has none) and its name.
pub fn serialize_item(item: &ItemRecord) -> (r: ItemSave)
    ensures
        r.glyph == match item.glyph { Some(g) => g.char, None => '?' },
        r.glyph_color == match item.glyph { Some(g) => g.color, None => (128u8, 128u8, 128u8) },
        r.name == item.name,
{
    let (glyph, glyph_color) = match item.glyph {
        Some(g) => (g.char, g.color),
        None => ('?', (128, 128, 128)),
    };
    ItemSave { glyph, glyph_color, name: item.name.clone() }
}

/// Whether `s` is how item `i` is saved.
pub open spec fn item_saved(i: ItemRecord, s: ItemSave) -> bool {
    &&& s.glyph == match i.glyph { Some(g) => g.char, None => '?' }
    &&& s.glyph_color == match i.glyph { Some(g) => g.color, None => (128u8, 128u8, 128u8) }
    &&& s.name == i.name
}

fn serialize_items(items: &Vec<ItemRecord>) -> (r: Vec<ItemSave>)
    ensures
        r@.len() == items@.len(),
        forall|k: int| 0 <= k < items@.len() ==> item_saved(items@[k], #[trigger] r@[k]),
{
    let mut r: Vec<ItemSave> = Vec::new();
    let mut k: usize = 0;
    while k < items.len()
        invariant
            k <= items@.len(),
            r@.len() == k,
            forall|j: int| 0 <= j < k ==> item_saved(items@[j], #[trigger] r@[j]),
        decreases items.len() - k,
    {
        r.push(serialize_item(&items[k]));
        k = k + 1;
    }
    r
}

/// What is known of the player.
#[derive(Debug)]
pub struct PlayerRecord {
    pub position: Position,
    pub health: Health,
    pub glyph: Glyph,
    pub inventory_items: Vec<ItemRecord>,
    pub inventory_capacity: usize,
    pub equipment: Equipment,
}

/// The player as saved: position, health, glyph, carried items, and which slots are filled
/// (slot numbers 0, 1, 2). An error when there is no player.
pub fn serialize_player(player: Option<&PlayerRecord>) -> (r: Result<PlayerSave, String>)
    ensures
        player.is_none() ==> (r matches Err(e) && e@ == "No player entity found"@),
        player.is_some() ==> (r matches Ok(s) && {
            let p = player.unwrap();
            &&& s.x == p.position.x && s.y == p.position.y
            &&& s.hp_current == p.health.current && s.hp_max == p.health.max
            &&& s.glyph == p.glyph.char && s.glyph_color == p.glyph.color
            &&& s.inventory_items@.len() == p.inventory_items@.len()
            &&& (forall|k: int| 0 <= k < s.inventory_items@.len() ==> item_saved(p.inventory_items@[k], #[trigger] s.inventory_items@[k]))
            &&& s.inventory_capacity == p.inventory_capacity
            &&& s.equipment_weapon == if p.equipment.weapon.is_some() { Some(0usize) } else { None }
            &&& s.equipment_armor == if p.equipment.armor.is_some() { Some(1usize) } else { None }
            &&& s.equipment_accessory == if p.equipment.accessory.is_some() { Some(2usize) } else { None }
        }),
{
    let p = match player {
        Some(p) => p,
        None => return Err(String::from_str("No player entity found")),
    };
    Ok(PlayerSave {
        x: p.position.x,
        y: p.position.y,
        hp_current: p.health.current,
        hp_max: p.health.max,
        glyph: p.glyph.char,
        glyph_color: p.glyph.color,
        inventory_items: serialize_items(&p.inventory_items),
        inventory_capacity: p.inventory_capacity,
        equipment_weapon: if p.equipment.weapon.is_some() { Some(0) } else { None },
        equipment_armor: if p.equipment.armor.is_some() { Some(1) } else { None },
        equipment_accessory: if p.equipment.accessory.is_some() { Some(2) } else { None },
    })
}

/// A quest as saved.
pub fn quest_to_save(q: &ActiveQuest) -> (r: ActiveQuestSave)
    ensures
        r.quest_id == q.quest_id && r.template_id == q.template_id,
        r.name == q.name && r.description == q.description,
        r.objective == objective_saved(q.objective),
        r.state@ == state_name(q.state),
        r.reward_tags@ == q.reward_tags@,
{
    let reward_tags = q.reward_tags.clone();
    assert(reward_tags@ =~= q.reward_tags@);
    ActiveQuestSave {
        quest_id: q.quest_id.clone(),
        template_id: q.template_id.clone(),
        name: q.name.clone(),
        description: q.description.clone(),
        objective: QuestObjectiveSave::from(&q.objective),
        state: quest_state_to_string(&q.state),
        reward_tags,
    }
}

/// A saved quest read back.
pub fn quest_from_save(qs: &ActiveQuestSave) -> (r: ActiveQuest)
    ensures
        r.quest_id == qs.quest_id && r.template_id == qs.template_id,
        r.name == qs.name && r.description == qs.description,
        r.objective == objective_restored(qs.objective),
        r.state == state_of_name(qs.state@),
        r.reward_tags@ == qs.reward_tags@,
{
    let reward_tags = qs.reward_tags.clone();
    assert(reward_tags@ =~= qs.reward_tags@);
    ActiveQuest {
        quest_id: qs.quest_id.clone(),
        template_id: qs.template_id.clone(),
        name: qs.name.clone(),
        description: qs.description.clone(),
        objective: QuestObjective::from(&qs.objective),
        state: string_to_quest_state(qs.state.as_str()),
        reward_tags,
    }
}

/// A quest saved and read back is the same quest.
pub proof fn law_quest_round_trip(q: ActiveQuest, s: ActiveQuestSave, back: ActiveQuest)
    requires
        s.quest_id == q.quest_id && s.template_id == q.template_id,
        s.name == q.name && s.description == q.description,
        s.objective == objective_saved(q.objective),
        s.state@ == state_name(q.state),
        s.reward_tags@ == q.reward_tags@,
        back.quest_id == s.quest_id && back.template_id == s.template_id,
        back.name == s.name && back.description == s.description,
        back.objective == objective_restored(s.objective),
        back.state == state_of_name(s.state@),
        back.reward_tags@ == s.reward_tags@,
    ensures
        back.quest_id == q.quest_id && back.template_id == q.template_id,
        back.name == q.name && back.description == q.description,
        back.objective == q.objective,
        back.state == q.state,
        back.reward_tags@ == q.reward_tags@,
{
    law_objective_round_trip(q.objective);
    law_state_round_trip(q.state);
}


/// What is known of an entity with a position, health and glyph.
#[derive(Debug)]
pub struct EntityRecord {
    pub is_player: bool,
    pub position: Position,
    pub health: Health,
    pub glyph: Glyph,
    pub name: Option<String>,
    pub inventory: Option<(Vec<ItemRecord>, usize)>,
    pub is_item: bool,
    pub is_creature: bool,
    pub active_quest: Option<ActiveQuest>,
}

/// Whether `s` is how entity `e` is saved.
pub open spec fn entity_saved(e: EntityRecord, s: EntitySave) -> bool {
    &&& s.x == e.position.x && s.y == e.position.y
    &&& s.hp_current == e.health.current && s.hp_max == e.health.max
    &&& s.glyph == e.glyph.char && s.glyph_color == e.glyph.color
    &&& s.name == e.name
    &&& match e.inventory {
            Some(inv) => s.inventory_items@.len() == inv.0@.len()
                && (forall|k: int| 0 <= k < inv.0@.len() ==> item_saved(inv.0@[k], #[trigger] s.inventory_items@[k]))
                && s.inventory_capacity == inv.1,
            None => s.inventory_items@.len() == 0 && s.inventory_capacity == 0,
        }
    &&& s.is_item == e.is_item && s.is_creature == e.is_creature
    &&& match e.active_quest {
            Some(q) => s.active_quest matches Some(qs) && qs.quest_id == q.quest_id && qs.template_id == q.template_id
                && qs.name == q.name && qs.description == q.description && qs.objective == objective_saved(q.objective)
                && qs.state@ == state_name(q.state) && qs.reward_tags@ == q.reward_tags@,
            None => s.active_quest is None,
        }
}

/// The entities other than the player, in order.
pub open spec fn non_players(es: Seq<EntityRecord>) -> Seq<EntityRecord>
    decreases es.len(),
{
    if es.len() == 0 {
        seq![]
    } else {
        let prev = non_players(es.drop_last());
        if es.last().is_player { prev } else { prev.push(es.last()) }
    }
}

fn serialize_entity(e: &EntityRecord) -> (r: EntitySave)
    ensures
        entity_saved(*e, r),
{
    let (inventory_items, inventory_capacity) = match &e.inventory {
        Some(inv) => (serialize_items(&inv.0), inv.1),
        None => (Vec::new(), 0),
    };
    let active_quest = match &e.active_quest {
        Some(q) => Some(quest_to_save(q)),
        None => None,
    };
    EntitySave {
        x: e.position.x,
        y: e.position.y,
        hp_current: e.health.current,
        hp_max: e.health.max,
        glyph: e.glyph.char,
        glyph_color: e.glyph.color,
        name: e.name.clone(),
        inventory_items,
        inventory_capacity,
        is_item: e.is_item,
        is_creature: e.is_creature,
        active_quest,
    }
}

/// Every entity but the player, as saved, in order.
pub fn serialize_entities(entities: &Vec<EntityRecord>) -> (r: Vec<EntitySave>)
    ensures
        r@.len() == non_players(entities@).len(),
        forall|k: int| 0 <= k < r@.len() ==> entity_saved(non_players(entities@)[k], #[trigger] r@[k]),
{
    let mut r: Vec<EntitySave> = Vec::new();
    let mut i: usize = 0;
    while i < entities.len()
        invariant
            i <= entities@.len(),
            r@.len() == non_players(entities@.subrange(0, i as int)).len(),
            forall|k: int| 0 <= k < r@.len() ==> entity_saved(non_players(entities@.subrange(0, i as int))[k], #[trigger] r@[k]),
        decreases entities.len() - i,
    {
        let ghost pre = entities@.subrange(0, i as int);
        assert(entities@.subrange(0, i + 1).drop_last() =~= pre);
        if !entities[i].is_player {
            let s = serialize_entity(&entities[i]);
            r.push(s);
            assert forall|k: int| 0 <= k < r@.len() implies
                entity_saved(non_players(entities@.subrange(0, i + 1))[k], #[trigger] r@[k]) by {
                if k < r@.len() - 1 {
                    assert(non_players(entities@.subrange(0, i + 1))[k] == non_players(pre)[k]);
                }
            }
        }
        i = i + 1;
    }
    assert(entities@.subrange(0, entities@.len() as int) =~= entities@);
    r
}

/// The quest log as saved (empty without a log).
pub fn serialize_quest_log(log: Option<&QuestLog>) -> (r: QuestLogSave)
    ensures
        r.turned_in@ == match log { Some(l) => l.turned_in@, None => Seq::<String>::empty() },
{
    match log {
        Some(l) => {
            let t = l.turned_in.clone();
            assert(t@ =~= l.turned_in@);
            QuestLogSave { turned_in: t }
        },
        None => QuestLogSave { turned_in: Vec::new() },
    }
}

/// The messages as saved (none without a log).
pub fn serialize_messages(log: Option<&MessageLog>) -> (r: Vec<String>)
    ensures
        r@ == match log { Some(l) => l.messages@, None => Seq::<String>::empty() },
{
    match log {
        Some(l) => {
            let m = l.messages.clone();
            assert(m@ =~= l.messages@);
            m
        },
        None => Vec::new(),
    }
}

/// Puts the game's state into a save: the version, the seed, the turn (0 without a counter),
/// the player, the other entities, the quest log and the messages. An error without a player.
pub fn build_save(
    seed: u64,
    turn: Option<&TurnCounter>,
    player: Option<&PlayerRecord>,
    entities: &Vec<EntityRecord>,
    quest_log: Option<&QuestLog>,
    messages: Option<&MessageLog>,
) -> (r: Result<SaveGame, String>)
    ensures
        player.is_none() ==> r is Err,
        player.is_some() ==> (r matches Ok(s) && {
            &&& s.version == 1 && s.seed == seed
            &&& s.turn == match turn { Some(t) => t.0, None => 0 }
            &&& s.player.x == player.unwrap().position.x && s.player.y == player.unwrap().position.y
            &&& s.player.hp_current == player.unwrap().health.current && s.player.hp_max == player.unwrap().health.max
            &&& s.entities@.len() == non_players(entities@).len()
            &&& (forall|k: int| 0 <= k < s.entities@.len() ==> entity_saved(non_players(entities@)[k], #[trigger] s.entities@[k]))
            &&& s.quest_log.turned_in@ == match quest_log { Some(l) => l.turned_in@, None => Seq::<String>::empty() }
            &&& s.messages@ == match messages { Some(l) => l.messages@, None => Seq::<String>::empty() }
        }),
{
    let t = match turn {
        Some(t) => t.0,
        None => 0,
    };
    let player_save = match serialize_player(player) {
        Ok(p) => p,
        Err(e) => return Err(e),
    };
    Ok(SaveGame {
        version: SAVE_VERSION,
        seed,
        turn: t,
        player: player_save,
        entities: serialize_entities(entities),
        quest_log: serialize_quest_log(quest_log),
        messages: serialize_messages(messages),
    })
}

/// A restored carried item.
#[derive(Debug)]
pub struct RestoredItem {
    pub glyph: Glyph,
    pub name: Option<String>,
}

/// The restored player.
#[derive(Debug)]
pub struct RestoredPlayer {
    pub position: Position,
    pub health: Health,
    pub glyph: Glyph,
    pub items: Vec<RestoredItem>,
    pub inventory_capacity: usize,
    pub equipment: Equipment,
}

/// A restored entity.
#[derive(Debug)]
pub struct RestoredEntity {
    pub position: Position,
    pub health: Health,
    pub glyph: Glyph,
    pub name: Option<String>,
    pub is_item: bool,
    pub is_creature: bool,
    pub inventory: Option<(Vec<RestoredItem>, usize)>,
    pub active_quest: Option<ActiveQuest>,
}

/// The game state a save restores.
#[derive(Debug)]
pub struct RestoredWorld {
    pub turn: TurnCounter,
    pub player: RestoredPlayer,
    pub entities: Vec<RestoredEntity>,
    pub quest_log: QuestLog,
    pub messages: MessageLog,
}

/// The lines of a 100-message log after replaying saved messages in order.
pub open spec fn replayed(msgs: Seq<Seq<char>>) -> Seq<Seq<char>>
    decreases msgs.len(),
{
    if msgs.len() == 0 { seq![] } else { log_after_push(replayed(msgs.drop_last()), 100, msgs.last()) }
}

/// Saved messages read back: up to a hundred come back exactly; of more, the last hundred.
pub proof fn law_messages_round_trip(msgs: Seq<Seq<char>>)
    ensures
        msgs.len() <= 100 ==> replayed(msgs) == msgs,
        msgs.len() > 100 ==> replayed(msgs) == msgs.subrange(msgs.len() - 100, msgs.len() as int),
    decreases msgs.len(),
{
    if msgs.len() > 0 {
        law_messages_round_trip(msgs.drop_last());
        if msgs.len() <= 100 {
            assert(msgs.drop_last().push(msgs.last()) =~= msgs);
        } else if msgs.len() == 101 {
            assert(msgs.drop_last().drop_first().push(msgs.last()) =~= msgs.subrange(1, 101));
        } else {
            let prev = msgs.drop_last();
            assert(prev.subrange(prev.len() - 100, prev.len() as int).drop_first().push(msgs.last())
                =~= msgs.subrange(msgs.len() - 100, msgs.len() as int));
        }
    }
}

/// Whether `r` is saved item `s` restored for the player: unnamed items are named by their glyph.
pub open spec fn player_item_restored(s: ItemSave, r: RestoredItem) -> bool {
    &&& r.glyph == (Glyph { char: s.glyph, color: s.glyph_color })
    &&& r.name matches Some(n) && n@ == seq![s.glyph]
}

/// Whether `r` is saved item `s` restored in another entity's inventory.
pub open spec fn item_restored(s: ItemSave, r: RestoredItem) -> bool {
    &&& r.glyph == (Glyph { char: s.glyph, color: s.glyph_color })
    &&& r.name == s.name
}

/// Whether `r` is saved entity `s` restored.
pub open spec fn entity_restored(s: EntitySave, r: RestoredEntity) -> bool {
    &&& r.position == (Position { x: s.x, y: s.y, z: 0 })
    &&& r.health == (Health { current: s.hp_current, max: s.hp_max })
    &&& r.glyph == (Glyph { char: s.glyph, color: s.glyph_color })
    &&& r.name == s.name && r.is_item == s.is_item && r.is_creature == s.is_creature
    &&& if s.inventory_items@.len() == 0 { r.inventory is None } else {
            r.inventory matches Some(inv) && inv.1 == s.inventory_capacity && inv.0@.len() == s.inventory_items@.len()
                && forall|k: int| 0 <= k < inv.0@.len() ==> item_restored(s.inventory_items@[k], #[trigger] inv.0@[k])
        }
    &&& match s.active_quest {
            Some(qs) => r.active_quest matches Some(q) && q.quest_id == qs.quest_id && q.template_id == qs.template_id
                && q.name == qs.name && q.description == qs.description && q.objective == objective_restored(qs.objective)
                && q.state == state_of_name(qs.state@) && q.reward_tags@ == qs.reward_tags@,
            None => r.active_quest is None,
        }
}

fn restore_item(s: &ItemSave) -> (r: RestoredItem)
    ensures
        item_restored(*s, r),
{
    RestoredItem { glyph: Glyph { char: s.glyph, color: s.glyph_color }, name: s.name.clone() }
}

fn restore_entity(s: &EntitySave) -> (r: RestoredEntity)
    ensures
        entity_restored(*s, r),
{
    let inventory = if s.inventory_items.len() == 0 {
        None
    } else {
        let mut items: Vec<RestoredItem> = Vec::new();
        let mut k: usize = 0;
        while k < s.inventory_items.len()
            invariant
                k <= s.inventory_items@.len(),
                items@.len() == k,
                forall|j: int| 0 <= j < k ==> item_restored(s.inventory_items@[j], #[trigger] items@[j]),
            decreases s.inventory_items.len() - k,
        {
            items.push(restore_item(&s.inventory_items[k]));
            k = k + 1;
        }
        Some((items, s.inventory_capacity))
    };
    let active_quest = match &s.active_quest {
        Some(qs) => Some(quest_from_save(qs)),
        None => None,
    };
    RestoredEntity {
        position: Position { x: s.x, y: s.y, z: 0 },
        health: Health { current: s.hp_current, max: s.hp_max },
        glyph: Glyph { char: s.glyph, color: s.glyph_color },
        name: s.name.clone(),
        is_item: s.is_item,
        is_creature: s.is_creature,
        inventory,
        active_quest,
    }
}

/// An entity of the surface level, saved and read back, keeps its place, health, glyph, name,
/// kind, carried items (those with a glyph) and quest; an entity that carried nothing still
/// carries nothing.
pub proof fn law_entity_round_trip(e: EntityRecord, s: EntitySave, r: RestoredEntity)
    requires
        e.position.z == 0,
        entity_saved(e, s),
        entity_restored(s, r),
    ensures
        r.position == e.position,
        r.health == e.health,
        r.glyph == e.glyph,
        r.name == e.name,
        r.is_item == e.is_item && r.is_creature == e.is_creature,
        match e.inventory {
            Some(inv) => if inv.0@.len() == 0 { r.inventory is None } else {
                r.inventory matches Some(ri) && ri.1 == inv.1 && ri.0@.len() == inv.0@.len()
                    && (forall|k: int| 0 <= k < inv.0@.len() && (#[trigger] inv.0@[k]).glyph is Some
                        ==> ri.0@[k].glyph == inv.0@[k].glyph->0 && ri.0@[k].name == inv.0@[k].name)
            },
            None => r.inventory is None,
        },
        match e.active_quest {
            Some(q) => r.active_quest matches Some(b) && b@ == q@,
            None => r.active_quest is None,
        },
{
    if let Some(q) = e.active_quest {
        law_objective_round_trip(q.objective);
        law_state_round_trip(q.state);
        let b = r.active_quest.unwrap();
        assert(b.objective@ == q.objective@);
        assert(views(b.reward_tags@) =~= views(q.reward_tags@));
    }
}

/// Reads a save back into game state: the turn, the player (with empty equipment, each carried
/// item named by its glyph), the other entities (carried items only when there are any), the
/// quest log, and the messages replayed into a log of 100.
pub fn deserialize_to_world(save: &SaveGame) -> (r: RestoredWorld)
    requires
        forall|k: int| 0 <= k < save.player.inventory_items@.len() ==> (#[trigger] save.player.inventory_items@[k]).name is None,
    ensures
        r.turn.0 == save.turn,
        r.player.position == (Position { x: save.player.x, y: save.player.y, z: 0 }),
        r.player.health == (Health { current: save.player.hp_current, max: save.player.hp_max }),
        r.player.glyph == (Glyph { char: save.player.glyph, color: save.player.glyph_color }),
        r.player.inventory_capacity == save.player.inventory_capacity,
        r.player.equipment == (Equipment { weapon: None, armor: None, accessory: None }),
        r.player.items@.len() == save.player.inventory_items@.len(),
        forall|k: int| 0 <= k < r.player.items@.len() ==> player_item_restored(save.player.inventory_items@[k], #[trigger] r.player.items@[k]),
        r.entities@.len() == save.entities@.len(),
        forall|k: int| 0 <= k < r.entities@.len() ==> entity_restored(save.entities@[k], #[trigger] r.entities@[k]),
        r.quest_log.turned_in@ == save.quest_log.turned_in@,
        r.messages.max == 100,
        r.messages.lines() == replayed(views(save.messages@)),
{
    let ps = &save.player;
    let mut items: Vec<RestoredItem> = Vec::new();
    let mut k: usize = 0;
    while k < ps.inventory_items.len()
        invariant
            k <= ps.inventory_items@.len(),
            items@.len() == k,
            forall|j: int| 0 <= j < k ==> player_item_restored(ps.inventory_items@[j], #[trigger] items@[j]),
        decreases ps.inventory_items.len() - k,
    {
        let it = &ps.inventory_items[k];
        let mut name = String::new();
        crate::text::push_char(&mut name, it.glyph);
        assert(name@ =~= seq![it.glyph]);
        items.push(RestoredItem { glyph: Glyph { char: it.glyph, color: it.glyph_color }, name: Some(name) });
        k = k + 1;
    }
    let player = RestoredPlayer {
        position: Position { x: ps.x, y: ps.y, z: 0 },
        health: Health { current: ps.hp_current, max: ps.hp_max },
        glyph: Glyph { char: ps.glyph, color: ps.glyph_color },
        items,
        inventory_capacity: ps.inventory_capacity,
        equipment: Equipment { weapon: None, armor: None, accessory: None },
    };
    let mut entities: Vec<RestoredEntity> = Vec::new();
    let mut i: usize = 0;
    while i < save.entities.len()
        invariant
            i <= save.entities@.len(),
            entities@.len() == i,
            forall|j: int| 0 <= j < i ==> entity_restored(save.entities@[j], #[trigger] entities@[j]),
        decreases save.entities.len() - i,
    {
        entities.push(restore_entity(&save.entities[i]));
        i = i + 1;
    }
    let turned_in = save.quest_log.turned_in.clone();
    assert(turned_in@ =~= save.quest_log.turned_in@);
    let mut messages = MessageLog::new(100);
    let mut m: usize = 0;
    while m < save.messages.len()
        invariant
            m <= save.messages@.len(),
            messages.max == 100,
            messages.lines() == replayed(views(save.messages@.subrange(0, m as int))),
        decreases save.messages.len() - m,
    {
        assert(views(save.messages@.subrange(0, m + 1)).drop_last() =~= views(save.messages@.subrange(0, m as int)));
        messages.push(save.messages[m].clone());
        m = m + 1;
    }
    assert(save.messages@.subrange(0, save.messages@.len() as int) =~= save.messages@);
    RestoredWorld { turn: TurnCounter(save.turn), player, entities, quest_log: QuestLog { turned_in }, messages }
}

} // verus!
