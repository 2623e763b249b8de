//! Game events: what happened during a turn, the text the message log shows for
//! each, and the bounded event history.
use vstd::prelude::*;
use vstd::string::*;
use crate::components::{EntityId, MessageLog, log_after_push};
use crate::tags::{TagId, TagRegistry};
use crate::text::{decimal, join, join_seq, u32_text, views};

verus! {

/// Whether an interaction happened on one entity or between two.
#[derive(Debug, Clone, Copy, PartialEq, Eq, Structural)]
pub enum InteractionKind {
    Self_,
    Cross,
}

/// Something that happened in the game.
#[derive(Debug)]
pub enum GameEvent {
    Interaction {
        entity: Option<EntityId>,
        nearby_entity: Option<EntityId>,
        kind: InteractionKind,
        source_tags: Vec<TagId>,
        target_tags: Vec<TagId>,
        result_tags: Vec<TagId>,
        consumed_tags: Vec<TagId>,
    },
    Combat {
        attacker: Option<EntityId>,
        target: Option<EntityId>,
        attacker_name: String,
        target_name: String,
        damage_dealt: u32,
        target_hp_remaining: u32,
        target_died: bool,
        is_player_attacker: bool,
        is_player_target: bool,
    },
    PlayerDied,
    ItemPickedUp { item_name: String },
    ItemConsumed { item_name: String, healed: u32, poisoned: bool, extinguished: bool },
    ItemEquipped { item_name: String },
    ItemUnequipped { item_name: String },
    ItemThrown { item_name: String, hit_entity: bool, hit_name: Option<String>, damage: u32, target_died: bool },
    ItemCrafted { item_name: String },
    QuestAccepted { name: String },
    QuestCompleted { name: String },
    StatusApplied { entity: Option<EntityId>, tag_id: TagId },
    StatusRemoved { entity: Option<EntityId>, tag_id: TagId },
    Dialogue { speaker: Option<EntityId>, speaker_name: String },
    DungeonEntered { name: String },
    DungeonDescended { depth: u32 },
    DungeonExited,
    LootDropped { items: Vec<String> },
    Message(String),
}

/// The names of tags by id.
pub open spec fn tag_names(ids: Seq<TagId>, reg: TagRegistry) -> Seq<Seq<char>> {
    ids.map_values(|t: TagId| reg.defs@[t as int].name@)
}

/// Whether every tag id an event mentions is registered.
pub open spec fn event_tags_known(e: GameEvent, reg: TagRegistry) -> bool {
    let n = reg.defs@.len();
    match e {
        GameEvent::Interaction { source_tags, target_tags, result_tags, consumed_tags, .. } => {
            &&& forall|k: int| 0 <= k < source_tags@.len() ==> #[trigger] source_tags@[k] < n
            &&& forall|k: int| 0 <= k < target_tags@.len() ==> #[trigger] target_tags@[k] < n
            &&& forall|k: int| 0 <= k < result_tags@.len() ==> #[trigger] result_tags@[k] < n
            &&& forall|k: int| 0 <= k < consumed_tags@.len() ==> #[trigger] consumed_tags@[k] < n
        },
        GameEvent::StatusApplied { tag_id, .. } => tag_id < n,
        GameEvent::StatusRemoved { tag_id, .. } => tag_id < n,
        _ => true,
    }
}

/// The sentence parts of an interaction: what faded, then what was created.
pub open spec fn interaction_parts(kind: InteractionKind, results: Seq<Seq<char>>, consumed: Seq<Seq<char>>) -> Seq<Seq<char>> {
    let faded: Seq<Seq<char>> = if consumed.len() > 0 { seq![join_seq(consumed, ", "@) + " fades"@] } else { seq![] };
    let prefix = if kind == InteractionKind::Self_ { "A reaction creates"@ } else { "The interaction creates"@ };
    if results.len() > 0 { faded.push(prefix + " "@ + join_seq(results, ", "@)) } else { faded }
}

/// The text of an interaction.
pub open spec fn interaction_text(kind: InteractionKind, sources: Seq<Seq<char>>, targets: Seq<Seq<char>>, results: Seq<Seq<char>>, consumed: Seq<Seq<char>>) -> Seq<char> {
    let parts = interaction_parts(kind, results, consumed);
    if parts.len() == 0 {
        let verb = if kind == InteractionKind::Self_ { " meets "@ } else { " reacts with "@ };
        join_seq(sources, "+"@) + verb + join_seq(targets, "+"@)
    } else {
        join_seq(parts, ". "@)
    }
}

/// The text of a combat event.
pub open spec fn combat_text(attacker: Seq<char>, target: Seq<char>, damage: u32, hp: u32, died: bool, player_attacks: bool) -> Seq<char> {
    if died {
        if player_attacks {
            "You hit "@ + target + " for "@ + decimal(damage as nat) + " damage. It dies!"@
        } else {
            attacker + " kills "@ + target + "!"@
        }
    } else if player_attacks {
        "You hit "@ + target + " for "@ + decimal(damage as nat) + " damage. ("@ + decimal(hp as nat) + " HP remaining)"@
    } else {
        attacker + " hits "@ + target + " for "@ + decimal(damage as nat) + " damage! ("@ + decimal(hp as nat) + " HP remaining)"@
    }
}

/// The text of a consumed item.
pub open spec fn consumed_text(item: Seq<char>, healed: u32, poisoned: bool, extinguished: bool) -> Seq<char> {
    if healed > 0 {
        "You consume the "@ + item + ". Healed "@ + decimal(healed as nat) + " HP."@
    } else if poisoned {
        "You consume the "@ + item + ". You feel sick..."@
    } else if extinguished {
        "You consume the "@ + item + ". The flames die down."@
    } else {
        "You consume the "@ + item + "."@
    }
}

/// The text of a thrown item.
pub open spec fn thrown_text(item: Seq<char>, hit: bool, hit_name: Option<Seq<char>>, damage: u32, died: bool) -> Seq<char> {
    let who = match hit_name { Some(n) => n, None => "something"@ };
    if hit {
        if died {
            "You hit "@ + who + " with the "@ + item + " for "@ + decimal(damage as nat) + " damage! It dies!"@
        } else {
            "You hit "@ + who + " with the "@ + item + " for "@ + decimal(damage as nat) + " damage!"@
        }
    } else {
        "You throw the "@ + item + ". It lands on the ground."@
    }
}

/// The message-log text of an event.
pub open spec fn event_text(e: GameEvent, reg: TagRegistry) -> Seq<char> {
    match e {
        GameEvent::Interaction { kind, source_tags, target_tags, result_tags, consumed_tags, .. } =>
            interaction_text(kind, tag_names(source_tags@, reg), tag_names(target_tags@, reg),
                tag_names(result_tags@, reg), tag_names(consumed_tags@, reg)),
        GameEvent::Combat { attacker_name, target_name, damage_dealt, target_hp_remaining, target_died, is_player_attacker, .. } =>
            combat_text(attacker_name@, target_name@, damage_dealt, target_hp_remaining, target_died, is_player_attacker),
        GameEvent::PlayerDied => "You have died!"@,
        GameEvent::ItemPickedUp { item_name } => "Picked up "@ + item_name@ + "."@,
        GameEvent::ItemConsumed { item_name, healed, poisoned, extinguished } =>
            consumed_text(item_name@, healed, poisoned, extinguished),
        GameEvent::ItemEquipped { item_name } => "You equip the "@ + item_name@ + "."@,
        GameEvent::ItemUnequipped { item_name } => "You unequip the "@ + item_name@ + "."@,
        GameEvent::ItemThrown { item_name, hit_entity, hit_name, damage, target_died } =>
            thrown_text(item_name@, hit_entity, match hit_name { Some(n) => Some(n@), None => None }, damage, target_died),
        GameEvent::ItemCrafted { item_name } => "You craft a "@ + item_name@ + "."@,
        GameEvent::QuestAccepted { name } => "Quest accepted: "@ + name@ + "!"@,
        GameEvent::QuestCompleted { name } => "Quest completed: "@ + name@ + "!"@,
        GameEvent::StatusApplied { tag_id, .. } => reg.defs@[tag_id as int].name@ + " status gained."@,
        GameEvent::StatusRemoved { tag_id, .. } => reg.defs@[tag_id as int].name@ + " status fades."@,
        GameEvent::Dialogue { speaker_name, .. } => speaker_name@ + " speaks."@,
        GameEvent::DungeonEntered { name } => "You descend into the "@ + name@ + "."@,
        GameEvent::DungeonDescended { depth } => "You descend to depth "@ + decimal(depth as nat) + "..."@,
        GameEvent::DungeonExited => "You ascend back to the surface."@,
        GameEvent::LootDropped { items } => "Dropped: "@ + join_seq(views(items@), ", "@) + "."@,
        GameEvent::Message(msg) => msg@,
    }
}

/// The names of the tags with the given ids.
fn names_of(ids: &Vec<TagId>, registry: &TagRegistry) -> (r: Vec<String>)
    requires
        forall|k: int| 0 <= k < ids@.len() ==> #[trigger] ids@[k] < registry.defs@.len(),
    ensures
        views(r@) == tag_names(ids@, *registry),
{
    let mut r: Vec<String> = Vec::new();
    let mut i: usize = 0;
    while i < ids.len()
        invariant
            i <= ids@.len(),
            forall|k: int| 0 <= k < ids@.len() ==> #[trigger] ids@[k] < registry.defs@.len(),
            views(r@) == tag_names(ids@.subrange(0, i as int), *registry),
        decreases ids.len() - i,
    {
        let ghost before = r@;
        let name = registry.defs[ids[i]].name.clone();
        r.push(name);
        assert(views(r@) =~= views(before).push(registry.defs@[ids@[i as int] as int].name@));
        assert(tag_names(ids@.subrange(0, i + 1), *registry)
            =~= tag_names(ids@.subrange(0, i as int), *registry).push(registry.defs@[ids@[i as int] as int].name@));
        i = i + 1;
    }
    assert(ids@.subrange(0, ids@.len() as int) =~= ids@);
    r
}

fn interaction_message(
    kind: InteractionKind,
    source_tags: &Vec<TagId>,
    target_tags: &Vec<TagId>,
    result_tags: &Vec<TagId>,
    consumed_tags: &Vec<TagId>,
    registry: &TagRegistry,
) -> (r: String)
    requires
        forall|k: int| 0 <= k < source_tags@.len() ==> #[trigger] source_tags@[k] < registry.defs@.len(),
        forall|k: int| 0 <= k < target_tags@.len() ==> #[trigger] target_tags@[k] < registry.defs@.len(),
        forall|k: int| 0 <= k < result_tags@.len() ==> #[trigger] result_tags@[k] < registry.defs@.len(),
        forall|k: int| 0 <= k < consumed_tags@.len() ==> #[trigger] consumed_tags@[k] < registry.defs@.len(),
    ensures
        r@ == interaction_text(kind, tag_names(source_tags@, *registry), tag_names(target_tags@, *registry),
            tag_names(result_tags@, *registry), tag_names(consumed_tags@, *registry)),
{
    let sources = names_of(source_tags, registry);
    let targets = names_of(target_tags, registry);
    let results = names_of(result_tags, registry);
    let consumed = names_of(consumed_tags, registry);
    let mut parts: Vec<String> = Vec::new();
    if consumed.len() > 0 {
        let mut p = join(&consumed, ", ");
        p.append(" fades");
        parts.push(p);
    }
    if results.len() > 0 {
        let mut p = match kind {
            InteractionKind::Self_ => String::from_str("A reaction creates"),
            InteractionKind::Cross => String::from_str("The interaction creates"),
        };
        p.append(" ");
        let joined = join(&results, ", ");
        p.append(joined.as_str());
        parts.push(p);
    }
    let ghost expect = interaction_parts(kind, views(results@), views(consumed@));
    assert(views(parts@) =~= expect);
    if parts.len() == 0 {
        let mut s = join(&sources, "+");
        match kind {
            InteractionKind::Self_ => s.append(" meets "),
            InteractionKind::Cross => s.append(" reacts with "),
        }
        let t = join(&targets, "+");
        s.append(t.as_str());
        s
    } else {
        join(&parts, ". ")
    }
}


/// "pre" + s + "post".
fn wrap(pre: &str, s: &str, post: &str) -> (r: String)
    ensures
        r@ == pre@ + s@ + post@,
{
    let mut r = String::from_str(pre);
    r.append(s);
    r.append(post);
    r
}

fn combat_message(attacker: &str, target: &str, damage: u32, hp: u32, died: bool, player_attacks: bool) -> (r: String)
    ensures
        r@ == combat_text(attacker@, target@, damage, hp, died, player_attacks),
{
    let d = u32_text(damage);
    if died {
        if player_attacks {
            let mut s = wrap("You hit ", target, " for ");
            s.append(d.as_str());
            s.append(" damage. It dies!");
            s
        } else {
            let mut s = wrap("", attacker, " kills ");
            s.append(target);
            s.append("!");
            proof { reveal_strlit(""); }
            assert(s@ == attacker@ + " kills "@ + target@ + "!"@);
            s
        }
    } else {
        let h = u32_text(hp);
        let mut s = if player_attacks {
            wrap("You hit ", target, " for ")
        } else {
            let mut s = wrap("", attacker, " hits ");
            s.append(target);
            s.append(" for ");
            proof { reveal_strlit(""); }
            assert(s@ == attacker@ + " hits "@ + target@ + " for "@);
            s
        };
        s.append(d.as_str());
        if player_attacks { s.append(" damage. ("); } else { s.append(" damage! ("); }
        s.append(h.as_str());
        s.append(" HP remaining)");
        s
    }
}

fn consumed_message(item: &str, healed: u32, poisoned: bool, extinguished: bool) -> (r: String)
    ensures
        r@ == consumed_text(item@, healed, poisoned, extinguished),
{
    if healed > 0 {
        let mut s = wrap("You consume the ", item, ". Healed ");
        let h = u32_text(healed);
        s.append(h.as_str());
        s.append(" HP.");
        s
    } else if poisoned {
        wrap("You consume the ", item, ". You feel sick...")
    } else if extinguished {
        wrap("You consume the ", item, ". The flames die down.")
    } else {
        wrap("You consume the ", item, ".")
    }
}

fn thrown_message(item: &str, hit: bool, hit_name: &Option<String>, damage: u32, died: bool) -> (r: String)
    ensures
        r@ == thrown_text(item@, hit, match hit_name { Some(n) => Some(n@), None => None }, damage, died),
{
    if hit {
        let who = match hit_name {
            Some(n) => n.as_str(),
            None => "something",
        };
        let mut s = wrap("You hit ", who, " with the ");
        s.append(item);
        s.append(" for ");
        let d = u32_text(damage);
        s.append(d.as_str());
        if died { s.append(" damage! It dies!"); } else { s.append(" damage!"); }
        s
    } else {
        wrap("You throw the ", item, ". It lands on the ground.")
    }
}

/// The message-log text of an event.
pub fn format_event(event: &GameEvent, registry: &TagRegistry) -> (r: String)
    requires
        event_tags_known(*event, *registry),
    ensures
        r@ == event_text(*event, *registry),
{
    match event {
        GameEvent::Interaction { kind, source_tags, target_tags, result_tags, consumed_tags, .. } =>
            interaction_message(*kind, source_tags, target_tags, result_tags, consumed_tags, registry),
        GameEvent::Combat { attacker_name, target_name, damage_dealt, target_hp_remaining, target_died, is_player_attacker, .. } =>
            combat_message(attacker_name.as_str(), target_name.as_str(), *damage_dealt, *target_hp_remaining,
                *target_died, *is_player_attacker),
        GameEvent::PlayerDied => String::from_str("You have died!"),
        GameEvent::ItemPickedUp { item_name } => wrap("Picked up ", item_name.as_str(), "."),
        GameEvent::ItemConsumed { item_name, healed, poisoned, extinguished } =>
            consumed_message(item_name.as_str(), *healed, *poisoned, *extinguished),
        GameEvent::ItemEquipped { item_name } => wrap("You equip the ", item_name.as_str(), "."),
        GameEvent::ItemUnequipped { item_name } => wrap("You unequip the ", item_name.as_str(), "."),
        GameEvent::ItemThrown { item_name, hit_entity, hit_name, damage, target_died } =>
            thrown_message(item_name.as_str(), *hit_entity, hit_name, *damage, *target_died),
        GameEvent::ItemCrafted { item_name } => wrap("You craft a ", item_name.as_str(), "."),
        GameEvent::QuestAccepted { name } => wrap("Quest accepted: ", name.as_str(), "!"),
        GameEvent::QuestCompleted { name } => wrap("Quest completed: ", name.as_str(), "!"),
        GameEvent::StatusApplied { tag_id, .. } => {
            let mut s = registry.defs[*tag_id].name.clone();
            s.append(" status gained.");
            s
        },
        GameEvent::StatusRemoved { tag_id, .. } => {
            let mut s = registry.defs[*tag_id].name.clone();
            s.append(" status fades.");
            s
        },
        GameEvent::Dialogue { speaker_name, .. } => {
            let mut s = speaker_name.clone();
            s.append(" speaks.");
            s
        },
        GameEvent::DungeonEntered { name } => wrap("You descend into the ", name.as_str(), "."),
        GameEvent::DungeonDescended { depth } => {
            let d = u32_text(*depth);
            wrap("You descend to depth ", d.as_str(), "...")
        },
        GameEvent::DungeonExited => String::from_str("You ascend back to the surface."),
        GameEvent::LootDropped { items } => {
            let j = join(items, ", ");
            wrap("Dropped: ", j.as_str(), ".")
        },
        GameEvent::Message(msg) => msg.clone(),
    }
}

/// The most recent `max` events, oldest first.
#[derive(Debug)]
pub struct GameEventLog {
    pub events: Vec<GameEvent>,
    pub max: usize,
}

impl GameEventLog {
    /// An empty history keeping at most `max` events.
    pub fn new(max: usize) -> (r: Self)
        ensures
            r.events@.len() == 0,
            r.max == max,
    {
        GameEventLog { events: Vec::new(), max }
    }

    /// Appends an event, dropping the oldest one when the history is full.
    pub fn push(&mut self, event: GameEvent)
        requires
            old(self).max > 0 || old(self).events@.len() > 0,
        ensures
            final(self).max == old(self).max,
            final(self).events@ == if old(self).events@.len() >= old(self).max {
                old(self).events@.drop_first().push(event)
            } else {
                old(self).events@.push(event)
            },
    {
        if self.events.len() >= self.max {
            self.events.remove(0);
        }
        self.events.push(event);
    }
}

/// Events raised during a turn, waiting to be handled.
#[derive(Debug)]
pub struct EventBus {
    pub events: Vec<GameEvent>,
}

impl EventBus {
    /// An empty bus.
    pub fn new() -> (r: Self)
        ensures
            r.events@.len() == 0,
    {
        EventBus { events: Vec::new() }
    }

    /// Raises an event.
    pub fn push(&mut self, event: GameEvent)
        ensures
            final(self).events@ == old(self).events@.push(event),
    {
        self.events.push(event);
    }

    /// Takes every waiting event, in the order raised, leaving the bus empty.
    pub fn drain(&mut self) -> (r: Vec<GameEvent>)
        ensures
            r@ == old(self).events@,
            final(self).events@.len() == 0,
    {
        let mut taken: Vec<GameEvent> = Vec::new();
        std::mem::swap(&mut taken, &mut self.events);
        taken
    }
}

impl Default for EventBus {
    /// An empty bus.
    fn default() -> (r: Self)
        ensures
            r.events@.len() == 0,
    {
        EventBus { events: Vec::new() }
    }
}

/// Trusted: the derived `Debug` text of an event (`format!("{:?}", ..)`); nothing is claimed of it.
#[verifier::external_body]
fn debug_text(event: &GameEvent) -> String {
    format!("{:?}", event)
}

/// Records an event: its text goes to the message log (the formatted text when there is a tag
/// registry, else its debug text) and the event to the history, each when present.
pub fn push_event(event: GameEvent, registry: &Option<TagRegistry>, log: &mut Option<MessageLog>, history: &mut Option<GameEventLog>)
    requires
        registry matches Some(reg) ==> event_tags_known(event, *reg),
        old(log).is_some() ==> old(log).unwrap().max > 0 || old(log).unwrap().messages@.len() > 0,
        old(history).is_some() ==> old(history).unwrap().max > 0 || old(history).unwrap().events@.len() > 0,
    ensures
        final(log).is_some() == old(log).is_some(),
        final(history).is_some() == old(history).is_some(),
        old(log).is_some() ==> final(log).unwrap().max == old(log).unwrap().max
            && final(log).unwrap().lines().len() == log_after_push(old(log).unwrap().lines(), old(log).unwrap().max as int, seq![]).len()
            && (registry matches Some(reg) ==> final(log).unwrap().lines()
                == log_after_push(old(log).unwrap().lines(), old(log).unwrap().max as int, event_text(event, *reg))),
        old(history).is_some() ==> final(history).unwrap().max == old(history).unwrap().max
            && final(history).unwrap().events@ == if old(history).unwrap().events@.len() >= old(history).unwrap().max {
                old(history).unwrap().events@.drop_first().push(event)
            } else {
                old(history).unwrap().events@.push(event)
            },
{
    let message = match registry {
        Some(reg) => format_event(&event, reg),
        None => debug_text(&event),
    };
    match log {
        Some(l) => l.push(message),
        None => {},
    }
    match history {
        Some(h) => h.push(event),
        None => {},
    }
}

} // verus!
