//! Entity components as plain values. Entities are referred to by numeric ids.
use vstd::prelude::*;

verus! {

/// An entity's id.
pub type EntityId = u64;

/// The player marker.
pub struct Player;

/// A map position.
#[derive(Debug, Clone, Copy, PartialEq, Eq, Structural)]
pub struct Position {
    pub x: u32,
    pub y: u32,
    pub z: u32,
}

/// Current and maximum hit points.
#[derive(Debug, Clone, Copy, PartialEq, Eq, Structural)]
pub struct Health {
    pub current: u32,
    pub max: u32,
}

/// How an entity is drawn.
#[derive(Debug, Clone, Copy, PartialEq, Eq)]
pub struct Glyph {
    pub char: char,
    pub color: (u8, u8, u8),
}

/// The item marker.
pub struct Item;

/// The creature marker.
pub struct Creature;

/// An entity's display name.
#[derive(Debug)]
pub struct Name(pub String);

/// Items carried, by id, and how many fit.
#[derive(Debug)]
pub struct Inventory {
    pub items: Vec<EntityId>,
    pub capacity: usize,
}

/// Equipped items, by id.
#[derive(Debug, Clone, Copy, Default, PartialEq, Eq, Structural)]
pub struct Equipment {
    pub weapon: Option<EntityId>,
    pub armor: Option<EntityId>,
    pub accessory: Option<EntityId>,
}

/// Base damage of a weapon.
#[derive(Debug, Clone, Copy)]
pub struct WeaponDamage(pub u32);

/// Protection of an armor piece.
#[derive(Debug, Clone, Copy)]
pub struct ArmorProtection(pub u32);

/// Effect names of an item.
#[derive(Debug)]
pub struct ItemEffects(pub Vec<String>);

/// Equipment slots.
#[derive(Debug, Clone, Copy, PartialEq, Eq, Structural)]
pub enum EquipmentSlot {
    Weapon,
    Armor,
    Accessory,
}

/// Kinds of log messages.
#[derive(Debug, Clone, Copy, PartialEq, Eq, Structural)]
pub enum MessageCategory {
    Combat,
    System,
    Item,
    Quest,
    Narrative,
}

/// The message log: the most recent `max` messages, oldest first.
#[derive(Debug)]
pub struct MessageLog {
    pub messages: Vec<String>,
    pub max: usize,
}

/// The messages kept after appending one to a log of capacity `max`.
pub open spec fn log_after_push(messages: Seq<Seq<char>>, max: int, m: Seq<char>) -> Seq<Seq<char>> {
    if messages.len() >= max { messages.drop_first().push(m) } else { messages.push(m) }
}

impl MessageLog {
    pub open spec fn lines(&self) -> Seq<Seq<char>> {
        self.messages@.map_values(|s: String| s@)
    }

    /// An empty log keeping at most `max` messages.
    pub fn new(max: usize) -> (r: Self)
        ensures
            r.messages@.len() == 0,
            r.max == max,
    {
        MessageLog { messages: Vec::new(), max }
    }

    /// Appends a message, dropping the oldest one when the log is full.
    pub fn push(&mut self, message: String)
        requires
            old(self).max > 0 || old(self).messages@.len() > 0,
        ensures
            final(self).max == old(self).max,
            final(self).lines() == log_after_push(old(self).lines(), old(self).max as int, message@),
    {
        let ghost m = message@;
        if self.messages.len() >= self.max {
            self.messages.remove(0);
        }
        self.messages.push(message);
        assert(self.lines() =~= log_after_push(old(self).lines(), old(self).max as int, m));
    }

    /// The last `count` messages (all of them when there are fewer).
    pub fn recent(&self, count: usize) -> (r: Vec<String>)
        ensures
            r@.map_values(|s: String| s@) == self.lines().subrange(
                if self.messages@.len() >= count { self.messages@.len() - count } else { 0 },
                self.messages@.len() as int,
            ),
    {
        let len = self.messages.len();
        let start = if len >= count { len - count } else { 0 };
        let mut r: Vec<String> = Vec::new();
        let mut i = start;
        while i < len
            invariant
                start <= i <= len,
                len == self.messages@.len(),
                r@.len() == i - start,
                forall|j: int| 0 <= j < r@.len() ==> #[trigger] r@[j]@ == self.messages@[start + j]@,
            decreases len - i,
        {
            r.push(self.messages[i].clone());
            i = i + 1;
        }
        assert(r@.map_values(|s: String| s@) =~= self.lines().subrange(start as int, len as int));
        r
    }
}

/// A full log stays full: pushing never grows it beyond its capacity.
pub proof fn law_log_bounded(messages: Seq<Seq<char>>, max: int, m: Seq<char>)
    requires
        max > 0,
        messages.len() <= max,
    ensures
        log_after_push(messages, max, m).len() <= max,
        log_after_push(messages, max, m).last() == m,
{
}

/// Marker for entities affected by weather.
#[derive(Debug, Clone, Copy, Default)]
pub struct WeatherSensitive;

/// Marker for entities that belong to the overworld.
#[derive(Debug, Clone, Copy, Default)]
pub struct OverworldEntity;

} // verus!
