//! Faction standings and the reputation ranks derived from them.
use vstd::prelude::*;
use crate::tags::{first_index, lemma_first_index};
use crate::text::{chars_of, owned, same_chars};

verus! {

/// Reputation ranks, from worst to best.
#[derive(Debug, Clone, Copy, PartialEq, Eq, PartialOrd, Ord, Structural)]
pub enum ReputationRank {
    Hostile,
    Unfriendly,
    Neutral,
    Friendly,
    Honored,
    Exalted,
}

/// Per-faction standing values; a faction never recorded stands at 0, and no faction is
/// recorded twice.
pub struct FactionReputation {
    standings: Vec<(String, i32)>,
}

/// The faction names of recorded standings, in order.
pub open spec fn standing_names(s: Seq<(String, i32)>) -> Seq<Seq<char>> {
    s.map_values(|e: (String, i32)| e.0@)
}

/// The rank a standing value falls in.
pub open spec fn rank_of(v: int) -> ReputationRank {
    if v <= -1500 {
        ReputationRank::Hostile
    } else if v <= -500 {
        ReputationRank::Unfriendly
    } else if v < 500 {
        ReputationRank::Neutral
    } else if v < 1500 {
        ReputationRank::Friendly
    } else if v < 3000 {
        ReputationRank::Honored
    } else {
        ReputationRank::Exalted
    }
}

/// Position of a rank in the order Hostile < ... < Exalted.
pub open spec fn rank_level(r: ReputationRank) -> int {
    match r {
        ReputationRank::Hostile => 0,
        ReputationRank::Unfriendly => 1,
        ReputationRank::Neutral => 2,
        ReputationRank::Friendly => 3,
        ReputationRank::Honored => 4,
        ReputationRank::Exalted => 5,
    }
}

/// The display name of a rank.
pub open spec fn rank_label(r: ReputationRank) -> Seq<char> {
    match r {
        ReputationRank::Hostile => "Hostile"@,
        ReputationRank::Unfriendly => "Unfriendly"@,
        ReputationRank::Neutral => "Neutral"@,
        ReputationRank::Friendly => "Friendly"@,
        ReputationRank::Honored => "Honored"@,
        ReputationRank::Exalted => "Exalted"@,
    }
}

/// How an NPC of a faction at this rank addresses the player.
pub open spec fn dialogue_label(r: ReputationRank) -> Seq<char> {
    match r {
        ReputationRank::Hostile => "hostile"@,
        ReputationRank::Unfriendly => "unfriendly"@,
        ReputationRank::Neutral => "neutral"@,
        ReputationRank::Friendly => "friendly"@,
        ReputationRank::Honored => "ally"@,
        ReputationRank::Exalted => "ally"@,
    }
}

/// `v` clamped into `[lo, hi]`.
pub open spec fn clamp_int(v: int, lo: int, hi: int) -> int {
    if v < lo { lo } else if v > hi { hi } else { v }
}

impl FactionReputation {
    /// No faction is recorded twice.
    #[verifier::type_invariant]
    spec fn factions_distinct(self) -> bool {
        standing_names(self.standings@).no_duplicates()
    }

    /// The recorded faction names, in order.
    pub closed spec fn names(&self) -> Seq<Seq<char>> {
        standing_names(self.standings@)
    }

    /// The standing of a faction (0 when never recorded).
    pub closed spec fn standing(&self, faction: Seq<char>) -> int {
        match first_index(self.names(), faction) {
            Some(i) => self.standings@[i].1 as int,
            None => 0,
        }
    }

    /// No standings recorded.
    pub fn new() -> (r: Self)
        ensures
            r.names().len() == 0,
            r.names().no_duplicates(),
            forall|f: Seq<char>| r.standing(f) == 0,
    {
        FactionReputation { standings: Vec::new() }
    }

    fn find(&self, faction: &str) -> (r: Option<usize>)
        ensures
            r matches Some(i) ==> first_index(self.names(), faction@) == Some(i as int),
            r is None ==> first_index(self.names(), faction@) is None,
            r matches Some(i) ==> i < self.standings@.len() && self.standings@[i as int].0@ == faction@,
    {
        let key = chars_of(faction);
        let mut i: usize = 0;
        while i < self.standings.len()
            invariant
                i <= self.standings@.len(),
                key@ == faction@,
                forall|j: int| 0 <= j < i ==> self.names()[j] != faction@,
            decreases self.standings.len() - i,
        {
            let n = chars_of(self.standings[i].0.as_str());
            assert(self.names()[i as int] == self.standings@[i as int].0@);
            if same_chars(&n, &key) {
                proof {
                    lemma_first_index(self.names(), faction@);
                }
                return Some(i);
            }
            i = i + 1;
        }
        proof {
            lemma_first_index(self.names(), faction@);
        }
        None
    }

    /// The standing with a faction, 0 when none is recorded.
    pub fn get(&self, faction: &str) -> (v: i32)
        ensures
            v == self.standing(faction@),
    {
        proof {
            lemma_first_index(self.names(), faction@);
        }
        let n = self.standings.len();
        assert(n == self.standings@.len());
        let r = self.find(faction);
        match r {
            Some(i) => {
                assert(self.names().len() == self.standings@.len());
                assert(first_index(self.names(), faction@) == Some(i as int));
                self.standings[i].1
            },
            None => 0,
        }
    }

    /// Records a standing for a faction.
    pub fn set(&mut self, faction: &str, value: i32)
        ensures
            final(self).standing(faction@) == value,
            forall|f: Seq<char>| f != faction@ ==> final(self).standing(f) == old(self).standing(f),
            final(self).names().to_set() == old(self).names().to_set().insert(faction@),
            final(self).names().no_duplicates(),
    {
        let ghost old_names = self.names();
        proof {
            use_type_invariant(&*self);
            lemma_first_index(old_names, faction@);
        }
        let found = self.find(faction);
        let mut v: Vec<(String, i32)> = Vec::new();
        std::mem::swap(&mut v, &mut self.standings);
        assert(standing_names(v@) == old_names);
        let ghost old_v = v@;
        match found {
            Some(i) => {
                v.set(i, (owned(faction), value));
                assert(standing_names(v@) =~= old_names);
                assert(old_names[i as int] == faction@);
                assert(old_names.to_set().insert(faction@) =~= old_names.to_set());
            },
            None => {
                v.push((owned(faction), value));
                assert(standing_names(v@) =~= old_names.push(faction@));
                assert(standing_names(v@).no_duplicates()) by {
                    assert forall|a: int, b: int| 0 <= a < b < standing_names(v@).len()
                        implies standing_names(v@)[a] != standing_names(v@)[b] by {
                        if b == old_names.len() {
                            assert(old_names[a] != faction@);
                        } else {
                            assert(old_names[a] != old_names[b]);
                        }
                    }
                }
                let ghost nn = standing_names(v@);
                assert(nn.to_set() =~= old_names.to_set().insert(faction@)) by {
                    assert forall|f: Seq<char>| #[trigger] nn.to_set().contains(f) == old_names.to_set().insert(faction@).contains(f) by {
                        if old_names.contains(f) {
                            let k = choose|k: int| 0 <= k < old_names.len() && old_names[k] == f;
                            assert(nn[k] == f);
                        }
                        if f == faction@ {
                            assert(nn[old_names.len() as int] == f);
                        }
                        if nn.contains(f) {
                            let k = choose|k: int| 0 <= k < nn.len() && nn[k] == f;
                            if k < old_names.len() {
                                assert(old_names[k] == f);
                            }
                        }
                    }
                }
            },
        }
        self.standings = v;
        proof {
            match found {
                Some(i) => {
                    assert forall|f: Seq<char>| f != faction@ implies self.standing(f) == old(self).standing(f) by {
                        lemma_first_index(old_names, f);
                    }
                },
                None => {
                    lemma_first_index_push(old_names, faction@, faction@);
                    assert forall|f: Seq<char>| f != faction@ implies self.standing(f) == old(self).standing(f) by {
                        lemma_first_index_push(old_names, faction@, f);
                        lemma_first_index(old_names, f);
                    }
                },
            }
        }
    }

    /// Adds `delta` to a faction's standing, clamped to [-10000, 10000]; returns the new standing.
    pub fn modify(&mut self, faction: &str, delta: i32) -> (new: i32)
        requires
            i32::MIN <= old(self).standing(faction@) + delta <= i32::MAX,
        ensures
            new == clamp_int(old(self).standing(faction@) + delta, -10000, 10000),
            final(self).standing(faction@) == new,
            forall|f: Seq<char>| f != faction@ ==> final(self).standing(f) == old(self).standing(f),
    {
        let current = self.get(faction);
        let sum = current + delta;
        let new = if sum < -10000 { -10000 } else if sum > 10000 { 10000 } else { sum };
        self.set(faction, new);
        new
    }

    /// The rank of a faction's standing.
    pub fn rank(&self, faction: &str) -> (r: ReputationRank)
        ensures
            r == rank_of(self.standing(faction@)),
    {
        let v = self.get(faction);
        if v <= -1500 {
            ReputationRank::Hostile
        } else if v <= -500 {
            ReputationRank::Unfriendly
        } else if v < 500 {
            ReputationRank::Neutral
        } else if v < 1500 {
            ReputationRank::Friendly
        } else if v < 3000 {
            ReputationRank::Honored
        } else {
            ReputationRank::Exalted
        }
    }

    /// The display name of a rank.
    pub fn rank_name(rank: ReputationRank) -> (r: &'static str)
        ensures
            r@ == rank_label(rank),
    {
        match rank {
            ReputationRank::Hostile => "Hostile",
            ReputationRank::Unfriendly => "Unfriendly",
            ReputationRank::Neutral => "Neutral",
            ReputationRank::Friendly => "Friendly",
            ReputationRank::Honored => "Honored",
            ReputationRank::Exalted => "Exalted",
        }
    }

    /// The word a faction's NPCs use for the player's standing.
    pub fn standing_for_dialogue(&self, faction: &str) -> (r: String)
        ensures
            r@ == dialogue_label(rank_of(self.standing(faction@))),
    {
        let s = match self.rank(faction) {
            ReputationRank::Hostile => "hostile",
            ReputationRank::Unfriendly => "unfriendly",
            ReputationRank::Neutral => "neutral",
            ReputationRank::Friendly => "friendly",
            ReputationRank::Honored => "ally",
            ReputationRank::Exalted => "ally",
        };
        owned(s)
    }

    /// Whether the faction is hostile.
    pub fn is_hostile(&self, faction: &str) -> (r: bool)
        ensures
            r == (rank_of(self.standing(faction@)) == ReputationRank::Hostile),
    {
        match self.rank(faction) {
            ReputationRank::Hostile => true,
            _ => false,
        }
    }

    /// The recorded faction names, in the order they were first recorded.
    pub fn faction_names(&self) -> (r: Vec<String>)
        ensures
            r@.len() == self.names().len(),
            forall|i: int| 0 <= i < r@.len() ==> #[trigger] r@[i]@ == self.names()[i],
            self.names().no_duplicates(),
    {
        proof {
            use_type_invariant(self);
        }
        let mut r: Vec<String> = Vec::new();
        let mut i: usize = 0;
        while i < self.standings.len()
            invariant
                i <= self.standings@.len(),
                r@.len() == i,
                forall|j: int| 0 <= j < i ==> #[trigger] r@[j]@ == self.standings@[j].0@,
            decreases self.standings.len() - i,
        {
            r.push(self.standings[i].0.clone());
            i = i + 1;
        }
        r
    }

    /// Records a standing given on the -100..100 scale, scaled by 100 and clamped to [-10000, 10000].
    pub fn sync_from_tracker(&mut self, faction_name: &str, tracker_value: i32)
        ensures
            final(self).standing(faction_name@) == clamp_int(tracker_value * 100, -10000, 10000),
            forall|f: Seq<char>| f != faction_name@ ==> final(self).standing(f) == old(self).standing(f),
    {
        let scaled: i64 = tracker_value as i64 * 100;
        let clamped: i64 = if scaled < -10000 { -10000 } else if scaled > 10000 { 10000 } else { scaled };
        self.set(faction_name, clamped as i32);
    }
}

/// Looking a name up after appending one more name.
pub proof fn lemma_first_index_push(names: Seq<Seq<char>>, x: Seq<char>, y: Seq<char>)
    ensures
        first_index(names.push(x), y) == (match first_index(names, y) {
            Some(i) => Some(i),
            None => if x == y { Some(names.len() as int) } else { None },
        }),
{
    assert(names.push(x).drop_last() =~= names);
}

/// Ranks never decrease as the standing grows.
pub proof fn law_rank_monotone(a: int, b: int)
    requires
        a <= b,
    ensures
        rank_level(rank_of(a)) <= rank_level(rank_of(b)),
{
}


/// The rank bands of a standing: at most -1500 hostile, up to -500 unfriendly, below 500
/// neutral, below 1500 friendly, below 3000 honored, and exalted from 3000 on.
pub proof fn law_rank_bands(v: int)
    ensures
        (rank_of(v) == ReputationRank::Hostile) <==> v <= -1500,
        (rank_of(v) == ReputationRank::Unfriendly) <==> -1500 < v <= -500,
        (rank_of(v) == ReputationRank::Neutral) <==> -500 < v < 500,
        (rank_of(v) == ReputationRank::Friendly) <==> 500 <= v < 1500,
        (rank_of(v) == ReputationRank::Honored) <==> 1500 <= v < 3000,
        (rank_of(v) == ReputationRank::Exalted) <==> 3000 <= v,
{
}

} // verus!
