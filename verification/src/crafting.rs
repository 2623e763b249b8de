//! Crafting: which recipes the player can make from what they carry and what stands
//! around them, and making one (consuming inputs, producing outputs).
use vstd::prelude::*;
use crate::components::{EntityId, Glyph, Inventory, Position};
use crate::tags::{TagId, TagRegistry, Tags, known_ids, known_tag_ids, presence_of, tags_from_names};
use crate::text::views;

verus! {

/// An item a recipe produces.
#[derive(Debug)]
pub struct RecipeOutput {
    pub tags: Vec<String>,
    pub name: String,
    pub glyph: char,
    pub color: [u8; 3],
}

/// A recipe output as plain values.
pub struct OutputView {
    pub tags: Seq<Seq<char>>,
    pub name: Seq<char>,
    pub glyph: char,
    pub color: [u8; 3],
}

impl View for RecipeOutput {
    type V = OutputView;

    open spec fn view(&self) -> OutputView {
        OutputView { tags: views(self.tags@), name: self.name@, glyph: self.glyph, color: self.color }
    }
}

impl Clone for RecipeOutput {
    fn clone(&self) -> (r: Self)
        ensures
            r@ == self@,
            r.tags@ == self.tags@,
    {
        let tags = self.tags.clone();
        assert(tags@ =~= self.tags@);
        RecipeOutput { tags, name: self.name.clone(), glyph: self.glyph, color: self.color }
    }
}

/// A crafting recipe: input tags (one item per listed tag, a tag listed twice needs two),
/// tags that must stand next to the player, and the outputs.
#[derive(Debug)]
pub struct CraftingRecipe {
    pub name: String,
    pub inputs: Vec<String>,
    pub requires_env: Vec<String>,
    pub outputs: Vec<RecipeOutput>,
}

/// A recipe as plain values.
pub struct RecipeView {
    pub name: Seq<char>,
    pub inputs: Seq<Seq<char>>,
    pub requires_env: Seq<Seq<char>>,
    pub outputs: Seq<OutputView>,
}

impl View for CraftingRecipe {
    type V = RecipeView;

    open spec fn view(&self) -> RecipeView {
        RecipeView {
            name: self.name@,
            inputs: views(self.inputs@),
            requires_env: views(self.requires_env@),
            outputs: self.outputs@.map_values(|o: RecipeOutput| o@),
        }
    }
}

impl Clone for CraftingRecipe {
    fn clone(&self) -> (r: Self)
        ensures
            r@ == self@,
    {
        let inputs = self.inputs.clone();
        let requires_env = self.requires_env.clone();
        let outputs = self.outputs.clone();
        assert(inputs@ =~= self.inputs@);
        assert(requires_env@ =~= self.requires_env@);
        assert(outputs@.map_values(|o: RecipeOutput| o@) =~= self.outputs@.map_values(|o: RecipeOutput| o@)) by {
            assert forall|i: int| 0 <= i < outputs@.len() implies outputs@[i]@ == self.outputs@[i]@ by {
                assert(cloned::<RecipeOutput>(self.outputs@[i], outputs@[i]));
            }
        }
        CraftingRecipe { name: self.name.clone(), inputs, requires_env, outputs }
    }
}

/// Whether a recipe can be made now, and what is missing.
#[derive(Debug)]
pub struct RecipeAvailability {
    pub recipe: CraftingRecipe,
    pub available: bool,
    /// One tag name per missing input item.
    pub missing_inputs: Vec<String>,
    pub env_met: bool,
}

/// How often `t` occurs in a list of ids.
pub open spec fn occurrences(ids: Seq<TagId>, t: int) -> nat
    decreases ids.len(),
{
    if ids.len() == 0 {
        0
    } else {
        occurrences(ids.drop_last(), t) + if ids.last() == t { 1nat } else { 0nat }
    }
}

/// How many of the tag sets carry `t`.
pub open spec fn holders(sets: Seq<Tags>, t: int) -> nat
    decreases sets.len(),
{
    if sets.len() == 0 {
        0
    } else {
        holders(sets.drop_last(), t) + if sets.last().contains(t) { 1nat } else { 0nat }
    }
}

/// The ids of a list, each once, in order of first appearance.
pub open spec fn firsts(ids: Seq<TagId>) -> Seq<TagId>
    decreases ids.len(),
{
    if ids.len() == 0 {
        seq![]
    } else {
        let prev = firsts(ids.drop_last());
        if prev.contains(ids.last()) { prev } else { prev.push(ids.last()) }
    }
}

/// The missing input names: for each needed tag, in order of first appearance, its name once
/// per item short.
pub open spec fn missing_names(fs: Seq<TagId>, needed: Seq<TagId>, carried: Seq<Tags>, reg: TagRegistry) -> Seq<Seq<char>>
    decreases fs.len(),
{
    if fs.len() == 0 {
        seq![]
    } else {
        let prev = missing_names(fs.drop_last(), needed, carried, reg);
        let t = fs.last();
        let need = occurrences(needed, t as int);
        let have = holders(carried, t as int);
        if have < need {
            prev + Seq::new((need - have) as nat, |i: int| reg.defs@[t as int].name@)
        } else {
            prev
        }
    }
}

/// The eight neighbouring offsets, row by row.
pub open spec fn offset(k: int) -> (i32, i32) {
    if k == 0 { (-1i32, -1i32) } else if k == 1 { (-1i32, 0i32) } else if k == 2 { (-1i32, 1i32) }
    else if k == 3 { (0i32, -1i32) } else if k == 4 { (0i32, 1i32) } else if k == 5 { (1i32, -1i32) }
    else if k == 6 { (1i32, 0i32) } else { (1i32, 1i32) }
}

/// The `k`-th neighbouring tile of a position (coordinates taken as `i32` and back).
pub open spec fn neighbour(p: (u32, u32), k: int) -> (u32, u32) {
    ((((p.0 as i32) + offset(k).0) as i32) as u32, (((p.1 as i32) + offset(k).1) as i32) as u32)
}

/// How many of the entities stand at `(x, y)` and carry `t`.
pub open spec fn count_at(ents: Seq<(Position, Tags)>, x: u32, y: u32, t: int) -> nat
    decreases ents.len(),
{
    if ents.len() == 0 {
        0
    } else {
        count_at(ents.drop_last(), x, y, t)
            + if ents.last().0.x == x && ents.last().0.y == y && ents.last().1.contains(t) { 1nat } else { 0nat }
    }
}

/// How often `t` is carried by entities on the first `k` neighbouring tiles.
pub open spec fn adjacent_count(ents: Seq<(Position, Tags)>, p: (u32, u32), t: int, k: int) -> nat
    decreases k,
{
    if k <= 0 {
        0
    } else {
        adjacent_count(ents, p, t, k - 1) + count_at(ents, neighbour(p, k - 1).0, neighbour(p, k - 1).1, t)
    }
}

proof fn lemma_count_at_bound(ents: Seq<(Position, Tags)>, x: u32, y: u32, t: int)
    ensures
        count_at(ents, x, y, t) <= ents.len(),
    decreases ents.len(),
{
    if ents.len() > 0 {
        lemma_count_at_bound(ents.drop_last(), x, y, t);
    }
}

proof fn lemma_adjacent_bound(ents: Seq<(Position, Tags)>, p: (u32, u32), t: int, k: int)
    requires
        0 <= k,
    ensures
        adjacent_count(ents, p, t, k) <= k * ents.len(),
    decreases k,
{
    if k > 0 {
        lemma_adjacent_bound(ents, p, t, k - 1);
        lemma_count_at_bound(ents, neighbour(p, k - 1).0, neighbour(p, k - 1).1, t);
        assert((k - 1) * ents.len() + ents.len() == k * ents.len()) by (nonlinear_arith);
    }
}

/// Whether the player's position keeps the neighbour arithmetic within `i32`.
pub open spec fn position_in_range(p: (u32, u32)) -> bool {
    (p.0 as i32) > i32::MIN && (p.0 as i32) < i32::MAX && (p.1 as i32) > i32::MIN && (p.1 as i32) < i32::MAX
}

fn offset_at(k: usize) -> (r: (i32, i32))
    ensures
        r == offset(k as int),
{
    if k == 0 { (-1, -1) } else if k == 1 { (-1, 0) } else if k == 2 { (-1, 1) }
    else if k == 3 { (0, -1) } else if k == 4 { (0, 1) } else if k == 5 { (1, -1) }
    else if k == 6 { (1, 0) } else { (1, 1) }
}

/// Counts, for each tag id below `tag_count`, how often it is carried by entities on the
/// eight tiles around the player.
pub fn collect_adjacent_tags(nearby: &Vec<(Position, Tags)>, player_pos: (u32, u32), tag_count: usize) -> (r: Vec<usize>)
    requires
        position_in_range(player_pos),
        nearby@.len() <= usize::MAX / 8,
    ensures
        r@.len() == tag_count,
        forall|t: int| 0 <= t < tag_count ==> #[trigger] r@[t] == adjacent_count(nearby@, player_pos, t, 8),
{
    let mut counts: Vec<usize> = Vec::new();
    let mut t: usize = 0;
    while t < tag_count
        invariant
            t <= tag_count,
            counts@.len() == t,
            forall|j: int| 0 <= j < t ==> #[trigger] counts@[j] == 0,
        decreases tag_count - t,
    {
        counts.push(0);
        t = t + 1;
    }
    let mut k: usize = 0;
    while k < 8
        invariant
            k <= 8,
            position_in_range(player_pos),
            nearby@.len() <= usize::MAX / 8,
            counts@.len() == tag_count,
            forall|j: int| 0 <= j < tag_count ==> #[trigger] counts@[j] == adjacent_count(nearby@, player_pos, j, k as int),
        decreases 8 - k,
    {
        let (dx, dy) = offset_at(k);
        let nx = ((player_pos.0 as i32) + dx) as u32;
        let ny = ((player_pos.1 as i32) + dy) as u32;
        assert((nx, ny) == neighbour(player_pos, k as int));
        let mut i: usize = 0;
        while i < nearby.len()
            invariant
                k < 8,
                i <= nearby@.len(),
                nearby@.len() <= usize::MAX / 8,
                (nx, ny) == neighbour(player_pos, k as int),
                counts@.len() == tag_count,
                forall|j: int| 0 <= j < tag_count ==> #[trigger] counts@[j]
                    == adjacent_count(nearby@, player_pos, j, k as int) + count_at(nearby@.subrange(0, i as int), nx, ny, j),
            decreases nearby.len() - i,
        {
            let ghost pre = nearby@.subrange(0, i as int);
            assert(nearby@.subrange(0, i + 1).drop_last() =~= pre);
            let here = nearby[i].0.x == nx && nearby[i].0.y == ny;
            let mut j: usize = 0;
            while j < tag_count
                invariant
                    k < 8,
                    i < nearby@.len(),
                    j <= tag_count,
                    nearby@.len() <= usize::MAX / 8,
                    pre == nearby@.subrange(0, i as int),
                    here == (nearby@[i as int].0.x == nx && nearby@[i as int].0.y == ny),
                    counts@.len() == tag_count,
                    forall|jj: int| 0 <= jj < j ==> #[trigger] counts@[jj]
                        == adjacent_count(nearby@, player_pos, jj, k as int) + count_at(nearby@.subrange(0, i + 1), nx, ny, jj),
                    forall|jj: int| j <= jj < tag_count ==> #[trigger] counts@[jj]
                        == adjacent_count(nearby@, player_pos, jj, k as int) + count_at(pre, nx, ny, jj),
                decreases tag_count - j,
            {
                assert(nearby@.subrange(0, i + 1).drop_last() =~= pre);
                assert(nearby@.subrange(0, i + 1).last() == nearby@[i as int]);
                if here && nearby[i].1.has(j) {
                    proof {
                        lemma_adjacent_bound(nearby@, player_pos, j as int, k as int);
                        lemma_count_at_bound(pre, nx, ny, j as int);
                        assert(k * nearby@.len() <= 7 * nearby@.len()) by (nonlinear_arith)
                            requires k <= 7;
                    }
                    counts.set(j, counts[j] + 1);
                }
                j = j + 1;
            }
            i = i + 1;
        }
        assert(nearby@.subrange(0, nearby@.len() as int) =~= nearby@);
        k = k + 1;
    }
    counts
}


/// Whether the carried items cover every needed tag.
pub open spec fn inputs_met(needed: Seq<TagId>, carried: Seq<Tags>) -> bool {
    forall|k: int| 0 <= k < firsts(needed).len() ==>
        holders(carried, #[trigger] firsts(needed)[k] as int) >= occurrences(needed, firsts(needed)[k] as int)
}

/// Whether the surroundings hold what the recipe asks for: nothing is asked, or every asked
/// tag is registered and carried by something on a neighbouring tile.
pub open spec fn env_satisfied(env: Seq<Seq<char>>, nearby: Seq<(Position, Tags)>, p: (u32, u32), reg: TagRegistry) -> bool {
    env.len() == 0 || forall|k: int| 0 <= k < env.len() ==>
        (#[trigger] reg.id_of(env[k]) matches Some(id) && adjacent_count(nearby, p, id as int, 8) > 0)
}

/// The ids each once are exactly the ids of the list.
pub proof fn lemma_firsts_contains(ids: Seq<TagId>)
    ensures
        forall|x: TagId| #[trigger] firsts(ids).contains(x) == ids.contains(x),
    decreases ids.len(),
{
    if ids.len() > 0 {
        let d = ids.drop_last();
        lemma_firsts_contains(d);
        let prev = firsts(d);
        assert forall|x: TagId| #[trigger] firsts(ids).contains(x) == ids.contains(x) by {
            if ids.contains(x) {
                let k = choose|k: int| 0 <= k < ids.len() && ids[k] == x;
                if k < d.len() {
                    assert(d[k] == x);
                    assert(prev.contains(x));
                    if !prev.contains(ids.last()) {
                        let j = choose|j: int| 0 <= j < prev.len() && prev[j] == x;
                        assert(firsts(ids)[j] == x);
                    }
                } else {
                    if !prev.contains(ids.last()) {
                        assert(firsts(ids)[prev.len() as int] == x);
                    }
                }
            }
            if firsts(ids).contains(x) {
                let j = choose|j: int| 0 <= j < firsts(ids).len() && firsts(ids)[j] == x;
                if j < prev.len() {
                    assert(prev[j] == x);
                    assert(prev.contains(x));
                    assert(d.contains(x));
                    let k = choose|k: int| 0 <= k < d.len() && d[k] == x;
                    assert(ids[k] == x);
                } else {
                    assert(ids[ids.len() - 1] == x);
                }
            }
        }
    }
}

/// A tag that is not in the list occurs in it no time.
pub proof fn lemma_occurrences_absent(ids: Seq<TagId>, t: int)
    requires
        forall|k: int| 0 <= k < ids.len() ==> ids[k] != t,
    ensures
        occurrences(ids, t) == 0,
    decreases ids.len(),
{
    if ids.len() > 0 {
        let d = ids.drop_last();
        assert forall|k: int| 0 <= k < d.len() implies d[k] != t by { assert(d[k] == ids[k]); }
        lemma_occurrences_absent(d, t);
    }
}

/// A recipe's inputs are met exactly when, for every tag, at least as many carried items
/// bear it as the inputs name it.
pub proof fn law_inputs_met_every_tag(needed: Seq<TagId>, carried: Seq<Tags>)
    ensures
        inputs_met(needed, carried) == forall|t: int| #[trigger] holders(carried, t) >= occurrences(needed, t),
{
    lemma_firsts_contains(needed);
    if inputs_met(needed, carried) {
        assert forall|t: int| #[trigger] holders(carried, t) >= occurrences(needed, t) by {
            if exists|k: int| 0 <= k < needed.len() && needed[k] == t {
                let k = choose|k: int| 0 <= k < needed.len() && needed[k] == t;
                let x = needed[k];
                assert(needed.contains(x));
                assert(firsts(needed).contains(x));
                let j = choose|j: int| 0 <= j < firsts(needed).len() && firsts(needed)[j] == x;
                assert(holders(carried, firsts(needed)[j] as int) >= occurrences(needed, firsts(needed)[j] as int));
            } else {
                lemma_occurrences_absent(needed, t);
            }
        }
    }
    if forall|t: int| #[trigger] holders(carried, t) >= occurrences(needed, t) {
        assert forall|k: int| 0 <= k < firsts(needed).len() implies
            holders(carried, #[trigger] firsts(needed)[k] as int) >= occurrences(needed, firsts(needed)[k] as int) by {
            let t = firsts(needed)[k] as int;
            assert(holders(carried, t) >= occurrences(needed, t));
        }
    }
}

/// How many times a name occurs in a list of names.
pub open spec fn name_count(s: Seq<Seq<char>>, n: Seq<char>) -> nat
    decreases s.len(),
{
    if s.len() == 0 {
        0
    } else {
        name_count(s.drop_last(), n) + if s.last() == n { 1nat } else { 0nat }
    }
}

/// How far the carried items fall short of the inputs for tag `t` (0 when they suffice).
pub open spec fn shortfall(needed: Seq<TagId>, carried: Seq<Tags>, t: int) -> nat {
    if holders(carried, t) < occurrences(needed, t) {
        (occurrences(needed, t) - holders(carried, t)) as nat
    } else {
        0
    }
}

proof fn lemma_name_count_concat(a: Seq<Seq<char>>, b: Seq<Seq<char>>, n: Seq<char>)
    ensures
        name_count(a + b, n) == name_count(a, n) + name_count(b, n),
    decreases b.len(),
{
    if b.len() > 0 {
        lemma_name_count_concat(a, b.drop_last(), n);
        assert((a + b).drop_last() =~= a + b.drop_last());
    }
}

proof fn lemma_name_count_repeat(m: nat, x: Seq<char>, n: Seq<char>)
    ensures
        name_count(Seq::new(m, |i: int| x), n) == if x == n { m } else { 0 },
    decreases m,
{
    if m > 0 {
        lemma_name_count_repeat((m - 1) as nat, x, n);
        assert(Seq::new(m, |i: int| x).drop_last() =~= Seq::new((m - 1) as nat, |i: int| x));
    }
}

/// The ids each once have no repeats.
pub proof fn lemma_firsts_distinct(ids: Seq<TagId>)
    ensures
        firsts(ids).no_duplicates(),
    decreases ids.len(),
{
    if ids.len() > 0 {
        lemma_firsts_distinct(ids.drop_last());
    }
}

proof fn lemma_missing_counts(fs: Seq<TagId>, needed: Seq<TagId>, carried: Seq<Tags>, reg: TagRegistry)
    requires
        fs.no_duplicates(),
        forall|k: int| 0 <= k < fs.len() ==> #[trigger] fs[k] < reg.defs@.len(),
        reg.names().no_duplicates(),
    ensures
        forall|k: int| 0 <= k < fs.len() ==>
            name_count(missing_names(fs, needed, carried, reg), reg.defs@[#[trigger] fs[k] as int].name@)
                == shortfall(needed, carried, fs[k] as int),
        forall|n: Seq<char>| (forall|k: int| 0 <= k < fs.len() ==> reg.defs@[#[trigger] fs[k] as int].name@ != n) ==>
            name_count(missing_names(fs, needed, carried, reg), n) == 0,
    decreases fs.len(),
{
    if fs.len() > 0 {
        let d = fs.drop_last();
        let t = fs.last();
        assert forall|k: int| 0 <= k < d.len() implies #[trigger] d[k] < reg.defs@.len() by { assert(d[k] == fs[k]); }
        lemma_missing_counts(d, needed, carried, reg);
        let prev = missing_names(d, needed, carried, reg);
        let need = occurrences(needed, t as int);
        let have = holders(carried, t as int);
        let tn = reg.defs@[t as int].name@;
        let add = if have < need { Seq::new((need - have) as nat, |i: int| tn) } else { seq![] };
        assert(missing_names(fs, needed, carried, reg) =~= prev + add);
        assert forall|n: Seq<char>| #[trigger] name_count(missing_names(fs, needed, carried, reg), n)
            == name_count(prev, n) + if n == tn { shortfall(needed, carried, t as int) } else { 0 } by {
            lemma_name_count_concat(prev, add, n);
            if have < need {
                lemma_name_count_repeat((need - have) as nat, tn, n);
            }
        }
        assert forall|k: int| 0 <= k < d.len() implies reg.defs@[#[trigger] d[k] as int].name@ != tn by {
            assert(d[k] == fs[k]);
            assert(fs[k] != fs[fs.len() - 1]);
            assert(reg.names()[d[k] as int] == reg.defs@[d[k] as int].name@);
            assert(reg.names()[t as int] == tn);
        }
        assert forall|k: int| 0 <= k < fs.len() implies
            name_count(missing_names(fs, needed, carried, reg), reg.defs@[#[trigger] fs[k] as int].name@)
                == shortfall(needed, carried, fs[k] as int) by {
            if k < d.len() {
                assert(d[k] == fs[k]);
            }
        }
        assert forall|n: Seq<char>| (forall|k: int| 0 <= k < fs.len() ==> reg.defs@[#[trigger] fs[k] as int].name@ != n) implies
            name_count(missing_names(fs, needed, carried, reg), n) == 0 by {
            assert forall|k: int| 0 <= k < d.len() implies reg.defs@[#[trigger] d[k] as int].name@ != n by {
                assert(d[k] == fs[k]);
            }
            assert(fs[fs.len() - 1] == t);
        }
    }
}

/// The missing inputs name each registered input tag exactly as many times as the carried
/// items fall short of it, and name nothing else (the registry's names being distinct).
pub proof fn law_missing_inputs_count(needed: Seq<TagId>, carried: Seq<Tags>, reg: TagRegistry)
    requires
        forall|k: int| 0 <= k < needed.len() ==> #[trigger] needed[k] < reg.defs@.len(),
        reg.names().no_duplicates(),
    ensures
        forall|k: int| 0 <= k < needed.len() ==>
            name_count(missing_names(firsts(needed), needed, carried, reg), reg.defs@[#[trigger] needed[k] as int].name@)
                == shortfall(needed, carried, needed[k] as int),
        forall|n: Seq<char>| (forall|k: int| 0 <= k < needed.len() ==> reg.defs@[#[trigger] needed[k] as int].name@ != n) ==>
            name_count(missing_names(firsts(needed), needed, carried, reg), n) == 0,
{
    let fs = firsts(needed);
    lemma_firsts_distinct(needed);
    lemma_firsts_registered(needed, reg.defs@.len());
    lemma_firsts_contains(needed);
    lemma_missing_counts(fs, needed, carried, reg);
    assert forall|k: int| 0 <= k < needed.len() implies
        name_count(missing_names(fs, needed, carried, reg), reg.defs@[#[trigger] needed[k] as int].name@)
            == shortfall(needed, carried, needed[k] as int) by {
        let x = needed[k];
        assert(needed.contains(x));
        assert(fs.contains(x));
        let j = choose|j: int| 0 <= j < fs.len() && fs[j] == x;
        assert(reg.defs@[fs[j] as int].name@ == reg.defs@[x as int].name@);
    }
    assert forall|n: Seq<char>| (forall|k: int| 0 <= k < needed.len() ==> reg.defs@[#[trigger] needed[k] as int].name@ != n) implies
        name_count(missing_names(fs, needed, carried, reg), n) == 0 by {
        assert forall|j: int| 0 <= j < fs.len() implies reg.defs@[#[trigger] fs[j] as int].name@ != n by {
            let x = fs[j];
            assert(fs.contains(x));
            assert(needed.contains(x));
            let k = choose|k: int| 0 <= k < needed.len() && needed[k] == x;
            assert(reg.defs@[needed[k] as int].name@ != n);
        }
    }
}

fn count_occurrences(ids: &Vec<TagId>, t: TagId) -> (r: usize)
    ensures
        r == occurrences(ids@, t as int),
{
    let mut n: usize = 0;
    let mut i: usize = 0;
    while i < ids.len()
        invariant
            i <= ids@.len(),
            n == occurrences(ids@.subrange(0, i as int), t as int),
            n <= i,
        decreases ids.len() - i,
    {
        assert(ids@.subrange(0, i + 1).drop_last() =~= ids@.subrange(0, i as int));
        if ids[i] == t {
            n = n + 1;
        }
        i = i + 1;
    }
    assert(ids@.subrange(0, ids@.len() as int) =~= ids@);
    n
}

fn count_holders(sets: &Vec<Tags>, t: TagId) -> (r: usize)
    ensures
        r == holders(sets@, t as int),
{
    let mut n: usize = 0;
    let mut i: usize = 0;
    while i < sets.len()
        invariant
            i <= sets@.len(),
            n == holders(sets@.subrange(0, i as int), t as int),
            n <= i,
        decreases sets.len() - i,
    {
        assert(sets@.subrange(0, i + 1).drop_last() =~= sets@.subrange(0, i as int));
        if sets[i].has(t) {
            n = n + 1;
        }
        i = i + 1;
    }
    assert(sets@.subrange(0, sets@.len() as int) =~= sets@);
    n
}

fn contains_id(ids: &Vec<TagId>, t: TagId) -> (r: bool)
    ensures
        r == ids@.contains(t),
{
    let mut i: usize = 0;
    while i < ids.len()
        invariant
            i <= ids@.len(),
            forall|j: int| 0 <= j < i ==> ids@[j] != t,
        decreases ids.len() - i,
    {
        if ids[i] == t {
            assert(ids@[i as int] == t);
            return true;
        }
        i = i + 1;
    }
    false
}

fn firsts_of(ids: &Vec<TagId>) -> (r: Vec<TagId>)
    ensures
        r@ == firsts(ids@),
{
    let mut r: Vec<TagId> = Vec::new();
    let mut i: usize = 0;
    while i < ids.len()
        invariant
            i <= ids@.len(),
            r@ == firsts(ids@.subrange(0, i as int)),
        decreases ids.len() - i,
    {
        assert(ids@.subrange(0, i + 1).drop_last() =~= ids@.subrange(0, i as int));
        if !contains_id(&r, ids[i]) {
            r.push(ids[i]);
        }
        i = i + 1;
    }
    assert(ids@.subrange(0, ids@.len() as int) =~= ids@);
    r
}

proof fn lemma_firsts_registered(ids: Seq<TagId>, n: nat)
    requires
        forall|k: int| 0 <= k < ids.len() ==> #[trigger] ids[k] < n,
    ensures
        forall|k: int| 0 <= k < firsts(ids).len() ==> #[trigger] firsts(ids)[k] < n,
    decreases ids.len(),
{
    if ids.len() > 0 {
        let d = ids.drop_last();
        assert forall|k: int| 0 <= k < d.len() implies #[trigger] d[k] < n by { assert(d[k] == ids[k]); }
        lemma_firsts_registered(d, n);
        assert(ids.last() == ids[ids.len() - 1]);
        let prev = firsts(d);
        assert forall|k: int| 0 <= k < firsts(ids).len() implies #[trigger] firsts(ids)[k] < n by {
            if k < prev.len() {
                assert(firsts(ids)[k] == prev[k]);
            }
        }
    }
}

proof fn lemma_known_ids_registered(names: Seq<Seq<char>>, reg: TagRegistry)
    ensures
        forall|k: int| 0 <= k < known_ids(names, reg).len() ==> #[trigger] known_ids(names, reg)[k] < reg.defs@.len(),
    decreases names.len(),
{
    if names.len() > 0 {
        lemma_known_ids_registered(names.drop_last(), reg);
        crate::tags::lemma_first_index(reg.names(), names.last());
        let prev = known_ids(names.drop_last(), reg);
        assert(reg.names().len() == reg.defs@.len());
        assert forall|k: int| 0 <= k < known_ids(names, reg).len() implies #[trigger] known_ids(names, reg)[k] < reg.defs@.len() by {
            if k < prev.len() {
                assert(known_ids(names, reg)[k] == prev[k]);
            }
        }
    }
}

/// The missing names, their shortage flag and the availability of one recipe.
fn missing_inputs_of(ids: &Vec<TagId>, carried: &Vec<Tags>, registry: &TagRegistry) -> (r: (Vec<String>, bool))
    requires
        forall|k: int| 0 <= k < ids@.len() ==> #[trigger] ids@[k] < registry.defs@.len(),
    ensures
        views(r.0@) == missing_names(firsts(ids@), ids@, carried@, *registry),
        r.1 == inputs_met(ids@, carried@),
{
    let fs = firsts_of(ids);
    proof { lemma_firsts_registered(ids@, registry.defs@.len()); }
    let mut missing: Vec<String> = Vec::new();
    let mut met = true;
    let mut i: usize = 0;
    while i < fs.len()
        invariant
            i <= fs@.len(),
            fs@ == firsts(ids@),
            forall|k: int| 0 <= k < fs@.len() ==> #[trigger] fs@[k] < registry.defs@.len(),
            views(missing@) == missing_names(fs@.subrange(0, i as int), ids@, carried@, *registry),
            met == forall|k: int| 0 <= k < i ==>
                holders(carried@, #[trigger] fs@[k] as int) >= occurrences(ids@, fs@[k] as int),
        decreases fs.len() - i,
    {
        assert(fs@.subrange(0, i + 1).drop_last() =~= fs@.subrange(0, i as int));
        let t = fs[i];
        let need = count_occurrences(ids, t);
        let have = count_holders(carried, t);
        let ghost before = views(missing@);
        if have < need {
            met = false;
            let mut c: usize = 0;
            while c < need - have
                invariant
                    have < need,
                    c <= need - have,
                    t < registry.defs@.len(),
                    views(missing@) == before + Seq::new(c as nat, |j: int| registry.defs@[t as int].name@),
                decreases need - have - c,
            {
                let ghost prior = missing@;
                let nm = registry.defs[t].name.clone();
                missing.push(nm);
                assert(views(missing@) =~= views(prior).push(registry.defs@[t as int].name@));
                c = c + 1;
                assert(views(missing@) =~= before + Seq::new(c as nat, |j: int| registry.defs@[t as int].name@));
            }
        }
        i = i + 1;
    }
    assert(fs@.subrange(0, fs@.len() as int) =~= fs@);
    (missing, met)
}

/// Whether every asked tag is registered and present around the player.
fn env_met_for(env: &Vec<String>, adjacent: &Vec<usize>, nearby: &Vec<(Position, Tags)>, player_pos: (u32, u32), registry: &TagRegistry) -> (r: bool)
    requires
        adjacent@.len() == registry.defs@.len(),
        forall|t: int| 0 <= t < adjacent@.len() ==> #[trigger] adjacent@[t] == adjacent_count(nearby@, player_pos, t, 8),
    ensures
        r == env_satisfied(views(env@), nearby@, player_pos, *registry),
{
    if env.len() == 0 {
        return true;
    }
    let mut i: usize = 0;
    while i < env.len()
        invariant
            i <= env@.len(),
            adjacent@.len() == registry.defs@.len(),
            forall|t: int| 0 <= t < adjacent@.len() ==> #[trigger] adjacent@[t] == adjacent_count(nearby@, player_pos, t, 8),
            forall|k: int| 0 <= k < i ==> (#[trigger] registry.id_of(views(env@)[k]) matches Some(id)
                && adjacent_count(nearby@, player_pos, id as int, 8) > 0),
        decreases env.len() - i,
    {
        match registry.tag_id(env[i].as_str()) {
            Some(id) => {
                if adjacent[id] == 0 {
                    assert(!(registry.id_of(views(env@)[i as int]) matches Some(id2) && adjacent_count(nearby@, player_pos, id2 as int, 8) > 0));
                    return false;
                }
            },
            None => {
                assert(registry.id_of(views(env@)[i as int]) is None);
                return false;
            },
        }
        i = i + 1;
    }
    true
}

/// For each recipe: whether it can be made from the carried items' tags (each item counts once
/// per tag it carries) and what stands on the eight tiles around the player, and which inputs
/// are missing.
pub fn find_available_recipes(
    recipes: &Vec<CraftingRecipe>,
    carried: &Vec<Tags>,
    nearby: &Vec<(Position, Tags)>,
    player_pos: (u32, u32),
    registry: &TagRegistry,
) -> (r: Vec<RecipeAvailability>)
    requires
        position_in_range(player_pos),
        nearby@.len() <= usize::MAX / 8,
    ensures
        r@.len() == recipes@.len(),
        forall|i: int| 0 <= i < recipes@.len() ==> {
            let a = #[trigger] r@[i];
            let rec = recipes@[i];
            let ids = known_ids(views(rec.inputs@), *registry);
            &&& a.recipe@ == rec@
            &&& views(a.missing_inputs@) == missing_names(firsts(ids), ids, carried@, *registry)
            &&& a.env_met == env_satisfied(views(rec.requires_env@), nearby@, player_pos, *registry)
            &&& a.available == (inputs_met(ids, carried@) && a.env_met)
        },
{
    let adjacent = collect_adjacent_tags(nearby, player_pos, registry.tag_count());
    let mut r: Vec<RecipeAvailability> = Vec::new();
    let mut i: usize = 0;
    while i < recipes.len()
        invariant
            i <= recipes@.len(),
            r@.len() == i,
            adjacent@.len() == registry.defs@.len(),
            forall|t: int| 0 <= t < adjacent@.len() ==> #[trigger] adjacent@[t] == adjacent_count(nearby@, player_pos, t, 8),
            forall|j: int| 0 <= j < i ==> {
                let a = #[trigger] r@[j];
                let rec = recipes@[j];
                let ids = known_ids(views(rec.inputs@), *registry);
                &&& a.recipe@ == rec@
                &&& views(a.missing_inputs@) == missing_names(firsts(ids), ids, carried@, *registry)
                &&& a.env_met == env_satisfied(views(rec.requires_env@), nearby@, player_pos, *registry)
                &&& a.available == (inputs_met(ids, carried@) && a.env_met)
            },
        decreases recipes.len() - i,
    {
        let rec = &recipes[i];
        let ids = known_tag_ids(&rec.inputs, registry);
        proof { lemma_known_ids_registered(views(rec.inputs@), *registry); }
        let (missing_inputs, met) = missing_inputs_of(&ids, carried, registry);
        let env_met = env_met_for(&rec.requires_env, &adjacent, nearby, player_pos, registry);
        r.push(RecipeAvailability { recipe: rec.clone(), available: met && env_met, missing_inputs, env_met });
        i = i + 1;
    }
    r
}


/// A newly made item.
#[derive(Debug)]
pub struct CraftedItem {
    /// The entity id the item gets.
    pub id: EntityId,
    pub name: String,
    pub glyph: Glyph,
    pub tags: Tags,
}

/// What making a recipe did: the carried items used up, and the items made.
#[derive(Debug)]
pub struct CraftResult {
    pub consumed: Vec<EntityId>,
    pub created: Vec<CraftedItem>,
}

/// The count still needed of each tag id below `width`.
pub open spec fn initial_need(ids: Seq<TagId>, width: nat) -> Seq<int> {
    Seq::new(width, |t: int| occurrences(ids, t) as int)
}

/// One carried item offered to the recipe: it gives one of each still-needed tag it carries;
/// it is used up when it gave any.
pub open spec fn consume_step(need: Seq<int>, tags: Option<Tags>) -> (Seq<int>, bool) {
    match tags {
        None => (need, false),
        Some(ts) => (
            Seq::new(need.len(), |t: int| if ts.contains(t) && need[t] > 0 { need[t] - 1 } else { need[t] }),
            exists|t: int| 0 <= t < need.len() && ts.contains(t) && need[t] > 0,
        ),
    }
}

/// The carried items offered in order: the need left and which items were used up.
pub open spec fn consume_run(need: Seq<int>, tags: Seq<Option<Tags>>) -> (Seq<int>, Seq<bool>)
    decreases tags.len(),
{
    if tags.len() == 0 {
        (need, seq![])
    } else {
        let prev = consume_run(need, tags.drop_last());
        let step = consume_step(prev.0, tags.last());
        (step.0, prev.1.push(step.1))
    }
}

/// The items whose flag is set, in order.
pub open spec fn flagged(items: Seq<EntityId>, flags: Seq<bool>) -> Seq<EntityId>
    decreases items.len(),
{
    if items.len() == 0 || flags.len() != items.len() {
        seq![]
    } else {
        let prev = flagged(items.drop_last(), flags.drop_last());
        if flags.last() { prev.push(items.last()) } else { prev }
    }
}

/// The items that are not among `gone`, in order.
pub open spec fn without(items: Seq<EntityId>, gone: Seq<EntityId>) -> Seq<EntityId>
    decreases items.len(),
{
    if items.len() == 0 {
        seq![]
    } else {
        let prev = without(items.drop_last(), gone);
        if gone.contains(items.last()) { prev } else { prev.push(items.last()) }
    }
}

/// The items a recipe uses up from the carried ones (tags given per carried item).
pub open spec fn used_up(recipe: CraftingRecipe, items: Seq<EntityId>, tags: Seq<Option<Tags>>, reg: TagRegistry) -> Seq<EntityId> {
    let need = initial_need(known_ids(views(recipe.inputs@), reg), reg.defs@.len());
    flagged(items, consume_run(need, tags).1)
}

proof fn lemma_run_len(need: Seq<int>, tags: Seq<Option<Tags>>)
    ensures
        consume_run(need, tags).1.len() == tags.len(),
        consume_run(need, tags).0.len() == need.len(),
    decreases tags.len(),
{
    if tags.len() > 0 {
        lemma_run_len(need, tags.drop_last());
    }
}

/// Makes a recipe: the carried items are offered in order and each one that gives a still-needed
/// input tag is used up; every used-up item leaves the inventory; one item per output is made,
/// with ids from `first_id` on, and added to the inventory.
pub fn execute_recipe(
    recipe: &CraftingRecipe,
    inventory: &mut Inventory,
    item_tags: &Vec<Option<Tags>>,
    registry: &TagRegistry,
    first_id: EntityId,
) -> (r: CraftResult)
    requires
        item_tags@.len() == old(inventory).items@.len(),
        first_id + recipe.outputs@.len() <= u64::MAX,
    ensures
        r.consumed@ == used_up(*recipe, old(inventory).items@, item_tags@, *registry),
        r.created@.len() == recipe.outputs@.len(),
        forall|j: int| 0 <= j < r.created@.len() ==> {
            let c = #[trigger] r.created@[j];
            let o = recipe.outputs@[j];
            &&& c.id == first_id + j
            &&& c.name@ == o.name@
            &&& c.glyph == Glyph { char: o.glyph, color: (o.color[0], o.color[1], o.color[2]) }
            &&& c.tags.present@ == presence_of(o.tags@, *registry)
        },
        final(inventory).capacity == old(inventory).capacity,
        final(inventory).items@ == without(old(inventory).items@, r.consumed@)
            + Seq::new(recipe.outputs@.len(), |j: int| (first_id + j) as EntityId),
{
    let width = registry.tag_count();
    let ids = known_tag_ids(&recipe.inputs, registry);
    let mut need: Vec<usize> = Vec::new();
    let mut t: usize = 0;
    while t < width
        invariant
            t <= width,
            width == registry.defs@.len(),
            need@.len() == t,
            forall|j: int| 0 <= j < t ==> #[trigger] need@[j] == occurrences(ids@, j),
        decreases width - t,
    {
        let n = count_occurrences(&ids, t);
        need.push(n);
        t = t + 1;
    }
    let ghost need0 = initial_need(ids@, width as nat);
    assert(need@.map_values(|n: usize| n as int) =~= need0);
    let ghost items = inventory.items@;
    let mut flags: Vec<bool> = Vec::new();
    let mut consumed: Vec<EntityId> = Vec::new();
    let mut k: usize = 0;
    while k < item_tags.len()
        invariant
            k <= item_tags@.len(),
            item_tags@.len() == items.len(),
            inventory.items@ == items,
            width == registry.defs@.len(),
            need@.len() == width,
            need@.map_values(|n: usize| n as int) == consume_run(need0, item_tags@.subrange(0, k as int)).0,
            flags@ == consume_run(need0, item_tags@.subrange(0, k as int)).1,
            consumed@ == flagged(items.subrange(0, k as int), flags@),
        decreases item_tags.len() - k,
    {
        let ghost sub = item_tags@.subrange(0, k + 1);
        assert(sub.drop_last() =~= item_tags@.subrange(0, k as int));
        proof { lemma_run_len(need0, item_tags@.subrange(0, k as int)); }
        let ghost before = need@.map_values(|n: usize| n as int);
        let mut used = false;
        match &item_tags[k] {
            Some(ts) => {
                let mut j: usize = 0;
                while j < width
                    invariant
                        j <= width,
                        need@.len() == width,
                        before.len() == width,
                        forall|x: int| 0 <= x < j ==> #[trigger] need@[x] as int
                            == if ts.contains(x) && before[x] > 0 { before[x] - 1 } else { before[x] },
                        forall|x: int| j <= x < width ==> #[trigger] need@[x] as int == before[x],
                        used == exists|x: int| 0 <= x < j && ts.contains(x) && before[x] > 0,
                    decreases width - j,
                {
                    if ts.has(j) && need[j] > 0 {
                        let v = need[j] - 1;
                        need.set(j, v);
                        used = true;
                    }
                    j = j + 1;
                }
                assert(need@.map_values(|n: usize| n as int) =~= consume_step(before, Some(*ts)).0);
            },
            None => {},
        }
        assert(consume_run(need0, sub).1 == flags@.push(used));
        let ghost old_flags = flags@;
        assert(old_flags.len() == k);
        flags.push(used);
        assert(flags@.drop_last() =~= old_flags);
        assert(items.subrange(0, k + 1).drop_last() =~= items.subrange(0, k as int));
        assert(items.subrange(0, k + 1).last() == items[k as int]);
        if used {
            consumed.push(inventory.items[k]);
        }
        assert(consumed@ == flagged(items.subrange(0, k + 1), flags@));
        k = k + 1;
    }
    assert(item_tags@.subrange(0, item_tags@.len() as int) =~= item_tags@);
    assert(items.subrange(0, items.len() as int) =~= items);
    let mut kept: Vec<EntityId> = Vec::new();
    let mut i: usize = 0;
    while i < inventory.items.len()
        invariant
            i <= items.len(),
            inventory.items@ == items,
            kept@ == without(items.subrange(0, i as int), consumed@),
        decreases inventory.items.len() - i,
    {
        assert(items.subrange(0, i + 1).drop_last() =~= items.subrange(0, i as int));
        let e = inventory.items[i];
        if !contains_entity(&consumed, e) {
            kept.push(e);
        }
        i = i + 1;
    }
    let ghost kept_view = kept@;
    let mut created: Vec<CraftedItem> = Vec::new();
    let mut j: usize = 0;
    while j < recipe.outputs.len()
        invariant
            j <= recipe.outputs@.len(),
            first_id + recipe.outputs@.len() <= u64::MAX,
            created@.len() == j,
            kept@ == kept_view + Seq::new(j as nat, |x: int| (first_id + x) as EntityId),
            forall|x: int| 0 <= x < j ==> {
                let c = #[trigger] created@[x];
                let o = recipe.outputs@[x];
                &&& c.id == first_id + x
                &&& c.name@ == o.name@
                &&& c.glyph == Glyph { char: o.glyph, color: (o.color[0], o.color[1], o.color[2]) }
                &&& c.tags.present@ == presence_of(o.tags@, *registry)
            },
        decreases recipe.outputs.len() - j,
    {
        let o = &recipe.outputs[j];
        let id = first_id + j as u64;
        let tags = tags_from_names(&o.tags, registry);
        created.push(CraftedItem {
            id,
            name: o.name.clone(),
            glyph: Glyph { char: o.glyph, color: (o.color[0], o.color[1], o.color[2]) },
            tags,
        });
        kept.push(id);
        j = j + 1;
        assert(kept@ =~= kept_view + Seq::new(j as nat, |x: int| (first_id + x) as EntityId));
    }
    inventory.items = kept;
    CraftResult { consumed, created }
}

fn contains_entity(ids: &Vec<EntityId>, e: EntityId) -> (r: bool)
    ensures
        r == ids@.contains(e),
{
    let mut i: usize = 0;
    while i < ids.len()
        invariant
            i <= ids@.len(),
            forall|j: int| 0 <= j < i ==> ids@[j] != e,
        decreases ids.len() - i,
    {
        if ids[i] == e {
            assert(ids@[i as int] == e);
            return true;
        }
        i = i + 1;
    }
    false
}


/// The eight offsets are exactly the eight neighbouring steps: each is a distinct non-zero
/// step of at most one tile in each direction, and every such step is one of them.
pub proof fn law_offsets_are_the_neighbours()
    ensures
        forall|k: int| 0 <= k < 8 ==> -1 <= #[trigger] offset(k).0 <= 1 && -1 <= offset(k).1 <= 1
            && !(offset(k).0 == 0 && offset(k).1 == 0),
        forall|k: int, m: int| 0 <= k < m < 8 ==> #[trigger] offset(k) != #[trigger] offset(m),
        forall|dx: int, dy: int| -1 <= dx <= 1 && -1 <= dy <= 1 && !(dx == 0 && dy == 0) ==>
            0 <= #[trigger] step_index(dx, dy) < 8 && offset(step_index(dx, dy)).0 == dx
                && offset(step_index(dx, dy)).1 == dy,
{
}

/// The position among the offsets of the step `(dx, dy)`, row by row.
pub open spec fn step_index(dx: int, dy: int) -> int {
    if dx == -1 { dy + 1 } else if dx == 0 { if dy == -1 { 3 } else { 4 } } else { dy + 6 }
}

/// An entity carrying a tag on any tile next to the player's is counted among the adjacent
/// tags: the count over the eight neighbouring tiles is at least one.
pub proof fn law_neighbour_entity_counted(ents: Seq<(Position, Tags)>, p: (u32, u32), t: int, j: int)
    requires
        position_in_range(p),
        0 <= j < ents.len(),
        ents[j].1.contains(t),
        -1 <= ents[j].0.x as int - p.0 as int <= 1,
        -1 <= ents[j].0.y as int - p.1 as int <= 1,
        !(ents[j].0.x == p.0 && ents[j].0.y == p.1),
    ensures
        adjacent_count(ents, p, t, 8) >= 1,
{
    law_offsets_are_the_neighbours();
    let dx = ents[j].0.x as int - p.0 as int;
    let dy = ents[j].0.y as int - p.1 as int;
    let k = step_index(dx, dy);
    lemma_step_back(p.0, ents[j].0.x, offset(k).0);
    lemma_step_back(p.1, ents[j].0.y, offset(k).1);
    assert(neighbour(p, k) == (ents[j].0.x, ents[j].0.y));
    lemma_count_at_member(ents, ents[j].0.x, ents[j].0.y, t, j);
    lemma_adjacent_includes(ents, p, t, k, 8);
}

/// Stepping by `d` from `a` in `i32` and back to `u32` lands on `b` when `b` is `a + d`.
proof fn lemma_step_back(a: u32, b: u32, d: i32)
    requires
        -1 <= d <= 1,
        b as int == a as int + d as int,
        (a as i32) > i32::MIN,
        (a as i32) < i32::MAX,
    ensures
        (((a as i32) + d) as i32) as u32 == b,
{
    assert((((a as i32) + d) as i32) as u32 == b) by (bit_vector)
        requires
            -1 <= d <= 1,
            b as int == a as int + d as int,
            (a as i32) > i32::MIN,
            (a as i32) < i32::MAX;
}

/// An entity standing on a tile and carrying the tag is counted there.
proof fn lemma_count_at_member(ents: Seq<(Position, Tags)>, x: u32, y: u32, t: int, j: int)
    requires
        0 <= j < ents.len(),
        ents[j].0.x == x,
        ents[j].0.y == y,
        ents[j].1.contains(t),
    ensures
        count_at(ents, x, y, t) >= 1,
    decreases ents.len(),
{
    if j < ents.len() - 1 {
        let d = ents.drop_last();
        assert(d[j] == ents[j]);
        lemma_count_at_member(d, x, y, t, j);
    }
}

/// The count over the first `n` neighbouring tiles includes that of each of them.
proof fn lemma_adjacent_includes(ents: Seq<(Position, Tags)>, p: (u32, u32), t: int, k: int, n: int)
    requires
        0 <= k < n,
    ensures
        adjacent_count(ents, p, t, n) >= count_at(ents, neighbour(p, k).0, neighbour(p, k).1, t),
    decreases n,
{
    if k < n - 1 {
        lemma_adjacent_includes(ents, p, t, k, n - 1);
    }
}

} // verus!
