//! Quests: objectives and their progress, the quest log, quest generation from
//! templates, progress tracking on kills, pickups and travel, the quest board
//! and turning quests in.
use vstd::prelude::*;
use vstd::string::*;
use crate::text::{decimal, lowercase, replace_seq, strip_prefixes, tag_phrase, to_lower, u32_text, u64_text, str_eq,
    replace_all, trim_start_all, tag_display, views};
use crate::events::{EventBus, GameEvent};
use crate::tags::{TagId, TagRegistry, Tags, known_ids, known_tag_ids, first_index, lemma_first_index, lemma_prefix_first, presence_of, tags_from_names};
use crate::components::{EntityId, Glyph, Inventory, Position};
use crate::dice::{random_seed, seeded_rng, std_range_usize};

verus! {

/// The marker of an NPC that hands out quests.
pub struct QuestGiver;

/// The marker of a quest board in the world.
pub struct QuestBoard;

/// What a quest asks of the player, with its progress so far.
#[derive(Debug)]
pub enum QuestObjective {
    Kill { target_name: String, killed: u32, required: u32 },
    Collect { tag_name: String, collected: u32, required: u32 },
    Reach { biome: String, reached: bool },
    KillInArea { biome: String, killed: u32, required: u32 },
}

/// An objective as plain values.
pub enum ObjectiveView {
    Kill { target_name: Seq<char>, killed: u32, required: u32 },
    Collect { tag_name: Seq<char>, collected: u32, required: u32 },
    Reach { biome: Seq<char>, reached: bool },
    KillInArea { biome: Seq<char>, killed: u32, required: u32 },
}

impl View for QuestObjective {
    type V = ObjectiveView;

    open spec fn view(&self) -> ObjectiveView {
        match self {
            QuestObjective::Kill { target_name, killed, required } =>
                ObjectiveView::Kill { target_name: target_name@, killed: *killed, required: *required },
            QuestObjective::Collect { tag_name, collected, required } =>
                ObjectiveView::Collect { tag_name: tag_name@, collected: *collected, required: *required },
            QuestObjective::Reach { biome, reached } =>
                ObjectiveView::Reach { biome: biome@, reached: *reached },
            QuestObjective::KillInArea { biome, killed, required } =>
                ObjectiveView::KillInArea { biome: biome@, killed: *killed, required: *required },
        }
    }
}

/// The progress line of an objective, e.g. "1/3 Target" or "Find forest".
pub open spec fn progress_of(o: ObjectiveView) -> Seq<char> {
    match o {
        ObjectiveView::Kill { target_name, killed, required } =>
            decimal(killed as nat) + "/"@ + decimal(required as nat) + " "@ + target_name,
        ObjectiveView::Collect { tag_name, collected, required } =>
            decimal(collected as nat) + "/"@ + decimal(required as nat) + " "@ + tag_name,
        ObjectiveView::Reach { biome, reached } =>
            if reached { "Reached "@ + biome } else { "Find "@ + biome },
        ObjectiveView::KillInArea { biome, killed, required } =>
            decimal(killed as nat) + "/"@ + decimal(required as nat) + " in "@ + biome,
    }
}

/// Whether an objective is met: the count reached the requirement, or the place was reached.
pub open spec fn objective_done(o: ObjectiveView) -> bool {
    match o {
        ObjectiveView::Kill { killed, required, .. } => killed >= required,
        ObjectiveView::Collect { collected, required, .. } => collected >= required,
        ObjectiveView::Reach { reached, .. } => reached,
        ObjectiveView::KillInArea { killed, required, .. } => killed >= required,
    }
}

/// "a/b" followed by a separator and a name.
fn count_line(done: u32, required: u32, sep: &str, name: &str) -> (r: String)
    ensures
        r@ == decimal(done as nat) + "/"@ + decimal(required as nat) + sep@ + name@,
{
    let mut s = u32_text(done);
    s.append("/");
    let req = u32_text(required);
    s.append(req.as_str());
    s.append(sep);
    s.append(name);
    s
}

impl QuestObjective {
    /// The progress line shown in the journal.
    pub fn progress_text(&self) -> (r: String)
        ensures
            r@ == progress_of(self@),
    {
        match self {
            QuestObjective::Kill { target_name, killed, required } =>
                count_line(*killed, *required, " ", target_name.as_str()),
            QuestObjective::Collect { tag_name, collected, required } =>
                count_line(*collected, *required, " ", tag_name.as_str()),
            QuestObjective::Reach { biome, reached } => {
                let mut s = if *reached { String::from_str("Reached ") } else { String::from_str("Find ") };
                s.append(biome.as_str());
                s
            },
            QuestObjective::KillInArea { biome, killed, required } =>
                count_line(*killed, *required, " in ", biome.as_str()),
        }
    }

    /// Whether the objective is met.
    pub fn is_complete(&self) -> (r: bool)
        ensures
            r == objective_done(self@),
    {
        match self {
            QuestObjective::Kill { killed, required, .. } => *killed >= *required,
            QuestObjective::Collect { collected, required, .. } => *collected >= *required,
            QuestObjective::Reach { reached, .. } => *reached,
            QuestObjective::KillInArea { killed, required, .. } => *killed >= *required,
        }
    }
}

/// Where a quest stands.
#[derive(Debug, Clone, Copy, PartialEq, Eq, Structural)]
pub enum QuestState {
    Active,
    Complete,
    Failed,
    TurnedIn,
}

/// A quest the player has taken.
#[derive(Debug)]
pub struct ActiveQuest {
    pub quest_id: String,
    pub template_id: String,
    pub name: String,
    pub description: String,
    pub objective: QuestObjective,
    pub state: QuestState,
    pub reward_tags: Vec<String>,
}

/// A quest as plain values.
pub struct QuestView {
    pub quest_id: Seq<char>,
    pub template_id: Seq<char>,
    pub name: Seq<char>,
    pub description: Seq<char>,
    pub objective: ObjectiveView,
    pub state: QuestState,
    pub reward_tags: Seq<Seq<char>>,
}

impl View for ActiveQuest {
    type V = QuestView;

    open spec fn view(&self) -> QuestView {
        QuestView {
            quest_id: self.quest_id@,
            template_id: self.template_id@,
            name: self.name@,
            description: self.description@,
            objective: self.objective@,
            state: self.state,
            reward_tags: views(self.reward_tags@),
        }
    }
}

/// The views of a list of quests.
pub open spec fn quest_views(qs: Seq<ActiveQuest>) -> Seq<QuestView> {
    qs.map_values(|q: ActiveQuest| q@)
}

/// A quest after the completion check: an active quest whose objective is met becomes complete.
pub open spec fn completed(q: QuestView) -> QuestView {
    if q.state == QuestState::Active && objective_done(q.objective) {
        QuestView { state: QuestState::Complete, ..q }
    } else {
        q
    }
}

/// Marks an active quest whose objective is met as complete; says whether it did.
pub fn check_quest_completion(quest: &mut ActiveQuest) -> (r: bool)
    ensures
        r == (old(quest).state == QuestState::Active && objective_done(old(quest).objective@)),
        final(quest)@ == completed(old(quest)@),
{
    if quest.state != QuestState::Active {
        return false;
    }
    if quest.objective.is_complete() {
        quest.state = QuestState::Complete;
        return true;
    }
    false
}

/// A quest completes at most once: the check changes nothing the second time and reports so.
pub proof fn law_completion_idempotent(q: QuestView)
    ensures
        completed(completed(q)) == completed(q),
{
}

/// The names of the quests turned in, oldest first.
#[derive(Debug)]
pub struct QuestLog {
    pub turned_in: Vec<String>,
}

impl QuestLog {
    /// An empty log.
    pub fn new() -> (r: Self)
        ensures
            r.turned_in@.len() == 0,
    {
        QuestLog { turned_in: Vec::new() }
    }

    /// Records a quest as turned in.
    pub fn record_turn_in(&mut self, quest_name: String)
        ensures
            final(self).turned_in@ == old(self).turned_in@.push(quest_name),
    {
        self.turned_in.push(quest_name);
    }
}


/// Which counted objective a tracked event advances.
#[derive(Debug, Clone, Copy, PartialEq, Eq, Structural)]
pub enum TrackKind {
    /// A creature was killed: advances `Kill` objectives, matched on the target's name.
    Kill,
    /// An item was picked up: advances `Collect` objectives, matched on the tag name.
    Collect,
    /// A creature was killed in a biome: advances `KillInArea` objectives, matched on the biome.
    Area,
}

/// A collect key: lowercased, with spaces as underscores.
pub open spec fn collect_key(s: Seq<char>) -> Seq<char> {
    replace_seq(lowercase(s), " "@, "_"@)
}

/// The match key, the count and the requirement of an objective of the given kind.
pub open spec fn counted(o: ObjectiveView, kind: TrackKind) -> Option<(Seq<char>, u32, u32)> {
    match o {
        ObjectiveView::Kill { target_name, killed, required } =>
            if kind == TrackKind::Kill { Some((lowercase(target_name), killed, required)) } else { None },
        ObjectiveView::Collect { tag_name, collected, required } =>
            if kind == TrackKind::Collect { Some((collect_key(tag_name), collected, required)) } else { None },
        ObjectiveView::KillInArea { biome, killed, required } =>
            if kind == TrackKind::Area { Some((lowercase(biome), killed, required)) } else { None },
        ObjectiveView::Reach { .. } => None,
    }
}

/// The objective with its count set to `n`, when it is of the given kind.
pub open spec fn with_count(o: ObjectiveView, kind: TrackKind, n: u32) -> ObjectiveView {
    match o {
        ObjectiveView::Kill { target_name, required, .. } =>
            if kind == TrackKind::Kill { ObjectiveView::Kill { target_name, killed: n, required } } else { o },
        ObjectiveView::Collect { tag_name, required, .. } =>
            if kind == TrackKind::Collect { ObjectiveView::Collect { tag_name, collected: n, required } } else { o },
        ObjectiveView::KillInArea { biome, required, .. } =>
            if kind == TrackKind::Area { ObjectiveView::KillInArea { biome, killed: n, required } } else { o },
        ObjectiveView::Reach { .. } => o,
    }
}

/// Whether an event with match key `key` advances this quest: it is active, its objective
/// is of the kind, the keys agree and the count is below the requirement.
pub open spec fn advances(q: QuestView, kind: TrackKind, key: Seq<char>) -> bool {
    q.state == QuestState::Active && match counted(q.objective, kind) {
        Some(c) => c.0 == key && c.1 < c.2,
        None => false,
    }
}

/// The pending updates of an event, in quest order: the id of each advanced quest and its new count.
pub open spec fn track_updates(qs: Seq<QuestView>, kind: TrackKind, key: Seq<char>) -> Seq<(Seq<char>, u32)>
    decreases qs.len(),
{
    if qs.len() == 0 {
        seq![]
    } else {
        let prev = track_updates(qs.drop_last(), kind, key);
        let q = qs.last();
        if advances(q, kind, key) {
            prev.push((q.quest_id, (counted(q.objective, kind).unwrap().1 + 1) as u32))
        } else {
            prev
        }
    }
}

/// One update applied to a quest: a quest with the update's id gets the new count
/// (when its objective is of the kind) and then the completion check.
pub open spec fn apply_update(q: QuestView, kind: TrackKind, u: (Seq<char>, u32)) -> QuestView {
    if q.quest_id == u.0 {
        completed(QuestView { objective: with_count(q.objective, kind, u.1), ..q })
    } else {
        q
    }
}

/// Updates applied to a quest in order.
pub open spec fn apply_updates(q: QuestView, kind: TrackKind, ups: Seq<(Seq<char>, u32)>) -> QuestView
    decreases ups.len(),
{
    if ups.len() == 0 {
        q
    } else {
        apply_update(apply_updates(q, kind, ups.drop_last()), kind, ups.last())
    }
}

/// The views of pending updates.
pub open spec fn update_views(ups: Seq<(String, u32)>) -> Seq<(Seq<char>, u32)> {
    ups.map_values(|u: (String, u32)| (u.0@, u.1))
}

/// The match key, count and requirement of a quest's objective of the given kind.
fn counted_of(o: &QuestObjective, kind: TrackKind) -> (r: Option<(String, u32, u32)>)
    ensures
        match counted(o@, kind) {
            Some(c) => r matches Some(x) && x.0@ == c.0 && x.1 == c.1 && x.2 == c.2,
            None => r is None,
        },
{
    match o {
        QuestObjective::Kill { target_name, killed, required } =>
            if kind == TrackKind::Kill { Some((to_lower(target_name.as_str()), *killed, *required)) } else { None },
        QuestObjective::Collect { tag_name, collected, required } =>
            if kind == TrackKind::Collect {
                proof { reveal_strlit(" "); }
                let low = to_lower(tag_name.as_str());
                Some((replace_all(low.as_str(), " ", "_"), *collected, *required))
            } else {
                None
            },
        QuestObjective::KillInArea { biome, killed, required } =>
            if kind == TrackKind::Area { Some((to_lower(biome.as_str()), *killed, *required)) } else { None },
        QuestObjective::Reach { .. } => None,
    }
}

/// Sets the count of an objective of the given kind and runs the completion check.
fn set_count_and_check(q: &mut ActiveQuest, kind: TrackKind, n: u32)
    ensures
        final(q)@ == completed(QuestView { objective: with_count(old(q).objective@, kind, n), ..old(q)@ }),
{
    let new_obj = match &q.objective {
        QuestObjective::Kill { target_name, killed, required } =>
            if kind == TrackKind::Kill {
                QuestObjective::Kill { target_name: target_name.clone(), killed: n, required: *required }
            } else {
                QuestObjective::Kill { target_name: target_name.clone(), killed: *killed, required: *required }
            },
        QuestObjective::Collect { tag_name, collected, required } =>
            if kind == TrackKind::Collect {
                QuestObjective::Collect { tag_name: tag_name.clone(), collected: n, required: *required }
            } else {
                QuestObjective::Collect { tag_name: tag_name.clone(), collected: *collected, required: *required }
            },
        QuestObjective::KillInArea { biome, killed, required } =>
            if kind == TrackKind::Area {
                QuestObjective::KillInArea { biome: biome.clone(), killed: n, required: *required }
            } else {
                QuestObjective::KillInArea { biome: biome.clone(), killed: *killed, required: *required }
            },
        QuestObjective::Reach { biome, reached } =>
            QuestObjective::Reach { biome: biome.clone(), reached: *reached },
    };
    q.objective = new_obj;
    check_quest_completion(q);
}

/// Advances the counted objectives that an event with match key `key` concerns. First the
/// pending updates are gathered over all quests, then each is applied to every quest with its id.
fn track_counter(quests: &mut Vec<ActiveQuest>, kind: TrackKind, key: &str)
    ensures
        final(quests)@.len() == old(quests)@.len(),
        forall|j: int| 0 <= j < old(quests)@.len() ==> #[trigger] final(quests)@[j]@
            == apply_updates(old(quests)@[j]@, kind, track_updates(quest_views(old(quests)@), kind, key@)),
{
    let ghost olds = quest_views(quests@);
    let mut ups: Vec<(String, u32)> = Vec::new();
    let mut i: usize = 0;
    while i < quests.len()
        invariant
            i <= quests@.len(),
            olds == quest_views(quests@),
            update_views(ups@) == track_updates(olds.subrange(0, i as int), kind, key@),
        decreases quests.len() - i,
    {
        assert(olds.subrange(0, i + 1).drop_last() =~= olds.subrange(0, i as int));
        assert(olds.subrange(0, i + 1).last() == quests@[i as int]@);
        if quests[i].state == QuestState::Active {
            let c = counted_of(&quests[i].objective, kind);
            if let Some((k, n, req)) = c {
                if str_eq(k.as_str(), key) && n < req {
                    let id = quests[i].quest_id.clone();
                    ups.push((id, n + 1));
                    assert(update_views(ups@) =~= update_views(ups@.drop_last()).push((quests@[i as int].quest_id@, (n + 1) as u32)));
                }
            }
        }
        i = i + 1;
    }
    assert(olds.subrange(0, quests@.len() as int) =~= olds);
    let ghost all = update_views(ups@);
    let ghost start = quests@;
    let mut k: usize = 0;
    while k < ups.len()
        invariant
            k <= ups@.len(),
            all == update_views(ups@),
            quests@.len() == start.len(),
            forall|j: int| 0 <= j < start.len() ==> #[trigger] quests@[j]@
                == apply_updates(start[j]@, kind, all.subrange(0, k as int)),
        decreases ups.len() - k,
    {
        let ghost done = all.subrange(0, k as int);
        let ghost next = all.subrange(0, k + 1);
        assert(next.drop_last() =~= done);
        assert(next.last() == (ups@[k as int].0@, ups@[k as int].1));
        let mut j: usize = 0;
        while j < quests.len()
            invariant
                k < ups@.len(),
                j <= quests@.len(),
                all == update_views(ups@),
                quests@.len() == start.len(),
                next.len() > 0,
                next.drop_last() == done,
                next.last() == (ups@[k as int].0@, ups@[k as int].1),
                forall|jj: int| 0 <= jj < j ==> #[trigger] quests@[jj]@ == apply_updates(start[jj]@, kind, next),
                forall|jj: int| j <= jj < start.len() ==> #[trigger] quests@[jj]@ == apply_updates(start[jj]@, kind, done),
            decreases quests.len() - j,
        {
            assert(quests@[j as int]@ == apply_updates(start[j as int]@, kind, done));
            if str_eq(quests[j].quest_id.as_str(), ups[k].0.as_str()) {
                set_count_and_check(&mut quests[j], kind, ups[k].1);
            }
            assert(quests@[j as int]@ == apply_updates(start[j as int]@, kind, next));
            j = j + 1;
        }
        k = k + 1;
    }
    assert(all.subrange(0, ups@.len() as int) =~= all);
}

/// Counts a kill toward the kill quests that name the creature (compared lowercased).
pub fn track_kill(quests: &mut Vec<ActiveQuest>, killed_name: &str)
    ensures
        final(quests)@.len() == old(quests)@.len(),
        forall|j: int| 0 <= j < old(quests)@.len() ==> #[trigger] final(quests)@[j]@
            == apply_updates(old(quests)@[j]@, TrackKind::Kill,
                track_updates(quest_views(old(quests)@), TrackKind::Kill, lowercase(killed_name@))),
{
    let key = to_lower(killed_name);
    track_counter(quests, TrackKind::Kill, key.as_str());
}

/// Counts a picked-up item toward the collect quests for its tag (compared lowercased,
/// with spaces as underscores).
pub fn track_collect(quests: &mut Vec<ActiveQuest>, tag_name: &str)
    ensures
        final(quests)@.len() == old(quests)@.len(),
        forall|j: int| 0 <= j < old(quests)@.len() ==> #[trigger] final(quests)@[j]@
            == apply_updates(old(quests)@[j]@, TrackKind::Collect,
                track_updates(quest_views(old(quests)@), TrackKind::Collect, collect_key(tag_name@))),
{
    proof { reveal_strlit(" "); }
    let low = to_lower(tag_name);
    let key = replace_all(low.as_str(), " ", "_");
    track_counter(quests, TrackKind::Collect, key.as_str());
}

/// Counts a kill in a biome toward the area quests for that biome (compared lowercased).
pub fn track_kill_area(quests: &mut Vec<ActiveQuest>, biome_name: &str)
    ensures
        final(quests)@.len() == old(quests)@.len(),
        forall|j: int| 0 <= j < old(quests)@.len() ==> #[trigger] final(quests)@[j]@
            == apply_updates(old(quests)@[j]@, TrackKind::Area,
                track_updates(quest_views(old(quests)@), TrackKind::Area, lowercase(biome_name@))),
{
    let key = to_lower(biome_name);
    track_counter(quests, TrackKind::Area, key.as_str());
}

/// A quest after the player reached a biome with lowercased name `key`: an active, not yet
/// reached travel quest to that biome (compared lowercased) is reached, then checked.
pub open spec fn reach_step(q: QuestView, key: Seq<char>) -> QuestView {
    match q.objective {
        ObjectiveView::Reach { biome, reached } =>
            if q.state == QuestState::Active && !reached && lowercase(biome) == key {
                completed(QuestView { objective: ObjectiveView::Reach { biome, reached: true }, ..q })
            } else {
                q
            },
        _ => q,
    }
}

/// Marks the travel quests to the biome as reached.
pub fn track_reach(quests: &mut Vec<ActiveQuest>, biome_name: &str)
    ensures
        final(quests)@.len() == old(quests)@.len(),
        forall|j: int| 0 <= j < old(quests)@.len() ==> #[trigger] final(quests)@[j]@
            == reach_step(old(quests)@[j]@, lowercase(biome_name@)),
{
    let key = to_lower(biome_name);
    let ghost start = quests@;
    let mut j: usize = 0;
    while j < quests.len()
        invariant
            j <= quests@.len(),
            quests@.len() == start.len(),
            key@ == lowercase(biome_name@),
            forall|jj: int| 0 <= jj < j ==> #[trigger] quests@[jj]@ == reach_step(start[jj]@, key@),
            forall|jj: int| j <= jj < start.len() ==> #[trigger] quests@[jj] == start[jj],
        decreases quests.len() - j,
    {
        if quests[j].state == QuestState::Active {
            let hit = match &quests[j].objective {
                QuestObjective::Reach { biome, reached } => {
                    if !*reached {
                        let low = to_lower(biome.as_str());
                        if str_eq(low.as_str(), key.as_str()) { Some(biome.clone()) } else { None }
                    } else {
                        None
                    }
                },
                _ => None,
            };
            if let Some(b) = hit {
                quests[j].objective = QuestObjective::Reach { biome: b, reached: true };
                check_quest_completion(&mut quests[j]);
            }
        }
        j = j + 1;
    }
}


/// No two quests share an id.
pub open spec fn distinct_ids(qs: Seq<QuestView>) -> bool {
    forall|i: int, j: int| 0 <= i < j < qs.len() ==> qs[i].quest_id != qs[j].quest_id
}

/// A quest after one event of the kind, on its own: advanced by one and checked, or unchanged.
pub open spec fn counter_step(q: QuestView, kind: TrackKind, key: Seq<char>) -> QuestView {
    if advances(q, kind, key) {
        completed(QuestView {
            objective: with_count(q.objective, kind, (counted(q.objective, kind).unwrap().1 + 1) as u32),
            ..q
        })
    } else {
        q
    }
}

proof fn lemma_apply_keeps_id(q: QuestView, kind: TrackKind, ups: Seq<(Seq<char>, u32)>)
    ensures
        apply_updates(q, kind, ups).quest_id == q.quest_id,
    decreases ups.len(),
{
    if ups.len() > 0 {
        lemma_apply_keeps_id(q, kind, ups.drop_last());
    }
}

proof fn lemma_apply_absent(q: QuestView, kind: TrackKind, ups: Seq<(Seq<char>, u32)>)
    requires
        forall|k: int| 0 <= k < ups.len() ==> #[trigger] ups[k].0 != q.quest_id,
    ensures
        apply_updates(q, kind, ups) == q,
    decreases ups.len(),
{
    if ups.len() > 0 {
        let d = ups.drop_last();
        assert forall|k: int| 0 <= k < d.len() implies #[trigger] d[k].0 != q.quest_id by {
            assert(d[k] == ups[k]);
        }
        lemma_apply_absent(q, kind, d);
    }
}

proof fn lemma_update_ids(qs: Seq<QuestView>, kind: TrackKind, key: Seq<char>, x: Seq<char>)
    requires
        forall|i: int| 0 <= i < qs.len() ==> #[trigger] qs[i].quest_id != x,
    ensures
        forall|k: int| 0 <= k < track_updates(qs, kind, key).len()
            ==> #[trigger] track_updates(qs, kind, key)[k].0 != x,
    decreases qs.len(),
{
    if qs.len() > 0 {
        let p = qs.drop_last();
        assert forall|i: int| 0 <= i < p.len() implies #[trigger] p[i].quest_id != x by {
            assert(p[i] == qs[i]);
        }
        lemma_update_ids(p, kind, key, x);
        assert(qs.last() == qs[qs.len() - 1]);
        let u0 = track_updates(p, kind, key);
        let all = track_updates(qs, kind, key);
        assert forall|k: int| 0 <= k < all.len() implies #[trigger] all[k].0 != x by {
            if k < u0.len() {
                assert(all[k] == u0[k]);
            }
        }
    }
}

/// With distinct quest ids, an event advances each quest on its own: a quest that the event
/// concerns gets one more toward its count (never past the requirement) and is checked for
/// completion; every other quest is left as it was.
pub proof fn law_track_distinct(qs: Seq<QuestView>, kind: TrackKind, key: Seq<char>)
    requires
        distinct_ids(qs),
    ensures
        forall|j: int| 0 <= j < qs.len() ==> #[trigger] apply_updates(qs[j], kind, track_updates(qs, kind, key))
            == counter_step(qs[j], kind, key),
        forall|j: int| 0 <= j < qs.len() && (counted(qs[j].objective, kind) matches Some(c) && c.1 <= c.2)
            ==> (counted((#[trigger] counter_step(qs[j], kind, key)).objective, kind) matches Some(d) && d.1 <= d.2),
    decreases qs.len(),
{
    if qs.len() > 0 {
        let p = qs.drop_last();
        let last = qs.last();
        assert(distinct_ids(p)) by {
            assert forall|i: int, j: int| 0 <= i < j < p.len() implies p[i].quest_id != p[j].quest_id by {
                assert(p[i] == qs[i] && p[j] == qs[j]);
            }
        }
        law_track_distinct(p, kind, key);
        let u0 = track_updates(p, kind, key);
        assert forall|j: int| 0 <= j < qs.len() implies #[trigger] apply_updates(qs[j], kind, track_updates(qs, kind, key))
            == counter_step(qs[j], kind, key) by {
            if j < qs.len() - 1 {
                assert(p[j] == qs[j]);
                assert(apply_updates(qs[j], kind, u0) == counter_step(qs[j], kind, key));
                if advances(last, kind, key) {
                    let all = track_updates(qs, kind, key);
                    assert(all.drop_last() == u0);
                    lemma_apply_keeps_id(qs[j], kind, u0);
                    assert(qs[j].quest_id != last.quest_id);
                }
            } else {
                assert forall|i: int| 0 <= i < p.len() implies #[trigger] p[i].quest_id != last.quest_id by {
                    assert(p[i] == qs[i]);
                }
                lemma_update_ids(p, kind, key, last.quest_id);
                lemma_apply_absent(last, kind, u0);
                if advances(last, kind, key) {
                    let all = track_updates(qs, kind, key);
                    assert(all.drop_last() == u0);
                }
            }
        }
    }
}


/// A quest template: the objective kind and the tags that fill it in.
#[derive(Debug)]
pub struct QuestTemplate {
    pub id: String,
    /// Name with a `{target}`, `{resource}` or `{biome}` placeholder.
    pub name_pattern: String,
    pub description_pattern: String,
    /// "kill", "collect", "reach" or "kill_area".
    pub objective_type: String,
    pub target_tags: Vec<String>,
    pub reward_tags: Vec<String>,
    pub biome_tags: Vec<String>,
    pub required_count: u32,
    pub kill_count: u32,
}

impl Clone for QuestTemplate {
    fn clone(&self) -> (r: Self)
        ensures
            r.id@ == self.id@,
            r.name_pattern@ == self.name_pattern@,
            r.description_pattern@ == self.description_pattern@,
            r.objective_type@ == self.objective_type@,
            r.target_tags@ == self.target_tags@,
            r.reward_tags@ == self.reward_tags@,
            r.biome_tags@ == self.biome_tags@,
            r.required_count == self.required_count,
            r.kill_count == self.kill_count,
    {
        let target_tags = self.target_tags.clone();
        let reward_tags = self.reward_tags.clone();
        let biome_tags = self.biome_tags.clone();
        assert(target_tags@ =~= self.target_tags@);
        assert(reward_tags@ =~= self.reward_tags@);
        assert(biome_tags@ =~= self.biome_tags@);
        QuestTemplate {
            id: self.id.clone(),
            name_pattern: self.name_pattern.clone(),
            description_pattern: self.description_pattern.clone(),
            objective_type: self.objective_type.clone(),
            target_tags,
            reward_tags,
            biome_tags,
            required_count: self.required_count,
            kill_count: self.kill_count,
        }
    }
}

/// The loaded quest templates.
#[derive(Debug)]
pub struct QuestTemplates {
    pub templates: Vec<QuestTemplate>,
}

/// The phrase of the first tag, or `dflt` when there is none.
pub open spec fn first_phrase(tags: Seq<Seq<char>>, dflt: Seq<char>) -> Seq<char> {
    if tags.len() > 0 { tag_phrase(tags[0]) } else { dflt }
}

/// How a biome tag reads: without its "BIOME_" prefixes, underscores as spaces, lowercased.
pub open spec fn biome_phrase(t: Seq<char>) -> Seq<char> {
    lowercase(replace_seq(strip_prefixes(t, "BIOME_"@), "_"@, " "@))
}

/// The biome a template names: the phrase of its first biome tag, or "unknown".
pub open spec fn biome_of(tags: Seq<Seq<char>>) -> Seq<char> {
    if tags.len() > 0 { biome_phrase(tags[0]) } else { "unknown"@ }
}

fn first_tag_phrase(tags: &Vec<String>, dflt: &str) -> (r: String)
    ensures
        r@ == first_phrase(views(tags@), dflt@),
{
    if tags.len() > 0 { tag_display(tags[0].as_str()) } else { String::from_str(dflt) }
}

fn biome_name(tags: &Vec<String>) -> (r: String)
    ensures
        r@ == biome_of(views(tags@)),
{
    if tags.len() > 0 {
        proof { reveal_strlit("BIOME_"); reveal_strlit("_"); }
        let bare = trim_start_all(tags[0].as_str(), "BIOME_");
        let spaced = replace_all(bare.as_str(), "_", " ");
        to_lower(spaced.as_str())
    } else {
        String::from_str("unknown")
    }
}

/// Whether a tag set has every one of the ids.
pub open spec fn has_all(t: Tags, ids: Seq<TagId>) -> bool {
    forall|k: int| 0 <= k < ids.len() ==> #[trigger] t.contains(ids[k] as int)
}

fn has_all_ids(t: &Tags, ids: &Vec<TagId>) -> (r: bool)
    ensures
        r == has_all(*t, ids@),
{
    let mut k: usize = 0;
    while k < ids.len()
        invariant
            k <= ids@.len(),
            forall|j: int| 0 <= j < k ==> #[trigger] t.contains(ids@[j] as int),
        decreases ids.len() - k,
    {
        if !t.has(ids[k]) {
            return false;
        }
        k = k + 1;
    }
    true
}

/// Whether entity `i` is the first of the list to carry every one of the ids.
pub open spec fn first_holder_at(ents: Seq<(Tags, Option<String>)>, ids: Seq<TagId>, i: int) -> bool {
    0 <= i < ents.len() && has_all(ents[i].0, ids)
        && forall|j: int| 0 <= j < i ==> !#[trigger] has_all(ents[j].0, ids)
}

/// The name a kill quest hunts: the name of the first entity carrying every registered target
/// tag, or, for a nameless one, the phrase of the first target tag; none when no target tag is
/// registered or no entity carries them all.
pub open spec fn kill_target(t: QuestTemplate, ents: Seq<(Tags, Option<String>)>, reg: TagRegistry) -> Option<Seq<char>> {
    let ids = known_ids(views(t.target_tags@), reg);
    if ids.len() > 0 && exists|i: int| first_holder_at(ents, ids, i) {
        let i = choose|i: int| first_holder_at(ents, ids, i);
        Some(match ents[i].1 {
            Some(n) => n@,
            None => first_phrase(views(t.target_tags@), "creature"@),
        })
    } else {
        None
    }
}

/// Whether a quest from the template is already among the quests.
pub open spec fn template_taken(active: Seq<QuestView>, id: Seq<char>) -> bool {
    exists|i: int| 0 <= i < active.len() && #[trigger] active[i].template_id == id
}

/// The `n`-th generated quest from a template, with `value` put in for `placeholder`.
pub open spec fn new_quest(t: QuestTemplate, n: nat, placeholder: Seq<char>, value: Seq<char>, objective: ObjectiveView) -> QuestView {
    QuestView {
        quest_id: "quest_"@ + decimal(n),
        template_id: t.id@,
        name: replace_seq(t.name_pattern@, placeholder, value),
        description: replace_seq(t.description_pattern@, placeholder, value),
        objective,
        state: QuestState::Active,
        reward_tags: views(t.reward_tags@),
    }
}

/// The quest a template yields as the `n`-th generated one, if any: none when a quest from it is
/// already taken, for a kill quest without a target, or for an unknown objective kind.
pub open spec fn quest_for(t: QuestTemplate, n: nat, ents: Seq<(Tags, Option<String>)>, active: Seq<QuestView>, reg: TagRegistry) -> Option<QuestView> {
    let targets = views(t.target_tags@);
    if template_taken(active, t.id@) {
        None
    } else if t.objective_type@ == "kill"@ {
        match kill_target(t, ents, reg) {
            Some(name) => Some(new_quest(t, n, "{target}"@, name,
                ObjectiveView::Kill { target_name: name, killed: 0, required: t.required_count })),
            None => None,
        }
    } else if t.objective_type@ == "collect"@ {
        let resource = first_phrase(targets, "resources"@);
        let tag = if targets.len() > 0 { targets[0] } else { seq![] };
        Some(new_quest(t, n, "{resource}"@, resource,
            ObjectiveView::Collect { tag_name: replace_seq(tag, "_"@, " "@), collected: 0, required: t.required_count }))
    } else if t.objective_type@ == "reach"@ {
        let biome = biome_of(views(t.biome_tags@));
        Some(new_quest(t, n, "{biome}"@, biome, ObjectiveView::Reach { biome, reached: false }))
    } else if t.objective_type@ == "kill_area"@ {
        let biome = biome_of(views(t.biome_tags@));
        Some(new_quest(t, n, "{biome}"@, biome,
            ObjectiveView::KillInArea { biome, killed: 0, required: t.kill_count }))
    } else {
        None
    }
}

/// The quests generated from templates in order, numbered from 1.
pub open spec fn generated(ts: Seq<QuestTemplate>, ents: Seq<(Tags, Option<String>)>, active: Seq<QuestView>, reg: TagRegistry) -> Seq<QuestView>
    decreases ts.len(),
{
    if ts.len() == 0 {
        seq![]
    } else {
        let prev = generated(ts.drop_last(), ents, active, reg);
        match quest_for(ts.last(), prev.len() + 1, ents, active, reg) {
            Some(q) => prev.push(q),
            None => prev,
        }
    }
}

/// Generated quests never repeat a template the player already has a quest from; they start
/// active and are numbered quest_1, quest_2, ... in the order generated.
pub proof fn law_generated_fresh(ts: Seq<QuestTemplate>, ents: Seq<(Tags, Option<String>)>, active: Seq<QuestView>, reg: TagRegistry)
    ensures
        forall|k: int| 0 <= k < generated(ts, ents, active, reg).len() ==> {
            let q = #[trigger] generated(ts, ents, active, reg)[k];
            &&& !template_taken(active, q.template_id)
            &&& q.state == QuestState::Active
            &&& q.quest_id == "quest_"@ + decimal((k + 1) as nat)
        },
    decreases ts.len(),
{
    if ts.len() > 0 {
        law_generated_fresh(ts.drop_last(), ents, active, reg);
        let prev = generated(ts.drop_last(), ents, active, reg);
        assert forall|k: int| 0 <= k < generated(ts, ents, active, reg).len() implies {
            let q = #[trigger] generated(ts, ents, active, reg)[k];
            &&& !template_taken(active, q.template_id)
            &&& q.state == QuestState::Active
            &&& q.quest_id == "quest_"@ + decimal((k + 1) as nat)
        } by {
            if k < prev.len() {
                assert(generated(ts, ents, active, reg)[k] == prev[k]);
            }
        }
    }
}

/// For each generated quest, the position of the template it came from.
pub open spec fn generated_sources(ts: Seq<QuestTemplate>, ents: Seq<(Tags, Option<String>)>, active: Seq<QuestView>, reg: TagRegistry) -> Seq<int>
    decreases ts.len(),
{
    if ts.len() == 0 {
        seq![]
    } else {
        let prev = generated(ts.drop_last(), ents, active, reg);
        let src = generated_sources(ts.drop_last(), ents, active, reg);
        match quest_for(ts.last(), prev.len() + 1, ents, active, reg) {
            Some(q) => src.push(ts.len() - 1),
            None => src,
        }
    }
}

/// An objective on which no progress has been made.
pub open spec fn no_progress(o: ObjectiveView) -> bool {
    match o {
        ObjectiveView::Kill { killed, .. } => killed == 0,
        ObjectiveView::Collect { collected, .. } => collected == 0,
        ObjectiveView::Reach { reached, .. } => !reached,
        ObjectiveView::KillInArea { killed, .. } => killed == 0,
    }
}

/// The objective kinds quests are generated for.
pub open spec fn known_objective_kind(kind: Seq<char>) -> bool {
    kind == "kill"@ || kind == "collect"@ || kind == "reach"@ || kind == "kill_area"@
}

/// Generated quests follow the templates' order, at most one per template, and only from
/// templates of a known objective kind; each carries its template's id and reward tags and
/// starts with no progress.
pub proof fn law_generated_from_templates(ts: Seq<QuestTemplate>, ents: Seq<(Tags, Option<String>)>, active: Seq<QuestView>, reg: TagRegistry)
    ensures ({
        let gen = generated(ts, ents, active, reg);
        let src = generated_sources(ts, ents, active, reg);
        &&& src.len() == gen.len()
        &&& forall|k: int, m: int| 0 <= k < m < src.len() ==> #[trigger] src[k] < #[trigger] src[m]
        &&& forall|k: int| 0 <= k < gen.len() ==> {
            let q = #[trigger] gen[k];
            let t = ts[src[k]];
            &&& 0 <= src[k] < ts.len()
            &&& q.template_id == t.id@
            &&& q.reward_tags == views(t.reward_tags@)
            &&& known_objective_kind(t.objective_type@)
            &&& no_progress(q.objective)
            &&& q.state == QuestState::Active
        }
    }),
    decreases ts.len(),
{
    if ts.len() > 0 {
        let d = ts.drop_last();
        law_generated_from_templates(d, ents, active, reg);
        let prev = generated(d, ents, active, reg);
        let psrc = generated_sources(d, ents, active, reg);
        let gen = generated(ts, ents, active, reg);
        let src = generated_sources(ts, ents, active, reg);
        assert(src.len() == gen.len());
        assert forall|k: int, m: int| 0 <= k < m < src.len() implies #[trigger] src[k] < #[trigger] src[m] by {
            let pk = prev[k];
            if m < psrc.len() {
                assert(src[k] == psrc[k] && src[m] == psrc[m]);
            } else {
                assert(src[k] == psrc[k]);
                assert(src[m] == ts.len() - 1);
            }
        }
        assert forall|k: int| 0 <= k < gen.len() implies {
            let q = #[trigger] gen[k];
            let t = ts[src[k]];
            &&& 0 <= src[k] < ts.len()
            &&& q.template_id == t.id@
            &&& q.reward_tags == views(t.reward_tags@)
            &&& known_objective_kind(t.objective_type@)
            &&& no_progress(q.objective)
            &&& q.state == QuestState::Active
        } by {
            if k < prev.len() {
                assert(gen[k] == prev[k]);
                assert(src[k] == psrc[k]);
                assert(ts[psrc[k]] == d[psrc[k]]);
            }
        }
    }
}

fn kill_target_of(t: &QuestTemplate, ents: &Vec<(Tags, Option<String>)>, reg: &TagRegistry) -> (r: Option<String>)
    ensures
        match kill_target(*t, ents@, *reg) {
            Some(n) => r matches Some(x) && x@ == n,
            None => r is None,
        },
{
    let ids = known_tag_ids(&t.target_tags, reg);
    if ids.len() == 0 {
        return None;
    }
    let mut i: usize = 0;
    while i < ents.len()
        invariant
            i <= ents@.len(),
            ids@ == known_ids(views(t.target_tags@), *reg),
            ids@.len() > 0,
            forall|j: int| 0 <= j < i ==> !#[trigger] has_all(ents@[j].0, ids@),
        decreases ents.len() - i,
    {
        if has_all_ids(&ents[i].0, &ids) {
            proof {
                assert(first_holder_at(ents@, ids@, i as int));
                let c = choose|c: int| first_holder_at(ents@, known_ids(views(t.target_tags@), *reg), c);
                assert(c == i as int) by {
                    if c < i { assert(!has_all(ents@[c].0, ids@)); }
                    if c > i { assert(!has_all(ents@[i as int].0, ids@)); }
                }
            }
            let name = match &ents[i].1 {
                Some(n) => n.clone(),
                None => first_tag_phrase(&t.target_tags, "creature"),
            };
            return Some(name);
        }
        i = i + 1;
    }
    proof {
        assert forall|c: int| !first_holder_at(ents@, ids@, c) by {
            if 0 <= c < ents@.len() { assert(!has_all(ents@[c].0, ids@)); }
        }
    }
    None
}

fn template_in_use(active: &Vec<ActiveQuest>, id: &str) -> (r: bool)
    ensures
        r == template_taken(quest_views(active@), id@),
{
    let mut i: usize = 0;
    while i < active.len()
        invariant
            i <= active@.len(),
            forall|j: int| 0 <= j < i ==> #[trigger] quest_views(active@)[j].template_id != id@,
        decreases active.len() - i,
    {
        if str_eq(active[i].template_id.as_str(), id) {
            assert(quest_views(active@)[i as int].template_id == id@);
            return true;
        }
        i = i + 1;
    }
    false
}

fn make_quest(t: &QuestTemplate, n: usize, placeholder: &str, value: &str, objective: QuestObjective) -> (r: ActiveQuest)
    requires
        placeholder@.len() > 0,
    ensures
        r@ == new_quest(*t, n as nat, placeholder@, value@, objective@),
{
    let mut quest_id = String::from_str("quest_");
    let num = u64_text(n as u64);
    quest_id.append(num.as_str());
    let reward_tags = t.reward_tags.clone();
    assert(reward_tags@ =~= t.reward_tags@);
    ActiveQuest {
        quest_id,
        template_id: t.id.clone(),
        name: replace_all(t.name_pattern.as_str(), placeholder, value),
        description: replace_all(t.description_pattern.as_str(), placeholder, value),
        objective,
        state: QuestState::Active,
        reward_tags,
    }
}

/// The quest a template yields as the `n`-th generated one.
fn quest_from_template(
    t: &QuestTemplate,
    n: usize,
    ents: &Vec<(Tags, Option<String>)>,
    active: &Vec<ActiveQuest>,
    reg: &TagRegistry,
) -> (r: Option<ActiveQuest>)
    ensures
        match quest_for(*t, n as nat, ents@, quest_views(active@), *reg) {
            Some(q) => r matches Some(x) && x@ == q,
            None => r is None,
        },
{
    proof {
        reveal_strlit("{target}");
        reveal_strlit("{resource}");
        reveal_strlit("{biome}");
        reveal_strlit("_");
    }
    if template_in_use(active, t.id.as_str()) {
        return None;
    }
    let kind = t.objective_type.as_str();
    if str_eq(kind, "kill") {
        match kill_target_of(t, ents, reg) {
            Some(name) => {
                let obj = QuestObjective::Kill { target_name: name.clone(), killed: 0, required: t.required_count };
                Some(make_quest(t, n, "{target}", name.as_str(), obj))
            },
            None => None,
        }
    } else if str_eq(kind, "collect") {
        let resource = first_tag_phrase(&t.target_tags, "resources");
        let tag = if t.target_tags.len() > 0 { t.target_tags[0].clone() } else { String::new() };
        let obj = QuestObjective::Collect {
            tag_name: replace_all(tag.as_str(), "_", " "),
            collected: 0,
            required: t.required_count,
        };
        Some(make_quest(t, n, "{resource}", resource.as_str(), obj))
    } else if str_eq(kind, "reach") {
        let biome = biome_name(&t.biome_tags);
        let obj = QuestObjective::Reach { biome: biome.clone(), reached: false };
        Some(make_quest(t, n, "{biome}", biome.as_str(), obj))
    } else if str_eq(kind, "kill_area") {
        let biome = biome_name(&t.biome_tags);
        let obj = QuestObjective::KillInArea { biome: biome.clone(), killed: 0, required: t.kill_count };
        Some(make_quest(t, n, "{biome}", biome.as_str(), obj))
    } else {
        None
    }
}

/// Generates quests from templates against the world's entities (their tags and names, in
/// query order) and the quests already taken; ids run "quest_1", "quest_2", ...
pub fn generate_quests(
    templates: &Vec<QuestTemplate>,
    entities: &Vec<(Tags, Option<String>)>,
    active_quests: &Vec<ActiveQuest>,
    registry: &TagRegistry,
) -> (r: Vec<ActiveQuest>)
    ensures
        quest_views(r@) == generated(templates@, entities@, quest_views(active_quests@), *registry),
{
    let mut quests: Vec<ActiveQuest> = Vec::new();
    let mut i: usize = 0;
    while i < templates.len()
        invariant
            i <= templates@.len(),
            quests@.len() <= i,
            quest_views(quests@) == generated(templates@.subrange(0, i as int), entities@, quest_views(active_quests@), *registry),
        decreases templates.len() - i,
    {
        assert(templates@.subrange(0, i + 1).drop_last() =~= templates@.subrange(0, i as int));
        let n = quests.len() + 1;
        let q = quest_from_template(&templates[i], n, entities, active_quests, registry);
        if let Some(q) = q {
            quests.push(q);
            assert(quest_views(quests@) =~= quest_views(quests@.drop_last()).push(quests@.last()@));
        }
        i = i + 1;
    }
    assert(templates@.subrange(0, templates@.len() as int) =~= templates@);
    quests
}


/// A quest offered on the board.
#[derive(Debug)]
pub struct QuestBoardEntry {
    pub slot: usize,
    pub template_id: String,
    pub name: String,
    pub description: String,
    pub objective_type: String,
    pub target_info: String,
    pub reward_info: String,
}

/// A board entry as plain values.
pub struct BoardEntryView {
    pub slot: usize,
    pub template_id: Seq<char>,
    pub name: Seq<char>,
    pub description: Seq<char>,
    pub objective_type: Seq<char>,
    pub target_info: Seq<char>,
    pub reward_info: Seq<char>,
}

impl View for QuestBoardEntry {
    type V = BoardEntryView;

    open spec fn view(&self) -> BoardEntryView {
        BoardEntryView {
            slot: self.slot,
            template_id: self.template_id@,
            name: self.name@,
            description: self.description@,
            objective_type: self.objective_type@,
            target_info: self.target_info@,
            reward_info: self.reward_info@,
        }
    }
}

/// The views of board entries.
pub open spec fn entry_views(es: Seq<QuestBoardEntry>) -> Seq<BoardEntryView> {
    es.map_values(|e: QuestBoardEntry| e@)
}

/// The board's offers and its refresh clock.
#[derive(Debug)]
pub struct QuestBoardState {
    pub available_quests: Vec<QuestBoardEntry>,
    pub turn_count_since_refresh: u32,
    pub refresh_interval: u32,
}

impl Default for QuestBoardState {
    /// No offers, a fresh clock, and a refresh every 20 turns.
    fn default() -> (r: Self)
        ensures
            r.available_quests@.len() == 0,
            r.turn_count_since_refresh == 0,
            r.refresh_interval == 20,
    {
        QuestBoardState { available_quests: Vec::new(), turn_count_since_refresh: 0, refresh_interval: 20 }
    }
}

/// A board entry for a template in a slot, with `value` put in for `placeholder`.
pub open spec fn board_view(t: QuestTemplate, slot: usize, placeholder: Seq<char>, value: Seq<char>, info: Seq<char>) -> BoardEntryView {
    BoardEntryView {
        slot,
        template_id: t.id@,
        name: replace_seq(t.name_pattern@, placeholder, value),
        description: replace_seq(t.description_pattern@, placeholder, value),
        objective_type: t.objective_type@,
        target_info: info,
        reward_info: first_phrase(views(t.reward_tags@), "unknown"@),
    }
}

/// The board entry a template makes in a slot; none for an unknown objective kind.
pub open spec fn board_entry(t: QuestTemplate, slot: usize) -> Option<BoardEntryView> {
    let targets = views(t.target_tags@);
    let biome = biome_of(views(t.biome_tags@));
    if t.objective_type@ == "kill"@ {
        let target = first_phrase(targets, "creature"@);
        Some(board_view(t, slot, "{target}"@, target, "Kill "@ + target))
    } else if t.objective_type@ == "collect"@ {
        let resource = first_phrase(targets, "resources"@);
        Some(board_view(t, slot, "{resource}"@, resource,
            "Gather "@ + resource + " (x"@ + decimal(t.required_count as nat) + ")"@))
    } else if t.objective_type@ == "reach"@ {
        Some(board_view(t, slot, "{biome}"@, biome, "Reach "@ + biome))
    } else if t.objective_type@ == "kill_area"@ {
        Some(board_view(t, slot, "{biome}"@, biome, "Slay "@ + decimal(t.kill_count as nat) + " in "@ + biome))
    } else {
        None
    }
}

fn make_entry(t: &QuestTemplate, slot: usize, placeholder: &str, value: &str, info: String) -> (r: QuestBoardEntry)
    requires
        placeholder@.len() > 0,
    ensures
        r@ == board_view(*t, slot, placeholder@, value@, info@),
{
    QuestBoardEntry {
        slot,
        template_id: t.id.clone(),
        name: replace_all(t.name_pattern.as_str(), placeholder, value),
        description: replace_all(t.description_pattern.as_str(), placeholder, value),
        objective_type: t.objective_type.clone(),
        target_info: info,
        reward_info: first_tag_phrase(&t.reward_tags, "unknown"),
    }
}

/// The board entry a template makes in a slot.
fn board_entry_for(t: &QuestTemplate, slot: usize) -> (r: Option<QuestBoardEntry>)
    ensures
        match board_entry(*t, slot) {
            Some(e) => r matches Some(x) && x@ == e,
            None => r is None,
        },
{
    proof {
        reveal_strlit("{target}");
        reveal_strlit("{resource}");
        reveal_strlit("{biome}");
    }
    let kind = t.objective_type.as_str();
    if str_eq(kind, "kill") {
        let target = first_tag_phrase(&t.target_tags, "creature");
        let mut info = String::from_str("Kill ");
        info.append(target.as_str());
        Some(make_entry(t, slot, "{target}", target.as_str(), info))
    } else if str_eq(kind, "collect") {
        let resource = first_tag_phrase(&t.target_tags, "resources");
        let mut info = String::from_str("Gather ");
        info.append(resource.as_str());
        info.append(" (x");
        let n = u32_text(t.required_count);
        info.append(n.as_str());
        info.append(")");
        Some(make_entry(t, slot, "{resource}", resource.as_str(), info))
    } else if str_eq(kind, "reach") {
        let biome = biome_name(&t.biome_tags);
        let mut info = String::from_str("Reach ");
        info.append(biome.as_str());
        Some(make_entry(t, slot, "{biome}", biome.as_str(), info))
    } else if str_eq(kind, "kill_area") {
        let biome = biome_name(&t.biome_tags);
        let mut info = String::from_str("Slay ");
        let n = u32_text(t.kill_count);
        info.append(n.as_str());
        info.append(" in ");
        info.append(biome.as_str());
        Some(make_entry(t, slot, "{biome}", biome.as_str(), info))
    } else {
        None
    }
}

/// The indices of the templates from which no quest is taken, in order.
pub open spec fn open_templates(ts: Seq<QuestTemplate>, active: Seq<QuestView>) -> Seq<usize>
    decreases ts.len(),
{
    if ts.len() == 0 {
        seq![]
    } else {
        let prev = open_templates(ts.drop_last(), active);
        if template_taken(active, ts.last().id@) { prev } else { prev.push((ts.len() - 1) as usize) }
    }
}

proof fn lemma_open_templates_bound(ts: Seq<QuestTemplate>, active: Seq<QuestView>)
    ensures
        open_templates(ts, active).len() <= ts.len(),
        forall|k: int| 0 <= k < open_templates(ts, active).len() ==> #[trigger] open_templates(ts, active)[k] < ts.len(),
    decreases ts.len(),
{
    if ts.len() > 0 {
        lemma_open_templates_bound(ts.drop_last(), active);
    }
}

/// The entries made by the picks: slot `k` shows the open template chosen by `picks[k]`;
/// a template of unknown kind leaves its slot out.
pub open spec fn board_from_picks(ts: Seq<QuestTemplate>, open: Seq<usize>, picks: Seq<usize>) -> Seq<BoardEntryView>
    decreases picks.len(),
{
    if picks.len() == 0 {
        seq![]
    } else {
        let prev = board_from_picks(ts, open, picks.drop_last());
        match board_entry(ts[open[picks.last() as int] as int], (picks.len() - 1) as usize) {
            Some(e) => prev.push(e),
            None => prev,
        }
    }
}

fn open_template_indices(templates: &Vec<QuestTemplate>, active: &Vec<ActiveQuest>) -> (r: Vec<usize>)
    ensures
        r@ == open_templates(templates@, quest_views(active@)),
{
    let mut r: Vec<usize> = Vec::new();
    let mut i: usize = 0;
    while i < templates.len()
        invariant
            i <= templates@.len(),
            r@ == open_templates(templates@.subrange(0, i as int), quest_views(active@)),
        decreases templates.len() - i,
    {
        assert(templates@.subrange(0, i + 1).drop_last() =~= templates@.subrange(0, i as int));
        if !template_in_use(active, templates[i].id.as_str()) {
            r.push(i);
        }
        i = i + 1;
    }
    assert(templates@.subrange(0, templates@.len() as int) =~= templates@);
    r
}

/// Fills the board's slots from given picks among the open templates.
pub fn board_quests_from_picks(templates: &Vec<QuestTemplate>, open: &Vec<usize>, picks: &Vec<usize>) -> (r: Vec<QuestBoardEntry>)
    requires
        forall|k: int| 0 <= k < open@.len() ==> #[trigger] open@[k] < templates@.len(),
        forall|k: int| 0 <= k < picks@.len() ==> #[trigger] picks@[k] < open@.len(),
    ensures
        entry_views(r@) == board_from_picks(templates@, open@, picks@),
{
    let mut r: Vec<QuestBoardEntry> = Vec::new();
    let mut slot: usize = 0;
    while slot < picks.len()
        invariant
            slot <= picks@.len(),
            forall|k: int| 0 <= k < open@.len() ==> #[trigger] open@[k] < templates@.len(),
            forall|k: int| 0 <= k < picks@.len() ==> #[trigger] picks@[k] < open@.len(),
            entry_views(r@) == board_from_picks(templates@, open@, picks@.subrange(0, slot as int)),
        decreases picks.len() - slot,
    {
        assert(picks@.subrange(0, slot + 1).drop_last() =~= picks@.subrange(0, slot as int));
        let p = picks[slot];
        let t = open[p];
        if let Some(e) = board_entry_for(&templates[t], slot) {
            r.push(e);
            assert(entry_views(r@) =~= entry_views(r@.drop_last()).push(r@.last()@));
        }
        slot = slot + 1;
    }
    assert(picks@.subrange(0, picks@.len() as int) =~= picks@);
    r
}

/// Fills `count` board slots, each with an open template chosen at random (the generator is
/// seeded from the thread generator); with no open template the board stays empty.
pub fn generate_board_quests(templates: &Vec<QuestTemplate>, active_quests: &Vec<ActiveQuest>, count: usize) -> (r: Vec<QuestBoardEntry>)
    ensures
        open_templates(templates@, quest_views(active_quests@)).len() == 0 ==> r@.len() == 0,
        open_templates(templates@, quest_views(active_quests@)).len() > 0 ==> exists|picks: Seq<usize>| picks.len() == count
            && (forall|k: int| 0 <= k < count ==> #[trigger] picks[k] < open_templates(templates@, quest_views(active_quests@)).len())
            && entry_views(r@) == board_from_picks(templates@, open_templates(templates@, quest_views(active_quests@)), picks),
{
    let open = open_template_indices(templates, active_quests);
    proof { lemma_open_templates_bound(templates@, quest_views(active_quests@)); }
    if open.len() == 0 {
        return Vec::new();
    }
    let seed = random_seed();
    let mut rng = seeded_rng(seed);
    let mut picks: Vec<usize> = Vec::new();
    let mut slot: usize = 0;
    while slot < count
        invariant
            slot <= count,
            open@.len() > 0,
            picks@.len() == slot,
            forall|k: int| 0 <= k < slot ==> #[trigger] picks@[k] < open@.len(),
        decreases count - slot,
    {
        let p = std_range_usize(&mut rng, 0, open.len());
        picks.push(p);
        slot = slot + 1;
    }
    let r = board_quests_from_picks(templates, &open, &picks);
    assert(picks@.len() == count);
    r
}



/// The ids of templates, in order.
pub open spec fn template_ids(ts: Seq<QuestTemplate>) -> Seq<Seq<char>> {
    ts.map_values(|t: QuestTemplate| t.id@)
}

/// The quest that accepting a board entry yields: the first template with the entry's
/// template id, generated as the first quest; none when no template has that id or the
/// template yields no quest.
pub open spec fn accepted_quest(ts: Seq<QuestTemplate>, template_id: Seq<char>, ents: Seq<(Tags, Option<String>)>, active: Seq<QuestView>, reg: TagRegistry) -> Option<QuestView> {
    match first_index(template_ids(ts), template_id) {
        Some(i) => quest_for(ts[i], 1, ents, active, reg),
        None => None,
    }
}

/// Takes up a quest offered on the board.
pub fn accept_board_quest(
    templates: &Vec<QuestTemplate>,
    entry: &QuestBoardEntry,
    entities: &Vec<(Tags, Option<String>)>,
    active_quests: &Vec<ActiveQuest>,
    registry: &TagRegistry,
) -> (r: Option<ActiveQuest>)
    ensures
        match accepted_quest(templates@, entry.template_id@, entities@, quest_views(active_quests@), *registry) {
            Some(q) => r matches Some(x) && x@ == q,
            None => r is None,
        },
{
    let ghost ids = template_ids(templates@);
    let mut i: usize = 0;
    while i < templates.len()
        invariant
            i <= templates@.len(),
            ids == template_ids(templates@),
            first_index(ids.subrange(0, i as int), entry.template_id@) is None,
        decreases templates.len() - i,
    {
        assert(ids.subrange(0, i + 1).drop_last() =~= ids.subrange(0, i as int));
        if str_eq(templates[i].template_id_str(), entry.template_id.as_str()) {
            proof {
                assert(ids.subrange(0, i + 1).last() == entry.template_id@);
                lemma_prefix_first(ids, entry.template_id@, i + 1);
            }
            return quest_from_template(&templates[i], 1, entities, active_quests, registry);
        }
        i = i + 1;
    }
    assert(ids.subrange(0, templates@.len() as int) =~= ids);
    None
}

impl QuestTemplate {
    /// The template's id.
    fn template_id_str(&self) -> (r: &str)
        ensures
            r@ == self.id@,
    {
        self.id.as_str()
    }
}

/// Advances the board's clock by a turn; when the refresh interval has passed, the board is
/// filled anew with four slots and the clock restarts.
pub fn check_quest_board_refresh(state: &mut QuestBoardState, templates: &Vec<QuestTemplate>, active_quests: &Vec<ActiveQuest>)
    ensures
        final(state).refresh_interval == old(state).refresh_interval,
        old(state).turn_count_since_refresh < old(state).refresh_interval ==> {
            &&& final(state).turn_count_since_refresh == old(state).turn_count_since_refresh + 1
            &&& final(state).available_quests@ == old(state).available_quests@
        },
        old(state).turn_count_since_refresh >= old(state).refresh_interval ==> {
            let open = open_templates(templates@, quest_views(active_quests@));
            &&& final(state).turn_count_since_refresh == 0
            &&& open.len() == 0 ==> final(state).available_quests@.len() == 0
            &&& open.len() > 0 ==> exists|picks: Seq<usize>| picks.len() == 4
                && (forall|k: int| 0 <= k < 4 ==> #[trigger] picks[k] < open.len())
                && entry_views(final(state).available_quests@) == board_from_picks(templates@, open, picks)
        },
{
    if state.turn_count_since_refresh < state.refresh_interval {
        state.turn_count_since_refresh = state.turn_count_since_refresh + 1;
        return;
    }
    let fresh = generate_board_quests(templates, active_quests, 4);
    state.available_quests = fresh;
    state.turn_count_since_refresh = 0;
}

/// Whether a board stands on the player's tile or one of the eight around it.
pub open spec fn board_adjacent(player: Position, board: Position) -> bool {
    let dx = (board.x as i32) - (player.x as i32);
    let dy = (board.y as i32) - (player.y as i32);
    -1 <= dx <= 1 && -1 <= dy <= 1
}

/// Whether the player stands next to (or on) a quest board; false without a player.
pub fn check_player_near_quest_board(player: Option<Position>, boards: &Vec<Position>) -> (r: bool)
    requires
        player matches Some(p) ==> forall|k: int| 0 <= k < boards@.len()
            && (forall|j: int| 0 <= j < k ==> !board_adjacent(p, #[trigger] boards@[j])) ==> {
            let b = #[trigger] boards@[k];
            &&& i32::MIN <= (b.x as i32) - (p.x as i32) <= i32::MAX
            &&& i32::MIN <= (b.y as i32) - (p.y as i32) <= i32::MAX
        },
    ensures
        r == (player matches Some(p) && exists|k: int| 0 <= k < boards@.len() && board_adjacent(p, #[trigger] boards@[k])),
{
    let p = match player {
        Some(p) => p,
        None => return false,
    };
    let mut k: usize = 0;
    while k < boards.len()
        invariant
            k <= boards@.len(),
            player == Some(p),
            forall|i: int| 0 <= i < boards@.len()
                && (forall|j: int| 0 <= j < i ==> !board_adjacent(p, #[trigger] boards@[j])) ==> {
                let b = #[trigger] boards@[i];
                &&& i32::MIN <= (b.x as i32) - (p.x as i32) <= i32::MAX
                &&& i32::MIN <= (b.y as i32) - (p.y as i32) <= i32::MAX
            },
            forall|j: int| 0 <= j < k ==> !board_adjacent(p, #[trigger] boards@[j]),
        decreases boards.len() - k,
    {
        let b = boards[k];
        assert(i32::MIN <= (boards@[k as int].x as i32) - (p.x as i32) <= i32::MAX);
        let dx = (b.x as i32) - (p.x as i32);
        let dy = (b.y as i32) - (p.y as i32);
        if -1 <= dx && dx <= 1 && -1 <= dy && dy <= 1 {
            assert(board_adjacent(p, boards@[k as int]));
            return true;
        }
        k = k + 1;
    }
    false
}

/// A reward item handed out for a quest.
#[derive(Debug)]
pub struct RewardItem {
    /// The entity id the item gets.
    pub id: EntityId,
    pub name: String,
    pub glyph: Glyph,
    pub tags: Tags,
}

/// The name of a reward: the phrase of its first tag, or "reward item".
pub open spec fn reward_name(reward_tags: Seq<Seq<char>>) -> Seq<char> {
    first_phrase(reward_tags, "reward item"@)
}

/// Makes the reward for a quest's reward tags: one item named after the first tag, drawn as a
/// gold '*', carrying every registered reward tag, under the id `item_id`; it goes into the
/// player's inventory when there is a player. No item when no reward tag is registered.
pub fn turn_in_quest(reward_tags: &Vec<String>, registry: &TagRegistry, item_id: EntityId, player: &mut Option<Inventory>) -> (r: Vec<RewardItem>)
    ensures
        reward_given(reward_tags@, *registry, item_id, *old(player), *final(player), r@),
{
    let ids = known_tag_ids(reward_tags, registry);
    let mut r: Vec<RewardItem> = Vec::new();
    if ids.len() == 0 {
        return r;
    }
    let tags = tags_from_names(reward_tags, registry);
    let name = first_tag_phrase(reward_tags, "reward item");
    r.push(RewardItem { id: item_id, name, glyph: Glyph { char: '*', color: (255, 215, 0) }, tags });
    match player {
        Some(inv) => {
            inv.items.push(item_id);
        },
        None => {},
    }
    r
}

/// Checks quests for failure. The quest model has no failure conditions yet, so nothing changes.
pub fn check_quest_failures(quests: &mut Vec<ActiveQuest>, faction_standings: Option<&Vec<(String, i32)>>)
    ensures
        final(quests)@ == old(quests)@,
{
}


/// What handing out a reward does, as `turn_in_quest` states it.
pub open spec fn reward_given(reward_tags: Seq<String>, reg: TagRegistry, item_id: EntityId, before: Option<Inventory>, after: Option<Inventory>, r: Seq<RewardItem>) -> bool {
    &&& known_ids(views(reward_tags), reg).len() == 0 ==> r.len() == 0 && after == before
    &&& known_ids(views(reward_tags), reg).len() > 0 ==> {
        &&& r.len() == 1
        &&& r[0].id == item_id
        &&& r[0].name@ == reward_name(views(reward_tags))
        &&& r[0].glyph == Glyph { char: '*', color: (255u8, 215u8, 0u8) }
        &&& r[0].tags.present@ == presence_of(reward_tags, reg)
        &&& after.is_some() == before.is_some()
        &&& before.is_some() ==> after.unwrap().items@ == before.unwrap().items@.push(item_id)
            && after.unwrap().capacity == before.unwrap().capacity
    }
}

/// The ids of quests, in order.
pub open spec fn quest_ids(qs: Seq<QuestView>) -> Seq<Seq<char>> {
    qs.map_values(|q: QuestView| q.quest_id)
}

/// Which quest turning in the quest at `cursor` marks as turned in: the quest at the cursor
/// must be active or complete and some quest with its id complete; the first quest with that
/// id is the one marked. None when nothing is turned in.
pub open spec fn turn_in_index(qs: Seq<QuestView>, cursor: int) -> Option<int> {
    if 0 <= cursor < qs.len()
        && (qs[cursor].state == QuestState::Complete || qs[cursor].state == QuestState::Active)
        && exists|j: int| 0 <= j < qs.len() && #[trigger] qs[j].quest_id == qs[cursor].quest_id
            && qs[j].state == QuestState::Complete
    {
        first_index(quest_ids(qs), qs[cursor].quest_id)
    } else {
        None
    }
}

/// Whether some complete quest has the id.
fn complete_with_id(quests: &Vec<ActiveQuest>, id: &str) -> (r: bool)
    ensures
        r == exists|j: int| 0 <= j < quests@.len() && #[trigger] quest_views(quests@)[j].quest_id == id@
            && quest_views(quests@)[j].state == QuestState::Complete,
{
    let ghost qv = quest_views(quests@);
    let mut j: usize = 0;
    while j < quests.len()
        invariant
            j <= quests@.len(),
            qv == quest_views(quests@),
            forall|i: int| 0 <= i < j ==> !(#[trigger] qv[i].quest_id == id@ && qv[i].state == QuestState::Complete),
        decreases quests.len() - j,
    {
        if str_eq(quests[j].quest_id.as_str(), id) && quests[j].state == QuestState::Complete {
            assert(qv[j as int].quest_id == id@);
            return true;
        }
        j = j + 1;
    }
    false
}

/// Turns in the quest at `cursor` in the journal when it is complete: the quest is marked as
/// turned in, its reward handed out, a completion event raised and its name logged.
pub fn handle_quest_turn_in(
    quests: &mut Vec<ActiveQuest>,
    cursor: usize,
    registry: &TagRegistry,
    item_id: EntityId,
    player: &mut Option<Inventory>,
    bus: &mut EventBus,
    log: &mut QuestLog,
) -> (r: Vec<RewardItem>)
    ensures
        final(quests)@.len() == old(quests)@.len(),
        match turn_in_index(quest_views(old(quests)@), cursor as int) {
            None => {
                &&& quest_views(final(quests)@) == quest_views(old(quests)@)
                &&& r@.len() == 0
                &&& *final(player) == *old(player)
                &&& final(bus).events@ == old(bus).events@
                &&& final(log).turned_in@ == old(log).turned_in@
            },
            Some(f) => {
                let q = old(quests)@[cursor as int];
                &&& quest_views(final(quests)@) == quest_views(old(quests)@).update(f,
                        QuestView { state: QuestState::TurnedIn, ..old(quests)@[f]@ })
                &&& reward_given(q.reward_tags@, *registry, item_id, *old(player), *final(player), r@)
                &&& final(bus).events@ == old(bus).events@.push(GameEvent::QuestCompleted { name: q.name })
                &&& final(log).turned_in@ == old(log).turned_in@.push(q.name)
            },
        },
{
    let ghost qv = quest_views(quests@);
    let nothing: Vec<RewardItem> = Vec::new();
    if cursor >= quests.len() {
        return nothing;
    }
    let st = quests[cursor].state;
    if st != QuestState::Complete && st != QuestState::Active {
        return nothing;
    }
    let id = quests[cursor].quest_id.clone();
    if !complete_with_id(quests, id.as_str()) {
        return nothing;
    }
    let name = quests[cursor].name.clone();
    let r = turn_in_quest(&quests[cursor].reward_tags, registry, item_id, player);
    let ghost ids = quest_ids(qv);
    let mut f: usize = 0;
    while f < quests.len()
        invariant
            f <= quests@.len(),
            qv == quest_views(quests@),
            quests@ == old(quests)@,
            ids == quest_ids(qv),
            id@ == qv[cursor as int].quest_id,
            cursor < quests@.len(),
            qv[cursor as int].state == QuestState::Complete || qv[cursor as int].state == QuestState::Active,
            exists|j: int| 0 <= j < qv.len() && #[trigger] qv[j].quest_id == id@ && qv[j].state == QuestState::Complete,
            reward_given(old(quests)@[cursor as int].reward_tags@, *registry, item_id, *old(player), *player, r@),
            bus.events@ == old(bus).events@,
            log.turned_in@ == old(log).turned_in@,
            name == old(quests)@[cursor as int].name,
            first_index(ids.subrange(0, f as int), id@) is None,
        decreases quests.len() - f,
    {
        assert(ids.subrange(0, f + 1).drop_last() =~= ids.subrange(0, f as int));
        if str_eq(quests[f].quest_id.as_str(), id.as_str()) {
            proof {
                assert(ids.subrange(0, f + 1).last() == id@);
                lemma_prefix_first(ids, id@, f + 1);
            }
            quests[f].state = QuestState::TurnedIn;
            assert(quest_views(quests@) =~= qv.update(f as int, QuestView { state: QuestState::TurnedIn, ..qv[f as int] }));
            bus.push(GameEvent::QuestCompleted { name: name.clone() });
            log.record_turn_in(name);
            return r;
        }
        f = f + 1;
    }
    proof {
        assert(ids.subrange(0, quests@.len() as int) =~= ids);
        lemma_first_index(ids, id@);
        assert(ids[cursor as int] == id@);
    }
    r
}


/// An objective is met exactly when its count has reached its requirement (for a reach
/// objective, when the biome was reached): a count equal to the requirement is enough.
pub proof fn law_objective_met_at_requirement(o: ObjectiveView)
    ensures
        match o {
            ObjectiveView::Kill { killed, required, .. } => objective_done(o) <==> killed as int >= required as int,
            ObjectiveView::Collect { collected, required, .. } => objective_done(o) <==> collected as int >= required as int,
            ObjectiveView::Reach { reached, .. } => objective_done(o) <==> reached,
            ObjectiveView::KillInArea { killed, required, .. } => objective_done(o) <==> killed as int >= required as int,
        },
{
}

/// An active quest whose count has reached its requirement is marked complete by the
/// completion check, and keeps its objective.
pub proof fn law_full_count_completes(q: QuestView, n: u32)
    requires
        q.state == QuestState::Active,
        match q.objective {
            ObjectiveView::Kill { killed, required, .. } => killed == n && required == n,
            ObjectiveView::Collect { collected, required, .. } => collected == n && required == n,
            ObjectiveView::KillInArea { killed, required, .. } => killed == n && required == n,
            ObjectiveView::Reach { reached, .. } => reached,
        },
    ensures
        completed(q).state == QuestState::Complete,
        completed(q).objective == q.objective,
{
}

/// Picking up the last item an active collect quest needs raises its count to the
/// requirement and completes it.
pub proof fn law_collect_last_item_completes(q: QuestView, tag: Seq<char>, c: u32, r: u32)
    requires
        q.state == QuestState::Active,
        q.objective == (ObjectiveView::Collect { tag_name: tag, collected: c, required: r }),
        c + 1 == r,
    ensures ({
        let t = apply_updates(q, TrackKind::Collect, track_updates(seq![q], TrackKind::Collect, collect_key(tag)));
        &&& t.state == QuestState::Complete
        &&& t.objective == (ObjectiveView::Collect { tag_name: tag, collected: r, required: r })
        &&& t.quest_id == q.quest_id
    }),
{
    let qs = seq![q];
    assert(qs.drop_last() =~= Seq::<QuestView>::empty());
    assert(qs.last() == q);
    let key = collect_key(tag);
    assert(track_updates(qs.drop_last(), TrackKind::Collect, key) =~= Seq::<(Seq<char>, u32)>::empty());
    assert(advances(q, TrackKind::Collect, key));
    let ups = track_updates(qs, TrackKind::Collect, key);
    assert(ups =~= seq![(q.quest_id, r)]);
    assert(ups.drop_last() =~= Seq::<(Seq<char>, u32)>::empty());
    assert(apply_updates(q, TrackKind::Collect, ups.drop_last()) == q);
}

} // verus!
