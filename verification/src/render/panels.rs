//! What the heads-up display and the overlay panels show, as text: the renderer lays these
//! lines out and colors them.
use vstd::prelude::*;
use vstd::string::*;
use crate::components::{Health, Position};
use crate::crafting::RecipeAvailability;
use crate::examine::ExamineMode;
use crate::stats::PlayerStats;
use crate::quest::{ActiveQuest, QuestState, progress_of};
use crate::tags::{TagId, TagRegistry, Tags, present_ids, lemma_present_ids};
use crate::render::glyphs::{GlyphRegistry, char_color, named_glyph, resolved_char};
use crate::text::{push_char, chars_of, decimal, join, join_seq, matches_at, occurs_at, replace_all, replace_seq, split_words, string_of,
    u32_text, utf8_len, utf8_length, views, words};

verus! {

/// How worrying the player's health looks on the HUD.
#[derive(Debug, Clone, Copy, PartialEq, Eq, Structural)]
pub enum HpBand {
    /// Below a quarter of the maximum.
    Critical,
    /// Below half of the maximum.
    Wounded,
    Healthy,
}

/// The band a health value falls in.
pub open spec fn hp_band_of(current: int, max: int) -> HpBand {
    if current < max / 4 {
        HpBand::Critical
    } else if current < max / 2 {
        HpBand::Wounded
    } else {
        HpBand::Healthy
    }
}

/// The band of the player's health.
pub fn hp_band(hp: Health) -> (r: HpBand)
    ensures
        r == hp_band_of(hp.current as int, hp.max as int),
{
    if hp.current < hp.max / 4 {
        HpBand::Critical
    } else if hp.current < hp.max / 2 {
        HpBand::Wounded
    } else {
        HpBand::Healthy
    }
}

/// The HUD's health text, " HP: current/max ".
pub fn hud_hp_text(hp: Health) -> (r: String)
    ensures
        r@ == " HP: "@ + decimal(hp.current as nat) + "/"@ + decimal(hp.max as nat) + " "@,
{
    let mut s = String::from_str(" HP: ");
    let c = u32_text(hp.current);
    s.append(c.as_str());
    s.append("/");
    let m = u32_text(hp.max);
    s.append(m.as_str());
    s.append(" ");
    s
}

/// The HUD's position text, " (x, y) ".
pub fn hud_position_text(pos: Position) -> (r: String)
    ensures
        r@ == " ("@ + decimal(pos.x as nat) + ", "@ + decimal(pos.y as nat) + ") "@,
{
    let mut s = String::from_str(" (");
    let x = u32_text(pos.x);
    s.append(x.as_str());
    s.append(", ");
    let y = u32_text(pos.y);
    s.append(y.as_str());
    s.append(") ");
    s
}

/// An equipment slot on the HUD: " label:" and the item's name, or "-" when the slot holds
/// nothing named.
pub fn hud_slot_text(label: &str, name: Option<&String>) -> (r: String)
    ensures
        r@ == " "@ + label@ + ":"@ + match name { Some(n) => n@, None => "-"@ },
{
    let mut s = String::from_str(" ");
    s.append(label);
    s.append(":");
    match name {
        Some(n) => s.append(n.as_str()),
        None => s.append("-"),
    }
    s
}

/// Whether a quest is listed for the player: it is active or complete (not yet turned in
/// and not failed).
pub open spec fn listed(state: QuestState) -> bool {
    state == QuestState::Active || state == QuestState::Complete
}

/// The quest the HUD follows: the first listed one.
pub fn hud_quest_index(quests: &Vec<ActiveQuest>) -> (r: Option<usize>)
    ensures
        r matches Some(i) ==> i < quests@.len() && listed(quests@[i as int].state)
            && forall|j: int| 0 <= j < i ==> !listed(#[trigger] quests@[j].state),
        r is None ==> forall|j: int| 0 <= j < quests@.len() ==> !listed(#[trigger] quests@[j].state),
{
    let mut i: usize = 0;
    while i < quests.len()
        invariant
            i <= quests@.len(),
            forall|j: int| 0 <= j < i ==> !listed(#[trigger] quests@[j].state),
        decreases quests.len() - i,
    {
        let st = quests[i].state;
        if st == QuestState::Active || st == QuestState::Complete {
            return Some(i);
        }
        i = i + 1;
    }
    None
}

/// The HUD's quest text, " name [progress]".
pub fn hud_quest_text(quest: &ActiveQuest) -> (r: String)
    ensures
        r@ == " "@ + quest.name@ + " ["@ + progress_of(quest.objective@) + "]"@,
{
    let mut s = String::from_str(" ");
    s.append(quest.name.as_str());
    s.append(" [");
    let p = quest.objective.progress_text();
    s.append(p.as_str());
    s.append("]");
    s
}

/// The tile the examine panel describes: the examine cursor while examining, else the
/// player's tile; none when neither is known.
pub fn examine_focus(mode: Option<&ExamineMode>, player: Option<Position>) -> (r: Option<(u32, u32)>)
    ensures
        r == match mode {
            Some(m) if m.active => Some((m.cursor.x, m.cursor.y)),
            _ => match player {
                Some(p) => Some((p.x, p.y)),
                None => None,
            },
        },
{
    match mode {
        Some(m) if m.active => Some((m.cursor.x, m.cursor.y)),
        _ => match player {
            Some(p) => Some((p.x, p.y)),
            None => None,
        },
    }
}

/// The role of a line of the examine panel, which picks its color.
#[derive(Debug, Clone, Copy, PartialEq, Eq, Structural)]
pub enum ExamineLineKind {
    Cursor,
    Biome,
    TileColor,
    GlyphInfo,
    Blank,
    PlayerGlyph,
    PlayerPosition,
    PlayerHealth,
    CloseHint,
}

/// " (a, b)"-style pair text: "(" a ", " b ")".
pub open spec fn pair_text(a: nat, b: nat) -> Seq<char> {
    "("@ + decimal(a) + ", "@ + decimal(b) + ")"@
}

/// The examine panel's lines about the tile: its biome and color, when a tile is there.
pub open spec fn examine_tile_part(tile: Option<(Seq<char>, (u8, u8, u8))>) -> Seq<(ExamineLineKind, Seq<char>)> {
    match tile {
        Some((biome, (r, g, b))) => seq![
            (ExamineLineKind::Biome, " Biome: "@ + biome),
            (ExamineLineKind::TileColor, " Color: ("@ + decimal(r as nat) + ", "@ + decimal(g as nat)
                + ", "@ + decimal(b as nat) + ")"@),
        ],
        None => seq![],
    }
}

/// The examine panel's line about the player archetype's configured glyph and whether that
/// character is registered.
pub open spec fn examine_glyph_part(reg: GlyphRegistry) -> Seq<(ExamineLineKind, Seq<char>)> {
    match named_glyph(reg.entity_list(), "player"@) {
        Some(d) => seq![(ExamineLineKind::GlyphInfo, " Glyph: "@ + seq![d.glyph] + " ("@
            + (if char_color(reg.color_index(), d.glyph) is Some { "known"@ } else { "unknown"@ }) + ")"@)],
        None => seq![],
    }
}

/// The examine panel's lines about the player: after a blank line, the glyph drawn for it,
/// its position and, when known, its health.
pub open spec fn examine_player_part(reg: GlyphRegistry, player: Option<(Position, char)>, hp: Option<Health>)
    -> Seq<(ExamineLineKind, Seq<char>)>
{
    match player {
        Some((pos, c)) => seq![
            (ExamineLineKind::Blank, Seq::<char>::empty()),
            (ExamineLineKind::PlayerGlyph, " Player: "@ + seq![resolved_char(reg, c)]),
            (ExamineLineKind::PlayerPosition, " Pos: "@ + pair_text(pos.x as nat, pos.y as nat)),
        ] + match hp {
            Some(h) => seq![(ExamineLineKind::PlayerHealth, " HP: "@ + decimal(h.current as nat) + "/"@
                + decimal(h.max as nat))],
            None => seq![],
        },
        None => seq![],
    }
}

/// The lines of the examine panel, in order, for the focused tile `(cx, cy)`: the cursor,
/// the tile part, the glyph part, the player part, and the close hint after a blank line.
pub open spec fn examine_text(
    cx: u32,
    cy: u32,
    tile: Option<(Seq<char>, (u8, u8, u8))>,
    reg: GlyphRegistry,
    player: Option<(Position, char)>,
    hp: Option<Health>,
) -> Seq<(ExamineLineKind, Seq<char>)> {
    seq![(ExamineLineKind::Cursor, " Cursor: "@ + pair_text(cx as nat, cy as nat))]
        + examine_tile_part(tile)
        + examine_glyph_part(reg)
        + examine_player_part(reg, player, hp)
        + seq![(ExamineLineKind::Blank, Seq::<char>::empty()), (ExamineLineKind::CloseHint, " [X] Close "@)]
}

/// The text views of panel lines.
pub open spec fn line_views(v: Seq<(ExamineLineKind, String)>) -> Seq<(ExamineLineKind, Seq<char>)> {
    v.map_values(|l: (ExamineLineKind, String)| (l.0, l.1@))
}

fn push_line(v: &mut Vec<(ExamineLineKind, String)>, kind: ExamineLineKind, text: String)
    ensures
        line_views(final(v)@) == line_views(old(v)@).push((kind, text@)),
{
    v.push((kind, text));
    assert(line_views(v@) =~= line_views(old(v)@).push((kind, text@)));
}

/// `prefix` followed by "(a, b)".
fn pair_line(prefix: &str, a: u32, b: u32) -> (r: String)
    ensures
        r@ == prefix@ + pair_text(a as nat, b as nat),
{
    let mut s = String::from_str(prefix);
    s.append("(");
    let x = u32_text(a);
    s.append(x.as_str());
    s.append(", ");
    let y = u32_text(b);
    s.append(y.as_str());
    s.append(")");
    s
}

/// The lines of the examine panel (see `examine_text`); the tile is its biome name and color.
pub fn examine_lines(
    cx: u32,
    cy: u32,
    tile: Option<(&str, (u8, u8, u8))>,
    reg: &GlyphRegistry,
    player: Option<(Position, char)>,
    hp: Option<Health>,
) -> (r: Vec<(ExamineLineKind, String)>)
    ensures
        line_views(r@) == examine_text(cx, cy, match tile {
            Some((b, c)) => Some((b@, c)),
            None => None,
        }, *reg, player, hp),
{
    let ghost t = match tile {
        Some((bn, cl)) => Some((bn@, cl)),
        None => None,
    };
    let mut v: Vec<(ExamineLineKind, String)> = Vec::new();
    assert(line_views(v@) =~= Seq::<(ExamineLineKind, Seq<char>)>::empty());
    push_line(&mut v, ExamineLineKind::Cursor, pair_line(" Cursor: ", cx, cy));
    let ghost s1 = line_views(v@);
    match tile {
        Some((biome, (r, g, b))) => {
            let mut t1 = String::from_str(" Biome: ");
            t1.append(biome);
            push_line(&mut v, ExamineLineKind::Biome, t1);
            let mut c = String::from_str(" Color: (");
            let rs = u32_text(r as u32);
            c.append(rs.as_str());
            c.append(", ");
            let gs = u32_text(g as u32);
            c.append(gs.as_str());
            c.append(", ");
            let bs = u32_text(b as u32);
            c.append(bs.as_str());
            c.append(")");
            push_line(&mut v, ExamineLineKind::TileColor, c);
            assert(line_views(v@) =~= s1 + examine_tile_part(t));
        },
        None => {
            assert(line_views(v@) =~= s1 + examine_tile_part(t));
        },
    }
    let ghost s2 = line_views(v@);
    match reg.entity_glyph("player") {
        Some(d) => {
            let mut t2 = String::from_str(" Glyph: ");
            push_char(&mut t2, d.glyph);
            assert(t2@ =~= " Glyph: "@ + seq![d.glyph]);
            t2.append(" (");
            if reg.is_known(d.glyph) {
                t2.append("known");
            } else {
                t2.append("unknown");
            }
            t2.append(")");
            assert(t2@ =~= " Glyph: "@ + seq![d.glyph] + " ("@
                + (if char_color(reg.color_index(), d.glyph) is Some { "known"@ } else { "unknown"@ }) + ")"@);
            push_line(&mut v, ExamineLineKind::GlyphInfo, t2);
            assert(line_views(v@) =~= s2 + examine_glyph_part(*reg));
        },
        None => {
            assert(line_views(v@) =~= s2 + examine_glyph_part(*reg));
        },
    }
    let ghost s3 = line_views(v@);
    match player {
        Some((pos, c)) => {
            push_line(&mut v, ExamineLineKind::Blank, String::new());
            let mut t3 = String::from_str(" Player: ");
            let rc = reg.resolve_char(c);
            push_char(&mut t3, rc);
            assert(t3@ =~= " Player: "@ + seq![resolved_char(*reg, c)]);
            push_line(&mut v, ExamineLineKind::PlayerGlyph, t3);
            push_line(&mut v, ExamineLineKind::PlayerPosition, pair_line(" Pos: ", pos.x, pos.y));
            match hp {
                Some(h) => {
                    let mut t4 = String::from_str(" HP: ");
                    let a = u32_text(h.current);
                    t4.append(a.as_str());
                    t4.append("/");
                    let m = u32_text(h.max);
                    t4.append(m.as_str());
                    push_line(&mut v, ExamineLineKind::PlayerHealth, t4);
                },
                None => {},
            }
            assert(line_views(v@) =~= s3 + examine_player_part(*reg, player, hp));
        },
        None => {
            assert(line_views(v@) =~= s3 + examine_player_part(*reg, player, hp));
        },
    }
    let ghost s4 = line_views(v@);
    push_line(&mut v, ExamineLineKind::Blank, String::new());
    push_line(&mut v, ExamineLineKind::CloseHint, String::from_str(" [X] Close "));
    assert(line_views(v@) =~= s4 + seq![(ExamineLineKind::Blank, Seq::<char>::empty()),
        (ExamineLineKind::CloseHint, " [X] Close "@)]);
    assert(line_views(v@) =~= examine_text(cx, cy, t, *reg, player, hp));
    v
}

/// One quest as the journal lists it.
pub struct JournalEntry {
    pub name: String,
    /// "[progress]", followed by " DONE!" once complete.
    pub progress: String,
    pub done: bool,
}

/// The listed quests, in order.
pub open spec fn listed_quests(qs: Seq<ActiveQuest>) -> Seq<ActiveQuest>
    decreases qs.len(),
{
    if qs.len() == 0 {
        seq![]
    } else if listed(qs.last().state) {
        listed_quests(qs.drop_last()).push(qs.last())
    } else {
        listed_quests(qs.drop_last())
    }
}

/// Whether `e` is how the journal lists quest `q`.
pub open spec fn journal_line(q: ActiveQuest, e: JournalEntry) -> bool {
    &&& e.name@ == q.name@
    &&& e.done == (q.state == QuestState::Complete)
    &&& e.progress@ == "["@ + progress_of(q.objective@) + "]"@ + if e.done { " DONE!"@ } else { ""@ }
}

/// The journal's entries: one per listed quest, in order.
pub fn journal_entries(quests: &Vec<ActiveQuest>) -> (r: Vec<JournalEntry>)
    ensures
        r@.len() == listed_quests(quests@).len(),
        forall|k: int| 0 <= k < r@.len() ==> journal_line(listed_quests(quests@)[k], #[trigger] r@[k]),
{
    let mut r: Vec<JournalEntry> = Vec::new();
    let mut i: usize = 0;
    while i < quests.len()
        invariant
            i <= quests@.len(),
            r@.len() == listed_quests(quests@.subrange(0, i as int)).len(),
            forall|k: int| 0 <= k < r@.len() ==> journal_line(listed_quests(quests@.subrange(0, i as int))[k], #[trigger] r@[k]),
        decreases quests.len() - i,
    {
        let ghost before = quests@.subrange(0, i as int);
        let ghost after = quests@.subrange(0, i + 1);
        assert(after.drop_last() =~= before);
        let q = &quests[i];
        if q.state == QuestState::Active || q.state == QuestState::Complete {
            let done = q.state == QuestState::Complete;
            let mut progress = String::from_str("[");
            let p = q.objective.progress_text();
            progress.append(p.as_str());
            progress.append("]");
            if done {
                progress.append(" DONE!");
            } else {
                progress.append("");
            }
            r.push(JournalEntry { name: q.name.clone(), progress, done });
        }
        i = i + 1;
    }
    assert(quests@.subrange(0, quests@.len() as int) =~= quests@);
    r
}

/// The label of a resource tag (one named ORE_..., HERB_... or GEM_...): its name with each
/// underscore turned into a space. Other tags have none.
pub open spec fn resource_label(name: Seq<char>) -> Option<Seq<char>> {
    if occurs_at(name, "ORE_"@, 0) || occurs_at(name, "HERB_"@, 0) || occurs_at(name, "GEM_"@, 0) {
        Some(replace_seq(name, "_"@, " "@))
    } else {
        None
    }
}

/// The labels of the resource tags among the given ids, in order.
pub open spec fn resource_labels(ids: Seq<TagId>, reg: TagRegistry) -> Seq<Seq<char>>
    decreases ids.len(),
{
    if ids.len() == 0 {
        seq![]
    } else {
        let rest = resource_labels(ids.drop_last(), reg);
        match resource_label(reg.defs@[ids.last() as int].name@) {
            Some(l) => rest.push(l),
            None => rest,
        }
    }
}

/// How a carried item is named in the inventory: its own name; without one, the labels of its
/// resource tags joined by ", " (when it has tags and a registry is loaded and any apply);
/// otherwise its glyph character.
pub open spec fn item_label(name: Option<Seq<char>>, glyph: char, tags: Option<Seq<bool>>, reg: Option<TagRegistry>) -> Seq<char> {
    match name {
        Some(n) => n,
        None => match (tags, reg) {
            (Some(t), Some(g)) => {
                let ls = resource_labels(present_ids(t), g);
                if ls.len() == 0 { seq![glyph] } else { join_seq(ls, ", "@) }
            },
            _ => seq![glyph],
        },
    }
}

fn resource_label_of(name: &String) -> (r: Option<String>)
    ensures
        match resource_label(name@) {
            Some(l) => r matches Some(x) && x@ == l,
            None => r is None,
        },
{
    let cs = chars_of(name.as_str());
    let ore = chars_of("ORE_");
    let herb = chars_of("HERB_");
    let gem = chars_of("GEM_");
    if matches_at(&cs, &ore, 0) || matches_at(&cs, &herb, 0) || matches_at(&cs, &gem, 0) {
        proof { reveal_strlit("_"); }
        Some(replace_all(name.as_str(), "_", " "))
    } else {
        None
    }
}

/// The inventory name of a carried item (see `item_label`).
pub fn inventory_item_name(name: Option<&String>, glyph: char, tags: Option<&Tags>, registry: Option<&TagRegistry>) -> (r: String)
    requires
        match (tags, registry) {
            (Some(t), Some(g)) => t.present@.len() <= g.defs@.len(),
            _ => true,
        },
    ensures
        r@ == item_label(
            match name { Some(n) => Some(n@), None => None },
            glyph,
            match tags { Some(t) => Some(t.present@), None => None },
            match registry { Some(g) => Some(*g), None => None },
        ),
{
    if let Some(n) = name {
        return n.clone();
    }
    let mut glyph_text = String::new();
    crate::text::push_char(&mut glyph_text, glyph);
    assert(glyph_text@ =~= seq![glyph]);
    match (tags, registry) {
        (Some(t), Some(reg)) => {
            let ids = t.iter_present();
            let plen = t.present.len();
            assert(plen == t.present@.len());
            proof { lemma_present_ids(t.present@); }
            let mut labels: Vec<String> = Vec::new();
            let mut i: usize = 0;
            while i < ids.len()
                invariant
                    i <= ids@.len(),
                    ids@ == present_ids(t.present@),
                    t.present@.len() <= reg.defs@.len(),
                    forall|k: int| 0 <= k < ids@.len() ==> (#[trigger] ids@[k]) < t.present@.len(),
                    views(labels@) == resource_labels(ids@.subrange(0, i as int), *reg),
                decreases ids.len() - i,
            {
                assert(ids@.subrange(0, i + 1).drop_last() =~= ids@.subrange(0, i as int));
                assert(ids@[i as int] < t.present@.len());
                let def = reg.tag_by_id(ids[i]);
                match resource_label_of(&def.name) {
                    Some(l) => {
                        labels.push(l);
                        assert(views(labels@) =~= resource_labels(ids@.subrange(0, i + 1), *reg));
                    },
                    None => {
                        assert(views(labels@) =~= resource_labels(ids@.subrange(0, i + 1), *reg));
                    },
                }
                i = i + 1;
            }
            assert(ids@.subrange(0, ids@.len() as int) =~= ids@);
            if labels.len() == 0 {
                glyph_text
            } else {
                join(&labels, ", ")
            }
        },
        _ => glyph_text,
    }
}

/// How an equipment slot is named in the inventory: the item's name, else its glyph
/// character, else "(empty)" when the slot is empty.
pub fn inventory_slot_name(name: Option<&String>, glyph: Option<char>) -> (r: String)
    ensures
        r@ == match name {
            Some(n) => n@,
            None => match glyph {
                Some(c) => seq![c],
                None => "(empty)"@,
            },
        },
{
    match name {
        Some(n) => n.clone(),
        None => match glyph {
            Some(c) => {
                let mut s = String::new();
                crate::text::push_char(&mut s, c);
                assert(s@ =~= seq![c]);
                s
            },
            None => String::from_str("(empty)"),
        },
    }
}

/// The backpack heading, " Backpack (count/capacity):".
pub fn backpack_title(count: usize, capacity: usize) -> (r: String)
    ensures
        r@ == " Backpack ("@ + decimal(count as nat) + "/"@ + decimal(capacity as nat) + "):"@,
{
    let mut s = String::from_str(" Backpack (");
    let c = crate::text::u64_text(count as u64);
    s.append(c.as_str());
    s.append("/");
    let m = crate::text::u64_text(capacity as u64);
    s.append(m.as_str());
    s.append("):");
    s
}


/// Greedy word wrapping: words go on the current line, one space apart, while the line stays
/// within `max` bytes; a word that does not fit starts a new line (a word longer than `max`
/// gets a line of its own). `cur` is the line being filled.
pub open spec fn wrap_from(ws: Seq<Seq<char>>, max: int, cur: Seq<char>) -> Seq<Seq<char>>
    decreases ws.len(),
{
    if ws.len() == 0 {
        if cur.len() == 0 { seq![] } else { seq![cur] }
    } else if cur.len() == 0 {
        wrap_from(ws.drop_first(), max, ws[0])
    } else if utf8_len(cur) + 1 + utf8_len(ws[0]) <= max {
        wrap_from(ws.drop_first(), max, cur + seq![' '] + ws[0])
    } else {
        seq![cur] + wrap_from(ws.drop_first(), max, ws[0])
    }
}

/// The lines of a dialogue panel's text: its words wrapped to `max` bytes (see `wrap_from`),
/// each line indented by one space.
pub open spec fn dialogue_lines_of(text: Seq<char>, max: int) -> Seq<Seq<char>> {
    wrap_from(words(text), max, seq![]).map_values(|l: Seq<char>| seq![' '] + l)
}

fn append_chars(dst: &mut Vec<char>, src: &Vec<char>)
    ensures
        final(dst)@ == old(dst)@ + src@,
{
    let mut i: usize = 0;
    while i < src.len()
        invariant
            i <= src@.len(),
            dst@ == old(dst)@ + src@.subrange(0, i as int),
        decreases src.len() - i,
    {
        dst.push(src[i]);
        i = i + 1;
        assert(dst@ =~= old(dst)@ + src@.subrange(0, i as int));
    }
    assert(src@.subrange(0, src@.len() as int) =~= src@);
}

/// The speaker's text as the dialogue panel shows it (see `dialogue_lines_of`).
pub fn dialogue_text_lines(text: &str, max_line_len: usize) -> (r: Vec<String>)
    ensures
        views(r@) == dialogue_lines_of(text@, max_line_len as int),
{
    let ws = split_words(text);
    let ghost all = ws@.map_values(|w: Vec<char>| w@);
    let mut lines: Vec<Vec<char>> = Vec::new();
    let mut cur: Vec<char> = Vec::new();
    let mut cur_len: u128 = 0;
    let mut i: usize = 0;
    assert(all.subrange(0, all.len() as int) =~= all);
    assert(lines@.map_values(|l: Vec<char>| l@) + wrap_from(all, max_line_len as int, cur@) =~= wrap_from(all, max_line_len as int, seq![]));
    while i < ws.len()
        invariant
            i <= ws@.len(),
            all == ws@.map_values(|w: Vec<char>| w@),
            all == words(text@),
            cur_len == utf8_len(cur@),
            cur_len <= 4 * usize::MAX,
            lines@.map_values(|l: Vec<char>| l@) + wrap_from(all.subrange(i as int, all.len() as int), max_line_len as int, cur@)
                == wrap_from(all, max_line_len as int, seq![]),
        decreases ws.len() - i,
    {
        let ghost rest = all.subrange(i as int, all.len() as int);
        assert(rest.drop_first() =~= all.subrange(i + 1, all.len() as int));
        assert(rest[0] == ws@[i as int]@);
        let wlen = utf8_length(&ws[i]);
        if cur.len() == 0 {
            append_chars(&mut cur, &ws[i]);
            cur_len = wlen;
            assert(cur@ =~= rest[0]);
        } else if cur_len + 1 + wlen <= max_line_len as u128 {
            let ghost old_cur = cur@;
            cur.push(' ');
            append_chars(&mut cur, &ws[i]);
            proof {
                assert(cur@ =~= old_cur + seq![' '] + rest[0]);
                lemma_utf8_len_concat(old_cur + seq![' '], rest[0]);
                lemma_utf8_len_concat(old_cur, seq![' ']);
                assert(utf8_len(seq![' ']) == 1) by {
                    let sp = seq![' '];
                    assert(sp.drop_last() =~= Seq::<char>::empty());
                    assert(utf8_len(Seq::<char>::empty()) == 0);
                    assert(sp.last() == ' ');
                    assert((' ' as u32) == 32);
                }
            }
            cur_len = cur_len + 1 + wlen;
        } else {
            let ghost before = lines@.map_values(|l: Vec<char>| l@);
            let ghost cv = cur@;
            lines.push(cur);
            cur = Vec::new();
            append_chars(&mut cur, &ws[i]);
            cur_len = wlen;
            assert(cur@ =~= rest[0]);
            assert(lines@.map_values(|l: Vec<char>| l@) =~= before.push(cv));
            assert(before + (seq![cv] + wrap_from(rest.drop_first(), max_line_len as int, rest[0]))
                =~= before.push(cv) + wrap_from(rest.drop_first(), max_line_len as int, cur@));
        }
        i = i + 1;
    }
    assert(all.subrange(i as int, all.len() as int) =~= Seq::<Seq<char>>::empty());
    if cur.len() > 0 {
        let ghost before = lines@.map_values(|l: Vec<char>| l@);
        let ghost cv = cur@;
        lines.push(cur);
        assert(lines@.map_values(|l: Vec<char>| l@) =~= before + seq![cv]);
    } else {
        assert(lines@.map_values(|l: Vec<char>| l@) =~= lines@.map_values(|l: Vec<char>| l@) + Seq::<Seq<char>>::empty());
    }
    let ghost wrapped = lines@.map_values(|l: Vec<char>| l@);
    let mut r: Vec<String> = Vec::new();
    let mut k: usize = 0;
    while k < lines.len()
        invariant
            k <= lines@.len(),
            wrapped == lines@.map_values(|l: Vec<char>| l@),
            wrapped == wrap_from(words(text@), max_line_len as int, seq![]),
            r@.len() == k,
            forall|j: int| 0 <= j < k ==> #[trigger] r@[j]@ == seq![' '] + wrapped[j],
        decreases lines.len() - k,
    {
        let mut line = String::new();
        crate::text::push_char(&mut line, ' ');
        crate::text::push_chars(&mut line, &lines[k]);
        assert(line@ =~= seq![' '] + wrapped[k as int]);
        r.push(line);
        k = k + 1;
    }
    assert(views(r@) =~= dialogue_lines_of(text@, max_line_len as int));
    r
}

/// The byte length of joined texts is the sum of their byte lengths.
proof fn lemma_utf8_len_concat(a: Seq<char>, b: Seq<char>)
    ensures
        utf8_len(a + b) == utf8_len(a) + utf8_len(b),
    decreases b.len(),
{
    if b.len() > 0 {
        lemma_utf8_len_concat(a, b.drop_last());
        assert((a + b).drop_last() =~= a + b.drop_last());
    } else {
        assert(a + b =~= a);
    }
}


/// Text padded with spaces on the right to at least `width` characters, as `{:width}` does.
pub open spec fn padded(s: Seq<char>, width: int) -> Seq<char> {
    if s.len() >= width { s } else { s + Seq::new((width - s.len()) as nat, |i: int| ' ') }
}

/// The details of a recipe in the crafting list: its inputs in brackets, then, when its
/// environment requirement is not met, " [need ...]" naming what it needs.
pub open spec fn recipe_detail(inputs: Seq<Seq<char>>, requires_env: Seq<Seq<char>>, env_met: bool) -> Seq<char> {
    "["@ + join_seq(inputs, ", "@) + "]"@
        + if env_met || requires_env.len() == 0 { ""@ } else { " [need "@ + join_seq(requires_env, ","@) + "]"@ }
}

/// A recipe's line in the crafting list: its name padded to 20 characters, and its details.
pub fn recipe_line(ra: &RecipeAvailability) -> (r: (String, String))
    ensures
        r.0@ == padded(ra.recipe.name@, 20),
        r.1@ == recipe_detail(views(ra.recipe.inputs@), views(ra.recipe.requires_env@), ra.env_met),
{
    let mut name = ra.recipe.name.clone();
    let n = chars_of(name.as_str()).len();
    let ghost base = name@;
    if n < 20 {
        let mut k: usize = n;
        while k < 20
            invariant
                n <= k <= 20,
                n == base.len(),
                name@ == base + Seq::new((k - n) as nat, |i: int| ' '),
            decreases 20 - k,
        {
            crate::text::push_char(&mut name, ' ');
            k = k + 1;
            assert(name@ =~= base + Seq::new((k - n) as nat, |i: int| ' '));
        }
    }
    let mut detail = String::from_str("[");
    let inputs = join(&ra.recipe.inputs, ", ");
    detail.append(inputs.as_str());
    detail.append("]");
    if ra.env_met || ra.recipe.requires_env.len() == 0 {
        detail.append("");
    } else {
        detail.append(" [need ");
        let env = join(&ra.recipe.requires_env, ",");
        detail.append(env.as_str());
        detail.append("]");
    }
    (name, detail)
}

/// The summary lines of the death screen: turns survived, enemies slain, items collected.
pub fn death_summary(turns: u64, stats: &PlayerStats) -> (r: Vec<String>)
    ensures
        views(r@) == seq![
            " Turns survived:  "@ + decimal(turns as nat),
            " Enemies slain:   "@ + decimal(stats.enemies_defeated as nat),
            " Items collected: "@ + decimal(stats.items_collected as nat),
        ],
{
    let mut a = String::from_str(" Turns survived:  ");
    let t = crate::text::u64_text(turns);
    a.append(t.as_str());
    let mut b = String::from_str(" Enemies slain:   ");
    let e = u32_text(stats.enemies_defeated);
    b.append(e.as_str());
    let mut c = String::from_str(" Items collected: ");
    let i = u32_text(stats.items_collected);
    c.append(i.as_str());
    let r = vec![a, b, c];
    assert(views(r@) =~= seq![
        " Turns survived:  "@ + decimal(turns as nat),
        " Enemies slain:   "@ + decimal(stats.enemies_defeated as nat),
        " Items collected: "@ + decimal(stats.items_collected as nat),
    ]);
    r
}

} // verus!
