//! The scene context handed to the narrator, and its rendering as a prompt.
use vstd::prelude::*;
use vstd::string::*;
use crate::text::{decimal, join, join_seq, owned, u32_text, u64_text, views};
use crate::components::{Health, Position};
use crate::interaction::{build_tag_list, tag_names_in};
use crate::tags::{TagRegistry, Tags};

verus! {

/// Where and when the scene happens.
pub struct SceneInfo {
    pub location: String,
    pub turn: u64,
    pub environment: Option<String>,
}

/// Current and maximum health.
#[derive(Debug, Clone, Copy, PartialEq, Eq, Structural)]
pub struct EntityHealth {
    pub current: u32,
    pub max: u32,
}

/// A map position.
#[derive(Debug, Clone, Copy, PartialEq, Eq, Structural)]
pub struct EntityPosition {
    pub x: u32,
    pub y: u32,
    pub z: u32,
}

/// How a tag is held. Magnitudes are carried as their text rounded to one decimal
/// (as `{:.1}` writes them), which is what the prompt shows.
pub enum TagDetailKind {
    Present,
    Magnitude(String),
    Ticks { remaining: u32, max: u32 },
    Both { magnitude: String, remaining: u32, max: u32 },
}

/// A tag on an entity and how it is held.
pub struct TagDetail {
    pub name: String,
    pub kind: TagDetailKind,
}

/// What the narrator knows about one entity.
pub struct EntityInfo {
    pub name: String,
    pub tag_names: Vec<String>,
    pub tag_details: Vec<TagDetail>,
    pub health: Option<EntityHealth>,
    pub position: Option<EntityPosition>,
    pub is_player: bool,
}

/// The engine's verdict on an attempted action.
#[derive(Debug, Clone, Copy, PartialEq, Eq, Structural)]
pub enum InteractionOutcome {
    Success,
    Failure,
    CriticalSuccess,
    CriticalFailure,
}

/// The label of an outcome.
pub open spec fn outcome_label(o: InteractionOutcome) -> Seq<char> {
    match o {
        InteractionOutcome::Success => "SUCCESS"@,
        InteractionOutcome::Failure => "FAILURE"@,
        InteractionOutcome::CriticalSuccess => "CRITICAL SUCCESS"@,
        InteractionOutcome::CriticalFailure => "CRITICAL FAILURE"@,
    }
}

impl InteractionOutcome {
    pub fn as_str(&self) -> (r: &'static str)
        ensures
            r@ == outcome_label(*self),
    {
        match self {
            InteractionOutcome::Success => "SUCCESS",
            InteractionOutcome::Failure => "FAILURE",
            InteractionOutcome::CriticalSuccess => "CRITICAL SUCCESS",
            InteractionOutcome::CriticalFailure => "CRITICAL FAILURE",
        }
    }
}

/// An attempted action and its outcome.
pub struct InteractionAction {
    pub intent: String,
    pub outcome: InteractionOutcome,
}

/// Everything a narration prompt is built from.
pub struct PromptContext {
    pub system_instructions: String,
    pub scene: SceneInfo,
    pub player: EntityInfo,
    pub npc: EntityInfo,
    pub action: Option<InteractionAction>,
}

/// The fixed instructions given to the narrator.
pub open spec fn narrator_instructions() -> Seq<char> {
    "You are the narrative overlay for a dark fantasy roguelike RPG set a century after the collapse of a technologically advanced civilization. Translate the following game engine states into raw, atmospheric, concise narrative. Do not change the calculated mathematical outcomes. Keep responses to 1-3 sentences. Never break character."@
}

/// Assembles the prompt context for a scene from the two entities' descriptions.
pub fn build_prompt_context(
    turn: u64,
    player: EntityInfo,
    npc: EntityInfo,
    location: &str,
    environment: Option<&str>,
    action: Option<InteractionAction>,
) -> (r: PromptContext)
    ensures
        r.system_instructions@ == narrator_instructions(),
        r.scene.location@ == location@,
        r.scene.turn == turn,
        r.scene.environment matches Some(e) ==> environment matches Some(x) && e@ == x@,
        r.scene.environment is None ==> environment is None,
        r.player == player,
        r.npc == npc,
        r.action == action,
{
    let environment = match environment {
        Some(e) => Some(owned(e)),
        None => None,
    };
    PromptContext {
        system_instructions: owned("You are the narrative overlay for a dark fantasy roguelike RPG set a century after the collapse of a technologically advanced civilization. Translate the following game engine states into raw, atmospheric, concise narrative. Do not change the calculated mathematical outcomes. Keep responses to 1-3 sentences. Never break character."),
        scene: SceneInfo { location: owned(location), turn, environment },
        player,
        npc,
        action,
    }
}

/// The line describing one tag of an entity.
pub open spec fn detail_line(d: TagDetail) -> Seq<char> {
    match d.kind {
        TagDetailKind::Present => "  - "@ + d.name@,
        TagDetailKind::Magnitude(m) => "  - "@ + d.name@ + " (magnitude: "@ + m@ + ")"@,
        TagDetailKind::Ticks { remaining, max } =>
            "  - "@ + d.name@ + " (duration: "@ + decimal(remaining as nat) + "/"@ + decimal(max as nat) + ")"@,
        TagDetailKind::Both { magnitude, remaining, max } =>
            "  - "@ + d.name@ + " (magnitude: "@ + magnitude@ + ", duration: "@ + decimal(remaining as nat) + "/"@
                + decimal(max as nat) + ")"@,
    }
}

/// The tag detail lines, each ended by a newline.
pub open spec fn detail_lines(ds: Seq<TagDetail>) -> Seq<char>
    decreases ds.len(),
{
    if ds.len() == 0 { seq![] } else { detail_lines(ds.drop_last()) + detail_line(ds.last()) + "\n"@ }
}

/// The health line of an entity block, if health is known.
pub open spec fn health_piece(h: Option<EntityHealth>) -> Seq<char> {
    match h {
        Some(h) => "- Health: "@ + decimal(h.current as nat) + "/"@ + decimal(h.max as nat) + "\n"@,
        None => seq![],
    }
}

/// The position line of an entity block, if the position is known.
pub open spec fn position_piece(p: Option<EntityPosition>) -> Seq<char> {
    match p {
        Some(p) => "- Position: ("@ + decimal(p.x as nat) + ", "@ + decimal(p.y as nat) + ")\n"@,
        None => seq![],
    }
}

/// The tag list line of an entity block, if it has tags.
pub open spec fn tags_piece(names: Seq<String>) -> Seq<char> {
    if names.len() == 0 { seq![] } else { "- Tags: ["@ + join_seq(views(names), ", "@) + "]\n"@ }
}

/// The prompt block describing one entity.
pub open spec fn entity_block(info: EntityInfo, kind: Seq<char>) -> Seq<char> {
    "- Name: "@ + info.name@ + "\n"@ + "- Kind: "@ + kind + "\n"@ + health_piece(info.health)
        + position_piece(info.position) + tags_piece(info.tag_names@) + detail_lines(info.tag_details@)
}

/// The environment line of the scene metadata, if one is given.
pub open spec fn environment_piece(e: Option<String>) -> Seq<char> {
    match e {
        Some(e) => "- Environment: "@ + e@ + "\n"@,
        None => seq![],
    }
}

/// The action lines of the scene metadata, if an action was attempted.
pub open spec fn action_piece(a: Option<InteractionAction>) -> Seq<char> {
    match a {
        Some(a) => "- Action Intent: "@ + a.intent@ + "\n"@ + "- Engine Roll Outcome: "@ + outcome_label(a.outcome) + "\n"@,
        None => seq![],
    }
}

/// The closing description of the expected answer format.
pub open spec fn output_format_text() -> Seq<char> {
    "[Player Line]: Dialogue and physical action description.\n[NPC Line]: Dialogue and reactive body language.\n[World Context]: Text describing the environmental change.\n"@
}

/// The whole rendered prompt.
pub open spec fn prompt_text(c: PromptContext) -> Seq<char> {
    "### SYSTEM INSTRUCTIONS\n"@ + c.system_instructions@ + "\n"@ + "\n### SCENE METADATA\n"@
        + "- Location: "@ + c.scene.location@ + "\n"@ + "- Turn: "@ + decimal(c.scene.turn as nat) + "\n"@
        + environment_piece(c.scene.environment) + action_piece(c.action)
        + "\n### ENTITY A: THE PLAYER\n"@ + entity_block(c.player, "Remnant"@)
        + "\n### ENTITY B: THE NPC\n"@ + entity_block(c.npc, "Creature"@)
        + "\n### OUTPUT FORMAT\n"@ + output_format_text()
}

fn detail_text(d: &TagDetail) -> (r: String)
    ensures
        r@ == detail_line(*d),
{
    let mut out = owned("  - ");
    out.append(d.name.as_str());
    match &d.kind {
        TagDetailKind::Present => {},
        TagDetailKind::Magnitude(m) => {
            out.append(" (magnitude: ");
            out.append(m.as_str());
            out.append(")");
        },
        TagDetailKind::Ticks { remaining, max } => {
            out.append(" (duration: ");
            out.append(u32_text(*remaining).as_str());
            out.append("/");
            out.append(u32_text(*max).as_str());
            out.append(")");
        },
        TagDetailKind::Both { magnitude, remaining, max } => {
            out.append(" (magnitude: ");
            out.append(magnitude.as_str());
            out.append(", duration: ");
            out.append(u32_text(*remaining).as_str());
            out.append("/");
            out.append(u32_text(*max).as_str());
            out.append(")");
        },
    }
    out
}

fn details_text(ds: &Vec<TagDetail>) -> (r: String)
    ensures
        r@ == detail_lines(ds@),
{
    let mut out = String::new();
    let mut i: usize = 0;
    while i < ds.len()
        invariant
            i <= ds@.len(),
            out@ == detail_lines(ds@.subrange(0, i as int)),
        decreases ds.len() - i,
    {
        assert(ds@.subrange(0, i + 1).drop_last() =~= ds@.subrange(0, i as int));
        out.append(detail_text(&ds[i]).as_str());
        out.append("\n");
        i = i + 1;
    }
    assert(ds@.subrange(0, ds@.len() as int) =~= ds@);
    out
}

fn health_text(h: &Option<EntityHealth>) -> (r: String)
    ensures
        r@ == health_piece(*h),
{
    match h {
        Some(h) => {
            let mut out = owned("- Health: ");
            out.append(u32_text(h.current).as_str());
            out.append("/");
            out.append(u32_text(h.max).as_str());
            out.append("\n");
            out
        },
        None => String::new(),
    }
}

fn position_text(p: &Option<EntityPosition>) -> (r: String)
    ensures
        r@ == position_piece(*p),
{
    match p {
        Some(p) => {
            let mut out = owned("- Position: (");
            out.append(u32_text(p.x).as_str());
            out.append(", ");
            out.append(u32_text(p.y).as_str());
            out.append(")\n");
            out
        },
        None => String::new(),
    }
}

fn tags_text(names: &Vec<String>) -> (r: String)
    ensures
        r@ == tags_piece(names@),
{
    if names.len() > 0 {
        let mut out = owned("- Tags: [");
        out.append(join(names, ", ").as_str());
        out.append("]\n");
        out
    } else {
        String::new()
    }
}

fn render_entity(info: &EntityInfo, kind: &str) -> (r: String)
    ensures
        r@ == entity_block(*info, kind@),
{
    let mut out = owned("- Name: ");
    out.append(info.name.as_str());
    out.append("\n");
    out.append("- Kind: ");
    out.append(kind);
    out.append("\n");
    out.append(health_text(&info.health).as_str());
    out.append(position_text(&info.position).as_str());
    out.append(tags_text(&info.tag_names).as_str());
    out.append(details_text(&info.tag_details).as_str());
    out
}

fn environment_text(e: &Option<String>) -> (r: String)
    ensures
        r@ == environment_piece(*e),
{
    match e {
        Some(e) => {
            let mut out = owned("- Environment: ");
            out.append(e.as_str());
            out.append("\n");
            out
        },
        None => String::new(),
    }
}

fn action_text(a: &Option<InteractionAction>) -> (r: String)
    ensures
        r@ == action_piece(*a),
{
    match a {
        Some(a) => {
            let mut out = owned("- Action Intent: ");
            out.append(a.intent.as_str());
            out.append("\n");
            out.append("- Engine Roll Outcome: ");
            out.append(a.outcome.as_str());
            out.append("\n");
            out
        },
        None => String::new(),
    }
}

/// Renders the full narration prompt: system instructions, scene metadata, both entities
/// and the expected output format.
pub fn render_prompt(context: &PromptContext) -> (r: String)
    ensures
        r@ == prompt_text(*context),
{
    let mut out = owned("### SYSTEM INSTRUCTIONS\n");
    out.append(context.system_instructions.as_str());
    out.append("\n");
    out.append("\n### SCENE METADATA\n");
    out.append("- Location: ");
    out.append(context.scene.location.as_str());
    out.append("\n");
    out.append("- Turn: ");
    out.append(u64_text(context.scene.turn).as_str());
    out.append("\n");
    out.append(environment_text(&context.scene.environment).as_str());
    out.append(action_text(&context.action).as_str());
    out.append("\n### ENTITY A: THE PLAYER\n");
    out.append(render_entity(&context.player, "Remnant").as_str());
    out.append("\n### ENTITY B: THE NPC\n");
    out.append(render_entity(&context.npc, "Creature").as_str());
    out.append("\n### OUTPUT FORMAT\n");
    out.append("[Player Line]: Dialogue and physical action description.\n[NPC Line]: Dialogue and reactive body language.\n[World Context]: Text describing the environmental change.\n");
    out
}


/// What the narrator is told about an entity: its name ("Unknown" without one), the names of
/// its tags in id order (each merely present, as the tag set holds no magnitudes or ticks), its
/// health and its position on the surface level.
pub fn collect_entity_info(
    name: Option<&String>,
    tags: Option<&Tags>,
    health: Option<Health>,
    position: Option<Position>,
    registry: &TagRegistry,
    is_player: bool,
) -> (r: EntityInfo)
    requires
        tags matches Some(t) ==> t.present@.len() <= registry.defs@.len(),
    ensures
        r.name@ == match name { Some(n) => n@, None => "Unknown"@ },
        views(r.tag_names@) == match tags { Some(t) => tag_names_in(t.present@, *registry), None => Seq::<Seq<char>>::empty() },
        r.tag_details@.len() == r.tag_names@.len(),
        forall|k: int| 0 <= k < r.tag_details@.len() ==> (#[trigger] r.tag_details@[k]).name@ == r.tag_names@[k]@
            && r.tag_details@[k].kind is Present,
        r.health == match health { Some(h) => Some(EntityHealth { current: h.current, max: h.max }), None => None },
        r.position == match position { Some(p) => Some(EntityPosition { x: p.x, y: p.y, z: 0 }), None => None },
        r.is_player == is_player,
{
    let n = match name {
        Some(n) => n.clone(),
        None => owned("Unknown"),
    };
    let tag_names = match tags {
        Some(t) => build_tag_list(t, registry),
        None => Vec::new(),
    };
    let mut tag_details: Vec<TagDetail> = Vec::new();
    let mut k: usize = 0;
    while k < tag_names.len()
        invariant
            k <= tag_names@.len(),
            tag_details@.len() == k,
            forall|j: int| 0 <= j < k ==> (#[trigger] tag_details@[j]).name@ == tag_names@[j]@
                && tag_details@[j].kind is Present,
        decreases tag_names.len() - k,
    {
        tag_details.push(TagDetail { name: tag_names[k].clone(), kind: TagDetailKind::Present });
        k = k + 1;
    }
    EntityInfo {
        name: n,
        tag_names,
        tag_details,
        health: match health { Some(h) => Some(EntityHealth { current: h.current, max: h.max }), None => None },
        position: match position { Some(p) => Some(EntityPosition { x: p.x, y: p.y, z: 0 }), None => None },
        is_player,
    }
}

} // verus!
