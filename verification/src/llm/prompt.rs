//! Prompt templates with `{key}` placeholders and the variables they are filled with.
use vstd::prelude::*;
use vstd::string::*;
use crate::llm::client::{ChatMessage, message_views, msg};
use crate::llm::config::PromptConfig;
use crate::llm::context::{EntityHealth, EntityInfo, EntityPosition, PromptContext, outcome_label};
use crate::tags::{first_index, lemma_first_index};
use crate::text::{
    chars_of, decimal, i32_text, join, join_seq, owned, push_char, same_chars, signed_decimal, string_of,
    u32_text, u64_text, views,
};

verus! {

/// Position of the first `c` in `s`, if any.
pub open spec fn first_char(s: Seq<char>, c: char) -> Option<int>
    decreases s.len(),
{
    if s.len() == 0 {
        None
    } else if s[0] == c {
        Some(0)
    } else {
        match first_char(s.drop_first(), c) {
            Some(k) => Some(k + 1),
            None => None,
        }
    }
}

pub proof fn lemma_first_char(s: Seq<char>, c: char)
    ensures
        match first_char(s, c) {
            Some(k) => 0 <= k < s.len() && s[k] == c && forall|j: int| 0 <= j < k ==> s[j] != c,
            None => forall|j: int| 0 <= j < s.len() ==> s[j] != c,
        },
    decreases s.len(),
{
    if s.len() > 0 {
        lemma_first_char(s.drop_first(), c);
        assert forall|j: int| 0 < j < s.len() implies s[j] == s.drop_first()[j - 1] by {}
    }
}

/// The value bound to `key` (the first binding), or nothing.
pub open spec fn var_value(vars: Seq<(String, String)>, key: Seq<char>) -> Seq<char> {
    match first_index(vars.map_values(|v: (String, String)| v.0@), key) {
        Some(i) => vars[i].1@,
        None => seq![],
    }
}

/// Template substitution: each `{key}` is replaced by the value bound to `key` (nothing when
/// unbound); an opening brace without a closing one leaves the rest of the text as it is.
pub open spec fn substituted(t: Seq<char>, vars: Seq<(String, String)>) -> Seq<char>
    decreases t.len(),
{
    if t.len() == 0 {
        seq![]
    } else if t[0] == '{' {
        match first_char(t.drop_first(), '}') {
            Some(k) => {
                proof { lemma_first_char(t.drop_first(), '}'); }
                var_value(vars, t.subrange(1, k + 1)) + substituted(t.subrange(k + 2, t.len() as int), vars)
            },
            None => t,
        }
    } else {
        seq![t[0]] + substituted(t.drop_first(), vars)
    }
}

fn lookup_var<'a>(vars: &'a Vec<(String, String)>, key: &Vec<char>) -> (r: Option<&'a String>)
    ensures
        r matches Some(v) ==> v@ == var_value(vars@, key@),
        r is None ==> var_value(vars@, key@) == Seq::<char>::empty(),
        r is None ==> first_index(vars@.map_values(|v: (String, String)| v.0@), key@) is None,
{
    let ghost names = vars@.map_values(|v: (String, String)| v.0@);
    let mut i: usize = 0;
    while i < vars.len()
        invariant
            i <= vars@.len(),
            names == vars@.map_values(|v: (String, String)| v.0@),
            forall|j: int| 0 <= j < i ==> names[j] != key@,
        decreases vars.len() - i,
    {
        let n = chars_of(vars[i].0.as_str());
        assert(names[i as int] == vars@[i as int].0@);
        if same_chars(&n, key) {
            proof { lemma_first_index(names, key@); }
            return Some(&vars[i].1);
        }
        i = i + 1;
    }
    proof { lemma_first_index(names, key@); }
    None
}

/// Fills `{key}` placeholders from `vars`.
pub fn substitute(template: &str, vars: &Vec<(String, String)>) -> (r: String)
    ensures
        r@ == substituted(template@, vars@),
{
    let chars = chars_of(template);
    let n = chars.len();
    let mut result = String::new();
    let mut i: usize = 0;
    assert(chars@.subrange(0, n as int) =~= chars@);
    assert(result@ + substituted(chars@, vars@) =~= substituted(chars@, vars@));
    while i < n
        invariant
            n == chars@.len(),
            chars@ == template@,
            i <= n,
            result@ + substituted(chars@.subrange(i as int, n as int), vars@) == substituted(chars@, vars@),
        decreases n - i,
    {
        let ghost t = chars@.subrange(i as int, n as int);
        let ghost before = result@;
        if chars[i] == '{' {
            let start = i;
            i = i + 1;
            let key_start = i;
            while i < n && chars[i] != '}'
                invariant
                    n == chars@.len(),
                    key_start == start + 1,
                    key_start <= i <= n,
                    forall|j: int| key_start <= j < i ==> chars@[j] != '}',
                decreases n - i,
            {
                i = i + 1;
            }
            let ghost rest = t.drop_first();
            proof {
                lemma_first_char(rest, '}');
                assert forall|j: int| 0 <= j < rest.len() implies rest[j] == chars@[key_start + j] by {}
            }
            if i < n {
                proof {
                    assert(rest[(i - key_start) as int] == '}');
                    assert(first_char(rest, '}') == Some((i - key_start) as int));
                }
                let mut key: Vec<char> = Vec::new();
                let mut k: usize = key_start;
                while k < i
                    invariant
                        key_start <= k <= i < n,
                        n == chars@.len(),
                        key@ == chars@.subrange(key_start as int, k as int),
                    decreases i - k,
                {
                    key.push(chars[k]);
                    k = k + 1;
                    assert(key@ =~= chars@.subrange(key_start as int, k as int));
                }
                assert(key@ =~= t.subrange(1, (i - key_start) + 1));
                let found = lookup_var(vars, &key);
                if let Some(value) = found {
                    result.append(value.as_str());
                }
                i = i + 1;
                assert(t.subrange((i - start) as int, t.len() as int) =~= chars@.subrange(i as int, n as int));
                assert(result@ + substituted(chars@.subrange(i as int, n as int), vars@)
                    =~= before + substituted(t, vars@));
            } else {
                proof {
                    assert(first_char(rest, '}') is None);
                }
                let mut k: usize = start;
                while k < n
                    invariant
                        start <= k <= n,
                        n == chars@.len(),
                        result@ == before + chars@.subrange(start as int, k as int),
                    decreases n - k,
                {
                    push_char(&mut result, chars[k]);
                    k = k + 1;
                    assert(result@ =~= before + chars@.subrange(start as int, k as int));
                }
                assert(chars@.subrange(i as int, n as int) =~= Seq::<char>::empty());
                assert(result@ + substituted(chars@.subrange(i as int, n as int), vars@) =~= before + substituted(t, vars@));
            }
        } else {
            push_char(&mut result, chars[i]);
            i = i + 1;
            assert(t.drop_first() =~= chars@.subrange(i as int, n as int));
            assert(result@ + substituted(chars@.subrange(i as int, n as int), vars@) =~= before + substituted(t, vars@));
        }
    }
    result
}

/// A tag list as shown in prompts: "none", or the names joined by ", ".
pub open spec fn tag_list_text(tags: Seq<String>) -> Seq<char> {
    if tags.len() == 0 { "none"@ } else { join_seq(views(tags), ", "@) }
}

pub fn format_tag_list(tags: &Vec<String>) -> (r: String)
    ensures
        r@ == tag_list_text(tags@),
{
    if tags.len() == 0 { owned("none") } else { join(tags, ", ") }
}

/// How a reputation value reads: friendly from 50, neutral from 0, hostile from -50,
/// sworn enemy below.
pub open spec fn stance(rep: int) -> Seq<char> {
    if rep >= 50 { "friendly"@ } else if rep >= 0 { "neutral"@ } else if rep >= -50 { "hostile"@ } else { "sworn enemy"@ }
}

/// One standing as shown in prompts: "faction (stance, value)".
pub open spec fn standing_entry(e: (String, i32)) -> Seq<char> {
    e.0@ + " ("@ + stance(e.1 as int) + ", "@ + signed_decimal(e.1 as int) + ")"@
}

fn standing_text(e: &(String, i32)) -> (r: String)
    ensures
        r@ == standing_entry(*e),
{
    let rep = e.1;
    let stance_text = if rep >= 50 { "friendly" } else if rep >= 0 { "neutral" } else if rep >= -50 { "hostile" } else { "sworn enemy" };
    let mut out = e.0.clone();
    out.append(" (");
    out.append(stance_text);
    out.append(", ");
    out.append(i32_text(rep).as_str());
    out.append(")");
    out
}

/// Faction standings for a prompt: "no known affiliations", or the entries joined by "; ".
pub open spec fn standings_text(s: Seq<(String, i32)>) -> Seq<char> {
    if s.len() == 0 {
        "no known affiliations"@
    } else {
        join_seq(Seq::new(s.len(), |i: int| standing_entry(s[i])), "; "@)
    }
}

pub fn format_faction_standings(standings: &Vec<(String, i32)>) -> (r: String)
    ensures
        r@ == standings_text(standings@),
{
    if standings.len() == 0 {
        return owned("no known affiliations");
    }
    let mut parts: Vec<String> = Vec::new();
    let mut i: usize = 0;
    while i < standings.len()
        invariant
            i <= standings@.len(),
            parts@.len() == i,
            forall|j: int| 0 <= j < i ==> #[trigger] parts@[j]@ == standing_entry(standings@[j]),
        decreases standings.len() - i,
    {
        parts.push(standing_text(&standings[i]));
        i = i + 1;
    }
    assert(views(parts@) =~= Seq::new(standings@.len(), |i: int| standing_entry(standings@[i])));
    join(&parts, "; ")
}

/// One nearby entity as shown in prompts: "name [tags]".
pub open spec fn nearby_entry(e: EntityInfo) -> Seq<char> {
    e.name@ + " ["@ + tag_list_text(e.tag_names@) + "]"@
}

/// Nearby entities for a prompt: "none notable", or the entries joined by ", ".
pub open spec fn nearby_text(es: Seq<EntityInfo>) -> Seq<char> {
    if es.len() == 0 {
        "none notable"@
    } else {
        join_seq(Seq::new(es.len(), |i: int| nearby_entry(es[i])), ", "@)
    }
}

pub fn format_nearby_summary(entities: &Vec<EntityInfo>) -> (r: String)
    ensures
        r@ == nearby_text(entities@),
{
    if entities.len() == 0 {
        return owned("none notable");
    }
    let mut parts: Vec<String> = Vec::new();
    let mut i: usize = 0;
    while i < entities.len()
        invariant
            i <= entities@.len(),
            parts@.len() == i,
            forall|j: int| 0 <= j < i ==> #[trigger] parts@[j]@ == nearby_entry(entities@[j]),
        decreases entities.len() - i,
    {
        let mut p = entities[i].name.clone();
        p.append(" [");
        p.append(format_tag_list(&entities[i].tag_names).as_str());
        p.append("]");
        parts.push(p);
        i = i + 1;
    }
    assert(views(parts@) =~= Seq::new(entities@.len(), |i: int| nearby_entry(entities@[i])));
    join(&parts, ", ")
}

/// Health as "current/max", or "unknown".
pub open spec fn health_text_spec(h: Option<EntityHealth>) -> Seq<char> {
    match h {
        Some(h) => decimal(h.current as nat) + "/"@ + decimal(h.max as nat),
        None => "unknown"@,
    }
}

/// Health as "Health: current/max. ", or nothing.
pub open spec fn health_context_spec(h: Option<EntityHealth>) -> Seq<char> {
    match h {
        Some(h) => "Health: "@ + decimal(h.current as nat) + "/"@ + decimal(h.max as nat) + ". "@,
        None => seq![],
    }
}

/// Position as "(x, y)", or "unknown".
pub open spec fn position_text_spec(p: Option<EntityPosition>) -> Seq<char> {
    match p {
        Some(p) => "("@ + decimal(p.x as nat) + ", "@ + decimal(p.y as nat) + ")"@,
        None => "unknown"@,
    }
}

pub fn format_health(health: &Option<EntityHealth>) -> (r: String)
    ensures
        r@ == health_text_spec(*health),
{
    match health {
        Some(h) => {
            let mut out = u32_text(h.current);
            out.append("/");
            out.append(u32_text(h.max).as_str());
            out
        },
        None => owned("unknown"),
    }
}

pub fn format_health_context(health: &Option<EntityHealth>) -> (r: String)
    ensures
        r@ == health_context_spec(*health),
{
    match health {
        Some(h) => {
            let mut out = owned("Health: ");
            out.append(u32_text(h.current).as_str());
            out.append("/");
            out.append(u32_text(h.max).as_str());
            out.append(". ");
            out
        },
        None => String::new(),
    }
}

pub fn format_position(pos: &Option<EntityPosition>) -> (r: String)
    ensures
        r@ == position_text_spec(*pos),
{
    match pos {
        Some(p) => {
            let mut out = owned("(");
            out.append(u32_text(p.x).as_str());
            out.append(", ");
            out.append(u32_text(p.y).as_str());
            out.append(")");
            out
        },
        None => owned("unknown"),
    }
}

/// The variables available to prompt templates, as (key, value) pairs in this order.
pub open spec fn var_map_spec(c: PromptContext, npc_kind: Seq<char>, nearby: Seq<EntityInfo>) -> Seq<(Seq<char>, Seq<char>)> {
    seq![
        ("player_name"@, c.player.name@),
        ("player_tags"@, tag_list_text(c.player.tag_names@)),
        ("player_health"@, health_text_spec(c.player.health)),
        ("player_health_context"@, health_context_spec(c.player.health)),
        ("player_position"@, position_text_spec(c.player.position)),
        ("npc_name"@, c.npc.name@),
        ("npc_kind"@, npc_kind),
        ("npc_tags"@, tag_list_text(c.npc.tag_names@)),
        ("npc_health"@, health_text_spec(c.npc.health)),
        ("npc_health_context"@, health_context_spec(c.npc.health)),
        ("npc_position"@, position_text_spec(c.npc.position)),
        ("location"@, c.scene.location@),
        ("turn"@, decimal(c.scene.turn as nat)),
        ("environment"@, match c.scene.environment { Some(e) => e@, None => "an unknown environment"@ }),
        ("nearby_summary"@, nearby_text(nearby)),
        ("action_intent"@, match c.action { Some(a) => a.intent@, None => seq![] }),
        ("action_outcome"@, match c.action { Some(a) => outcome_label(a.outcome), None => seq![] }),
    ]
}

/// The views of variable bindings.
pub open spec fn var_views(v: Seq<(String, String)>) -> Seq<(Seq<char>, Seq<char>)> {
    v.map_values(|p: (String, String)| (p.0@, p.1@))
}

/// Builds the template variables for a context.
pub fn build_var_map(context: &PromptContext, npc_kind: &str, nearby: &Vec<EntityInfo>) -> (r: Vec<(String, String)>)
    ensures
        var_views(r@) == var_map_spec(*context, npc_kind@, nearby@),
{
    let mut vars: Vec<(String, String)> = Vec::new();
    vars.push((owned("player_name"), context.player.name.clone()));
    vars.push((owned("player_tags"), format_tag_list(&context.player.tag_names)));
    vars.push((owned("player_health"), format_health(&context.player.health)));
    vars.push((owned("player_health_context"), format_health_context(&context.player.health)));
    vars.push((owned("player_position"), format_position(&context.player.position)));
    vars.push((owned("npc_name"), context.npc.name.clone()));
    vars.push((owned("npc_kind"), owned(npc_kind)));
    vars.push((owned("npc_tags"), format_tag_list(&context.npc.tag_names)));
    vars.push((owned("npc_health"), format_health(&context.npc.health)));
    vars.push((owned("npc_health_context"), format_health_context(&context.npc.health)));
    vars.push((owned("npc_position"), format_position(&context.npc.position)));
    vars.push((owned("location"), context.scene.location.clone()));
    vars.push((owned("turn"), u64_text(context.scene.turn)));
    let env = match &context.scene.environment {
        Some(e) => e.clone(),
        None => owned("an unknown environment"),
    };
    vars.push((owned("environment"), env));
    vars.push((owned("nearby_summary"), format_nearby_summary(nearby)));
    match &context.action {
        Some(action) => {
            vars.push((owned("action_intent"), action.intent.clone()));
            vars.push((owned("action_outcome"), owned(action.outcome.as_str())));
        },
        None => {
            vars.push((owned("action_intent"), String::new()));
            vars.push((owned("action_outcome"), String::new()));
        },
    }
    assert(var_views(vars@) =~= var_map_spec(*context, npc_kind@, nearby@));
    vars
}

/// Builds narration prompts from the configured templates.
pub struct PromptBuilder {
    pub system_prompt: String,
    pub examine_entity_template: String,
    pub examine_location_template: String,
    pub npc_interaction_template: String,
}

/// The template used for a context: the interaction template when an action was attempted,
/// the entity template when the NPC is named (and not "Unknown"), else the location template.
pub open spec fn chosen_template(b: PromptBuilder, c: PromptContext) -> Seq<char> {
    if c.action is Some {
        b.npc_interaction_template@
    } else if c.npc.name@.len() != 0 && c.npc.name@ != "Unknown"@ {
        b.examine_entity_template@
    } else {
        b.examine_location_template@
    }
}

impl PromptBuilder {
    /// Takes the narration templates from the prompt configuration.
    pub fn new(prompts: &PromptConfig) -> (r: Self)
        ensures
            r.system_prompt@ == prompts.system@,
            r.examine_entity_template@ == prompts.examine_entity@,
            r.examine_location_template@ == prompts.examine_location@,
            r.npc_interaction_template@ == prompts.npc_interaction@,
    {
        PromptBuilder {
            system_prompt: prompts.system.clone(),
            examine_entity_template: prompts.examine_entity.clone(),
            examine_location_template: prompts.examine_location.clone(),
            npc_interaction_template: prompts.npc_interaction.clone(),
        }
    }

    /// The narration request for a context.
    pub fn build_messages(&self, context: &PromptContext) -> (r: Vec<ChatMessage>)
        ensures
            exists|vars: Seq<(String, String)>| var_views(vars) == var_map_spec(*context, "Creature"@, Seq::empty())
                && message_views(r@) == narration_request(*self, *context, substituted(chosen_template(*self, *context), vars)),
    {
        let nearby: Vec<EntityInfo> = Vec::new();
        self.build_messages_with_nearby(context, &nearby)
    }

    /// The narration request for a context, listing the given nearby entities.
    pub fn build_messages_with_nearby(&self, context: &PromptContext, nearby: &Vec<EntityInfo>) -> (r: Vec<ChatMessage>)
        ensures
            exists|vars: Seq<(String, String)>| var_views(vars) == var_map_spec(*context, "Creature"@, nearby@)
                && message_views(r@) == narration_request(*self, *context, substituted(chosen_template(*self, *context), vars)),
    {
        let template: &String = if context.action.is_some() {
            &self.npc_interaction_template
        } else if !context.npc.name.as_str().is_empty() && !crate::text::str_eq(context.npc.name.as_str(), "Unknown") {
            &self.examine_entity_template
        } else {
            &self.examine_location_template
        };
        let vars = build_var_map(context, "Creature", nearby);
        let rendered = substitute(template.as_str(), &vars);
        let mut messages: Vec<ChatMessage> = Vec::new();
        if !self.system_prompt.as_str().is_empty() {
            messages.push(ChatMessage { role: owned("system"), content: self.system_prompt.clone() });
        } else if !context.system_instructions.as_str().is_empty() {
            messages.push(ChatMessage { role: owned("system"), content: context.system_instructions.clone() });
        }
        messages.push(ChatMessage { role: owned("user"), content: rendered });
        assert(message_views(messages@) =~= narration_request(*self, *context, substituted(chosen_template(*self, *context), vars@)));
        messages
    }
}

/// The messages of a narration request whose user text is `user`: a system message with the
/// builder's system prompt, or else the context's instructions, or none when both are empty.
pub open spec fn narration_request(b: PromptBuilder, c: PromptContext, user: Seq<char>) -> Seq<(Seq<char>, Seq<char>)> {
    if b.system_prompt@.len() != 0 {
        seq![msg("system"@, b.system_prompt@), msg("user"@, user)]
    } else if c.system_instructions@.len() != 0 {
        seq![msg("system"@, c.system_instructions@), msg("user"@, user)]
    } else {
        seq![msg("user"@, user)]
    }
}

} // verus!
