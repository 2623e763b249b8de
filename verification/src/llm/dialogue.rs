//! Prompts for talking with NPCs: greetings, conversation turns and farewells.
use vstd::prelude::*;
use vstd::string::*;
use crate::llm::client::{ChatMessage, message_views, msg};
use crate::llm::config::PromptConfig;
use crate::llm::context::PromptContext;
use crate::llm::prompt::{substitute, substituted, var_views};
use crate::text::owned;

verus! {

/// Builds dialogue prompts from the configured templates.
pub struct DialoguePromptBuilder {
    pub system_prompt: String,
    pub greeting_template: String,
    pub conversation_template: String,
    pub farewell_template: String,
}

/// The conversation so far, one "speaker: text" line per exchange.
pub open spec fn history_text(h: Seq<(String, String)>) -> Seq<char>
    decreases h.len(),
{
    if h.len() == 0 { seq![] } else { history_text(h.drop_last()) + h.last().0@ + ": "@ + h.last().1@ + "\n"@ }
}

/// Variables of a greeting.
pub open spec fn greeting_vars(c: PromptContext) -> Seq<(Seq<char>, Seq<char>)> {
    seq![("player_name"@, c.player.name@), ("npc_name"@, c.npc.name@), ("location"@, c.scene.location@)]
}

/// Variables of a conversation turn.
pub open spec fn conversation_vars(c: PromptContext, history: Seq<(String, String)>, input: Seq<char>) -> Seq<(Seq<char>, Seq<char>)> {
    greeting_vars(c).push(("history"@, history_text(history))).push(("player_input"@, input))
}

/// Variables of a farewell.
pub open spec fn farewell_vars(c: PromptContext, history: Seq<(String, String)>) -> Seq<(Seq<char>, Seq<char>)> {
    greeting_vars(c).push(("history"@, history_text(history)))
}

/// A dialogue request: the personality prompt as the system message when non-empty, else
/// the configured system prompt when non-empty, else none; then the filled template.
pub open spec fn dialogue_request(b: DialoguePromptBuilder, personality: Seq<char>, user: Seq<char>) -> Seq<(Seq<char>, Seq<char>)> {
    if personality.len() != 0 {
        seq![msg("system"@, personality), msg("user"@, user)]
    } else if b.system_prompt@.len() != 0 {
        seq![msg("system"@, b.system_prompt@), msg("user"@, user)]
    } else {
        seq![msg("user"@, user)]
    }
}

fn history_string(history: &Vec<(String, String)>) -> (r: String)
    ensures
        r@ == history_text(history@),
{
    let mut out = String::new();
    let mut i: usize = 0;
    while i < history.len()
        invariant
            i <= history@.len(),
            out@ == history_text(history@.subrange(0, i as int)),
        decreases history.len() - i,
    {
        assert(history@.subrange(0, i + 1).drop_last() =~= history@.subrange(0, i as int));
        out.append(history[i].0.as_str());
        out.append(": ");
        out.append(history[i].1.as_str());
        out.append("\n");
        i = i + 1;
    }
    assert(history@.subrange(0, history@.len() as int) =~= history@);
    out
}

fn base_vars(context: &PromptContext) -> (r: Vec<(String, String)>)
    ensures
        var_views(r@) == greeting_vars(*context),
{
    let mut vars: Vec<(String, String)> = Vec::new();
    vars.push((owned("player_name"), context.player.name.clone()));
    vars.push((owned("npc_name"), context.npc.name.clone()));
    vars.push((owned("location"), context.scene.location.clone()));
    assert(var_views(vars@) =~= greeting_vars(*context));
    vars
}

impl DialoguePromptBuilder {
    /// Takes the dialogue templates from the prompt configuration.
    pub fn new(prompts: &PromptConfig) -> (r: Self)
        ensures
            r.system_prompt@ == prompts.system@,
            r.greeting_template@ == prompts.greeting@,
            r.conversation_template@ == prompts.conversation@,
            r.farewell_template@ == prompts.farewell@,
    {
        DialoguePromptBuilder {
            system_prompt: prompts.system.clone(),
            greeting_template: prompts.greeting.clone(),
            conversation_template: prompts.conversation.clone(),
            farewell_template: prompts.farewell.clone(),
        }
    }

    fn build_messages(&self, personality_prompt: &str, content: String) -> (r: Vec<ChatMessage>)
        ensures
            message_views(r@) == dialogue_request(*self, personality_prompt@, content@),
    {
        let mut messages: Vec<ChatMessage> = Vec::new();
        if !personality_prompt.is_empty() {
            messages.push(ChatMessage { role: owned("system"), content: owned(personality_prompt) });
        } else if !self.system_prompt.as_str().is_empty() {
            messages.push(ChatMessage { role: owned("system"), content: self.system_prompt.clone() });
        }
        let ghost user = content@;
        messages.push(ChatMessage { role: owned("user"), content });
        assert(message_views(messages@) =~= dialogue_request(*self, personality_prompt@, user));
        messages
    }

    /// The greeting request.
    pub fn build_greeting(&self, context: &PromptContext, personality_prompt: &str) -> (r: Vec<ChatMessage>)
        ensures
            exists|vars: Seq<(String, String)>| var_views(vars) == greeting_vars(*context)
                && message_views(r@) == dialogue_request(*self, personality_prompt@, substituted(self.greeting_template@, vars)),
    {
        let vars = base_vars(context);
        let rendered = substitute(self.greeting_template.as_str(), &vars);
        self.build_messages(personality_prompt, rendered)
    }

    /// The request for one conversation turn.
    pub fn build_conversation(
        &self,
        context: &PromptContext,
        personality_prompt: &str,
        history: &Vec<(String, String)>,
        player_input: &str,
    ) -> (r: Vec<ChatMessage>)
        ensures
            exists|vars: Seq<(String, String)>| var_views(vars) == conversation_vars(*context, history@, player_input@)
                && message_views(r@) == dialogue_request(*self, personality_prompt@, substituted(self.conversation_template@, vars)),
    {
        let mut vars = base_vars(context);
        vars.push((owned("history"), history_string(history)));
        vars.push((owned("player_input"), owned(player_input)));
        assert(var_views(vars@) =~= conversation_vars(*context, history@, player_input@));
        let rendered = substitute(self.conversation_template.as_str(), &vars);
        self.build_messages(personality_prompt, rendered)
    }

    /// The farewell request.
    pub fn build_farewell(
        &self,
        context: &PromptContext,
        personality_prompt: &str,
        history: &Vec<(String, String)>,
    ) -> (r: Vec<ChatMessage>)
        ensures
            exists|vars: Seq<(String, String)>| var_views(vars) == farewell_vars(*context, history@)
                && message_views(r@) == dialogue_request(*self, personality_prompt@, substituted(self.farewell_template@, vars)),
    {
        let mut vars = base_vars(context);
        vars.push((owned("history"), history_string(history)));
        assert(var_views(vars@) =~= farewell_vars(*context, history@));
        let rendered = substitute(self.farewell_template.as_str(), &vars);
        self.build_messages(personality_prompt, rendered)
    }
}

} // verus!
