//! Prompt templates configured for the narrator.
use vstd::prelude::*;
use vstd::string::*;
use crate::llm::client::LlmError;

verus! {

/// The prompt templates; each defaults to empty.
#[derive(Debug)]
pub struct PromptConfig {
    pub system: String,
    pub examine_entity: String,
    pub examine_location: String,
    pub npc_interaction: String,
    pub greeting: String,
    pub conversation: String,
    pub farewell: String,
}

impl Clone for PromptConfig {
    fn clone(&self) -> (r: Self)
        ensures
            r == *self,
    {
        PromptConfig {
            system: self.system.clone(),
            examine_entity: self.examine_entity.clone(),
            examine_location: self.examine_location.clone(),
            npc_interaction: self.npc_interaction.clone(),
            greeting: self.greeting.clone(),
            conversation: self.conversation.clone(),
            farewell: self.farewell.clone(),
        }
    }
}

impl Default for PromptConfig {
    fn default() -> (r: Self)
        ensures
            r.system@.len() == 0,
            r.examine_entity@.len() == 0,
            r.examine_location@.len() == 0,
            r.npc_interaction@.len() == 0,
            r.greeting@.len() == 0,
            r.conversation@.len() == 0,
            r.farewell@.len() == 0,
    {
        PromptConfig {
            system: String::new(),
            examine_entity: String::new(),
            examine_location: String::new(),
            npc_interaction: String::new(),
            greeting: String::new(),
            conversation: String::new(),
            farewell: String::new(),
        }
    }
}


/// The connection settings taken from the environment.
#[derive(Debug)]
pub struct EnvSettings {
    /// Always "openrouter".
    pub provider: String,
    /// The OpenRouter chat completions endpoint.
    pub endpoint: String,
    pub api_key: String,
    pub model: String,
    pub site_url: Option<String>,
    pub app_name: Option<String>,
}

/// The model used when none is named.
pub open spec fn default_env_model() -> Seq<char> {
    "openai/gpt-4o-mini"@
}

/// The settings from the environment's values (`OPENROUTER_API_KEY`, `LLM_API_KEY`,
/// `OPENROUTER_MODEL`, `LLM_SITE_URL`, `LLM_APP_NAME`): the OpenRouter provider and endpoint;
/// the OpenRouter key wins over the generic one, and without either the configuration is
/// missing.
pub fn settings_from_env_values(
    openrouter_key: Option<String>,
    llm_key: Option<String>,
    model: Option<String>,
    site_url: Option<String>,
    app_name: Option<String>,
) -> (r: Result<EnvSettings, LlmError>)
    ensures
        openrouter_key is None && llm_key is None ==> (r matches Err(LlmError::MissingConfig(m))
            && m@ == "OPENROUTER_API_KEY or LLM_API_KEY environment variable not set"@),
        openrouter_key is Some || llm_key is Some ==> (r matches Ok(s) && {
            &&& s.provider@ == "openrouter"@
            &&& s.endpoint@ == "https://openrouter.ai/api/v1/chat/completions"@
            &&& s.api_key == match openrouter_key { Some(k) => k, None => llm_key.unwrap() }
            &&& s.model@ == match model { Some(m) => m@, None => default_env_model() }
            &&& s.site_url == site_url
            &&& s.app_name == app_name
        }),
{
    let api_key = match openrouter_key {
        Some(k) => k,
        None => match llm_key {
            Some(k) => k,
            None => return Err(LlmError::MissingConfig(
                String::from_str("OPENROUTER_API_KEY or LLM_API_KEY environment variable not set"))),
        },
    };
    let model = match model {
        Some(m) => m,
        None => String::from_str("openai/gpt-4o-mini"),
    };
    Ok(EnvSettings {
        provider: String::from_str("openrouter"),
        endpoint: String::from_str("https://openrouter.ai/api/v1/chat/completions"),
        api_key,
        model,
        site_url,
        app_name,
    })
}

} // verus!
