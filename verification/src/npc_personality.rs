//! The parts of an NPC personality profile that carry no weights: voice lines and
//! conversation topics.
use vstd::prelude::*;

verus! {

/// How an NPC greets the player at each standing.
#[derive(Debug, Clone)]
pub struct VoiceTemplate {
    pub hostile: Option<String>,
    pub neutral: Option<String>,
    pub ally: Option<String>,
}

/// A line template the NPC uses when a trigger comes up in conversation.
#[derive(Debug, Clone)]
pub struct ConversationTopic {
    pub trigger: String,
    pub template: String,
}

} // verus!
