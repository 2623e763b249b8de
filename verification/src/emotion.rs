//! NPC moods and where a conversation with an NPC stands.
use vstd::prelude::*;

verus! {

/// An NPC's dominant emotion.
#[derive(Debug, Clone, Copy, PartialEq, Eq, Structural)]
pub enum Emotion {
    Neutral,
    Happy,
    Angry,
    Fearful,
    Sad,
}

/// Where a conversation stands.
#[derive(Debug, Clone, Copy, PartialEq, Eq, Structural)]
pub enum ConversationState {
    Idle,
    Greeting,
    Dialogue,
    Trading,
    Fighting,
    Goodbye,
}

impl Default for ConversationState {
    /// No conversation.
    fn default() -> (r: Self)
        ensures
            r == ConversationState::Idle,
    {
        ConversationState::Idle
    }
}

} // verus!
