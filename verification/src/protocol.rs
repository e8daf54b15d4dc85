//! Conversation records shared by the application and the AI service.
use vstd::prelude::*;

verus! {

/// Who spoke.
#[derive(Debug, Clone, Copy, PartialEq, Eq, Structural)]
pub enum Speaker {
    Student,
    Ai,
}

/// Difficulty of a practice scenario.
#[derive(Debug, Clone, Copy, PartialEq, Eq, Structural)]
pub enum Difficulty {
    Beginner,
    Elementary,
    Intermediate,
    Advanced,
}

/// A conversation scenario.
#[derive(Debug, Clone)]
pub struct Scenario {
    pub id: String,
    pub name: String,
    pub description: String,
    pub difficulty: Difficulty,
    pub system_prompt: String,
    pub vocabulary: Vec<String>,
}

} // verus!
