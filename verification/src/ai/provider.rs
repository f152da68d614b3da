//! The boundary between the workspace and a text-generation back end.

use vstd::prelude::*;

use crate::models::block::Block;
use crate::models::outline::OutlineEntry;

verus! {

/// What the user asks the assistant to do.
#[derive(Debug, Clone, Copy, PartialEq, Eq, Structural)]
pub enum AiAction {
    Chat,
    Continue,
    Rewrite,
    Expand,
    GenerateDialogue,
    Summarize,
}

/// The project facts a request carries.
#[derive(Debug, Clone, PartialEq, Eq)]
pub struct ProjectContext {
    pub project_id: u128,
    pub title: String,
    pub style_guide: String,
    pub synopsis: String,
}

/// The chapter facts a request carries.
#[derive(Debug, Clone, PartialEq, Eq)]
pub struct ChapterContext {
    pub chapter_id: u128,
    pub title: String,
    pub status: String,
}

/// One completion request.
#[derive(Debug)]
pub struct AiRequest {
    pub project_context: ProjectContext,
    pub chapter_context: ChapterContext,
    pub selected_blocks: Vec<Block>,
    pub outline_entries: Vec<OutlineEntry>,
    pub prompt: String,
    pub action: AiAction,
}

/// One completion answer.
#[derive(Debug, Clone, PartialEq, Eq)]
pub struct AiResponse {
    pub content: String,
}

/// A text-generation back end; it reports failure as text.
pub trait AiProvider {
    fn complete(&self, request: AiRequest) -> Result<AiResponse, String>;
}

/// The back end used while none is configured: it always refuses.
#[derive(Debug, Clone, Copy, PartialEq, Eq, Structural)]
pub struct StubAiProvider;

impl Default for StubAiProvider {
    fn default() -> (r: Self)
        ensures
            r == StubAiProvider,
    {
        StubAiProvider
    }
}

impl AiProvider for StubAiProvider {
    /// Refuses every request: “AI provider not configured”.
    fn complete(&self, request: AiRequest) -> (r: Result<AiResponse, String>)
        ensures
            r matches Err(e) && e@ == "AI provider not configured"@,
    {
        Err(String::from_str("AI provider not configured"))
    }
}

} // verus!
