//! Project settings, remembered UI state and AI context.

use vstd::prelude::*;

use crate::ids::fresh_id;
use crate::models::block::BlockType;

verus! {

/// Per-project settings.
#[derive(Debug, Clone, PartialEq, Eq)]
pub struct ProjectSettings {
    /// Deepest allowed nesting of the chapter tree.
    pub max_depth: u32,
    /// Block types left out of the word count.
    pub word_count_exclude_types: Vec<BlockType>,
}

impl Default for ProjectSettings {
    /// Depth 3; notes and scene breaks excluded from the word count.
    fn default() -> (r: Self)
        ensures
            r.max_depth == 3,
            r.word_count_exclude_types@ == seq![BlockType::Note, BlockType::SceneBreak],
    {
        let mut v: Vec<BlockType> = Vec::new();
        v.push(BlockType::Note);
        v.push(BlockType::SceneBreak);
        ProjectSettings { max_depth: 3, word_count_exclude_types: v }
    }
}

/// UI state remembered with the project.
#[derive(Debug, Clone, PartialEq, Eq)]
pub struct UiState {
    pub expanded_nodes: Vec<String>,
    /// Labels of the collapsed outline categories.
    pub collapsed_outline_categories: Vec<String>,
    pub sidebar_tab: String,
    pub ai_panel_open: bool,
    pub preview_panel_open: bool,
}

impl Default for UiState {
    /// Nothing expanded or collapsed, chapters tab, panels closed.
    fn default() -> (r: Self)
        ensures
            r.expanded_nodes@.len() == 0,
            r.collapsed_outline_categories@.len() == 0,
            r.sidebar_tab@ == "chapters"@,
            !r.ai_panel_open,
            !r.preview_panel_open,
    {
        UiState {
            expanded_nodes: Vec::new(),
            collapsed_outline_categories: Vec::new(),
            sidebar_tab: String::from_str("chapters"),
            ai_panel_open: false,
            preview_panel_open: false,
        }
    }
}

/// Texts handed to the AI assistant: style guide, synopsis and the prompts
/// added to the writer, proofreading and director roles.
#[derive(Debug, Clone, PartialEq, Eq)]
pub struct AiContext {
    pub style_guide: String,
    pub synopsis: String,
    pub writer_prompt: String,
    pub reviewer_prompt: String,
    pub director_prompt: String,
}

impl Default for AiContext {
    /// All texts empty.
    fn default() -> (r: Self)
        ensures
            r.style_guide@.len() == 0,
            r.synopsis@.len() == 0,
            r.writer_prompt@.len() == 0,
            r.reviewer_prompt@.len() == 0,
            r.director_prompt@.len() == 0,
    {
        AiContext {
            style_guide: String::new(),
            synopsis: String::new(),
            writer_prompt: String::new(),
            reviewer_prompt: String::new(),
            director_prompt: String::new(),
        }
    }
}

/// A writing project.
#[derive(Debug, Clone, PartialEq, Eq)]
pub struct Project {
    pub schema_version: u32,
    pub id: u128,
    pub title: String,
    pub created_at: i64,
    pub updated_at: i64,
    pub last_opened_chapter: Option<u128>,
    pub last_opened_script: Option<u128>,
    pub total_word_count: u64,
    pub settings: ProjectSettings,
    pub ui_state: UiState,
    pub ai_context: AiContext,
}

impl Project {
    /// A new project (schema version 1) with default settings, UI state and
    /// AI context, and nothing opened yet.
    pub fn new(title: String, now: i64) -> (r: Self)
        ensures
            r.schema_version == 1,
            r.title@ == title@,
            r.created_at == now,
            r.updated_at == now,
            r.last_opened_chapter is None,
            r.last_opened_script is None,
            r.total_word_count == 0,
            r.settings.max_depth == 3,
            r.settings.word_count_exclude_types@ == seq![BlockType::Note, BlockType::SceneBreak],
            r.ui_state.sidebar_tab@ == "chapters"@,
            !r.ui_state.ai_panel_open,
            !r.ui_state.preview_panel_open,
            r.ui_state.expanded_nodes@.len() == 0,
            r.ui_state.collapsed_outline_categories@.len() == 0,
            r.ai_context.style_guide@.len() == 0,
            r.ai_context.synopsis@.len() == 0,
            r.ai_context.writer_prompt@.len() == 0,
            r.ai_context.reviewer_prompt@.len() == 0,
            r.ai_context.director_prompt@.len() == 0,
    {
        Project {
            schema_version: 1,
            id: fresh_id(),
            title,
            created_at: now,
            updated_at: now,
            last_opened_chapter: None,
            last_opened_script: None,
            total_word_count: 0,
            settings: ProjectSettings::default(),
            ui_state: UiState::default(),
            ai_context: AiContext::default(),
        }
    }
}

} // verus!
