//! Write intents produced by the assistant's tools, and the receipts the
//! tools return to the model.

use std::collections::BTreeMap;

use vstd::prelude::*;

use crate::models::block::{Block, BlockType};
use crate::models::outline::OutlineCategory;
use crate::models::script::{ScriptBlock, ScriptBlockType};

verus! {

/// Optional fields of a partial update of a screenplay block.
#[derive(Debug, Clone, PartialEq, Eq)]
pub struct ScriptBlockUpdateFields {
    pub content: Option<String>,
    pub character: Option<String>,
    pub block_type: Option<ScriptBlockType>,
}

impl Default for ScriptBlockUpdateFields {
    /// Nothing to update.
    fn default() -> (r: Self)
        ensures
            r.content is None,
            r.character is None,
            r.block_type is None,
    {
        ScriptBlockUpdateFields { content: None, character: None, block_type: None }
    }
}

/// A change to the project that a write tool asks for, applied at once or
/// queued as a proposal.
#[derive(Debug, Clone, PartialEq, Eq)]
pub enum AiIntent {
    CreateBlock {
        intent_id: u128,
        chapter_id: u128,
        block_type: BlockType,
        content: String,
        speaker: Option<String>,
        after_block_id: Option<u128>,
    },
    ReplaceBlocks { intent_id: u128, chapter_id: u128, target_ids: Vec<u128>, blocks: Vec<Block> },
    UpdateBlock {
        intent_id: u128,
        chapter_id: u128,
        block_id: u128,
        content: Option<String>,
        block_type: Option<BlockType>,
        speaker: Option<String>,
    },
    DeleteBlock { intent_id: u128, chapter_id: u128, block_id: u128 },
    MoveBlock { intent_id: u128, chapter_id: u128, block_id: u128, to_index: usize },
    CreateChapterDirectory { intent_id: u128, parent_rel: String, name: String },
    CreateChapterFile { intent_id: u128, chapter_id: u128, parent_rel: String, name: String, title: String },
    RenameChapterNode { intent_id: u128, rel_path: String, new_name: String },
    DeleteChapterNode { intent_id: u128, rel_path: String },
    MoveChapterNode { intent_id: u128, rel_path: String, dest_parent_rel: String },
    MoveChapterSibling { intent_id: u128, rel_path: String, direction: i8 },
    CopyChapter {
        intent_id: u128,
        src_rel: String,
        dest_parent_rel: String,
        new_name: String,
        new_chapter_id: u128,
    },
    UpdateChapterTitle { intent_id: u128, chapter_id: u128, title: String },
    CreateOutlineEntry {
        intent_id: u128,
        category: OutlineCategory,
        key: String,
        fields: Option<BTreeMap<String, String>>,
    },
    UpdateOutlineEntry {
        intent_id: u128,
        id: u128,
        key: Option<String>,
        category: Option<OutlineCategory>,
        fields: Option<BTreeMap<String, String>>,
    },
    DeleteOutlineEntry { intent_id: u128, id: u128 },
    CreateScript {
        intent_id: u128,
        title: String,
        parent_rel: String,
        script_id: Option<u128>,
        name: Option<String>,
    },
    CreateScriptDirectory { intent_id: u128, parent_rel: String, name: String },
    RenameScriptNode { intent_id: u128, rel_path: String, new_name: String },
    DeleteScriptNode { intent_id: u128, rel_path: String },
    MoveScriptNode { intent_id: u128, rel_path: String, dest_parent_rel: String },
    MoveScriptSibling { intent_id: u128, rel_path: String, direction: i8 },
    CopyScript {
        intent_id: u128,
        src_rel: String,
        dest_parent_rel: String,
        new_name: String,
        new_script_id: u128,
    },
    UpdateScriptTitle { intent_id: u128, script_id: u128, title: String },
    AppendScriptBlocks { intent_id: u128, script_id: u128, blocks: Vec<ScriptBlock> },
    UpdateScriptBlock { intent_id: u128, script_id: u128, block_id: u128, fields: ScriptBlockUpdateFields },
    DeleteScriptBlock { intent_id: u128, script_id: u128, block_id: u128 },
    MoveScriptBlock { intent_id: u128, script_id: u128, block_id: u128, to_index: usize },
    UpdateProjectMeta {
        intent_id: u128,
        title: Option<String>,
        style_guide: Option<String>,
        synopsis: Option<String>,
    },
}

impl AiIntent {
    /// The id of the intent, whatever its kind.
    pub open spec fn spec_intent_id(self) -> u128 {
        match self {
            AiIntent::CreateBlock { intent_id, .. } => intent_id,
            AiIntent::ReplaceBlocks { intent_id, .. } => intent_id,
            AiIntent::UpdateBlock { intent_id, .. } => intent_id,
            AiIntent::DeleteBlock { intent_id, .. } => intent_id,
            AiIntent::MoveBlock { intent_id, .. } => intent_id,
            AiIntent::CreateChapterDirectory { intent_id, .. } => intent_id,
            AiIntent::CreateChapterFile { intent_id, .. } => intent_id,
            AiIntent::RenameChapterNode { intent_id, .. } => intent_id,
            AiIntent::DeleteChapterNode { intent_id, .. } => intent_id,
            AiIntent::MoveChapterNode { intent_id, .. } => intent_id,
            AiIntent::MoveChapterSibling { intent_id, .. } => intent_id,
            AiIntent::CopyChapter { intent_id, .. } => intent_id,
            AiIntent::UpdateChapterTitle { intent_id, .. } => intent_id,
            AiIntent::CreateOutlineEntry { intent_id, .. } => intent_id,
            AiIntent::UpdateOutlineEntry { intent_id, .. } => intent_id,
            AiIntent::DeleteOutlineEntry { intent_id, .. } => intent_id,
            AiIntent::CreateScript { intent_id, .. } => intent_id,
            AiIntent::CreateScriptDirectory { intent_id, .. } => intent_id,
            AiIntent::RenameScriptNode { intent_id, .. } => intent_id,
            AiIntent::DeleteScriptNode { intent_id, .. } => intent_id,
            AiIntent::MoveScriptNode { intent_id, .. } => intent_id,
            AiIntent::MoveScriptSibling { intent_id, .. } => intent_id,
            AiIntent::CopyScript { intent_id, .. } => intent_id,
            AiIntent::UpdateScriptTitle { intent_id, .. } => intent_id,
            AiIntent::AppendScriptBlocks { intent_id, .. } => intent_id,
            AiIntent::UpdateScriptBlock { intent_id, .. } => intent_id,
            AiIntent::DeleteScriptBlock { intent_id, .. } => intent_id,
            AiIntent::MoveScriptBlock { intent_id, .. } => intent_id,
            AiIntent::UpdateProjectMeta { intent_id, .. } => intent_id,
        }
    }

    /// The id of the intent.
    pub fn intent_id(&self) -> (r: u128)
        ensures
            r == self.spec_intent_id(),
    {
        match self {
            AiIntent::CreateBlock { intent_id, .. } => *intent_id,
            AiIntent::ReplaceBlocks { intent_id, .. } => *intent_id,
            AiIntent::UpdateBlock { intent_id, .. } => *intent_id,
            AiIntent::DeleteBlock { intent_id, .. } => *intent_id,
            AiIntent::MoveBlock { intent_id, .. } => *intent_id,
            AiIntent::CreateChapterDirectory { intent_id, .. } => *intent_id,
            AiIntent::CreateChapterFile { intent_id, .. } => *intent_id,
            AiIntent::RenameChapterNode { intent_id, .. } => *intent_id,
            AiIntent::DeleteChapterNode { intent_id, .. } => *intent_id,
            AiIntent::MoveChapterNode { intent_id, .. } => *intent_id,
            AiIntent::MoveChapterSibling { intent_id, .. } => *intent_id,
            AiIntent::CopyChapter { intent_id, .. } => *intent_id,
            AiIntent::UpdateChapterTitle { intent_id, .. } => *intent_id,
            AiIntent::CreateOutlineEntry { intent_id, .. } => *intent_id,
            AiIntent::UpdateOutlineEntry { intent_id, .. } => *intent_id,
            AiIntent::DeleteOutlineEntry { intent_id, .. } => *intent_id,
            AiIntent::CreateScript { intent_id, .. } => *intent_id,
            AiIntent::CreateScriptDirectory { intent_id, .. } => *intent_id,
            AiIntent::RenameScriptNode { intent_id, .. } => *intent_id,
            AiIntent::DeleteScriptNode { intent_id, .. } => *intent_id,
            AiIntent::MoveScriptNode { intent_id, .. } => *intent_id,
            AiIntent::MoveScriptSibling { intent_id, .. } => *intent_id,
            AiIntent::CopyScript { intent_id, .. } => *intent_id,
            AiIntent::UpdateScriptTitle { intent_id, .. } => *intent_id,
            AiIntent::AppendScriptBlocks { intent_id, .. } => *intent_id,
            AiIntent::UpdateScriptBlock { intent_id, .. } => *intent_id,
            AiIntent::DeleteScriptBlock { intent_id, .. } => *intent_id,
            AiIntent::MoveScriptBlock { intent_id, .. } => *intent_id,
            AiIntent::UpdateProjectMeta { intent_id, .. } => *intent_id,
        }
    }
}

/// The outcome of a write tool.
#[derive(Debug, Clone, Copy, PartialEq, Eq, Structural)]
pub enum IntentStatus {
    Proposed,
    Applied,
    Error,
}

/// What a write tool reports back to the model.
#[derive(Debug, Clone, PartialEq, Eq)]
pub struct ToolReceipt {
    pub status: IntentStatus,
    pub intent_id: u128,
    pub summary: String,
    pub error: Option<String>,
}

} // verus!
