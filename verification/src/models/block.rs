//! Paragraph blocks of a novel chapter.

use vstd::prelude::*;

use crate::ids::fresh_id;

verus! {

/// The kind of a chapter block.
#[derive(Debug, Clone, Copy, PartialEq, Eq, Structural)]
pub enum BlockType {
    Narration,
    Aside,
    Dialogue,
    Thought,
    SceneBreak,
    Note,
}

impl BlockType {
    pub open spec fn spec_counts_toward_word_total(self) -> bool {
        self is Narration || self is Aside || self is Dialogue || self is Thought
    }

    pub open spec fn spec_allows_speaker(self) -> bool {
        self is Dialogue || self is Thought
    }

    pub open spec fn spec_label(self) -> &'static str {
        match self {
            BlockType::Narration => "叙述",
            BlockType::Aside => "旁白",
            BlockType::Dialogue => "对话",
            BlockType::Thought => "心理活动",
            BlockType::SceneBreak => "场景分隔",
            BlockType::Note => "备注",
        }
    }

    /// Narration, aside, dialogue and thought count toward the word total.
    pub fn counts_toward_word_total(self) -> (r: bool)
        ensures
            r == self.spec_counts_toward_word_total(),
    {
        match self {
            BlockType::Narration | BlockType::Aside | BlockType::Dialogue | BlockType::Thought => true,
            _ => false,
        }
    }

    /// Dialogue and thought blocks may name a speaker.
    pub fn allows_speaker(self) -> (r: bool)
        ensures
            r == self.spec_allows_speaker(),
    {
        match self {
            BlockType::Dialogue | BlockType::Thought => true,
            _ => false,
        }
    }

    /// Dialogue and thought blocks count in the dialogue statistic.
    pub fn counts_as_dialogue_stat(self) -> (r: bool)
        ensures
            r == self.spec_allows_speaker(),
    {
        match self {
            BlockType::Dialogue | BlockType::Thought => true,
            _ => false,
        }
    }

    /// The display name of the block type.
    pub fn label(self) -> (r: &'static str)
        ensures
            r == self.spec_label(),
    {
        match self {
            BlockType::Narration => "叙述",
            BlockType::Aside => "旁白",
            BlockType::Dialogue => "对话",
            BlockType::Thought => "心理活动",
            BlockType::SceneBreak => "场景分隔",
            BlockType::Note => "备注",
        }
    }
}

/// Creation and modification times of a block, in milliseconds since the
/// Unix epoch, and a free-form note.
#[derive(Debug, Clone, PartialEq, Eq)]
pub struct BlockMeta {
    pub created_at: i64,
    pub updated_at: i64,
    pub note: String,
}

impl BlockMeta {
    /// Both times set to `now`, empty note.
    pub fn new(now: i64) -> (r: Self)
        ensures
            r.created_at == now,
            r.updated_at == now,
            r.note@.len() == 0,
    {
        BlockMeta { created_at: now, updated_at: now, note: String::new() }
    }
}

/// One paragraph of a chapter.
#[derive(Debug, Clone, PartialEq, Eq)]
pub struct Block {
    pub id: u128,
    pub block_type: BlockType,
    pub content: String,
    pub speaker: Option<String>,
    pub meta: BlockMeta,
}

impl Block {
    /// A block of the given type and content with a fresh id and no speaker.
    pub fn new(block_type: BlockType, content: String, now: i64) -> (r: Self)
        ensures
            r.block_type == block_type,
            r.content@ == content@,
            r.speaker is None,
            r.meta.created_at == now,
            r.meta.updated_at == now,
            r.meta.note@.len() == 0,
    {
        Block { id: fresh_id(), block_type, content, speaker: None, meta: BlockMeta::new(now) }
    }

    /// A dialogue block spoken by `speaker`.
    pub fn new_dialogue(content: String, speaker: String, now: i64) -> (r: Self)
        ensures
            r.block_type == BlockType::Dialogue,
            r.content@ == content@,
            r.speaker matches Some(s) && s@ == speaker@,
            r.meta.created_at == now,
            r.meta.updated_at == now,
            r.meta.note@.len() == 0,
    {
        Block {
            id: fresh_id(),
            block_type: BlockType::Dialogue,
            content,
            speaker: Some(speaker),
            meta: BlockMeta::new(now),
        }
    }

    /// A thought block of `speaker`.
    pub fn new_thought(content: String, speaker: String, now: i64) -> (r: Self)
        ensures
            r.block_type == BlockType::Thought,
            r.content@ == content@,
            r.speaker matches Some(s) && s@ == speaker@,
            r.meta.created_at == now,
            r.meta.updated_at == now,
            r.meta.note@.len() == 0,
    {
        Block {
            id: fresh_id(),
            block_type: BlockType::Thought,
            content,
            speaker: Some(speaker),
            meta: BlockMeta::new(now),
        }
    }
}

} // verus!
