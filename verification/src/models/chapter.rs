//! Novel chapters.

use vstd::prelude::*;

use crate::ids::fresh_id;
use crate::models::block::{Block, BlockMeta, BlockType};

verus! {

/// Editorial status of a chapter.
#[derive(Debug, Clone, PartialEq, Eq)]
pub struct ChapterMeta {
    pub status: String,
}

impl Default for ChapterMeta {
    /// A draft.
    fn default() -> (r: Self)
        ensures
            r.status@ == "draft"@,
    {
        ChapterMeta { status: String::from_str("draft") }
    }
}

/// A chapter: a title and an ordered list of blocks.
#[derive(Debug, Clone, PartialEq, Eq)]
pub struct Chapter {
    pub schema_version: u32,
    pub id: u128,
    pub title: String,
    pub blocks: Vec<Block>,
    pub meta: ChapterMeta,
}

impl Chapter {
    /// A new draft chapter (schema version 1) with one empty narration block.
    pub fn new(title: String, now: i64) -> (r: Self)
        ensures
            r.schema_version == 1,
            r.title@ == title@,
            r.blocks@.len() == 1,
            r.blocks@[0].block_type == BlockType::Narration,
            r.blocks@[0].content@.len() == 0,
            r.blocks@[0].speaker is None,
            r.blocks@[0].meta.created_at == now,
            r.blocks@[0].meta.updated_at == now,
            r.meta.status@ == "draft"@,
    {
        let mut blocks: Vec<Block> = Vec::new();
        blocks.push(Block::new(BlockType::Narration, String::new(), now));
        Chapter { schema_version: 1, id: fresh_id(), title, blocks, meta: ChapterMeta::default() }
    }
}

/// Why an edit of a chapter was refused.
#[derive(Debug, Clone, Copy, PartialEq, Eq, Structural)]
pub enum ChapterError {
    InsertOutOfRange,
    RemoveOutOfRange,
    IndexOutOfRange,
    SpeakerNotAllowed,
    MoveFromOutOfRange,
    MoveToOutOfRange,
}

impl ChapterError {
    pub open spec fn spec_message(self) -> &'static str {
        match self {
            ChapterError::InsertOutOfRange => "insert index out of range",
            ChapterError::RemoveOutOfRange => "remove index out of range",
            ChapterError::IndexOutOfRange => "block index out of range",
            ChapterError::SpeakerNotAllowed => "speaker only valid on dialogue or thought blocks",
            ChapterError::MoveFromOutOfRange => "move from out of range",
            ChapterError::MoveToOutOfRange => "move to out of range",
        }
    }

    /// A one-line description of the refusal.
    pub fn message(self) -> (r: &'static str)
        ensures
            r == self.spec_message(),
    {
        match self {
            ChapterError::InsertOutOfRange => "insert index out of range",
            ChapterError::RemoveOutOfRange => "remove index out of range",
            ChapterError::IndexOutOfRange => "block index out of range",
            ChapterError::SpeakerNotAllowed => "speaker only valid on dialogue or thought blocks",
            ChapterError::MoveFromOutOfRange => "move from out of range",
            ChapterError::MoveToOutOfRange => "move to out of range",
        }
    }
}

/// The ids of the blocks, in order.
pub open spec fn block_ids(blocks: Seq<Block>) -> Seq<u128> {
    blocks.map_values(|b: Block| b.id)
}

/// `b` with a new modification time.
pub open spec fn touched(b: Block, now: i64) -> Block {
    Block {
        id: b.id,
        block_type: b.block_type,
        content: b.content,
        speaker: b.speaker,
        meta: BlockMeta { created_at: b.meta.created_at, updated_at: now, note: b.meta.note },
    }
}

/// Title, id, schema version and status are those of `b`.
pub open spec fn same_chapter_header(a: Chapter, b: Chapter) -> bool {
    &&& a.schema_version == b.schema_version
    &&& a.id == b.id
    &&& a.title == b.title
    &&& a.meta == b.meta
}

/// Where a block moved from `from` lands when asked to go before `to`.
pub open spec fn landing(from: int, to: int) -> int {
    if to > from { to - 1 } else { to }
}

impl Chapter {
    /// Inserts `block` before position `index` (`index == len` appends).
    pub fn insert_block(&mut self, index: usize, block: Block) -> (r: Result<(), ChapterError>)
        ensures
            index > old(self).blocks@.len() ==> r == Err::<(), ChapterError>(ChapterError::InsertOutOfRange)
                && *final(self) == *old(self),
            index <= old(self).blocks@.len() ==> r is Ok
                && final(self).blocks@ == old(self).blocks@.insert(index as int, block)
                && same_chapter_header(*final(self), *old(self)),
    {
        if index > self.blocks.len() {
            return Err(ChapterError::InsertOutOfRange);
        }
        self.blocks.insert(index, block);
        Ok(())
    }

    /// Removes and returns the block at `index`.
    pub fn remove_block(&mut self, index: usize) -> (r: Result<Block, ChapterError>)
        ensures
            index >= old(self).blocks@.len() ==> r == Err::<Block, ChapterError>(ChapterError::RemoveOutOfRange)
                && *final(self) == *old(self),
            index < old(self).blocks@.len() ==> r == Ok::<Block, ChapterError>(old(self).blocks@[index as int])
                && final(self).blocks@ == old(self).blocks@.remove(index as int)
                && same_chapter_header(*final(self), *old(self)),
    {
        if index >= self.blocks.len() {
            return Err(ChapterError::RemoveOutOfRange);
        }
        let removed = self.blocks.remove(index);
        Ok(removed)
    }

    /// Moves the block at `from` so that it stands before the block that was
    /// at `to` (`to == len` moves it to the end). Moving onto itself or onto
    /// the next position changes nothing.
    pub fn move_block(&mut self, from: usize, to: usize) -> (r: Result<(), ChapterError>)
        ensures
            from >= old(self).blocks@.len() ==> r == Err::<(), ChapterError>(ChapterError::MoveFromOutOfRange)
                && *final(self) == *old(self),
            from < old(self).blocks@.len() && to > old(self).blocks@.len() ==> r == Err::<(), ChapterError>(
                ChapterError::MoveToOutOfRange,
            ) && *final(self) == *old(self),
            from < old(self).blocks@.len() && to <= old(self).blocks@.len() && (from == to || from + 1 == to)
                ==> r is Ok && *final(self) == *old(self),
            from < old(self).blocks@.len() && to <= old(self).blocks@.len() && !(from == to || from + 1 == to)
                ==> r is Ok && final(self).blocks@ == old(self).blocks@.remove(from as int).insert(
                    landing(from as int, to as int),
                    old(self).blocks@[from as int],
                ) && same_chapter_header(*final(self), *old(self)),
    {
        if from >= self.blocks.len() {
            return Err(ChapterError::MoveFromOutOfRange);
        }
        if to > self.blocks.len() {
            return Err(ChapterError::MoveToOutOfRange);
        }
        if from == to || from + 1 == to {
            return Ok(());
        }
        let block = self.blocks.remove(from);
        let insert_at = if to > from { to - 1 } else { to };
        self.blocks.insert(insert_at, block);
        Ok(())
    }

    /// Replaces the content of the block at `index`.
    pub fn set_block_content(&mut self, index: usize, content: String, now: i64) -> (r: Result<(), ChapterError>)
        ensures
            index >= old(self).blocks@.len() ==> r == Err::<(), ChapterError>(ChapterError::IndexOutOfRange)
                && *final(self) == *old(self),
            index < old(self).blocks@.len() ==> r is Ok && same_chapter_header(*final(self), *old(self))
                && final(self).blocks@ == old(self).blocks@.update(
                    index as int,
                    Block { content, ..touched(old(self).blocks@[index as int], now) },
                ),
    {
        if index >= self.blocks.len() {
            return Err(ChapterError::IndexOutOfRange);
        }
        self.blocks[index].content = content;
        self.blocks[index].meta.updated_at = now;
        proof {
            assert(self.blocks@ =~= old(self).blocks@.update(
                index as int,
                Block { content, ..touched(old(self).blocks@[index as int], now) },
            ));
        }
        Ok(())
    }
    /// Changes the type of the block at `index`; a type that takes no
    /// speaker drops the speaker.
    pub fn set_block_type(&mut self, index: usize, new_type: BlockType, now: i64) -> (r: Result<(), ChapterError>)
        ensures
            index >= old(self).blocks@.len() ==> r == Err::<(), ChapterError>(ChapterError::IndexOutOfRange)
                && *final(self) == *old(self),
            index < old(self).blocks@.len() ==> r is Ok && same_chapter_header(*final(self), *old(self))
                && final(self).blocks@ == old(self).blocks@.update(
                    index as int,
                    Block {
                        block_type: new_type,
                        speaker: if new_type.spec_allows_speaker() {
                            old(self).blocks@[index as int].speaker
                        } else {
                            None
                        },
                        ..touched(old(self).blocks@[index as int], now)
                    },
                ),
    {
        if index >= self.blocks.len() {
            return Err(ChapterError::IndexOutOfRange);
        }
        self.blocks[index].block_type = new_type;
        if !new_type.allows_speaker() {
            self.blocks[index].speaker = None;
        }
        self.blocks[index].meta.updated_at = now;
        proof {
            assert(self.blocks@ =~= old(self).blocks@.update(
                index as int,
                Block {
                    block_type: new_type,
                    speaker: if new_type.spec_allows_speaker() {
                        old(self).blocks@[index as int].speaker
                    } else {
                        None
                    },
                    ..touched(old(self).blocks@[index as int], now)
                },
            ));
        }
        Ok(())
    }

    /// Sets the speaker of a dialogue or thought block.
    pub fn set_speaker(&mut self, index: usize, speaker: Option<String>, now: i64) -> (r: Result<(), ChapterError>)
        ensures
            index >= old(self).blocks@.len() ==> r == Err::<(), ChapterError>(ChapterError::IndexOutOfRange),
            index < old(self).blocks@.len() && !old(self).blocks@[index as int].block_type.spec_allows_speaker()
                ==> r == Err::<(), ChapterError>(ChapterError::SpeakerNotAllowed),
            r is Err ==> *final(self) == *old(self),
            index < old(self).blocks@.len() && old(self).blocks@[index as int].block_type.spec_allows_speaker()
                ==> r is Ok && same_chapter_header(*final(self), *old(self))
                && final(self).blocks@ == old(self).blocks@.update(
                    index as int,
                    Block { speaker, ..touched(old(self).blocks@[index as int], now) },
                ),
    {
        if index >= self.blocks.len() {
            return Err(ChapterError::IndexOutOfRange);
        }
        if !self.blocks[index].block_type.allows_speaker() {
            return Err(ChapterError::SpeakerNotAllowed);
        }
        self.blocks[index].speaker = speaker;
        self.blocks[index].meta.updated_at = now;
        proof {
            assert(self.blocks@ =~= old(self).blocks@.update(
                index as int,
                Block { speaker, ..touched(old(self).blocks@[index as int], now) },
            ));
        }
        Ok(())
    }
}

} // verus!
