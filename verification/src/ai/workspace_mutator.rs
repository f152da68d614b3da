//! What applying a write intent does to a chapter, a screenplay, the
//! project header or an outline entry. Loading the document before and
//! saving it after are the caller's part.

use vstd::prelude::*;

use crate::ai::intent::{AiIntent, ScriptBlockUpdateFields};
use crate::ids::{id_text, id_text_of};
use crate::models::block::{Block, BlockType};
use crate::models::chapter::{
    block_ids, landing, same_chapter_header, touched, Chapter, ChapterError,
};
use crate::models::script::{
    lemma_first_id_bounds, character_set, cleared_refs, content_set, ids_of, move_target, position_of, position_of_id, first_id_from,
    sanitized, type_set, Script, ScriptBlock, ScriptError, ScriptMeta,
};
use crate::models::outline::{OutlineCategory, OutlineEntry, OutlineEntryView};
use crate::models::project::Project;
use crate::storage::path_validation::{name_verdict, validate_storage_name, NameError};
use crate::storage::tree_rules::MoveDirection;
use crate::text::{push_str, str_eq, string_of};
use std::collections::BTreeMap;

verus! {

/// Why an intent could not be applied to its document.
#[derive(Debug, Clone, Copy, PartialEq, Eq, Structural)]
pub enum EditError {
    AfterBlockNotFound(u128),
    TargetBlockNotFound(u128),
    BlockNotFound(u128),
    ScriptBlockNotFound(u128),
    Chapter(ChapterError),
    Script(ScriptError),
}

/// `prefix`, the text of `id`, then " not found".
pub open spec fn not_found_text(prefix: Seq<char>, id: u128) -> Seq<char> {
    prefix + id_text_of(id) + " not found"@
}

/// The text of an edit error.
pub open spec fn edit_error_text(e: EditError) -> Seq<char> {
    match e {
        EditError::AfterBlockNotFound(id) => not_found_text("after_block_id "@, id),
        EditError::TargetBlockNotFound(id) => not_found_text("target block "@, id),
        EditError::BlockNotFound(id) => not_found_text("block "@, id),
        EditError::ScriptBlockNotFound(id) => not_found_text("script block "@, id),
        EditError::Chapter(c) => c.spec_message()@,
        EditError::Script(s) => s.spec_message()@,
    }
}

fn not_found_message(prefix: &str, id: u128) -> (r: String)
    ensures
        r@ == not_found_text(prefix@, id),
{
    let mut v: Vec<char> = Vec::new();
    push_str(&mut v, prefix);
    let t = id_text(id);
    push_str(&mut v, t.as_str());
    proof { reveal_strlit(" not found"); }
    push_str(&mut v, " not found");
    string_of(v.as_slice())
}

impl EditError {
    /// A one-line description of the error.
    pub fn message(&self) -> (r: String)
        ensures
            r@ == edit_error_text(*self),
    {
        match self {
            EditError::AfterBlockNotFound(id) => {
                proof { reveal_strlit("after_block_id "); }
                not_found_message("after_block_id ", *id)
            }
            EditError::TargetBlockNotFound(id) => {
                proof { reveal_strlit("target block "); }
                not_found_message("target block ", *id)
            }
            EditError::BlockNotFound(id) => {
                proof { reveal_strlit("block "); }
                not_found_message("block ", *id)
            }
            EditError::ScriptBlockNotFound(id) => {
                proof { reveal_strlit("script block "); }
                not_found_message("script block ", *id)
            }
            EditError::Chapter(c) => String::from_str(c.message()),
            EditError::Script(s) => String::from_str(s.message()),
        }
    }
}

/// The document or store an intent changes.
#[derive(Debug, Clone, Copy, PartialEq, Eq, Structural)]
pub enum IntentTarget {
    Chapter(u128),
    Script(u128),
    ChapterTree,
    ScriptTree,
    Outline,
    Project,
}

pub open spec fn spec_intent_target(intent: AiIntent) -> IntentTarget {
    match intent {
        AiIntent::CreateBlock { chapter_id, .. } => IntentTarget::Chapter(chapter_id),
        AiIntent::ReplaceBlocks { chapter_id, .. } => IntentTarget::Chapter(chapter_id),
        AiIntent::UpdateBlock { chapter_id, .. } => IntentTarget::Chapter(chapter_id),
        AiIntent::DeleteBlock { chapter_id, .. } => IntentTarget::Chapter(chapter_id),
        AiIntent::MoveBlock { chapter_id, .. } => IntentTarget::Chapter(chapter_id),
        AiIntent::UpdateChapterTitle { chapter_id, .. } => IntentTarget::Chapter(chapter_id),
        AiIntent::CreateChapterDirectory { .. } => IntentTarget::ChapterTree,
        AiIntent::CreateChapterFile { .. } => IntentTarget::ChapterTree,
        AiIntent::RenameChapterNode { .. } => IntentTarget::ChapterTree,
        AiIntent::DeleteChapterNode { .. } => IntentTarget::ChapterTree,
        AiIntent::MoveChapterNode { .. } => IntentTarget::ChapterTree,
        AiIntent::MoveChapterSibling { .. } => IntentTarget::ChapterTree,
        AiIntent::CopyChapter { .. } => IntentTarget::ChapterTree,
        AiIntent::CreateOutlineEntry { .. } => IntentTarget::Outline,
        AiIntent::UpdateOutlineEntry { .. } => IntentTarget::Outline,
        AiIntent::DeleteOutlineEntry { .. } => IntentTarget::Outline,
        AiIntent::CreateScript { .. } => IntentTarget::ScriptTree,
        AiIntent::CreateScriptDirectory { .. } => IntentTarget::ScriptTree,
        AiIntent::RenameScriptNode { .. } => IntentTarget::ScriptTree,
        AiIntent::DeleteScriptNode { .. } => IntentTarget::ScriptTree,
        AiIntent::MoveScriptNode { .. } => IntentTarget::ScriptTree,
        AiIntent::MoveScriptSibling { .. } => IntentTarget::ScriptTree,
        AiIntent::CopyScript { .. } => IntentTarget::ScriptTree,
        AiIntent::UpdateScriptTitle { script_id, .. } => IntentTarget::Script(script_id),
        AiIntent::AppendScriptBlocks { script_id, .. } => IntentTarget::Script(script_id),
        AiIntent::UpdateScriptBlock { script_id, .. } => IntentTarget::Script(script_id),
        AiIntent::DeleteScriptBlock { script_id, .. } => IntentTarget::Script(script_id),
        AiIntent::MoveScriptBlock { script_id, .. } => IntentTarget::Script(script_id),
        AiIntent::UpdateProjectMeta { .. } => IntentTarget::Project,
    }
}

/// Which document or store `intent` changes.
pub fn intent_target(intent: &AiIntent) -> (r: IntentTarget)
    ensures
        r == spec_intent_target(*intent),
{
    match intent {
        AiIntent::CreateBlock { chapter_id, .. } => IntentTarget::Chapter(*chapter_id),
        AiIntent::ReplaceBlocks { chapter_id, .. } => IntentTarget::Chapter(*chapter_id),
        AiIntent::UpdateBlock { chapter_id, .. } => IntentTarget::Chapter(*chapter_id),
        AiIntent::DeleteBlock { chapter_id, .. } => IntentTarget::Chapter(*chapter_id),
        AiIntent::MoveBlock { chapter_id, .. } => IntentTarget::Chapter(*chapter_id),
        AiIntent::UpdateChapterTitle { chapter_id, .. } => IntentTarget::Chapter(*chapter_id),
        AiIntent::CreateChapterDirectory { .. } => IntentTarget::ChapterTree,
        AiIntent::CreateChapterFile { .. } => IntentTarget::ChapterTree,
        AiIntent::RenameChapterNode { .. } => IntentTarget::ChapterTree,
        AiIntent::DeleteChapterNode { .. } => IntentTarget::ChapterTree,
        AiIntent::MoveChapterNode { .. } => IntentTarget::ChapterTree,
        AiIntent::MoveChapterSibling { .. } => IntentTarget::ChapterTree,
        AiIntent::CopyChapter { .. } => IntentTarget::ChapterTree,
        AiIntent::CreateOutlineEntry { .. } => IntentTarget::Outline,
        AiIntent::UpdateOutlineEntry { .. } => IntentTarget::Outline,
        AiIntent::DeleteOutlineEntry { .. } => IntentTarget::Outline,
        AiIntent::CreateScript { .. } => IntentTarget::ScriptTree,
        AiIntent::CreateScriptDirectory { .. } => IntentTarget::ScriptTree,
        AiIntent::RenameScriptNode { .. } => IntentTarget::ScriptTree,
        AiIntent::DeleteScriptNode { .. } => IntentTarget::ScriptTree,
        AiIntent::MoveScriptNode { .. } => IntentTarget::ScriptTree,
        AiIntent::MoveScriptSibling { .. } => IntentTarget::ScriptTree,
        AiIntent::CopyScript { .. } => IntentTarget::ScriptTree,
        AiIntent::UpdateScriptTitle { script_id, .. } => IntentTarget::Script(*script_id),
        AiIntent::AppendScriptBlocks { script_id, .. } => IntentTarget::Script(*script_id),
        AiIntent::UpdateScriptBlock { script_id, .. } => IntentTarget::Script(*script_id),
        AiIntent::DeleteScriptBlock { script_id, .. } => IntentTarget::Script(*script_id),
        AiIntent::MoveScriptBlock { script_id, .. } => IntentTarget::Script(*script_id),
        AiIntent::UpdateProjectMeta { .. } => IntentTarget::Project,
    }
}

// ---------------------------------------------------------------------------
// Chapters.

/// Same header and the same blocks.
pub open spec fn same_chapter(a: Chapter, b: Chapter) -> bool {
    same_chapter_header(a, b) && a.blocks@ == b.blocks@
}

/// Same header, title and blocks.
pub open spec fn same_script(a: Script, b: Script) -> bool {
    &&& a.schema_version == b.schema_version
    &&& a.id == b.id
    &&& a.title == b.title
    &&& a.meta == b.meta
    &&& a.blocks@ == b.blocks@
}

/// Where a block created after `after` goes: right after it, or at the end
/// when no anchor is given; `None` when the anchor is missing.
pub open spec fn creation_index(ids: Seq<u128>, after: Option<u128>) -> Option<int> {
    match after {
        None => Some(ids.len() as int),
        Some(a) => match position_of(ids, a) {
            Some(k) => Some(k + 1),
            None => None,
        },
    }
}

/// `b` is the block a create intent asks for: the type and content given,
/// the speaker only where the type takes one, both times `now`, no note.
pub open spec fn is_created_block(
    b: Block,
    block_type: BlockType,
    content: Seq<char>,
    speaker: Option<String>,
    now: i64,
) -> bool {
    &&& b.block_type == block_type
    &&& b.content@ == content
    &&& b.speaker == (if block_type.spec_allows_speaker() { speaker } else { None })
    &&& b.meta.created_at == now
    &&& b.meta.updated_at == now
    &&& b.meta.note@.len() == 0
}

/// What creating a block does to `old`.
pub open spec fn create_block_outcome(
    old: Chapter,
    block_type: BlockType,
    content: Seq<char>,
    speaker: Option<String>,
    after: Option<u128>,
    now: i64,
    r: Result<Chapter, EditError>,
) -> bool {
    match creation_index(block_ids(old.blocks@), after) {
        None => r == Err::<Chapter, EditError>(EditError::AfterBlockNotFound(after->0)),
        Some(p) => r matches Ok(c) && {
            &&& same_chapter_header(c, old)
            &&& c.blocks@.len() == old.blocks@.len() + 1
            &&& c.blocks@ == old.blocks@.insert(p, c.blocks@[p])
            &&& is_created_block(c.blocks@[p], block_type, content, speaker, now)
        },
    }
}

fn clone_opt_string(o: &Option<String>) -> (r: Option<String>)
    ensures
        r == *o,
{
    match o {
        Some(s) => Some(s.clone()),
        None => None,
    }
}

/// A copy of a block.
pub fn copy_block(b: &Block) -> (r: Block)
    ensures
        r == *b,
{
    Block {
        id: b.id,
        block_type: b.block_type,
        content: b.content.clone(),
        speaker: clone_opt_string(&b.speaker),
        meta: crate::models::block::BlockMeta {
            created_at: b.meta.created_at,
            updated_at: b.meta.updated_at,
            note: b.meta.note.clone(),
        },
    }
}

/// Index of the first block of `blocks` with id `id`.
pub fn chapter_block_position(blocks: &Vec<Block>, id: u128) -> (r: Option<usize>)
    ensures
        r matches Some(j) ==> position_of(block_ids(blocks@), id) == Some(j as int) && j < blocks.len(),
        r is None ==> position_of(block_ids(blocks@), id) is None,
{
    let ghost ids = block_ids(blocks@);
    let mut i: usize = 0;
    while i < blocks.len()
        invariant
            i <= blocks@.len(),
            ids == block_ids(blocks@),
            first_id_from(ids, id, 0) == first_id_from(ids, id, i as int),
        decreases blocks.len() - i,
    {
        if blocks[i].id == id {
            return Some(i);
        }
        i = i + 1;
    }
    None
}

/// Adds a block of the given type and content after the block `after`
/// (at the end when `after` is none); the speaker is kept only on types
/// that take one.
pub fn create_block_in(
    chapter: &Chapter,
    block_type: BlockType,
    content: String,
    speaker: Option<String>,
    after: Option<u128>,
    now: i64,
) -> (r: Result<Chapter, EditError>)
    ensures
        create_block_outcome(*chapter, block_type, content@, speaker, after, now, r),
{
    let mut chapter = copy_chapter(chapter);
    let mut block = Block::new(block_type, content, now);
    if block_type.allows_speaker() {
        block.speaker = speaker;
    }
    let insert_at = match after {
        Some(a) => match chapter_block_position(&chapter.blocks, a) {
            Some(k) => k + 1,
            None => {
                return Err(EditError::AfterBlockNotFound(a));
            },
        },
        None => chapter.blocks.len(),
    };
    let ghost before = chapter;
    chapter.blocks.insert(insert_at, block);
    proof {
        assert(chapter.blocks@[insert_at as int] == block);
        assert(chapter.blocks@ =~= before.blocks@.insert(insert_at as int, chapter.blocks@[insert_at as int]));
    }
    Ok(chapter)
}

/// The first of `targets`, from position `j` on, that names no block.
pub open spec fn first_missing(ids: Seq<u128>, targets: Seq<u128>, j: int) -> Option<u128>
    decreases targets.len() - j,
{
    if j < 0 || j >= targets.len() {
        None
    } else if position_of(ids, targets[j]) is None {
        Some(targets[j])
    } else {
        first_missing(ids, targets, j + 1)
    }
}

/// The position of each target's first block.
pub open spec fn target_positions(ids: Seq<u128>, targets: Seq<u128>) -> Seq<int> {
    targets.map_values(|t: u128| first_id_from(ids, t, 0))
}

/// The values as integers.
pub open spec fn as_ints(s: Seq<usize>) -> Seq<int> {
    s.map_values(|x: usize| x as int)
}

/// The first position of a largest value.
pub open spec fn argmax(s: Seq<int>) -> int
    decreases s.len(),
{
    if s.len() <= 1 {
        0
    } else {
        let k = argmax(s.drop_last());
        if s.last() > s[k] {
            s.len() - 1
        } else {
            k
        }
    }
}

/// The smallest value.
pub open spec fn seq_min(s: Seq<int>) -> int
    decreases s.len(),
{
    if s.len() <= 1 {
        s[0]
    } else {
        let m = seq_min(s.drop_last());
        if s.last() < m {
            s.last()
        } else {
            m
        }
    }
}

/// Removes the blocks at the given positions, largest position first, one
/// at a time; `None` when a position is past the end when its turn comes.
pub open spec fn remove_descending(blocks: Seq<Block>, idxs: Seq<int>) -> Option<Seq<Block>>
    decreases idxs.len(),
{
    if idxs.len() == 0 {
        Some(blocks)
    } else {
        let m = argmax(idxs);
        let v = idxs[m];
        if 0 <= m < idxs.len() && 0 <= v < blocks.len() {
            remove_descending(blocks.remove(v), idxs.remove(m))
        } else {
            None
        }
    }
}

/// `new` put into `s` at position `at`.
pub open spec fn spliced<T>(s: Seq<T>, at: int, new: Seq<T>) -> Seq<T> {
    s.take(at) + new + s.skip(at)
}

/// What replacing the target blocks by `new_blocks` does to `old`: every
/// target must exist; the targets' positions are removed largest first and
/// the new blocks go where the smallest was.
pub open spec fn replace_blocks_outcome(
    old: Chapter,
    targets: Seq<u128>,
    new_blocks: Seq<Block>,
    r: Result<Chapter, EditError>,
) -> bool {
    let ids = block_ids(old.blocks@);
    match first_missing(ids, targets, 0) {
        Some(t) => r == Err::<Chapter, EditError>(EditError::TargetBlockNotFound(t)),
        None => {
            let idxs = target_positions(ids, targets);
            match remove_descending(old.blocks@, idxs) {
                None => r == Err::<Chapter, EditError>(EditError::Chapter(ChapterError::RemoveOutOfRange)),
                Some(rest) => r matches Ok(c) && same_chapter_header(c, old) && c.blocks@ == spliced(
                    rest,
                    seq_min(idxs),
                    new_blocks,
                ),
            }
        },
    }
}

proof fn lemma_argmax_bounds(s: Seq<int>)
    requires
        s.len() > 0,
    ensures
        0 <= argmax(s) < s.len(),
    decreases s.len(),
{
    if s.len() > 1 {
        lemma_argmax_bounds(s.drop_last());
    }
}

proof fn lemma_seq_min_le(s: Seq<int>)
    requires
        s.len() > 0,
    ensures
        forall|j: int| 0 <= j < s.len() ==> seq_min(s) <= #[trigger] s[j],
    decreases s.len(),
{
    if s.len() > 1 {
        lemma_seq_min_le(s.drop_last());
        assert forall|j: int| 0 <= j < s.len() implies seq_min(s) <= #[trigger] s[j] by {
            if j < s.len() - 1 {
                assert(s.drop_last()[j] == s[j]);
            }
        }
    }
}

/// Removing positions that are all at least `x` leaves at least `x` blocks.
proof fn lemma_remove_descending_keeps_prefix(blocks: Seq<Block>, idxs: Seq<int>, x: int)
    requires
        idxs.len() > 0,
        forall|j: int| 0 <= j < idxs.len() ==> x <= #[trigger] idxs[j],
        remove_descending(blocks, idxs) is Some,
    ensures
        x <= remove_descending(blocks, idxs)->0.len(),
    decreases idxs.len(),
{
    lemma_argmax_bounds(idxs);
    let m = argmax(idxs);
    let rest = idxs.remove(m);
    if rest.len() > 0 {
        assert forall|j: int| 0 <= j < rest.len() implies x <= #[trigger] rest[j] by {
            if j < m {
                assert(rest[j] == idxs[j]);
            } else {
                assert(rest[j] == idxs[j + 1]);
            }
        }
        lemma_remove_descending_keeps_prefix(blocks.remove(idxs[m]), rest, x);
    } else {
        assert(x <= idxs[m]);
    }
}

fn argmax_index(v: &Vec<usize>) -> (r: usize)
    requires
        v@.len() > 0,
    ensures
        r as int == argmax(as_ints(v@)),
        r < v@.len(),
{
    let ghost s = as_ints(v@);
    let mut best: usize = 0;
    let mut i: usize = 1;
    proof {
        assert(s.take(1).len() == 1);
    }
    while i < v.len()
        invariant
            1 <= i <= v@.len(),
            s == as_ints(v@),
            best as int == argmax(s.take(i as int)),
            best < i,
        decreases v.len() - i,
    {
        proof {
            assert(s.take(i as int + 1).drop_last() =~= s.take(i as int));
        }
        if v[i] > v[best] {
            best = i;
        }
        i = i + 1;
    }
    proof {
        assert(s.take(v@.len() as int) =~= s);
    }
    best
}

fn min_index_value(v: &Vec<usize>) -> (r: usize)
    requires
        v@.len() > 0,
    ensures
        r as int == seq_min(as_ints(v@)),
{
    let ghost s = as_ints(v@);
    let mut best: usize = v[0];
    let mut i: usize = 1;
    proof {
        assert(s.take(1).len() == 1);
    }
    while i < v.len()
        invariant
            1 <= i <= v@.len(),
            s == as_ints(v@),
            best as int == seq_min(s.take(i as int)),
        decreases v.len() - i,
    {
        proof {
            assert(s.take(i as int + 1).drop_last() =~= s.take(i as int));
        }
        if v[i] < best {
            best = v[i];
        }
        i = i + 1;
    }
    proof {
        assert(s.take(v@.len() as int) =~= s);
    }
    best
}

/// Replaces the target blocks by copies of `new_blocks`: the targets are
/// looked up in order, removed from the largest position down, and the new
/// blocks put in where the first of them stood.
pub fn replace_blocks_in(chapter: &Chapter, target_ids: &Vec<u128>, new_blocks: &Vec<Block>) -> (r: Result<
    Chapter,
    EditError,
>)
    requires
        target_ids@.len() > 0,
    ensures
        replace_blocks_outcome(*chapter, target_ids@, new_blocks@, r),
{
    let ghost old_chapter = *chapter;
    let mut doc = copy_chapter(chapter);
    let ghost ids = block_ids(doc.blocks@);
    let ghost targets = target_ids@;
    let mut indices: Vec<usize> = Vec::new();
    let mut i: usize = 0;
    while i < target_ids.len()
        invariant
            i <= targets.len(),
            targets == target_ids@,
            same_chapter(doc, old_chapter),
            old_chapter == *chapter,
            ids == block_ids(doc.blocks@),
            first_missing(ids, targets, 0) == first_missing(ids, targets, i as int),
            as_ints(indices@) == target_positions(ids, targets.take(i as int)),
            forall|j: int| 0 <= j < i ==> position_of(ids, #[trigger] targets[j]) is Some,
        decreases target_ids.len() - i,
    {
        let t = target_ids[i];
        match chapter_block_position(&doc.blocks, t) {
            Some(k) => {
                let ghost before = indices@;
                indices.push(k);
                proof {
                    assert(first_id_from(ids, t, 0) == k as int);
                    assert(targets.take(i as int + 1) =~= targets.take(i as int).push(t));
                    assert(as_ints(indices@) =~= as_ints(before).push(k as int));
                    assert(target_positions(ids, targets.take(i as int + 1)) =~= target_positions(
                        ids,
                        targets.take(i as int),
                    ).push(first_id_from(ids, t, 0)));
                }
            },
            None => {
                proof {
                    assert(first_missing(ids, targets, i as int) == Some(t));
                }
                return Err(EditError::TargetBlockNotFound(t));
            },
        }
        i = i + 1;
    }
    let ghost idxs = target_positions(ids, targets);
    proof {
        assert(targets.take(targets.len() as int) =~= targets);
    }
    let insert_at = min_index_value(&indices);
    let ghost rest_opt = remove_descending(doc.blocks@, idxs);
    proof {
        assert(first_missing(ids, targets, targets.len() as int) is None);
    }
    while indices.len() > 0
        invariant
            rest_opt == remove_descending(doc.blocks@, as_ints(indices@)),
            rest_opt == remove_descending(old_chapter.blocks@, idxs),
            idxs == target_positions(ids, targets),
            ids == block_ids(old_chapter.blocks@),
            targets == target_ids@,
            first_missing(ids, targets, 0) is None,
            old_chapter == *chapter,
            same_chapter_header(doc, old_chapter),
        decreases indices.len(),
    {
        let m = argmax_index(&indices);
        let v = indices[m];
        proof {
            lemma_argmax_bounds(as_ints(indices@));
            assert(as_ints(indices@)[m as int] == v as int);
        }
        if v >= doc.blocks.len() {
            proof {
                assert(remove_descending(doc.blocks@, as_ints(indices@)) is None);
            }
            return Err(EditError::Chapter(ChapterError::RemoveOutOfRange));
        }
        proof {
            assert(as_ints(indices@.remove(m as int)) =~= as_ints(indices@).remove(m as int));
        }
        indices.remove(m);
        doc.blocks.remove(v);
    }
    let ghost rest = doc.blocks@;
    proof {
        assert(as_ints(indices@) =~= Seq::<int>::empty());
        lemma_seq_min_le(idxs);
        lemma_remove_descending_keeps_prefix(old_chapter.blocks@, idxs, seq_min(idxs));
        assert(rest.take(insert_at as int) + new_blocks@.take(0) + rest.skip(insert_at as int) =~= rest);
    }
    let mut k: usize = 0;
    while k < new_blocks.len()
        invariant
            k <= new_blocks@.len(),
            insert_at <= rest.len(),
            doc.blocks@ == rest.take(insert_at as int) + new_blocks@.take(k as int) + rest.skip(
                insert_at as int,
            ),
            same_chapter_header(doc, old_chapter),
        decreases new_blocks.len() - k,
    {
        let b = copy_block(&new_blocks[k]);
        proof {
            assert(doc.blocks.len() == rest.len() + k);
        }
        doc.blocks.insert(insert_at + k, b);
        proof {
            assert(doc.blocks@ =~= rest.take(insert_at as int) + new_blocks@.take(k as int + 1) + rest.skip(
                insert_at as int,
            ));
        }
        k = k + 1;
    }
    proof {
        assert(new_blocks@.take(new_blocks@.len() as int) =~= new_blocks@);
    }
    Ok(doc)
}

/// `b` with new content.
pub open spec fn with_content(b: Block, content: String, now: i64) -> Block {
    Block { content, ..touched(b, now) }
}

/// `b` with a new type; a type that takes no speaker drops the speaker.
pub open spec fn with_type(b: Block, t: BlockType, now: i64) -> Block {
    Block { block_type: t, speaker: if t.spec_allows_speaker() { b.speaker } else { None }, ..touched(b, now) }
}

/// `b` after the content and type changes of an update, in that order.
pub open spec fn content_then_type(b: Block, content: Option<String>, t: Option<BlockType>, now: i64) -> Block {
    let b1 = match content {
        Some(c) => with_content(b, c, now),
        None => b,
    };
    match t {
        Some(t) => with_type(b1, t, now),
        None => b1,
    }
}

/// What a partial update of the block `block_id` does to `old`: content,
/// then type, then speaker, each only when given; a speaker on a type that
/// takes none is refused.
pub open spec fn update_block_outcome(
    old: Chapter,
    block_id: u128,
    content: Option<String>,
    t: Option<BlockType>,
    speaker: Option<String>,
    now: i64,
    r: Result<Chapter, EditError>,
) -> bool {
    match position_of(block_ids(old.blocks@), block_id) {
        None => r == Err::<Chapter, EditError>(EditError::BlockNotFound(block_id)),
        Some(p) => {
            let b2 = content_then_type(old.blocks@[p], content, t, now);
            match speaker {
                None => r matches Ok(c) && same_chapter_header(c, old) && c.blocks@ == old.blocks@.update(p, b2),
                Some(s) => if b2.block_type.spec_allows_speaker() {
                    r matches Ok(c) && same_chapter_header(c, old) && c.blocks@ == old.blocks@.update(
                        p,
                        Block { speaker: Some(s), ..touched(b2, now) },
                    )
                } else {
                    r == Err::<Chapter, EditError>(EditError::Chapter(ChapterError::SpeakerNotAllowed))
                },
            }
        },
    }
}

/// Updates the block `block_id`: content, then type, then speaker, each
/// only when given.
pub fn update_block_in(
    chapter: &Chapter,
    block_id: u128,
    content: Option<String>,
    t: Option<BlockType>,
    speaker: Option<String>,
    now: i64,
) -> (r: Result<Chapter, EditError>)
    ensures
        update_block_outcome(*chapter, block_id, content, t, speaker, now, r),
{
    let mut doc = copy_chapter(chapter);
    let idx = match chapter_block_position(&doc.blocks, block_id) {
        Some(k) => k,
        None => {
            return Err(EditError::BlockNotFound(block_id));
        },
    };
    let ghost b0 = doc.blocks@[idx as int];
    if let Some(c) = content {
        let _ = doc.set_block_content(idx, c, now);
    }
    proof {
        assert(doc.blocks@ =~= chapter.blocks@.update(idx as int, match content {
            Some(c) => with_content(b0, c, now),
            None => b0,
        }));
    }
    if let Some(ty) = t {
        let _ = doc.set_block_type(idx, ty, now);
    }
    proof {
        assert(doc.blocks@ =~= chapter.blocks@.update(idx as int, content_then_type(b0, content, t, now)));
    }
    if let Some(s) = speaker {
        match doc.set_speaker(idx, Some(s), now) {
            Ok(()) => {},
            Err(e) => {
                return Err(EditError::Chapter(e));
            },
        }
        proof {
            assert(doc.blocks@ =~= chapter.blocks@.update(
                idx as int,
                Block { speaker: Some(s), ..touched(content_then_type(b0, content, t, now), now) },
            ));
        }
    }
    Ok(doc)
}

/// What deleting the block `block_id` does to `old`.
pub open spec fn delete_block_outcome(old: Chapter, block_id: u128, r: Result<Chapter, EditError>) -> bool {
    match position_of(block_ids(old.blocks@), block_id) {
        None => r == Err::<Chapter, EditError>(EditError::BlockNotFound(block_id)),
        Some(p) => r matches Ok(c) && same_chapter_header(c, old) && c.blocks@ == old.blocks@.remove(p),
    }
}

/// Deletes the block `block_id`.
pub fn delete_block_in(chapter: &Chapter, block_id: u128) -> (r: Result<Chapter, EditError>)
    ensures
        delete_block_outcome(*chapter, block_id, r),
{
    let mut doc = copy_chapter(chapter);
    match chapter_block_position(&doc.blocks, block_id) {
        Some(k) => {
            doc.blocks.remove(k);
            Ok(doc)
        },
        None => Err(EditError::BlockNotFound(block_id)),
    }
}

/// What moving the block `block_id` before position `to` does to `old`.
pub open spec fn move_block_outcome(old: Chapter, block_id: u128, to: int, r: Result<Chapter, EditError>) -> bool {
    match position_of(block_ids(old.blocks@), block_id) {
        None => r == Err::<Chapter, EditError>(EditError::BlockNotFound(block_id)),
        Some(p) => if to > old.blocks@.len() {
            r == Err::<Chapter, EditError>(EditError::Chapter(ChapterError::MoveToOutOfRange))
        } else if p == to || p + 1 == to {
            r matches Ok(c) && same_chapter(c, old)
        } else {
            r matches Ok(c) && same_chapter_header(c, old) && c.blocks@ == old.blocks@.remove(p).insert(
                landing(p, to),
                old.blocks@[p],
            )
        },
    }
}

/// Moves the block `block_id` so that it stands before the block that was
/// at `to_index`.
pub fn move_block_in(chapter: &Chapter, block_id: u128, to_index: usize) -> (r: Result<Chapter, EditError>)
    ensures
        move_block_outcome(*chapter, block_id, to_index as int, r),
{
    let mut doc = copy_chapter(chapter);
    let from = match chapter_block_position(&doc.blocks, block_id) {
        Some(k) => k,
        None => {
            return Err(EditError::BlockNotFound(block_id));
        },
    };
    match doc.move_block(from, to_index) {
        Ok(()) => Ok(doc),
        Err(e) => Err(EditError::Chapter(e)),
    }
}

/// What a chapter intent does to the chapter it names.
pub open spec fn chapter_intent_outcome(old: Chapter, intent: AiIntent, now: i64, r: Result<Chapter, EditError>) -> bool {
    match intent {
        AiIntent::CreateBlock { block_type, content, speaker, after_block_id, .. } => create_block_outcome(
            old,
            block_type,
            content@,
            speaker,
            after_block_id,
            now,
            r,
        ),
        AiIntent::ReplaceBlocks { target_ids, blocks, .. } => replace_blocks_outcome(old, target_ids@, blocks@, r),
        AiIntent::UpdateBlock { block_id, content, block_type, speaker, .. } => update_block_outcome(
            old,
            block_id,
            content,
            block_type,
            speaker,
            now,
            r,
        ),
        AiIntent::DeleteBlock { block_id, .. } => delete_block_outcome(old, block_id, r),
        AiIntent::MoveBlock { block_id, to_index, .. } => move_block_outcome(old, block_id, to_index as int, r),
        AiIntent::UpdateChapterTitle { title, .. } => r matches Ok(c) && c.title == title && c.schema_version
            == old.schema_version && c.id == old.id && c.meta == old.meta && c.blocks@ == old.blocks@,
        _ => false,
    }
}

/// Applies an intent that names a chapter to that chapter, as loaded.
pub fn apply_chapter_intent(chapter: &Chapter, intent: &AiIntent, now: i64) -> (r: Result<Chapter, EditError>)
    requires
        spec_intent_target(*intent) is Chapter,
        intent matches AiIntent::ReplaceBlocks { target_ids, .. } ==> target_ids@.len() > 0,
    ensures
        chapter_intent_outcome(*chapter, *intent, now, r),
{
    match intent {
        AiIntent::CreateBlock { block_type, content, speaker, after_block_id, .. } => create_block_in(
            chapter,
            *block_type,
            content.clone(),
            clone_opt_string(speaker),
            *after_block_id,
            now,
        ),
        AiIntent::ReplaceBlocks { target_ids, blocks, .. } => replace_blocks_in(chapter, target_ids, blocks),
        AiIntent::UpdateBlock { block_id, content, block_type, speaker, .. } => update_block_in(
            chapter,
            *block_id,
            clone_opt_string(content),
            *block_type,
            clone_opt_string(speaker),
            now,
        ),
        AiIntent::DeleteBlock { block_id, .. } => delete_block_in(chapter, *block_id),
        AiIntent::MoveBlock { block_id, to_index, .. } => move_block_in(chapter, *block_id, *to_index),
        AiIntent::UpdateChapterTitle { title, .. } => {
            let mut doc = copy_chapter(chapter);
            doc.title = title.clone();
            Ok(doc)
        },
        _ => {
            assert(false);
            Err(EditError::BlockNotFound(0))
        },
    }
}

// ---------------------------------------------------------------------------
// Screenplays.

/// `old` with a new title, or the same title, stamped `now`.
pub open spec fn stamped(old: Script, c: Script, now: i64) -> bool {
    &&& c.schema_version == old.schema_version
    &&& c.id == old.id
    &&& c.meta.created_at == old.meta.created_at
    &&& c.meta.status == old.meta.status
    &&& c.meta.updated_at == now
}

/// `new` appended one block at a time, each append followed by the
/// clean-up of inconsistent explicit ends.
pub open spec fn appended(blocks: Seq<ScriptBlock>, new: Seq<ScriptBlock>) -> Seq<ScriptBlock>
    decreases new.len(),
{
    if new.len() == 0 {
        blocks
    } else {
        sanitized(appended(blocks, new.drop_last()).push(new.last()))
    }
}

/// The content step of a screenplay block update.
pub open spec fn content_step(ob: Seq<ScriptBlock>, p: int, content: Option<String>, now: i64, f: Seq<ScriptBlock>) -> bool {
    match content {
        None => f == ob,
        Some(c) => content_set(ob, p, c@, now, f),
    }
}

/// The character step of a screenplay block update.
pub open spec fn character_step(ob: Seq<ScriptBlock>, p: int, character: Option<String>, now: i64, f: Seq<ScriptBlock>) -> bool {
    match character {
        None => f == ob,
        Some(c) => character_set(ob, p, Some(c), now, f),
    }
}

/// The type step of a screenplay block update.
pub open spec fn type_step(ob: Seq<ScriptBlock>, p: int, t: Option<crate::models::script::ScriptBlockType>, now: i64, f: Seq<ScriptBlock>) -> bool {
    match t {
        None => f == ob,
        Some(t) => type_set(ob, p, t, now, f),
    }
}

/// What a partial update of the screenplay block `block_id` does: content,
/// then character, then type, each only when given; a character on a type
/// that takes none is refused.
pub open spec fn update_script_block_outcome(
    old: Script,
    block_id: u128,
    fields: ScriptBlockUpdateFields,
    now: i64,
    r: Result<Script, EditError>,
) -> bool {
    match position_of(ids_of(old.blocks@), block_id) {
        None => r == Err::<Script, EditError>(EditError::ScriptBlockNotFound(block_id)),
        Some(p) => if fields.character is Some && !old.blocks@[p].block_type.spec_allows_character() {
            r == Err::<Script, EditError>(EditError::Script(ScriptError::CharacterNotAllowed))
        } else {
            r matches Ok(c) && stamped(old, c, now) && c.title == old.title && exists|
                s1: Seq<ScriptBlock>,
                s2: Seq<ScriptBlock>,
            |
                #![trigger content_step(old.blocks@, p, fields.content, now, s1), character_step(s1, p, fields.character, now, s2)]
                content_step(old.blocks@, p, fields.content, now, s1) && character_step(
                    s1,
                    p,
                    fields.character,
                    now,
                    s2,
                ) && type_step(s2, p, fields.block_type, now, c.blocks@)
        },
    }
}

/// What deleting the screenplay block `block_id` does.
pub open spec fn delete_script_block_outcome(old: Script, block_id: u128, now: i64, r: Result<Script, EditError>) -> bool {
    match position_of(ids_of(old.blocks@), block_id) {
        None => r == Err::<Script, EditError>(EditError::ScriptBlockNotFound(block_id)),
        Some(p) => r matches Ok(c) && stamped(old, c, now) && c.title == old.title && c.blocks@ == sanitized(
            cleared_refs(old.blocks@.remove(p), old.blocks@[p].id),
        ),
    }
}

/// What moving the screenplay block `block_id` before position `to` does.
pub open spec fn move_script_block_outcome(old: Script, block_id: u128, to: int, now: i64, r: Result<Script, EditError>) -> bool {
    match position_of(ids_of(old.blocks@), block_id) {
        None => r == Err::<Script, EditError>(EditError::ScriptBlockNotFound(block_id)),
        Some(p) => if to > old.blocks@.len() {
            r == Err::<Script, EditError>(EditError::Script(ScriptError::MoveToOutOfRange))
        } else if p == to || p + 1 == to {
            r matches Ok(c) && stamped(old, c, now) && c.title == old.title && c.blocks@ == old.blocks@
        } else {
            r matches Ok(c) && stamped(old, c, now) && c.title == old.title && c.blocks@ == sanitized(
                old.blocks@.remove(p).insert(move_target(p, to), old.blocks@[p]),
            )
        },
    }
}

/// What a screenplay intent does to the screenplay it names.
pub open spec fn script_intent_outcome(old: Script, intent: AiIntent, now: i64, r: Result<Script, EditError>) -> bool {
    match intent {
        AiIntent::UpdateScriptTitle { title, .. } => r matches Ok(c) && stamped(old, c, now) && c.title == title
            && c.blocks@ == old.blocks@,
        AiIntent::AppendScriptBlocks { blocks, .. } => r matches Ok(c) && stamped(old, c, now) && c.title
            == old.title && c.blocks@ == appended(old.blocks@, blocks@),
        AiIntent::UpdateScriptBlock { block_id, fields, .. } => update_script_block_outcome(old, block_id, fields, now, r),
        AiIntent::DeleteScriptBlock { block_id, .. } => delete_script_block_outcome(old, block_id, now, r),
        AiIntent::MoveScriptBlock { block_id, to_index, .. } => move_script_block_outcome(
            old,
            block_id,
            to_index as int,
            now,
            r,
        ),
        _ => false,
    }
}

/// A copy of a screenplay block.
pub fn copy_script_block(b: &ScriptBlock) -> (r: ScriptBlock)
    ensures
        r == *b,
{
    ScriptBlock {
        id: b.id,
        block_type: b.block_type,
        content: b.content.clone(),
        character: clone_opt_string(&b.character),
        ends_at: b.ends_at,
        meta: crate::models::block::BlockMeta {
            created_at: b.meta.created_at,
            updated_at: b.meta.updated_at,
            note: b.meta.note.clone(),
        },
    }
}

fn stamp(script: &mut Script, now: i64)
    ensures
        final(script).meta.updated_at == now,
        final(script).meta.created_at == old(script).meta.created_at,
        final(script).meta.status == old(script).meta.status,
        final(script).blocks == old(script).blocks,
        final(script).title == old(script).title,
        final(script).id == old(script).id,
        final(script).schema_version == old(script).schema_version,
{
    script.meta.updated_at = now;
}

/// Appends copies of `new_blocks` one at a time.
pub fn append_script_blocks_in(script: &Script, new_blocks: &Vec<ScriptBlock>, now: i64) -> (r: Script)
    ensures
        stamped(*script, r, now),
        r.title == script.title,
        r.blocks@ == appended(script.blocks@, new_blocks@),
{
    let mut doc = copy_script(script);
    let mut k: usize = 0;
    while k < new_blocks.len()
        invariant
            k <= new_blocks@.len(),
            doc.blocks@ == appended(script.blocks@, new_blocks@.take(k as int)),
            doc.title == script.title,
            doc.id == script.id,
            doc.schema_version == script.schema_version,
            doc.meta == script.meta,
        decreases new_blocks.len() - k,
    {
        let b = copy_script_block(&new_blocks[k]);
        let n = doc.blocks.len();
        let _ = doc.insert_block(n, b);
        proof {
            assert(new_blocks@.take(k as int + 1).drop_last() =~= new_blocks@.take(k as int));
            assert(appended(script.blocks@, new_blocks@.take(k as int)).insert(n as int, b) =~= appended(
                script.blocks@,
                new_blocks@.take(k as int),
            ).push(b));
        }
        k = k + 1;
    }
    proof {
        assert(new_blocks@.take(new_blocks@.len() as int) =~= new_blocks@);
    }
    stamp(&mut doc, now);
    doc
}

/// Updates the screenplay block `block_id`: content, then character, then
/// type, each only when given.
pub fn update_script_block_in(script: &Script, block_id: u128, fields: &ScriptBlockUpdateFields, now: i64) -> (r: Result<
    Script,
    EditError,
>)
    ensures
        update_script_block_outcome(*script, block_id, *fields, now, r),
{
    let mut doc = copy_script(script);
    let idx = match position_of_id(&doc.blocks, block_id) {
        Some(k) => k,
        None => {
            return Err(EditError::ScriptBlockNotFound(block_id));
        },
    };
    if let Some(c) = &fields.content {
        let _ = doc.set_block_content(idx, c.clone(), now);
    }
    let ghost s1 = doc.blocks@;
    if let Some(ch) = &fields.character {
        match doc.set_character(idx, Some(ch.clone()), now) {
            Ok(()) => {},
            Err(e) => {
                return Err(EditError::Script(e));
            },
        }
    }
    let ghost s2 = doc.blocks@;
    if let Some(t) = fields.block_type {
        let _ = doc.set_block_type(idx, t, now);
    }
    proof {
        assert(content_step(script.blocks@, idx as int, fields.content, now, s1));
        assert(character_step(s1, idx as int, fields.character, now, s2));
        assert(type_step(s2, idx as int, fields.block_type, now, doc.blocks@));
    }
    stamp(&mut doc, now);
    Ok(doc)
}

/// Deletes the screenplay block `block_id`.
pub fn delete_script_block_in(script: &Script, block_id: u128, now: i64) -> (r: Result<Script, EditError>)
    ensures
        delete_script_block_outcome(*script, block_id, now, r),
{
    let mut doc = copy_script(script);
    match position_of_id(&doc.blocks, block_id) {
        Some(k) => {
            let _ = doc.remove_block(k);
            stamp(&mut doc, now);
            Ok(doc)
        },
        None => Err(EditError::ScriptBlockNotFound(block_id)),
    }
}

/// Moves the screenplay block `block_id` so that it stands before the block
/// that was at `to_index`.
pub fn move_script_block_in(script: &Script, block_id: u128, to_index: usize, now: i64) -> (r: Result<Script, EditError>)
    ensures
        move_script_block_outcome(*script, block_id, to_index as int, now, r),
{
    let mut doc = copy_script(script);
    let from = match position_of_id(&doc.blocks, block_id) {
        Some(k) => k,
        None => {
            return Err(EditError::ScriptBlockNotFound(block_id));
        },
    };
    match doc.move_block(from, to_index) {
        Ok(()) => {
            stamp(&mut doc, now);
            Ok(doc)
        },
        Err(e) => Err(EditError::Script(e)),
    }
}

/// Applies an intent that names a screenplay to that screenplay, as loaded.
pub fn apply_script_intent(script: &Script, intent: &AiIntent, now: i64) -> (r: Result<Script, EditError>)
    requires
        spec_intent_target(*intent) is Script,
    ensures
        script_intent_outcome(*script, *intent, now, r),
{
    match intent {
        AiIntent::UpdateScriptTitle { title, .. } => {
            let mut doc = copy_script(script);
            doc.title = title.clone();
            stamp(&mut doc, now);
            Ok(doc)
        },
        AiIntent::AppendScriptBlocks { blocks, .. } => Ok(append_script_blocks_in(script, blocks, now)),
        AiIntent::UpdateScriptBlock { block_id, fields, .. } => update_script_block_in(script, *block_id, fields, now),
        AiIntent::DeleteScriptBlock { block_id, .. } => delete_script_block_in(script, *block_id, now),
        AiIntent::MoveScriptBlock { block_id, to_index, .. } => move_script_block_in(script, *block_id, *to_index, now),
        _ => {
            assert(false);
            Err(EditError::ScriptBlockNotFound(0))
        },
    }
}

// ---------------------------------------------------------------------------
// Project header, outline entries, and what tree operations need.

/// Sets the title, style guide and synopsis that are given and stamps the
/// project `now`.
pub fn apply_project_meta(
    project: Project,
    title: Option<String>,
    style_guide: Option<String>,
    synopsis: Option<String>,
    now: i64,
) -> (r: Project)
    ensures
        r == (Project {
            title: match title {
                Some(t) => t,
                None => project.title,
            },
            updated_at: now,
            ai_context: crate::models::project::AiContext {
                style_guide: match style_guide {
                    Some(s) => s,
                    None => project.ai_context.style_guide,
                },
                synopsis: match synopsis {
                    Some(s) => s,
                    None => project.ai_context.synopsis,
                },
                ..project.ai_context
            },
            ..project
        }),
{
    let mut p = project;
    if let Some(t) = title {
        p.title = t;
    }
    if let Some(s) = style_guide {
        p.ai_context.style_guide = s;
    }
    if let Some(s) = synopsis {
        p.ai_context.synopsis = s;
    }
    p.updated_at = now;
    p
}

/// Position of the first outline entry with id `id`.
pub fn find_outline_entry(entries: &Vec<OutlineEntry>, id: u128) -> (r: Option<usize>)
    ensures
        r matches Some(j) ==> j < entries@.len() && entries@[j as int].id == id && forall|k: int|
            0 <= k < j ==> #[trigger] entries@[k].id != id,
        r is None ==> forall|k: int| 0 <= k < entries@.len() ==> #[trigger] entries@[k].id != id,
{
    let mut i: usize = 0;
    while i < entries.len()
        invariant
            i <= entries@.len(),
            forall|k: int| 0 <= k < i ==> #[trigger] entries@[k].id != id,
        decreases entries.len() - i,
    {
        if entries[i].id == id {
            return Some(i);
        }
        i = i + 1;
    }
    None
}

/// An outline entry after an update: the key, category and fields that are
/// given replace the old ones and the entry is stamped `now`; the flag says
/// whether key or category changed, that is whether the entry's file moves.
pub fn updated_outline_entry(
    entry: OutlineEntry,
    key: Option<String>,
    category: Option<OutlineCategory>,
    fields: Option<BTreeMap<String, String>>,
    now: i64,
) -> (r: (OutlineEntry, bool))
    ensures
        r.0@ == (OutlineEntryView {
            key: match key {
                Some(k) => k@,
                None => entry.key@,
            },
            category: match category {
                Some(c) => c,
                None => entry.category,
            },
            fields: match fields {
                Some(f) => f@,
                None => entry.fields@,
            },
            meta: crate::models::outline::OutlineMeta { updated_at: now, ..entry.meta },
            ..entry@
        }),
        r.1 == (r.0.key@ != entry.key@ || r.0.category != entry.category),
{
    let mut e = entry;
    let old_category = e.category;
    let old_key = e.key.clone();
    if let Some(k) = key {
        e.key = k;
    }
    if let Some(c) = category {
        e.category = c;
    }
    if let Some(f) = fields {
        e.fields = f;
    }
    e.meta.updated_at = now;
    let moved = !str_eq(old_key.as_str(), e.key.as_str()) || old_category != e.category;
    (e, moved)
}

/// The file stem of a new screenplay: its title where that is a valid name,
/// else "script-" and the text of its id.
pub fn script_file_stem(title: &str, id: u128) -> (r: String)
    ensures
        name_verdict(title@) is Ok ==> r@ == title@,
        name_verdict(title@) is Err ==> r@ == "script-"@ + id_text_of(id),
{
    if validate_storage_name(title).is_ok() {
        String::from_str(title)
    } else {
        let mut v: Vec<char> = Vec::new();
        proof { reveal_strlit("script-"); }
        push_str(&mut v, "script-");
        let t = id_text(id);
        push_str(&mut v, t.as_str());
        string_of(v.as_slice())
    }
}

/// A new screenplay for a create intent, with the file stem it is stored
/// under: the id given, or a fresh one; the name given, which must be a
/// valid name, or the stem made from the title.
pub fn new_script_for(title: String, script_id: Option<u128>, name: Option<String>, now: i64) -> (r: Result<
    (String, Script),
    NameError,
>)
    ensures
        name matches Some(n) ==> (name_verdict(n@) is Err ==> r == Err::<(String, Script), NameError>(
            name_verdict(n@)->Err_0,
        )),
        r matches Ok((stem, s)) ==> {
            &&& s.schema_version == 2
            &&& s.title@ == title@
            &&& s.blocks@.len() == 1
            &&& s.blocks@[0].block_type == crate::models::script::ScriptBlockType::SceneHeading
            &&& s.blocks@[0].content@.len() == 0
            &&& s.meta.created_at == now
            &&& s.meta.updated_at == now
            &&& s.meta.status@ == "draft"@
            &&& script_id matches Some(id) ==> s.id == id
            &&& name matches Some(n) ==> stem@ == n@
            &&& name is None ==> (name_verdict(title@) is Ok ==> stem@ == title@) && (name_verdict(title@) is Err
                ==> stem@ == "script-"@ + id_text_of(s.id))
        },
        (name matches Some(n) ==> name_verdict(n@) is Ok) ==> r is Ok,
{
    let mut script = Script::new(title.clone(), now);
    if let Some(id) = script_id {
        script.id = id;
    }
    let stem = match name {
        Some(n) => {
            match validate_storage_name(n.as_str()) {
                Ok(()) => {},
                Err(e) => {
                    return Err(e);
                },
            }
            n
        },
        None => script_file_stem(title.as_str(), script.id),
    };
    Ok((stem, script))
}

/// A new chapter file's content: schema version 1, no blocks, a draft.
pub fn empty_chapter(chapter_id: u128, title: String) -> (r: Chapter)
    ensures
        r.schema_version == 1,
        r.id == chapter_id,
        r.title == title,
        r.blocks@.len() == 0,
        r.meta.status@ == "draft"@,
{
    Chapter {
        schema_version: 1,
        id: chapter_id,
        title,
        blocks: Vec::new(),
        meta: crate::models::chapter::ChapterMeta::default(),
    }
}

/// A negative step moves a node up, any other down.
pub fn sibling_direction(direction: i8) -> (r: MoveDirection)
    ensures
        direction < 0 ==> r == MoveDirection::Up,
        direction >= 0 ==> r == MoveDirection::Down,
{
    if direction < 0 {
        MoveDirection::Up
    } else {
        MoveDirection::Down
    }
}

/// The nesting limit used for tree operations: the project's setting, at
/// least 1, or 3 when the project could not be read.
pub fn effective_max_depth(configured: Option<u32>) -> (r: u32)
    ensures
        configured matches Some(d) ==> r == (if d < 1 { 1 } else { d }),
        configured is None ==> r == 3,
{
    match configured {
        Some(d) => if d < 1 {
            1
        } else {
            d
        },
        None => 3,
    }
}

/// A copy of a chapter.
pub fn copy_chapter(c: &Chapter) -> (r: Chapter)
    ensures
        same_chapter(r, *c),
{
    let mut blocks: Vec<Block> = Vec::new();
    let mut i: usize = 0;
    while i < c.blocks.len()
        invariant
            i <= c.blocks@.len(),
            blocks@ == c.blocks@.take(i as int),
        decreases c.blocks.len() - i,
    {
        blocks.push(copy_block(&c.blocks[i]));
        proof {
            assert(c.blocks@.take(i as int + 1) =~= c.blocks@.take(i as int).push(c.blocks@[i as int]));
        }
        i = i + 1;
    }
    proof {
        assert(c.blocks@.take(c.blocks@.len() as int) =~= c.blocks@);
    }
    let r = Chapter {
        schema_version: c.schema_version,
        id: c.id,
        title: c.title.clone(),
        blocks,
        meta: crate::models::chapter::ChapterMeta { status: c.meta.status.clone() },
    };
    r
}

/// A copy of a screenplay.
pub fn copy_script(s: &Script) -> (r: Script)
    ensures
        same_script(r, *s),
{
    let mut blocks: Vec<ScriptBlock> = Vec::new();
    let mut i: usize = 0;
    while i < s.blocks.len()
        invariant
            i <= s.blocks@.len(),
            blocks@ == s.blocks@.take(i as int),
        decreases s.blocks.len() - i,
    {
        blocks.push(copy_script_block(&s.blocks[i]));
        proof {
            assert(s.blocks@.take(i as int + 1) =~= s.blocks@.take(i as int).push(s.blocks@[i as int]));
        }
        i = i + 1;
    }
    proof {
        assert(s.blocks@.take(s.blocks@.len() as int) =~= s.blocks@);
    }
    let r = Script {
        schema_version: s.schema_version,
        id: s.id,
        title: s.title.clone(),
        blocks,
        meta: ScriptMeta {
            created_at: s.meta.created_at,
            updated_at: s.meta.updated_at,
            status: s.meta.status.clone(),
        },
    };
    r
}

// ---------------------------------------------------------------------------
// Laws of the chapter intents.

proof fn lemma_first_id_at(ids: Seq<u128>, id: u128, from: int, p: int)
    requires
        0 <= from <= p < ids.len(),
        ids[p] == id,
        forall|k: int| from <= k < p ==> #[trigger] ids[k] != id,
    ensures
        first_id_from(ids, id, from) == p,
    decreases p - from,
{
    if from < p {
        lemma_first_id_at(ids, id, from + 1, p);
    }
}

/// Deleting a block that was just created, when its id was new to the
/// chapter, gives back the chapter as it was.
pub proof fn law_delete_undoes_create(
    old: Chapter,
    block_type: BlockType,
    content: Seq<char>,
    speaker: Option<String>,
    after: Option<u128>,
    now: i64,
    c: Chapter,
    r: Result<Chapter, EditError>,
)
    requires
        create_block_outcome(old, block_type, content, speaker, after, now, Ok(c)),
        !block_ids(old.blocks@).contains(c.blocks@[creation_index(block_ids(old.blocks@), after)->0].id),
        delete_block_outcome(c, c.blocks@[creation_index(block_ids(old.blocks@), after)->0].id, r),
    ensures
        r matches Ok(d) && same_chapter(d, old),
{
    let ids = block_ids(old.blocks@);
    let p = creation_index(ids, after)->0;
    let nb = c.blocks@[p];
    let ids2 = block_ids(c.blocks@);
    assert(0 <= p <= old.blocks@.len()) by {
        if after is Some {
            lemma_first_id_bounds(ids, after->0, 0);
        }
    }
    assert(ids2 =~= ids.insert(p, nb.id));
    assert forall|k: int| 0 <= k < p implies #[trigger] ids2[k] != nb.id by {
        assert(ids2[k] == ids[k]);
        assert(ids.contains(ids[k]));
    }
    lemma_first_id_at(ids2, nb.id, 0, p);
    assert(c.blocks@.remove(p) =~= old.blocks@);
}

/// Replacing a single block puts the new blocks in its place.
pub proof fn law_replace_one_block(old: Chapter, t: u128, new_blocks: Seq<Block>, r: Result<Chapter, EditError>)
    requires
        position_of(block_ids(old.blocks@), t) is Some,
        replace_blocks_outcome(old, seq![t], new_blocks, r),
    ensures
        r matches Ok(c) && same_chapter_header(c, old) && {
            let p = position_of(block_ids(old.blocks@), t)->0;
            c.blocks@ == old.blocks@.take(p) + new_blocks + old.blocks@.skip(p + 1)
        },
{
    let ids = block_ids(old.blocks@);
    let targets = seq![t];
    let p = position_of(ids, t)->0;
    lemma_first_id_bounds(ids, t, 0);
    assert(first_missing(ids, targets, 1) is None);
    assert(first_missing(ids, targets, 0) is None);
    let idxs = target_positions(ids, targets);
    assert(idxs =~= seq![p]);
    assert(argmax(idxs) == 0);
    assert(idxs.remove(0) =~= Seq::<int>::empty());
    assert(remove_descending(old.blocks@.remove(p), Seq::<int>::empty()) == Some(old.blocks@.remove(p)));
    assert(remove_descending(old.blocks@, idxs) == Some(old.blocks@.remove(p)));
    assert(seq_min(idxs) == p);
    assert(spliced(old.blocks@.remove(p), p, new_blocks) =~= old.blocks@.take(p) + new_blocks + old.blocks@.skip(
        p + 1,
    ));
}

/// The blocks whose positions `drop` does not hold, in order.
pub open spec fn without_positions(blocks: Seq<Block>, drop: spec_fn(int) -> bool) -> Seq<Block>
    decreases blocks.len(),
{
    if blocks.len() == 0 {
        Seq::empty()
    } else {
        let rest = without_positions(blocks.drop_last(), drop);
        if drop(blocks.len() - 1) {
            rest
        } else {
            rest.push(blocks.last())
        }
    }
}

proof fn lemma_argmax_is_max(s: Seq<int>)
    requires
        s.len() > 0,
    ensures
        forall|j: int| 0 <= j < s.len() ==> #[trigger] s[j] <= s[argmax(s)],
    decreases s.len(),
{
    if s.len() > 1 {
        lemma_argmax_is_max(s.drop_last());
        lemma_argmax_bounds(s.drop_last());
        assert forall|j: int| 0 <= j < s.len() implies #[trigger] s[j] <= s[argmax(s)] by {
            if j < s.len() - 1 {
                assert(s.drop_last()[j] == s[j]);
            }
            assert(s.drop_last()[argmax(s.drop_last())] == s[argmax(s.drop_last())]);
        }
    }
}

/// Only the positions inside the sequence matter.
proof fn lemma_without_same_drop(blocks: Seq<Block>, p: spec_fn(int) -> bool, q: spec_fn(int) -> bool)
    requires
        forall|k: int| 0 <= k < blocks.len() ==> #[trigger] p(k) == q(k),
    ensures
        without_positions(blocks, p) == without_positions(blocks, q),
    decreases blocks.len(),
{
    if blocks.len() > 0 {
        lemma_without_same_drop(blocks.drop_last(), p, q);
    }
}

/// Removing position `v` and then dropping `p` is dropping `p` and `v`,
/// when every position `p` holds is below `v`.
proof fn lemma_remove_then_without(blocks: Seq<Block>, v: int, p: spec_fn(int) -> bool, q: spec_fn(int) -> bool)
    requires
        0 <= v < blocks.len(),
        forall|k: int| #[trigger] p(k) ==> k < v,
        forall|k: int| #[trigger] q(k) == (p(k) || k == v),
    ensures
        without_positions(blocks.remove(v), p) == without_positions(blocks, q),
    decreases blocks.len(),
{
    let n = blocks.len();
    if v == n - 1 {
        assert(blocks.remove(v) =~= blocks.drop_last());
        lemma_without_same_drop(blocks.drop_last(), p, q);
    } else {
        lemma_remove_then_without(blocks.drop_last(), v, p, q);
        assert(blocks.remove(v).drop_last() =~= blocks.drop_last().remove(v));
        assert(blocks.remove(v).last() == blocks.last());
        assert(!p(n - 2)) by {
            if p(n - 2) {
                assert(n - 2 < v);
            }
        }
        assert(!q(n - 1));
    }
}

/// Removing distinct in-range positions largest first is dropping them.
proof fn lemma_remove_descending_distinct(blocks: Seq<Block>, idxs: Seq<int>)
    requires
        idxs.no_duplicates(),
        forall|j: int| 0 <= j < idxs.len() ==> 0 <= #[trigger] idxs[j] < blocks.len(),
    ensures
        remove_descending(blocks, idxs) == Some(without_positions(blocks, |k: int| idxs.contains(k))),
    decreases idxs.len(),
{
    if idxs.len() == 0 {
        lemma_without_none(blocks, |k: int| idxs.contains(k));
    } else {
        lemma_argmax_bounds(idxs);
        lemma_argmax_is_max(idxs);
        let m = argmax(idxs);
        let v = idxs[m];
        let rest = idxs.remove(m);
        assert forall|j: int| 0 <= j < rest.len() implies 0 <= #[trigger] rest[j] < blocks.remove(v).len() by {
            if j < m {
                assert(rest[j] == idxs[j]);
                assert(idxs[j] != v);
            } else {
                assert(rest[j] == idxs[j + 1]);
                assert(idxs[j + 1] != v);
            }
        }
        assert(rest.no_duplicates()) by {
            assert forall|a: int, b: int| 0 <= a < rest.len() && 0 <= b < rest.len() && a != b implies rest[a]
                != rest[b] by {
                let ia = if a < m { a } else { a + 1 };
                let ib = if b < m { b } else { b + 1 };
                assert(rest[a] == idxs[ia]);
                assert(rest[b] == idxs[ib]);
            }
        }
        lemma_remove_descending_distinct(blocks.remove(v), rest);
        let p = |k: int| rest.contains(k);
        let q = |k: int| idxs.contains(k);
        assert forall|k: int| #[trigger] p(k) implies k < v by {
            let j = choose|j: int| 0 <= j < rest.len() && rest[j] == k;
            let ij = if j < m { j } else { j + 1 };
            assert(rest[j] == idxs[ij]);
            assert(idxs[ij] != v);
        }
        assert forall|k: int| #[trigger] q(k) == (p(k) || k == v) by {
            if q(k) {
                let j = choose|j: int| 0 <= j < idxs.len() && idxs[j] == k;
                if j < m {
                    assert(rest[j] == idxs[j]);
                } else if j > m {
                    assert(rest[j - 1] == idxs[j]);
                }
            }
            if p(k) {
                let j = choose|j: int| 0 <= j < rest.len() && rest[j] == k;
                let ij = if j < m { j } else { j + 1 };
                assert(rest[j] == idxs[ij]);
            }
            if k == v {
                assert(idxs[m] == v);
            }
        }
        lemma_remove_then_without(blocks, v, p, q);
    }
}

proof fn lemma_without_none(blocks: Seq<Block>, p: spec_fn(int) -> bool)
    requires
        forall|k: int| !#[trigger] p(k),
    ensures
        without_positions(blocks, p) == blocks,
    decreases blocks.len(),
{
    if blocks.len() > 0 {
        lemma_without_none(blocks.drop_last(), p);
        assert(blocks.drop_last().push(blocks.last()) =~= blocks);
    }
}

/// Replacing distinct existing blocks keeps every other block in order and
/// puts the new blocks where the first of the replaced blocks stood.
pub proof fn law_replace_keeps_other_blocks(old: Chapter, targets: Seq<u128>, new_blocks: Seq<Block>, r: Result<Chapter, EditError>)
    requires
        targets.len() > 0,
        targets.no_duplicates(),
        forall|j: int| 0 <= j < targets.len() ==> position_of(block_ids(old.blocks@), #[trigger] targets[j]) is Some,
        replace_blocks_outcome(old, targets, new_blocks, r),
    ensures
        r matches Ok(c) && same_chapter_header(c, old) && {
            let idxs = target_positions(block_ids(old.blocks@), targets);
            c.blocks@ == spliced(
                without_positions(old.blocks@, |k: int| idxs.contains(k)),
                seq_min(idxs),
                new_blocks,
            )
        },
{
    let ids = block_ids(old.blocks@);
    let idxs = target_positions(ids, targets);
    lemma_no_missing(ids, targets, 0);
    assert forall|j: int| 0 <= j < idxs.len() implies 0 <= #[trigger] idxs[j] < old.blocks@.len() by {
        lemma_first_id_bounds(ids, targets[j], 0);
    }
    assert(idxs.no_duplicates()) by {
        assert forall|a: int, b: int| 0 <= a < idxs.len() && 0 <= b < idxs.len() && a != b implies idxs[a]
            != idxs[b] by {
            lemma_first_id_bounds(ids, targets[a], 0);
            lemma_first_id_bounds(ids, targets[b], 0);
        }
    }
    lemma_remove_descending_distinct(old.blocks@, idxs);
}

proof fn lemma_no_missing(ids: Seq<u128>, targets: Seq<u128>, j: int)
    requires
        0 <= j <= targets.len(),
        forall|i: int| 0 <= i < targets.len() ==> position_of(ids, #[trigger] targets[i]) is Some,
    ensures
        first_missing(ids, targets, j) is None,
    decreases targets.len() - j,
{
    if j < targets.len() {
        lemma_no_missing(ids, targets, j + 1);
    }
}

} // verus!
