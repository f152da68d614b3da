//! Screenplays: typed blocks, editing operations, and the music / mood span
//! cues whose explicit end (`ends_at`) must stay consistent with the block
//! order.

use vstd::prelude::*;

use crate::ids::fresh_id;
use crate::models::block::BlockMeta;
use crate::text::{chars_of, push_str, string_of, to_upper, trim, trimmed, upper_of};
use vstd::utf8::{encode_utf8, is_char_boundary};

verus! {

/// The kind of a screenplay block.
#[derive(Debug, Clone, Copy, PartialEq, Eq, Structural)]
pub enum ScriptBlockType {
    SceneHeading,
    Action,
    Character,
    Dialogue,
    Transition,
    Camera,
    Music,
    Sfx,
    Mood,
    Note,
}

impl ScriptBlockType {
    pub open spec fn spec_counts_toward_word_total(self) -> bool {
        self is Action || self is Dialogue || self is Camera || self is Music || self is Sfx
            || self is Mood
    }

    pub open spec fn spec_allows_character(self) -> bool {
        self is Character || self is Dialogue
    }

    pub open spec fn spec_is_span_cue(self) -> bool {
        self is Music || self is Mood
    }

    pub open spec fn spec_label(self) -> &'static str {
        match self {
            ScriptBlockType::SceneHeading => "场景标题",
            ScriptBlockType::Action => "动作",
            ScriptBlockType::Character => "角色",
            ScriptBlockType::Dialogue => "对话",
            ScriptBlockType::Transition => "转场",
            ScriptBlockType::Camera => "镜头指导",
            ScriptBlockType::Music => "音乐",
            ScriptBlockType::Sfx => "音效",
            ScriptBlockType::Mood => "氛围/情绪",
            ScriptBlockType::Note => "备注",
        }
    }

    pub open spec fn spec_split_successor(self) -> ScriptBlockType {
        match self {
            ScriptBlockType::SceneHeading => ScriptBlockType::Action,
            ScriptBlockType::Character => ScriptBlockType::Dialogue,
            ScriptBlockType::Transition => ScriptBlockType::SceneHeading,
            _ => self,
        }
    }

    /// Action, dialogue, camera, music, sound effect and mood blocks count
    /// toward the word total.
    pub fn counts_toward_word_total(self) -> (r: bool)
        ensures
            r == self.spec_counts_toward_word_total(),
    {
        match self {
            ScriptBlockType::Action | ScriptBlockType::Dialogue | ScriptBlockType::Camera
            | ScriptBlockType::Music | ScriptBlockType::Sfx | ScriptBlockType::Mood => true,
            _ => false,
        }
    }

    /// Only dialogue blocks count as dialogue lines.
    pub fn counts_as_dialogue_line(self) -> (r: bool)
        ensures
            r == (self is Dialogue),
    {
        match self {
            ScriptBlockType::Dialogue => true,
            _ => false,
        }
    }

    /// Character and dialogue blocks carry a character name.
    pub fn allows_character(self) -> (r: bool)
        ensures
            r == self.spec_allows_character(),
    {
        match self {
            ScriptBlockType::Character | ScriptBlockType::Dialogue => true,
            _ => false,
        }
    }

    /// Music and mood cues cover a range of blocks.
    pub fn is_span_cue(self) -> (r: bool)
        ensures
            r == self.spec_is_span_cue(),
    {
        match self {
            ScriptBlockType::Music | ScriptBlockType::Mood => true,
            _ => false,
        }
    }

    /// Only span cues may name an explicit end block.
    pub fn allows_ends_at(self) -> (r: bool)
        ensures
            r == self.spec_is_span_cue(),
    {
        self.is_span_cue()
    }

    /// The display name of the block type.
    pub fn label(self) -> (r: &'static str)
        ensures
            r == self.spec_label(),
    {
        match self {
            ScriptBlockType::SceneHeading => "场景标题",
            ScriptBlockType::Action => "动作",
            ScriptBlockType::Character => "角色",
            ScriptBlockType::Dialogue => "对话",
            ScriptBlockType::Transition => "转场",
            ScriptBlockType::Camera => "镜头指导",
            ScriptBlockType::Music => "音乐",
            ScriptBlockType::Sfx => "音效",
            ScriptBlockType::Mood => "氛围/情绪",
            ScriptBlockType::Note => "备注",
        }
    }

    /// Splitting a block starts a new block of the type that naturally
    /// follows: an action after a scene heading, a dialogue after a
    /// character cue, a scene heading after a transition; every other
    /// block continues with its own type.
    pub proof fn law_split_successor(self)
        ensures
            self == ScriptBlockType::SceneHeading ==> self.spec_split_successor() == ScriptBlockType::Action,
            self == ScriptBlockType::Character ==> self.spec_split_successor() == ScriptBlockType::Dialogue,
            self == ScriptBlockType::Transition ==> self.spec_split_successor() == ScriptBlockType::SceneHeading,
            self != ScriptBlockType::SceneHeading && self != ScriptBlockType::Character && self
                != ScriptBlockType::Transition ==> self.spec_split_successor() == self,
    {
    }

    /// Exactly action, dialogue, camera, music, sound effect and mood
    /// blocks count toward the word total; scene headings, character cues,
    /// transitions and notes do not.
    pub proof fn law_counted_types(self)
        ensures
            self.spec_counts_toward_word_total() <==> (self == ScriptBlockType::Action || self
                == ScriptBlockType::Dialogue || self == ScriptBlockType::Camera || self == ScriptBlockType::Music
                || self == ScriptBlockType::Sfx || self == ScriptBlockType::Mood),
    {
    }

    /// The type of the new block created when a block of this type is split.
    pub fn split_successor(self) -> (r: Self)
        ensures
            r == self.spec_split_successor(),
    {
        match self {
            ScriptBlockType::SceneHeading => ScriptBlockType::Action,
            ScriptBlockType::Character => ScriptBlockType::Dialogue,
            ScriptBlockType::Transition => ScriptBlockType::SceneHeading,
            _ => self,
        }
    }

    /// Every block type, in menu order.
    pub fn all() -> (r: [Self; 10])
        ensures
            r@ == seq![
                ScriptBlockType::SceneHeading,
                ScriptBlockType::Action,
                ScriptBlockType::Character,
                ScriptBlockType::Dialogue,
                ScriptBlockType::Transition,
                ScriptBlockType::Camera,
                ScriptBlockType::Music,
                ScriptBlockType::Sfx,
                ScriptBlockType::Mood,
                ScriptBlockType::Note,
            ],
    {
        [
            ScriptBlockType::SceneHeading,
            ScriptBlockType::Action,
            ScriptBlockType::Character,
            ScriptBlockType::Dialogue,
            ScriptBlockType::Transition,
            ScriptBlockType::Camera,
            ScriptBlockType::Music,
            ScriptBlockType::Sfx,
            ScriptBlockType::Mood,
            ScriptBlockType::Note,
        ]
    }
}

/// One block of a screenplay.
#[derive(Debug, Clone, PartialEq, Eq)]
pub struct ScriptBlock {
    pub id: u128,
    pub block_type: ScriptBlockType,
    pub content: String,
    pub character: Option<String>,
    /// Only for music and mood cues: the id of the last block the cue covers.
    pub ends_at: Option<u128>,
    pub meta: BlockMeta,
}

impl ScriptBlock {
    /// A block with a fresh id, no character and no explicit end.
    pub fn new(block_type: ScriptBlockType, content: String, now: i64) -> (r: Self)
        ensures
            r.block_type == block_type,
            r.content@ == content@,
            r.character is None,
            r.ends_at is None,
            r.meta.created_at == now,
            r.meta.updated_at == now,
            r.meta.note@.len() == 0,
    {
        ScriptBlock {
            id: fresh_id(),
            block_type,
            content,
            character: None,
            ends_at: None,
            meta: BlockMeta::new(now),
        }
    }

    /// A character cue whose content and character are both `name`.
    pub fn new_character(name: String, now: i64) -> (r: Self)
        ensures
            r.block_type == ScriptBlockType::Character,
            r.content@ == name@,
            r.character matches Some(c) && c@ == name@,
            r.ends_at is None,
            r.meta.created_at == now,
            r.meta.updated_at == now,
            r.meta.note@.len() == 0,
    {
        let content = name.clone();
        ScriptBlock {
            id: fresh_id(),
            block_type: ScriptBlockType::Character,
            content,
            character: Some(name),
            ends_at: None,
            meta: BlockMeta::new(now),
        }
    }

    /// A dialogue line spoken by `character`.
    pub fn new_dialogue(content: String, character: String, now: i64) -> (r: Self)
        ensures
            r.block_type == ScriptBlockType::Dialogue,
            r.content@ == content@,
            r.character matches Some(c) && c@ == character@,
            r.ends_at is None,
            r.meta.created_at == now,
            r.meta.updated_at == now,
            r.meta.note@.len() == 0,
    {
        ScriptBlock {
            id: fresh_id(),
            block_type: ScriptBlockType::Dialogue,
            content,
            character: Some(character),
            ends_at: None,
            meta: BlockMeta::new(now),
        }
    }
}

/// Creation and modification times of a screenplay and its status.
#[derive(Debug, Clone, PartialEq, Eq)]
pub struct ScriptMeta {
    pub created_at: i64,
    pub updated_at: i64,
    pub status: String,
}

impl Default for ScriptMeta {
    fn default() -> (r: Self)
        ensures
            r.created_at == 0,
            r.updated_at == 0,
            r.status@.len() == 0,
    {
        ScriptMeta { created_at: 0, updated_at: 0, status: String::new() }
    }
}

/// Why a screenplay edit was refused.
#[derive(Debug, Clone, Copy, PartialEq, Eq, Structural)]
pub enum ScriptError {
    InsertOutOfRange,
    RemoveOutOfRange,
    IndexOutOfRange,
    CharacterNotAllowed,
    SplitNotOnCharBoundary,
    MergeEndOutOfRange,
    MergeNeedsTwoBlocks,
    MergeNotText,
    MoveFromOutOfRange,
    MoveToOutOfRange,
    AlreadyAtTop,
    AlreadyAtBottom,
    EndsAtNotAllowed,
    EndsAtTargetMissing,
    EndsAtNotAfterStart,
    SpanOverlap,
}

impl ScriptError {
    pub open spec fn spec_message(self) -> &'static str {
        match self {
            ScriptError::InsertOutOfRange => "insert index out of range",
            ScriptError::RemoveOutOfRange => "remove index out of range",
            ScriptError::IndexOutOfRange => "block index out of range",
            ScriptError::CharacterNotAllowed => "character only valid on character or dialogue blocks",
            ScriptError::SplitNotOnCharBoundary => "split offset must be on a char boundary",
            ScriptError::MergeEndOutOfRange => "merge end out of range",
            ScriptError::MergeNeedsTwoBlocks => "merge requires at least two blocks",
            ScriptError::MergeNotText => "only continuous text-like blocks can be merged",
            ScriptError::MoveFromOutOfRange => "move from out of range",
            ScriptError::MoveToOutOfRange => "move to out of range",
            ScriptError::AlreadyAtTop => "already at top",
            ScriptError::AlreadyAtBottom => "already at bottom",
            ScriptError::EndsAtNotAllowed => "ends_at only valid on music or mood blocks",
            ScriptError::EndsAtTargetMissing => "ends_at target block not found",
            ScriptError::EndsAtNotAfterStart => "ends_at must point to a block after the start",
            ScriptError::SpanOverlap => "same-type span cues must not overlap",
        }
    }

    /// A one-line description of the refusal.
    pub fn message(self) -> (r: &'static str)
        ensures
            r == self.spec_message(),
    {
        match self {
            ScriptError::InsertOutOfRange => "insert index out of range",
            ScriptError::RemoveOutOfRange => "remove index out of range",
            ScriptError::IndexOutOfRange => "block index out of range",
            ScriptError::CharacterNotAllowed => "character only valid on character or dialogue blocks",
            ScriptError::SplitNotOnCharBoundary => "split offset must be on a char boundary",
            ScriptError::MergeEndOutOfRange => "merge end out of range",
            ScriptError::MergeNeedsTwoBlocks => "merge requires at least two blocks",
            ScriptError::MergeNotText => "only continuous text-like blocks can be merged",
            ScriptError::MoveFromOutOfRange => "move from out of range",
            ScriptError::MoveToOutOfRange => "move to out of range",
            ScriptError::AlreadyAtTop => "already at top",
            ScriptError::AlreadyAtBottom => "already at bottom",
            ScriptError::EndsAtNotAllowed => "ends_at only valid on music or mood blocks",
            ScriptError::EndsAtTargetMissing => "ends_at target block not found",
            ScriptError::EndsAtNotAfterStart => "ends_at must point to a block after the start",
            ScriptError::SpanOverlap => "same-type span cues must not overlap",
        }
    }
}

/// A screenplay document.
#[derive(Debug, Clone, PartialEq, Eq)]
pub struct Script {
    pub schema_version: u32,
    pub id: u128,
    pub title: String,
    pub blocks: Vec<ScriptBlock>,
    pub meta: ScriptMeta,
}

// ---------------------------------------------------------------------------
// The model of block order used by span cues.

/// The ids of the blocks, in order.
pub open spec fn ids_of(blocks: Seq<ScriptBlock>) -> Seq<u128> {
    blocks.map_values(|b: ScriptBlock| b.id)
}

/// The types of the blocks, in order.
pub open spec fn types_of(blocks: Seq<ScriptBlock>) -> Seq<ScriptBlockType> {
    blocks.map_values(|b: ScriptBlock| b.block_type)
}

/// First index at or after `from` holding `id`, or the length.
pub open spec fn first_id_from(ids: Seq<u128>, id: u128, from: int) -> int
    decreases ids.len() - from,
{
    if from < 0 || from >= ids.len() {
        ids.len() as int
    } else if ids[from] == id {
        from
    } else {
        first_id_from(ids, id, from + 1)
    }
}

/// Position of the first block with id `id`.
pub open spec fn position_of(ids: Seq<u128>, id: u128) -> Option<int> {
    let k = first_id_from(ids, id, 0);
    if k < ids.len() {
        Some(k)
    } else {
        None
    }
}

/// First index at or after `from` whose type is `ty` or a scene heading, or
/// the length.
pub open spec fn first_boundary_from(types: Seq<ScriptBlockType>, ty: ScriptBlockType, from: int) -> int
    decreases types.len() - from,
{
    if from < 0 || from >= types.len() {
        types.len() as int
    } else if types[from] == ty || types[from] == ScriptBlockType::SceneHeading {
        from
    } else {
        first_boundary_from(types, ty, from + 1)
    }
}

/// The explicit end of the cue at `start`, when it names a later block.
pub open spec fn explicit_end(blocks: Seq<ScriptBlock>, start: int) -> Option<int> {
    match blocks[start].ends_at {
        Some(e) => match position_of(ids_of(blocks), e) {
            Some(j) => if j > start { Some(j) } else { None },
            None => None,
        },
        None => None,
    }
}

/// The last block (inclusive) covered by the span cue at `start`: its
/// explicit end when that names a later block, otherwise the block before the
/// next cue of the same type or the next scene heading, otherwise the last
/// block. Not a span cue, or out of range: none.
pub open spec fn span_end(blocks: Seq<ScriptBlock>, start: int) -> Option<int> {
    if !(0 <= start < blocks.len()) {
        None
    } else if !blocks[start].block_type.spec_is_span_cue() {
        None
    } else {
        match explicit_end(blocks, start) {
            Some(j) => Some(j),
            None => Some(first_boundary_from(types_of(blocks), blocks[start].block_type, start + 1) - 1),
        }
    }
}

/// Whether the span `[start, end]` of the cue at `start` would meet the span
/// of another cue of the same type.
pub open spec fn span_overlaps(blocks: Seq<ScriptBlock>, start: int, end: int) -> bool {
    exists|k: int|
        #![trigger span_end(blocks, k)]
        0 <= k < blocks.len() && k != start && blocks[k].block_type == blocks[start].block_type
            && (span_end(blocks, k) matches Some(oe) && start <= oe && k <= end)
}

/// Whether an explicit end held at index `i` is consistent: only span cues
/// carry one, it names a block after `i`, and no cue of the same type lies
/// in between (end included).
pub open spec fn ends_ok(ids: Seq<u128>, types: Seq<ScriptBlockType>, i: int, ends_at: Option<u128>) -> bool {
    match ends_at {
        None => true,
        Some(e) => types[i].spec_is_span_cue() && match position_of(ids, e) {
            Some(j) => j > i && forall|k: int| i < k <= j ==> #[trigger] types[k] != types[i],
            None => false,
        },
    }
}

/// The block with its explicit end cleared.
pub open spec fn without_ends_at(b: ScriptBlock) -> ScriptBlock {
    ScriptBlock {
        id: b.id,
        block_type: b.block_type,
        content: b.content,
        character: b.character,
        ends_at: None,
        meta: b.meta,
    }
}

/// Block `b` at index `k` after the consistency rule: kept when its explicit
/// end is consistent, otherwise with the end cleared.
pub open spec fn sanitized_at(ids: Seq<u128>, types: Seq<ScriptBlockType>, b: ScriptBlock, k: int) -> ScriptBlock {
    if ends_ok(ids, types, k, b.ends_at) {
        b
    } else {
        without_ends_at(b)
    }
}

/// Every inconsistent explicit end cleared.
pub open spec fn sanitized(blocks: Seq<ScriptBlock>) -> Seq<ScriptBlock> {
    Seq::new(blocks.len(), |k: int| sanitized_at(ids_of(blocks), types_of(blocks), blocks[k], k))
}

/// Every explicit end is consistent.
pub open spec fn ends_at_wf(blocks: Seq<ScriptBlock>) -> bool {
    forall|k: int| 0 <= k < blocks.len() ==> ends_ok(ids_of(blocks), types_of(blocks), k, #[trigger] blocks[k].ends_at)
}

/// Explicit ends that name `id` cleared.
pub open spec fn cleared_refs(blocks: Seq<ScriptBlock>, id: u128) -> Seq<ScriptBlock> {
    Seq::new(blocks.len(), |k: int| if blocks[k].ends_at == Some(id) { without_ends_at(blocks[k]) } else { blocks[k] })
}


proof fn lemma_first_boundary_bounds(types: Seq<ScriptBlockType>, ty: ScriptBlockType, from: int)
    requires
        0 <= from <= types.len(),
    ensures
        from <= first_boundary_from(types, ty, from) <= types.len(),
    decreases types.len() - from,
{
    if from < types.len() && !(types[from] == ty || types[from] == ScriptBlockType::SceneHeading) {
        lemma_first_boundary_bounds(types, ty, from + 1);
    }
}

pub proof fn lemma_first_id_bounds(ids: Seq<u128>, id: u128, from: int)
    requires
        0 <= from <= ids.len(),
    ensures
        from <= first_id_from(ids, id, from) <= ids.len(),
        first_id_from(ids, id, from) < ids.len() ==> ids[first_id_from(ids, id, from)] == id,
    decreases ids.len() - from,
{
    if from < ids.len() && ids[from] != id {
        lemma_first_id_bounds(ids, id, from + 1);
    }
}

/// The last block covered by a span cue lies between the cue and the end of
/// the screenplay.
pub proof fn lemma_span_end_in_range(blocks: Seq<ScriptBlock>, start: int)
    ensures
        span_end(blocks, start) matches Some(e) ==> start <= e < blocks.len(),
{
    if 0 <= start < blocks.len() && blocks[start].block_type.spec_is_span_cue() {
        if explicit_end(blocks, start) is None {
            lemma_first_boundary_bounds(types_of(blocks), blocks[start].block_type, start + 1);
        } else {
            lemma_first_id_bounds(ids_of(blocks), blocks[start].ends_at->0, 0);
        }
    }
}

/// Clearing inconsistent explicit ends leaves every explicit end consistent.
pub proof fn lemma_sanitized_well_formed(blocks: Seq<ScriptBlock>)
    ensures
        ends_at_wf(sanitized(blocks)),
        ids_of(sanitized(blocks)) == ids_of(blocks),
        types_of(sanitized(blocks)) == types_of(blocks),
{
    let s = sanitized(blocks);
    assert(ids_of(s) =~= ids_of(blocks));
    assert(types_of(s) =~= types_of(blocks));
}

/// A screenplay whose explicit ends are consistent is left as it is.
pub proof fn lemma_sanitize_keeps_well_formed(blocks: Seq<ScriptBlock>)
    requires
        ends_at_wf(blocks),
    ensures
        sanitized(blocks) == blocks,
{
    assert(sanitized(blocks) =~= blocks);
}

/// Index of the first block with id `id`.
pub fn position_of_id(blocks: &Vec<ScriptBlock>, id: u128) -> (r: Option<usize>)
    ensures
        r matches Some(j) ==> position_of(ids_of(blocks@), id) == Some(j as int) && j < blocks.len(),
        r is None ==> position_of(ids_of(blocks@), id) is None,
{
    let ghost ids = ids_of(blocks@);
    let mut i: usize = 0;
    while i < blocks.len()
        invariant
            i <= blocks@.len(),
            ids == ids_of(blocks@),
            first_id_from(ids, id, 0) == first_id_from(ids, id, i as int),
        decreases blocks.len() - i,
    {
        if blocks[i].id == id {
            return Some(i);
        }
        i = i + 1;
    }
    None
}

/// First index at or after `from` whose block is of type `ty` or a scene
/// heading, or the number of blocks.
fn first_boundary(blocks: &Vec<ScriptBlock>, ty: ScriptBlockType, from: usize) -> (r: usize)
    requires
        from <= blocks@.len(),
    ensures
        r == first_boundary_from(types_of(blocks@), ty, from as int),
{
    let ghost types = types_of(blocks@);
    let mut j: usize = from;
    while j < blocks.len()
        invariant
            from <= j <= blocks@.len(),
            types == types_of(blocks@),
            first_boundary_from(types, ty, from as int) == first_boundary_from(types, ty, j as int),
        decreases blocks.len() - j,
    {
        let t = blocks[j].block_type;
        if t == ty || t == ScriptBlockType::SceneHeading {
            return j;
        }
        j = j + 1;
    }
    j
}

/// Whether the explicit end held at index `i` is consistent.
fn ends_ok_at(blocks: &Vec<ScriptBlock>, i: usize) -> (r: bool)
    requires
        i < blocks@.len(),
    ensures
        r == ends_ok(ids_of(blocks@), types_of(blocks@), i as int, blocks@[i as int].ends_at),
{
    let ghost types = types_of(blocks@);
    match blocks[i].ends_at {
        None => true,
        Some(e) => {
            let ty = blocks[i].block_type;
            if !ty.allows_ends_at() {
                return false;
            }
            match position_of_id(blocks, e) {
                None => false,
                Some(j) => {
                    if j <= i {
                        return false;
                    }
                    proof {
                        lemma_first_id_bounds(ids_of(blocks@), e, 0);
                    }
                    let mut k: usize = i + 1;
                    while k <= j
                        invariant
                            i < k <= j + 1,
                            j < blocks.len(),
                            types == types_of(blocks@),
                            ty == types[i as int],
                            position_of(ids_of(blocks@), e) == Some(j as int),
                            blocks@[i as int].ends_at == Some(e),
                            ty.spec_is_span_cue(),
                            forall|m: int| i < m < k ==> #[trigger] types[m] != ty,
                        decreases j + 1 - k,
                    {
                        if blocks[k].block_type == ty {
                            assert(types[k as int] == types[i as int]);
                            return false;
                        }
                        k = k + 1;
                    }
                    true
                },
            }
        },
    }
}

/// Clears every inconsistent explicit end.
fn sanitize_blocks(blocks: &mut Vec<ScriptBlock>)
    ensures
        final(blocks)@ == sanitized(old(blocks)@),
{
    let ghost orig = blocks@;
    let n = blocks.len();
    let mut i: usize = 0;
    while i < n
        invariant
            n == blocks@.len() == orig.len(),
            i <= n,
            forall|k: int| 0 <= k < n ==> (#[trigger] blocks@[k]).id == orig[k].id && blocks@[k].block_type == orig[k].block_type,
            forall|k: int| 0 <= k < i ==> #[trigger] blocks@[k] == sanitized(orig)[k],
            forall|k: int| i <= k < n ==> #[trigger] blocks@[k] == orig[k],
        decreases n - i,
    {
        assert(ids_of(blocks@) =~= ids_of(orig));
        assert(types_of(blocks@) =~= types_of(orig));
        let keep = ends_ok_at(blocks, i);
        if !keep {
            blocks[i].ends_at = None;
        }
        i = i + 1;
    }
    assert(blocks@ =~= sanitized(orig));
}

/// Clears every explicit end that names `id`.
fn clear_refs(blocks: &mut Vec<ScriptBlock>, id: u128)
    ensures
        final(blocks)@ == cleared_refs(old(blocks)@, id),
{
    let ghost orig = blocks@;
    let n = blocks.len();
    let mut i: usize = 0;
    while i < n
        invariant
            n == blocks@.len() == orig.len(),
            i <= n,
            forall|k: int| 0 <= k < i ==> #[trigger] blocks@[k] == cleared_refs(orig, id)[k],
            forall|k: int| i <= k < n ==> #[trigger] blocks@[k] == orig[k],
        decreases n - i,
    {
        if blocks[i].ends_at == Some(id) {
            blocks[i].ends_at = None;
        }
        i = i + 1;
    }
    assert(blocks@ =~= cleared_refs(orig, id));
}


/// The fields of a screenplay other than its blocks are equal.
pub open spec fn same_header(a: Script, b: Script) -> bool {
    &&& a.schema_version == b.schema_version
    &&& a.id == b.id
    &&& a.title == b.title
    &&& a.meta == b.meta
}

/// The block with explicit end `e` and modification time `now`.
pub open spec fn with_end_at_time(b: ScriptBlock, e: Option<u128>, now: i64) -> ScriptBlock {
    ScriptBlock {
        id: b.id,
        block_type: b.block_type,
        content: b.content,
        character: b.character,
        ends_at: e,
        meta: BlockMeta { created_at: b.meta.created_at, updated_at: now, note: b.meta.note },
    }
}

/// Where a block moved from `from` lands when asked to go before `to`.
pub open spec fn move_target(from: int, to: int) -> int {
    if to > from { to - 1 } else { to }
}

/// The hint shown for a cue that ends at the next cue of its own type.
pub open spec fn same_type_hint(ty: ScriptBlockType) -> &'static str {
    match ty {
        ScriptBlockType::Music => "至下一段音乐",
        ScriptBlockType::Mood => "至下一段氛围",
        _ => "至同类型块",
    }
}

/// A readable description of where a cue without explicit end stops.
pub open spec fn span_end_hint(blocks: Seq<ScriptBlock>, start: int) -> Option<&'static str> {
    if !(0 <= start < blocks.len()) {
        None
    } else if !blocks[start].block_type.spec_is_span_cue() || blocks[start].ends_at is Some {
        None
    } else {
        let j = first_boundary_from(types_of(blocks), blocks[start].block_type, start + 1);
        if j >= blocks.len() {
            Some("至剧本末尾")
        } else if blocks[j].block_type == blocks[start].block_type {
            Some(same_type_hint(blocks[start].block_type))
        } else {
            Some("至下一场景")
        }
    }
}

impl Script {
    /// A new screenplay (schema version 2) with one empty scene heading.
    pub fn new(title: String, now: i64) -> (r: Self)
        ensures
            r.schema_version == 2,
            r.title@ == title@,
            r.blocks@.len() == 1,
            r.blocks@[0].block_type == ScriptBlockType::SceneHeading,
            r.blocks@[0].content@.len() == 0,
            r.blocks@[0].character is None,
            r.blocks@[0].ends_at is None,
            r.blocks@[0].meta.created_at == now,
            r.blocks@[0].meta.updated_at == now,
            r.meta.created_at == now,
            r.meta.updated_at == now,
            r.meta.status@ == "draft"@,
    {
        let mut blocks: Vec<ScriptBlock> = Vec::new();
        blocks.push(ScriptBlock::new(ScriptBlockType::SceneHeading, String::new(), now));
        Script {
            schema_version: 2,
            id: fresh_id(),
            title,
            blocks,
            meta: ScriptMeta { created_at: now, updated_at: now, status: String::from_str("draft") },
        }
    }

    /// Inserts `block` before position `index` (`index == len` appends), then
    /// clears explicit ends made inconsistent.
    pub fn insert_block(&mut self, index: usize, block: ScriptBlock) -> (r: Result<(), ScriptError>)
        ensures
            index > old(self).blocks@.len() ==> r == Err::<(), ScriptError>(ScriptError::InsertOutOfRange)
                && *final(self) == *old(self),
            index <= old(self).blocks@.len() ==> r is Ok
                && final(self).blocks@ == sanitized(old(self).blocks@.insert(index as int, block))
                && same_header(*final(self), *old(self)),
            r is Ok ==> ends_at_wf(final(self).blocks@),
    {
        if index > self.blocks.len() {
            return Err(ScriptError::InsertOutOfRange);
        }
        self.blocks.insert(index, block);
        sanitize_blocks(&mut self.blocks);
        proof {
            lemma_sanitized_well_formed(old(self).blocks@.insert(index as int, block));
        }
        Ok(())
    }

    /// Removes and returns the block at `index`, clears explicit ends that
    /// named it, then clears explicit ends made inconsistent.
    pub fn remove_block(&mut self, index: usize) -> (r: Result<ScriptBlock, ScriptError>)
        ensures
            index >= old(self).blocks@.len() ==> r == Err::<ScriptBlock, ScriptError>(ScriptError::RemoveOutOfRange)
                && *final(self) == *old(self),
            index < old(self).blocks@.len() ==> r == Ok::<ScriptBlock, ScriptError>(old(self).blocks@[index as int])
                && final(self).blocks@ == sanitized(
                    cleared_refs(old(self).blocks@.remove(index as int), old(self).blocks@[index as int].id),
                )
                && same_header(*final(self), *old(self)),
            r is Ok ==> ends_at_wf(final(self).blocks@),
    {
        if index >= self.blocks.len() {
            return Err(ScriptError::RemoveOutOfRange);
        }
        let removed = self.blocks.remove(index);
        clear_refs(&mut self.blocks, removed.id);
        sanitize_blocks(&mut self.blocks);
        proof {
            lemma_sanitized_well_formed(
                cleared_refs(old(self).blocks@.remove(index as int), old(self).blocks@[index as int].id),
            );
        }
        Ok(removed)
    }

    /// Moves the block at `from` so that it stands before the block that was
    /// at `to` (`to == len` moves it to the end). Moving onto itself or onto
    /// the next position changes nothing.
    pub fn move_block(&mut self, from: usize, to: usize) -> (r: Result<(), ScriptError>)
        ensures
            from >= old(self).blocks@.len() ==> r == Err::<(), ScriptError>(ScriptError::MoveFromOutOfRange)
                && *final(self) == *old(self),
            from < old(self).blocks@.len() && to > old(self).blocks@.len() ==> r == Err::<(), ScriptError>(
                ScriptError::MoveToOutOfRange,
            ) && *final(self) == *old(self),
            from < old(self).blocks@.len() && to <= old(self).blocks@.len() && (from == to || from + 1 == to)
                ==> r is Ok && *final(self) == *old(self),
            from < old(self).blocks@.len() && to <= old(self).blocks@.len() && !(from == to || from + 1 == to)
                ==> r is Ok && final(self).blocks@ == sanitized(
                    old(self).blocks@.remove(from as int).insert(
                        move_target(from as int, to as int),
                        old(self).blocks@[from as int],
                    ),
                ) && same_header(*final(self), *old(self)) && ends_at_wf(final(self).blocks@),
    {
        if from >= self.blocks.len() {
            return Err(ScriptError::MoveFromOutOfRange);
        }
        if to > self.blocks.len() {
            return Err(ScriptError::MoveToOutOfRange);
        }
        if from == to || from + 1 == to {
            return Ok(());
        }
        let block = self.blocks.remove(from);
        let insert_at = if to > from { to - 1 } else { to };
        self.blocks.insert(insert_at, block);
        sanitize_blocks(&mut self.blocks);
        proof {
            lemma_sanitized_well_formed(
                old(self).blocks@.remove(from as int).insert(
                    move_target(from as int, to as int),
                    old(self).blocks@[from as int],
                ),
            );
        }
        Ok(())
    }

    /// Swaps the block at `index` with its upper (`up`) or lower neighbour,
    /// then clears explicit ends made inconsistent.
    pub fn swap_block(&mut self, index: usize, up: bool) -> (r: Result<(), ScriptError>)
        requires
            up && index > 0 ==> index < old(self).blocks@.len(),
            !up ==> index < usize::MAX,
        ensures
            up && index == 0 ==> r == Err::<(), ScriptError>(ScriptError::AlreadyAtTop) && *final(self) == *old(self),
            !up && index + 1 >= old(self).blocks@.len() ==> r == Err::<(), ScriptError>(ScriptError::AlreadyAtBottom)
                && *final(self) == *old(self),
            up && index > 0 ==> r is Ok && final(self).blocks@ == sanitized(
                old(self).blocks@.update(index as int, old(self).blocks@[index - 1]).update(
                    index - 1,
                    old(self).blocks@[index as int],
                ),
            ) && same_header(*final(self), *old(self)) && ends_at_wf(final(self).blocks@),
            !up && index + 1 < old(self).blocks@.len() ==> r is Ok && final(self).blocks@ == sanitized(
                old(self).blocks@.update(index as int, old(self).blocks@[index + 1]).update(
                    index + 1,
                    old(self).blocks@[index as int],
                ),
            ) && same_header(*final(self), *old(self)) && ends_at_wf(final(self).blocks@),
    {
        let ghost orig = self.blocks@;
        let target = if up {
            if index == 0 {
                return Err(ScriptError::AlreadyAtTop);
            }
            index - 1
        } else {
            if index + 1 >= self.blocks.len() {
                return Err(ScriptError::AlreadyAtBottom);
            }
            index + 1
        };
        let block = self.blocks.remove(index);
        self.blocks.insert(target, block);
        let ghost swapped = orig.update(index as int, orig[target as int]).update(target as int, orig[index as int]);
        assert(self.blocks@ =~= swapped);
        sanitize_blocks(&mut self.blocks);
        proof {
            lemma_sanitized_well_formed(swapped);
        }
        Ok(())
    }

    /// The last block (inclusive) covered by the music or mood cue at
    /// `start`; none for other blocks.
    pub fn resolved_span_end_index(&self, start: usize) -> (r: Option<usize>)
        ensures
            r matches Some(e) ==> span_end(self.blocks@, start as int) == Some(e as int),
            r is None ==> span_end(self.blocks@, start as int) is None,
    {
        if start >= self.blocks.len() {
            return None;
        }
        let ty = self.blocks[start].block_type;
        if !ty.is_span_cue() {
            return None;
        }
        if let Some(end_id) = self.blocks[start].ends_at {
            if let Some(j) = position_of_id(&self.blocks, end_id) {
                if j > start {
                    return Some(j);
                }
            }
        }
        let b = first_boundary(&self.blocks, ty, start + 1);
        proof {
            lemma_first_boundary_bounds(types_of(self.blocks@), ty, start + 1);
        }
        Some(b - 1)
    }

    /// Whether giving the cue at `start` the span `[start, end]` would meet
    /// the span of another cue of the same type.
    fn span_would_overlap_same_type(&self, start: usize, end: usize) -> (r: bool)
        requires
            start < self.blocks@.len(),
        ensures
            r == span_overlaps(self.blocks@, start as int, end as int),
    {
        let ty = self.blocks[start].block_type;
        let n = self.blocks.len();
        let mut k: usize = 0;
        while k < n
            invariant
                n == self.blocks@.len(),
                start < n,
                k <= n,
                ty == self.blocks@[start as int].block_type,
                forall|m: int|
                    #![trigger span_end(self.blocks@, m)]
                    0 <= m < k ==> !(m != start && self.blocks@[m].block_type == ty && (span_end(
                        self.blocks@,
                        m,
                    ) matches Some(oe) && start <= oe && m <= end)),
            decreases n - k,
        {
            if k != start && self.blocks[k].block_type == ty {
                if let Some(other_end) = self.resolved_span_end_index(k) {
                    if start <= other_end && k <= end {
                        return true;
                    }
                }
            }
            k = k + 1;
        }
        false
    }

    /// Sets (`Some`) or clears (`None`) the explicit end of the music or mood
    /// cue at `index`. The end must name a later block, and the new span must
    /// not meet another cue of the same type.
    pub fn set_ends_at(&mut self, index: usize, ends_at: Option<u128>, now: i64) -> (r: Result<(), ScriptError>)
        ensures
            index >= old(self).blocks@.len() ==> r == Err::<(), ScriptError>(ScriptError::IndexOutOfRange),
            index < old(self).blocks@.len() && !old(self).blocks@[index as int].block_type.spec_is_span_cue()
                ==> r == Err::<(), ScriptError>(ScriptError::EndsAtNotAllowed),
            index < old(self).blocks@.len() && old(self).blocks@[index as int].block_type.spec_is_span_cue()
                ==> match ends_at {
                None => r is Ok,
                Some(e) => match position_of(ids_of(old(self).blocks@), e) {
                    None => r == Err::<(), ScriptError>(ScriptError::EndsAtTargetMissing),
                    Some(j) => if j <= index {
                        r == Err::<(), ScriptError>(ScriptError::EndsAtNotAfterStart)
                    } else if span_overlaps(old(self).blocks@, index as int, j) {
                        r == Err::<(), ScriptError>(ScriptError::SpanOverlap)
                    } else {
                        r is Ok
                    },
                },
            },
            r is Err ==> *final(self) == *old(self),
            r is Ok ==> final(self).blocks@ == old(self).blocks@.update(
                index as int,
                with_end_at_time(old(self).blocks@[index as int], ends_at, now),
            ) && same_header(*final(self), *old(self)),
            r is Ok && ends_at_wf(old(self).blocks@) ==> ends_at_wf(final(self).blocks@),
    {
        if index >= self.blocks.len() {
            return Err(ScriptError::IndexOutOfRange);
        }
        if !self.blocks[index].block_type.allows_ends_at() {
            return Err(ScriptError::EndsAtNotAllowed);
        }
        let ghost orig = self.blocks@;
        if let Some(end_id) = ends_at {
            let j = match position_of_id(&self.blocks, end_id) {
                Some(j) => j,
                None => {
                    return Err(ScriptError::EndsAtTargetMissing);
                },
            };
            if j <= index {
                return Err(ScriptError::EndsAtNotAfterStart);
            }
            if self.span_would_overlap_same_type(index, j) {
                return Err(ScriptError::SpanOverlap);
            }
            proof {
                let ty = orig[index as int].block_type;
                assert forall|m: int| index < m <= j implies #[trigger] types_of(orig)[m] != ty by {
                    if types_of(orig)[m] == ty {
                        lemma_span_end_in_range(orig, m);
                        assert(span_end(orig, m) matches Some(oe) && index <= oe && m <= j);
                        assert(span_overlaps(orig, index as int, j as int));
                    }
                }
            }
            self.blocks[index].ends_at = Some(end_id);
            self.blocks[index].meta.updated_at = now;
        } else {
            self.blocks[index].ends_at = None;
            self.blocks[index].meta.updated_at = now;
        }
        proof {
            let fin = self.blocks@;
            assert(fin =~= orig.update(index as int, with_end_at_time(orig[index as int], ends_at, now)));
            assert(ids_of(fin) =~= ids_of(orig));
            assert(types_of(fin) =~= types_of(orig));
        }
        Ok(())
    }

    /// A readable description of where the cue at `start` stops when it has
    /// no explicit end; none for other blocks or when an end is set.
    pub fn default_span_end_hint(&self, start: usize) -> (r: Option<&'static str>)
        ensures
            r == span_end_hint(self.blocks@, start as int),
    {
        if start >= self.blocks.len() {
            return None;
        }
        let ty = self.blocks[start].block_type;
        if !ty.is_span_cue() || self.blocks[start].ends_at.is_some() {
            return None;
        }
        let j = first_boundary(&self.blocks, ty, start + 1);
        if j >= self.blocks.len() {
            return Some("至剧本末尾");
        }
        if self.blocks[j].block_type == ty {
            let hint = match ty {
                ScriptBlockType::Music => "至下一段音乐",
                ScriptBlockType::Mood => "至下一段氛围",
                _ => "至同类型块",
            };
            Some(hint)
        } else {
            Some("至下一场景")
        }
    }
}


/// Whether a block of this type may take part in a merge.
pub open spec fn mergeable(ty: ScriptBlockType) -> bool {
    ty.spec_counts_toward_word_total() || ty is Note
}

/// The parts joined by line breaks.
pub open spec fn join_lines(parts: Seq<Seq<char>>) -> Seq<char>
    decreases parts.len(),
{
    if parts.len() == 0 {
        Seq::empty()
    } else if parts.len() == 1 {
        parts[0]
    } else {
        join_lines(parts.drop_last()) + seq!['\n'] + parts.last()
    }
}

/// The contents of blocks `from..to` (exclusive end).
pub open spec fn contents_between(blocks: Seq<ScriptBlock>, from: int, to: int) -> Seq<Seq<char>> {
    Seq::new((to - from) as nat, |m: int| blocks[from + m].content@)
}

/// All blocks other than the one at `index` are unchanged.
pub open spec fn others_unchanged(a: Seq<ScriptBlock>, b: Seq<ScriptBlock>, index: int) -> bool {
    &&& a.len() == b.len()
    &&& forall|k: int| 0 <= k < a.len() && k != index ==> #[trigger] a[k] == b[k]
}

/// Text of a character name given as an optional string.
pub open spec fn name_text(c: Option<String>) -> Seq<char> {
    match c {
        Some(s) => s@,
        None => Seq::empty(),
    }
}

/// A trimmed name is kept when non-empty.
pub open spec fn name_of_trimmed(c: Option<String>, name: Seq<char>) -> bool {
    if name.len() == 0 {
        c is None
    } else {
        c matches Some(s) && s@ == name
    }
}

fn clone_name(c: &Option<String>) -> (r: Option<String>)
    ensures
        r == *c,
{
    match c {
        Some(s) => Some(s.clone()),
        None => None,
    }
}

/// The blocks after the character of the block at `index` became
/// `character`.
pub open spec fn character_set(
    ob: Seq<ScriptBlock>,
    index: int,
    character: Option<String>,
    now: i64,
    fb: Seq<ScriptBlock>,
) -> bool {
    let b = ob[index];
    let f = fb[index];
    &&& others_unchanged(fb, ob, index)
    &&& f.id == b.id
    &&& f.block_type == b.block_type
    &&& f.character == character
    &&& f.ends_at == b.ends_at
    &&& f.meta.created_at == b.meta.created_at
    &&& f.meta.note == b.meta.note
    &&& f.meta.updated_at == now
    &&& b.block_type == ScriptBlockType::Character ==> f.content@ == name_text(character)
    &&& b.block_type != ScriptBlockType::Character ==> f.content == b.content
}

/// The blocks after the content of the block at `index` was set from
/// `content`.
pub open spec fn content_set(ob: Seq<ScriptBlock>, index: int, content: Seq<char>, now: i64, fb: Seq<ScriptBlock>) -> bool {
    let b = ob[index];
    let f = fb[index];
    &&& others_unchanged(fb, ob, index)
    &&& f.id == b.id
    &&& f.block_type == b.block_type
    &&& f.ends_at == b.ends_at
    &&& f.meta.created_at == b.meta.created_at
    &&& f.meta.note == b.meta.note
    &&& f.meta.updated_at == now
    &&& b.block_type == ScriptBlockType::SceneHeading ==> f.content@ == upper_of(content)
        && f.character == b.character
    &&& b.block_type == ScriptBlockType::Character ==> f.content@ == trimmed(content)
        && name_of_trimmed(f.character, trimmed(content))
    &&& b.block_type != ScriptBlockType::SceneHeading && b.block_type != ScriptBlockType::Character
        ==> f.content@ == content && f.character == b.character
}

/// The blocks after the type of the block at `index` became `new_type`.
pub open spec fn type_set(ob: Seq<ScriptBlock>, index: int, new_type: ScriptBlockType, now: i64, f: Seq<ScriptBlock>) -> bool {
    let b = ob[index];
    let ids = ids_of(ob);
    let types = types_of(ob).update(index, new_type);
    &&& f.len() == ob.len()
    &&& forall|k: int|
        0 <= k < f.len() && k != index ==> #[trigger] f[k] == sanitized_at(
            ids,
            types,
            ob[k],
            k,
        )
    &&& f[index].id == b.id
    &&& f[index].block_type == new_type
    &&& f[index].ends_at == (if ends_ok(ids, types, index, b.ends_at) {
        b.ends_at
    } else {
        None
    })
    &&& f[index].meta.created_at == b.meta.created_at
    &&& f[index].meta.note == b.meta.note
    &&& f[index].meta.updated_at == now
    &&& new_type == ScriptBlockType::Character ==> f[index].content@ == trimmed(b.content@)
        && name_of_trimmed(f[index].character, trimmed(b.content@))
    &&& new_type != ScriptBlockType::Character ==> f[index].content == b.content
        && f[index].character == (if new_type.spec_allows_character() {
        b.character
    } else {
        None
    })
    &&& ends_at_wf(f)
}

impl Script {
    /// Changes the type of the block at `index`. A type without character or
    /// explicit end drops them; becoming a character cue trims the content
    /// into the character name. Inconsistent explicit ends are then cleared.
    pub fn set_block_type(&mut self, index: usize, new_type: ScriptBlockType, now: i64) -> (r: Result<(), ScriptError>)
        ensures
            index >= old(self).blocks@.len() ==> r == Err::<(), ScriptError>(ScriptError::IndexOutOfRange)
                && *final(self) == *old(self),
            index < old(self).blocks@.len() ==> r is Ok && same_header(*final(self), *old(self)) && type_set(
                old(self).blocks@,
                index as int,
                new_type,
                now,
                final(self).blocks@,
            ),
            r is Ok ==> ends_at_wf(final(self).blocks@),
    {
        if index >= self.blocks.len() {
            return Err(ScriptError::IndexOutOfRange);
        }
        let ghost orig = self.blocks@;
        self.blocks[index].block_type = new_type;
        if !new_type.allows_character() {
            self.blocks[index].character = None;
        }
        if !new_type.allows_ends_at() {
            self.blocks[index].ends_at = None;
        }
        if new_type == ScriptBlockType::Character {
            let name = trim(self.blocks[index].content.as_str());
            let empty = name.as_str().is_empty();
            self.blocks[index].character = if empty {
                None
            } else {
                Some(name.clone())
            };
            self.blocks[index].content = name;
        }
        self.blocks[index].meta.updated_at = now;
        let ghost mid = self.blocks@;
        assert(others_unchanged(mid, orig, index as int));
        assert(ids_of(mid) =~= ids_of(orig));
        assert(types_of(mid) =~= types_of(orig).update(index as int, new_type));
        sanitize_blocks(&mut self.blocks);
        proof {
            lemma_sanitized_well_formed(mid);
        }
        Ok(())
    }

    /// Sets the character of a character or dialogue block; a character cue
    /// also shows the name as its content.
    pub fn set_character(&mut self, index: usize, character: Option<String>, now: i64) -> (r: Result<(), ScriptError>)
        ensures
            index >= old(self).blocks@.len() ==> r == Err::<(), ScriptError>(ScriptError::IndexOutOfRange),
            index < old(self).blocks@.len() && !old(self).blocks@[index as int].block_type.spec_allows_character()
                ==> r == Err::<(), ScriptError>(ScriptError::CharacterNotAllowed),
            r is Err ==> *final(self) == *old(self),
            r is Ok ==> same_header(*final(self), *old(self)) && character_set(
                old(self).blocks@,
                index as int,
                character,
                now,
                final(self).blocks@,
            ),
            index < old(self).blocks@.len() && old(self).blocks@[index as int].block_type.spec_allows_character()
                ==> r is Ok,
    {
        if index >= self.blocks.len() {
            return Err(ScriptError::IndexOutOfRange);
        }
        if !self.blocks[index].block_type.allows_character() {
            return Err(ScriptError::CharacterNotAllowed);
        }
        let is_character = self.blocks[index].block_type == ScriptBlockType::Character;
        self.blocks[index].character = clone_name(&character);
        if is_character {
            self.blocks[index].content = match character {
                Some(c) => c,
                None => String::new(),
            };
        }
        self.blocks[index].meta.updated_at = now;
        Ok(())
    }

    /// Replaces the content of the block at `index`. Scene headings are
    /// stored upper-cased; character cues are trimmed and the trimmed text
    /// becomes the character name (none when empty).
    pub fn set_block_content(&mut self, index: usize, content: String, now: i64) -> (r: Result<(), ScriptError>)
        ensures
            index >= old(self).blocks@.len() ==> r == Err::<(), ScriptError>(ScriptError::IndexOutOfRange)
                && *final(self) == *old(self),
            index < old(self).blocks@.len() ==> r is Ok && same_header(*final(self), *old(self)) && content_set(
                old(self).blocks@,
                index as int,
                content@,
                now,
                final(self).blocks@,
            ),
    {
        if index >= self.blocks.len() {
            return Err(ScriptError::IndexOutOfRange);
        }
        let ty = self.blocks[index].block_type;
        if ty == ScriptBlockType::SceneHeading {
            self.blocks[index].content = to_upper(content.as_str());
        } else if ty == ScriptBlockType::Character {
            let name = trim(content.as_str());
            let empty = name.as_str().is_empty();
            self.blocks[index].character = if empty {
                None
            } else {
                Some(name.clone())
            };
            self.blocks[index].content = name;
        } else {
            self.blocks[index].content = content;
        }
        self.blocks[index].meta.updated_at = now;
        Ok(())
    }

    /// Splits the block at `index` at a byte offset of its UTF-8 content:
    /// the block keeps the text before, a new block of the successor type
    /// right after it gets the text from the offset on. A dialogue successor
    /// inherits the character.
    pub fn split_block_at(&mut self, index: usize, byte_offset: usize, now: i64) -> (r: Result<(), ScriptError>)
        ensures
            index >= old(self).blocks@.len() ==> r == Err::<(), ScriptError>(ScriptError::IndexOutOfRange),
            index < old(self).blocks@.len() ==> ({
                let bytes = encode_utf8(old(self).blocks@[index as int].content@);
                is_char_boundary(bytes, byte_offset as int) == (r is Ok)
            }),
            index < old(self).blocks@.len() && r is Err ==> r == Err::<(), ScriptError>(
                ScriptError::SplitNotOnCharBoundary,
            ),
            r is Err ==> *final(self) == *old(self),
            r is Ok ==> same_header(*final(self), *old(self)) && ({
                let o = old(self).blocks@;
                let f = final(self).blocks@;
                let b = o[index as int];
                let bytes = encode_utf8(b.content@);
                let succ = b.block_type.spec_split_successor();
                &&& f.len() == o.len() + 1
                &&& forall|k: int| 0 <= k < index ==> #[trigger] f[k] == o[k]
                &&& forall|k: int| index + 1 < k < f.len() ==> #[trigger] f[k] == o[k - 1]
                &&& f[index as int].id == b.id
                &&& f[index as int].block_type == b.block_type
                &&& encode_utf8(f[index as int].content@) == bytes.subrange(0, byte_offset as int)
                &&& b.block_type == ScriptBlockType::Character ==> (f[index as int].character matches Some(c)
                    && c@ == f[index as int].content@)
                &&& b.block_type != ScriptBlockType::Character ==> f[index as int].character == b.character
                &&& f[index as int].ends_at == b.ends_at
                &&& f[index as int].meta.created_at == b.meta.created_at
                &&& f[index as int].meta.note == b.meta.note
                &&& f[index as int].meta.updated_at == now
                &&& f[index + 1].block_type == succ
                &&& encode_utf8(f[index + 1].content@) == bytes.subrange(byte_offset as int, bytes.len() as int)
                &&& f[index + 1].character == (if succ == ScriptBlockType::Dialogue {
                    b.character
                } else {
                    None
                })
                &&& f[index + 1].ends_at is None
                &&& f[index + 1].meta.created_at == now
                &&& f[index + 1].meta.updated_at == now
                &&& f[index + 1].meta.note@.len() == 0
            }),
    {
        if index >= self.blocks.len() {
            return Err(ScriptError::IndexOutOfRange);
        }
        proof {
            vstd::utf8::encode_utf8_valid_utf8(self.blocks@[index as int].content@);
        }
        if !self.blocks[index].content.as_str().is_char_boundary(byte_offset) {
            return Err(ScriptError::SplitNotOnCharBoundary);
        }
        let ghost orig = self.blocks@;
        let successor = self.blocks[index].block_type.split_successor();
        let character = clone_name(&self.blocks[index].character);
        let (before, after) = self.blocks[index].content.as_str().split_at(byte_offset);
        let before_owned = before.to_owned();
        let after_owned = after.to_owned();
        let is_character = self.blocks[index].block_type == ScriptBlockType::Character;
        if is_character {
            self.blocks[index].character = Some(before_owned.clone());
        }
        self.blocks[index].content = before_owned;
        self.blocks[index].meta.updated_at = now;
        let mut new_block = ScriptBlock::new(successor, after_owned, now);
        if successor == ScriptBlockType::Dialogue {
            new_block.character = character;
        }
        self.blocks.insert(index + 1, new_block);
        Ok(())
    }

    /// Merges blocks `start..=end` into the block at `start`, joining their
    /// contents with line breaks. Every merged block must be text-like
    /// (action, dialogue, camera, music, sound effect, mood) or a note.
    pub fn merge_blocks(&mut self, start: usize, end: usize, now: i64) -> (r: Result<(), ScriptError>)
        ensures
            end >= old(self).blocks@.len() ==> r == Err::<(), ScriptError>(ScriptError::MergeEndOutOfRange),
            end < old(self).blocks@.len() && end <= start ==> r == Err::<(), ScriptError>(
                ScriptError::MergeNeedsTwoBlocks,
            ),
            end < old(self).blocks@.len() && start < end ==> ((r == Err::<(), ScriptError>(
                ScriptError::MergeNotText,
            )) == (exists|i: int| start <= i <= end && !mergeable(#[trigger] old(self).blocks@[i].block_type))),
            end < old(self).blocks@.len() && start < end ==> (r is Ok || r == Err::<(), ScriptError>(
                ScriptError::MergeNotText,
            )),
            r is Err ==> *final(self) == *old(self),
            r is Ok ==> same_header(*final(self), *old(self)) && ({
                let o = old(self).blocks@;
                let f = final(self).blocks@;
                let b = o[start as int];
                &&& f.len() == o.len() - (end - start)
                &&& forall|k: int| 0 <= k < start ==> #[trigger] f[k] == o[k]
                &&& forall|k: int| start < k < f.len() ==> #[trigger] f[k] == o[k + (end - start)]
                &&& f[start as int].id == b.id
                &&& f[start as int].block_type == b.block_type
                &&& f[start as int].content@ == join_lines(contents_between(o, start as int, end + 1))
                &&& f[start as int].character == (if b.block_type.spec_allows_character() {
                    b.character
                } else {
                    None
                })
                &&& f[start as int].ends_at == b.ends_at
                &&& f[start as int].meta.created_at == b.meta.created_at
                &&& f[start as int].meta.note == b.meta.note
                &&& f[start as int].meta.updated_at == now
            }),
    {
        if end >= self.blocks.len() {
            return Err(ScriptError::MergeEndOutOfRange);
        }
        if end <= start {
            return Err(ScriptError::MergeNeedsTwoBlocks);
        }
        let mut i: usize = start;
        while i <= end
            invariant
                start <= i <= end + 1,
                start < end < self.blocks.len(),
                forall|m: int| start <= m < i ==> mergeable(#[trigger] self.blocks@[m].block_type),
            decreases end + 1 - i,
        {
            let t = self.blocks[i].block_type;
            if !(t == ScriptBlockType::Note || t.counts_toward_word_total()) {
                return Err(ScriptError::MergeNotText);
            }
            i = i + 1;
        }
        let ghost orig = self.blocks@;
        let first_type = self.blocks[start].block_type;
        let character = if first_type.allows_character() {
            clone_name(&self.blocks[start].character)
        } else {
            None
        };
        let mut joined: Vec<char> = chars_of(self.blocks[start].content.as_str());
        let mut k: usize = start + 1;
        proof {
            assert(contents_between(orig, start as int, start + 1) =~= seq![orig[start as int].content@]);
        }
        while k <= end
            invariant
                start < k <= end + 1,
                end < self.blocks.len(),
                self.blocks@ == orig,
                joined@ == join_lines(contents_between(orig, start as int, k as int)),
            decreases end + 1 - k,
        {
            joined.push('\n');
            push_str(&mut joined, self.blocks[k].content.as_str());
            proof {
                let parts = contents_between(orig, start as int, k + 1);
                assert(parts.drop_last() =~= contents_between(orig, start as int, k as int));
                assert(parts.last() == orig[k as int].content@);
            }
            k = k + 1;
        }
        self.blocks[start].content = string_of(joined.as_slice());
        self.blocks[start].character = character;
        self.blocks[start].meta.updated_at = now;
        let ghost mid = self.blocks@;
        let mut tail = self.blocks.split_off(end + 1);
        self.blocks.truncate(start + 1);
        self.blocks.append(&mut tail);
        proof {
            assert(self.blocks@ =~= mid.subrange(0, start + 1) + mid.subrange(end + 1, mid.len() as int));
        }
        Ok(())
    }
}

} // verus!
