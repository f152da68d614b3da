//! Word counts: every character is counted as Han, punctuation or white
//! space, or other.

use unicode_script::{Script as UnicodeScriptName, UnicodeScript};
use vstd::prelude::*;

use crate::models::block::{Block, BlockType};
use crate::models::chapter::Chapter;
use crate::models::script::{Script, ScriptBlock, ScriptBlockType};
use crate::text::{char_is_whitespace, is_white_space};

verus! {

/// Whether the Unicode script of `c` is Han, as `unicode_script` reports it.
pub uninterp spec fn is_han(c: char) -> bool;

/// Calls `UnicodeScript::script` on `c` and tells whether it is
/// `Script::Han`; the answer is named `is_han(c)`.
#[verifier::external_body]
pub(crate) fn char_is_han(c: char) -> (r: bool)
    ensures
        r == is_han(c),
{
    matches!(c.script(), UnicodeScriptName::Han)
}

/// ASCII punctuation (`char::is_ascii_punctuation`).
pub open spec fn is_ascii_punct(c: char) -> bool {
    ('!' <= c <= '/') || (':' <= c <= '@') || ('[' <= c <= '`') || ('{' <= c <= '~')
}

/// Common Unicode punctuation blocks counted with punctuation.
pub open spec fn is_common_unicode_punct(c: char) -> bool {
    c == '\u{00A0}' || c == '\u{00B7}' || ('\u{2010}' <= c <= '\u{2027}') || ('\u{2030}' <= c
        <= '\u{205E}') || ('\u{3000}' <= c <= '\u{303F}') || c == '\u{30FB}' || ('\u{FF01}' <= c
        <= '\u{FF0F}') || ('\u{FF1A}' <= c <= '\u{FF20}') || ('\u{FF3B}' <= c <= '\u{FF40}') || (
    '\u{FF5B}' <= c <= '\u{FF65}')
}

/// White space or punctuation.
pub open spec fn is_punct_or_space(c: char) -> bool {
    is_white_space(c) || is_ascii_punct(c) || is_common_unicode_punct(c)
}

/// The class of a character: 0 Han, 1 punctuation or white space, 2 other.
pub open spec fn char_class(c: char) -> int {
    if is_han(c) {
        0
    } else if is_punct_or_space(c) {
        1
    } else {
        2
    }
}

/// Number of characters of `s` in class `class`.
pub open spec fn count_class(s: Seq<char>, class: int) -> nat
    decreases s.len(),
{
    if s.len() == 0 {
        0
    } else {
        count_class(s.drop_last(), class) + if char_class(s.last()) == class { 1nat } else { 0nat }
    }
}

proof fn lemma_count_class_le(s: Seq<char>, class: int)
    ensures
        count_class(s, class) <= s.len(),
    decreases s.len(),
{
    if s.len() > 0 {
        lemma_count_class_le(s.drop_last(), class);
    }
}

/// Character counts in the three classes.
#[derive(Debug, Clone, Copy, PartialEq, Eq, Structural)]
pub struct CharBreakdown {
    pub han: u64,
    pub punct_space: u64,
    pub other: u64,
}

impl Default for CharBreakdown {
    fn default() -> (r: Self)
        ensures
            r == zero_breakdown(),
    {
        CharBreakdown { han: 0, punct_space: 0, other: 0 }
    }
}

/// All counts zero.
pub open spec fn zero_breakdown() -> CharBreakdown {
    CharBreakdown { han: 0, punct_space: 0, other: 0 }
}

/// `a + b` saturated at `u64::MAX`.
pub open spec fn sat(a: u64, b: u64) -> u64 {
    if a + b > u64::MAX {
        u64::MAX
    } else {
        (a + b) as u64
    }
}

/// Field-wise saturating sum.
pub open spec fn sat_sum(a: CharBreakdown, b: CharBreakdown) -> CharBreakdown {
    CharBreakdown {
        han: sat(a.han, b.han),
        punct_space: sat(a.punct_space, b.punct_space),
        other: sat(a.other, b.other),
    }
}

/// The counts of a text.
pub open spec fn breakdown_of(s: Seq<char>) -> CharBreakdown {
    CharBreakdown {
        han: count_class(s, 0) as u64,
        punct_space: count_class(s, 1) as u64,
        other: count_class(s, 2) as u64,
    }
}

impl CharBreakdown {
    /// All three counts added up.
    pub fn total(self) -> (r: u64)
        requires
            self.han + self.punct_space + self.other <= u64::MAX,
        ensures
            r == self.han + self.punct_space + self.other,
    {
        self.han + self.punct_space + self.other
    }

    /// Field-wise sum, saturating at `u64::MAX`.
    pub fn saturating_add(self, other: Self) -> (r: Self)
        ensures
            r == sat_sum(self, other),
    {
        CharBreakdown {
            han: self.han.saturating_add(other.han),
            punct_space: self.punct_space.saturating_add(other.punct_space),
            other: self.other.saturating_add(other.other),
        }
    }
}

/// Whether `c` is white space or punctuation.
pub fn punct_or_space(c: char) -> (r: bool)
    ensures
        r == is_punct_or_space(c),
{
    if char_is_whitespace(c) {
        return true;
    }
    ('!' <= c && c <= '/') || (':' <= c && c <= '@') || ('[' <= c && c <= '`') || ('{' <= c && c
        <= '~') || c == '\u{00A0}' || c == '\u{00B7}' || ('\u{2010}' <= c && c <= '\u{2027}') || (
    '\u{2030}' <= c && c <= '\u{205E}') || ('\u{3000}' <= c && c <= '\u{303F}') || c == '\u{30FB}'
        || ('\u{FF01}' <= c && c <= '\u{FF0F}') || ('\u{FF1A}' <= c && c <= '\u{FF20}') || (
    '\u{FF3B}' <= c && c <= '\u{FF40}') || ('\u{FF5B}' <= c && c <= '\u{FF65}')
}

/// Counts the characters of `text` by class: Han first, then punctuation
/// and white space, then everything else.
pub fn count_chars(text: &str) -> (r: CharBreakdown)
    ensures
        r == breakdown_of(text@),
{
    let chars = crate::text::chars_of(text);
    let mut out = CharBreakdown { han: 0, punct_space: 0, other: 0 };
    let mut i: usize = 0;
    while i < chars.len()
        invariant
            i <= chars@.len(),
            chars@ == text@,
            out.han == count_class(chars@.take(i as int), 0),
            out.punct_space == count_class(chars@.take(i as int), 1),
            out.other == count_class(chars@.take(i as int), 2),
        decreases chars.len() - i,
    {
        let c = chars[i];
        proof {
            let pre = chars@.take(i as int);
            let post = chars@.take(i + 1);
            assert(post.drop_last() =~= pre);
            lemma_count_class_le(pre, 0);
            lemma_count_class_le(pre, 1);
            lemma_count_class_le(pre, 2);
            assert(usize::MAX <= u64::MAX);
        }
        if char_is_han(c) {
            out.han = out.han + 1;
        } else if punct_or_space(c) {
            out.punct_space = out.punct_space + 1;
        } else {
            out.other = out.other + 1;
        }
        i = i + 1;
    }
    proof {
        assert(chars@.take(chars@.len() as int) =~= chars@);
    }
    out
}


/// Whether a block counts toward the words: its type counts and is not
/// excluded.
pub open spec fn block_counted(b: Block, exclude: Seq<BlockType>) -> bool {
    !exclude.contains(b.block_type) && b.block_type.spec_counts_toward_word_total()
}

/// The counts of the counted blocks, summed with saturation in block order.
pub open spec fn chapter_breakdown(blocks: Seq<Block>, exclude: Seq<BlockType>) -> CharBreakdown
    decreases blocks.len(),
{
    if blocks.len() == 0 {
        zero_breakdown()
    } else {
        let prev = chapter_breakdown(blocks.drop_last(), exclude);
        if block_counted(blocks.last(), exclude) {
            sat_sum(prev, breakdown_of(blocks.last().content@))
        } else {
            prev
        }
    }
}

/// Number of dialogue and thought blocks.
pub open spec fn dialogue_stat_count(blocks: Seq<Block>) -> nat
    decreases blocks.len(),
{
    if blocks.len() == 0 {
        0
    } else {
        dialogue_stat_count(blocks.drop_last()) + if blocks.last().block_type.spec_allows_speaker() {
            1nat
        } else {
            0nat
        }
    }
}

proof fn lemma_dialogue_stat_count_le(blocks: Seq<Block>)
    ensures
        dialogue_stat_count(blocks) <= blocks.len(),
    decreases blocks.len(),
{
    if blocks.len() > 0 {
        lemma_dialogue_stat_count_le(blocks.drop_last());
    }
}

/// Whether a block counts toward the word total: narration, aside, dialogue
/// and thought do, unless their type is in `exclude`.
pub fn block_counts_toward_words(block: &Block, exclude: &[BlockType]) -> (r: bool)
    ensures
        r == block_counted(*block, exclude@),
{
    let mut i: usize = 0;
    while i < exclude.len()
        invariant
            i <= exclude@.len(),
            forall|k: int| 0 <= k < i ==> exclude@[k] != block.block_type,
        decreases exclude.len() - i,
    {
        if exclude[i] == block.block_type {
            assert(exclude@.contains(block.block_type));
            return false;
        }
        i = i + 1;
    }
    block.block_type.counts_toward_word_total()
}

/// Statistics of a chapter shown in the status bar.
#[derive(Debug, Clone, Copy, PartialEq, Eq, Structural)]
pub struct ChapterStats {
    pub chars: CharBreakdown,
    pub block_count: u64,
    pub dialogue_count: u64,
}

impl ChapterStats {
    /// The total of the character counts.
    pub fn total_words(self) -> (r: u64)
        requires
            self.chars.han + self.chars.punct_space + self.chars.other <= u64::MAX,
        ensures
            r == self.chars.han + self.chars.punct_space + self.chars.other,
    {
        self.chars.total()
    }
}

/// Counts a chapter: characters of the counted blocks (see
/// `block_counts_toward_words`), all blocks, and dialogue and thought blocks.
pub fn count_chapter(chapter: &Chapter, exclude: &[BlockType]) -> (r: ChapterStats)
    ensures
        r.chars == chapter_breakdown(chapter.blocks@, exclude@),
        r.block_count == chapter.blocks@.len(),
        r.dialogue_count == dialogue_stat_count(chapter.blocks@),
{
    let mut chars = CharBreakdown { han: 0, punct_space: 0, other: 0 };
    let mut dialogue_count: u64 = 0;
    let mut i: usize = 0;
    while i < chapter.blocks.len()
        invariant
            i <= chapter.blocks@.len(),
            chars == chapter_breakdown(chapter.blocks@.take(i as int), exclude@),
            dialogue_count == dialogue_stat_count(chapter.blocks@.take(i as int)),
        decreases chapter.blocks.len() - i,
    {
        let block = &chapter.blocks[i];
        proof {
            let pre = chapter.blocks@.take(i as int);
            assert(chapter.blocks@.take(i + 1).drop_last() =~= pre);
            lemma_dialogue_stat_count_le(pre);
            assert(usize::MAX <= u64::MAX);
        }
        if block.block_type.counts_as_dialogue_stat() {
            dialogue_count = dialogue_count + 1;
        }
        if block_counts_toward_words(block, exclude) {
            chars = chars.saturating_add(count_chars(block.content.as_str()));
        }
        i = i + 1;
    }
    proof {
        assert(chapter.blocks@.take(chapter.blocks@.len() as int) =~= chapter.blocks@);
    }
    ChapterStats { chars, block_count: chapter.blocks.len() as u64, dialogue_count }
}

/// Statistics of a screenplay shown in the status bar.
#[derive(Debug, Clone, Copy, PartialEq, Eq, Structural)]
pub struct ScriptStats {
    pub chars: CharBreakdown,
    pub block_count: u64,
    pub dialogue_count: u64,
}

impl ScriptStats {
    /// The total of the character counts.
    pub fn total_words(self) -> (r: u64)
        requires
            self.chars.han + self.chars.punct_space + self.chars.other <= u64::MAX,
        ensures
            r == self.chars.han + self.chars.punct_space + self.chars.other,
    {
        self.chars.total()
    }
}

/// The counts of the screenplay blocks whose type counts, summed with
/// saturation in block order.
pub open spec fn script_breakdown(blocks: Seq<crate::models::script::ScriptBlock>) -> CharBreakdown
    decreases blocks.len(),
{
    if blocks.len() == 0 {
        zero_breakdown()
    } else {
        let prev = script_breakdown(blocks.drop_last());
        if blocks.last().block_type.spec_counts_toward_word_total() {
            sat_sum(prev, breakdown_of(blocks.last().content@))
        } else {
            prev
        }
    }
}

/// Whether a screenplay block of type `t` is one whose text is counted:
/// action, dialogue, camera, music, sound effect or mood.
pub open spec fn counted_script_type(t: ScriptBlockType) -> bool {
    t == ScriptBlockType::Action || t == ScriptBlockType::Dialogue || t == ScriptBlockType::Camera || t
        == ScriptBlockType::Music || t == ScriptBlockType::Sfx || t == ScriptBlockType::Mood
}

/// Adding a block at the end of a screenplay adds its character counts to
/// the screenplay's exactly when it is an action, dialogue, camera, music,
/// sound effect or mood block; any other block leaves the counts as they
/// were.
pub proof fn law_script_breakdown_push(blocks: Seq<ScriptBlock>, b: ScriptBlock)
    ensures
        counted_script_type(b.block_type) ==> script_breakdown(blocks.push(b)) == sat_sum(
            script_breakdown(blocks),
            breakdown_of(b.content@),
        ),
        !counted_script_type(b.block_type) ==> script_breakdown(blocks.push(b)) == script_breakdown(blocks),
{
    assert(blocks.push(b).drop_last() =~= blocks);
}

/// Number of dialogue lines.
pub open spec fn dialogue_line_count(blocks: Seq<crate::models::script::ScriptBlock>) -> nat
    decreases blocks.len(),
{
    if blocks.len() == 0 {
        0
    } else {
        dialogue_line_count(blocks.drop_last()) + if blocks.last().block_type is Dialogue {
            1nat
        } else {
            0nat
        }
    }
}

proof fn lemma_dialogue_line_count_le(blocks: Seq<crate::models::script::ScriptBlock>)
    ensures
        dialogue_line_count(blocks) <= blocks.len(),
    decreases blocks.len(),
{
    if blocks.len() > 0 {
        lemma_dialogue_line_count_le(blocks.drop_last());
    }
}

/// Counts a screenplay: characters of the blocks whose type counts, all
/// blocks, and dialogue lines.
pub fn count_script(script: &Script) -> (r: ScriptStats)
    ensures
        r.chars == script_breakdown(script.blocks@),
        r.block_count == script.blocks@.len(),
        r.dialogue_count == dialogue_line_count(script.blocks@),
{
    let mut chars = CharBreakdown { han: 0, punct_space: 0, other: 0 };
    let mut dialogue_count: u64 = 0;
    let mut i: usize = 0;
    while i < script.blocks.len()
        invariant
            i <= script.blocks@.len(),
            chars == script_breakdown(script.blocks@.take(i as int)),
            dialogue_count == dialogue_line_count(script.blocks@.take(i as int)),
        decreases script.blocks.len() - i,
    {
        let block = &script.blocks[i];
        proof {
            let pre = script.blocks@.take(i as int);
            assert(script.blocks@.take(i + 1).drop_last() =~= pre);
            lemma_dialogue_line_count_le(pre);
            assert(usize::MAX <= u64::MAX);
        }
        if block.block_type.counts_as_dialogue_line() {
            dialogue_count = dialogue_count + 1;
        }
        if block.block_type.counts_toward_word_total() {
            chars = chars.saturating_add(count_chars(block.content.as_str()));
        }
        i = i + 1;
    }
    proof {
        assert(script.blocks@.take(script.blocks@.len() as int) =~= script.blocks@);
    }
    ScriptStats { chars, block_count: script.blocks.len() as u64, dialogue_count }
}

/// Book total after saving a chapter: the old total minus the chapter's
/// count before, plus its count after, each step saturating.
pub fn update_book_total(book_total: u64, chapter_before: u64, chapter_after: u64) -> (r: u64)
    ensures
        r == sat(
            (if book_total >= chapter_before { book_total - chapter_before } else { 0 }) as u64,
            chapter_after,
        ),
{
    book_total.saturating_sub(chapter_before).saturating_add(chapter_after)
}

/// Saving a chapter twice in a row with the same count leaves the book
/// total as the first save left it, and when no step saturates the update
/// replaces the chapter's share exactly.
pub proof fn lemma_book_total_replaces_share(book_total: u64, before: u64, after: u64)
    requires
        before <= book_total,
        book_total - before + after <= u64::MAX,
    ensures
        sat((book_total - before) as u64, after) == book_total - before + after,
        ({
            let once = sat((book_total - before) as u64, after);
            sat((once - after) as u64, after) == once
        }),
{
}

} // verus!
