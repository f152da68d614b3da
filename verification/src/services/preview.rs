//! Read-only preview text of chapters and screenplays.

use vstd::prelude::*;

use crate::models::block::{Block, BlockType};
use crate::models::chapter::Chapter;
use crate::models::script::{lemma_span_end_in_range, span_end, Script, ScriptBlock, ScriptBlockType};
use crate::text::{chars_of, decimal, decimal_chars, push_chars, push_str, string_of, trim, trimmed};

verus! {

/// Two ideographic spaces, the indent of every preview paragraph.
pub open spec fn indent() -> Seq<char> {
    "　　"@
}

/// The preview line of a chapter block: its text indented; an empty scene
/// break shows an ornament, other empty blocks show nothing.
pub open spec fn chapter_block_line(b: Block) -> Option<Seq<char>> {
    if b.content@.len() == 0 {
        if b.block_type == BlockType::SceneBreak {
            Some(indent() + "—— ✦ ——"@)
        } else {
            None
        }
    } else {
        Some(indent() + b.content@)
    }
}

/// The preview lines of the first `k` blocks.
pub open spec fn chapter_lines_upto(blocks: Seq<Block>, k: int) -> Seq<Seq<char>>
    decreases k,
{
    if k <= 0 {
        Seq::empty()
    } else {
        match chapter_block_line(blocks[k - 1]) {
            Some(l) => chapter_lines_upto(blocks, k - 1).push(l),
            None => chapter_lines_upto(blocks, k - 1),
        }
    }
}

/// The plain values of a list of lines.
pub open spec fn lines_view(v: Seq<String>) -> Seq<Seq<char>> {
    v.map_values(|s: String| s@)
}

/// The preview of a chapter: one indented line per non-empty block, in
/// order.
pub fn chapter_preview_lines(chapter: &Chapter) -> (r: Vec<String>)
    ensures
        lines_view(r@) == chapter_lines_upto(chapter.blocks@, chapter.blocks@.len() as int),
{
    let mut lines: Vec<String> = Vec::new();
    let mut i: usize = 0;
    while i < chapter.blocks.len()
        invariant
            i <= chapter.blocks@.len(),
            lines_view(lines@) == chapter_lines_upto(chapter.blocks@, i as int),
        decreases chapter.blocks.len() - i,
    {
        let b = &chapter.blocks[i];
        let ghost before = lines@;
        let content = chars_of(&b.content);
        if content.len() == 0 {
            match b.block_type {
                BlockType::SceneBreak => {
                    let mut v: Vec<char> = Vec::new();
                    push_str(&mut v, "　　");
                    push_str(&mut v, "—— ✦ ——");
                    lines.push(string_of(v.as_slice()));
                    assert(lines_view(lines@) =~= lines_view(before).push(indent() + "—— ✦ ——"@));
                },
                _ => {},
            }
        } else {
            let mut v: Vec<char> = Vec::new();
            push_str(&mut v, "　　");
            push_chars(&mut v, &content);
            lines.push(string_of(v.as_slice()));
            assert(lines_view(lines@) =~= lines_view(before).push(indent() + b.content@));
        }
        i = i + 1;
    }
    lines
}

/// A music or mood cue with text: it opens a span in the preview.
pub open spec fn is_span_start(b: ScriptBlock) -> bool {
    b.content@.len() > 0 && b.block_type.spec_is_span_cue()
}

/// How many span starts of type `t` lie among the first `upto` blocks.
pub open spec fn count_starts(blocks: Seq<ScriptBlock>, t: ScriptBlockType, upto: int) -> nat
    decreases upto,
{
    if upto <= 0 {
        0
    } else {
        count_starts(blocks, t, upto - 1) + if is_span_start(blocks[upto - 1]) && blocks[upto - 1].block_type == t {
            1nat
        } else {
            0nat
        }
    }
}

/// The number of a span among the spans of its type, counted from one.
pub open spec fn cue_ordinal(blocks: Seq<ScriptBlock>, j: int) -> nat {
    count_starts(blocks, blocks[j].block_type, j + 1)
}

/// The last block of the span that starts at `j`.
pub open spec fn span_last(blocks: Seq<ScriptBlock>, j: int) -> int {
    match span_end(blocks, j) {
        Some(e) => e,
        None => j,
    }
}

/// The label of a span's type.
pub open spec fn cue_label(t: ScriptBlockType) -> Seq<char> {
    match t {
        ScriptBlockType::Music => "音乐"@,
        ScriptBlockType::Mood => "氛围"@,
        _ => ""@,
    }
}

/// The line that opens the span at `j`.
pub open spec fn span_start_line(blocks: Seq<ScriptBlock>, j: int) -> Seq<char> {
    cue_label(blocks[j].block_type) + decimal(cue_ordinal(blocks, j)) + "开始："@ + blocks[j].content@
}

/// The line that closes the span at `j`.
pub open spec fn span_end_line(blocks: Seq<ScriptBlock>, j: int) -> Seq<char> {
    cue_label(blocks[j].block_type) + decimal(cue_ordinal(blocks, j)) + "结束"@
}

/// The closing lines after block `idx`, for the spans starting below
/// `from` that end at `idx`, the latest start first (an outer span closes
/// after the spans nested in it).
pub open spec fn end_lines_below(blocks: Seq<ScriptBlock>, idx: int, from: int) -> Seq<Seq<char>>
    decreases from,
{
    if from <= 0 {
        Seq::empty()
    } else {
        let j = from - 1;
        let here = if is_span_start(blocks[j]) && span_last(blocks, j) == idx && span_last(blocks, j) < blocks.len() {
            seq![span_end_line(blocks, j)]
        } else {
            Seq::empty()
        };
        here + end_lines_below(blocks, idx, j)
    }
}

/// The speaker a character block names: its non-empty character field,
/// else its trimmed text when that is not empty.
pub open spec fn character_name(b: ScriptBlock) -> Option<Seq<char>> {
    match b.character {
        Some(c) if c@.len() > 0 => Some(c@),
        _ => if trimmed(b.content@).len() > 0 {
            Some(trimmed(b.content@))
        } else {
            None
        },
    }
}

/// The last speaker named by a character block among the first `k` blocks.
pub open spec fn last_character_upto(blocks: Seq<ScriptBlock>, k: int) -> Option<Seq<char>>
    decreases k,
{
    if k <= 0 {
        None
    } else if blocks[k - 1].block_type == ScriptBlockType::Character && character_name(blocks[k - 1]) is Some {
        character_name(blocks[k - 1])
    } else {
        last_character_upto(blocks, k - 1)
    }
}

/// The text `prefix` + content, for a block with text.
pub open spec fn labelled(prefix: Seq<char>, b: ScriptBlock) -> Option<Seq<char>> {
    if b.content@.len() == 0 {
        None
    } else {
        Some(prefix + b.content@)
    }
}

/// The preview line of a block that opens no span, given the last named
/// speaker: each kind has its own prefix; a dialogue names its own
/// character, else the last speaker, else “某人”; character blocks and
/// cues without text show nothing.
pub open spec fn script_block_line(b: ScriptBlock, last: Option<Seq<char>>) -> Option<Seq<char>> {
    match b.block_type {
        ScriptBlockType::SceneHeading => labelled("场景："@, b),
        ScriptBlockType::Action => labelled("场景描述："@, b),
        ScriptBlockType::Character => None,
        ScriptBlockType::Dialogue => if b.content@.len() == 0 {
            None
        } else {
            let name = match b.character {
                Some(c) if c@.len() > 0 => c@,
                _ => match last {
                    Some(l) => l,
                    None => "某人"@,
                },
            };
            Some(name + "说："@ + b.content@)
        },
        ScriptBlockType::Transition => labelled("转场："@, b),
        ScriptBlockType::Camera => labelled("镜头："@, b),
        ScriptBlockType::Music => None,
        ScriptBlockType::Mood => None,
        ScriptBlockType::Sfx => labelled("音效："@, b),
        ScriptBlockType::Note => if b.content@.len() == 0 {
            None
        } else {
            Some("（备注："@ + b.content@ + "）"@)
        },
    }
}

/// The preview lines of the first `k` blocks: for each block, the line
/// that opens its span or its own line, then the lines of the spans that
/// close after it.
pub open spec fn script_lines_upto(blocks: Seq<ScriptBlock>, k: int) -> Seq<Seq<char>>
    decreases k,
{
    if k <= 0 {
        Seq::empty()
    } else {
        let i = k - 1;
        let main = if is_span_start(blocks[i]) {
            seq![span_start_line(blocks, i)]
        } else {
            match script_block_line(blocks[i], last_character_upto(blocks, i)) {
                Some(l) => seq![l],
                None => Seq::empty(),
            }
        };
        script_lines_upto(blocks, k - 1) + main + end_lines_below(blocks, i, blocks.len() as int)
    }
}

/// What the preview line of a block of type `t` with text `c` shows: the
/// text after its kind's prefix (scene, scene description, transition,
/// camera, sound effect), a note in brackets, or a dialogue after some
/// speaker's name and "说：".
pub open spec fn line_shows(t: ScriptBlockType, c: Seq<char>, line: Seq<char>) -> bool {
    match t {
        ScriptBlockType::SceneHeading => line == "场景："@ + c,
        ScriptBlockType::Action => line == "场景描述："@ + c,
        ScriptBlockType::Transition => line == "转场："@ + c,
        ScriptBlockType::Camera => line == "镜头："@ + c,
        ScriptBlockType::Sfx => line == "音效："@ + c,
        ScriptBlockType::Note => line == "（备注："@ + c + "）"@,
        ScriptBlockType::Dialogue => exists|name: Seq<char>| line == name + "说："@ + c,
        _ => false,
    }
}

/// Every screenplay block with text, other than a character cue and a
/// music or mood cue (which opens a span), gives exactly one preview line
/// of its own: right after the lines of the blocks before it and before
/// the lines closing the spans that end at it, showing its text as its
/// kind requires.
pub proof fn law_one_line_per_block(blocks: Seq<ScriptBlock>, k: int)
    requires
        0 <= k < blocks.len(),
        blocks[k].content@.len() > 0,
        blocks[k].block_type != ScriptBlockType::Character,
        !is_span_start(blocks[k]),
    ensures
        exists|line: Seq<char>|
            script_lines_upto(blocks, k + 1) == script_lines_upto(blocks, k) + seq![line] + end_lines_below(
                blocks,
                k,
                blocks.len() as int,
            ) && line_shows(blocks[k].block_type, blocks[k].content@, line),
{
    let b = blocks[k];
    let c = b.content@;
    let last = last_character_upto(blocks, k);
    assert(!b.block_type.spec_is_span_cue());
    assert(script_block_line(b, last) is Some);
    let l = script_block_line(b, last)->Some_0;
    if b.block_type == ScriptBlockType::Dialogue {
        let name = match b.character {
            Some(ch) if ch@.len() > 0 => ch@,
            _ => match last {
                Some(x) => x,
                None => "某人"@,
            },
        };
        assert(l == name + "说："@ + c);
    }
    assert(line_shows(b.block_type, c, l));
    assert(script_lines_upto(blocks, k + 1) == script_lines_upto(blocks, k) + seq![l] + end_lines_below(
        blocks,
        k,
        blocks.len() as int,
    ));
}

fn cue_label_str(t: ScriptBlockType) -> (r: &'static str)
    ensures
        r@ == cue_label(t),
{
    match t {
        ScriptBlockType::Music => "音乐",
        ScriptBlockType::Mood => "氛围",
        _ => "",
    }
}

fn span_line(label: &str, n: usize, tail: &str, content: &Vec<char>) -> (r: String)
    ensures
        r@ == label@ + decimal(n as nat) + tail@ + content@,
{
    let mut v: Vec<char> = Vec::new();
    push_str(&mut v, label);
    let d = decimal_chars(n);
    push_chars(&mut v, &d);
    push_str(&mut v, tail);
    push_chars(&mut v, content);
    string_of(v.as_slice())
}

fn prefixed(prefix: &str, b: &ScriptBlock) -> (r: Option<String>)
    ensures
        r matches Some(s) ==> labelled(prefix@, *b) == Some(s@),
        r is None ==> labelled(prefix@, *b) is None,
{
    let content = chars_of(&b.content);
    if content.len() == 0 {
        return None;
    }
    let mut v = chars_of(prefix);
    push_chars(&mut v, &content);
    Some(string_of(v.as_slice()))
}

fn block_character_name(b: &ScriptBlock) -> (r: Option<String>)
    ensures
        r matches Some(s) ==> character_name(*b) == Some(s@),
        r is None ==> character_name(*b) is None,
{
    match &b.character {
        Some(c) => {
            if chars_of(c).len() > 0 {
                return Some(c.clone());
            }
        },
        None => {},
    }
    let t = trim(&b.content);
    if chars_of(&t).len() > 0 {
        Some(t)
    } else {
        None
    }
}

fn block_line(b: &ScriptBlock, last: &Option<String>) -> (r: Option<String>)
    ensures
        r matches Some(s) ==> script_block_line(*b, opt_text(*last)) == Some(s@),
        r is None ==> script_block_line(*b, opt_text(*last)) is None,
{
    match b.block_type {
        ScriptBlockType::SceneHeading => prefixed("场景：", b),
        ScriptBlockType::Action => prefixed("场景描述：", b),
        ScriptBlockType::Character => None,
        ScriptBlockType::Dialogue => {
            let content = chars_of(&b.content);
            if content.len() == 0 {
                return None;
            }
            let mut v: Vec<char> = Vec::new();
            let own = match &b.character {
                Some(c) => chars_of(c).len() > 0,
                None => false,
            };
            if own {
                match &b.character {
                    Some(c) => push_str(&mut v, c),
                    None => {},
                }
            } else {
                match last {
                    Some(l) => push_str(&mut v, l),
                    None => push_str(&mut v, "某人"),
                }
            }
            push_str(&mut v, "说：");
            push_chars(&mut v, &content);
            Some(string_of(v.as_slice()))
        },
        ScriptBlockType::Transition => prefixed("转场：", b),
        ScriptBlockType::Camera => prefixed("镜头：", b),
        ScriptBlockType::Music => None,
        ScriptBlockType::Mood => None,
        ScriptBlockType::Sfx => prefixed("音效：", b),
        ScriptBlockType::Note => {
            let content = chars_of(&b.content);
            if content.len() == 0 {
                return None;
            }
            let mut v: Vec<char> = Vec::new();
            push_str(&mut v, "（备注：");
            push_chars(&mut v, &content);
            push_str(&mut v, "）");
            Some(string_of(v.as_slice()))
        },
    }
}

/// The plain value of an optional text.
pub open spec fn opt_text(t: Option<String>) -> Option<Seq<char>> {
    match t {
        Some(s) => Some(s@),
        None => None,
    }
}

proof fn lemma_count_starts_le(blocks: Seq<ScriptBlock>, t: ScriptBlockType, upto: int)
    requires
        0 <= upto,
    ensures
        count_starts(blocks, t, upto) <= upto,
    decreases upto,
{
    if upto > 0 {
        lemma_count_starts_le(blocks, t, upto - 1);
    }
}

fn end_line(label: &str, n: usize) -> (r: String)
    ensures
        r@ == label@ + decimal(n as nat) + "结束"@,
{
    let mut v: Vec<char> = Vec::new();
    push_str(&mut v, label);
    let d = decimal_chars(n);
    push_chars(&mut v, &d);
    push_str(&mut v, "结束");
    string_of(v.as_slice())
}

/// What the first pass learns of each block: for a span start, its
/// ordinal and last block.
pub open spec fn span_info(blocks: Seq<ScriptBlock>, j: int) -> Option<(usize, usize)> {
    if is_span_start(blocks[j]) {
        Some((cue_ordinal(blocks, j) as usize, span_last(blocks, j) as usize))
    } else {
        None
    }
}

fn collect_spans(script: &Script) -> (r: Vec<Option<(usize, usize)>>)
    ensures
        r@.len() == script.blocks@.len(),
        forall|j: int| 0 <= j < r@.len() ==> r@[j] == span_info(script.blocks@, j),
{
    let ghost b = script.blocks@;
    let n = script.blocks.len();
    let mut info: Vec<Option<(usize, usize)>> = Vec::new();
    let mut music_n: usize = 0;
    let mut mood_n: usize = 0;
    let mut i: usize = 0;
    while i < n
        invariant
            n == b.len(),
            b == script.blocks@,
            i <= n,
            info@.len() == i,
            music_n == count_starts(b, ScriptBlockType::Music, i as int),
            mood_n == count_starts(b, ScriptBlockType::Mood, i as int),
            forall|j: int| 0 <= j < i ==> info@[j] == span_info(b, j),
        decreases n - i,
    {
        let blk = &script.blocks[i];
        proof {
            lemma_count_starts_le(b, ScriptBlockType::Music, i as int);
            lemma_count_starts_le(b, ScriptBlockType::Mood, i as int);
            lemma_span_end_in_range(b, i as int);
        }
        if chars_of(&blk.content).len() > 0 && blk.block_type.is_span_cue() {
            let end = match script.resolved_span_end_index(i) {
                Some(e) => e,
                None => i,
            };
            let ord: usize = match blk.block_type {
                ScriptBlockType::Music => {
                    music_n = music_n + 1;
                    music_n
                },
                _ => {
                    mood_n = mood_n + 1;
                    mood_n
                },
            };
            info.push(Some((ord, end)));
        } else {
            info.push(None);
        }
        i = i + 1;
    }
    info
}

/// The preview of a screenplay: one labelled line per block with text, a
/// dialogue naming its speaker; music and mood cues open a numbered span
/// (“音乐1开始：…”) and close it (“音乐1结束”) after the last block they
/// cover.
pub fn script_preview_lines(script: &Script) -> (r: Vec<String>)
    ensures
        lines_view(r@) == script_lines_upto(script.blocks@, script.blocks@.len() as int),
{
    let ghost b = script.blocks@;
    let n = script.blocks.len();
    let info = collect_spans(script);
    let mut lines: Vec<String> = Vec::new();
    let mut last: Option<String> = None;
    let mut idx: usize = 0;
    while idx < n
        invariant
            n == b.len(),
            b == script.blocks@,
            idx <= n,
            info@.len() == n,
            forall|j: int| 0 <= j < n ==> info@[j] == span_info(b, j),
            lines_view(lines@) == script_lines_upto(b, idx as int),
            opt_text(last) == last_character_upto(b, idx as int),
        decreases n - idx,
    {
        let blk = &script.blocks[idx];
        let ghost base = lines_view(lines@);
        proof {
            lemma_count_starts_le(b, b[idx as int].block_type, idx + 1);
            lemma_span_end_in_range(b, idx as int);
        }
        match info[idx] {
            Some((ord, _)) => {
                let label = cue_label_str(blk.block_type);
                let content = chars_of(&blk.content);
                assert(info@[idx as int] == span_info(b, idx as int));
                assert(is_span_start(b[idx as int]));
                assert(ord as nat == cue_ordinal(b, idx as int));
                let line = span_line(label, ord, "开始：", &content);
                assert(line@ == span_start_line(b, idx as int));
                lines.push(line);
                assert(lines_view(lines@) =~= base + seq![span_start_line(b, idx as int)]);
            },
            None => {
                match block_line(blk, &last) {
                    Some(l) => {
                        lines.push(l);
                        assert(lines_view(lines@) =~= base + seq![script_block_line(b[idx as int], last_character_upto(b, idx as int))->0]);
                    },
                    None => {
                        assert(lines_view(lines@) =~= base + Seq::<Seq<char>>::empty());
                    },
                }
            },
        }
        let ghost with_main = lines_view(lines@);
        match blk.block_type {
            ScriptBlockType::Character => {
                match block_character_name(blk) {
                    Some(name) => {
                        last = Some(name);
                    },
                    None => {},
                }
            },
            _ => {},
        }
        let mut j: usize = n;
        assert(with_main + end_lines_below(b, idx as int, n as int) =~= with_main + end_lines_below(b, idx as int, j as int));
        while j > 0
            invariant
                n == b.len(),
                b == script.blocks@,
                j <= n,
                idx < n,
                info@.len() == n,
                forall|k: int| 0 <= k < n ==> info@[k] == span_info(b, k),
                lines_view(lines@) + end_lines_below(b, idx as int, j as int) == with_main + end_lines_below(b, idx as int, n as int),
            decreases j,
        {
            let k = j - 1;
            let ghost cur = lines_view(lines@);
            proof {
                lemma_span_end_in_range(b, k as int);
                lemma_count_starts_le(b, b[k as int].block_type, k + 1);
            }
            match info[k] {
                Some((ord, end)) => {
                    assert(info@[k as int] == span_info(b, k as int));
                    assert(is_span_start(b[k as int]));
                    assert(ord as nat == cue_ordinal(b, k as int));
                    assert(end as int == span_last(b, k as int));
                    if end == idx {
                        let label = cue_label_str(script.blocks[k].block_type);
                        let line = end_line(label, ord);
                        assert(line@ == span_end_line(b, k as int));
                        lines.push(line);
                        assert(lines_view(lines@) =~= cur.push(span_end_line(b, k as int)));
                        assert(lines_view(lines@) + end_lines_below(b, idx as int, k as int) =~= cur + end_lines_below(b, idx as int, j as int));
                    } else {
                        assert(end_lines_below(b, idx as int, j as int) =~= end_lines_below(b, idx as int, k as int));
                    }
                },
                None => {
                    assert(info@[k as int] == span_info(b, k as int));
                    assert(end_lines_below(b, idx as int, j as int) =~= end_lines_below(b, idx as int, k as int));
                },
            }
            j = k;
        }
        assert(lines_view(lines@) =~= with_main + end_lines_below(b, idx as int, n as int));
        idx = idx + 1;
    }
    lines
}

} // verus!
