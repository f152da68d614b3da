//! The lean context sent with each request (project facts, focus and
//! selection, never whole texts) and the user message built from it.

use vstd::prelude::*;

use crate::ai::actions::{action_hint, action_prompt};
use crate::ai::context_ref::{attached_refs_text, format_attached_refs, AiContextRef};
use crate::ai::provider::{AiAction, ChapterContext, ProjectContext};
use crate::ai::session::StoredLeanFocus;
use crate::ids::{id_text, id_text_of};
use crate::models::block::Block;
use crate::text::{char_vecs_view, chars_of, join_chars, join_with, push_str, string_of};

verus! {

/// What the user is looking at.
#[derive(Debug, Clone, PartialEq, Eq)]
pub enum LeanFocus {
    Chapter { id: u128, title: String },
    Script { id: u128, title: String },
}

/// One selected block: id, kind label and text.
#[derive(Debug, Clone, PartialEq, Eq)]
pub struct LeanSelection {
    pub block_id: u128,
    pub block_type: String,
    pub text: String,
}

/// The context of one request: project facts, focus, selection and the
/// references the user attached.
#[derive(Debug, Clone, PartialEq, Eq)]
pub struct LeanContext {
    pub project: ProjectContext,
    pub focus: Option<LeanFocus>,
    pub selection: Vec<LeanSelection>,
    pub attached_refs: Vec<AiContextRef>,
}

/// The selection entry of a chapter block.
pub open spec fn selection_of(b: Block) -> (u128, Seq<char>, Seq<char>) {
    (b.id, b.block_type.spec_label()@, b.content@)
}

/// The plain values of selection entries.
pub open spec fn selections_view(s: Seq<LeanSelection>) -> Seq<(u128, Seq<char>, Seq<char>)> {
    s.map_values(|x: LeanSelection| (x.block_id, x.block_type@, x.text@))
}

impl LeanContext {
    /// The context of a chapter with its selected blocks and no attached
    /// references.
    pub fn from_chapter(project: ProjectContext, chapter: ChapterContext, selected_blocks: &[Block]) -> (r: Self)
        ensures
            r.project == project,
            (r.focus matches Some(LeanFocus::Chapter { id, title }) && id == chapter.chapter_id && title == chapter.title),
            selections_view(r.selection@) == selected_blocks@.map_values(|b: Block| selection_of(b)),
            r.attached_refs@.len() == 0,
    {
        let mut selection: Vec<LeanSelection> = Vec::new();
        let mut i: usize = 0;
        while i < selected_blocks.len()
            invariant
                i <= selected_blocks@.len(),
                selections_view(selection@) == selected_blocks@.map_values(|b: Block| selection_of(b)).take(i as int),
            decreases selected_blocks.len() - i,
        {
            let b = &selected_blocks[i];
            let ghost before = selection@;
            selection.push(LeanSelection {
                block_id: b.id,
                block_type: String::from_str(b.block_type.label()),
                text: b.content.clone(),
            });
            assert(selections_view(selection@) =~= selections_view(before).push(selection_of(*b)));
            i = i + 1;
            assert(selected_blocks@.map_values(|b: Block| selection_of(b)).take(i as int) =~= selected_blocks@.map_values(
                |b: Block| selection_of(b),
            ).take(i - 1).push(selection_of(selected_blocks@[i - 1])));
        }
        assert(selected_blocks@.map_values(|b: Block| selection_of(b)).take(i as int) =~= selected_blocks@.map_values(
            |b: Block| selection_of(b),
        ));
        LeanContext {
            project,
            focus: Some(LeanFocus::Chapter { id: chapter.chapter_id, title: chapter.title }),
            selection,
            attached_refs: Vec::new(),
        }
    }
}

/// The line that names the focus.
pub open spec fn focus_lines(f: Option<LeanFocus>) -> Seq<Seq<char>> {
    match f {
        Some(LeanFocus::Chapter { id, title }) => seq!["焦点：章节 "@ + title@ + " ("@ + id_text_of(id) + ")"@],
        Some(LeanFocus::Script { id, title }) => seq!["焦点：剧本 "@ + title@ + " ("@ + id_text_of(id) + ")"@],
        None => Seq::empty(),
    }
}

/// The line of one selected block.
pub open spec fn selection_line(x: LeanSelection) -> Seq<char> {
    "- ["@ + x.block_type@ + "] "@ + id_text_of(x.block_id) + ": "@ + x.text@
}

/// The lines of the lean context: project title; style guide and synopsis
/// when not empty; the focus; the selection under a heading when there is
/// one; the attached references when there are some.
pub open spec fn lean_lines(lean: LeanContext) -> Seq<Seq<char>> {
    let head = seq!["项目："@ + lean.project.title@];
    let style = if lean.project.style_guide@.len() > 0 {
        seq!["风格："@ + lean.project.style_guide@]
    } else {
        Seq::empty()
    };
    let synopsis = if lean.project.synopsis@.len() > 0 {
        seq!["简介："@ + lean.project.synopsis@]
    } else {
        Seq::empty()
    };
    let sel = if lean.selection@.len() > 0 {
        seq!["选区："@] + lean.selection@.map_values(|x: LeanSelection| selection_line(x))
    } else {
        Seq::empty()
    };
    let refs = if lean.attached_refs@.len() > 0 {
        seq![attached_refs_text(lean.attached_refs@)]
    } else {
        Seq::empty()
    };
    head + style + synopsis + focus_lines(lean.focus) + sel + refs
}

/// The lean context as text, one fact per line.
pub open spec fn lean_text(lean: LeanContext) -> Seq<char> {
    join_with(lean_lines(lean), "\n"@)
}

fn line_of(prefix: &str, body: &str) -> (r: Vec<char>)
    ensures
        r@ == prefix@ + body@,
{
    let mut v = chars_of(prefix);
    push_str(&mut v, body);
    v
}

fn focus_line(kind: &str, id: u128, title: &str) -> (r: Vec<char>)
    ensures
        r@ == kind@ + title@ + " ("@ + id_text_of(id) + ")"@,
{
    let mut v = chars_of(kind);
    push_str(&mut v, title);
    push_str(&mut v, " (");
    push_str(&mut v, &id_text(id));
    push_str(&mut v, ")");
    v
}

/// Formats the lean context.
pub fn format_lean_context(lean: &LeanContext) -> (r: String)
    ensures
        r@ == lean_text(*lean),
{
    let mut lines: Vec<Vec<char>> = Vec::new();
    lines.push(line_of("项目：", &lean.project.title));
    let ghost l0 = char_vecs_view(lines@);
    if chars_of(&lean.project.style_guide).len() > 0 {
        lines.push(line_of("风格：", &lean.project.style_guide));
    }
    let ghost l1 = char_vecs_view(lines@);
    if chars_of(&lean.project.synopsis).len() > 0 {
        lines.push(line_of("简介：", &lean.project.synopsis));
    }
    let ghost l2 = char_vecs_view(lines@);
    match &lean.focus {
        Some(LeanFocus::Chapter { id, title }) => lines.push(focus_line("焦点：章节 ", *id, title)),
        Some(LeanFocus::Script { id, title }) => lines.push(focus_line("焦点：剧本 ", *id, title)),
        None => {},
    }
    let ghost l3 = char_vecs_view(lines@);
    proof {
        assert(l3 =~= seq!["项目："@ + lean.project.title@] + (if lean.project.style_guide@.len() > 0 {
            seq!["风格："@ + lean.project.style_guide@]
        } else {
            Seq::empty()
        }) + (if lean.project.synopsis@.len() > 0 {
            seq!["简介："@ + lean.project.synopsis@]
        } else {
            Seq::empty()
        }) + focus_lines(lean.focus));
    }
    let ghost before_sel = l3;
    if lean.selection.len() > 0 {
        let mut v: Vec<char> = Vec::new();
        push_str(&mut v, "选区：");
        lines.push(v);
        let mut i: usize = 0;
        while i < lean.selection.len()
            invariant
                i <= lean.selection@.len(),
                char_vecs_view(lines@) == before_sel + seq!["选区："@] + lean.selection@.map_values(
                    |x: LeanSelection| selection_line(x),
                ).take(i as int),
            decreases lean.selection.len() - i,
        {
            let x = &lean.selection[i];
            let mut v: Vec<char> = Vec::new();
            push_str(&mut v, "- [");
            push_str(&mut v, &x.block_type);
            push_str(&mut v, "] ");
            push_str(&mut v, &id_text(x.block_id));
            push_str(&mut v, ": ");
            push_str(&mut v, &x.text);
            let ghost before = char_vecs_view(lines@);
            lines.push(v);
            assert(char_vecs_view(lines@) =~= before.push(selection_line(*x)));
            i = i + 1;
            assert(lean.selection@.map_values(|x: LeanSelection| selection_line(x)).take(i as int) =~= lean.selection@.map_values(
                |x: LeanSelection| selection_line(x),
            ).take(i - 1).push(selection_line(lean.selection@[i - 1])));
        }
        assert(lean.selection@.map_values(|x: LeanSelection| selection_line(x)).take(i as int) =~= lean.selection@.map_values(
            |x: LeanSelection| selection_line(x),
        ));
    }
    let ghost l4 = char_vecs_view(lines@);
    assert(l4 =~= l3 + (if lean.selection@.len() > 0 {
        seq!["选区："@] + lean.selection@.map_values(|x: LeanSelection| selection_line(x))
    } else {
        Seq::empty()
    }));
    match format_attached_refs(lean.attached_refs.as_slice()) {
        Some(t) => {
            lines.push(chars_of(&t));
        },
        None => {},
    }
    assert(char_vecs_view(lines@) =~= l4 + (if lean.attached_refs@.len() > 0 {
        seq![attached_refs_text(lean.attached_refs@)]
    } else {
        Seq::empty()
    }));
    assert(char_vecs_view(lines@) =~= lean_lines(*lean));
    string_of(join_chars(&lines, "\n").as_slice())
}

/// The first message of a conversation: the lean context, the action's
/// hint and the user's text, each when not empty, separated by blank lines.
pub open spec fn user_message_of(lean: LeanContext, action: AiAction, user_prompt: Seq<char>) -> Seq<char> {
    let parts = (if lean_text(lean).len() > 0 {
        seq![lean_text(lean)]
    } else {
        Seq::empty()
    }) + (if action_hint(action)@.len() > 0 {
        seq![action_hint(action)@]
    } else {
        Seq::empty()
    }) + (if user_prompt.len() > 0 {
        seq![user_prompt]
    } else {
        Seq::empty()
    });
    join_with(parts, "\n\n"@)
}

fn compose_user_message(lean: &LeanContext, action: AiAction, user_prompt: &str) -> (r: String)
    ensures
        r@ == user_message_of(*lean, action, user_prompt@),
{
    let lean_text = chars_of(&format_lean_context(lean));
    let action_text = chars_of(action_prompt(action));
    let prompt = chars_of(user_prompt);
    let mut parts: Vec<Vec<char>> = Vec::new();
    if lean_text.len() > 0 {
        parts.push(lean_text);
    }
    if action_text.len() > 0 {
        parts.push(action_text);
    }
    if prompt.len() > 0 {
        parts.push(prompt);
    }
    proof {
        assert(char_vecs_view(parts@) =~= (if lean_text@.len() > 0 {
            seq![lean_text@]
        } else {
            Seq::empty()
        }) + (if action_text@.len() > 0 {
            seq![action_text@]
        } else {
            Seq::empty()
        }) + (if prompt@.len() > 0 {
            seq![prompt@]
        } else {
            Seq::empty()
        }));
    }
    string_of(join_chars(&parts, "\n\n").as_slice())
}

/// The message of one turn: the full first message on the first turn; on
/// a later turn after the focus changed, the lean context and the user's
/// text separated by a blank line; otherwise the user's text alone.
pub open spec fn turn_message_of(
    lean: LeanContext,
    action: AiAction,
    user_prompt: Seq<char>,
    is_first_turn: bool,
    focus_changed: bool,
) -> Seq<char> {
    if is_first_turn {
        user_message_of(lean, action, user_prompt)
    } else if focus_changed {
        if lean_text(lean).len() == 0 {
            user_prompt
        } else {
            lean_text(lean) + "\n\n"@ + user_prompt
        }
    } else {
        user_prompt
    }
}

/// Builds the message of one turn; the lean context goes with the first
/// turn and with a turn after the focus changed.
pub fn compose_user_message_for_turn(
    lean: &LeanContext,
    action: AiAction,
    user_prompt: &str,
    is_first_turn: bool,
    focus_changed: bool,
) -> (r: String)
    ensures
        r@ == turn_message_of(*lean, action, user_prompt@, is_first_turn, focus_changed),
{
    if is_first_turn {
        compose_user_message(lean, action, user_prompt)
    } else if focus_changed {
        let text = chars_of(&format_lean_context(lean));
        if text.len() == 0 {
            String::from_str(user_prompt)
        } else {
            let mut v = text;
            push_str(&mut v, "\n\n");
            push_str(&mut v, user_prompt);
            string_of(v.as_slice())
        }
    } else {
        String::from_str(user_prompt)
    }
}

/// The focus recorded for a lean context.
pub open spec fn stored_focus_of(lean: LeanContext) -> Option<(bool, u128, Seq<char>)> {
    match lean.focus {
        Some(LeanFocus::Chapter { id, title }) => Some((true, id, title@)),
        Some(LeanFocus::Script { id, title }) => Some((false, id, title@)),
        None => None,
    }
}

/// A recorded focus as plain values: chapter or not, id and title.
pub open spec fn stored_focus_view(f: Option<StoredLeanFocus>) -> Option<(bool, u128, Seq<char>)> {
    match f {
        Some(StoredLeanFocus::Chapter { id, title }) => Some((true, id, title@)),
        Some(StoredLeanFocus::Script { id, title }) => Some((false, id, title@)),
        None => None,
    }
}

/// The focus to record after a run with this lean context.
pub fn stored_lean_focus_from_lean(lean: &LeanContext) -> (r: Option<StoredLeanFocus>)
    ensures
        stored_focus_view(r) == stored_focus_of(*lean),
{
    match &lean.focus {
        Some(LeanFocus::Chapter { id, title }) => Some(StoredLeanFocus::Chapter { id: *id, title: title.clone() }),
        Some(LeanFocus::Script { id, title }) => Some(StoredLeanFocus::Script { id: *id, title: title.clone() }),
        None => None,
    }
}

/// Whether the focus differs from the one recorded at the last run.
pub fn lean_focus_changed(last: &Option<StoredLeanFocus>, current: &Option<StoredLeanFocus>) -> (r: bool)
    ensures
        r == (stored_focus_view(*last) != stored_focus_view(*current)),
{
    match (last, current) {
        (None, None) => false,
        (Some(StoredLeanFocus::Chapter { id: a, title: x }), Some(StoredLeanFocus::Chapter { id: b, title: y })) => {
            !(*a == *b && crate::text::str_eq(x, y))
        },
        (Some(StoredLeanFocus::Script { id: a, title: x }), Some(StoredLeanFocus::Script { id: b, title: y })) => {
            !(*a == *b && crate::text::str_eq(x, y))
        },
        _ => true,
    }
}

} // verus!
