//! What the workspace hands the assistant: the readiness check of the
//! settings, and the lean context and chapter facts of what is open.

use vstd::prelude::*;

use crate::ai::host::{selections_view, LeanContext, LeanFocus, LeanSelection};
use crate::ai::provider::{ChapterContext, ProjectContext};
use crate::models::block_focus::{BlockFocus, BlockMultiSelect};
use crate::models::chapter::Chapter;
use crate::models::project::Project;
use crate::models::script::Script;
use crate::models::script_focus::ScriptFocus;
use crate::storage::project_store::AiSettings;
use crate::ai::mutator::InMemoryMutator;
use crate::ai::tools::SharedAiCtx;
use crate::ai::workspace_mutator::{copy_chapter, copy_script, same_chapter, same_script};
use crate::models::outline::OutlineEntry;
use crate::text::{has_prefix, is_blank, is_blank_str, starts_with};

verus! {

/// Why the assistant cannot be called yet.
#[derive(Debug, Clone, Copy, PartialEq, Eq, Structural)]
pub enum ReadyError {
    MissingApiKey,
    MissingModel,
    BaseUrlScheme,
}

impl ReadyError {
    pub open spec fn spec_message(self) -> &'static str {
        match self {
            ReadyError::MissingApiKey => "请先在设置中填写 API Key",
            ReadyError::MissingModel => "请先在设置中填写模型名称",
            ReadyError::BaseUrlScheme => "默认调用地址须以 http:// 或 https:// 开头",
        }
    }

    /// The message shown to the user.
    pub fn message(self) -> (r: &'static str)
        ensures
            r == self.spec_message(),
    {
        match self {
            ReadyError::MissingApiKey => "请先在设置中填写 API Key",
            ReadyError::MissingModel => "请先在设置中填写模型名称",
            ReadyError::BaseUrlScheme => "默认调用地址须以 http:// 或 https:// 开头",
        }
    }
}

/// The verdict on the AI settings: a key and a model are needed (blank
/// counts as missing), and a base URL that is not blank must itself start
/// with `http://` or `https://`.
pub open spec fn ready_verdict(ai: AiSettings) -> Result<(), ReadyError> {
    if is_blank(ai.api_key@) {
        Err(ReadyError::MissingApiKey)
    } else if is_blank(ai.model@) {
        Err(ReadyError::MissingModel)
    } else if !is_blank(ai.base_url@) && !(has_prefix(ai.base_url@, "http://"@) || has_prefix(ai.base_url@, "https://"@)) {
        Err(ReadyError::BaseUrlScheme)
    } else {
        Ok(())
    }
}

/// Whether the settings are enough to call a model.
pub fn validate_ai_ready(ai: &AiSettings) -> (r: Result<(), ReadyError>)
    ensures
        r == ready_verdict(*ai),
{
    if is_blank_str(&ai.api_key) {
        return Err(ReadyError::MissingApiKey);
    }
    if is_blank_str(&ai.model) {
        return Err(ReadyError::MissingModel);
    }
    if !is_blank_str(&ai.base_url) && !(starts_with(&ai.base_url, "http://") || starts_with(&ai.base_url, "https://")) {
        return Err(ReadyError::BaseUrlScheme);
    }
    Ok(())
}

/// The facts of the open chapter, if one is open.
pub fn chapter_context_from_app(chapter: Option<&Chapter>) -> (r: Option<ChapterContext>)
    ensures
        chapter is None ==> r is None,
        (chapter matches Some(c) ==> (r matches Some(x) && x.chapter_id == c.id && x.title@ == c.title@ && x.status@
            == c.meta.status@)),
{
    match chapter {
        Some(c) => Some(ChapterContext { chapter_id: c.id, title: c.title.clone(), status: c.meta.status.clone() }),
        None => None,
    }
}

/// The project facts of a request, as plain values.
pub open spec fn project_facts(p: Option<Project>) -> (u128, Seq<char>, Seq<char>, Seq<char>) {
    match p {
        Some(p) => (p.id, p.title@, p.ai_context.style_guide@, p.ai_context.synopsis@),
        None => (0, "未打开项目"@, Seq::empty(), Seq::empty()),
    }
}

/// The selection entries of chapter blocks `from..to`.
pub open spec fn block_entries(c: Chapter, from: int, to: int) -> Seq<(u128, Seq<char>, Seq<char>)> {
    Seq::new((to - from) as nat, |k: int| {
        let b = c.blocks@[from + k];
        (b.id, b.block_type.spec_label()@, b.content@)
    })
}

/// The chapter blocks `start..=end` that exist, as selection entries.
pub open spec fn chapter_range_entries(c: Chapter, start: usize, end: usize) -> Seq<(u128, Seq<char>, Seq<char>)> {
    let n = c.blocks@.len();
    let stop = if end < n { end + 1 } else { n as int };
    if start < stop {
        block_entries(c, start as int, stop)
    } else {
        Seq::empty()
    }
}

/// The selection entries of a chapter: the multi-selection's existing
/// blocks, else the focused block when it exists.
pub open spec fn chapter_selection(c: Chapter, multi: Option<BlockMultiSelect>, focus: BlockFocus) -> Seq<(u128, Seq<char>, Seq<char>)> {
    match multi {
        Some(m) => chapter_range_entries(c, m.start, m.end),
        None => match focus.spec_selected_index() {
            Some(i) if i < c.blocks@.len() => {
                let b = c.blocks@[i as int];
                seq![(b.id, b.block_type.spec_label()@, b.content@)]
            },
            _ => Seq::empty(),
        },
    }
}

/// The selection entry of a screenplay: the focused block when it exists.
pub open spec fn script_selection(s: Script, focus: ScriptFocus) -> Seq<(u128, Seq<char>, Seq<char>)> {
    match focus.spec_selected_index() {
        Some(i) if i < s.blocks@.len() => {
            let b = s.blocks@[i as int];
            seq![(b.id, b.block_type.spec_label()@, b.content@)]
        },
        _ => Seq::empty(),
    }
}

fn project_context(project: Option<&Project>) -> (r: ProjectContext)
    ensures
        (r.project_id, r.title@, r.style_guide@, r.synopsis@) == project_facts(
            match project {
                Some(p) => Some(*p),
                None => None,
            },
        ),
{
    match project {
        Some(p) => ProjectContext {
            project_id: p.id,
            title: p.title.clone(),
            style_guide: p.ai_context.style_guide.clone(),
            synopsis: p.ai_context.synopsis.clone(),
        },
        None => ProjectContext {
            project_id: 0,
            title: String::from_str("未打开项目"),
            style_guide: String::new(),
            synopsis: String::new(),
        },
    }
}

/// The lean context of what is open: an open screenplay takes precedence
/// over an open chapter; with neither, there is no focus and no selection.
/// No references are attached.
pub fn lean_context_from_app(
    project: Option<&Project>,
    script: Option<&Script>,
    script_focus: &ScriptFocus,
    chapter: Option<&Chapter>,
    block_multi_select: Option<&BlockMultiSelect>,
    block_focus: &BlockFocus,
) -> (r: LeanContext)
    ensures
        (r.project.project_id, r.project.title@, r.project.style_guide@, r.project.synopsis@) == project_facts(
            match project {
                Some(p) => Some(*p),
                None => None,
            },
        ),
        r.attached_refs@.len() == 0,
        (script matches Some(s) ==> (r.focus matches Some(LeanFocus::Script { id, title }) && id == s.id && title@ == s.title@)
            && selections_view(r.selection@) == script_selection(*s, *script_focus)),
        (script is None ==> (chapter matches Some(c) ==> (r.focus matches Some(LeanFocus::Chapter { id, title }) && id == c.id
            && title@ == c.title@) && selections_view(r.selection@) == chapter_selection(
            *c,
            match block_multi_select {
                Some(m) => Some(*m),
                None => None,
            },
            *block_focus,
        ))),
        script is None && chapter is None ==> r.focus is None && r.selection@.len() == 0,
{
    let ctx = project_context(project);
    match script {
        Some(s) => {
            let mut selection: Vec<LeanSelection> = Vec::new();
            match script_focus.selected_index() {
                Some(i) => {
                    if i < s.blocks.len() {
                        let b = &s.blocks[i];
                        selection.push(LeanSelection {
                            block_id: b.id,
                            block_type: String::from_str(b.block_type.label()),
                            text: b.content.clone(),
                        });
                        assert(selections_view(selection@) =~= script_selection(*s, *script_focus));
                    }
                },
                None => {},
            }
            assert(selections_view(selection@) =~= script_selection(*s, *script_focus));
            return LeanContext {
                project: ctx,
                focus: Some(LeanFocus::Script { id: s.id, title: s.title.clone() }),
                selection,
                attached_refs: Vec::new(),
            };
        },
        None => {},
    }
    match chapter {
        Some(c) => {
            let mut selection: Vec<LeanSelection> = Vec::new();
            let ghost multi = match block_multi_select {
                Some(m) => Some(*m),
                None => None,
            };
            match block_multi_select {
                Some(m) => {
                    let n = c.blocks.len();
                    let mut i = m.start;
                    assert(selections_view(selection@) =~= block_entries(*c, m.start as int, i as int));
                    while i < n && i <= m.end
                        invariant
                            n == c.blocks@.len(),
                            m.start <= i,
                            i <= n || i == m.start,
                            i <= m.end + 1 || i == m.start,
                            selections_view(selection@) == block_entries(*c, m.start as int, i as int),
                        decreases n - i,
                    {
                        let b = &c.blocks[i];
                        let ghost before = selections_view(selection@);
                        selection.push(LeanSelection {
                            block_id: b.id,
                            block_type: String::from_str(b.block_type.label()),
                            text: b.content.clone(),
                        });
                        assert(selections_view(selection@) =~= before.push((b.id, b.block_type.spec_label()@, b.content@)));
                        i = i + 1;
                        assert(selections_view(selection@) =~= block_entries(*c, m.start as int, i as int));
                    }
                    assert(selections_view(selection@) =~= chapter_range_entries(*c, m.start, m.end));
                },
                None => {
                    match block_focus.selected_index() {
                        Some(i) => {
                            if i < c.blocks.len() {
                                let b = &c.blocks[i];
                                selection.push(LeanSelection {
                                    block_id: b.id,
                                    block_type: String::from_str(b.block_type.label()),
                                    text: b.content.clone(),
                                });
                            }
                        },
                        None => {},
                    }
                    assert(selections_view(selection@) =~= chapter_selection(*c, multi, *block_focus));
                },
            }
            LeanContext {
                project: ctx,
                focus: Some(LeanFocus::Chapter { id: c.id, title: c.title.clone() }),
                selection,
                attached_refs: Vec::new(),
            }
        },
        None => LeanContext { project: ctx, focus: None, selection: Vec::new(), attached_refs: Vec::new() },
    }
}

/// Copies of the outline entries.
pub fn copy_outline(entries: &Vec<OutlineEntry>) -> (r: Vec<OutlineEntry>)
    ensures
        r@.len() == entries@.len(),
        forall|k: int| 0 <= k < r@.len() ==> #[trigger] r@[k]@ == entries@[k]@,
{
    let mut out: Vec<OutlineEntry> = Vec::new();
    let mut i: usize = 0;
    while i < entries.len()
        invariant
            i <= entries@.len(),
            out@.len() == i,
            forall|k: int| 0 <= k < i ==> #[trigger] out@[k]@ == entries@[k]@,
        decreases entries.len() - i,
    {
        out.push(entries[i].clone());
        i = i + 1;
    }
    out
}

/// The tool context of an assistant run over what is open: the project
/// header, the open chapter and screenplay and the outline are held in
/// memory; write tools only propose.
pub fn hydrate_shared_ctx(
    project: Option<&Project>,
    chapter: Option<&Chapter>,
    script: Option<&Script>,
    outline: &Vec<OutlineEntry>,
) -> (r: SharedAiCtx<InMemoryMutator>)
    ensures
        !r.policy.auto_apply,
        r.proposals@.len() == 0,
        r.ui_commands@.len() == 0,
        project matches Some(p) ==> r.mutator.title == p.title && r.mutator.style_guide == p.ai_context.style_guide
            && r.mutator.synopsis == p.ai_context.synopsis,
        project is None ==> r.mutator.title@.len() == 0 && r.mutator.style_guide@.len() == 0
            && r.mutator.synopsis@.len() == 0,
        chapter matches Some(c) ==> r.mutator.chapters@.len() == 1 && same_chapter(r.mutator.chapters@[0], *c),
        chapter is None ==> r.mutator.chapters@.len() == 0,
        script matches Some(s) ==> r.mutator.scripts@.len() == 1 && same_script(r.mutator.scripts@[0], *s),
        script is None ==> r.mutator.scripts@.len() == 0,
        r.mutator.outline@.len() == outline@.len(),
        forall|k: int| 0 <= k < outline@.len() ==> #[trigger] r.mutator.outline@[k]@ == outline@[k]@,
{
    let mut mutator = InMemoryMutator::new();
    if let Some(p) = project {
        mutator.title = p.title.clone();
        mutator.style_guide = p.ai_context.style_guide.clone();
        mutator.synopsis = p.ai_context.synopsis.clone();
    }
    if let Some(c) = chapter {
        mutator.upsert_chapter(copy_chapter(c));
    }
    if let Some(s) = script {
        mutator.ensure_script(copy_script(s));
    }
    mutator.set_outline(copy_outline(outline));
    SharedAiCtx::new(mutator, false)
}

} // verus!
