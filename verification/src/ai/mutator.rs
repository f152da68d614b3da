//! The pluggable back end that writes intents into a project, and a back
//! end that holds the documents in memory.

use vstd::prelude::*;

use crate::ai::intent::AiIntent;
use crate::ai::workspace_mutator::{
    apply_chapter_intent, apply_script_intent, chapter_intent_outcome, edit_error_text, intent_target,
    not_found_text, script_intent_outcome, spec_intent_target, EditError, IntentTarget,
};
use crate::ids::{id_text, now_millis};
use crate::models::block::Block;
use crate::models::chapter::Chapter;
use crate::models::outline::OutlineEntry;
use crate::models::script::Script;
use crate::text::{push_str, string_of};

verus! {

/// Writes an intent into the project's storage; implementations decide
/// how, and report failure as text.
pub trait ProjectMutator {
    /// What applying `intent` to `self` may do: `r` is the result and
    /// `after` the back end afterwards. Each implementation says what it
    /// means.
    spec fn apply_outcome(&self, intent: AiIntent, r: Result<(), String>, after: &Self) -> bool;

    fn apply(&mut self, intent: &AiIntent) -> (r: Result<(), String>)
        ensures
            old(self).apply_outcome(*intent, r, final(self)),
    ;
}

/// The project header, the documents and the outline an assistant session
/// reads, held in memory; changes are stamped with `now`.
#[derive(Debug)]
pub struct InMemoryMutator {
    pub title: String,
    pub style_guide: String,
    pub synopsis: String,
    pub chapters: Vec<Chapter>,
    pub scripts: Vec<Script>,
    pub outline: Vec<OutlineEntry>,
    pub now: i64,
}

/// First position at or after `from` of the chapter `id`, or the length.
pub open spec fn first_chapter_from(chs: Seq<Chapter>, id: u128, from: int) -> int
    decreases chs.len() - from,
{
    if from < 0 || from >= chs.len() {
        chs.len() as int
    } else if chs[from].id == id {
        from
    } else {
        first_chapter_from(chs, id, from + 1)
    }
}

/// Position of the first chapter `id`.
pub open spec fn chapter_slot(chs: Seq<Chapter>, id: u128) -> Option<int> {
    let k = first_chapter_from(chs, id, 0);
    if k < chs.len() {
        Some(k)
    } else {
        None
    }
}

/// First position at or after `from` of the screenplay `id`, or the length.
pub open spec fn first_script_from(ss: Seq<Script>, id: u128, from: int) -> int
    decreases ss.len() - from,
{
    if from < 0 || from >= ss.len() {
        ss.len() as int
    } else if ss[from].id == id {
        from
    } else {
        first_script_from(ss, id, from + 1)
    }
}

/// Position of the first screenplay `id`.
pub open spec fn script_slot(ss: Seq<Script>, id: u128) -> Option<int> {
    let k = first_script_from(ss, id, 0);
    if k < ss.len() {
        Some(k)
    } else {
        None
    }
}

/// Nothing held differs between `a` and `b`.
pub open spec fn same_memory(a: InMemoryMutator, b: InMemoryMutator) -> bool {
    &&& a.title == b.title
    &&& a.style_guide == b.style_guide
    &&& a.synopsis == b.synopsis
    &&& a.chapters@ == b.chapters@
    &&& a.scripts@ == b.scripts@
    &&& a.outline@ == b.outline@
    &&& a.now == b.now
}

/// `after` is `before` with the chapters replaced.
pub open spec fn only_chapters_changed(before: InMemoryMutator, after: InMemoryMutator, chs: Seq<Chapter>) -> bool {
    same_memory(InMemoryMutator { chapters: after.chapters, ..before }, after) && after.chapters@ == chs
}

/// The text refusing a change that needs the project on disk.
pub open spec fn needs_disk_text() -> Seq<char> {
    "this change needs the project on disk"@
}

/// The outcome `out` for the chapter at `k` is stored: the changed chapter
/// replaces it, an error is reported as text and changes nothing.
pub open spec fn chapter_stored(before: InMemoryMutator, k: int, out: Result<Chapter, EditError>, r: Result<(), String>, after: InMemoryMutator) -> bool {
    match out {
        Ok(c) => r is Ok && only_chapters_changed(before, after, before.chapters@.update(k, c)),
        Err(e) => r matches Err(m) && m@ == edit_error_text(e) && same_memory(after, before),
    }
}

/// A replacement that names no target block.
pub open spec fn replaces_nothing(intent: AiIntent) -> bool {
    match intent {
        AiIntent::ReplaceBlocks { target_ids, .. } => target_ids@.len() == 0,
        _ => false,
    }
}

/// Some outcome of `intent` on the chapter at `k` is stored.
pub open spec fn chapter_applied(before: InMemoryMutator, intent: AiIntent, k: int, r: Result<(), String>, after: InMemoryMutator) -> bool {
    exists|out: Result<Chapter, EditError>|
        #![trigger chapter_intent_outcome(before.chapters@[k], intent, before.now, out)]
        chapter_intent_outcome(before.chapters@[k], intent, before.now, out) && chapter_stored(before, k, out, r, after)
}

/// What a chapter intent does in memory to the first chapter `id`.
pub open spec fn chapter_case(before: InMemoryMutator, intent: AiIntent, id: u128, r: Result<(), String>, after: InMemoryMutator) -> bool {
    let slot = chapter_slot(before.chapters@, id);
    &&& slot is None ==> (r matches Err(m) && m@ == not_found_text("chapter "@, id) && same_memory(after, before))
    &&& slot is Some && replaces_nothing(intent) ==> (r matches Err(m) && m@ == "target_ids 不能为空"@
        && same_memory(after, before))
    &&& slot is Some && !replaces_nothing(intent) ==> chapter_applied(before, intent, slot->Some_0, r, after)
}

/// The outcome `out` for the screenplay at `k` is stored: a new
/// screenplay replaces it, an error is reported as text and changes
/// nothing.
pub open spec fn script_stored(before: InMemoryMutator, k: int, out: Result<Script, EditError>, r: Result<(), String>, after: InMemoryMutator) -> bool {
    match out {
        Ok(s) => r is Ok && same_memory(InMemoryMutator { scripts: after.scripts, ..before }, after)
            && after.scripts@ == before.scripts@.update(k, s),
        Err(e) => r matches Err(m) && m@ == edit_error_text(e) && same_memory(after, before),
    }
}

/// Some outcome of `intent` on the screenplay at `k` is stored.
pub open spec fn script_applied(before: InMemoryMutator, intent: AiIntent, k: int, r: Result<(), String>, after: InMemoryMutator) -> bool {
    exists|out: Result<Script, EditError>|
        #![trigger script_intent_outcome(before.scripts@[k], intent, before.now, out)]
        script_intent_outcome(before.scripts@[k], intent, before.now, out) && script_stored(before, k, out, r, after)
}

/// What a screenplay intent does in memory to the first screenplay `id`.
pub open spec fn script_case(before: InMemoryMutator, intent: AiIntent, id: u128, r: Result<(), String>, after: InMemoryMutator) -> bool {
    let slot = script_slot(before.scripts@, id);
    &&& slot is None ==> (r matches Err(m) && m@ == not_found_text("script "@, id) && same_memory(after, before))
    &&& slot is Some ==> script_applied(before, intent, slot->Some_0, r, after)
}

/// What a project header update does in memory.
pub open spec fn project_case(before: InMemoryMutator, intent: AiIntent, r: Result<(), String>, after: InMemoryMutator) -> bool {
    r is Ok && match intent {
        AiIntent::UpdateProjectMeta { title, style_guide, synopsis, .. } => {
            &&& after.title == (match title {
                Some(t) => t,
                None => before.title,
            })
            &&& after.style_guide == (match style_guide {
                Some(s) => s,
                None => before.style_guide,
            })
            &&& after.synopsis == (match synopsis {
                Some(s) => s,
                None => before.synopsis,
            })
            &&& same_memory(
                InMemoryMutator { title: after.title, style_guide: after.style_guide, synopsis: after.synopsis, ..before },
                after,
            )
        },
        _ => false,
    }
}

/// What applying `intent` in memory does: chapter and screenplay intents
/// change the first document with their id as the document rules say,
/// project header updates change the header, and every other intent is
/// refused; a refusal changes nothing.
pub open spec fn in_memory_outcome(before: InMemoryMutator, intent: AiIntent, r: Result<(), String>, after: InMemoryMutator) -> bool {
    match spec_intent_target(intent) {
        IntentTarget::Chapter(id) => chapter_case(before, intent, id, r, after),
        IntentTarget::Script(id) => script_case(before, intent, id, r, after),
        IntentTarget::Project => project_case(before, intent, r, after),
        _ => r matches Err(m) && m@ == needs_disk_text() && same_memory(after, before),
    }
}

fn not_found(prefix: &str, id: u128) -> (r: String)
    ensures
        r@ == not_found_text(prefix@, id),
{
    let mut v: Vec<char> = Vec::new();
    push_str(&mut v, prefix);
    let t = id_text(id);
    push_str(&mut v, t.as_str());
    proof { reveal_strlit(" not found"); }
    push_str(&mut v, " not found");
    string_of(v.as_slice())
}

fn find_chapter(chs: &Vec<Chapter>, id: u128) -> (r: Option<usize>)
    ensures
        r matches Some(k) ==> chapter_slot(chs@, id) == Some(k as int) && k < chs@.len(),
        r is None ==> chapter_slot(chs@, id) is None,
{
    let mut i: usize = 0;
    while i < chs.len()
        invariant
            i <= chs@.len(),
            first_chapter_from(chs@, id, 0) == first_chapter_from(chs@, id, i as int),
        decreases chs.len() - i,
    {
        if chs[i].id == id {
            return Some(i);
        }
        i = i + 1;
    }
    None
}

fn find_script(ss: &Vec<Script>, id: u128) -> (r: Option<usize>)
    ensures
        r matches Some(k) ==> script_slot(ss@, id) == Some(k as int) && k < ss@.len(),
        r is None ==> script_slot(ss@, id) is None,
{
    let mut i: usize = 0;
    while i < ss.len()
        invariant
            i <= ss@.len(),
            first_script_from(ss@, id, 0) == first_script_from(ss@, id, i as int),
        decreases ss.len() - i,
    {
        if ss[i].id == id {
            return Some(i);
        }
        i = i + 1;
    }
    None
}

impl InMemoryMutator {
    /// Nothing held; changes are stamped with the current time.
    pub fn new() -> (r: Self)
        ensures
            r.title@.len() == 0,
            r.style_guide@.len() == 0,
            r.synopsis@.len() == 0,
            r.chapters@.len() == 0,
            r.scripts@.len() == 0,
            r.outline@.len() == 0,
    {
        InMemoryMutator {
            title: String::new(),
            style_guide: String::new(),
            synopsis: String::new(),
            chapters: Vec::new(),
            scripts: Vec::new(),
            outline: Vec::new(),
            now: now_millis(),
        }
    }

    /// A sample project "测试项目" holding one chapter, with id 1, as a
    /// new chapter starts: one empty narration block.
    pub fn with_sample_chapter() -> (r: Self)
        ensures
            r.title@ == "测试项目"@,
            r.chapters@.len() == 1,
            r.chapters@[0].id == 1,
            r.chapters@[0].title@ == "第一章"@,
            r.chapters@[0].blocks@.len() == 1,
            r.chapters@[0].blocks@[0].block_type == crate::models::block::BlockType::Narration,
            r.chapters@[0].blocks@[0].content@.len() == 0,
            r.scripts@.len() == 0,
            r.outline@.len() == 0,
    {
        let mut m = InMemoryMutator::new();
        m.title = String::from_str("测试项目");
        let mut chapter = Chapter::new(String::from_str("第一章"), m.now);
        chapter.id = 1;
        m.chapters.push(chapter);
        m
    }

    /// Puts `chapter` in place of the held chapter with its id, or adds it.
    pub fn upsert_chapter(&mut self, chapter: Chapter)
        ensures
            chapter_slot(old(self).chapters@, chapter.id) matches Some(k) ==> only_chapters_changed(
                *old(self),
                *final(self),
                old(self).chapters@.update(k, chapter),
            ),
            chapter_slot(old(self).chapters@, chapter.id) is None ==> only_chapters_changed(
                *old(self),
                *final(self),
                old(self).chapters@.push(chapter),
            ),
    {
        match find_chapter(&self.chapters, chapter.id) {
            Some(k) => {
                self.chapters.set(k, chapter);
            },
            None => {
                self.chapters.push(chapter);
            },
        }
    }

    /// Puts `script` in place of the held screenplay with its id, or adds
    /// it.
    pub fn ensure_script(&mut self, script: Script)
        ensures
            script_slot(old(self).scripts@, script.id) matches Some(k) ==> final(self).scripts@ == old(
                self,
            ).scripts@.update(k, script),
            script_slot(old(self).scripts@, script.id) is None ==> final(self).scripts@ == old(self).scripts@.push(
                script,
            ),
            same_memory(InMemoryMutator { scripts: final(self).scripts, ..*old(self) }, *final(self)),
    {
        match find_script(&self.scripts, script.id) {
            Some(k) => {
                self.scripts.set(k, script);
            },
            None => {
                self.scripts.push(script);
            },
        }
    }

    /// Replaces the held outline.
    pub fn set_outline(&mut self, entries: Vec<OutlineEntry>)
        ensures
            final(self).outline@ == entries@,
            same_memory(InMemoryMutator { outline: final(self).outline, ..*old(self) }, *final(self)),
    {
        self.outline = entries;
    }

    /// The blocks of the chapter `id`.
    pub fn chapter_blocks(&self, id: u128) -> (r: Option<&Vec<Block>>)
        ensures
            chapter_slot(self.chapters@, id) matches Some(k) ==> (r matches Some(b) && b@ == self.chapters@[k].blocks@),
            chapter_slot(self.chapters@, id) is None ==> r is None,
    {
        match find_chapter(&self.chapters, id) {
            Some(k) => Some(&self.chapters[k].blocks),
            None => None,
        }
    }

    /// The screenplay `id`.
    pub fn get_script(&self, id: u128) -> (r: Option<&Script>)
        ensures
            script_slot(self.scripts@, id) matches Some(k) ==> r == Some(&self.scripts@[k]),
            script_slot(self.scripts@, id) is None ==> r is None,
    {
        match find_script(&self.scripts, id) {
            Some(k) => Some(&self.scripts[k]),
            None => None,
        }
    }

    /// Id and title of each held chapter, in order.
    pub fn list_chapters(&self) -> (r: Vec<(u128, String)>)
        ensures
            r@.len() == self.chapters@.len(),
            forall|k: int| 0 <= k < r@.len() ==> #[trigger] r@[k].0 == self.chapters@[k].id && r@[k].1
                == self.chapters@[k].title,
    {
        let mut out: Vec<(u128, String)> = Vec::new();
        let mut i: usize = 0;
        while i < self.chapters.len()
            invariant
                i <= self.chapters@.len(),
                out@.len() == i,
                forall|k: int| 0 <= k < i ==> #[trigger] out@[k].0 == self.chapters@[k].id && out@[k].1
                    == self.chapters@[k].title,
            decreases self.chapters.len() - i,
        {
            out.push((self.chapters[i].id, self.chapters[i].title.clone()));
            i = i + 1;
        }
        out
    }

    /// Id and title of each held screenplay, in order.
    pub fn list_scripts(&self) -> (r: Vec<(u128, String)>)
        ensures
            r@.len() == self.scripts@.len(),
            forall|k: int| 0 <= k < r@.len() ==> #[trigger] r@[k].0 == self.scripts@[k].id && r@[k].1
                == self.scripts@[k].title,
    {
        let mut out: Vec<(u128, String)> = Vec::new();
        let mut i: usize = 0;
        while i < self.scripts.len()
            invariant
                i <= self.scripts@.len(),
                out@.len() == i,
                forall|k: int| 0 <= k < i ==> #[trigger] out@[k].0 == self.scripts@[k].id && out@[k].1
                    == self.scripts@[k].title,
            decreases self.scripts.len() - i,
        {
            out.push((self.scripts[i].id, self.scripts[i].title.clone()));
            i = i + 1;
        }
        out
    }

    /// The held outline entries.
    pub fn get_outline(&self) -> (r: &Vec<OutlineEntry>)
        ensures
            r@ == self.outline@,
    {
        &self.outline
    }
}

impl InMemoryMutator {
    fn apply_to_chapter(&mut self, intent: &AiIntent, id: u128) -> (r: Result<(), String>)
        requires
            spec_intent_target(*intent) == IntentTarget::Chapter(id),
        ensures
            chapter_case(*old(self), *intent, id, r, *final(self)),
    {
        let k = match find_chapter(&self.chapters, id) {
            Some(k) => k,
            None => {
                proof { reveal_strlit("chapter "); }
                return Err(not_found("chapter ", id));
            },
        };
        if let AiIntent::ReplaceBlocks { target_ids, .. } = intent {
            if target_ids.len() == 0 {
                return Err(String::from_str("target_ids 不能为空"));
            }
        }
        let out = apply_chapter_intent(&self.chapters[k], intent, self.now);
        match out {
            Ok(c) => {
                self.chapters.set(k, c);
                Ok(())
            },
            Err(e) => Err(e.message()),
        }
    }

    fn apply_to_script(&mut self, intent: &AiIntent, id: u128) -> (r: Result<(), String>)
        requires
            spec_intent_target(*intent) == IntentTarget::Script(id),
        ensures
            script_case(*old(self), *intent, id, r, *final(self)),
    {
        let k = match find_script(&self.scripts, id) {
            Some(k) => k,
            None => {
                proof { reveal_strlit("script "); }
                return Err(not_found("script ", id));
            },
        };
        let out = apply_script_intent(&self.scripts[k], intent, self.now);
        match out {
            Ok(s) => {
                self.scripts.set(k, s);
                Ok(())
            },
            Err(e) => Err(e.message()),
        }
    }

    fn apply_to_project(&mut self, intent: &AiIntent) -> (r: Result<(), String>)
        requires
            spec_intent_target(*intent) == IntentTarget::Project,
        ensures
            project_case(*old(self), *intent, r, *final(self)),
    {
        match intent {
            AiIntent::UpdateProjectMeta { title, style_guide, synopsis, .. } => {
                if let Some(t) = title {
                    self.title = t.clone();
                }
                if let Some(s) = style_guide {
                    self.style_guide = s.clone();
                }
                if let Some(s) = synopsis {
                    self.synopsis = s.clone();
                }
                Ok(())
            },
            _ => {
                assert(false);
                Ok(())
            },
        }
    }
}

impl ProjectMutator for InMemoryMutator {
    /// The documents held change as `in_memory_outcome` says.
    open spec fn apply_outcome(&self, intent: AiIntent, r: Result<(), String>, after: &Self) -> bool {
        in_memory_outcome(*self, intent, r, *after)
    }

    fn apply(&mut self, intent: &AiIntent) -> (r: Result<(), String>)
        ensures
            in_memory_outcome(*old(self), *intent, r, *final(self)),
    {
        match intent_target(intent) {
            IntentTarget::Chapter(id) => self.apply_to_chapter(intent, id),
            IntentTarget::Script(id) => self.apply_to_script(intent, id),
            IntentTarget::Project => self.apply_to_project(intent),
            _ => Err(String::from_str("this change needs the project on disk")),
        }
    }
}

} // verus!
