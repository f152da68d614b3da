//! References dropped onto the assistant's panel (chips): metadata only,
//! never the text itself.

use vstd::prelude::*;

use crate::ids::{id_text, id_text_of};
use crate::text::{chars_of, push_str, string_of};

verus! {

/// What a reference points at.
#[derive(Debug, Clone, Copy, PartialEq, Eq, Hash, Structural)]
pub enum AiContextKind {
    ChapterDir,
    Chapter,
    Block,
    OutlineEntry,
    ScriptDir,
    Script,
    ScriptBlock,
}

impl AiContextKind {
    pub open spec fn spec_label(self) -> &'static str {
        match self {
            AiContextKind::ChapterDir => "章节目录",
            AiContextKind::Chapter => "章节",
            AiContextKind::Block => "文本块",
            AiContextKind::OutlineEntry => "大纲",
            AiContextKind::ScriptDir => "剧本目录",
            AiContextKind::Script => "剧本",
            AiContextKind::ScriptBlock => "剧本块",
        }
    }

    /// The display name of the kind.
    pub fn label(self) -> (r: &'static str)
        ensures
            r == self.spec_label(),
    {
        match self {
            AiContextKind::ChapterDir => "章节目录",
            AiContextKind::Chapter => "章节",
            AiContextKind::Block => "文本块",
            AiContextKind::OutlineEntry => "大纲",
            AiContextKind::ScriptDir => "剧本目录",
            AiContextKind::Script => "剧本",
            AiContextKind::ScriptBlock => "剧本块",
        }
    }
}

/// A reference: its kind, id or path, and title.
#[derive(Debug, Clone, PartialEq, Eq)]
pub struct AiContextRef {
    pub kind: AiContextKind,
    pub id: Option<u128>,
    pub path: Option<String>,
    pub title: String,
}

/// The path of a reference, empty when it has none.
pub open spec fn path_or_empty(r: AiContextRef) -> Seq<char> {
    match r.path {
        Some(p) => p@,
        None => Seq::empty(),
    }
}

/// Two references point at the same thing: same kind, same id, same path
/// (a missing path counting as empty); titles do not matter.
pub open spec fn same_target_spec(a: AiContextRef, b: AiContextRef) -> bool {
    a.kind == b.kind && a.id == b.id && path_or_empty(a) == path_or_empty(b)
}

/// Two references are the same target exactly when they have the same
/// kind, the same id and the same path, a missing path counting as the
/// empty path; their titles play no part. So references with different
/// paths are never the same target.
pub proof fn law_same_target(a: AiContextRef, b: AiContextRef)
    ensures
        same_target_spec(a, b) <==> (a.kind == b.kind && a.id == b.id && (match a.path {
            Some(p) => p@,
            None => Seq::<char>::empty(),
        }) == (match b.path {
            Some(p) => p@,
            None => Seq::<char>::empty(),
        })),
{
}

/// The one-line description of a reference: the kind in brackets, the
/// title, then the id in parentheses, or else the path.
pub open spec fn display_line_of(r: AiContextRef) -> Seq<char> {
    let head = "["@ + r.kind.spec_label()@ + "]"@ + " "@ + r.title@;
    match r.id {
        Some(id) => head + " "@ + "("@ + id_text_of(id) + ")"@,
        None => match r.path {
            Some(p) => head + " "@ + "("@ + p@ + ")"@,
            None => head,
        },
    }
}

fn path_chars(p: &Option<String>) -> (r: Vec<char>)
    ensures
        r@ == match p {
            Some(s) => s@,
            None => Seq::<char>::empty(),
        },
{
    match p {
        Some(s) => chars_of(s),
        None => Vec::new(),
    }
}

fn same_chars(a: &Vec<char>, b: &Vec<char>) -> (r: bool)
    ensures
        r == (a@ == b@),
{
    crate::text::chars_eq(a, b)
}

impl AiContextRef {
    /// Whether two references point at the same thing.
    pub fn same_target(&self, other: &Self) -> (r: bool)
        ensures
            r == same_target_spec(*self, *other),
    {
        let same_id = match (self.id, other.id) {
            (Some(a), Some(b)) => a == b,
            (None, None) => true,
            _ => false,
        };
        self.kind == other.kind && same_id && same_chars(&path_chars(&self.path), &path_chars(&other.path))
    }

    /// The one-line description shown on the chip and in prompts.
    pub fn display_line(&self) -> (r: String)
        ensures
            r@ == display_line_of(*self),
    {
        let mut v: Vec<char> = Vec::new();
        push_str(&mut v, "[");
        push_str(&mut v, self.kind.label());
        push_str(&mut v, "]");
        push_str(&mut v, " ");
        push_str(&mut v, &self.title);
        match self.id {
            Some(id) => {
                push_str(&mut v, " ");
                push_str(&mut v, "(");
                push_str(&mut v, &id_text(id));
                push_str(&mut v, ")");
            },
            None => match &self.path {
                Some(p) => {
                    push_str(&mut v, " ");
                    push_str(&mut v, "(");
                    push_str(&mut v, p);
                    push_str(&mut v, ")");
                },
                None => {},
            },
        }
        string_of(v.as_slice())
    }
}

/// Attaching a reference whose kind, id or path differs from those of
/// every attached reference (a missing path counting as empty) always
/// adds it: `push_unique` then answers `true` and appends it. In
/// particular two folders with different paths are both kept.
pub proof fn law_push_unique_adds_new_target(refs: Seq<AiContextRef>, item: AiContextRef)
    requires
        forall|i: int|
            0 <= i < refs.len() ==> (#[trigger] refs[i]).kind != item.kind || refs[i].id != item.id
                || path_or_empty(refs[i]) != path_or_empty(item),
    ensures
        !exists|i: int| 0 <= i < refs.len() && same_target_spec(#[trigger] refs[i], item),
{
    assert forall|i: int| 0 <= i < refs.len() implies !same_target_spec(#[trigger] refs[i], item) by {
        law_same_target(refs[i], item);
    }
}

/// Adds `item` unless a reference to the same thing is already there;
/// returns whether it was added.
pub fn push_unique(refs: &mut Vec<AiContextRef>, item: AiContextRef) -> (r: bool)
    ensures
        r == !exists|i: int| 0 <= i < old(refs)@.len() && same_target_spec(#[trigger] old(refs)@[i], item),
        r ==> final(refs)@ == old(refs)@.push(item),
        !r ==> final(refs)@ == old(refs)@,
{
    let mut i: usize = 0;
    while i < refs.len()
        invariant
            i <= refs@.len(),
            refs@ == old(refs)@,
            forall|k: int| 0 <= k < i ==> !same_target_spec(#[trigger] refs@[k], item),
        decreases refs.len() - i,
    {
        if refs[i].same_target(&item) {
            return false;
        }
        i = i + 1;
    }
    refs.push(item);
    true
}

/// The “attached references” section of a prompt: a heading line and one
/// `- ` line per reference; none when there are no references.
pub open spec fn attached_refs_text(refs: Seq<AiContextRef>) -> Seq<char>
    decreases refs.len(),
{
    if refs.len() == 0 {
        "用户附加引用："@
    } else {
        attached_refs_text(refs.drop_last()) + "\n"@ + "- "@ + display_line_of(refs.last())
    }
}

/// Formats the references the user attached; `None` when there are none.
pub fn format_attached_refs(refs: &[AiContextRef]) -> (r: Option<String>)
    ensures
        refs@.len() == 0 ==> r is None,
        refs@.len() > 0 ==> (r matches Some(t) && t@ == attached_refs_text(refs@)),
{
    if refs.len() == 0 {
        return None;
    }
    let mut v: Vec<char> = Vec::new();
    push_str(&mut v, "用户附加引用：");
    let mut i: usize = 0;
    while i < refs.len()
        invariant
            i <= refs@.len(),
            v@ == attached_refs_text(refs@.take(i as int)),
        decreases refs.len() - i,
    {
        proof {
            assert(refs@.take(i + 1).drop_last() =~= refs@.take(i as int));
        }
        push_str(&mut v, "\n");
        push_str(&mut v, "- ");
        let line = refs[i].display_line();
        push_str(&mut v, &line);
        i = i + 1;
    }
    assert(refs@.take(i as int) =~= refs@);
    Some(string_of(v.as_slice()))
}

} // verus!
