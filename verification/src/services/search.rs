//! Filtering the trees and the outline by name, and full-text search over
//! chapter blocks with a snippet around each match.

use vstd::prelude::*;

use crate::models::block::{Block, BlockType};
use crate::models::chapter::Chapter;
use crate::models::outline::{OutlineEntry, OutlineEntryView};
use crate::storage::chapter_tree::{
    copy_node as copy_chapter_node, node_view as chapter_node_view, nodes_view as chapter_nodes_view,
    ChapterNodeKind, ChapterNodeView, ChapterTreeNode,
};
use crate::storage::script_tree::{
    copy_node as copy_script_node, node_view as script_node_view, nodes_view as script_nodes_view,
    ScriptNodeView, ScriptTreeNode,
};
use crate::text::{chars_for_bytes, chars_in_bytes, chars_of, contains_chars, contains_seq, find_chars, first_occurrence, is_blank, lemma_trimmed_empty_iff_blank, lower_of, string_of, to_lower, trim, trimmed, utf8_len, utf8_prefix_len};

verus! {

/// How the sidebar searches.
#[derive(Debug, Clone, Copy, PartialEq, Eq, Structural)]
pub enum SearchMode {
    /// Match folder names, chapter titles and outline keys, keeping the
    /// path to each match.
    NameFilter,
    /// Scan the text of chapter blocks.
    FullText,
}

impl Default for SearchMode {
    /// Name filtering.
    fn default() -> (r: Self)
        ensures
            r == SearchMode::NameFilter,
    {
        SearchMode::NameFilter
    }
}

/// One full-text match.
#[derive(Debug, Clone, PartialEq, Eq)]
pub struct FullTextHit {
    pub chapter_rel: String,
    pub chapter_title: String,
    pub chapter_id: u128,
    pub block_id: u128,
    pub block_index: usize,
    pub block_type: BlockType,
    /// The text around the match, with ellipses where it was cut.
    pub snippet: String,
}

/// Whether a node's name or title contains the lowercased query `lq`,
/// compared in lowercase.
pub open spec fn chapter_node_matches(n: ChapterNodeView, lq: Seq<char>) -> bool {
    contains_seq(lower_of(n.name), lq) || (n.title matches Some(t) && contains_seq(lower_of(t), lq))
}

/// A node filtered by name: kept whole when it matches, kept with only its
/// filtered children when some descendant matches, dropped otherwise.
pub open spec fn filter_chapter_view(n: ChapterNodeView, lq: Seq<char>) -> Option<ChapterNodeView>
    decreases n, 1int,
{
    let kids = filter_chapter_views(n.children, lq);
    if chapter_node_matches(n, lq) {
        Some(n)
    } else if kids.len() > 0 {
        Some(ChapterNodeView { children: kids, ..n })
    } else {
        None
    }
}

/// The nodes of `s` that survive the name filter, in order.
pub open spec fn filter_chapter_views(s: Seq<ChapterNodeView>, lq: Seq<char>) -> Seq<ChapterNodeView>
    decreases s, 0int,
{
    if s.len() == 0 {
        Seq::empty()
    } else {
        let rest = filter_chapter_views(s.drop_last(), lq);
        match filter_chapter_view(s.last(), lq) {
            Some(x) => rest.push(x),
            None => rest,
        }
    }
}

fn chapter_matches(node: &ChapterTreeNode, lq: &Vec<char>) -> (r: bool)
    ensures
        r == chapter_node_matches(chapter_node_view(*node), lq@),
{
    let name = chars_of(&to_lower(&node.name));
    if contains_chars(&name, lq) {
        return true;
    }
    match &node.title {
        Some(t) => {
            let lt = chars_of(&to_lower(t));
            contains_chars(&lt, lq)
        },
        None => false,
    }
}

fn filter_chapter_node(node: &ChapterTreeNode, lq: &Vec<char>) -> (r: Option<ChapterTreeNode>)
    ensures
        r matches Some(x) ==> filter_chapter_view(chapter_node_view(*node), lq@) == Some(chapter_node_view(x)),
        r is None ==> filter_chapter_view(chapter_node_view(*node), lq@) is None,
    decreases node,
{
    let self_match = chapter_matches(node, lq);
    let mut kids: Vec<ChapterTreeNode> = Vec::new();
    let mut i: usize = 0;
    while i < node.children.len()
        invariant
            i <= node.children@.len(),
            chapter_nodes_view(kids@) == filter_chapter_views(chapter_nodes_view(node.children@.take(i as int)), lq@),
        decreases node.children.len() - i,
    {
        let ghost before = kids@;
        let ghost prefix = chapter_nodes_view(node.children@.take(i + 1));
        proof {
            assert(node.children@.take(i + 1).drop_last() =~= node.children@.take(i as int));
            assert(prefix.drop_last() == chapter_nodes_view(node.children@.take(i as int)));
            assert(prefix.last() == chapter_node_view(node.children@[i as int]));
        }
        match filter_chapter_node(&node.children[i], lq) {
            Some(x) => {
                kids.push(x);
                assert(kids@.drop_last() =~= before);
            },
            None => {},
        }
        i = i + 1;
    }
    assert(node.children@.take(i as int) =~= node.children@);
    if self_match {
        Some(copy_chapter_node(node))
    } else if kids.len() > 0 {
        proof {
            if chapter_nodes_view(kids@).len() == 0 {
                lemma_views_len_chapter(kids@);
            }
            lemma_views_len_chapter(kids@);
        }
        let title = match &node.title {
            Some(t) => Some(t.clone()),
            None => None,
        };
        Some(ChapterTreeNode {
            rel_path: node.rel_path.clone(),
            name: node.name.clone(),
            kind: node.kind,
            chapter_id: node.chapter_id,
            title,
            children: kids,
        })
    } else {
        proof {
            lemma_views_len_chapter(kids@);
        }
        None
    }
}

proof fn lemma_views_len_chapter(s: Seq<ChapterTreeNode>)
    ensures
        chapter_nodes_view(s).len() == s.len(),
    decreases s.len(),
{
    if s.len() > 0 {
        lemma_views_len_chapter(s.drop_last());
    }
}

/// Filters the chapter tree by name: nodes whose name or title contains
/// the trimmed query (ignoring case) are kept with all their children, and
/// so are the folders on the way to them; a blank query keeps the tree as
/// it is.
pub fn filter_chapter_tree_by_name(nodes: &[ChapterTreeNode], query: &str) -> (r: Vec<ChapterTreeNode>)
    ensures
        is_blank(query@) ==> chapter_nodes_view(r@) == chapter_nodes_view(nodes@),
        !is_blank(query@) ==> chapter_nodes_view(r@) == filter_chapter_views(
            chapter_nodes_view(nodes@),
            lower_of(trimmed(query@)),
        ),
{
    let q = trim(query);
    proof {
        lemma_trimmed_empty_iff_blank(query@);
    }
    let blank = chars_of(&q).len() == 0;
    let lq = chars_of(&to_lower(&q));
    let mut out: Vec<ChapterTreeNode> = Vec::new();
    let mut i: usize = 0;
    while i < nodes.len()
        invariant
            i <= nodes@.len(),
            blank == is_blank(query@),
            lq@ == lower_of(trimmed(query@)),
            blank ==> chapter_nodes_view(out@) == chapter_nodes_view(nodes@.take(i as int)),
            !blank ==> chapter_nodes_view(out@) == filter_chapter_views(chapter_nodes_view(nodes@.take(i as int)), lq@),
        decreases nodes.len() - i,
    {
        let ghost before = out@;
        let ghost prefix = chapter_nodes_view(nodes@.take(i + 1));
        proof {
            assert(nodes@.take(i + 1).drop_last() =~= nodes@.take(i as int));
            assert(prefix.drop_last() == chapter_nodes_view(nodes@.take(i as int)));
            assert(prefix.last() == chapter_node_view(nodes@[i as int]));
        }
        if blank {
            out.push(copy_chapter_node(&nodes[i]));
            assert(out@.drop_last() =~= before);
        } else {
            match filter_chapter_node(&nodes[i], &lq) {
                Some(x) => {
                    out.push(x);
                    assert(out@.drop_last() =~= before);
                },
                None => {},
            }
        }
        i = i + 1;
    }
    assert(nodes@.take(i as int) =~= nodes@);
    out
}

/// Whether a node's name or title contains the lowercased query `lq`,
/// compared in lowercase.
pub open spec fn script_node_matches(n: ScriptNodeView, lq: Seq<char>) -> bool {
    contains_seq(lower_of(n.name), lq) || (n.title matches Some(t) && contains_seq(lower_of(t), lq))
}

/// A node filtered by name: kept whole when it matches, kept with only its
/// filtered children when some descendant matches, dropped otherwise.
pub open spec fn filter_script_view(n: ScriptNodeView, lq: Seq<char>) -> Option<ScriptNodeView>
    decreases n, 1int,
{
    let kids = filter_script_views(n.children, lq);
    if script_node_matches(n, lq) {
        Some(n)
    } else if kids.len() > 0 {
        Some(ScriptNodeView { children: kids, ..n })
    } else {
        None
    }
}

/// The nodes of `s` that survive the name filter, in order.
pub open spec fn filter_script_views(s: Seq<ScriptNodeView>, lq: Seq<char>) -> Seq<ScriptNodeView>
    decreases s, 0int,
{
    if s.len() == 0 {
        Seq::empty()
    } else {
        let rest = filter_script_views(s.drop_last(), lq);
        match filter_script_view(s.last(), lq) {
            Some(x) => rest.push(x),
            None => rest,
        }
    }
}

fn script_matches(node: &ScriptTreeNode, lq: &Vec<char>) -> (r: bool)
    ensures
        r == script_node_matches(script_node_view(*node), lq@),
{
    let name = chars_of(&to_lower(&node.name));
    if contains_chars(&name, lq) {
        return true;
    }
    match &node.title {
        Some(t) => {
            let lt = chars_of(&to_lower(t));
            contains_chars(&lt, lq)
        },
        None => false,
    }
}

fn filter_script_node(node: &ScriptTreeNode, lq: &Vec<char>) -> (r: Option<ScriptTreeNode>)
    ensures
        r matches Some(x) ==> filter_script_view(script_node_view(*node), lq@) == Some(script_node_view(x)),
        r is None ==> filter_script_view(script_node_view(*node), lq@) is None,
    decreases node,
{
    let self_match = script_matches(node, lq);
    let mut kids: Vec<ScriptTreeNode> = Vec::new();
    let mut i: usize = 0;
    while i < node.children.len()
        invariant
            i <= node.children@.len(),
            script_nodes_view(kids@) == filter_script_views(script_nodes_view(node.children@.take(i as int)), lq@),
        decreases node.children.len() - i,
    {
        let ghost before = kids@;
        let ghost prefix = script_nodes_view(node.children@.take(i + 1));
        proof {
            assert(node.children@.take(i + 1).drop_last() =~= node.children@.take(i as int));
            assert(prefix.drop_last() == script_nodes_view(node.children@.take(i as int)));
            assert(prefix.last() == script_node_view(node.children@[i as int]));
        }
        match filter_script_node(&node.children[i], lq) {
            Some(x) => {
                kids.push(x);
                assert(kids@.drop_last() =~= before);
            },
            None => {},
        }
        i = i + 1;
    }
    assert(node.children@.take(i as int) =~= node.children@);
    if self_match {
        Some(copy_script_node(node))
    } else if kids.len() > 0 {
        proof {
            if script_nodes_view(kids@).len() == 0 {
                lemma_views_len_script(kids@);
            }
            lemma_views_len_script(kids@);
        }
        let title = match &node.title {
            Some(t) => Some(t.clone()),
            None => None,
        };
        Some(ScriptTreeNode {
            rel_path: node.rel_path.clone(),
            name: node.name.clone(),
            kind: node.kind,
            script_id: node.script_id,
            title,
            children: kids,
        })
    } else {
        proof {
            lemma_views_len_script(kids@);
        }
        None
    }
}

proof fn lemma_views_len_script(s: Seq<ScriptTreeNode>)
    ensures
        script_nodes_view(s).len() == s.len(),
    decreases s.len(),
{
    if s.len() > 0 {
        lemma_views_len_script(s.drop_last());
    }
}

/// Filters the screenplay tree by name, by the same rule as the chapter
/// tree.
pub fn filter_script_tree_by_name(nodes: &[ScriptTreeNode], query: &str) -> (r: Vec<ScriptTreeNode>)
    ensures
        is_blank(query@) ==> script_nodes_view(r@) == script_nodes_view(nodes@),
        !is_blank(query@) ==> script_nodes_view(r@) == filter_script_views(
            script_nodes_view(nodes@),
            lower_of(trimmed(query@)),
        ),
{
    let q = trim(query);
    proof {
        lemma_trimmed_empty_iff_blank(query@);
    }
    let blank = chars_of(&q).len() == 0;
    let lq = chars_of(&to_lower(&q));
    let mut out: Vec<ScriptTreeNode> = Vec::new();
    let mut i: usize = 0;
    while i < nodes.len()
        invariant
            i <= nodes@.len(),
            blank == is_blank(query@),
            lq@ == lower_of(trimmed(query@)),
            blank ==> script_nodes_view(out@) == script_nodes_view(nodes@.take(i as int)),
            !blank ==> script_nodes_view(out@) == filter_script_views(script_nodes_view(nodes@.take(i as int)), lq@),
        decreases nodes.len() - i,
    {
        let ghost before = out@;
        let ghost prefix = script_nodes_view(nodes@.take(i + 1));
        proof {
            assert(nodes@.take(i + 1).drop_last() =~= nodes@.take(i as int));
            assert(prefix.drop_last() == script_nodes_view(nodes@.take(i as int)));
            assert(prefix.last() == script_node_view(nodes@[i as int]));
        }
        if blank {
            out.push(copy_script_node(&nodes[i]));
            assert(out@.drop_last() =~= before);
        } else {
            match filter_script_node(&nodes[i], &lq) {
                Some(x) => {
                    out.push(x);
                    assert(out@.drop_last() =~= before);
                },
                None => {},
            }
        }
        i = i + 1;
    }
    assert(nodes@.take(i as int) =~= nodes@);
    out
}

/// The entries whose key contains the lowercased query `lq`, compared in
/// lowercase, in order.
pub open spec fn outline_matches(s: Seq<OutlineEntryView>, lq: Seq<char>) -> Seq<OutlineEntryView>
    decreases s.len(),
{
    if s.len() == 0 {
        Seq::empty()
    } else if contains_seq(lower_of(s.last().key), lq) {
        outline_matches(s.drop_last(), lq).push(s.last())
    } else {
        outline_matches(s.drop_last(), lq)
    }
}

/// The outline filter keeps, in order, exactly the entries whose
/// lower-cased key contains the query anywhere, not only at its start.
pub proof fn law_outline_matches_contains(s: Seq<OutlineEntryView>, lq: Seq<char>)
    ensures
        outline_matches(s, lq) == s.filter(|e: OutlineEntryView| contains_seq(lower_of(e.key), lq)),
    decreases s.len(),
{
    reveal(Seq::filter);
    if s.len() > 0 {
        law_outline_matches_contains(s.drop_last(), lq);
    }
}

/// The plain values of outline entries.
pub open spec fn entries_view(s: Seq<OutlineEntry>) -> Seq<OutlineEntryView> {
    s.map_values(|e: OutlineEntry| e@)
}

/// Filters outline entries by key: those whose key contains the trimmed
/// query (ignoring case); a blank query keeps them all.
pub fn filter_outline_by_name(entries: &[OutlineEntry], query: &str) -> (r: Vec<OutlineEntry>)
    ensures
        is_blank(query@) ==> entries_view(r@) == entries_view(entries@),
        !is_blank(query@) ==> entries_view(r@) == outline_matches(entries_view(entries@), lower_of(trimmed(query@))),
        !is_blank(query@) ==> entries_view(r@) == entries_view(entries@).filter(
            |e: OutlineEntryView| contains_seq(lower_of(e.key), lower_of(trimmed(query@))),
        ),
{
    let q = trim(query);
    proof {
        lemma_trimmed_empty_iff_blank(query@);
    }
    let blank = chars_of(&q).len() == 0;
    let lq = chars_of(&to_lower(&q));
    let mut out: Vec<OutlineEntry> = Vec::new();
    let mut i: usize = 0;
    while i < entries.len()
        invariant
            i <= entries@.len(),
            blank == is_blank(query@),
            lq@ == lower_of(trimmed(query@)),
            blank ==> entries_view(out@) == entries_view(entries@.take(i as int)),
            !blank ==> entries_view(out@) == outline_matches(entries_view(entries@.take(i as int)), lq@),
        decreases entries.len() - i,
    {
        let ghost before = out@;
        proof {
            assert(entries_view(entries@.take(i + 1)).drop_last() =~= entries_view(entries@.take(i as int)));
            assert(entries_view(entries@.take(i + 1)).last() == entries@[i as int]@);
        }
        let e = &entries[i];
        if blank || contains_chars(&chars_of(&to_lower(&e.key)), &lq) {
            out.push(e.clone());
            assert(entries_view(out@) =~= entries_view(before).push(entries@[i as int]@));
        }
        i = i + 1;
    }
    assert(entries@.take(i as int) =~= entries@);
    proof {
        law_outline_matches_contains(entries_view(entries@), lower_of(trimmed(query@)));
    }
    out
}

/// Characters of context kept on each side of a match.
pub const SNIPPET_CONTEXT: usize = 12;

/// The byte offset, in the lowercased content, of the first occurrence of
/// the lowercased query, if any.
pub open spec fn snippet_match_byte(content: Seq<char>, query: Seq<char>) -> Option<nat> {
    match first_occurrence(lower_of(content), lower_of(query)) {
        Some(k) => Some(utf8_len(lower_of(content).take(k))),
        None => None,
    }
}

/// Whether that byte offset, when there is a match, falls between two
/// characters of `content` itself (where it is used to cut it).
#[verifier::opaque]
pub open spec fn snippet_in_bounds(content: Seq<char>, query: Seq<char>) -> bool {
    match snippet_match_byte(content, query) {
        Some(b) => chars_in_bytes(content, b) is Some,
        None => true,
    }
}

/// The snippet for a match starting at character `start` of `content`
/// for a query of `query_len` characters: up to twelve characters on each
/// side, with an ellipsis where text was cut off.
pub open spec fn snippet_text(content: Seq<char>, start: nat, query_len: nat) -> Seq<char> {
    let n = content.len();
    let end = if start + query_len < n { start + query_len } else { n };
    let from = if start >= 12 { start - 12 } else { 0 };
    let to = if end + 12 < n { end + 12 } else { n };
    let body = content.subrange(from as int, to as int);
    let head = if from > 0 { seq!['…'] + body } else { body };
    if to < n { head.push('…') } else { head }
}

/// The snippet `make_snippet` returns: none without a match; otherwise the
/// text around the character where the match's byte offset falls.
#[verifier::opaque]
pub open spec fn snippet_spec(content: Seq<char>, query: Seq<char>) -> Option<Seq<char>> {
    match snippet_match_byte(content, query) {
        Some(b) => match chars_in_bytes(content, b) {
            Some(start) => Some(snippet_text(content, start, query.len())),
            None => None,
        },
        None => None,
    }
}

/// The snippet text around character `start` of `chars`.
fn snippet_chars(chars: &Vec<char>, start: usize, query_len: usize) -> (r: Vec<char>)
    requires
        start <= chars@.len(),
    ensures
        r@ == snippet_text(chars@, start as nat, query_len as nat),
{
    let n = chars.len();
    let end: usize = if query_len < n - start { start + query_len } else { n };
    let from: usize = if start >= SNIPPET_CONTEXT { start - SNIPPET_CONTEXT } else { 0 };
    let to: usize = if SNIPPET_CONTEXT < n - end { end + SNIPPET_CONTEXT } else { n };
    let mut out: Vec<char> = Vec::new();
    if from > 0 {
        out.push('…');
    }
    let ghost head_len = out@.len();
    let mut i: usize = from;
    while i < to
        invariant
            from <= i <= to <= n,
            n == chars@.len(),
            head_len == out@.len() - (i - from),
            out@ == (if from > 0 { seq!['…'] } else { Seq::<char>::empty() }) + chars@.subrange(from as int, i as int),
        decreases to - i,
    {
        out.push(chars[i]);
        i = i + 1;
        assert(out@ =~= (if from > 0 { seq!['…'] } else { Seq::<char>::empty() }) + chars@.subrange(from as int, i as int));
    }
    if to < n {
        out.push('…');
    }
    proof {
        let body = chars@.subrange(from as int, to as int);
        if from > 0 {
            assert((seq!['…'] + body) =~= out@.take(body.len() as int + 1));
        } else {
            assert((Seq::<char>::empty() + body) =~= body);
        }
    }
    out
}

/// A snippet of `content` around the first match of `query`, ignoring
/// case: up to twelve characters of context on each side, with `…` where
/// the text was cut; `None` when the query does not occur.
pub fn make_snippet(content: &str, query: &str) -> (r: Option<String>)
    requires
        snippet_in_bounds(content@, query@),
    ensures
        r matches Some(t) ==> snippet_spec(content@, query@) == Some(t@),
        r is None ==> snippet_spec(content@, query@) is None,
{
    reveal(snippet_in_bounds);
    reveal(snippet_spec);
    let lower = chars_of(&to_lower(content));
    let q = chars_of(&to_lower(query));
    let k = match find_chars(&lower, &q) {
        Some(k) => k,
        None => return None,
    };
    let b = utf8_prefix_len(&lower, k);
    let chars = chars_of(content);
    let start = match chars_for_bytes(&chars, b) {
        Some(s) => s,
        None => return None,
    };
    let query_len = chars_of(query).len();
    let out = snippet_chars(&chars, start, query_len);
    Some(string_of(out.as_slice()))
}

/// Why no snippet could be cut.
#[derive(Debug, Clone, Copy, PartialEq, Eq, Structural)]
pub enum SnippetError {
    /// The match's byte offset in the lowercased content does not fall
    /// between two characters of the content itself.
    NotCharBoundary,
}

/// Whether the match of `query` in `content`, if any, can be cut from
/// the content (see `snippet_in_bounds`).
pub fn snippet_bounds_ok(content: &str, query: &str) -> (r: bool)
    ensures
        r == snippet_in_bounds(content@, query@),
{
    reveal(snippet_in_bounds);
    let lower = chars_of(&to_lower(content));
    let q = chars_of(&to_lower(query));
    match find_chars(&lower, &q) {
        None => true,
        Some(k) => {
            let b = utf8_prefix_len(&lower, k);
            chars_for_bytes(&chars_of(content), b).is_some()
        },
    }
}

/// `make_snippet` where it applies: `Err` exactly when the match cannot be
/// cut from the content.
pub fn try_make_snippet(content: &str, query: &str) -> (r: Result<Option<String>, SnippetError>)
    ensures
        r is Err <==> !snippet_in_bounds(content@, query@),
        r matches Ok(Some(t)) ==> snippet_spec(content@, query@) == Some(t@),
        r matches Ok(None) ==> snippet_spec(content@, query@) is None,
{
    if snippet_bounds_ok(content, query) {
        Ok(make_snippet(content, query))
    } else {
        Err(SnippetError::NotCharBoundary)
    }
}

/// Whether a block's text takes part in full-text search: every kind but
/// scene breaks.
pub fn block_participates_in_full_text(block_type: BlockType) -> (r: bool)
    ensures
        r == (block_type != BlockType::SceneBreak),
{
    match block_type {
        BlockType::SceneBreak => false,
        _ => true,
    }
}

/// A full-text match as plain values: chapter path, chapter title, chapter
/// id, block id, block index, block kind and snippet.
pub open spec fn hit_view(h: FullTextHit) -> (Seq<char>, Seq<char>, u128, u128, nat, BlockType, Seq<char>) {
    (h.chapter_rel@, h.chapter_title@, h.chapter_id, h.block_id, h.block_index as nat, h.block_type, h.snippet@)
}

/// The matches among `blocks` (index, block id, kind, snippet), in order:
/// scene breaks are skipped, and a block matches when it has a snippet.
pub open spec fn block_hits(blocks: Seq<Block>, query: Seq<char>) -> Seq<(nat, u128, BlockType, Seq<char>)>
    decreases blocks.len(),
{
    if blocks.len() == 0 {
        Seq::empty()
    } else {
        let prev = block_hits(blocks.drop_last(), query);
        let b = blocks.last();
        if b.block_type != BlockType::SceneBreak && snippet_spec(b.content@, query) is Some {
            prev.push(((blocks.len() - 1) as nat, b.id, b.block_type, snippet_spec(b.content@, query)->0))
        } else {
            prev
        }
    }
}

/// The hits expected for the chapter `(rel, title, id)` with `blocks`.
pub open spec fn expected_hits(
    rel: Seq<char>,
    title: Seq<char>,
    id: u128,
    blocks: Seq<Block>,
    query: Seq<char>,
) -> Seq<(Seq<char>, Seq<char>, u128, u128, nat, BlockType, Seq<char>)> {
    block_hits(blocks, query).map_values(
        |x: (nat, u128, BlockType, Seq<char>)| (rel, title, id, x.1, x.0, x.2, x.3),
    )
}

/// The plain values of a list of hits.
pub open spec fn hits_view(s: Seq<FullTextHit>) -> Seq<(Seq<char>, Seq<char>, u128, u128, nat, BlockType, Seq<char>)> {
    s.map_values(|h: FullTextHit| hit_view(h))
}

/// Whether some block that takes part in the search has a match that
/// cannot be cut from its text.
pub open spec fn some_block_out_of_bounds(blocks: Seq<Block>, query: Seq<char>) -> bool {
    exists|i: int|
        0 <= i < blocks.len() && blocks[i].block_type != BlockType::SceneBreak && !snippet_in_bounds(
            #[trigger] blocks[i].content@,
            query,
        )
}

/// The full-text matches of `query` in the chapter stored at
/// `chapter_rel`, one per block with a match, in block order; scene breaks
/// are skipped. `Err` when a block's match cannot be cut from its text.
pub fn chapter_hits(chapter_rel: &str, chapter: &Chapter, query: &str) -> (r: Result<Vec<FullTextHit>, SnippetError>)
    ensures
        r is Err <==> some_block_out_of_bounds(chapter.blocks@, query@),
        r matches Ok(hits) ==> hits_view(hits@) == expected_hits(
            chapter_rel@,
            chapter.title@,
            chapter.id,
            chapter.blocks@,
            query@,
        ),
{
    let mut hits: Vec<FullTextHit> = Vec::new();
    let mut i: usize = 0;
    while i < chapter.blocks.len()
        invariant
            i <= chapter.blocks@.len(),
            !some_block_out_of_bounds(chapter.blocks@.take(i as int), query@),
            hits_view(hits@) == expected_hits(chapter_rel@, chapter.title@, chapter.id, chapter.blocks@.take(i as int), query@),
        decreases chapter.blocks.len() - i,
    {
        let block = &chapter.blocks[i];
        let ghost pre = chapter.blocks@.take(i as int);
        let ghost next = chapter.blocks@.take(i + 1);
        proof {
            assert(next.drop_last() =~= pre);
            assert(next.last() == chapter.blocks@[i as int]);
        }
        if block_participates_in_full_text(block.block_type) {
            match try_make_snippet(&block.content, query) {
                Err(e) => {
                    assert(chapter.blocks@[i as int].block_type != BlockType::SceneBreak && !snippet_in_bounds(chapter.blocks@[i as int].content@, query@));
                    return Err(e);
                },
                Ok(Some(snippet)) => {
                    let ghost before = hits@;
                    let h = FullTextHit {
                        chapter_rel: String::from_str(chapter_rel),
                        chapter_title: chapter.title.clone(),
                        chapter_id: chapter.id,
                        block_id: block.id,
                        block_index: i,
                        block_type: block.block_type,
                        snippet,
                    };
                    hits.push(h);
                    assert(hits_view(hits@) =~= hits_view(before).push(hit_view(h)));
                    assert(expected_hits(chapter_rel@, chapter.title@, chapter.id, next, query@) =~= expected_hits(
                        chapter_rel@,
                        chapter.title@,
                        chapter.id,
                        pre,
                        query@,
                    ).push(hit_view(h)));
                },
                Ok(None) => {
                    assert(expected_hits(chapter_rel@, chapter.title@, chapter.id, next, query@) =~= expected_hits(
                        chapter_rel@,
                        chapter.title@,
                        chapter.id,
                        pre,
                        query@,
                    ));
                },
            }
        } else {
            assert(expected_hits(chapter_rel@, chapter.title@, chapter.id, next, query@) =~= expected_hits(
                chapter_rel@,
                chapter.title@,
                chapter.id,
                pre,
                query@,
            ));
        }
        proof {
            assert forall|j: int|
                0 <= j < next.len() && next[j].block_type != BlockType::SceneBreak implies snippet_in_bounds(#[trigger] next[j].content@, query@) by {
                if j < pre.len() {
                    assert(next[j] == pre[j]);
                }
            }
        }
        i = i + 1;
    }
    proof {
        assert(chapter.blocks@.take(i as int) =~= chapter.blocks@);
    }
    Ok(hits)
}

/// The relative paths of the chapters of a tree, in depth-first order;
/// folders are searched, the children of chapter nodes are not.
pub open spec fn chapter_paths_in(nodes: Seq<ChapterNodeView>) -> Seq<Seq<char>>
    decreases nodes, 0int,
{
    if nodes.len() == 0 {
        Seq::empty()
    } else {
        chapter_paths_in(nodes.drop_last()) + chapter_paths_of(nodes.last())
    }
}

/// The chapter paths of one node: the node itself for a chapter, those of
/// its children for a folder.
pub open spec fn chapter_paths_of(n: ChapterNodeView) -> Seq<Seq<char>>
    decreases n, 1int,
{
    if n.kind == ChapterNodeKind::Chapter {
        seq![n.rel_path]
    } else {
        chapter_paths_in(n.children)
    }
}

/// The relative paths of the chapters of a tree, in the order full-text
/// search visits them.
pub fn chapter_paths(nodes: &[ChapterTreeNode]) -> (r: Vec<String>)
    ensures
        r@.map_values(|s: String| s@) == chapter_paths_in(chapter_nodes_view(nodes@)),
    decreases nodes@,
{
    let mut out: Vec<String> = Vec::new();
    let mut i: usize = 0;
    while i < nodes.len()
        invariant
            i <= nodes@.len(),
            out@.map_values(|s: String| s@) == chapter_paths_in(chapter_nodes_view(nodes@.take(i as int))),
        decreases nodes.len() - i,
    {
        let n = &nodes[i];
        let ghost before = out@.map_values(|s: String| s@);
        let ghost prefix = chapter_nodes_view(nodes@.take(i + 1));
        proof {
            assert(nodes@.take(i + 1).drop_last() =~= nodes@.take(i as int));
            assert(prefix.drop_last() == chapter_nodes_view(nodes@.take(i as int)));
            assert(prefix.last() == chapter_node_view(nodes@[i as int]));
        }
        if n.is_chapter() {
            out.push(n.rel_path.clone());
            assert(out@.map_values(|s: String| s@) =~= before + seq![n.rel_path@]);
        } else {
            let kids = n.children.as_slice();
            assert(kids@ == n.children@);
            let sub = chapter_paths(kids);
            let mut k: usize = 0;
            while k < sub.len()
                invariant
                    k <= sub@.len(),
                    out@.len() == before.len() + k,
                    out@.map_values(|s: String| s@) == before + sub@.map_values(|s: String| s@).take(k as int),
                decreases sub.len() - k,
            {
                let ghost o = out@;
                out.push(sub[k].clone());
                assert(out@.map_values(|s: String| s@) =~= o.map_values(|s: String| s@).push(sub@[k as int]@));
                k = k + 1;
                assert(out@.map_values(|s: String| s@) =~= before + sub@.map_values(|s: String| s@).take(k as int));
            }
            assert(sub@.map_values(|s: String| s@).take(k as int) =~= sub@.map_values(|s: String| s@));
        }
        proof {
            assert(chapter_paths_in(prefix) == chapter_paths_in(prefix.drop_last()) + chapter_paths_of(prefix.last()));
        }
        i = i + 1;
    }
    assert(nodes@.take(i as int) =~= nodes@);
    out
}

} // verus!
