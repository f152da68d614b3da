//! The chapter tree under `chapters/`: its nodes and lookups, path
//! resolution and the rule for moving nodes. Reading and writing the disk
//! is left to the caller, which hands in what it found.

use vstd::prelude::*;

use crate::storage::path_validation::NameError;
use crate::storage::paths::{join_path, path_join, resolve_under, resolve_under_root};
use crate::storage::project_store::{DirProbe, RuleViolation};
use crate::storage::tree_rules::{check_move_under, move_depth_fits, move_verdict, DirTree};
use crate::text::str_eq;

verus! {

/// Whether a tree node is a folder or a chapter file.
#[derive(Debug, Clone, Copy, PartialEq, Eq, Structural)]
pub enum ChapterNodeKind {
    Directory,
    Chapter,
}

/// A node of the chapter tree.
#[derive(Debug, PartialEq, Eq)]
pub struct ChapterTreeNode {
    /// Path relative to `chapters/` (with `.json` for a chapter).
    pub rel_path: String,
    /// The folder name, or the file name without `.json`.
    pub name: String,
    pub kind: ChapterNodeKind,
    pub chapter_id: Option<u128>,
    pub title: Option<String>,
    pub children: Vec<ChapterTreeNode>,
}

/// What a tree node holds, as plain values.
pub struct ChapterNodeView {
    pub rel_path: Seq<char>,
    pub name: Seq<char>,
    pub kind: ChapterNodeKind,
    pub chapter_id: Option<u128>,
    pub title: Option<Seq<char>>,
    pub children: Seq<ChapterNodeView>,
}

/// The plain value of an optional text.
pub open spec fn opt_view(t: Option<String>) -> Option<Seq<char>> {
    match t {
        Some(s) => Some(s@),
        None => None,
    }
}

/// The plain value of a node and its descendants.
pub open spec fn node_view(n: ChapterTreeNode) -> ChapterNodeView
    decreases n, 1int,
{
    ChapterNodeView {
        rel_path: n.rel_path@,
        name: n.name@,
        kind: n.kind,
        chapter_id: n.chapter_id,
        title: opt_view(n.title),
        children: nodes_view(n.children@),
    }
}

/// The plain values of a list of nodes.
pub open spec fn nodes_view(s: Seq<ChapterTreeNode>) -> Seq<ChapterNodeView>
    decreases s, 0int,
{
    if s.len() == 0 {
        Seq::empty()
    } else {
        nodes_view(s.drop_last()).push(node_view(s.last()))
    }
}

impl View for ChapterTreeNode {
    type V = ChapterNodeView;

    open spec fn view(&self) -> ChapterNodeView {
        node_view(*self)
    }
}

impl Clone for ChapterTreeNode {
    /// A deep copy, equal in value to `self`.
    fn clone(&self) -> (r: Self)
        ensures
            r@ == self@,
    {
        copy_node(self)
    }
}

/// A deep copy of a node and its descendants.
pub fn copy_node(n: &ChapterTreeNode) -> (r: ChapterTreeNode)
    ensures
        node_view(r) == node_view(*n),
    decreases n,
{
    let mut children: Vec<ChapterTreeNode> = Vec::new();
    let mut i: usize = 0;
    while i < n.children.len()
        invariant
            i <= n.children@.len(),
            nodes_view(children@) == nodes_view(n.children@.take(i as int)),
        decreases n.children.len() - i,
    {
        let c = copy_node(&n.children[i]);
        let ghost before = children@;
        children.push(c);
        proof {
            assert(children@.drop_last() =~= before);
            assert(n.children@.take(i + 1).drop_last() =~= n.children@.take(i as int));
        }
        i = i + 1;
    }
    assert(n.children@.take(i as int) =~= n.children@);
    let title = match &n.title {
        Some(t) => Some(t.clone()),
        None => None,
    };
    let r = ChapterTreeNode {
        rel_path: n.rel_path.clone(),
        name: n.name.clone(),
        kind: n.kind,
        chapter_id: n.chapter_id,
        title,
        children,
    };
    r
}

impl ChapterTreeNode {
    /// Whether the node is a folder.
    pub fn is_directory(&self) -> (r: bool)
        ensures
            r == (self.kind == ChapterNodeKind::Directory),
    {
        match self.kind {
            ChapterNodeKind::Directory => true,
            ChapterNodeKind::Chapter => false,
        }
    }

    /// Whether the node is a chapter file.
    pub fn is_chapter(&self) -> (r: bool)
        ensures
            r == (self.kind == ChapterNodeKind::Chapter),
    {
        match self.kind {
            ChapterNodeKind::Directory => false,
            ChapterNodeKind::Chapter => true,
        }
    }
}

/// The root of the chapter tree inside a project directory.
pub open spec fn chapters_root(project_dir: Seq<char>) -> Seq<char> {
    path_join(project_dir, "chapters"@)
}

/// The `chapters` directory of a project.
pub fn chapters_dir(project_dir: &str) -> (r: String)
    ensures
        r@ == chapters_root(project_dir@),
{
    join_path(project_dir, "chapters")
}

/// The absolute path of `rel` inside the chapter tree; every segment of
/// `rel` must be a valid name, so the result never leaves the tree.
pub fn resolve_rel(project_dir: &str, rel: &str) -> (r: Result<String, NameError>)
    ensures
        r matches Ok(p) ==> resolve_under(chapters_root(project_dir@), rel@) == Ok::<Seq<char>, NameError>(p@),
        r matches Err(e) ==> resolve_under(chapters_root(project_dir@), rel@) == Err::<Seq<char>, NameError>(e),
{
    let root = chapters_dir(project_dir);
    resolve_under_root(&root, rel)
}

/// The first node, in depth-first order (a node before its children,
/// children before later siblings), that satisfies `hit`.
pub open spec fn first_in_nodes(nodes: Seq<ChapterTreeNode>, hit: spec_fn(ChapterTreeNode) -> bool) -> Option<ChapterTreeNode>
    decreases nodes, 0int,
{
    if nodes.len() == 0 {
        None
    } else {
        match first_in_node(nodes[0], hit) {
            Some(n) => Some(n),
            None => first_in_nodes(nodes.drop_first(), hit),
        }
    }
}

/// The node itself if it satisfies `hit`, else the first hit among its
/// descendants.
pub open spec fn first_in_node(node: ChapterTreeNode, hit: spec_fn(ChapterTreeNode) -> bool) -> Option<ChapterTreeNode>
    decreases node, 1int,
{
    if hit(node) {
        Some(node)
    } else {
        first_in_nodes(node.children@, hit)
    }
}

/// Nodes that belong to the chapter with id `id`.
pub open spec fn has_chapter_id(id: u128) -> spec_fn(ChapterTreeNode) -> bool {
    |n: ChapterTreeNode| n.chapter_id == Some(id)
}

/// Nodes at the relative path `rel`.
pub open spec fn has_rel_path(rel: Seq<char>) -> spec_fn(ChapterTreeNode) -> bool {
    |n: ChapterTreeNode| n.rel_path@ == rel
}

/// The first node (depth-first) that belongs to the chapter `id`.
pub fn find_node_by_chapter_id(nodes: &[ChapterTreeNode], id: u128) -> (r: Option<&ChapterTreeNode>)
    ensures
        r matches Some(n) ==> first_in_nodes(nodes@, has_chapter_id(id)) == Some(*n),
        r is None ==> first_in_nodes(nodes@, has_chapter_id(id)) is None,
    decreases nodes@,
{
    let ghost hit = has_chapter_id(id);
    let mut i: usize = 0;
    assert(nodes@.skip(0) =~= nodes@);
    while i < nodes.len()
        invariant
            i <= nodes@.len(),
            hit == has_chapter_id(id),
            first_in_nodes(nodes@, hit) == first_in_nodes(nodes@.skip(i as int), hit),
        decreases nodes.len() - i,
    {
        let n = &nodes[i];
        proof {
            let rest = nodes@.skip(i as int);
            assert(rest[0] == nodes@[i as int]);
            assert(rest.drop_first() =~= nodes@.skip(i + 1));
            assert(first_in_node(rest[0], hit) == if hit(rest[0]) {
                Some(rest[0])
            } else {
                first_in_nodes(rest[0].children@, hit)
            });
            assert(first_in_nodes(rest, hit) == match first_in_node(rest[0], hit) {
                Some(x) => Some(x),
                None => first_in_nodes(rest.drop_first(), hit),
            });
        }
        let is_hit = match n.chapter_id {
            Some(x) => x == id,
            None => false,
        };
        assert(is_hit == hit(*n));
        if is_hit {
            return Some(n);
        }
        let kids = n.children.as_slice();
        assert(kids@ == n.children@);
        match find_node_by_chapter_id(kids, id) {
            Some(found) => {
                return Some(found);
            },
            None => {},
        }
        i = i + 1;
    }
    assert(nodes@.skip(i as int) =~= Seq::<ChapterTreeNode>::empty());
    None
}

/// The first node (depth-first) whose relative path is `rel`.
pub fn find_node_by_rel<'a>(nodes: &'a [ChapterTreeNode], rel: &str) -> (r: Option<&'a ChapterTreeNode>)
    ensures
        r matches Some(n) ==> first_in_nodes(nodes@, has_rel_path(rel@)) == Some(*n),
        r is None ==> first_in_nodes(nodes@, has_rel_path(rel@)) is None,
    decreases nodes@,
{
    let ghost hit = has_rel_path(rel@);
    let mut i: usize = 0;
    assert(nodes@.skip(0) =~= nodes@);
    while i < nodes.len()
        invariant
            i <= nodes@.len(),
            hit == has_rel_path(rel@),
            first_in_nodes(nodes@, hit) == first_in_nodes(nodes@.skip(i as int), hit),
        decreases nodes.len() - i,
    {
        let n = &nodes[i];
        proof {
            let rest = nodes@.skip(i as int);
            assert(rest[0] == nodes@[i as int]);
            assert(rest.drop_first() =~= nodes@.skip(i + 1));
            assert(first_in_node(rest[0], hit) == if hit(rest[0]) {
                Some(rest[0])
            } else {
                first_in_nodes(rest[0].children@, hit)
            });
            assert(first_in_nodes(rest, hit) == match first_in_node(rest[0], hit) {
                Some(x) => Some(x),
                None => first_in_nodes(rest.drop_first(), hit),
            });
        }
        let is_hit = str_eq(n.rel_path.as_str(), rel);
        assert(is_hit == hit(*n));
        if is_hit {
            return Some(n);
        }
        let kids = n.children.as_slice();
        assert(kids@ == n.children@);
        match find_node_by_rel(kids, rel) {
            Some(found) => {
                return Some(found);
            },
            None => {},
        }
        i = i + 1;
    }
    assert(nodes@.skip(i as int) =~= Seq::<ChapterTreeNode>::empty());
    None
}

/// Whether the node at `src_rel` may move into the folder `dest_parent_rel`
/// of the chapter tree, given the moved subtree as read from disk and
/// what the target folder holds.
pub fn check_can_move(
    project_dir: &str,
    src_rel: &str,
    dest_parent_rel: &str,
    max_depth: u32,
    src_tree: &Result<DirTree, std::io::ErrorKind>,
    dest: &DirProbe,
) -> (r: Result<(), RuleViolation>)
    requires
        move_depth_fits(chapters_root(project_dir@), dest_parent_rel@, *src_tree),
    ensures
        r == move_verdict(chapters_root(project_dir@), src_rel@, dest_parent_rel@, max_depth, *src_tree, *dest),
{
    let root = chapters_dir(project_dir);
    check_move_under(&root, src_rel, dest_parent_rel, max_depth, src_tree, dest)
}

} // verus!
