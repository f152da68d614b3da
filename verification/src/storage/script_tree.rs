//! The screenplay tree under `scripts/`: its nodes and lookups, path
//! resolution and the rule for moving nodes. Reading and writing the disk
//! is left to the caller, which hands in what it found.

use vstd::prelude::*;

use crate::storage::path_validation::NameError;
use crate::storage::paths::{join_path, path_join, resolve_under, resolve_under_root};
use crate::storage::project_store::{DirProbe, RuleViolation};
use crate::storage::tree_rules::{check_move_under, move_depth_fits, move_verdict, DirTree};
use crate::text::str_eq;

verus! {

/// Whether a tree node is a folder or a screenplay file.
#[derive(Debug, Clone, Copy, PartialEq, Eq, Structural)]
pub enum ScriptNodeKind {
    Directory,
    Script,
}

/// A node of the screenplay tree.
#[derive(Debug, PartialEq, Eq)]
pub struct ScriptTreeNode {
    /// Path relative to `scripts/` (with `.json` for a screenplay).
    pub rel_path: String,
    /// The folder name, or the file name without `.json`.
    pub name: String,
    pub kind: ScriptNodeKind,
    pub script_id: Option<u128>,
    pub title: Option<String>,
    pub children: Vec<ScriptTreeNode>,
}

/// What a tree node holds, as plain values.
pub struct ScriptNodeView {
    pub rel_path: Seq<char>,
    pub name: Seq<char>,
    pub kind: ScriptNodeKind,
    pub script_id: Option<u128>,
    pub title: Option<Seq<char>>,
    pub children: Seq<ScriptNodeView>,
}

/// The plain value of an optional text.
pub open spec fn opt_view(t: Option<String>) -> Option<Seq<char>> {
    match t {
        Some(s) => Some(s@),
        None => None,
    }
}

/// The plain value of a node and its descendants.
pub open spec fn node_view(n: ScriptTreeNode) -> ScriptNodeView
    decreases n, 1int,
{
    ScriptNodeView {
        rel_path: n.rel_path@,
        name: n.name@,
        kind: n.kind,
        script_id: n.script_id,
        title: opt_view(n.title),
        children: nodes_view(n.children@),
    }
}

/// The plain values of a list of nodes.
pub open spec fn nodes_view(s: Seq<ScriptTreeNode>) -> Seq<ScriptNodeView>
    decreases s, 0int,
{
    if s.len() == 0 {
        Seq::empty()
    } else {
        nodes_view(s.drop_last()).push(node_view(s.last()))
    }
}

impl View for ScriptTreeNode {
    type V = ScriptNodeView;

    open spec fn view(&self) -> ScriptNodeView {
        node_view(*self)
    }
}

impl Clone for ScriptTreeNode {
    /// A deep copy, equal in value to `self`.
    fn clone(&self) -> (r: Self)
        ensures
            r@ == self@,
    {
        copy_node(self)
    }
}

/// A deep copy of a node and its descendants.
pub fn copy_node(n: &ScriptTreeNode) -> (r: ScriptTreeNode)
    ensures
        node_view(r) == node_view(*n),
    decreases n,
{
    let mut children: Vec<ScriptTreeNode> = Vec::new();
    let mut i: usize = 0;
    while i < n.children.len()
        invariant
            i <= n.children@.len(),
            nodes_view(children@) == nodes_view(n.children@.take(i as int)),
        decreases n.children.len() - i,
    {
        let c = copy_node(&n.children[i]);
        let ghost before = children@;
        children.push(c);
        proof {
            assert(children@.drop_last() =~= before);
            assert(n.children@.take(i + 1).drop_last() =~= n.children@.take(i as int));
        }
        i = i + 1;
    }
    assert(n.children@.take(i as int) =~= n.children@);
    let title = match &n.title {
        Some(t) => Some(t.clone()),
        None => None,
    };
    let r = ScriptTreeNode {
        rel_path: n.rel_path.clone(),
        name: n.name.clone(),
        kind: n.kind,
        script_id: n.script_id,
        title,
        children,
    };
    r
}

impl ScriptTreeNode {
    /// Whether the node is a folder.
    pub fn is_directory(&self) -> (r: bool)
        ensures
            r == (self.kind == ScriptNodeKind::Directory),
    {
        match self.kind {
            ScriptNodeKind::Directory => true,
            ScriptNodeKind::Script => false,
        }
    }

    /// Whether the node is a screenplay file.
    pub fn is_script(&self) -> (r: bool)
        ensures
            r == (self.kind == ScriptNodeKind::Script),
    {
        match self.kind {
            ScriptNodeKind::Directory => false,
            ScriptNodeKind::Script => true,
        }
    }
}

/// The root of the screenplay tree inside a project directory.
pub open spec fn scripts_root(project_dir: Seq<char>) -> Seq<char> {
    path_join(project_dir, "scripts"@)
}

/// The `scripts` directory of a project.
pub fn scripts_dir(project_dir: &str) -> (r: String)
    ensures
        r@ == scripts_root(project_dir@),
{
    join_path(project_dir, "scripts")
}

/// The absolute path of `rel` inside the screenplay tree; every segment of
/// `rel` must be a valid name, so the result never leaves the tree.
pub fn resolve_rel(project_dir: &str, rel: &str) -> (r: Result<String, NameError>)
    ensures
        r matches Ok(p) ==> resolve_under(scripts_root(project_dir@), rel@) == Ok::<Seq<char>, NameError>(p@),
        r matches Err(e) ==> resolve_under(scripts_root(project_dir@), rel@) == Err::<Seq<char>, NameError>(e),
{
    let root = scripts_dir(project_dir);
    resolve_under_root(&root, rel)
}

/// The first node, in depth-first order (a node before its children,
/// children before later siblings), that satisfies `hit`.
pub open spec fn first_in_nodes(nodes: Seq<ScriptTreeNode>, hit: spec_fn(ScriptTreeNode) -> bool) -> Option<ScriptTreeNode>
    decreases nodes, 0int,
{
    if nodes.len() == 0 {
        None
    } else {
        match first_in_node(nodes[0], hit) {
            Some(n) => Some(n),
            None => first_in_nodes(nodes.drop_first(), hit),
        }
    }
}

/// The node itself if it satisfies `hit`, else the first hit among its
/// descendants.
pub open spec fn first_in_node(node: ScriptTreeNode, hit: spec_fn(ScriptTreeNode) -> bool) -> Option<ScriptTreeNode>
    decreases node, 1int,
{
    if hit(node) {
        Some(node)
    } else {
        first_in_nodes(node.children@, hit)
    }
}

/// Nodes that belong to the screenplay with id `id`.
pub open spec fn has_script_id(id: u128) -> spec_fn(ScriptTreeNode) -> bool {
    |n: ScriptTreeNode| n.script_id == Some(id)
}

/// Nodes at the relative path `rel`.
pub open spec fn has_rel_path(rel: Seq<char>) -> spec_fn(ScriptTreeNode) -> bool {
    |n: ScriptTreeNode| n.rel_path@ == rel
}

/// The first node (depth-first) that belongs to the screenplay `id`.
pub fn find_node_by_script_id(nodes: &[ScriptTreeNode], id: u128) -> (r: Option<&ScriptTreeNode>)
    ensures
        r matches Some(n) ==> first_in_nodes(nodes@, has_script_id(id)) == Some(*n),
        r is None ==> first_in_nodes(nodes@, has_script_id(id)) is None,
    decreases nodes@,
{
    let ghost hit = has_script_id(id);
    let mut i: usize = 0;
    assert(nodes@.skip(0) =~= nodes@);
    while i < nodes.len()
        invariant
            i <= nodes@.len(),
            hit == has_script_id(id),
            first_in_nodes(nodes@, hit) == first_in_nodes(nodes@.skip(i as int), hit),
        decreases nodes.len() - i,
    {
        let n = &nodes[i];
        proof {
            let rest = nodes@.skip(i as int);
            assert(rest[0] == nodes@[i as int]);
            assert(rest.drop_first() =~= nodes@.skip(i + 1));
            assert(first_in_node(rest[0], hit) == if hit(rest[0]) {
                Some(rest[0])
            } else {
                first_in_nodes(rest[0].children@, hit)
            });
            assert(first_in_nodes(rest, hit) == match first_in_node(rest[0], hit) {
                Some(x) => Some(x),
                None => first_in_nodes(rest.drop_first(), hit),
            });
        }
        let is_hit = match n.script_id {
            Some(x) => x == id,
            None => false,
        };
        assert(is_hit == hit(*n));
        if is_hit {
            return Some(n);
        }
        let kids = n.children.as_slice();
        assert(kids@ == n.children@);
        match find_node_by_script_id(kids, id) {
            Some(found) => {
                return Some(found);
            },
            None => {},
        }
        i = i + 1;
    }
    assert(nodes@.skip(i as int) =~= Seq::<ScriptTreeNode>::empty());
    None
}

/// The first node (depth-first) whose relative path is `rel`.
pub fn find_node_by_rel<'a>(nodes: &'a [ScriptTreeNode], rel: &str) -> (r: Option<&'a ScriptTreeNode>)
    ensures
        r matches Some(n) ==> first_in_nodes(nodes@, has_rel_path(rel@)) == Some(*n),
        r is None ==> first_in_nodes(nodes@, has_rel_path(rel@)) is None,
    decreases nodes@,
{
    let ghost hit = has_rel_path(rel@);
    let mut i: usize = 0;
    assert(nodes@.skip(0) =~= nodes@);
    while i < nodes.len()
        invariant
            i <= nodes@.len(),
            hit == has_rel_path(rel@),
            first_in_nodes(nodes@, hit) == first_in_nodes(nodes@.skip(i as int), hit),
        decreases nodes.len() - i,
    {
        let n = &nodes[i];
        proof {
            let rest = nodes@.skip(i as int);
            assert(rest[0] == nodes@[i as int]);
            assert(rest.drop_first() =~= nodes@.skip(i + 1));
            assert(first_in_node(rest[0], hit) == if hit(rest[0]) {
                Some(rest[0])
            } else {
                first_in_nodes(rest[0].children@, hit)
            });
            assert(first_in_nodes(rest, hit) == match first_in_node(rest[0], hit) {
                Some(x) => Some(x),
                None => first_in_nodes(rest.drop_first(), hit),
            });
        }
        let is_hit = str_eq(n.rel_path.as_str(), rel);
        assert(is_hit == hit(*n));
        if is_hit {
            return Some(n);
        }
        let kids = n.children.as_slice();
        assert(kids@ == n.children@);
        match find_node_by_rel(kids, rel) {
            Some(found) => {
                return Some(found);
            },
            None => {},
        }
        i = i + 1;
    }
    assert(nodes@.skip(i as int) =~= Seq::<ScriptTreeNode>::empty());
    None
}

/// Whether the node at `src_rel` may move into the folder `dest_parent_rel`
/// of the screenplay tree, given the moved subtree as read from disk and
/// what the target folder holds.
pub fn check_can_move(
    project_dir: &str,
    src_rel: &str,
    dest_parent_rel: &str,
    max_depth: u32,
    src_tree: &Result<DirTree, std::io::ErrorKind>,
    dest: &DirProbe,
) -> (r: Result<(), RuleViolation>)
    requires
        move_depth_fits(scripts_root(project_dir@), dest_parent_rel@, *src_tree),
    ensures
        r == move_verdict(scripts_root(project_dir@), src_rel@, dest_parent_rel@, max_depth, *src_tree, *dest),
{
    let root = scripts_dir(project_dir);
    check_move_under(&root, src_rel, dest_parent_rel, max_depth, src_tree, dest)
}

} // verus!
