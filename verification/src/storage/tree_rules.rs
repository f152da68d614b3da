//! Rules shared by the chapter and screenplay trees: subtree heights, the
//! verdict on moving a node, the order and filtering of folder listings,
//! reordering among siblings, and the names of renamed or moved nodes.

use vstd::prelude::*;

use crate::storage::paths::{
    components, components_start_with, depth_below, depth_below_root, last_segment,
    last_segment_of, parent_rel, parent_rel_spec, path_components, rel_join, rel_join_spec,
    resolve_under, resolve_under_root, views_of,
};
use crate::storage::project_store::{
    classify_entries, has_dir_entry, has_json_entry, is_hidden, name_is_hidden, DirProbe,
    EntryInfo, RuleViolation,
};
use crate::text::{chars_end_with, chars_eq, chars_of, ends_with, has_suffix, push_str, string_of};

verus! {

/// Direction of a move among siblings.
#[derive(Debug, Clone, Copy, PartialEq, Eq, Structural)]
pub enum MoveDirection {
    Up,
    Down,
}

/// A file or folder with everything below it, as read from disk.
#[derive(Debug)]
pub struct DirTree {
    pub name: String,
    pub is_file: bool,
    pub children: Vec<DirTree>,
}

/// The height of a subtree: a file or an empty folder is one high, a folder
/// one more than its highest visible child.
pub open spec fn tree_height(t: DirTree) -> nat
    decreases t, 1int,
{
    if t.is_file {
        1
    } else {
        1 + max_height(t.children@)
    }
}

/// The greatest height among the visible trees of `s` (zero when there are
/// none).
pub open spec fn max_height(s: Seq<DirTree>) -> nat
    decreases s, 0int,
{
    if s.len() == 0 {
        0
    } else {
        let a = max_height(s.drop_last());
        let b = tree_height(s.last());
        if is_hidden(s.last().name@) || a >= b {
            a
        } else {
            b
        }
    }
}

proof fn lemma_max_height_bounds(s: Seq<DirTree>, i: int)
    requires
        0 <= i < s.len(),
        !is_hidden(s[i].name@),
    ensures
        tree_height(s[i]) <= max_height(s),
    decreases s.len(),
{
    if i < s.len() - 1 {
        lemma_max_height_bounds(s.drop_last(), i);
    }
}

proof fn lemma_max_height_prefix(s: Seq<DirTree>, i: int)
    requires
        0 <= i <= s.len(),
    ensures
        max_height(s.take(i)) <= max_height(s),
    decreases s.len() - i,
{
    if i < s.len() {
        lemma_max_height_prefix(s, i + 1);
        assert(s.take(i + 1).drop_last() =~= s.take(i));
    }
    assert(s.take(s.len() as int) =~= s);
}

/// The height of a subtree.
pub fn subtree_height(t: &DirTree) -> (r: u32)
    requires
        tree_height(*t) <= u32::MAX,
    ensures
        r == tree_height(*t),
    decreases t,
{
    if t.is_file {
        return 1;
    }
    let mut best: u32 = 0;
    let mut i: usize = 0;
    while i < t.children.len()
        invariant
            !t.is_file,
            i <= t.children@.len(),
            1 + max_height(t.children@) <= u32::MAX,
            best == max_height(t.children@.take(i as int)),
        decreases t.children.len() - i,
    {
        let c = &t.children[i];
        proof {
            assert(t.children@.take(i + 1).drop_last() =~= t.children@.take(i as int));
            assert(t.children@.take(i + 1).last() == t.children@[i as int]);
            lemma_max_height_prefix(t.children@, i + 1);
        }
        if !name_is_hidden(&c.name) {
            proof {
                lemma_max_height_bounds(t.children@, i as int);
            }
            let h = subtree_height(c);
            if h > best {
                best = h;
            }
        }
        i = i + 1;
    }
    assert(t.children@.take(i as int) =~= t.children@);
    best + 1
}

/// The verdict on moving the node at `src_rel` into the folder
/// `dest_rel`, both relative to the tree's `root`: the root cannot move;
/// both paths must resolve; a node cannot move into itself or its own
/// descendants; a move within the same folder (a reorder) is always
/// allowed; otherwise the moved subtree must fit under `max_depth`, and a
/// folder may not join files nor a file join folders in an existing target.
/// `src_tree` is the moved subtree as read from disk, `dest` what the
/// target folder holds.
pub open spec fn move_verdict(
    root: Seq<char>,
    src_rel: Seq<char>,
    dest_rel: Seq<char>,
    max_depth: u32,
    src_tree: Result<DirTree, std::io::ErrorKind>,
    dest: DirProbe,
) -> Result<(), RuleViolation> {
    if src_rel.len() == 0 {
        Err(RuleViolation::OutsideChaptersRoot)
    } else {
        match (resolve_under(root, src_rel), resolve_under(root, dest_rel)) {
            (Ok(src), Ok(dst)) => {
                let sc = components(src);
                let dc = components(dst);
                if sc.len() <= dc.len() && dc.take(sc.len() as int) == sc {
                    Err(RuleViolation::OutsideChaptersRoot)
                } else if sc.len() > 0 && sc.drop_last() == dc {
                    Ok(())
                } else {
                    match src_tree {
                        Err(k) => Err(RuleViolation::Io(k)),
                        Ok(t) => match depth_below(root, dst) {
                            None => Err(RuleViolation::OutsideChaptersRoot),
                            Some(d) => if d + tree_height(t) > max_depth {
                                Err(RuleViolation::MaxDepthExceeded {
                                    attempted: (d + tree_height(t)) as u32,
                                    max_depth,
                                })
                            } else {
                                match dest {
                                    DirProbe::Missing => Ok(()),
                                    DirProbe::Unreadable(k) => Err(RuleViolation::Io(k)),
                                    DirProbe::Entries(es) => if !t.is_file && has_json_entry(es@) {
                                        Err(RuleViolation::MixedChildren)
                                    } else if t.is_file && has_dir_entry(es@) {
                                        Err(RuleViolation::MixedChildren)
                                    } else {
                                        Ok(())
                                    },
                                }
                            },
                        },
                    }
                }
            },
            _ => Err(RuleViolation::OutsideChaptersRoot),
        }
    }
}

/// Whether the depth arithmetic of a move fits in `u32`.
pub open spec fn move_depth_fits(
    root: Seq<char>,
    dest_rel: Seq<char>,
    src_tree: Result<DirTree, std::io::ErrorKind>,
) -> bool {
    match src_tree {
        Ok(t) => match resolve_under(root, dest_rel) {
            Ok(dst) => components(dst).len() + tree_height(t) <= u32::MAX,
            Err(_) => true,
        },
        Err(_) => true,
    }
}

/// Whether the node at `src_rel` may move into the folder `dest_rel` of
/// the tree rooted at `root`.
pub fn check_move_under(
    root: &str,
    src_rel: &str,
    dest_parent_rel: &str,
    max_depth: u32,
    src_tree: &Result<DirTree, std::io::ErrorKind>,
    dest: &DirProbe,
) -> (r: Result<(), RuleViolation>)
    requires
        move_depth_fits(root@, dest_parent_rel@, *src_tree),
    ensures
        r == move_verdict(root@, src_rel@, dest_parent_rel@, max_depth, *src_tree, *dest),
{
    if chars_of(src_rel).len() == 0 {
        return Err(RuleViolation::OutsideChaptersRoot);
    }
    let src = match resolve_under_root(root, src_rel) {
        Ok(p) => p,
        Err(_) => return Err(RuleViolation::OutsideChaptersRoot),
    };
    let dst = match resolve_under_root(root, dest_parent_rel) {
        Ok(p) => p,
        Err(_) => return Err(RuleViolation::OutsideChaptersRoot),
    };
    let sc = path_components(&src);
    let dc = path_components(&dst);
    if components_start_with(&dc, &sc) {
        return Err(RuleViolation::OutsideChaptersRoot);
    }
    if sc.len() > 0 && sc.len() - 1 == dc.len() && components_start_with(&sc, &dc) {
        proof {
            assert(views_of(sc@).drop_last() =~= views_of(sc@).take(dc@.len() as int));
        }
        return Ok(());
    }
    proof {
        if sc@.len() > 0 && views_of(sc@).drop_last() == views_of(dc@) {
            assert(views_of(sc@).take(dc@.len() as int) =~= views_of(sc@).drop_last());
        }
    }
    let t = match src_tree {
        Err(k) => return Err(RuleViolation::Io(*k)),
        Ok(t) => t,
    };
    let depth = match depth_below_root(root, &dst) {
        None => return Err(RuleViolation::OutsideChaptersRoot),
        Some(d) => d,
    };
    proof {
        assert(components(dst@).len() == dc@.len());
    }
    let height = subtree_height(t);
    let attempted: u32 = (depth as u32) + height;
    if attempted > max_depth {
        return Err(RuleViolation::MaxDepthExceeded { attempted, max_depth });
    }
    match dest {
        DirProbe::Missing => Ok(()),
        DirProbe::Unreadable(k) => Err(RuleViolation::Io(*k)),
        DirProbe::Entries(es) => {
            let (has_dirs, has_files) = classify_entries(es);
            if !t.is_file {
                if has_files {
                    Err(RuleViolation::MixedChildren)
                } else {
                    Ok(())
                }
            } else if has_dirs {
                Err(RuleViolation::MixedChildren)
            } else {
                Ok(())
            }
        },
    }
}

/// Code-point order on names, character by character; a proper prefix
/// comes first (the order of `str` and of file names in UTF-8).
pub open spec fn name_lt(a: Seq<char>, b: Seq<char>) -> bool
    decreases a.len(),
{
    if a.len() == 0 {
        b.len() > 0
    } else if b.len() == 0 {
        false
    } else if a[0] != b[0] {
        (a[0] as u32) < (b[0] as u32)
    } else {
        name_lt(a.drop_first(), b.drop_first())
    }
}

/// Whether `a` comes strictly before `b` in name order.
pub fn chars_lt(a: &Vec<char>, b: &Vec<char>) -> (r: bool)
    ensures
        r == name_lt(a@, b@),
{
    let mut i: usize = 0;
    assert(a@.skip(0) =~= a@);
    assert(b@.skip(0) =~= b@);
    while i < a.len() && i < b.len() && a[i] == b[i]
        invariant
            i <= a@.len(),
            i <= b@.len(),
            name_lt(a@, b@) == name_lt(a@.skip(i as int), b@.skip(i as int)),
        decreases a.len() - i,
    {
        proof {
            assert(a@.skip(i as int).drop_first() =~= a@.skip(i + 1));
            assert(b@.skip(i as int).drop_first() =~= b@.skip(i + 1));
        }
        i = i + 1;
    }
    if i == a.len() {
        i < b.len()
    } else if i == b.len() {
        false
    } else {
        (a[i] as u32) < (b[i] as u32)
    }
}

/// Number of leading entries of `sorted` whose name does not come after
/// `name`.
pub open spec fn name_insert_position(sorted: Seq<EntryInfo>, name: Seq<char>) -> int
    decreases sorted.len(),
{
    if sorted.len() == 0 || name_lt(name, sorted[0].name@) {
        0
    } else {
        1 + name_insert_position(sorted.drop_first(), name)
    }
}

/// Stable insertion sort by name: each entry goes after the entries whose
/// names do not come after its own.
pub open spec fn sort_by_name(s: Seq<EntryInfo>) -> Seq<EntryInfo>
    decreases s.len(),
{
    if s.len() == 0 {
        Seq::empty()
    } else {
        let sorted = sort_by_name(s.drop_last());
        sorted.insert(name_insert_position(sorted, s.last().name@), s.last())
    }
}

proof fn lemma_name_insert_position_range(sorted: Seq<EntryInfo>, name: Seq<char>)
    ensures
        0 <= name_insert_position(sorted, name) <= sorted.len(),
    decreases sorted.len(),
{
    if sorted.len() > 0 && !name_lt(name, sorted[0].name@) {
        lemma_name_insert_position_range(sorted.drop_first(), name);
    }
}

proof fn lemma_sort_by_name_len(s: Seq<EntryInfo>)
    ensures
        sort_by_name(s).len() == s.len(),
    decreases s.len(),
{
    if s.len() > 0 {
        lemma_sort_by_name_len(s.drop_last());
        lemma_name_insert_position_range(sort_by_name(s.drop_last()), s.last().name@);
    }
}

/// Sorts directory entries by name.
pub fn sort_entries(list: Vec<EntryInfo>) -> (r: Vec<EntryInfo>)
    ensures
        r@ == sort_by_name(list@),
{
    let mut list = list;
    let ghost orig = list@;
    let total = list.len();
    assert(orig.len() == total);
    assert(orig.skip(0) =~= orig);
    let mut sorted: Vec<EntryInfo> = Vec::new();
    let mut taken: usize = 0;
    while list.len() > 0
        invariant
            taken + list@.len() == orig.len(),
            orig.len() <= usize::MAX,
            list@ == orig.skip(taken as int),
            sorted@ == sort_by_name(orig.take(taken as int)),
        decreases list.len(),
    {
        let item = list.remove(0);
        proof {
            assert(orig.take(taken + 1).drop_last() =~= orig.take(taken as int));
            assert(orig.take(taken + 1).last() == item);
            assert(list@ =~= orig.skip(taken + 1));
            lemma_sort_by_name_len(orig.take(taken as int));
        }
        let key = chars_of(&item.name);
        let mut p: usize = 0;
        assert(sorted@.skip(0) =~= sorted@);
        while p < sorted.len() && !chars_lt(&key, &chars_of(&sorted[p].name))
            invariant
                p <= sorted@.len(),
                key@ == item.name@,
                name_insert_position(sorted@, item.name@) == p + name_insert_position(sorted@.skip(p as int), item.name@),
            decreases sorted.len() - p,
        {
            proof {
                assert(sorted@.skip(p as int).drop_first() =~= sorted@.skip(p + 1));
                assert(sorted@.skip(p as int)[0] == sorted@[p as int]);
            }
            p = p + 1;
        }
        proof {
            if p < sorted@.len() {
                assert(sorted@.skip(p as int)[0] == sorted@[p as int]);
            }
            assert(name_insert_position(sorted@.skip(p as int), item.name@) == 0);
        }
        sorted.insert(p, item);
        taken = taken + 1;
    }
    assert(orig.take(orig.len() as int) =~= orig);
    sorted
}

/// `s` with every trailing `suffix` removed (`str::trim_end_matches`).
pub open spec fn trim_all_suffix(s: Seq<char>, suffix: Seq<char>) -> Seq<char>
    decreases s.len(),
{
    if suffix.len() > 0 && has_suffix(s, suffix) {
        trim_all_suffix(s.take(s.len() - suffix.len()), suffix)
    } else {
        s
    }
}

/// A file name without its `.json` endings.
pub fn file_stem(name: &str) -> (r: String)
    ensures
        r@ == trim_all_suffix(name@, ".json"@),
{
    proof {
        reveal_strlit(".json");
    }
    let mut v = chars_of(name);
    while chars_end_with(&v, ".json")
        invariant
            ".json"@.len() == 5,
            trim_all_suffix(name@, ".json"@) == trim_all_suffix(v@, ".json"@),
        decreases v.len(),
    {
        let n = v.len();
        let ghost before = v@;
        v.truncate(n - 5);
        assert(v@ =~= before.take(n - 5));
    }
    string_of(v.as_slice())
}

/// Whether a listed entry is a folder or a `.json` file.
#[derive(Debug, Clone, Copy, PartialEq, Eq, Structural)]
pub enum EntryKind {
    Directory,
    File,
}

/// An entry of a folder that belongs in the tree.
#[derive(Debug, Clone, PartialEq, Eq)]
pub struct ListingItem {
    /// The entry's file or folder name.
    pub name: String,
    /// Its path relative to the tree's root.
    pub rel_path: String,
    pub kind: EntryKind,
    /// The name shown in the tree: the folder name, or the file name
    /// without `.json`.
    pub node_name: String,
}

/// A listing item as plain values.
pub struct ListingView {
    pub name: Seq<char>,
    pub rel_path: Seq<char>,
    pub kind: EntryKind,
    pub node_name: Seq<char>,
}

/// The plain value of a listing item.
pub open spec fn item_view(i: ListingItem) -> ListingView {
    ListingView { name: i.name@, rel_path: i.rel_path@, kind: i.kind, node_name: i.node_name@ }
}

/// The plain values of listing items.
pub open spec fn items_view(s: Seq<ListingItem>) -> Seq<ListingView> {
    s.map_values(|i: ListingItem| item_view(i))
}

/// What an entry of the folder at `rel` becomes in the tree: hidden entries
/// and files other than `.json` are left out; folders keep their name;
/// `.json` files show their name without the extension.
pub open spec fn listing_item(rel: Seq<char>, e: EntryInfo) -> Option<ListingView> {
    if is_hidden(e.name@) {
        None
    } else if e.is_dir {
        Some(ListingView { name: e.name@, rel_path: rel_join_spec(rel, e.name@), kind: EntryKind::Directory, node_name: e.name@ })
    } else if e.is_file && has_suffix(e.name@, ".json"@) {
        Some(ListingView {
            name: e.name@,
            rel_path: rel_join_spec(rel, e.name@),
            kind: EntryKind::File,
            node_name: trim_all_suffix(e.name@, ".json"@),
        })
    } else {
        None
    }
}

/// The tree items of the entries `s` of the folder at `rel`, in order.
pub open spec fn listing(rel: Seq<char>, s: Seq<EntryInfo>) -> Seq<ListingView>
    decreases s.len(),
{
    if s.len() == 0 {
        Seq::empty()
    } else {
        match listing_item(rel, s.last()) {
            Some(x) => listing(rel, s.drop_last()).push(x),
            None => listing(rel, s.drop_last()),
        }
    }
}

/// The tree items of the folder at `rel` (relative to the tree's root), given
/// its entries: sorted by name, hidden entries and non-`.json` files left
/// out.
pub fn plan_listing(rel: &str, entries: Vec<EntryInfo>) -> (r: Vec<ListingItem>)
    ensures
        items_view(r@) == listing(rel@, sort_by_name(entries@)),
{
    let sorted = sort_entries(entries);
    let ghost all = sorted@;
    let mut out: Vec<ListingItem> = Vec::new();
    let mut i: usize = 0;
    while i < sorted.len()
        invariant
            i <= sorted@.len(),
            all == sorted@,
            items_view(out@) == listing(rel@, all.take(i as int)),
        decreases sorted.len() - i,
    {
        let e = &sorted[i];
        proof {
            assert(all.take(i + 1).drop_last() =~= all.take(i as int));
            assert(all.take(i + 1).last() == all[i as int]);
        }
        let ghost before = out@;
        if !name_is_hidden(&e.name) {
            if e.is_dir {
                out.push(ListingItem {
                    name: e.name.clone(),
                    rel_path: rel_join(rel, &e.name),
                    kind: EntryKind::Directory,
                    node_name: e.name.clone(),
                });
                assert(items_view(out@) =~= items_view(before).push(listing_item(rel@, all[i as int])->0));
            } else if e.is_file && ends_with(&e.name, ".json") {
                out.push(ListingItem {
                    name: e.name.clone(),
                    rel_path: rel_join(rel, &e.name),
                    kind: EntryKind::File,
                    node_name: file_stem(&e.name),
                });
                assert(items_view(out@) =~= items_view(before).push(listing_item(rel@, all[i as int])->0));
            }
        }
        i = i + 1;
    }
    assert(all.take(i as int) =~= all);
    out
}

/// The names of the items of a listing, in order.
pub open spec fn listing_names(s: Seq<ListingView>) -> Seq<Seq<char>> {
    s.map_values(|v: ListingView| v.name)
}

/// The names of the tree items among a folder's entries, sorted.
pub fn list_sibling_names(entries: Vec<EntryInfo>) -> (r: Vec<String>)
    ensures
        r@.map_values(|n: String| n@) == listing_names(listing(""@, sort_by_name(entries@))),
{
    let items = plan_listing("", entries);
    let mut out: Vec<String> = Vec::new();
    let mut i: usize = 0;
    while i < items.len()
        invariant
            i <= items@.len(),
            out@.len() == i,
            out@.map_values(|n: String| n@) == listing_names(items_view(items@)).take(i as int),
        decreases items.len() - i,
    {
        let ghost before = out@;
        out.push(items[i].name.clone());
        assert(out@[i as int]@ == items_view(items@)[i as int].name);
        assert(out@.map_values(|n: String| n@) =~= before.map_values(|n: String| n@).push(items_view(items@)[i as int].name));
        i = i + 1;
        assert(out@.map_values(|n: String| n@) =~= listing_names(items_view(items@)).take(i as int));
    }
    assert(listing_names(items_view(items@)).take(i as int) =~= listing_names(items_view(items@)));
    out
}

/// Why a tree operation was refused before touching the disk.
#[derive(Debug, Clone, Copy, PartialEq, Eq, Structural)]
pub enum TreeError {
    /// The root of the tree cannot be moved.
    RootNotMovable,
    /// The node is not among its parent's children.
    SiblingNotFound,
}

impl TreeError {
    pub open spec fn spec_message(self) -> &'static str {
        match self {
            TreeError::RootNotMovable => "cannot move the tree root",
            TreeError::SiblingNotFound => "sibling not found",
        }
    }

    /// A one-line description of the refusal.
    pub fn message(self) -> (r: &'static str)
        ensures
            r == self.spec_message(),
    {
        match self {
            TreeError::RootNotMovable => "cannot move the tree root",
            TreeError::SiblingNotFound => "sibling not found",
        }
    }
}

/// What moving a node among its siblings does.
#[derive(Debug, Clone, PartialEq, Eq)]
pub enum SiblingMove {
    /// The node is already first (up) or last (down): nothing moves, and
    /// the node keeps its path.
    Unchanged,
    /// The entries `from` and `to` trade names; the node's content ends up
    /// under the name `to`, at `new_rel`.
    Swap { from: String, to: String, new_rel: String },
}

/// The first index of `name` among `names`, if any.
pub open spec fn index_of_name(names: Seq<Seq<char>>, name: Seq<char>) -> Option<int> {
    if exists|i: int| 0 <= i < names.len() && names[i] == name {
        Some(choose|i: int| 0 <= i < names.len() && names[i] == name && forall|k: int| 0 <= k < i ==> names[k] != name)
    } else {
        None
    }
}

/// The plan for moving the node at `rel_path` one place up or down among
/// its sorted siblings `siblings`: the root cannot move; the node's name
/// (its last segment) must be among the siblings; at the edge nothing
/// moves; otherwise it trades names with its neighbour.
pub open spec fn sibling_move_plan(rel_path: Seq<char>, siblings: Seq<Seq<char>>, direction: MoveDirection) -> Result<
    Option<(Seq<char>, Seq<char>, Seq<char>)>,
    TreeError,
> {
    if rel_path.len() == 0 {
        Err(TreeError::RootNotMovable)
    } else {
        match index_of_name(siblings, last_segment(rel_path)) {
            None => Err(TreeError::SiblingNotFound),
            Some(idx) => {
                let other = match direction {
                    MoveDirection::Up => idx - 1,
                    MoveDirection::Down => idx + 1,
                };
                if other < 0 || other >= siblings.len() {
                    Ok(None)
                } else {
                    Ok(Some((siblings[idx], siblings[other], rel_join_spec(parent_rel_spec(rel_path), siblings[other]))))
                }
            },
        }
    }
}

/// Plans moving the node at `rel_path` one place up or down among its
/// sorted siblings.
pub fn plan_move_sibling(rel_path: &str, siblings: &Vec<String>, direction: MoveDirection) -> (r: Result<SiblingMove, TreeError>)
    ensures
        (r matches Err(e) ==> sibling_move_plan(rel_path@, siblings@.map_values(|n: String| n@), direction) == Err::<
            Option<(Seq<char>, Seq<char>, Seq<char>)>,
            TreeError,
        >(e)),
        (r matches Ok(SiblingMove::Unchanged) ==> sibling_move_plan(rel_path@, siblings@.map_values(|n: String| n@), direction)
            == Ok::<Option<(Seq<char>, Seq<char>, Seq<char>)>, TreeError>(None)),
        (r matches Ok(SiblingMove::Swap { from, to, new_rel }) ==> sibling_move_plan(
            rel_path@,
            siblings@.map_values(|n: String| n@),
            direction,
        ) == Ok::<Option<(Seq<char>, Seq<char>, Seq<char>)>, TreeError>(Some((from@, to@, new_rel@)))),
{
    let ghost names = siblings@.map_values(|n: String| n@);
    let rel = chars_of(rel_path);
    if rel.len() == 0 {
        return Err(TreeError::RootNotMovable);
    }
    let base = last_segment_of(&rel);
    let mut i: usize = 0;
    while i < siblings.len()
        invariant
            i <= siblings@.len(),
            names == siblings@.map_values(|n: String| n@),
            base@ == last_segment(rel_path@),
            forall|k: int| 0 <= k < i ==> names[k] != base@,
        ensures
            i <= siblings@.len(),
            i < siblings@.len() ==> names[i as int] == base@,
            forall|k: int| 0 <= k < i ==> names[k] != base@,
        decreases siblings.len() - i,
    {
        if chars_eq(&chars_of(&siblings[i]), &base) {
            break;
        }
        i = i + 1;
    }
    if i == siblings.len() {
        return Err(TreeError::SiblingNotFound);
    }
    proof {
        assert(names[i as int] == base@);
        let w = choose|x: int| 0 <= x < names.len() && names[x] == base@ && forall|k: int| 0 <= k < x ==> names[k] != base@;
        if w < i {
        } else if w > i {
        }
        assert(w == i);
    }
    let other: usize = match direction {
        MoveDirection::Up => {
            if i == 0 {
                return Ok(SiblingMove::Unchanged);
            }
            i - 1
        },
        MoveDirection::Down => {
            if i + 1 >= siblings.len() {
                return Ok(SiblingMove::Unchanged);
            }
            i + 1
        },
    };
    let parent = string_of(parent_rel(&rel).as_slice());
    let new_rel = rel_join(&parent, &siblings[other]);
    Ok(SiblingMove::Swap { from: siblings[i].clone(), to: siblings[other].clone(), new_rel })
}

/// The file name of a chapter or screenplay called `name`.
pub open spec fn json_file_name_spec(name: Seq<char>) -> Seq<char> {
    name + ".json"@
}

/// The file name of a chapter or screenplay called `name`: `name.json`.
pub fn json_file_name(name: &str) -> (r: String)
    ensures
        r@ == json_file_name_spec(name@),
{
    let mut v = chars_of(name);
    push_str(&mut v, ".json");
    string_of(v.as_slice())
}

/// The new last segment of a renamed node: the new name for a folder, the
/// new name with `.json` for a path ending in `.json`, else the new name.
pub open spec fn renamed_base_spec(rel_path: Seq<char>, new_name: Seq<char>, is_dir: bool) -> Seq<char> {
    if is_dir {
        new_name
    } else if has_suffix(rel_path, ".json"@) {
        json_file_name_spec(new_name)
    } else {
        new_name
    }
}

/// The new last segment of the node at `rel_path` renamed to `new_name`.
pub fn renamed_base(rel_path: &str, new_name: &str, is_dir: bool) -> (r: String)
    ensures
        r@ == renamed_base_spec(rel_path@, new_name@, is_dir),
{
    if is_dir {
        String::from_str(new_name)
    } else if ends_with(rel_path, ".json") {
        json_file_name(new_name)
    } else {
        String::from_str(new_name)
    }
}

/// The last segment of a moved node: the new name (with `.json` for a
/// file) when one is given, else its current name.
pub open spec fn moved_base_spec(src_rel: Seq<char>, new_name: Option<Seq<char>>, is_file: bool) -> Seq<char> {
    match new_name {
        Some(n) => if is_file {
            json_file_name_spec(n)
        } else {
            n
        },
        None => last_segment(src_rel),
    }
}

/// The last segment of the node at `src_rel` after a move.
pub fn moved_base(src_rel: &str, new_name: Option<&str>, is_file: bool) -> (r: String)
    ensures
        r@ == moved_base_spec(
            src_rel@,
            match new_name {
                Some(n) => Some(n@),
                None => None,
            },
            is_file,
        ),
{
    match new_name {
        Some(n) => if is_file {
            json_file_name(n)
        } else {
            String::from_str(n)
        },
        None => string_of(last_segment_of(&chars_of(src_rel)).as_slice()),
    }
}

} // verus!
