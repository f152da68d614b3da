//! Paths written as `/`-separated text: joining, splitting into segments,
//! parents, and resolving a path relative to a tree root.

use vstd::prelude::*;

use crate::storage::path_validation::{check_name_chars, name_verdict, NameError};
use crate::text::{chars_eq, chars_of, has_prefix, push_chars, push_str, string_of};

verus! {

/// `base` joined with the relative name `name`: a slash is put in between
/// unless `base` is empty or already ends with one.
pub open spec fn path_join(base: Seq<char>, name: Seq<char>) -> Seq<char> {
    if base.len() == 0 {
        name
    } else if base.last() == '/' {
        base + name
    } else {
        base + seq!['/'] + name
    }
}

/// Joins `base` with the relative name `name` (`Path::join` with a relative
/// name).
pub fn join_path(base: &str, name: &str) -> (r: String)
    ensures
        r@ == path_join(base@, name@),
{
    let mut v = chars_of(base);
    if v.len() > 0 && v[v.len() - 1] != '/' {
        v.push('/');
    }
    push_str(&mut v, name);
    string_of(v.as_slice())
}

/// A relative path `parent/name`, or `name` at the root (empty parent).
pub open spec fn rel_join_spec(parent: Seq<char>, name: Seq<char>) -> Seq<char> {
    if parent.len() == 0 {
        name
    } else {
        parent + seq!['/'] + name
    }
}

/// Joins a relative parent path and a name.
pub fn rel_join(parent: &str, name: &str) -> (r: String)
    ensures
        r@ == rel_join_spec(parent@, name@),
{
    let mut v = chars_of(parent);
    if v.len() > 0 {
        v.push('/');
    }
    push_str(&mut v, name);
    string_of(v.as_slice())
}

/// First index at or after `from` holding `c`, or the length.
pub open spec fn first_char_from(s: Seq<char>, c: char, from: int) -> int
    decreases s.len() - from,
{
    if from < 0 || from >= s.len() {
        s.len() as int
    } else if s[from] == c {
        from
    } else {
        first_char_from(s, c, from + 1)
    }
}

proof fn lemma_first_char_from(s: Seq<char>, c: char, from: int)
    requires
        0 <= from <= s.len(),
    ensures
        from <= first_char_from(s, c, from) <= s.len(),
        first_char_from(s, c, from) < s.len() ==> s[first_char_from(s, c, from)] == c,
        forall|k: int| from <= k < first_char_from(s, c, from) ==> s[k] != c,
    decreases s.len() - from,
{
    if from < s.len() && s[from] != c {
        lemma_first_char_from(s, c, from + 1);
    }
}

/// The pieces of `s` from `from` on between slashes (`str::split('/')`).
pub open spec fn split_from(s: Seq<char>, from: int) -> Seq<Seq<char>>
    decreases s.len() + 1 - from,
{
    if from < 0 || from > s.len() {
        Seq::empty()
    } else {
        let j = first_char_from(s, '/', from);
        if j >= s.len() {
            seq![s.subrange(from, s.len() as int)]
        } else if j + 1 > from {
            seq![s.subrange(from, j)] + split_from(s, j + 1)
        } else {
            Seq::empty()
        }
    }
}

/// The pieces of `s` between slashes.
pub open spec fn segments(s: Seq<char>) -> Seq<Seq<char>> {
    split_from(s, 0)
}

/// The views of a list of character vectors.
pub open spec fn views_of(v: Seq<Vec<char>>) -> Seq<Seq<char>> {
    v.map_values(|x: Vec<char>| x@)
}

/// Splits `s` at every slash.
pub fn split_segments(s: &Vec<char>) -> (r: Vec<Vec<char>>)
    ensures
        views_of(r@) == segments(s@),
{
    let mut out: Vec<Vec<char>> = Vec::new();
    let mut pos: usize = 0;
    loop
        invariant
            pos <= s@.len(),
            views_of(out@) + split_from(s@, pos as int) == segments(s@),
        decreases s@.len() + 1 - pos,
    {
        proof {
            lemma_first_char_from(s@, '/', pos as int);
        }
        let mut j: usize = pos;
        while j < s.len() && s[j] != '/'
            invariant
                pos <= j <= s@.len(),
                first_char_from(s@, '/', pos as int) == first_char_from(s@, '/', j as int),
            decreases s@.len() - j,
        {
            j = j + 1;
        }
        let mut seg: Vec<char> = Vec::new();
        let mut k: usize = pos;
        while k < j
            invariant
                pos <= k <= j <= s@.len(),
                seg@ == s@.subrange(pos as int, k as int),
            decreases j - k,
        {
            seg.push(s[k]);
            k = k + 1;
            assert(seg@ =~= s@.subrange(pos as int, k as int));
        }
        let ghost before = views_of(out@);
        out.push(seg);
        proof {
            assert(views_of(out@) =~= before.push(s@.subrange(pos as int, j as int)));
        }
        if j >= s.len() {
            proof {
                assert(views_of(out@) =~= segments(s@));
            }
            return out;
        }
        proof {
            assert(views_of(out@) + split_from(s@, j + 1) =~= before + split_from(s@, pos as int));
        }
        pos = j + 1;
    }
}

/// The first verdict that refuses one of the segments, if any.
pub open spec fn first_bad_segment(segs: Seq<Seq<char>>) -> Option<NameError>
    decreases segs.len(),
{
    if segs.len() == 0 {
        None
    } else {
        match name_verdict(segs[0]) {
            Err(e) => Some(e),
            Ok(_) => first_bad_segment(segs.drop_first()),
        }
    }
}

/// `base` joined with every segment in turn.
pub open spec fn join_all(base: Seq<char>, segs: Seq<Seq<char>>) -> Seq<char>
    decreases segs.len(),
{
    if segs.len() == 0 {
        base
    } else {
        join_all(path_join(base, segs[0]), segs.drop_first())
    }
}

/// The absolute form of `rel` under `root`: the root itself for an empty
/// path; otherwise every segment must be a valid name, and the segments are
/// joined onto the root.
pub open spec fn resolve_under(root: Seq<char>, rel: Seq<char>) -> Result<Seq<char>, NameError> {
    if rel.len() == 0 {
        Ok(root)
    } else {
        match first_bad_segment(segments(rel)) {
            Some(e) => Err(e),
            None => Ok(join_all(root, segments(rel))),
        }
    }
}

/// Resolves the relative path `rel` under `root` (refusing any segment that
/// is not a valid name, so nothing escapes the root).
pub fn resolve_under_root(root: &str, rel: &str) -> (r: Result<String, NameError>)
    ensures
        r matches Ok(p) ==> resolve_under(root@, rel@) == Ok::<Seq<char>, NameError>(p@),
        r matches Err(e) ==> resolve_under(root@, rel@) == Err::<Seq<char>, NameError>(e),
{
    let rel_chars = chars_of(rel);
    if rel_chars.len() == 0 {
        return Ok(string_of(chars_of(root).as_slice()));
    }
    let segs = split_segments(&rel_chars);
    let ghost all = views_of(segs@);
    assert(all.skip(0) =~= all);
    let mut i: usize = 0;
    while i < segs.len()
        invariant
            i <= segs@.len(),
            rel@.len() > 0,
            all == views_of(segs@),
            all == segments(rel@),
            first_bad_segment(all) == first_bad_segment(all.skip(i as int)),
        decreases segs.len() - i,
    {
        proof {
            assert(all.skip(i as int).drop_first() =~= all.skip(i + 1));
            assert(all.skip(i as int)[0] == segs@[i as int]@);
        }
        match check_name_chars(&segs[i]) {
            Err(e) => {
                return Err(e);
            },
            Ok(()) => {},
        }
        i = i + 1;
    }
    proof {
        assert(all.skip(segs@.len() as int) =~= Seq::<Seq<char>>::empty());
    }
    let mut path = chars_of(root);
    assert(all.skip(0) =~= all);
    let mut k: usize = 0;
    while k < segs.len()
        invariant
            k <= segs@.len(),
            all == views_of(segs@),
            join_all(root@, all) == join_all(path@, all.skip(k as int)),
        decreases segs.len() - k,
    {
        proof {
            assert(all.skip(k as int).drop_first() =~= all.skip(k + 1));
            assert(all.skip(k as int)[0] == segs@[k as int]@);
        }
        let ghost old_path = path@;
        if path.len() > 0 && path[path.len() - 1] != '/' {
            path.push('/');
        }
        push_chars(&mut path, &segs[k]);
        assert(path@ =~= path_join(old_path, segs@[k as int]@));
        k = k + 1;
    }
    proof {
        assert(all.skip(segs@.len() as int) =~= Seq::<Seq<char>>::empty());
    }
    Ok(string_of(path.as_slice()))
}

/// Index of the last slash of `s`, if any.
pub open spec fn last_slash(s: Seq<char>) -> Option<int> {
    if exists|i: int| 0 <= i < s.len() && s[i] == '/' {
        Some(choose|i: int| 0 <= i < s.len() && s[i] == '/' && forall|k: int| i < k < s.len() ==> s[k] != '/')
    } else {
        None
    }
}

/// The parent of a relative path: everything before its last slash, or the
/// root (empty) when it has none.
pub open spec fn parent_rel_spec(rel: Seq<char>) -> Seq<char> {
    match last_slash(rel) {
        Some(i) => rel.take(i),
        None => Seq::empty(),
    }
}

/// The parent of a relative path.
pub fn parent_rel(rel: &Vec<char>) -> (r: Vec<char>)
    ensures
        r@ == parent_rel_spec(rel@),
{
    let mut i: usize = rel.len();
    while i > 0 && rel[i - 1] != '/'
        invariant
            i <= rel@.len(),
            forall|k: int| i <= k < rel@.len() ==> rel@[k] != '/',
        decreases i,
    {
        i = i - 1;
    }
    let mut r: Vec<char> = Vec::new();
    if i == 0 {
        assert(!(exists|x: int| 0 <= x < rel@.len() && rel@[x] == '/'));
        return r;
    }
    let cut = i - 1;
    proof {
        let w = choose|x: int| 0 <= x < rel@.len() && rel@[x] == '/' && forall|k: int| x < k < rel@.len() ==> rel@[k] != '/';
        assert(rel@[cut as int] == '/');
        if w < cut {
        } else if w > cut {
        }
        assert(w == cut);
    }
    let mut k: usize = 0;
    while k < cut
        invariant
            k <= cut < rel@.len(),
            r@ == rel@.take(k as int),
        decreases cut - k,
    {
        r.push(rel[k]);
        k = k + 1;
        assert(r@ =~= rel@.take(k as int));
    }
    r
}

/// The last segment of a relative path: everything after its last slash,
/// or the whole path when it has none (`rsplit('/').next()`).
pub open spec fn last_segment(rel: Seq<char>) -> Seq<char> {
    match last_slash(rel) {
        Some(i) => rel.skip(i + 1),
        None => rel,
    }
}

/// The last segment of a relative path.
pub fn last_segment_of(rel: &Vec<char>) -> (r: Vec<char>)
    ensures
        r@ == last_segment(rel@),
{
    let mut i: usize = rel.len();
    while i > 0 && rel[i - 1] != '/'
        invariant
            i <= rel@.len(),
            forall|k: int| i <= k < rel@.len() ==> rel@[k] != '/',
        decreases i,
    {
        i = i - 1;
    }
    proof {
        if i == 0 {
            assert(!(exists|x: int| 0 <= x < rel@.len() && rel@[x] == '/'));
        } else {
            let cut = i - 1;
            let w = choose|x: int| 0 <= x < rel@.len() && rel@[x] == '/' && forall|k: int| x < k < rel@.len() ==> rel@[k] != '/';
            assert(rel@[cut as int] == '/');
            if w < cut {
            } else if w > cut {
            }
            assert(w == cut);
        }
    }
    let mut r: Vec<char> = Vec::new();
    let mut k: usize = i;
    while k < rel.len()
        invariant
            i <= k <= rel@.len(),
            r@ == rel@.subrange(i as int, k as int),
        decreases rel.len() - k,
    {
        r.push(rel[k]);
        k = k + 1;
        assert(r@ =~= rel@.subrange(i as int, k as int));
    }
    assert(rel@.subrange(i as int, rel@.len() as int) =~= rel@.skip(i as int));
    r
}

/// The non-empty pieces among `segs`, in order.
pub open spec fn non_empty(segs: Seq<Seq<char>>) -> Seq<Seq<char>>
    decreases segs.len(),
{
    if segs.len() == 0 {
        Seq::empty()
    } else if segs.last().len() > 0 {
        non_empty(segs.drop_last()).push(segs.last())
    } else {
        non_empty(segs.drop_last())
    }
}

/// The components of a path: its non-empty pieces between slashes, so that
/// doubled and trailing slashes do not count.
pub open spec fn components(s: Seq<char>) -> Seq<Seq<char>> {
    non_empty(segments(s))
}

/// Splits a path into its components.
pub fn path_components(s: &str) -> (r: Vec<Vec<char>>)
    ensures
        views_of(r@) == components(s@),
{
    let chars = chars_of(s);
    let segs = split_segments(&chars);
    let ghost all = views_of(segs@);
    let mut out: Vec<Vec<char>> = Vec::new();
    let mut i: usize = 0;
    while i < segs.len()
        invariant
            i <= segs@.len(),
            all == views_of(segs@),
            all == segments(s@),
            views_of(out@) == non_empty(all.take(i as int)),
        decreases segs.len() - i,
    {
        proof {
            assert(all.take(i + 1).drop_last() =~= all.take(i as int));
            assert(all.take(i + 1).last() == segs@[i as int]@);
        }
        if segs[i].len() > 0 {
            let seg = segs[i].clone();
            out.push(seg);
            assert(views_of(out@) =~= non_empty(all.take(i as int)).push(segs@[i as int]@));
        }
        i = i + 1;
    }
    assert(all.take(segs@.len() as int) =~= all);
    out
}

/// How many components `dir` has below `root`, when the components of
/// `root` begin those of `dir` (`Path::strip_prefix`, counted).
pub open spec fn depth_below(root: Seq<char>, dir: Seq<char>) -> Option<nat> {
    let rc = components(root);
    let dc = components(dir);
    if rc.len() <= dc.len() && dc.take(rc.len() as int) == rc {
        Some((dc.len() - rc.len()) as nat)
    } else {
        None
    }
}

/// Whether the components `prefix` begin the components `whole`.
pub fn components_start_with(whole: &Vec<Vec<char>>, prefix: &Vec<Vec<char>>) -> (r: bool)
    ensures
        r == (prefix@.len() <= whole@.len() && views_of(whole@).take(prefix@.len() as int) == views_of(prefix@)),
{
    if prefix.len() > whole.len() {
        return false;
    }
    let mut i: usize = 0;
    while i < prefix.len()
        invariant
            i <= prefix@.len() <= whole@.len(),
            views_of(whole@).take(i as int) == views_of(prefix@).take(i as int),
        decreases prefix.len() - i,
    {
        if !chars_eq(&whole[i], &prefix[i]) {
            assert(views_of(whole@).take(prefix@.len() as int)[i as int] != views_of(prefix@)[i as int]);
            return false;
        }
        assert(views_of(whole@).take(i + 1) =~= views_of(prefix@).take(i + 1)) by {
            assert(views_of(whole@).take(i + 1) =~= views_of(whole@).take(i as int).push(whole@[i as int]@));
            assert(views_of(prefix@).take(i + 1) =~= views_of(prefix@).take(i as int).push(prefix@[i as int]@));
        }
        i = i + 1;
    }
    assert(views_of(prefix@).take(prefix@.len() as int) =~= views_of(prefix@));
    true
}

/// The number of components of `dir` below `root`, or `None` when `dir` is
/// not under `root`.
pub fn depth_below_root(root: &str, dir: &str) -> (r: Option<usize>)
    ensures
        r matches Some(n) ==> depth_below(root@, dir@) == Some(n as nat),
        r is None ==> depth_below(root@, dir@) is None,
{
    let rc = path_components(root);
    let dc = path_components(dir);
    if components_start_with(&dc, &rc) {
        Some(dc.len() - rc.len())
    } else {
        None
    }
}

/// Joining segments onto a base keeps the base as a prefix.
pub proof fn lemma_join_all_keeps_base(base: Seq<char>, segs: Seq<Seq<char>>)
    ensures
        has_prefix(join_all(base, segs), base),
    decreases segs.len(),
{
    if segs.len() == 0 {
        assert(base.take(base.len() as int) =~= base);
    } else {
        let next = path_join(base, segs[0]);
        assert(has_prefix(next, base)) by {
            if base.len() == 0 {
                assert(next.take(0) =~= base);
            } else if base.last() == '/' {
                assert((base + segs[0]).take(base.len() as int) =~= base);
            } else {
                assert((base + seq!['/'] + segs[0]).take(base.len() as int) =~= base);
            }
        }
        lemma_join_all_keeps_base(next, segs.drop_first());
        let r = join_all(next, segs.drop_first());
        assert(r.take(base.len() as int) =~= next.take(next.len() as int).take(base.len() as int));
        assert(r.take(base.len() as int) =~= base) by {
            assert(r.take(next.len() as int) =~= next);
            assert(next.take(base.len() as int) =~= base);
            assert forall|k: int| 0 <= k < base.len() implies r.take(base.len() as int)[k] == base[k] by {
                assert(r[k] == r.take(next.len() as int)[k]);
                assert(next[k] == next.take(base.len() as int)[k]);
            }
        }
    }
}

/// A path resolved under a root always begins with the root: no relative
/// path leads out of it.
pub proof fn lemma_resolve_stays_under_root(root: Seq<char>, rel: Seq<char>)
    ensures
        resolve_under(root, rel) matches Ok(p) ==> has_prefix(p, root),
{
    if rel.len() > 0 {
        lemma_join_all_keeps_base(root, segments(rel));
    } else {
        assert(root.take(root.len() as int) =~= root);
    }
}

} // verus!
