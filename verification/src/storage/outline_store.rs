//! Where outline entries live: `outline/<category>/<key>.json`, and which
//! files of a category folder are entries.

use vstd::prelude::*;

use crate::models::outline::OutlineCategory;
use crate::storage::path_validation::{check_name_chars, name_verdict, NameError};
use crate::storage::paths::{join_path, path_join};
use crate::storage::project_store::{is_hidden, EntryInfo};
use crate::storage::tree_rules::{sort_by_name, sort_entries};
use crate::text::{chars_of, ends_with, has_suffix, push_str, string_of};

verus! {

/// The file of the entry `key` in `category` under `project_dir`.
pub open spec fn outline_path_spec(project_dir: Seq<char>, category: OutlineCategory, key: Seq<char>) -> Seq<char> {
    path_join(path_join(path_join(project_dir, "outline"@), category.spec_label()@), key + ".json"@)
}

/// The file of the outline entry `key` in `category`; the key must be a
/// valid file name.
pub fn outline_entry_path(project_dir: &str, category: OutlineCategory, key: &str) -> (r: Result<String, NameError>)
    ensures
        name_verdict(key@) is Err ==> r == Err::<String, NameError>(name_verdict(key@)->Err_0),
        (name_verdict(key@) is Ok ==> (r matches Ok(p) && p@ == outline_path_spec(project_dir@, category, key@))),
{
    let k = chars_of(key);
    match check_name_chars(&k) {
        Err(e) => return Err(e),
        Ok(()) => {},
    }
    let outline = join_path(project_dir, "outline");
    let dir = join_path(&outline, category.label());
    let mut file = k;
    push_str(&mut file, ".json");
    Ok(join_path(&dir, &string_of(file.as_slice())))
}

/// The entry files among a category folder's entries, in name order:
/// visible `.json` files.
pub open spec fn outline_files_in(s: Seq<EntryInfo>) -> Seq<Seq<char>>
    decreases s.len(),
{
    if s.len() == 0 {
        Seq::empty()
    } else if !is_hidden(s.last().name@) && has_suffix(s.last().name@, ".json"@) && s.last().is_file {
        outline_files_in(s.drop_last()).push(s.last().name@)
    } else {
        outline_files_in(s.drop_last())
    }
}

/// The names of the entry files of a category folder, sorted by name.
pub fn outline_file_names(entries: Vec<EntryInfo>) -> (r: Vec<String>)
    ensures
        r@.map_values(|s: String| s@) == outline_files_in(sort_by_name(entries@)),
{
    let sorted = sort_entries(entries);
    let ghost all = sorted@;
    let mut out: Vec<String> = Vec::new();
    let mut i: usize = 0;
    while i < sorted.len()
        invariant
            i <= sorted@.len(),
            all == sorted@,
            out@.map_values(|s: String| s@) == outline_files_in(all.take(i as int)),
        decreases sorted.len() - i,
    {
        let e = &sorted[i];
        proof {
            assert(all.take(i + 1).drop_last() =~= all.take(i as int));
            assert(all.take(i + 1).last() == all[i as int]);
        }
        let ghost before = out@;
        let hidden = {
            let c = chars_of(&e.name);
            c.len() > 0 && c[0] == '.'
        };
        if !hidden && ends_with(&e.name, ".json") && e.is_file {
            out.push(e.name.clone());
            assert(out@.map_values(|s: String| s@) =~= before.map_values(|s: String| s@).push(e.name@));
        }
        i = i + 1;
    }
    assert(all.take(i as int) =~= all);
    out
}

} // verus!
