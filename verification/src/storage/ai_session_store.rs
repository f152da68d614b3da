//! Where the assistant's sessions of a project are stored:
//! `.ai/sessions/<id>.json` and the active index `.ai/active.json`.

use vstd::prelude::*;

use crate::ids::{id_text, id_text_of};
use crate::storage::paths::{join_path, path_join};
use crate::text::{chars_of, push_str, string_of};

verus! {

/// The session folder of a project.
pub open spec fn ai_sessions_dir_spec(project_dir: Seq<char>) -> Seq<char> {
    path_join(path_join(project_dir, ".ai"@), "sessions"@)
}

/// The session folder of a project: `.ai/sessions`.
pub fn ai_sessions_dir(project_dir: &str) -> (r: String)
    ensures
        r@ == ai_sessions_dir_spec(project_dir@),
{
    let meta = join_path(project_dir, ".ai");
    join_path(&meta, "sessions")
}

/// The file of the session `id`: `<id>.json` in the session folder.
pub fn session_path(project_dir: &str, id: u128) -> (r: String)
    ensures
        r@ == path_join(ai_sessions_dir_spec(project_dir@), id_text_of(id) + ".json"@),
{
    let dir = ai_sessions_dir(project_dir);
    let mut file = chars_of(&id_text(id));
    push_str(&mut file, ".json");
    join_path(&dir, &string_of(file.as_slice()))
}

/// The file that records the active session: `.ai/active.json`.
pub fn active_index_path(project_dir: &str) -> (r: String)
    ensures
        r@ == path_join(path_join(project_dir@, ".ai"@), "active.json"@),
{
    let meta = join_path(project_dir, ".ai");
    join_path(&meta, "active.json")
}

/// The stored index of the active session.
#[derive(Debug, Clone, Copy, PartialEq, Eq, Structural)]
pub struct AiActiveIndex {
    pub active_id: Option<u128>,
}

impl Default for AiActiveIndex {
    /// No active session.
    fn default() -> (r: Self)
        ensures
            r.active_id is None,
    {
        AiActiveIndex { active_id: None }
    }
}

} // verus!
