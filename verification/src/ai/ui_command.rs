//! Immediate commands to the editor's interface that the assistant's focus
//! tools queue; they bypass the proposal queue.

use vstd::prelude::*;

verus! {

/// Opens a document in the editor.
#[derive(Debug, Clone, Copy, PartialEq, Eq, Structural)]
pub enum AiUiCommand {
    OpenChapter { chapter_id: u128 },
    OpenScript { script_id: u128 },
    OpenOutline { outline_id: u128 },
}

} // verus!
