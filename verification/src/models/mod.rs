//! Document models: novel blocks and chapters, screenplays, outline entries
//! and project settings, with the editing state machines of the editor.

pub mod block;
pub mod block_focus;
pub mod script_focus;
pub mod script;
pub mod chapter;
pub mod outline;
pub mod project;

pub use block::{Block, BlockMeta, BlockType};
pub use block_focus::{BlockFocus, BlockMultiSelect};
pub use chapter::{Chapter, ChapterMeta};
pub use outline::{OutlineCategory, OutlineEntry, OutlineMeta};
pub use project::{AiContext, Project, ProjectSettings, UiState};
pub use script::{Script, ScriptBlock, ScriptBlockType, ScriptError, ScriptMeta};
pub use script_focus::{ScriptFocus, ScriptMultiSelect};
