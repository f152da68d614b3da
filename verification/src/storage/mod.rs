//! Storage rules: valid names, relative paths inside a project, placement
//! rules of the chapter and screenplay trees, recent projects and settings.

pub mod ai_session_store;
pub mod chapter_tree;
pub mod path_validation;
pub mod outline_store;
pub mod paths;
pub mod project_store;
pub mod script_tree;
pub mod tree_rules;

pub use path_validation::{validate_storage_name, NameError};
