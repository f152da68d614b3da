//! The AI assistant's bookkeeping: write intents, the proposal queue and
//! the policy that applies or queues them, prompts, chat state and the
//! checks that run before a request.

pub mod actions;
pub mod bridge;
pub mod context_ref;
pub mod effect;
pub mod host;
pub mod intent;
pub mod mutator;
pub mod prompts;
pub mod provider;
pub mod session;
pub mod tools;
pub mod ui_command;
pub mod ui_state;
pub mod workspace_mutator;
