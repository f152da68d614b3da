//! Core logic of a novel and screenplay writing workspace: document models,
//! editing state machines, word counting, search, preview formatting,
//! storage naming rules and AI proposal bookkeeping.

pub mod ai;
pub mod text;
pub mod ids;
pub mod models;
pub mod services;
pub mod storage;
pub mod workspace;
