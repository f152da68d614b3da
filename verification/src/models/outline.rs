//! Outline entries: characters, background, scenes, events and the rest.

use std::collections::BTreeMap;

use vstd::prelude::*;

use crate::ids::fresh_id;

verus! {

/// The five fixed outline categories.
#[derive(Debug, Clone, Copy, PartialEq, Eq, Hash, Structural)]
pub enum OutlineCategory {
    Character,
    Background,
    Scene,
    Event,
    Misc,
}

impl OutlineCategory {
    pub open spec fn spec_label(self) -> &'static str {
        match self {
            OutlineCategory::Character => "角色",
            OutlineCategory::Background => "背景",
            OutlineCategory::Scene => "场景",
            OutlineCategory::Event => "事件",
            OutlineCategory::Misc => "杂项",
        }
    }

    /// The display name, also used as the category's folder name.
    pub fn label(self) -> (r: &'static str)
        ensures
            r == self.spec_label(),
    {
        match self {
            OutlineCategory::Character => "角色",
            OutlineCategory::Background => "背景",
            OutlineCategory::Scene => "场景",
            OutlineCategory::Event => "事件",
            OutlineCategory::Misc => "杂项",
        }
    }

    /// Every category, in display order.
    pub fn all() -> (r: [OutlineCategory; 5])
        ensures
            r@ == seq![
                OutlineCategory::Character,
                OutlineCategory::Background,
                OutlineCategory::Scene,
                OutlineCategory::Event,
                OutlineCategory::Misc,
            ],
    {
        [
            OutlineCategory::Character,
            OutlineCategory::Background,
            OutlineCategory::Scene,
            OutlineCategory::Event,
            OutlineCategory::Misc,
        ]
    }
}

/// Creation and modification times of an entry (milliseconds since the
/// Unix epoch).
#[derive(Debug, Clone, Copy, PartialEq, Eq, Structural)]
pub struct OutlineMeta {
    pub created_at: i64,
    pub updated_at: i64,
}

impl OutlineMeta {
    /// Both times set to `now`.
    pub fn new(now: i64) -> (r: Self)
        ensures
            r.created_at == now,
            r.updated_at == now,
    {
        OutlineMeta { created_at: now, updated_at: now }
    }
}

/// One outline entry: a key within a category and free-form fields.
#[derive(Debug, PartialEq, Eq)]
pub struct OutlineEntry {
    pub schema_version: u32,
    pub id: u128,
    pub key: String,
    pub category: OutlineCategory,
    pub fields: BTreeMap<String, String>,
    pub meta: OutlineMeta,
}

/// What an outline entry holds, as plain values.
pub struct OutlineEntryView {
    pub schema_version: u32,
    pub id: u128,
    pub key: Seq<char>,
    pub category: OutlineCategory,
    pub fields: Map<String, String>,
    pub meta: OutlineMeta,
}

impl View for OutlineEntry {
    type V = OutlineEntryView;

    open spec fn view(&self) -> OutlineEntryView {
        OutlineEntryView {
            schema_version: self.schema_version,
            id: self.id,
            key: self.key@,
            category: self.category,
            fields: self.fields@,
            meta: self.meta,
        }
    }
}

impl Clone for OutlineEntry {
    /// A copy equal in value to `self`.
    fn clone(&self) -> (r: Self)
        ensures
            r@ == self@,
    {
        OutlineEntry {
            schema_version: self.schema_version,
            id: self.id,
            key: self.key.clone(),
            category: self.category,
            fields: self.fields.clone(),
            meta: self.meta,
        }
    }
}

impl OutlineEntry {
    /// A new entry (schema version 1) with a fresh id and no fields.
    pub fn new(key: String, category: OutlineCategory, now: i64) -> (r: Self)
        ensures
            r.schema_version == 1,
            r.key@ == key@,
            r.category == category,
            r.fields@.len() == 0,
            r.meta.created_at == now,
            r.meta.updated_at == now,
    {
        OutlineEntry {
            schema_version: 1,
            id: fresh_id(),
            key,
            category,
            fields: BTreeMap::new(),
            meta: OutlineMeta::new(now),
        }
    }
}

} // verus!
