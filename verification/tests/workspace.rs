use std::collections::BTreeMap;

use chrono::{TimeZone, Utc};

use nwer_core::ai::effect::{apply_all, Proposal, ProposalStore};
use nwer_core::ai::intent::{AiIntent, ScriptBlockUpdateFields};
use nwer_core::ai::mutator::ProjectMutator;
use nwer_core::ai::workspace_mutator::{
    apply_chapter_intent, apply_project_meta, apply_script_intent, effective_max_depth, empty_chapter,
    find_outline_entry, intent_target, new_script_for, script_file_stem, sibling_direction,
    updated_outline_entry, EditError, IntentTarget,
};
use nwer_core::models::block::{Block, BlockType};
use nwer_core::models::chapter::{Chapter, ChapterError};
use nwer_core::models::outline::{OutlineCategory, OutlineEntry};
use nwer_core::models::project::Project;
use nwer_core::models::script::{Script, ScriptBlock, ScriptBlockType, ScriptError};
use nwer_core::storage::path_validation::NameError;
use nwer_core::storage::tree_rules::{json_file_name, MoveDirection};
use nwer_core::workspace::{classify_user_path, current_title, SidebarTab, UserPath, WorkspaceUi};

fn now() -> i64 {
    Utc.with_ymd_and_hms(2026, 8, 31, 12, 0, 0).unwrap().timestamp_millis()
}

fn later() -> i64 {
    now() + 1000
}

fn chapter_with(texts: &[&str]) -> Chapter {
    let mut c = Chapter::new("第一章".to_string(), now());
    c.blocks.clear();
    for t in texts {
        c.blocks.push(Block::new(BlockType::Narration, t.to_string(), now()));
    }
    c
}

fn contents(c: &Chapter) -> Vec<String> {
    c.blocks.iter().map(|b| b.content.clone()).collect()
}

#[test]
fn workspace_mutator_create_block_persists() {
    let chapter = Chapter::new("第一章".to_string(), now());
    let chapter_id = chapter.id;
    let intent = AiIntent::CreateBlock {
        intent_id: 0,
        chapter_id,
        block_type: BlockType::Narration,
        content: "落盘正文".into(),
        speaker: None,
        after_block_id: None,
    };
    assert_eq!(intent_target(&intent), IntentTarget::Chapter(chapter_id));
    let loaded = apply_chapter_intent(&chapter, &intent, now()).unwrap();
    assert!(
        loaded.blocks.iter().any(|b| b.content == "落盘正文"),
        "expected persisted block, got {:?}",
        contents(&loaded)
    );
}

#[test]
fn workspace_mutator_create_directory_and_chapter_file() {
    let dir = AiIntent::CreateChapterDirectory { intent_id: 0, parent_rel: String::new(), name: "vol-001".into() };
    assert_eq!(intent_target(&dir), IntentTarget::ChapterTree);
    let chapter_id = 99u128;
    let file = AiIntent::CreateChapterFile {
        intent_id: 0,
        chapter_id,
        parent_rel: "vol-001".into(),
        name: "ch-001".into(),
        title: "第一章".into(),
    };
    assert_eq!(intent_target(&file), IntentTarget::ChapterTree);
    let loaded = empty_chapter(chapter_id, "第一章".to_string());
    assert_eq!(format!("vol-001/{}", json_file_name("ch-001")), "vol-001/ch-001.json");
    assert_eq!(loaded.title, "第一章");
    assert_eq!(loaded.id, chapter_id);
    assert!(loaded.blocks.is_empty());
    assert_eq!(loaded.meta.status, "draft");
}

/// A back end holding screenplays only, applying intents with the library's
/// rules.
struct ScriptShelf {
    scripts: Vec<(String, Script)>,
}

impl ProjectMutator for ScriptShelf {
    /// The outcome relation is read by proofs only; these test back ends
    /// promise nothing.
    fn apply_outcome(&self, _intent: AiIntent, _r: Result<(), String>, _after: &Self) -> bool {
        true
    }

    fn apply(&mut self, intent: &AiIntent) -> Result<(), String> {
        match intent {
            AiIntent::CreateScript { title, parent_rel, script_id, name, .. } => {
                let (stem, script) =
                    new_script_for(title.clone(), *script_id, name.clone(), now()).map_err(|e| e.message().to_string())?;
                self.scripts.push((format!("{}/{}", parent_rel, json_file_name(&stem)), script));
                Ok(())
            }
            other => match intent_target(other) {
                IntentTarget::Script(id) => {
                    let slot = self.scripts.iter().position(|(_, s)| s.id == id).ok_or("script not found")?;
                    let next = apply_script_intent(&self.scripts[slot].1, other, now()).map_err(|e| e.message())?;
                    self.scripts[slot].1 = next;
                    Ok(())
                }
                _ => Err("unsupported".to_string()),
            },
        }
    }
}

#[test]
fn workspace_apply_all_create_script_then_append_blocks() {
    let script_id = 501u128;
    let mut store = ProposalStore::default();
    store.push(Proposal {
        intent: AiIntent::CreateScript {
            intent_id: 1,
            title: "晋升答辩".into(),
            parent_rel: "vol-001".into(),
            script_id: Some(script_id),
            name: Some("sc-001".into()),
        },
        stale: false,
    });
    store.push(Proposal {
        intent: AiIntent::AppendScriptBlocks {
            intent_id: 2,
            script_id,
            blocks: vec![ScriptBlock::new(ScriptBlockType::Action, "王铁柱走上台。".to_string(), now())],
        },
        stale: false,
    });

    let mut m = ScriptShelf { scripts: vec![] };
    apply_all(&mut store, &mut m).unwrap();
    assert!(store.is_empty());

    let (rel_path, loaded) = m.scripts.iter().find(|(_, s)| s.id == script_id).expect("script on disk");
    assert_eq!(rel_path, "vol-001/sc-001.json");
    assert_eq!(loaded.id, script_id);
    assert!(loaded.blocks.iter().any(|b| b.content == "王铁柱走上台。"), "expected appended block");
}

#[test]
fn create_block_goes_after_anchor_and_keeps_speaker_only_where_allowed() {
    let c = chapter_with(&["a", "b", "c"]);
    let anchor = c.blocks[0].id;
    let r = apply_chapter_intent(
        &c,
        &AiIntent::CreateBlock {
            intent_id: 0,
            chapter_id: c.id,
            block_type: BlockType::Narration,
            content: "x".into(),
            speaker: Some("甲".into()),
            after_block_id: Some(anchor),
        },
        later(),
    )
    .unwrap();
    assert_eq!(contents(&r), vec!["a", "x", "b", "c"]);
    assert_eq!(r.blocks[1].speaker, None);
    assert_eq!(r.blocks[1].meta.created_at, later());
    let e = apply_chapter_intent(
        &c,
        &AiIntent::CreateBlock {
            intent_id: 0,
            chapter_id: c.id,
            block_type: BlockType::Narration,
            content: "x".into(),
            speaker: None,
            after_block_id: Some(7),
        },
        later(),
    )
    .unwrap_err();
    assert_eq!(e, EditError::AfterBlockNotFound(7));
    assert_eq!(e.message(), "after_block_id 00000000-0000-0000-0000-000000000007 not found");
}

#[test]
fn replace_blocks_removes_targets_and_inserts_at_first() {
    let c = chapter_with(&["a", "b", "c", "d"]);
    let targets = vec![c.blocks[2].id, c.blocks[1].id];
    let new_blocks = vec![
        Block::new(BlockType::Narration, "X".to_string(), now()),
        Block::new(BlockType::Narration, "Y".to_string(), now()),
    ];
    let r = apply_chapter_intent(
        &c,
        &AiIntent::ReplaceBlocks { intent_id: 0, chapter_id: c.id, target_ids: targets, blocks: new_blocks },
        now(),
    )
    .unwrap();
    assert_eq!(contents(&r), vec!["a", "X", "Y", "d"]);
    let e = apply_chapter_intent(
        &c,
        &AiIntent::ReplaceBlocks { intent_id: 0, chapter_id: c.id, target_ids: vec![c.blocks[0].id, 77], blocks: vec![] },
        now(),
    )
    .unwrap_err();
    assert_eq!(e, EditError::TargetBlockNotFound(77));
    assert_eq!(e.message(), "target block 00000000-0000-0000-0000-00000000004d not found");
}

#[test]
fn replace_blocks_with_repeated_target_removes_next_block_too() {
    let c = chapter_with(&["a", "b", "c"]);
    let t = c.blocks[1].id;
    let r = apply_chapter_intent(
        &c,
        &AiIntent::ReplaceBlocks {
            intent_id: 0,
            chapter_id: c.id,
            target_ids: vec![t, t],
            blocks: vec![Block::new(BlockType::Note, "N".to_string(), now())],
        },
        now(),
    )
    .unwrap();
    assert_eq!(contents(&r), vec!["a", "N"]);
    let last = c.blocks[2].id;
    let e = apply_chapter_intent(
        &c,
        &AiIntent::ReplaceBlocks { intent_id: 0, chapter_id: c.id, target_ids: vec![last, last], blocks: vec![] },
        now(),
    )
    .unwrap_err();
    assert_eq!(e, EditError::Chapter(ChapterError::RemoveOutOfRange));
}

#[test]
fn update_block_changes_content_type_and_speaker_in_order() {
    let c = chapter_with(&["a"]);
    let id = c.blocks[0].id;
    let r = apply_chapter_intent(
        &c,
        &AiIntent::UpdateBlock {
            intent_id: 0,
            chapter_id: c.id,
            block_id: id,
            content: Some("对白".into()),
            block_type: Some(BlockType::Dialogue),
            speaker: Some("林".into()),
        },
        later(),
    )
    .unwrap();
    assert_eq!(r.blocks[0].content, "对白");
    assert_eq!(r.blocks[0].block_type, BlockType::Dialogue);
    assert_eq!(r.blocks[0].speaker.as_deref(), Some("林"));
    assert_eq!(r.blocks[0].meta.updated_at, later());
    assert_eq!(r.blocks[0].meta.created_at, now());
    let e = apply_chapter_intent(
        &c,
        &AiIntent::UpdateBlock {
            intent_id: 0,
            chapter_id: c.id,
            block_id: id,
            content: None,
            block_type: None,
            speaker: Some("林".into()),
        },
        later(),
    )
    .unwrap_err();
    assert_eq!(e, EditError::Chapter(ChapterError::SpeakerNotAllowed));
    assert_eq!(e.message(), "speaker only valid on dialogue or thought blocks");
}

#[test]
fn delete_and_move_blocks_by_id() {
    let c = chapter_with(&["a", "b", "c"]);
    let r = apply_chapter_intent(
        &c,
        &AiIntent::DeleteBlock { intent_id: 0, chapter_id: c.id, block_id: c.blocks[1].id },
        now(),
    )
    .unwrap();
    assert_eq!(contents(&r), vec!["a", "c"]);
    let r = apply_chapter_intent(
        &c,
        &AiIntent::MoveBlock { intent_id: 0, chapter_id: c.id, block_id: c.blocks[0].id, to_index: 3 },
        now(),
    )
    .unwrap();
    assert_eq!(contents(&r), vec!["b", "c", "a"]);
    let r = apply_chapter_intent(
        &c,
        &AiIntent::MoveBlock { intent_id: 0, chapter_id: c.id, block_id: c.blocks[0].id, to_index: 1 },
        now(),
    )
    .unwrap();
    assert_eq!(contents(&r), vec!["a", "b", "c"]);
    let e = apply_chapter_intent(
        &c,
        &AiIntent::MoveBlock { intent_id: 0, chapter_id: c.id, block_id: c.blocks[0].id, to_index: 4 },
        now(),
    )
    .unwrap_err();
    assert_eq!(e, EditError::Chapter(ChapterError::MoveToOutOfRange));
    let e = apply_chapter_intent(&c, &AiIntent::DeleteBlock { intent_id: 0, chapter_id: c.id, block_id: 3 }, now())
        .unwrap_err();
    assert_eq!(e.message(), "block 00000000-0000-0000-0000-000000000003 not found");
    let r = apply_chapter_intent(
        &c,
        &AiIntent::UpdateChapterTitle { intent_id: 0, chapter_id: c.id, title: "新题".into() },
        now(),
    )
    .unwrap();
    assert_eq!(r.title, "新题");
    assert_eq!(contents(&r), vec!["a", "b", "c"]);
}

#[test]
fn script_intents_update_stamp_and_refuse() {
    let mut s = Script::new("剧".to_string(), now());
    s.blocks.push(ScriptBlock::new(ScriptBlockType::Action, "走".to_string(), now()));
    let action = s.blocks[1].id;
    let r = apply_script_intent(
        &s,
        &AiIntent::UpdateScriptTitle { intent_id: 0, script_id: s.id, title: "新剧".into() },
        later(),
    )
    .unwrap();
    assert_eq!(r.title, "新剧");
    assert_eq!(r.meta.updated_at, later());
    let e = apply_script_intent(
        &s,
        &AiIntent::UpdateScriptBlock {
            intent_id: 0,
            script_id: s.id,
            block_id: action,
            fields: ScriptBlockUpdateFields { content: None, character: Some("王".into()), block_type: None },
        },
        later(),
    )
    .unwrap_err();
    assert_eq!(e, EditError::Script(ScriptError::CharacterNotAllowed));
    let r = apply_script_intent(
        &s,
        &AiIntent::UpdateScriptBlock {
            intent_id: 0,
            script_id: s.id,
            block_id: s.blocks[0].id,
            fields: ScriptBlockUpdateFields { content: Some("int. 客厅".into()), character: None, block_type: None },
        },
        later(),
    )
    .unwrap();
    assert_eq!(r.blocks[0].content, "INT. 客厅");
    let r = apply_script_intent(
        &s,
        &AiIntent::MoveScriptBlock { intent_id: 0, script_id: s.id, block_id: action, to_index: 0 },
        later(),
    )
    .unwrap();
    assert_eq!(r.blocks[0].content, "走");
    assert_eq!(r.meta.updated_at, later());
    let r = apply_script_intent(
        &s,
        &AiIntent::DeleteScriptBlock { intent_id: 0, script_id: s.id, block_id: action },
        later(),
    )
    .unwrap();
    assert_eq!(r.blocks.len(), 1);
    let e = apply_script_intent(&s, &AiIntent::DeleteScriptBlock { intent_id: 0, script_id: s.id, block_id: 9 }, now())
        .unwrap_err();
    assert_eq!(e.message(), "script block 00000000-0000-0000-0000-000000000009 not found");
}

#[test]
fn project_meta_and_outline_updates() {
    let p = Project::new("书".to_string(), now());
    let q = apply_project_meta(p, Some("新书".into()), None, Some("简介".into()), later());
    assert_eq!(q.title, "新书");
    assert_eq!(q.ai_context.synopsis, "简介");
    assert_eq!(q.updated_at, later());

    let e = OutlineEntry::new("林".to_string(), OutlineCategory::Character, now());
    let id = e.id;
    let entries = vec![e.clone()];
    assert_eq!(find_outline_entry(&entries, id), Some(0));
    assert_eq!(find_outline_entry(&entries, id + 1), None);
    let (same, moved) = updated_outline_entry(e.clone(), Some("林".into()), None, None, later());
    assert!(!moved);
    assert_eq!(same.meta.updated_at, later());
    let mut fields = BTreeMap::new();
    fields.insert("年龄".to_string(), "30".to_string());
    let (next, moved) = updated_outline_entry(e, None, Some(OutlineCategory::Scene), Some(fields.clone()), later());
    assert!(moved);
    assert_eq!(next.category, OutlineCategory::Scene);
    assert_eq!(next.fields, fields);
}

#[test]
fn script_stems_and_new_scripts() {
    assert_eq!(script_file_stem("答辩", 1), "答辩");
    assert_eq!(script_file_stem("a/b", 1), "script-00000000-0000-0000-0000-000000000001");
    let (stem, s) = new_script_for("a/b".to_string(), Some(3), None, now()).unwrap();
    assert_eq!(stem, "script-00000000-0000-0000-0000-000000000003");
    assert_eq!(s.id, 3);
    let e = new_script_for("t".to_string(), None, Some("..".into()), now()).unwrap_err();
    assert_eq!(e, NameError::DotSegment);
    let (stem, _) = new_script_for("t".to_string(), None, Some("sc-001".into()), now()).unwrap();
    assert_eq!(stem, "sc-001");
}

#[test]
fn tree_operation_helpers() {
    assert_eq!(sibling_direction(-1), MoveDirection::Up);
    assert_eq!(sibling_direction(0), MoveDirection::Down);
    assert_eq!(sibling_direction(1), MoveDirection::Down);
    assert_eq!(effective_max_depth(Some(0)), 1);
    assert_eq!(effective_max_depth(Some(5)), 5);
    assert_eq!(effective_max_depth(None), 3);
}

#[test]
fn expand_user_path_keeps_absolute() {
    assert_eq!(classify_user_path("/tmp/novels"), UserPath::Literal("/tmp/novels".to_string()));
    assert_eq!(classify_user_path("~"), UserPath::Home);
    assert_eq!(classify_user_path("~/书稿"), UserPath::UnderHome("书稿".to_string()));
    assert_eq!(classify_user_path("~x"), UserPath::Literal("~x".to_string()));
}

#[test]
fn opening_a_project_takes_its_view_state() {
    let mut p = Project::new("书".to_string(), now());
    p.ui_state.sidebar_tab = "outline".to_string();
    p.ui_state.ai_panel_open = true;
    let ui = WorkspaceUi::default().opened(&p);
    assert_eq!(ui.sidebar_tab, SidebarTab::Outline);
    assert!(ui.ai_panel_open);
    assert!(ui.sidebar_visible);
    assert_eq!(current_title(Some(&p)), "书");
    assert_eq!(current_title(None), "未打开项目");
}

#[test]
fn deleting_a_created_block_gives_back_the_chapter() {
    let c = chapter_with(&["a", "b"]);
    let created = apply_chapter_intent(
        &c,
        &AiIntent::CreateBlock {
            intent_id: 0,
            chapter_id: c.id,
            block_type: BlockType::Note,
            content: "临时".into(),
            speaker: None,
            after_block_id: Some(c.blocks[0].id),
        },
        later(),
    )
    .unwrap();
    let new_id = created.blocks[1].id;
    let back = apply_chapter_intent(
        &created,
        &AiIntent::DeleteBlock { intent_id: 0, chapter_id: c.id, block_id: new_id },
        later(),
    )
    .unwrap();
    assert_eq!(back, c);
}

#[test]
fn replacing_one_block_puts_new_blocks_in_its_place() {
    let c = chapter_with(&["a", "b", "c"]);
    let r = apply_chapter_intent(
        &c,
        &AiIntent::ReplaceBlocks {
            intent_id: 0,
            chapter_id: c.id,
            target_ids: vec![c.blocks[1].id],
            blocks: vec![
                Block::new(BlockType::Narration, "x".to_string(), now()),
                Block::new(BlockType::Narration, "y".to_string(), now()),
            ],
        },
        now(),
    )
    .unwrap();
    assert_eq!(contents(&r), vec!["a", "x", "y", "c"]);
}
