use chrono::{TimeZone, Utc};

use nwer_core::ai::bridge::hydrate_shared_ctx;
use nwer_core::ai::effect::{apply_all, apply_proposal, discard_proposal, Proposal, ProposalError, ProposalStore};
use nwer_core::ai::intent::{AiIntent, IntentStatus, ScriptBlockUpdateFields};
use nwer_core::ai::mutator::{InMemoryMutator, ProjectMutator};
use nwer_core::ai::session::{AiSessionManager, SessionError};
use nwer_core::ai::tools::write::{
    block_input_to_block, plan_write_tool, script_block_input_to_block, validate_chapter_speaker,
    validate_script_character, BlockInput, ScriptBlockInput, WriteToolCall,
};
use nwer_core::ai::tools::write_extra::{plan_extra_tool, ExtraToolCall};
use nwer_core::ai::tools::{error_receipt, SharedAiCtx};
use nwer_core::ai::ui_command::AiUiCommand;
use nwer_core::models::block::{Block, BlockType};
use nwer_core::models::chapter::Chapter;
use nwer_core::models::outline::OutlineCategory;
use nwer_core::models::project::Project;
use nwer_core::models::script::{Script, ScriptBlockType};

fn now() -> i64 {
    Utc.with_ymd_and_hms(2026, 8, 31, 12, 0, 0).unwrap().timestamp_millis()
}

fn sample_chapter_id() -> u128 {
    1
}

fn sample_ctx(auto_apply: bool) -> SharedAiCtx<InMemoryMutator> {
    SharedAiCtx::new(InMemoryMutator::with_sample_chapter(), auto_apply)
}

fn create_block_call(block_type: BlockType, content: &str) -> WriteToolCall {
    WriteToolCall::CreateBlock {
        chapter_id: sample_chapter_id(),
        block_type,
        content: content.to_string(),
        speaker: None,
        after_block_id: None,
    }
}

#[test]
fn create_block_tool_proposes_when_auto_apply_off() {
    let mut ctx = sample_ctx(false);
    let out = ctx.run_write_tool(create_block_call(BlockType::Narration, "新段落"));
    assert_eq!(out.status, IntentStatus::Proposed);
    assert_eq!(ctx.proposals.len(), 1);
}

#[test]
fn create_block_tool_applies_when_auto_apply_on() {
    let mut ctx = sample_ctx(true);
    let initial_len = ctx.mutator.chapter_blocks(sample_chapter_id()).unwrap().len();
    let out = ctx.run_write_tool(create_block_call(BlockType::Narration, "新段落"));
    assert_eq!(out.status, IntentStatus::Applied);
    let blocks = ctx.mutator.chapter_blocks(sample_chapter_id()).unwrap();
    assert!(blocks.len() >= initial_len + 1);
}

#[test]
fn create_block_dialogue_without_speaker_returns_error() {
    let mut ctx = sample_ctx(false);
    let out = ctx.run_write_tool(create_block_call(BlockType::Dialogue, "你好"));
    assert_eq!(out.status, IntentStatus::Error);
    assert!(out.error.as_deref().unwrap().contains("speaker"));
    assert_eq!(ctx.proposals.len(), 0);
}

#[test]
fn create_block_thought_without_speaker_returns_error() {
    let mut ctx = sample_ctx(false);
    let out = ctx.run_write_tool(create_block_call(BlockType::Thought, "内心独白"));
    assert_eq!(out.status, IntentStatus::Error);
    assert_eq!(ctx.proposals.len(), 0);
}

#[test]
fn delete_block_tool_proposes_when_auto_apply_off() {
    let mut ctx = sample_ctx(false);
    let block_id = ctx.mutator.chapter_blocks(sample_chapter_id()).unwrap()[0].id;
    let out = ctx.run_extra_tool(ExtraToolCall::DeleteBlock { chapter_id: sample_chapter_id(), block_id });
    assert_eq!(out.status, IntentStatus::Proposed);
    assert_eq!(ctx.proposals.len(), 1);
}

#[test]
fn open_chapter_queues_ui_command() {
    let mut ctx = sample_ctx(false);
    let chapter_id = 1u128;
    ctx.queue_ui_command(AiUiCommand::OpenChapter { chapter_id });
    let cmds = ctx.take_ui_commands();
    assert_eq!(cmds, vec![AiUiCommand::OpenChapter { chapter_id }]);
    assert_eq!(ctx.proposals.len(), 0);
    assert!(ctx.take_ui_commands().is_empty());
}

#[test]
fn get_chapter_blocks_returns_json() {
    let m = InMemoryMutator::with_sample_chapter();
    assert!(m.chapter_blocks(sample_chapter_id()).unwrap().len() >= 1);
    assert!(m.chapter_blocks(99).is_none());
}

#[test]
fn get_project_meta_returns_title() {
    let m = InMemoryMutator::with_sample_chapter();
    assert_eq!(m.title, "测试项目");
}

#[test]
fn apply_proposal_success() {
    let mut ctx = sample_ctx(false);
    let chapter_id = sample_chapter_id();
    let intent_id = 10u128;
    let initial_len = ctx.mutator.chapter_blocks(chapter_id).unwrap().len();
    ctx.proposals.push(Proposal {
        intent: AiIntent::CreateBlock {
            intent_id,
            chapter_id,
            block_type: BlockType::Narration,
            content: "新段落".into(),
            speaker: None,
            after_block_id: None,
        },
        stale: false,
    });

    apply_proposal(intent_id, &mut ctx.proposals, &mut ctx.mutator).unwrap();

    assert!(ctx.proposals.is_empty());
    assert_eq!(ctx.mutator.chapter_blocks(chapter_id).unwrap().len(), initial_len + 1);
}

#[test]
fn apply_proposal_marks_stale_on_conflict() {
    let mut ctx = sample_ctx(false);
    let chapter_id = sample_chapter_id();
    let target_id = ctx.mutator.chapter_blocks(chapter_id).unwrap()[0].id;
    let intent_id = 20u128;
    ctx.proposals.push(Proposal {
        intent: AiIntent::ReplaceBlocks {
            intent_id,
            chapter_id,
            target_ids: vec![target_id],
            blocks: vec![Block::new(BlockType::Narration, "改写后".to_string(), now())],
        },
        stale: false,
    });

    ctx.mutator
        .apply(&AiIntent::ReplaceBlocks {
            intent_id: 21,
            chapter_id,
            target_ids: vec![target_id],
            blocks: vec![Block::new(BlockType::Narration, "用户已改".to_string(), now())],
        })
        .unwrap();

    let err = apply_proposal(intent_id, &mut ctx.proposals, &mut ctx.mutator).unwrap_err();
    let text = err.message();
    assert!(text.contains("not found") || text.contains("stale"), "unexpected error: {text}");
    let leftover = ctx.proposals.get(intent_id).expect("proposal kept");
    assert!(leftover.stale, "missing target must mark stale");
}

#[test]
fn discard_proposal_removes() {
    let mut ctx = sample_ctx(false);
    let chapter_id = sample_chapter_id();
    let intent_id = 30u128;
    let initial_len = ctx.mutator.chapter_blocks(chapter_id).unwrap().len();
    ctx.proposals.push(Proposal {
        intent: AiIntent::CreateBlock {
            intent_id,
            chapter_id,
            block_type: BlockType::Narration,
            content: "不该落盘".into(),
            speaker: None,
            after_block_id: None,
        },
        stale: false,
    });

    discard_proposal(intent_id, &mut ctx.proposals).unwrap();

    assert!(ctx.proposals.is_empty());
    assert_eq!(ctx.mutator.chapter_blocks(chapter_id).unwrap().len(), initial_len);
}

#[test]
fn discard_after_push_restores_queue() {
    let mut store = ProposalStore::default();
    for (id, text) in [(60u128, "一"), (61u128, "二")] {
        store.push(Proposal {
            intent: AiIntent::CreateBlock {
                intent_id: id,
                chapter_id: 1,
                block_type: BlockType::Narration,
                content: text.into(),
                speaker: None,
                after_block_id: None,
            },
            stale: false,
        });
    }
    let before = store.intent_ids();
    store.push(Proposal {
        intent: AiIntent::DeleteBlock { intent_id: 62, chapter_id: 1, block_id: 5 },
        stale: false,
    });
    discard_proposal(62, &mut store).unwrap();
    assert_eq!(store.intent_ids(), before);
}

#[test]
fn apply_all_applies_queue() {
    let mut ctx = sample_ctx(false);
    let chapter_id = sample_chapter_id();
    let initial_len = ctx.mutator.chapter_blocks(chapter_id).unwrap().len();
    for (id, text) in [(40u128, "A"), (41u128, "B")] {
        ctx.proposals.push(Proposal {
            intent: AiIntent::CreateBlock {
                intent_id: id,
                chapter_id,
                block_type: BlockType::Narration,
                content: text.into(),
                speaker: None,
                after_block_id: None,
            },
            stale: false,
        });
    }

    apply_all(&mut ctx.proposals, &mut ctx.mutator).unwrap();

    assert!(ctx.proposals.is_empty());
    assert_eq!(ctx.mutator.chapter_blocks(chapter_id).unwrap().len(), initial_len + 2);
}

#[test]
fn apply_all_keeps_failed_proposals_and_reports_error() {
    let mut ctx = sample_ctx(false);
    let chapter_id = sample_chapter_id();
    let initial_len = ctx.mutator.chapter_blocks(chapter_id).unwrap().len();
    let good = AiIntent::CreateBlock {
        intent_id: 50,
        chapter_id,
        block_type: BlockType::Narration,
        content: "甲".into(),
        speaker: None,
        after_block_id: None,
    };
    let bad = AiIntent::ReplaceBlocks {
        intent_id: 51,
        chapter_id,
        target_ids: vec![999],
        blocks: vec![Block::new(BlockType::Narration, "乙".to_string(), now())],
    };
    ctx.proposals.push(Proposal { intent: bad, stale: false });
    ctx.proposals.push(Proposal { intent: good, stale: false });

    let err = apply_all(&mut ctx.proposals, &mut ctx.mutator).unwrap_err();
    assert!(matches!(err, ProposalError::Failed(_)));

    assert_eq!(ctx.proposals.len(), 1);
    let left = ctx.proposals.get(51).unwrap();
    assert!(left.stale);
    assert_eq!(ctx.mutator.chapter_blocks(chapter_id).unwrap().len(), initial_len + 1);
}

// ---------------------------------------------------------------------------
// Argument checks of the write tools.

#[test]
fn speaker_and_character_checks_name_the_block_type() {
    assert_eq!(validate_chapter_speaker(BlockType::Narration, &None), None);
    assert_eq!(
        validate_chapter_speaker(BlockType::Dialogue, &Some("  ".to_string())),
        Some("对话 块必须指定 speaker".to_string())
    );
    assert_eq!(validate_chapter_speaker(BlockType::Thought, &Some("林".to_string())), None);
    assert_eq!(
        validate_script_character(ScriptBlockType::Character, &None),
        Some("角色 块必须指定 character".to_string())
    );
    assert_eq!(validate_script_character(ScriptBlockType::Action, &None), None);
}

#[test]
fn block_inputs_keep_speaker_only_where_allowed() {
    let b = block_input_to_block(
        BlockInput { block_type: BlockType::Narration, content: "x".into(), speaker: Some("甲".into()) },
        now(),
    )
    .unwrap();
    assert_eq!(b.speaker, None);
    assert_eq!(b.meta.created_at, now());
    let d = block_input_to_block(
        BlockInput { block_type: BlockType::Dialogue, content: "你好".into(), speaker: Some("甲".into()) },
        now(),
    )
    .unwrap();
    assert_eq!(d.speaker.as_deref(), Some("甲"));
    let s = script_block_input_to_block(
        ScriptBlockInput {
            block_type: ScriptBlockType::Dialogue,
            content: "台词".into(),
            character: Some("王铁柱".into()),
        },
        now(),
    )
    .unwrap();
    assert_eq!(s.character.as_deref(), Some("王铁柱"));
    assert_eq!(s.ends_at, None);
    assert!(script_block_input_to_block(
        ScriptBlockInput { block_type: ScriptBlockType::Character, content: "".into(), character: None },
        now(),
    )
    .is_err());
}

#[test]
fn write_tools_refuse_empty_arguments() {
    let r = plan_write_tool(
        WriteToolCall::ProposeReplaceBlocks { chapter_id: 1, target_ids: vec![], blocks: vec![] },
        7,
        8,
        now(),
    )
    .unwrap_err();
    assert_eq!(r.summary, "替换块");
    assert_eq!(r.error, "target_ids 不能为空");
    let r = plan_write_tool(
        WriteToolCall::ProposeReplaceBlocks { chapter_id: 1, target_ids: vec![5], blocks: vec![] },
        7,
        8,
        now(),
    )
    .unwrap_err();
    assert_eq!(r.error, "blocks 不能为空");
    let r = plan_write_tool(
        WriteToolCall::CreateChapterFile { parent_rel: String::new(), name: "ch".into(), title: " ".into() },
        7,
        8,
        now(),
    )
    .unwrap_err();
    assert_eq!((r.summary, r.error.as_str()), ("创建章节文件", "title 不能为空"));
    let r = plan_write_tool(
        WriteToolCall::CreateScript { title: "剧".into(), parent_rel: String::new(), name: Some("".into()) },
        7,
        8,
        now(),
    )
    .unwrap_err();
    assert_eq!((r.summary, r.error.as_str()), ("创建剧本", "name 不能为空"));
    let r = plan_write_tool(
        WriteToolCall::UpdateScriptBlock {
            script_id: 1,
            block_id: 2,
            content: None,
            character: None,
            block_type: None,
        },
        7,
        8,
        now(),
    )
    .unwrap_err();
    assert_eq!(r.error, "至少提供一个待更新字段");
}

#[test]
fn write_tools_build_intents_with_given_ids() {
    let i = plan_write_tool(
        WriteToolCall::CreateChapterFile { parent_rel: "vol".into(), name: "ch-001".into(), title: "第一章".into() },
        7,
        8,
        now(),
    )
    .unwrap();
    assert_eq!(
        i,
        AiIntent::CreateChapterFile {
            intent_id: 7,
            chapter_id: 8,
            parent_rel: "vol".into(),
            name: "ch-001".into(),
            title: "第一章".into(),
        }
    );
    let i = plan_write_tool(
        WriteToolCall::CreateScript { title: "剧".into(), parent_rel: String::new(), name: None },
        7,
        8,
        now(),
    )
    .unwrap();
    assert_eq!(
        i,
        AiIntent::CreateScript {
            intent_id: 7,
            title: "剧".into(),
            parent_rel: String::new(),
            script_id: None,
            name: None
        }
    );
    let i = plan_write_tool(
        WriteToolCall::UpdateScriptBlock {
            script_id: 1,
            block_id: 2,
            content: Some("新".into()),
            character: None,
            block_type: None,
        },
        7,
        8,
        now(),
    )
    .unwrap();
    assert_eq!(
        i,
        AiIntent::UpdateScriptBlock {
            intent_id: 7,
            script_id: 1,
            block_id: 2,
            fields: ScriptBlockUpdateFields { content: Some("新".into()), character: None, block_type: None },
        }
    );
    let i = plan_write_tool(
        WriteToolCall::CreateOutlineEntry { category: OutlineCategory::Character, key: "林".into(), fields: None },
        7,
        8,
        now(),
    )
    .unwrap();
    assert_eq!(i.intent_id(), 7);
}

#[test]
fn extra_tools_check_direction_and_names() {
    let r = plan_extra_tool(ExtraToolCall::MoveChapterSibling { rel_path: "a".into(), direction: 2 }, 7, 8)
        .unwrap_err();
    assert_eq!((r.summary, r.error.as_str()), ("移动章节同级", "direction 须为 -1 或 1"));
    let i = plan_extra_tool(ExtraToolCall::MoveScriptSibling { rel_path: "a".into(), direction: -1 }, 7, 8).unwrap();
    assert_eq!(i, AiIntent::MoveScriptSibling { intent_id: 7, rel_path: "a".into(), direction: -1 });
    let i = plan_extra_tool(
        ExtraToolCall::CopyChapter { src_rel: "a.json".into(), dest_parent_rel: "".into(), new_name: "b".into() },
        7,
        8,
    )
    .unwrap();
    assert_eq!(
        i,
        AiIntent::CopyChapter {
            intent_id: 7,
            src_rel: "a.json".into(),
            dest_parent_rel: "".into(),
            new_name: "b".into(),
            new_chapter_id: 8,
        }
    );
    let r = plan_extra_tool(
        ExtraToolCall::UpdateProjectMeta { title: None, style_guide: None, synopsis: None },
        7,
        8,
    )
    .unwrap_err();
    assert_eq!((r.summary, r.error.as_str()), ("更新项目元信息", "至少提供一个待更新字段"));
    let r = plan_extra_tool(ExtraToolCall::UpdateScriptTitle { script_id: 1, title: "\t".into() }, 7, 8).unwrap_err();
    assert_eq!(r.error, "title 不能为空");
}

#[test]
fn refused_tool_reports_error_receipt_and_changes_nothing() {
    let mut ctx = sample_ctx(true);
    let before = ctx.mutator.chapter_blocks(1).unwrap().len();
    let out = ctx.run_extra_tool(ExtraToolCall::RenameChapterNode { rel_path: "a".into(), new_name: " ".into() });
    assert_eq!(out.status, IntentStatus::Error);
    assert_eq!(out.summary, "重命名章节节点");
    assert_eq!(out.error.as_deref(), Some("new_name 不能为空"));
    assert_eq!(ctx.mutator.chapter_blocks(1).unwrap().len(), before);
    let r = error_receipt("创建块", "bad".to_string());
    assert_eq!(r.status, IntentStatus::Error);
    assert_eq!(r.summary, "创建块");
}

#[test]
fn in_memory_back_end_refuses_tree_changes_and_missing_documents() {
    let mut m = InMemoryMutator::with_sample_chapter();
    let e = m
        .apply(&AiIntent::CreateChapterDirectory { intent_id: 1, parent_rel: String::new(), name: "v".into() })
        .unwrap_err();
    assert_eq!(e, "this change needs the project on disk");
    let e = m.apply(&AiIntent::DeleteBlock { intent_id: 1, chapter_id: 42, block_id: 1 }).unwrap_err();
    assert_eq!(e, "chapter 00000000-0000-0000-0000-00000000002a not found");
    let e = m.apply(&AiIntent::DeleteBlock { intent_id: 1, chapter_id: 1, block_id: 5 }).unwrap_err();
    assert_eq!(e, "block 00000000-0000-0000-0000-000000000005 not found");
    m.apply(&AiIntent::UpdateProjectMeta {
        intent_id: 2,
        title: Some("新书".into()),
        style_guide: None,
        synopsis: Some("简介".into()),
    })
    .unwrap();
    assert_eq!(m.title, "新书");
    assert_eq!(m.synopsis, "简介");
    assert_eq!(m.list_chapters(), vec![(1u128, "第一章".to_string())]);
}

#[test]
fn hydrate_holds_open_documents_and_only_proposes() {
    let project = Project::new("书名".to_string(), now());
    let chapter = Chapter::new("第二章".to_string(), now());
    let script = Script::new("剧一".to_string(), now());
    let ctx = hydrate_shared_ctx(Some(&project), Some(&chapter), Some(&script), &vec![]);
    assert!(!ctx.policy.auto_apply);
    assert_eq!(ctx.mutator.title, "书名");
    assert_eq!(ctx.mutator.list_chapters(), vec![(chapter.id, "第二章".to_string())]);
    assert_eq!(ctx.mutator.list_scripts(), vec![(script.id, "剧一".to_string())]);
    assert!(ctx.mutator.get_script(script.id).is_some());
    assert!(ctx.mutator.get_outline().is_empty());
}

#[test]
fn session_manager_applies_proposals_to_in_memory_documents() {
    let mut manager = AiSessionManager::default();
    assert_eq!(manager.apply_all_in_memory(), Err(SessionError::NoSession));
    manager.mutator = InMemoryMutator::with_sample_chapter();
    manager.ensure_active(now());
    let push = |manager: &mut AiSessionManager, id: u128, text: &str| {
        manager.proposals_mut(now()).push(Proposal {
            intent: AiIntent::CreateBlock {
                intent_id: id,
                chapter_id: 1,
                block_type: BlockType::Narration,
                content: text.into(),
                speaker: None,
                after_block_id: None,
            },
            stale: false,
        });
    };
    push(&mut manager, 70, "甲");
    push(&mut manager, 71, "乙");
    manager.apply_proposal_in_memory(70).unwrap();
    assert_eq!(manager.proposals().len(), 1);
    assert_eq!(manager.mutator.chapter_blocks(1).unwrap().len(), 2);
    manager.apply_all_in_memory().unwrap();
    assert!(manager.proposals().is_empty());
    assert_eq!(manager.mutator.chapter_blocks(1).unwrap()[2].content, "乙");
}

#[test]
fn proposal_store_get_mut_changes_in_place() {
    let mut store = ProposalStore::default();
    store.push(Proposal {
        intent: AiIntent::DeleteBlock { intent_id: 5, chapter_id: 1, block_id: 2 },
        stale: false,
    });
    assert!(store.get_mut(6).is_none());
    store.get_mut(5).unwrap().stale = true;
    assert!(store.get(5).unwrap().stale);
    assert_eq!(store.len(), 1);
}
