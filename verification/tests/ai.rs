use chrono::{TimeZone, Utc};

use nwer_core::ai::actions::action_prompt;
use nwer_core::ai::bridge::{chapter_context_from_app, lean_context_from_app, validate_ai_ready, ReadyError};
use nwer_core::ai::context_ref::{format_attached_refs, push_unique, AiContextKind, AiContextRef};
use nwer_core::ai::effect::{
    apply_all, apply_proposal, discard_all, discard_proposal, summarize_intent, EffectPolicy, Proposal,
    ProposalError, ProposalStore,
};
use nwer_core::ai::host::{
    compose_user_message_for_turn, format_lean_context, lean_focus_changed, stored_lean_focus_from_lean,
    LeanContext, LeanFocus, LeanSelection,
};
use nwer_core::ai::intent::{AiIntent, IntentStatus, ScriptBlockUpdateFields, ToolReceipt};
use nwer_core::ai::mutator::ProjectMutator;
use nwer_core::ai::prompts::{
    compose_system_prompt, SYSTEM_DIRECTOR_PROMPT, SYSTEM_REVIEWER_PROMPT, SYSTEM_WRITER_PROMPT,
};
use nwer_core::ai::provider::{
    AiAction, AiProvider, AiRequest, ChapterContext, ProjectContext, StubAiProvider,
};
use nwer_core::ai::session::{
    sessions_to_prune, truncate_llm_history, truncate_title, AiSession, AiSessionManager, LlmMessage,
    LlmRole, SessionError,
};
use nwer_core::ai::ui_state::{AiAgentKind, AiChatMessage, AiChatRole, AiMaxTokenTier};
use nwer_core::models::block::{Block, BlockType};
use nwer_core::models::block_focus::{BlockFocus, BlockMultiSelect};
use nwer_core::models::chapter::Chapter;
use nwer_core::models::outline::{OutlineCategory, OutlineEntry};
use nwer_core::models::project::{AiContext, Project};
use nwer_core::models::script_focus::ScriptFocus;
use nwer_core::storage::project_store::AiSettings;
use nwer_core::workspace::{SidebarTab, WorkspaceUi};

fn now() -> i64 {
    Utc.with_ymd_and_hms(2026, 9, 2, 12, 0, 0).unwrap().timestamp_millis()
}

#[test]
fn rewrite_prompt_prefers_replace() {
    let p = action_prompt(AiAction::Rewrite);
    let lower = p.to_ascii_lowercase();
    assert!(lower.contains("replace") || p.contains("改写") || p.contains("替换"), "got: {p:?}");
}

#[test]
fn chat_prompt_is_empty_or_short() {
    let p = action_prompt(AiAction::Chat);
    assert!(p.chars().count() <= 40, "got: {p:?}");
}

#[test]
fn validate_requires_key_and_model() {
    let mut ai = AiSettings::default();
    assert!(validate_ai_ready(&ai).is_err());
    ai.api_key = "sk".into();
    assert!(validate_ai_ready(&ai).is_err());
    ai.model = "m".into();
    assert!(validate_ai_ready(&ai).is_ok());
}

#[test]
fn validate_ai_ready_checks_untrimmed_scheme() {
    let mut ai = AiSettings::default();
    ai.api_key = "sk".into();
    ai.model = "m".into();
    ai.base_url = "ftp://x".into();
    assert_eq!(validate_ai_ready(&ai), Err(ReadyError::BaseUrlScheme));
    ai.base_url = "  https://x".into();
    assert_eq!(validate_ai_ready(&ai), Err(ReadyError::BaseUrlScheme));
    ai.base_url = "   ".into();
    assert_eq!(validate_ai_ready(&ai), Ok(()));
    ai.api_key = "  ".into();
    assert_eq!(validate_ai_ready(&ai).unwrap_err().message(), "请先在设置中填写 API Key");
}

fn ctx(writer: &str, reviewer: &str, director: &str) -> AiContext {
    AiContext {
        style_guide: String::new(),
        synopsis: String::new(),
        writer_prompt: writer.into(),
        reviewer_prompt: reviewer.into(),
        director_prompt: director.into(),
    }
}

#[test]
fn default_returns_base_system_without_project() {
    let project = ctx("项目写手段", "审查段", "导演段");
    let out = compose_system_prompt(AiAgentKind::Default, Some(&project), "BASE");
    assert_eq!(out, "BASE");
    assert!(!out.contains("项目写手段"));
}

#[test]
fn writer_without_project_uses_system_only() {
    let out = compose_system_prompt(AiAgentKind::Writer, None, "BASE");
    assert_eq!(out, SYSTEM_WRITER_PROMPT);
    assert!(!out.contains("BASE"));
}

#[test]
fn writer_with_empty_project_prompt_uses_system_only() {
    let project = ctx("  \n  ", "x", "y");
    let out = compose_system_prompt(AiAgentKind::Writer, Some(&project), "BASE");
    assert_eq!(out, SYSTEM_WRITER_PROMPT);
}

#[test]
fn writer_appends_nonempty_project_prompt() {
    let project = ctx("古风克制", "", "");
    let out = compose_system_prompt(AiAgentKind::Writer, Some(&project), "BASE");
    assert!(out.starts_with(SYSTEM_WRITER_PROMPT));
    assert!(out.contains("古风克制"));
    assert!(!out.contains("BASE"));
    assert_eq!(out, format!("{SYSTEM_WRITER_PROMPT}\n\n古风克制"));
}

#[test]
fn reviewer_and_director_use_matching_fields() {
    let project = ctx("W", "查漏洞", "管节奏");
    let r = compose_system_prompt(AiAgentKind::Reviewer, Some(&project), "BASE");
    let d = compose_system_prompt(AiAgentKind::Director, Some(&project), "BASE");
    assert!(r.contains(SYSTEM_REVIEWER_PROMPT) && r.contains("查漏洞"));
    assert!(d.contains(SYSTEM_DIRECTOR_PROMPT) && d.contains("管节奏"));
    assert!(!r.contains("管节奏"));
    assert!(!d.contains("查漏洞"));
}

fn ref_chapter(title: &str, id: u128) -> AiContextRef {
    AiContextRef { kind: AiContextKind::Chapter, id: Some(id), path: Some("a.json".into()), title: title.into() }
}

#[test]
fn push_unique_dedupes_same_kind_id_path() {
    let id = 0;
    let mut refs = Vec::new();
    assert!(push_unique(&mut refs, ref_chapter("一", id)));
    assert!(!push_unique(&mut refs, ref_chapter("一改名", id)));
    assert_eq!(refs.len(), 1);
}

#[test]
fn format_attached_refs_lists_metadata_only() {
    let text = format_attached_refs(&[ref_chapter("第三章", 0)]).unwrap();
    assert!(text.contains("用户附加引用"));
    assert!(text.contains("章节"));
    assert!(text.contains("第三章"));
    assert!(!text.contains("正文内容"));
    assert_eq!(text, "用户附加引用：\n- [章节] 第三章 (00000000-0000-0000-0000-000000000000)");
}

#[test]
fn format_empty_is_none() {
    assert!(format_attached_refs(&[]).is_none());
}

#[test]
fn display_line_uses_path_without_id() {
    let r = AiContextRef { kind: AiContextKind::ScriptDir, id: None, path: Some("vol".into()), title: "卷".into() };
    assert_eq!(r.display_line(), "[剧本目录] 卷 (vol)");
    let none = AiContextRef { kind: AiContextKind::OutlineEntry, id: None, path: None, title: "张三".into() };
    assert_eq!(none.display_line(), "[大纲] 张三");
    let same = AiContextRef { kind: AiContextKind::OutlineEntry, id: None, path: Some(String::new()), title: "x".into() };
    assert!(none.same_target(&same));
}

fn sample_create_block() -> AiIntent {
    AiIntent::CreateBlock {
        intent_id: 0,
        chapter_id: 0,
        block_type: BlockType::Narration,
        content: "你好".into(),
        speaker: None,
        after_block_id: None,
    }
}

struct NoopMutator;

impl ProjectMutator for NoopMutator {
    /// The outcome relation is read by proofs only; these test back ends
    /// promise nothing.
    fn apply_outcome(&self, _intent: AiIntent, _r: Result<(), String>, _after: &Self) -> bool {
        true
    }

    fn apply(&mut self, _intent: &AiIntent) -> Result<(), String> {
        Ok(())
    }
}

#[derive(Default)]
struct RecordingMutator {
    applied: Vec<AiIntent>,
}

impl ProjectMutator for RecordingMutator {
    /// The outcome relation is read by proofs only; these test back ends
    /// promise nothing.
    fn apply_outcome(&self, _intent: AiIntent, _r: Result<(), String>, _after: &Self) -> bool {
        true
    }

    fn apply(&mut self, intent: &AiIntent) -> Result<(), String> {
        self.applied.push(intent.clone());
        Ok(())
    }
}

struct FailingMutator;

impl ProjectMutator for FailingMutator {
    /// The outcome relation is read by proofs only; these test back ends
    /// promise nothing.
    fn apply_outcome(&self, _intent: AiIntent, _r: Result<(), String>, _after: &Self) -> bool {
        true
    }

    fn apply(&mut self, _intent: &AiIntent) -> Result<(), String> {
        Err("target block not found".to_string())
    }
}

#[test]
fn policy_off_stores_proposal() {
    let mut store = ProposalStore::default();
    let policy = EffectPolicy::new(false);
    let intent = sample_create_block();
    let receipt = policy.apply(intent.clone(), &mut store, &mut NoopMutator);
    assert_eq!(receipt.status, IntentStatus::Proposed);
    assert_eq!(store.len(), 1);
}

#[test]
fn policy_on_applies_via_mutator() {
    let mut store = ProposalStore::default();
    let policy = EffectPolicy::new(true);
    let mut mutator = RecordingMutator::default();
    let intent = sample_create_block();
    let receipt = policy.apply(intent, &mut store, &mut mutator);
    assert_eq!(receipt.status, IntentStatus::Applied);
    assert_eq!(store.len(), 0);
    assert_eq!(mutator.applied.len(), 1);
    assert_eq!(receipt.summary, "创建叙述块");
}

#[test]
fn policy_on_reports_back_end_failure() {
    let mut store = ProposalStore::default();
    let receipt = EffectPolicy::new(true).apply(sample_create_block(), &mut store, &mut FailingMutator);
    assert_eq!(receipt.status, IntentStatus::Error);
    assert_eq!(receipt.error.as_deref(), Some("target block not found"));
}

fn proposal(intent: AiIntent) -> Proposal {
    Proposal { intent, stale: false }
}

#[test]
fn applying_a_queued_proposal_removes_it() {
    let mut store = ProposalStore::default();
    store.push(proposal(AiIntent::DeleteBlock { intent_id: 10, chapter_id: 1, block_id: 2 }));
    let mut mutator = RecordingMutator::default();
    apply_proposal(10, &mut store, &mut mutator).unwrap();
    assert!(store.is_empty());
    assert_eq!(mutator.applied.len(), 1);
    assert_eq!(apply_proposal(10, &mut store, &mut mutator), Err(ProposalError::NotFound(10)));
}

#[test]
fn failed_replacement_is_marked_stale_and_kept() {
    let mut store = ProposalStore::default();
    store.push(proposal(AiIntent::ReplaceBlocks { intent_id: 20, chapter_id: 1, target_ids: vec![5], blocks: Vec::new() }));
    store.push(proposal(AiIntent::DeleteBlock { intent_id: 21, chapter_id: 1, block_id: 2 }));
    let err = apply_proposal(20, &mut store, &mut FailingMutator).unwrap_err();
    assert!(err.message().contains("not found"));
    assert!(store.get(20).expect("proposal kept").stale);
    apply_proposal(21, &mut store, &mut FailingMutator).unwrap_err();
    assert!(!store.get(21).unwrap().stale);
    assert_eq!(store.intent_ids(), vec![20, 21]);
}

#[test]
fn discarding_and_applying_all() {
    let mut store = ProposalStore::default();
    store.push(proposal(AiIntent::DeleteBlock { intent_id: 30, chapter_id: 1, block_id: 2 }));
    discard_proposal(30, &mut store).unwrap();
    assert!(store.is_empty());
    assert!(discard_proposal(30, &mut store).is_err());
    store.push(proposal(AiIntent::DeleteBlock { intent_id: 40, chapter_id: 1, block_id: 2 }));
    store.push(proposal(AiIntent::DeleteBlock { intent_id: 41, chapter_id: 1, block_id: 3 }));
    let mut mutator = RecordingMutator::default();
    apply_all(&mut store, &mut mutator).unwrap();
    assert!(store.is_empty());
    assert_eq!(mutator.applied.len(), 2);
    store.push(proposal(AiIntent::DeleteBlock { intent_id: 42, chapter_id: 1, block_id: 3 }));
    assert!(apply_all(&mut store, &mut FailingMutator).is_err());
    assert_eq!(store.len(), 1);
    assert_eq!(store.iter().len(), 1);
}

#[test]
fn discard_all_clears_queue() {
    let mut store = ProposalStore::default();
    store.push(proposal(sample_create_block()));
    store.push(proposal(AiIntent::CreateBlock {
        intent_id: 50,
        chapter_id: 0,
        block_type: BlockType::Narration,
        content: "x".into(),
        speaker: None,
        after_block_id: None,
    }));
    discard_all(&mut store);
    assert!(store.is_empty());
}

#[test]
fn summaries_name_paths_and_ids() {
    let dir = AiIntent::CreateChapterDirectory { intent_id: 1, parent_rel: "vol".into(), name: "part".into() };
    assert_eq!(summarize_intent(&dir), "创建章节目录 vol/part");
    let file = AiIntent::CreateChapterFile { intent_id: 1, chapter_id: 0, parent_rel: String::new(), name: "ch-001".into(), title: "第一章".into() };
    assert_eq!(summarize_intent(&file), "创建章节 第一章 @ ch-001.json (chapter_id=00000000-0000-0000-0000-000000000000)");
    let script = AiIntent::CreateScript { intent_id: 1, title: "晋升".into(), parent_rel: "vol".into(), script_id: None, name: None };
    assert_eq!(summarize_intent(&script), "创建剧本 晋升 @ scripts/vol/(auto).json (script_id=?)");
    let upd = AiIntent::UpdateScriptBlock { intent_id: 1, script_id: 2, block_id: 3, fields: ScriptBlockUpdateFields::default() };
    assert_eq!(summarize_intent(&upd), "更新剧本块");
    let thought = AiIntent::CreateBlock { intent_id: 1, chapter_id: 1, block_type: BlockType::Thought, content: String::new(), speaker: None, after_block_id: None };
    assert_eq!(summarize_intent(&thought), "创建心理块");
}

#[test]
fn create_block_intent_holds_fields() {
    let intent = sample_create_block();
    assert_eq!(intent.intent_id(), 0);
    let receipt = ToolReceipt { status: IntentStatus::Proposed, intent_id: 0, summary: "创建叙述块".into(), error: None };
    assert_eq!(receipt.status, IntentStatus::Proposed);
}

fn lean_ctx() -> LeanContext {
    LeanContext {
        project: ProjectContext { project_id: 0, title: "测试项目".into(), style_guide: "简洁文风".into(), synopsis: "样例简介".into() },
        focus: Some(LeanFocus::Chapter { id: 1, title: "第一章".into() }),
        selection: vec![LeanSelection { block_id: 9, block_type: "叙述".into(), text: "开篇选区".into() }],
        attached_refs: Vec::new(),
    }
}

#[test]
fn format_lean_context_includes_meta_focus_and_selection() {
    let text = format_lean_context(&lean_ctx());
    assert!(text.contains("测试项目"), "{text}");
    assert!(text.contains("简洁文风") || text.contains("风格"), "{text}");
    assert!(text.contains("样例简介") || text.contains("简介"), "{text}");
    assert!(text.contains("第一章"), "{text}");
    assert!(text.contains("开篇选区"), "{text}");
    assert_eq!(
        text,
        "项目：测试项目\n风格：简洁文风\n简介：样例简介\n焦点：章节 第一章 (00000000-0000-0000-0000-000000000001)\n选区：\n- [叙述] 00000000-0000-0000-0000-000000000009: 开篇选区"
    );
}

#[test]
fn compose_user_message_for_turn_skips_lean_on_follow_up() {
    let lean = lean_ctx();
    let first = compose_user_message_for_turn(&lean, AiAction::Chat, "写一段", true, false);
    assert!(first.contains("测试项目"), "{first}");
    let second = compose_user_message_for_turn(&lean, AiAction::Chat, "继续", false, false);
    assert_eq!(second, "继续");
    let refocus = compose_user_message_for_turn(&lean, AiAction::Chat, "换章了", false, true);
    assert!(refocus.contains("测试项目"), "{refocus}");
    assert!(refocus.ends_with("\n\n换章了"));
    let with_hint = compose_user_message_for_turn(&lean, AiAction::Continue, "", true, false);
    assert!(with_hint.ends_with(action_prompt(AiAction::Continue)));
}

#[test]
fn lean_context_from_chapter_maps_selection() {
    let block = Block::new(BlockType::Narration, "正文".to_string(), now());
    let lean = LeanContext::from_chapter(
        ProjectContext { project_id: 0, title: "P".into(), style_guide: String::new(), synopsis: String::new() },
        ChapterContext { chapter_id: 1, title: "第一章".into(), status: "draft".into() },
        &[block.clone()],
    );
    match lean.focus {
        Some(LeanFocus::Chapter { ref title, .. }) => assert_eq!(title, "第一章"),
        ref other => panic!("expected chapter focus, got {other:?}"),
    }
    assert_eq!(lean.selection.len(), 1);
    assert_eq!(lean.selection[0].text, "正文");
    assert_eq!(lean.selection[0].block_id, block.id);
    let stored = stored_lean_focus_from_lean(&lean);
    assert!(!lean_focus_changed(&stored, &stored));
    assert!(lean_focus_changed(&None, &stored));
}

#[test]
fn lean_context_from_open_documents() {
    let project = Project::new("书".to_string(), now());
    let mut chapter = Chapter::new("第一章".to_string(), now());
    chapter.blocks.push(Block::new(BlockType::Dialogue, "二".to_string(), now()));
    let multi = BlockMultiSelect::new(0, 5);
    let lean = lean_context_from_app(Some(&project), None, &ScriptFocus::Idle, Some(&chapter), Some(&multi), &BlockFocus::Idle);
    assert_eq!(lean.project.title, "书");
    assert_eq!(lean.selection.len(), 2);
    let lean = lean_context_from_app(None, None, &ScriptFocus::Idle, Some(&chapter), None, &BlockFocus::Selected { index: 1 });
    assert_eq!(lean.project.title, "未打开项目");
    assert_eq!(lean.selection.len(), 1);
    assert_eq!(lean.selection[0].block_type, "对话");
    let none = lean_context_from_app(None, None, &ScriptFocus::Idle, None, None, &BlockFocus::Idle);
    assert!(none.focus.is_none());
    let cc = chapter_context_from_app(Some(&chapter)).unwrap();
    assert_eq!(cc.status, "draft");
}

fn sample_request() -> AiRequest {
    AiRequest {
        project_context: ProjectContext { project_id: 0, title: "示例".into(), style_guide: String::new(), synopsis: String::new() },
        chapter_context: ChapterContext { chapter_id: 0, title: "第一章".into(), status: "draft".into() },
        selected_blocks: vec![Block::new(BlockType::Narration, "正文".to_string(), now())],
        outline_entries: vec![OutlineEntry::new("角色甲".to_string(), OutlineCategory::Character, now())],
        prompt: "继续写下去".into(),
        action: AiAction::Continue,
    }
}

#[test]
fn ai_request_carries_context_fields() {
    let req = sample_request();
    assert_eq!(req.action, AiAction::Continue);
    assert_eq!(req.prompt, "继续写下去");
    assert_eq!(req.selected_blocks.len(), 1);
    assert_eq!(req.outline_entries.len(), 1);
    assert_eq!(req.project_context.title, "示例");
    assert_eq!(req.chapter_context.title, "第一章");
}

#[test]
fn stub_provider_returns_not_configured_error() {
    let provider = StubAiProvider;
    let request = sample_request();
    let err = provider.complete(request).unwrap_err();
    assert!(err.contains("AI provider not configured"), "{err}");
}

#[test]
fn ensure_active_creates_session() {
    let mut mgr = AiSessionManager::default();
    assert!(mgr.active().is_none());
    mgr.ensure_active(now());
    assert!(mgr.active().is_some());
    assert_eq!(mgr.active().unwrap().title, "新对话");
}

#[test]
fn truncate_title_long_text() {
    let long = "这是一段超过三十二个汉字的中文标题用来测试截断逻辑是否正常工作以及额外后缀";
    let t = truncate_title(long);
    assert!(t.chars().count() <= 33);
    assert!(t.ends_with('…'));
    assert_eq!(truncate_title("  短标题 "), "短标题");
}

#[test]
fn replace_loaded_picks_latest_active() {
    let mut mgr = AiSessionManager::default();
    let mut older = AiSession::new(now());
    older.updated_at = now();
    let mut newer = AiSession::new(now());
    newer.updated_at = now() + 60_000;
    let newer_id = newer.id;
    mgr.replace_loaded(vec![older, newer], None);
    assert_eq!(mgr.active_id(), Some(newer_id));
}

#[test]
fn create_and_switch_sessions() {
    let mut mgr = AiSessionManager::default();
    let id1 = mgr.create_session(now());
    mgr.ensure_active(now()).ui_messages.push(AiChatMessage { role: AiChatRole::User, text: "一".into() });
    let id2 = mgr.create_session(now());
    assert_eq!(mgr.active_id(), Some(id2));
    assert_ne!(id1, id2);
    mgr.switch_to(id1).unwrap();
    assert_eq!(mgr.active_id(), Some(id1));
    assert_eq!(mgr.messages()[0].text, "一");
    assert_eq!(mgr.switch_to(12345), Err(SessionError::NotFound(12345)));
}

#[test]
fn session_settings_rename_remove_and_list() {
    let mut mgr = AiSessionManager::default();
    assert_eq!(mgr.active_title(), "新对话");
    assert_eq!(mgr.max_token_tier(), AiMaxTokenTier::Auto);
    assert_eq!(mgr.agent(), AiAgentKind::Default);
    assert!(!mgr.auto_apply());
    mgr.set_auto_apply(true, now());
    mgr.set_agent(AiAgentKind::Writer, now());
    mgr.set_max_token_tier(AiMaxTokenTier::High, now());
    assert!(mgr.auto_apply());
    assert_eq!(mgr.agent(), AiAgentKind::Writer);
    assert_eq!(mgr.max_token_tier(), AiMaxTokenTier::High);
    assert_eq!(mgr.rename_active("   ", now()), Err(SessionError::EmptyTitle));
    mgr.rename_active("  新标题 ", now() + 1).unwrap();
    assert_eq!(mgr.active_title(), "新标题");
    let first = mgr.active_id().unwrap();
    let second = mgr.create_session(now() + 5);
    let list = mgr.list_summaries();
    assert_eq!(list.len(), 2);
    assert_eq!(list[0].id, second);
    assert!(mgr.remove_session(second).is_some());
    assert_eq!(mgr.active_id(), Some(first));
    assert_eq!(mgr.session_count(), 1);
    mgr.set_llm_messages(vec![LlmMessage::new(LlmRole::User, "hi".into())], now());
    assert_eq!(mgr.llm_messages().len(), 1);
    let taken = mgr.take_sessions();
    assert_eq!(taken.len(), 1);
    assert_eq!(mgr.session_count(), 0);
    assert!(mgr.messages().is_empty());
}

#[test]
fn session_title_follows_first_user_message() {
    let mut s = AiSession::new(now());
    s.ui_messages.push(AiChatMessage { role: AiChatRole::Assistant, text: "你好".into() });
    s.ui_messages.push(AiChatMessage { role: AiChatRole::User, text: "  写一章  ".into() });
    s.refresh_title_from_messages();
    assert_eq!(s.title, "写一章");
    assert!(s.is_first_llm_turn());
}

#[test]
fn truncate_llm_history_keeps_tail() {
    let msgs: Vec<LlmMessage> = (0..5).map(|i| LlmMessage::new(LlmRole::User, format!("m{i}"))).collect();
    let kept = truncate_llm_history(msgs, 3);
    assert_eq!(kept.len(), 3);
    assert_eq!(kept[0].text, "m2");
}

#[test]
fn prune_keeps_newest_sessions() {
    let mut a = AiSession::new(now());
    a.updated_at = 1;
    let mut b = AiSession::new(now());
    b.updated_at = 3;
    let mut c = AiSession::new(now());
    c.updated_at = 2;
    let a_id = a.id;
    let sessions = vec![a, b, c];
    assert_eq!(sessions_to_prune(&sessions, 2), vec![a_id]);
    assert!(sessions_to_prune(&sessions, 3).is_empty());
}

#[test]
fn ai_panel_defaults_closed_and_toggles() {
    let mut ui = WorkspaceUi::default();
    assert!(!ui.ai_panel_open);
    ui.toggle_ai_panel();
    assert!(ui.ai_panel_open);
    assert_eq!(SidebarTab::parse("outline"), SidebarTab::Outline);
    assert_eq!(SidebarTab::parse("other"), SidebarTab::Chapters);
    assert_eq!(SidebarTab::Outline.as_str(), "outline");
}

#[test]
fn not_found_message_writes_the_id_hyphenated() {
    let err = ProposalError::NotFound(0xa1a2a3a4b1b2c1c2d1d2d3d4d5d6d7d8);
    assert_eq!(err.message(), "proposal a1a2a3a4-b1b2-c1c2-d1d2-d3d4d5d6d7d8 not found");
}
