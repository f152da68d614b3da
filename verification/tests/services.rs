use chrono::{TimeZone, Utc};

use nwer_core::models::block::{Block, BlockType};
use nwer_core::models::chapter::Chapter;
use nwer_core::models::outline::{OutlineCategory, OutlineEntry};
use nwer_core::models::script::{Script, ScriptBlock, ScriptBlockType};
use nwer_core::services::autosave::{action_for, DebounceTimer, SaveAction, SaveTrigger, TEXT_DEBOUNCE_MS};
use nwer_core::services::preview::{chapter_preview_lines, script_preview_lines};
use nwer_core::services::search::{
    block_participates_in_full_text, chapter_hits, chapter_paths, filter_chapter_tree_by_name,
    filter_outline_by_name, filter_script_tree_by_name, make_snippet, try_make_snippet, SearchMode,
};
use nwer_core::services::word_count::{count_chapter, count_chars, count_script, update_book_total};
use nwer_core::storage::chapter_tree::{ChapterNodeKind, ChapterTreeNode};
use nwer_core::storage::script_tree::{ScriptNodeKind, ScriptTreeNode};

fn now() -> i64 {
    Utc.with_ymd_and_hms(2026, 8, 30, 1, 0, 0).unwrap().timestamp_millis()
}

#[test]
fn text_edit_debounces_500ms() {
    let mut t = DebounceTimer::with_default_delay();
    assert_eq!(action_for(SaveTrigger::TextEdit), SaveAction::ScheduleDebounce);
    t.schedule_from(1_000);
    assert!(t.is_pending());
    assert!(!t.is_due(1_499));
    assert!(t.is_due(1_500));
    assert!(t.take_if_due(1_500));
    assert!(!t.is_pending());
}

#[test]
fn structural_manual_and_leave_are_immediate() {
    for trigger in [SaveTrigger::StructuralChange, SaveTrigger::Manual, SaveTrigger::BeforeLeave] {
        assert_eq!(action_for(trigger), SaveAction::SaveNow);
    }
}

#[test]
fn reschedule_extends_window() {
    let mut t = DebounceTimer::with_default_delay();
    t.schedule_from(0);
    t.schedule_from(200);
    assert!(!t.is_due(500));
    assert!(t.is_due(700));
}

#[test]
fn take_pending_cancels_debounce() {
    let mut t = DebounceTimer::with_default_delay();
    t.schedule_from(0);
    assert!(t.take_pending());
    assert!(!t.is_pending());
    assert!(!t.take_pending());
}

#[test]
fn debounce_delay_and_cancel() {
    assert_eq!(TEXT_DEBOUNCE_MS, 500);
    let mut t = DebounceTimer::new(100);
    assert!(!t.is_due(u64::MAX));
    t.schedule_from(10);
    t.cancel();
    assert!(!t.is_pending());
    assert!(!t.take_if_due(1_000));
    assert!(SaveTrigger::Manual.is_immediate());
    assert!(!SaveTrigger::TextEdit.is_immediate());
}

#[test]
fn classifies_han_punct_space_and_other() {
    let s = "汉字， ABC\n";
    let c = count_chars(s);
    assert_eq!(c.han, 2);
    assert_eq!(c.punct_space, 3);
    assert_eq!(c.other, 3);
    assert_eq!(c.total(), 8);
}

#[test]
fn excludes_note_scene_break_and_speaker() {
    let mut chapter = Chapter::new("测".to_string(), now());
    chapter.blocks = vec![
        Block::new(BlockType::Narration, "一二".to_string(), now()),
        Block::new_dialogue("三。".to_string(), "说话人甲".to_string(), now()),
        Block::new(BlockType::Note, "备注汉字很多".to_string(), now()),
        Block::new(BlockType::SceneBreak, "***".to_string(), now()),
    ];
    let exclude = [BlockType::Note, BlockType::SceneBreak];
    let stats = count_chapter(&chapter, &exclude);
    assert_eq!(stats.chars.han, 3);
    assert_eq!(stats.chars.punct_space, 1);
    assert_eq!(stats.chars.other, 0);
    assert_eq!(stats.total_words(), 4);
    assert_eq!(stats.block_count, 4);
    assert_eq!(stats.dialogue_count, 1);
}

#[test]
fn respect_custom_exclude_types() {
    let mut chapter = Chapter::new("测".to_string(), now());
    chapter.blocks = vec![
        Block::new(BlockType::Narration, "甲".to_string(), now()),
        Block::new_dialogue("乙".to_string(), "谁".to_string(), now()),
    ];
    let exclude = [BlockType::Note, BlockType::SceneBreak, BlockType::Dialogue];
    let stats = count_chapter(&chapter, &exclude);
    assert_eq!(stats.chars.han, 1);
    assert_eq!(stats.dialogue_count, 1);
    assert_eq!(stats.total_words(), 1);
}

#[test]
fn aside_and_thought_count_words_and_dialogue_stat() {
    let mut chapter = Chapter::new("测".to_string(), now());
    chapter.blocks = vec![
        Block::new(BlockType::Aside, "旁白甲".to_string(), now()),
        Block::new_thought("心想乙。".to_string(), "李四".to_string(), now()),
        Block::new_dialogue("说话丙".to_string(), "王五".to_string(), now()),
    ];
    let exclude = [BlockType::Note, BlockType::SceneBreak];
    let stats = count_chapter(&chapter, &exclude);
    assert_eq!(stats.chars.han, 9);
    assert_eq!(stats.chars.punct_space, 1);
    assert_eq!(stats.dialogue_count, 2);
    assert_eq!(stats.total_words(), 10);
}

#[test]
fn count_script_words_and_dialogue_lines() {
    let mut script = Script::new("测".to_string(), now());
    script.blocks = vec![
        ScriptBlock::new(ScriptBlockType::Action, "动作描述".to_string(), now()),
        ScriptBlock::new_dialogue("你好".to_string(), "张三".to_string(), now()),
        ScriptBlock::new(ScriptBlockType::Note, "备注".to_string(), now()),
    ];
    let stats = count_script(&script);
    assert_eq!(stats.dialogue_count, 1);
    assert!(stats.total_words() > 0);
    assert_eq!(stats.total_words(), 6);
}

#[test]
fn book_total_incremental_update() {
    assert_eq!(update_book_total(100, 40, 55), 115);
    assert_eq!(update_book_total(10, 20, 5), 5);
}

#[test]
fn chapter_preview_indents_two_chars() {
    let mut chapter = Chapter::new("测".to_string(), now());
    chapter.blocks = vec![Block::new(BlockType::Narration, "第一段。".to_string(), now())];
    let lines = chapter_preview_lines(&chapter);
    assert_eq!(lines, vec!["　　第一段。".to_string()]);
}

#[test]
fn chapter_preview_shows_empty_scene_break_and_skips_empty_blocks() {
    let mut chapter = Chapter::new("测".to_string(), now());
    chapter.blocks = vec![
        Block::new(BlockType::SceneBreak, String::new(), now()),
        Block::new(BlockType::Narration, String::new(), now()),
    ];
    assert_eq!(chapter_preview_lines(&chapter), vec!["　　—— ✦ ——".to_string()]);
}

#[test]
fn script_preview_formats_dialogue() {
    let mut script = Script::new("测".to_string(), now());
    script.blocks = vec![
        ScriptBlock::new(ScriptBlockType::Action, "张三进门。".to_string(), now()),
        ScriptBlock::new_character("张三".to_string(), now()),
        ScriptBlock::new_dialogue("你好。".to_string(), "张三".to_string(), now()),
    ];
    let lines = script_preview_lines(&script);
    assert_eq!(lines, vec!["场景描述：张三进门。".to_string(), "张三说：你好。".to_string()]);
}

#[test]
fn script_preview_span_cues_use_start_end_markers() {
    let mut script = Script::new("测".to_string(), now());
    let music = ScriptBlock::new(ScriptBlockType::Music, "低沉 BGM".to_string(), now());
    let action = ScriptBlock::new(ScriptBlockType::Action, "雨下个不停。".to_string(), now());
    let scene = ScriptBlock::new(ScriptBlockType::SceneHeading, "INT. 二".to_string(), now());
    script.blocks = vec![music, action, scene];
    let lines = script_preview_lines(&script);
    assert_eq!(
        lines,
        vec![
            "音乐1开始：低沉 BGM".to_string(),
            "场景描述：雨下个不停。".to_string(),
            "音乐1结束".to_string(),
            "场景：INT. 二".to_string(),
        ]
    );
}

#[test]
fn script_preview_dialogue_without_any_speaker_uses_placeholder() {
    let mut script = Script::new("测".to_string(), now());
    let mut d = ScriptBlock::new(ScriptBlockType::Dialogue, "嗯。".to_string(), now());
    d.character = None;
    script.blocks = vec![
        d,
        ScriptBlock::new(ScriptBlockType::Note, "注".to_string(), now()),
        ScriptBlock::new(ScriptBlockType::Mood, "紧张".to_string(), now()),
        ScriptBlock::new(ScriptBlockType::Music, "A".to_string(), now()),
    ];
    let lines = script_preview_lines(&script);
    assert_eq!(
        lines,
        vec![
            "某人说：嗯。".to_string(),
            "（备注：注）".to_string(),
            "氛围1开始：紧张".to_string(),
            "音乐1开始：A".to_string(),
            "音乐1结束".to_string(),
            "氛围1结束".to_string(),
        ]
    );
}

fn chapter_node(rel: &str, name: &str, title: Option<&str>, kind: ChapterNodeKind, children: Vec<ChapterTreeNode>) -> ChapterTreeNode {
    ChapterTreeNode {
        rel_path: rel.to_string(),
        name: name.to_string(),
        kind,
        chapter_id: if kind == ChapterNodeKind::Chapter { Some(1) } else { None },
        title: title.map(|t| t.to_string()),
        children,
    }
}

fn sample_chapter_tree() -> Vec<ChapterTreeNode> {
    vec![chapter_node(
        "vol-001第一卷",
        "vol-001第一卷",
        None,
        ChapterNodeKind::Directory,
        vec![chapter_node(
            "vol-001第一卷/part-001上篇",
            "part-001上篇",
            None,
            ChapterNodeKind::Directory,
            vec![
                chapter_node(
                    "vol-001第一卷/part-001上篇/ch-001开篇.json",
                    "ch-001开篇",
                    Some("开篇相遇"),
                    ChapterNodeKind::Chapter,
                    Vec::new(),
                ),
                chapter_node(
                    "vol-001第一卷/part-001上篇/ch-002无关.json",
                    "ch-002无关",
                    Some("无关章节"),
                    ChapterNodeKind::Chapter,
                    Vec::new(),
                ),
            ],
        )],
    )]
}

#[test]
fn name_filter_keeps_ancestor_path_for_matching_chapter() {
    let tree = sample_chapter_tree();
    let filtered = filter_chapter_tree_by_name(&tree, "相遇");
    assert_eq!(filtered.len(), 1);
    assert_eq!(filtered[0].name, "vol-001第一卷");
    assert_eq!(filtered[0].children.len(), 1);
    assert_eq!(filtered[0].children[0].name, "part-001上篇");
    assert_eq!(filtered[0].children[0].children.len(), 1);
    assert_eq!(filtered[0].children[0].children[0].title.as_deref(), Some("开篇相遇"));
    let by_vol = filter_chapter_tree_by_name(&tree, "第一卷");
    assert_eq!(by_vol[0].children[0].children.len(), 2);
}

#[test]
fn name_filter_blank_query_keeps_tree_and_ignores_case() {
    let tree = sample_chapter_tree();
    assert_eq!(filter_chapter_tree_by_name(&tree, "   "), tree);
    assert!(filter_chapter_tree_by_name(&tree, "不存在").is_empty());
    let tree2 = vec![chapter_node("Vol", "Vol", None, ChapterNodeKind::Directory, Vec::new())];
    assert_eq!(filter_chapter_tree_by_name(&tree2, " vOL ").len(), 1);
}

#[test]
fn name_filter_matches_outline_entry_keys() {
    let entries = vec![
        OutlineEntry::new("张三".to_string(), OutlineCategory::Character, now()),
        OutlineEntry::new("李四".to_string(), OutlineCategory::Character, now()),
        OutlineEntry::new("青云门".to_string(), OutlineCategory::Background, now()),
    ];
    let filtered = filter_outline_by_name(&entries, "张");
    assert_eq!(filtered.len(), 1);
    assert_eq!(filtered[0].key, "张三");
    assert_eq!(filter_outline_by_name(&entries, "").len(), 3);
}

#[test]
fn name_filter_matches_script_tree() {
    let tree = vec![ScriptTreeNode {
        rel_path: "ep01.json".into(),
        name: "ep01".into(),
        kind: ScriptNodeKind::Script,
        script_id: None,
        title: Some("第一集".into()),
        children: vec![],
    }];
    let filtered = filter_script_tree_by_name(&tree, "第一集");
    assert_eq!(filtered.len(), 1);
}

#[test]
fn full_text_hits_include_snippet_and_block_location() {
    let mut chapter = Chapter::new("烛火之夜".to_string(), now());
    chapter.blocks.clear();
    chapter.blocks.push(Block::new(BlockType::Narration, "他推开门，屋里的烛火轻轻摇曳。远处传来脚步声。".to_string(), now()));
    chapter.blocks.push(Block::new(BlockType::Dialogue, "谁在那里？".to_string(), now()));
    chapter.blocks.push(Block::new(BlockType::Note, "备注：烛火意象".to_string(), now()));
    chapter.blocks.push(Block::new(BlockType::SceneBreak, "---烛火---".to_string(), now()));
    let rel = "ch-001.json";
    let hits = chapter_hits(rel, &chapter, "烛火").unwrap();
    assert_eq!(hits.len(), 2);
    assert!(hits.iter().all(|h| h.chapter_rel == rel));
    assert!(hits.iter().all(|h| h.chapter_title == "烛火之夜"));
    let narration = hits.iter().find(|h| h.block_type == BlockType::Narration).expect("narration hit");
    assert_eq!(narration.block_index, 0);
    assert!(narration.snippet.contains("烛火"));
    assert_eq!(narration.block_id, chapter.blocks[0].id);
    let note = hits.iter().find(|h| h.block_type == BlockType::Note).expect("note hit");
    assert_eq!(note.block_index, 2);
    assert!(!hits.iter().any(|h| h.block_type == BlockType::SceneBreak));
}

#[test]
fn chapter_paths_visit_chapters_depth_first() {
    let paths = chapter_paths(&sample_chapter_tree());
    assert_eq!(
        paths,
        vec![
            "vol-001第一卷/part-001上篇/ch-001开篇.json".to_string(),
            "vol-001第一卷/part-001上篇/ch-002无关.json".to_string(),
        ]
    );
    assert!(!block_participates_in_full_text(BlockType::SceneBreak));
    assert!(block_participates_in_full_text(BlockType::Note));
    assert_eq!(SearchMode::default(), SearchMode::NameFilter);
}

#[test]
fn make_snippet_adds_ellipsis_around_match() {
    let content = "前缀文字一二三四五六七八九十甲乙丙丁戊己庚辛壬癸后缀文字继续延伸";
    let snippet = make_snippet(content, "甲乙").unwrap();
    assert!(snippet.contains("甲乙"));
    assert!(snippet.starts_with('…'));
    assert!(snippet.ends_with('…'));
}

#[test]
fn make_snippet_exact_window_and_case() {
    assert_eq!(make_snippet("Hello World", "world").as_deref(), Some("Hello World"));
    assert_eq!(make_snippet("abc", "z"), None);
    let content = "0123456789abcdefghijKEYklmnopqrstuvwxyz";
    assert_eq!(make_snippet(content, "key").as_deref(), Some("…89abcdefghijKEYklmnopqrstuv…"));
    assert_eq!(try_make_snippet("abc", "b"), Ok(Some("abc".to_string())));
}

#[test]
fn trim_drops_unicode_white_space_only() {
    assert_eq!(nwer_core::text::trim("\u{3000}\u{85} 甲 乙\u{2029}\t"), "甲 乙");
    assert!(nwer_core::text::is_blank_str("\u{a0}\u{2000}\u{200a}\n"));
    assert!(!nwer_core::text::is_blank_str("\u{200b}"));
}
