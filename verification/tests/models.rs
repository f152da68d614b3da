use chrono::{TimeZone, Utc};

use nwer_core::models::block::{Block, BlockType};
use nwer_core::models::block_focus::{BlockFocus, BlockMultiSelect};
use nwer_core::models::chapter::Chapter;
use nwer_core::models::outline::{OutlineCategory, OutlineEntry};
use nwer_core::models::project::Project;
use nwer_core::models::script::{Script, ScriptBlock, ScriptBlockType};
use nwer_core::models::script_focus::{ScriptFocus, ScriptMultiSelect};

fn at(y: i32, mo: u32, d: u32, h: u32) -> i64 {
    Utc.with_ymd_and_hms(y, mo, d, h, 0, 0).unwrap().timestamp_millis()
}

fn now() -> i64 {
    at(2026, 8, 31, 1)
}

#[test]
fn word_total_includes_aside_and_thought() {
    assert!(BlockType::Aside.counts_toward_word_total());
    assert!(BlockType::Thought.counts_toward_word_total());
    assert!(!BlockType::Aside.counts_as_dialogue_stat());
}

#[test]
fn aside_and_thought_labels() {
    assert!(!BlockType::Aside.allows_speaker());
    assert_eq!(BlockType::Aside.label(), "旁白");
    assert!(BlockType::Thought.allows_speaker());
    assert!(BlockType::Thought.counts_as_dialogue_stat());
    assert_eq!(BlockType::Thought.label(), "心理活动");
    let thought = Block::new_thought("他在想什么？".to_string(), "李四".to_string(), now());
    assert_eq!(thought.block_type, BlockType::Thought);
    assert_eq!(thought.speaker.as_deref(), Some("李四"));
}

#[test]
fn dialogue_block_keeps_speaker() {
    let block = Block::new_dialogue("你好。".to_string(), "张三".to_string(), now());
    assert_eq!(block.block_type, BlockType::Dialogue);
    assert_eq!(block.speaker.as_deref(), Some("张三"));
    assert_eq!(block.content, "你好。");
}

#[test]
fn click_selects_then_edits() {
    let mut focus = BlockFocus::Idle;
    focus = focus.click_block(2);
    assert_eq!(focus, BlockFocus::Selected { index: 2 });
    focus = focus.click_block(2);
    assert_eq!(focus, BlockFocus::Editing { index: 2 });
    focus = focus.click_block(2);
    assert_eq!(focus, BlockFocus::Editing { index: 2 });
}

#[test]
fn click_other_block_selects() {
    let focus = BlockFocus::Editing { index: 1 }.click_block(3);
    assert_eq!(focus, BlockFocus::Selected { index: 3 });
}

#[test]
fn escape_and_outside_end_edit() {
    assert_eq!(BlockFocus::Editing { index: 1 }.escape(), BlockFocus::Selected { index: 1 });
    assert_eq!(BlockFocus::Selected { index: 1 }.escape(), BlockFocus::Idle);
    assert_eq!(BlockFocus::Editing { index: 1 }.click_outside(), BlockFocus::Idle);
}

#[test]
fn move_selection_clamps() {
    let focus = BlockFocus::Selected { index: 0 }.move_selection(-1, 3);
    assert_eq!(focus, BlockFocus::Selected { index: 0 });
    let focus = BlockFocus::Selected { index: 2 }.move_selection(1, 3);
    assert_eq!(focus, BlockFocus::Selected { index: 2 });
    let focus = BlockFocus::Editing { index: 1 }.move_selection(1, 3);
    assert_eq!(focus, BlockFocus::Selected { index: 2 });
}

#[test]
fn clamp_to_len_drops_focus_on_empty_and_clamps_index() {
    assert_eq!(BlockFocus::Selected { index: 5 }.clamp_to_len(0), BlockFocus::Idle);
    assert_eq!(BlockFocus::Editing { index: 5 }.clamp_to_len(3), BlockFocus::Editing { index: 2 });
    assert_eq!(ScriptFocus::Selected { index: 9 }.clamp_to_len(4), ScriptFocus::Selected { index: 3 });
}

#[test]
fn multi_select_orders_its_ends() {
    let m = BlockMultiSelect::new(4, 2);
    assert_eq!((m.start, m.end), (2, 4));
    assert_eq!(m.count(), 3);
    assert!(m.contains(3));
    assert!(!m.contains(5));
    let s = ScriptMultiSelect::new(1, 1);
    assert_eq!(s.count(), 1);
    assert!(s.contains(1));
}

#[test]
fn click_enters_editing() {
    assert_eq!(ScriptFocus::Idle.click_block(2), ScriptFocus::Editing { index: 2 });
}

#[test]
fn escape_clears_focus() {
    assert_eq!(ScriptFocus::Editing { index: 1 }.escape(), ScriptFocus::Selected { index: 1 });
    assert_eq!(ScriptFocus::Selected { index: 1 }.escape(), ScriptFocus::Idle);
}

#[test]
fn rebuild_editor_skipped_while_editing_same_block() {
    let editing = ScriptFocus::Editing { index: 1 };
    assert!(!editing.should_rebuild_editor_on_press(1));
    assert!(editing.should_rebuild_editor_on_press(0));
}

#[test]
fn block_type_labels_and_counts() {
    assert_eq!(ScriptBlockType::SceneHeading.label(), "场景标题");
    assert!(!ScriptBlockType::SceneHeading.counts_toward_word_total());
    assert!(ScriptBlockType::Action.counts_toward_word_total());
    assert!(ScriptBlockType::Dialogue.counts_as_dialogue_line());
    assert!(ScriptBlockType::Character.allows_character());
}

#[test]
fn split_character_creates_dialogue() {
    let mut script = Script::new("测".to_string(), now());
    script.blocks = vec![ScriptBlock::new_character("张三".to_string(), now())];
    let offset = "张".len();
    script.split_block_at(0, offset, now()).unwrap();
    assert_eq!(script.blocks.len(), 2);
    assert_eq!(script.blocks[0].block_type, ScriptBlockType::Character);
    assert_eq!(script.blocks[1].block_type, ScriptBlockType::Dialogue);
    assert_eq!(script.blocks[1].character.as_deref(), Some("张三"));
    assert_eq!(script.blocks[1].content, "三");
}

#[test]
fn scene_heading_uppercases_on_save() {
    let mut script = Script::new("测".to_string(), now());
    script.set_block_content(0, "int. 客厅 - 夜".to_string(), now()).unwrap();
    assert_eq!(script.blocks[0].content, "INT. 客厅 - 夜");
}

#[test]
fn set_block_type_clears_character() {
    let mut script = Script::new("测".to_string(), now());
    script.blocks = vec![ScriptBlock::new_dialogue("你好".to_string(), "甲".to_string(), now())];
    script.set_block_type(0, ScriptBlockType::Action, now()).unwrap();
    assert!(script.blocks[0].character.is_none());
}

#[test]
fn music_default_end_stops_at_earlier_of_same_type_or_scene() {
    let mut script = Script::new("测".to_string(), now());
    let m1 = ScriptBlock::new(ScriptBlockType::Music, "BGM1".to_string(), now());
    let a1 = ScriptBlock::new(ScriptBlockType::Action, "动作1".to_string(), now());
    let m2 = ScriptBlock::new(ScriptBlockType::Music, "BGM2".to_string(), now());
    let a2 = ScriptBlock::new(ScriptBlockType::Action, "动作2".to_string(), now());
    let scene = ScriptBlock::new(ScriptBlockType::SceneHeading, "INT. 二".to_string(), now());
    script.blocks = vec![m1, a1, m2, a2, scene];
    assert_eq!(script.resolved_span_end_index(0), Some(1));
}

#[test]
fn music_default_end_stops_at_scene_when_no_same_type() {
    let mut script = Script::new("测".to_string(), now());
    let m1 = ScriptBlock::new(ScriptBlockType::Music, "BGM".to_string(), now());
    let a1 = ScriptBlock::new(ScriptBlockType::Action, "a".to_string(), now());
    let scene = ScriptBlock::new(ScriptBlockType::SceneHeading, "INT. 二".to_string(), now());
    let a2 = ScriptBlock::new(ScriptBlockType::Action, "b".to_string(), now());
    script.blocks = vec![m1, a1, scene, a2];
    assert_eq!(script.resolved_span_end_index(0), Some(1));
}

#[test]
fn explicit_ends_at_wins() {
    let mut script = Script::new("测".to_string(), now());
    let mut m1 = ScriptBlock::new(ScriptBlockType::Music, "BGM".to_string(), now());
    let a1 = ScriptBlock::new(ScriptBlockType::Action, "a".to_string(), now());
    let a2 = ScriptBlock::new(ScriptBlockType::Action, "b".to_string(), now());
    let scene = ScriptBlock::new(ScriptBlockType::SceneHeading, "INT. 二".to_string(), now());
    m1.ends_at = Some(a2.id);
    script.blocks = vec![m1, a1, a2, scene];
    assert_eq!(script.resolved_span_end_index(0), Some(2));
}

#[test]
fn set_ends_at_rejects_same_type_overlap() {
    let mut script = Script::new("测".to_string(), now());
    let m1 = ScriptBlock::new(ScriptBlockType::Music, "A".to_string(), now());
    let a1 = ScriptBlock::new(ScriptBlockType::Action, "x".to_string(), now());
    let m2 = ScriptBlock::new(ScriptBlockType::Music, "B".to_string(), now());
    let a2 = ScriptBlock::new(ScriptBlockType::Action, "y".to_string(), now());
    let a3 = ScriptBlock::new(ScriptBlockType::Action, "z".to_string(), now());
    script.blocks = vec![m1, a1, m2, a2, a3];
    let a3_id = script.blocks[4].id;
    assert!(script.set_ends_at(0, Some(a3_id), now()).is_err());
}

#[test]
fn remove_block_clears_ends_at_refs() {
    let mut script = Script::new("测".to_string(), now());
    let m1 = ScriptBlock::new(ScriptBlockType::Music, "A".to_string(), now());
    let a1 = ScriptBlock::new(ScriptBlockType::Action, "x".to_string(), now());
    let a2 = ScriptBlock::new(ScriptBlockType::Action, "y".to_string(), now());
    script.blocks = vec![m1, a1, a2];
    let end_id = script.blocks[2].id;
    script.set_ends_at(0, Some(end_id), now()).unwrap();
    script.remove_block(2).unwrap();
    assert!(script.blocks[0].ends_at.is_none());
}

#[test]
fn set_block_type_to_sfx_clears_ends_at() {
    let mut script = Script::new("测".to_string(), now());
    let mut m = ScriptBlock::new(ScriptBlockType::Music, "A".to_string(), now());
    let a = ScriptBlock::new(ScriptBlockType::Action, "x".to_string(), now());
    m.ends_at = Some(a.id);
    script.blocks = vec![m, a];
    script.set_block_type(0, ScriptBlockType::Sfx, now()).unwrap();
    assert!(script.blocks[0].ends_at.is_none());
    assert_eq!(script.blocks[0].block_type, ScriptBlockType::Sfx);
}

#[test]
fn sfx_label_and_word_count() {
    assert_eq!(ScriptBlockType::Sfx.label(), "音效");
    assert_eq!(ScriptBlockType::Music.label(), "音乐");
    assert!(ScriptBlockType::Sfx.counts_toward_word_total());
    assert!(!ScriptBlockType::Sfx.is_span_cue());
    assert!(ScriptBlockType::Music.is_span_cue());
    assert_eq!(ScriptBlockType::all().len(), 10);
}

#[test]
fn mood_may_overlap_music() {
    let mut script = Script::new("测".to_string(), now());
    let music = ScriptBlock::new(ScriptBlockType::Music, "BGM".to_string(), now());
    let mood = ScriptBlock::new(ScriptBlockType::Mood, "紧张".to_string(), now());
    let a1 = ScriptBlock::new(ScriptBlockType::Action, "x".to_string(), now());
    let a2 = ScriptBlock::new(ScriptBlockType::Action, "y".to_string(), now());
    script.blocks = vec![music, mood, a1, a2];
    let end = script.blocks[3].id;
    script.set_ends_at(0, Some(end), now()).unwrap();
    script.set_ends_at(1, Some(end), now()).unwrap();
    assert_eq!(script.resolved_span_end_index(0), Some(3));
    assert_eq!(script.resolved_span_end_index(1), Some(3));
}

#[test]
fn merge_blocks_joins_contents_with_newlines() {
    let mut script = Script::new("测".to_string(), now());
    script.blocks = vec![
        ScriptBlock::new(ScriptBlockType::Action, "一".to_string(), now()),
        ScriptBlock::new(ScriptBlockType::Action, "二".to_string(), now()),
        ScriptBlock::new(ScriptBlockType::Action, "三".to_string(), now()),
    ];
    script.merge_blocks(0, 2, now()).unwrap();
    assert_eq!(script.blocks.len(), 1);
    assert_eq!(script.blocks[0].content, "一\n二\n三");
}

#[test]
fn move_and_swap_reorder_blocks() {
    let mut script = Script::new("测".to_string(), now());
    script.blocks = vec![
        ScriptBlock::new(ScriptBlockType::Action, "a".to_string(), now()),
        ScriptBlock::new(ScriptBlockType::Action, "b".to_string(), now()),
        ScriptBlock::new(ScriptBlockType::Action, "c".to_string(), now()),
    ];
    script.move_block(0, 2).unwrap();
    let order: Vec<&str> = script.blocks.iter().map(|b| b.content.as_str()).collect();
    assert_eq!(order, vec!["b", "a", "c"]);
    script.move_block(1, 3).unwrap();
    let order: Vec<&str> = script.blocks.iter().map(|b| b.content.as_str()).collect();
    assert_eq!(order, vec!["b", "c", "a"]);
    script.swap_block(2, true).unwrap();
    let order: Vec<&str> = script.blocks.iter().map(|b| b.content.as_str()).collect();
    assert_eq!(order, vec!["b", "a", "c"]);
    assert!(script.move_block(5, 0).is_err());
}

#[test]
fn new_chapter_and_project_defaults() {
    let chapter = Chapter::new("第一章".to_string(), now());
    assert_eq!(chapter.schema_version, 1);
    assert_eq!(chapter.title, "第一章");
    assert_eq!(chapter.blocks.len(), 1);
    assert_eq!(chapter.meta.status, "draft");
    let project = Project::new("示例".to_string(), now());
    assert_eq!(project.schema_version, 1);
    assert_eq!(project.settings.max_depth, 3);
    assert_eq!(project.ui_state.sidebar_tab, "chapters");
    assert_eq!(project.total_word_count, 0);
}

#[test]
fn outline_categories_have_chinese_labels() {
    let labels: Vec<&str> = OutlineCategory::all().iter().map(|c| c.label()).collect();
    assert_eq!(labels, vec!["角色", "背景", "场景", "事件", "杂项"]);
    let entry = OutlineEntry::new("张三".to_string(), OutlineCategory::Character, now());
    assert_eq!(entry.key, "张三");
    assert!(entry.fields.is_empty());
    let copy = entry.clone();
    assert_eq!(copy, entry);
}

#[test]
fn project_defaults_match_spec() {
    let project = Project::new("未命名".to_string(), at(2026, 8, 29, 8));
    assert_eq!(project.schema_version, 1);
    assert_eq!(project.settings.max_depth, 3);
    assert!(!project.ui_state.ai_panel_open);
    assert_eq!(project.ui_state.sidebar_tab, "chapters");
    assert_eq!(project.total_word_count, 0);
    assert!(project.last_opened_chapter.is_none());
}
