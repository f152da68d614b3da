use chrono::{TimeZone, Utc};

use nwer_core::models::outline::OutlineCategory;
use nwer_core::storage::ai_session_store::{active_index_path, ai_sessions_dir, session_path};
use nwer_core::storage::chapter_tree::{chapters_dir, ChapterNodeKind, ChapterTreeNode};
use nwer_core::storage::outline_store::{outline_entry_path, outline_file_names};
use nwer_core::storage::path_validation::{validate_storage_name, NameError};
use nwer_core::storage::paths::{depth_below_root, join_path, rel_join, resolve_under_root};
use nwer_core::storage::project_store::{
    add_recent_project, ai_providers, check_can_create_chapter, check_can_create_directory,
    default_base_url_for_provider, remove_recent_project, validate_settings_save, AppConfig,
    DirProbe, EntryInfo, RuleViolation,
};
use nwer_core::storage::script_tree::{
    check_can_move, find_node_by_rel, find_node_by_script_id, resolve_rel, scripts_dir,
    ScriptNodeKind, ScriptTreeNode,
};
use nwer_core::storage::tree_rules::{
    file_stem, list_sibling_names, moved_base, plan_listing, plan_move_sibling, renamed_base,
    subtree_height, DirTree, EntryKind, MoveDirection, SiblingMove, TreeError,
};

fn ms(y: i32, mo: u32, d: u32, h: u32) -> i64 {
    Utc.with_ymd_and_hms(y, mo, d, h, 0, 0).unwrap().timestamp_millis()
}

fn entry(name: &str, is_dir: bool) -> EntryInfo {
    EntryInfo { name: name.to_string(), is_dir, is_file: !is_dir }
}

fn dir(name: &str, children: Vec<DirTree>) -> DirTree {
    DirTree { name: name.to_string(), is_file: false, children }
}

fn file(name: &str) -> DirTree {
    DirTree { name: name.to_string(), is_file: true, children: Vec::new() }
}

#[test]
fn accepts_valid_names() {
    for name in ["示例小说", "张三", "ch-001开篇", "vol-001"] {
        validate_storage_name(name).unwrap();
    }
}

#[test]
fn rejects_empty_and_whitespace() {
    for name in ["", "   ", "\t"] {
        let err = validate_storage_name(name).unwrap_err();
        assert!(err.message().contains("empty"), "{name:?}: {}", err.message());
    }
}

#[test]
fn rejects_dot_segments() {
    for name in [".", "..", "foo/..", "../evil", "..\\evil", "a..b"] {
        let err = validate_storage_name(name).unwrap_err();
        let msg = err.message();
        assert!(msg.contains("..") || msg.contains("'.'"), "{name:?}: {msg}");
    }
}

#[test]
fn rejects_path_separators() {
    for name in ["foo/bar", "foo\\bar", "/abs", "rel/"] {
        let err = validate_storage_name(name).unwrap_err();
        assert!(err.message().contains("path separators"), "{name:?}: {}", err.message());
    }
}

#[test]
fn name_errors_come_in_rule_order() {
    assert_eq!(validate_storage_name("  "), Err(NameError::Empty));
    assert_eq!(validate_storage_name(".."), Err(NameError::DotSegment));
    assert_eq!(validate_storage_name("a..b"), Err(NameError::ContainsDotDot));
    assert_eq!(validate_storage_name("a/b"), Err(NameError::PathSeparator));
    assert_eq!(validate_storage_name("a\0b"), Err(NameError::NullByte));
}

#[test]
fn outline_entry_path_uses_category_label() {
    let path = outline_entry_path("/novel", OutlineCategory::Character, "张三").unwrap();
    assert_eq!(path, "/novel/outline/角色/张三.json");
}

#[test]
fn outline_entry_path_rejects_invalid_key() {
    for key in ["", "../evil", "foo/bar", ".."] {
        let err = outline_entry_path("/novel", OutlineCategory::Character, key).unwrap_err();
        let msg = err.message();
        assert!(
            msg.contains("empty") || msg.contains("..") || msg.contains("path separators"),
            "key {key:?}: {msg}"
        );
    }
}

#[test]
fn outline_folder_lists_visible_json_files_in_name_order() {
    let names = outline_file_names(vec![
        entry("乙.json", false),
        entry(".hidden.json", false),
        entry("甲.json", false),
        entry("notes.txt", false),
        entry("sub.json", true),
    ]);
    assert_eq!(names, vec!["乙.json".to_string(), "甲.json".to_string()]);
}

#[test]
fn default_base_url_for_known_providers() {
    assert_eq!(default_base_url_for_provider("deepseek").as_deref(), Some("https://api.deepseek.com"));
    assert_eq!(default_base_url_for_provider("kimi").as_deref(), Some("https://api.moonshot.cn/v1"));
    assert_eq!(default_base_url_for_provider("ollama").as_deref(), Some("http://127.0.0.1:11434"));
    assert!(default_base_url_for_provider("unknown").is_none());
}

#[test]
fn providers_list_names_each_provider() {
    let ids: Vec<&str> = ai_providers().iter().map(|(id, _)| *id).collect();
    assert_eq!(ids, vec!["deepseek", "kimi", "ollama", "vllm", "local"]);
}

#[test]
fn validate_settings_save_rules() {
    assert!(validate_settings_save("~/x", "").is_ok());
    assert!(validate_settings_save("~/x", "https://api.example.com").is_ok());
    assert!(validate_settings_save("  ", "").is_err());
    assert!(validate_settings_save("~/x", "ftp://bad").is_err());
}

#[test]
fn config_recent_ordering() {
    let mut config = AppConfig::default();
    assert_eq!(config.projects_root, "~/Documents/Novels");
    assert_eq!(config.max_recent, 10);
    let t1 = ms(2026, 8, 29, 8);
    let t2 = ms(2026, 8, 29, 9);
    let t3 = ms(2026, 8, 29, 10);
    add_recent_project(&mut config, "/p/a".to_string(), "A".to_string(), t1);
    add_recent_project(&mut config, "/p/b".to_string(), "B".to_string(), t2);
    add_recent_project(&mut config, "/p/c".to_string(), "C".to_string(), t3);
    let titles: Vec<&str> = config.recent_projects.iter().map(|r| r.title.as_str()).collect();
    assert_eq!(titles, vec!["C", "B", "A"]);
    let t4 = ms(2026, 8, 29, 11);
    add_recent_project(&mut config, "/p/a".to_string(), "A".to_string(), t4);
    assert_eq!(config.recent_projects.len(), 3);
    assert_eq!(config.recent_projects[0].path, "/p/a");
    assert_eq!(config.recent_projects[0].last_opened, t4);
    remove_recent_project(&mut config, "/p/b");
    assert_eq!(config.recent_projects.len(), 2);
    assert!(config.recent_projects.iter().all(|r| r.path != "/p/b"));
}

#[test]
fn recent_list_respects_max_recent() {
    let mut config = AppConfig { max_recent: 2, ..AppConfig::default() };
    add_recent_project(&mut config, "/1".to_string(), "1".to_string(), ms(2026, 1, 1, 0));
    add_recent_project(&mut config, "/2".to_string(), "2".to_string(), ms(2026, 1, 2, 0));
    add_recent_project(&mut config, "/3".to_string(), "3".to_string(), ms(2026, 1, 3, 0));
    assert_eq!(config.recent_projects.len(), 2);
    assert_eq!(config.recent_projects[0].path, "/3");
    assert_eq!(config.recent_projects[1].path, "/2");
}

#[test]
fn recent_list_with_zero_limit_keeps_nothing() {
    let mut config = AppConfig { max_recent: 0, ..AppConfig::default() };
    add_recent_project(&mut config, "/1".to_string(), "1".to_string(), ms(2026, 1, 1, 0));
    add_recent_project(&mut config, "/2".to_string(), "2".to_string(), ms(2026, 1, 2, 0));
    assert!(config.recent_projects.is_empty());
}

#[test]
fn io_error_from_classify_children_is_not_outside_chapters_root() {
    let probe = DirProbe::Unreadable(std::io::ErrorKind::PermissionDenied);
    let err = check_can_create_chapter("/n/chapters", "/n/chapters", 3, &probe).unwrap_err();
    assert!(matches!(err, RuleViolation::Io(_)));
    assert_ne!(err, RuleViolation::OutsideChaptersRoot);
}

#[test]
fn rejects_chapter_when_parent_has_subdirectory() {
    let probe = DirProbe::Entries(vec![entry("vol-001", true)]);
    let err = check_can_create_chapter("/n/chapters", "/n/chapters", 3, &probe).unwrap_err();
    assert_eq!(err, RuleViolation::MixedChildren);
}

#[test]
fn rejects_directory_when_parent_has_chapter_file() {
    let probe = DirProbe::Entries(vec![entry("ch-001开篇.json", false)]);
    let err = check_can_create_directory("/n/chapters", "/n/chapters", 3, &probe).unwrap_err();
    assert_eq!(err, RuleViolation::MixedChildren);
}

#[test]
fn allows_chapter_among_chapters_and_directory_among_dirs() {
    let dirs = DirProbe::Entries(vec![entry("vol-001", true)]);
    check_can_create_directory("/n/chapters", "/n/chapters", 3, &dirs).unwrap();
    let files = DirProbe::Entries(vec![entry("ch-001.json", false)]);
    check_can_create_chapter("/n/chapters", "/n/chapters/vol-001", 3, &files).unwrap();
}

#[test]
fn rejects_when_depth_exceeds_max() {
    let probe = DirProbe::Entries(Vec::new());
    let err = check_can_create_chapter("/n/chapters", "/n/chapters/a/b/c", 3, &probe).unwrap_err();
    assert_eq!(err, RuleViolation::MaxDepthExceeded { attempted: 4, max_depth: 3 });
    let err = check_can_create_directory("/n/chapters", "/n/chapters/a/b/c", 3, &probe).unwrap_err();
    assert_eq!(err, RuleViolation::MaxDepthExceeded { attempted: 4, max_depth: 3 });
}

#[test]
fn allows_chapter_at_exact_max_depth() {
    let probe = DirProbe::Entries(Vec::new());
    check_can_create_chapter("/n/chapters", "/n/chapters/a/b", 3, &probe).unwrap();
}

#[test]
fn placement_outside_root_and_hidden_entries() {
    let probe = DirProbe::Missing;
    assert_eq!(
        check_can_create_chapter("/n/chapters", "/n/other", 3, &probe),
        Err(RuleViolation::OutsideChaptersRoot)
    );
    let hidden = DirProbe::Entries(vec![entry(".git", true), entry(".x.json", false)]);
    check_can_create_chapter("/n/chapters", "/n/chapters", 3, &hidden).unwrap();
    check_can_create_directory("/n/chapters", "/n/chapters", 3, &hidden).unwrap();
    assert_eq!(
        RuleViolation::MaxDepthExceeded { attempted: 4, max_depth: 3 }.message(),
        "depth 4 exceeds max_depth 3"
    );
}

#[test]
fn paths_join_and_resolve() {
    assert_eq!(join_path("/novel", "chapters"), "/novel/chapters");
    assert_eq!(join_path("/novel/", "chapters"), "/novel/chapters");
    assert_eq!(join_path("", "chapters"), "chapters");
    assert_eq!(rel_join("", "a.json"), "a.json");
    assert_eq!(rel_join("vol", "a.json"), "vol/a.json");
    assert_eq!(resolve_under_root("/r", "a/b.json").unwrap(), "/r/a/b.json");
    assert_eq!(resolve_under_root("/r", "").unwrap(), "/r");
    assert_eq!(resolve_under_root("/r", "a/../b"), Err(NameError::DotSegment));
    assert_eq!(depth_below_root("/r", "/r/a/b"), Some(2));
    assert_eq!(depth_below_root("/r", "/x/a"), None);
    assert_eq!(scripts_dir("/p"), "/p/scripts");
    assert_eq!(chapters_dir("/p"), "/p/chapters");
    assert_eq!(resolve_rel("/p", "vol/ep01.json").unwrap(), "/p/scripts/vol/ep01.json");
}

#[test]
fn move_rejects_depth_exceeded_for_subtree() {
    let tree = Ok(dir("a", vec![dir("b", vec![file("ch-001.json")])]));
    let dest = DirProbe::Entries(Vec::new());
    let err = check_can_move("/p", "a", "x/y", 3, &tree, &dest).unwrap_err();
    assert_eq!(err, RuleViolation::MaxDepthExceeded { attempted: 5, max_depth: 3 });
}

#[test]
fn move_rules_for_self_reorder_and_mixing() {
    let leaf = Ok(file("ch-001.json"));
    let dest = DirProbe::Entries(vec![entry("vol-b", true)]);
    assert_eq!(
        check_can_move("/p", "", "vol-b", 3, &leaf, &dest),
        Err(RuleViolation::OutsideChaptersRoot)
    );
    let folder = Ok(dir("vol-a", Vec::new()));
    assert_eq!(
        check_can_move("/p", "vol-a", "vol-a/inner", 3, &folder, &DirProbe::Missing),
        Err(RuleViolation::OutsideChaptersRoot)
    );
    let err: Result<DirTree, std::io::ErrorKind> = Err(std::io::ErrorKind::NotFound);
    assert_eq!(check_can_move("/p", "vol-b/ch-001.json", "vol-b", 3, &err, &dest), Ok(()));
    assert_eq!(
        check_can_move("/p", "vol-b/ch-001.json", "", 3, &leaf, &dest),
        Err(RuleViolation::MixedChildren)
    );
    assert_eq!(check_can_move("/p", "vol-b/ch-001.json", "vol-c", 3, &leaf, &DirProbe::Missing), Ok(()));
}

#[test]
fn subtree_height_counts_levels() {
    assert_eq!(subtree_height(&file("a.json")), 1);
    assert_eq!(subtree_height(&dir("empty", Vec::new())), 1);
    let t = dir("a", vec![file("x.json"), dir("b", vec![file("c.json")]), dir(".hidden", vec![dir("d", vec![file("e")])])]);
    assert_eq!(subtree_height(&t), 3);
}

#[test]
fn listing_sorts_and_filters_entries() {
    let items = plan_listing(
        "vol",
        vec![entry("ep02.json", false), entry(".DS_Store", false), entry("act", true), entry("ep01.json", false), entry("readme.md", false)],
    );
    let names: Vec<&str> = items.iter().map(|i| i.name.as_str()).collect();
    assert_eq!(names, vec!["act", "ep01.json", "ep02.json"]);
    assert_eq!(items[0].kind, EntryKind::Directory);
    assert_eq!(items[0].rel_path, "vol/act");
    assert_eq!(items[1].kind, EntryKind::File);
    assert_eq!(items[1].node_name, "ep01");
    assert_eq!(file_stem("a.json.json"), "a");
    let siblings = list_sibling_names(vec![entry("b.json", false), entry("a", true), entry("c.txt", false)]);
    assert_eq!(siblings, vec!["a".to_string(), "b.json".to_string()]);
}

#[test]
fn move_sibling_up_down_swaps_order() {
    let siblings = vec!["ch-001.json".to_string(), "ch-002.json".to_string()];
    let up = plan_move_sibling("ch-002.json", &siblings, MoveDirection::Up).unwrap();
    assert_eq!(
        up,
        SiblingMove::Swap {
            from: "ch-002.json".to_string(),
            to: "ch-001.json".to_string(),
            new_rel: "ch-001.json".to_string()
        }
    );
    assert_eq!(plan_move_sibling("ch-001.json", &siblings, MoveDirection::Up).unwrap(), SiblingMove::Unchanged);
    assert_eq!(plan_move_sibling("ch-002.json", &siblings, MoveDirection::Down).unwrap(), SiblingMove::Unchanged);
    assert_eq!(plan_move_sibling("", &siblings, MoveDirection::Down), Err(TreeError::RootNotMovable));
    assert_eq!(plan_move_sibling("x.json", &siblings, MoveDirection::Down), Err(TreeError::SiblingNotFound));
    let nested = vec!["a.json".to_string(), "b.json".to_string()];
    match plan_move_sibling("vol/a.json", &nested, MoveDirection::Down).unwrap() {
        SiblingMove::Swap { new_rel, .. } => assert_eq!(new_rel, "vol/b.json"),
        other => panic!("unexpected {other:?}"),
    }
}

#[test]
fn rename_chapter_file() {
    assert_eq!(renamed_base("ch-001旧.json", "ch-002新", false), "ch-002新.json");
    assert_eq!(renamed_base("vol-001", "vol-002卷二", true), "vol-002卷二");
    assert_eq!(moved_base("vol-a/ch-001.json", None, true), "ch-001.json");
    assert_eq!(moved_base("vol-a/ch-001.json", Some("新"), true), "新.json");
}

fn script_node(rel: &str, name: &str, id: Option<u128>, children: Vec<ScriptTreeNode>) -> ScriptTreeNode {
    ScriptTreeNode {
        rel_path: rel.to_string(),
        name: name.to_string(),
        kind: if children.is_empty() && id.is_some() { ScriptNodeKind::Script } else { ScriptNodeKind::Directory },
        script_id: id,
        title: id.map(|_| name.to_string()),
        children,
    }
}

#[test]
fn find_nodes_depth_first() {
    let tree = vec![
        script_node("vol", "vol", None, vec![script_node("vol/ep01.json", "ep01", Some(7), Vec::new())]),
        script_node("ep02.json", "ep02", Some(8), Vec::new()),
    ];
    assert_eq!(find_node_by_script_id(&tree, 7).unwrap().rel_path, "vol/ep01.json");
    assert_eq!(find_node_by_script_id(&tree, 8).unwrap().name, "ep02");
    assert!(find_node_by_script_id(&tree, 9).is_none());
    assert_eq!(find_node_by_rel(&tree, "vol").unwrap().children.len(), 1);
    assert!(find_node_by_rel(&tree, "nope").is_none());
    assert!(tree[0].is_directory());
    assert!(tree[1].is_script());
    let copy = tree[0].clone();
    assert_eq!(copy, tree[0]);
    let ch = ChapterTreeNode {
        rel_path: "a.json".to_string(),
        name: "a".to_string(),
        kind: ChapterNodeKind::Chapter,
        chapter_id: Some(1),
        title: Some("一".to_string()),
        children: Vec::new(),
    };
    assert!(ch.is_chapter());
}

#[test]
fn session_store_paths() {
    assert_eq!(ai_sessions_dir("/p"), "/p/.ai/sessions");
    assert_eq!(active_index_path("/p"), "/p/.ai/active.json");
    assert_eq!(session_path("/p", 0), "/p/.ai/sessions/00000000-0000-0000-0000-000000000000.json");
}
