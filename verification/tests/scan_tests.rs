use md2pk::config::{
    Config, FieldConfig, GroupFieldConfig, MemberFieldConfig, PathScanConfig, ScanConfig,
    TagScanConfig,
};
use md2pk::events::{RecordKind, ScanError, ScanEvent};
use md2pk::markdown::{walker, FsItem};
use md2pk::scanner_tags::qualifies_exec;
use md2pk::{get_files, FsSnapshot};

fn note(path: &str, text: &str) -> FsItem {
    FsItem::File { path: path.to_owned(), content: Some(text.to_owned()) }
}

fn strings(items: &[&str]) -> Vec<String> {
    items.iter().map(|s| (*s).to_owned()) .collect()
}

fn tag_config(root: &str, member_tags: &[&str], group_tags: &[&str]) -> TagScanConfig {
    TagScanConfig {
        root_dir: root.to_owned(),
        member_tags: Some(strings(member_tags)),
        group_tags: Some(strings(group_tags)),
    }
}

fn fields() -> FieldConfig {
    FieldConfig { member: MemberFieldConfig::default(), group: GroupFieldConfig::default() }
}

// -------------------------------------------------------------------------
// Walker.
// -------------------------------------------------------------------------
#[test]
fn walker_filters_extension_and_kind() {
    let items = vec![
        FsItem::Dir { path: "root/sub".to_owned() },
        note("root/a.md", "x"),
        note("root/readme.txt", "x"),
        note("root/noext", "x"),
        note("root/.md", "x"),
        note("root/sub/b.md", "x"),
    ];
    let mut events = Vec::new();
    let notes = walker(&items, &"root".to_owned(), true, &mut events);
    let paths: Vec<&str> = notes.iter().map(|n| n.path.as_str()).collect();
    assert_eq!(paths, vec!["root/a.md", "root/sub/b.md"]);
    assert_eq!(events.len(), 2);
    assert!(events.iter().all(|e| matches!(e, ScanEvent::Accepted { .. })));
}

#[test]
fn walker_caps_depth_without_recursion() {
    let items = vec![
        note("root/a.md", "x"),
        note("root/sub/b.md", "x"),
        note("root/sub/deep/c.md", "x"),
    ];
    let mut events = Vec::new();
    let notes = walker(&items, &"root".to_owned(), false, &mut events);
    let paths: Vec<&str> = notes.iter().map(|n| n.path.as_str()).collect();
    assert_eq!(paths, vec!["root/a.md"]);
}

#[test]
fn walker_keeps_only_descendants() {
    let items = vec![
        note("root/a.md", "x"),
        note("elsewhere/b.md", "x"),
        note("rootish/c.md", "x"),
        note("root.md", "x"),
    ];
    let mut events = Vec::new();
    let notes = walker(&items, &"root".to_owned(), true, &mut events);
    let paths: Vec<&str> = notes.iter().map(|n| n.path.as_str()).collect();
    assert_eq!(paths, vec!["root/a.md"]);
}

#[test]
fn walker_reports_unreadable_entries_and_goes_on() {
    let items = vec![
        FsItem::Unreadable { path: "root/locked".to_owned() },
        note("root/a.md", "x"),
    ];
    let mut events = Vec::new();
    let notes = walker(&items, &"root".to_owned(), true, &mut events);
    assert_eq!(notes.len(), 1);
    assert!(matches!(&events[0], ScanEvent::TraversalError { path } if path == "root/locked"));
    assert!(matches!(&events[1], ScanEvent::Accepted { path } if path == "root/a.md"));
}

// -------------------------------------------------------------------------
// Tag matching.
// -------------------------------------------------------------------------
#[test]
fn tag_subset_law_on_concrete_sets() {
    let tags = strings(&["a", "b", "c"]);
    assert!(qualifies_exec(&Some(strings(&["a", "b"])), &tags));
    assert!(!qualifies_exec(&Some(strings(&["a", "d"])), &tags));
    assert!(!qualifies_exec(&Some(Vec::new()), &tags));
    assert!(!qualifies_exec(&None, &tags));
    // the full set and the singleton are subsets too
    assert!(qualifies_exec(&Some(strings(&["a", "b", "c"])), &tags));
    assert!(qualifies_exec(&Some(strings(&["c"])), &tags));
}

// -------------------------------------------------------------------------
// Tag strategy, end to end.
// -------------------------------------------------------------------------
fn tag_snapshot() -> FsSnapshot {
    FsSnapshot {
        member_dir: None,
        group_dir: None,
        root_dir: Some(vec![
            note("root/a.md", "---\nid: a\ntags: [sys, member]\n---\n"),
            note("root/b.md", "---\nid: b\ntags: [sys, group]\n---\n"),
            note("root/c.md", "---\nid: c\n---\n"),
        ]),
    }
}

fn tag_scan_config() -> Config {
    Config {
        scan_type: "tags".to_owned(),
        fields: fields(),
        scanner: ScanConfig {
            tags: tag_config("root", &["sys", "member"], &["sys", "group"]),
            path: PathScanConfig::default(),
        },
        ..Config::default()
    }
}

#[test]
fn tag_scan_classifies_notes() {
    let conf = tag_scan_config();
    let mut events = Vec::new();
    let result = get_files(&conf, &tag_snapshot(), &mut events).expect("scan should succeed");
    assert_eq!(result.members.len(), 1);
    assert_eq!(result.groups.len(), 1);
    assert_eq!(result.members[0].id, "a");
    assert_eq!(result.groups[0].id, "b");
    // the tagless note is excluded with an informational event, not an error
    assert!(events.iter().any(|e| matches!(e, ScanEvent::NoTags { path } if path == "root/c.md")));
}

#[test]
fn tag_scan_is_deterministic() {
    let conf = tag_scan_config();
    let mut ev1 = Vec::new();
    let mut ev2 = Vec::new();
    let r1 = get_files(&conf, &tag_snapshot(), &mut ev1).unwrap();
    let r2 = get_files(&conf, &tag_snapshot(), &mut ev2).unwrap();
    let ids1: Vec<&str> = r1.members.iter().map(|m| m.id.as_str()).collect();
    let ids2: Vec<&str> = r2.members.iter().map(|m| m.id.as_str()).collect();
    assert_eq!(ids1, ids2);
    assert_eq!(r1.groups.len(), r2.groups.len());
    assert_eq!(ev1.len(), ev2.len());
}

#[test]
fn duplicate_ids_are_both_kept() {
    let conf = tag_scan_config();
    let fs = FsSnapshot {
        member_dir: None,
        group_dir: None,
        root_dir: Some(vec![
            note("root/one.md", "---\nid: x\ntags: [sys, member]\n---\n"),
            note("root/two.md", "---\nid: x\ntags: [sys, member]\n---\n"),
        ]),
    };
    let mut events = Vec::new();
    let result = get_files(&conf, &fs, &mut events).unwrap();
    assert_eq!(result.members.len(), 2);
    assert_eq!(result.members[0].id, "x");
    assert_eq!(result.members[1].id, "x");
    assert_eq!(result.members[0].path, "root/one.md");
    assert_eq!(result.members[1].path, "root/two.md");
}

#[test]
fn note_can_become_member_and_group_at_once() {
    let conf = Config {
        scan_type: "tags".to_owned(),
        fields: fields(),
        scanner: ScanConfig {
            tags: tag_config("root", &["sys"], &["sys"]),
            path: PathScanConfig::default(),
        },
        ..Config::default()
    };
    let fs = FsSnapshot {
        member_dir: None,
        group_dir: None,
        root_dir: Some(vec![note("root/d.md", "---\nid: d\ntags: [sys]\n---\n")]),
    };
    let mut events = Vec::new();
    let result = get_files(&conf, &fs, &mut events).unwrap();
    assert_eq!(result.members.len(), 1);
    assert_eq!(result.groups.len(), 1);
}

#[test]
fn unparseable_header_is_skipped_not_fatal() {
    let conf = tag_scan_config();
    let fs = FsSnapshot {
        member_dir: None,
        group_dir: None,
        root_dir: Some(vec![
            note("root/bad.md", "no header at all"),
            note("root/good.md", "---\nid: g\ntags: [sys, member]\n---\n"),
        ]),
    };
    let mut events = Vec::new();
    let result = get_files(&conf, &fs, &mut events).expect("scan should still succeed");
    assert_eq!(result.members.len(), 1);
    assert_eq!(result.members[0].id, "g");
    assert!(events.iter().any(
        |e| matches!(e, ScanEvent::HeaderError { path } if path == "root/bad.md"),
    ));
}

#[test]
fn unreadable_note_is_skipped_not_fatal() {
    let conf = tag_scan_config();
    let fs = FsSnapshot {
        member_dir: None,
        group_dir: None,
        root_dir: Some(vec![FsItem::File { path: "root/gone.md".to_owned(), content: None }]),
    };
    let mut events = Vec::new();
    let result = get_files(&conf, &fs, &mut events).unwrap();
    assert!(result.members.is_empty());
    assert!(events.iter().any(
        |e| matches!(e, ScanEvent::ReadError { path } if path == "root/gone.md"),
    ));
}

#[test]
fn tags_not_array_is_a_warning_not_an_error() {
    let conf = tag_scan_config();
    let fs = FsSnapshot {
        member_dir: None,
        group_dir: None,
        root_dir: Some(vec![note("root/w.md", "---\nid: w\ntags: plain\n---\n")]),
    };
    let mut events = Vec::new();
    let result = get_files(&conf, &fs, &mut events).unwrap();
    assert!(result.members.is_empty());
    assert!(result.groups.is_empty());
    assert!(events.iter().any(
        |e| matches!(e, ScanEvent::TagsNotArray { path } if path == "root/w.md"),
    ));
}

#[test]
fn non_string_tag_elements_are_dropped() {
    let conf = tag_scan_config();
    let fs = FsSnapshot {
        member_dir: None,
        group_dir: None,
        root_dir: Some(vec![note(
            "root/n.md",
            "---\nid: n\ntags: [sys, 7, member]\n---\n",
        )]),
    };
    let mut events = Vec::new();
    let result = get_files(&conf, &fs, &mut events).unwrap();
    // the string elements still qualify the note
    assert_eq!(result.members.len(), 1);
    assert!(events.iter().any(
        |e| matches!(e, ScanEvent::TagNotString { path } if path == "root/n.md"),
    ));
}

#[test]
fn missing_id_discards_one_record_only() {
    let conf = Config {
        scan_type: "tags".to_owned(),
        fields: fields(),
        scanner: ScanConfig {
            tags: tag_config("root", &["sys"], &["grp"]),
            path: PathScanConfig::default(),
        },
        ..Config::default()
    };
    let fs = FsSnapshot {
        member_dir: None,
        group_dir: None,
        root_dir: Some(vec![
            note("root/noid.md", "---\ntags: [sys]\n---\n"),
            note("root/ok.md", "---\nid: ok\ntags: [sys]\n---\n"),
        ]),
    };
    let mut events = Vec::new();
    let result = get_files(&conf, &fs, &mut events).unwrap();
    assert_eq!(result.members.len(), 1);
    assert_eq!(result.members[0].id, "ok");
    assert!(events.iter().any(|e| matches!(
        e,
        ScanEvent::MissingField { path, kind: RecordKind::Member } if path == "root/noid.md"
    )));
}

#[test]
fn unavailable_root_is_fatal() {
    let conf = tag_scan_config();
    let fs = FsSnapshot { member_dir: None, group_dir: None, root_dir: None };
    let mut events = Vec::new();
    let err = get_files(&conf, &fs, &mut events).expect_err("scan should abort");
    assert!(matches!(err, ScanError::RootUnavailable { dir } if dir == "root"));
    assert!(events.is_empty());
}

// -------------------------------------------------------------------------
// Path strategy.
// -------------------------------------------------------------------------
fn path_scan_config(recursive: bool) -> Config {
    Config {
        scan_type: "path".to_owned(),
        fields: fields(),
        scanner: ScanConfig {
            tags: TagScanConfig::default(),
            path: PathScanConfig {
                recursive,
                member_dir: Some("members".to_owned()),
                group_dir: Some("groups".to_owned()),
            },
        },
        ..Config::default()
    }
}

#[test]
fn path_scan_keeps_kinds_separate() {
    let conf = path_scan_config(false);
    let fs = FsSnapshot {
        member_dir: Some(vec![
            note("members/alice.md", "---\nid: alice\n---\n"),
            note("members/bob.md", "---\nid: bob\n---\n"),
        ]),
        group_dir: Some(vec![note("groups/crew.md", "---\nid: crew\n---\n")]),
        root_dir: None,
    };
    let mut events = Vec::new();
    let result = get_files(&conf, &fs, &mut events).unwrap();
    let member_ids: Vec<&str> = result.members.iter().map(|m| m.id.as_str()).collect();
    assert_eq!(member_ids, vec!["alice", "bob"]);
    assert_eq!(result.groups.len(), 1);
    assert_eq!(result.groups[0].id, "crew");
}

#[test]
fn path_scan_respects_recursion_flag() {
    let make_fs = || FsSnapshot {
        member_dir: Some(vec![
            note("members/a.md", "---\nid: a\n---\n"),
            note("members/deep/b.md", "---\nid: b\n---\n"),
        ]),
        group_dir: Some(Vec::new()),
        root_dir: None,
    };
    let mut events = Vec::new();
    let flat = get_files(&path_scan_config(false), &make_fs(), &mut events).unwrap();
    assert_eq!(flat.members.len(), 1);
    let deep = get_files(&path_scan_config(true), &make_fs(), &mut events).unwrap();
    assert_eq!(deep.members.len(), 2);
}

#[test]
fn path_scan_record_paths_lie_under_their_directory() {
    let conf = path_scan_config(true);
    let fs = FsSnapshot {
        member_dir: Some(vec![
            note("members/a.md", "---\nid: a\n---\n"),
            note("members/sub/b.md", "---\nid: b\n---\n"),
        ]),
        group_dir: Some(Vec::new()),
        root_dir: None,
    };
    let mut events = Vec::new();
    let result = get_files(&conf, &fs, &mut events).unwrap();
    assert_eq!(result.members.len(), 2);
    for m in &result.members {
        assert!(m.path.starts_with("members/"));
    }
}

#[test]
fn unconfigured_directory_contributes_nothing() {
    let conf = Config {
        scan_type: "path".to_owned(),
        fields: fields(),
        scanner: ScanConfig {
            tags: TagScanConfig::default(),
            path: PathScanConfig {
                recursive: false,
                member_dir: Some("members".to_owned()),
                group_dir: None,
            },
        },
        ..Config::default()
    };
    let fs = FsSnapshot {
        member_dir: Some(vec![note("members/a.md", "---\nid: a\n---\n")]),
        group_dir: None,
        root_dir: None,
    };
    let mut events = Vec::new();
    let result = get_files(&conf, &fs, &mut events).unwrap();
    assert_eq!(result.members.len(), 1);
    assert!(result.groups.is_empty());
}

#[test]
fn unavailable_member_dir_is_fatal() {
    let conf = path_scan_config(false);
    let fs = FsSnapshot {
        member_dir: None,
        group_dir: Some(Vec::new()),
        root_dir: None,
    };
    let mut events = Vec::new();
    let err = get_files(&conf, &fs, &mut events).expect_err("scan should abort");
    assert!(matches!(err, ScanError::RootUnavailable { dir } if dir == "members"));
}

// -------------------------------------------------------------------------
// Strategy selection and defaults.
// -------------------------------------------------------------------------
#[test]
fn unknown_scan_type_is_rejected() {
    let conf = Config { scan_type: "shuffle".to_owned(), ..Config::default() };
    let fs = FsSnapshot { member_dir: None, group_dir: None, root_dir: None };
    let mut events = Vec::new();
    let err = get_files(&conf, &fs, &mut events).expect_err("selector is unknown");
    assert!(matches!(err, ScanError::UnknownScanType { scan_type } if scan_type == "shuffle"));
    assert!(events.is_empty());
}

#[test]
fn defaults_mirror_the_conventional_setup() {
    let conf = Config::default();
    assert_eq!(conf.scan_type, "path");
    assert_eq!(conf.token, "YOUR_PK_TOKEN");
    assert_eq!(conf.fields.member.id, "id");
    assert_eq!(conf.fields.member.name.as_deref(), Some("name"));
    assert_eq!(conf.fields.member.uuid, None);
    assert_eq!(conf.fields.group.id, "id");
    let p = PathScanConfig::default();
    assert!(!p.recursive);
    assert_eq!(p.member_dir.as_deref(), Some("~/notes/system/members"));
    assert_eq!(p.group_dir.as_deref(), Some("~/notes/system/groups"));
    let t = TagScanConfig::default();
    assert_eq!(t.root_dir, "~/notes/system");
    assert_eq!(
        t.member_tags,
        Some(strings(&["#plurality", "#system/member"])),
    );
    assert_eq!(t.group_tags, Some(strings(&["#plurality", "#system/group"])));
}

#[test]
fn trailing_separator_on_a_configured_root_is_ignored() {
    let items = vec![note("root/a.md", "x"), note("root/sub/b.md", "x")];
    let mut events = Vec::new();
    let notes = walker(&items, &"root/".to_owned(), false, &mut events);
    let paths: Vec<&str> = notes.iter().map(|n| n.path.as_str()).collect();
    assert_eq!(paths, vec!["root/a.md"]);
}

#[test]
fn empty_id_discards_the_record_like_a_missing_one() {
    let conf = tag_scan_config();
    let fs = FsSnapshot {
        member_dir: None,
        group_dir: None,
        root_dir: Some(vec![note(
            "root/anon.md",
            "---\nid: \"\"\ntags: [sys, member]\n---\n",
        )]),
    };
    let mut events = Vec::new();
    let result = get_files(&conf, &fs, &mut events).unwrap();
    assert!(result.members.is_empty());
    assert!(events.iter().any(|e| matches!(
        e,
        ScanEvent::MissingField { path, kind: RecordKind::Member } if path == "root/anon.md"
    )));
}

#[test]
fn block_style_tags_classify_notes_too() {
    let conf = tag_scan_config();
    let fs = FsSnapshot {
        member_dir: None,
        group_dir: None,
        root_dir: Some(vec![note(
            "root/blk.md",
            "---\nid: blk\ntags:\n- sys\n- member\n---\n",
        )]),
    };
    let mut events = Vec::new();
    let result = get_files(&conf, &fs, &mut events).unwrap();
    assert_eq!(result.members.len(), 1);
    assert_eq!(result.members[0].id, "blk");
}
