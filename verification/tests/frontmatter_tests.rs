use md2pk::config::{GroupFieldConfig, MemberFieldConfig};
use md2pk::frontmatter::{extract, HeaderScalar, HeaderValue};
use md2pk::markdown_objects::{MarkdownGroup, MarkdownMember};

fn parse(text: &str) -> md2pk::frontmatter::Header {
    extract(text).expect("header should parse").0
}

#[test]
fn extract_splits_header_and_body() {
    let (header, body) = extract("---\nid: a\n---\nthe body\n").expect("should parse");
    assert_eq!(header.entries.len(), 1);
    assert_eq!(body, "the body\n");
}

#[test]
fn extract_rejects_missing_opening_delimiter() {
    assert!(extract("id: a\n---\n").is_err());
    assert!(extract("").is_err());
}

#[test]
fn extract_rejects_unterminated_header() {
    assert!(extract("---\nid: a\n").is_err());
    assert!(extract("---\n").is_err());
}

#[test]
fn extract_rejects_line_without_colon() {
    assert!(extract("---\njust some words\n---\n").is_err());
}

#[test]
fn extract_rejects_empty_key() {
    assert!(extract("---\n: value\n---\n").is_err());
}

#[test]
fn extract_rejects_unclosed_bracket() {
    assert!(extract("---\ntags: [a, b\n---\n").is_err());
}

#[test]
fn extract_allows_empty_header() {
    let (header, body) = extract("---\n---\nbody").expect("should parse");
    assert_eq!(header.entries.len(), 0);
    assert_eq!(body, "body");
}

#[test]
fn extract_skips_blank_header_lines() {
    let header = parse("---\n\nid: a\n   \nname: b\n---\n");
    assert_eq!(header.entries.len(), 2);
}

#[test]
fn values_are_typed() {
    let header = parse(
        "---\nplain: hello world\nquoted: \"  spaced  \"\nflag: true\noff: false\ncount: 42\nneg: -7\nlist: [a, true, 3, \"b c\"]\nempty: []\n---\n",
    );
    match header.get(&"plain".to_owned()) {
        Some(HeaderValue::Str(s)) => assert_eq!(s, "hello world"),
        other => panic!("plain: unexpected {:?}", other),
    }
    match header.get(&"quoted".to_owned()) {
        Some(HeaderValue::Str(s)) => assert_eq!(s, "  spaced  "),
        other => panic!("quoted: unexpected {:?}", other),
    }
    assert!(matches!(header.get(&"flag".to_owned()), Some(HeaderValue::Bool(true))));
    assert!(matches!(header.get(&"off".to_owned()), Some(HeaderValue::Bool(false))));
    match header.get(&"count".to_owned()) {
        Some(HeaderValue::Num(s)) => assert_eq!(s, "42"),
        other => panic!("count: unexpected {:?}", other),
    }
    match header.get(&"neg".to_owned()) {
        Some(HeaderValue::Num(s)) => assert_eq!(s, "-7"),
        other => panic!("neg: unexpected {:?}", other),
    }
    match header.get(&"list".to_owned()) {
        Some(HeaderValue::Arr(es)) => {
            assert_eq!(es.len(), 4);
            assert!(matches!(&es[0], HeaderScalar::Str(s) if s == "a"));
            assert!(matches!(&es[1], HeaderScalar::Bool(true)));
            assert!(matches!(&es[2], HeaderScalar::Num(s) if s == "3"));
            assert!(matches!(&es[3], HeaderScalar::Str(s) if s == "b c"));
        }
        other => panic!("list: unexpected {:?}", other),
    }
    match header.get(&"empty".to_owned()) {
        Some(HeaderValue::Arr(es)) => assert_eq!(es.len(), 0),
        other => panic!("empty: unexpected {:?}", other),
    }
    assert!(header.get(&"absent".to_owned()).is_none());
}

#[test]
fn lookup_returns_first_binding() {
    let header = parse("---\nid: first\nid: second\n---\n");
    match header.get(&"id".to_owned()) {
        Some(HeaderValue::Str(s)) => assert_eq!(s, "first"),
        other => panic!("unexpected {:?}", other),
    }
}

#[test]
fn member_record_takes_all_mapped_fields() {
    let header = parse(
        "---\nid: alice\nuuid: u-1\nname: Alice\ndisplay_name: Al\npronouns: [she, her]\nproxy_tags: [a:, :a]\nprivate: true\n---\n",
    );
    let cfg = MemberFieldConfig {
        uuid: Some("uuid".to_owned()),
        ..MemberFieldConfig::default()
    };
    let m = MarkdownMember::from_markdown(&"dir/alice.md".to_owned(), &header, &cfg)
        .expect("record should build");
    assert_eq!(m.id, "alice");
    assert_eq!(m.uuid.as_deref(), Some("u-1"));
    assert_eq!(m.name.as_deref(), Some("Alice"));
    assert_eq!(m.display_name.as_deref(), Some("Al"));
    assert_eq!(m.pronouns, vec!["she".to_owned(), "her".to_owned()]);
    assert_eq!(m.proxy_tags, vec!["a:".to_owned(), ":a".to_owned()]);
    assert_eq!(m.private, Some(true));
    assert_eq!(m.path, "dir/alice.md");
}

#[test]
fn missing_id_key_fails_record_construction() {
    let header = parse("---\nname: Alice\n---\n");
    let cfg = MemberFieldConfig::default();
    let err = MarkdownMember::from_markdown(&"a.md".to_owned(), &header, &cfg)
        .expect_err("id is required");
    assert_eq!(err.field, "id");
    let gcfg = GroupFieldConfig::default();
    assert!(MarkdownGroup::from_markdown(&"a.md".to_owned(), &header, &gcfg).is_err());
}

#[test]
fn non_string_id_fails_record_construction() {
    let header = parse("---\nid: true\n---\n");
    let cfg = MemberFieldConfig::default();
    assert!(MarkdownMember::from_markdown(&"a.md".to_owned(), &header, &cfg).is_err());
}

#[test]
fn name_falls_back_to_file_stem() {
    let header = parse("---\nid: a\n---\n");
    let cfg = MemberFieldConfig::default();
    let m = MarkdownMember::from_markdown(&"notes/people/rose.md".to_owned(), &header, &cfg)
        .expect("record should build");
    assert_eq!(m.name.as_deref(), Some("rose"));
}

#[test]
fn unresolved_private_stays_unknown() {
    let header = parse("---\nid: a\n---\n");
    let cfg = MemberFieldConfig::default();
    let m = MarkdownMember::from_markdown(&"a.md".to_owned(), &header, &cfg).unwrap();
    assert_eq!(m.private, None);
    let header2 = parse("---\nid: a\nprivate: false\n---\n");
    let m2 = MarkdownMember::from_markdown(&"a.md".to_owned(), &header2, &cfg).unwrap();
    assert_eq!(m2.private, Some(false));
}

#[test]
fn non_string_list_elements_are_dropped_individually() {
    let header = parse("---\nid: a\npronouns: [she, 3, her, true]\n---\n");
    let cfg = MemberFieldConfig::default();
    let m = MarkdownMember::from_markdown(&"a.md".to_owned(), &header, &cfg).unwrap();
    assert_eq!(m.pronouns, vec!["she".to_owned(), "her".to_owned()]);
}

#[test]
fn unconfigured_optional_fields_stay_unset() {
    let header = parse("---\nid: a\nuuid: u\nname: n\n---\n");
    let cfg = MemberFieldConfig {
        id: "id".to_owned(),
        uuid: None,
        name: None,
        display_name: None,
        pronouns: None,
        proxy_tags: None,
        private: None,
    };
    let m = MarkdownMember::from_markdown(&"dir/x.md".to_owned(), &header, &cfg).unwrap();
    assert_eq!(m.uuid, None);
    // the name fallback still applies even when no name key is configured
    assert_eq!(m.name.as_deref(), Some("x"));
    assert_eq!(m.display_name, None);
    assert!(m.pronouns.is_empty());
    assert!(m.proxy_tags.is_empty());
}

#[test]
fn group_record_has_no_pronoun_fields() {
    let header = parse("---\nid: g\nname: Group\nprivate: true\n---\n");
    let cfg = GroupFieldConfig::default();
    let g = MarkdownGroup::from_markdown(&"groups/g.md".to_owned(), &header, &cfg).unwrap();
    assert_eq!(g.id, "g");
    assert_eq!(g.name.as_deref(), Some("Group"));
    assert_eq!(g.private, Some(true));
}

#[test]
fn empty_id_fails_record_construction() {
    let header = parse("---\nid: \"\"\n---\n");
    let mcfg = MemberFieldConfig::default();
    let err = MarkdownMember::from_markdown(&"a.md".to_owned(), &header, &mcfg)
        .expect_err("an empty id is not a valid id");
    assert_eq!(err.field, "id");
    let gcfg = GroupFieldConfig::default();
    assert!(MarkdownGroup::from_markdown(&"a.md".to_owned(), &header, &gcfg).is_err());
}

#[test]
fn crlf_line_endings_parse_like_lf() {
    let (header, body) = extract("---\r\nid: a\r\nflag: true\r\n---\r\nbody\r\n")
        .expect("CRLF endings should parse");
    assert_eq!(header.entries.len(), 2);
    match header.get(&"id".to_owned()) {
        Some(HeaderValue::Str(s)) => assert_eq!(s, "a"),
        other => panic!("id: unexpected {:?}", other),
    }
    assert!(matches!(header.get(&"flag".to_owned()), Some(HeaderValue::Bool(true))));
    assert_eq!(body, "body\r\n");
}

#[test]
fn single_quoted_strings_keep_their_spaces() {
    let header = parse("---\nname: ' padded '\n---\n");
    match header.get(&"name".to_owned()) {
        Some(HeaderValue::Str(s)) => assert_eq!(s, " padded "),
        other => panic!("name: unexpected {:?}", other),
    }
}

#[test]
fn block_style_lists_parse_as_arrays() {
    let header = parse("---\nid: a\ntags:\n- sys\n- member\nname: n\n---\n");
    match header.get(&"tags".to_owned()) {
        Some(HeaderValue::Arr(es)) => {
            assert_eq!(es.len(), 2);
            assert!(matches!(&es[0], HeaderScalar::Str(s) if s == "sys"));
            assert!(matches!(&es[1], HeaderScalar::Str(s) if s == "member"));
        }
        other => panic!("tags: unexpected {:?}", other),
    }
    // the lines after the block still parse as ordinary bindings
    match header.get(&"name".to_owned()) {
        Some(HeaderValue::Str(s)) => assert_eq!(s, "n"),
        other => panic!("name: unexpected {:?}", other),
    }
}

#[test]
fn block_list_may_end_at_the_closing_delimiter() {
    let header = parse("---\ntags:\n  - sys\n  - 3\n---\nbody");
    match header.get(&"tags".to_owned()) {
        Some(HeaderValue::Arr(es)) => {
            assert_eq!(es.len(), 2);
            assert!(matches!(&es[0], HeaderScalar::Str(s) if s == "sys"));
            assert!(matches!(&es[1], HeaderScalar::Num(s) if s == "3"));
        }
        other => panic!("tags: unexpected {:?}", other),
    }
}

#[test]
fn empty_value_with_no_items_stays_an_empty_string() {
    let header = parse("---\nnote:\nid: a\n---\n");
    match header.get(&"note".to_owned()) {
        Some(HeaderValue::Str(s)) => assert_eq!(s, ""),
        other => panic!("note: unexpected {:?}", other),
    }
}
