use onto_studio::documents::{
    active_doc_paths, present_mounts, MountedDoc, inside_folder_pattern, is_root_folder, new_document_id, normalize_folder_path,
    parse_json_str_array, renamed_folder_path, split_folder_path, text_window, trim, truncate,
    upload_folder, rename_folder_paths, lies_below,
};
use onto_studio::folders::{build_folder_tree, segments_of, sort_folder_nodes, FolderNode};
use onto_studio::message::{MessageRole, MessageRow, MessageStatus};
use onto_studio::repo::{conversation_title, message_preview, messages_in_order, messages_query};
use onto_studio::timestamp::Timestamp;

fn node(name: &str, path: &str) -> FolderNode {
    FolderNode { name: name.to_string(), path: path.to_string(), children: Vec::new() }
}

fn row(id: &str, at: i64) -> MessageRow {
    MessageRow {
        id: id.to_string(),
        conversation_id: "c1".to_string(),
        role: MessageRole::User,
        status: MessageStatus::Complete,
        content: format!("message {id}"),
        reasoning: None,
        error: None,
        model: None,
        created_at: Timestamp(at),
        updated_at: Timestamp(at),
        prompt_tokens: None,
        completion_tokens: None,
        total_tokens: None,
    }
}

#[test]
fn roles_and_statuses_round_trip() {
    assert_eq!(MessageRole::User.as_str(), "user");
    assert_eq!(MessageRole::Assistant.as_str(), "assistant");
    assert_eq!(MessageRole::System.as_str(), "system");
    assert_eq!(MessageRole::parse("assistant"), Some(MessageRole::Assistant));
    assert_eq!(MessageRole::parse("User"), None);
    assert_eq!(MessageStatus::Streaming.as_str(), "streaming");
    assert_eq!(MessageStatus::Cancelled.as_str(), "cancelled");
    for s in [
        MessageStatus::Streaming,
        MessageStatus::Complete,
        MessageStatus::Error,
        MessageStatus::Cancelled,
    ] {
        assert_eq!(MessageStatus::parse(s.as_str()), Some(s));
    }
    assert_eq!(MessageStatus::parse("done"), None);
}

#[test]
fn timestamps_convert_both_ways() {
    let t: Timestamp = 1_700_000_000_000i64.into();
    assert_eq!(t.as_i64(), 1_700_000_000_000);
    let back: i64 = Timestamp(42).into();
    assert_eq!(back, 42);
    assert_eq!(Timestamp::default(), Timestamp(0));
    assert!(Timestamp::now().as_i64() > 1_600_000_000_000);
}

#[test]
fn trim_drops_surrounding_whitespace() {
    assert_eq!(trim("  a b \n"), "a b");
    assert_eq!(trim("\u{3000}专题\t"), "专题");
    assert_eq!(trim("   "), "");
}

#[test]
fn folder_paths_are_normalised() {
    assert_eq!(normalize_folder_path("曾国藩专题"), "/曾国藩专题");
    assert_eq!(normalize_folder_path("/A/B"), "/A/B");
    assert_eq!(normalize_folder_path("  /A  "), "/A");
    assert_eq!(normalize_folder_path(""), "");
    assert_eq!(normalize_folder_path("   "), "");
    // normalising twice changes nothing
    let once = normalize_folder_path(" 方法论 ");
    assert_eq!(normalize_folder_path(&once), once);
}

#[test]
fn folder_paths_split_into_name_and_parent() {
    assert_eq!(split_folder_path("/A/B"), ("B".to_string(), Some("/A".to_string())));
    assert_eq!(split_folder_path("/A"), ("A".to_string(), None));
    assert_eq!(split_folder_path(""), (String::new(), None));
    assert_eq!(split_folder_path("/"), (String::new(), None));
    assert_eq!(
        split_folder_path("/曾国藩专题/书信集/"),
        ("书信集".to_string(), Some("/曾国藩专题".to_string()))
    );
}

#[test]
fn renaming_a_folder_rewrites_paths_below_it() {
    assert_eq!(renamed_folder_path("/旧名", "/旧名", "/新名"), "/新名");
    assert_eq!(renamed_folder_path("/旧名/子目录", "/旧名", "/新名"), "/新名/子目录");
    assert_eq!(inside_folder_pattern("/旧名"), "/旧名/%");
}

#[test]
fn folder_pattern_escapes_like_wildcards() {
    assert_eq!(inside_folder_pattern("/100%_done"), "/100\\%\\_done/%");
    assert_eq!(inside_folder_pattern("/a\\b"), "/a\\\\b/%");
    assert_eq!(inside_folder_pattern(""), "/%");
}

#[test]
fn root_folder_arguments() {
    assert!(is_root_folder(None));
    assert!(is_root_folder(Some("/")));
    assert!(!is_root_folder(Some("/A")));
    assert!(!is_root_folder(Some("")));
}

#[test]
fn uploads_are_filed_by_origin() {
    let conv = Some("c1".to_string());
    assert_eq!(upload_folder(&conv, &Some("/专题".to_string())), Some("/Inbox".to_string()));
    assert_eq!(upload_folder(&None, &Some(" 专题 ".to_string())), Some("/专题".to_string()));
    assert_eq!(upload_folder(&None, &Some("  ".to_string())), None);
    assert_eq!(upload_folder(&None, &None), None);
}

#[test]
fn text_windows_count_characters() {
    assert_eq!(text_window("0123456789", Some(2), Some(3)), "234");
    assert_eq!(text_window("0123456789", None, Some(4)), "0123");
    assert_eq!(text_window("0123456789", Some(8), Some(10)), "89");
    assert_eq!(text_window("0123456789", Some(20), None), "");
    assert_eq!(text_window("曾国藩家书", Some(1), Some(2)), "国藩");
    assert_eq!(text_window("曾国藩家书", None, None), "曾国藩家书");
}

#[test]
fn truncation_marks_the_cut() {
    assert_eq!(truncate("abcdef", 3), "abc…");
    assert_eq!(truncate("abc", 3), "abc");
    assert_eq!(truncate("曾国藩家书", 2), "曾国…");
    assert_eq!(truncate("", 0), "");
}

#[test]
fn json_string_lists_are_read_leniently() {
    assert_eq!(
        parse_json_str_array(Some(r#"["/A", "/B"]"#)),
        vec!["/A".to_string(), "/B".to_string()]
    );
    assert!(parse_json_str_array(None).is_empty());
    assert!(parse_json_str_array(Some("   ")).is_empty());
    assert!(parse_json_str_array(Some("not json")).is_empty());
    assert!(parse_json_str_array(Some("[1, 2]")).is_empty());
    assert!(parse_json_str_array(Some("[]")).is_empty());
}

#[test]
fn document_ids_are_uuids() {
    let a = new_document_id().expect("system random source");
    let b = new_document_id().expect("system random source");
    assert_eq!(a.len(), 36);
    assert_eq!(a.matches('-').count(), 4);
    assert_ne!(a, b);
    let cs: Vec<char> = a.chars().collect();
    for (i, c) in cs.iter().enumerate() {
        if [8, 13, 18, 23].contains(&i) {
            assert_eq!(*c, '-');
        } else {
            assert!(c.is_ascii_digit() || ('a'..='f').contains(c), "{c:?} at {i}");
        }
    }
    assert_eq!(cs[14], '4');
    assert!(['8', '9', 'a', 'b'].contains(&cs[19]));
}

#[test]
fn folder_tree_puts_inbox_first_and_nests() {
    let paths = vec![
        "/曾国藩专题".to_string(),
        "/曾国藩专题/书信集".to_string(),
        "/方法论".to_string(),
        "/Inbox".to_string(),
    ];
    let tree = build_folder_tree(&paths);
    assert_eq!(tree.len(), 3);
    assert_eq!(tree[0].name, "Inbox");
    assert_eq!(tree[0].path, "/Inbox");
    assert_eq!(tree[1].name, "方法论");
    assert_eq!(tree[2].name, "曾国藩专题");
    let zgf = tree.iter().find(|n| n.name == "曾国藩专题").expect("曾国藩专题 in the tree");
    assert_eq!(zgf.children.len(), 1);
    assert_eq!(zgf.children[0].name, "书信集");
    assert_eq!(zgf.children[0].path, "/曾国藩专题/书信集");
    assert!(zgf.children[0].children.is_empty());
}

#[test]
fn folder_tree_creates_missing_parents_once() {
    let paths = vec!["/a/b/c".to_string(), "a/b".to_string(), "/a/d/".to_string(), "".to_string()];
    let tree = build_folder_tree(&paths);
    assert_eq!(tree.len(), 1);
    let a = &tree[0];
    assert_eq!((a.name.as_str(), a.path.as_str()), ("a", "/a"));
    assert_eq!(a.children.len(), 2);
    assert_eq!((a.children[0].name.as_str(), a.children[0].path.as_str()), ("b", "/a/b"));
    assert_eq!((a.children[1].name.as_str(), a.children[1].path.as_str()), ("d", "/a/d"));
    let b = &a.children[0];
    assert_eq!(b.children.len(), 1);
    assert_eq!(b.children[0].path, "/a/b/c");
    assert!(build_folder_tree(&Vec::new()).is_empty());
}

#[test]
fn folder_nodes_sort_with_inbox_first() {
    let mut nodes = vec![node("b", "/b"), node("Inbox", "/Inbox"), node("a", "/a")];
    nodes[0].children = vec![node("z", "/b/z"), node("Inbox", "/b/Inbox"), node("m", "/b/m")];
    sort_folder_nodes(&mut nodes);
    let names: Vec<&str> = nodes.iter().map(|n| n.name.as_str()).collect();
    assert_eq!(names, vec!["Inbox", "a", "b"]);
    let inner: Vec<&str> = nodes[2].children.iter().map(|n| n.name.as_str()).collect();
    assert_eq!(inner, vec!["Inbox", "m", "z"]);
}

#[test]
fn folder_nodes_with_repeated_names_still_sort() {
    let mut nodes = vec![node("b", "/b"), node("a", "/a1"), node("Inbox", "/Inbox"), node("a", "/a2")];
    sort_folder_nodes(&mut nodes);
    let names: Vec<&str> = nodes.iter().map(|n| n.name.as_str()).collect();
    assert_eq!(names, vec!["Inbox", "a", "a", "b"]);
}

#[test]
fn path_segments_skip_empty_parts() {
    assert_eq!(segments_of("/a//b/"), vec!["a".to_string(), "b".to_string()]);
    assert!(segments_of("/").is_empty());
    assert_eq!(segments_of("曾国藩专题"), vec!["曾国藩专题".to_string()]);
}

#[test]
fn new_conversations_get_a_default_title() {
    assert_eq!(conversation_title(None), "新会话");
    assert_eq!(conversation_title(Some("测试会话")), "测试会话");
}

#[test]
fn previews_keep_eighty_characters() {
    let long: String = "字".repeat(100);
    let p = message_preview(Some(long)).unwrap();
    assert_eq!(p.chars().count(), 81);
    assert!(p.ends_with('…'));
    assert_eq!(message_preview(Some("短".to_string())), Some("短".to_string()));
    assert_eq!(message_preview(None), None);
}

#[test]
fn message_queries_limit_the_newest() {
    let q = messages_query(Some(5));
    assert!(q.ends_with("ORDER BY created_at DESC, rowid DESC LIMIT 5"));
    let all = messages_query(None);
    assert!(all.ends_with("ORDER BY created_at ASC"));
    assert!(all.contains("FROM messages WHERE conversation_id = ?1"));
}

#[test]
fn limited_rows_are_put_back_in_order() {
    let newest_first = vec![row("m3", 3), row("m2", 2), row("m1", 1)];
    let ids: Vec<String> =
        messages_in_order(newest_first, true).into_iter().map(|r| r.id).collect();
    assert_eq!(ids, vec!["m1", "m2", "m3"]);
    let oldest_first = vec![row("m1", 1), row("m2", 2)];
    let ids: Vec<String> =
        messages_in_order(oldest_first, false).into_iter().map(|r| r.id).collect();
    assert_eq!(ids, vec!["m1", "m2"]);
}

#[test]
fn active_scope_paths_are_the_union_without_repeats() {
    let folder_docs = vec!["/tmp/a.pdf".to_string(), "/tmp/b.pdf".to_string(), "/tmp/a.pdf".to_string()];
    let mounted = vec!["/tmp/c.pdf".to_string(), "/tmp/b.pdf".to_string()];
    let paths = active_doc_paths(&folder_docs, &mounted);
    assert_eq!(paths, vec!["/tmp/a.pdf", "/tmp/b.pdf", "/tmp/c.pdf"]);
    assert!(active_doc_paths(&Vec::new(), &Vec::new()).is_empty());
    assert_eq!(active_doc_paths(&Vec::new(), &vec!["/x".to_string()]), vec!["/x"]);
}

#[test]
fn renaming_back_restores_paths() {
    for p in ["/旧名", "/旧名/子目录", "/旧名/子目录/更深"] {
        let there = renamed_folder_path(p, "/旧名", "/新名");
        assert!(there.starts_with("/新名"));
        assert_eq!(renamed_folder_path(&there, "/新名", "/旧名"), p);
    }
}

#[test]
fn split_paths_rejoin() {
    for p in ["/A/B", "/A", "/曾国藩专题/书信集", "//A"] {
        let (name, parent) = split_folder_path(p);
        assert!(!name.contains('/'));
        match parent {
            Some(q) => assert_eq!(format!("{q}/{name}"), p),
            None => assert_eq!(format!("/{name}"), p),
        }
    }
}

fn mount(path: &str, at: i64) -> MountedDoc {
    MountedDoc { path: path.to_string(), name: "n".to_string(), format: "pdf".to_string(), char_count: 1, mounted_at: at }
}

#[test]
fn mounts_of_deleted_documents_are_left_out() {
    let rows = vec![mount("/tmp/a.pdf", 1), mount("", 2), mount("/tmp/c.pdf", 3)];
    let kept: Vec<i64> = present_mounts(rows).into_iter().map(|d| d.mounted_at).collect();
    assert_eq!(kept, vec![1, 3]);
    assert!(present_mounts(vec![mount("", 1)]).is_empty());
}

#[test]
fn rename_arguments_are_normalised_or_refused() {
    assert_eq!(
        rename_folder_paths(" 旧名 ", "/新名"),
        Some(("/旧名".to_string(), "/新名".to_string()))
    );
    assert_eq!(rename_folder_paths("", "/B"), None);
    assert_eq!(rename_folder_paths("/A", "  "), None);
    assert_eq!(rename_folder_paths("A", "/A"), None);
}

#[test]
fn paths_below_a_folder() {
    assert!(lies_below("/A/B", "/A"));
    assert!(lies_below("/A", "/A"));
    assert!(!lies_below("/a/B", "/A"));
    assert!(!lies_below("/", "/A"));
}
