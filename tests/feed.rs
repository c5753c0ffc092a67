use lazyarchbuild::{FetchError, MarkList, Response};

#[test]
fn test_flatten() {
    let raw = r#"   {
      "name": "bear",
      "marks": [
        {
          "name": "failing",
          "by": {
            "alias": "null (bot)"
          },
          "comment": "2022/9/4 15:25:49 (UTC+8)"
        },
        {
          "name": "noqemu",
          "by": {
            "alias": "Moody"
          },
          "comment": ""
        }
      ]
    }"#;

    let marklist: MarkList = MarkList::decode(raw.as_bytes()).unwrap();
    let marker = &marklist.marks[1].by;
    assert_eq!(marker.as_str(), "Moody");
}

#[test]
fn mark_by_alias_is_flattened() {
    let raw = r#"{"name": "bear", "marks": [{"name": "failing", "by": {"alias": "Moody"}, "comment": ""}]}"#;
    let list = MarkList::decode(raw.as_bytes()).unwrap();
    assert_eq!(list.name, "bear");
    assert_eq!(list.marks.len(), 1);
    assert_eq!(list.marks[0].name, "failing");
    assert_eq!(list.marks[0].by, "Moody");
    assert_eq!(list.marks[0].comment, "");
}

#[test]
fn mark_without_alias_fails_to_decode() {
    let raw = r#"{"name": "bear", "marks": [{"name": "failing", "by": {}, "comment": ""}]}"#;
    assert!(matches!(MarkList::decode(raw.as_bytes()), Err(FetchError::Decode)));
}

#[test]
fn feed_decodes_both_lists() {
    let raw = r#"{
      "workList": [{"alias": "rvalue", "packages": ["rust", "lldb"]}],
      "markList": [{"name": "bear", "marks": [{"name": "failing", "by": {"alias": "Moody"}, "comment": "c"}]}]
    }"#;
    let feed = Response::decode(raw.as_bytes()).unwrap();
    assert_eq!(feed.worklist.len(), 1);
    assert_eq!(feed.worklist[0].alias, "rvalue");
    assert_eq!(feed.worklist[0].packages, vec!["rust".to_string(), "lldb".to_string()]);
    assert_eq!(feed.marklist.len(), 1);
    assert_eq!(feed.marklist[0].name, "bear");
    assert_eq!(feed.marklist[0].marks[0].by, "Moody");
    assert_eq!(feed.marklist[0].marks[0].comment, "c");
}

#[test]
fn feed_with_empty_lists_decodes() {
    let feed = Response::decode(br#"{"workList": [], "markList": []}"#).unwrap();
    assert!(feed.worklist.is_empty());
    assert!(feed.marklist.is_empty());
}

#[test]
fn feed_missing_a_list_fails_to_decode() {
    assert!(matches!(Response::decode(br#"{"workList": []}"#), Err(FetchError::Decode)));
}

#[test]
fn malformed_json_fails_to_decode() {
    assert!(matches!(Response::decode(b"{\"workList\": [}"), Err(FetchError::Decode)));
    assert!(matches!(Response::decode(b""), Err(FetchError::Decode)));
}

#[test]
fn package_name_of_wrong_type_fails_to_decode() {
    let raw = br#"{"workList": [{"alias": "a", "packages": [3]}], "markList": []}"#;
    assert!(matches!(Response::decode(raw), Err(FetchError::Decode)));
}

#[test]
fn by_that_is_not_an_object_of_strings_fails_to_decode() {
    for by in [r#""Moody""#, r#"{"alias": 5}"#, r#"{"alias": "Moody", "id": 5}"#, r#"{"id": "x"}"#] {
        let raw = format!(r#"{{"name": "bear", "marks": [{{"name": "failing", "by": {by}, "comment": ""}}]}}"#);
        assert!(matches!(MarkList::decode(raw.as_bytes()), Err(FetchError::Decode)), "{by}");
    }
}

#[test]
fn by_with_other_string_members_decodes() {
    let raw = r#"{"name": "bear", "marks": [{"name": "failing", "by": {"alias": "Moody", "id": "7"}, "comment": ""}]}"#;
    let list = MarkList::decode(raw.as_bytes()).unwrap();
    assert_eq!(list.marks[0].by, "Moody");
}
