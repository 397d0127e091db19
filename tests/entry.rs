use dir_index::entry::{sort_by_name, DirRecord, Entry};

fn file(name: &str, size: u64) -> DirRecord {
    DirRecord {
        name: Some(name.to_string()),
        is_dir: Some(false),
        size: Some(size),
        created: Some(1_700_000_000),
        description: None,
        children: None,
    }
}

fn dir(name: &str, children: Option<Vec<DirRecord>>) -> DirRecord {
    DirRecord {
        name: Some(name.to_string()),
        is_dir: Some(true),
        size: Some(4096),
        created: Some(1_600_000_000),
        description: None,
        children,
    }
}

fn names(es: &[Entry]) -> Vec<String> {
    es.iter().map(|e| e.file_name.clone()).collect()
}

#[test]
fn scenario_listing_of_docs() {
    let records = vec![file("img.png", 200), file(".secret", 5), file("a.txt", 10)];
    let es = sort_by_name(Entry::entries(&records, true));
    assert_eq!(names(&es), vec!["a.txt", "img.png"]);
    assert!(!es[0].is_image);
    assert!(es[1].is_image);
    assert_eq!(es[0].size, 10);
    assert_eq!(es[1].size, 200);
    assert_eq!(es[0].type_marker, "");
    assert!(es[0].children.is_none());
}

#[test]
fn hidden_entries_excluded_at_both_levels() {
    let sub = dir("sub", Some(vec![file(".hidden", 1), file("seen", 2)]));
    let records = vec![dir(".git", Some(vec![])), sub, file(".env", 3)];
    let es = Entry::entries(&records, true);
    assert_eq!(names(&es), vec!["sub"]);
    let kids = es[0].children.as_ref().unwrap();
    assert_eq!(names(kids), vec!["seen"]);
}

#[test]
fn non_utf8_name_skipped_siblings_kept() {
    let mut bad = file("x", 1);
    bad.name = None;
    let records = vec![file("b", 1), bad, file("a", 2)];
    let es = Entry::entries(&records, false);
    assert_eq!(names(&es), vec!["b", "a"]);
}

#[test]
fn unreadable_fields_skip_entry() {
    let mut no_size = file("s", 1);
    no_size.size = None;
    let mut no_time = file("t", 1);
    no_time.created = None;
    let mut no_type = file("u", 1);
    no_type.is_dir = None;
    let records = vec![no_size, no_time, no_type, file("ok", 1)];
    let es = Entry::entries(&records, false);
    assert_eq!(names(&es), vec!["ok"]);
    assert!(Entry::from_record(&records[0], false).is_none());
    assert!(Entry::from_record(&records[3], false).is_some());
}

#[test]
fn recursion_is_one_level_deep() {
    let grand = dir("grand", Some(vec![file("deepest", 1)]));
    let child = dir("child", Some(vec![grand]));
    let records = vec![child];
    let es = Entry::entries(&records, true);
    assert_eq!(es[0].type_marker, "/");
    let kids = es[0].children.as_ref().unwrap();
    assert_eq!(names(kids), vec!["grand"]);
    assert!(kids[0].children.is_none());
}

#[test]
fn no_children_without_recursion() {
    let records = vec![dir("child", Some(vec![file("a", 1)]))];
    let es = Entry::entries(&records, false);
    assert!(es[0].children.is_none());
}

#[test]
fn unreadable_subdirectory_gives_empty_children() {
    let records = vec![dir("locked", None)];
    let es = Entry::entries(&records, true);
    assert_eq!(es[0].children.as_ref().map(|c| c.len()), Some(0));
}

#[test]
fn description_decoded_lossily() {
    let mut r = file("a", 1);
    r.description = Some(b"holiday".to_vec());
    let e = Entry::from_record(&r, false).unwrap();
    assert_eq!(e.description, "holiday");
    r.description = Some(vec![b'o', b'k', 0xff]);
    let e = Entry::from_record(&r, false).unwrap();
    assert_eq!(e.description, "ok\u{fffd}");
    r.description = None;
    assert_eq!(Entry::from_record(&r, false).unwrap().description, "");
}

#[test]
fn image_suffixes() {
    assert!(Entry::is_image("a.png"));
    assert!(Entry::is_image("a.jpg"));
    assert!(Entry::is_image("a.jpeg"));
    assert!(!Entry::is_image("a.PNG"));
    assert!(!Entry::is_image("a.gif"));
    assert!(!Entry::is_image("png"));
}

#[test]
fn hidden_names() {
    assert!(Entry::is_hidden(".x"));
    assert!(Entry::is_hidden("."));
    assert!(!Entry::is_hidden("x."));
    assert!(!Entry::is_hidden(""));
}

#[test]
fn sort_is_code_point_order() {
    let records = vec![file("b", 1), file("a", 1), file("B", 1), file("ab", 1), file("é", 1)];
    let es = sort_by_name(Entry::entries(&records, false));
    assert_eq!(names(&es), vec!["B", "a", "ab", "b", "é"]);
}

#[test]
fn sort_of_empty() {
    assert!(sort_by_name(Vec::new()).is_empty());
}
