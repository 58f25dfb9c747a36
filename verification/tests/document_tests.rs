use collab_client::document::Document;
use collab_client::message::{Change, ErrorKind};
use collab_client::notifier::{Merge, Span};

#[test]
fn a_new_document_is_empty() {
    assert_eq!(Document::new().contents(), "");
}

#[test]
fn insert_then_delete_leaves_an_empty_document() {
    let mut document = Document::new();
    assert_eq!(document.apply(&Change::Insert { index: 0, text: "hi".to_string() }), Ok(()));
    assert_eq!(document.contents(), "hi");
    assert_eq!(document.apply(&Change::Delete { index: 0, len: 2 }), Ok(()));
    assert_eq!(document.contents(), "");
}

#[test]
fn inserts_land_at_code_point_offsets() {
    let mut document = Document::new();
    assert_eq!(document.insert(0, "é😀z"), Ok(()));
    assert_eq!(document.insert(2, "-"), Ok(()));
    assert_eq!(document.contents(), "é😀-z");
    assert_eq!(document.insert(4, "!"), Ok(()));
    assert_eq!(document.contents(), "é😀-z!");
    assert_eq!(document.delete(1, 2), Ok(()));
    assert_eq!(document.contents(), "éz!");
}

#[test]
fn an_insert_past_the_end_is_refused() {
    let mut document = Document::new();
    document.insert(0, "abc").unwrap();
    assert_eq!(document.insert(4, "x"), Err(ErrorKind::DocumentOperation));
    assert_eq!(document.contents(), "abc");
    assert_eq!(document.insert(3, "x"), Ok(()));
    assert_eq!(document.contents(), "abcx");
}

#[test]
fn an_empty_insert_changes_nothing_anywhere() {
    let mut document = Document::new();
    document.insert(0, "abc").unwrap();
    assert_eq!(document.insert(100, ""), Ok(()));
    assert_eq!(document.contents(), "abc");
}

#[test]
fn a_delete_past_the_end_is_refused() {
    let mut document = Document::new();
    document.insert(0, "abc").unwrap();
    assert_eq!(document.delete(2, 2), Err(ErrorKind::DocumentOperation));
    assert_eq!(document.delete(4, 1), Err(ErrorKind::DocumentOperation));
    assert_eq!(document.delete(usize::MAX, 2), Err(ErrorKind::DocumentOperation));
    assert_eq!(document.contents(), "abc");
    assert_eq!(document.delete(2, 1), Ok(()));
    assert_eq!(document.contents(), "ab");
}

#[test]
fn an_empty_delete_changes_nothing_anywhere() {
    let mut document = Document::new();
    document.insert(0, "abc").unwrap();
    assert_eq!(document.delete(100, 0), Ok(()));
    assert_eq!(document.contents(), "abc");
}

#[test]
fn replace_sets_the_whole_text() {
    let mut document = Document::new();
    document.insert(0, "hello world").unwrap();
    document.replace("help the world");
    assert_eq!(document.contents(), "help the world");
    document.replace("");
    assert_eq!(document.contents(), "");
}

#[test]
fn export_leaves_the_text_alone() {
    let mut document = Document::new();
    document.insert(0, "abc").unwrap();
    let update = document.export_update();
    assert!(!update.is_empty());
    assert_eq!(document.contents(), "abc");
}

#[test]
fn an_update_carries_the_text_to_a_peer() {
    let mut here = Document::new();
    here.insert(0, "shared").unwrap();
    let update = here.export_update();
    let mut there = Document::new();
    let merges = there.import_update(&update).unwrap();
    assert_eq!(there.contents(), "shared");
    assert_eq!(
        merges,
        vec![Merge {
            by_import: true,
            diffs: vec![Some(vec![Span::Insert { text: "shared".to_string() }])],
        }]
    );
}

#[test]
fn importing_twice_is_importing_once() {
    let mut here = Document::new();
    here.insert(0, "once").unwrap();
    here.delete(1, 1).unwrap();
    let update = here.export_update();
    let mut there = Document::new();
    there.insert(0, "local ").unwrap();
    there.import_update(&update).unwrap();
    let once = there.contents();
    let again = there.import_update(&update).unwrap();
    assert_eq!(there.contents(), once);
    assert_eq!(again, vec![]);
}

#[test]
fn concurrent_inserts_converge() {
    let mut a = Document::new();
    let mut b = Document::new();
    a.insert(0, "foo").unwrap();
    let from_a = a.export_update();
    b.import_update(&from_a).unwrap();
    b.insert(0, "bar").unwrap();
    a.insert(0, "baz").unwrap();
    let from_b = b.export_update();
    let from_a = a.export_update();
    a.import_update(&from_b).unwrap();
    b.import_update(&from_a).unwrap();
    assert_eq!(a.contents(), b.contents());
    assert_eq!(a.contents().chars().count(), 9);
    assert!(a.contents().contains("foo"));
    assert!(a.contents().contains("bar"));
    assert!(a.contents().contains("baz"));
}

#[test]
fn an_import_hands_out_local_merges_too() {
    let mut here = Document::new();
    here.insert(0, "abc").unwrap();
    let update = here.export_update();
    let mut there = Document::new();
    there.insert(0, "xyz").unwrap();
    let merges = there.import_update(&update).unwrap();
    assert_eq!(merges.len(), 2);
    assert!(!merges[0].by_import);
    assert!(merges[1].by_import);
}

#[test]
fn replace_counts_code_points() {
    let mut document = Document::new();
    document.replace("naïve 😀 text");
    assert_eq!(document.contents(), "naïve 😀 text");
    document.replace("naive 😀😀 test");
    assert_eq!(document.contents(), "naive 😀😀 test");
    assert_eq!(document.delete(6, 2), Ok(()));
    assert_eq!(document.contents(), "naive  test");
}

#[test]
fn a_replacement_reaches_a_peer_as_edits() {
    let mut here = Document::new();
    here.replace("abc");
    let first = here.export_update();
    let mut there = Document::new();
    there.import_update(&first).unwrap();
    here.replace("abXc");
    let second = here.export_update();
    let merges = there.import_update(&second).unwrap();
    assert_eq!(there.contents(), "abXc");
    assert_eq!(
        merges,
        vec![Merge {
            by_import: true,
            diffs: vec![Some(vec![Span::Retain { len: 2 }, Span::Insert { text: "X".to_string() }])],
        }]
    );
}

#[test]
fn an_export_twice_gives_the_same_bytes() {
    let mut document = Document::new();
    document.insert(0, "abc").unwrap();
    let first = document.export_update();
    let second = document.export_update();
    assert_eq!(first, second);
    document.insert(3, "d").unwrap();
    assert_ne!(document.export_update(), first);
}

#[test]
fn an_export_holds_the_last_edit() {
    let mut here = Document::new();
    here.insert(0, "one").unwrap();
    here.export_update();
    here.insert(3, " two").unwrap();
    here.delete(0, 1).unwrap();
    let update = here.export_update();
    let mut there = Document::new();
    assert!(there.import_update(&update).is_ok());
    assert_eq!(there.contents(), "ne two");
    assert_eq!(there.contents(), here.contents());
}

#[test]
fn a_document_takes_over_what_another_holds() {
    let mut here = Document::new();
    here.insert(0, "from here").unwrap();
    let mut there = Document::new();
    let merges = there.merge_from(&mut here).unwrap();
    assert_eq!(there.contents(), "from here");
    assert_eq!(here.contents(), "from here");
    assert_eq!(
        merges,
        vec![Merge {
            by_import: true,
            diffs: vec![Some(vec![Span::Insert { text: "from here".to_string() }])],
        }]
    );
    assert_eq!(there.merge_from(&mut here), Ok(vec![]));
    assert_eq!(there.contents(), "from here");
}
