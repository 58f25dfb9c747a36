use collab_client::client::{actions_of_import, Action};
use collab_client::message::{Change, ControlMessage, ErrorKind};
use collab_client::notifier::{changes_of_spans, surfaced_changes, Merge, Span};

fn insert(text: &str) -> Span {
    Span::Insert { text: text.to_string() }
}

#[test]
fn a_walk_reports_edits_at_the_running_offset() {
    let spans = vec![
        Span::Retain { len: 3 },
        insert("ab"),
        Span::Retain { len: 4 },
        Span::Delete { len: 2 },
        insert("c"),
    ];
    assert_eq!(
        changes_of_spans(&spans),
        Some(vec![
            Change::Insert { index: 3, text: "ab".to_string() },
            Change::Delete { index: 7, len: 2 },
            Change::Insert { index: 7, text: "c".to_string() },
        ])
    );
}

#[test]
fn a_walk_of_retains_reports_nothing() {
    assert_eq!(changes_of_spans(&vec![]), Some(vec![]));
    assert_eq!(changes_of_spans(&vec![Span::Retain { len: 9 }, Span::Retain { len: 1 }]), Some(vec![]));
}

#[test]
fn an_insert_does_not_move_the_offset() {
    let spans = vec![insert("abc"), Span::Delete { len: 1 }];
    assert_eq!(
        changes_of_spans(&spans),
        Some(vec![
            Change::Insert { index: 0, text: "abc".to_string() },
            Change::Delete { index: 0, len: 1 },
        ])
    );
}

#[test]
fn a_walk_that_leaves_the_offsets_reports_none() {
    let spans = vec![Span::Retain { len: usize::MAX }, insert("x"), Span::Retain { len: 1 }];
    assert_eq!(changes_of_spans(&spans), None);
    let fits = vec![Span::Retain { len: usize::MAX - 1 }, Span::Retain { len: 1 }, insert("x")];
    assert_eq!(
        changes_of_spans(&fits),
        Some(vec![Change::Insert { index: usize::MAX, text: "x".to_string() }])
    );
}

#[test]
fn a_local_merge_surfaces_nothing() {
    let merge = Merge { by_import: false, diffs: vec![Some(vec![insert("hello")])] };
    assert_eq!(surfaced_changes(&merge), Some(vec![]));
    let huge = Merge {
        by_import: false,
        diffs: vec![Some(vec![Span::Retain { len: usize::MAX }, Span::Retain { len: 1 }])],
    };
    assert_eq!(surfaced_changes(&huge), Some(vec![]));
}

#[test]
fn an_imported_merge_surfaces_each_diff_from_offset_zero() {
    let merge = Merge {
        by_import: true,
        diffs: vec![
            Some(vec![Span::Retain { len: 2 }, insert("x")]),
            None,
            Some(vec![Span::Retain { len: 1 }, Span::Delete { len: 4 }]),
        ],
    };
    assert_eq!(
        surfaced_changes(&merge),
        Some(vec![
            Change::Insert { index: 2, text: "x".to_string() },
            Change::Delete { index: 1, len: 4 },
        ])
    );
}

#[test]
fn an_imported_merge_that_leaves_the_offsets_surfaces_none() {
    let merge = Merge {
        by_import: true,
        diffs: vec![
            Some(vec![insert("x")]),
            Some(vec![Span::Retain { len: usize::MAX }, Span::Retain { len: 1 }]),
        ],
    };
    assert_eq!(surfaced_changes(&merge), None);
}

#[test]
fn the_application_is_told_of_merges_in_order() {
    let merges = vec![
        Merge { by_import: false, diffs: vec![Some(vec![insert("mine")])] },
        Merge { by_import: true, diffs: vec![Some(vec![Span::Retain { len: 1 }, insert("a")])] },
        Merge {
            by_import: true,
            diffs: vec![Some(vec![Span::Retain { len: usize::MAX }, Span::Retain { len: 1 }])],
        },
        Merge { by_import: true, diffs: vec![Some(vec![Span::Delete { len: 3 }])] },
    ];
    assert_eq!(
        actions_of_import(Ok(merges)),
        vec![
            Action::Emit {
                message: ControlMessage::Change {
                    change: Change::Insert { index: 1, text: "a".to_string() },
                },
            },
            Action::Report { kind: ErrorKind::DocumentOperation, detail: String::new() },
            Action::Emit {
                message: ControlMessage::Change { change: Change::Delete { index: 0, len: 3 } },
            },
        ]
    );
}

#[test]
fn a_failed_import_is_reported() {
    assert_eq!(
        actions_of_import(Err(ErrorKind::DocumentOperation)),
        vec![Action::Report { kind: ErrorKind::DocumentOperation, detail: String::new() }]
    );
    assert_eq!(actions_of_import(Ok(vec![])), vec![]);
}

#[test]
fn a_copy_of_a_change_equals_it() {
    let change = Change::Insert { index: 4, text: "copy".to_string() };
    assert_eq!(change.duplicate(), change);
    let other = Change::Delete { index: 1, len: 2 };
    assert_eq!(other.duplicate(), other);
}
