//! Turning merges into edit events.
//!
//! The merge engine describes each merge as a walk over the text: spans that
//! keep, insert or delete code points. Only merges caused by importing a
//! peer's update are surfaced; the application already knows its own edits.

use vstd::prelude::*;
use crate::message::{changes_view, Change, ChangeView};

verus! {

/// One span of a text diff.
#[derive(Debug, Clone, PartialEq, Eq)]
pub enum Span {
    Retain { len: usize },
    Insert { text: String },
    Delete { len: usize },
}

/// Mathematical value of a [`Span`].
pub enum SpanView {
    Retain { len: nat },
    Insert { text: Seq<char> },
    Delete { len: nat },
}

impl View for Span {
    type V = SpanView;

    open spec fn view(&self) -> SpanView {
        match *self {
            Span::Retain { len } => SpanView::Retain { len: len as nat },
            Span::Insert { text } => SpanView::Insert { text: text@ },
            Span::Delete { len } => SpanView::Delete { len: len as nat },
        }
    }
}

/// The values of a sequence of spans, in order.
pub open spec fn spans_view(spans: Seq<Span>) -> Seq<SpanView> {
    spans.map_values(|s: Span| s@)
}

/// The offset reached after walking `spans`: the sum of their retained lengths.
pub open spec fn retained(spans: Seq<SpanView>) -> nat
    decreases spans.len(),
{
    if spans.len() == 0 {
        0
    } else {
        retained(spans.drop_last()) + match spans.last() {
            SpanView::Retain { len } => len,
            _ => 0,
        }
    }
}

/// The edits that a walk over `spans` reports: one per inserting or deleting
/// span, in span order, each at the offset reached before it.
pub open spec fn emitted(spans: Seq<SpanView>) -> Seq<ChangeView>
    decreases spans.len(),
{
    if spans.len() == 0 {
        Seq::empty()
    } else {
        let before = spans.drop_last();
        match spans.last() {
            SpanView::Retain { .. } => emitted(before),
            SpanView::Insert { text } => emitted(before).push(
                ChangeView::Insert { index: retained(before), text },
            ),
            SpanView::Delete { len } => emitted(before).push(
                ChangeView::Delete { index: retained(before), len },
            ),
        }
    }
}

/// Walks one text diff and reports its edits.
///
/// Returns `None` exactly when the retained lengths add up to more than an
/// offset can hold.
pub fn changes_of_spans(spans: &Vec<Span>) -> (changes: Option<Vec<Change>>)
    ensures
        changes is Some <==> retained(spans_view(spans@)) <= usize::MAX,
        changes is Some ==> changes_view(changes->Some_0@) == emitted(spans_view(spans@)),
{
    let mut out: Vec<Change> = Vec::new();
    let mut offset: usize = 0;
    let mut i: usize = 0;
    while i < spans.len()
        invariant
            i <= spans.len(),
            offset == retained(spans_view(spans@).take(i as int)),
            changes_view(out@) == emitted(spans_view(spans@).take(i as int)),
        decreases spans.len() - i,
    {
        let ghost all = spans_view(spans@);
        proof {
            assert(all.take(i as int + 1).drop_last() == all.take(i as int));
            assert(all.take(i as int + 1).last() == spans@[i as int]@);
        }
        let ghost before = out@;
        match &spans[i] {
            Span::Retain { len } => {
                match offset.checked_add(*len) {
                    Some(next) => {
                        offset = next;
                    },
                    None => {
                        proof {
                            lemma_retained_grows(all, i as int + 1);
                        }
                        return None;
                    },
                }
            },
            Span::Insert { text } => {
                out.push(Change::Insert { index: offset, text: text.clone() });
                proof {
                    assert(changes_view(out@) == changes_view(before).push(out@.last()@));
                }
            },
            Span::Delete { len } => {
                out.push(Change::Delete { index: offset, len: *len });
                proof {
                    assert(changes_view(out@) == changes_view(before).push(out@.last()@));
                }
            },
        }
        i += 1;
    }
    proof {
        assert(spans_view(spans@).take(i as int) == spans_view(spans@));
    }
    Some(out)
}

/// What the merge engine reports of one merge: how it came about, and one diff
/// for each part of the document that changed. A part that is not text has no
/// spans.
#[derive(Debug, Clone, PartialEq, Eq)]
pub struct Merge {
    pub by_import: bool,
    pub diffs: Vec<Option<Vec<Span>>>,
}

/// Mathematical value of a [`Merge`].
pub struct MergeView {
    pub by_import: bool,
    pub diffs: Seq<Option<Seq<SpanView>>>,
}

/// The value of one diff.
pub open spec fn diff_view(diff: Option<Vec<Span>>) -> Option<Seq<SpanView>> {
    match diff {
        Some(spans) => Some(spans_view(spans@)),
        None => None,
    }
}

impl View for Merge {
    type V = MergeView;

    open spec fn view(&self) -> MergeView {
        MergeView {
            by_import: self.by_import,
            diffs: self.diffs@.map_values(|d: Option<Vec<Span>>| diff_view(d)),
        }
    }
}

/// The edits of one diff: those of its walk, and none for a part that is not
/// text.
pub open spec fn diff_changes(diff: Option<Seq<SpanView>>) -> Seq<ChangeView> {
    match diff {
        Some(spans) => emitted(spans),
        None => Seq::empty(),
    }
}

/// The edits of a run of diffs: each diff walked from offset zero, the edits
/// in diff order.
pub open spec fn walked(diffs: Seq<Option<Seq<SpanView>>>) -> Seq<ChangeView>
    decreases diffs.len(),
{
    if diffs.len() == 0 {
        Seq::empty()
    } else {
        walked(diffs.drop_last()) + diff_changes(diffs.last())
    }
}

/// Whether every walk of `diffs` stays within what an offset can hold.
pub open spec fn walkable(diffs: Seq<Option<Seq<SpanView>>>) -> bool {
    forall|i: int|
        0 <= i < diffs.len() ==> ((#[trigger] diffs[i]) matches Some(spans) ==> retained(spans)
            <= usize::MAX)
}

/// The edits that a merge makes known to the application: those of its diffs
/// when an import caused it, none when a local edit did.
pub open spec fn surfaced(merge: MergeView) -> Seq<ChangeView> {
    if merge.by_import {
        walked(merge.diffs)
    } else {
        Seq::empty()
    }
}

/// A merge that a local edit caused surfaces nothing.
pub proof fn lemma_local_merge_is_silent(merge: MergeView)
    requires
        !merge.by_import,
    ensures
        surfaced(merge) == Seq::<ChangeView>::empty(),
{
}

/// Reads off one merge the edits to report.
///
/// A merge that no import caused gives no edits. Otherwise the result is
/// `None` exactly when a walk leaves what an offset can hold.
pub fn surfaced_changes(merge: &Merge) -> (changes: Option<Vec<Change>>)
    ensures
        changes is Some <==> (merge@.by_import ==> walkable(merge@.diffs)),
        changes matches Some(c) ==> changes_view(c@) == surfaced(merge@),
{
    let mut out: Vec<Change> = Vec::new();
    if !merge.by_import {
        assert(changes_view(out@) =~= Seq::<ChangeView>::empty());
        return Some(out);
    }
    let ghost all = merge@.diffs;
    let mut i: usize = 0;
    assert(changes_view(out@) =~= walked(all.take(0)));
    while i < merge.diffs.len()
        invariant
            i <= merge.diffs.len(),
            merge.by_import,
            all == merge@.diffs,
            all.len() == merge.diffs@.len(),
            changes_view(out@) == walked(all.take(i as int)),
            walkable(all.take(i as int)),
        decreases merge.diffs.len() - i,
    {
        proof {
            assert(all.take(i as int + 1).drop_last() == all.take(i as int));
            assert(all.take(i as int + 1).last() == diff_view(merge.diffs@[i as int]));
        }
        let ghost before = out@;
        match &merge.diffs[i] {
            Some(spans) => {
                match changes_of_spans(spans) {
                    Some(mut found) => {
                        let ghost more = found@;
                        out.append(&mut found);
                        proof {
                            assert(changes_view(out@) =~= changes_view(before) + changes_view(more));
                        }
                    },
                    None => {
                        proof {
                            assert(all[i as int] == diff_view(merge.diffs@[i as int]));
                            assert(all[i as int] == Some(spans_view(spans@)));
                        }
                        return None;
                    },
                }
            },
            None => {
                assert(changes_view(out@) =~= changes_view(before) + Seq::<ChangeView>::empty());
            },
        }
        proof {
            let next = all.take(i as int + 1);
            assert forall|k: int| 0 <= k < next.len() implies ((#[trigger] next[k]) matches Some(
                spans,
            ) ==> retained(spans) <= usize::MAX) by {
                if k < i {
                    assert(next[k] == all.take(i as int)[k]);
                }
            }
        }
        i += 1;
    }
    proof {
        assert(all.take(i as int) == all);
    }
    Some(out)
}

/// The offset never shrinks along a walk.
proof fn lemma_retained_grows(spans: Seq<SpanView>, k: int)
    requires
        0 <= k <= spans.len(),
    ensures
        retained(spans.take(k)) <= retained(spans),
    decreases spans.len() - k,
{
    if k == spans.len() {
        assert(spans.take(k) == spans);
    } else {
        lemma_retained_grows(spans, k + 1);
        assert(spans.take(k + 1).drop_last() == spans.take(k));
    }
}

} // verus!
