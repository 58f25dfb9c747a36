//! The shared document and the merge engine behind it.
//!
//! The text lives in a `loro` document under the name `text`. Every operation
//! on it goes through this module, which states what the engine does to the
//! text and leaves the merging itself to the engine. The engine reports each
//! merge through a callback; the callback only records the merge, and the
//! owner of the document collects the records after the operation that caused
//! them.
//!
//! The engine reads what an engine wrote. On other bytes it may panic, so an
//! import takes only what some document exported; whoever holds bytes of
//! unknown make has to try them on an engine of its own first, where a panic
//! can be caught.

use std::sync::{Arc, Mutex};
use vstd::prelude::*;
use crate::message::{Change, ChangeView, ErrorKind};
use crate::notifier::{diff_view, spans_view, Merge, MergeView, Span, SpanView};

verus! {

/// `loro::LoroDoc`, the engine's document. Of what it holds only the text is
/// spoken of, under the name [`engine_text`].
#[verifier::external_type_specification]
#[verifier::external_body]
pub struct ExLoroDoc(loro::LoroDoc);

/// `loro::LoroError`, which says why the engine refused and is mapped to
/// [`ErrorKind::DocumentOperation`].
#[verifier::external_type_specification]
#[verifier::external_body]
pub struct ExLoroError(loro::LoroError);

/// `loro::TextDelta`, one span of the engine's text diff, read through
/// [`span_of_delta`].
#[verifier::external_type_specification]
#[verifier::external_body]
pub struct ExTextDelta(loro::TextDelta);

/// `std::sync::Mutex`, which guards the record that the engine's callback
/// writes and the document's owner empties.
#[verifier::external_type_specification]
#[verifier::external_body]
#[verifier::reject_recursive_types(T)]
pub struct ExMutex<T: ?Sized>(Mutex<T>);

/// The text that an engine document holds under the name `text`, as code
/// points.
pub uninterp spec fn engine_text(doc: loro::LoroDoc) -> Seq<char>;

/// The text after `piece` is inserted at offset `index`, or `None` where the
/// engine refuses: a non-empty piece past the end of the text.
pub open spec fn inserted(text: Seq<char>, index: nat, piece: Seq<char>) -> Option<Seq<char>> {
    if piece.len() == 0 {
        Some(text)
    } else if index <= text.len() {
        Some(text.subrange(0, index as int) + piece + text.subrange(index as int, text.len() as int))
    } else {
        None
    }
}

/// The text after `len` code points are deleted from offset `index`, or `None`
/// where the engine refuses: a non-empty range that reaches past the end of
/// the text, or past what an offset can hold.
pub open spec fn deleted(text: Seq<char>, index: nat, len: nat) -> Option<Seq<char>> {
    if len == 0 {
        Some(text)
    } else if index + len <= text.len() && index + len <= usize::MAX {
        Some(text.subrange(0, index as int) + text.subrange((index + len) as int, text.len() as int))
    } else {
        None
    }
}

/// The text after an edit, or `None` where the engine refuses the edit.
pub open spec fn applied(text: Seq<char>, change: ChangeView) -> Option<Seq<char>> {
    match change {
        ChangeView::Insert { index, text: piece } => inserted(text, index, piece),
        ChangeView::Delete { index, len } => deleted(text, index, len),
    }
}

/// Whether `bytes` is what the engine exported from some document. Only such
/// bytes are an update that the engine is made to read.
pub open spec fn is_export(bytes: Seq<u8>) -> bool {
    exists|doc: loro::LoroDoc| #[trigger] engine_export_of(doc) == bytes
}

/// Inserting a piece at the front of an empty text and deleting as many code
/// points from the front again leaves the text empty.
pub proof fn lemma_insert_then_delete(piece: Seq<char>)
    requires
        piece.len() <= usize::MAX,
    ensures
        inserted(Seq::empty(), 0, piece) is Some,
        deleted(inserted(Seq::empty(), 0, piece)->Some_0, 0, piece.len()) == Some(
            Seq::<char>::empty(),
        ),
{
    let text = inserted(Seq::empty(), 0, piece)->Some_0;
    assert(text =~= piece);
    if piece.len() > 0 {
        assert(text.subrange(0, 0) + text.subrange(piece.len() as int, text.len() as int)
            =~= Seq::<char>::empty());
    }
}

/// `loro::LoroDoc::new`: a document with a fresh peer identity, in which the
/// text is empty.
#[verifier::external_body]
fn engine_new() -> (doc: loro::LoroDoc)
    ensures
        engine_text(doc) == Seq::<char>::empty(),
{
    loro::LoroDoc::new()
}

/// `loro::LoroText::insert` on the text of `doc`: inserts at a code point
/// offset. An empty piece changes nothing and succeeds; an offset past the end
/// is refused and changes nothing.
#[verifier::external_body]
fn engine_insert(doc: &mut loro::LoroDoc, index: usize, piece: &str) -> (done: Result<(), loro::LoroError>)
    ensures
        done is Ok <==> inserted(engine_text(*old(doc)), index as nat, piece@) is Some,
        done is Ok ==> engine_text(*final(doc)) == inserted(
            engine_text(*old(doc)),
            index as nat,
            piece@,
        )->Some_0,
        done is Err ==> engine_text(*final(doc)) == engine_text(*old(doc)),
{
    doc.get_text("text").insert(index, piece)
}

/// `loro::LoroText::delete` on the text of `doc`: deletes a range of code
/// points. An empty range changes nothing and succeeds; a range that reaches
/// past the end is refused and changes nothing. The engine adds the offset and
/// the length, so their sum has to fit.
#[verifier::external_body]
fn engine_delete(doc: &mut loro::LoroDoc, index: usize, len: usize) -> (done: Result<
    (),
    loro::LoroError,
>)
    requires
        index + len <= usize::MAX,
    ensures
        done is Ok <==> deleted(engine_text(*old(doc)), index as nat, len as nat) is Some,
        done is Ok ==> engine_text(*final(doc)) == deleted(
            engine_text(*old(doc)),
            index as nat,
            len as nat,
        )->Some_0,
        done is Err ==> engine_text(*final(doc)) == engine_text(*old(doc)),
{
    doc.get_text("text").delete(index, len)
}

/// `loro::LoroText::update` on the text of `doc`: edits the text until it reads
/// `content`.
#[verifier::external_body]
fn engine_update(doc: &mut loro::LoroDoc, content: &str)
    ensures
        engine_text(*final(doc)) == content@,
{
    doc.get_text("text").update(content)
}

/// `loro::LoroDoc::export_from` with an empty version: every operation the
/// document knows, as bytes for a peer to import. Which bytes is a matter of
/// the document alone, under the name [`engine_export_of`]. The export commits
/// what is pending and changes nothing else: the text stays, and a second
/// export gives the same bytes.
#[verifier::external_body]
fn engine_export(doc: &mut loro::LoroDoc) -> (update: Vec<u8>)
    ensures
        update@ == engine_export_of(*old(doc)),
        engine_export_of(*final(doc)) == engine_export_of(*old(doc)),
        engine_text(*final(doc)) == engine_text(*old(doc)),
{
    doc.export_from(&loro::VersionVector::default())
}

/// `loro::LoroDoc::import` on what `loro::LoroDoc::export_from` gave: merges a
/// peer's update into the document. The engine reads what an engine wrote; on
/// other bytes it may panic, so they are left out. Whether the engine accepts
/// the update, and the text once it did, is a matter of the document and the
/// bytes alone, under the name [`engine_merge_of`]. An update that the engine
/// refuses has not reached the text.
#[verifier::external_body]
fn engine_import(doc: &mut loro::LoroDoc, update: &[u8]) -> (done: Result<(), loro::LoroError>)
    requires
        is_export(update@),
    ensures
        done is Ok <==> engine_merge_of(*old(doc), update@) is Some,
        done is Ok ==> engine_text(*final(doc)) == engine_merge_of(*old(doc), update@)->Some_0,
        done is Err ==> engine_text(*final(doc)) == engine_text(*old(doc)),
{
    doc.import(update)
}

/// `loro::LoroText::to_string` on the text of `doc`.
#[verifier::external_body]
fn engine_read(doc: &loro::LoroDoc) -> (text: String)
    ensures
        text@ == engine_text(*doc),
{
    doc.get_text("text").to_string()
}

/// The span that an engine delta stands for.
pub uninterp spec fn delta_span(delta: loro::TextDelta) -> SpanView;

/// Copies one `loro::TextDelta` into a [`Span`], variant by variant; the
/// formatting attributes are left behind.
#[verifier::external_body]
fn span_of_delta(delta: &loro::TextDelta) -> (span: Span)
    ensures
        span@ == delta_span(*delta),
{
    match delta {
        loro::TextDelta::Retain { retain, .. } => Span::Retain { len: *retain },
        loro::TextDelta::Insert { insert, .. } => Span::Insert { text: insert.clone() },
        loro::TextDelta::Delete { delete } => Span::Delete { len: *delete },
    }
}

/// `std::sync::Mutex::new` around a record of merges.
#[verifier::external_body]
fn record_new(entries: Vec<(bool, Vec<Option<Vec<loro::TextDelta>>>)>) -> (record: Mutex<
    Vec<(bool, Vec<Option<Vec<loro::TextDelta>>>)>,
>) {
    Mutex::new(entries)
}

/// `std::sync::Mutex::lock` on the record, taking out what it holds and
/// leaving it empty. What it holds depends on the merges the engine reported
/// since it was last emptied.
#[verifier::external_body]
fn record_take(record: &Arc<Mutex<Vec<(bool, Vec<Option<Vec<loro::TextDelta>>>)>>>) -> (merges:
    Vec<(bool, Vec<Option<Vec<loro::TextDelta>>>)>) {
    record.lock().unwrap().drain(..).collect()
}

/// `loro::LoroDoc::subscribe_root`: from now on the engine calls back after
/// every merge, and the callback appends to `record` what the engine says of
/// the merge: whether an import caused it, and for each changed part its text
/// diff, if it has one.
#[verifier::external_body]
fn engine_subscribe(
    doc: &mut loro::LoroDoc,
    record: &Arc<Mutex<Vec<(bool, Vec<Option<Vec<loro::TextDelta>>>)>>>,
)
    ensures
        engine_text(*final(doc)) == engine_text(*old(doc)),
{
    let sink = record.clone();
    doc.subscribe_root(Arc::new(move |event| {
        let diffs = event.events.iter().map(|part| part.diff.as_text().cloned()).collect();
        sink.lock().unwrap().push((event.triggered_by.is_import(), diffs));
    }));
}

/// The spans that a run of engine deltas stands for, in order.
spec fn spans_of(deltas: Seq<loro::TextDelta>) -> Seq<SpanView> {
    deltas.map_values(|d: loro::TextDelta| delta_span(d))
}

/// The diff that an engine diff stands for.
spec fn diff_of(diff: Option<Vec<loro::TextDelta>>) -> Option<Seq<SpanView>> {
    match diff {
        Some(deltas) => Some(spans_of(deltas@)),
        None => None,
    }
}

/// The merge that a record entry stands for.
spec fn merge_of(entry: (bool, Vec<Option<Vec<loro::TextDelta>>>)) -> MergeView {
    MergeView {
        by_import: entry.0,
        diffs: entry.1@.map_values(|d: Option<Vec<loro::TextDelta>>| diff_of(d)),
    }
}

/// Copies a run of engine deltas into spans.
fn read_spans(deltas: &Vec<loro::TextDelta>) -> (spans: Vec<Span>)
    ensures
        spans_view(spans@) == spans_of(deltas@),
{
    let mut spans: Vec<Span> = Vec::new();
    let mut i: usize = 0;
    while i < deltas.len()
        invariant
            i <= deltas.len(),
            spans@.len() == i,
            forall|k: int| 0 <= k < i ==> (#[trigger] spans@[k])@ == delta_span(deltas@[k]),
        decreases deltas.len() - i,
    {
        spans.push(span_of_delta(&deltas[i]));
        i += 1;
    }
    assert(spans_view(spans@) =~= spans_of(deltas@));
    spans
}

/// Copies a record entry into a merge.
fn read_merge(entry: &(bool, Vec<Option<Vec<loro::TextDelta>>>)) -> (merge: Merge)
    ensures
        merge@ == merge_of(*entry),
{
    let mut diffs: Vec<Option<Vec<Span>>> = Vec::new();
    let mut i: usize = 0;
    while i < entry.1.len()
        invariant
            i <= entry.1.len(),
            diffs@.len() == i,
            forall|k: int| 0 <= k < i ==> diff_view(#[trigger] diffs@[k]) == diff_of(entry.1@[k]),
        decreases entry.1.len() - i,
    {
        let diff = match &entry.1[i] {
            Some(deltas) => Some(read_spans(deltas)),
            None => None,
        };
        diffs.push(diff);
        i += 1;
    }
    let merge = Merge { by_import: entry.0, diffs };
    assert(merge@.diffs =~= merge_of(*entry).diffs);
    merge
}

/// Copies the record entries into merges, in order.
fn read_merges(entries: &Vec<(bool, Vec<Option<Vec<loro::TextDelta>>>)>) -> (merges: Vec<Merge>)
    ensures
        merges@.len() == entries@.len(),
        forall|k: int| 0 <= k < merges@.len() ==> (#[trigger] merges@[k])@ == merge_of(entries@[k]),
{
    let mut merges: Vec<Merge> = Vec::new();
    let mut i: usize = 0;
    while i < entries.len()
        invariant
            i <= entries.len(),
            merges@.len() == i,
            forall|k: int| 0 <= k < i ==> (#[trigger] merges@[k])@ == merge_of(entries@[k]),
        decreases entries.len() - i,
    {
        merges.push(read_merge(&entries[i]));
        i += 1;
    }
    merges
}

/// The document: the engine's state and the record of the merges it reported.
pub struct Document {
    engine: loro::LoroDoc,
    record: Arc<Mutex<Vec<(bool, Vec<Option<Vec<loro::TextDelta>>>)>>>,
}

impl Document {
    /// The text of the document, as code points.
    pub closed spec fn text(&self) -> Seq<char> {
        engine_text(self.engine)
    }

    /// An empty document that records the merges its engine reports.
    pub fn new() -> (document: Document)
        ensures
            document.text() == Seq::<char>::empty(),
    {
        let mut engine = engine_new();
        let record = Arc::new(record_new(Vec::new()));
        engine_subscribe(&mut engine, &record);
        Document { engine, record }
    }

    /// Inserts `piece` at the code point offset `index`.
    ///
    /// Fails with [`ErrorKind::DocumentOperation`], leaving the text as it was,
    /// exactly when the engine refuses the insertion.
    pub fn insert(&mut self, index: usize, piece: &str) -> (done: Result<(), ErrorKind>)
        ensures
            done is Ok <==> inserted(old(self).text(), index as nat, piece@) is Some,
            done is Ok ==> final(self).text() == inserted(
                old(self).text(),
                index as nat,
                piece@,
            )->Some_0,
            done matches Err(kind) ==> kind == ErrorKind::DocumentOperation && final(self).text()
                == old(self).text(),
    {
        match engine_insert(&mut self.engine, index, piece) {
            Ok(()) => Ok(()),
            Err(_) => Err(ErrorKind::DocumentOperation),
        }
    }

    /// Deletes `len` code points from the offset `index`.
    ///
    /// Fails with [`ErrorKind::DocumentOperation`], leaving the text as it was,
    /// exactly when the engine refuses the deletion.
    pub fn delete(&mut self, index: usize, len: usize) -> (done: Result<(), ErrorKind>)
        ensures
            done is Ok <==> deleted(old(self).text(), index as nat, len as nat) is Some,
            done is Ok ==> final(self).text() == deleted(
                old(self).text(),
                index as nat,
                len as nat,
            )->Some_0,
            done matches Err(kind) ==> kind == ErrorKind::DocumentOperation && final(self).text()
                == old(self).text(),
    {
        match index.checked_add(len) {
            Some(_) => match engine_delete(&mut self.engine, index, len) {
                Ok(()) => Ok(()),
                Err(_) => Err(ErrorKind::DocumentOperation),
            },
            None => Err(ErrorKind::DocumentOperation),
        }
    }

    /// Applies one edit.
    ///
    /// Fails with [`ErrorKind::DocumentOperation`], leaving the text as it was,
    /// exactly when the engine refuses the edit.
    pub fn apply(&mut self, change: &Change) -> (done: Result<(), ErrorKind>)
        ensures
            done is Ok <==> applied(old(self).text(), change@) is Some,
            done is Ok ==> final(self).text() == applied(old(self).text(), change@)->Some_0,
            done matches Err(kind) ==> kind == ErrorKind::DocumentOperation && final(self).text()
                == old(self).text(),
    {
        match change {
            Change::Insert { index, text } => self.insert(*index, text.as_str()),
            Change::Delete { index, len } => self.delete(*index, *len),
        }
    }

    /// Replaces the whole text with `content`.
    pub fn replace(&mut self, content: &str)
        ensures
            final(self).text() == content@,
    {
        engine_update(&mut self.engine, content);
    }

    /// Exports the document's operations for the peers, and forgets the merges
    /// recorded so far: they stem from local edits, which the application
    /// knows. The text stays as it is, and so does what an export gives.
    pub fn export_update(&mut self) -> (update: Vec<u8>)
        ensures
            update@ == old(self).exported(),
            final(self).exported() == update@,
            final(self).text() == old(self).text(),
            is_export(update@),
    {
        let update = engine_export(&mut self.engine);
        let _ = record_take(&self.record);
        assert(engine_export_of(old(self).engine) == update@);
        update
    }

    /// Imports an update that a peer's engine exported, and hands out the
    /// merges that the engine reported for it. Succeeds exactly when the engine
    /// accepts the update, and the text is then what the engine merged; fails
    /// with [`ErrorKind::DocumentOperation`] otherwise, leaving the text as it
    /// was.
    ///
    /// The update has to be an export: on bytes that no engine wrote the engine
    /// may panic.
    pub fn import_update(&mut self, update: &[u8]) -> (merges: Result<Vec<Merge>, ErrorKind>)
        requires
            is_export(update@),
        ensures
            merges is Ok <==> old(self).merged(update@) is Some,
            merges is Ok ==> final(self).text() == old(self).merged(update@)->Some_0,
            merges matches Err(kind) ==> kind == ErrorKind::DocumentOperation && final(self).text()
                == old(self).text(),
    {
        let done = engine_import(&mut self.engine, update);
        let reported = record_take(&self.record);
        match done {
            Ok(()) => Ok(read_merges(&reported)),
            Err(_) => Err(ErrorKind::DocumentOperation),
        }
    }

    /// Brings over what another document of this process holds: exports it
    /// and imports the export.
    ///
    /// Succeeds exactly when the engine accepts the other document's export,
    /// and the text is then what the engine merged; fails with
    /// [`ErrorKind::DocumentOperation`] otherwise, leaving the text as it was.
    /// The other document keeps its text.
    pub fn merge_from(&mut self, other: &mut Document) -> (merges: Result<Vec<Merge>, ErrorKind>)
        ensures
            merges is Ok <==> old(self).merged(old(other).exported()) is Some,
            merges is Ok ==> final(self).text() == old(self).merged(old(other).exported())->Some_0,
            merges matches Err(kind) ==> kind == ErrorKind::DocumentOperation && final(self).text()
                == old(self).text(),
            final(other).text() == old(other).text(),
            final(other).exported() == old(other).exported(),
    {
        let update = other.export_update();
        self.import_update(update.as_slice())
    }

    /// The text of the document.
    pub fn contents(&self) -> (text: String)
        ensures
            text@ == self.text(),
    {
        engine_read(&self.engine)
    }

    /// The bytes that an export of the document gives: all its operations, as
    /// the engine encodes them.
    pub closed spec fn exported(&self) -> Seq<u8> {
        engine_export_of(self.engine)
    }

    /// The text after `update` is merged into the document, or `None` where
    /// the engine rejects the bytes.
    pub closed spec fn merged(&self, update: Seq<u8>) -> Option<Seq<char>> {
        engine_merge_of(self.engine, update)
    }

    /// What an export of a document gives is an export.
    pub proof fn lemma_exported_is_export(&self)
        ensures
            is_export(self.exported()),
    {
        assert(engine_export_of(self.engine) == self.exported());
    }
}

/// The bytes that the engine exports from a document with an empty version:
/// every operation the document knows, in the engine's encoding.
pub uninterp spec fn engine_export_of(doc: loro::LoroDoc) -> Seq<u8>;

/// The text that a document holds after the engine has merged `update` into
/// it, or `None` where the engine rejects the bytes.
pub uninterp spec fn engine_merge_of(doc: loro::LoroDoc, update: Seq<u8>) -> Option<Seq<char>>;

} // verus!
