//! The coordinator: the single owner of the document and the decisions of the
//! client's event loop.
//!
//! The loop around it waits for three things: a peer connection, a command of
//! the application, an update from a peer. It hands each to the coordinator as
//! an [`Event`] and carries out the [`Action`]s that come back, in order. The
//! document changes nowhere else, and every local change is exported for the
//! peers in the same step that made it.

use vstd::prelude::*;
use vstd::string::StringExecFns;
use crate::control::{control_of_line, parse_line, render_change, render_failure, render_message, rendered, rendered_change, rendered_failure};
use crate::document::{applied, is_export, Document};
use crate::message::{Change, ChangeView, ControlMessage, ControlMessageView, ErrorKind};
use crate::notifier::{surfaced, surfaced_changes, walkable, Merge, MergeView};
use crate::text::{decimal, push_decimal};

verus! {

/// Something for the loop to carry out.
#[derive(Debug, Clone, PartialEq, Eq)]
pub enum Action {
    /// Connect to a peer, and report how it went as [`Event::Dialed`] or
    /// [`Event::ConnectionFailed`].
    Dial { address: String },
    /// Hand the read half and the write half of the connection just
    /// established to the two routers under this handle.
    Register { peer: u64 },
    /// Send this document update to every peer.
    Broadcast { data: Vec<u8> },
    /// Tell the application.
    Emit { message: ControlMessage },
    /// Tell the application of a failure.
    Report { kind: ErrorKind, detail: String },
}

/// Mathematical value of an [`Action`].
pub enum ActionView {
    Dial { address: Seq<char> },
    Register { peer: u64 },
    Broadcast { data: Seq<u8> },
    Emit { message: ControlMessageView },
    Report { kind: ErrorKind, detail: Seq<char> },
}

impl View for Action {
    type V = ActionView;

    open spec fn view(&self) -> ActionView {
        match *self {
            Action::Dial { address } => ActionView::Dial { address: address@ },
            Action::Register { peer } => ActionView::Register { peer },
            Action::Broadcast { data } => ActionView::Broadcast { data: data@ },
            Action::Emit { message } => ActionView::Emit { message: message@ },
            Action::Report { kind, detail } => ActionView::Report { kind, detail: detail@ },
        }
    }
}

/// The values of a run of actions, in order.
pub open spec fn actions_view(actions: Seq<Action>) -> Seq<ActionView> {
    actions.map_values(|a: Action| a@)
}

/// Something that happened outside and that the coordinator decides on.
#[derive(Debug, Clone, PartialEq, Eq)]
pub enum Event {
    /// The listener accepted a connection from `address`.
    Accepted { address: String },
    /// A connection to `address`, asked for by [`Action::Dial`], stands.
    Dialed { address: String },
    /// A connection could not be made: a dial to `address` failed, or the
    /// listener could not accept.
    ConnectionFailed { address: String },
    /// The application sent a command.
    Command { message: ControlMessage },
    /// A peer sent a document update: what its engine exported.
    Update { data: Vec<u8> },
    /// A peer sent bytes that are no update: the engine could not read them.
    UpdateRefused,
}

/// Mathematical value of an [`Event`].
pub enum EventView {
    Accepted { address: Seq<char> },
    Dialed { address: Seq<char> },
    ConnectionFailed { address: Seq<char> },
    Command { message: ControlMessageView },
    Update { data: Seq<u8> },
    UpdateRefused,
}

impl View for Event {
    type V = EventView;

    open spec fn view(&self) -> EventView {
        match *self {
            Event::Accepted { address } => EventView::Accepted { address: address@ },
            Event::Dialed { address } => EventView::Dialed { address: address@ },
            Event::ConnectionFailed { address } => EventView::ConnectionFailed {
                address: address@,
            },
            Event::Command { message } => EventView::Command { message: message@ },
            Event::Update { data } => EventView::Update { data: data@ },
            Event::UpdateRefused => EventView::UpdateRefused,
        }
    }
}

/// The values of a run of merges, in order.
pub open spec fn merges_view(merges: Seq<Merge>) -> Seq<MergeView> {
    merges.map_values(|m: Merge| m@)
}

/// What the application is told of one merge: each surfaced edit as a change
/// event, or one failure where a walk leaves what an offset can hold.
pub open spec fn merge_actions(merge: MergeView) -> Seq<ActionView> {
    if merge.by_import && !walkable(merge.diffs) {
        seq![ActionView::Report { kind: ErrorKind::DocumentOperation, detail: Seq::empty() }]
    } else {
        surfaced(merge).map_values(
            |change: ChangeView|
                ActionView::Emit { message: ControlMessageView::Change { change } },
        )
    }
}

/// What the application is told of a run of merges, in merge order.
pub open spec fn merges_actions(merges: Seq<MergeView>) -> Seq<ActionView>
    decreases merges.len(),
{
    if merges.len() == 0 {
        Seq::empty()
    } else {
        merges_actions(merges.drop_last()) + merge_actions(merges.last())
    }
}

/// What follows an import: the report of its failure, or what the merges it
/// caused let the application know.
pub open spec fn import_actions(outcome: Result<Seq<MergeView>, ErrorKind>) -> Seq<ActionView> {
    match outcome {
        Ok(merges) => merges_actions(merges),
        Err(kind) => seq![ActionView::Report { kind, detail: Seq::empty() }],
    }
}

/// Whether `actions` only tell the application something: edits of the text
/// and failures, and nothing for the peers.
pub open spec fn only_tells(actions: Seq<ActionView>) -> bool {
    forall|i: int|
        0 <= i < actions.len() ==> match #[trigger] actions[i] {
            ActionView::Emit { message } => message is Change,
            ActionView::Report { .. } => true,
            _ => false,
        }
}

/// Whether `actions` is how a new connection with `address` is taken in when
/// `issued` handles were given out before: the connection is registered under
/// the next handle and then announced. Where no handle is left the connection
/// is refused with a report.
pub open spec fn connection_taken(
    issued: nat,
    address: Seq<char>,
    issued_after: nat,
    actions: Seq<ActionView>,
) -> bool {
    if issued < u64::MAX {
        &&& issued_after == issued + 1
        &&& actions == seq![
            ActionView::Register { peer: issued as u64 },
            ActionView::Emit { message: ControlMessageView::PeerAdded { address } },
        ]
    } else {
        &&& issued_after == issued
        &&& actions == seq![
            ActionView::Report { kind: ErrorKind::PeerConnection, detail: address },
        ]
    }
}

/// Whether `actions` is the report of a connection to `address` that could not
/// be made.
pub open spec fn failure_reported(address: Seq<char>, actions: Seq<ActionView>) -> bool {
    actions == seq![ActionView::Report { kind: ErrorKind::PeerConnection, detail: address }]
}

/// What goes to the peers after a local change: the export of the document as
/// it then stands.
pub open spec fn export_actions(exported: Seq<u8>) -> Seq<ActionView> {
    seq![ActionView::Broadcast { data: exported }]
}

/// Whether a command of the application was handled: `text` is the document
/// before, `text_after` the document after, `exported_after` what an export of
/// the document after gives, `actions` what the loop is to do.
pub open spec fn command_handled(
    text: Seq<char>,
    message: ControlMessageView,
    text_after: Seq<char>,
    exported_after: Seq<u8>,
    actions: Seq<ActionView>,
) -> bool {
    match message {
        ControlMessageView::AddPeer { address } => {
            &&& text_after == text
            &&& actions == seq![ActionView::Dial { address }]
        },
        ControlMessageView::PeerAdded { .. } => {
            &&& text_after == text
            &&& actions == seq![
                ActionView::Report { kind: ErrorKind::Parse, detail: rendered(message) },
            ]
        },
        ControlMessageView::CreateDocument { initial_content } => {
            &&& text_after == initial_content
            &&& actions == export_actions(exported_after)
        },
        ControlMessageView::Change { change } => match applied(text, change) {
            Some(edited) => {
                &&& text_after == edited
                &&& actions == export_actions(exported_after)
            },
            None => {
                &&& text_after == text
                &&& actions == seq![
                    ActionView::Report {
                        kind: ErrorKind::DocumentOperation,
                        detail: rendered_change(change),
                    },
                ]
            },
        },
    }
}

/// A command of the application never comes back to it as an event.
pub proof fn lemma_command_is_not_echoed(
    text: Seq<char>,
    message: ControlMessageView,
    text_after: Seq<char>,
    exported_after: Seq<u8>,
    actions: Seq<ActionView>,
)
    requires
        command_handled(text, message, text_after, exported_after, actions),
    ensures
        forall|i: int| 0 <= i < actions.len() ==> !(#[trigger] actions[i] is Emit),
{
}

/// Every update that a handled command sends to the peers is the export of the
/// document as it stands after the command.
pub proof fn lemma_broadcast_covers_the_edit(
    text: Seq<char>,
    message: ControlMessageView,
    text_after: Seq<char>,
    exported_after: Seq<u8>,
    actions: Seq<ActionView>,
)
    requires
        command_handled(text, message, text_after, exported_after, actions),
    ensures
        forall|i: int|
            0 <= i < actions.len() ==> (#[trigger] actions[i] matches ActionView::Broadcast {
                data,
            } ==> exported_after == data),
{
}

/// Whether a peer's update was handled: `text` is the document before, `merged`
/// the text that the engine makes of the update or `None` where the update is
/// refused, `text_after` the document after, `actions` what the loop is to do.
/// A refused update leaves the text and is reported; an accepted one is merged,
/// and the application is told what some run of merges surfaces.
pub open spec fn update_handled(
    text: Seq<char>,
    merged: Option<Seq<char>>,
    text_after: Seq<char>,
    actions: Seq<ActionView>,
) -> bool {
    match merged {
        None => {
            &&& text_after == text
            &&& actions == seq![
                ActionView::Report { kind: ErrorKind::DocumentOperation, detail: Seq::empty() },
            ]
        },
        Some(edited) => {
            &&& text_after == edited
            &&& exists|merges: Seq<MergeView>| actions == #[trigger] merges_actions(merges)
        },
    }
}

/// What the application is told of a run of merges never holds anything for
/// the peers.
pub proof fn lemma_merges_only_tell(merges: Seq<MergeView>)
    ensures
        only_tells(merges_actions(merges)),
    decreases merges.len(),
{
    if merges.len() > 0 {
        lemma_merges_only_tell(merges.drop_last());
        let head = merges_actions(merges.drop_last());
        let tail = merge_actions(merges.last());
        assert forall|i: int| 0 <= i < (head + tail).len() implies match #[trigger] (head
            + tail)[i] {
            ActionView::Emit { message } => message is Change,
            ActionView::Report { .. } => true,
            _ => false,
        } by {
            if i < head.len() {
                assert((head + tail)[i] == head[i]);
            } else {
                assert((head + tail)[i] == tail[i - head.len()]);
            }
        }
    }
}

/// Turns the outcome of an import into what the application is told.
pub fn actions_of_import(outcome: Result<Vec<Merge>, ErrorKind>) -> (actions: Vec<Action>)
    ensures
        actions_view(actions@) == import_actions(
            match outcome {
                Ok(merges) => Ok(merges_view(merges@)),
                Err(kind) => Err(kind),
            },
        ),
{
    let mut actions: Vec<Action> = Vec::new();
    let merges = match outcome {
        Ok(merges) => merges,
        Err(kind) => {
            actions.push(Action::Report { kind, detail: String::new() });
            assert(actions_view(actions@) =~= seq![
                ActionView::Report { kind, detail: Seq::empty() },
            ]);
            return actions;
        },
    };
    let ghost all = merges_view(merges@);
    let mut i: usize = 0;
    assert(actions_view(actions@) =~= merges_actions(all.take(0)));
    while i < merges.len()
        invariant
            i <= merges.len(),
            all == merges_view(merges@),
            actions_view(actions@) == merges_actions(all.take(i as int)),
        decreases merges.len() - i,
    {
        proof {
            assert(all.take(i as int + 1).drop_last() == all.take(i as int));
            assert(all.take(i as int + 1).last() == merges@[i as int]@);
        }
        let ghost before = actions_view(actions@);
        match surfaced_changes(&merges[i]) {
            Some(changes) => {
                let ghost told = merge_actions(merges@[i as int]@);
                let mut k: usize = 0;
                assert(actions_view(actions@) =~= before + told.take(0));
                while k < changes.len()
                    invariant
                        k <= changes.len(),
                        told.len() == changes@.len(),
                        forall|j: int|
                            0 <= j < told.len() ==> #[trigger] told[j] == (ActionView::Emit {
                                message: ControlMessageView::Change { change: changes@[j]@ },
                            }),
                        actions_view(actions@) == before + told.take(k as int),
                    decreases changes.len() - k,
                {
                    let ghost sofar = actions_view(actions@);
                    actions.push(
                        Action::Emit {
                            message: ControlMessage::Change { change: changes[k].duplicate() },
                        },
                    );
                    proof {
                        assert(actions_view(actions@) =~= sofar.push(told[k as int]));
                        assert(before + told.take(k as int + 1) =~= (before + told.take(
                            k as int,
                        )).push(told[k as int]));
                    }
                    k += 1;
                }
                proof {
                    assert(told.take(k as int) == told);
                }
            },
            None => {
                actions.push(
                    Action::Report { kind: ErrorKind::DocumentOperation, detail: String::new() },
                );
                proof {
                    assert(actions_view(actions@) =~= before + merge_actions(merges@[i as int]@));
                }
            },
        }
        i += 1;
    }
    proof {
        assert(all.take(i as int) == all);
    }
    actions
}

/// Reads one line of the application's input.
///
/// A line that carries a command becomes the event for the coordinator. A
/// line that carries none becomes the report of a parse failure that quotes
/// the line; reading goes on with the next line.
pub fn event_of_line(line: &str) -> (read: Result<Event, Action>)
    ensures
        match control_of_line(line@) {
            Some(message) => read matches Ok(event) && event@ == (EventView::Command { message }),
            None => read matches Err(action) && action@ == (ActionView::Report {
                kind: ErrorKind::Parse,
                detail: line@,
            }),
        },
{
    match parse_line(line) {
        Ok(message) => Ok(Event::Command { message }),
        Err(kind) => Err(Action::Report { kind, detail: line.to_owned() }),
    }
}

/// What a failure on the links is reported about: the peer's handle, where the
/// failure is one peer's.
pub open spec fn link_detail(peer: Option<u64>) -> Seq<char> {
    match peer {
        Some(handle) => "peer "@ + decimal(handle as nat),
        None => Seq::empty(),
    }
}

/// Makes the report of a failure on the links: of kind `kind`, about the link
/// of `peer` where it is one peer's, about none where it is the update's.
pub fn link_failure(kind: ErrorKind, peer: Option<u64>) -> (action: Action)
    ensures
        action@ == (ActionView::Report { kind, detail: link_detail(peer) }),
{
    let mut detail = String::new();
    match peer {
        Some(handle) => {
            detail.append("peer ");
            push_decimal(&mut detail, handle);
            assert(detail@ =~= link_detail(peer));
        },
        None => {},
    }
    Action::Report { kind, detail }
}

/// The line that an action puts on the application's output, with its end,
/// where the action is for the application.
pub open spec fn egress_of(action: ActionView) -> Option<Seq<char>> {
    match action {
        ActionView::Emit { message } => Some(rendered(message) + "\n"@),
        ActionView::Report { kind, detail } => Some(rendered_failure(kind, detail) + "\n"@),
        _ => None,
    }
}

/// Renders what an action tells the application as one line of output.
///
/// Events and failures give a line, with its end; the other actions are not
/// for the application and give `None`.
pub fn egress_line(action: &Action) -> (line: Option<String>)
    ensures
        line is Some <==> egress_of(action@) is Some,
        line matches Some(text) ==> text@ == egress_of(action@)->Some_0,
{
    match action {
        Action::Emit { message } => {
            let mut text = render_message(message);
            text.append("\n");
            Some(text)
        },
        Action::Report { kind, detail } => {
            let mut text = render_failure(*kind, detail.as_str());
            text.append("\n");
            Some(text)
        },
        _ => None,
    }
}

/// The coordinator's state: the document, and how many peer handles it has
/// given out.
pub struct Client {
    document: Document,
    issued: u64,
}

impl Client {
    /// The text of the document, as code points.
    pub closed spec fn text(&self) -> Seq<char> {
        self.document.text()
    }

    /// What an export of the document gives.
    pub closed spec fn exported(&self) -> Seq<u8> {
        self.document.exported()
    }

    /// The text after `update` is merged into the document, or `None` where
    /// the engine refuses the update.
    pub closed spec fn merged(&self, update: Seq<u8>) -> Option<Seq<char>> {
        self.document.merged(update)
    }

    /// What an export of the coordinator's document gives is an export, and so
    /// may be handed to a peer's coordinator as an update.
    pub proof fn lemma_exported_is_export(&self)
        ensures
            is_export(self.exported()),
    {
        self.document.lemma_exported_is_export();
    }

    /// Whether the document of this coordinator is that of `other`: the same
    /// text, the same export, and the same outcome for every update that may
    /// arrive.
    pub open spec fn same_document(&self, other: Client) -> bool {
        &&& self.text() == other.text()
        &&& self.exported() == other.exported()
        &&& forall|update: Seq<u8>| #[trigger] self.merged(update) == other.merged(update)
    }

    /// How many peer handles were given out so far. The next connection gets
    /// this number as its handle.
    pub closed spec fn issued(&self) -> nat {
        self.issued as nat
    }

    /// A coordinator with an empty document and no peers.
    pub fn new() -> (client: Client)
        ensures
            client.text() == Seq::<char>::empty(),
            client.issued() == 0,
    {
        Client { document: Document::new(), issued: 0 }
    }

    /// Takes in a connection that was accepted or dialed.
    ///
    /// The connection gets the next handle; the loop is told to register its
    /// two halves with the routers first and to announce the peer to the
    /// application after that.
    pub fn accept_new_connection(&mut self, address: String) -> (actions: Vec<Action>)
        ensures
            final(self).same_document(*old(self)),
            connection_taken(
                old(self).issued(),
                address@,
                final(self).issued(),
                actions_view(actions@),
            ),
    {
        let mut actions: Vec<Action> = Vec::new();
        if self.issued < u64::MAX {
            let peer = self.issued;
            self.issued = peer + 1;
            actions.push(Action::Register { peer });
            actions.push(Action::Emit { message: ControlMessage::PeerAdded { address } });
            assert(actions_view(actions@) =~= seq![
                ActionView::Register { peer },
                ActionView::Emit { message: ControlMessageView::PeerAdded { address: address@ } },
            ]);
        } else {
            actions.push(Action::Report { kind: ErrorKind::PeerConnection, detail: address });
            assert(actions_view(actions@) =~= seq![
                ActionView::Report { kind: ErrorKind::PeerConnection, detail: address@ },
            ]);
        }
        actions
    }

    /// Reports a connection that could not be made. The coordinator stays as
    /// it is and goes on serving.
    pub fn connection_failed(&self, address: String) -> (actions: Vec<Action>)
        ensures
            failure_reported(address@, actions_view(actions@)),
    {
        let mut actions: Vec<Action> = Vec::new();
        actions.push(Action::Report { kind: ErrorKind::PeerConnection, detail: address });
        assert(actions_view(actions@) =~= seq![
            ActionView::Report { kind: ErrorKind::PeerConnection, detail: address@ },
        ]);
        actions
    }

    /// Exports the document for the peers after a local change, and puts what
    /// is to be done with the export at the end of `actions`.
    fn export_into(&mut self, actions: &mut Vec<Action>)
        requires
            old(actions)@.len() == 0,
        ensures
            final(self).issued() == old(self).issued(),
            final(self).text() == old(self).text(),
            final(self).exported() == old(self).exported(),
            actions_view(final(actions)@) == export_actions(final(self).exported()),
            forall|i: int|
                0 <= i < final(actions)@.len() ==> !(#[trigger] final(actions)@[i] is Emit),
            forall|i: int|
                0 <= i < final(actions)@.len() ==> (#[trigger] final(actions)@[i] matches Action::Broadcast {
                    data,
                } ==> final(self).exported() == data@),
    {
        let data = self.document.export_update();
        actions.push(Action::Broadcast { data });
        assert(actions_view(actions@) =~= seq![ActionView::Broadcast { data: data@ }]);
    }

    /// Handles a command of the application.
    ///
    /// - `AddPeer` asks the loop to dial.
    /// - `CreateDocument` replaces the text and exports the document for the
    ///   peers.
    /// - `Change` applies the edit and exports the document for the peers; an
    ///   edit that the engine refuses is reported and leaves the text alone.
    /// - What goes to the peers is the export of the document as it stands
    ///   after the command.
    /// - `PeerAdded` only ever goes out: coming in, it is reported and not
    ///   applied.
    ///
    /// No command is echoed to the application.
    pub fn handle_stdin_message(&mut self, message: ControlMessage) -> (actions: Vec<Action>)
        ensures
            final(self).issued() == old(self).issued(),
            command_handled(
                old(self).text(),
                message@,
                final(self).text(),
                final(self).exported(),
                actions_view(actions@),
            ),
            forall|i: int| 0 <= i < actions@.len() ==> !(#[trigger] actions@[i] is Emit),
            forall|i: int|
                0 <= i < actions@.len() ==> (#[trigger] actions@[i] matches Action::Broadcast {
                    data,
                } ==> final(self).exported() == data@),
    {
        let mut actions: Vec<Action> = Vec::new();
        match message {
            ControlMessage::AddPeer { address } => {
                actions.push(Action::Dial { address });
                assert(actions_view(actions@) =~= seq![ActionView::Dial { address: address@ }]);
            },
            ControlMessage::PeerAdded { address } => {
                let message = ControlMessage::PeerAdded { address };
                let detail = render_message(&message);
                actions.push(Action::Report { kind: ErrorKind::Parse, detail });
                assert(actions_view(actions@) =~= seq![
                    ActionView::Report { kind: ErrorKind::Parse, detail: rendered(message@) },
                ]);
            },
            ControlMessage::CreateDocument { initial_content } => {
                self.document.replace(initial_content.as_str());
                self.export_into(&mut actions);
            },
            ControlMessage::Change { change } => {
                match self.document.apply(&change) {
                    Ok(()) => {
                        self.export_into(&mut actions);
                    },
                    Err(kind) => {
                        let detail = render_change(&change);
                        actions.push(Action::Report { kind, detail });
                        assert(actions_view(actions@) =~= seq![
                            ActionView::Report {
                                kind: ErrorKind::DocumentOperation,
                                detail: rendered_change(change@),
                            },
                        ]);
                    },
                }
            },
        }
        actions
    }

    /// Imports a peer's update and tells the application what it changed.
    ///
    /// An update that the engine accepts is merged into the document, and the
    /// application is told what [`actions_of_import`] makes of the merges that
    /// the engine reported. An update that is refused leaves the text as it
    /// was and is reported. Nothing is sent to the peers either way: they have
    /// what the update holds.
    ///
    /// The update has to be what a peer's engine exported: on bytes that no
    /// engine wrote the engine may panic. Bytes that are not known to be an
    /// export go to [`Client::update_refused`] instead.
    pub fn handle_update(&mut self, data: &[u8]) -> (actions: Vec<Action>)
        requires
            is_export(data@),
        ensures
            final(self).issued() == old(self).issued(),
            update_handled(
                old(self).text(),
                old(self).merged(data@),
                final(self).text(),
                actions_view(actions@),
            ),
            only_tells(actions_view(actions@)),
    {
        let outcome = self.document.import_update(data);
        let ghost told: Result<Seq<MergeView>, ErrorKind> = if outcome is Ok {
            Ok(merges_view(outcome->Ok_0@))
        } else {
            Err(outcome->Err_0)
        };
        proof {
            if outcome is Ok {
                lemma_merges_only_tell(merges_view(outcome->Ok_0@));
            }
        }
        let actions = actions_of_import(outcome);
        proof {
            assert(actions_view(actions@) == import_actions(told));
            if told is Ok {
                assert(actions_view(actions@) == merges_actions(told->Ok_0));
            }
        }
        actions
    }

    /// Brings over what another coordinator of this process holds, as if it
    /// were a peer: exports its document and handles the export as an update.
    /// The other coordinator keeps its document.
    pub fn merge_from(&mut self, other: &mut Client) -> (actions: Vec<Action>)
        ensures
            final(self).issued() == old(self).issued(),
            update_handled(
                old(self).text(),
                old(self).merged(old(other).exported()),
                final(self).text(),
                actions_view(actions@),
            ),
            only_tells(actions_view(actions@)),
            final(other).issued() == old(other).issued(),
            final(other).text() == old(other).text(),
            final(other).exported() == old(other).exported(),
    {
        let update = other.document.export_update();
        self.handle_update(update.as_slice())
    }

    /// Reports bytes from a peer that are no update: the engine could not read
    /// them. The document stays as it is.
    pub fn update_refused(&self) -> (actions: Vec<Action>)
        ensures
            update_handled(self.text(), None, self.text(), actions_view(actions@)),
    {
        let mut actions: Vec<Action> = Vec::new();
        actions.push(Action::Report { kind: ErrorKind::DocumentOperation, detail: String::new() });
        assert(actions_view(actions@) =~= seq![
            ActionView::Report { kind: ErrorKind::DocumentOperation, detail: Seq::empty() },
        ]);
        actions
    }

    /// Decides on one event of the loop.
    ///
    /// The data of an update has to be what a peer's engine exported.
    pub fn step(&mut self, event: Event) -> (actions: Vec<Action>)
        requires
            event matches Event::Update { data } ==> is_export(data@),
        ensures
            match event@ {
                EventView::Accepted { address } | EventView::Dialed { address } => {
                    &&& final(self).same_document(*old(self))
                    &&& connection_taken(
                        old(self).issued(),
                        address,
                        final(self).issued(),
                        actions_view(actions@),
                    )
                },
                EventView::ConnectionFailed { address } => {
                    &&& final(self).same_document(*old(self))
                    &&& final(self).issued() == old(self).issued()
                    &&& failure_reported(address, actions_view(actions@))
                },
                EventView::Command { message } => {
                    &&& final(self).issued() == old(self).issued()
                    &&& command_handled(
                        old(self).text(),
                        message,
                        final(self).text(),
                        final(self).exported(),
                        actions_view(actions@),
                    )
                },
                EventView::Update { data } => {
                    &&& final(self).issued() == old(self).issued()
                    &&& update_handled(
                        old(self).text(),
                        old(self).merged(data),
                        final(self).text(),
                        actions_view(actions@),
                    )
                    &&& only_tells(actions_view(actions@))
                },
                EventView::UpdateRefused => {
                    &&& final(self).same_document(*old(self))
                    &&& final(self).issued() == old(self).issued()
                    &&& update_handled(
                        old(self).text(),
                        None,
                        final(self).text(),
                        actions_view(actions@),
                    )
                },
            },
    {
        match event {
            Event::Accepted { address } => self.accept_new_connection(address),
            Event::Dialed { address } => self.accept_new_connection(address),
            Event::ConnectionFailed { address } => self.connection_failed(address),
            Event::Command { message } => self.handle_stdin_message(message),
            Event::Update { data } => self.handle_update(data.as_slice()),
            Event::UpdateRefused => self.update_refused(),
        }
    }

    /// The text of the document.
    pub fn contents(&self) -> (text: String)
        ensures
            text@ == self.text(),
    {
        self.document.contents()
    }
}

} // verus!
