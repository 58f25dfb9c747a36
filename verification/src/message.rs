//! The message sets of the two protocols and the failures the client reports.

use vstd::prelude::*;

verus! {

/// One edit of the document text. Offsets and lengths count code points.
#[derive(Debug, Clone, PartialEq, Eq)]
pub enum Change {
    Insert { index: usize, text: String },
    Delete { index: usize, len: usize },
}

/// Mathematical value of a [`Change`].
pub enum ChangeView {
    Insert { index: nat, text: Seq<char> },
    Delete { index: nat, len: nat },
}

impl View for Change {
    type V = ChangeView;

    open spec fn view(&self) -> ChangeView {
        match *self {
            Change::Insert { index, text } => ChangeView::Insert { index: index as nat, text: text@ },
            Change::Delete { index, len } => ChangeView::Delete {
                index: index as nat,
                len: len as nat,
            },
        }
    }
}

impl Change {
    /// A copy with the same value.
    pub fn duplicate(&self) -> (copy: Change)
        ensures
            copy@ == self@,
    {
        match self {
            Change::Insert { index, text } => Change::Insert { index: *index, text: text.clone() },
            Change::Delete { index, len } => Change::Delete { index: *index, len: *len },
        }
    }
}

/// The values of a sequence of changes, in order.
pub open spec fn changes_view(changes: Seq<Change>) -> Seq<ChangeView> {
    changes.map_values(|c: Change| c@)
}

/// A message of the application protocol.
///
/// `AddPeer` and `CreateDocument` only ever arrive from the application,
/// `PeerAdded` only ever leaves towards it, `Change` travels both ways.
#[derive(Debug, Clone, PartialEq, Eq)]
pub enum ControlMessage {
    AddPeer { address: String },
    PeerAdded { address: String },
    CreateDocument { initial_content: String },
    Change { change: Change },
}

/// Mathematical value of a [`ControlMessage`].
pub enum ControlMessageView {
    AddPeer { address: Seq<char> },
    PeerAdded { address: Seq<char> },
    CreateDocument { initial_content: Seq<char> },
    Change { change: ChangeView },
}

impl View for ControlMessage {
    type V = ControlMessageView;

    open spec fn view(&self) -> ControlMessageView {
        match *self {
            ControlMessage::AddPeer { address } => ControlMessageView::AddPeer { address: address@ },
            ControlMessage::PeerAdded { address } => ControlMessageView::PeerAdded {
                address: address@,
            },
            ControlMessage::CreateDocument { initial_content } => ControlMessageView::CreateDocument {
                initial_content: initial_content@,
            },
            ControlMessage::Change { change } => ControlMessageView::Change { change: change@ },
        }
    }
}

/// A message of the peer protocol. There is one kind: a document update whose
/// payload the merge engine produced and only the merge engine reads.
#[derive(Debug, Clone, PartialEq, Eq)]
pub enum WireMessage {
    DocumentSync { data: Vec<u8> },
}

/// Mathematical value of a [`WireMessage`].
pub enum WireMessageView {
    DocumentSync { data: Seq<u8> },
}

impl View for WireMessage {
    type V = WireMessageView;

    open spec fn view(&self) -> WireMessageView {
        match *self {
            WireMessage::DocumentSync { data } => WireMessageView::DocumentSync { data: data@ },
        }
    }
}

/// What can go wrong, by the component that absorbs it.
#[derive(Debug, Clone, Copy, PartialEq, Eq, Structural)]
pub enum ErrorKind {
    /// A wire frame is truncated or its header is unusable.
    Framing,
    /// A frame is whole but its payload is no peer message.
    MessageFormat,
    /// A peer could not be dialed or accepted.
    PeerConnection,
    /// A line of the application protocol is no command.
    Parse,
    /// The merge engine rejected an operation.
    DocumentOperation,
    /// A collaborating task has gone away.
    ChannelClosed,
}

} // verus!
