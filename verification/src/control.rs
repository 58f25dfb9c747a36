//! The application protocol: one JSON object per line, in both directions.
//!
//! Commands come in as lines and are read into [`ControlMessage`] values;
//! events go out as lines rendered from them. Failures go out as events of
//! their own.

use vstd::prelude::*;
use vstd::string::StringExecFns;
use vstd::utf8::encode_utf8;
use crate::json::{lemma_record_view, member, member_of, members_view, parse, quote, quoted, json_of_bytes, Json, JsonView};
use crate::message::{Change, ChangeView, ControlMessage, ControlMessageView, ErrorKind};
use crate::text::{decimal, push_decimal};

verus! {

/// The text of the member `name`, where the object has it as a string.
pub open spec fn text_member_of(members: Seq<(Seq<char>, JsonView)>, name: Seq<char>) -> Option<
    Seq<char>,
> {
    match member_of(members, name) {
        Some(JsonView::Text(text)) => Some(text),
        _ => None,
    }
}

/// The number of the member `name`, where the object has it as a non-negative
/// integer that an offset can hold.
pub open spec fn index_member_of(members: Seq<(Seq<char>, JsonView)>, name: Seq<char>) -> Option<
    nat,
> {
    match member_of(members, name) {
        Some(JsonView::Number(Some(n))) => if n <= usize::MAX {
            Some(n as nat)
        } else {
            None
        },
        _ => None,
    }
}

/// The edit that a document describes, if it describes one: an object whose
/// `type` is `insert`, with an `index` and a `text`, or `delete`, with an
/// `index` and a `len`. Other members are ignored.
pub open spec fn change_of(json: JsonView) -> Option<ChangeView> {
    match json {
        JsonView::Record(members) => match text_member_of(members, "type"@) {
            Some(kind) => if kind == "insert"@ {
                match (index_member_of(members, "index"@), text_member_of(members, "text"@)) {
                    (Some(index), Some(text)) => Some(ChangeView::Insert { index, text }),
                    _ => None,
                }
            } else if kind == "delete"@ {
                match (index_member_of(members, "index"@), index_member_of(members, "len"@)) {
                    (Some(index), Some(len)) => Some(ChangeView::Delete { index, len }),
                    _ => None,
                }
            } else {
                None
            },
            None => None,
        },
        _ => None,
    }
}

/// The message that a document describes, if it describes one: an object
/// whose `type` names the kind and which has that kind's members.
pub open spec fn control_of(json: JsonView) -> Option<ControlMessageView> {
    match json {
        JsonView::Record(members) => match text_member_of(members, "type"@) {
            Some(kind) => if kind == "add_peer"@ {
                match text_member_of(members, "address"@) {
                    Some(address) => Some(ControlMessageView::AddPeer { address }),
                    None => None,
                }
            } else if kind == "peer_added"@ {
                match text_member_of(members, "address"@) {
                    Some(address) => Some(ControlMessageView::PeerAdded { address }),
                    None => None,
                }
            } else if kind == "create_document"@ {
                match text_member_of(members, "initial_content"@) {
                    Some(initial_content) => Some(
                        ControlMessageView::CreateDocument { initial_content },
                    ),
                    None => None,
                }
            } else if kind == "change"@ {
                match member_of(members, "change"@) {
                    Some(inner) => match change_of(inner) {
                        Some(change) => Some(ControlMessageView::Change { change }),
                        None => None,
                    },
                    None => None,
                }
            } else {
                None
            },
            None => None,
        },
        _ => None,
    }
}

/// The message that a line of the protocol carries, if it carries one.
pub open spec fn control_of_line(line: Seq<char>) -> Option<ControlMessageView> {
    match json_of_bytes(encode_utf8(line)) {
        Some(json) => control_of(json),
        None => None,
    }
}

/// Whether `text` is the word `word`.
fn is_word(text: &String, word: &str) -> (same: bool)
    ensures
        same <==> text@ == word@,
{
    let other: String = word.to_owned();
    *text == other
}

/// Reads the member `name` as a string.
fn text_member<'a>(members: &'a Vec<(String, Json)>, name: &str) -> (found: Option<&'a String>)
    ensures
        found is Some <==> text_member_of(members_view(members@), name@) is Some,
        found matches Some(text) ==> text@ == text_member_of(members_view(members@), name@)->Some_0,
{
    match member(members, name) {
        Some(Json::Text(text)) => Some(text),
        _ => None,
    }
}

/// Reads the member `name` as an offset or a length.
fn index_member(members: &Vec<(String, Json)>, name: &str) -> (found: Option<usize>)
    ensures
        found is Some <==> index_member_of(members_view(members@), name@) is Some,
        found matches Some(n) ==> n == index_member_of(members_view(members@), name@)->Some_0,
{
    match member(members, name) {
        Some(Json::Number(Some(n))) => {
            if *n <= usize::MAX as u64 {
                Some(*n as usize)
            } else {
                None
            }
        },
        _ => None,
    }
}

/// Reads an edit off a document.
///
/// Returns the edit that the document describes, and fails with
/// [`ErrorKind::Parse`] exactly when it describes none.
pub fn change_of_json(json: &Json) -> (change: Result<Change, ErrorKind>)
    ensures
        change is Ok <==> change_of(json@) is Some,
        change matches Ok(c) ==> c@ == change_of(json@)->Some_0,
        change matches Err(kind) ==> kind == ErrorKind::Parse,
{
    let members = match json {
        Json::Record(members) => members,
        _ => {
            return Err(ErrorKind::Parse);
        },
    };
    proof {
        lemma_record_view(*members);
    }
    let kind = match text_member(members, "type") {
        Some(kind) => kind,
        None => {
            return Err(ErrorKind::Parse);
        },
    };
    if is_word(kind, "insert") {
        match (index_member(members, "index"), text_member(members, "text")) {
            (Some(index), Some(text)) => Ok(Change::Insert { index, text: text.clone() }),
            _ => Err(ErrorKind::Parse),
        }
    } else if is_word(kind, "delete") {
        match (index_member(members, "index"), index_member(members, "len")) {
            (Some(index), Some(len)) => Ok(Change::Delete { index, len }),
            _ => Err(ErrorKind::Parse),
        }
    } else {
        Err(ErrorKind::Parse)
    }
}

/// Reads a message off a document.
///
/// Returns the message that the document describes, and fails with
/// [`ErrorKind::Parse`] exactly when it describes none.
pub fn control_of_json(json: &Json) -> (message: Result<ControlMessage, ErrorKind>)
    ensures
        message is Ok <==> control_of(json@) is Some,
        message matches Ok(m) ==> m@ == control_of(json@)->Some_0,
        message matches Err(kind) ==> kind == ErrorKind::Parse,
{
    let members = match json {
        Json::Record(members) => members,
        _ => {
            return Err(ErrorKind::Parse);
        },
    };
    proof {
        lemma_record_view(*members);
    }
    let kind = match text_member(members, "type") {
        Some(kind) => kind,
        None => {
            return Err(ErrorKind::Parse);
        },
    };
    if is_word(kind, "add_peer") {
        match text_member(members, "address") {
            Some(address) => Ok(ControlMessage::AddPeer { address: address.clone() }),
            None => Err(ErrorKind::Parse),
        }
    } else if is_word(kind, "peer_added") {
        match text_member(members, "address") {
            Some(address) => Ok(ControlMessage::PeerAdded { address: address.clone() }),
            None => Err(ErrorKind::Parse),
        }
    } else if is_word(kind, "create_document") {
        match text_member(members, "initial_content") {
            Some(content) => Ok(ControlMessage::CreateDocument { initial_content: content.clone() }),
            None => Err(ErrorKind::Parse),
        }
    } else if is_word(kind, "change") {
        match member(members, "change") {
            Some(inner) => match change_of_json(inner) {
                Ok(change) => Ok(ControlMessage::Change { change }),
                Err(kind) => Err(kind),
            },
            None => Err(ErrorKind::Parse),
        }
    } else {
        Err(ErrorKind::Parse)
    }
}

/// Reads one line of the application protocol.
///
/// Returns the message that the line carries, and fails with
/// [`ErrorKind::Parse`] exactly when the line is no JSON text or describes no
/// message.
pub fn parse_line(line: &str) -> (message: Result<ControlMessage, ErrorKind>)
    ensures
        message is Ok <==> control_of_line(line@) is Some,
        message matches Ok(m) ==> m@ == control_of_line(line@)->Some_0,
        message matches Err(kind) ==> kind == ErrorKind::Parse,
{
    match parse(line.as_bytes()) {
        Some(json) => control_of_json(&json),
        None => Err(ErrorKind::Parse),
    }
}

/// The text of an edit on a line of the protocol.
pub open spec fn rendered_change(change: ChangeView) -> Seq<char> {
    match change {
        ChangeView::Insert { index, text } => "{\"type\":\"insert\",\"index\":"@ + decimal(index)
            + ",\"text\":"@ + quoted(text) + "}"@,
        ChangeView::Delete { index, len } => "{\"type\":\"delete\",\"index\":"@ + decimal(index)
            + ",\"len\":"@ + decimal(len) + "}"@,
    }
}

/// The line, without its end, that carries `message`.
pub open spec fn rendered(message: ControlMessageView) -> Seq<char> {
    match message {
        ControlMessageView::AddPeer { address } => "{\"type\":\"add_peer\",\"address\":"@ + quoted(
            address,
        ) + "}"@,
        ControlMessageView::PeerAdded { address } => "{\"type\":\"peer_added\",\"address\":"@
            + quoted(address) + "}"@,
        ControlMessageView::CreateDocument { initial_content } =>
            "{\"type\":\"create_document\",\"initial_content\":"@ + quoted(initial_content) + "}"@,
        ControlMessageView::Change { change } => "{\"type\":\"change\",\"change\":"@
            + rendered_change(change) + "}"@,
    }
}

/// The name under which a failure of `kind` is reported.
pub open spec fn kind_name(kind: ErrorKind) -> Seq<char> {
    match kind {
        ErrorKind::Framing => "framing_error"@,
        ErrorKind::MessageFormat => "message_format_error"@,
        ErrorKind::PeerConnection => "peer_connection_error"@,
        ErrorKind::Parse => "parse_error"@,
        ErrorKind::DocumentOperation => "document_operation_error"@,
        ErrorKind::ChannelClosed => "channel_closed_error"@,
    }
}

/// The line, without its end, that reports a failure of `kind` about `detail`.
pub open spec fn rendered_failure(kind: ErrorKind, detail: Seq<char>) -> Seq<char> {
    "{\"type\":\"error\",\"error\":\""@ + kind_name(kind) + "\",\"detail\":"@ + quoted(detail)
        + "}"@
}

/// Appends the text of an edit to `out`.
fn push_change(out: &mut String, change: &Change)
    ensures
        final(out)@ == old(out)@ + rendered_change(change@),
{
    match change {
        Change::Insert { index, text } => {
            out.append("{\"type\":\"insert\",\"index\":");
            push_decimal(out, *index as u64);
            out.append(",\"text\":");
            out.append(quote(text.as_str()).as_str());
            out.append("}");
            assert(out@ =~= old(out)@ + rendered_change(change@));
        },
        Change::Delete { index, len } => {
            out.append("{\"type\":\"delete\",\"index\":");
            push_decimal(out, *index as u64);
            out.append(",\"len\":");
            push_decimal(out, *len as u64);
            out.append("}");
            assert(out@ =~= old(out)@ + rendered_change(change@));
        },
    }
}

/// Renders an edit as it stands inside a line of the application protocol.
pub fn render_change(change: &Change) -> (text: String)
    ensures
        text@ == rendered_change(change@),
{
    let mut out = String::new();
    push_change(&mut out, change);
    assert(out@ =~= rendered_change(change@));
    out
}

/// Renders a message as one line of the application protocol, without the
/// line's end.
pub fn render_message(message: &ControlMessage) -> (line: String)
    ensures
        line@ == rendered(message@),
{
    let mut out = String::new();
    match message {
        ControlMessage::AddPeer { address } => {
            out.append("{\"type\":\"add_peer\",\"address\":");
            out.append(quote(address.as_str()).as_str());
        },
        ControlMessage::PeerAdded { address } => {
            out.append("{\"type\":\"peer_added\",\"address\":");
            out.append(quote(address.as_str()).as_str());
        },
        ControlMessage::CreateDocument { initial_content } => {
            out.append("{\"type\":\"create_document\",\"initial_content\":");
            out.append(quote(initial_content.as_str()).as_str());
        },
        ControlMessage::Change { change } => {
            out.append("{\"type\":\"change\",\"change\":");
            push_change(&mut out, change);
        },
    }
    out.append("}");
    assert(out@ =~= rendered(message@));
    out
}

/// The name under which a failure of `kind` is reported.
pub fn name_of_kind(kind: ErrorKind) -> (name: &'static str)
    ensures
        name@ == kind_name(kind),
{
    match kind {
        ErrorKind::Framing => "framing_error",
        ErrorKind::MessageFormat => "message_format_error",
        ErrorKind::PeerConnection => "peer_connection_error",
        ErrorKind::Parse => "parse_error",
        ErrorKind::DocumentOperation => "document_operation_error",
        ErrorKind::ChannelClosed => "channel_closed_error",
    }
}

/// Renders the report of a failure as one line of the application protocol,
/// without the line's end.
pub fn render_failure(kind: ErrorKind, detail: &str) -> (line: String)
    ensures
        line@ == rendered_failure(kind, detail@),
{
    let mut out = String::new();
    out.append("{\"type\":\"error\",\"error\":\"");
    out.append(name_of_kind(kind));
    out.append("\",\"detail\":");
    out.append(quote(detail).as_str());
    out.append("}");
    assert(out@ =~= rendered_failure(kind, detail@));
    out
}

} // verus!
