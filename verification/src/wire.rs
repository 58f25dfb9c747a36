//! The peer protocol: one kind of message, a document update, carried as JSON
//! text inside a length-prefixed frame.

use vstd::prelude::*;
use vstd::slice::slice_to_vec;
use vstd::string::StringExecFns;
use vstd::utf8::encode_utf8;
use crate::control::text_member_of;
use crate::frame::{announced, decode_frame, encode_frame, frame_of, MAX_PAYLOAD};
use crate::json::{items_view, json_of_bytes, lemma_list_view, lemma_record_view, member, member_of, members_view, parse, Json, JsonView};
use crate::message::{ErrorKind, WireMessage, WireMessageView};
use crate::text::{decimal, push_decimal};

verus! {

/// The byte that a document stands for, where it is a number from 0 to 255.
pub open spec fn byte_of(json: JsonView) -> Option<u8> {
    match json {
        JsonView::Number(Some(n)) => if n <= 255 {
            Some(n as u8)
        } else {
            None
        },
        _ => None,
    }
}

/// The bytes that a list of documents stands for, where each of them is a byte.
pub open spec fn bytes_of(items: Seq<JsonView>) -> Option<Seq<u8>> {
    if forall|i: int| 0 <= i < items.len() ==> (#[trigger] byte_of(items[i])) is Some {
        Some(Seq::new(items.len(), |i: int| byte_of(items[i])->Some_0))
    } else {
        None
    }
}

/// The peer message that a document describes, if it describes one: an object
/// whose `type` is `document_sync` and whose `data` is a list of bytes.
pub open spec fn wire_of(json: JsonView) -> Option<WireMessageView> {
    match json {
        JsonView::Record(members) => if text_member_of(members, "type"@) == Some(
            "document_sync"@,
        ) {
            match member_of(members, "data"@) {
                Some(JsonView::List(items)) => match bytes_of(items) {
                    Some(data) => Some(WireMessageView::DocumentSync { data }),
                    None => None,
                },
                _ => None,
            }
        } else {
            None
        },
        _ => None,
    }
}

/// The peer message that a payload carries, if it carries one.
pub open spec fn wire_of_payload(payload: Seq<u8>) -> Option<WireMessageView> {
    match json_of_bytes(payload) {
        Some(json) => wire_of(json),
        None => None,
    }
}

/// What decoding one frame gives: the message, or the kind of the failure.
pub open spec fn decoded(bytes: Seq<u8>) -> Result<WireMessageView, ErrorKind> {
    if bytes.len() >= 4 && bytes.len() == 4 + announced(bytes) {
        match wire_of_payload(bytes.skip(4)) {
            Some(message) => Ok(message),
            None => Err(ErrorKind::MessageFormat),
        }
    } else {
        Err(ErrorKind::Framing)
    }
}

/// The numerals of `data`, separated by commas.
pub open spec fn byte_list(data: Seq<u8>) -> Seq<char>
    decreases data.len(),
{
    if data.len() == 0 {
        Seq::empty()
    } else if data.len() == 1 {
        decimal(data[0] as nat)
    } else {
        byte_list(data.drop_last()) + ","@ + decimal(data.last() as nat)
    }
}

/// The JSON text that carries a document update with the payload `data`.
pub open spec fn payload_text(data: Seq<u8>) -> Seq<char> {
    "{\"type\":\"document_sync\",\"data\":["@ + byte_list(data) + "]}"@
}

/// The payload of the frame that carries `message`.
pub open spec fn payload_of(message: WireMessageView) -> Seq<u8> {
    match message {
        WireMessageView::DocumentSync { data } => encode_utf8(payload_text(data)),
    }
}

/// Reads a list of documents as bytes.
fn bytes_of_items(items: &Vec<Json>) -> (data: Option<Vec<u8>>)
    ensures
        data is Some <==> bytes_of(items_view(items@)) is Some,
        data matches Some(d) ==> d@ == bytes_of(items_view(items@))->Some_0,
{
    let ghost all = items_view(items@);
    let mut out: Vec<u8> = Vec::new();
    let mut i: usize = 0;
    while i < items.len()
        invariant
            i <= items.len(),
            all == items_view(items@),
            out@.len() == i,
            forall|k: int| 0 <= k < i ==> (#[trigger] byte_of(all[k])) == Some(out@[k]),
        decreases items.len() - i,
    {
        match &items[i] {
            Json::Number(Some(n)) => {
                if *n <= 255 {
                    out.push(*n as u8);
                } else {
                    assert(byte_of(all[i as int]) is None);
                    return None;
                }
            },
            _ => {
                assert(byte_of(all[i as int]) is None);
                return None;
            },
        }
        i += 1;
    }
    proof {
        assert(out@ =~= bytes_of(all)->Some_0);
    }
    Some(out)
}

/// Reads a peer message off a document.
///
/// Returns the message that the document describes, and fails with
/// [`ErrorKind::MessageFormat`] exactly when it describes none.
pub fn wire_of_json(json: &Json) -> (message: Result<WireMessage, ErrorKind>)
    ensures
        message is Ok <==> wire_of(json@) is Some,
        message matches Ok(m) ==> m@ == wire_of(json@)->Some_0,
        message matches Err(kind) ==> kind == ErrorKind::MessageFormat,
{
    let members = match json {
        Json::Record(members) => members,
        _ => {
            return Err(ErrorKind::MessageFormat);
        },
    };
    proof {
        lemma_record_view(*members);
    }
    let tagged = match member(members, "type") {
        Some(Json::Text(kind)) => {
            let word: String = "document_sync".to_owned();
            *kind == word
        },
        _ => false,
    };
    if !tagged {
        return Err(ErrorKind::MessageFormat);
    }
    match member(members, "data") {
        Some(Json::List(items)) => {
            proof {
                lemma_list_view(*items);
            }
            match bytes_of_items(items) {
                Some(data) => Ok(WireMessage::DocumentSync { data }),
                None => Err(ErrorKind::MessageFormat),
            }
        },
        _ => Err(ErrorKind::MessageFormat),
    }
}

/// Reads the peer message that a frame's payload carries.
///
/// Fails with [`ErrorKind::MessageFormat`] exactly when the payload is no JSON
/// text or describes no peer message.
pub fn decode_payload(payload: &[u8]) -> (message: Result<WireMessage, ErrorKind>)
    ensures
        message is Ok <==> wire_of_payload(payload@) is Some,
        message matches Ok(m) ==> m@ == wire_of_payload(payload@)->Some_0,
        message matches Err(kind) ==> kind == ErrorKind::MessageFormat,
{
    match parse(payload) {
        Some(json) => wire_of_json(&json),
        None => Err(ErrorKind::MessageFormat),
    }
}

/// Decodes a buffer that holds exactly one frame.
///
/// Fails with [`ErrorKind::Framing`] when the buffer is not one whole frame,
/// and with [`ErrorKind::MessageFormat`] when it is and its payload carries no
/// peer message.
pub fn decode(bytes: &[u8]) -> (message: Result<WireMessage, ErrorKind>)
    ensures
        message is Ok <==> decoded(bytes@) is Ok,
        message matches Ok(m) ==> m@ == decoded(bytes@)->Ok_0,
        message matches Err(kind) ==> decoded(bytes@) == Err::<WireMessageView, ErrorKind>(kind),
{
    match decode_frame(bytes) {
        Ok(payload) => {
            proof {
                assert(payload@ =~= bytes@.skip(4));
            }
            decode_payload(payload.as_slice())
        },
        Err(kind) => Err(kind),
    }
}

/// Appends the numerals of `data`, separated by commas, to `out`.
fn push_byte_list(out: &mut String, data: &[u8])
    ensures
        final(out)@ == old(out)@ + byte_list(data@),
{
    let mut i: usize = 0;
    proof {
        assert(data@.take(0) =~= Seq::<u8>::empty());
        assert(out@ =~= old(out)@ + byte_list(data@.take(0)));
    }
    while i < data.len()
        invariant
            i <= data.len(),
            out@ == old(out)@ + byte_list(data@.take(i as int)),
        decreases data.len() - i,
    {
        let ghost before = out@;
        if i > 0 {
            out.append(",");
        }
        push_decimal(out, data[i] as u64);
        proof {
            let next = data@.take(i as int + 1);
            assert(next.drop_last() =~= data@.take(i as int));
            assert(next.last() == data@[i as int]);
            if i == 0 {
                assert(next.len() == 1);
                assert(byte_list(data@.take(0)) =~= Seq::<char>::empty());
                assert(out@ =~= old(out)@ + byte_list(next));
            } else {
                assert(out@ =~= old(out)@ + byte_list(next));
            }
        }
        i += 1;
    }
    proof {
        assert(data@.take(i as int) =~= data@);
    }
}

/// Renders the payload that carries a document update.
pub fn encode_payload(message: &WireMessage) -> (payload: Vec<u8>)
    ensures
        payload@ == payload_of(message@),
{
    let mut out = String::new();
    out.append("{\"type\":\"document_sync\",\"data\":[");
    match message {
        WireMessage::DocumentSync { data } => {
            push_byte_list(&mut out, data.as_slice());
        },
    }
    out.append("]}");
    proof {
        assert(out@ =~= payload_text(message@->data));
    }
    slice_to_vec(out.as_str().as_bytes())
}

/// Encodes a peer message as one frame.
///
/// Fails with [`ErrorKind::Framing`] exactly when the payload is longer than a
/// frame header can announce.
pub fn encode(message: &WireMessage) -> (frame: Result<Vec<u8>, ErrorKind>)
    ensures
        frame is Ok <==> payload_of(message@).len() <= MAX_PAYLOAD,
        frame matches Ok(bytes) ==> bytes@ == frame_of(payload_of(message@)),
        frame matches Err(kind) ==> kind == ErrorKind::Framing,
{
    let payload = encode_payload(message);
    encode_frame(payload.as_slice())
}

} // verus!
