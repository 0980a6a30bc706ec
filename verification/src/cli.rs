//! What the command line shows for a response.
use vstd::prelude::*;
use vstd::slice::slice_to_vec;
use vstd::string::StringExecFns;
use vstd::utf8::{decode_utf8, encode_utf8_decode_utf8, valid_utf8};
use crate::message::{Code, Message, MessageView, Op};
use crate::text::from_utf8;

verus! {

/// The bytes that are shown as text: the payload of a hit whose tag is 1,
/// and the payload of anything that answers `Stats`. Every other message is
/// shown as a whole.
pub open spec fn shown_as_text(m: MessageView) -> Option<Seq<u8>> {
    match m.payload() {
        Some(p) => if m.op() == Op::Get && m.code() == Code::Hit && p.type_id == 1 {
            Some(p.data)
        } else if m.op() == Op::Stats {
            Some(p.data)
        } else {
            None
        },
        None => None,
    }
}

/// Renders a response for the command line: the payload as text where
/// [`shown_as_text`] picks it, which fails where the bytes are not valid
/// UTF-8, and else the whole message as [`MessageView::text`] prints it.
pub fn handle_response(msg: &Message) -> (r: Result<String, String>)
    ensures
        match shown_as_text(msg@) {
            Some(data) => if valid_utf8(data) {
                &&& r matches Ok(s)
                &&& s@ == decode_utf8(data)
            } else {
                &&& r matches Err(e)
                &&& e@ == "expected a utf8-encoded string"@
            },
            None => {
                &&& r matches Ok(s)
                &&& s@ == msg@.text()
            },
        },
{
    let as_text = match msg.payload() {
        Some(p) => match (msg.op(), msg.code()) {
            (Op::Get, Code::Hit) => p.type_id() == 1,
            (Op::Stats, _) => true,
            _ => false,
        },
        None => false,
    };
    if !as_text {
        return Ok(msg.to_string());
    }
    match msg.payload() {
        Some(p) => match from_utf8(slice_to_vec(p.data())) {
            Some(text) => {
                proof {
                    encode_utf8_decode_utf8(text@);
                }
                Ok(text)
            },
            None => Err(String::from_str("expected a utf8-encoded string")),
        },
        None => Ok(msg.to_string()),
    }
}

} // verus!
