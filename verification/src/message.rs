//! Requests and responses, and the values they carry.
use vstd::prelude::*;
use vstd::string::StringExecFns;
use crate::error::{Error, ErrorKind};
use crate::text::{decimal, list, push_decimal, push_list};

verus! {

/// What a request asks for.
#[derive(Debug, Clone, Copy, PartialEq, Eq, Structural)]
pub enum Op {
    /// Store a payload under a key.
    SetKey,
    /// Look a key up.
    Get,
    /// Accepted, and answered with success, but nothing is removed.
    Del,
    /// Ask for the server's counters.
    Stats,
}

impl Op {
    /// The byte that stands for the operation on the wire.
    pub open spec fn spec_byte(self) -> u8 {
        match self {
            Op::SetKey => 0,
            Op::Get => 1,
            Op::Del => 2,
            Op::Stats => 3,
        }
    }

    /// The operation that a byte stands for, if any.
    pub open spec fn of_byte(b: u8) -> Option<Op> {
        if b == 0 {
            Some(Op::SetKey)
        } else if b == 1 {
            Some(Op::Get)
        } else if b == 2 {
            Some(Op::Del)
        } else if b == 3 {
            Some(Op::Stats)
        } else {
            None
        }
    }

    /// Returns the byte that stands for the operation on the wire.
    pub fn byte(self) -> (b: u8)
        ensures
            b == self.spec_byte(),
    {
        match self {
            Op::SetKey => 0,
            Op::Get => 1,
            Op::Del => 2,
            Op::Stats => 3,
        }
    }

    /// Reads an operation from its byte. Any byte above 3 is an
    /// `UnknownOp` error.
    pub fn try_from(i: u8) -> (r: Result<Op, Error>)
        ensures
            match r {
                Ok(op) => Op::of_byte(i) == Some(op),
                Err(e) => Op::of_byte(i) is None && e.spec_kind() == ErrorKind::UnknownOp
                    && e.spec_description() == "got an unknown op code"@,
            },
    {
        match i {
            0 => Ok(Op::SetKey),
            1 => Ok(Op::Get),
            2 => Ok(Op::Del),
            3 => Ok(Op::Stats),
            _ => Err(Error::new(ErrorKind::UnknownOp, "got an unknown op code")),
        }
    }

    /// The name of the operation, as it is printed.
    pub open spec fn name(self) -> Seq<char> {
        match self {
            Op::SetKey => "Set"@,
            Op::Get => "Get"@,
            Op::Del => "Del"@,
            Op::Stats => "Stats"@,
        }
    }

    /// Returns the name of the operation.
    pub fn as_str(&self) -> (s: &'static str)
        ensures
            s@ == self.name(),
    {
        match self {
            Op::SetKey => "Set",
            Op::Get => "Get",
            Op::Del => "Del",
            Op::Stats => "Stats",
        }
    }
}

/// The status of a message. `Req` marks a request; a response carries one
/// of the other four.
#[derive(Debug, Clone, Copy, PartialEq, Eq, Structural)]
pub enum Code {
    /// The message is a request.
    Req,
    /// The request was carried out.
    Okay,
    /// The key is not in the cache.
    Miss,
    /// The request was refused; the payload says why, as UTF-8 text.
    Error,
    /// The key is in the cache; the payload is its value.
    Hit,
}

impl Code {
    /// The byte that stands for the status on the wire.
    pub open spec fn spec_byte(self) -> u8 {
        match self {
            Code::Req => 0,
            Code::Okay => 1,
            Code::Miss => 2,
            Code::Error => 3,
            Code::Hit => 4,
        }
    }

    /// The status that a byte stands for, if any.
    pub open spec fn of_byte(b: u8) -> Option<Code> {
        if b == 0 {
            Some(Code::Req)
        } else if b == 1 {
            Some(Code::Okay)
        } else if b == 2 {
            Some(Code::Miss)
        } else if b == 3 {
            Some(Code::Error)
        } else if b == 4 {
            Some(Code::Hit)
        } else {
            None
        }
    }

    /// Returns the byte that stands for the status on the wire.
    pub fn byte(self) -> (b: u8)
        ensures
            b == self.spec_byte(),
    {
        match self {
            Code::Req => 0,
            Code::Okay => 1,
            Code::Miss => 2,
            Code::Error => 3,
            Code::Hit => 4,
        }
    }

    /// Reads a status from its byte. Any byte above 4 is an `InvalidData`
    /// error.
    pub fn try_from(i: u8) -> (r: Result<Code, Error>)
        ensures
            match r {
                Ok(code) => Code::of_byte(i) == Some(code),
                Err(e) => Code::of_byte(i) is None && e.spec_kind() == ErrorKind::InvalidData
                    && e.spec_description() == "unknown code"@,
            },
    {
        match i {
            0 => Ok(Code::Req),
            1 => Ok(Code::Okay),
            2 => Ok(Code::Miss),
            3 => Ok(Code::Error),
            4 => Ok(Code::Hit),
            _ => Err(Error::new(ErrorKind::InvalidData, "unknown code")),
        }
    }

    /// The name of the status, as it is printed.
    pub open spec fn name(self) -> Seq<char> {
        match self {
            Code::Req => "Req"@,
            Code::Okay => "Ok"@,
            Code::Miss => "Miss"@,
            Code::Error => "Error"@,
            Code::Hit => "Hit"@,
        }
    }

    /// Returns the name of the status.
    pub fn as_str(&self) -> (s: &'static str)
        ensures
            s@ == self.name(),
    {
        match self {
            Code::Req => "Req",
            Code::Okay => "Ok",
            Code::Miss => "Miss",
            Code::Error => "Error",
            Code::Hit => "Hit",
        }
    }
}

/// A payload as a mathematical value.
pub struct PayloadView {
    pub type_id: u32,
    pub data: Seq<u8>,
}

impl PayloadView {
    /// The payload as it is printed in a request.
    pub open spec fn text(self) -> Seq<char> {
        "type_id: "@ + decimal(self.type_id as nat) + ", data: "@ + list(self.data)
    }

    /// The payload as it is printed in a response, field by field.
    pub open spec fn debug_text(self) -> Seq<char> {
        "Payload { type_id: "@ + decimal(self.type_id as nat) + ", data: "@ + list(self.data)
            + " }"@
    }
}

/// A typed value: a tag that the server stores and returns untouched, and
/// the bytes. A tag of 1 says that the bytes are UTF-8 text.
#[derive(Debug, PartialEq)]
pub struct Payload {
    type_id: u32,
    data: Vec<u8>,
}

impl View for Payload {
    type V = PayloadView;

    closed spec fn view(&self) -> PayloadView {
        PayloadView { type_id: self.type_id, data: self.data@ }
    }
}

impl Clone for Payload {
    fn clone(&self) -> (res: Payload)
        ensures
            res@ == self@,
    {
        Payload { type_id: self.type_id, data: self.data.clone() }
    }
}

impl Payload {
    /// Returns the bytes of the payload.
    pub fn data(&self) -> (d: &[u8])
        ensures
            d@ == self@.data,
    {
        self.data.as_slice()
    }

    /// Returns the tag of the payload.
    pub fn type_id(&self) -> (t: u32)
        ensures
            t == self@.type_id,
    {
        self.type_id
    }
}

impl Payload {
    /// Renders the payload as `type_id: 1, data: [98, 97, 114]`.
    pub fn to_string(&self) -> (s: String)
        ensures
            s@ == self@.text(),
    {
        let mut s = String::from_str("type_id: ");
        push_decimal(&mut s, self.type_id as u64);
        s.append(", data: ");
        push_list(&mut s, self.data.as_slice());
        s
    }

    /// Renders the payload field by field, as
    /// `Payload { type_id: 1, data: [98, 97, 114] }`.
    pub fn to_debug_string(&self) -> (s: String)
        ensures
            s@ == self@.debug_text(),
    {
        let mut s = String::from_str("Payload { type_id: ");
        push_decimal(&mut s, self.type_id as u64);
        s.append(", data: ");
        push_list(&mut s, self.data.as_slice());
        s.append(" }");
        s
    }
}

/// Makes a payload of a tag and bytes.
pub fn payload(type_id: u32, data: Vec<u8>) -> (p: Payload)
    ensures
        p@ == (PayloadView { type_id, data: data@ }),
{
    Payload { type_id: type_id, data: data }
}

/// The view of an optional payload.
pub open spec fn payload_view(p: Option<Payload>) -> Option<PayloadView> {
    match p {
        Some(p) => Some(p@),
        None => None,
    }
}

/// A message as a mathematical value.
pub enum MessageView {
    Request(Op, Seq<u8>, Option<PayloadView>),
    Response(Op, Code, Option<PayloadView>),
}

impl MessageView {
    /// The operation of the message.
    pub open spec fn op(self) -> Op {
        match self {
            MessageView::Request(op, _, _) => op,
            MessageView::Response(op, _, _) => op,
        }
    }

    /// The status of the message: `Req` for every request.
    pub open spec fn code(self) -> Code {
        match self {
            MessageView::Request(_, _, _) => Code::Req,
            MessageView::Response(_, code, _) => code,
        }
    }

    /// The key of a request; a response has none.
    pub open spec fn key(self) -> Option<Seq<u8>> {
        match self {
            MessageView::Request(_, key, _) => Some(key),
            MessageView::Response(_, _, _) => None,
        }
    }

    /// The payload of the message, if it carries one.
    pub open spec fn payload(self) -> Option<PayloadView> {
        match self {
            MessageView::Request(_, _, payload) => payload,
            MessageView::Response(_, _, payload) => payload,
        }
    }

    /// The message as it is printed. A request shows its operation and its
    /// key, a response its operation and its status; a payload follows
    /// after a space. A response without a payload is printed under the
    /// label `Request`, like a request.
    pub open spec fn text(self) -> Seq<char> {
        match self {
            MessageView::Request(op, key, Some(p)) => "Request[Op="@ + op.name() + ", Key="@
                + list(key) + "] "@ + p.text(),
            MessageView::Request(op, key, None) => "Request[Op="@ + op.name() + ", Key="@ + list(
                key,
            ) + "]"@,
            MessageView::Response(op, code, Some(p)) => "Response[Op="@ + op.name() + ", Code="@
                + code.name() + "] "@ + p.debug_text(),
            MessageView::Response(op, code, None) => "Request[Op="@ + op.name() + ", Code="@
                + code.name() + "]"@,
        }
    }
}

/// A request or a response.
#[derive(Debug, PartialEq)]
pub enum Message {
    Request(Op, Vec<u8>, Option<Payload>),
    Response(Op, Code, Option<Payload>),
}

impl View for Message {
    type V = MessageView;

    open spec fn view(&self) -> MessageView {
        match *self {
            Message::Request(op, key, payload) => MessageView::Request(
                op,
                key@,
                payload_view(payload),
            ),
            Message::Response(op, code, payload) => MessageView::Response(
                op,
                code,
                payload_view(payload),
            ),
        }
    }
}

/// Copies an optional payload.
fn clone_payload(p: &Option<Payload>) -> (res: Option<Payload>)
    ensures
        payload_view(res) == payload_view(*p),
{
    match p {
        Some(p) => Some(p.clone()),
        None => None,
    }
}

impl Clone for Message {
    fn clone(&self) -> (res: Message)
        ensures
            res@ == self@,
    {
        match self {
            Message::Request(op, key, payload) => Message::Request(
                *op,
                key.clone(),
                clone_payload(payload),
            ),
            Message::Response(op, code, payload) => Message::Response(
                *op,
                *code,
                clone_payload(payload),
            ),
        }
    }
}

/// Makes a request.
pub fn request(op: Op, key: Vec<u8>, payload: Option<Payload>) -> (m: Message)
    ensures
        m == Message::Request(op, key, payload),
{
    Message::Request(op, key, payload)
}

/// Makes a response.
pub fn response(op: Op, code: Code, payload: Option<Payload>) -> (m: Message)
    ensures
        m == Message::Response(op, code, payload),
{
    Message::Response(op, code, payload)
}

impl Message {
    /// Returns the key of a request, and nothing for a response.
    pub fn key(&self) -> (k: Option<&[u8]>)
        ensures
            match k {
                Some(k) => self@.key() == Some(k@),
                None => self@.key() is None,
            },
    {
        match self {
            Message::Request(_, key, _) => Some(key.as_slice()),
            Message::Response(_, _, _) => None,
        }
    }

    /// Returns the operation of the message.
    pub fn op(&self) -> (op: Op)
        ensures
            op == self@.op(),
    {
        match self {
            Message::Request(op, _, _) => *op,
            Message::Response(op, _, _) => *op,
        }
    }

    /// Returns the status of the message: `Req` for every request.
    pub fn code(&self) -> (code: Code)
        ensures
            code == self@.code(),
    {
        match self {
            Message::Request(_, _, _) => Code::Req,
            Message::Response(_, code, _) => *code,
        }
    }

    /// Returns the tag of the payload, if the message carries one.
    pub fn type_id(&self) -> (t: Option<u32>)
        ensures
            match t {
                Some(t) => self@.payload() is Some && self@.payload()->0.type_id == t,
                None => self@.payload() is None,
            },
    {
        match self {
            Message::Request(_, _, payload) => match payload {
                Some(p) => Some(p.type_id),
                None => None,
            },
            Message::Response(_, _, payload) => match payload {
                Some(p) => Some(p.type_id),
                None => None,
            },
        }
    }

    /// Returns the payload, if the message carries one.
    pub fn payload(&self) -> (p: Option<&Payload>)
        ensures
            match p {
                Some(p) => self@.payload() == Some(p@),
                None => self@.payload() is None,
            },
    {
        match self {
            Message::Request(_, _, payload) => payload.as_ref(),
            Message::Response(_, _, payload) => payload.as_ref(),
        }
    }

    /// Takes a request apart into its key and payload. A response is a
    /// `BadMessage` error.
    pub fn consume_request(self) -> (r: Result<(Vec<u8>, Option<Payload>), Error>)
        ensures
            match r {
                Ok((key, payload)) => self@ == MessageView::Request(
                    self@.op(),
                    key@,
                    payload_view(payload),
                ),
                Err(e) => self is Response && e.spec_kind() == ErrorKind::BadMessage
                    && e.spec_description() == "expected a request, got a response"@,
            },
    {
        match self {
            Message::Request(_, key, payload) => Ok((key, payload)),
            Message::Response(_, _, _) => Err(
                Error::new(ErrorKind::BadMessage, "expected a request, got a response"),
            ),
        }
    }

    /// Takes a response apart into its operation, status and payload. A
    /// request is a `BadMessage` error.
    pub fn consume_response(self) -> (r: Result<(Op, Code, Option<Payload>), Error>)
        ensures
            match r {
                Ok((op, code, payload)) => self@ == MessageView::Response(
                    op,
                    code,
                    payload_view(payload),
                ),
                Err(e) => self is Request && e.spec_kind() == ErrorKind::BadMessage
                    && e.spec_description() == "expected a request, got a response"@,
            },
    {
        match self {
            Message::Response(op, code, payload) => Ok((op, code, payload)),
            Message::Request(_, _, _) => Err(
                Error::new(ErrorKind::BadMessage, "expected a request, got a response"),
            ),
        }
    }
}

impl Message {
    /// Renders the message for people.
    pub fn to_string(&self) -> (s: String)
        ensures
            s@ == self@.text(),
    {
        match self {
            Message::Request(op, key, payload) => {
                let mut s = String::from_str("Request[Op=");
                s.append(op.as_str());
                s.append(", Key=");
                push_list(&mut s, key.as_slice());
                match payload {
                    Some(p) => {
                        s.append("] ");
                        s.append(p.to_string().as_str());
                    },
                    None => {
                        s.append("]");
                    },
                }
                s
            },
            Message::Response(op, code, payload) => {
                let mut s = match payload {
                    Some(_) => String::from_str("Response[Op="),
                    None => String::from_str("Request[Op="),
                };
                s.append(op.as_str());
                s.append(", Code=");
                s.append(code.as_str());
                match payload {
                    Some(p) => {
                        s.append("] ");
                        s.append(p.to_debug_string().as_str());
                    },
                    None => {
                        s.append("]");
                    },
                }
                s
            },
        }
    }
}

} // verus!
