use rcache::error::{Error, ErrorKind};
use rcache::message::{payload, request, response, Code, Message, Op};

#[test]
fn request_accessors() {
    let msg = request(Op::SetKey, b"foo".to_vec(), Some(payload(1, b"bar".to_vec())));
    assert_eq!(msg.key(), Some(&b"foo"[..]));
    assert_eq!(msg.op(), Op::SetKey);
    assert_eq!(msg.code(), Code::Req);
    assert_eq!(msg.type_id(), Some(1));
    assert_eq!(msg.payload(), Some(&payload(1, b"bar".to_vec())));
    assert_eq!(msg.payload().unwrap().data(), b"bar");
    assert_eq!(msg.payload().unwrap().type_id(), 1);
}

#[test]
fn response_accessors() {
    let msg = response(Op::Get, Code::Miss, None);
    assert_eq!(msg.key(), None);
    assert_eq!(msg.op(), Op::Get);
    assert_eq!(msg.code(), Code::Miss);
    assert_eq!(msg.type_id(), None);
    assert_eq!(msg.payload(), None);
}

#[test]
fn builders_make_the_variants() {
    assert_eq!(
        request(Op::Get, vec![1], None),
        Message::Request(Op::Get, vec![1], None)
    );
    assert_eq!(
        response(Op::Get, Code::Hit, Some(payload(3, vec![4]))),
        Message::Response(Op::Get, Code::Hit, Some(payload(3, vec![4])))
    );
}

#[test]
fn clone_is_equal() {
    let msg = request(Op::SetKey, b"k".to_vec(), Some(payload(7, vec![1, 2])));
    assert_eq!(msg.clone(), msg);
    let p = payload(7, vec![1, 2]);
    assert_eq!(p.clone(), p);
}

#[test]
fn consume_request_gives_key_and_payload() {
    let msg = request(Op::SetKey, b"k".to_vec(), Some(payload(7, vec![1, 2])));
    let (key, p) = msg.consume_request().unwrap();
    assert_eq!(key, b"k".to_vec());
    assert_eq!(p, Some(payload(7, vec![1, 2])));
}

#[test]
fn consume_request_refuses_a_response() {
    let e = response(Op::Get, Code::Miss, None).consume_request().unwrap_err();
    assert_eq!(e.kind(), ErrorKind::BadMessage);
    assert_eq!(e.description(), "expected a request, got a response");
}

#[test]
fn consume_response_gives_op_code_and_payload() {
    let msg = response(Op::Get, Code::Hit, Some(payload(7, vec![1, 2])));
    assert_eq!(
        msg.consume_response().unwrap(),
        (Op::Get, Code::Hit, Some(payload(7, vec![1, 2])))
    );
}

#[test]
fn consume_response_refuses_a_request() {
    let e = request(Op::Get, vec![], None).consume_response().unwrap_err();
    assert_eq!(e.kind(), ErrorKind::BadMessage);
}

#[test]
fn names_of_ops_and_codes() {
    assert_eq!(Op::SetKey.as_str(), "Set");
    assert_eq!(Op::Get.as_str(), "Get");
    assert_eq!(Op::Del.as_str(), "Del");
    assert_eq!(Op::Stats.as_str(), "Stats");
    assert_eq!(Code::Req.as_str(), "Req");
    assert_eq!(Code::Okay.as_str(), "Ok");
    assert_eq!(Code::Miss.as_str(), "Miss");
    assert_eq!(Code::Error.as_str(), "Error");
    assert_eq!(Code::Hit.as_str(), "Hit");
}

#[test]
fn payload_to_string() {
    assert_eq!(payload(1, b"bar".to_vec()).to_string(), "type_id: 1, data: [98, 97, 114]");
    assert_eq!(payload(4_294_967_295, vec![]).to_string(), "type_id: 4294967295, data: []");
    assert_eq!(payload(0, vec![0, 255, 10]).to_string(), "type_id: 0, data: [0, 255, 10]");
    assert_eq!(
        payload(1, b"bar".to_vec()).to_debug_string(),
        "Payload { type_id: 1, data: [98, 97, 114] }"
    );
}

#[test]
fn message_to_string() {
    assert_eq!(
        request(Op::SetKey, b"foo".to_vec(), Some(payload(1, b"bar".to_vec()))).to_string(),
        "Request[Op=Set, Key=[102, 111, 111]] type_id: 1, data: [98, 97, 114]"
    );
    assert_eq!(
        request(Op::Get, b"foo".to_vec(), None).to_string(),
        "Request[Op=Get, Key=[102, 111, 111]]"
    );
    assert_eq!(request(Op::Stats, vec![], None).to_string(), "Request[Op=Stats, Key=[]]");
    assert_eq!(
        response(Op::Get, Code::Hit, Some(payload(2, vec![7]))).to_string(),
        "Response[Op=Get, Code=Hit] Payload { type_id: 2, data: [7] }"
    );
    assert_eq!(response(Op::SetKey, Code::Okay, None).to_string(), "Request[Op=Set, Code=Ok]");
    assert_eq!(response(Op::Get, Code::Miss, None).to_string(), "Request[Op=Get, Code=Miss]");
}

#[test]
fn error_parts_and_text() {
    let e = Error::new(ErrorKind::InvalidData, "bad frame");
    assert_eq!(e.kind(), ErrorKind::InvalidData);
    assert_eq!(e.description(), "bad frame");
    assert_eq!(e.to_string(), "InvalidData: bad frame");
    assert_eq!(Error::new(ErrorKind::BadMessage, "x").to_string(), "BadMessage: x");
    assert_eq!(Error::new(ErrorKind::UnknownOp, "").to_string(), "UnknownOp: ");
    assert_eq!(Error::new(ErrorKind::Other, "queue").to_string(), "Other: queue");
}
