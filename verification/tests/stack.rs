use rcache::cache::Cache;
use rcache::cli::handle_response;
use rcache::message::{payload, request, response, Code, Message, Op};
use rcache::service::{dispatch, dispatch_all, CacheService, LogService, Service, StatService};
use rcache::stats::Stats;

fn stack(capacity: usize) -> StatService<CacheService> {
    StatService {
        inner: CacheService { cache: Cache::new(capacity) },
        stats: Stats::default(),
    }
}

fn set(key: &[u8], data: &[u8]) -> Message {
    request(Op::SetKey, key.to_vec(), Some(payload(1, data.to_vec())))
}

fn get(key: &[u8]) -> Message {
    request(Op::Get, key.to_vec(), None)
}

fn stats() -> Message {
    request(Op::Stats, vec![], None)
}

fn text_of(resp: &Message) -> String {
    String::from_utf8(resp.payload().unwrap().data().to_vec()).unwrap()
}

#[test]
fn fresh_report() {
    assert_eq!(
        Stats::new().get_stats(),
        "total_requests: 0, total_request_time: 0 \u{3bc}s, avg_request_time: 0 \u{3bc}s"
    );
    assert_eq!(Stats::default().get_stats(), Stats::new().get_stats());
}

#[test]
fn report_after_counting() {
    let mut s = Stats::new();
    for _ in 0..12 {
        s.incr_total_requests();
    }
    s.add_request_time(1000);
    s.add_request_time(30);
    assert_eq!(
        s.get_stats(),
        "total_requests: 12, total_request_time: 1030 \u{3bc}s, avg_request_time: 85 \u{3bc}s"
    );
}

#[test]
fn average_divides_by_one_without_requests() {
    let mut s = Stats::new();
    s.add_request_time(77);
    assert_eq!(
        s.get_stats(),
        "total_requests: 0, total_request_time: 77 \u{3bc}s, avg_request_time: 77 \u{3bc}s"
    );
}

#[test]
fn counters_wrap_at_the_end_of_64_bits() {
    let mut s = Stats::new();
    s.add_request_time(usize::MAX);
    assert_eq!(
        s.get_stats(),
        "total_requests: 0, total_request_time: 18446744073709551615 \u{3bc}s, avg_request_time: 18446744073709551615 \u{3bc}s"
    );
    s.add_request_time(2);
    assert_eq!(
        s.get_stats(),
        "total_requests: 0, total_request_time: 1 \u{3bc}s, avg_request_time: 1 \u{3bc}s"
    );
}

#[test]
fn scenario_stats_before_and_after_one_set() {
    let mut service = stack(10);
    let before = service.call(stats());
    assert_eq!(before.op(), Op::Stats);
    assert_eq!(before.code(), Code::Okay);
    assert_eq!(before.type_id(), Some(1));
    assert!(text_of(&before).contains("total_requests: 0"));

    assert_eq!(service.call(set(b"foo", b"bar")), response(Op::SetKey, Code::Okay, None));

    let after = service.call(stats());
    assert!(text_of(&after).contains("total_requests: 1"));
    assert_eq!(
        after,
        response(
            Op::Stats,
            Code::Okay,
            Some(payload(
                1,
                "total_requests: 1, total_request_time: 0 \u{3bc}s, avg_request_time: 0 \u{3bc}s"
                    .as_bytes()
                    .to_vec()
            ))
        )
    );
}

#[test]
fn stats_requests_are_not_counted() {
    let mut service = stack(10);
    for _ in 0..5 {
        service.call(stats());
    }
    assert!(text_of(&service.call(stats())).starts_with("total_requests: 0,"));
}

#[test]
fn every_other_request_counts_once() {
    let mut service = stack(2);
    let mut sent = 0u64;
    for i in 0..40u8 {
        let req = match i % 4 {
            0 => set(&[i], &[i]),
            1 => get(&[i - 1]),
            2 => request(Op::Del, vec![i], None),
            _ => request(Op::SetKey, vec![i], None),
        };
        service.call(req);
        sent += 1;
        let report = text_of(&service.call(stats()));
        assert!(report.starts_with(&format!("total_requests: {},", sent)));
    }
}

#[test]
fn the_middleware_answers_stats_itself() {
    let mut service = stack(10);
    service.call(set(b"a", b"A"));
    service.call(set(b"b", b"B"));
    let resp = service.call(stats());
    // The cache would have answered with its number of entries and no bytes.
    assert_eq!(resp.type_id(), Some(1));
    assert!(!resp.payload().unwrap().data().is_empty());
    assert_eq!(
        service.inner.call(stats()),
        response(Op::Stats, Code::Okay, Some(payload(2, vec![])))
    );
}

#[test]
fn cache_service_is_the_cache() {
    let mut service = CacheService { cache: Cache::new(2) };
    assert_eq!(service.call(get(b"k")), response(Op::Get, Code::Miss, None));
    assert_eq!(service.call(set(b"k", b"v")), response(Op::SetKey, Code::Okay, None));
    assert_eq!(
        service.call(get(b"k")),
        response(Op::Get, Code::Hit, Some(payload(1, b"v".to_vec())))
    );
}

#[test]
fn log_service_hands_through() {
    let mut service = LogService { inner: stack(2) };
    assert_eq!(service.call(set(b"k", b"v")), response(Op::SetKey, Code::Okay, None));
    assert_eq!(
        service.call(get(b"k")),
        response(Op::Get, Code::Hit, Some(payload(1, b"v".to_vec())))
    );
    assert!(text_of(&service.call(stats())).contains("total_requests: 2"));
}

#[test]
fn dispatch_pairs_the_response_with_the_request_id() {
    let mut service = stack(2);
    assert_eq!(
        dispatch(&mut service, (u64::MAX, set(b"k", b"v"))),
        (u64::MAX, response(Op::SetKey, Code::Okay, None))
    );
    assert_eq!(
        dispatch(&mut service, (0, get(b"k"))),
        (0, response(Op::Get, Code::Hit, Some(payload(1, b"v".to_vec()))))
    );
}

#[test]
fn scenario_pipeline_of_five_gets() {
    let mut service = stack(10);
    let ids = [10u64, 20, 30, 40, 50];
    let requests: Vec<(u64, Message)> = ids.iter().map(|id| (*id, get(b"k"))).collect();
    let responses = dispatch_all(&mut service, requests);
    assert_eq!(responses.len(), 5);
    let mut got: Vec<u64> = responses.iter().map(|(id, _)| *id).collect();
    got.sort();
    assert_eq!(got, ids.to_vec());
    for (_, resp) in &responses {
        assert_eq!(resp, &response(Op::Get, Code::Miss, None));
    }
}

#[test]
fn a_hundred_requests_on_one_connection() {
    let mut service = stack(1000);
    let mut requests = Vec::new();
    for i in 0..100u64 {
        let id = i.wrapping_mul(0x9e37_79b9_7f4a_7c15);
        let req = if i % 2 == 0 { set(&[i as u8], &[i as u8, 1]) } else { get(&[i as u8 - 1]) };
        requests.push((id, req));
    }
    let sent: Vec<u64> = requests.iter().map(|(id, _)| *id).collect();
    let responses = dispatch_all(&mut service, requests);
    let got: Vec<u64> = responses.iter().map(|(id, _)| *id).collect();
    assert_eq!(got, sent);
    for (i, (_, resp)) in responses.iter().enumerate() {
        if i % 2 == 0 {
            assert_eq!(resp, &response(Op::SetKey, Code::Okay, None));
        } else {
            assert_eq!(
                resp,
                &response(Op::Get, Code::Hit, Some(payload(1, vec![i as u8 - 1, 1])))
            );
        }
    }
    assert!(text_of(&service.call(stats())).contains("total_requests: 100,"));
}

#[test]
fn dispatch_all_of_nothing() {
    let mut service = stack(1);
    assert!(dispatch_all(&mut service, Vec::new()).is_empty());
}

#[test]
fn a_hit_tagged_as_text_is_shown_as_text() {
    let resp = response(Op::Get, Code::Hit, Some(payload(1, "h\u{e9}llo".as_bytes().to_vec())));
    assert_eq!(handle_response(&resp), Ok("h\u{e9}llo".to_string()));
}

#[test]
fn a_hit_that_is_not_text_is_an_error() {
    let resp = response(Op::Get, Code::Hit, Some(payload(1, vec![0xff, 0xfe])));
    assert_eq!(
        handle_response(&resp),
        Err("expected a utf8-encoded string".to_string())
    );
}

#[test]
fn a_hit_with_another_tag_is_shown_whole() {
    let resp = response(Op::Get, Code::Hit, Some(payload(2, b"bar".to_vec())));
    assert_eq!(
        handle_response(&resp),
        Ok("Response[Op=Get, Code=Hit] Payload { type_id: 2, data: [98, 97, 114] }".to_string())
    );
}

#[test]
fn a_stats_response_is_shown_as_text() {
    let mut service = stack(1);
    let resp = service.call(stats());
    assert_eq!(
        handle_response(&resp),
        Ok("total_requests: 0, total_request_time: 0 \u{3bc}s, avg_request_time: 0 \u{3bc}s"
            .to_string())
    );
    let odd = response(Op::Stats, Code::Error, Some(payload(7, vec![0xc0])));
    assert_eq!(
        handle_response(&odd),
        Err("expected a utf8-encoded string".to_string())
    );
}

#[test]
fn other_responses_are_shown_whole() {
    assert_eq!(
        handle_response(&response(Op::SetKey, Code::Okay, None)),
        Ok("Request[Op=Set, Code=Ok]".to_string())
    );
    assert_eq!(
        handle_response(&response(Op::Get, Code::Miss, None)),
        Ok("Request[Op=Get, Code=Miss]".to_string())
    );
    assert_eq!(
        handle_response(&response(
            Op::Get,
            Code::Error,
            Some(payload(0, b"no".to_vec()))
        )),
        Ok("Response[Op=Get, Code=Error] Payload { type_id: 0, data: [110, 111] }".to_string())
    );
}
