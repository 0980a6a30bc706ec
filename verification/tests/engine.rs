use lru_cache::LruCache;
use rcache::cache::{handle, handle_error, Cache};
use rcache::error::{Error, ErrorKind};
use rcache::message::{payload, request, response, Code, Message, Op};

fn set(key: &[u8], data: &[u8]) -> Message {
    request(Op::SetKey, key.to_vec(), Some(payload(1, data.to_vec())))
}

fn get(key: &[u8]) -> Message {
    request(Op::Get, key.to_vec(), None)
}

fn hit(data: &[u8]) -> Message {
    response(Op::Get, Code::Hit, Some(payload(1, data.to_vec())))
}

fn miss() -> Message {
    response(Op::Get, Code::Miss, None)
}

fn stored() -> Message {
    response(Op::SetKey, Code::Okay, None)
}

#[test]
fn scenario_set_then_get() {
    let mut cache = Cache::new(10);
    assert_eq!(cache.process(set(b"foo", b"bar")), stored());
    assert_eq!(cache.process(get(b"foo")), hit(b"bar"));
}

#[test]
fn scenario_get_missing_on_empty_cache() {
    let mut cache = Cache::new(10);
    assert_eq!(cache.process(get(b"missing")), miss());
}

#[test]
fn scenario_capacity_two_eviction() {
    let mut cache = Cache::new(2);
    assert_eq!(cache.process(set(b"a", b"A")), stored());
    assert_eq!(cache.process(set(b"b", b"B")), stored());
    assert_eq!(cache.process(get(b"a")), hit(b"A"));
    assert_eq!(cache.process(set(b"c", b"C")), stored());
    assert_eq!(cache.process(get(b"b")), miss());
    assert_eq!(cache.process(get(b"a")), hit(b"A"));
    assert_eq!(cache.process(get(b"c")), hit(b"C"));
}

#[test]
fn scenario_set_without_payload_is_an_error_response() {
    let mut cache = Cache::new(10);
    let resp = cache.process(request(Op::SetKey, b"foo".to_vec(), None));
    assert_eq!(
        resp,
        response(
            Op::Get,
            Code::Error,
            Some(payload(0, b"no payload given to set op".to_vec()))
        )
    );
    assert!(std::str::from_utf8(resp.payload().unwrap().data()).is_ok());
    assert_eq!(cache.process(get(b"foo")), miss());
}

#[test]
fn set_with_empty_payload_is_refused() {
    let mut cache = Cache::new(10);
    let resp = cache.process(request(Op::SetKey, b"foo".to_vec(), Some(payload(1, vec![]))));
    assert_eq!(resp.code(), Code::Error);
    assert_eq!(resp.op(), Op::Get);
    assert_eq!(resp.type_id(), Some(0));
    assert_eq!(cache.process(get(b"foo")), miss());
}

#[test]
fn a_response_is_not_a_request() {
    let mut cache = Cache::new(10);
    let resp = cache.process(response(Op::Get, Code::Hit, None));
    assert_eq!(
        resp,
        response(
            Op::Get,
            Code::Error,
            Some(payload(0, b"expected a request, got a response".to_vec()))
        )
    );
}

#[test]
fn eviction_after_one_put_more_than_the_limit() {
    for limit in 0usize..6 {
        let mut cache = Cache::new(limit);
        for i in 0..=limit {
            assert_eq!(cache.process(set(&[i as u8], &[100 + i as u8])), stored());
        }
        let mut store: LruCache<Vec<u8>, rcache::message::Payload> = LruCache::new(limit);
        for i in 0..=limit {
            handle(&mut store, set(&[i as u8], &[100 + i as u8])).unwrap();
        }
        assert_eq!(store.len(), limit);
        let keys: Vec<Vec<u8>> = store.iter().map(|(k, _)| k.clone()).collect();
        let expected: Vec<Vec<u8>> = (1..=limit).map(|i| vec![i as u8]).collect();
        assert_eq!(keys, expected);
        // Reading in order of age keeps the order, so each get is independent.
        for i in 1..=limit {
            assert_eq!(cache.process(get(&[i as u8])), hit(&[100 + i as u8]));
        }
        assert_eq!(cache.process(get(&[0])), miss());
    }
}

#[test]
fn a_get_protects_its_key_from_eviction() {
    for limit in 2usize..6 {
        for used in 0..limit {
            let mut cache = Cache::new(limit);
            for i in 0..limit {
                cache.process(set(&[i as u8], &[100 + i as u8]));
            }
            assert_eq!(cache.process(get(&[used as u8])), hit(&[100 + used as u8]));
            cache.process(set(&[200], &[201]));
            assert_eq!(cache.process(get(&[used as u8])), hit(&[100 + used as u8]));
            assert_eq!(cache.process(get(&[200])), hit(&[201]));
            let evicted = if used == 0 { 1 } else { 0 };
            assert_eq!(cache.process(get(&[evicted as u8])), miss());
        }
    }
}

#[test]
fn with_limit_one_a_get_cannot_protect() {
    let mut cache = Cache::new(1);
    cache.process(set(b"a", b"A"));
    assert_eq!(cache.process(get(b"a")), hit(b"A"));
    cache.process(set(b"b", b"B"));
    assert_eq!(cache.process(get(b"a")), miss());
    assert_eq!(cache.process(get(b"b")), hit(b"B"));
}

#[test]
fn the_later_of_two_puts_stays() {
    let mut cache = Cache::new(3);
    cache.process(set(b"k", b"first"));
    cache.process(set(b"k", b"second"));
    assert_eq!(cache.process(get(b"k")), hit(b"second"));
    assert_eq!(cache.process(get(b"k")), hit(b"second"));

    let mut other = Cache::new(3);
    other.process(set(b"k", b"second"));
    other.process(set(b"k", b"first"));
    assert_eq!(other.process(get(b"k")), hit(b"first"));
}

#[test]
fn a_put_again_counts_as_a_use() {
    let mut cache = Cache::new(2);
    cache.process(set(b"a", b"A"));
    cache.process(set(b"b", b"B"));
    cache.process(set(b"a", b"A2"));
    cache.process(set(b"c", b"C"));
    assert_eq!(cache.process(get(b"b")), miss());
    assert_eq!(cache.process(get(b"a")), hit(b"A2"));
    assert_eq!(cache.process(get(b"c")), hit(b"C"));
}

#[test]
fn a_cache_of_limit_zero_keeps_nothing() {
    let mut cache = Cache::new(0);
    assert_eq!(cache.process(set(b"a", b"A")), stored());
    assert_eq!(cache.process(get(b"a")), miss());
    assert_eq!(
        cache.process(request(Op::Stats, vec![], None)),
        response(Op::Stats, Code::Okay, Some(payload(0, vec![])))
    );
}

#[test]
fn del_is_answered_and_removes_nothing() {
    let mut cache = Cache::new(4);
    cache.process(set(b"a", b"A"));
    assert_eq!(
        cache.process(request(Op::Del, b"a".to_vec(), None)),
        response(Op::Del, Code::Okay, None)
    );
    assert_eq!(cache.process(get(b"a")), hit(b"A"));
    assert_eq!(
        cache.process(request(Op::Del, b"never there".to_vec(), None)),
        response(Op::Del, Code::Okay, None)
    );
}

#[test]
fn stats_at_the_cache_counts_entries() {
    let mut cache = Cache::new(4);
    let stats = request(Op::Stats, vec![], None);
    assert_eq!(
        cache.process(stats.clone()),
        response(Op::Stats, Code::Okay, Some(payload(0, vec![])))
    );
    cache.process(set(b"a", b"A"));
    cache.process(set(b"b", b"B"));
    cache.process(set(b"a", b"A2"));
    assert_eq!(
        cache.process(stats.clone()),
        response(Op::Stats, Code::Okay, Some(payload(2, vec![])))
    );
    for i in 0..10u8 {
        cache.process(set(&[i], &[i]));
    }
    assert_eq!(
        cache.process(stats),
        response(Op::Stats, Code::Okay, Some(payload(4, vec![])))
    );
}

#[test]
fn the_tag_is_stored_and_returned_untouched() {
    let mut cache = Cache::new(4);
    cache.process(request(
        Op::SetKey,
        b"k".to_vec(),
        Some(payload(0xdead_beef, vec![0, 159, 146, 150])),
    ));
    assert_eq!(
        cache.process(get(b"k")),
        response(
            Op::Get,
            Code::Hit,
            Some(payload(0xdead_beef, vec![0, 159, 146, 150]))
        )
    );
}

#[test]
fn a_get_ignores_a_payload_it_carries() {
    let mut cache = Cache::new(4);
    cache.process(set(b"k", b"v"));
    assert_eq!(
        cache.process(request(Op::Get, b"k".to_vec(), Some(payload(9, vec![9])))),
        hit(b"v")
    );
}

#[test]
fn handle_gives_errors_as_errors() {
    let mut store = LruCache::new(2);
    let e = handle(&mut store, request(Op::SetKey, b"k".to_vec(), None)).unwrap_err();
    assert_eq!(e.kind(), ErrorKind::Other);
    assert_eq!(e.description(), "no payload given to set op");
    let e = handle(&mut store, response(Op::SetKey, Code::Okay, None)).unwrap_err();
    assert_eq!(e.kind(), ErrorKind::BadMessage);
    assert_eq!(e.description(), "expected a request, got a response");
    assert_eq!(store.len(), 0);
    assert_eq!(handle(&mut store, set(b"k", b"v")).unwrap(), stored());
    assert_eq!(store.len(), 1);
    assert_eq!(handle(&mut store, get(b"k")).unwrap(), hit(b"v"));
    assert_eq!(handle(&mut store, get(b"j")).unwrap(), miss());
}

#[test]
fn handle_error_makes_the_error_response() {
    let resp = handle_error(&Error::new(ErrorKind::Other, "queue is gone: \u{3bc}"));
    assert_eq!(
        resp,
        response(
            Op::Get,
            Code::Error,
            Some(payload(0, "queue is gone: \u{3bc}".as_bytes().to_vec()))
        )
    );
}
