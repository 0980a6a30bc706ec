//! The service stack: handlers that take a request and give a response, and
//! that wrap one another.
//!
//! [`CacheService`] ends the stack at the cache. [`StatService`] stands in
//! front of another service: it answers `Stats` itself and counts every
//! other request that its inner service has answered. [`dispatch`] pairs
//! each response with the request id that its request came under.
use vstd::prelude::*;
use vstd::string::StrSliceExecFns;
use vstd::utf8::encode_utf8;
use crate::cache::{in_policy, lemma_response_in_policy, Cache};
use crate::message::{payload, response, Code, Message, MessageView, Op, PayloadView};
use crate::stats::{report, wrapped_sum, Stats};

verus! {

/// A handler of requests.
pub trait Service: Sized {
    /// The service, asked `req`, may answer `resp` and be left as `after`.
    spec fn handles(&self, req: MessageView, resp: MessageView, after: Self) -> bool;

    /// Answers one request.
    fn call(&mut self, req: Message) -> (resp: Message)
        ensures
            old(self).handles(req@, resp@, *final(self)),
    ;
}

/// The service at the end of the stack: the cache itself.
pub struct CacheService {
    pub cache: Cache,
}

impl Service for CacheService {
    /// The response is the cache's, and the cache moves on by the request.
    open spec fn handles(&self, req: MessageView, resp: MessageView, after: Self) -> bool {
        &&& resp == self.cache@.respond(req)
        &&& after.cache@ == self.cache@.next(req)
        &&& self.cache@.wf() ==> after.cache@.wf()
    }

    fn call(&mut self, req: Message) -> (resp: Message) {
        self.cache.process(req)
    }
}

/// The response to `Stats`: status `Okay`, and the report as UTF-8 text
/// under the tag 1.
pub open spec fn stats_response(total_requests: u64, total_request_time: u64) -> MessageView {
    MessageView::Response(
        Op::Stats,
        Code::Okay,
        Some(
            PayloadView {
                type_id: 1,
                data: encode_utf8(report(total_requests, total_request_time)),
            },
        ),
    )
}

/// The service that keeps the counters. It answers `Stats` from them
/// without asking its inner service, and counts each other request once its
/// inner service has answered.
pub struct StatService<T> {
    pub inner: T,
    pub stats: Stats,
}

impl<T: Service> Service for StatService<T> {
    open spec fn handles(&self, req: MessageView, resp: MessageView, after: Self) -> bool {
        if req.op() == Op::Stats {
            &&& resp == stats_response(
                self.stats.total_requests(),
                self.stats.total_request_time(),
            )
            &&& after == *self
        } else {
            &&& self.inner.handles(req, resp, after.inner)
            &&& after.stats.total_requests() == wrapped_sum(self.stats.total_requests(), 1)
            &&& after.stats.total_request_time() == self.stats.total_request_time()
        }
    }

    fn call(&mut self, req: Message) -> (resp: Message) {
        match req.op() {
            Op::Stats => {
                let report = self.stats.get_stats();
                response(Op::Stats, Code::Okay, Some(payload(1, report.as_str().as_bytes_vec())))
            },
            _ => {
                let resp = self.inner.call(req);
                self.stats.incr_total_requests();
                resp
            },
        }
    }
}

/// A service that hands every request on and every response back.
pub struct LogService<T> {
    pub inner: T,
}

impl<T: Service> Service for LogService<T> {
    open spec fn handles(&self, req: MessageView, resp: MessageView, after: Self) -> bool {
        self.inner.handles(req, resp, after.inner)
    }

    fn call(&mut self, req: Message) -> (resp: Message) {
        self.inner.call(req)
    }
}

/// Answers the request that came under a request id, and pairs the response
/// with that id.
pub fn dispatch<S: Service>(service: &mut S, request: (u64, Message)) -> (out: (u64, Message))
    ensures
        out.0 == request.0,
        old(service).handles(request.1@, out.1@, *final(service)),
{
    let (request_id, req) = request;
    let resp = service.call(req);
    (request_id, resp)
}

/// The messages of a sequence of pairs of request id and message.
pub open spec fn messages(pairs: Seq<(u64, Message)>) -> Seq<MessageView> {
    Seq::new(pairs.len(), |i: int| pairs[i].1@)
}

/// The request ids of a sequence of pairs of request id and message.
pub open spec fn request_ids(pairs: Seq<(u64, Message)>) -> Seq<u64> {
    Seq::new(pairs.len(), |i: int| pairs[i].0)
}

/// The service, asked `reqs` one after the other, may answer `resps` and be
/// left as `after`.
pub open spec fn handles_all<S: Service>(
    service: S,
    reqs: Seq<MessageView>,
    resps: Seq<MessageView>,
    after: S,
) -> bool
    decreases reqs.len(),
{
    if reqs.len() == 0 {
        resps.len() == 0 && after == service
    } else {
        &&& resps.len() == reqs.len()
        &&& exists|mid: S|
            handles_all(service, reqs.drop_last(), resps.drop_last(), mid)
                && #[trigger] mid.handles(reqs.last(), resps.last(), after)
    }
}

/// Answers the requests of one connection in the order they came in. Each
/// response stands where its request stood and carries the request id that
/// the request came under, so the ids that go out are the ids that came in.
pub fn dispatch_all<S: Service>(service: &mut S, requests: Vec<(u64, Message)>) -> (out: Vec<
    (u64, Message),
>)
    ensures
        request_ids(out@) == request_ids(requests@),
        handles_all(*old(service), messages(requests@), messages(out@), *final(service)),
{
    let mut out: Vec<(u64, Message)> = Vec::new();
    let ghost reqs = requests@;
    for request in it: requests
        invariant
            it.seq() == reqs,
            out@.len() == it.index(),
            request_ids(out@) == request_ids(reqs.take(it.index() as int)),
            handles_all(
                *old(service),
                messages(reqs.take(it.index() as int)),
                messages(out@),
                *service,
            ),
    {
        let ghost before = *service;
        let ghost done = out@;
        let ghost i = it.index() as int;
        let answered = dispatch(service, request);
        out.push(answered);
        proof {
            assert(request == reqs[i]);
            assert(messages(reqs.take(i + 1)).last() == request.1@);
            assert(messages(out@).last() == answered.1@);
            assert(reqs.take(i + 1).drop_last() =~= reqs.take(i));
            assert(messages(reqs.take(i + 1)).drop_last() =~= messages(reqs.take(i)));
            assert(messages(out@).drop_last() =~= messages(done));
            assert(handles_all(
                *old(service),
                messages(reqs.take(i + 1)).drop_last(),
                messages(out@).drop_last(),
                before,
            ));
            assert forall|j: int| 0 <= j <= i implies request_ids(out@)[j] == request_ids(
                reqs.take(i + 1),
            )[j] by {
                if j < i {
                    assert(request_ids(done)[j] == request_ids(reqs.take(i))[j]);
                }
            }
            assert(request_ids(out@) =~= request_ids(reqs.take(i + 1)));
        }
    }
    proof {
        assert(reqs.take(reqs.len() as int) =~= reqs);
    }
    out
}

/// Every response of the stats service in front of the cache is one that
/// the response policy allows.
pub proof fn lemma_stack_in_policy(
    service: StatService<CacheService>,
    req: MessageView,
    resp: MessageView,
    after: StatService<CacheService>,
)
    requires
        service.handles(req, resp, after),
    ensures
        in_policy(resp),
{
    lemma_response_in_policy(service.inner.cache@, req);
}

/// The number of requests in the sequence that ask for something else than
/// `Stats`.
pub open spec fn counted(reqs: Seq<MessageView>) -> nat
    decreases reqs.len(),
{
    if reqs.len() == 0 {
        0
    } else {
        counted(reqs.drop_last()) + if reqs.last().op() != Op::Stats {
            1nat
        } else {
            0nat
        }
    }
}

/// One request never lowers the count of requests, short of 2^64 of them:
/// `Stats` leaves it, and any other request raises it by one.
pub proof fn lemma_count_step<T: Service>(
    service: StatService<T>,
    req: MessageView,
    resp: MessageView,
    after: StatService<T>,
)
    requires
        service.handles(req, resp, after),
        service.stats.total_requests() < u64::MAX,
    ensures
        after.stats.total_requests() >= service.stats.total_requests(),
        after.stats.total_requests() == service.stats.total_requests() + counted(seq![req]),
{
    assert(seq![req].drop_last() =~= Seq::<MessageView>::empty());
    assert(counted(seq![req].drop_last()) == 0);
}

/// The counter counts: after any sequence of requests the count of requests
/// has grown by the number of them that asked for something else than
/// `Stats`, short of 2^64 requests. A service that starts at zero has then
/// counted exactly that many.
pub proof fn lemma_requests_counted<T: Service>(
    service: StatService<T>,
    reqs: Seq<MessageView>,
    resps: Seq<MessageView>,
    after: StatService<T>,
)
    requires
        handles_all(service, reqs, resps, after),
        service.stats.total_requests() + counted(reqs) <= u64::MAX,
    ensures
        after.stats.total_requests() == service.stats.total_requests() + counted(reqs),
        after.stats.total_request_time() == service.stats.total_request_time(),
    decreases reqs.len(),
{
    if reqs.len() > 0 {
        let mid = choose|mid: StatService<T>|
            handles_all(service, reqs.drop_last(), resps.drop_last(), mid)
                && #[trigger] mid.handles(reqs.last(), resps.last(), after);
        lemma_requests_counted(service, reqs.drop_last(), resps.drop_last(), mid);
    }
}

} // verus!
