//! The cache engine: a store with a limit, and the answer to each request.
//!
//! [`CacheView`] is the engine as a mathematical value; its functions
//! `next` and `respond` say what every request does to the store and what
//! comes back. [`handle`] and [`Cache::process`] are held to them, and the
//! laws at the end are proved of them.
use vstd::prelude::*;
use vstd::string::StrSliceExecFns;
use vstd::utf8::encode_utf8;
use crate::error::{Error, ErrorKind};
use crate::message::{payload, response, Code, Message, MessageView, Op, PayloadView};
use crate::store::{
    entries, get, holds, index_of, insert, inserted, len, limit, lookup, new_store, refreshed,
    without, Entry, Store,
};

verus! {

/// No two entries have the same key.
pub open spec fn distinct_keys(entries: Seq<Entry>) -> bool {
    forall|i: int, j: int|
        0 <= i < j < entries.len() ==> (#[trigger] entries[i]).0 != (#[trigger] entries[j]).0
}

/// Every entry has a payload of at least one byte.
pub open spec fn with_bytes(entries: Seq<Entry>) -> bool {
    forall|i: int| 0 <= i < entries.len() ==> (#[trigger] entries[i]).1.data.len() > 0
}

/// The cache as a mathematical value: its limit, and its entries from the
/// one used longest ago to the one used last.
pub struct CacheView {
    pub limit: nat,
    pub entries: Seq<Entry>,
}

/// Why a message is refused: the kind of the error and its description.
pub open spec fn refused(m: MessageView) -> Option<(ErrorKind, Seq<char>)> {
    match m {
        MessageView::Response(_, _, _) => Some(
            (ErrorKind::BadMessage, "expected a request, got a response"@),
        ),
        MessageView::Request(Op::SetKey, _, None) => Some(
            (ErrorKind::Other, "no payload given to set op"@),
        ),
        MessageView::Request(Op::SetKey, _, Some(p)) => if p.data.len() == 0 {
            Some((ErrorKind::Other, "no payload given to set op"@))
        } else {
            None
        },
        _ => None,
    }
}

/// The response that tells of an error: the operation is `Get` whatever was
/// asked, the status is `Error`, and the payload is the description as
/// UTF-8 text under the tag 0.
pub open spec fn error_response(description: Seq<char>) -> MessageView {
    MessageView::Response(
        Op::Get,
        Code::Error,
        Some(PayloadView { type_id: 0, data: encode_utf8(description) }),
    )
}

impl CacheView {
    /// A cache without entries.
    pub open spec fn empty(limit: nat) -> CacheView {
        CacheView { limit, entries: Seq::empty() }
    }

    /// A cache is consistent when it holds no more entries than its limit
    /// and no key twice.
    pub open spec fn consistent(self) -> bool {
        &&& self.entries.len() <= self.limit
        &&& distinct_keys(self.entries)
    }

    /// A cache is well formed when it is consistent and holds no payload
    /// without bytes. A cache that starts empty and moves on by
    /// [`Self::next`] is always well formed.
    pub open spec fn wf(self) -> bool {
        &&& self.consistent()
        &&& with_bytes(self.entries)
    }

    /// The payload under the key, if there is one.
    pub open spec fn lookup(self, key: Seq<u8>) -> Option<PayloadView> {
        lookup(self.entries, key)
    }

    /// The cache after the payload is put under the key.
    pub open spec fn set(self, key: Seq<u8>, value: PayloadView) -> CacheView {
        CacheView { limit: self.limit, entries: inserted(self.entries, self.limit, key, value) }
    }

    /// The cache after a use of the key.
    pub open spec fn touch(self, key: Seq<u8>) -> CacheView {
        CacheView { limit: self.limit, entries: refreshed(self.entries, key) }
    }

    /// The cache after a sequence of puts, first to last.
    pub open spec fn set_all(self, puts: Seq<Entry>) -> CacheView
        decreases puts.len(),
    {
        if puts.len() == 0 {
            self
        } else {
            self.set_all(puts.drop_last()).set(puts.last().0, puts.last().1)
        }
    }

    /// The cache after the message: a put stores, a hit counts as a use,
    /// and nothing else changes anything. In particular `Del` removes
    /// nothing.
    pub open spec fn next(self, m: MessageView) -> CacheView {
        if refused(m) is Some {
            self
        } else {
            match m {
                MessageView::Request(Op::SetKey, key, Some(p)) => self.set(key, p),
                MessageView::Request(Op::Get, key, _) => self.touch(key),
                _ => self,
            }
        }
    }

    /// The response to a request that is not refused.
    pub open spec fn answer(self, m: MessageView) -> MessageView {
        match m {
            MessageView::Request(Op::Get, key, _) => match self.lookup(key) {
                Some(p) => MessageView::Response(Op::Get, Code::Hit, Some(p)),
                None => MessageView::Response(Op::Get, Code::Miss, None),
            },
            MessageView::Request(Op::Stats, _, _) => MessageView::Response(
                Op::Stats,
                Code::Okay,
                Some(
                    PayloadView {
                        type_id: (self.entries.len() % 0x1_0000_0000) as u32,
                        data: Seq::empty(),
                    },
                ),
            ),
            _ => MessageView::Response(m.op(), Code::Okay, None),
        }
    }

    /// The response to any message: that of [`Self::answer`], or the error
    /// response where the message is refused.
    pub open spec fn respond(self, m: MessageView) -> MessageView {
        match refused(m) {
            Some((_, description)) => error_response(description),
            None => self.answer(m),
        }
    }
}

/// Which responses there are: for each pair of operation and status that a
/// response can have, whether it carries a payload. Any other pair is no
/// response of the server.
pub open spec fn response_policy(op: Op, code: Code) -> Option<bool> {
    match (op, code) {
        (Op::SetKey, Code::Okay) => Some(false),
        (Op::Get, Code::Hit) => Some(true),
        (Op::Get, Code::Miss) => Some(false),
        (Op::Get, Code::Error) => Some(true),
        (Op::Del, Code::Okay) => Some(false),
        (Op::Stats, Code::Okay) => Some(true),
        _ => None,
    }
}

/// The message is a response that [`response_policy`] allows.
pub open spec fn in_policy(resp: MessageView) -> bool {
    match resp {
        MessageView::Response(op, code, p) => response_policy(op, code) == Some(p is Some),
        MessageView::Request(_, _, _) => false,
    }
}

/// The store as a mathematical value.
pub open spec fn store_view(store: Store) -> CacheView {
    CacheView { limit: limit(store), entries: entries(store) }
}

/// Answers one request against the store.
///
/// A put stores its payload and is answered with `Okay`; it needs a payload
/// with at least one byte. A get is answered with `Hit` and the payload, and
/// counts as a use of the entry, or with `Miss`. `Del` is answered with
/// `Okay` and removes nothing. `Stats` is answered with the number of
/// entries in place of the tag, and no bytes. A message that is refused
/// leaves the store as it was.
pub fn handle(store: &mut Store, message: Message) -> (r: Result<Message, Error>)
    ensures
        store_view(*final(store)) == store_view(*old(store)).next(message@),
        match refused(message@) {
            Some((kind, description)) => {
                &&& r matches Err(e)
                &&& e.spec_kind() == kind
                &&& e.spec_description() == description
            },
            None => {
                &&& r matches Ok(m)
                &&& m@ == store_view(*old(store)).answer(message@)
            },
        },
{
    let op = message.op();
    let (key, value) = match message.consume_request() {
        Ok(parts) => parts,
        Err(e) => {
            return Err(e);
        },
    };
    match op {
        Op::SetKey => {
            let value = match value {
                Some(p) => p,
                None => {
                    return Err(Error::new(ErrorKind::Other, "no payload given to set op"));
                },
            };
            if value.data().len() == 0 {
                return Err(Error::new(ErrorKind::Other, "no payload given to set op"));
            }
            insert(store, key, value);
            Ok(response(Op::SetKey, Code::Okay, None))
        },
        Op::Get => {
            match get(store, key.as_slice()) {
                Some(found) => Ok(response(Op::Get, Code::Hit, Some(found))),
                None => Ok(response(Op::Get, Code::Miss, None)),
            }
        },
        Op::Del => Ok(response(Op::Del, Code::Okay, None)),
        Op::Stats => {
            let count = (len(store) as u64 % 0x1_0000_0000) as u32;
            Ok(response(Op::Stats, Code::Okay, Some(payload(count, Vec::new()))))
        },
    }
}

/// Makes the response that tells of an error. Its payload is the
/// description as UTF-8 text, so that a client can show it.
pub fn handle_error(err: &Error) -> (m: Message)
    ensures
        m@ == error_response(err.spec_description()),
{
    response(Op::Get, Code::Error, Some(payload(0, err.description().as_bytes_vec())))
}

/// The cache engine. It owns its store; every request goes through
/// [`Cache::process`], one at a time. A cache is made well formed and stays
/// so.
pub struct Cache {
    store: Store,
}

impl View for Cache {
    type V = CacheView;

    closed spec fn view(&self) -> CacheView {
        store_view(self.store)
    }
}

impl Cache {
    /// Makes an empty cache that holds at most `capacity` entries.
    pub fn new(capacity: usize) -> (cache: Cache)
        ensures
            cache@ == CacheView::empty(capacity as nat),
            cache@.wf(),
    {
        Cache { store: new_store(capacity) }
    }

    /// Answers one message. What [`handle`] refuses is answered with the
    /// error response, so every message gets a response.
    pub fn process(&mut self, message: Message) -> (resp: Message)
        ensures
            resp@ == old(self)@.respond(message@),
            final(self)@ == old(self)@.next(message@),
            old(self)@.wf() ==> final(self)@.wf(),
    {
        proof {
            if self@.wf() {
                lemma_next_wf(self@, message@);
            }
        }
        match handle(&mut self.store, message) {
            Ok(resp) => resp,
            Err(e) => handle_error(&e),
        }
    }
}

/// Where the keys are distinct, the entry at a place is the one that its key
/// is found at.
pub proof fn lemma_index_of(entries: Seq<Entry>, key: Seq<u8>, i: int)
    requires
        distinct_keys(entries),
        0 <= i < entries.len(),
        entries[i].0 == key,
    ensures
        holds(entries, key),
        index_of(entries, key) == i,
        lookup(entries, key) == Some(entries[i].1),
{
    let j = index_of(entries, key);
    assert(0 <= j < entries.len() && entries[j].0 == key);
}

/// Taking a key out leaves distinct keys distinct, and the key is gone.
pub proof fn lemma_without(entries: Seq<Entry>, key: Seq<u8>)
    requires
        distinct_keys(entries),
    ensures
        distinct_keys(without(entries, key)),
        !holds(without(entries, key), key),
        without(entries, key).len() == if holds(entries, key) {
            entries.len() - 1
        } else {
            entries.len() as int
        },
{
    let rest = without(entries, key);
    if holds(entries, key) {
        let at = index_of(entries, key);
        assert forall|i: int| 0 <= i < rest.len() implies (#[trigger] rest[i]).0 != key by {
            if i < at {
                assert(rest[i] == entries[i]);
            } else {
                assert(rest[i] == entries[i + 1]);
            }
        }
        assert forall|i: int, j: int| 0 <= i < j < rest.len() implies (#[trigger] rest[i]).0 != (
        #[trigger] rest[j]).0 by {
            let a = if i < at {
                i
            } else {
                i + 1
            };
            let b = if j < at {
                j
            } else {
                j + 1
            };
            assert(rest[i] == entries[a] && rest[j] == entries[b]);
        }
    }
}

/// Taking a key out does not touch the entry of another key.
pub proof fn lemma_without_other(entries: Seq<Entry>, key: Seq<u8>, other: Seq<u8>)
    requires
        distinct_keys(entries),
        other != key,
    ensures
        lookup(without(entries, key), other) == lookup(entries, other),
        holds(without(entries, key), other) == holds(entries, other),
{
    let rest = without(entries, key);
    lemma_without(entries, key);
    if holds(entries, key) {
        let at = index_of(entries, key);
        if holds(entries, other) {
            let j = index_of(entries, other);
            let b = if j < at {
                j
            } else {
                j - 1
            };
            assert(rest[b] == entries[j]);
            lemma_index_of(rest, other, b);
            lemma_index_of(entries, other, j);
        }
        if holds(rest, other) {
            let i = index_of(rest, other);
            let a = if i < at {
                i
            } else {
                i + 1
            };
            assert(rest[i] == entries[a]);
            lemma_index_of(entries, other, a);
            lemma_index_of(rest, other, i);
        }
    }
}

/// A put keeps a consistent cache consistent.
pub proof fn lemma_set_consistent(s: CacheView, key: Seq<u8>, value: PayloadView)
    requires
        s.consistent(),
    ensures
        s.set(key, value).consistent(),
{
    lemma_without(s.entries, key);
    let rest = without(s.entries, key);
    let placed = rest.push((key, value));
    assert forall|i: int, j: int| 0 <= i < j < placed.len() implies (#[trigger] placed[i]).0 != (
    #[trigger] placed[j]).0 by {
        assert(placed[i] == rest[i]);
        if j < rest.len() {
            assert(placed[j] == rest[j]);
        }
    }
    if placed.len() > s.limit {
        let kept = placed.skip(1);
        assert forall|i: int, j: int| 0 <= i < j < kept.len() implies (#[trigger] kept[i]).0 != (
        #[trigger] kept[j]).0 by {
            assert(kept[i] == placed[i + 1] && kept[j] == placed[j + 1]);
        }
    }
}

/// A put of a payload with bytes leaves no payload without bytes.
pub proof fn lemma_set_with_bytes(s: CacheView, key: Seq<u8>, value: PayloadView)
    requires
        with_bytes(s.entries),
        value.data.len() > 0,
    ensures
        with_bytes(s.set(key, value).entries),
{
    lemma_without_with_bytes(s.entries, key);
    let rest = without(s.entries, key);
    let placed = rest.push((key, value));
    assert forall|i: int| 0 <= i < placed.len() implies (#[trigger] placed[i]).1.data.len()
        > 0 by {
        if i < rest.len() {
            assert(placed[i] == rest[i]);
        }
    }
    if placed.len() > s.limit {
        let kept = placed.skip(1);
        assert forall|i: int| 0 <= i < kept.len() implies (#[trigger] kept[i]).1.data.len()
            > 0 by {
            assert(kept[i] == placed[i + 1]);
        }
    }
}

/// Taking a key out leaves only payloads that were there.
pub proof fn lemma_without_with_bytes(entries: Seq<Entry>, key: Seq<u8>)
    requires
        with_bytes(entries),
    ensures
        with_bytes(without(entries, key)),
{
    let rest = without(entries, key);
    if holds(entries, key) {
        let at = index_of(entries, key);
        assert forall|i: int| 0 <= i < rest.len() implies (#[trigger] rest[i]).1.data.len()
            > 0 by {
            if i < at {
                assert(rest[i] == entries[i]);
            } else {
                assert(rest[i] == entries[i + 1]);
            }
        }
    }
}

/// A use keeps a consistent cache consistent.
pub proof fn lemma_touch_consistent(s: CacheView, key: Seq<u8>)
    requires
        s.consistent(),
    ensures
        s.touch(key).consistent(),
{
    lemma_without(s.entries, key);
    if holds(s.entries, key) {
        let rest = without(s.entries, key);
        let value = s.entries[index_of(s.entries, key)].1;
        let placed = rest.push((key, value));
        assert forall|i: int, j: int| 0 <= i < j < placed.len() implies (#[trigger] placed[i]).0
            != (#[trigger] placed[j]).0 by {
            assert(placed[i] == rest[i]);
            if j < rest.len() {
                assert(placed[j] == rest[j]);
            }
        }
    }
}

/// A use leaves no payload without bytes.
pub proof fn lemma_touch_with_bytes(s: CacheView, key: Seq<u8>)
    requires
        with_bytes(s.entries),
    ensures
        with_bytes(s.touch(key).entries),
{
    lemma_without_with_bytes(s.entries, key);
    if holds(s.entries, key) {
        let rest = without(s.entries, key);
        let value = s.entries[index_of(s.entries, key)].1;
        let placed = rest.push((key, value));
        assert forall|i: int| 0 <= i < placed.len() implies (#[trigger] placed[i]).1.data.len()
            > 0 by {
            if i < rest.len() {
                assert(placed[i] == rest[i]);
            }
        }
    }
}

/// A use changes the order of the entries and nothing else: every key is
/// found after it as it was before.
pub proof fn lemma_touch_keeps_payloads(s: CacheView, key: Seq<u8>, other: Seq<u8>)
    requires
        s.consistent(),
    ensures
        s.touch(key).lookup(other) == s.lookup(other),
{
    if holds(s.entries, key) {
        let rest = without(s.entries, key);
        let value = s.entries[index_of(s.entries, key)].1;
        let placed = rest.push((key, value));
        lemma_without(s.entries, key);
        lemma_touch_consistent(s, key);
        if other == key {
            lemma_index_of(placed, key, rest.len() as int);
        } else {
            lemma_without_other(s.entries, key, other);
            if holds(rest, other) {
                let j = index_of(rest, other);
                assert(placed[j] == rest[j]);
                lemma_index_of(placed, other, j);
                lemma_index_of(rest, other, j);
            } else {
                assert forall|i: int| 0 <= i < placed.len() implies (#[trigger] placed[i]).0
                    != other by {
                    if i < rest.len() {
                        assert(placed[i] == rest[i]);
                    }
                }
            }
        }
    }
}

/// Every message keeps a well-formed cache well formed, with the limit it
/// had.
pub proof fn lemma_next_wf(s: CacheView, m: MessageView)
    requires
        s.wf(),
    ensures
        s.next(m).wf(),
        s.next(m).limit == s.limit,
{
    match m {
        MessageView::Request(Op::SetKey, key, Some(p)) => {
            if p.data.len() > 0 {
                lemma_set_consistent(s, key, p);
                lemma_set_with_bytes(s, key, p);
            }
        },
        MessageView::Request(Op::Get, key, _) => {
            lemma_touch_consistent(s, key);
            lemma_touch_with_bytes(s, key);
        },
        _ => {},
    }
}

/// Every response of the cache is one that [`response_policy`] allows,
/// whatever the cache holds and whatever it is asked.
pub proof fn lemma_response_in_policy(s: CacheView, m: MessageView)
    ensures
        in_policy(s.respond(m)),
{
}

/// What a well-formed cache finds has bytes, so the payload of a hit is
/// never lost on the wire, where no bytes and no payload are the same.
pub proof fn lemma_hit_has_bytes(s: CacheView, key: Seq<u8>)
    requires
        s.wf(),
    ensures
        s.lookup(key) matches Some(p) ==> p.data.len() > 0,
{
}

/// What was put is found: in a cache that can hold anything at all, a get
/// after a put of the same key finds the payload that was put.
pub proof fn lemma_put_then_get(s: CacheView, key: Seq<u8>, value: PayloadView)
    requires
        s.consistent(),
        s.limit >= 1,
    ensures
        s.set(key, value).lookup(key) == Some(value),
        s.set(key, value).entries.last() == (key, value),
{
    lemma_without(s.entries, key);
    lemma_set_consistent(s, key, value);
    let placed = without(s.entries, key).push((key, value));
    let after = s.set(key, value).entries;
    if placed.len() > s.limit {
        assert(after[placed.len() - 2] == placed[placed.len() - 1]);
        lemma_index_of(after, key, placed.len() - 2);
    } else {
        lemma_index_of(after, key, placed.len() - 1);
    }
}

/// Of two puts under one key the later one stays: whichever order they are
/// handled in, the cache then holds the key once, with the payload of the
/// put handled last, and a get is answered with `Hit` and that payload.
pub proof fn lemma_last_put_wins(s: CacheView, key: Seq<u8>, a: PayloadView, b: PayloadView)
    requires
        s.consistent(),
        s.limit >= 1,
    ensures
        s.set(key, a).set(key, b).consistent(),
        s.set(key, a).set(key, b).lookup(key) == Some(b),
        s.set(key, a).set(key, b).respond(MessageView::Request(Op::Get, key, None))
            == MessageView::Response(Op::Get, Code::Hit, Some(b)),
        s.set(key, b).set(key, a).lookup(key) == Some(a),
        s.set(key, b).set(key, a).respond(MessageView::Request(Op::Get, key, None))
            == MessageView::Response(Op::Get, Code::Hit, Some(a)),
{
    lemma_set_consistent(s, key, a);
    lemma_set_consistent(s, key, b);
    lemma_set_consistent(s.set(key, a), key, b);
    lemma_put_then_get(s.set(key, a), key, b);
    lemma_put_then_get(s.set(key, b), key, a);
}

/// Puts of distinct keys, no more of them than the limit, all stay, in the
/// order they were made in.
pub proof fn lemma_fill(limit: nat, puts: Seq<Entry>)
    requires
        distinct_keys(puts),
        puts.len() <= limit,
    ensures
        CacheView::empty(limit).set_all(puts).entries == puts,
        CacheView::empty(limit).set_all(puts).limit == limit,
    decreases puts.len(),
{
    if puts.len() > 0 {
        let front = puts.drop_last();
        let (key, value) = puts.last();
        lemma_fill(limit, front);
        assert forall|i: int| 0 <= i < front.len() implies (#[trigger] front[i]).0 != key by {
            assert(front[i] == puts[i]);
        }
        assert(!holds(front, key));
        assert(front.push((key, value)) =~= puts);
    }
}

/// The eviction law: after one put more than the limit, all of distinct
/// keys and with no get between them, exactly the key that was put first is
/// gone, and every other one is found with its payload.
pub proof fn lemma_first_put_is_evicted(limit: nat, puts: Seq<Entry>)
    requires
        distinct_keys(puts),
        puts.len() == limit + 1,
    ensures
        CacheView::empty(limit).set_all(puts).entries == puts.skip(1),
        CacheView::empty(limit).set_all(puts).lookup(puts[0].0) is None,
        forall|i: int|
            1 <= i < puts.len() ==> CacheView::empty(limit).set_all(puts).lookup(
                (#[trigger] puts[i]).0,
            ) == Some(puts[i].1),
{
    let front = puts.drop_last();
    let (key, value) = puts.last();
    lemma_fill(limit, front);
    assert forall|i: int| 0 <= i < front.len() implies (#[trigger] front[i]).0 != key by {
        assert(front[i] == puts[i]);
    }
    assert(!holds(front, key));
    assert(front.push((key, value)) =~= puts);
    let after = CacheView::empty(limit).set_all(puts).entries;
    assert(after == puts.skip(1));
    assert forall|i: int| 0 <= i < after.len() implies (#[trigger] after[i]).0 != puts[0].0 by {
        assert(after[i] == puts[i + 1]);
    }
    assert forall|i: int, j: int| 0 <= i < j < after.len() implies (#[trigger] after[i]).0 != (
    #[trigger] after[j]).0 by {
        assert(after[i] == puts[i + 1] && after[j] == puts[j + 1]);
    }
    assert forall|i: int| 1 <= i < puts.len() implies CacheView::empty(limit).set_all(puts).lookup(
        (#[trigger] puts[i]).0,
    ) == Some(puts[i].1) by {
        assert(after[i - 1] == puts[i]);
        lemma_index_of(after, puts[i].0, i - 1);
    }
}

/// A get protects its key: fill a cache of limit two or more with distinct
/// keys, get one of them, and put one more distinct key. The key that was
/// got is still found, with its payload, and so is the new one.
pub proof fn lemma_used_key_survives(limit: nat, puts: Seq<Entry>, more: Entry, i: int)
    requires
        limit >= 2,
        puts.len() == limit,
        distinct_keys(puts.push(more)),
        0 <= i < puts.len(),
    ensures
        ({
            let s = CacheView::empty(limit).set_all(puts).touch(puts[i].0).set(more.0, more.1);
            &&& s.consistent()
            &&& s.entries.len() == limit
            &&& s.lookup(puts[i].0) == Some(puts[i].1)
            &&& s.lookup(more.0) == Some(more.1)
        }),
{
    let all = puts.push(more);
    assert forall|a: int, b: int| 0 <= a < b < puts.len() implies (#[trigger] puts[a]).0 != (
    #[trigger] puts[b]).0 by {
        assert(all[a] == puts[a] && all[b] == puts[b]);
    }
    lemma_fill(limit, puts);
    let full = CacheView::empty(limit).set_all(puts);
    assert(full.entries == puts);
    let key = puts[i].0;
    lemma_index_of(puts, key, i);
    let used = full.touch(key);
    lemma_touch_consistent(full, key);
    let moved = puts.remove(i).push((key, puts[i].1));
    assert(used.entries == moved);
    assert forall|a: int| 0 <= a < moved.len() implies (#[trigger] moved[a]).0 != more.0 by {
        let from = if a == moved.len() - 1 {
            i
        } else if a < i {
            a
        } else {
            a + 1
        };
        assert(moved[a].0 == puts[from].0);
        assert(all[from] == puts[from] && all[puts.len() as int] == more);
    }
    assert(!holds(moved, more.0));
    let s = used.set(more.0, more.1);
    lemma_set_consistent(used, more.0, more.1);
    lemma_put_then_get(used, more.0, more.1);
    let placed = moved.push(more);
    assert(s.entries == placed.skip(1));
    assert(s.entries[limit - 2] == placed[limit - 1]);
    lemma_index_of(s.entries, key, limit - 2);
}

} // verus!
