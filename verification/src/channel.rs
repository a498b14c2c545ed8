//! Duplex channel bookkeeping: the table of in-flight requests and the
//! decisions of the reader and sender paths.
//!
//! The channel owns a table of pending request ids.  An entry exists from
//! the moment a request is prepared until exactly one of three things
//! removes it: the matching response arrives, the request's timeout fires,
//! or the channel is torn down.  Removal is idempotent, so the timeout path
//! and the reader racing each other cannot double-deliver.
//!
//! The pipe I/O itself — writing encoded lines, reading lines, completing
//! reply slots — is the embedding runtime's part: it calls
//! [`IPCChannel::prepare_request`] before writing, hands every received
//! line to [`IPCChannel::handle_line`], and acts on the returned event.

use vstd::prelude::*;

use crate::codec;
use crate::errors::EngineError;
use crate::ids;
use crate::rpc::{Frame, FrameModel, RpcMessage, RpcMessageModel, RpcResponse};

verus! {

/// Mathematical model of the pending-request table: the pending ids, and
/// the counter the next id will be drawn from.
pub ghost struct TableModel {
    pub pending: Seq<u64>,
    pub next_seq: u64,
}

impl TableModel {
    /// Invariant: every pending id was drawn from the counter, and no two
    /// pending entries share an id.
    pub open spec fn wf(self) -> bool {
        &&& forall|i: int|
            0 <= i < self.pending.len() ==> (#[trigger] self.pending[i]) < self.next_seq
        &&& self.pending.no_duplicates()
    }
}

/// Remove the first occurrence of `id`, if any.
pub open spec fn remove_id(s: Seq<u64>, id: u64) -> Seq<u64>
    decreases s.len(),
{
    if s.len() == 0 {
        s
    } else if s[0] == id {
        s.skip(1)
    } else {
        seq![s[0]] + remove_id(s.skip(1), id)
    }
}

proof fn lemma_remove_id_absent(s: Seq<u64>, id: u64)
    requires
        !s.contains(id),
    ensures
        remove_id(s, id) == s,
    decreases s.len(),
{
    if s.len() > 0 {
        assert(s[0] != id);
        assert(!s.skip(1).contains(id)) by {
            if s.skip(1).contains(id) {
                let k = choose|k: int| 0 <= k < s.skip(1).len() && s.skip(1)[k] == id;
                assert(s[k + 1] == id);
            }
        }
        lemma_remove_id_absent(s.skip(1), id);
        assert(seq![s[0]] + s.skip(1) =~= s);
    }
}

proof fn lemma_remove_id_props(s: Seq<u64>, id: u64)
    ensures
        forall|x: u64| #[trigger] remove_id(s, id).contains(x) ==> s.contains(x),
        s.no_duplicates() ==> remove_id(s, id).no_duplicates(),
        s.no_duplicates() ==> !remove_id(s, id).contains(id),
        s.contains(id) ==> remove_id(s, id).len() == s.len() - 1,
        !s.contains(id) ==> remove_id(s, id) == s,
    decreases s.len(),
{
    if s.len() == 0 {
        assert(!s.contains(id));
    } else if s[0] == id {
        assert(s.contains(id));
        assert forall|x: u64| #[trigger] remove_id(s, id).contains(x) implies s.contains(x) by {
            let k = choose|k: int| 0 <= k < s.skip(1).len() && s.skip(1)[k] == x;
            assert(s[k + 1] == x);
        }
        if s.no_duplicates() {
            assert(s.skip(1).no_duplicates()) by {
                assert(forall|i: int|
                    0 <= i < s.skip(1).len() ==> #[trigger] s.skip(1)[i] == s[i + 1]);
            }
            assert(!s.skip(1).contains(id)) by {
                if s.skip(1).contains(id) {
                    let k = choose|k: int| 0 <= k < s.skip(1).len() && s.skip(1)[k] == id;
                    assert(s[k + 1] == id && s[0] == id);
                }
            }
        }
    } else {
        let t = s.skip(1);
        assert(forall|i: int| 0 <= i < t.len() ==> #[trigger] t[i] == s[i + 1]);
        lemma_remove_id_props(t, id);
        let r = seq![s[0]] + remove_id(t, id);
        assert(remove_id(s, id) == r);
        assert forall|x: u64| #[trigger] r.contains(x) implies s.contains(x) by {
            let k = choose|k: int| 0 <= k < r.len() && r[k] == x;
            if k == 0 {
                assert(s[0] == x);
            } else {
                assert(remove_id(t, id)[k - 1] == x);
                assert(remove_id(t, id).contains(x));
                assert(t.contains(x));
                let k2 = choose|k2: int| 0 <= k2 < t.len() && t[k2] == x;
                assert(s[k2 + 1] == x);
            }
        }
        if s.no_duplicates() {
            assert(t.no_duplicates());
            assert(!t.contains(s[0])) by {
                if t.contains(s[0]) {
                    let k = choose|k: int| 0 <= k < t.len() && t[k] == s[0];
                    assert(s[k + 1] == s[0]);
                }
            }
            assert(r.no_duplicates()) by {
                assert(remove_id(t, id).no_duplicates());
                assert forall|i: int, j: int|
                    0 <= i < r.len() && 0 <= j < r.len() && i != j implies r[i] != r[j] by {
                    if i == 0 && j > 0 {
                        assert(r[j] == remove_id(t, id)[j - 1]);
                        assert(remove_id(t, id).contains(remove_id(t, id)[j - 1]));
                        assert(t.contains(r[j]));
                    } else if j == 0 && i > 0 {
                        assert(r[i] == remove_id(t, id)[i - 1]);
                        assert(remove_id(t, id).contains(remove_id(t, id)[i - 1]));
                        assert(t.contains(r[i]));
                    } else if i > 0 && j > 0 {
                        assert(r[i] == remove_id(t, id)[i - 1]);
                        assert(r[j] == remove_id(t, id)[j - 1]);
                    }
                }
            }
            assert(!r.contains(id)) by {
                if r.contains(id) {
                    let k = choose|k: int| 0 <= k < r.len() && r[k] == id;
                    if k == 0 {
                        assert(s[0] == id);
                    } else {
                        assert(remove_id(t, id).contains(id));
                    }
                }
            }
        }
        if s.contains(id) {
            assert(t.contains(id)) by {
                let k = choose|k: int| 0 <= k < s.len() && s[k] == id;
                assert(k != 0);
                assert(t[k - 1] == id);
            }
        }
        if !s.contains(id) {
            assert(!t.contains(id)) by {
                if t.contains(id) {
                    let k = choose|k: int| 0 <= k < t.len() && t[k] == id;
                    assert(s[k + 1] == id);
                }
            }
            assert(seq![s[0]] + t =~= s);
        }
    }
}

/// Relate removal at a known first index to `remove_id`.
proof fn lemma_remove_at_index(s: Seq<u64>, k: int, id: u64)
    requires
        0 <= k < s.len(),
        s[k] == id,
        forall|j: int| 0 <= j < k ==> s[j] != id,
    ensures
        s.remove(k) == remove_id(s, id),
    decreases k,
{
    if k == 0 {
        assert(s.remove(0) =~= s.skip(1));
    } else {
        let t = s.skip(1);
        assert(s[0] != id);
        assert(t[k - 1] == id);
        assert(forall|j: int| 0 <= j < k - 1 ==> #[trigger] t[j] == s[j + 1]);
        lemma_remove_at_index(t, k - 1, id);
        assert(s.remove(k) =~= seq![s[0]] + t.remove(k - 1));
    }
}

/// The law that the timeout and reader paths cannot both take an entry:
/// removing an id is idempotent — once it is gone, removing it again
/// changes nothing.
pub proof fn lemma_removal_idempotent(s: Seq<u64>, id: u64)
    requires
        s.no_duplicates(),
    ensures
        remove_id(remove_id(s, id), id) == remove_id(s, id),
{
    lemma_remove_id_props(s, id);
    lemma_remove_id_absent(remove_id(s, id), id);
}

/// The law that no two concurrently pending requests share an id, neither
/// as counters nor as wire strings.
pub proof fn lemma_pending_ids_unique(t: TableModel, i: int, j: int)
    requires
        t.wf(),
        0 <= i < j < t.pending.len(),
    ensures
        t.pending[i] != t.pending[j],
        ids::dec_str(t.pending[i] as int) != ids::dec_str(t.pending[j] as int),
{
    if ids::dec_str(t.pending[i] as int) == ids::dec_str(t.pending[j] as int) {
        ids::lemma_dec_str_injective(t.pending[i] as int, t.pending[j] as int);
    }
}

/// The law behind channel teardown: every pending id stands in the table
/// exactly once, so handing the drained table to the error path reaches
/// each waiting caller exactly once.
pub proof fn lemma_teardown_covers_all(t: TableModel, id: u64)
    requires
        t.wf(),
        t.pending.contains(id),
    ensures
        exists|i: int| 0 <= i < t.pending.len() && t.pending[i] == id,
        forall|i: int, j: int|
            #![trigger t.pending[i], t.pending[j]]
            0 <= i < j < t.pending.len() ==> !(t.pending[i] == id && t.pending[j] == id),
{
}

/// The table of in-flight requests awaiting a correlated response.
#[derive(Debug)]
pub struct PendingRequestTable {
    pending: Vec<u64>,
    next_seq: u64,
}

impl View for PendingRequestTable {
    type V = TableModel;

    closed spec fn view(&self) -> TableModel {
        TableModel { pending: self.pending@, next_seq: self.next_seq }
    }
}

impl PendingRequestTable {
    /// A fresh, empty table.
    pub fn new() -> (r: Self)
        ensures
            r@.pending.len() == 0,
            r@.next_seq == 0,
            r@.wf(),
    {
        PendingRequestTable { pending: Vec::new(), next_seq: 0 }
    }

    /// Draw a fresh id and register it.  The id differs from every id still
    /// pending: ids are never reused within a channel's lifetime.
    pub fn register(&mut self) -> (id: u64)
        requires
            old(self)@.wf(),
            old(self)@.next_seq < u64::MAX,
        ensures
            final(self)@.wf(),
            id == old(self)@.next_seq,
            !old(self)@.pending.contains(id),
            final(self)@.pending == old(self)@.pending.push(id),
            final(self)@.next_seq == old(self)@.next_seq + 1,
    {
        let id = self.next_seq;
        proof {
            if old(self)@.pending.contains(id) {
                let k = choose|k: int|
                    0 <= k < old(self)@.pending.len() && old(self)@.pending[k] == id;
            }
        }
        self.pending.push(id);
        self.next_seq = self.next_seq + 1;
        proof {
            let p = old(self)@.pending;
            let q = self@.pending;
            assert(q == p.push(id));
            assert forall|i: int, j: int|
                0 <= i < q.len() && 0 <= j < q.len() && i != j implies q[i] != q[j] by {
                if i < p.len() && j < p.len() {
                    assert(p[i] == q[i] && p[j] == q[j]);
                } else if i < p.len() && j == p.len() {
                    assert(q[i] == p[i] && q[j] == id && p[i] < id);
                } else if j < p.len() && i == p.len() {
                    assert(q[j] == p[j] && q[i] == id && p[j] < id);
                }
            }
        }
        id
    }

    /// Whether an id is still pending.
    pub fn contains(&self, id: u64) -> (r: bool)
        ensures
            r == self@.pending.contains(id),
    {
        let n = self.pending.len();
        let mut i: usize = 0;
        while i < n
            invariant
                n == self@.pending.len(),
                i <= n,
                forall|j: int| 0 <= j < i ==> self@.pending[j] != id,
            decreases n - i,
        {
            if self.pending[i] == id {
                return true;
            }
            i = i + 1;
        }
        proof {
            if self@.pending.contains(id) {
                let k = choose|k: int| 0 <= k < self@.pending.len() && self@.pending[k] == id;
            }
        }
        false
    }

    /// How many requests are pending.
    pub fn len(&self) -> (r: usize)
        ensures
            r == self@.pending.len(),
    {
        self.pending.len()
    }

    /// Remove an id.  Exactly the entry carrying that id goes; if none
    /// does, nothing changes and the call says so.  Together with
    /// [`lemma_removal_idempotent`], a timeout racing the reader removes
    /// the entry once, never twice.
    pub fn remove(&mut self, id: u64) -> (found: bool)
        requires
            old(self)@.wf(),
        ensures
            final(self)@.wf(),
            found == old(self)@.pending.contains(id),
            final(self)@.pending == remove_id(old(self)@.pending, id),
            final(self)@.next_seq == old(self)@.next_seq,
            !final(self)@.pending.contains(id),
    {
        let n = self.pending.len();
        let mut i: usize = 0;
        while i < n
            invariant
                old(self)@.wf(),
                n == self@.pending.len(),
                i <= n,
                forall|j: int| 0 <= j < i ==> self@.pending[j] != id,
                self@ == old(self)@,
            decreases n - i,
        {
            if self.pending[i] == id {
                proof {
                    lemma_remove_at_index(self@.pending, i as int, id);
                    lemma_remove_id_props(old(self)@.pending, id);
                }
                self.pending.remove(i);
                proof {
                    let p = old(self)@.pending;
                    let q = self@.pending;
                    assert(q == remove_id(p, id));
                    assert forall|k: int| 0 <= k < q.len() implies (#[trigger] q[k])
                        < self@.next_seq by {
                        assert(remove_id(p, id).contains(q[k]));
                        assert(p.contains(q[k]));
                        let k2: int = choose|k2: int| 0 <= k2 < p.len() && p[k2] == q[k];
                        assert(0 <= k2 < p.len() && p[k2] == q[k]);
                        assert(p[k2] < old(self)@.next_seq);
                    }
                }
                return true;
            }
            i = i + 1;
        }
        proof {
            if old(self)@.pending.contains(id) {
                let k = choose|k: int|
                    0 <= k < old(self)@.pending.len() && old(self)@.pending[k] == id;
            }
            lemma_remove_id_absent(old(self)@.pending, id);
        }
        false
    }

    /// Take every pending id out at once, for teardown: afterwards the
    /// table is empty, and the result holds exactly the ids that were
    /// pending, so every waiting caller can be handed an error.
    pub fn drain(&mut self) -> (all: Vec<u64>)
        requires
            old(self)@.wf(),
        ensures
            final(self)@.wf(),
            all@ == old(self)@.pending,
            final(self)@.pending.len() == 0,
            final(self)@.next_seq == old(self)@.next_seq,
    {
        let mut taken = Vec::new();
        core::mem::swap(&mut taken, &mut self.pending);
        taken
    }
}

/// What the reader decides about one received line.
#[derive(Debug)]
pub enum ReaderEvent {
    /// The line was empty or malformed; it is discarded, never fatal.
    Discard,
    /// The line decoded to a message (a notification from the worker, or an
    /// unexpected inbound request); surfaced for logging only.
    Inbound(RpcMessage),
    /// The line decoded to a response that matches the pending request with
    /// this counter value; deliver it through that reply slot.
    Deliver(u64, RpcResponse),
    /// The line decoded to a response whose id matches no pending request:
    /// it timed out or was never sent.  Logged, not delivered.
    Orphan(RpcResponse),
}

/// The duplex channel's decision core: id generation, request
/// registration, and response correlation.
#[derive(Debug)]
pub struct IPCChannel {
    table: PendingRequestTable,
}

impl View for IPCChannel {
    type V = TableModel;

    closed spec fn view(&self) -> TableModel {
        self.table@
    }
}

impl IPCChannel {
    /// A fresh channel with no requests in flight.  Each spawn cycle gets
    /// its own instance, so a stale reader can never deliver into a new
    /// cycle's table.
    pub fn new() -> (r: Self)
        ensures
            r@.pending.len() == 0,
            r@.next_seq == 0,
            r@.wf(),
    {
        IPCChannel { table: PendingRequestTable::new() }
    }

    /// Build a request frame under a fresh id and register that id.  The
    /// caller writes the encoded frame to the worker and awaits the reply
    /// slot under its timeout.  Fails only when the params payload breaks
    /// the framing discipline; nothing is registered then.
    pub fn prepare_request(&mut self, method: String, params: Option<String>) -> (r: Result<
        (RpcMessage, u64),
        EngineError,
    >)
        requires
            old(self)@.wf(),
            old(self)@.next_seq < u64::MAX,
        ensures
            final(self)@.wf(),
            match r {
                Ok(p) => {
                    &&& (match params {
                        Some(q) => codec::payload_ok(q@),
                        None => true,
                    })
                    &&& p.0@ == (RpcMessageModel {
                        version: "2.0"@,
                        method: method@,
                        params: match params {
                            Some(q) => Some(q@),
                            None => None,
                        },
                        id: Some(ids::dec_str(p.1 as int)),
                    })
                    &&& p.1 == old(self)@.next_seq
                    &&& !old(self)@.pending.contains(p.1)
                    &&& final(self)@.pending == old(self)@.pending.push(p.1)
                    &&& final(self)@.next_seq == old(self)@.next_seq + 1
                },
                Err(e) => {
                    &&& params is Some
                    &&& !codec::payload_ok(params->Some_0@)
                    &&& final(self)@ == old(self)@
                    &&& e is CommunicationError
                },
            },
    {
        let params = match params {
            Some(p) => {
                if !codec::check_payload(p.as_str()) {
                    return Err(
                        EngineError::CommunicationError(
                            String::from_str("request params are not a JSON value"),
                        ),
                    );
                }
                Some(p)
            },
            None => None,
        };
        let seq_id = self.table.register();
        let id_string = ids::render_id(seq_id);
        let msg = RpcMessage {
            version: String::from_str("2.0"),
            method,
            params,
            id: Some(id_string),
        };
        Ok((msg, seq_id))
    }

    /// Build a notification frame: no id, no registration, fire and
    /// forget.  Fails only when the params payload breaks the framing
    /// discipline.
    pub fn prepare_notification(&self, method: String, params: Option<String>) -> (r: Result<
        RpcMessage,
        EngineError,
    >)
        ensures
            match r {
                Ok(m) => {
                    &&& (match params {
                        Some(q) => codec::payload_ok(q@),
                        None => true,
                    })
                    &&& m@ == (RpcMessageModel {
                        version: "2.0"@,
                        method: method@,
                        params: match params {
                            Some(q) => Some(q@),
                            None => None,
                        },
                        id: None,
                    })
                },
                Err(e) => {
                    &&& params is Some
                    &&& !codec::payload_ok(params->Some_0@)
                    &&& e is CommunicationError
                },
            },
    {
        let params = match params {
            Some(p) => {
                if !codec::check_payload(p.as_str()) {
                    return Err(
                        EngineError::CommunicationError(
                            String::from_str("notification params are not a JSON value"),
                        ),
                    );
                }
                Some(p)
            },
            None => None,
        };
        Ok(
            RpcMessage {
                version: String::from_str("2.0"),
                method,
                params,
                id: None,
            },
        )
    }

    /// Decide what one received line means.  A response whose id matches a
    /// pending request removes that entry — at most one delivery per id;
    /// everything else leaves the table untouched.
    pub fn handle_line(&mut self, line: &str) -> (r: ReaderEvent)
        requires
            old(self)@.wf(),
        ensures
            final(self)@.wf(),
            final(self)@.next_seq == old(self)@.next_seq,
            match r {
                ReaderEvent::Discard => {
                    &&& codec::parse_frame(codec::trimmed(line@)) is None
                    &&& final(self)@ == old(self)@
                },
                ReaderEvent::Inbound(m) => {
                    &&& codec::parse_frame(codec::trimmed(line@)) == Some(
                        FrameModel::Message(m@),
                    )
                    &&& final(self)@ == old(self)@
                },
                ReaderEvent::Deliver(seq_id, resp) => {
                    &&& codec::parse_frame(codec::trimmed(line@)) == Some(
                        FrameModel::Response(resp@),
                    )
                    &&& resp@.id == ids::dec_str(seq_id as int)
                    &&& old(self)@.pending.contains(seq_id)
                    &&& final(self)@.pending == remove_id(old(self)@.pending, seq_id)
                    &&& !final(self)@.pending.contains(seq_id)
                },
                ReaderEvent::Orphan(resp) => {
                    &&& codec::parse_frame(codec::trimmed(line@)) == Some(
                        FrameModel::Response(resp@),
                    )
                    &&& forall|n: u64|
                        old(self)@.pending.contains(n) ==> ids::dec_str(n as int) != resp@.id
                    &&& final(self)@ == old(self)@
                },
            },
    {
        match codec::decode_line(line) {
            None => ReaderEvent::Discard,
            Some(Frame::Message(m)) => ReaderEvent::Inbound(m),
            Some(Frame::Response(resp)) => {
                match ids::parse_id(resp.id.as_str()) {
                    Some(seq_id) => {
                        let found = self.table.remove(seq_id);
                        if found {
                            ReaderEvent::Deliver(seq_id, resp)
                        } else {
                            proof {
                                lemma_remove_id_absent(old(self)@.pending, seq_id);
                                assert forall|n: u64|
                                    old(self)@.pending.contains(n) implies ids::dec_str(n as int)
                                    != resp@.id by {
                                    if ids::dec_str(n as int) == resp@.id {
                                        ids::lemma_dec_str_injective(n as int, seq_id as int);
                                    }
                                }
                            }
                            ReaderEvent::Orphan(resp)
                        }
                    },
                    None => ReaderEvent::Orphan(resp),
                }
            },
        }
    }

    /// A timeout fired for this request: take its entry out.  Whether the
    /// entry was still there says who won the race with the reader; either
    /// way it is gone afterwards, exactly once.
    pub fn on_timeout(&mut self, seq_id: u64) -> (found: bool)
        requires
            old(self)@.wf(),
        ensures
            final(self)@.wf(),
            found == old(self)@.pending.contains(seq_id),
            final(self)@.pending == remove_id(old(self)@.pending, seq_id),
            final(self)@.next_seq == old(self)@.next_seq,
            !final(self)@.pending.contains(seq_id),
    {
        self.table.remove(seq_id)
    }

    /// Tear the channel down: every pending entry comes out, so the caller
    /// can hand each waiting requester a communication error.  No caller is
    /// left hanging.
    pub fn teardown(&mut self) -> (all: Vec<u64>)
        requires
            old(self)@.wf(),
        ensures
            final(self)@.wf(),
            all@ == old(self)@.pending,
            final(self)@.pending.len() == 0,
    {
        self.table.drain()
    }

    /// How many requests are in flight.
    pub fn pending_count(&self) -> (r: usize)
        ensures
            r == self@.pending.len(),
    {
        self.table.len()
    }
}

} // verus!
