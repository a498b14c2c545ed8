//! Threat model for credential handling: rate limiting of access attempts,
//! a bounded log of security events, heuristics against memory scraping,
//! and password strength rules.
//!
//! Requesters are tracked under a digest of their identifier, never the
//! identifier itself, so the table cannot be used to enumerate requesters.
//! Timestamps are plain milliseconds from the wall clock; the rate-limit
//! arithmetic is exact for every clock value.

use vstd::prelude::*;
use vstd::pervasive::VecAdditionalExecFns;

use crate::codec::push_char;
use vstd::string::StringSliceAdditionalSpecFns;

use base64::Engine;

use crate::clock;
use crate::dbtypes::ConnectionError;

verus! {

/// The kinds of events worth recording.
#[derive(Debug, Clone, Copy, PartialEq, Eq, Structural)]
pub enum SecurityEventType {
    UnauthorizedAccess,
    RateLimitExceeded,
    SuspiciousPattern,
    CredentialAccess,
    MemoryScrapingAttempt,
    InvalidRequest,
}

/// Mathematical model of a recorded event.
pub ghost struct SecurityEventModel {
    pub event_type: SecurityEventType,
    pub timestamp_ms: u64,
    pub details: Seq<char>,
    pub source: Seq<char>,
}

/// One recorded security event.
#[derive(Debug, Clone)]
pub struct SecurityEvent {
    /// What happened.
    pub event_type: SecurityEventType,
    /// When it happened, in milliseconds.
    pub timestamp_ms: u64,
    /// Detail text.
    pub details: String,
    /// Which component reported it.
    pub source: String,
}

impl View for SecurityEvent {
    type V = SecurityEventModel;

    open spec fn view(&self) -> SecurityEventModel {
        SecurityEventModel {
            event_type: self.event_type,
            timestamp_ms: self.timestamp_ms,
            details: self.details@,
            source: self.source@,
        }
    }
}

impl SecurityEvent {
    /// A field-for-field copy.
    pub fn clone_event(&self) -> (r: Self)
        ensures
            r@ == self@,
    {
        SecurityEvent {
            event_type: self.event_type,
            timestamp_ms: self.timestamp_ms,
            details: self.details.clone(),
            source: self.source.clone(),
        }
    }
}

/// The lowercase hex digit for `d` (`d < 16`).
pub open spec fn hex_lower(d: u8) -> char {
    if d == 0 {
        '0'
    } else if d == 1 {
        '1'
    } else if d == 2 {
        '2'
    } else if d == 3 {
        '3'
    } else if d == 4 {
        '4'
    } else if d == 5 {
        '5'
    } else if d == 6 {
        '6'
    } else if d == 7 {
        '7'
    } else if d == 8 {
        '8'
    } else if d == 9 {
        '9'
    } else if d == 10 {
        'a'
    } else if d == 11 {
        'b'
    } else if d == 12 {
        'c'
    } else if d == 13 {
        'd'
    } else if d == 14 {
        'e'
    } else {
        'f'
    }
}

/// A byte sequence as lowercase hex, two digits per byte.
pub open spec fn hex_of_bytes(bs: Seq<u8>) -> Seq<char>
    decreases bs.len(),
{
    if bs.len() == 0 {
        Seq::empty()
    } else {
        hex_of_bytes(bs.drop_last()) + seq![hex_lower(bs.last() / 16), hex_lower(bs.last() % 16)]
    }
}

/// The key a requester is tracked under: the lowercase hex form of the
/// SHA-256 digest of its identifier.
pub open spec fn requester_key(r: Seq<u8>) -> Seq<char> {
    hex_of_bytes(sha256_of(r))
}

/// Render a byte sequence as lowercase hex.
fn bytes_to_hex(bs: &Vec<u8>) -> (r: String)
    ensures
        r@ == hex_of_bytes(bs@),
{
    let n = bs.len();
    let mut out = String::new();
    let mut i: usize = 0;
    while i < n
        invariant
            n == bs@.len(),
            i <= n,
            out@ == hex_of_bytes(bs@.subrange(0, i as int)),
        decreases n - i,
    {
        let ghost pre = bs@.subrange(0, i as int);
        let ghost cur = bs@.subrange(0, i as int + 1);
        proof {
            assert(cur.drop_last() =~= pre);
            assert(cur.last() == bs@[i as int]);
        }
        let b = bs[i];
        push_char(&mut out, hex_char(b / 16));
        push_char(&mut out, hex_char(b % 16));
        proof {
            assert(out@ =~= hex_of_bytes(cur));
        }
        i = i + 1;
    }
    proof {
        assert(bs@.subrange(0, n as int) =~= bs@);
    }
    out
}

/// The lowercase hex digit character for `d` (`d < 16`).
fn hex_char(d: u8) -> (r: char)
    requires
        d < 16,
    ensures
        r == hex_lower(d),
{
    if d == 0 {
        '0'
    } else if d == 1 {
        '1'
    } else if d == 2 {
        '2'
    } else if d == 3 {
        '3'
    } else if d == 4 {
        '4'
    } else if d == 5 {
        '5'
    } else if d == 6 {
        '6'
    } else if d == 7 {
        '7'
    } else if d == 8 {
        '8'
    } else if d == 9 {
        '9'
    } else if d == 10 {
        'a'
    } else if d == 11 {
        'b'
    } else if d == 12 {
        'c'
    } else if d == 13 {
        'd'
    } else if d == 14 {
        'e'
    } else {
        'f'
    }
}

/// The raw SHA-256 digest of a byte sequence.  Relied on below through
/// [`sha256_digest`].
pub uninterp spec fn sha256_of(s: Seq<u8>) -> Seq<u8>;

/// Relies on ring::digest::digest with SHA-256: the digest depends on the
/// input alone and is 32 bytes.
#[verifier::external_body]
fn sha256_digest(s: &str) -> (r: Vec<u8>)
    ensures
        r@ == sha256_of(s.spec_bytes()),
        r@.len() == 32,
{
    ring::digest::digest(&ring::digest::SHA256, s.as_bytes()).as_ref().to_vec()
}

/// The standard base64 form of a byte sequence, with padding.  Relied on
/// below through [`base64_encode`].
pub uninterp spec fn base64_of(b: Seq<u8>) -> Seq<char>;

/// Relies on base64's standard engine: the encoding depends on the bytes
/// alone, four characters for every started group of three bytes.
#[verifier::external_body]
fn base64_encode(b: &Vec<u8>) -> (r: String)
    ensures
        r@ == base64_of(b@),
        r@.len() == 4 * ((b@.len() + 2) / 3),
{
    base64::engine::general_purpose::STANDARD.encode(b.as_slice())
}

/// An attempt timestamp still counts against the limit.
pub open spec fn attempt_recent(t: u64, now_ms: u64, window_ms: u64) -> bool {
    t as int + window_ms as int > now_ms as int
}

/// The timestamps of `ts` that still count, order kept.
pub open spec fn recent_of(ts: Seq<u64>, now_ms: u64, window_ms: u64) -> Seq<u64>
    decreases ts.len(),
{
    if ts.len() == 0 {
        ts
    } else if attempt_recent(ts.last(), now_ms, window_ms) {
        recent_of(ts.drop_last(), now_ms, window_ms).push(ts.last())
    } else {
        recent_of(ts.drop_last(), now_ms, window_ms)
    }
}

/// Mathematical model of the threat model's state.
pub ghost struct ThreatModelState {
    pub attempts: Seq<(Seq<char>, Seq<u64>)>,
    pub max_attempts: u64,
    pub time_window_ms: u64,
    pub events: Seq<SecurityEventModel>,
}

impl ThreatModelState {
    /// Invariant: one attempt list per digest, and a nonempty window.
    pub open spec fn wf(self) -> bool {
        &&& forall|i: int, j: int|
            #![trigger self.attempts[i], self.attempts[j]]
            0 <= i < j < self.attempts.len() ==> self.attempts[i].0 != self.attempts[j].0
        &&& self.time_window_ms > 0
    }

    /// The attempt list recorded under a digest.
    pub open spec fn attempts_of(self, key: Seq<char>) -> Seq<u64> {
        if exists|i: int| 0 <= i < self.attempts.len() && (#[trigger] self.attempts[i]).0 == key {
            self.attempts[choose|i: int|
                0 <= i < self.attempts.len() && (#[trigger] self.attempts[i]).0 == key].1
        } else {
            Seq::empty()
        }
    }
}

/// The requester identifier is acceptable to look at.
pub open spec fn requester_ok(r: Seq<char>) -> bool {
    0 < r.len() <= 256
}

/// What the bounded event log becomes when an event is appended: the
/// oldest hundred entries fall off once a thousand is exceeded.
pub open spec fn log_after(events: Seq<SecurityEventModel>, e: SecurityEventModel) -> Seq<
    SecurityEventModel,
> {
    let pushed = events.push(e);
    if pushed.len() > 1000 {
        pushed.subrange(100, pushed.len() as int)
    } else {
        pushed
    }
}

/// What one access validation does, at a given clock reading: the exact
/// relation between the state before, the state after, and the verdict.
/// An unacceptable requester is refused with an `InvalidRequest` event and
/// no attempt recorded; otherwise the requester's attempt list (tracked
/// under its digest) is pruned to the window and counted: within the limit
/// the attempt is recorded and nothing is logged, over it the list stays
/// pruned and a `RateLimitExceeded` event is logged.
pub open spec fn access_outcome(
    pre: ThreatModelState,
    post: ThreatModelState,
    requester: Seq<char>,
    requester_bytes: Seq<u8>,
    accepted: bool,
    now_ms: u64,
) -> bool {
    &&& post.max_attempts == pre.max_attempts
    &&& post.time_window_ms == pre.time_window_ms
    &&& if !requester_ok(requester) {
        &&& !accepted
        &&& post.attempts == pre.attempts
        &&& post.events == log_after(
            pre.events,
            SecurityEventModel {
                event_type: SecurityEventType::InvalidRequest,
                timestamp_ms: now_ms,
                details: "Invalid requester identifier"@,
                source: requester,
            },
        )
    } else {
        let key = hex_of_bytes(sha256_of(requester_bytes));
        let pruned = recent_of(pre.attempts_of(key), now_ms, pre.time_window_ms);
        let allowed = pruned.len() < pre.max_attempts;
        &&& accepted == allowed
        &&& post.attempts == set_attempts(
            pre.attempts,
            key,
            if allowed {
                pruned.push(now_ms)
            } else {
                pruned
            },
        )
        &&& post.events == (if allowed {
            pre.events
        } else {
            log_after(
                pre.events,
                SecurityEventModel {
                    event_type: SecurityEventType::RateLimitExceeded,
                    timestamp_ms: now_ms,
                    details: "Rate limit exceeded for requester"@,
                    source: requester,
                },
            )
        })
    }
}

/// Protection against abusive access to stored credentials.
#[derive(Debug)]
pub struct ThreatModel {
    attempts: Vec<(String, Vec<u64>)>,
    max_attempts: u64,
    time_window_ms: u64,
    events: Vec<SecurityEvent>,
}

impl View for ThreatModel {
    type V = ThreatModelState;

    closed spec fn view(&self) -> ThreatModelState {
        ThreatModelState {
            attempts: Seq::new(
                self.attempts@.len(),
                |i: int| (self.attempts@[i].0@, self.attempts@[i].1@),
            ),
            max_attempts: self.max_attempts,
            time_window_ms: self.time_window_ms,
            events: Seq::new(self.events@.len(), |i: int| self.events@[i]@),
        }
    }
}

impl ThreatModel {
    /// A fresh threat model: five attempts per five-minute window, no
    /// events yet.
    pub fn new() -> (r: Self)
        ensures
            r@.wf(),
            r@.attempts.len() == 0,
            r@.max_attempts == 5,
            r@.time_window_ms == 300000,
            r@.events.len() == 0,
    {
        let r = ThreatModel {
            attempts: Vec::new(),
            max_attempts: 5,
            time_window_ms: 300000,
            events: Vec::new(),
        };
        proof {
            assert(r@.attempts =~= Seq::<(Seq<char>, Seq<u64>)>::empty());
            assert(r@.events =~= Seq::<SecurityEventModel>::empty());
        }
        r
    }

    /// Record one event in the bounded log, stamped with the wall clock.
    /// The log keeps at most a thousand entries by dropping the oldest
    /// hundred when it overflows.
    pub fn log_security_event(&mut self, event_type: SecurityEventType, details: String, source: String)
        ensures
            final(self)@.attempts == old(self)@.attempts,
            final(self)@.max_attempts == old(self)@.max_attempts,
            final(self)@.time_window_ms == old(self)@.time_window_ms,
            exists|ts: u64|
                final(self)@.events == log_after(
                    old(self)@.events,
                    SecurityEventModel {
                        event_type,
                        timestamp_ms: ts,
                        details: details@,
                        source: source@,
                    },
                ),
            old(self)@.wf() ==> final(self)@.wf(),
    {
        let now = clock::now_millis();
        self.log_security_event_at(event_type, details, source, now);
    }

    /// Record one event stamped with the given time: the exact form of
    /// [`Self::log_security_event`].
    pub fn log_security_event_at(
        &mut self,
        event_type: SecurityEventType,
        details: String,
        source: String,
        now_ms: u64,
    )
        ensures
            final(self)@.attempts == old(self)@.attempts,
            final(self)@.max_attempts == old(self)@.max_attempts,
            final(self)@.time_window_ms == old(self)@.time_window_ms,
            final(self)@.events == log_after(
                old(self)@.events,
                SecurityEventModel {
                    event_type,
                    timestamp_ms: now_ms,
                    details: details@,
                    source: source@,
                },
            ),
            old(self)@.wf() ==> final(self)@.wf(),
    {
        let event = SecurityEvent { event_type, timestamp_ms: now_ms, details, source };
        self.events.push(event);
        let n = self.events.len();
        if n > 1000 {
            let mut kept: Vec<SecurityEvent> = Vec::new();
            let mut i: usize = 100;
            while i < n
                invariant
                    n == self.events@.len(),
                    100 <= i <= n,
                    kept@.len() == i - 100,
                    forall|j: int| 0 <= j < i - 100 ==> #[trigger] kept@[j]@ == self.events@[j + 100]@,
                decreases n - i,
            {
                let e = self.events[i].clone_event();
                kept.push(e);
                i = i + 1;
            }
            self.events = kept;
            proof {
                assert(self@.attempts =~= old(self)@.attempts);
                assert(self@.events =~= log_after(
                    old(self)@.events,
                    SecurityEventModel {
                        event_type,
                        timestamp_ms: now_ms,
                        details: details@,
                        source: source@,
                    },
                ));
            }
        } else {
            proof {
                assert(self@.attempts =~= old(self)@.attempts);
                assert(self@.events =~= log_after(
                    old(self)@.events,
                    SecurityEventModel {
                        event_type,
                        timestamp_ms: now_ms,
                        details: details@,
                        source: source@,
                    },
                ));
            }
        }
    }

    /// The recorded events, oldest first.
    pub fn get_security_audit(&self) -> (r: Vec<SecurityEvent>)
        ensures
            r@.len() == self@.events.len(),
            forall|i: int| 0 <= i < r@.len() ==> #[trigger] r@[i]@ == self@.events[i],
    {
        let n = self.events.len();
        let mut out: Vec<SecurityEvent> = Vec::new();
        let mut i: usize = 0;
        while i < n
            invariant
                n == self.events@.len(),
                i <= n,
                out@.len() == i,
                forall|j: int| 0 <= j < i ==> #[trigger] out@[j]@ == self.events@[j]@,
            decreases n - i,
        {
            let e = self.events[i].clone_event();
            out.push(e);
            i = i + 1;
        }
        out
    }

    /// Validate an access request under the wall clock and rate-limit it:
    /// the exact arithmetic is that of [`Self::validate_access_at`].
    pub fn validate_access(&mut self, requester: &str) -> (r: Result<(), ConnectionError>)
        requires
            old(self)@.wf(),
        ensures
            final(self)@.wf(),
            exists|now_ms: u64|
                #[trigger] access_outcome(
                    old(self)@,
                    final(self)@,
                    requester@,
                    requester.spec_bytes(),
                    r is Ok,
                    now_ms,
                ),
    {
        let now = clock::now_millis();
        let r = self.validate_access_at(requester, now);
        proof {
            assert(access_outcome(
                old(self)@,
                self@,
                requester@,
                requester.spec_bytes(),
                r is Ok,
                now,
            ));
        }
        r
    }

    /// Validate an access request at the given time: exactly
    /// [`access_outcome`] relates the state before and after to the
    /// verdict.
    pub fn validate_access_at(&mut self, requester: &str, now_ms: u64) -> (r: Result<
        (),
        ConnectionError,
    >)
        requires
            old(self)@.wf(),
        ensures
            final(self)@.wf(),
            access_outcome(
                old(self)@,
                final(self)@,
                requester@,
                requester.spec_bytes(),
                r is Ok,
                now_ms,
            ),
    {
        let n = requester.unicode_len();
        if n == 0 || n > 256 {
            self.log_security_event_at(
                SecurityEventType::InvalidRequest,
                String::from_str("Invalid requester identifier"),
                String::from_str(requester),
                now_ms,
            );
            return Err(ConnectionError::SecurityViolation(String::from_str("Invalid requester")));
        }
        let digest = sha256_digest(requester);
        let key = bytes_to_hex(&digest);
        let ghost keyv = key@;
        proof {
            assert(keyv == requester_key(requester.spec_bytes()));
        }
        let len = self.attempts.len();
        let mut idx: usize = 0;
        let mut found: bool = false;
        while idx < len
            invariant
                old(self)@.wf(),
                self@ == old(self)@,
                keyv == key@,
                len == self.attempts@.len(),
                idx <= len,
                !found ==> forall|j: int|
                    0 <= j < idx ==> (#[trigger] self@.attempts[j]).0 != keyv,
                found ==> idx < len && self@.attempts[idx as int].0 == keyv,
            ensures
                self@ == old(self)@,
                idx <= len,
                !found ==> forall|j: int|
                    0 <= j < len ==> (#[trigger] self@.attempts[j]).0 != keyv,
                found ==> idx < len && self@.attempts[idx as int].0 == keyv,
            decreases len - idx + (if found {
                0int
            } else {
                1int
            }),
        {
            if found {
                break ;
            }
            if self.attempts[idx].0.eq(&key) {
                found = true;
            } else {
                idx = idx + 1;
            }
        }
        proof {
            if !found {
                if exists|i: int|
                    0 <= i < self@.attempts.len() && (#[trigger] self@.attempts[i]).0 == keyv {
                    let w = choose|i: int|
                        0 <= i < self@.attempts.len() && (#[trigger] self@.attempts[i]).0 == keyv;
                }
                assert(old(self)@.attempts_of(keyv) =~= Seq::<u64>::empty());
            } else {
                assert(old(self)@.attempts_of(keyv) == self@.attempts[idx as int].1) by {
                    let w = choose|i: int|
                        0 <= i < self@.attempts.len() && (#[trigger] self@.attempts[i]).0 == keyv;
                    assert(old(self)@.wf());
                    if w != idx as int {
                        assert(self@.attempts[w].0 != self@.attempts[idx as int].0);
                    }
                }
            }
        }
        let window = self.time_window_ms;
        proof {
            assert(window > 0);
        }
        let mut pruned: Vec<u64> = Vec::new();
        if found {
            let old_list = &self.attempts[idx].1;
            let m = old_list.len();
            let mut i: usize = 0;
            while i < m
                invariant
                    window > 0,
                    m == old_list@.len(),
                    i <= m,
                    pruned@ == recent_of(old_list@.subrange(0, i as int), now_ms, window),
                decreases m - i,
            {
                let ghost pre = old_list@.subrange(0, i as int);
                let ghost cur = old_list@.subrange(0, i as int + 1);
                proof {
                    assert(cur.drop_last() =~= pre);
                    assert(cur.last() == old_list@[i as int]);
                }
                let t = old_list[i];
                let keep = if t >= now_ms {
                    true
                } else {
                    now_ms - t < window
                };
                proof {
                    assert(keep == attempt_recent(t, now_ms, window));
                }
                if keep {
                    pruned.push(t);
                }
                i = i + 1;
            }
            proof {
                assert(old_list@.subrange(0, m as int) =~= old_list@);
            }
        } else {
            proof {
                assert(pruned@ =~= recent_of(Seq::<u64>::empty(), now_ms, window));
            }
        }
        let ghost prunedv = pruned@;
        let current = pruned.len();
        let max = self.max_attempts;
        if current as u64 >= max {
            self.store_attempts(found, idx, key, pruned);
            proof {
                assert(self@.attempts == set_attempts(old(self)@.attempts, keyv, prunedv));
            }
            self.log_security_event_at(
                SecurityEventType::RateLimitExceeded,
                String::from_str("Rate limit exceeded for requester"),
                String::from_str(requester),
                now_ms,
            );
            return Err(
                ConnectionError::SecurityViolation(String::from_str("Rate limit exceeded")),
            );
        }
        pruned.push(now_ms);
        self.store_attempts(found, idx, key, pruned);
        Ok(())
    }

    /// Write back one requester's attempt list: replace it in place when an
    /// entry exists, append a fresh entry when none does.
    fn store_attempts(&mut self, found: bool, idx: usize, key: String, ts: Vec<u64>)
        requires
            old(self)@.wf(),
            found ==> idx < old(self)@.attempts.len() && old(self)@.attempts[idx as int].0 == key@,
            !found ==> forall|j: int|
                0 <= j < old(self)@.attempts.len() ==> (#[trigger] old(self)@.attempts[j]).0
                    != key@,
        ensures
            final(self)@.wf(),
            final(self)@.attempts == set_attempts(old(self)@.attempts, key@, ts@),
            final(self)@.max_attempts == old(self)@.max_attempts,
            final(self)@.time_window_ms == old(self)@.time_window_ms,
            final(self)@.events == old(self)@.events,
    {
        if found {
            self.attempts.set(idx, (key, ts));
            proof {
                assert(exists|i: int|
                    0 <= i < old(self)@.attempts.len() && (#[trigger] old(
                        self,
                    )@.attempts[i]).0 == key@);
                let w = choose|i: int|
                    0 <= i < old(self)@.attempts.len() && (#[trigger] old(self)@.attempts[i]).0
                        == key@;
                if w != idx as int {
                    assert(old(self)@.attempts[w].0 != old(self)@.attempts[idx as int].0);
                }
                assert(self@.attempts =~= old(self)@.attempts.update(idx as int, (key@, ts@)));
                assert(self@.attempts =~= set_attempts(old(self)@.attempts, key@, ts@));
                assert forall|i: int, j: int|
                    #![trigger self@.attempts[i], self@.attempts[j]]
                    0 <= i < j < self@.attempts.len() implies self@.attempts[i].0
                    != self@.attempts[j].0 by {
                    assert(old(self)@.attempts[i].0 != old(self)@.attempts[j].0);
                    if i != idx as int {
                        assert(self@.attempts[i] == old(self)@.attempts[i]);
                    }
                    if j != idx as int {
                        assert(self@.attempts[j] == old(self)@.attempts[j]);
                    }
                }
                assert(self@.events =~= old(self)@.events);
            }
        } else {
            self.attempts.push((key, ts));
            proof {
                if exists|i: int|
                    0 <= i < old(self)@.attempts.len() && (#[trigger] old(
                        self,
                    )@.attempts[i]).0 == key@ {
                    let w = choose|i: int|
                        0 <= i < old(self)@.attempts.len() && (#[trigger] old(
                            self,
                        )@.attempts[i]).0 == key@;
                }
                assert(self@.attempts =~= old(self)@.attempts.push((key@, ts@)));
                assert(self@.attempts =~= set_attempts(old(self)@.attempts, key@, ts@));
                assert forall|i: int, j: int|
                    #![trigger self@.attempts[i], self@.attempts[j]]
                    0 <= i < j < self@.attempts.len() implies self@.attempts[i].0
                    != self@.attempts[j].0 by {
                    if j < old(self)@.attempts.len() {
                        assert(old(self)@.attempts[i].0 != old(self)@.attempts[j].0);
                    } else {
                        assert(self@.attempts[i] == old(self)@.attempts[i]);
                        assert(self@.attempts[j].0 == key@);
                    }
                }
                assert(self@.events =~= old(self)@.events);
            }
        }
    }
}

/// One requester's attempt list replaced (or created) in the table.
pub open spec fn set_attempts(
    attempts: Seq<(Seq<char>, Seq<u64>)>,
    key: Seq<char>,
    ts: Seq<u64>,
) -> Seq<(Seq<char>, Seq<u64>)> {
    if exists|i: int| 0 <= i < attempts.len() && (#[trigger] attempts[i]).0 == key {
        attempts.update(
            choose|i: int| 0 <= i < attempts.len() && (#[trigger] attempts[i]).0 == key,
            (key, ts),
        )
    } else {
        attempts.push((key, ts))
    }
}

// ---------------------------------------------------------------------------
// Memory-scraping heuristics
// ---------------------------------------------------------------------------
/// ASCII case folding: uppercase letters to lowercase, all else as is.
pub open spec fn ascii_fold(c: char) -> char {
    if c == 'A' {
        'a'
    } else if c == 'B' {
        'b'
    } else if c == 'C' {
        'c'
    } else if c == 'D' {
        'd'
    } else if c == 'E' {
        'e'
    } else if c == 'F' {
        'f'
    } else if c == 'G' {
        'g'
    } else if c == 'H' {
        'h'
    } else if c == 'I' {
        'i'
    } else if c == 'J' {
        'j'
    } else if c == 'K' {
        'k'
    } else if c == 'L' {
        'l'
    } else if c == 'M' {
        'm'
    } else if c == 'N' {
        'n'
    } else if c == 'O' {
        'o'
    } else if c == 'P' {
        'p'
    } else if c == 'Q' {
        'q'
    } else if c == 'R' {
        'r'
    } else if c == 'S' {
        's'
    } else if c == 'T' {
        't'
    } else if c == 'U' {
        'u'
    } else if c == 'V' {
        'v'
    } else if c == 'W' {
        'w'
    } else if c == 'X' {
        'x'
    } else if c == 'Y' {
        'y'
    } else if c == 'Z' {
        'z'
    } else {
        c
    }
}

/// A sequence folded to ASCII lowercase.
pub open spec fn fold_seq(s: Seq<char>) -> Seq<char> {
    s.map_values(|c: char| ascii_fold(c))
}

/// `p` stands somewhere in `s`.
pub open spec fn contains_sub(s: Seq<char>, p: Seq<char>) -> bool {
    exists|i: int| 0 <= i && i + p.len() <= s.len() && #[trigger] s.subrange(i, i + p.len()) == p
}

/// How many distinct characters a sequence holds.
pub open spec fn distinct_count(s: Seq<char>) -> int
    decreases s.len(),
{
    if s.len() == 0 {
        0
    } else {
        distinct_count(s.drop_last()) + (if s.drop_last().contains(s.last()) {
            0int
        } else {
            1int
        })
    }
}

/// The access pattern smells of memory scraping: a suspicious keyword
/// (case-insensitively), a high request frequency, or a long pattern of
/// very few distinct characters.
pub open spec fn scraping_suspect(pattern: Seq<char>, frequency: Option<u64>) -> bool {
    ||| contains_sub(fold_seq(pattern), "rapid"@)
    ||| contains_sub(fold_seq(pattern), "bulk"@)
    ||| contains_sub(fold_seq(pattern), "dump"@)
    ||| contains_sub(fold_seq(pattern), "extract"@)
    ||| contains_sub(fold_seq(pattern), "scrape"@)
    ||| contains_sub(fold_seq(pattern), "harvest"@)
    ||| contains_sub(fold_seq(pattern), "batch"@)
    ||| (frequency matches Some(f) && f > 10)
    ||| (pattern.len() > 10 && distinct_count(pattern) < 5)
}

/// Fold one character to ASCII lowercase.
fn fold_char(c: char) -> (r: char)
    ensures
        r == ascii_fold(c),
{
    if c == 'A' {
        'a'
    } else if c == 'B' {
        'b'
    } else if c == 'C' {
        'c'
    } else if c == 'D' {
        'd'
    } else if c == 'E' {
        'e'
    } else if c == 'F' {
        'f'
    } else if c == 'G' {
        'g'
    } else if c == 'H' {
        'h'
    } else if c == 'I' {
        'i'
    } else if c == 'J' {
        'j'
    } else if c == 'K' {
        'k'
    } else if c == 'L' {
        'l'
    } else if c == 'M' {
        'm'
    } else if c == 'N' {
        'n'
    } else if c == 'O' {
        'o'
    } else if c == 'P' {
        'p'
    } else if c == 'Q' {
        'q'
    } else if c == 'R' {
        'r'
    } else if c == 'S' {
        's'
    } else if c == 'T' {
        't'
    } else if c == 'U' {
        'u'
    } else if c == 'V' {
        'v'
    } else if c == 'W' {
        'w'
    } else if c == 'X' {
        'x'
    } else if c == 'Y' {
        'y'
    } else if c == 'Z' {
        'z'
    } else {
        c
    }
}

/// Fold a string to ASCII lowercase.
pub(crate) fn fold_str(s: &str) -> (r: String)
    ensures
        r@ == fold_seq(s@),
{
    let n = s.unicode_len();
    let mut out = String::new();
    let mut i: usize = 0;
    while i < n
        invariant
            n == s@.len(),
            i <= n,
            out@ == fold_seq(s@.subrange(0, i as int)),
        decreases n - i,
    {
        let c = s.get_char(i);
        push_char(&mut out, fold_char(c));
        proof {
            assert(s@.subrange(0, i as int + 1) =~= s@.subrange(0, i as int).push(c));
            assert(out@ =~= fold_seq(s@.subrange(0, i as int + 1)));
        }
        i = i + 1;
    }
    proof {
        assert(s@.subrange(0, n as int) =~= s@);
    }
    out
}

/// Whether `pat` stands somewhere in `hay`.
pub(crate) fn str_contains(hay: &str, pat: &str) -> (r: bool)
    ensures
        r == contains_sub(hay@, pat@),
{
    let n = hay.unicode_len();
    let m = pat.unicode_len();
    if m > n {
        return false;
    }
    if m == 0 {
        proof {
            assert(hay@.subrange(0, 0 + pat@.len() as int) =~= pat@);
        }
        return true;
    }
    let mut i: usize = 0;
    while i <= n - m
        invariant
            n == hay@.len(),
            m == pat@.len(),
            1 <= m <= n,
            i <= n - m + 1,
            forall|k: int|
                0 <= k < i ==> #[trigger] hay@.subrange(k, k + m as int) != pat@,
        decreases n - m - i + 1,
    {
        let mut j: usize = 0;
        let mut all_eq: bool = true;
        while j < m
            invariant
                n == hay@.len(),
                m == pat@.len(),
                i + m <= n,
                j <= m,
                all_eq ==> forall|k: int| 0 <= k < j ==> hay@[i + k] == pat@[k],
                !all_eq ==> hay@.subrange(i as int, i as int + m as int) != pat@,
            decreases m - j,
        {
            if hay.get_char(i + j) != pat.get_char(j) {
                proof {
                    assert(hay@.subrange(i as int, i as int + m as int)[j as int] == hay@[i + j]);
                }
                all_eq = false;
                j = m;
            } else {
                j = j + 1;
            }
        }
        if all_eq {
            proof {
                assert(hay@.subrange(i as int, i as int + m as int) =~= pat@);
            }
            return true;
        }
        i = i + 1;
    }
    proof {
        if contains_sub(hay@, pat@) {
            let w = choose|k: int|
                0 <= k && k + pat@.len() <= hay@.len() && #[trigger] hay@.subrange(
                    k,
                    k + pat@.len(),
                ) == pat@;
        }
    }
    false
}

/// Whether a vector of characters holds one.
fn vec_has_char(v: &Vec<char>, c: char) -> (r: bool)
    ensures
        r == v@.contains(c),
{
    let n = v.len();
    let mut i: usize = 0;
    while i < n
        invariant
            n == v@.len(),
            i <= n,
            forall|j: int| 0 <= j < i ==> v@[j] != c,
        decreases n - i,
    {
        if v[i] == c {
            return true;
        }
        i = i + 1;
    }
    proof {
        if v@.contains(c) {
            let w = choose|j: int| 0 <= j < v@.len() && v@[j] == c;
        }
    }
    false
}

/// Count the distinct characters of a string.
fn count_distinct(s: &str) -> (r: usize)
    ensures
        r as int == distinct_count(s@),
{
    let n = s.unicode_len();
    let mut seen: Vec<char> = Vec::new();
    let mut i: usize = 0;
    while i < n
        invariant
            n == s@.len(),
            i <= n,
            seen@.len() as int == distinct_count(s@.subrange(0, i as int)),
            forall|c: char| #[trigger] seen@.contains(c) <==> s@.subrange(0, i as int).contains(c),
        decreases n - i,
    {
        let ghost pre = s@.subrange(0, i as int);
        let ghost cur = s@.subrange(0, i as int + 1);
        let c = s.get_char(i);
        proof {
            assert(cur.drop_last() =~= pre);
            assert(cur.last() == c);
        }
        let ghost seen0 = seen@;
        let present = vec_has_char(&seen, c);
        if !present {
            seen.push(c);
        }
        proof {
            assert forall|d: char| #[trigger] seen@.contains(d) implies cur.contains(d) by {
                let k = choose|k: int| 0 <= k < seen@.len() && seen@[k] == d;
                if k < seen0.len() {
                    assert(seen0[k] == d);
                    assert(seen0.contains(d));
                    assert(pre.contains(d));
                    let k2 = choose|k2: int| 0 <= k2 < pre.len() && pre[k2] == d;
                    assert(cur[k2] == d);
                } else {
                    assert(d == c);
                    assert(cur[i as int] == c);
                }
            }
            assert forall|d: char| cur.contains(d) implies #[trigger] seen@.contains(d) by {
                let k = choose|k: int| 0 <= k < cur.len() && cur[k] == d;
                if k < pre.len() {
                    assert(pre[k] == d);
                    assert(pre.contains(d));
                    assert(seen0.contains(d));
                    let k3 = choose|k3: int| 0 <= k3 < seen0.len() && seen0[k3] == d;
                    assert(seen@[k3] == d);
                } else {
                    assert(d == c);
                    if present {
                        assert(pre.contains(c));
                        assert(seen0.contains(c));
                        let k4 = choose|k4: int| 0 <= k4 < seen0.len() && seen0[k4] == c;
                        assert(seen@[k4] == d);
                    } else {
                        assert(seen@[seen0.len() as int] == c);
                    }
                }
            }
            assert(present == pre.contains(c));
        }
        i = i + 1;
    }
    proof {
        assert(s@.subrange(0, n as int) =~= s@);
    }
    seen.len()
}

/// Decide whether an access pattern smells of memory scraping, from the
/// pattern text and the observed request frequency in requests per second.
pub fn detect_memory_scraping(pattern: &str, frequency: Option<u64>) -> (r: bool)
    ensures
        r == scraping_suspect(pattern@, frequency),
{
    let folded = fold_str(pattern);
    if str_contains(folded.as_str(), "rapid") || str_contains(folded.as_str(), "bulk")
        || str_contains(folded.as_str(), "dump") || str_contains(folded.as_str(), "extract")
        || str_contains(folded.as_str(), "scrape") || str_contains(folded.as_str(), "harvest")
        || str_contains(folded.as_str(), "batch") {
        return true;
    }
    match frequency {
        Some(f) => {
            if f > 10 {
                return true;
            }
        },
        None => {},
    }
    if pattern.unicode_len() > 10 {
        let distinct = count_distinct(pattern);
        if distinct < 5 {
            return true;
        }
    }
    false
}

// ---------------------------------------------------------------------------
// Secure credential manager
// ---------------------------------------------------------------------------
/// A control character other than tab, newline and carriage return: not
/// allowed in passwords.
pub open spec fn bad_control(c: char) -> bool {
    &&& (c as u32) < 32 || (127 <= (c as u32) < 160)
    &&& c != '\t'
    &&& c != '\n'
    &&& c != '\r'
}

/// A password the manager refuses outright: too short, too long, or
/// carrying a null byte or a stray control character.
pub open spec fn password_rejected(p: Seq<char>) -> bool {
    ||| p.len() < 8
    ||| p.len() > 1024
    ||| crate::config::has_char(p, '\u{0}')
    ||| exists|i: int| 0 <= i < p.len() && bad_control(#[trigger] p[i])
}

/// A password accepted but worth a warning: short, or without a digit.
pub open spec fn password_weak(p: Seq<char>) -> bool {
    p.len() < 12 || !(exists|i: int|
        0 <= i < p.len() && '0' <= #[trigger] p[i] && p[i] <= '9')
}

/// Mathematical model of the credential manager.
pub ghost struct CredentialManagerState {
    pub threat: ThreatModelState,
    pub service_prefix: Seq<char>,
}

/// Credential handling under the threat model.  Storing, retrieving and
/// deleting secrets live in the OS keychain and are the embedding
/// runtime's part; the rules about what may be stored, and the audit
/// trail, live here.
#[derive(Debug)]
pub struct SecureCredentialManager {
    threat_model: ThreatModel,
    service_prefix: String,
}

impl View for SecureCredentialManager {
    type V = CredentialManagerState;

    closed spec fn view(&self) -> CredentialManagerState {
        CredentialManagerState { threat: self.threat_model@, service_prefix: self.service_prefix@ }
    }
}

impl SecureCredentialManager {
    /// A fresh manager with its own threat model.
    pub fn new() -> (r: Self)
        ensures
            r@.threat.wf(),
            r@.threat.attempts.len() == 0,
            r@.threat.events.len() == 0,
            r@.service_prefix == "symbiotic-analysis-db"@,
    {
        SecureCredentialManager {
            threat_model: ThreatModel::new(),
            service_prefix: String::from_str("symbiotic-analysis-db"),
        }
    }

    /// Check a password against the storage rules: refused exactly when
    /// [`password_rejected`] holds; a weak one passes, with a
    /// `SuspiciousPattern` warning appended to the event log.
    pub fn validate_credential_security(&mut self, password: &str) -> (r: Result<
        (),
        ConnectionError,
    >)
        requires
            old(self)@.threat.wf(),
        ensures
            final(self)@.threat.wf(),
            final(self)@.service_prefix == old(self)@.service_prefix,
            final(self)@.threat.attempts == old(self)@.threat.attempts,
            r is Ok <==> !password_rejected(password@),
            password_rejected(password@) ==> final(self)@ == old(self)@,
            (!password_rejected(password@) && !password_weak(password@)) ==> final(self)@ == old(
                self,
            )@,
            (!password_rejected(password@) && password_weak(password@)) ==> exists|ts: u64|
                final(self)@.threat.events == #[trigger] log_after(
                    old(self)@.threat.events,
                    SecurityEventModel {
                        event_type: SecurityEventType::SuspiciousPattern,
                        timestamp_ms: ts,
                        details: "Weak password detected"@,
                        source: "credential_validator"@,
                    },
                ),
    {
        let n = password.unicode_len();
        if n < 8 {
            return Err(
                ConnectionError::SecurityViolation(
                    String::from_str("Password must be at least 8 characters long"),
                ),
            );
        }
        if n > 1024 {
            return Err(
                ConnectionError::SecurityViolation(
                    String::from_str("Password exceeds maximum allowed length"),
                ),
            );
        }
        let mut has_digit: bool = false;
        let mut i: usize = 0;
        while i < n
            invariant
                old(self)@.threat.wf(),
                self@ == old(self)@,
                n == password@.len(),
                i <= n,
                forall|j: int| 0 <= j < i ==> #[trigger] password@[j] != '\u{0}',
                forall|j: int| 0 <= j < i ==> !bad_control(#[trigger] password@[j]),
                has_digit == exists|j: int|
                    0 <= j < i && '0' <= #[trigger] password@[j] && password@[j] <= '9',
            decreases n - i,
        {
            let c = password.get_char(i);
            let code = c as u32;
            if c == '\0' {
                return Err(
                    ConnectionError::SecurityViolation(
                        String::from_str("Password contains invalid characters"),
                    ),
                );
            }
            if (code < 32 || (127 <= code && code < 160)) && c != '\t' && c != '\n' && c
                != '\r' {
                return Err(
                    ConnectionError::SecurityViolation(
                        String::from_str("Password contains invalid characters"),
                    ),
                );
            }
            if c >= '0' && c <= '9' {
                has_digit = true;
            }
            i = i + 1;
        }
        proof {
            if crate::config::has_char(password@, '\u{0}') {
                let w = choose|j: int| 0 <= j < password@.len() && password@[j] == '\u{0}';
            }
            if exists|j: int| 0 <= j < password@.len() && bad_control(#[trigger] password@[j]) {
                let w = choose|j: int|
                    0 <= j < password@.len() && bad_control(#[trigger] password@[j]);
            }
        }
        if n < 12 || !has_digit {
            self.threat_model.log_security_event(
                SecurityEventType::SuspiciousPattern,
                String::from_str("Weak password detected"),
                String::from_str("credential_validator"),
            );
        }
        Ok(())
    }

    /// A digest of connection data for change detection: the base64 form
    /// of its SHA-256 digest.
    pub fn generate_connection_hash(&self, connection_data: &str) -> (r: String)
        ensures
            r@ == base64_of(sha256_of(connection_data.spec_bytes())),
    {
        let digest = sha256_digest(connection_data);
        base64_encode(&digest)
    }

    /// The threat model, for monitoring.
    pub fn get_threat_model(&self) -> (r: &ThreatModel)
        ensures
            r@ == self@.threat,
    {
        &self.threat_model
    }

    /// The recorded security events, oldest first.
    pub fn security_audit(&self) -> (r: Vec<SecurityEvent>)
        ensures
            r@.len() == self@.threat.events.len(),
            forall|i: int| 0 <= i < r@.len() ==> #[trigger] r@[i]@ == self@.threat.events[i],
    {
        self.threat_model.get_security_audit()
    }
}

} // verus!
