//! The session registry and the heartbeat monitor.
//!
//! One live session per endpoint, one endpoint per session id; a session id
//! is never reused within the life of the process. The monitor increments a
//! per-session missed-beat counter each period and reports every session
//! whose counter crosses the disconnect threshold.

use vstd::prelude::*;
use crate::rng::{random_name_tag, random_u64};

verus! {

/// How often the heartbeat monitor sweeps, in milliseconds.
pub const HEARTBEAT_PERIOD_MS: u64 = 200;

/// How long a session may stay silent before it is disconnected, in milliseconds.
pub const DISCONNECT_DEADLINE_MS: u64 = 5000;

/// Missed sweeps after which a session is reported dead: the deadline
/// divided by the monitor period.
pub const MISSED_BEAT_LIMIT: u32 = 25;

/// One connected player: identity, transport binding, display name and
/// liveness counter.
pub struct Session {
    /// Process-unique identifier, assigned on connect and never reused.
    pub id: u128,
    /// Token for the transport endpoint the player connected from.
    pub endpoint: u64,
    /// The player's display name.
    pub name: String,
    /// Sweeps since the last heartbeat was received.
    pub missed_beats: u32,
}

/// The lifecycle position of a session id.
#[derive(Clone, Copy, PartialEq, Eq, Structural, Debug)]
pub enum SessionState {
    /// A handshake has begun but no session is registered yet.
    Connecting,
    /// The id belongs to a live session in the registry.
    Connected,
    /// The id is not (or no longer) bound to a live session.
    Disconnected,
}

/// Some session in `s` carries `id`.
pub open spec fn has_id(s: Seq<Session>, id: u128) -> bool {
    exists|i: int| 0 <= i < s.len() && s[i].id == id
}

/// The index of the session carrying `id`.
pub open spec fn id_index(s: Seq<Session>, id: u128) -> int {
    choose|i: int| 0 <= i < s.len() && s[i].id == id
}

/// Some session in `s` is bound to `endpoint`.
pub open spec fn has_endpoint(s: Seq<Session>, endpoint: u64) -> bool {
    exists|i: int| 0 <= i < s.len() && s[i].endpoint == endpoint
}

/// No two sessions share an id.
pub open spec fn unique_ids(s: Seq<Session>) -> bool {
    forall|i: int, j: int| 0 <= i < j < s.len() ==> s[i].id != s[j].id
}

/// No two sessions share an endpoint.
pub open spec fn unique_endpoints(s: Seq<Session>) -> bool {
    forall|i: int, j: int| 0 <= i < j < s.len() ==> s[i].endpoint != s[j].endpoint
}

/// The serial half of a session id: its low 64 bits.
pub open spec fn low_bits(id: u128) -> int {
    (id as int) % 0x1_0000_0000_0000_0000
}

/// The counter after one more missed sweep; it saturates rather than wraps.
pub open spec fn inc_sat(m: u32) -> u32 {
    if m < 0xffff_ffffu32 {
        (m + 1) as u32
    } else {
        m
    }
}

/// Whether the coming sweep reports this session dead.
pub open spec fn timed_out(s: Session) -> bool {
    inc_sat(s.missed_beats) >= MISSED_BEAT_LIMIT
}

/// The session with its liveness counter reset by a received heartbeat.
pub open spec fn zero_beats(s: Session) -> Session {
    Session { missed_beats: 0, ..s }
}

/// The session after one sweep incremented its counter.
pub open spec fn bump_beats(s: Session) -> Session {
    Session { missed_beats: inc_sat(s.missed_beats), ..s }
}

/// Every session after one sweep.
pub open spec fn bump_all(s: Seq<Session>) -> Seq<Session> {
    Seq::new(s.len(), |i: int| bump_beats(s[i]))
}

/// The ids a sweep of `s` reports dead, in registry order.
pub open spec fn timed_ids(s: Seq<Session>) -> Seq<u128>
    decreases s.len(),
{
    if s.len() == 0 {
        Seq::empty()
    } else {
        let rest = timed_ids(s.drop_last());
        if timed_out(s.last()) {
            rest.push(s.last().id)
        } else {
            rest
        }
    }
}

/// What `touch_heartbeat` does to the session list.
pub open spec fn spec_touch(s: Seq<Session>, id: u128) -> Seq<Session> {
    if has_id(s, id) {
        s.update(id_index(s, id), zero_beats(s[id_index(s, id)]))
    } else {
        s
    }
}

/// What `disconnect` does to the session list.
pub open spec fn spec_remove_id(s: Seq<Session>, id: u128) -> Seq<Session> {
    if has_id(s, id) {
        s.remove(id_index(s, id))
    } else {
        s
    }
}

/// The registry of live sessions.
pub struct Registry {
    /// The live sessions, in connect order.
    pub sessions: Vec<Session>,
    /// Serial number the next connect will fold into its session id.
    pub next_serial: u64,
}

impl Registry {
    /// Registry invariant: ids and endpoints are unique, and every live id
    /// carries a serial below the next one to be handed out.
    pub open spec fn wf(self) -> bool {
        &&& unique_ids(self.sessions@)
        &&& unique_endpoints(self.sessions@)
        &&& forall|i: int|
            0 <= i < self.sessions@.len() ==> low_bits(#[trigger] self.sessions@[i].id)
                < self.next_serial
    }

    /// Whether `id` belongs to a live session.
    pub open spec fn spec_live(self, id: u128) -> bool {
        has_id(self.sessions@, id)
    }

    /// The lifecycle state of an id, as the registry sees it.
    pub open spec fn state_of(self, id: u128) -> SessionState {
        if self.spec_live(id) {
            SessionState::Connected
        } else {
            SessionState::Disconnected
        }
    }

    /// An empty registry.
    pub fn new() -> (r: Registry)
        ensures
            r.wf(),
            r.sessions@.len() == 0,
            r.next_serial == 0,
    {
        Registry { sessions: Vec::new(), next_serial: 0 }
    }

    /// Registers a new session on `endpoint` in state `Connected`, under a
    /// fresh id that no live session has ever shared, with a zeroed
    /// heartbeat counter. A requested name is kept; an absent one is
    /// synthesized as `Player #<tag>` with a random tag below 10000.
    pub fn connect(&mut self, endpoint: u64, requested_name: Option<String>) -> (id: u128)
        requires
            old(self).wf(),
            !has_endpoint(old(self).sessions@, endpoint),
            old(self).next_serial < 0xffff_ffff_ffff_ffffu64,
            old(self).sessions@.len() < usize::MAX,
        ensures
            final(self).wf(),
            !has_id(old(self).sessions@, id),
            low_bits(id) == old(self).next_serial as int,
            final(self).spec_live(id),
            final(self).next_serial == old(self).next_serial + 1,
            final(self).sessions@.len() == old(self).sessions@.len() + 1,
            final(self).sessions@ == old(self).sessions@.push(final(self).sessions@.last()),
            ({
                let s = final(self).sessions@.last();
                &&& s.id == id
                &&& s.endpoint == endpoint
                &&& s.missed_beats == 0
                &&& match requested_name {
                    Some(n) => s.name == n,
                    None => exists|k: int|
                        1 <= k < 10000 && s.name@ == #[trigger] spec_player_name(k),
                }
            }),
    {
        let ghost s0 = self.sessions@;
        let hi = random_u64();
        let id: u128 = (hi as u128) * 0x1_0000_0000_0000_0000u128 + (self.next_serial as u128);
        proof {
            vstd::arithmetic::div_mod::lemma_mod_multiples_vanish(
                hi as int,
                self.next_serial as int,
                0x1_0000_0000_0000_0000,
            );
            vstd::arithmetic::div_mod::lemma_small_mod(
                self.next_serial as nat,
                0x1_0000_0000_0000_0000,
            );
            assert(low_bits(id) == self.next_serial as int);
            assert forall|i: int| 0 <= i < s0.len() implies (#[trigger] s0[i]).id != id by {
                assert(low_bits(s0[i].id) < self.next_serial);
            };
            assert(!has_id(s0, id));
            assert forall|i: int| 0 <= i < s0.len() implies (#[trigger] s0[i]).endpoint
                != endpoint by {
                if s0[i].endpoint == endpoint {
                    assert(has_endpoint(s0, endpoint));
                }
            };
        }
        let ghost mut tag_used: int = 0;
        let name: String = match requested_name {
            Some(n) => n,
            None => {
                let tag = random_name_tag();
                let n = synth_player_name(tag);
                proof {
                    tag_used = tag as int;
                }
                n
            },
        };
        let session = Session { id, endpoint, name, missed_beats: 0 };
        self.sessions.push(session);
        self.next_serial = self.next_serial + 1;
        proof {
            let s1 = self.sessions@;
            assert(s1 == s0.push(s1.last()));
            assert(unique_ids(s1)) by {
                assert forall|a: int, b: int| 0 <= a < b < s1.len() implies (#[trigger] s1[a]).id
                    != (#[trigger] s1[b]).id by {
                    if b == s0.len() {
                        assert(s1[a] == s0[a]);
                        assert(s0[a].id != id);
                    } else {
                        assert(s1[a] == s0[a] && s1[b] == s0[b]);
                    }
                };
            };
            assert(unique_endpoints(s1)) by {
                assert forall|a: int, b: int| 0 <= a < b < s1.len() implies (
                #[trigger] s1[a]).endpoint != (#[trigger] s1[b]).endpoint by {
                    if b == s0.len() {
                        assert(s1[a] == s0[a]);
                        assert(s0[a].endpoint != endpoint);
                    } else {
                        assert(s1[a] == s0[a] && s1[b] == s0[b]);
                    }
                };
            };
            assert forall|i: int| 0 <= i < s1.len() implies low_bits(#[trigger] s1[i].id)
                < self.next_serial by {
                if i < s0.len() {
                    assert(s1[i] == s0[i]);
                }
            };
            if requested_name is None {
                assert(s1.last().name@ == spec_player_name(tag_used));
            }
        }
        id
    }

    /// The live session bound to `endpoint`, if any.
    #[verifier::loop_isolation(false)]
    pub fn find_by_endpoint(&self, endpoint: u64) -> (r: Option<u128>)
        ensures
            match r {
                Some(id) => exists|i: int|
                    0 <= i < self.sessions@.len() && (#[trigger] self.sessions@[i]).endpoint
                        == endpoint && self.sessions@[i].id == id,
                None => !has_endpoint(self.sessions@, endpoint),
            },
    {
        let mut i: usize = 0;
        while i < self.sessions.len()
            invariant
                i <= self.sessions@.len(),
                forall|j: int| 0 <= j < i ==> (#[trigger] self.sessions@[j]).endpoint != endpoint,
            decreases self.sessions@.len() - i,
        {
            if self.sessions[i].endpoint == endpoint {
                return Some(self.sessions[i].id);
            }
            i = i + 1;
        }
        None
    }

    /// Resets the missed-beat counter of `id` to zero. Unknown ids are a
    /// no-op, not an error: the heartbeat may have raced with a disconnect,
    /// and in particular a heartbeat can never resurrect a removed session.
    #[verifier::loop_isolation(false)]
    pub fn touch_heartbeat(&mut self, id: u128)
        requires
            old(self).wf(),
        ensures
            final(self).wf(),
            final(self).next_serial == old(self).next_serial,
            final(self).sessions@ == spec_touch(old(self).sessions@, id),
    {
        let ghost s0 = self.sessions@;
        let mut i: usize = 0;
        while i < self.sessions.len()
            invariant
                self.sessions@ == s0,
                self.next_serial == old(self).next_serial,
                i <= s0.len(),
                forall|j: int| 0 <= j < i ==> (#[trigger] s0[j]).id != id,
            decreases s0.len() - i,
        {
            if self.sessions[i].id == id {
                let mut sess = self.sessions.remove(i);
                sess.missed_beats = 0;
                self.sessions.insert(i, sess);
                proof {
                    assert(s0[i as int].id == id);
                    assert(has_id(s0, id));
                    assert(id_index(s0, id) == i) by {
                        let w = id_index(s0, id);
                        assert(0 <= w < s0.len() && s0[w].id == id);
                        if w < i as int {
                            assert(s0[w].id != id);
                        } else if w > i as int {
                            assert(s0[i as int].id != s0[w].id);
                        }
                    };
                    assert(self.sessions@ =~= spec_touch(s0, id));
                    let s1 = self.sessions@;
                    assert forall|j: int| 0 <= j < s1.len() implies (#[trigger] s1[j]).id
                        == s0[j].id && s1[j].endpoint == s0[j].endpoint by {
                        if j != i as int {
                            assert(s1[j] == s0[j]);
                        }
                    };
                }
                return ;
            }
            i = i + 1;
        }
        proof {
            assert(!has_id(s0, id));
        }
    }

    /// Removes the session carrying `id` together with its heartbeat
    /// counter; removing an unknown id is a no-op, so the call is idempotent.
    #[verifier::loop_isolation(false)]
    pub fn disconnect(&mut self, id: u128)
        requires
            old(self).wf(),
        ensures
            final(self).wf(),
            final(self).next_serial == old(self).next_serial,
            final(self).sessions@ == spec_remove_id(old(self).sessions@, id),
            !final(self).spec_live(id),
    {
        let ghost s0 = self.sessions@;
        let mut i: usize = 0;
        while i < self.sessions.len()
            invariant
                self.sessions@ == s0,
                self.next_serial == old(self).next_serial,
                i <= s0.len(),
                forall|j: int| 0 <= j < i ==> (#[trigger] s0[j]).id != id,
            decreases s0.len() - i,
        {
            if self.sessions[i].id == id {
                self.sessions.remove(i);
                proof {
                    assert(s0[i as int].id == id);
                    assert(has_id(s0, id));
                    assert(id_index(s0, id) == i) by {
                        let w = id_index(s0, id);
                        assert(0 <= w < s0.len() && s0[w].id == id);
                        if w < i as int {
                            assert(s0[w].id != id);
                        } else if w > i as int {
                            assert(s0[i as int].id != s0[w].id);
                        }
                    };
                    assert(self.sessions@ =~= spec_remove_id(s0, id));
                    let s1 = self.sessions@;
                    assert forall|k: int| 0 <= k < s1.len() implies (#[trigger] s1[k]).id
                        != id by {
                        if k < i {
                        } else {
                            assert(s1[k] == s0[k + 1]);
                        }
                    };
                    assert(unique_ids(s1)) by {
                        assert forall|a: int, b: int| 0 <= a < b < s1.len() implies (
                        #[trigger] s1[a]).id != (#[trigger] s1[b]).id by {
                            let a2: int = if a < i as int { a } else { a + 1 };
                            let b2: int = if b < i as int { b } else { b + 1 };
                            assert(s1[a] == s0[a2] && s1[b] == s0[b2]);
                        };
                    };
                    assert(unique_endpoints(s1)) by {
                        assert forall|a: int, b: int| 0 <= a < b < s1.len() implies (
                        #[trigger] s1[a]).endpoint != (#[trigger] s1[b]).endpoint by {
                            let a2: int = if a < i as int { a } else { a + 1 };
                            let b2: int = if b < i as int { b } else { b + 1 };
                            assert(s1[a] == s0[a2] && s1[b] == s0[b2]);
                        };
                    };
                    assert forall|k: int| 0 <= k < s1.len() implies low_bits(
                        #[trigger] s1[k].id,
                    ) < self.next_serial by {
                        let k2: int = if k < i as int { k } else { k + 1 };
                        assert(s1[k] == s0[k2]);
                    };
                }
                return ;
            }
            i = i + 1;
        }
        proof {
            assert(!has_id(s0, id));
        }
    }

    /// A read-only snapshot of the live sessions, for broadcast fan-out.
    pub fn iter_live(&self) -> (r: &Vec<Session>)
        ensures
            r@ == self.sessions@,
    {
        &self.sessions
    }

    /// One monitor sweep: increments every session's missed-beat counter and
    /// returns the ids whose post-increment counter has reached the limit,
    /// in registry order. The registry itself removes nothing here; the
    /// disconnect handler does, so the list is not mutated while iterated.
    #[verifier::loop_isolation(false)]
    pub fn sweep(&mut self) -> (out: Vec<u128>)
        requires
            old(self).wf(),
        ensures
            final(self).wf(),
            final(self).next_serial == old(self).next_serial,
            final(self).sessions@ == bump_all(old(self).sessions@),
            out@ == timed_ids(old(self).sessions@),
    {
        let ghost s0 = self.sessions@;
        let mut out: Vec<u128> = Vec::new();
        let mut i: usize = 0;
        while i < self.sessions.len()
            invariant
                self.sessions@.len() == s0.len(),
                self.next_serial == old(self).next_serial,
                i <= s0.len(),
                forall|j: int| 0 <= j < i ==> self.sessions@[j] == bump_beats(#[trigger] s0[j]),
                forall|j: int| i <= j < s0.len() ==> self.sessions@[j] == #[trigger] s0[j],
                out@ == timed_ids(s0.take(i as int)),
            decreases s0.len() - i,
        {
            let mut sess = self.sessions.remove(i);
            let ghost before = sess;
            let new_m: u32 = if sess.missed_beats < 0xffff_ffffu32 {
                sess.missed_beats + 1
            } else {
                sess.missed_beats
            };
            if new_m >= MISSED_BEAT_LIMIT {
                out.push(sess.id);
            }
            sess.missed_beats = new_m;
            self.sessions.insert(i, sess);
            proof {
                assert(s0.take(i + 1).drop_last() =~= s0.take(i as int));
                assert(s0.take(i + 1).last() == s0[i as int]);
                assert(out@ == timed_ids(s0.take(i + 1)));
                assert(self.sessions@[i as int] == bump_beats(s0[i as int]));
            }
            i = i + 1;
        }
        proof {
            assert(s0.take(s0.len() as int) =~= s0);
            assert(self.sessions@ =~= bump_all(s0));
            let s1 = self.sessions@;
            assert forall|j: int| 0 <= j < s1.len() implies (#[trigger] s1[j]).id == s0[j].id
                && s1[j].endpoint == s0[j].endpoint by {
                assert(s1[j] == bump_beats(s0[j]));
            };
        }
        out
    }
}

/// The character for one decimal digit.
pub open spec fn digit_char(d: int) -> char
    recommends
        0 <= d <= 9,
{
    (48 + d) as char
}

/// The decimal digits of a non-negative number, most significant first.
pub open spec fn spec_decimal(n: int) -> Seq<char>
    recommends
        n >= 0,
    decreases n,
{
    if n <= 9 {
        seq![digit_char(n)]
    } else {
        spec_decimal(n / 10).push(digit_char(n % 10))
    }
}

/// The display name synthesized for a player that requested none.
pub open spec fn spec_player_name(k: int) -> Seq<char> {
    "Player #"@ + spec_decimal(k)
}

/// The one-character string for a decimal digit.
fn digit_literal(d: u32) -> (r: &'static str)
    requires
        d <= 9,
    ensures
        r@ =~= seq![digit_char(d as int)],
{
    proof {
        reveal_strlit("0");
        reveal_strlit("1");
        reveal_strlit("2");
        reveal_strlit("3");
        reveal_strlit("4");
        reveal_strlit("5");
        reveal_strlit("6");
        reveal_strlit("7");
        reveal_strlit("8");
        reveal_strlit("9");
    }
    match d {
        0u32 => "0",
        1u32 => "1",
        2u32 => "2",
        3u32 => "3",
        4u32 => "4",
        5u32 => "5",
        6u32 => "6",
        7u32 => "7",
        8u32 => "8",
        _ => "9",
    }
}

/// The decimal rendering of a number, as a string.
fn decimal_string(n: u32) -> (s: String)
    ensures
        s@ == spec_decimal(n as int),
    decreases n,
{
    if n <= 9 {
        let mut s = String::new();
        s.append(digit_literal(n));
        proof {
            assert(s@ =~= spec_decimal(n as int));
        }
        s
    } else {
        let mut s = decimal_string(n / 10);
        s.append(digit_literal(n % 10));
        proof {
            assert(s@ =~= spec_decimal(n as int));
        }
        s
    }
}

/// The synthesized display name `Player #<tag>`.
fn synth_player_name(tag: u32) -> (s: String)
    requires
        1 <= tag < 10000,
    ensures
        s@ == spec_player_name(tag as int),
{
    let mut s = String::from_str("Player #");
    let d = decimal_string(tag);
    s.append(d.as_str());
    proof {
        assert(s@ =~= spec_player_name(tag as int));
    }
    s
}

/// The sweep report names an id exactly when some session carrying it has
/// crossed the missed-beat limit.
pub proof fn lemma_timed_ids_contains(s: Seq<Session>, id: u128)
    ensures
        timed_ids(s).contains(id) <==> exists|i: int|
            0 <= i < s.len() && (#[trigger] s[i]).id == id && timed_out(s[i]),
    decreases s.len(),
{
    if s.len() == 0 {
    } else {
        lemma_timed_ids_contains(s.drop_last(), id);
        let n = s.len() - 1;
        let rest = timed_ids(s.drop_last());
        if timed_ids(s).contains(id) {
            let w = choose|w: int| 0 <= w < timed_ids(s).len() && timed_ids(s)[w] == id;
            if timed_out(s.last()) && w == rest.len() {
                assert(s[n].id == id && timed_out(s[n]));
            } else {
                assert(rest[w] == id);
                assert(rest.contains(id));
                let i = choose|i: int|
                    0 <= i < s.drop_last().len() && (#[trigger] s.drop_last()[i]).id == id
                        && timed_out(s.drop_last()[i]);
                assert(s.drop_last()[i] == s[i]);
                assert(s[i].id == id && timed_out(s[i]));
            }
        }
        if exists|i: int| 0 <= i < s.len() && (#[trigger] s[i]).id == id && timed_out(s[i]) {
            let i = choose|i: int|
                0 <= i < s.len() && (#[trigger] s[i]).id == id && timed_out(s[i]);
            if i == n {
                assert(timed_ids(s) == rest.push(id));
                assert(rest.push(id)[rest.len() as int] == id);
                assert(timed_ids(s).contains(id));
            } else {
                assert(s.drop_last()[i] == s[i]);
                assert(s.drop_last()[i].id == id && timed_out(s.drop_last()[i]));
                assert(rest.contains(id));
                let w = choose|w: int| 0 <= w < rest.len() && rest[w] == id;
                if timed_out(s.last()) {
                    assert(rest.push(s.last().id)[w] == id);
                    assert(timed_ids(s).contains(id));
                } else {
                    assert(timed_ids(s) == rest);
                }
            }
        }
    }
}

/// A session whose heartbeat arrived since the previous sweep (so its
/// counter stands at zero) is not reported dead by the coming sweep, and
/// leaves that sweep with a counter of one: heartbeats every period keep a
/// session alive forever.
pub proof fn lemma_prompt_heartbeat_survives(s: Seq<Session>, i: int)
    requires
        unique_ids(s),
        0 <= i < s.len(),
        s[i].missed_beats == 0,
    ensures
        !timed_ids(s).contains(s[i].id),
        bump_all(s)[i].missed_beats == 1,
{
    lemma_timed_ids_contains(s, s[i].id);
    assert forall|j: int| 0 <= j < s.len() && (#[trigger] s[j]).id == s[i].id implies !timed_out(
        s[j],
    ) by {
        if j < i {
            assert(s[j].id != s[i].id);
        } else if j > i {
            assert(s[i].id != s[j].id);
        }
    };
}

/// One full period, composed: a session whose heartbeat arrives and is
/// processed before the period's sweep — as the tick loop guarantees — is
/// not reported dead by that sweep and leaves it with a single missed beat.
/// Iterating this, a session that heartbeats every period is never
/// disconnected.
pub proof fn lemma_heartbeat_each_period(s: Seq<Session>, id: u128)
    requires
        unique_ids(s),
        has_id(s, id),
    ensures
        !timed_ids(spec_touch(s, id)).contains(id),
        bump_all(spec_touch(s, id))[id_index(s, id)].missed_beats == 1,
        bump_all(spec_touch(s, id))[id_index(s, id)].id == id,
{
    let t = spec_touch(s, id);
    let i = id_index(s, id);
    assert(0 <= i < s.len() && s[i].id == id);
    assert(t[i].missed_beats == 0 && t[i].id == id);
    assert forall|j: int| 0 <= j < t.len() implies (#[trigger] t[j]).id == s[j].id by {
        if j != i {
            assert(t[j] == s[j]);
        }
    };
    assert(unique_ids(t));
    lemma_prompt_heartbeat_survives(t, i);
}

/// A session that has stayed silent long enough that one more missed beat
/// meets the limit is reported dead by the coming sweep: a silent session is
/// disconnected within one period of crossing the deadline.
pub proof fn lemma_silent_session_reported(s: Seq<Session>, i: int)
    requires
        0 <= i < s.len(),
        s[i].missed_beats + 1 >= MISSED_BEAT_LIMIT,
    ensures
        timed_ids(s).contains(s[i].id),
{
    lemma_timed_ids_contains(s, s[i].id);
}

/// Connecting, disconnecting the new session, then touching its heartbeat
/// leaves the registry exactly as the disconnect left it — equal to the
/// state before the connect — so a late heartbeat never resurrects a
/// session.
pub proof fn lemma_connect_disconnect_touch(s: Seq<Session>, n: Session)
    requires
        unique_ids(s),
        !has_id(s, n.id),
    ensures
        spec_remove_id(s.push(n), n.id) == s,
        spec_touch(spec_remove_id(s.push(n), n.id), n.id) == spec_remove_id(s.push(n), n.id),
{
    let t = s.push(n);
    assert(t[s.len() as int].id == n.id);
    assert(has_id(t, n.id));
    let w = id_index(t, n.id);
    assert(0 <= w < t.len() && t[w].id == n.id);
    assert(w == s.len()) by {
        if w < s.len() {
            assert(s[w].id == n.id);
            assert(false);
        }
    };
    assert(spec_remove_id(t, n.id) =~= s);
    assert(!has_id(s, n.id));
}

} // verus!
