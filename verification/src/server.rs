//! The authoritative server core: routes each decoded inbound event to the
//! session registry or the cast/hit path, and produces the exact datagrams
//! to send back — a reply to the connecting endpoint, or a fan-out over the
//! live sessions. The transport only delivers what this module decides.

use vstd::prelude::*;
use crate::projectile::ProjectileRecord;
use crate::protocol::{Cast, ClientEventModel, EventToClient, EventToServer};
use crate::registry::{
    bump_all, has_endpoint, has_id, id_index, Registry, Session, spec_player_name, spec_remove_id,
    spec_touch, timed_ids,
};
use crate::resolver::{has_bullet, ProjectileStore, unique_bullet_ids};

verus! {

/// One datagram to hand to the transport: which endpoint, which event.
pub struct Send {
    /// The recipient's endpoint token.
    pub endpoint: u64,
    /// The event to serialize into the datagram.
    pub event: EventToClient,
}

/// A string-free event the server relays to many recipients at once.
#[derive(Clone, Copy, PartialEq, Eq, Structural, Debug)]
pub enum RelayEvent {
    /// A session ended.
    Disconnected { id: u128 },
    /// A session cast something.
    SomeoneCast { caster: u128, cast_id: u64, cast: Cast },
    /// A bullet hit a player.
    BulletHit { bullet: u64, player: u128 },
}

impl RelayEvent {
    /// The protocol event this relay stands for.
    pub open spec fn model(self) -> ClientEventModel {
        match self {
            RelayEvent::Disconnected { id } => ClientEventModel::PlayerDisconnected { id },
            RelayEvent::SomeoneCast { caster, cast_id, cast } => ClientEventModel::SomeoneCast {
                caster,
                cast_id,
                cast,
            },
            RelayEvent::BulletHit { bullet, player } => ClientEventModel::BulletHit {
                bullet,
                player,
            },
        }
    }

    /// Builds the protocol event this relay stands for.
    pub fn to_event(self) -> (e: EventToClient)
        ensures
            e@ == self.model(),
    {
        match self {
            RelayEvent::Disconnected { id } => EventToClient::PlayerDisconnected { id },
            RelayEvent::SomeoneCast { caster, cast_id, cast } => EventToClient::SomeoneCast {
                caster,
                cast_id,
                cast,
            },
            RelayEvent::BulletHit { bullet, player } => EventToClient::BulletHit { bullet, player },
        }
    }
}

/// The abstract value of a send list: recipient endpoints and event values.
pub open spec fn sends_view(s: Seq<Send>) -> Seq<(u64, ClientEventModel)> {
    s.map_values(|x: Send| (x.endpoint, x.event@))
}

/// One send of `ev` to every live session, in registry order, skipping the
/// excluded session if one is given.
pub open spec fn spec_fanout(
    live: Seq<Session>,
    ev: ClientEventModel,
    exclude: Option<u128>,
) -> Seq<(u64, ClientEventModel)>
    decreases live.len(),
{
    if live.len() == 0 {
        Seq::empty()
    } else {
        let rest = spec_fanout(live.drop_last(), ev, exclude);
        if exclude == Some(live.last().id) {
            rest
        } else {
            rest.push((live.last().endpoint, ev))
        }
    }
}

/// The session list after removing every id in `ids`, in order.
pub open spec fn remove_ids(s: Seq<Session>, ids: Seq<u128>) -> Seq<Session>
    decreases ids.len(),
{
    if ids.len() == 0 {
        s
    } else {
        remove_ids(spec_remove_id(s, ids[0]), ids.skip(1))
    }
}

/// One disconnect broadcast per removed id, each fanned out to the sessions
/// that remain live after all removals.
pub open spec fn spec_disconnect_sends(live: Seq<Session>, ids: Seq<u128>) -> Seq<
    (u64, ClientEventModel),
>
    decreases ids.len(),
{
    if ids.len() == 0 {
        Seq::empty()
    } else {
        spec_fanout(live, ClientEventModel::PlayerDisconnected { id: ids[0] }, None)
            + spec_disconnect_sends(live, ids.skip(1))
    }
}

/// The id of the session bound to `endpoint`.
pub open spec fn endpoint_id(s: Seq<Session>, endpoint: u64) -> u128 {
    s[choose|i: int| 0 <= i < s.len() && s[i].endpoint == endpoint].id
}

/// A shot a client may request: speed and coordinates within the model's
/// range, and a direction to travel in.
pub open spec fn shot_params_ok(p: crate::protocol::ShotParams) -> bool {
    ProjectileRecord {
        id: 0,
        caster: 0,
        origin: p.origin,
        target: p.target,
        speed: p.speed,
        kind: p.kind,
        spawn_ms: 0,
    }.wf()
}

/// The authoritative server state: the session registry and the projectile
/// records spawned by accepted casts.
pub struct ServerCore {
    /// The live sessions.
    pub registry: Registry,
    /// Projectiles spawned by accepted shoot casts.
    pub projectiles: ProjectileStore,
    /// The id the next accepted cast will take.
    pub next_cast_serial: u64,
}

impl ServerCore {
    /// The registry and store invariants, and every tracked projectile id
    /// lies below the next cast serial.
    pub open spec fn wf(self) -> bool {
        &&& self.registry.wf()
        &&& self.projectiles.wf()
        &&& forall|i: int|
            0 <= i < self.projectiles.records@.len() ==> (
            #[trigger] self.projectiles.records@[i]).id < self.next_cast_serial
    }

    /// A fresh server with no sessions and no projectiles.
    pub fn new() -> (r: ServerCore)
        ensures
            r.wf(),
            r.registry.sessions@.len() == 0,
            r.projectiles.records@.len() == 0,
    {
        ServerCore {
            registry: Registry::new(),
            projectiles: ProjectileStore::new(),
            next_cast_serial: 0,
        }
    }

    /// Room for one more session: ids and slots are not exhausted.
    pub open spec fn can_accept_session(self) -> bool {
        self.registry.next_serial < 0xffff_ffff_ffff_ffffu64 && self.registry.sessions@.len()
            < usize::MAX
    }

    /// Room for one more cast id.
    pub open spec fn can_accept_cast(self) -> bool {
        self.next_cast_serial < 0xffff_ffff_ffff_ffffu64 && self.projectiles.records@.len()
            < usize::MAX
    }
}

/// Builds one send of `ev` per live session, skipping `exclude`.
#[verifier::loop_isolation(false)]
fn fan_out(live: &Vec<Session>, ev: RelayEvent, exclude: Option<u128>) -> (out: Vec<Send>)
    ensures
        sends_view(out@) == spec_fanout(live@, ev.model(), exclude),
{
    let mut out: Vec<Send> = Vec::new();
    let mut i: usize = 0;
    while i < live.len()
        invariant
            i <= live@.len(),
            sends_view(out@) == spec_fanout(live@.take(i as int), ev.model(), exclude),
        decreases live@.len() - i,
    {
        let skip = match exclude {
            Some(x) => live[i].id == x,
            None => false,
        };
        if !skip {
            let e = ev.to_event();
            out.push(Send { endpoint: live[i].endpoint, event: e });
        }
        proof {
            assert(live@.take(i as int + 1).drop_last() =~= live@.take(i as int));
            assert(live@.take(i as int + 1).last() == live@[i as int]);
            assert(sends_view(out@) =~= spec_fanout(live@.take(i as int + 1), ev.model(), exclude));
        }
        i = i + 1;
    }
    proof {
        assert(live@.take(live@.len() as int) =~= live@);
    }
    out
}

/// What handling a connect request does: any session already bound to the
/// endpoint is gone, a fresh session for it exists under a never-used id
/// with the requested or a synthesized name, and the one reply tells the
/// connecting endpoint its id and final name. A server out of session ids
/// drops the request.
pub open spec fn connect_post(
    o: ServerCore,
    n: ServerCore,
    origin: u64,
    requested_name: Option<String>,
    out: Seq<Send>,
) -> bool {
    &&& n.projectiles == o.projectiles
    &&& n.next_cast_serial == o.next_cast_serial
    &&& {
        let s0 = o.registry.sessions@;
        let cleared = spec_remove_endpoint(s0, origin);
        if !o.can_accept_session() {
            n == o && out.len() == 0
        } else {
            let s1 = n.registry.sessions@;
            let added = s1.last();
            &&& s1 == cleared.push(added)
            &&& added.endpoint == origin
            &&& added.missed_beats == 0
            &&& !has_id(s0, added.id)
            &&& match requested_name {
                Some(req) => added.name == req,
                None => exists|k: int|
                    1 <= k < 10000 && added.name@ == #[trigger] spec_player_name(k),
            }
            &&& sends_view(out) =~= seq![
                (
                    origin,
                    ClientEventModel::WorldData { your_id: added.id, your_name: added.name@ },
                ),
            ]
        }
    }
}

/// What handling a heartbeat does: a known sender's missed-beat counter is
/// reset, an unknown sender changes nothing, and nothing is sent.
pub open spec fn heartbeat_post(o: ServerCore, n: ServerCore, origin: u64, out: Seq<Send>) -> bool {
    &&& n.projectiles == o.projectiles
    &&& n.next_cast_serial == o.next_cast_serial
    &&& n.registry.next_serial == o.registry.next_serial
    &&& out.len() == 0
    &&& {
        let s0 = o.registry.sessions@;
        if has_endpoint(s0, origin) {
            n.registry.sessions@ == spec_touch(s0, endpoint_id(s0, origin))
        } else {
            n.registry.sessions@ == s0
        }
    }
}

/// What handling a cast request does: a cast from a known session gets the
/// next cast id and is sent to every other live session; a shoot cast also
/// spawns the projectile record, stamped with the current clock. Casts from
/// unknown endpoints, out-of-range shots, and casts on a server out of cast
/// ids are dropped.
pub open spec fn cast_post(
    o: ServerCore,
    n: ServerCore,
    origin: u64,
    cast: Cast,
    now_ms: u64,
    out: Seq<Send>,
) -> bool {
    &&& n.registry == o.registry
    &&& {
        let s0 = o.registry.sessions@;
        let accepted = has_endpoint(s0, origin) && o.can_accept_cast() && (match cast {
            Cast::Teleport { .. } => true,
            Cast::Shoot { params } => shot_params_ok(params),
        });
        if !accepted {
            n == o && out.len() == 0
        } else {
            let caster = endpoint_id(s0, origin);
            let cast_id = o.next_cast_serial;
            &&& n.next_cast_serial == o.next_cast_serial + 1
            &&& sends_view(out) == spec_fanout(
                s0,
                ClientEventModel::SomeoneCast { caster, cast_id, cast },
                Some(caster),
            )
            &&& match cast {
                Cast::Teleport { .. } => n.projectiles == o.projectiles,
                Cast::Shoot { params } => n.projectiles.records@ == o.projectiles.records@.push(
                    ProjectileRecord {
                        id: cast_id,
                        caster,
                        origin: params.origin,
                        target: params.target,
                        speed: params.speed,
                        kind: params.kind,
                        spawn_ms: now_ms,
                    },
                ),
            }
        }
    }
}

/// What handling a hit report does: the server state never changes; a
/// report from a known session about a tracked bullet is relayed to every
/// live session, anything else is dropped.
pub open spec fn hit_post(
    o: ServerCore,
    n: ServerCore,
    origin: u64,
    bullet: u64,
    victim: u128,
    out: Seq<Send>,
) -> bool {
    &&& n == o
    &&& {
        let s0 = o.registry.sessions@;
        if has_endpoint(s0, origin) && has_bullet(o.projectiles.records@, bullet) {
            sends_view(out) == spec_fanout(
                s0,
                ClientEventModel::BulletHit { bullet, player: victim },
                None,
            )
        } else {
            out.len() == 0
        }
    }
}

impl ServerCore {
    /// Handles a connect request: any session already bound to the endpoint
    /// is dropped first, then a fresh session is registered and the new
    /// player is told its id and final display name. A server out of
    /// session ids drops the request.
    pub fn handle_connect(&mut self, origin: u64, requested_name: Option<String>) -> (out: Vec<
        Send,
    >)
        requires
            old(self).wf(),
        ensures
            final(self).wf(),
            connect_post(*old(self), *final(self), origin, requested_name, out@),
    {
        if !(self.registry.next_serial < 0xffff_ffff_ffff_ffffu64 && self.registry.sessions.len()
            < usize::MAX) {
            return Vec::new();
        }
        let ghost s0 = self.registry.sessions@;
        match self.registry.find_by_endpoint(origin) {
            Some(prev) => {
                self.registry.disconnect(prev);
                proof {
                    lemma_remove_by_endpoint(s0, origin, prev);
                }
            },
            None => {
                proof {
                    assert(spec_remove_endpoint(s0, origin) == s0);
                }
            },
        }
        let id = self.registry.connect(origin, requested_name);
        proof {
            assert forall|i2: int| 0 <= i2 < s0.len() implies (#[trigger] s0[i2]).id != id by {
                assert(crate::registry::low_bits(s0[i2].id) < old(self).registry.next_serial);
            };
            assert(!has_id(s0, id));
        }
        let idx = self.registry.sessions.len() - 1;
        let your_name = self.registry.sessions[idx].name.clone();
        let reply = EventToClient::WorldData { your_id: id, your_name };
        let mut out: Vec<Send> = Vec::new();
        out.push(Send { endpoint: origin, event: reply });
        proof {
            let added = self.registry.sessions@.last();
            assert(sends_view(out@) =~= seq![
                (
                    origin,
                    ClientEventModel::WorldData { your_id: added.id, your_name: added.name@ },
                ),
            ]);
        }
        out
    }

    /// Handles a heartbeat from an endpoint: resets the sender's missed-beat
    /// counter. A heartbeat from an unknown endpoint is dropped.
    pub fn handle_heartbeat(&mut self, origin: u64) -> (out: Vec<Send>)
        requires
            old(self).wf(),
        ensures
            final(self).wf(),
            heartbeat_post(*old(self), *final(self), origin, out@),
    {
        match self.registry.find_by_endpoint(origin) {
            Some(id) => {
                proof {
                    let s0 = self.registry.sessions@;
                    let w = choose|i: int|
                        0 <= i < s0.len() && s0[i].endpoint == origin && s0[i].id == id;
                    let v = choose|i: int| 0 <= i < s0.len() && s0[i].endpoint == origin;
                    assert(s0[w].endpoint == origin && s0[v].endpoint == origin);
                    assert(w == v);
                    assert(endpoint_id(s0, origin) == id);
                }
                self.registry.touch_heartbeat(id);
            },
            None => {},
        }
        Vec::new()
    }

    /// Handles a cast request: a cast from a known session gets a fresh cast
    /// id and is broadcast to every other live session; a shoot cast also
    /// spawns a projectile record stamped with the current clock. Casts
    /// from unknown endpoints, shots with out-of-range parameters, and
    /// casts on a server out of cast ids are dropped.
    pub fn handle_cast(&mut self, origin: u64, cast: &Cast, now_ms: u64) -> (out: Vec<Send>)
        requires
            old(self).wf(),
        ensures
            final(self).wf(),
            cast_post(*old(self), *final(self), origin, *cast, now_ms, out@),
    {
        let caster = match self.registry.find_by_endpoint(origin) {
            Some(id) => {
                proof {
                    let s0 = self.registry.sessions@;
                    let w = choose|i: int|
                        0 <= i < s0.len() && s0[i].endpoint == origin && s0[i].id == id;
                    let v = choose|i: int| 0 <= i < s0.len() && s0[i].endpoint == origin;
                    assert(s0[w].endpoint == origin && s0[v].endpoint == origin);
                    assert(w == v);
                    assert(endpoint_id(s0, origin) == id);
                }
                id
            },
            None => {
                return Vec::new();
            },
        };
        if !(self.next_cast_serial < 0xffff_ffff_ffff_ffffu64 && self.projectiles.records.len()
            < usize::MAX) {
            return Vec::new();
        }
        let params_ok = match cast {
            Cast::Teleport { .. } => true,
            Cast::Shoot { params } => {
                let p = ProjectileRecord {
                    id: 0,
                    caster: 0,
                    origin: params.origin,
                    target: params.target,
                    speed: params.speed,
                    kind: params.kind,
                    spawn_ms: 0,
                };
                p.range_ok()
            },
        };
        if !params_ok {
            return Vec::new();
        }
        let cast_id = self.next_cast_serial;
        self.next_cast_serial = self.next_cast_serial + 1;
        match cast {
            Cast::Teleport { .. } => {},
            Cast::Shoot { params } => {
                let rec = ProjectileRecord {
                    id: cast_id,
                    caster,
                    origin: params.origin,
                    target: params.target,
                    speed: params.speed,
                    kind: params.kind,
                    spawn_ms: now_ms,
                };
                proof {
                    if has_bullet(self.projectiles.records@, cast_id) {
                        let w = choose|i: int|
                            0 <= i < self.projectiles.records@.len()
                                && self.projectiles.records@[i].id == cast_id;
                        assert(self.projectiles.records@[w].id < cast_id);
                    }
                }
                self.projectiles.spawn(rec);
            },
        }
        let ev = RelayEvent::SomeoneCast { caster, cast_id, cast: *cast };
        fan_out(self.registry.iter_live(), ev, Some(caster))
    }

    /// Handles a hit report: a report from a known session about a tracked
    /// bullet is broadcast to every live session for client-side
    /// resolution; the server state does not change. Reports from unknown
    /// endpoints or about unknown bullets are dropped.
    pub fn handle_hit(&mut self, origin: u64, bullet: u64, victim: u128) -> (out: Vec<Send>)
        requires
            old(self).wf(),
        ensures
            final(self).wf(),
            hit_post(*old(self), *final(self), origin, bullet, victim, out@),
    {
        match self.registry.find_by_endpoint(origin) {
            Some(_) => {},
            None => {
                return Vec::new();
            },
        }
        match self.projectiles.caster_of(bullet) {
            Some(_) => {},
            None => {
                return Vec::new();
            },
        }
        let ev = RelayEvent::BulletHit { bullet, player: victim };
        fan_out(self.registry.iter_live(), ev, None)
    }

    /// Routes one decoded inbound event to its handler: the dispatch
    /// contract is the union of the four handlers' contracts, by event kind.
    pub fn handle_event(&mut self, origin: u64, event: EventToServer, now_ms: u64) -> (out: Vec<
        Send,
    >)
        requires
            old(self).wf(),
        ensures
            final(self).wf(),
            match event {
                EventToServer::ConnectRequest { name } => connect_post(
                    *old(self),
                    *final(self),
                    origin,
                    name,
                    out@,
                ),
                EventToServer::Heartbeat => heartbeat_post(*old(self), *final(self), origin, out@),
                EventToServer::CastRequest { cast } => cast_post(
                    *old(self),
                    *final(self),
                    origin,
                    cast,
                    now_ms,
                    out@,
                ),
                EventToServer::HitReport { bullet, victim } => hit_post(
                    *old(self),
                    *final(self),
                    origin,
                    bullet,
                    victim,
                    out@,
                ),
            },
    {
        match event {
            EventToServer::ConnectRequest { name } => self.handle_connect(origin, name),
            EventToServer::Heartbeat => self.handle_heartbeat(origin),
            EventToServer::CastRequest { cast } => self.handle_cast(origin, &cast, now_ms),
            EventToServer::HitReport { bullet, victim } => self.handle_hit(origin, bullet, victim),
        }
    }

    /// One heartbeat-monitor tick: every session's missed-beat counter is
    /// incremented; the sessions that crossed the limit are removed, and
    /// one disconnect broadcast per removed session goes to every session
    /// still live.
    #[verifier::loop_isolation(false)]
    pub fn sweep_tick(&mut self) -> (out: Vec<Send>)
        requires
            old(self).wf(),
        ensures
            final(self).wf(),
            final(self).projectiles == old(self).projectiles,
            final(self).next_cast_serial == old(self).next_cast_serial,
            ({
                let s0 = old(self).registry.sessions@;
                let timed = timed_ids(s0);
                &&& final(self).registry.sessions@ == remove_ids(bump_all(s0), timed)
                &&& sends_view(out@) == spec_disconnect_sends(
                    final(self).registry.sessions@,
                    timed,
                )
            }),
    {
        let dead = self.registry.sweep();
        let ghost bumped = self.registry.sessions@;
        let mut i: usize = 0;
        while i < dead.len()
            invariant
                i <= dead@.len(),
                self.registry.wf(),
                self.registry.next_serial == old(self).registry.next_serial,
                self.registry.sessions@ == remove_ids(bumped, dead@.take(i as int)),
                self.projectiles == old(self).projectiles,
                self.next_cast_serial == old(self).next_cast_serial,
            decreases dead@.len() - i,
        {
            self.registry.disconnect(dead[i]);
            proof {
                lemma_remove_ids_step(bumped, dead@, i as int);
            }
            i = i + 1;
        }
        proof {
            assert(dead@.take(dead@.len() as int) =~= dead@);
        }
        let ghost live = self.registry.sessions@;
        let mut out: Vec<Send> = Vec::new();
        let mut j: usize = 0;
        while j < dead.len()
            invariant
                j <= dead@.len(),
                self.registry.sessions@ == live,
                self.registry.wf(),
                self.registry.next_serial == old(self).registry.next_serial,
                self.projectiles == old(self).projectiles,
                self.next_cast_serial == old(self).next_cast_serial,
                sends_view(out@) == spec_disconnect_sends(live, dead@.take(j as int)),
            decreases dead@.len() - j,
        {
            let ev = RelayEvent::Disconnected { id: dead[j] };
            let mut sends = fan_out(self.registry.iter_live(), ev, None);
            out.append(&mut sends);
            proof {
                lemma_disconnect_sends_step(live, dead@, j as int);
                assert(sends_view(out@) =~= spec_disconnect_sends(
                    live,
                    dead@.take(j as int + 1),
                ));
            }
            j = j + 1;
        }
        proof {
            assert(dead@.take(dead@.len() as int) =~= dead@);
        }
        out
    }
}

/// What clearing an endpoint does to the session list.
pub open spec fn spec_remove_endpoint(s: Seq<Session>, endpoint: u64) -> Seq<Session> {
    if has_endpoint(s, endpoint) {
        s.remove(choose|i: int| 0 <= i < s.len() && s[i].endpoint == endpoint)
    } else {
        s
    }
}

/// Removing the session found by endpoint is removing that endpoint's
/// binding: the two removal paths agree.
proof fn lemma_remove_by_endpoint(s: Seq<Session>, endpoint: u64, id: u128)
    requires
        crate::registry::unique_ids(s),
        crate::registry::unique_endpoints(s),
        exists|i: int|
            0 <= i < s.len() && (#[trigger] s[i]).endpoint == endpoint && s[i].id == id,
    ensures
        spec_remove_id(s, id) == spec_remove_endpoint(s, endpoint),
{
    let w = choose|i: int|
        0 <= i < s.len() && (#[trigger] s[i]).endpoint == endpoint && s[i].id == id;
    assert(has_id(s, id));
    assert(has_endpoint(s, endpoint));
    let a = id_index(s, id);
    let b = choose|i: int| 0 <= i < s.len() && s[i].endpoint == endpoint;
    assert(0 <= a < s.len() && s[a].id == id);
    assert(0 <= b < s.len() && s[b].endpoint == endpoint);
    assert(a == w) by {
        if a < w {
            assert(s[a].id != s[w].id);
        } else if a > w {
            assert(s[w].id != s[a].id);
        }
    };
    assert(b == w) by {
        if b < w {
            assert(s[b].endpoint != s[w].endpoint);
        } else if b > w {
            assert(s[w].endpoint != s[b].endpoint);
        }
    };
}

/// Unfolds one step of `remove_ids` from the front.
proof fn lemma_remove_ids_step(s: Seq<Session>, ids: Seq<u128>, i: int)
    requires
        0 <= i < ids.len(),
    ensures
        remove_ids(s, ids.take(i + 1)) == spec_remove_id(remove_ids(s, ids.take(i)), ids[i]),
    decreases i,
{
    if i == 0 {
        assert(ids.take(0).len() == 0);
        assert(remove_ids(s, ids.take(0)) == s);
        let one = ids.take(1);
        assert(one.len() == 1 && one[0] == ids[0]);
        assert(one.skip(1).len() == 0);
        assert(remove_ids(spec_remove_id(s, ids[0]), one.skip(1)) == spec_remove_id(s, ids[0]));
    } else {
        let t1 = ids.take(i + 1);
        let t0 = ids.take(i);
        assert(t1.skip(1) =~= ids.skip(1).take(i));
        assert(t0.skip(1) =~= ids.skip(1).take(i - 1));
        assert(t1[0] == ids[0] && t0[0] == ids[0]);
        lemma_remove_ids_step(spec_remove_id(s, ids[0]), ids.skip(1), i - 1);
        assert(ids.skip(1)[i - 1] == ids[i]);
    }
}

/// Unfolds one step of the disconnect broadcast list from the front.
proof fn lemma_disconnect_sends_step(live: Seq<Session>, ids: Seq<u128>, i: int)
    requires
        0 <= i < ids.len(),
    ensures
        spec_disconnect_sends(live, ids.take(i + 1)) == spec_disconnect_sends(live, ids.take(i))
            + spec_fanout(live, ClientEventModel::PlayerDisconnected { id: ids[i] }, None),
    decreases i,
{
    if i == 0 {
        assert(ids.take(0).len() == 0);
        assert(spec_disconnect_sends(live, ids.take(0)) =~= Seq::<(u64, ClientEventModel)>::empty());
        let one = ids.take(1);
        assert(one.len() == 1 && one[0] == ids[0]);
        assert(one.skip(1).len() == 0);
        assert(spec_disconnect_sends(live, one.skip(1)) =~= Seq::<
            (u64, ClientEventModel),
        >::empty());
        assert(spec_disconnect_sends(live, one) =~= spec_fanout(
            live,
            ClientEventModel::PlayerDisconnected { id: ids[0] },
            None,
        ));
    } else {
        let t1 = ids.take(i + 1);
        let t0 = ids.take(i);
        assert(t1.skip(1) =~= ids.skip(1).take(i));
        assert(t0.skip(1) =~= ids.skip(1).take(i - 1));
        assert(t1[0] == ids[0] && t0[0] == ids[0]);
        lemma_disconnect_sends_step(live, ids.skip(1), i - 1);
        assert(ids.skip(1)[i - 1] == ids[i]);
        assert(spec_disconnect_sends(live, t1) =~= spec_disconnect_sends(live, t0) + spec_fanout(
            live,
            ClientEventModel::PlayerDisconnected { id: ids[i] },
            None,
        ));
    }
}

} // verus!
