//! The event protocol: the two closed event families exchanged between
//! client and server, and the envelope codec that carries one event per
//! datagram. Encoding is little-endian and self-delimiting: every envelope
//! decodes back to exactly the event it was made from, and decoding rejects
//! anything else.

use vstd::prelude::*;
use vstd::bytes::{
    spec_u128_from_le_bytes, spec_u128_to_le_bytes, spec_u64_from_le_bytes, spec_u64_to_le_bytes,
};
use vstd::utf8::{decode_utf8, encode_utf8, valid_utf8};
use crate::projectile::{Point, TrajectoryKind};

verus! {

/// Everything a shot needs to spawn a projectile record.
#[derive(Clone, Copy, PartialEq, Eq, Structural, Debug)]
pub struct ShotParams {
    /// Where the shot starts.
    pub origin: Point,
    /// Where the shot is aimed.
    pub target: Point,
    /// Travel speed, in fixed-point units per second.
    pub speed: i64,
    /// The flight path shape.
    pub kind: TrajectoryKind,
}

/// One cast a player can request.
#[derive(Clone, Copy, PartialEq, Eq, Structural, Debug)]
pub enum Cast {
    /// Move instantly to the target point.
    Teleport { target: Point },
    /// Fire a projectile.
    Shoot { params: ShotParams },
}

/// A malformed envelope: it decodes to no event and is dropped.
#[derive(Clone, Copy, PartialEq, Eq, Structural, Debug)]
pub struct DecodeError;

/// Events a client sends to the server.
#[derive(Debug)]
pub enum EventToServer {
    /// Opens a session; the name is optional and synthesized if absent.
    ConnectRequest { name: Option<String> },
    /// Liveness signal; resets the sender's missed-beat counter.
    Heartbeat,
    /// Asks the server to broadcast a cast on the sender's behalf.
    CastRequest { cast: Cast },
    /// Reports that a tracked bullet hit a player.
    HitReport { bullet: u64, victim: u128 },
}

/// Events the server sends to a client.
#[derive(Debug)]
pub enum EventToClient {
    /// Handshake reply: the new session's id and final display name.
    WorldData { your_id: u128, your_name: String },
    /// A session ended and should be despawned everywhere.
    PlayerDisconnected { id: u128 },
    /// Another session cast; carries everything needed to replay it.
    SomeoneCast { caster: u128, cast_id: u64, cast: Cast },
    /// A bullet hit a player.
    BulletHit { bullet: u64, player: u128 },
}

/// A client event over mathematical string values.
pub enum ServerEventModel {
    /// Opens a session; the name is optional and synthesized if absent.
    ConnectRequest { name: Option<Seq<char>> },
    /// Liveness signal; resets the sender's missed-beat counter.
    Heartbeat,
    /// Asks the server to broadcast a cast on the sender's behalf.
    CastRequest { cast: Cast },
    /// Reports that a tracked bullet hit a player.
    HitReport { bullet: u64, victim: u128 },
}

/// A server event over mathematical string values.
pub enum ClientEventModel {
    /// Handshake reply: the new session's id and final display name.
    WorldData { your_id: u128, your_name: Seq<char> },
    /// A session ended and should be despawned everywhere.
    PlayerDisconnected { id: u128 },
    /// Another session cast; carries everything needed to replay it.
    SomeoneCast { caster: u128, cast_id: u64, cast: Cast },
    /// A bullet hit a player.
    BulletHit { bullet: u64, player: u128 },
}

impl View for EventToServer {
    type V = ServerEventModel;

    open spec fn view(&self) -> ServerEventModel {
        match self {
            EventToServer::ConnectRequest { name } => ServerEventModel::ConnectRequest {
                name: match name {
                    Some(n) => Some(n@),
                    None => None,
                },
            },
            EventToServer::Heartbeat => ServerEventModel::Heartbeat,
            EventToServer::CastRequest { cast } => ServerEventModel::CastRequest { cast: *cast },
            EventToServer::HitReport { bullet, victim } => ServerEventModel::HitReport {
                bullet: *bullet,
                victim: *victim,
            },
        }
    }
}

impl View for EventToClient {
    type V = ClientEventModel;

    open spec fn view(&self) -> ClientEventModel {
        match self {
            EventToClient::WorldData { your_id, your_name } => ClientEventModel::WorldData {
                your_id: *your_id,
                your_name: your_name@,
            },
            EventToClient::PlayerDisconnected { id } => ClientEventModel::PlayerDisconnected {
                id: *id,
            },
            EventToClient::SomeoneCast { caster, cast_id, cast } => ClientEventModel::SomeoneCast {
                caster: *caster,
                cast_id: *cast_id,
                cast: *cast,
            },
            EventToClient::BulletHit { bullet, player } => ClientEventModel::BulletHit {
                bullet: *bullet,
                player: *player,
            },
        }
    }
}

/// A signed coordinate shifted into unsigned range for the wire.
pub open spec fn spec_bias(x: int) -> u64
    recommends
        -0x8000_0000_0000_0000 <= x < 0x8000_0000_0000_0000,
{
    (x + 0x8000_0000_0000_0000) as u64
}

/// The signed coordinate a wire value stands for.
pub open spec fn spec_unbias(v: u64) -> i64 {
    (v - 0x8000_0000_0000_0000) as i64
}

/// The wire form of a point: both coordinates biased, little-endian.
pub open spec fn spec_encode_point(p: Point) -> Seq<u8> {
    spec_u64_to_le_bytes(spec_bias(p.x as int)) + spec_u64_to_le_bytes(spec_bias(p.y as int))
}

/// The point a 16-byte wire form stands for.
pub open spec fn spec_decode_point(b: Seq<u8>) -> Point
    recommends
        b.len() == 16,
{
    Point {
        x: spec_unbias(spec_u64_from_le_bytes(b.subrange(0, 8))),
        y: spec_unbias(spec_u64_from_le_bytes(b.subrange(8, 16))),
    }
}

/// The wire tag of a trajectory kind.
pub open spec fn spec_encode_kind(k: TrajectoryKind) -> u8 {
    match k {
        TrajectoryKind::Direct => 0u8,
        TrajectoryKind::Wavy => 1u8,
        TrajectoryKind::WavySecondary => 2u8,
    }
}

/// The trajectory kind a wire tag stands for, if any.
pub open spec fn spec_decode_kind(t: u8) -> Option<TrajectoryKind> {
    if t == 0 {
        Some(TrajectoryKind::Direct)
    } else if t == 1 {
        Some(TrajectoryKind::Wavy)
    } else if t == 2 {
        Some(TrajectoryKind::WavySecondary)
    } else {
        None
    }
}

/// The wire form of a cast.
pub open spec fn spec_encode_cast(c: Cast) -> Seq<u8> {
    match c {
        Cast::Teleport { target } => seq![0u8] + spec_encode_point(target),
        Cast::Shoot { params } => seq![1u8] + spec_encode_point(params.origin)
            + spec_encode_point(params.target) + spec_u64_to_le_bytes(
            spec_bias(params.speed as int),
        ) + seq![spec_encode_kind(params.kind)],
    }
}

/// The cast a wire form stands for: defined exactly on complete encodings.
pub open spec fn spec_decode_cast(b: Seq<u8>) -> Option<Cast> {
    if b.len() < 1 {
        None
    } else if b[0] == 0 {
        if b.len() == 17 {
            Some(Cast::Teleport { target: spec_decode_point(b.subrange(1, 17)) })
        } else {
            None
        }
    } else if b[0] == 1 {
        if b.len() == 42 && spec_decode_kind(b[41]) is Some {
            Some(
                Cast::Shoot {
                    params: ShotParams {
                        origin: spec_decode_point(b.subrange(1, 17)),
                        target: spec_decode_point(b.subrange(17, 33)),
                        speed: spec_unbias(spec_u64_from_le_bytes(b.subrange(33, 41))),
                        kind: spec_decode_kind(b[41])->Some_0,
                    },
                },
            )
        } else {
            None
        }
    } else {
        None
    }
}

/// The wire form of a string: its UTF-8 byte length, then its UTF-8 bytes.
pub open spec fn spec_encode_name(s: Seq<char>) -> Seq<u8> {
    spec_u64_to_le_bytes(encode_utf8(s).len() as u64) + encode_utf8(s)
}

/// The string a wire form stands for: defined exactly on complete encodings.
pub open spec fn spec_decode_name(b: Seq<u8>) -> Option<Seq<char>> {
    if b.len() < 8 {
        None
    } else {
        let n = spec_u64_from_le_bytes(b.subrange(0, 8));
        let rest = b.skip(8);
        if rest.len() == n && valid_utf8(rest) {
            Some(decode_utf8(rest))
        } else {
            None
        }
    }
}

/// The envelope of a client-to-server event.
pub open spec fn spec_encode_server(m: ServerEventModel) -> Seq<u8> {
    match m {
        ServerEventModel::ConnectRequest { name } => match name {
            None => seq![1u8, 0u8],
            Some(n) => seq![1u8, 1u8] + spec_encode_name(n),
        },
        ServerEventModel::Heartbeat => seq![2u8],
        ServerEventModel::CastRequest { cast } => seq![3u8] + spec_encode_cast(cast),
        ServerEventModel::HitReport { bullet, victim } => seq![4u8] + spec_u64_to_le_bytes(bullet)
            + spec_u128_to_le_bytes(victim),
    }
}

/// The client-to-server event an envelope stands for, if it is one.
pub open spec fn spec_decode_server(b: Seq<u8>) -> Option<ServerEventModel> {
    if b.len() < 1 {
        None
    } else {
        let rest = b.skip(1);
        if b[0] == 1 {
            if rest.len() < 1 {
                None
            } else if rest[0] == 0 {
                if rest.len() == 1 {
                    Some(ServerEventModel::ConnectRequest { name: None })
                } else {
                    None
                }
            } else if rest[0] == 1 {
                match spec_decode_name(rest.skip(1)) {
                    Some(n) => Some(ServerEventModel::ConnectRequest { name: Some(n) }),
                    None => None,
                }
            } else {
                None
            }
        } else if b[0] == 2 {
            if rest.len() == 0 {
                Some(ServerEventModel::Heartbeat)
            } else {
                None
            }
        } else if b[0] == 3 {
            match spec_decode_cast(rest) {
                Some(c) => Some(ServerEventModel::CastRequest { cast: c }),
                None => None,
            }
        } else if b[0] == 4 {
            if rest.len() == 24 {
                Some(
                    ServerEventModel::HitReport {
                        bullet: spec_u64_from_le_bytes(rest.subrange(0, 8)),
                        victim: spec_u128_from_le_bytes(rest.subrange(8, 24)),
                    },
                )
            } else {
                None
            }
        } else {
            None
        }
    }
}

/// The envelope of a server-to-client event.
pub open spec fn spec_encode_client(m: ClientEventModel) -> Seq<u8> {
    match m {
        ClientEventModel::WorldData { your_id, your_name } => seq![1u8] + spec_u128_to_le_bytes(
            your_id,
        ) + spec_encode_name(your_name),
        ClientEventModel::PlayerDisconnected { id } => seq![2u8] + spec_u128_to_le_bytes(id),
        ClientEventModel::SomeoneCast { caster, cast_id, cast } => seq![3u8]
            + spec_u128_to_le_bytes(caster) + spec_u64_to_le_bytes(cast_id) + spec_encode_cast(
            cast,
        ),
        ClientEventModel::BulletHit { bullet, player } => seq![4u8] + spec_u64_to_le_bytes(bullet)
            + spec_u128_to_le_bytes(player),
    }
}

/// The server-to-client event an envelope stands for, if it is one.
pub open spec fn spec_decode_client(b: Seq<u8>) -> Option<ClientEventModel> {
    if b.len() < 1 {
        None
    } else {
        let rest = b.skip(1);
        if b[0] == 1 {
            if rest.len() < 16 {
                None
            } else {
                match spec_decode_name(rest.skip(16)) {
                    Some(n) => Some(
                        ClientEventModel::WorldData {
                            your_id: spec_u128_from_le_bytes(rest.subrange(0, 16)),
                            your_name: n,
                        },
                    ),
                    None => None,
                }
            }
        } else if b[0] == 2 {
            if rest.len() == 16 {
                Some(
                    ClientEventModel::PlayerDisconnected {
                        id: spec_u128_from_le_bytes(rest.subrange(0, 16)),
                    },
                )
            } else {
                None
            }
        } else if b[0] == 3 {
            if rest.len() < 24 {
                None
            } else {
                match spec_decode_cast(rest.skip(24)) {
                    Some(c) => Some(
                        ClientEventModel::SomeoneCast {
                            caster: spec_u128_from_le_bytes(rest.subrange(0, 16)),
                            cast_id: spec_u64_from_le_bytes(rest.subrange(16, 24)),
                            cast: c,
                        },
                    ),
                    None => None,
                }
            }
        } else if b[0] == 4 {
            if rest.len() == 24 {
                Some(
                    ClientEventModel::BulletHit {
                        bullet: spec_u64_from_le_bytes(rest.subrange(0, 8)),
                        player: spec_u128_from_le_bytes(rest.subrange(8, 24)),
                    },
                )
            } else {
                None
            }
        } else {
            None
        }
    }
}

/// The one bound the wire format imposes: a name's UTF-8 form must fit its
/// length field. Every `String` satisfies it, since its bytes fit memory.
pub open spec fn name_fits(s: Seq<char>) -> bool {
    encode_utf8(s).len() < 0x1_0000_0000_0000_0000
}

/// A client-to-server event representable on the wire.
pub open spec fn server_model_wf(m: ServerEventModel) -> bool {
    match m {
        ServerEventModel::ConnectRequest { name } => match name {
            Some(n) => name_fits(n),
            None => true,
        },
        _ => true,
    }
}

/// A server-to-client event representable on the wire.
pub open spec fn client_model_wf(m: ClientEventModel) -> bool {
    match m {
        ClientEventModel::WorldData { your_name, .. } => name_fits(your_name),
        _ => true,
    }
}

/// A point survives the trip onto the wire and back.
pub proof fn lemma_point_round_trip(p: Point)
    ensures
        spec_encode_point(p).len() == 16,
        spec_decode_point(spec_encode_point(p)) == p,
{
    vstd::bytes::lemma_auto_spec_u64_to_from_le_bytes();
    let e = spec_encode_point(p);
    assert(e.subrange(0, 8) =~= spec_u64_to_le_bytes(spec_bias(p.x as int)));
    assert(e.subrange(8, 16) =~= spec_u64_to_le_bytes(spec_bias(p.y as int)));
}

/// A cast survives the trip onto the wire and back.
pub proof fn lemma_cast_round_trip(c: Cast)
    ensures
        spec_decode_cast(spec_encode_cast(c)) == Some(c),
{
    vstd::bytes::lemma_auto_spec_u64_to_from_le_bytes();
    let e = spec_encode_cast(c);
    match c {
        Cast::Teleport { target } => {
            lemma_point_round_trip(target);
            assert(e.len() == 17);
            assert(e[0] == 0);
            assert(e.subrange(1, 17) =~= spec_encode_point(target));
        },
        Cast::Shoot { params } => {
            lemma_point_round_trip(params.origin);
            lemma_point_round_trip(params.target);
            assert(e.len() == 42);
            assert(e[0] == 1);
            assert(e.subrange(1, 17) =~= spec_encode_point(params.origin));
            assert(e.subrange(17, 33) =~= spec_encode_point(params.target));
            assert(e.subrange(33, 41) =~= spec_u64_to_le_bytes(spec_bias(params.speed as int)));
            assert(e[41] == spec_encode_kind(params.kind));
            assert(spec_decode_kind(spec_encode_kind(params.kind)) == Some(params.kind));
        },
    }
}

/// A name survives the trip onto the wire and back.
pub proof fn lemma_name_round_trip(s: Seq<char>)
    requires
        name_fits(s),
    ensures
        spec_decode_name(spec_encode_name(s)) == Some(s),
{
    vstd::bytes::lemma_auto_spec_u64_to_from_le_bytes();
    vstd::utf8::encode_utf8_valid_utf8(s);
    vstd::utf8::encode_utf8_decode_utf8(s);
    let e = spec_encode_name(s);
    let u = encode_utf8(s);
    assert(e.subrange(0, 8) =~= spec_u64_to_le_bytes(u.len() as u64));
    assert(e.skip(8) =~= u);
}

/// Every representable client-to-server event round-trips losslessly
/// through its envelope.
pub proof fn lemma_server_event_round_trip(m: ServerEventModel)
    requires
        server_model_wf(m),
    ensures
        spec_decode_server(spec_encode_server(m)) == Some(m),
{
    vstd::bytes::lemma_auto_spec_u64_to_from_le_bytes();
    vstd::bytes::lemma_auto_spec_u128_to_from_le_bytes();
    let e = spec_encode_server(m);
    match m {
        ServerEventModel::ConnectRequest { name } => {
            match name {
                None => {
                    assert(e =~= seq![1u8, 0u8]);
                    assert(e.skip(1).len() == 1 && e.skip(1)[0] == 0);
                },
                Some(n) => {
                    lemma_name_round_trip(n);
                    assert(e[0] == 1 && e.skip(1)[0] == 1);
                    assert(e.skip(1).skip(1) =~= spec_encode_name(n));
                },
            }
        },
        ServerEventModel::Heartbeat => {
            assert(e.len() == 1 && e[0] == 2);
            assert(e.skip(1).len() == 0);
        },
        ServerEventModel::CastRequest { cast } => {
            lemma_cast_round_trip(cast);
            assert(e[0] == 3);
            assert(e.skip(1) =~= spec_encode_cast(cast));
        },
        ServerEventModel::HitReport { bullet, victim } => {
            assert(e[0] == 4);
            assert(e.skip(1).len() == 24);
            assert(e.skip(1).subrange(0, 8) =~= spec_u64_to_le_bytes(bullet));
            assert(e.skip(1).subrange(8, 24) =~= spec_u128_to_le_bytes(victim));
        },
    }
}

/// Every representable server-to-client event round-trips losslessly
/// through its envelope.
pub proof fn lemma_client_event_round_trip(m: ClientEventModel)
    requires
        client_model_wf(m),
    ensures
        spec_decode_client(spec_encode_client(m)) == Some(m),
{
    vstd::bytes::lemma_auto_spec_u64_to_from_le_bytes();
    vstd::bytes::lemma_auto_spec_u128_to_from_le_bytes();
    let e = spec_encode_client(m);
    match m {
        ClientEventModel::WorldData { your_id, your_name } => {
            lemma_name_round_trip(your_name);
            assert(e[0] == 1);
            assert(e.skip(1).subrange(0, 16) =~= spec_u128_to_le_bytes(your_id));
            assert(e.skip(1).skip(16) =~= spec_encode_name(your_name));
        },
        ClientEventModel::PlayerDisconnected { id } => {
            assert(e[0] == 2);
            assert(e.skip(1).len() == 16);
            assert(e.skip(1).subrange(0, 16) =~= spec_u128_to_le_bytes(id));
        },
        ClientEventModel::SomeoneCast { caster, cast_id, cast } => {
            lemma_cast_round_trip(cast);
            assert(e[0] == 3);
            assert(e.skip(1).subrange(0, 16) =~= spec_u128_to_le_bytes(caster));
            assert(e.skip(1).subrange(16, 24) =~= spec_u64_to_le_bytes(cast_id));
            assert(e.skip(1).skip(24) =~= spec_encode_cast(cast));
        },
        ClientEventModel::BulletHit { bullet, player } => {
            assert(e[0] == 4);
            assert(e.skip(1).len() == 24);
            assert(e.skip(1).subrange(0, 8) =~= spec_u64_to_le_bytes(bullet));
            assert(e.skip(1).subrange(8, 24) =~= spec_u128_to_le_bytes(player));
        },
    }
}

/// The wire form of a signed coordinate.
fn bias64(x: i64) -> (v: u64)
    ensures
        v == spec_bias(x as int),
{
    ((x as i128) + 0x8000_0000_0000_0000i128) as u64
}

/// The signed coordinate a wire value stands for.
fn unbias64(v: u64) -> (x: i64)
    ensures
        x == spec_unbias(v),
{
    ((v as i128) - 0x8000_0000_0000_0000i128) as i64
}

/// Appends the wire form of a point.
fn encode_point_into(out: &mut Vec<u8>, p: Point)
    ensures
        final(out)@ == old(out)@ + spec_encode_point(p),
{
    let mut bx = vstd::bytes::u64_to_le_bytes(bias64(p.x));
    out.append(&mut bx);
    let mut by = vstd::bytes::u64_to_le_bytes(bias64(p.y));
    out.append(&mut by);
    proof {
        assert(out@ =~= old(out)@ + spec_encode_point(p));
    }
}

/// The wire tag of a trajectory kind.
fn kind_byte(k: TrajectoryKind) -> (t: u8)
    ensures
        t == spec_encode_kind(k),
{
    match k {
        TrajectoryKind::Direct => 0u8,
        TrajectoryKind::Wavy => 1u8,
        TrajectoryKind::WavySecondary => 2u8,
    }
}

/// Appends the wire form of a cast.
fn encode_cast_into(out: &mut Vec<u8>, c: &Cast)
    ensures
        final(out)@ == old(out)@ + spec_encode_cast(*c),
{
    match c {
        Cast::Teleport { target } => {
            out.push(0u8);
            encode_point_into(out, *target);
            proof {
                assert(out@ =~= old(out)@ + spec_encode_cast(*c));
            }
        },
        Cast::Shoot { params } => {
            out.push(1u8);
            encode_point_into(out, params.origin);
            encode_point_into(out, params.target);
            let mut sp = vstd::bytes::u64_to_le_bytes(bias64(params.speed));
            out.append(&mut sp);
            let t = kind_byte(params.kind);
            out.push(t);
            proof {
                assert(out@ =~= old(out)@ + spec_encode_cast(*c));
            }
        },
    }
}

/// Appends the wire form of a display name.
fn encode_name_into(out: &mut Vec<u8>, s: &String)
    ensures
        final(out)@ == old(out)@ + spec_encode_name(s@),
{
    let mut bytes = s.as_str().as_bytes_vec();
    let n: u64 = bytes.len() as u64;
    let mut lb = vstd::bytes::u64_to_le_bytes(n);
    out.append(&mut lb);
    out.append(&mut bytes);
    proof {
        assert(out@ =~= old(out)@ + spec_encode_name(s@));
    }
}

/// Decoding a point is inverse to encoding it, byte for byte.
pub proof fn lemma_point_decode_sound(b: Seq<u8>)
    requires
        b.len() == 16,
    ensures
        spec_encode_point(spec_decode_point(b)) == b,
{
    vstd::bytes::lemma_auto_spec_u64_to_from_le_bytes();
    let p = spec_decode_point(b);
    assert(spec_bias(p.x as int) == spec_u64_from_le_bytes(b.subrange(0, 8)));
    assert(spec_bias(p.y as int) == spec_u64_from_le_bytes(b.subrange(8, 16)));
    assert(spec_encode_point(p) =~= b);
}

/// Only the encoder's cast envelopes decode, and each decodes to the one
/// cast that encodes to it.
pub proof fn lemma_cast_decode_sound(b: Seq<u8>)
    requires
        spec_decode_cast(b) is Some,
    ensures
        spec_encode_cast(spec_decode_cast(b)->Some_0) == b,
{
    vstd::bytes::lemma_auto_spec_u64_to_from_le_bytes();
    let c = spec_decode_cast(b)->Some_0;
    if b[0] == 0 {
        lemma_point_decode_sound(b.subrange(1, 17));
        assert(spec_encode_cast(c) =~= b);
    } else {
        lemma_point_decode_sound(b.subrange(1, 17));
        lemma_point_decode_sound(b.subrange(17, 33));
        let params = c->Shoot_params;
        assert(spec_bias(params.speed as int) == spec_u64_from_le_bytes(b.subrange(33, 41)));
        assert(spec_encode_kind(params.kind) == b[41]);
        assert(spec_encode_cast(c) =~= b);
    }
}

/// Only the encoder's name fields decode, and each decodes to the one
/// string that encodes to it.
pub proof fn lemma_name_decode_sound(b: Seq<u8>)
    requires
        spec_decode_name(b) is Some,
    ensures
        spec_encode_name(spec_decode_name(b)->Some_0) == b,
{
    vstd::bytes::lemma_auto_spec_u64_to_from_le_bytes();
    let rest = b.skip(8);
    vstd::utf8::decode_utf8_encode_utf8(rest);
    let n = spec_decode_name(b)->Some_0;
    assert(encode_utf8(n) == rest);
    assert(encode_utf8(n).len() as u64 == spec_u64_from_le_bytes(b.subrange(0, 8)));
    assert(spec_encode_name(n) =~= b);
}

/// Only the encoder's envelopes decode as client-to-server events, and each
/// decodes to the one event that encodes to it: the codec loses nothing and
/// invents nothing.
pub proof fn lemma_server_decode_sound(b: Seq<u8>)
    requires
        spec_decode_server(b) is Some,
    ensures
        spec_encode_server(spec_decode_server(b)->Some_0) == b,
        server_model_wf(spec_decode_server(b)->Some_0),
{
    vstd::bytes::lemma_auto_spec_u64_to_from_le_bytes();
    vstd::bytes::lemma_auto_spec_u128_to_from_le_bytes();
    let m = spec_decode_server(b)->Some_0;
    let rest = b.skip(1);
    if b[0] == 1 {
        if rest[0] == 0 {
            assert(spec_encode_server(m) =~= b);
        } else {
            lemma_name_decode_sound(rest.skip(1));
            let n = spec_decode_name(rest.skip(1))->Some_0;
            assert(spec_encode_server(m) =~= seq![1u8, 1u8] + spec_encode_name(n));
            assert(spec_encode_server(m) =~= b);
        }
    } else if b[0] == 2 {
        assert(spec_encode_server(m) =~= b);
    } else if b[0] == 3 {
        lemma_cast_decode_sound(rest);
        assert(spec_encode_server(m) =~= b);
    } else {
        assert(spec_encode_server(m) =~= b);
    }
}

/// Only the encoder's envelopes decode as server-to-client events, and each
/// decodes to the one event that encodes to it: the codec loses nothing and
/// invents nothing.
pub proof fn lemma_client_decode_sound(b: Seq<u8>)
    requires
        spec_decode_client(b) is Some,
    ensures
        spec_encode_client(spec_decode_client(b)->Some_0) == b,
        client_model_wf(spec_decode_client(b)->Some_0),
{
    vstd::bytes::lemma_auto_spec_u64_to_from_le_bytes();
    vstd::bytes::lemma_auto_spec_u128_to_from_le_bytes();
    let m = spec_decode_client(b)->Some_0;
    let rest = b.skip(1);
    if b[0] == 1 {
        lemma_name_decode_sound(rest.skip(16));
        let n = spec_decode_name(rest.skip(16))->Some_0;
        assert(spec_encode_client(m) =~= seq![1u8] + spec_u128_to_le_bytes(
            spec_u128_from_le_bytes(rest.subrange(0, 16)),
        ) + spec_encode_name(n));
        assert(spec_encode_client(m) =~= b);
    } else if b[0] == 2 {
        assert(spec_encode_client(m) =~= b);
    } else if b[0] == 3 {
        lemma_cast_decode_sound(rest.skip(24));
        assert(spec_encode_client(m) =~= b);
    } else {
        assert(spec_encode_client(m) =~= b);
    }
}

/// Relies on `std::str::from_utf8`: it accepts exactly the valid UTF-8 byte
/// sequences, and decodes them to their scalar values.
#[verifier::external_body]
fn utf8_to_string(b: &[u8]) -> (r: Option<String>)
    ensures
        r is Some <==> valid_utf8(b@),
        r matches Some(s) ==> s@ == decode_utf8(b@),
{
    match std::str::from_utf8(b) {
        Ok(s) => Some(s.to_owned()),
        Err(_) => None,
    }
}

/// Reads the point a 16-byte wire form stands for.
fn decode_point16(b: &[u8]) -> (p: Point)
    requires
        b@.len() == 16,
    ensures
        p == spec_decode_point(b@),
{
    let xs = vstd::slice::slice_subrange(b, 0, 8);
    let x = unbias64(vstd::bytes::u64_from_le_bytes(xs));
    let ys = vstd::slice::slice_subrange(b, 8, 16);
    let y = unbias64(vstd::bytes::u64_from_le_bytes(ys));
    Point { x, y }
}

/// Reads the cast a complete wire form stands for.
fn decode_cast_exact(b: &[u8]) -> (r: Result<Cast, DecodeError>)
    ensures
        match r {
            Ok(c) => spec_decode_cast(b@) == Some(c),
            Err(_) => spec_decode_cast(b@) is None,
        },
{
    if b.len() < 1 {
        return Err(DecodeError);
    }
    let tag = *vstd::slice::slice_index_get(b, 0);
    if tag == 0 {
        if b.len() == 17 {
            let p = decode_point16(vstd::slice::slice_subrange(b, 1, 17));
            Ok(Cast::Teleport { target: p })
        } else {
            Err(DecodeError)
        }
    } else if tag == 1 {
        if b.len() == 42 {
            let kt = *vstd::slice::slice_index_get(b, 41);
            let kind = if kt == 0 {
                TrajectoryKind::Direct
            } else if kt == 1 {
                TrajectoryKind::Wavy
            } else if kt == 2 {
                TrajectoryKind::WavySecondary
            } else {
                return Err(DecodeError);
            };
            let origin = decode_point16(vstd::slice::slice_subrange(b, 1, 17));
            let target = decode_point16(vstd::slice::slice_subrange(b, 17, 33));
            let speed = unbias64(
                vstd::bytes::u64_from_le_bytes(vstd::slice::slice_subrange(b, 33, 41)),
            );
            Ok(Cast::Shoot { params: ShotParams { origin, target, speed, kind } })
        } else {
            Err(DecodeError)
        }
    } else {
        Err(DecodeError)
    }
}

/// Reads the display name a complete wire form stands for.
fn decode_name_exact(b: &[u8]) -> (r: Result<String, DecodeError>)
    ensures
        match r {
            Ok(s) => spec_decode_name(b@) == Some(s@),
            Err(_) => spec_decode_name(b@) is None,
        },
{
    if b.len() < 8 {
        return Err(DecodeError);
    }
    let n = vstd::bytes::u64_from_le_bytes(vstd::slice::slice_subrange(b, 0, 8));
    let rest = vstd::slice::slice_subrange(b, 8, b.len());
    proof {
        assert(rest@ =~= b@.skip(8));
    }
    if (rest.len() as u64) != n {
        return Err(DecodeError);
    }
    match utf8_to_string(rest) {
        Some(s) => Ok(s),
        None => Err(DecodeError),
    }
}

/// Deserializes one envelope into a client-to-server event, or rejects it
/// as malformed: exactly the envelopes the encoder can produce decode.
pub fn decode_event_to_server(b: &[u8]) -> (r: Result<EventToServer, DecodeError>)
    ensures
        match r {
            Ok(e) => spec_decode_server(b@) == Some(e@),
            Err(_) => spec_decode_server(b@) is None,
        },
{
    if b.len() < 1 {
        return Err(DecodeError);
    }
    let ghost rest = b@.skip(1);
    let tag = *vstd::slice::slice_index_get(b, 0);
    if tag == 1 {
        if b.len() < 2 {
            return Err(DecodeError);
        }
        let opt = *vstd::slice::slice_index_get(b, 1);
        proof {
            assert(rest[0] == b@[1]);
        }
        if opt == 0 {
            if b.len() == 2 {
                Ok(EventToServer::ConnectRequest { name: None })
            } else {
                Err(DecodeError)
            }
        } else if opt == 1 {
            let nb = vstd::slice::slice_subrange(b, 2, b.len());
            proof {
                assert(nb@ =~= rest.skip(1));
            }
            match decode_name_exact(nb) {
                Ok(s) => Ok(EventToServer::ConnectRequest { name: Some(s) }),
                Err(e) => Err(e),
            }
        } else {
            Err(DecodeError)
        }
    } else if tag == 2 {
        if b.len() == 1 {
            Ok(EventToServer::Heartbeat)
        } else {
            Err(DecodeError)
        }
    } else if tag == 3 {
        let cb = vstd::slice::slice_subrange(b, 1, b.len());
        proof {
            assert(cb@ =~= rest);
        }
        match decode_cast_exact(cb) {
            Ok(c) => Ok(EventToServer::CastRequest { cast: c }),
            Err(e) => Err(e),
        }
    } else if tag == 4 {
        if b.len() == 25 {
            let bullet = vstd::bytes::u64_from_le_bytes(vstd::slice::slice_subrange(b, 1, 9));
            let victim = vstd::bytes::u128_from_le_bytes(vstd::slice::slice_subrange(b, 9, 25));
            proof {
                assert(b@.subrange(1, 9) =~= rest.subrange(0, 8));
                assert(b@.subrange(9, 25) =~= rest.subrange(8, 24));
            }
            Ok(EventToServer::HitReport { bullet, victim })
        } else {
            Err(DecodeError)
        }
    } else {
        Err(DecodeError)
    }
}

/// Deserializes one envelope into a server-to-client event, or rejects it
/// as malformed: exactly the envelopes the encoder can produce decode.
pub fn decode_event_to_client(b: &[u8]) -> (r: Result<EventToClient, DecodeError>)
    ensures
        match r {
            Ok(e) => spec_decode_client(b@) == Some(e@),
            Err(_) => spec_decode_client(b@) is None,
        },
{
    if b.len() < 1 {
        return Err(DecodeError);
    }
    let ghost rest = b@.skip(1);
    let tag = *vstd::slice::slice_index_get(b, 0);
    if tag == 1 {
        if b.len() < 17 {
            return Err(DecodeError);
        }
        let your_id = vstd::bytes::u128_from_le_bytes(vstd::slice::slice_subrange(b, 1, 17));
        let nb = vstd::slice::slice_subrange(b, 17, b.len());
        proof {
            assert(b@.subrange(1, 17) =~= rest.subrange(0, 16));
            assert(nb@ =~= rest.skip(16));
        }
        match decode_name_exact(nb) {
            Ok(s) => Ok(EventToClient::WorldData { your_id, your_name: s }),
            Err(e) => Err(e),
        }
    } else if tag == 2 {
        if b.len() == 17 {
            let id = vstd::bytes::u128_from_le_bytes(vstd::slice::slice_subrange(b, 1, 17));
            proof {
                assert(b@.subrange(1, 17) =~= rest.subrange(0, 16));
            }
            Ok(EventToClient::PlayerDisconnected { id })
        } else {
            Err(DecodeError)
        }
    } else if tag == 3 {
        if b.len() < 25 {
            return Err(DecodeError);
        }
        let caster = vstd::bytes::u128_from_le_bytes(vstd::slice::slice_subrange(b, 1, 17));
        let cast_id = vstd::bytes::u64_from_le_bytes(vstd::slice::slice_subrange(b, 17, 25));
        let cb = vstd::slice::slice_subrange(b, 25, b.len());
        proof {
            assert(b@.subrange(1, 17) =~= rest.subrange(0, 16));
            assert(b@.subrange(17, 25) =~= rest.subrange(16, 24));
            assert(cb@ =~= rest.skip(24));
        }
        match decode_cast_exact(cb) {
            Ok(c) => Ok(EventToClient::SomeoneCast { caster, cast_id, cast: c }),
            Err(e) => Err(e),
        }
    } else if tag == 4 {
        if b.len() == 25 {
            let bullet = vstd::bytes::u64_from_le_bytes(vstd::slice::slice_subrange(b, 1, 9));
            let player = vstd::bytes::u128_from_le_bytes(vstd::slice::slice_subrange(b, 9, 25));
            proof {
                assert(b@.subrange(1, 9) =~= rest.subrange(0, 8));
                assert(b@.subrange(9, 25) =~= rest.subrange(8, 24));
            }
            Ok(EventToClient::BulletHit { bullet, player })
        } else {
            Err(DecodeError)
        }
    } else {
        Err(DecodeError)
    }
}

/// Serializes a client-to-server event into one envelope.
pub fn encode_event_to_server(e: &EventToServer) -> (r: Vec<u8>)
    ensures
        r@ == spec_encode_server(e@),
{
    let mut v: Vec<u8> = Vec::new();
    match e {
        EventToServer::ConnectRequest { name } => {
            v.push(1u8);
            match name {
                None => {
                    v.push(0u8);
                    proof {
                        assert(v@ =~= spec_encode_server(e@));
                    }
                },
                Some(n) => {
                    v.push(1u8);
                    encode_name_into(&mut v, n);
                    proof {
                        assert(v@ =~= spec_encode_server(e@));
                    }
                },
            }
        },
        EventToServer::Heartbeat => {
            v.push(2u8);
            proof {
                assert(v@ =~= spec_encode_server(e@));
            }
        },
        EventToServer::CastRequest { cast } => {
            v.push(3u8);
            encode_cast_into(&mut v, cast);
            proof {
                assert(v@ =~= spec_encode_server(e@));
            }
        },
        EventToServer::HitReport { bullet, victim } => {
            v.push(4u8);
            let mut bb = vstd::bytes::u64_to_le_bytes(*bullet);
            v.append(&mut bb);
            let mut vb = vstd::bytes::u128_to_le_bytes(*victim);
            v.append(&mut vb);
            proof {
                assert(v@ =~= spec_encode_server(e@));
            }
        },
    }
    v
}

/// Serializes a server-to-client event into one envelope.
pub fn encode_event_to_client(e: &EventToClient) -> (r: Vec<u8>)
    ensures
        r@ == spec_encode_client(e@),
{
    let mut v: Vec<u8> = Vec::new();
    match e {
        EventToClient::WorldData { your_id, your_name } => {
            v.push(1u8);
            let mut ib = vstd::bytes::u128_to_le_bytes(*your_id);
            v.append(&mut ib);
            encode_name_into(&mut v, your_name);
            proof {
                assert(v@ =~= spec_encode_client(e@));
            }
        },
        EventToClient::PlayerDisconnected { id } => {
            v.push(2u8);
            let mut ib = vstd::bytes::u128_to_le_bytes(*id);
            v.append(&mut ib);
            proof {
                assert(v@ =~= spec_encode_client(e@));
            }
        },
        EventToClient::SomeoneCast { caster, cast_id, cast } => {
            v.push(3u8);
            let mut cb = vstd::bytes::u128_to_le_bytes(*caster);
            v.append(&mut cb);
            let mut idb = vstd::bytes::u64_to_le_bytes(*cast_id);
            v.append(&mut idb);
            encode_cast_into(&mut v, cast);
            proof {
                assert(v@ =~= spec_encode_client(e@));
            }
        },
        EventToClient::BulletHit { bullet, player } => {
            v.push(4u8);
            let mut bb = vstd::bytes::u64_to_le_bytes(*bullet);
            v.append(&mut bb);
            let mut pb = vstd::bytes::u128_to_le_bytes(*player);
            v.append(&mut pb);
            proof {
                assert(v@ =~= spec_encode_client(e@));
            }
        },
    }
    v
}

} // verus!
