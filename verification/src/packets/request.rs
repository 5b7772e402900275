//! The datagrams that the client sends.
//!
//! A request is a fixed marker, the tag of its kind, the session id and a
//! payload, with every integer big-endian.

use crate::packets::endian::{be32, put_u32_be};
use crate::packets::PacketType;
use crate::Error;
use vstd::prelude::*;

verus! {

/// The two bytes that open every request.
pub open spec fn marker() -> Seq<u8> {
    seq![0xFEu8, 0xFDu8]
}

/// What can follow the header of a request.
pub trait RequestPayload {
    /// The bytes of the payload.
    spec fn wire(&self) -> Seq<u8>;

    /// Appends the bytes of the payload to `out`.
    fn write(&self, out: &mut Vec<u8>)
        ensures
            final(out)@ == old(out)@ + self.wire(),
    ;
}

/// The payload of a handshake request: nothing.
#[derive(Debug)]
pub struct Handshake;

/// The payload of a basic status request.
#[derive(Debug)]
pub struct BasicStat {
    /// The token that the server issued in the handshake.
    pub challenge_token: u32,
}

/// The payload of a full status request.
#[derive(Debug)]
pub struct FullStat {
    /// The token that the server issued in the handshake.
    pub challenge_token: u32,
}

impl RequestPayload for Handshake {
    open spec fn wire(&self) -> Seq<u8> {
        Seq::empty()
    }

    fn write(&self, out: &mut Vec<u8>) {
    }
}

impl RequestPayload for BasicStat {
    open spec fn wire(&self) -> Seq<u8> {
        be32(self.challenge_token)
    }

    fn write(&self, out: &mut Vec<u8>) {
        put_u32_be(out, self.challenge_token);
    }
}

impl RequestPayload for FullStat {
    /// The token, then four bytes of padding.
    open spec fn wire(&self) -> Seq<u8> {
        be32(self.challenge_token) + seq![0u8, 0u8, 0u8, 0u8]
    }

    fn write(&self, out: &mut Vec<u8>) {
        put_u32_be(out, self.challenge_token);
        let ghost token = out@;
        out.push(0);
        out.push(0);
        out.push(0);
        out.push(0);
        assert(out@ =~= token + seq![0u8, 0u8, 0u8, 0u8]);
    }
}

/// A request: the header fields and a payload.
#[derive(Debug)]
pub struct PacketBase<T: RequestPayload> {
    /// The kind of the request.
    pub packet_type: PacketType,
    /// The session id of the exchange that the request belongs to.
    pub session_id: u32,
    pub payload: T,
}

impl<T: RequestPayload> PacketBase<T> {
    /// The datagram: marker, tag, session id, payload.
    pub open spec fn wire(&self) -> Seq<u8> {
        marker() + seq![self.packet_type.spec_tag()] + be32(self.session_id) + self.payload.wire()
    }

    /// Builds the datagram.
    pub fn encode(&self) -> (bytes: Vec<u8>)
        ensures
            bytes@ == self.wire(),
    {
        let mut out: Vec<u8> = Vec::new();
        out.push(0xFE);
        out.push(0xFD);
        out.push(self.packet_type.tag());
        assert(out@ =~= marker() + seq![self.packet_type.spec_tag()]);
        put_u32_be(&mut out, self.session_id);
        self.payload.write(&mut out);
        out
    }
}

impl<T: RequestPayload> TryFrom<PacketBase<T>> for Vec<u8> {
    type Error = Error;

    /// Builds the datagram of `value`. This never fails.
    fn try_from(value: PacketBase<T>) -> (r: Result<Self, Self::Error>)
        ensures
            r matches Ok(bytes) && bytes@ == value.wire(),
    {
        Ok(value.encode())
    }
}

/// The conversion is described by the `ensures` of `try_from`, over views:
/// no vector can be written down in a specification.
impl<T: RequestPayload> vstd::std_specs::convert::TryFromSpecImpl<PacketBase<T>> for Vec<u8> {
    open spec fn obeys_try_from_spec() -> bool {
        false
    }

    open spec fn try_from_spec(v: PacketBase<T>) -> Result<Self, Self::Error> {
        Err(Error::Truncated)
    }
}

/// A request is seven bytes of header and its payload; the header holds the
/// marker, the tag and the session id at fixed offsets.
pub proof fn lemma_request_layout<T: RequestPayload>(p: PacketBase<T>)
    ensures
        p.wire().len() == 7 + p.payload.wire().len(),
        p.wire().subrange(0, 2) == marker(),
        p.wire()[2] == p.packet_type.spec_tag(),
        p.wire().subrange(3, 7) == be32(p.session_id),
        p.wire().subrange(7, p.wire().len() as int) == p.payload.wire(),
{
    assert(p.wire().subrange(0, 2) =~= marker());
    assert(p.wire().subrange(3, 7) =~= be32(p.session_id));
    assert(p.wire().subrange(7, p.wire().len() as int) =~= p.payload.wire());
}

/// A full status request is the basic status request of the same session id
/// and token with four zero bytes after it.
pub proof fn lemma_full_extends_basic(session_id: u32, challenge_token: u32)
    ensures
        ({
            let basic = BasicStat { challenge_token };
            let full = FullStat { challenge_token };
            (PacketBase { packet_type: PacketType::Stat, session_id, payload: full }).wire() == (
            PacketBase { packet_type: PacketType::Stat, session_id, payload: basic }).wire()
                + seq![0u8, 0u8, 0u8, 0u8]
        }),
{
    let basic = PacketBase {
        packet_type: PacketType::Stat,
        session_id,
        payload: BasicStat { challenge_token },
    };
    let full = PacketBase {
        packet_type: PacketType::Stat,
        session_id,
        payload: FullStat { challenge_token },
    };
    assert(full.wire() =~= basic.wire() + seq![0u8, 0u8, 0u8, 0u8]);
}

/// The lengths of the three requests: 7, 11 and 15 bytes.
pub proof fn lemma_request_lengths(session_id: u32, challenge_token: u32)
    ensures
        ({
            let handshake = PacketBase {
                packet_type: PacketType::Handshake,
                session_id,
                payload: Handshake,
            };
            let basic = PacketBase {
                packet_type: PacketType::Stat,
                session_id,
                payload: BasicStat { challenge_token },
            };
            let full = PacketBase {
                packet_type: PacketType::Stat,
                session_id,
                payload: FullStat { challenge_token },
            };
            &&& handshake.wire().len() == 7
            &&& basic.wire().len() == 11
            &&& full.wire().len() == 15
        }),
{
}

} // verus!
