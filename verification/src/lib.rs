//! Client side of the UDP status query protocol spoken by Minecraft servers.
//!
//! A query is a short exchange of datagrams: a handshake that yields a
//! challenge token, followed by a basic or a full status request that carries
//! the token back. This crate holds the wire format of both directions and the
//! decisions of the exchange; sending and receiving datagrams is left to the
//! caller, who feeds the replies to an [`exchange::Exchange`].
//!
//! The functions are verified against contracts stated over byte sequences.
//! Three of them only make a call into another crate, `binrw` or `rand`;
//! their contracts are taken on trust, and their doc comments say so.

use vstd::prelude::*;

pub mod exchange;
pub mod packets;

pub use packets::response::{BasicStat, FullStat};
pub use packets::PacketType;

verus! {

/// The ways in which a query can fail.
#[derive(Debug, Clone, Copy, PartialEq, Eq)]
pub enum Error {
    /// The transport failed for a reason other than an elapsed receive
    /// deadline.
    Transport,
    /// No datagram arrived before the receive deadline.
    Timeout,
    /// The text of an integer field is not a decimal number of the field's
    /// width. `pos` is the offset of the first byte of that text.
    MalformedField { pos: usize },
    /// The datagram ends before a field is complete.
    Truncated,
    /// A field that the protocol fixes holds another value.
    ProtocolMismatch,
}

/// The bits that a session id may have set: the low nibble of each byte.
pub const SESSION_MASK: u32 = 0x0F0F_0F0F;

/// Whether each of the four bytes of `id` is at most `0x0F`.
pub open spec fn is_session_id(id: u32) -> bool {
    forall|i: int| 0 <= i < 4 ==> #[trigger] packets::endian::be32(id)[i] <= 0x0F
}

/// An unpredictable 32-bit number.
///
/// Calls `rand::random::<u32>()`, which draws from the thread-local generator
/// and panics where the operating system cannot seed it. Nothing is claimed
/// of the number drawn.
#[verifier::external_body]
fn random_u32() -> u32 {
    rand::random()
}

/// Clears the high nibble of every byte of `raw`.
pub fn mask_session_id(raw: u32) -> (id: u32)
    ensures
        id == raw & SESSION_MASK,
        is_session_id(id),
{
    let id = raw & SESSION_MASK;
    proof {
        lemma_masked_is_session_id(raw);
    }
    id
}

/// A fresh session id for one exchange: a random number, masked.
pub fn get_session_id() -> (id: u32)
    ensures
        is_session_id(id),
{
    mask_session_id(random_u32())
}

/// Masking any number yields a session id.
pub proof fn lemma_masked_is_session_id(raw: u32)
    ensures
        is_session_id(raw & SESSION_MASK),
{
    let id = raw & SESSION_MASK;
    assert(id / 0x100_0000 <= 0x0F && id / 0x1_0000 % 0x100 <= 0x0F && id / 0x100 % 0x100 <= 0x0F
        && id % 0x100 <= 0x0F) by (bit_vector)
        requires
            id == raw & 0x0F0F_0F0Fu32,
    ;
}

/// A session id is left unchanged by the mask, and nothing else is.
pub proof fn lemma_session_id_iff_masked(id: u32)
    ensures
        is_session_id(id) <==> id & SESSION_MASK == id,
{
    assert((id / 0x100_0000 <= 0x0F && id / 0x1_0000 % 0x100 <= 0x0F && id / 0x100 % 0x100 <= 0x0F
        && id % 0x100 <= 0x0F) <==> id & 0x0F0F_0F0Fu32 == id) by (bit_vector);
    let b = packets::endian::be32(id);
    assert(b[0] == (id / 0x100_0000) as u8);
    assert(b[1] == (id / 0x1_0000 % 0x100) as u8);
    assert(b[2] == (id / 0x100 % 0x100) as u8);
    assert(b[3] == (id % 0x100) as u8);
}

} // verus!
