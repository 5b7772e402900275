//! The packets of the query protocol.
//!
//! [`request`] builds the datagrams that the client sends, [`response`] reads
//! the ones that come back. [`field`] holds the encodings of single fields
//! and [`endian`] the fixed-width integers.

use vstd::prelude::*;

pub mod endian;
pub mod field;
pub mod request;
pub mod response;

verus! {

/// The kind of a packet, as the tag byte of its header says it.
#[derive(Debug, Clone, Copy, PartialEq, Eq, Structural)]
pub enum PacketType {
    /// A status request or report; tag `0`.
    Stat,
    /// The opening of an exchange; tag `9`.
    Handshake,
}

impl PacketType {
    /// The byte that stands for this kind on the wire.
    pub open spec fn spec_tag(self) -> u8 {
        match self {
            PacketType::Stat => 0u8,
            PacketType::Handshake => 9u8,
        }
    }

    /// The kind that a tag byte stands for, if it stands for one.
    pub open spec fn spec_from_tag(tag: u8) -> Option<PacketType> {
        if tag == 0 {
            Some(PacketType::Stat)
        } else if tag == 9 {
            Some(PacketType::Handshake)
        } else {
            None
        }
    }

    /// The byte that stands for this kind on the wire.
    #[verifier::when_used_as_spec(spec_tag)]
    pub fn tag(self) -> (b: u8)
        ensures
            b == self.spec_tag(),
    {
        match self {
            PacketType::Stat => 0u8,
            PacketType::Handshake => 9u8,
        }
    }

    /// Reads a tag byte; `None` for a byte that is no tag.
    #[verifier::when_used_as_spec(spec_from_tag)]
    pub fn from_tag(tag: u8) -> (t: Option<PacketType>)
        ensures
            t == Self::spec_from_tag(tag),
    {
        if tag == 0 {
            Some(PacketType::Stat)
        } else if tag == 9 {
            Some(PacketType::Handshake)
        } else {
            None
        }
    }

    /// Reading the tag of a kind gives the kind back, and a byte that reads
    /// as a kind is that kind's tag.
    pub proof fn lemma_tag_round_trip(t: PacketType, b: u8)
        ensures
            Self::spec_from_tag(t.spec_tag()) == Some(t),
            Self::spec_from_tag(b) == Some(t) ==> t.spec_tag() == b,
    {
    }
}

} // verus!
