//! The datagrams that the server sends back.
//!
//! A response is the tag of its kind, the session id and a payload. The tag
//! does not say which payload follows: the caller knows it from the request
//! it sent, and picks the payload type accordingly.
//!
//! Decoding is all or nothing. The fields are read in their order, and the
//! first one that cannot be read decides the error.

use crate::packets::endian::{from_be32, from_le16, get_u16_le, get_u32_be};
use crate::packets::field::{
    kv_string_parser, kv_u16_parser, nstring_int_parser, nstring_text_parser, spec_kv_string,
    spec_kv_u16, spec_nstring_int, spec_text,
};
use crate::Error;
use vstd::prelude::*;

verus! {

/// The number of bytes before the payload: the tag and the session id.
pub const HEADER_LEN: usize = 5;

/// The bytes of padding before the first field of a full status report.
pub const FULL_STAT_PADDING: usize = 11;

/// The bytes of padding before the player list of a full status report.
pub const PLAYERS_PADDING: usize = 10;

/// Whether decoding gave `r` where the format gives `model`: the same error,
/// or a value whose view is the one that the format gives.
pub open spec fn decoded<T: View>(r: Result<T, Error>, model: Result<T::V, Error>) -> bool {
    match r {
        Ok(value) => model == Ok::<T::V, Error>(value@),
        Err(e) => model == Err::<T::V, Error>(e),
    }
}

/// Whether `e` is one of the errors that reading a datagram can end in.
pub open spec fn is_decode_error(e: Error) -> bool {
    e is Truncated || e is MalformedField || e is ProtocolMismatch
}

/// What can follow the header of a response.
pub trait ResponsePayload: Sized + View {
    /// The payload that the bytes of `buf` from offset `at` on stand for, or
    /// the reason why they stand for none.
    spec fn spec_read(buf: Seq<u8>, at: int) -> Result<Self::V, Error>;

    /// Reads the payload that starts at offset `at` of `buf`.
    fn read(buf: &[u8], at: usize) -> (r: Result<Self, Error>)
        ensures
            decoded(r, Self::spec_read(buf@, at as int)),
    ;

    /// Reading fails with `Truncated`, `MalformedField` or
    /// `ProtocolMismatch`, never with an error of the transport.
    proof fn lemma_read_errors(buf: Seq<u8>, at: int)
        ensures
            Self::spec_read(buf, at) matches Err(e) ==> is_decode_error(e),
    ;
}

/// A response: the header fields and a payload.
#[derive(Debug)]
pub struct PacketBase<T: ResponsePayload> {
    /// The tag byte as it came; it is not held against the known kinds.
    pub packet_type: u8,
    /// The session id that the server echoes.
    pub session_id: u32,
    pub payload: T,
}

/// A response with its payload as the format describes it.
pub struct PacketBaseView<P> {
    pub packet_type: u8,
    pub session_id: u32,
    pub payload: P,
}

impl<T: ResponsePayload> View for PacketBase<T> {
    type V = PacketBaseView<T::V>;

    open spec fn view(&self) -> PacketBaseView<T::V> {
        PacketBaseView {
            packet_type: self.packet_type,
            session_id: self.session_id,
            payload: self.payload@,
        }
    }
}

impl<T: ResponsePayload> PacketBase<T> {
    /// The response that the datagram `buf` stands for: the tag byte, the
    /// session id in four bytes, big-endian, and the payload from the sixth
    /// byte on. What follows the payload is of no account.
    pub open spec fn spec_decode(buf: Seq<u8>) -> Result<PacketBaseView<T::V>, Error> {
        if buf.len() < HEADER_LEN {
            Err(Error::Truncated)
        } else {
            match T::spec_read(buf, HEADER_LEN as int) {
                Err(e) => Err(e),
                Ok(payload) => Ok(
                    PacketBaseView {
                        packet_type: buf[0],
                        session_id: from_be32(buf[1], buf[2], buf[3], buf[4]),
                        payload,
                    },
                ),
            }
        }
    }

    /// Reads a datagram as a response with a payload of type `T`.
    ///
    /// Fails with `Truncated` where the datagram ends within a field, with
    /// `MalformedField` where the text of an integer field is no number of
    /// the field's width, and with `ProtocolMismatch` where a field that the
    /// protocol fixes holds another value.
    pub fn decode(buf: &[u8]) -> (r: Result<Self, Error>)
        ensures
            decoded(r, Self::spec_decode(buf@)),
    {
        if buf.len() < 1 {
            return Err(Error::Truncated);
        }
        let packet_type = buf[0];
        let (session_id, at) = match get_u32_be(buf, 1) {
            Some(read) => read,
            None => {
                return Err(Error::Truncated);
            },
        };
        let payload = T::read(buf, at)?;
        Ok(PacketBase { packet_type, session_id, payload })
    }
}

impl<T: ResponsePayload> TryFrom<Vec<u8>> for PacketBase<T> {
    type Error = Error;

    /// Reads the datagram `value`, as `decode` does.
    fn try_from(value: Vec<u8>) -> (r: Result<Self, Self::Error>)
        ensures
            decoded(r, Self::spec_decode(value@)),
    {
        Self::decode(value.as_slice())
    }
}

/// The conversion is described by the `ensures` of `try_from`, over views:
/// no value of the type can be written down in a specification.
impl<T: ResponsePayload> vstd::std_specs::convert::TryFromSpecImpl<Vec<u8>> for PacketBase<T> {
    open spec fn obeys_try_from_spec() -> bool {
        false
    }

    open spec fn try_from_spec(v: Vec<u8>) -> Result<Self, Self::Error> {
        Err(Error::Truncated)
    }
}

/// The payload of a handshake response.
#[derive(Debug)]
pub struct Handshake {
    /// The token to send back in the status request.
    pub challenge_token: u32,
}

impl View for Handshake {
    type V = u32;

    /// A handshake response is its token.
    open spec fn view(&self) -> u32 {
        self.challenge_token
    }
}

impl ResponsePayload for Handshake {
    /// One string-encoded 32-bit integer.
    open spec fn spec_read(buf: Seq<u8>, at: int) -> Result<u32, Error> {
        match spec_nstring_int(buf, at, 0xFFFF_FFFF) {
            Err(e) => Err(e),
            Ok((token, _)) => Ok(token as u32),
        }
    }

    fn read(buf: &[u8], at: usize) -> (r: Result<Self, Error>) {
        let (challenge_token, _) = nstring_int_parser::<u32>(buf, at)?;
        Ok(Handshake { challenge_token })
    }

    proof fn lemma_read_errors(buf: Seq<u8>, at: int) {
    }
}

/// Whether `text` is exactly `expected`.
pub fn text_is(text: &String, expected: &str) -> (b: bool)
    ensures
        b == (text@ == expected@),
{
    let other = expected.to_owned();
    *text == other
}

/// The little-endian 16-bit integer at `from`, and the offset after it.
pub open spec fn spec_u16_le(buf: Seq<u8>, from: int) -> Result<(u16, int), Error> {
    if 0 <= from && from + 2 <= buf.len() {
        Ok((from_le16(buf[from], buf[from + 1]), from + 2))
    } else {
        Err(Error::Truncated)
    }
}

/// The basic status report.
#[derive(Debug, PartialEq, Eq)]
pub struct BasicStat {
    /// The message of the day.
    pub motd: String,
    /// The game type; always `SMP` in a report that was decoded.
    pub gametype: String,
    /// The name of the world.
    pub map: String,
    /// How many players are online.
    pub numplayers: u16,
    /// How many players the server admits.
    pub maxplayers: u16,
    /// The port that the server listens on.
    pub hostport: u16,
    /// The address that the server listens on.
    pub hostip: String,
}

/// A basic status report with its texts as sequences of characters.
pub struct BasicStatView {
    pub motd: Seq<char>,
    pub gametype: Seq<char>,
    pub map: Seq<char>,
    pub numplayers: u16,
    pub maxplayers: u16,
    pub hostport: u16,
    pub hostip: Seq<char>,
}

impl View for BasicStat {
    type V = BasicStatView;

    open spec fn view(&self) -> BasicStatView {
        BasicStatView {
            motd: self.motd@,
            gametype: self.gametype@,
            map: self.map@,
            numplayers: self.numplayers,
            maxplayers: self.maxplayers,
            hostport: self.hostport,
            hostip: self.hostip@,
        }
    }
}

impl BasicStatView {
    /// What the protocol fixes in a basic status report: the game type.
    pub open spec fn valid(self) -> bool {
        self.gametype == "SMP"@
    }
}

impl BasicStat {
    /// The fields of a basic status report as they stand in `buf` from `at`
    /// on: three strings, two string-encoded 16-bit integers, the host port
    /// in two bytes, low byte first, and one more string.
    pub open spec fn spec_fields(buf: Seq<u8>, at: int) -> Result<BasicStatView, Error> {
        match spec_text(buf, at) { Err(e) => Err(e), Ok((motd, at1)) =>
        match spec_text(buf, at1) { Err(e) => Err(e), Ok((gametype, at2)) =>
        match spec_text(buf, at2) { Err(e) => Err(e), Ok((map, at3)) =>
        match spec_nstring_int(buf, at3, 0xFFFF) { Err(e) => Err(e), Ok((numplayers, at4)) =>
        match spec_nstring_int(buf, at4, 0xFFFF) { Err(e) => Err(e), Ok((maxplayers, at5)) =>
        match spec_u16_le(buf, at5) { Err(e) => Err(e), Ok((hostport, at6)) =>
        match spec_text(buf, at6) { Err(e) => Err(e), Ok((hostip, _)) =>
            Ok(
                BasicStatView {
                    motd,
                    gametype,
                    map,
                    numplayers: numplayers as u16,
                    maxplayers: maxplayers as u16,
                    hostport,
                    hostip,
                },
            )
        }}}}}}}
    }

    /// Reads the fields of a basic status report, whatever they hold.
    pub fn read_fields(buf: &[u8], at: usize) -> (r: Result<Self, Error>)
        ensures
            decoded(r, Self::spec_fields(buf@, at as int)),
    {
        let (motd, at1) = nstring_text_parser(buf, at)?;
        let (gametype, at2) = nstring_text_parser(buf, at1)?;
        let (map, at3) = nstring_text_parser(buf, at2)?;
        let (numplayers, at4) = nstring_int_parser::<u16>(buf, at3)?;
        let (maxplayers, at5) = nstring_int_parser::<u16>(buf, at4)?;
        let (hostport, at6) = match get_u16_le(buf, at5) {
            Some(read) => read,
            None => {
                return Err(Error::Truncated);
            },
        };
        let (hostip, _) = nstring_text_parser(buf, at6)?;
        Ok(BasicStat { motd, gametype, map, numplayers, maxplayers, hostport, hostip })
    }

    /// Passes a report on if its game type is the one that the protocol
    /// fixes, and fails with `ProtocolMismatch` if not.
    pub fn validate(self) -> (r: Result<Self, Error>)
        ensures
            match r {
                Ok(stat) => self@.valid() && stat == self,
                Err(e) => !self@.valid() && e == Error::ProtocolMismatch,
            },
    {
        if text_is(&self.gametype, "SMP") {
            Ok(self)
        } else {
            Err(Error::ProtocolMismatch)
        }
    }
}

impl ResponsePayload for BasicStat {
    /// The fields, with the game type checked once all of them are read.
    open spec fn spec_read(buf: Seq<u8>, at: int) -> Result<BasicStatView, Error> {
        match Self::spec_fields(buf, at) {
            Err(e) => Err(e),
            Ok(stat) => if stat.valid() {
                Ok(stat)
            } else {
                Err(Error::ProtocolMismatch)
            },
        }
    }

    fn read(buf: &[u8], at: usize) -> (r: Result<Self, Error>)
        ensures
            r matches Ok(stat) ==> stat.gametype@ == "SMP"@,
    {
        Self::read_fields(buf, at)?.validate()
    }

    proof fn lemma_read_errors(buf: Seq<u8>, at: int) {
    }
}

/// The texts of `count` null-terminated strings in a row, the first at
/// `from`, and the offset after the last.
pub open spec fn spec_texts(buf: Seq<u8>, from: int, count: nat) -> Result<
    (Seq<Seq<char>>, int),
    Error,
>
    decreases count,
{
    if count == 0 {
        Ok((Seq::empty(), from))
    } else {
        match spec_texts(buf, from, (count - 1) as nat) {
            Err(e) => Err(e),
            Ok((texts, at)) => match spec_text(buf, at) {
                Err(e) => Err(e),
                Ok((text, next)) => Ok((texts.push(text), next)),
            },
        }
    }
}

/// The test that a text is not empty.
pub open spec fn is_non_empty() -> spec_fn(Seq<char>) -> bool {
    |t: Seq<char>| t.len() > 0
}

/// The texts of a list that are not empty, in their order.
pub open spec fn non_empty(texts: Seq<Seq<char>>) -> Seq<Seq<char>> {
    texts.filter(is_non_empty())
}

/// The texts that a list of strings holds.
pub open spec fn texts_of(strings: Seq<String>) -> Seq<Seq<char>> {
    strings.map_values(|s: String| s@)
}

/// Once a string of the row is cut short, the row stays cut short however
/// many more strings are asked for.
pub proof fn lemma_texts_error_persists(buf: Seq<u8>, from: int, k: nat, count: nat)
    requires
        k <= count,
        spec_texts(buf, from, k) is Err,
    ensures
        spec_texts(buf, from, count) == spec_texts(buf, from, k),
    decreases count,
{
    if k < count {
        lemma_texts_error_persists(buf, from, k, (count - 1) as nat);
    }
}

/// A row of strings can only fail to be read by being cut short, and a row
/// that is read holds as many texts as were asked for.
pub proof fn lemma_texts_outcome(buf: Seq<u8>, from: int, count: nat)
    ensures
        match spec_texts(buf, from, count) {
            Ok((texts, _)) => texts.len() == count,
            Err(e) => e == Error::Truncated,
        },
    decreases count,
{
    if count > 0 {
        lemma_texts_outcome(buf, from, (count - 1) as nat);
    }
}

/// Reads `count` null-terminated strings in a row, the first at `pos`, as
/// texts.
///
/// Fails with `Truncated` where the datagram ends before the last of them
/// does.
pub fn read_texts(buf: &[u8], pos: usize, count: usize) -> (r: Result<(Vec<String>, usize), Error>)
    ensures
        match r {
            Ok((strings, next)) => spec_texts(buf@, pos as int, count as nat) == Ok::<
                (Seq<Seq<char>>, int),
                Error,
            >((texts_of(strings@), next as int)),
            Err(e) => spec_texts(buf@, pos as int, count as nat) == Err::<
                (Seq<Seq<char>>, int),
                Error,
            >(e),
        },
{
    let mut strings: Vec<String> = Vec::new();
    let mut at: usize = pos;
    let mut i: usize = 0;
    assert(texts_of(strings@) =~= Seq::<Seq<char>>::empty());
    while i < count
        invariant
            i <= count,
            spec_texts(buf@, pos as int, i as nat) == Ok::<(Seq<Seq<char>>, int), Error>(
                (texts_of(strings@), at as int),
            ),
        decreases count - i,
    {
        let ghost before = strings@;
        match nstring_text_parser(buf, at) {
            Ok((s, next)) => {
                strings.push(s);
                assert(texts_of(strings@) =~= texts_of(before).push(s@));
                at = next;
            },
            Err(e) => {
                proof {
                    assert(spec_texts(buf@, pos as int, (i + 1) as nat) is Err);
                    lemma_texts_error_persists(buf@, pos as int, (i + 1) as nat, count as nat);
                }
                return Err(e);
            },
        }
        i = i + 1;
    }
    Ok((strings, at))
}

/// Leaves the empty strings out of a list and keeps the others in their
/// order.
pub fn drop_empty(strings: Vec<String>) -> (kept: Vec<String>)
    ensures
        texts_of(kept@) == non_empty(texts_of(strings@)),
{
    let mut kept: Vec<String> = Vec::new();
    let mut i: usize = 0;
    let ghost texts = texts_of(strings@);
    assert(texts.take(0) =~= Seq::<Seq<char>>::empty());
    assert(texts_of(kept@) =~= Seq::<Seq<char>>::empty());
    proof {
        reveal(Seq::filter);
    }
    while i < strings.len()
        invariant
            i <= strings.len(),
            texts == texts_of(strings@),
            texts_of(kept@) == non_empty(texts.take(i as int)),
        decreases strings.len() - i,
    {
        let s = &strings[i];
        let ghost before = kept@;
        proof {
            assert(texts.take(i + 1) =~= texts.take(i as int).push(s@));
            texts.take(i as int).lemma_filter_push(s@, is_non_empty());
        }
        if !s.as_str().is_empty() {
            kept.push(s.clone());
            assert(texts_of(kept@) =~= texts_of(before).push(s@));
        }
        i = i + 1;
    }
    assert(texts.take(strings@.len() as int) =~= texts);
    kept
}

/// The offset `count` bytes after `at`, where the datagram reaches that far.
pub fn skip(buf: &[u8], at: usize, count: usize) -> (r: Option<usize>)
    ensures
        match r {
            Some(next) => next == at + count && next <= buf@.len(),
            None => at + count > buf@.len(),
        },
{
    let len = buf.len();
    if at <= len && count <= len - at {
        Some(at + count)
    } else {
        None
    }
}

/// The full status report.
#[derive(Debug, PartialEq, Eq)]
pub struct FullStat {
    /// The message of the day.
    pub hostname: String,
    /// The game type; always `SMP` in a report that was decoded.
    pub game_type: String,
    /// The game id; always `MINECRAFT` in a report that was decoded.
    pub game_id: String,
    /// The version of the server.
    pub version: String,
    /// The server software and its plugins.
    pub plugins: String,
    /// The name of the world.
    pub map: String,
    /// How many players are online.
    pub numplayers: u16,
    /// How many players the server admits.
    pub maxplayers: u16,
    /// The port that the server listens on.
    pub hostport: u16,
    /// The address that the server listens on.
    pub hostip: String,
    /// The names of the players online; none of them is empty.
    pub players: Vec<String>,
}

/// A full status report with its texts as sequences of characters.
pub struct FullStatView {
    pub hostname: Seq<char>,
    pub game_type: Seq<char>,
    pub game_id: Seq<char>,
    pub version: Seq<char>,
    pub plugins: Seq<char>,
    pub map: Seq<char>,
    pub numplayers: u16,
    pub maxplayers: u16,
    pub hostport: u16,
    pub hostip: Seq<char>,
    pub players: Seq<Seq<char>>,
}

impl View for FullStat {
    type V = FullStatView;

    open spec fn view(&self) -> FullStatView {
        FullStatView {
            hostname: self.hostname@,
            game_type: self.game_type@,
            game_id: self.game_id@,
            version: self.version@,
            plugins: self.plugins@,
            map: self.map@,
            numplayers: self.numplayers,
            maxplayers: self.maxplayers,
            hostport: self.hostport,
            hostip: self.hostip@,
            players: texts_of(self.players@),
        }
    }
}

impl FullStatView {
    /// What the protocol fixes in a full status report: the game type and
    /// the game id.
    pub open spec fn valid(self) -> bool {
        self.game_type == "SMP"@ && self.game_id == "MINECRAFT"@
    }

    /// The same report with another player list.
    pub open spec fn with_players(self, players: Seq<Seq<char>>) -> FullStatView {
        FullStatView { players, ..self }
    }
}

impl FullStat {
    /// The ten key/value pairs of a full status report as they stand in
    /// `buf` from `at` on, with the offset after the last: six texts, three
    /// 16-bit integers and one more text. The player list is left empty.
    pub open spec fn spec_head(buf: Seq<u8>, at: int) -> Result<(FullStatView, int), Error> {
        match spec_kv_string(buf, at) { Err(e) => Err(e), Ok((hostname, at1)) =>
        match spec_kv_string(buf, at1) { Err(e) => Err(e), Ok((game_type, at2)) =>
        match spec_kv_string(buf, at2) { Err(e) => Err(e), Ok((game_id, at3)) =>
        match spec_kv_string(buf, at3) { Err(e) => Err(e), Ok((version, at4)) =>
        match spec_kv_string(buf, at4) { Err(e) => Err(e), Ok((plugins, at5)) =>
        match spec_kv_string(buf, at5) { Err(e) => Err(e), Ok((map, at6)) =>
        match spec_kv_u16(buf, at6) { Err(e) => Err(e), Ok((numplayers, at7)) =>
        match spec_kv_u16(buf, at7) { Err(e) => Err(e), Ok((maxplayers, at8)) =>
        match spec_kv_u16(buf, at8) { Err(e) => Err(e), Ok((hostport, at9)) =>
        match spec_kv_string(buf, at9) { Err(e) => Err(e), Ok((hostip, at10)) =>
            Ok((
                FullStatView {
                    hostname,
                    game_type,
                    game_id,
                    version,
                    plugins,
                    map,
                    numplayers,
                    maxplayers,
                    hostport,
                    hostip,
                    players: Seq::empty(),
                },
                at10,
            ))
        }}}}}}}}}}
    }

    /// Reads the ten key/value pairs of a full status report, whatever they
    /// hold, and gives them with the offset after the last.
    pub fn read_head(buf: &[u8], at: usize) -> (r: Result<(Self, usize), Error>)
        ensures
            match r {
                Ok((stat, next)) => Self::spec_head(buf@, at as int) == Ok::<
                    (FullStatView, int),
                    Error,
                >((stat@, next as int)),
                Err(e) => Self::spec_head(buf@, at as int) == Err::<(FullStatView, int), Error>(e),
            },
    {
        let (hostname, at1) = kv_string_parser(buf, at)?;
        let (game_type, at2) = kv_string_parser(buf, at1)?;
        let (game_id, at3) = kv_string_parser(buf, at2)?;
        let (version, at4) = kv_string_parser(buf, at3)?;
        let (plugins, at5) = kv_string_parser(buf, at4)?;
        let (map, at6) = kv_string_parser(buf, at5)?;
        let (numplayers, at7) = kv_u16_parser(buf, at6)?;
        let (maxplayers, at8) = kv_u16_parser(buf, at7)?;
        let (hostport, at9) = kv_u16_parser(buf, at8)?;
        let (hostip, at10) = kv_string_parser(buf, at9)?;
        let players: Vec<String> = Vec::new();
        assert(texts_of(players@) =~= Seq::<Seq<char>>::empty());
        Ok(
            (
                FullStat {
                    hostname,
                    game_type,
                    game_id,
                    version,
                    plugins,
                    map,
                    numplayers,
                    maxplayers,
                    hostport,
                    hostip,
                    players,
                },
                at10,
            ),
        )
    }

    /// Passes a report on if its game type and game id are the ones that the
    /// protocol fixes, and fails with `ProtocolMismatch` if not.
    pub fn validate(self) -> (r: Result<Self, Error>)
        ensures
            match r {
                Ok(stat) => self@.valid() && stat == self,
                Err(e) => !self@.valid() && e == Error::ProtocolMismatch,
            },
    {
        if text_is(&self.game_type, "SMP") && text_is(&self.game_id, "MINECRAFT") {
            Ok(self)
        } else {
            Err(Error::ProtocolMismatch)
        }
    }

    /// Puts the player list into a report: the entries read, without the
    /// empty ones.
    pub fn with_players(self, entries: Vec<String>) -> (stat: Self)
        ensures
            stat@ == self@.with_players(non_empty(texts_of(entries@))),
    {
        FullStat {
            hostname: self.hostname,
            game_type: self.game_type,
            game_id: self.game_id,
            version: self.version,
            plugins: self.plugins,
            map: self.map,
            numplayers: self.numplayers,
            maxplayers: self.maxplayers,
            hostport: self.hostport,
            hostip: self.hostip,
            players: drop_empty(entries),
        }
    }
}

impl ResponsePayload for FullStat {
    /// Eleven bytes of padding, the ten key/value pairs, the check of game
    /// type and game id, ten bytes of padding, and one string more than
    /// there are players, of which the empty ones are left out.
    open spec fn spec_read(buf: Seq<u8>, at: int) -> Result<FullStatView, Error> {
        match Self::spec_head(buf, at + FULL_STAT_PADDING) {
            Err(e) => Err(e),
            Ok((head, rest)) => if !head.valid() {
                Err(Error::ProtocolMismatch)
            } else {
                match spec_texts(buf, rest + PLAYERS_PADDING, (head.numplayers + 1) as nat) {
                    Err(e) => Err(e),
                    Ok((entries, _)) => Ok(head.with_players(non_empty(entries))),
                }
            },
        }
    }

    fn read(buf: &[u8], at: usize) -> (r: Result<Self, Error>)
        ensures
            r matches Ok(stat) ==> {
                &&& stat.game_type@ == "SMP"@
                &&& stat.game_id@ == "MINECRAFT"@
                &&& stat.players@.len() <= stat.numplayers + 1
                &&& forall|i: int|
                    0 <= i < stat.players@.len() ==> (#[trigger] stat.players@[i])@.len() > 0
            },
    {
        let start = match skip(buf, at, FULL_STAT_PADDING) {
            Some(start) => start,
            None => {
                return Err(Error::Truncated);
            },
        };
        let (head, rest) = Self::read_head(buf, start)?;
        let head = head.validate()?;
        let list = match skip(buf, rest, PLAYERS_PADDING) {
            Some(list) => list,
            None => {
                proof {
                    let from = rest + PLAYERS_PADDING;
                    assert(spec_texts(buf@, from, 0) is Ok);
                    assert(spec_texts(buf@, from, 1) is Err);
                    lemma_texts_error_persists(buf@, from, 1, (head.numplayers + 1) as nat);
                }
                return Err(Error::Truncated);
            },
        };
        let count: usize = head.numplayers as usize + 1;
        let (entries, _) = read_texts(buf, list, count)?;
        let stat = head.with_players(entries);
        proof {
            lemma_players_named(buf@, at as int);
            assert forall|i: int| 0 <= i < stat.players@.len() implies (
            #[trigger] stat.players@[i])@.len() > 0 by {
                assert(texts_of(stat.players@)[i] == stat.players@[i]@);
            }
        }
        Ok(stat)
    }

    proof fn lemma_read_errors(buf: Seq<u8>, at: int) {
        if let Ok((head, rest)) = Self::spec_head(buf, at + FULL_STAT_PADDING) {
            lemma_texts_outcome(buf, rest + PLAYERS_PADDING, (head.numplayers + 1) as nat);
        }
    }
}

/// No player of a full status report has an empty name, and the report
/// names at most one player more than it counts.
pub proof fn lemma_players_named(buf: Seq<u8>, at: int)
    ensures
        FullStat::spec_read(buf, at) matches Ok(stat) ==> {
            &&& stat.players.len() <= stat.numplayers + 1
            &&& forall|i: int|
                0 <= i < stat.players.len() ==> (#[trigger] stat.players[i]).len() > 0
        },
{
    if let Ok((head, rest)) = FullStat::spec_head(buf, at + FULL_STAT_PADDING) {
        let count = (head.numplayers + 1) as nat;
        if let Ok((entries, _)) = spec_texts(buf, rest + PLAYERS_PADDING, count) {
            lemma_texts_outcome(buf, rest + PLAYERS_PADDING, count);
            entries.lemma_filter_len(is_non_empty());
            assert forall|i: int| 0 <= i < non_empty(entries).len() implies (
            #[trigger] non_empty(entries)[i]).len() > 0 by {
                entries.lemma_filter_pred(is_non_empty(), i);
            }
        }
    }
}

/// A basic status report is never decoded with a game type other than
/// `SMP`: where all its fields can be read, decoding fails with
/// `ProtocolMismatch` if the game type is another, and only then.
pub proof fn lemma_basic_gametype_checked(buf: Seq<u8>, at: int)
    ensures
        BasicStat::spec_read(buf, at) matches Ok(stat) ==> stat.gametype == "SMP"@,
        BasicStat::spec_fields(buf, at) matches Ok(stat) ==> (stat.gametype != "SMP"@
            <==> BasicStat::spec_read(buf, at) == Err::<BasicStatView, Error>(
            Error::ProtocolMismatch,
        )),
{
}

/// A full status report is never decoded with a game type other than `SMP`
/// or a game id other than `MINECRAFT`: where its ten key/value pairs can be
/// read, decoding fails with `ProtocolMismatch` if one of the two is
/// another, and only then.
pub proof fn lemma_full_game_checked(buf: Seq<u8>, at: int)
    ensures
        FullStat::spec_read(buf, at) matches Ok(stat) ==> stat.game_type == "SMP"@ && stat.game_id
            == "MINECRAFT"@,
        FullStat::spec_head(buf, at + FULL_STAT_PADDING) matches Ok((head, _)) ==> ((head.game_type
            != "SMP"@ || head.game_id != "MINECRAFT"@) <==> FullStat::spec_read(buf, at) == Err::<
            FullStatView,
            Error,
        >(Error::ProtocolMismatch)),
{
    if let Ok((head, rest)) = FullStat::spec_head(buf, at + FULL_STAT_PADDING) {
        lemma_texts_outcome(buf, rest + PLAYERS_PADDING, (head.numplayers + 1) as nat);
    }
}

/// Decoding a datagram fails with `Truncated`, `MalformedField` or
/// `ProtocolMismatch`, never with an error of the transport, and a datagram
/// too short for the header is `Truncated`.
pub proof fn lemma_decode_errors<T: ResponsePayload>(buf: Seq<u8>)
    ensures
        PacketBase::<T>::spec_decode(buf) matches Err(e) ==> is_decode_error(e),
        buf.len() < HEADER_LEN ==> PacketBase::<T>::spec_decode(buf) == Err::<
            PacketBaseView<T::V>,
            Error,
        >(Error::Truncated),
{
    T::lemma_read_errors(buf, HEADER_LEN as int);
}

} // verus!
