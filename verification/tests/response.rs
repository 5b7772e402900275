use mcsc_query::packets::response::{
    drop_empty, read_texts, skip, text_is, BasicStat, FullStat, Handshake, PacketBase,
    ResponsePayload,
};
use mcsc_query::Error;

const HOSTIP: &str = "192.168.178.28";

fn basic_reply() -> Vec<u8> {
    let mut reply = vec![0x00, 0x01, 0x02, 0x03, 0x04];
    reply.extend_from_slice(b"A Minecraft Server\0SMP\0world\x000\x0020\0");
    reply.extend_from_slice(&[0xDD, 0x63]);
    reply.extend_from_slice(b"192.168.178.28\0");
    reply
}

fn full_reply(game_type: &str, game_id: &str, numplayers: &str, list: &[u8]) -> Vec<u8> {
    let mut reply = vec![0x00, 0x01, 0x02, 0x03, 0x04];
    reply.extend_from_slice(b"splitnum\0\x80\0");
    reply.extend_from_slice(b"hostname\0A Minecraft Server\0gametype\0");
    reply.extend_from_slice(game_type.as_bytes());
    reply.extend_from_slice(b"\0game_id\0");
    reply.extend_from_slice(game_id.as_bytes());
    reply.extend_from_slice(b"\0version\x001.20.4\0plugins\0\0map\0world\0numplayers\0");
    reply.extend_from_slice(numplayers.as_bytes());
    reply.extend_from_slice(b"\0maxplayers\x0020\0hostport\x0025565\0hostip\x00192.168.178.28\0");
    reply.extend_from_slice(b"\0\x01player_\0");
    reply.extend_from_slice(list);
    reply
}

fn expected_basic() -> BasicStat {
    BasicStat {
        motd: "A Minecraft Server".to_string(),
        gametype: "SMP".to_string(),
        map: "world".to_string(),
        numplayers: 0,
        maxplayers: 20,
        hostport: 25565,
        hostip: HOSTIP.to_string(),
    }
}

fn expected_full(numplayers: u16, players: &[&str]) -> FullStat {
    FullStat {
        hostname: "A Minecraft Server".to_string(),
        game_type: "SMP".to_string(),
        game_id: "MINECRAFT".to_string(),
        version: "1.20.4".to_string(),
        plugins: "".to_string(),
        map: "world".to_string(),
        numplayers,
        maxplayers: 20,
        hostport: 25565,
        hostip: HOSTIP.to_string(),
        players: players.iter().map(|p| p.to_string()).collect(),
    }
}

#[test]
fn handshake_response_decodes() {
    let reply = b"\x09\x0E\x03\x0C\x019513307\0";
    let packet = PacketBase::<Handshake>::decode(reply).unwrap();
    assert_eq!(packet.packet_type, 9);
    assert_eq!(packet.session_id, 0x0E030C01);
    assert_eq!(packet.payload.challenge_token, 0x0091295B);
}

#[test]
fn handshake_response_errors() {
    assert_eq!(PacketBase::<Handshake>::decode(b"").err(), Some(Error::Truncated));
    assert_eq!(PacketBase::<Handshake>::decode(b"\x09\x00\x00\x00").err(), Some(Error::Truncated));
    assert_eq!(PacketBase::<Handshake>::decode(b"\x09\x00\x00\x00\x01").err(), Some(Error::Truncated));
    assert_eq!(PacketBase::<Handshake>::decode(b"\x09\x00\x00\x00\x0112").err(), Some(Error::Truncated));
    assert_eq!(
        PacketBase::<Handshake>::decode(b"\x09\x00\x00\x00\x01\0").err(),
        Some(Error::MalformedField { pos: 5 })
    );
    assert_eq!(
        PacketBase::<Handshake>::decode(b"\x09\x00\x00\x00\x01-12\0").err(),
        Some(Error::MalformedField { pos: 5 })
    );
    assert_eq!(
        PacketBase::<Handshake>::decode(b"\x09\x00\x00\x00\x014294967296\0").err(),
        Some(Error::MalformedField { pos: 5 })
    );
}

#[test]
fn tag_is_not_checked() {
    for tag in [0u8, 9, 1, 0x7F, 0xFF] {
        let mut reply = vec![tag, 0, 0, 0, 7];
        reply.extend_from_slice(b"42\0trailing bytes are left alone");
        let packet = PacketBase::<Handshake>::decode(&reply).unwrap();
        assert_eq!(packet.packet_type, tag);
        assert_eq!(packet.session_id, 7);
        assert_eq!(packet.payload.challenge_token, 42);
    }
}

#[test]
fn basic_stat_decodes() {
    let packet = PacketBase::<BasicStat>::decode(&basic_reply()).unwrap();
    assert_eq!(packet.packet_type, 0);
    assert_eq!(packet.session_id, 0x01020304);
    assert_eq!(packet.payload, expected_basic());
}

#[test]
fn basic_stat_from_vec() {
    let packet: PacketBase<BasicStat> = basic_reply().try_into().unwrap();
    assert_eq!(packet.payload, expected_basic());
    let short: Result<PacketBase<BasicStat>, Error> = vec![0u8, 1, 2].try_into();
    assert_eq!(short.err(), Some(Error::Truncated));
}

#[test]
fn basic_hostport_is_little_endian() {
    let mut reply = vec![0x00, 0, 0, 0, 1];
    reply.extend_from_slice(b"m\0SMP\0w\x001\x002\0");
    reply.extend_from_slice(&[0x01, 0x02]);
    reply.extend_from_slice(b"ip\0");
    let stat = PacketBase::<BasicStat>::decode(&reply).unwrap().payload;
    assert_eq!(stat.hostport, 0x0201);
    assert_eq!(stat.numplayers, 1);
    assert_eq!(stat.maxplayers, 2);
}

#[test]
fn basic_gametype_must_be_smp() {
    for gametype in ["", "smp", "SMP ", "SM", "SMPP", "CREATIVE"] {
        let mut reply = vec![0x00, 0, 0, 0, 1];
        reply.extend_from_slice(b"motd\0");
        reply.extend_from_slice(gametype.as_bytes());
        reply.extend_from_slice(b"\0world\x000\x0020\0\xDD\x63host\0");
        assert_eq!(PacketBase::<BasicStat>::decode(&reply).err(), Some(Error::ProtocolMismatch));
        assert_eq!(BasicStat::read(&reply, 5).err(), Some(Error::ProtocolMismatch));
        let fields = BasicStat::read_fields(&reply, 5).unwrap();
        assert_eq!(fields.gametype, gametype);
        assert_eq!(fields.validate().err(), Some(Error::ProtocolMismatch));
    }
    assert_eq!(expected_basic().validate(), Ok(expected_basic()));
}

#[test]
fn basic_errors_come_in_field_order() {
    let whole = basic_reply();
    for cut in 0..whole.len() {
        assert_eq!(
            PacketBase::<BasicStat>::decode(&whole[..cut]).err(),
            Some(Error::Truncated),
            "cut at {}",
            cut
        );
    }
    // a wrong game type is reported once every field has been read, not before
    let mut reply = vec![0x00, 0, 0, 0, 1];
    reply.extend_from_slice(b"motd\0XYZ\0world\0many\x0020\0\xDD\x63host\0");
    assert_eq!(
        PacketBase::<BasicStat>::decode(&reply).err(),
        Some(Error::MalformedField { pos: 20 })
    );
    let mut reply = vec![0x00, 0, 0, 0, 1];
    reply.extend_from_slice(b"motd\0XYZ\0world\x000\x0070000\0\xDD\x63host\0");
    assert_eq!(
        PacketBase::<BasicStat>::decode(&reply).err(),
        Some(Error::MalformedField { pos: 22 })
    );
    let mut reply = vec![0x00, 0, 0, 0, 1];
    reply.extend_from_slice(b"motd\0XYZ\0world\x000\x0020\0\xDD\x63host");
    assert_eq!(PacketBase::<BasicStat>::decode(&reply).err(), Some(Error::Truncated));
}

#[test]
fn full_stat_decodes() {
    let reply = full_reply("SMP", "MINECRAFT", "0", b"\0\0");
    let packet = PacketBase::<FullStat>::decode(&reply).unwrap();
    assert_eq!(packet.packet_type, 0);
    assert_eq!(packet.session_id, 0x01020304);
    assert_eq!(packet.payload, expected_full(0, &[]));
}

#[test]
fn full_stat_lists_players() {
    let reply = full_reply("SMP", "MINECRAFT", "2", b"\0Alice\0Bob\0\0");
    let stat = PacketBase::<FullStat>::decode(&reply).unwrap().payload;
    assert_eq!(stat, expected_full(2, &["Alice", "Bob"]));
}

#[test]
fn full_stat_drops_empty_players() {
    let reply = full_reply("SMP", "MINECRAFT", "4", b"\0Alice\0\0Bob\0\0");
    let stat = PacketBase::<FullStat>::decode(&reply).unwrap().payload;
    assert_eq!(stat.numplayers, 4);
    assert_eq!(stat.players, vec!["Alice".to_string(), "Bob".to_string()]);

    for (numplayers, list) in [
        ("0", &b"\0"[..]),
        ("1", b"\0one\0"),
        ("3", b"\0\0\0\0"),
        ("3", b"a\0b\0c\0d\0"),
        ("2", b"\0\xA7\0x\0"),
    ] {
        let reply = full_reply("SMP", "MINECRAFT", numplayers, list);
        let stat = PacketBase::<FullStat>::decode(&reply).unwrap().payload;
        assert!(stat.players.iter().all(|p| !p.is_empty()));
        assert!(stat.players.len() <= stat.numplayers as usize + 1);
    }
}

#[test]
fn full_stat_reads_one_string_more_than_players() {
    let reply = full_reply("SMP", "MINECRAFT", "2", b"\0Alice\0Bob");
    assert_eq!(PacketBase::<FullStat>::decode(&reply).err(), Some(Error::Truncated));
    let reply = full_reply("SMP", "MINECRAFT", "1", b"\0Alice\0Bob");
    let stat = PacketBase::<FullStat>::decode(&reply).unwrap().payload;
    assert_eq!(stat.players, vec!["Alice".to_string()]);
    let reply = full_reply("SMP", "MINECRAFT", "65535", b"\0Alice\0");
    assert_eq!(PacketBase::<FullStat>::decode(&reply).err(), Some(Error::Truncated));
}

#[test]
fn full_game_must_be_minecraft_smp() {
    for (game_type, game_id) in [("SMP", "minecraft"), ("smp", "MINECRAFT"), ("", ""), ("SMP", ""), ("MINECRAFT", "SMP")] {
        let reply = full_reply(game_type, game_id, "0", b"\0\0");
        assert_eq!(PacketBase::<FullStat>::decode(&reply).err(), Some(Error::ProtocolMismatch));
        let (head, _) = FullStat::read_head(&reply, 16).unwrap();
        assert_eq!(head.game_type, game_type);
        assert_eq!(head.game_id, game_id);
        assert_eq!(head.validate().err(), Some(Error::ProtocolMismatch));
    }
    // the check comes before the player list is read
    let reply = full_reply("XYZ", "MINECRAFT", "5", b"");
    assert_eq!(PacketBase::<FullStat>::decode(&reply).err(), Some(Error::ProtocolMismatch));
    let reply = full_reply("SMP", "MINECRAFT", "5", b"");
    assert_eq!(PacketBase::<FullStat>::decode(&reply).err(), Some(Error::Truncated));
}

#[test]
fn full_errors_come_in_field_order() {
    let whole = full_reply("SMP", "MINECRAFT", "1", b"\0Alice\0");
    for cut in 0..whole.len() {
        assert_eq!(
            PacketBase::<FullStat>::decode(&whole[..cut]).err(),
            Some(Error::Truncated),
            "cut at {}",
            cut
        );
    }
    assert!(PacketBase::<FullStat>::decode(&whole).is_ok());

    let reply = full_reply("XYZ", "MINECRAFT", "many", b"\0\0");
    let value_at = reply.windows(5).position(|w| w == b"many\0").unwrap();
    assert_eq!(
        PacketBase::<FullStat>::decode(&reply).err(),
        Some(Error::MalformedField { pos: value_at })
    );
}

#[test]
fn full_head_leaves_the_player_list_empty() {
    let reply = full_reply("SMP", "MINECRAFT", "2", b"\0Alice\0Bob\0\0");
    let (head, next) = FullStat::read_head(&reply, 16).unwrap();
    assert_eq!(head, expected_full(2, &[]));
    assert_eq!(&reply[next..next + 10], b"\0\x01player_\0");
    let names = vec!["".to_string(), "Alice".to_string(), "".to_string(), "Bob".to_string()];
    assert_eq!(head.with_players(names), expected_full(2, &["Alice", "Bob"]));
}

#[test]
fn texts_in_a_row() {
    let input = b"..one\0\0three\0rest";
    assert_eq!(read_texts(input, 2, 0), Ok((vec![], 2)));
    assert_eq!(read_texts(input, 2, 1), Ok((vec!["one".to_string()], 6)));
    assert_eq!(
        read_texts(input, 2, 3),
        Ok((vec!["one".to_string(), "".to_string(), "three".to_string()], 13))
    );
    assert_eq!(read_texts(input, 2, 4), Err(Error::Truncated));
    assert_eq!(read_texts(input, 2, usize::MAX), Err(Error::Truncated));
    assert_eq!(read_texts(input, 99, 0), Ok((vec![], 99)));
    assert_eq!(read_texts(input, 99, 1), Err(Error::Truncated));
}

#[test]
fn empty_strings_are_dropped_in_order() {
    let strings = |items: &[&str]| items.iter().map(|s| s.to_string()).collect::<Vec<String>>();
    assert_eq!(drop_empty(strings(&[])), strings(&[]));
    assert_eq!(drop_empty(strings(&[""])), strings(&[]));
    assert_eq!(drop_empty(strings(&["", "", ""])), strings(&[]));
    assert_eq!(drop_empty(strings(&["a", "", "b", "a", ""])), strings(&["a", "b", "a"]));
    assert_eq!(drop_empty(strings(&[" ", "\u{0}"])), strings(&[" ", "\u{0}"]));
}

#[test]
fn skip_stays_within_the_datagram() {
    let buf = [0u8; 16];
    assert_eq!(skip(&buf, 5, 11), Some(16));
    assert_eq!(skip(&buf, 5, 10), Some(15));
    assert_eq!(skip(&buf, 5, 12), None);
    assert_eq!(skip(&buf, 16, 0), Some(16));
    assert_eq!(skip(&buf, 17, 0), None);
    assert_eq!(skip(&buf, usize::MAX, 11), None);
    assert_eq!(skip(&buf, 5, usize::MAX), None);
}

#[test]
fn text_comparison() {
    assert!(text_is(&"SMP".to_string(), "SMP"));
    assert!(!text_is(&"SMP".to_string(), "SMp"));
    assert!(!text_is(&"SMP".to_string(), "SM"));
    assert!(!text_is(&"".to_string(), "SMP"));
    assert!(text_is(&"".to_string(), ""));
}
