use minecraft_client::{
    configure_step, decode_packet_header, login_step, payload_len, phase_after_handshake,
    play_step, status_step, ClientboundKnownPacksPacket, ClientboundPlayKeepAlivePacket,
    ConfigurationKeepAlivePacket, DataPack, Error, FinishConfigurationPacket, GameProfile,
    HandshakeIntent, LoginSuccessPacket, MString, MinecraftData, Packet, PacketHeader, Phase,
    StatusResponsePacket, VarInt, UUID, ClientboundConfigurationPluginMessagePacket,
    PluginChannelData,
};

fn enc<T: MinecraftData>(v: &T) -> Vec<u8> {
    let mut out = Vec::new();
    v.encode(&mut out).unwrap();
    out
}

fn frame<P: Packet>(p: &P) -> Vec<u8> {
    let mut out = Vec::new();
    p.encode_packet(&mut out).unwrap();
    out
}

fn mstring<const N: usize>(s: &str) -> MString<N> {
    MString::<N>::from_bytes(s.as_bytes().to_vec()).unwrap()
}

fn header(len: i32, id: i32) -> PacketHeader {
    PacketHeader { len: VarInt(len), id: VarInt(id) }
}

#[test]
fn handshake_intent_chooses_the_next_phase() {
    assert_eq!(phase_after_handshake(HandshakeIntent::Status), Phase::Status);
    assert_eq!(phase_after_handshake(HandshakeIntent::Login), Phase::Login);
    assert_eq!(phase_after_handshake(HandshakeIntent::Transfer), Phase::Login);
}

#[test]
fn play_keep_alive_is_reflected_with_the_same_id() {
    let inbound = ClientboundPlayKeepAlivePacket { keep_alive_id: 0x0123456789ABCDEFi64 };
    let payload = enc(&inbound);
    let reply = play_step(&header(9, 0x2B), &payload).unwrap().unwrap();
    // Frame: length 9 (one id byte + eight payload bytes), id 0x1B, the id bytes.
    let mut expected = vec![0x09, 0x1B];
    expected.extend_from_slice(&[0x01, 0x23, 0x45, 0x67, 0x89, 0xAB, 0xCD, 0xEF]);
    assert_eq!(reply, expected);
}

#[test]
fn play_ignores_unknown_packets() {
    let reply = play_step(&header(5, 0x42), &vec![1, 2, 3, 4]).unwrap();
    assert!(reply.is_none());
}

#[test]
fn play_keep_alive_with_a_short_payload_fails() {
    assert_eq!(play_step(&header(9, 0x2B), &vec![0x01, 0x23]), Err(Error::UnexpectedEnd));
}

#[test]
fn configuration_keep_alive_is_reflected() {
    let inbound = ConfigurationKeepAlivePacket { keep_alive_id: -7 };
    let payload = enc(&inbound);
    let step = configure_step(&header(9, 0x04), &payload).unwrap();
    assert!(!step.done);
    let reply = step.reply.unwrap();
    let expected = frame(&ConfigurationKeepAlivePacket { keep_alive_id: -7 });
    assert_eq!(reply, expected);
}

#[test]
fn configuration_known_packs_are_acknowledged_in_full() {
    let inbound = ClientboundKnownPacksPacket {
        known_packs: vec![DataPack {
            namespace: mstring("minecraft"),
            id: mstring("core"),
            version: mstring("1.21.9"),
        }],
    };
    let payload = enc(&inbound);
    let step = configure_step(&header(1 + payload.len() as i32, 0x0E), &payload).unwrap();
    assert!(!step.done);
    let reply = step.reply.unwrap();
    // The reply is the same list, framed under the serverbound id 0x07.
    assert_eq!(reply[1], 0x07);
    assert_eq!(&reply[2..], &payload[..]);
}

#[test]
fn configuration_finish_is_acknowledged_and_ends_the_phase() {
    let payload = enc(&FinishConfigurationPacket);
    let step = configure_step(&header(1, 0x03), &payload).unwrap();
    assert!(step.done);
    assert_eq!(step.reply.unwrap(), vec![0x01, 0x03]);
}

#[test]
fn configuration_skips_registry_data_and_unknown_ids() {
    let step = configure_step(&header(4, 0x07), &vec![1, 2, 3]).unwrap();
    assert!(step.reply.is_none());
    assert!(!step.done);
    let step = configure_step(&header(4, 0x55), &vec![1, 2, 3]).unwrap();
    assert!(step.reply.is_none());
    assert!(!step.done);
}

#[test]
fn login_success_is_acknowledged() {
    let inbound = LoginSuccessPacket {
        client: GameProfile {
            uuid: UUID(1),
            username: mstring("robotabc773"),
            properties: vec![],
        },
    };
    let payload = enc(&inbound);
    let (pkt, reply) = login_step(&header(1 + payload.len() as i32, 0x02), &payload).unwrap();
    assert_eq!(pkt.client.username.as_bytes(), b"robotabc773");
    assert_eq!(reply, vec![0x01, 0x03]);
}

#[test]
fn login_rejects_an_out_of_place_packet() {
    assert_eq!(
        login_step(&header(3, 0x01), &vec![0, 0]).unwrap_err(),
        Error::UnexpectedPacket
    );
}

#[test]
fn status_response_is_decoded() {
    let inbound = StatusResponsePacket { json_response: mstring("{\"version\":{}}") };
    let payload = enc(&inbound);
    let pkt = status_step(&header(1 + payload.len() as i32, 0x00), &payload).unwrap();
    assert_eq!(pkt.json_response.as_bytes(), b"{\"version\":{}}");
}

#[test]
fn a_full_exchange_parses_its_own_frames() {
    // Frame a keep-alive, then read it back header-first as the dispatch
    // loop would.
    let outbound = frame(&ClientboundPlayKeepAlivePacket { keep_alive_id: 99 });
    let (h, consumed) = decode_packet_header(&outbound, 0).unwrap();
    assert_eq!(h.id, VarInt(0x2B));
    let plen = payload_len(&h).unwrap();
    assert_eq!(consumed + plen, outbound.len());
    let payload = outbound[consumed..].to_vec();
    let reply = play_step(&h, &payload).unwrap().unwrap();
    let (rh, rconsumed) = decode_packet_header(&reply, 0).unwrap();
    assert_eq!(rh.id, VarInt(0x1B));
    let (echoed, end) =
        minecraft_client::ServerboundPlayKeepAlivePacket::decode(&reply, rconsumed).unwrap();
    assert_eq!(end, reply.len());
    assert_eq!(echoed.keep_alive_id, 99);
}

#[test]
fn payload_len_rejects_a_length_smaller_than_the_id() {
    let h = PacketHeader { len: VarInt(0), id: VarInt(300) };
    assert!(payload_len(&h).is_err());
    let h = PacketHeader { len: VarInt(-1), id: VarInt(0) };
    assert_eq!(payload_len(&h).unwrap_err(), Error::NegativeLength);
}

#[test]
fn configuration_checks_plugin_messages_it_can_read() {
    let pkt = ClientboundConfigurationPluginMessagePacket {
        data: PluginChannelData::MinecraftBrand(mstring("vanilla")),
    };
    let payload = enc(&pkt);
    let step = configure_step(&header(1 + payload.len() as i32, 0x01), &payload).unwrap();
    assert!(step.reply.is_none());
    assert!(!step.done);
}

#[test]
fn configuration_rejects_a_malformed_keep_alive() {
    assert!(configure_step(&header(9, 0x04), &vec![0x00]).is_err());
}
