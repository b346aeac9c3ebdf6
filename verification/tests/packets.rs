use minecraft_client::{
    decode_packet_header, payload_len, ChangeDifficultyPacket,
    ClientboundConfigurationPluginMessagePacket, ClientboundSetHeldItemPacket,
    ConfigurationUpdateTagsPacket, DataPack, Difficulty, EncryptionRequestPacket, Error,
    FeatureFlagsPacket, GameProfile, GameProfileProperty, HandshakeIntent, HandshakePacket, IDSet,
    LoginStartPacket, MString, MinecraftData, Packet, PlayLoginPacket, PlayLoginSetup,
    PlayLoginState, PluginChannelData, Position, RegistryDataPacket, RegistryEntry, Slot,
    SlotDisplay, StatusRequestPacket, StonecutterRecipe, Tag, TaggedRegistry, UpdateRecipesPacket,
    VarInt, UUID,
};

fn enc<T: MinecraftData>(v: &T) -> Vec<u8> {
    let mut out = Vec::new();
    v.encode(&mut out).unwrap();
    out
}

fn frame<P: Packet>(p: &P) -> Vec<u8> {
    let mut out = Vec::new();
    p.encode_packet(&mut out).unwrap();
    out
}

fn mstring<const N: usize>(s: &str) -> MString<N> {
    MString::<N>::from_bytes(s.as_bytes().to_vec()).unwrap()
}

#[test]
fn handshake_payload_matches_the_wire_bytes() {
    let pkt = HandshakePacket {
        protocol_version: VarInt(-1),
        server_address: mstring("localhost"),
        server_port: 25565,
        intent: HandshakeIntent::Status,
    };
    let mut expected = vec![0xFF, 0xFF, 0xFF, 0xFF, 0x0F, 0x09];
    expected.extend_from_slice(b"localhost");
    expected.extend_from_slice(&[0x63, 0xDD, 0x01]);
    assert_eq!(enc(&pkt), expected);
    assert_eq!(pkt.num_bytes(), expected.len());
}

#[test]
fn handshake_frame_prefixes_length_and_id() {
    let pkt = HandshakePacket {
        protocol_version: VarInt(-1),
        server_address: mstring("localhost"),
        server_port: 25565,
        intent: HandshakeIntent::Status,
    };
    let framed = frame(&pkt);
    // The payload is 18 bytes (the protocol version -1 takes five), so the
    // outer length is 1 (id) + 18 = 19.
    assert_eq!(framed[0], 0x13);
    assert_eq!(framed[1], 0x00);
    assert_eq!(framed.len(), 0x13 + 1);
    assert_eq!(&framed[2..], &enc(&pkt)[..]);
}

#[test]
fn packet_header_reads_length_then_id() {
    let pkt = HandshakePacket {
        protocol_version: VarInt(-1),
        server_address: mstring("localhost"),
        server_port: 25565,
        intent: HandshakeIntent::Status,
    };
    let framed = frame(&pkt);
    let (header, consumed) = decode_packet_header(&framed, 0).unwrap();
    assert_eq!(header.len, VarInt(19));
    assert_eq!(header.id, VarInt(0));
    assert_eq!(consumed, 2);
    assert_eq!(payload_len(&header).unwrap(), 18);
    let (back, end) = HandshakePacket::decode(&framed, consumed).unwrap();
    assert_eq!(end, framed.len());
    assert_eq!(enc(&back), enc(&pkt));
}

#[test]
fn unit_packets_have_empty_payloads() {
    let framed = frame(&StatusRequestPacket);
    assert_eq!(framed, vec![0x01, 0x00]);
}

#[test]
fn login_start_round_trips() {
    let pkt = LoginStartPacket { name: mstring("robotabc773"), uuid: UUID(0) };
    let bytes = enc(&pkt);
    let (back, end) = LoginStartPacket::decode(&bytes, 0).unwrap();
    assert_eq!(end, bytes.len());
    assert_eq!(back.name, pkt.name);
    assert_eq!(back.uuid, pkt.uuid);
}

#[test]
fn slot_with_count_zero_is_one_byte() {
    let slot = Slot::empty();
    assert_eq!(enc(&slot), vec![0x00]);
    let bytes = vec![0x00];
    let (back, end) = Slot::decode(&bytes, 0).unwrap();
    assert_eq!(end, 1);
    assert_eq!(back, Slot::empty());
    assert_eq!(back.id, None);
    assert_eq!(back.num_components_add, None);
    assert_eq!(back.num_components_remove, None);
}

#[test]
fn slot_with_positive_count_carries_dependent_fields() {
    let slot = Slot {
        count: VarInt(2),
        id: Some(VarInt(9)),
        num_components_add: Some(VarInt(0)),
        num_components_remove: Some(VarInt(0)),
    };
    let bytes = enc(&slot);
    assert_eq!(bytes, vec![0x02, 0x09, 0x00, 0x00]);
    let (back, end) = Slot::decode(&bytes, 0).unwrap();
    assert_eq!(end, 4);
    assert_eq!(back, slot);
}

#[test]
fn slot_announcing_components_is_rejected() {
    // count 1, id 9, one component to add: this client cannot read components.
    let bytes = vec![0x01, 0x09, 0x01, 0x00];
    assert_eq!(Slot::decode(&bytes, 0), Err(Error::Unsupported));
}

#[test]
fn slot_whose_presence_disagrees_with_count_is_rejected() {
    let bad = Slot {
        count: VarInt(1),
        id: None,
        num_components_add: None,
        num_components_remove: None,
    };
    let mut out = Vec::new();
    assert_eq!(bad.encode(&mut out), Err(Error::InconsistentValue));
}

#[test]
fn slot_display_composite_recursion() {
    let display = SlotDisplay::Composite { options: vec![SlotDisplay::Empty, SlotDisplay::AnyFuel] };
    assert_eq!(enc(&display), vec![0x07, 0x02, 0x00, 0x01]);
    let bytes = vec![0x07, 0x02, 0x00, 0x01];
    let (back, end) = SlotDisplay::decode(&bytes, 0).unwrap();
    assert_eq!(end, 4);
    assert_eq!(enc(&back), bytes);
}

#[test]
fn slot_display_nested_round_trip() {
    let display = SlotDisplay::SmithingTrim {
        base: Box::new(SlotDisplay::Item { item_type: VarInt(5) }),
        material: Box::new(SlotDisplay::Tag { tag: mstring("minecraft:gold") }),
        pattern: VarInt(300),
    };
    let bytes = enc(&display);
    let (back, end) = SlotDisplay::decode(&bytes, 0).unwrap();
    assert_eq!(end, bytes.len());
    assert_eq!(enc(&back), bytes);
    assert_eq!(display.num_bytes(), bytes.len());
}

#[test]
fn slot_display_rejects_an_unknown_discriminant() {
    let bytes = vec![0x08];
    assert_eq!(SlotDisplay::decode(&bytes, 0).unwrap_err(), Error::UnknownDiscriminant);
}

#[test]
fn idset_named_form_uses_a_zero_prefix() {
    let set = IDSet::Named(mstring("minecraft:logs"));
    let bytes = enc(&set);
    assert_eq!(bytes[0], 0x00);
    let (back, end) = IDSet::decode(&bytes, 0).unwrap();
    assert_eq!(end, bytes.len());
    assert_eq!(enc(&back), bytes);
}

#[test]
fn idset_enumerated_form_shifts_the_count_by_one() {
    let set = IDSet::Enumerated(vec![VarInt(4), VarInt(7)]);
    let bytes = enc(&set);
    assert_eq!(bytes, vec![0x03, 0x04, 0x07]);
    let (back, end) = IDSet::decode(&bytes, 0).unwrap();
    assert_eq!(end, 3);
    assert_eq!(enc(&back), bytes);
}

#[test]
fn game_profile_round_trips() {
    let profile = GameProfile {
        uuid: UUID(42),
        username: mstring("robotabc773"),
        properties: vec![GameProfileProperty {
            name: mstring("textures"),
            value: mstring("abc"),
            signature: None,
        }],
    };
    let bytes = enc(&profile);
    let (back, end) = GameProfile::decode(&bytes, 0).unwrap();
    assert_eq!(end, bytes.len());
    assert_eq!(enc(&back), bytes);
    assert_eq!(profile.num_bytes(), bytes.len());
}

#[test]
fn plugin_message_brand_channel_is_recognized() {
    let pkt = ClientboundConfigurationPluginMessagePacket {
        data: PluginChannelData::MinecraftBrand(mstring("vanilla")),
    };
    let bytes = enc(&pkt);
    let mut expected = vec![0x0F];
    expected.extend_from_slice(b"minecraft:brand");
    expected.push(0x07);
    expected.extend_from_slice(b"vanilla");
    assert_eq!(bytes, expected);
    let (back, end) = ClientboundConfigurationPluginMessagePacket::decode(&bytes, 0).unwrap();
    assert_eq!(end, bytes.len());
    match back.data {
        PluginChannelData::MinecraftBrand(b) => assert_eq!(b.as_bytes(), b"vanilla"),
        PluginChannelData::Unknown(_) => panic!("brand channel not recognized"),
    }
}

#[test]
fn plugin_message_unknown_channel_keeps_only_the_identifier() {
    let pkt = ClientboundConfigurationPluginMessagePacket {
        data: PluginChannelData::Unknown(mstring("modloader:hello")),
    };
    let bytes = enc(&pkt);
    let (back, end) = ClientboundConfigurationPluginMessagePacket::decode(&bytes, 0).unwrap();
    assert_eq!(end, bytes.len());
    match back.data {
        PluginChannelData::Unknown(c) => assert_eq!(c.as_bytes(), b"modloader:hello"),
        PluginChannelData::MinecraftBrand(_) => panic!("unknown channel taken for brand"),
    }
}

#[test]
fn plugin_channel_identifier_names_the_channel() {
    let brand = PluginChannelData::MinecraftBrand(mstring("vanilla"));
    assert_eq!(brand.identifier().unwrap().as_bytes(), b"minecraft:brand");
    let other = PluginChannelData::Unknown(mstring("a:b"));
    assert_eq!(other.identifier().unwrap().as_bytes(), b"a:b");
}

#[test]
fn data_pack_lists_round_trip() {
    let packs = vec![
        DataPack { namespace: mstring("minecraft"), id: mstring("core"), version: mstring("1.21") },
        DataPack { namespace: mstring("minecraft"), id: mstring("lush"), version: mstring("1.0") },
    ];
    let bytes = enc(&packs);
    let (back, end): (Vec<DataPack>, usize) = Vec::<DataPack>::decode(&bytes, 0).unwrap();
    assert_eq!(end, bytes.len());
    assert_eq!(enc(&back), bytes);
}

#[test]
fn play_login_round_trips_with_a_death_location() {
    let pkt = PlayLoginPacket {
        setup: PlayLoginSetup {
            entity_id: 77,
            is_hardcore: false,
            dimension_names: vec![mstring("minecraft:overworld")],
            max_players: VarInt(20),
            view_distance: VarInt(10),
            simulation_distance: VarInt(10),
            reduced_debug_info: false,
            enable_respawn_screen: true,
            do_limited_crafting: false,
            dimension_type: VarInt(0),
            dimension_name: mstring("minecraft:overworld"),
        },
        state: PlayLoginState {
            hashed_seed: 123456789,
            game_mode: 0,
            previous_game_mode: -1,
            is_debug: false,
            is_flat: false,
            has_death_location: true,
            death_dimention_name: Some(mstring("minecraft:overworld")),
            death_location: Some(Position::new(7, 64, -3)),
            portal_cooldown: VarInt(0),
            sea_level: VarInt(63),
            enforced_secure_chat: false,
        },
    };
    let bytes = enc(&pkt);
    let (back, end) = PlayLoginPacket::decode(&bytes, 0).unwrap();
    assert_eq!(end, bytes.len());
    assert_eq!(enc(&back), bytes);
    assert_eq!(pkt.num_bytes(), bytes.len());
}

#[test]
fn play_login_omits_absent_death_fields() {
    let with_death = PlayLoginState {
        hashed_seed: 0,
        game_mode: 0,
        previous_game_mode: -1,
        is_debug: false,
        is_flat: false,
        has_death_location: false,
        death_dimention_name: None,
        death_location: None,
        portal_cooldown: VarInt(0),
        sea_level: VarInt(63),
        enforced_secure_chat: false,
    };
    let bytes = enc(&with_death);
    let (back, end) = PlayLoginState::decode(&bytes, 0).unwrap();
    assert_eq!(end, bytes.len());
    assert_eq!(back.death_dimention_name, None);
    assert_eq!(back.death_location, None);
    // The presence predicate must agree with the fields on encode.
    let bad = PlayLoginState { has_death_location: true, ..back };
    let mut out = Vec::new();
    assert_eq!(bad.encode(&mut out), Err(Error::InconsistentValue));
}

#[test]
fn update_recipes_round_trips() {
    let pkt = UpdateRecipesPacket {
        property_sets: vec![],
        stonecutter_recipes: vec![StonecutterRecipe {
            ingredients: IDSet::Enumerated(vec![VarInt(1)]),
            slot_display: SlotDisplay::ItemStack { item_stack: Slot::empty() },
        }],
    };
    let bytes = enc(&pkt);
    let (back, end) = UpdateRecipesPacket::decode(&bytes, 0).unwrap();
    assert_eq!(end, bytes.len());
    assert_eq!(enc(&back), bytes);
}

#[test]
fn tags_round_trip() {
    let tag = Tag { name: mstring("minecraft:planks"), entries: vec![VarInt(1), VarInt(2)] };
    let bytes = enc(&tag);
    let (back, end) = Tag::decode(&bytes, 0).unwrap();
    assert_eq!(end, bytes.len());
    assert_eq!(enc(&back), bytes);
}

#[test]
fn encryption_request_round_trips() {
    let pkt = EncryptionRequestPacket {
        server_id: mstring(""),
        public_key: vec![0x30, 0x82, 0x01, 0x22],
        verify_token: vec![1, 2, 3, 4],
        should_authenticate: true,
    };
    let bytes = enc(&pkt);
    let (back, end) = EncryptionRequestPacket::decode(&bytes, 0).unwrap();
    assert_eq!(end, bytes.len());
    assert_eq!(back.public_key, vec![0x30, 0x82, 0x01, 0x22]);
    assert_eq!(back.verify_token, vec![1, 2, 3, 4]);
    assert!(back.should_authenticate);
}

#[test]
fn change_difficulty_round_trips() {
    let pkt = ChangeDifficultyPacket { difficulty: Difficulty::Hard, difficulty_locked: true };
    let bytes = enc(&pkt);
    assert_eq!(bytes, vec![0x03, 0x01]);
    let (back, end) = ChangeDifficultyPacket::decode(&bytes, 0).unwrap();
    assert_eq!(end, 2);
    assert_eq!(back, pkt);
}

#[test]
fn difficulty_rejects_an_unknown_discriminant() {
    let bytes = vec![0x04];
    assert_eq!(Difficulty::decode(&bytes, 0).unwrap_err(), Error::UnknownDiscriminant);
}

#[test]
fn feature_flags_round_trip() {
    let pkt = FeatureFlagsPacket { feature_flags: vec![mstring("minecraft:vanilla")] };
    let bytes = enc(&pkt);
    let (back, end) = FeatureFlagsPacket::decode(&bytes, 0).unwrap();
    assert_eq!(end, bytes.len());
    assert_eq!(enc(&back), bytes);
}

#[test]
fn registry_data_round_trips_with_and_without_payloads() {
    let pkt = RegistryDataPacket {
        registry_id: mstring("minecraft:worldgen/biome"),
        entries: vec![
            RegistryEntry { id: mstring("minecraft:plains"), data: Some(7) },
            RegistryEntry { id: mstring("minecraft:desert"), data: None },
        ],
    };
    let bytes = enc(&pkt);
    let (back, end) = RegistryDataPacket::decode(&bytes, 0).unwrap();
    assert_eq!(end, bytes.len());
    assert_eq!(enc(&back), bytes);
}

#[test]
fn update_tags_round_trips() {
    let pkt = ConfigurationUpdateTagsPacket {
        tagged_registries: vec![TaggedRegistry {
            registry: mstring("minecraft:block"),
            tags: vec![Tag { name: mstring("minecraft:planks"), entries: vec![VarInt(3)] }],
        }],
    };
    let bytes = enc(&pkt);
    let (back, end) = ConfigurationUpdateTagsPacket::decode(&bytes, 0).unwrap();
    assert_eq!(end, bytes.len());
    assert_eq!(enc(&back), bytes);
}

#[test]
fn set_held_item_round_trips() {
    let pkt = ClientboundSetHeldItemPacket { slot: VarInt(4) };
    let bytes = enc(&pkt);
    assert_eq!(bytes, vec![0x04]);
    let (back, end) = ClientboundSetHeldItemPacket::decode(&bytes, 0).unwrap();
    assert_eq!(end, 1);
    assert_eq!(back, pkt);
}

#[test]
fn a_two_byte_packet_id_is_counted_in_the_frame_length() {
    let pkt = UpdateRecipesPacket { property_sets: vec![], stonecutter_recipes: vec![] };
    let framed = frame(&pkt);
    // Payload is two zero counts; the id 0x83 itself needs two VarInt bytes.
    assert_eq!(framed, vec![0x04, 0x83, 0x01, 0x00, 0x00]);
    let (header, consumed) = decode_packet_header(&framed, 0).unwrap();
    assert_eq!(header.len, VarInt(4));
    assert_eq!(header.id, VarInt(0x83));
    assert_eq!(payload_len(&header).unwrap(), 2);
    assert_eq!(consumed + payload_len(&header).unwrap(), framed.len());
}

#[test]
fn profile_property_signature_round_trips() {
    let prop = GameProfileProperty {
        name: mstring("textures"),
        value: mstring("abc"),
        signature: Some(mstring("sig")),
    };
    let bytes = enc(&prop);
    let (back, end) = GameProfileProperty::decode(&bytes, 0).unwrap();
    assert_eq!(end, bytes.len());
    assert_eq!(back.signature.unwrap().as_bytes(), b"sig");
}

#[test]
fn slot_display_with_remainder_round_trips() {
    let display = SlotDisplay::WithRemainder {
        ingredient: Box::new(SlotDisplay::ItemStack {
            item_stack: Slot {
                count: VarInt(3),
                id: Some(VarInt(12)),
                num_components_add: Some(VarInt(0)),
                num_components_remove: Some(VarInt(0)),
            },
        }),
        remainder: Box::new(SlotDisplay::Empty),
    };
    let bytes = enc(&display);
    assert_eq!(bytes, vec![0x06, 0x03, 0x03, 0x0C, 0x00, 0x00, 0x00]);
    let (back, end) = SlotDisplay::decode(&bytes, 0).unwrap();
    assert_eq!(end, bytes.len());
    assert_eq!(enc(&back), bytes);
    assert_eq!(display.num_bytes(), bytes.len());
}

#[test]
fn slot_display_nests_composites_in_composites() {
    let inner = SlotDisplay::Composite { options: vec![SlotDisplay::AnyFuel] };
    let display = SlotDisplay::Composite { options: vec![inner, SlotDisplay::Empty] };
    let bytes = enc(&display);
    assert_eq!(bytes, vec![0x07, 0x02, 0x07, 0x01, 0x01, 0x00]);
    let (back, end) = SlotDisplay::decode(&bytes, 0).unwrap();
    assert_eq!(end, bytes.len());
    assert_eq!(enc(&back), bytes);
}

#[test]
fn slot_display_truncated_input_fails() {
    // A smithing trim whose material is missing.
    let bytes = vec![0x05, 0x00];
    assert_eq!(SlotDisplay::decode(&bytes, 0).unwrap_err(), Error::UnexpectedEnd);
}
