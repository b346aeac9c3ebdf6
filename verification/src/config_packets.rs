//! The configuration phase's packets.

use vstd::prelude::*;
use crate::codec::{Error, MinecraftData, lemma_field_step};
use crate::strings::{MString, Identifier};
use crate::packet::Packet;
use crate::seqs::{lemma_concat_assoc, lemma_skip_skip};

use crate::datatypes::{Tag, TagModel};

verus! {

/// The model of `FeatureFlagsPacket`.
pub struct FeatureFlagsPacketModel {
    pub feature_flags: Seq<Seq<u8>>,
}

/// The feature flags the server has enabled.
#[derive(Debug, Clone)]
pub struct FeatureFlagsPacket {
    pub feature_flags: Vec<Identifier>,
}

impl DeepView for FeatureFlagsPacket {
    type V = FeatureFlagsPacketModel;

    open spec fn deep_view(&self) -> FeatureFlagsPacketModel {
        FeatureFlagsPacketModel {
            feature_flags: self.feature_flags.deep_view(),
        }
    }
}

impl MinecraftData for FeatureFlagsPacket {
    open spec fn wf(m: FeatureFlagsPacketModel) -> bool {
        <Vec<Identifier> as MinecraftData>::wf(m.feature_flags)
    }

    open spec fn enc(m: FeatureFlagsPacketModel) -> Seq<u8> {
        <Vec<Identifier> as MinecraftData>::enc(m.feature_flags)
    }

    open spec fn dec(s: Seq<u8>) -> Option<(FeatureFlagsPacketModel, int)> {
        match <Vec<Identifier> as MinecraftData>::dec(s) {
            Some(p0) => Some(((FeatureFlagsPacketModel { feature_flags: p0.0 }), p0.1)),
            None => None,
        }
    }

    proof fn lemma_round_trip(m: FeatureFlagsPacketModel, rest: Seq<u8>) {
        let e0 = <Vec<Identifier> as MinecraftData>::enc(m.feature_flags);
        lemma_field_step::<Vec<Identifier>>(m.feature_flags, rest);
    }

    proof fn lemma_dec_props(s: Seq<u8>) {
        <Vec<Identifier> as MinecraftData>::lemma_dec_props(s);
    }

    fn decode(bytes: &Vec<u8>, pos: usize) -> (r: Result<(Self, usize), Error>) {
        let (feature_flags, p1) = match <Vec<Identifier> as MinecraftData>::decode(bytes, pos) {
            Ok(x) => x,
            Err(e) => {
                return Err(e);
            },
        };
        Ok(((FeatureFlagsPacket { feature_flags }), p1))
    }

    fn encode(&self, out: &mut Vec<u8>) -> (r: Result<(), Error>) {
        match self.feature_flags.encode(out) {
            Ok(()) => {},
            Err(e) => {
                return Err(e);
            },
        }
        proof {
            assert(out@ =~= old(out)@ + Self::enc(self.deep_view()));
        }
        Ok(())
    }

    fn num_bytes(&self) -> (r: usize) {
        self.feature_flags.num_bytes()
    }
}

impl Packet for FeatureFlagsPacket {
    open spec fn spec_id() -> int {
        0x0C
    }

    proof fn lemma_id_bounds() {
    }

    fn id() -> (r: i32) {
        0x0C
    }
}

/// The model of `DataPack`.
pub struct DataPackModel {
    pub namespace: Seq<u8>,
    pub id: Seq<u8>,
    pub version: Seq<u8>,
}

/// One known data pack: namespace, id and version.
#[derive(Debug, Clone)]
pub struct DataPack {
    pub namespace: MString<32767>,
    pub id: MString<32767>,
    pub version: MString<32767>,
}

impl DeepView for DataPack {
    type V = DataPackModel;

    open spec fn deep_view(&self) -> DataPackModel {
        DataPackModel {
            namespace: self.namespace.deep_view(),
            id: self.id.deep_view(),
            version: self.version.deep_view(),
        }
    }
}

impl MinecraftData for DataPack {
    open spec fn wf(m: DataPackModel) -> bool {
        &&& <MString<32767> as MinecraftData>::wf(m.namespace)
        &&& <MString<32767> as MinecraftData>::wf(m.id)
        &&& <MString<32767> as MinecraftData>::wf(m.version)
    }

    open spec fn enc(m: DataPackModel) -> Seq<u8> {
        <MString<32767> as MinecraftData>::enc(m.namespace) + <MString<32767> as MinecraftData>::enc(m.id) + <MString<32767> as MinecraftData>::enc(m.version)
    }

    open spec fn dec(s: Seq<u8>) -> Option<(DataPackModel, int)> {
        match <MString<32767> as MinecraftData>::dec(s) {
            Some(p0) => {
                let s1 = s.skip(p0.1);
                match <MString<32767> as MinecraftData>::dec(s1) {
                    Some(p1) => {
                        let s2 = s1.skip(p1.1);
                        match <MString<32767> as MinecraftData>::dec(s2) {
                            Some(p2) => Some(((DataPackModel { namespace: p0.0, id: p1.0, version: p2.0 }), p0.1 + p1.1 + p2.1)),
                            None => None,
                        }
                    },
                    None => None,
                }
            },
            None => None,
        }
    }

    proof fn lemma_round_trip(m: DataPackModel, rest: Seq<u8>) {
        let e0 = <MString<32767> as MinecraftData>::enc(m.namespace);
        let e1 = <MString<32767> as MinecraftData>::enc(m.id);
        let e2 = <MString<32767> as MinecraftData>::enc(m.version);
        lemma_concat_assoc(e0 + e1, e2, rest);
        lemma_concat_assoc(e0, e1, e2 + (rest));
        lemma_field_step::<MString<32767>>(m.namespace, e1 + (e2 + (rest)));
        lemma_field_step::<MString<32767>>(m.id, e2 + (rest));
        lemma_field_step::<MString<32767>>(m.version, rest);
    }

    proof fn lemma_dec_props(s: Seq<u8>) {
        <MString<32767> as MinecraftData>::lemma_dec_props(s);
        if <MString<32767> as MinecraftData>::dec(s) is Some {
            let p0 = <MString<32767> as MinecraftData>::dec(s).unwrap();
            let s1 = s.skip(p0.1);
            <MString<32767> as MinecraftData>::lemma_dec_props(s1);
            if <MString<32767> as MinecraftData>::dec(s1) is Some {
                let p1 = <MString<32767> as MinecraftData>::dec(s1).unwrap();
                let s2 = s1.skip(p1.1);
                <MString<32767> as MinecraftData>::lemma_dec_props(s2);
            }
        }
    }

    fn decode(bytes: &Vec<u8>, pos: usize) -> (r: Result<(Self, usize), Error>) {
        let (namespace, p1) = match <MString<32767> as MinecraftData>::decode(bytes, pos) {
            Ok(x) => x,
            Err(e) => {
                return Err(e);
            },
        };
        proof {
            lemma_skip_skip(bytes@, pos as int, p1 - pos);
        }
        let (id, p2) = match <MString<32767> as MinecraftData>::decode(bytes, p1) {
            Ok(x) => x,
            Err(e) => {
                return Err(e);
            },
        };
        proof {
            lemma_skip_skip(bytes@, p1 as int, p2 - p1);
        }
        let (version, p3) = match <MString<32767> as MinecraftData>::decode(bytes, p2) {
            Ok(x) => x,
            Err(e) => {
                return Err(e);
            },
        };
        Ok(((DataPack { namespace, id, version }), p3))
    }

    fn encode(&self, out: &mut Vec<u8>) -> (r: Result<(), Error>) {
        match self.namespace.encode(out) {
            Ok(()) => {},
            Err(e) => {
                return Err(e);
            },
        }
        match self.id.encode(out) {
            Ok(()) => {},
            Err(e) => {
                return Err(e);
            },
        }
        match self.version.encode(out) {
            Ok(()) => {},
            Err(e) => {
                return Err(e);
            },
        }
        proof {
            assert(out@ =~= old(out)@ + Self::enc(self.deep_view()));
        }
        Ok(())
    }

    fn num_bytes(&self) -> (r: usize) {
        self.namespace.num_bytes()
            + self.id.num_bytes()
            + self.version.num_bytes()
    }
}

/// The model of `ClientboundKnownPacksPacket`.
pub struct ClientboundKnownPacksPacketModel {
    pub known_packs: Seq<DataPackModel>,
}

/// The data packs the server knows.
#[derive(Debug, Clone)]
pub struct ClientboundKnownPacksPacket {
    pub known_packs: Vec<DataPack>,
}

impl DeepView for ClientboundKnownPacksPacket {
    type V = ClientboundKnownPacksPacketModel;

    open spec fn deep_view(&self) -> ClientboundKnownPacksPacketModel {
        ClientboundKnownPacksPacketModel {
            known_packs: self.known_packs.deep_view(),
        }
    }
}

impl MinecraftData for ClientboundKnownPacksPacket {
    open spec fn wf(m: ClientboundKnownPacksPacketModel) -> bool {
        <Vec<DataPack> as MinecraftData>::wf(m.known_packs)
    }

    open spec fn enc(m: ClientboundKnownPacksPacketModel) -> Seq<u8> {
        <Vec<DataPack> as MinecraftData>::enc(m.known_packs)
    }

    open spec fn dec(s: Seq<u8>) -> Option<(ClientboundKnownPacksPacketModel, int)> {
        match <Vec<DataPack> as MinecraftData>::dec(s) {
            Some(p0) => Some(((ClientboundKnownPacksPacketModel { known_packs: p0.0 }), p0.1)),
            None => None,
        }
    }

    proof fn lemma_round_trip(m: ClientboundKnownPacksPacketModel, rest: Seq<u8>) {
        let e0 = <Vec<DataPack> as MinecraftData>::enc(m.known_packs);
        lemma_field_step::<Vec<DataPack>>(m.known_packs, rest);
    }

    proof fn lemma_dec_props(s: Seq<u8>) {
        <Vec<DataPack> as MinecraftData>::lemma_dec_props(s);
    }

    fn decode(bytes: &Vec<u8>, pos: usize) -> (r: Result<(Self, usize), Error>) {
        let (known_packs, p1) = match <Vec<DataPack> as MinecraftData>::decode(bytes, pos) {
            Ok(x) => x,
            Err(e) => {
                return Err(e);
            },
        };
        Ok(((ClientboundKnownPacksPacket { known_packs }), p1))
    }

    fn encode(&self, out: &mut Vec<u8>) -> (r: Result<(), Error>) {
        match self.known_packs.encode(out) {
            Ok(()) => {},
            Err(e) => {
                return Err(e);
            },
        }
        proof {
            assert(out@ =~= old(out)@ + Self::enc(self.deep_view()));
        }
        Ok(())
    }

    fn num_bytes(&self) -> (r: usize) {
        self.known_packs.num_bytes()
    }
}

impl Packet for ClientboundKnownPacksPacket {
    open spec fn spec_id() -> int {
        0x0E
    }

    proof fn lemma_id_bounds() {
    }

    fn id() -> (r: i32) {
        0x0E
    }
}

/// The model of `ServerboundKnownPacksPacket`.
pub struct ServerboundKnownPacksPacketModel {
    pub known_packs: Seq<DataPackModel>,
}

/// The data packs the client acknowledges.
#[derive(Debug, Clone)]
pub struct ServerboundKnownPacksPacket {
    pub known_packs: Vec<DataPack>,
}

impl DeepView for ServerboundKnownPacksPacket {
    type V = ServerboundKnownPacksPacketModel;

    open spec fn deep_view(&self) -> ServerboundKnownPacksPacketModel {
        ServerboundKnownPacksPacketModel {
            known_packs: self.known_packs.deep_view(),
        }
    }
}

impl MinecraftData for ServerboundKnownPacksPacket {
    open spec fn wf(m: ServerboundKnownPacksPacketModel) -> bool {
        <Vec<DataPack> as MinecraftData>::wf(m.known_packs)
    }

    open spec fn enc(m: ServerboundKnownPacksPacketModel) -> Seq<u8> {
        <Vec<DataPack> as MinecraftData>::enc(m.known_packs)
    }

    open spec fn dec(s: Seq<u8>) -> Option<(ServerboundKnownPacksPacketModel, int)> {
        match <Vec<DataPack> as MinecraftData>::dec(s) {
            Some(p0) => Some(((ServerboundKnownPacksPacketModel { known_packs: p0.0 }), p0.1)),
            None => None,
        }
    }

    proof fn lemma_round_trip(m: ServerboundKnownPacksPacketModel, rest: Seq<u8>) {
        let e0 = <Vec<DataPack> as MinecraftData>::enc(m.known_packs);
        lemma_field_step::<Vec<DataPack>>(m.known_packs, rest);
    }

    proof fn lemma_dec_props(s: Seq<u8>) {
        <Vec<DataPack> as MinecraftData>::lemma_dec_props(s);
    }

    fn decode(bytes: &Vec<u8>, pos: usize) -> (r: Result<(Self, usize), Error>) {
        let (known_packs, p1) = match <Vec<DataPack> as MinecraftData>::decode(bytes, pos) {
            Ok(x) => x,
            Err(e) => {
                return Err(e);
            },
        };
        Ok(((ServerboundKnownPacksPacket { known_packs }), p1))
    }

    fn encode(&self, out: &mut Vec<u8>) -> (r: Result<(), Error>) {
        match self.known_packs.encode(out) {
            Ok(()) => {},
            Err(e) => {
                return Err(e);
            },
        }
        proof {
            assert(out@ =~= old(out)@ + Self::enc(self.deep_view()));
        }
        Ok(())
    }

    fn num_bytes(&self) -> (r: usize) {
        self.known_packs.num_bytes()
    }
}

impl Packet for ServerboundKnownPacksPacket {
    open spec fn spec_id() -> int {
        0x07
    }

    proof fn lemma_id_bounds() {
    }

    fn id() -> (r: i32) {
        0x07
    }
}

/// A configuration-phase keep-alive; its id must be echoed back.
#[derive(Debug, Clone, Copy, PartialEq, Eq)]
pub struct ConfigurationKeepAlivePacket {
    pub keep_alive_id: i64,
}

impl DeepView for ConfigurationKeepAlivePacket {
    type V = ConfigurationKeepAlivePacket;

    open spec fn deep_view(&self) -> ConfigurationKeepAlivePacket {
        *self
    }
}

impl MinecraftData for ConfigurationKeepAlivePacket {
    open spec fn wf(m: ConfigurationKeepAlivePacket) -> bool {
        <i64 as MinecraftData>::wf(m.keep_alive_id)
    }

    open spec fn enc(m: ConfigurationKeepAlivePacket) -> Seq<u8> {
        <i64 as MinecraftData>::enc(m.keep_alive_id)
    }

    open spec fn dec(s: Seq<u8>) -> Option<(ConfigurationKeepAlivePacket, int)> {
        match <i64 as MinecraftData>::dec(s) {
            Some(p0) => Some(((ConfigurationKeepAlivePacket { keep_alive_id: p0.0 }), p0.1)),
            None => None,
        }
    }

    proof fn lemma_round_trip(m: ConfigurationKeepAlivePacket, rest: Seq<u8>) {
        let e0 = <i64 as MinecraftData>::enc(m.keep_alive_id);
        lemma_field_step::<i64>(m.keep_alive_id, rest);
    }

    proof fn lemma_dec_props(s: Seq<u8>) {
        <i64 as MinecraftData>::lemma_dec_props(s);
    }

    fn decode(bytes: &Vec<u8>, pos: usize) -> (r: Result<(Self, usize), Error>) {
        let (keep_alive_id, p1) = match <i64 as MinecraftData>::decode(bytes, pos) {
            Ok(x) => x,
            Err(e) => {
                return Err(e);
            },
        };
        Ok(((ConfigurationKeepAlivePacket { keep_alive_id }), p1))
    }

    fn encode(&self, out: &mut Vec<u8>) -> (r: Result<(), Error>) {
        match self.keep_alive_id.encode(out) {
            Ok(()) => {},
            Err(e) => {
                return Err(e);
            },
        }
        proof {
            assert(out@ =~= old(out)@ + Self::enc(self.deep_view()));
        }
        Ok(())
    }

    fn num_bytes(&self) -> (r: usize) {
        self.keep_alive_id.num_bytes()
    }
}

impl Packet for ConfigurationKeepAlivePacket {
    open spec fn spec_id() -> int {
        0x04
    }

    proof fn lemma_id_bounds() {
    }

    fn id() -> (r: i32) {
        0x04
    }
}

/// The model of `RegistryEntry`.
pub struct RegistryEntryModel {
    pub id: Seq<u8>,
    pub data: Option<u8>,
}

/// One registry entry; its payload travels as opaque data.
#[derive(Debug, Clone)]
pub struct RegistryEntry {
    pub id: Identifier,
    pub data: Option<u8>,
}

impl DeepView for RegistryEntry {
    type V = RegistryEntryModel;

    open spec fn deep_view(&self) -> RegistryEntryModel {
        RegistryEntryModel {
            id: self.id.deep_view(),
            data: self.data.deep_view(),
        }
    }
}

impl MinecraftData for RegistryEntry {
    open spec fn wf(m: RegistryEntryModel) -> bool {
        &&& <Identifier as MinecraftData>::wf(m.id)
        &&& <Option<u8> as MinecraftData>::wf(m.data)
    }

    open spec fn enc(m: RegistryEntryModel) -> Seq<u8> {
        <Identifier as MinecraftData>::enc(m.id) + <Option<u8> as MinecraftData>::enc(m.data)
    }

    open spec fn dec(s: Seq<u8>) -> Option<(RegistryEntryModel, int)> {
        match <Identifier as MinecraftData>::dec(s) {
            Some(p0) => {
                let s1 = s.skip(p0.1);
                match <Option<u8> as MinecraftData>::dec(s1) {
                    Some(p1) => Some(((RegistryEntryModel { id: p0.0, data: p1.0 }), p0.1 + p1.1)),
                    None => None,
                }
            },
            None => None,
        }
    }

    proof fn lemma_round_trip(m: RegistryEntryModel, rest: Seq<u8>) {
        let e0 = <Identifier as MinecraftData>::enc(m.id);
        let e1 = <Option<u8> as MinecraftData>::enc(m.data);
        lemma_concat_assoc(e0, e1, rest);
        lemma_field_step::<Identifier>(m.id, e1 + (rest));
        lemma_field_step::<Option<u8>>(m.data, rest);
    }

    proof fn lemma_dec_props(s: Seq<u8>) {
        <Identifier as MinecraftData>::lemma_dec_props(s);
        if <Identifier as MinecraftData>::dec(s) is Some {
            let p0 = <Identifier as MinecraftData>::dec(s).unwrap();
            let s1 = s.skip(p0.1);
            <Option<u8> as MinecraftData>::lemma_dec_props(s1);
        }
    }

    fn decode(bytes: &Vec<u8>, pos: usize) -> (r: Result<(Self, usize), Error>) {
        let (id, p1) = match <Identifier as MinecraftData>::decode(bytes, pos) {
            Ok(x) => x,
            Err(e) => {
                return Err(e);
            },
        };
        proof {
            lemma_skip_skip(bytes@, pos as int, p1 - pos);
        }
        let (data, p2) = match <Option<u8> as MinecraftData>::decode(bytes, p1) {
            Ok(x) => x,
            Err(e) => {
                return Err(e);
            },
        };
        Ok(((RegistryEntry { id, data }), p2))
    }

    fn encode(&self, out: &mut Vec<u8>) -> (r: Result<(), Error>) {
        match self.id.encode(out) {
            Ok(()) => {},
            Err(e) => {
                return Err(e);
            },
        }
        match self.data.encode(out) {
            Ok(()) => {},
            Err(e) => {
                return Err(e);
            },
        }
        proof {
            assert(out@ =~= old(out)@ + Self::enc(self.deep_view()));
        }
        Ok(())
    }

    fn num_bytes(&self) -> (r: usize) {
        self.id.num_bytes()
            + self.data.num_bytes()
    }
}

/// The model of `RegistryDataPacket`.
pub struct RegistryDataPacketModel {
    pub registry_id: Seq<u8>,
    pub entries: Seq<RegistryEntryModel>,
}

/// A registry's entries, sent during configuration.
#[derive(Debug, Clone)]
pub struct RegistryDataPacket {
    pub registry_id: Identifier,
    pub entries: Vec<RegistryEntry>,
}

impl DeepView for RegistryDataPacket {
    type V = RegistryDataPacketModel;

    open spec fn deep_view(&self) -> RegistryDataPacketModel {
        RegistryDataPacketModel {
            registry_id: self.registry_id.deep_view(),
            entries: self.entries.deep_view(),
        }
    }
}

impl MinecraftData for RegistryDataPacket {
    open spec fn wf(m: RegistryDataPacketModel) -> bool {
        &&& <Identifier as MinecraftData>::wf(m.registry_id)
        &&& <Vec<RegistryEntry> as MinecraftData>::wf(m.entries)
    }

    open spec fn enc(m: RegistryDataPacketModel) -> Seq<u8> {
        <Identifier as MinecraftData>::enc(m.registry_id) + <Vec<RegistryEntry> as MinecraftData>::enc(m.entries)
    }

    open spec fn dec(s: Seq<u8>) -> Option<(RegistryDataPacketModel, int)> {
        match <Identifier as MinecraftData>::dec(s) {
            Some(p0) => {
                let s1 = s.skip(p0.1);
                match <Vec<RegistryEntry> as MinecraftData>::dec(s1) {
                    Some(p1) => Some(((RegistryDataPacketModel { registry_id: p0.0, entries: p1.0 }), p0.1 + p1.1)),
                    None => None,
                }
            },
            None => None,
        }
    }

    proof fn lemma_round_trip(m: RegistryDataPacketModel, rest: Seq<u8>) {
        let e0 = <Identifier as MinecraftData>::enc(m.registry_id);
        let e1 = <Vec<RegistryEntry> as MinecraftData>::enc(m.entries);
        lemma_concat_assoc(e0, e1, rest);
        lemma_field_step::<Identifier>(m.registry_id, e1 + (rest));
        lemma_field_step::<Vec<RegistryEntry>>(m.entries, rest);
    }

    proof fn lemma_dec_props(s: Seq<u8>) {
        <Identifier as MinecraftData>::lemma_dec_props(s);
        if <Identifier as MinecraftData>::dec(s) is Some {
            let p0 = <Identifier as MinecraftData>::dec(s).unwrap();
            let s1 = s.skip(p0.1);
            <Vec<RegistryEntry> as MinecraftData>::lemma_dec_props(s1);
        }
    }

    fn decode(bytes: &Vec<u8>, pos: usize) -> (r: Result<(Self, usize), Error>) {
        let (registry_id, p1) = match <Identifier as MinecraftData>::decode(bytes, pos) {
            Ok(x) => x,
            Err(e) => {
                return Err(e);
            },
        };
        proof {
            lemma_skip_skip(bytes@, pos as int, p1 - pos);
        }
        let (entries, p2) = match <Vec<RegistryEntry> as MinecraftData>::decode(bytes, p1) {
            Ok(x) => x,
            Err(e) => {
                return Err(e);
            },
        };
        Ok(((RegistryDataPacket { registry_id, entries }), p2))
    }

    fn encode(&self, out: &mut Vec<u8>) -> (r: Result<(), Error>) {
        match self.registry_id.encode(out) {
            Ok(()) => {},
            Err(e) => {
                return Err(e);
            },
        }
        match self.entries.encode(out) {
            Ok(()) => {},
            Err(e) => {
                return Err(e);
            },
        }
        proof {
            assert(out@ =~= old(out)@ + Self::enc(self.deep_view()));
        }
        Ok(())
    }

    fn num_bytes(&self) -> (r: usize) {
        self.registry_id.num_bytes()
            + self.entries.num_bytes()
    }
}

impl Packet for RegistryDataPacket {
    open spec fn spec_id() -> int {
        0x07
    }

    proof fn lemma_id_bounds() {
    }

    fn id() -> (r: i32) {
        0x07
    }
}

/// The model of `TaggedRegistry`.
pub struct TaggedRegistryModel {
    pub registry: Seq<u8>,
    pub tags: Seq<TagModel>,
}

/// The tags of one registry.
#[derive(Debug, Clone)]
pub struct TaggedRegistry {
    pub registry: Identifier,
    pub tags: Vec<Tag>,
}

impl DeepView for TaggedRegistry {
    type V = TaggedRegistryModel;

    open spec fn deep_view(&self) -> TaggedRegistryModel {
        TaggedRegistryModel {
            registry: self.registry.deep_view(),
            tags: self.tags.deep_view(),
        }
    }
}

impl MinecraftData for TaggedRegistry {
    open spec fn wf(m: TaggedRegistryModel) -> bool {
        &&& <Identifier as MinecraftData>::wf(m.registry)
        &&& <Vec<Tag> as MinecraftData>::wf(m.tags)
    }

    open spec fn enc(m: TaggedRegistryModel) -> Seq<u8> {
        <Identifier as MinecraftData>::enc(m.registry) + <Vec<Tag> as MinecraftData>::enc(m.tags)
    }

    open spec fn dec(s: Seq<u8>) -> Option<(TaggedRegistryModel, int)> {
        match <Identifier as MinecraftData>::dec(s) {
            Some(p0) => {
                let s1 = s.skip(p0.1);
                match <Vec<Tag> as MinecraftData>::dec(s1) {
                    Some(p1) => Some(((TaggedRegistryModel { registry: p0.0, tags: p1.0 }), p0.1 + p1.1)),
                    None => None,
                }
            },
            None => None,
        }
    }

    proof fn lemma_round_trip(m: TaggedRegistryModel, rest: Seq<u8>) {
        let e0 = <Identifier as MinecraftData>::enc(m.registry);
        let e1 = <Vec<Tag> as MinecraftData>::enc(m.tags);
        lemma_concat_assoc(e0, e1, rest);
        lemma_field_step::<Identifier>(m.registry, e1 + (rest));
        lemma_field_step::<Vec<Tag>>(m.tags, rest);
    }

    proof fn lemma_dec_props(s: Seq<u8>) {
        <Identifier as MinecraftData>::lemma_dec_props(s);
        if <Identifier as MinecraftData>::dec(s) is Some {
            let p0 = <Identifier as MinecraftData>::dec(s).unwrap();
            let s1 = s.skip(p0.1);
            <Vec<Tag> as MinecraftData>::lemma_dec_props(s1);
        }
    }

    fn decode(bytes: &Vec<u8>, pos: usize) -> (r: Result<(Self, usize), Error>) {
        let (registry, p1) = match <Identifier as MinecraftData>::decode(bytes, pos) {
            Ok(x) => x,
            Err(e) => {
                return Err(e);
            },
        };
        proof {
            lemma_skip_skip(bytes@, pos as int, p1 - pos);
        }
        let (tags, p2) = match <Vec<Tag> as MinecraftData>::decode(bytes, p1) {
            Ok(x) => x,
            Err(e) => {
                return Err(e);
            },
        };
        Ok(((TaggedRegistry { registry, tags }), p2))
    }

    fn encode(&self, out: &mut Vec<u8>) -> (r: Result<(), Error>) {
        match self.registry.encode(out) {
            Ok(()) => {},
            Err(e) => {
                return Err(e);
            },
        }
        match self.tags.encode(out) {
            Ok(()) => {},
            Err(e) => {
                return Err(e);
            },
        }
        proof {
            assert(out@ =~= old(out)@ + Self::enc(self.deep_view()));
        }
        Ok(())
    }

    fn num_bytes(&self) -> (r: usize) {
        self.registry.num_bytes()
            + self.tags.num_bytes()
    }
}

/// The model of `ConfigurationUpdateTagsPacket`.
pub struct ConfigurationUpdateTagsPacketModel {
    pub tagged_registries: Seq<TaggedRegistryModel>,
}

/// The server's tag tables, sent during configuration.
#[derive(Debug, Clone)]
pub struct ConfigurationUpdateTagsPacket {
    pub tagged_registries: Vec<TaggedRegistry>,
}

impl DeepView for ConfigurationUpdateTagsPacket {
    type V = ConfigurationUpdateTagsPacketModel;

    open spec fn deep_view(&self) -> ConfigurationUpdateTagsPacketModel {
        ConfigurationUpdateTagsPacketModel {
            tagged_registries: self.tagged_registries.deep_view(),
        }
    }
}

impl MinecraftData for ConfigurationUpdateTagsPacket {
    open spec fn wf(m: ConfigurationUpdateTagsPacketModel) -> bool {
        <Vec<TaggedRegistry> as MinecraftData>::wf(m.tagged_registries)
    }

    open spec fn enc(m: ConfigurationUpdateTagsPacketModel) -> Seq<u8> {
        <Vec<TaggedRegistry> as MinecraftData>::enc(m.tagged_registries)
    }

    open spec fn dec(s: Seq<u8>) -> Option<(ConfigurationUpdateTagsPacketModel, int)> {
        match <Vec<TaggedRegistry> as MinecraftData>::dec(s) {
            Some(p0) => Some(((ConfigurationUpdateTagsPacketModel { tagged_registries: p0.0 }), p0.1)),
            None => None,
        }
    }

    proof fn lemma_round_trip(m: ConfigurationUpdateTagsPacketModel, rest: Seq<u8>) {
        let e0 = <Vec<TaggedRegistry> as MinecraftData>::enc(m.tagged_registries);
        lemma_field_step::<Vec<TaggedRegistry>>(m.tagged_registries, rest);
    }

    proof fn lemma_dec_props(s: Seq<u8>) {
        <Vec<TaggedRegistry> as MinecraftData>::lemma_dec_props(s);
    }

    fn decode(bytes: &Vec<u8>, pos: usize) -> (r: Result<(Self, usize), Error>) {
        let (tagged_registries, p1) = match <Vec<TaggedRegistry> as MinecraftData>::decode(bytes, pos) {
            Ok(x) => x,
            Err(e) => {
                return Err(e);
            },
        };
        Ok(((ConfigurationUpdateTagsPacket { tagged_registries }), p1))
    }

    fn encode(&self, out: &mut Vec<u8>) -> (r: Result<(), Error>) {
        match self.tagged_registries.encode(out) {
            Ok(()) => {},
            Err(e) => {
                return Err(e);
            },
        }
        proof {
            assert(out@ =~= old(out)@ + Self::enc(self.deep_view()));
        }
        Ok(())
    }

    fn num_bytes(&self) -> (r: usize) {
        self.tagged_registries.num_bytes()
    }
}

impl Packet for ConfigurationUpdateTagsPacket {
    open spec fn spec_id() -> int {
        0x0D
    }

    proof fn lemma_id_bounds() {
    }

    fn id() -> (r: i32) {
        0x0D
    }
}

/// The server's signal that configuration is complete.
#[derive(Debug, Clone, Copy, PartialEq, Eq)]
pub struct FinishConfigurationPacket;

impl DeepView for FinishConfigurationPacket {
    type V = FinishConfigurationPacket;

    open spec fn deep_view(&self) -> FinishConfigurationPacket {
        *self
    }
}

impl MinecraftData for FinishConfigurationPacket {
    open spec fn wf(m: FinishConfigurationPacket) -> bool {
        true
    }

    open spec fn enc(m: FinishConfigurationPacket) -> Seq<u8> {
        Seq::empty()
    }

    open spec fn dec(s: Seq<u8>) -> Option<(FinishConfigurationPacket, int)> {
        Some((FinishConfigurationPacket, 0int))
    }

    proof fn lemma_round_trip(m: FinishConfigurationPacket, rest: Seq<u8>) {
        assert(Self::enc(m) + rest =~= rest);
    }

    proof fn lemma_dec_props(s: Seq<u8>) {
    }

    fn decode(bytes: &Vec<u8>, pos: usize) -> (r: Result<(Self, usize), Error>) {
        Ok((FinishConfigurationPacket, pos))
    }

    fn encode(&self, out: &mut Vec<u8>) -> (r: Result<(), Error>) {
        proof {
            assert(out@ =~= old(out)@ + Self::enc(self.deep_view()));
        }
        Ok(())
    }

    fn num_bytes(&self) -> (r: usize) {
        0
    }
}

impl Packet for FinishConfigurationPacket {
    open spec fn spec_id() -> int {
        0x03
    }

    proof fn lemma_id_bounds() {
    }

    fn id() -> (r: i32) {
        0x03
    }
}

/// The client's acknowledgement that configuration is complete.
#[derive(Debug, Clone, Copy, PartialEq, Eq)]
pub struct AcknowledgeFinishConfigurationPacket;

impl DeepView for AcknowledgeFinishConfigurationPacket {
    type V = AcknowledgeFinishConfigurationPacket;

    open spec fn deep_view(&self) -> AcknowledgeFinishConfigurationPacket {
        *self
    }
}

impl MinecraftData for AcknowledgeFinishConfigurationPacket {
    open spec fn wf(m: AcknowledgeFinishConfigurationPacket) -> bool {
        true
    }

    open spec fn enc(m: AcknowledgeFinishConfigurationPacket) -> Seq<u8> {
        Seq::empty()
    }

    open spec fn dec(s: Seq<u8>) -> Option<(AcknowledgeFinishConfigurationPacket, int)> {
        Some((AcknowledgeFinishConfigurationPacket, 0int))
    }

    proof fn lemma_round_trip(m: AcknowledgeFinishConfigurationPacket, rest: Seq<u8>) {
        assert(Self::enc(m) + rest =~= rest);
    }

    proof fn lemma_dec_props(s: Seq<u8>) {
    }

    fn decode(bytes: &Vec<u8>, pos: usize) -> (r: Result<(Self, usize), Error>) {
        Ok((AcknowledgeFinishConfigurationPacket, pos))
    }

    fn encode(&self, out: &mut Vec<u8>) -> (r: Result<(), Error>) {
        proof {
            assert(out@ =~= old(out)@ + Self::enc(self.deep_view()));
        }
        Ok(())
    }

    fn num_bytes(&self) -> (r: usize) {
        0
    }
}

impl Packet for AcknowledgeFinishConfigurationPacket {
    open spec fn spec_id() -> int {
        0x03
    }

    proof fn lemma_id_bounds() {
    }

    fn id() -> (r: i32) {
        0x03
    }
}

} // verus!
