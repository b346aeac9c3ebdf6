//! The configuration-phase plugin message: a channel identifier followed by
//! channel-specific data. The `minecraft:brand` channel carries a bounded
//! string; data on any other channel is left on the wire for the outer
//! frame length to skip.

use vstd::prelude::*;
use crate::codec::{Error, MinecraftData, lemma_field_step, append_bytes, utf8_ok, check_utf8};
use crate::varint::{varint_enc_u, varint_encode_u, varint_size_u};
use crate::strings::{MString, Identifier};
use crate::packet::Packet;
use crate::seqs::{lemma_concat_assoc, lemma_concat_skip, lemma_skip_skip};

verus! {

/// The bytes of the identifier `minecraft:brand`.
pub open spec fn brand_channel() -> Seq<u8> {
    seq![
        109u8,
        105u8,
        110u8,
        101u8,
        99u8,
        114u8,
        97u8,
        102u8,
        116u8,
        58u8,
        98u8,
        114u8,
        97u8,
        110u8,
        100u8,
    ]
}

/// Builds the `minecraft:brand` identifier bytes.
fn brand_channel_vec() -> (r: Vec<u8>)
    ensures
        r@ == brand_channel(),
{
    let mut v: Vec<u8> = Vec::new();
    v.push(109);
    v.push(105);
    v.push(110);
    v.push(101);
    v.push(99);
    v.push(114);
    v.push(97);
    v.push(102);
    v.push(116);
    v.push(58);
    v.push(98);
    v.push(114);
    v.push(97);
    v.push(110);
    v.push(100);
    proof {
        assert(v@ =~= brand_channel());
    }
    v
}

/// Whether `v` holds exactly the `minecraft:brand` identifier bytes.
fn is_brand_channel(v: &Vec<u8>) -> (r: bool)
    ensures
        r == (v@ == brand_channel()),
{
    let expected = brand_channel_vec();
    let n = v.len();
    if n != expected.len() {
        return false;
    }
    let mut i: usize = 0;
    while i < n
        invariant
            i <= n,
            n == v@.len(),
            n == expected@.len(),
            expected@ == brand_channel(),
            forall|j: int| 0 <= j < i ==> v@[j] == expected@[j],
        decreases n - i,
    {
        if v[i] != expected[i] {
            return false;
        }
        i = i + 1;
    }
    proof {
        assert(v@ =~= brand_channel());
    }
    true
}

/// The model of plugin channel data.
pub enum PluginChannelDataModel {
    MinecraftBrand(Seq<u8>),
    Unknown(Seq<u8>),
}

/// What a plugin message carries: the vanilla brand string, or an unknown
/// channel whose payload stays on the wire.
#[derive(Debug, Clone)]
pub enum PluginChannelData {
    MinecraftBrand(MString<32767>),
    Unknown(Identifier),
}

impl DeepView for PluginChannelData {
    type V = PluginChannelDataModel;

    open spec fn deep_view(&self) -> PluginChannelDataModel {
        match self {
            PluginChannelData::MinecraftBrand(b) => PluginChannelDataModel::MinecraftBrand(
                b.deep_view(),
            ),
            PluginChannelData::Unknown(c) => PluginChannelDataModel::Unknown(c.deep_view()),
        }
    }
}

/// The channel an item of plugin data travels on.
pub open spec fn spec_channel(m: PluginChannelDataModel) -> Seq<u8> {
    match m {
        PluginChannelDataModel::MinecraftBrand(_) => brand_channel(),
        PluginChannelDataModel::Unknown(c) => c,
    }
}

impl PluginChannelData {
    /// The channel identifier this data travels on.
    pub fn identifier(&self) -> (r: Result<Identifier, Error>)
        ensures
            r matches Ok(s) ==> s.deep_view() == spec_channel(self.deep_view()),
            r is Ok <==> utf8_ok(spec_channel(self.deep_view())) && spec_channel(
                self.deep_view(),
            ).len() <= 32767,
    {
        match self {
            PluginChannelData::MinecraftBrand(_) => {
                let v = brand_channel_vec();
                MString::<32767>::from_bytes(v)
            },
            PluginChannelData::Unknown(c) => {
                let v = c.as_bytes();
                let mut copy: Vec<u8> = Vec::new();
                append_bytes(&mut copy, v);
                proof {
                    assert(copy@ =~= c.deep_view());
                }
                MString::<32767>::from_bytes(copy)
            },
        }
    }
}

/// The model of a configuration plugin message.
pub struct ClientboundConfigurationPluginMessagePacketModel {
    pub data: PluginChannelDataModel,
}

/// A clientbound plugin message of the configuration phase.
#[derive(Debug, Clone)]
pub struct ClientboundConfigurationPluginMessagePacket {
    pub data: PluginChannelData,
}

impl DeepView for ClientboundConfigurationPluginMessagePacket {
    type V = ClientboundConfigurationPluginMessagePacketModel;

    open spec fn deep_view(&self) -> ClientboundConfigurationPluginMessagePacketModel {
        ClientboundConfigurationPluginMessagePacketModel { data: self.data.deep_view() }
    }
}

impl MinecraftData for ClientboundConfigurationPluginMessagePacket {
    open spec fn wf(m: ClientboundConfigurationPluginMessagePacketModel) -> bool {
        match m.data {
            PluginChannelDataModel::MinecraftBrand(b) => <MString<32767> as MinecraftData>::wf(b)
                && utf8_ok(brand_channel()),
            PluginChannelDataModel::Unknown(c) => <Identifier as MinecraftData>::wf(c) && c
                != brand_channel(),
        }
    }

    open spec fn enc(m: ClientboundConfigurationPluginMessagePacketModel) -> Seq<u8> {
        match m.data {
            PluginChannelDataModel::MinecraftBrand(b) => <Identifier as MinecraftData>::enc(
                brand_channel(),
            ) + <MString<32767> as MinecraftData>::enc(b),
            PluginChannelDataModel::Unknown(c) => <Identifier as MinecraftData>::enc(c),
        }
    }

    open spec fn dec(s: Seq<u8>) -> Option<
        (ClientboundConfigurationPluginMessagePacketModel, int),
    > {
        match <Identifier as MinecraftData>::dec(s) {
            Some(p0) => {
                if p0.0 == brand_channel() {
                    match <MString<32767> as MinecraftData>::dec(s.skip(p0.1)) {
                        Some(p1) => Some(
                            (
                                ClientboundConfigurationPluginMessagePacketModel {
                                    data: PluginChannelDataModel::MinecraftBrand(p1.0),
                                },
                                p0.1 + p1.1,
                            ),
                        ),
                        None => None,
                    }
                } else {
                    Some(
                        (
                            ClientboundConfigurationPluginMessagePacketModel {
                                data: PluginChannelDataModel::Unknown(p0.0),
                            },
                            p0.1,
                        ),
                    )
                }
            },
            None => None,
        }
    }

    proof fn lemma_round_trip(m: ClientboundConfigurationPluginMessagePacketModel, rest: Seq<u8>) {
        match m.data {
            PluginChannelDataModel::MinecraftBrand(b) => {
                let ec = <Identifier as MinecraftData>::enc(brand_channel());
                let eb = <MString<32767> as MinecraftData>::enc(b);
                lemma_concat_assoc(ec, eb, rest);
                assert(brand_channel().len() == 15);
                lemma_field_step::<Identifier>(brand_channel(), eb + rest);
                lemma_field_step::<MString<32767>>(b, rest);
            },
            PluginChannelDataModel::Unknown(c) => {
                lemma_field_step::<Identifier>(c, rest);
            },
        }
    }

    proof fn lemma_dec_props(s: Seq<u8>) {
        <Identifier as MinecraftData>::lemma_dec_props(s);
        if <Identifier as MinecraftData>::dec(s) is Some {
            let p0 = <Identifier as MinecraftData>::dec(s).unwrap();
            <MString<32767> as MinecraftData>::lemma_dec_props(s.skip(p0.1));
        }
    }

    fn decode(bytes: &Vec<u8>, pos: usize) -> (r: Result<(Self, usize), Error>) {
        let (chan, p1) = match <Identifier as MinecraftData>::decode(bytes, pos) {
            Ok(x) => x,
            Err(e) => {
                return Err(e);
            },
        };
        proof {
            lemma_skip_skip(bytes@, pos as int, p1 - pos);
        }
        if is_brand_channel(chan.as_bytes()) {
            let (brand, p2) = match <MString<32767> as MinecraftData>::decode(bytes, p1) {
                Ok(x) => x,
                Err(e) => {
                    return Err(e);
                },
            };
            Ok(
                (
                    ClientboundConfigurationPluginMessagePacket {
                        data: PluginChannelData::MinecraftBrand(brand),
                    },
                    p2,
                ),
            )
        } else {
            Ok(
                (
                    ClientboundConfigurationPluginMessagePacket {
                        data: PluginChannelData::Unknown(chan),
                    },
                    p1,
                ),
            )
        }
    }

    fn encode(&self, out: &mut Vec<u8>) -> (r: Result<(), Error>) {
        match &self.data {
            PluginChannelData::MinecraftBrand(brand) => {
                let chan = brand_channel_vec();
                if !check_utf8(&chan) {
                    return Err(Error::InvalidUtf8);
                }
                varint_encode_u(out, 15);
                append_bytes(out, &chan);
                proof {
                    assert(brand_channel().len() == 15);
                    assert(out@ =~= old(out)@ + <Identifier as MinecraftData>::enc(
                        brand_channel(),
                    ));
                }
                match brand.encode(out) {
                    Ok(()) => {
                        proof {
                            assert(out@ =~= old(out)@ + Self::enc(self.deep_view()));
                        }
                        Ok(())
                    },
                    Err(e) => Err(e),
                }
            },
            PluginChannelData::Unknown(chan) => {
                if is_brand_channel(chan.as_bytes()) {
                    return Err(Error::InconsistentValue);
                }
                match chan.encode(out) {
                    Ok(()) => Ok(()),
                    Err(e) => Err(e),
                }
            },
        }
    }

    fn num_bytes(&self) -> (r: usize) {
        match &self.data {
            PluginChannelData::MinecraftBrand(brand) => {
                proof {
                    assert(brand_channel().len() == 15);
                }
                let prefix = varint_size_u(15);
                prefix + 15 + brand.num_bytes()
            },
            PluginChannelData::Unknown(chan) => chan.num_bytes(),
        }
    }
}

impl Packet for ClientboundConfigurationPluginMessagePacket {
    open spec fn spec_id() -> int {
        0x01
    }

    proof fn lemma_id_bounds() {
    }

    fn id() -> (r: i32) {
        0x01
    }
}

} // verus!
