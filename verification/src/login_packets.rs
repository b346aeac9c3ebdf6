//! The handshake, status and login phases' packets.

use vstd::prelude::*;
use vstd::arithmetic::power2::lemma2_to64;
use crate::codec::{Error, MinecraftData, lemma_field_step};
use crate::varint::{
    VarInt, varint_enc_u, varint_dec_rec, varint_encode_u, varint_size_u, varint_decode_rec,
    lemma_varint_round_trip, lemma_varint_dec_bound,
};
use crate::strings::{MString, Identifier};
use crate::packet::Packet;
use crate::seqs::{lemma_concat_assoc, lemma_skip_skip};

use crate::primitives::UUID;
use crate::datatypes::{GameProfile, GameProfileModel};

verus! {

/// What a handshake asks for: the phase the connection moves to next.
#[derive(Debug, Clone, Copy, PartialEq, Eq)]
pub enum HandshakeIntent {
    Status,
    Login,
    Transfer,
}

impl DeepView for HandshakeIntent {
    type V = HandshakeIntent;

    open spec fn deep_view(&self) -> HandshakeIntent {
        *self
    }
}

impl MinecraftData for HandshakeIntent {
    open spec fn wf(m: HandshakeIntent) -> bool {
        true
    }

    open spec fn enc(m: HandshakeIntent) -> Seq<u8> {
        match m {
            HandshakeIntent::Status => varint_enc_u(1),
            HandshakeIntent::Login => varint_enc_u(2),
            HandshakeIntent::Transfer => varint_enc_u(3),
        }
    }

    open spec fn dec(s: Seq<u8>) -> Option<(HandshakeIntent, int)> {
        match varint_dec_rec(s, 0) {
            Some(p) => {
                if p.0 == 1 {
                    Some((HandshakeIntent::Status, p.1))
                } else if p.0 == 2 {
                    Some((HandshakeIntent::Login, p.1))
                } else if p.0 == 3 {
                    Some((HandshakeIntent::Transfer, p.1))
                } else {
                    None
                }
            },
            None => None,
        }
    }

    proof fn lemma_round_trip(m: HandshakeIntent, rest: Seq<u8>) {
        lemma2_to64();
        match m {
            HandshakeIntent::Status => lemma_varint_round_trip(1, 0, rest),
            HandshakeIntent::Login => lemma_varint_round_trip(2, 0, rest),
            HandshakeIntent::Transfer => lemma_varint_round_trip(3, 0, rest),
        }
    }

    proof fn lemma_dec_props(s: Seq<u8>) {
        lemma_varint_dec_bound(s, 0);
    }

    fn decode(bytes: &Vec<u8>, pos: usize) -> (r: Result<(Self, usize), Error>) {
        let total = bytes.len();
        let (d, n) = match varint_decode_rec(bytes, pos, 0) {
            Ok(x) => x,
            Err(e) => {
                return Err(e);
            },
        };
        if d == 1 {
            Ok((HandshakeIntent::Status, pos + n))
        } else if d == 2 {
            Ok((HandshakeIntent::Login, pos + n))
        } else if d == 3 {
            Ok((HandshakeIntent::Transfer, pos + n))
        } else {
            Err(Error::UnknownDiscriminant)
        }
    }

    fn encode(&self, out: &mut Vec<u8>) -> (r: Result<(), Error>) {
        match self {
            HandshakeIntent::Status => varint_encode_u(out, 1),
            HandshakeIntent::Login => varint_encode_u(out, 2),
            HandshakeIntent::Transfer => varint_encode_u(out, 3),
        }
        Ok(())
    }

    fn num_bytes(&self) -> (r: usize) {
        match self {
            HandshakeIntent::Status => varint_size_u(1),
            HandshakeIntent::Login => varint_size_u(2),
            HandshakeIntent::Transfer => varint_size_u(3),
        }
    }
}

/// The model of `HandshakePacket`.
pub struct HandshakePacketModel {
    pub protocol_version: VarInt,
    pub server_address: Seq<u8>,
    pub server_port: u16,
    pub intent: HandshakeIntent,
}

/// Opens the connection and names the phase the client intends to enter.
#[derive(Debug, Clone)]
pub struct HandshakePacket {
    pub protocol_version: VarInt,
    pub server_address: MString<255>,
    pub server_port: u16,
    pub intent: HandshakeIntent,
}

impl DeepView for HandshakePacket {
    type V = HandshakePacketModel;

    open spec fn deep_view(&self) -> HandshakePacketModel {
        HandshakePacketModel {
            protocol_version: self.protocol_version.deep_view(),
            server_address: self.server_address.deep_view(),
            server_port: self.server_port.deep_view(),
            intent: self.intent.deep_view(),
        }
    }
}

impl MinecraftData for HandshakePacket {
    open spec fn wf(m: HandshakePacketModel) -> bool {
        &&& <VarInt as MinecraftData>::wf(m.protocol_version)
        &&& <MString<255> as MinecraftData>::wf(m.server_address)
        &&& <u16 as MinecraftData>::wf(m.server_port)
        &&& <HandshakeIntent as MinecraftData>::wf(m.intent)
    }

    open spec fn enc(m: HandshakePacketModel) -> Seq<u8> {
        <VarInt as MinecraftData>::enc(m.protocol_version) + <MString<255> as MinecraftData>::enc(m.server_address) + <u16 as MinecraftData>::enc(m.server_port) + <HandshakeIntent as MinecraftData>::enc(m.intent)
    }

    open spec fn dec(s: Seq<u8>) -> Option<(HandshakePacketModel, int)> {
        match <VarInt as MinecraftData>::dec(s) {
            Some(p0) => {
                let s1 = s.skip(p0.1);
                match <MString<255> as MinecraftData>::dec(s1) {
                    Some(p1) => {
                        let s2 = s1.skip(p1.1);
                        match <u16 as MinecraftData>::dec(s2) {
                            Some(p2) => {
                                let s3 = s2.skip(p2.1);
                                match <HandshakeIntent as MinecraftData>::dec(s3) {
                                    Some(p3) => Some(((HandshakePacketModel { protocol_version: p0.0, server_address: p1.0, server_port: p2.0, intent: p3.0 }), p0.1 + p1.1 + p2.1 + p3.1)),
                                    None => None,
                                }
                            },
                            None => None,
                        }
                    },
                    None => None,
                }
            },
            None => None,
        }
    }

    proof fn lemma_round_trip(m: HandshakePacketModel, rest: Seq<u8>) {
        let e0 = <VarInt as MinecraftData>::enc(m.protocol_version);
        let e1 = <MString<255> as MinecraftData>::enc(m.server_address);
        let e2 = <u16 as MinecraftData>::enc(m.server_port);
        let e3 = <HandshakeIntent as MinecraftData>::enc(m.intent);
        lemma_concat_assoc(e0 + e1 + e2, e3, rest);
        lemma_concat_assoc(e0 + e1, e2, e3 + (rest));
        lemma_concat_assoc(e0, e1, e2 + (e3 + (rest)));
        lemma_field_step::<VarInt>(m.protocol_version, e1 + (e2 + (e3 + (rest))));
        lemma_field_step::<MString<255>>(m.server_address, e2 + (e3 + (rest)));
        lemma_field_step::<u16>(m.server_port, e3 + (rest));
        lemma_field_step::<HandshakeIntent>(m.intent, rest);
    }

    proof fn lemma_dec_props(s: Seq<u8>) {
        <VarInt as MinecraftData>::lemma_dec_props(s);
        if <VarInt as MinecraftData>::dec(s) is Some {
            let p0 = <VarInt as MinecraftData>::dec(s).unwrap();
            let s1 = s.skip(p0.1);
            <MString<255> as MinecraftData>::lemma_dec_props(s1);
            if <MString<255> as MinecraftData>::dec(s1) is Some {
                let p1 = <MString<255> as MinecraftData>::dec(s1).unwrap();
                let s2 = s1.skip(p1.1);
                <u16 as MinecraftData>::lemma_dec_props(s2);
                if <u16 as MinecraftData>::dec(s2) is Some {
                    let p2 = <u16 as MinecraftData>::dec(s2).unwrap();
                    let s3 = s2.skip(p2.1);
                    <HandshakeIntent as MinecraftData>::lemma_dec_props(s3);
                }
            }
        }
    }

    fn decode(bytes: &Vec<u8>, pos: usize) -> (r: Result<(Self, usize), Error>) {
        let (protocol_version, p1) = match <VarInt as MinecraftData>::decode(bytes, pos) {
            Ok(x) => x,
            Err(e) => {
                return Err(e);
            },
        };
        proof {
            lemma_skip_skip(bytes@, pos as int, p1 - pos);
        }
        let (server_address, p2) = match <MString<255> as MinecraftData>::decode(bytes, p1) {
            Ok(x) => x,
            Err(e) => {
                return Err(e);
            },
        };
        proof {
            lemma_skip_skip(bytes@, p1 as int, p2 - p1);
        }
        let (server_port, p3) = match <u16 as MinecraftData>::decode(bytes, p2) {
            Ok(x) => x,
            Err(e) => {
                return Err(e);
            },
        };
        proof {
            lemma_skip_skip(bytes@, p2 as int, p3 - p2);
        }
        let (intent, p4) = match <HandshakeIntent as MinecraftData>::decode(bytes, p3) {
            Ok(x) => x,
            Err(e) => {
                return Err(e);
            },
        };
        Ok(((HandshakePacket { protocol_version, server_address, server_port, intent }), p4))
    }

    fn encode(&self, out: &mut Vec<u8>) -> (r: Result<(), Error>) {
        match self.protocol_version.encode(out) {
            Ok(()) => {},
            Err(e) => {
                return Err(e);
            },
        }
        match self.server_address.encode(out) {
            Ok(()) => {},
            Err(e) => {
                return Err(e);
            },
        }
        match self.server_port.encode(out) {
            Ok(()) => {},
            Err(e) => {
                return Err(e);
            },
        }
        match self.intent.encode(out) {
            Ok(()) => {},
            Err(e) => {
                return Err(e);
            },
        }
        proof {
            assert(out@ =~= old(out)@ + Self::enc(self.deep_view()));
        }
        Ok(())
    }

    fn num_bytes(&self) -> (r: usize) {
        self.protocol_version.num_bytes()
            + self.server_address.num_bytes()
            + self.server_port.num_bytes()
            + self.intent.num_bytes()
    }
}

impl Packet for HandshakePacket {
    open spec fn spec_id() -> int {
        0x00
    }

    proof fn lemma_id_bounds() {
    }

    fn id() -> (r: i32) {
        0x00
    }
}

/// Asks the server for its status document.
#[derive(Debug, Clone, Copy, PartialEq, Eq)]
pub struct StatusRequestPacket;

impl DeepView for StatusRequestPacket {
    type V = StatusRequestPacket;

    open spec fn deep_view(&self) -> StatusRequestPacket {
        *self
    }
}

impl MinecraftData for StatusRequestPacket {
    open spec fn wf(m: StatusRequestPacket) -> bool {
        true
    }

    open spec fn enc(m: StatusRequestPacket) -> Seq<u8> {
        Seq::empty()
    }

    open spec fn dec(s: Seq<u8>) -> Option<(StatusRequestPacket, int)> {
        Some((StatusRequestPacket, 0int))
    }

    proof fn lemma_round_trip(m: StatusRequestPacket, rest: Seq<u8>) {
        assert(Self::enc(m) + rest =~= rest);
    }

    proof fn lemma_dec_props(s: Seq<u8>) {
    }

    fn decode(bytes: &Vec<u8>, pos: usize) -> (r: Result<(Self, usize), Error>) {
        Ok((StatusRequestPacket, pos))
    }

    fn encode(&self, out: &mut Vec<u8>) -> (r: Result<(), Error>) {
        proof {
            assert(out@ =~= old(out)@ + Self::enc(self.deep_view()));
        }
        Ok(())
    }

    fn num_bytes(&self) -> (r: usize) {
        0
    }
}

impl Packet for StatusRequestPacket {
    open spec fn spec_id() -> int {
        0x00
    }

    proof fn lemma_id_bounds() {
    }

    fn id() -> (r: i32) {
        0x00
    }
}

/// The model of `StatusResponsePacket`.
pub struct StatusResponsePacketModel {
    pub json_response: Seq<u8>,
}

/// The server's status document, as JSON text.
#[derive(Debug, Clone)]
pub struct StatusResponsePacket {
    pub json_response: MString<32767>,
}

impl DeepView for StatusResponsePacket {
    type V = StatusResponsePacketModel;

    open spec fn deep_view(&self) -> StatusResponsePacketModel {
        StatusResponsePacketModel {
            json_response: self.json_response.deep_view(),
        }
    }
}

impl MinecraftData for StatusResponsePacket {
    open spec fn wf(m: StatusResponsePacketModel) -> bool {
        <MString<32767> as MinecraftData>::wf(m.json_response)
    }

    open spec fn enc(m: StatusResponsePacketModel) -> Seq<u8> {
        <MString<32767> as MinecraftData>::enc(m.json_response)
    }

    open spec fn dec(s: Seq<u8>) -> Option<(StatusResponsePacketModel, int)> {
        match <MString<32767> as MinecraftData>::dec(s) {
            Some(p0) => Some(((StatusResponsePacketModel { json_response: p0.0 }), p0.1)),
            None => None,
        }
    }

    proof fn lemma_round_trip(m: StatusResponsePacketModel, rest: Seq<u8>) {
        let e0 = <MString<32767> as MinecraftData>::enc(m.json_response);
        lemma_field_step::<MString<32767>>(m.json_response, rest);
    }

    proof fn lemma_dec_props(s: Seq<u8>) {
        <MString<32767> as MinecraftData>::lemma_dec_props(s);
    }

    fn decode(bytes: &Vec<u8>, pos: usize) -> (r: Result<(Self, usize), Error>) {
        let (json_response, p1) = match <MString<32767> as MinecraftData>::decode(bytes, pos) {
            Ok(x) => x,
            Err(e) => {
                return Err(e);
            },
        };
        Ok(((StatusResponsePacket { json_response }), p1))
    }

    fn encode(&self, out: &mut Vec<u8>) -> (r: Result<(), Error>) {
        match self.json_response.encode(out) {
            Ok(()) => {},
            Err(e) => {
                return Err(e);
            },
        }
        proof {
            assert(out@ =~= old(out)@ + Self::enc(self.deep_view()));
        }
        Ok(())
    }

    fn num_bytes(&self) -> (r: usize) {
        self.json_response.num_bytes()
    }
}

impl Packet for StatusResponsePacket {
    open spec fn spec_id() -> int {
        0x00
    }

    proof fn lemma_id_bounds() {
    }

    fn id() -> (r: i32) {
        0x00
    }
}

/// The model of `LoginStartPacket`.
pub struct LoginStartPacketModel {
    pub name: Seq<u8>,
    pub uuid: UUID,
}

/// Starts the login exchange with the player's name and uuid.
#[derive(Debug, Clone)]
pub struct LoginStartPacket {
    pub name: MString<16>,
    pub uuid: UUID,
}

impl DeepView for LoginStartPacket {
    type V = LoginStartPacketModel;

    open spec fn deep_view(&self) -> LoginStartPacketModel {
        LoginStartPacketModel {
            name: self.name.deep_view(),
            uuid: self.uuid.deep_view(),
        }
    }
}

impl MinecraftData for LoginStartPacket {
    open spec fn wf(m: LoginStartPacketModel) -> bool {
        &&& <MString<16> as MinecraftData>::wf(m.name)
        &&& <UUID as MinecraftData>::wf(m.uuid)
    }

    open spec fn enc(m: LoginStartPacketModel) -> Seq<u8> {
        <MString<16> as MinecraftData>::enc(m.name) + <UUID as MinecraftData>::enc(m.uuid)
    }

    open spec fn dec(s: Seq<u8>) -> Option<(LoginStartPacketModel, int)> {
        match <MString<16> as MinecraftData>::dec(s) {
            Some(p0) => {
                let s1 = s.skip(p0.1);
                match <UUID as MinecraftData>::dec(s1) {
                    Some(p1) => Some(((LoginStartPacketModel { name: p0.0, uuid: p1.0 }), p0.1 + p1.1)),
                    None => None,
                }
            },
            None => None,
        }
    }

    proof fn lemma_round_trip(m: LoginStartPacketModel, rest: Seq<u8>) {
        let e0 = <MString<16> as MinecraftData>::enc(m.name);
        let e1 = <UUID as MinecraftData>::enc(m.uuid);
        lemma_concat_assoc(e0, e1, rest);
        lemma_field_step::<MString<16>>(m.name, e1 + (rest));
        lemma_field_step::<UUID>(m.uuid, rest);
    }

    proof fn lemma_dec_props(s: Seq<u8>) {
        <MString<16> as MinecraftData>::lemma_dec_props(s);
        if <MString<16> as MinecraftData>::dec(s) is Some {
            let p0 = <MString<16> as MinecraftData>::dec(s).unwrap();
            let s1 = s.skip(p0.1);
            <UUID as MinecraftData>::lemma_dec_props(s1);
        }
    }

    fn decode(bytes: &Vec<u8>, pos: usize) -> (r: Result<(Self, usize), Error>) {
        let (name, p1) = match <MString<16> as MinecraftData>::decode(bytes, pos) {
            Ok(x) => x,
            Err(e) => {
                return Err(e);
            },
        };
        proof {
            lemma_skip_skip(bytes@, pos as int, p1 - pos);
        }
        let (uuid, p2) = match <UUID as MinecraftData>::decode(bytes, p1) {
            Ok(x) => x,
            Err(e) => {
                return Err(e);
            },
        };
        Ok(((LoginStartPacket { name, uuid }), p2))
    }

    fn encode(&self, out: &mut Vec<u8>) -> (r: Result<(), Error>) {
        match self.name.encode(out) {
            Ok(()) => {},
            Err(e) => {
                return Err(e);
            },
        }
        match self.uuid.encode(out) {
            Ok(()) => {},
            Err(e) => {
                return Err(e);
            },
        }
        proof {
            assert(out@ =~= old(out)@ + Self::enc(self.deep_view()));
        }
        Ok(())
    }

    fn num_bytes(&self) -> (r: usize) {
        self.name.num_bytes()
            + self.uuid.num_bytes()
    }
}

impl Packet for LoginStartPacket {
    open spec fn spec_id() -> int {
        0x00
    }

    proof fn lemma_id_bounds() {
    }

    fn id() -> (r: i32) {
        0x00
    }
}

/// The model of `EncryptionRequestPacket`.
pub struct EncryptionRequestPacketModel {
    pub server_id: Seq<u8>,
    pub public_key: Seq<u8>,
    pub verify_token: Seq<u8>,
    pub should_authenticate: bool,
}

/// The server's request to begin the encryption handshake.
#[derive(Debug, Clone)]
pub struct EncryptionRequestPacket {
    pub server_id: MString<20>,
    pub public_key: Vec<u8>,
    pub verify_token: Vec<u8>,
    pub should_authenticate: bool,
}

impl DeepView for EncryptionRequestPacket {
    type V = EncryptionRequestPacketModel;

    open spec fn deep_view(&self) -> EncryptionRequestPacketModel {
        EncryptionRequestPacketModel {
            server_id: self.server_id.deep_view(),
            public_key: self.public_key.deep_view(),
            verify_token: self.verify_token.deep_view(),
            should_authenticate: self.should_authenticate.deep_view(),
        }
    }
}

impl MinecraftData for EncryptionRequestPacket {
    open spec fn wf(m: EncryptionRequestPacketModel) -> bool {
        &&& <MString<20> as MinecraftData>::wf(m.server_id)
        &&& <Vec<u8> as MinecraftData>::wf(m.public_key)
        &&& <Vec<u8> as MinecraftData>::wf(m.verify_token)
        &&& <bool as MinecraftData>::wf(m.should_authenticate)
    }

    open spec fn enc(m: EncryptionRequestPacketModel) -> Seq<u8> {
        <MString<20> as MinecraftData>::enc(m.server_id) + <Vec<u8> as MinecraftData>::enc(m.public_key) + <Vec<u8> as MinecraftData>::enc(m.verify_token) + <bool as MinecraftData>::enc(m.should_authenticate)
    }

    open spec fn dec(s: Seq<u8>) -> Option<(EncryptionRequestPacketModel, int)> {
        match <MString<20> as MinecraftData>::dec(s) {
            Some(p0) => {
                let s1 = s.skip(p0.1);
                match <Vec<u8> as MinecraftData>::dec(s1) {
                    Some(p1) => {
                        let s2 = s1.skip(p1.1);
                        match <Vec<u8> as MinecraftData>::dec(s2) {
                            Some(p2) => {
                                let s3 = s2.skip(p2.1);
                                match <bool as MinecraftData>::dec(s3) {
                                    Some(p3) => Some(((EncryptionRequestPacketModel { server_id: p0.0, public_key: p1.0, verify_token: p2.0, should_authenticate: p3.0 }), p0.1 + p1.1 + p2.1 + p3.1)),
                                    None => None,
                                }
                            },
                            None => None,
                        }
                    },
                    None => None,
                }
            },
            None => None,
        }
    }

    proof fn lemma_round_trip(m: EncryptionRequestPacketModel, rest: Seq<u8>) {
        let e0 = <MString<20> as MinecraftData>::enc(m.server_id);
        let e1 = <Vec<u8> as MinecraftData>::enc(m.public_key);
        let e2 = <Vec<u8> as MinecraftData>::enc(m.verify_token);
        let e3 = <bool as MinecraftData>::enc(m.should_authenticate);
        lemma_concat_assoc(e0 + e1 + e2, e3, rest);
        lemma_concat_assoc(e0 + e1, e2, e3 + (rest));
        lemma_concat_assoc(e0, e1, e2 + (e3 + (rest)));
        lemma_field_step::<MString<20>>(m.server_id, e1 + (e2 + (e3 + (rest))));
        lemma_field_step::<Vec<u8>>(m.public_key, e2 + (e3 + (rest)));
        lemma_field_step::<Vec<u8>>(m.verify_token, e3 + (rest));
        lemma_field_step::<bool>(m.should_authenticate, rest);
    }

    proof fn lemma_dec_props(s: Seq<u8>) {
        <MString<20> as MinecraftData>::lemma_dec_props(s);
        if <MString<20> as MinecraftData>::dec(s) is Some {
            let p0 = <MString<20> as MinecraftData>::dec(s).unwrap();
            let s1 = s.skip(p0.1);
            <Vec<u8> as MinecraftData>::lemma_dec_props(s1);
            if <Vec<u8> as MinecraftData>::dec(s1) is Some {
                let p1 = <Vec<u8> as MinecraftData>::dec(s1).unwrap();
                let s2 = s1.skip(p1.1);
                <Vec<u8> as MinecraftData>::lemma_dec_props(s2);
                if <Vec<u8> as MinecraftData>::dec(s2) is Some {
                    let p2 = <Vec<u8> as MinecraftData>::dec(s2).unwrap();
                    let s3 = s2.skip(p2.1);
                    <bool as MinecraftData>::lemma_dec_props(s3);
                }
            }
        }
    }

    fn decode(bytes: &Vec<u8>, pos: usize) -> (r: Result<(Self, usize), Error>) {
        let (server_id, p1) = match <MString<20> as MinecraftData>::decode(bytes, pos) {
            Ok(x) => x,
            Err(e) => {
                return Err(e);
            },
        };
        proof {
            lemma_skip_skip(bytes@, pos as int, p1 - pos);
        }
        let (public_key, p2) = match <Vec<u8> as MinecraftData>::decode(bytes, p1) {
            Ok(x) => x,
            Err(e) => {
                return Err(e);
            },
        };
        proof {
            lemma_skip_skip(bytes@, p1 as int, p2 - p1);
        }
        let (verify_token, p3) = match <Vec<u8> as MinecraftData>::decode(bytes, p2) {
            Ok(x) => x,
            Err(e) => {
                return Err(e);
            },
        };
        proof {
            lemma_skip_skip(bytes@, p2 as int, p3 - p2);
        }
        let (should_authenticate, p4) = match <bool as MinecraftData>::decode(bytes, p3) {
            Ok(x) => x,
            Err(e) => {
                return Err(e);
            },
        };
        Ok(((EncryptionRequestPacket { server_id, public_key, verify_token, should_authenticate }), p4))
    }

    fn encode(&self, out: &mut Vec<u8>) -> (r: Result<(), Error>) {
        match self.server_id.encode(out) {
            Ok(()) => {},
            Err(e) => {
                return Err(e);
            },
        }
        match self.public_key.encode(out) {
            Ok(()) => {},
            Err(e) => {
                return Err(e);
            },
        }
        match self.verify_token.encode(out) {
            Ok(()) => {},
            Err(e) => {
                return Err(e);
            },
        }
        match self.should_authenticate.encode(out) {
            Ok(()) => {},
            Err(e) => {
                return Err(e);
            },
        }
        proof {
            assert(out@ =~= old(out)@ + Self::enc(self.deep_view()));
        }
        Ok(())
    }

    fn num_bytes(&self) -> (r: usize) {
        self.server_id.num_bytes()
            + self.public_key.num_bytes()
            + self.verify_token.num_bytes()
            + self.should_authenticate.num_bytes()
    }
}

impl Packet for EncryptionRequestPacket {
    open spec fn spec_id() -> int {
        0x01
    }

    proof fn lemma_id_bounds() {
    }

    fn id() -> (r: i32) {
        0x01
    }
}

/// The model of `LoginSuccessPacket`.
pub struct LoginSuccessPacketModel {
    pub client: GameProfileModel,
}

/// Ends the login exchange with the accepted profile.
#[derive(Debug, Clone)]
pub struct LoginSuccessPacket {
    pub client: GameProfile,
}

impl DeepView for LoginSuccessPacket {
    type V = LoginSuccessPacketModel;

    open spec fn deep_view(&self) -> LoginSuccessPacketModel {
        LoginSuccessPacketModel {
            client: self.client.deep_view(),
        }
    }
}

impl MinecraftData for LoginSuccessPacket {
    open spec fn wf(m: LoginSuccessPacketModel) -> bool {
        <GameProfile as MinecraftData>::wf(m.client)
    }

    open spec fn enc(m: LoginSuccessPacketModel) -> Seq<u8> {
        <GameProfile as MinecraftData>::enc(m.client)
    }

    open spec fn dec(s: Seq<u8>) -> Option<(LoginSuccessPacketModel, int)> {
        match <GameProfile as MinecraftData>::dec(s) {
            Some(p0) => Some(((LoginSuccessPacketModel { client: p0.0 }), p0.1)),
            None => None,
        }
    }

    proof fn lemma_round_trip(m: LoginSuccessPacketModel, rest: Seq<u8>) {
        let e0 = <GameProfile as MinecraftData>::enc(m.client);
        lemma_field_step::<GameProfile>(m.client, rest);
    }

    proof fn lemma_dec_props(s: Seq<u8>) {
        <GameProfile as MinecraftData>::lemma_dec_props(s);
    }

    fn decode(bytes: &Vec<u8>, pos: usize) -> (r: Result<(Self, usize), Error>) {
        let (client, p1) = match <GameProfile as MinecraftData>::decode(bytes, pos) {
            Ok(x) => x,
            Err(e) => {
                return Err(e);
            },
        };
        Ok(((LoginSuccessPacket { client }), p1))
    }

    fn encode(&self, out: &mut Vec<u8>) -> (r: Result<(), Error>) {
        match self.client.encode(out) {
            Ok(()) => {},
            Err(e) => {
                return Err(e);
            },
        }
        proof {
            assert(out@ =~= old(out)@ + Self::enc(self.deep_view()));
        }
        Ok(())
    }

    fn num_bytes(&self) -> (r: usize) {
        self.client.num_bytes()
    }
}

impl Packet for LoginSuccessPacket {
    open spec fn spec_id() -> int {
        0x02
    }

    proof fn lemma_id_bounds() {
    }

    fn id() -> (r: i32) {
        0x02
    }
}

/// The client's acknowledgement of a successful login.
#[derive(Debug, Clone, Copy, PartialEq, Eq)]
pub struct LoginAcknowledgedPacket;

impl DeepView for LoginAcknowledgedPacket {
    type V = LoginAcknowledgedPacket;

    open spec fn deep_view(&self) -> LoginAcknowledgedPacket {
        *self
    }
}

impl MinecraftData for LoginAcknowledgedPacket {
    open spec fn wf(m: LoginAcknowledgedPacket) -> bool {
        true
    }

    open spec fn enc(m: LoginAcknowledgedPacket) -> Seq<u8> {
        Seq::empty()
    }

    open spec fn dec(s: Seq<u8>) -> Option<(LoginAcknowledgedPacket, int)> {
        Some((LoginAcknowledgedPacket, 0int))
    }

    proof fn lemma_round_trip(m: LoginAcknowledgedPacket, rest: Seq<u8>) {
        assert(Self::enc(m) + rest =~= rest);
    }

    proof fn lemma_dec_props(s: Seq<u8>) {
    }

    fn decode(bytes: &Vec<u8>, pos: usize) -> (r: Result<(Self, usize), Error>) {
        Ok((LoginAcknowledgedPacket, pos))
    }

    fn encode(&self, out: &mut Vec<u8>) -> (r: Result<(), Error>) {
        proof {
            assert(out@ =~= old(out)@ + Self::enc(self.deep_view()));
        }
        Ok(())
    }

    fn num_bytes(&self) -> (r: usize) {
        0
    }
}

impl Packet for LoginAcknowledgedPacket {
    open spec fn spec_id() -> int {
        0x03
    }

    proof fn lemma_id_bounds() {
    }

    fn id() -> (r: i32) {
        0x03
    }
}

} // verus!
