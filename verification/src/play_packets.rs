//! The play phase's packets (the subset this client understands).

use vstd::prelude::*;
use vstd::arithmetic::power2::lemma2_to64;
use crate::codec::{Error, MinecraftData, lemma_field_step};
use crate::varint::{
    VarInt, varint_enc_u, varint_dec_rec, varint_encode_u, varint_size_u, varint_decode_rec,
    lemma_varint_round_trip, lemma_varint_dec_bound,
};
use crate::strings::{MString, Identifier};
use crate::packet::Packet;
use crate::seqs::{lemma_concat_assoc, lemma_skip_skip};

use crate::position::Position;
use crate::datatypes::{IDSet, IDSetModel, SlotDisplay, SlotDisplayModel};
use crate::containers::{
    gated_enc, gated_dec, gated_wf, lemma_gated_field_step, lemma_gated_dec_props, gated_decode,
    gated_encode, gated_num_bytes,
};

verus! {

/// The world difficulty carried by `ChangeDifficultyPacket`.
#[derive(Debug, Clone, Copy, PartialEq, Eq)]
pub enum Difficulty {
    Peaceful,
    Easy,
    Normal,
    Hard,
}

impl DeepView for Difficulty {
    type V = Difficulty;

    open spec fn deep_view(&self) -> Difficulty {
        *self
    }
}

impl MinecraftData for Difficulty {
    open spec fn wf(m: Difficulty) -> bool {
        true
    }

    open spec fn enc(m: Difficulty) -> Seq<u8> {
        match m {
            Difficulty::Peaceful => varint_enc_u(0),
            Difficulty::Easy => varint_enc_u(1),
            Difficulty::Normal => varint_enc_u(2),
            Difficulty::Hard => varint_enc_u(3),
        }
    }

    open spec fn dec(s: Seq<u8>) -> Option<(Difficulty, int)> {
        match varint_dec_rec(s, 0) {
            Some(p) => {
                if p.0 == 0 {
                    Some((Difficulty::Peaceful, p.1))
                } else if p.0 == 1 {
                    Some((Difficulty::Easy, p.1))
                } else if p.0 == 2 {
                    Some((Difficulty::Normal, p.1))
                } else if p.0 == 3 {
                    Some((Difficulty::Hard, p.1))
                } else {
                    None
                }
            },
            None => None,
        }
    }

    proof fn lemma_round_trip(m: Difficulty, rest: Seq<u8>) {
        lemma2_to64();
        match m {
            Difficulty::Peaceful => lemma_varint_round_trip(0, 0, rest),
            Difficulty::Easy => lemma_varint_round_trip(1, 0, rest),
            Difficulty::Normal => lemma_varint_round_trip(2, 0, rest),
            Difficulty::Hard => lemma_varint_round_trip(3, 0, rest),
        }
    }

    proof fn lemma_dec_props(s: Seq<u8>) {
        lemma_varint_dec_bound(s, 0);
    }

    fn decode(bytes: &Vec<u8>, pos: usize) -> (r: Result<(Self, usize), Error>) {
        let total = bytes.len();
        let (d, n) = match varint_decode_rec(bytes, pos, 0) {
            Ok(x) => x,
            Err(e) => {
                return Err(e);
            },
        };
        if d == 0 {
            Ok((Difficulty::Peaceful, pos + n))
        } else if d == 1 {
            Ok((Difficulty::Easy, pos + n))
        } else if d == 2 {
            Ok((Difficulty::Normal, pos + n))
        } else if d == 3 {
            Ok((Difficulty::Hard, pos + n))
        } else {
            Err(Error::UnknownDiscriminant)
        }
    }

    fn encode(&self, out: &mut Vec<u8>) -> (r: Result<(), Error>) {
        match self {
            Difficulty::Peaceful => varint_encode_u(out, 0),
            Difficulty::Easy => varint_encode_u(out, 1),
            Difficulty::Normal => varint_encode_u(out, 2),
            Difficulty::Hard => varint_encode_u(out, 3),
        }
        Ok(())
    }

    fn num_bytes(&self) -> (r: usize) {
        match self {
            Difficulty::Peaceful => varint_size_u(0),
            Difficulty::Easy => varint_size_u(1),
            Difficulty::Normal => varint_size_u(2),
            Difficulty::Hard => varint_size_u(3),
        }
    }
}

/// A play-phase keep-alive from the server; its id must be echoed back.
#[derive(Debug, Clone, Copy, PartialEq, Eq)]
pub struct ClientboundPlayKeepAlivePacket {
    pub keep_alive_id: i64,
}

impl DeepView for ClientboundPlayKeepAlivePacket {
    type V = ClientboundPlayKeepAlivePacket;

    open spec fn deep_view(&self) -> ClientboundPlayKeepAlivePacket {
        *self
    }
}

impl MinecraftData for ClientboundPlayKeepAlivePacket {
    open spec fn wf(m: ClientboundPlayKeepAlivePacket) -> bool {
        <i64 as MinecraftData>::wf(m.keep_alive_id)
    }

    open spec fn enc(m: ClientboundPlayKeepAlivePacket) -> Seq<u8> {
        <i64 as MinecraftData>::enc(m.keep_alive_id)
    }

    open spec fn dec(s: Seq<u8>) -> Option<(ClientboundPlayKeepAlivePacket, int)> {
        match <i64 as MinecraftData>::dec(s) {
            Some(p0) => Some(((ClientboundPlayKeepAlivePacket { keep_alive_id: p0.0 }), p0.1)),
            None => None,
        }
    }

    proof fn lemma_round_trip(m: ClientboundPlayKeepAlivePacket, rest: Seq<u8>) {
        let e0 = <i64 as MinecraftData>::enc(m.keep_alive_id);
        lemma_field_step::<i64>(m.keep_alive_id, rest);
    }

    proof fn lemma_dec_props(s: Seq<u8>) {
        <i64 as MinecraftData>::lemma_dec_props(s);
    }

    fn decode(bytes: &Vec<u8>, pos: usize) -> (r: Result<(Self, usize), Error>) {
        let (keep_alive_id, p1) = match <i64 as MinecraftData>::decode(bytes, pos) {
            Ok(x) => x,
            Err(e) => {
                return Err(e);
            },
        };
        Ok(((ClientboundPlayKeepAlivePacket { keep_alive_id }), p1))
    }

    fn encode(&self, out: &mut Vec<u8>) -> (r: Result<(), Error>) {
        match self.keep_alive_id.encode(out) {
            Ok(()) => {},
            Err(e) => {
                return Err(e);
            },
        }
        proof {
            assert(out@ =~= old(out)@ + Self::enc(self.deep_view()));
        }
        Ok(())
    }

    fn num_bytes(&self) -> (r: usize) {
        self.keep_alive_id.num_bytes()
    }
}

impl Packet for ClientboundPlayKeepAlivePacket {
    open spec fn spec_id() -> int {
        0x2B
    }

    proof fn lemma_id_bounds() {
    }

    fn id() -> (r: i32) {
        0x2B
    }
}

/// The client's echo of a play-phase keep-alive.
#[derive(Debug, Clone, Copy, PartialEq, Eq)]
pub struct ServerboundPlayKeepAlivePacket {
    pub keep_alive_id: i64,
}

impl DeepView for ServerboundPlayKeepAlivePacket {
    type V = ServerboundPlayKeepAlivePacket;

    open spec fn deep_view(&self) -> ServerboundPlayKeepAlivePacket {
        *self
    }
}

impl MinecraftData for ServerboundPlayKeepAlivePacket {
    open spec fn wf(m: ServerboundPlayKeepAlivePacket) -> bool {
        <i64 as MinecraftData>::wf(m.keep_alive_id)
    }

    open spec fn enc(m: ServerboundPlayKeepAlivePacket) -> Seq<u8> {
        <i64 as MinecraftData>::enc(m.keep_alive_id)
    }

    open spec fn dec(s: Seq<u8>) -> Option<(ServerboundPlayKeepAlivePacket, int)> {
        match <i64 as MinecraftData>::dec(s) {
            Some(p0) => Some(((ServerboundPlayKeepAlivePacket { keep_alive_id: p0.0 }), p0.1)),
            None => None,
        }
    }

    proof fn lemma_round_trip(m: ServerboundPlayKeepAlivePacket, rest: Seq<u8>) {
        let e0 = <i64 as MinecraftData>::enc(m.keep_alive_id);
        lemma_field_step::<i64>(m.keep_alive_id, rest);
    }

    proof fn lemma_dec_props(s: Seq<u8>) {
        <i64 as MinecraftData>::lemma_dec_props(s);
    }

    fn decode(bytes: &Vec<u8>, pos: usize) -> (r: Result<(Self, usize), Error>) {
        let (keep_alive_id, p1) = match <i64 as MinecraftData>::decode(bytes, pos) {
            Ok(x) => x,
            Err(e) => {
                return Err(e);
            },
        };
        Ok(((ServerboundPlayKeepAlivePacket { keep_alive_id }), p1))
    }

    fn encode(&self, out: &mut Vec<u8>) -> (r: Result<(), Error>) {
        match self.keep_alive_id.encode(out) {
            Ok(()) => {},
            Err(e) => {
                return Err(e);
            },
        }
        proof {
            assert(out@ =~= old(out)@ + Self::enc(self.deep_view()));
        }
        Ok(())
    }

    fn num_bytes(&self) -> (r: usize) {
        self.keep_alive_id.num_bytes()
    }
}

impl Packet for ServerboundPlayKeepAlivePacket {
    open spec fn spec_id() -> int {
        0x1B
    }

    proof fn lemma_id_bounds() {
    }

    fn id() -> (r: i32) {
        0x1B
    }
}

/// The model of `PlayLoginSetup`.
pub struct PlayLoginSetupModel {
    pub entity_id: i32,
    pub is_hardcore: bool,
    pub dimension_names: Seq<Seq<u8>>,
    pub max_players: VarInt,
    pub view_distance: VarInt,
    pub simulation_distance: VarInt,
    pub reduced_debug_info: bool,
    pub enable_respawn_screen: bool,
    pub do_limited_crafting: bool,
    pub dimension_type: VarInt,
    pub dimension_name: Seq<u8>,
}

/// The first half of the play login bundle: the player's entity and
/// the dimensions of the world.
#[derive(Debug, Clone)]
pub struct PlayLoginSetup {
    pub entity_id: i32,
    pub is_hardcore: bool,
    pub dimension_names: Vec<Identifier>,
    pub max_players: VarInt,
    pub view_distance: VarInt,
    pub simulation_distance: VarInt,
    pub reduced_debug_info: bool,
    pub enable_respawn_screen: bool,
    pub do_limited_crafting: bool,
    pub dimension_type: VarInt,
    pub dimension_name: Identifier,
}

impl DeepView for PlayLoginSetup {
    type V = PlayLoginSetupModel;

    open spec fn deep_view(&self) -> PlayLoginSetupModel {
        PlayLoginSetupModel {
            entity_id: self.entity_id.deep_view(),
            is_hardcore: self.is_hardcore.deep_view(),
            dimension_names: self.dimension_names.deep_view(),
            max_players: self.max_players.deep_view(),
            view_distance: self.view_distance.deep_view(),
            simulation_distance: self.simulation_distance.deep_view(),
            reduced_debug_info: self.reduced_debug_info.deep_view(),
            enable_respawn_screen: self.enable_respawn_screen.deep_view(),
            do_limited_crafting: self.do_limited_crafting.deep_view(),
            dimension_type: self.dimension_type.deep_view(),
            dimension_name: self.dimension_name.deep_view(),
        }
    }
}

impl MinecraftData for PlayLoginSetup {
    open spec fn wf(m: PlayLoginSetupModel) -> bool {
        &&& <i32 as MinecraftData>::wf(m.entity_id)
        &&& <bool as MinecraftData>::wf(m.is_hardcore)
        &&& <Vec<Identifier> as MinecraftData>::wf(m.dimension_names)
        &&& <VarInt as MinecraftData>::wf(m.max_players)
        &&& <VarInt as MinecraftData>::wf(m.view_distance)
        &&& <VarInt as MinecraftData>::wf(m.simulation_distance)
        &&& <bool as MinecraftData>::wf(m.reduced_debug_info)
        &&& <bool as MinecraftData>::wf(m.enable_respawn_screen)
        &&& <bool as MinecraftData>::wf(m.do_limited_crafting)
        &&& <VarInt as MinecraftData>::wf(m.dimension_type)
        &&& <Identifier as MinecraftData>::wf(m.dimension_name)
    }

    open spec fn enc(m: PlayLoginSetupModel) -> Seq<u8> {
        <i32 as MinecraftData>::enc(m.entity_id) + <bool as MinecraftData>::enc(m.is_hardcore) + <Vec<Identifier> as MinecraftData>::enc(m.dimension_names) + <VarInt as MinecraftData>::enc(m.max_players) + <VarInt as MinecraftData>::enc(m.view_distance) + <VarInt as MinecraftData>::enc(m.simulation_distance) + <bool as MinecraftData>::enc(m.reduced_debug_info) + <bool as MinecraftData>::enc(m.enable_respawn_screen) + <bool as MinecraftData>::enc(m.do_limited_crafting) + <VarInt as MinecraftData>::enc(m.dimension_type) + <Identifier as MinecraftData>::enc(m.dimension_name)
    }

    open spec fn dec(s: Seq<u8>) -> Option<(PlayLoginSetupModel, int)> {
        match <i32 as MinecraftData>::dec(s) {
            Some(p0) => {
                let s1 = s.skip(p0.1);
                match <bool as MinecraftData>::dec(s1) {
                    Some(p1) => {
                        let s2 = s1.skip(p1.1);
                        match <Vec<Identifier> as MinecraftData>::dec(s2) {
                            Some(p2) => {
                                let s3 = s2.skip(p2.1);
                                match <VarInt as MinecraftData>::dec(s3) {
                                    Some(p3) => {
                                        let s4 = s3.skip(p3.1);
                                        match <VarInt as MinecraftData>::dec(s4) {
                                            Some(p4) => {
                                                let s5 = s4.skip(p4.1);
                                                match <VarInt as MinecraftData>::dec(s5) {
                                                    Some(p5) => {
                                                        let s6 = s5.skip(p5.1);
                                                        match <bool as MinecraftData>::dec(s6) {
                                                            Some(p6) => {
                                                                let s7 = s6.skip(p6.1);
                                                                match <bool as MinecraftData>::dec(s7) {
                                                                    Some(p7) => {
                                                                        let s8 = s7.skip(p7.1);
                                                                        match <bool as MinecraftData>::dec(s8) {
                                                                            Some(p8) => {
                                                                                let s9 = s8.skip(p8.1);
                                                                                match <VarInt as MinecraftData>::dec(s9) {
                                                                                    Some(p9) => {
                                                                                        let s10 = s9.skip(p9.1);
                                                                                        match <Identifier as MinecraftData>::dec(s10) {
                                                                                            Some(p10) => Some(((PlayLoginSetupModel { entity_id: p0.0, is_hardcore: p1.0, dimension_names: p2.0, max_players: p3.0, view_distance: p4.0, simulation_distance: p5.0, reduced_debug_info: p6.0, enable_respawn_screen: p7.0, do_limited_crafting: p8.0, dimension_type: p9.0, dimension_name: p10.0 }), p0.1 + p1.1 + p2.1 + p3.1 + p4.1 + p5.1 + p6.1 + p7.1 + p8.1 + p9.1 + p10.1)),
                                                                                            None => None,
                                                                                        }
                                                                                    },
                                                                                    None => None,
                                                                                }
                                                                            },
                                                                            None => None,
                                                                        }
                                                                    },
                                                                    None => None,
                                                                }
                                                            },
                                                            None => None,
                                                        }
                                                    },
                                                    None => None,
                                                }
                                            },
                                            None => None,
                                        }
                                    },
                                    None => None,
                                }
                            },
                            None => None,
                        }
                    },
                    None => None,
                }
            },
            None => None,
        }
    }

    #[verifier::rlimit(100)]
    #[verifier::spinoff_prover]
    proof fn lemma_round_trip(m: PlayLoginSetupModel, rest: Seq<u8>) {
        let e0 = <i32 as MinecraftData>::enc(m.entity_id);
        let e1 = <bool as MinecraftData>::enc(m.is_hardcore);
        let e2 = <Vec<Identifier> as MinecraftData>::enc(m.dimension_names);
        let e3 = <VarInt as MinecraftData>::enc(m.max_players);
        let e4 = <VarInt as MinecraftData>::enc(m.view_distance);
        let e5 = <VarInt as MinecraftData>::enc(m.simulation_distance);
        let e6 = <bool as MinecraftData>::enc(m.reduced_debug_info);
        let e7 = <bool as MinecraftData>::enc(m.enable_respawn_screen);
        let e8 = <bool as MinecraftData>::enc(m.do_limited_crafting);
        let e9 = <VarInt as MinecraftData>::enc(m.dimension_type);
        let e10 = <Identifier as MinecraftData>::enc(m.dimension_name);
        lemma_concat_assoc(e0 + e1 + e2 + e3 + e4 + e5 + e6 + e7 + e8 + e9, e10, rest);
        lemma_concat_assoc(e0 + e1 + e2 + e3 + e4 + e5 + e6 + e7 + e8, e9, e10 + (rest));
        lemma_concat_assoc(e0 + e1 + e2 + e3 + e4 + e5 + e6 + e7, e8, e9 + (e10 + (rest)));
        lemma_concat_assoc(e0 + e1 + e2 + e3 + e4 + e5 + e6, e7, e8 + (e9 + (e10 + (rest))));
        lemma_concat_assoc(e0 + e1 + e2 + e3 + e4 + e5, e6, e7 + (e8 + (e9 + (e10 + (rest)))));
        lemma_concat_assoc(e0 + e1 + e2 + e3 + e4, e5, e6 + (e7 + (e8 + (e9 + (e10 + (rest))))));
        lemma_concat_assoc(e0 + e1 + e2 + e3, e4, e5 + (e6 + (e7 + (e8 + (e9 + (e10 + (rest)))))));
        lemma_concat_assoc(e0 + e1 + e2, e3, e4 + (e5 + (e6 + (e7 + (e8 + (e9 + (e10 + (rest))))))));
        lemma_concat_assoc(e0 + e1, e2, e3 + (e4 + (e5 + (e6 + (e7 + (e8 + (e9 + (e10 + (rest)))))))));
        lemma_concat_assoc(e0, e1, e2 + (e3 + (e4 + (e5 + (e6 + (e7 + (e8 + (e9 + (e10 + (rest))))))))));
        lemma_field_step::<i32>(m.entity_id, e1 + (e2 + (e3 + (e4 + (e5 + (e6 + (e7 + (e8 + (e9 + (e10 + (rest)))))))))));
        lemma_field_step::<bool>(m.is_hardcore, e2 + (e3 + (e4 + (e5 + (e6 + (e7 + (e8 + (e9 + (e10 + (rest))))))))));
        lemma_field_step::<Vec<Identifier>>(m.dimension_names, e3 + (e4 + (e5 + (e6 + (e7 + (e8 + (e9 + (e10 + (rest)))))))));
        lemma_field_step::<VarInt>(m.max_players, e4 + (e5 + (e6 + (e7 + (e8 + (e9 + (e10 + (rest))))))));
        lemma_field_step::<VarInt>(m.view_distance, e5 + (e6 + (e7 + (e8 + (e9 + (e10 + (rest)))))));
        lemma_field_step::<VarInt>(m.simulation_distance, e6 + (e7 + (e8 + (e9 + (e10 + (rest))))));
        lemma_field_step::<bool>(m.reduced_debug_info, e7 + (e8 + (e9 + (e10 + (rest)))));
        lemma_field_step::<bool>(m.enable_respawn_screen, e8 + (e9 + (e10 + (rest))));
        lemma_field_step::<bool>(m.do_limited_crafting, e9 + (e10 + (rest)));
        lemma_field_step::<VarInt>(m.dimension_type, e10 + (rest));
        lemma_field_step::<Identifier>(m.dimension_name, rest);
    }

    proof fn lemma_dec_props(s: Seq<u8>) {
        <i32 as MinecraftData>::lemma_dec_props(s);
        if <i32 as MinecraftData>::dec(s) is Some {
            let p0 = <i32 as MinecraftData>::dec(s).unwrap();
            let s1 = s.skip(p0.1);
            <bool as MinecraftData>::lemma_dec_props(s1);
            if <bool as MinecraftData>::dec(s1) is Some {
                let p1 = <bool as MinecraftData>::dec(s1).unwrap();
                let s2 = s1.skip(p1.1);
                <Vec<Identifier> as MinecraftData>::lemma_dec_props(s2);
                if <Vec<Identifier> as MinecraftData>::dec(s2) is Some {
                    let p2 = <Vec<Identifier> as MinecraftData>::dec(s2).unwrap();
                    let s3 = s2.skip(p2.1);
                    <VarInt as MinecraftData>::lemma_dec_props(s3);
                    if <VarInt as MinecraftData>::dec(s3) is Some {
                        let p3 = <VarInt as MinecraftData>::dec(s3).unwrap();
                        let s4 = s3.skip(p3.1);
                        <VarInt as MinecraftData>::lemma_dec_props(s4);
                        if <VarInt as MinecraftData>::dec(s4) is Some {
                            let p4 = <VarInt as MinecraftData>::dec(s4).unwrap();
                            let s5 = s4.skip(p4.1);
                            <VarInt as MinecraftData>::lemma_dec_props(s5);
                            if <VarInt as MinecraftData>::dec(s5) is Some {
                                let p5 = <VarInt as MinecraftData>::dec(s5).unwrap();
                                let s6 = s5.skip(p5.1);
                                <bool as MinecraftData>::lemma_dec_props(s6);
                                if <bool as MinecraftData>::dec(s6) is Some {
                                    let p6 = <bool as MinecraftData>::dec(s6).unwrap();
                                    let s7 = s6.skip(p6.1);
                                    <bool as MinecraftData>::lemma_dec_props(s7);
                                    if <bool as MinecraftData>::dec(s7) is Some {
                                        let p7 = <bool as MinecraftData>::dec(s7).unwrap();
                                        let s8 = s7.skip(p7.1);
                                        <bool as MinecraftData>::lemma_dec_props(s8);
                                        if <bool as MinecraftData>::dec(s8) is Some {
                                            let p8 = <bool as MinecraftData>::dec(s8).unwrap();
                                            let s9 = s8.skip(p8.1);
                                            <VarInt as MinecraftData>::lemma_dec_props(s9);
                                            if <VarInt as MinecraftData>::dec(s9) is Some {
                                                let p9 = <VarInt as MinecraftData>::dec(s9).unwrap();
                                                let s10 = s9.skip(p9.1);
                                                <Identifier as MinecraftData>::lemma_dec_props(s10);
                                            }
                                        }
                                    }
                                }
                            }
                        }
                    }
                }
            }
        }
    }

    #[verifier::rlimit(100)]
    #[verifier::spinoff_prover]
    fn decode(bytes: &Vec<u8>, pos: usize) -> (r: Result<(Self, usize), Error>) {
        let (entity_id, p1) = match <i32 as MinecraftData>::decode(bytes, pos) {
            Ok(x) => x,
            Err(e) => {
                return Err(e);
            },
        };
        proof {
            lemma_skip_skip(bytes@, pos as int, p1 - pos);
        }
        let (is_hardcore, p2) = match <bool as MinecraftData>::decode(bytes, p1) {
            Ok(x) => x,
            Err(e) => {
                return Err(e);
            },
        };
        proof {
            lemma_skip_skip(bytes@, p1 as int, p2 - p1);
        }
        let (dimension_names, p3) = match <Vec<Identifier> as MinecraftData>::decode(bytes, p2) {
            Ok(x) => x,
            Err(e) => {
                return Err(e);
            },
        };
        proof {
            lemma_skip_skip(bytes@, p2 as int, p3 - p2);
        }
        let (max_players, p4) = match <VarInt as MinecraftData>::decode(bytes, p3) {
            Ok(x) => x,
            Err(e) => {
                return Err(e);
            },
        };
        proof {
            lemma_skip_skip(bytes@, p3 as int, p4 - p3);
        }
        let (view_distance, p5) = match <VarInt as MinecraftData>::decode(bytes, p4) {
            Ok(x) => x,
            Err(e) => {
                return Err(e);
            },
        };
        proof {
            lemma_skip_skip(bytes@, p4 as int, p5 - p4);
        }
        let (simulation_distance, p6) = match <VarInt as MinecraftData>::decode(bytes, p5) {
            Ok(x) => x,
            Err(e) => {
                return Err(e);
            },
        };
        proof {
            lemma_skip_skip(bytes@, p5 as int, p6 - p5);
        }
        let (reduced_debug_info, p7) = match <bool as MinecraftData>::decode(bytes, p6) {
            Ok(x) => x,
            Err(e) => {
                return Err(e);
            },
        };
        proof {
            lemma_skip_skip(bytes@, p6 as int, p7 - p6);
        }
        let (enable_respawn_screen, p8) = match <bool as MinecraftData>::decode(bytes, p7) {
            Ok(x) => x,
            Err(e) => {
                return Err(e);
            },
        };
        proof {
            lemma_skip_skip(bytes@, p7 as int, p8 - p7);
        }
        let (do_limited_crafting, p9) = match <bool as MinecraftData>::decode(bytes, p8) {
            Ok(x) => x,
            Err(e) => {
                return Err(e);
            },
        };
        proof {
            lemma_skip_skip(bytes@, p8 as int, p9 - p8);
        }
        let (dimension_type, p10) = match <VarInt as MinecraftData>::decode(bytes, p9) {
            Ok(x) => x,
            Err(e) => {
                return Err(e);
            },
        };
        proof {
            lemma_skip_skip(bytes@, p9 as int, p10 - p9);
        }
        let (dimension_name, p11) = match <Identifier as MinecraftData>::decode(bytes, p10) {
            Ok(x) => x,
            Err(e) => {
                return Err(e);
            },
        };
        Ok(((PlayLoginSetup { entity_id, is_hardcore, dimension_names, max_players, view_distance, simulation_distance, reduced_debug_info, enable_respawn_screen, do_limited_crafting, dimension_type, dimension_name }), p11))
    }

    #[verifier::rlimit(100)]
    #[verifier::spinoff_prover]
    fn encode(&self, out: &mut Vec<u8>) -> (r: Result<(), Error>) {
        match self.entity_id.encode(out) {
            Ok(()) => {},
            Err(e) => {
                return Err(e);
            },
        }
        match self.is_hardcore.encode(out) {
            Ok(()) => {},
            Err(e) => {
                return Err(e);
            },
        }
        match self.dimension_names.encode(out) {
            Ok(()) => {},
            Err(e) => {
                return Err(e);
            },
        }
        match self.max_players.encode(out) {
            Ok(()) => {},
            Err(e) => {
                return Err(e);
            },
        }
        match self.view_distance.encode(out) {
            Ok(()) => {},
            Err(e) => {
                return Err(e);
            },
        }
        match self.simulation_distance.encode(out) {
            Ok(()) => {},
            Err(e) => {
                return Err(e);
            },
        }
        match self.reduced_debug_info.encode(out) {
            Ok(()) => {},
            Err(e) => {
                return Err(e);
            },
        }
        match self.enable_respawn_screen.encode(out) {
            Ok(()) => {},
            Err(e) => {
                return Err(e);
            },
        }
        match self.do_limited_crafting.encode(out) {
            Ok(()) => {},
            Err(e) => {
                return Err(e);
            },
        }
        match self.dimension_type.encode(out) {
            Ok(()) => {},
            Err(e) => {
                return Err(e);
            },
        }
        match self.dimension_name.encode(out) {
            Ok(()) => {},
            Err(e) => {
                return Err(e);
            },
        }
        proof {
            assert(out@ =~= old(out)@ + Self::enc(self.deep_view()));
        }
        Ok(())
    }

    #[verifier::rlimit(100)]
    #[verifier::spinoff_prover]
    fn num_bytes(&self) -> (r: usize) {
        self.entity_id.num_bytes()
            + self.is_hardcore.num_bytes()
            + self.dimension_names.num_bytes()
            + self.max_players.num_bytes()
            + self.view_distance.num_bytes()
            + self.simulation_distance.num_bytes()
            + self.reduced_debug_info.num_bytes()
            + self.enable_respawn_screen.num_bytes()
            + self.do_limited_crafting.num_bytes()
            + self.dimension_type.num_bytes()
            + self.dimension_name.num_bytes()
    }
}

/// The model of `PlayLoginState`.
pub struct PlayLoginStateModel {
    pub hashed_seed: i64,
    pub game_mode: u8,
    pub previous_game_mode: i8,
    pub is_debug: bool,
    pub is_flat: bool,
    pub has_death_location: bool,
    pub death_dimention_name: Option<Seq<u8>>,
    pub death_location: Option<Position>,
    pub portal_cooldown: VarInt,
    pub sea_level: VarInt,
    pub enforced_secure_chat: bool,
}

/// The second half of the play login bundle: game state, with death
/// fields present if and only if `has_death_location` says so.
#[derive(Debug, Clone)]
pub struct PlayLoginState {
    pub hashed_seed: i64,
    pub game_mode: u8,
    pub previous_game_mode: i8,
    pub is_debug: bool,
    pub is_flat: bool,
    pub has_death_location: bool,
    pub death_dimention_name: Option<Identifier>,
    pub death_location: Option<Position>,
    pub portal_cooldown: VarInt,
    pub sea_level: VarInt,
    pub enforced_secure_chat: bool,
}

impl DeepView for PlayLoginState {
    type V = PlayLoginStateModel;

    open spec fn deep_view(&self) -> PlayLoginStateModel {
        PlayLoginStateModel {
            hashed_seed: self.hashed_seed.deep_view(),
            game_mode: self.game_mode.deep_view(),
            previous_game_mode: self.previous_game_mode.deep_view(),
            is_debug: self.is_debug.deep_view(),
            is_flat: self.is_flat.deep_view(),
            has_death_location: self.has_death_location.deep_view(),
            death_dimention_name: self.death_dimention_name.deep_view(),
            death_location: self.death_location.deep_view(),
            portal_cooldown: self.portal_cooldown.deep_view(),
            sea_level: self.sea_level.deep_view(),
            enforced_secure_chat: self.enforced_secure_chat.deep_view(),
        }
    }
}

impl MinecraftData for PlayLoginState {
    open spec fn wf(m: PlayLoginStateModel) -> bool {
        &&& <i64 as MinecraftData>::wf(m.hashed_seed)
        &&& <u8 as MinecraftData>::wf(m.game_mode)
        &&& <i8 as MinecraftData>::wf(m.previous_game_mode)
        &&& <bool as MinecraftData>::wf(m.is_debug)
        &&& <bool as MinecraftData>::wf(m.is_flat)
        &&& <bool as MinecraftData>::wf(m.has_death_location)
        &&& gated_wf::<Identifier>(m.has_death_location, m.death_dimention_name)
        &&& gated_wf::<Position>(m.has_death_location, m.death_location)
        &&& <VarInt as MinecraftData>::wf(m.portal_cooldown)
        &&& <VarInt as MinecraftData>::wf(m.sea_level)
        &&& <bool as MinecraftData>::wf(m.enforced_secure_chat)
    }

    open spec fn enc(m: PlayLoginStateModel) -> Seq<u8> {
        <i64 as MinecraftData>::enc(m.hashed_seed) + <u8 as MinecraftData>::enc(m.game_mode) + <i8 as MinecraftData>::enc(m.previous_game_mode) + <bool as MinecraftData>::enc(m.is_debug) + <bool as MinecraftData>::enc(m.is_flat) + <bool as MinecraftData>::enc(m.has_death_location) + gated_enc::<Identifier>(m.death_dimention_name) + gated_enc::<Position>(m.death_location) + <VarInt as MinecraftData>::enc(m.portal_cooldown) + <VarInt as MinecraftData>::enc(m.sea_level) + <bool as MinecraftData>::enc(m.enforced_secure_chat)
    }

    open spec fn dec(s: Seq<u8>) -> Option<(PlayLoginStateModel, int)> {
        match <i64 as MinecraftData>::dec(s) {
            Some(p0) => {
                let s1 = s.skip(p0.1);
                match <u8 as MinecraftData>::dec(s1) {
                    Some(p1) => {
                        let s2 = s1.skip(p1.1);
                        match <i8 as MinecraftData>::dec(s2) {
                            Some(p2) => {
                                let s3 = s2.skip(p2.1);
                                match <bool as MinecraftData>::dec(s3) {
                                    Some(p3) => {
                                        let s4 = s3.skip(p3.1);
                                        match <bool as MinecraftData>::dec(s4) {
                                            Some(p4) => {
                                                let s5 = s4.skip(p4.1);
                                                match <bool as MinecraftData>::dec(s5) {
                                                    Some(p5) => {
                                                        let s6 = s5.skip(p5.1);
                                                        match gated_dec::<Identifier>(p5.0, s6) {
                                                            Some(p6) => {
                                                                let s7 = s6.skip(p6.1);
                                                                match gated_dec::<Position>(p5.0, s7) {
                                                                    Some(p7) => {
                                                                        let s8 = s7.skip(p7.1);
                                                                        match <VarInt as MinecraftData>::dec(s8) {
                                                                            Some(p8) => {
                                                                                let s9 = s8.skip(p8.1);
                                                                                match <VarInt as MinecraftData>::dec(s9) {
                                                                                    Some(p9) => {
                                                                                        let s10 = s9.skip(p9.1);
                                                                                        match <bool as MinecraftData>::dec(s10) {
                                                                                            Some(p10) => Some(((PlayLoginStateModel { hashed_seed: p0.0, game_mode: p1.0, previous_game_mode: p2.0, is_debug: p3.0, is_flat: p4.0, has_death_location: p5.0, death_dimention_name: p6.0, death_location: p7.0, portal_cooldown: p8.0, sea_level: p9.0, enforced_secure_chat: p10.0 }), p0.1 + p1.1 + p2.1 + p3.1 + p4.1 + p5.1 + p6.1 + p7.1 + p8.1 + p9.1 + p10.1)),
                                                                                            None => None,
                                                                                        }
                                                                                    },
                                                                                    None => None,
                                                                                }
                                                                            },
                                                                            None => None,
                                                                        }
                                                                    },
                                                                    None => None,
                                                                }
                                                            },
                                                            None => None,
                                                        }
                                                    },
                                                    None => None,
                                                }
                                            },
                                            None => None,
                                        }
                                    },
                                    None => None,
                                }
                            },
                            None => None,
                        }
                    },
                    None => None,
                }
            },
            None => None,
        }
    }

    #[verifier::rlimit(100)]
    #[verifier::spinoff_prover]
    proof fn lemma_round_trip(m: PlayLoginStateModel, rest: Seq<u8>) {
        let e0 = <i64 as MinecraftData>::enc(m.hashed_seed);
        let e1 = <u8 as MinecraftData>::enc(m.game_mode);
        let e2 = <i8 as MinecraftData>::enc(m.previous_game_mode);
        let e3 = <bool as MinecraftData>::enc(m.is_debug);
        let e4 = <bool as MinecraftData>::enc(m.is_flat);
        let e5 = <bool as MinecraftData>::enc(m.has_death_location);
        let e6 = gated_enc::<Identifier>(m.death_dimention_name);
        let e7 = gated_enc::<Position>(m.death_location);
        let e8 = <VarInt as MinecraftData>::enc(m.portal_cooldown);
        let e9 = <VarInt as MinecraftData>::enc(m.sea_level);
        let e10 = <bool as MinecraftData>::enc(m.enforced_secure_chat);
        lemma_concat_assoc(e0 + e1 + e2 + e3 + e4 + e5 + e6 + e7 + e8 + e9, e10, rest);
        lemma_concat_assoc(e0 + e1 + e2 + e3 + e4 + e5 + e6 + e7 + e8, e9, e10 + (rest));
        lemma_concat_assoc(e0 + e1 + e2 + e3 + e4 + e5 + e6 + e7, e8, e9 + (e10 + (rest)));
        lemma_concat_assoc(e0 + e1 + e2 + e3 + e4 + e5 + e6, e7, e8 + (e9 + (e10 + (rest))));
        lemma_concat_assoc(e0 + e1 + e2 + e3 + e4 + e5, e6, e7 + (e8 + (e9 + (e10 + (rest)))));
        lemma_concat_assoc(e0 + e1 + e2 + e3 + e4, e5, e6 + (e7 + (e8 + (e9 + (e10 + (rest))))));
        lemma_concat_assoc(e0 + e1 + e2 + e3, e4, e5 + (e6 + (e7 + (e8 + (e9 + (e10 + (rest)))))));
        lemma_concat_assoc(e0 + e1 + e2, e3, e4 + (e5 + (e6 + (e7 + (e8 + (e9 + (e10 + (rest))))))));
        lemma_concat_assoc(e0 + e1, e2, e3 + (e4 + (e5 + (e6 + (e7 + (e8 + (e9 + (e10 + (rest)))))))));
        lemma_concat_assoc(e0, e1, e2 + (e3 + (e4 + (e5 + (e6 + (e7 + (e8 + (e9 + (e10 + (rest))))))))));
        lemma_field_step::<i64>(m.hashed_seed, e1 + (e2 + (e3 + (e4 + (e5 + (e6 + (e7 + (e8 + (e9 + (e10 + (rest)))))))))));
        lemma_field_step::<u8>(m.game_mode, e2 + (e3 + (e4 + (e5 + (e6 + (e7 + (e8 + (e9 + (e10 + (rest))))))))));
        lemma_field_step::<i8>(m.previous_game_mode, e3 + (e4 + (e5 + (e6 + (e7 + (e8 + (e9 + (e10 + (rest)))))))));
        lemma_field_step::<bool>(m.is_debug, e4 + (e5 + (e6 + (e7 + (e8 + (e9 + (e10 + (rest))))))));
        lemma_field_step::<bool>(m.is_flat, e5 + (e6 + (e7 + (e8 + (e9 + (e10 + (rest)))))));
        lemma_field_step::<bool>(m.has_death_location, e6 + (e7 + (e8 + (e9 + (e10 + (rest))))));
        lemma_gated_field_step::<Identifier>(m.has_death_location, m.death_dimention_name, e7 + (e8 + (e9 + (e10 + (rest)))));
        lemma_gated_field_step::<Position>(m.has_death_location, m.death_location, e8 + (e9 + (e10 + (rest))));
        lemma_field_step::<VarInt>(m.portal_cooldown, e9 + (e10 + (rest)));
        lemma_field_step::<VarInt>(m.sea_level, e10 + (rest));
        lemma_field_step::<bool>(m.enforced_secure_chat, rest);
    }

    proof fn lemma_dec_props(s: Seq<u8>) {
        <i64 as MinecraftData>::lemma_dec_props(s);
        if <i64 as MinecraftData>::dec(s) is Some {
            let p0 = <i64 as MinecraftData>::dec(s).unwrap();
            let s1 = s.skip(p0.1);
            <u8 as MinecraftData>::lemma_dec_props(s1);
            if <u8 as MinecraftData>::dec(s1) is Some {
                let p1 = <u8 as MinecraftData>::dec(s1).unwrap();
                let s2 = s1.skip(p1.1);
                <i8 as MinecraftData>::lemma_dec_props(s2);
                if <i8 as MinecraftData>::dec(s2) is Some {
                    let p2 = <i8 as MinecraftData>::dec(s2).unwrap();
                    let s3 = s2.skip(p2.1);
                    <bool as MinecraftData>::lemma_dec_props(s3);
                    if <bool as MinecraftData>::dec(s3) is Some {
                        let p3 = <bool as MinecraftData>::dec(s3).unwrap();
                        let s4 = s3.skip(p3.1);
                        <bool as MinecraftData>::lemma_dec_props(s4);
                        if <bool as MinecraftData>::dec(s4) is Some {
                            let p4 = <bool as MinecraftData>::dec(s4).unwrap();
                            let s5 = s4.skip(p4.1);
                            <bool as MinecraftData>::lemma_dec_props(s5);
                            if <bool as MinecraftData>::dec(s5) is Some {
                                let p5 = <bool as MinecraftData>::dec(s5).unwrap();
                                let s6 = s5.skip(p5.1);
                                lemma_gated_dec_props::<Identifier>(p5.0, s6);
                                if gated_dec::<Identifier>(p5.0, s6) is Some {
                                    let p6 = gated_dec::<Identifier>(p5.0, s6).unwrap();
                                    let s7 = s6.skip(p6.1);
                                    lemma_gated_dec_props::<Position>(p5.0, s7);
                                    if gated_dec::<Position>(p5.0, s7) is Some {
                                        let p7 = gated_dec::<Position>(p5.0, s7).unwrap();
                                        let s8 = s7.skip(p7.1);
                                        <VarInt as MinecraftData>::lemma_dec_props(s8);
                                        if <VarInt as MinecraftData>::dec(s8) is Some {
                                            let p8 = <VarInt as MinecraftData>::dec(s8).unwrap();
                                            let s9 = s8.skip(p8.1);
                                            <VarInt as MinecraftData>::lemma_dec_props(s9);
                                            if <VarInt as MinecraftData>::dec(s9) is Some {
                                                let p9 = <VarInt as MinecraftData>::dec(s9).unwrap();
                                                let s10 = s9.skip(p9.1);
                                                <bool as MinecraftData>::lemma_dec_props(s10);
                                            }
                                        }
                                    }
                                }
                            }
                        }
                    }
                }
            }
        }
    }

    #[verifier::rlimit(100)]
    #[verifier::spinoff_prover]
    fn decode(bytes: &Vec<u8>, pos: usize) -> (r: Result<(Self, usize), Error>) {
        let (hashed_seed, p1) = match <i64 as MinecraftData>::decode(bytes, pos) {
            Ok(x) => x,
            Err(e) => {
                return Err(e);
            },
        };
        proof {
            lemma_skip_skip(bytes@, pos as int, p1 - pos);
        }
        let (game_mode, p2) = match <u8 as MinecraftData>::decode(bytes, p1) {
            Ok(x) => x,
            Err(e) => {
                return Err(e);
            },
        };
        proof {
            lemma_skip_skip(bytes@, p1 as int, p2 - p1);
        }
        let (previous_game_mode, p3) = match <i8 as MinecraftData>::decode(bytes, p2) {
            Ok(x) => x,
            Err(e) => {
                return Err(e);
            },
        };
        proof {
            lemma_skip_skip(bytes@, p2 as int, p3 - p2);
        }
        let (is_debug, p4) = match <bool as MinecraftData>::decode(bytes, p3) {
            Ok(x) => x,
            Err(e) => {
                return Err(e);
            },
        };
        proof {
            lemma_skip_skip(bytes@, p3 as int, p4 - p3);
        }
        let (is_flat, p5) = match <bool as MinecraftData>::decode(bytes, p4) {
            Ok(x) => x,
            Err(e) => {
                return Err(e);
            },
        };
        proof {
            lemma_skip_skip(bytes@, p4 as int, p5 - p4);
        }
        let (has_death_location, p6) = match <bool as MinecraftData>::decode(bytes, p5) {
            Ok(x) => x,
            Err(e) => {
                return Err(e);
            },
        };
        proof {
            lemma_skip_skip(bytes@, p5 as int, p6 - p5);
        }
        let (death_dimention_name, p7) = match gated_decode::<Identifier>(bytes, p6, has_death_location) {
            Ok(x) => x,
            Err(e) => {
                return Err(e);
            },
        };
        proof {
            lemma_skip_skip(bytes@, p6 as int, p7 - p6);
        }
        let (death_location, p8) = match gated_decode::<Position>(bytes, p7, has_death_location) {
            Ok(x) => x,
            Err(e) => {
                return Err(e);
            },
        };
        proof {
            lemma_skip_skip(bytes@, p7 as int, p8 - p7);
        }
        let (portal_cooldown, p9) = match <VarInt as MinecraftData>::decode(bytes, p8) {
            Ok(x) => x,
            Err(e) => {
                return Err(e);
            },
        };
        proof {
            lemma_skip_skip(bytes@, p8 as int, p9 - p8);
        }
        let (sea_level, p10) = match <VarInt as MinecraftData>::decode(bytes, p9) {
            Ok(x) => x,
            Err(e) => {
                return Err(e);
            },
        };
        proof {
            lemma_skip_skip(bytes@, p9 as int, p10 - p9);
        }
        let (enforced_secure_chat, p11) = match <bool as MinecraftData>::decode(bytes, p10) {
            Ok(x) => x,
            Err(e) => {
                return Err(e);
            },
        };
        Ok(((PlayLoginState { hashed_seed, game_mode, previous_game_mode, is_debug, is_flat, has_death_location, death_dimention_name, death_location, portal_cooldown, sea_level, enforced_secure_chat }), p11))
    }

    #[verifier::rlimit(100)]
    #[verifier::spinoff_prover]
    fn encode(&self, out: &mut Vec<u8>) -> (r: Result<(), Error>) {
        match self.hashed_seed.encode(out) {
            Ok(()) => {},
            Err(e) => {
                return Err(e);
            },
        }
        match self.game_mode.encode(out) {
            Ok(()) => {},
            Err(e) => {
                return Err(e);
            },
        }
        match self.previous_game_mode.encode(out) {
            Ok(()) => {},
            Err(e) => {
                return Err(e);
            },
        }
        match self.is_debug.encode(out) {
            Ok(()) => {},
            Err(e) => {
                return Err(e);
            },
        }
        match self.is_flat.encode(out) {
            Ok(()) => {},
            Err(e) => {
                return Err(e);
            },
        }
        match self.has_death_location.encode(out) {
            Ok(()) => {},
            Err(e) => {
                return Err(e);
            },
        }
        match gated_encode::<Identifier>(self.has_death_location, &self.death_dimention_name, out) {
            Ok(()) => {},
            Err(e) => {
                return Err(e);
            },
        }
        match gated_encode::<Position>(self.has_death_location, &self.death_location, out) {
            Ok(()) => {},
            Err(e) => {
                return Err(e);
            },
        }
        match self.portal_cooldown.encode(out) {
            Ok(()) => {},
            Err(e) => {
                return Err(e);
            },
        }
        match self.sea_level.encode(out) {
            Ok(()) => {},
            Err(e) => {
                return Err(e);
            },
        }
        match self.enforced_secure_chat.encode(out) {
            Ok(()) => {},
            Err(e) => {
                return Err(e);
            },
        }
        proof {
            assert(out@ =~= old(out)@ + Self::enc(self.deep_view()));
        }
        Ok(())
    }

    #[verifier::rlimit(100)]
    #[verifier::spinoff_prover]
    fn num_bytes(&self) -> (r: usize) {
        self.hashed_seed.num_bytes()
            + self.game_mode.num_bytes()
            + self.previous_game_mode.num_bytes()
            + self.is_debug.num_bytes()
            + self.is_flat.num_bytes()
            + self.has_death_location.num_bytes()
            + gated_num_bytes::<Identifier>(&self.death_dimention_name)
            + gated_num_bytes::<Position>(&self.death_location)
            + self.portal_cooldown.num_bytes()
            + self.sea_level.num_bytes()
            + self.enforced_secure_chat.num_bytes()
    }
}

/// The model of `PlayLoginPacket`.
pub struct PlayLoginPacketModel {
    pub setup: PlayLoginSetupModel,
    pub state: PlayLoginStateModel,
}

/// The play-phase login bundle: the setup record followed by the state
/// record, one packet on the wire.
#[derive(Debug, Clone)]
pub struct PlayLoginPacket {
    pub setup: PlayLoginSetup,
    pub state: PlayLoginState,
}

impl DeepView for PlayLoginPacket {
    type V = PlayLoginPacketModel;

    open spec fn deep_view(&self) -> PlayLoginPacketModel {
        PlayLoginPacketModel {
            setup: self.setup.deep_view(),
            state: self.state.deep_view(),
        }
    }
}

impl MinecraftData for PlayLoginPacket {
    open spec fn wf(m: PlayLoginPacketModel) -> bool {
        &&& <PlayLoginSetup as MinecraftData>::wf(m.setup)
        &&& <PlayLoginState as MinecraftData>::wf(m.state)
    }

    open spec fn enc(m: PlayLoginPacketModel) -> Seq<u8> {
        <PlayLoginSetup as MinecraftData>::enc(m.setup) + <PlayLoginState as MinecraftData>::enc(m.state)
    }

    open spec fn dec(s: Seq<u8>) -> Option<(PlayLoginPacketModel, int)> {
        match <PlayLoginSetup as MinecraftData>::dec(s) {
            Some(p0) => {
                let s1 = s.skip(p0.1);
                match <PlayLoginState as MinecraftData>::dec(s1) {
                    Some(p1) => Some(((PlayLoginPacketModel { setup: p0.0, state: p1.0 }), p0.1 + p1.1)),
                    None => None,
                }
            },
            None => None,
        }
    }

    proof fn lemma_round_trip(m: PlayLoginPacketModel, rest: Seq<u8>) {
        let e0 = <PlayLoginSetup as MinecraftData>::enc(m.setup);
        let e1 = <PlayLoginState as MinecraftData>::enc(m.state);
        lemma_concat_assoc(e0, e1, rest);
        lemma_field_step::<PlayLoginSetup>(m.setup, e1 + (rest));
        lemma_field_step::<PlayLoginState>(m.state, rest);
    }

    proof fn lemma_dec_props(s: Seq<u8>) {
        <PlayLoginSetup as MinecraftData>::lemma_dec_props(s);
        if <PlayLoginSetup as MinecraftData>::dec(s) is Some {
            let p0 = <PlayLoginSetup as MinecraftData>::dec(s).unwrap();
            let s1 = s.skip(p0.1);
            <PlayLoginState as MinecraftData>::lemma_dec_props(s1);
        }
    }

    fn decode(bytes: &Vec<u8>, pos: usize) -> (r: Result<(Self, usize), Error>) {
        let (setup, p1) = match <PlayLoginSetup as MinecraftData>::decode(bytes, pos) {
            Ok(x) => x,
            Err(e) => {
                return Err(e);
            },
        };
        proof {
            lemma_skip_skip(bytes@, pos as int, p1 - pos);
        }
        let (state, p2) = match <PlayLoginState as MinecraftData>::decode(bytes, p1) {
            Ok(x) => x,
            Err(e) => {
                return Err(e);
            },
        };
        Ok(((PlayLoginPacket { setup, state }), p2))
    }

    fn encode(&self, out: &mut Vec<u8>) -> (r: Result<(), Error>) {
        match self.setup.encode(out) {
            Ok(()) => {},
            Err(e) => {
                return Err(e);
            },
        }
        match self.state.encode(out) {
            Ok(()) => {},
            Err(e) => {
                return Err(e);
            },
        }
        proof {
            assert(out@ =~= old(out)@ + Self::enc(self.deep_view()));
        }
        Ok(())
    }

    fn num_bytes(&self) -> (r: usize) {
        self.setup.num_bytes()
            + self.state.num_bytes()
    }
}

impl Packet for PlayLoginPacket {
    open spec fn spec_id() -> int {
        0x30
    }

    proof fn lemma_id_bounds() {
    }

    fn id() -> (r: i32) {
        0x30
    }
}

/// A difficulty change.
#[derive(Debug, Clone, Copy, PartialEq, Eq)]
pub struct ChangeDifficultyPacket {
    pub difficulty: Difficulty,
    pub difficulty_locked: bool,
}

impl DeepView for ChangeDifficultyPacket {
    type V = ChangeDifficultyPacket;

    open spec fn deep_view(&self) -> ChangeDifficultyPacket {
        *self
    }
}

impl MinecraftData for ChangeDifficultyPacket {
    open spec fn wf(m: ChangeDifficultyPacket) -> bool {
        &&& <Difficulty as MinecraftData>::wf(m.difficulty)
        &&& <bool as MinecraftData>::wf(m.difficulty_locked)
    }

    open spec fn enc(m: ChangeDifficultyPacket) -> Seq<u8> {
        <Difficulty as MinecraftData>::enc(m.difficulty) + <bool as MinecraftData>::enc(m.difficulty_locked)
    }

    open spec fn dec(s: Seq<u8>) -> Option<(ChangeDifficultyPacket, int)> {
        match <Difficulty as MinecraftData>::dec(s) {
            Some(p0) => {
                let s1 = s.skip(p0.1);
                match <bool as MinecraftData>::dec(s1) {
                    Some(p1) => Some(((ChangeDifficultyPacket { difficulty: p0.0, difficulty_locked: p1.0 }), p0.1 + p1.1)),
                    None => None,
                }
            },
            None => None,
        }
    }

    proof fn lemma_round_trip(m: ChangeDifficultyPacket, rest: Seq<u8>) {
        let e0 = <Difficulty as MinecraftData>::enc(m.difficulty);
        let e1 = <bool as MinecraftData>::enc(m.difficulty_locked);
        lemma_concat_assoc(e0, e1, rest);
        lemma_field_step::<Difficulty>(m.difficulty, e1 + (rest));
        lemma_field_step::<bool>(m.difficulty_locked, rest);
    }

    proof fn lemma_dec_props(s: Seq<u8>) {
        <Difficulty as MinecraftData>::lemma_dec_props(s);
        if <Difficulty as MinecraftData>::dec(s) is Some {
            let p0 = <Difficulty as MinecraftData>::dec(s).unwrap();
            let s1 = s.skip(p0.1);
            <bool as MinecraftData>::lemma_dec_props(s1);
        }
    }

    fn decode(bytes: &Vec<u8>, pos: usize) -> (r: Result<(Self, usize), Error>) {
        let (difficulty, p1) = match <Difficulty as MinecraftData>::decode(bytes, pos) {
            Ok(x) => x,
            Err(e) => {
                return Err(e);
            },
        };
        proof {
            lemma_skip_skip(bytes@, pos as int, p1 - pos);
        }
        let (difficulty_locked, p2) = match <bool as MinecraftData>::decode(bytes, p1) {
            Ok(x) => x,
            Err(e) => {
                return Err(e);
            },
        };
        Ok(((ChangeDifficultyPacket { difficulty, difficulty_locked }), p2))
    }

    fn encode(&self, out: &mut Vec<u8>) -> (r: Result<(), Error>) {
        match self.difficulty.encode(out) {
            Ok(()) => {},
            Err(e) => {
                return Err(e);
            },
        }
        match self.difficulty_locked.encode(out) {
            Ok(()) => {},
            Err(e) => {
                return Err(e);
            },
        }
        proof {
            assert(out@ =~= old(out)@ + Self::enc(self.deep_view()));
        }
        Ok(())
    }

    fn num_bytes(&self) -> (r: usize) {
        self.difficulty.num_bytes()
            + self.difficulty_locked.num_bytes()
    }
}

impl Packet for ChangeDifficultyPacket {
    open spec fn spec_id() -> int {
        0x0A
    }

    proof fn lemma_id_bounds() {
    }

    fn id() -> (r: i32) {
        0x0A
    }
}

/// Selects the held hotbar slot.
#[derive(Debug, Clone, Copy, PartialEq, Eq)]
pub struct ClientboundSetHeldItemPacket {
    pub slot: VarInt,
}

impl DeepView for ClientboundSetHeldItemPacket {
    type V = ClientboundSetHeldItemPacket;

    open spec fn deep_view(&self) -> ClientboundSetHeldItemPacket {
        *self
    }
}

impl MinecraftData for ClientboundSetHeldItemPacket {
    open spec fn wf(m: ClientboundSetHeldItemPacket) -> bool {
        <VarInt as MinecraftData>::wf(m.slot)
    }

    open spec fn enc(m: ClientboundSetHeldItemPacket) -> Seq<u8> {
        <VarInt as MinecraftData>::enc(m.slot)
    }

    open spec fn dec(s: Seq<u8>) -> Option<(ClientboundSetHeldItemPacket, int)> {
        match <VarInt as MinecraftData>::dec(s) {
            Some(p0) => Some(((ClientboundSetHeldItemPacket { slot: p0.0 }), p0.1)),
            None => None,
        }
    }

    proof fn lemma_round_trip(m: ClientboundSetHeldItemPacket, rest: Seq<u8>) {
        let e0 = <VarInt as MinecraftData>::enc(m.slot);
        lemma_field_step::<VarInt>(m.slot, rest);
    }

    proof fn lemma_dec_props(s: Seq<u8>) {
        <VarInt as MinecraftData>::lemma_dec_props(s);
    }

    fn decode(bytes: &Vec<u8>, pos: usize) -> (r: Result<(Self, usize), Error>) {
        let (slot, p1) = match <VarInt as MinecraftData>::decode(bytes, pos) {
            Ok(x) => x,
            Err(e) => {
                return Err(e);
            },
        };
        Ok(((ClientboundSetHeldItemPacket { slot }), p1))
    }

    fn encode(&self, out: &mut Vec<u8>) -> (r: Result<(), Error>) {
        match self.slot.encode(out) {
            Ok(()) => {},
            Err(e) => {
                return Err(e);
            },
        }
        proof {
            assert(out@ =~= old(out)@ + Self::enc(self.deep_view()));
        }
        Ok(())
    }

    fn num_bytes(&self) -> (r: usize) {
        self.slot.num_bytes()
    }
}

impl Packet for ClientboundSetHeldItemPacket {
    open spec fn spec_id() -> int {
        0x67
    }

    proof fn lemma_id_bounds() {
    }

    fn id() -> (r: i32) {
        0x67
    }
}

/// The model of `PropertySet`.
pub struct PropertySetModel {
    pub id: Seq<u8>,
    pub items: Seq<VarInt>,
}

/// One recipe property set: its id and member item ids.
#[derive(Debug, Clone)]
pub struct PropertySet {
    pub id: Identifier,
    pub items: Vec<VarInt>,
}

impl DeepView for PropertySet {
    type V = PropertySetModel;

    open spec fn deep_view(&self) -> PropertySetModel {
        PropertySetModel {
            id: self.id.deep_view(),
            items: self.items.deep_view(),
        }
    }
}

impl MinecraftData for PropertySet {
    open spec fn wf(m: PropertySetModel) -> bool {
        &&& <Identifier as MinecraftData>::wf(m.id)
        &&& <Vec<VarInt> as MinecraftData>::wf(m.items)
    }

    open spec fn enc(m: PropertySetModel) -> Seq<u8> {
        <Identifier as MinecraftData>::enc(m.id) + <Vec<VarInt> as MinecraftData>::enc(m.items)
    }

    open spec fn dec(s: Seq<u8>) -> Option<(PropertySetModel, int)> {
        match <Identifier as MinecraftData>::dec(s) {
            Some(p0) => {
                let s1 = s.skip(p0.1);
                match <Vec<VarInt> as MinecraftData>::dec(s1) {
                    Some(p1) => Some(((PropertySetModel { id: p0.0, items: p1.0 }), p0.1 + p1.1)),
                    None => None,
                }
            },
            None => None,
        }
    }

    proof fn lemma_round_trip(m: PropertySetModel, rest: Seq<u8>) {
        let e0 = <Identifier as MinecraftData>::enc(m.id);
        let e1 = <Vec<VarInt> as MinecraftData>::enc(m.items);
        lemma_concat_assoc(e0, e1, rest);
        lemma_field_step::<Identifier>(m.id, e1 + (rest));
        lemma_field_step::<Vec<VarInt>>(m.items, rest);
    }

    proof fn lemma_dec_props(s: Seq<u8>) {
        <Identifier as MinecraftData>::lemma_dec_props(s);
        if <Identifier as MinecraftData>::dec(s) is Some {
            let p0 = <Identifier as MinecraftData>::dec(s).unwrap();
            let s1 = s.skip(p0.1);
            <Vec<VarInt> as MinecraftData>::lemma_dec_props(s1);
        }
    }

    fn decode(bytes: &Vec<u8>, pos: usize) -> (r: Result<(Self, usize), Error>) {
        let (id, p1) = match <Identifier as MinecraftData>::decode(bytes, pos) {
            Ok(x) => x,
            Err(e) => {
                return Err(e);
            },
        };
        proof {
            lemma_skip_skip(bytes@, pos as int, p1 - pos);
        }
        let (items, p2) = match <Vec<VarInt> as MinecraftData>::decode(bytes, p1) {
            Ok(x) => x,
            Err(e) => {
                return Err(e);
            },
        };
        Ok(((PropertySet { id, items }), p2))
    }

    fn encode(&self, out: &mut Vec<u8>) -> (r: Result<(), Error>) {
        match self.id.encode(out) {
            Ok(()) => {},
            Err(e) => {
                return Err(e);
            },
        }
        match self.items.encode(out) {
            Ok(()) => {},
            Err(e) => {
                return Err(e);
            },
        }
        proof {
            assert(out@ =~= old(out)@ + Self::enc(self.deep_view()));
        }
        Ok(())
    }

    fn num_bytes(&self) -> (r: usize) {
        self.id.num_bytes()
            + self.items.num_bytes()
    }
}

/// The model of `StonecutterRecipe`.
pub struct StonecutterRecipeModel {
    pub ingredients: IDSetModel,
    pub slot_display: SlotDisplayModel,
}

/// One stonecutter recipe: its inputs and how it is displayed.
#[derive(Debug)]
pub struct StonecutterRecipe {
    pub ingredients: IDSet,
    pub slot_display: SlotDisplay,
}

impl DeepView for StonecutterRecipe {
    type V = StonecutterRecipeModel;

    open spec fn deep_view(&self) -> StonecutterRecipeModel {
        StonecutterRecipeModel {
            ingredients: self.ingredients.deep_view(),
            slot_display: self.slot_display.deep_view(),
        }
    }
}

impl MinecraftData for StonecutterRecipe {
    open spec fn wf(m: StonecutterRecipeModel) -> bool {
        &&& <IDSet as MinecraftData>::wf(m.ingredients)
        &&& <SlotDisplay as MinecraftData>::wf(m.slot_display)
    }

    open spec fn enc(m: StonecutterRecipeModel) -> Seq<u8> {
        <IDSet as MinecraftData>::enc(m.ingredients) + <SlotDisplay as MinecraftData>::enc(m.slot_display)
    }

    open spec fn dec(s: Seq<u8>) -> Option<(StonecutterRecipeModel, int)> {
        match <IDSet as MinecraftData>::dec(s) {
            Some(p0) => {
                let s1 = s.skip(p0.1);
                match <SlotDisplay as MinecraftData>::dec(s1) {
                    Some(p1) => Some(((StonecutterRecipeModel { ingredients: p0.0, slot_display: p1.0 }), p0.1 + p1.1)),
                    None => None,
                }
            },
            None => None,
        }
    }

    proof fn lemma_round_trip(m: StonecutterRecipeModel, rest: Seq<u8>) {
        let e0 = <IDSet as MinecraftData>::enc(m.ingredients);
        let e1 = <SlotDisplay as MinecraftData>::enc(m.slot_display);
        lemma_concat_assoc(e0, e1, rest);
        lemma_field_step::<IDSet>(m.ingredients, e1 + (rest));
        lemma_field_step::<SlotDisplay>(m.slot_display, rest);
    }

    proof fn lemma_dec_props(s: Seq<u8>) {
        <IDSet as MinecraftData>::lemma_dec_props(s);
        if <IDSet as MinecraftData>::dec(s) is Some {
            let p0 = <IDSet as MinecraftData>::dec(s).unwrap();
            let s1 = s.skip(p0.1);
            <SlotDisplay as MinecraftData>::lemma_dec_props(s1);
        }
    }

    fn decode(bytes: &Vec<u8>, pos: usize) -> (r: Result<(Self, usize), Error>) {
        let (ingredients, p1) = match <IDSet as MinecraftData>::decode(bytes, pos) {
            Ok(x) => x,
            Err(e) => {
                return Err(e);
            },
        };
        proof {
            lemma_skip_skip(bytes@, pos as int, p1 - pos);
        }
        let (slot_display, p2) = match <SlotDisplay as MinecraftData>::decode(bytes, p1) {
            Ok(x) => x,
            Err(e) => {
                return Err(e);
            },
        };
        Ok(((StonecutterRecipe { ingredients, slot_display }), p2))
    }

    fn encode(&self, out: &mut Vec<u8>) -> (r: Result<(), Error>) {
        match self.ingredients.encode(out) {
            Ok(()) => {},
            Err(e) => {
                return Err(e);
            },
        }
        match self.slot_display.encode(out) {
            Ok(()) => {},
            Err(e) => {
                return Err(e);
            },
        }
        proof {
            assert(out@ =~= old(out)@ + Self::enc(self.deep_view()));
        }
        Ok(())
    }

    fn num_bytes(&self) -> (r: usize) {
        self.ingredients.num_bytes()
            + self.slot_display.num_bytes()
    }
}

/// The model of `UpdateRecipesPacket`.
pub struct UpdateRecipesPacketModel {
    pub property_sets: Seq<PropertySetModel>,
    pub stonecutter_recipes: Seq<StonecutterRecipeModel>,
}

/// The recipe book update sent on entering play.
#[derive(Debug)]
pub struct UpdateRecipesPacket {
    pub property_sets: Vec<PropertySet>,
    pub stonecutter_recipes: Vec<StonecutterRecipe>,
}

impl DeepView for UpdateRecipesPacket {
    type V = UpdateRecipesPacketModel;

    open spec fn deep_view(&self) -> UpdateRecipesPacketModel {
        UpdateRecipesPacketModel {
            property_sets: self.property_sets.deep_view(),
            stonecutter_recipes: self.stonecutter_recipes.deep_view(),
        }
    }
}

impl MinecraftData for UpdateRecipesPacket {
    open spec fn wf(m: UpdateRecipesPacketModel) -> bool {
        &&& <Vec<PropertySet> as MinecraftData>::wf(m.property_sets)
        &&& <Vec<StonecutterRecipe> as MinecraftData>::wf(m.stonecutter_recipes)
    }

    open spec fn enc(m: UpdateRecipesPacketModel) -> Seq<u8> {
        <Vec<PropertySet> as MinecraftData>::enc(m.property_sets) + <Vec<StonecutterRecipe> as MinecraftData>::enc(m.stonecutter_recipes)
    }

    open spec fn dec(s: Seq<u8>) -> Option<(UpdateRecipesPacketModel, int)> {
        match <Vec<PropertySet> as MinecraftData>::dec(s) {
            Some(p0) => {
                let s1 = s.skip(p0.1);
                match <Vec<StonecutterRecipe> as MinecraftData>::dec(s1) {
                    Some(p1) => Some(((UpdateRecipesPacketModel { property_sets: p0.0, stonecutter_recipes: p1.0 }), p0.1 + p1.1)),
                    None => None,
                }
            },
            None => None,
        }
    }

    proof fn lemma_round_trip(m: UpdateRecipesPacketModel, rest: Seq<u8>) {
        let e0 = <Vec<PropertySet> as MinecraftData>::enc(m.property_sets);
        let e1 = <Vec<StonecutterRecipe> as MinecraftData>::enc(m.stonecutter_recipes);
        lemma_concat_assoc(e0, e1, rest);
        lemma_field_step::<Vec<PropertySet>>(m.property_sets, e1 + (rest));
        lemma_field_step::<Vec<StonecutterRecipe>>(m.stonecutter_recipes, rest);
    }

    proof fn lemma_dec_props(s: Seq<u8>) {
        <Vec<PropertySet> as MinecraftData>::lemma_dec_props(s);
        if <Vec<PropertySet> as MinecraftData>::dec(s) is Some {
            let p0 = <Vec<PropertySet> as MinecraftData>::dec(s).unwrap();
            let s1 = s.skip(p0.1);
            <Vec<StonecutterRecipe> as MinecraftData>::lemma_dec_props(s1);
        }
    }

    fn decode(bytes: &Vec<u8>, pos: usize) -> (r: Result<(Self, usize), Error>) {
        let (property_sets, p1) = match <Vec<PropertySet> as MinecraftData>::decode(bytes, pos) {
            Ok(x) => x,
            Err(e) => {
                return Err(e);
            },
        };
        proof {
            lemma_skip_skip(bytes@, pos as int, p1 - pos);
        }
        let (stonecutter_recipes, p2) = match <Vec<StonecutterRecipe> as MinecraftData>::decode(bytes, p1) {
            Ok(x) => x,
            Err(e) => {
                return Err(e);
            },
        };
        Ok(((UpdateRecipesPacket { property_sets, stonecutter_recipes }), p2))
    }

    fn encode(&self, out: &mut Vec<u8>) -> (r: Result<(), Error>) {
        match self.property_sets.encode(out) {
            Ok(()) => {},
            Err(e) => {
                return Err(e);
            },
        }
        match self.stonecutter_recipes.encode(out) {
            Ok(()) => {},
            Err(e) => {
                return Err(e);
            },
        }
        proof {
            assert(out@ =~= old(out)@ + Self::enc(self.deep_view()));
        }
        Ok(())
    }

    fn num_bytes(&self) -> (r: usize) {
        self.property_sets.num_bytes()
            + self.stonecutter_recipes.num_bytes()
    }
}

impl Packet for UpdateRecipesPacket {
    open spec fn spec_id() -> int {
        0x83
    }

    proof fn lemma_id_bounds() {
    }

    fn id() -> (r: i32) {
        0x83
    }
}

} // verus!
