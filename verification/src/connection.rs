//! The connection's phase machine, as pure decision functions: given the
//! header of an inbound frame and its payload bytes, each phase's step
//! function decodes what it knows, decides the reply to send, and says
//! whether the phase is over. The caller performs the reads and writes and
//! hands the bytes back and forth; no I/O happens here.
//!
//! Identifiers collide across phases (0x00 is the handshake, a status
//! request, a status response or a login start depending on the moment), so
//! dispatch is per phase, never global.

use vstd::prelude::*;
use crate::codec::{Error, MinecraftData};
use crate::varint::{varint_enc_u, lemma_varint_enc_len};
use crate::numeric::{lemma_be_enc_len, u64_of_i64};
use crate::packet::{Packet, PacketHeader, spec_frame};
use crate::login_packets::{HandshakeIntent, LoginSuccessPacket, LoginAcknowledgedPacket,
    StatusResponsePacket};
use crate::config_packets::{ConfigurationKeepAlivePacket, ClientboundKnownPacksPacket,
    ServerboundKnownPacksPacket, ServerboundKnownPacksPacketModel, FeatureFlagsPacket,
    ConfigurationUpdateTagsPacket, FinishConfigurationPacket,
    AcknowledgeFinishConfigurationPacket};
use crate::plugin_message::ClientboundConfigurationPluginMessagePacket;
use crate::play_packets::{ClientboundPlayKeepAlivePacket, ServerboundPlayKeepAlivePacket};

verus! {

/// The protocol phase a connection is in.
#[derive(Debug, Clone, Copy, PartialEq, Eq)]
pub enum Phase {
    Handshake,
    Status,
    Login,
    Configuration,
    Play,
}

/// The phase entered after sending a handshake with the given intent.
/// Status asks for the status exchange; login and transfer both enter the
/// login exchange.
pub fn phase_after_handshake(intent: HandshakeIntent) -> (r: Phase)
    ensures
        r == (match intent {
            HandshakeIntent::Status => Phase::Status,
            HandshakeIntent::Login => Phase::Login,
            HandshakeIntent::Transfer => Phase::Login,
        }),
{
    match intent {
        HandshakeIntent::Status => Phase::Status,
        HandshakeIntent::Login => Phase::Login,
        HandshakeIntent::Transfer => Phase::Login,
    }
}

/// What the configuration dispatcher decided for one inbound frame.
pub struct ConfigStep {
    /// A framed reply to send before reading on, if one is owed.
    pub reply: Option<Vec<u8>>,
    /// Whether configuration finished: the acknowledgement is in `reply`
    /// and the connection moves to play.
    pub done: bool,
}

/// Handles one inbound configuration-phase frame: reflects keep-alives,
/// acknowledges the known-packs list and the end of configuration, checks
/// the packets it can read, and skips what it cannot (registry data and
/// unknown ids are consumed opaquely by the caller using the frame length).
pub fn configure_step(header: &PacketHeader, payload: &Vec<u8>) -> (r: Result<ConfigStep, Error>)
    ensures
        ({
            let s = payload@;
            let id = header.id.0 as int;
            match r {
                Ok(step) => {
                    &&& (step.done <==> id == 0x03)
                    &&& id == 0x04 ==> {
                        &&& ConfigurationKeepAlivePacket::dec(s) matches Some(p)
                        &&& step.reply matches Some(b) && b@ == spec_frame::<
                            ConfigurationKeepAlivePacket,
                        >(p.0)
                    }
                    &&& id == 0x0E ==> {
                        &&& ClientboundKnownPacksPacket::dec(s) matches Some(p)
                        &&& step.reply matches Some(b) && b@ == spec_frame::<
                            ServerboundKnownPacksPacket,
                        >(ServerboundKnownPacksPacketModel { known_packs: p.0.known_packs })
                    }
                    &&& id == 0x03 ==> {
                        &&& step.reply matches Some(b) && b@ == spec_frame::<
                            AcknowledgeFinishConfigurationPacket,
                        >(AcknowledgeFinishConfigurationPacket)
                    }
                    &&& id == 0x01 ==> ClientboundConfigurationPluginMessagePacket::dec(s) is Some
                        && step.reply is None
                    &&& id == 0x0C ==> FeatureFlagsPacket::dec(s) is Some && step.reply is None
                    &&& id == 0x0D ==> ConfigurationUpdateTagsPacket::dec(s) is Some
                        && step.reply is None
                    &&& (id != 0x01 && id != 0x03 && id != 0x04 && id != 0x0C && id != 0x0D && id
                        != 0x0E) ==> step.reply is None
                },
                Err(_) => {
                    &&& (id == 0x04 ==> ConfigurationKeepAlivePacket::dec(s) is None)
                    &&& id == 0x0E ==> (ClientboundKnownPacksPacket::dec(s) is None || {
                        let p = ClientboundKnownPacksPacket::dec(s).unwrap();
                        varint_enc_u(0x07).len() + ServerboundKnownPacksPacket::enc(
                            ServerboundKnownPacksPacketModel { known_packs: p.0.known_packs },
                        ).len() > 0x7FFF_FFFF
                    })
                    &&& id == 0x01 ==> ClientboundConfigurationPluginMessagePacket::dec(s) is None
                    &&& id == 0x0C ==> FeatureFlagsPacket::dec(s) is None
                    &&& id == 0x0D ==> ConfigurationUpdateTagsPacket::dec(s) is None
                    &&& id != 0x03
                    &&& (id != 0x01 && id != 0x04 && id != 0x0C && id != 0x0D && id != 0x0E)
                        ==> false
                },
            }
        }),
{
    let id = header.id.0;
    if id == 0x04 {
        let (pkt, _end) = match ConfigurationKeepAlivePacket::decode(payload, 0) {
            Ok(x) => x,
            Err(e) => {
                proof {
                    assert(payload@.skip(0) =~= payload@);
                }
                return Err(e);
            },
        };
        proof {
            assert(payload@.skip(0) =~= payload@);
        }
        let echo = ConfigurationKeepAlivePacket { keep_alive_id: pkt.keep_alive_id };
        let mut buf: Vec<u8> = Vec::new();
        match echo.encode_packet(&mut buf) {
            Ok(()) => Ok(ConfigStep { reply: Some(buf), done: false }),
            Err(_) => {
                proof {
                    lemma_varint_enc_len(0x04);
                    lemma_be_enc_len(u64_of_i64(echo.keep_alive_id) as nat, 8);
                    assert(false);
                }
                Err(Error::LengthOverflow)
            },
        }
    } else if id == 0x0E {
        let (pkt, _end) = match ClientboundKnownPacksPacket::decode(payload, 0) {
            Ok(x) => x,
            Err(e) => {
                proof {
                    assert(payload@.skip(0) =~= payload@);
                }
                return Err(e);
            },
        };
        proof {
            assert(payload@.skip(0) =~= payload@);
            ClientboundKnownPacksPacket::lemma_dec_props(payload@);
        }
        let ack = ServerboundKnownPacksPacket { known_packs: pkt.known_packs };
        let mut buf: Vec<u8> = Vec::new();
        match ack.encode_packet(&mut buf) {
            Ok(()) => Ok(ConfigStep { reply: Some(buf), done: false }),
            Err(e) => Err(e),
        }
    } else if id == 0x03 {
        let (_pkt, _end) = match FinishConfigurationPacket::decode(payload, 0) {
            Ok(x) => x,
            Err(e) => {
                return Err(e);
            },
        };
        let mut buf: Vec<u8> = Vec::new();
        match AcknowledgeFinishConfigurationPacket.encode_packet(&mut buf) {
            Ok(()) => Ok(ConfigStep { reply: Some(buf), done: true }),
            Err(_) => {
                proof {
                    lemma_varint_enc_len(0x03);
                    assert(AcknowledgeFinishConfigurationPacket::enc(
                        AcknowledgeFinishConfigurationPacket,
                    ).len() == 0);
                    assert(false);
                }
                Err(Error::LengthOverflow)
            },
        }
    } else if id == 0x01 {
        match ClientboundConfigurationPluginMessagePacket::decode(payload, 0) {
            Ok(_) => {
                proof {
                    assert(payload@.skip(0) =~= payload@);
                }
                Ok(ConfigStep { reply: None, done: false })
            },
            Err(e) => {
                proof {
                    assert(payload@.skip(0) =~= payload@);
                }
                Err(e)
            },
        }
    } else if id == 0x0C {
        match FeatureFlagsPacket::decode(payload, 0) {
            Ok(_) => {
                proof {
                    assert(payload@.skip(0) =~= payload@);
                }
                Ok(ConfigStep { reply: None, done: false })
            },
            Err(e) => {
                proof {
                    assert(payload@.skip(0) =~= payload@);
                }
                Err(e)
            },
        }
    } else if id == 0x0D {
        match ConfigurationUpdateTagsPacket::decode(payload, 0) {
            Ok(_) => {
                proof {
                    assert(payload@.skip(0) =~= payload@);
                }
                Ok(ConfigStep { reply: None, done: false })
            },
            Err(e) => {
                proof {
                    assert(payload@.skip(0) =~= payload@);
                }
                Err(e)
            },
        }
    } else {
        // Registry data (0x07) and anything unknown: the payload was already
        // consumed whole by the caller; nothing to reply.
        Ok(ConfigStep { reply: None, done: false })
    }
}

/// Handles one inbound play-phase frame: reflects keep-alives, skips
/// everything else. An unknown id never ends the connection during play.
pub fn play_step(header: &PacketHeader, payload: &Vec<u8>) -> (r: Result<Option<Vec<u8>>, Error>)
    ensures
        ({
            let s = payload@;
            let id = header.id.0 as int;
            match r {
                Ok(reply) => {
                    &&& id == 0x2B ==> {
                        &&& ClientboundPlayKeepAlivePacket::dec(s) matches Some(p)
                        &&& reply matches Some(b) && b@ == spec_frame::<
                            ServerboundPlayKeepAlivePacket,
                        >(ServerboundPlayKeepAlivePacket { keep_alive_id: p.0.keep_alive_id })
                    }
                    &&& id != 0x2B ==> reply is None
                },
                Err(_) => id == 0x2B && ClientboundPlayKeepAlivePacket::dec(s) is None,
            }
        }),
{
    let id = header.id.0;
    if id == 0x2B {
        let (pkt, _end) = match ClientboundPlayKeepAlivePacket::decode(payload, 0) {
            Ok(x) => x,
            Err(e) => {
                proof {
                    assert(payload@.skip(0) =~= payload@);
                }
                return Err(e);
            },
        };
        proof {
            assert(payload@.skip(0) =~= payload@);
        }
        let echo = ServerboundPlayKeepAlivePacket { keep_alive_id: pkt.keep_alive_id };
        let mut buf: Vec<u8> = Vec::new();
        match echo.encode_packet(&mut buf) {
            Ok(()) => Ok(Some(buf)),
            Err(_) => {
                proof {
                    lemma_varint_enc_len(0x1B);
                    lemma_be_enc_len(u64_of_i64(echo.keep_alive_id) as nat, 8);
                    assert(false);
                }
                Err(Error::LengthOverflow)
            },
        }
    } else {
        Ok(None)
    }
}

/// Handles the one frame the login phase waits for: the login success. Any
/// other id is out of place here, since encryption and compression are not
/// negotiated by this client.
pub fn login_step(header: &PacketHeader, payload: &Vec<u8>) -> (r: Result<
    (LoginSuccessPacket, Vec<u8>),
    Error,
>)
    ensures
        ({
            let s = payload@;
            let id = header.id.0 as int;
            match r {
                Ok((pkt, reply)) => {
                    &&& id == 0x02
                    &&& LoginSuccessPacket::dec(s) matches Some(p) && p.0 == pkt.deep_view()
                    &&& reply@ == spec_frame::<LoginAcknowledgedPacket>(LoginAcknowledgedPacket)
                },
                Err(_) => id != 0x02 || LoginSuccessPacket::dec(s) is None,
            }
        }),
{
    let id = header.id.0;
    if id != 0x02 {
        return Err(Error::UnexpectedPacket);
    }
    let (pkt, _end) = match LoginSuccessPacket::decode(payload, 0) {
        Ok(x) => x,
        Err(e) => {
            proof {
                assert(payload@.skip(0) =~= payload@);
            }
            return Err(e);
        },
    };
    proof {
        assert(payload@.skip(0) =~= payload@);
    }
    let mut buf: Vec<u8> = Vec::new();
    match LoginAcknowledgedPacket.encode_packet(&mut buf) {
        Ok(()) => Ok((pkt, buf)),
        Err(_) => {
            proof {
                lemma_varint_enc_len(0x03);
                assert(LoginAcknowledgedPacket::enc(LoginAcknowledgedPacket).len() == 0);
                assert(false);
            }
            Err(Error::LengthOverflow)
        },
    }
}

/// Handles the one frame the status phase waits for: the status response.
pub fn status_step(header: &PacketHeader, payload: &Vec<u8>) -> (r: Result<
    StatusResponsePacket,
    Error,
>)
    ensures
        ({
            let s = payload@;
            let id = header.id.0 as int;
            match r {
                Ok(pkt) => id == 0x00 && (StatusResponsePacket::dec(s) matches Some(p) && p.0
                    == pkt.deep_view()),
                Err(_) => id != 0x00 || StatusResponsePacket::dec(s) is None,
            }
        }),
{
    let id = header.id.0;
    if id != 0x00 {
        return Err(Error::UnexpectedPacket);
    }
    match StatusResponsePacket::decode(payload, 0) {
        Ok((pkt, _end)) => {
            proof {
                assert(payload@.skip(0) =~= payload@);
            }
            Ok(pkt)
        },
        Err(e) => {
            proof {
                assert(payload@.skip(0) =~= payload@);
            }
            Err(e)
        },
    }
}

} // verus!
