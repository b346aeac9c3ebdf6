//! A verified implementation of the Minecraft Java Edition wire protocol
//! (client side): the typed binary codec for the protocol's primitive and
//! compound data types, length-prefixed packet framing, and the pure
//! decision logic of the connection phases.
//!
//! Every codec comes with a specification-level encoder and decoder; the
//! executable functions are proved to match them, and each codable type
//! carries a proof that decoding inverts encoding.

pub mod seqs;
pub mod numeric;
pub mod codec;
pub mod varint;
pub mod primitives;
pub mod strings;
pub mod containers;
pub mod position;
pub mod datatypes;
pub mod login_packets;
pub mod config_packets;
pub mod play_packets;
pub mod packet;
pub mod plugin_message;
pub mod connection;

pub use codec::{Error, MinecraftData};
pub use varint::VarInt;
pub use primitives::UUID;
pub use strings::{MString, Identifier};
pub use position::Position;
pub use datatypes::{GameProfile, GameProfileProperty, Tag, IDSet, Slot, SlotDisplay};
pub use packet::{Packet, PacketHeader, decode_packet_header, payload_len};
pub use login_packets::{
    HandshakeIntent, HandshakePacket, StatusRequestPacket, StatusResponsePacket, LoginStartPacket,
    EncryptionRequestPacket, LoginSuccessPacket, LoginAcknowledgedPacket,
};
pub use config_packets::{
    FeatureFlagsPacket, DataPack, ClientboundKnownPacksPacket, ServerboundKnownPacksPacket,
    ConfigurationKeepAlivePacket, RegistryEntry, RegistryDataPacket, TaggedRegistry,
    ConfigurationUpdateTagsPacket, FinishConfigurationPacket,
    AcknowledgeFinishConfigurationPacket,
};
pub use play_packets::{
    ClientboundPlayKeepAlivePacket, ServerboundPlayKeepAlivePacket, PlayLoginSetup,
    PlayLoginState, PlayLoginPacket, Difficulty, ChangeDifficultyPacket,
    ClientboundSetHeldItemPacket, PropertySet, StonecutterRecipe, UpdateRecipesPacket,
};
pub use plugin_message::{PluginChannelData, ClientboundConfigurationPluginMessagePacket};
pub use connection::{Phase, ConfigStep, phase_after_handshake, configure_step, play_step,
    login_step, status_step};
