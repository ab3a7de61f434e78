//! Frames that arrive: the phases of a connection, the table that tells for
//! each phase which packet a number means, and what is done with a frame
//! whose packet is unknown, cannot be read, or leaves bytes behind.

use crate::codec::{
    behind, done, ended, failed, malformed, malformed_with_number, number_message, Deserialize,
    DeserializeError, Failure, Outcome, SerializeError,
};
use crate::datatypes::LengthInferredByteArray;
use crate::entity::GameError;
use crate::packets::{
    AddEntity, ChangeDifficulty, ChunkDataWithLight, ConfirmTeleportation, EntityEvent,
    FeatureFlags, FinishConfiguration, KeepAlive, KnownPacks, Login, LoginAcknowledged,
    LoginSuccess, PlayerAbilities, PlayersInfoUpdate, PluginMessage, RegistryData,
    SetEntityVelocity, SetHeldItem, SynchronizePlayerPosition, TeleportEntity, UpdateEntityPosition,
    UpdateEntityPositionRotation, UpdateRecipes, UpdateTags, Waypoint,
};
use crate::send::{frame_of, frame_packet, packet_id, sendable, ServerboundPacket};
use crate::stream::{
    lemma_advance_twice, lemma_advance_window, lemma_advance_zero, ByteChannel, DataStream,
};
use crate::varint::{
    bits32, from_bits32, lemma_var_int_round_trip, lemma_var_scan_bounds, var_scan, VarInt, VarScan,
};
use vstd::prelude::*;

verus! {

/// The phase that a connection is in.
#[derive(Debug, Clone, Copy, PartialEq, Eq, Structural)]
pub enum ConnectionState {
    Handshaking,
    Status,
    Login,
    Configuration,
    Play,
}

impl ConnectionState {
    /// How far along a connection a phase lies: a connection goes from a
    /// phase only to one that lies further.
    pub open spec fn rank(self) -> nat {
        match self {
            ConnectionState::Handshaking => 0,
            ConnectionState::Status => 1,
            ConnectionState::Login => 1,
            ConnectionState::Configuration => 2,
            ConnectionState::Play => 3,
        }
    }

    /// The number by which a handshake asks for the phase. Only the two
    /// phases that follow the handshake can be asked for.
    pub fn handshake_intent(&self) -> (intent: VarInt)
        requires
            self is Status || self is Login,
        ensures
            intent == VarInt(
                if self is Status {
                    1i32
                } else {
                    2i32
                },
            ),
    {
        match self {
            ConnectionState::Status => VarInt(1),
            _ => VarInt(2),
        }
    }
}

/// Why a frame gave no packet.
#[derive(Debug)]
pub enum ReceiveError {
    /// The phase knows no packet of this number; the frame was skipped.
    UnknownPacketId(u32),
    /// The reply to the packet could not be made.
    SerializeError(SerializeError),
    /// The frame or its packet could not be read.
    DeserializeError(DeserializeError),
    /// The state of the game refused what the packet asks for.
    GameError(GameError),
}

/// What a [`ReceiveError`] stands for.
pub enum ReceiveFailure {
    UnknownPacketId(u32),
    Serialize,
    Deserialize(Failure),
    Game,
}

impl View for ReceiveError {
    type V = ReceiveFailure;

    open spec fn view(&self) -> ReceiveFailure {
        match self {
            ReceiveError::UnknownPacketId(id) => ReceiveFailure::UnknownPacketId(*id),
            ReceiveError::SerializeError(_) => ReceiveFailure::Serialize,
            ReceiveError::DeserializeError(error) => ReceiveFailure::Deserialize(error@),
            ReceiveError::GameError(_) => ReceiveFailure::Game,
        }
    }
}

/// A packet that the server sends.
pub trait ClientboundPacket: Deserialize {
    /// The number by which the protocol knows the packet.
    const ID: u32;

    /// The phase in which the number means this packet.
    const STATE: ConnectionState;

    /// The phase in which the connection is once the packet was taken in:
    /// another than `STATE` where the packet moves the connection on.
    const NEW_STATE: ConnectionState;

    /// The frame that goes back at once when the packet arrives; no bytes
    /// where nothing goes back.
    spec fn reply(&self) -> Seq<u8>;

    /// Whether the frame that goes back can be made.
    spec fn can_reply(&self) -> bool;

    /// A packet that was read from a window of fewer bytes than a frame may
    /// have can be answered.
    proof fn lemma_read_can_reply(window: Seq<u8>, short: bool, packet: Self)
        requires
            Self::parse(window, short).result == Ok::<Self::V, Failure>(packet.deep_view()),
            Self::parse(window, short).used <= window.len(),
            window.len() < i32::MAX,
        ensures
            packet.can_reply(),
    ;

    /// Writes the frame that goes back through the stream.
    fn receive(&self, stream: &mut DataStream) -> (result: Result<(), ReceiveError>)
        ensures
            final(stream)@.unread == old(stream)@.unread,
            final(stream)@.remaining == old(stream)@.remaining,
            match result {
                Ok(_) => self.can_reply() && final(stream)@.written == old(stream)@.written
                    + self.reply(),
                Err(error) =>
                    error is SerializeError
                        && !self.can_reply()
                        && final(stream)@.written == old(stream)@.written,
            },
    ;
}

/// Writes the frame of `packet` through the stream.
fn reply_with<R: ServerboundPacket>(stream: &mut DataStream, packet: &R) -> (result: Result<
    (),
    ReceiveError,
>)
    ensures
        final(stream)@.unread == old(stream)@.unread,
        final(stream)@.remaining == old(stream)@.remaining,
        match result {
            Ok(_) => sendable(packet) && final(stream)@.written == old(stream)@.written
                + frame_of(packet),
            Err(error) => error is SerializeError && !sendable(packet) && final(stream)@.written
                == old(stream)@.written,
        },
{
    match frame_packet(packet) {
        Ok(frame) => {
            stream.write(frame.as_slice());
            Ok(())
        },
        Err(error) => Err(ReceiveError::SerializeError(error)),
    }
}

impl ClientboundPacket for LoginSuccess {
    const ID: u32 = 2;

    const STATE: ConnectionState = ConnectionState::Login;

    const NEW_STATE: ConnectionState = ConnectionState::Configuration;

    proof fn lemma_read_can_reply(window: Seq<u8>, short: bool, packet: Self) {
        lemma_var_int_round_trip(packet_id::<LoginAcknowledged>(), Seq::empty(), false);
    }

    open spec fn reply(&self) -> Seq<u8> {
        frame_of(&(LoginAcknowledged {}))
    }

    open spec fn can_reply(&self) -> bool {
        sendable(&(LoginAcknowledged {}))
    }

    fn receive(&self, stream: &mut DataStream) -> (result: Result<(), ReceiveError>) {
        reply_with(stream, &LoginAcknowledged {})
    }
}

impl ClientboundPacket for PluginMessage {
    const ID: u32 = 1;

    const STATE: ConnectionState = ConnectionState::Configuration;

    const NEW_STATE: ConnectionState = ConnectionState::Configuration;

    proof fn lemma_read_can_reply(window: Seq<u8>, short: bool, packet: Self) {
    }

    open spec fn reply(&self) -> Seq<u8> {
        Seq::empty()
    }

    open spec fn can_reply(&self) -> bool {
        true
    }

    fn receive(&self, stream: &mut DataStream) -> (result: Result<(), ReceiveError>) {
        assert(stream@.written + Seq::<u8>::empty() =~= stream@.written);
        Ok(())
    }
}

impl ClientboundPacket for FeatureFlags {
    const ID: u32 = 0x0C;

    const STATE: ConnectionState = ConnectionState::Configuration;

    const NEW_STATE: ConnectionState = ConnectionState::Configuration;

    proof fn lemma_read_can_reply(window: Seq<u8>, short: bool, packet: Self) {
    }

    open spec fn reply(&self) -> Seq<u8> {
        Seq::empty()
    }

    open spec fn can_reply(&self) -> bool {
        true
    }

    fn receive(&self, stream: &mut DataStream) -> (result: Result<(), ReceiveError>) {
        assert(stream@.written + Seq::<u8>::empty() =~= stream@.written);
        Ok(())
    }
}

impl ClientboundPacket for KnownPacks {
    const ID: u32 = 0x0E;

    const STATE: ConnectionState = ConnectionState::Configuration;

    const NEW_STATE: ConnectionState = ConnectionState::Configuration;

    proof fn lemma_read_can_reply(window: Seq<u8>, short: bool, packet: Self) {
        lemma_var_int_round_trip(packet_id::<KnownPacks>(), Seq::empty(), false);
        crate::echo::lemma_known_packs_sendable(window, short, packet);
    }

    open spec fn reply(&self) -> Seq<u8> {
        frame_of(self)
    }

    open spec fn can_reply(&self) -> bool {
        sendable(self)
    }

    fn receive(&self, stream: &mut DataStream) -> (result: Result<(), ReceiveError>) {
        reply_with(stream, self)
    }
}

impl ClientboundPacket for FinishConfiguration {
    const ID: u32 = 3;

    const STATE: ConnectionState = ConnectionState::Configuration;

    const NEW_STATE: ConnectionState = ConnectionState::Play;

    proof fn lemma_read_can_reply(window: Seq<u8>, short: bool, packet: Self) {
        lemma_var_int_round_trip(packet_id::<FinishConfiguration>(), Seq::empty(), false);
    }

    open spec fn reply(&self) -> Seq<u8> {
        frame_of(&(FinishConfiguration {}))
    }

    open spec fn can_reply(&self) -> bool {
        sendable(&(FinishConfiguration {}))
    }

    fn receive(&self, stream: &mut DataStream) -> (result: Result<(), ReceiveError>) {
        reply_with(stream, &FinishConfiguration {})
    }
}

impl ClientboundPacket for RegistryData {
    const ID: u32 = 7;

    const STATE: ConnectionState = ConnectionState::Configuration;

    const NEW_STATE: ConnectionState = ConnectionState::Configuration;

    proof fn lemma_read_can_reply(window: Seq<u8>, short: bool, packet: Self) {
    }

    open spec fn reply(&self) -> Seq<u8> {
        Seq::empty()
    }

    open spec fn can_reply(&self) -> bool {
        true
    }

    fn receive(&self, stream: &mut DataStream) -> (result: Result<(), ReceiveError>) {
        assert(stream@.written + Seq::<u8>::empty() =~= stream@.written);
        Ok(())
    }
}

impl ClientboundPacket for UpdateTags {
    const ID: u32 = 0x0D;

    const STATE: ConnectionState = ConnectionState::Configuration;

    const NEW_STATE: ConnectionState = ConnectionState::Configuration;

    proof fn lemma_read_can_reply(window: Seq<u8>, short: bool, packet: Self) {
    }

    open spec fn reply(&self) -> Seq<u8> {
        Seq::empty()
    }

    open spec fn can_reply(&self) -> bool {
        true
    }

    fn receive(&self, stream: &mut DataStream) -> (result: Result<(), ReceiveError>) {
        assert(stream@.written + Seq::<u8>::empty() =~= stream@.written);
        Ok(())
    }
}

impl ClientboundPacket for Login {
    const ID: u32 = 0x2B;

    const STATE: ConnectionState = ConnectionState::Play;

    const NEW_STATE: ConnectionState = ConnectionState::Play;

    proof fn lemma_read_can_reply(window: Seq<u8>, short: bool, packet: Self) {
    }

    open spec fn reply(&self) -> Seq<u8> {
        Seq::empty()
    }

    open spec fn can_reply(&self) -> bool {
        true
    }

    fn receive(&self, stream: &mut DataStream) -> (result: Result<(), ReceiveError>) {
        assert(stream@.written + Seq::<u8>::empty() =~= stream@.written);
        Ok(())
    }
}

impl ClientboundPacket for ChangeDifficulty {
    const ID: u32 = 0xA;

    const STATE: ConnectionState = ConnectionState::Play;

    const NEW_STATE: ConnectionState = ConnectionState::Play;

    proof fn lemma_read_can_reply(window: Seq<u8>, short: bool, packet: Self) {
    }

    open spec fn reply(&self) -> Seq<u8> {
        Seq::empty()
    }

    open spec fn can_reply(&self) -> bool {
        true
    }

    fn receive(&self, stream: &mut DataStream) -> (result: Result<(), ReceiveError>) {
        assert(stream@.written + Seq::<u8>::empty() =~= stream@.written);
        Ok(())
    }
}

impl ClientboundPacket for PlayerAbilities {
    const ID: u32 = 0x39;

    const STATE: ConnectionState = ConnectionState::Play;

    const NEW_STATE: ConnectionState = ConnectionState::Play;

    proof fn lemma_read_can_reply(window: Seq<u8>, short: bool, packet: Self) {
    }

    open spec fn reply(&self) -> Seq<u8> {
        Seq::empty()
    }

    open spec fn can_reply(&self) -> bool {
        true
    }

    fn receive(&self, stream: &mut DataStream) -> (result: Result<(), ReceiveError>) {
        assert(stream@.written + Seq::<u8>::empty() =~= stream@.written);
        Ok(())
    }
}

impl ClientboundPacket for SetHeldItem {
    const ID: u32 = 0x62;

    const STATE: ConnectionState = ConnectionState::Play;

    const NEW_STATE: ConnectionState = ConnectionState::Play;

    proof fn lemma_read_can_reply(window: Seq<u8>, short: bool, packet: Self) {
    }

    open spec fn reply(&self) -> Seq<u8> {
        Seq::empty()
    }

    open spec fn can_reply(&self) -> bool {
        true
    }

    fn receive(&self, stream: &mut DataStream) -> (result: Result<(), ReceiveError>) {
        assert(stream@.written + Seq::<u8>::empty() =~= stream@.written);
        Ok(())
    }
}

impl ClientboundPacket for UpdateRecipes {
    const ID: u32 = 0x7E;

    const STATE: ConnectionState = ConnectionState::Play;

    const NEW_STATE: ConnectionState = ConnectionState::Play;

    proof fn lemma_read_can_reply(window: Seq<u8>, short: bool, packet: Self) {
    }

    open spec fn reply(&self) -> Seq<u8> {
        Seq::empty()
    }

    open spec fn can_reply(&self) -> bool {
        true
    }

    fn receive(&self, stream: &mut DataStream) -> (result: Result<(), ReceiveError>) {
        assert(stream@.written + Seq::<u8>::empty() =~= stream@.written);
        Ok(())
    }
}

impl ClientboundPacket for EntityEvent {
    const ID: u32 = 0x1E;

    const STATE: ConnectionState = ConnectionState::Play;

    const NEW_STATE: ConnectionState = ConnectionState::Play;

    proof fn lemma_read_can_reply(window: Seq<u8>, short: bool, packet: Self) {
    }

    open spec fn reply(&self) -> Seq<u8> {
        Seq::empty()
    }

    open spec fn can_reply(&self) -> bool {
        true
    }

    fn receive(&self, stream: &mut DataStream) -> (result: Result<(), ReceiveError>) {
        assert(stream@.written + Seq::<u8>::empty() =~= stream@.written);
        Ok(())
    }
}

impl ClientboundPacket for SynchronizePlayerPosition {
    const ID: u32 = 0x41;

    const STATE: ConnectionState = ConnectionState::Play;

    const NEW_STATE: ConnectionState = ConnectionState::Play;

    proof fn lemma_read_can_reply(window: Seq<u8>, short: bool, packet: Self) {
        lemma_var_int_round_trip(packet_id::<ConfirmTeleportation>(), Seq::empty(), false);
        lemma_var_int_round_trip(packet.teleport_id, Seq::empty(), false);
    }

    open spec fn reply(&self) -> Seq<u8> {
        frame_of(&(ConfirmTeleportation { teleport_id: self.teleport_id }))
    }

    open spec fn can_reply(&self) -> bool {
        sendable(&(ConfirmTeleportation { teleport_id: self.teleport_id }))
    }

    fn receive(&self, stream: &mut DataStream) -> (result: Result<(), ReceiveError>) {
        reply_with(stream, &ConfirmTeleportation { teleport_id: self.teleport_id })
    }
}

impl ClientboundPacket for Waypoint {
    const ID: u32 = 0x83;

    const STATE: ConnectionState = ConnectionState::Play;

    const NEW_STATE: ConnectionState = ConnectionState::Play;

    proof fn lemma_read_can_reply(window: Seq<u8>, short: bool, packet: Self) {
    }

    open spec fn reply(&self) -> Seq<u8> {
        Seq::empty()
    }

    open spec fn can_reply(&self) -> bool {
        true
    }

    fn receive(&self, stream: &mut DataStream) -> (result: Result<(), ReceiveError>) {
        assert(stream@.written + Seq::<u8>::empty() =~= stream@.written);
        Ok(())
    }
}

impl ClientboundPacket for UpdateEntityPosition {
    const ID: u32 = 0x2E;

    const STATE: ConnectionState = ConnectionState::Play;

    const NEW_STATE: ConnectionState = ConnectionState::Play;

    proof fn lemma_read_can_reply(window: Seq<u8>, short: bool, packet: Self) {
    }

    open spec fn reply(&self) -> Seq<u8> {
        Seq::empty()
    }

    open spec fn can_reply(&self) -> bool {
        true
    }

    fn receive(&self, stream: &mut DataStream) -> (result: Result<(), ReceiveError>) {
        assert(stream@.written + Seq::<u8>::empty() =~= stream@.written);
        Ok(())
    }
}

impl ClientboundPacket for UpdateEntityPositionRotation {
    const ID: u32 = 0x2F;

    const STATE: ConnectionState = ConnectionState::Play;

    const NEW_STATE: ConnectionState = ConnectionState::Play;

    proof fn lemma_read_can_reply(window: Seq<u8>, short: bool, packet: Self) {
    }

    open spec fn reply(&self) -> Seq<u8> {
        Seq::empty()
    }

    open spec fn can_reply(&self) -> bool {
        true
    }

    fn receive(&self, stream: &mut DataStream) -> (result: Result<(), ReceiveError>) {
        assert(stream@.written + Seq::<u8>::empty() =~= stream@.written);
        Ok(())
    }
}

impl ClientboundPacket for PlayersInfoUpdate {
    const ID: u32 = 0x3F;

    const STATE: ConnectionState = ConnectionState::Play;

    const NEW_STATE: ConnectionState = ConnectionState::Play;

    proof fn lemma_read_can_reply(window: Seq<u8>, short: bool, packet: Self) {
    }

    open spec fn reply(&self) -> Seq<u8> {
        Seq::empty()
    }

    open spec fn can_reply(&self) -> bool {
        true
    }

    fn receive(&self, stream: &mut DataStream) -> (result: Result<(), ReceiveError>) {
        assert(stream@.written + Seq::<u8>::empty() =~= stream@.written);
        Ok(())
    }
}

impl ClientboundPacket for AddEntity {
    const ID: u32 = 0x1;

    const STATE: ConnectionState = ConnectionState::Play;

    const NEW_STATE: ConnectionState = ConnectionState::Play;

    proof fn lemma_read_can_reply(window: Seq<u8>, short: bool, packet: Self) {
    }

    open spec fn reply(&self) -> Seq<u8> {
        Seq::empty()
    }

    open spec fn can_reply(&self) -> bool {
        true
    }

    fn receive(&self, stream: &mut DataStream) -> (result: Result<(), ReceiveError>) {
        assert(stream@.written + Seq::<u8>::empty() =~= stream@.written);
        Ok(())
    }
}

impl ClientboundPacket for KeepAlive {
    const ID: u32 = 0x26;

    const STATE: ConnectionState = ConnectionState::Play;

    const NEW_STATE: ConnectionState = ConnectionState::Play;

    proof fn lemma_read_can_reply(window: Seq<u8>, short: bool, packet: Self) {
        lemma_var_int_round_trip(packet_id::<KeepAlive>(), Seq::empty(), false);
        crate::primitives::lemma_be_bytes_len(crate::varint::bits64(packet.0), 8);
    }

    open spec fn reply(&self) -> Seq<u8> {
        frame_of(self)
    }

    open spec fn can_reply(&self) -> bool {
        sendable(self)
    }

    fn receive(&self, stream: &mut DataStream) -> (result: Result<(), ReceiveError>) {
        reply_with(stream, self)
    }
}

impl ClientboundPacket for TeleportEntity {
    const ID: u32 = 0x1F;

    const STATE: ConnectionState = ConnectionState::Play;

    const NEW_STATE: ConnectionState = ConnectionState::Play;

    proof fn lemma_read_can_reply(window: Seq<u8>, short: bool, packet: Self) {
    }

    open spec fn reply(&self) -> Seq<u8> {
        Seq::empty()
    }

    open spec fn can_reply(&self) -> bool {
        true
    }

    fn receive(&self, stream: &mut DataStream) -> (result: Result<(), ReceiveError>) {
        assert(stream@.written + Seq::<u8>::empty() =~= stream@.written);
        Ok(())
    }
}

impl ClientboundPacket for SetEntityVelocity {
    const ID: u32 = 0x5E;

    const STATE: ConnectionState = ConnectionState::Play;

    const NEW_STATE: ConnectionState = ConnectionState::Play;

    proof fn lemma_read_can_reply(window: Seq<u8>, short: bool, packet: Self) {
    }

    open spec fn reply(&self) -> Seq<u8> {
        Seq::empty()
    }

    open spec fn can_reply(&self) -> bool {
        true
    }

    fn receive(&self, stream: &mut DataStream) -> (result: Result<(), ReceiveError>) {
        assert(stream@.written + Seq::<u8>::empty() =~= stream@.written);
        Ok(())
    }
}

impl ClientboundPacket for ChunkDataWithLight {
    const ID: u32 = 0x27;

    const STATE: ConnectionState = ConnectionState::Play;

    const NEW_STATE: ConnectionState = ConnectionState::Play;

    proof fn lemma_read_can_reply(window: Seq<u8>, short: bool, packet: Self) {
    }

    open spec fn reply(&self) -> Seq<u8> {
        Seq::empty()
    }

    open spec fn can_reply(&self) -> bool {
        true
    }

    fn receive(&self, stream: &mut DataStream) -> (result: Result<(), ReceiveError>) {
        assert(stream@.written + Seq::<u8>::empty() =~= stream@.written);
        Ok(())
    }
}

/// The failure that is reported of a frame whose read ended in `failure`. The
/// rest of the frame is read before anything is reported. Where the channel
/// does not hold the rest, the failure is the channel's. Where it does, the
/// channel is in order and the failure is the payload's: a read that found
/// the window at its end found a payload that is too short.
pub open spec fn after_drain(failure: Failure, short: bool) -> Failure {
    if short {
        Failure::Io
    } else if failure is Io {
        ended(false)
    } else {
        failure
    }
}

/// What reading the packet of a frame gives, of the window that holds the
/// packet: the packet and the bytes that it left, which are read and handed
/// on. Where the packet cannot be read, the bytes that are left of the frame
/// are read too, so that the next frame begins where this one ends. Whatever
/// comes of it, the whole window is read.
#[verifier::opaque]
pub open spec fn payload_outcome<T: Deserialize>(window: Seq<u8>, short: bool) -> Outcome<
    (T::V, Seq<u8>),
> {
    let read = T::parse(window, short);
    match read.result {
        Err(failure) => failed(after_drain(failure, short), window.len()),
        Ok(value) => if short {
            failed(Failure::Io, window.len())
        } else {
            done((value, window.skip(read.used as int)), window.len())
        },
    }
}

/// Reads what is left of a frame whose read ended in `error`, and gives the
/// error that is reported of the frame.
fn drain(stream: &mut DataStream, error: DeserializeError) -> (result: DeserializeError)
    ensures
        final(stream)@ == old(stream)@.advance(old(stream)@.window().len()),
        result@ == after_drain(error@, old(stream)@.short()),
{
    match LengthInferredByteArray::deserialize(stream) {
        Ok(_) => match error {
            DeserializeError::Io(_) => malformed("Unexpected end of packet"),
            other => other,
        },
        Err(failure) => failure,
    }
}

/// Reads the packet of a frame, and the bytes that it leaves; sends the
/// reply that the packet asks for. The reply fails only where the packet
/// that was read has none that can be made, which takes a frame longer than
/// any that a length can announce.
pub fn receive_<T: ClientboundPacket>(stream: &mut DataStream) -> (result: Result<
    (T, Vec<u8>),
    ReceiveError,
>)
    ensures
        ({
            let expected = payload_outcome::<T>(old(stream)@.window(), old(stream)@.short());
            &&& expected.used <= old(stream)@.window().len()
            &&& final(stream)@.unread == old(stream)@.unread.skip(expected.used as int)
            &&& final(stream)@.remaining == old(stream)@.remaining - expected.used
            &&& match result {
                Ok((packet, leftover)) => expected.result == Ok::<(T::V, Seq<u8>), Failure>(
                    (packet.deep_view(), leftover@),
                ) && packet.can_reply() && final(stream)@.written == old(stream)@.written
                    + packet.reply(),
                Err(ReceiveError::SerializeError(_)) => {
                    &&& expected.result is Ok
                    &&& old(stream)@.window().len() >= i32::MAX
                    &&& final(stream)@.written == old(stream)@.written
                    &&& exists|packet: T|
                        packet.deep_view() == expected.result->Ok_0.0
                            && !#[trigger] packet.can_reply()
                },
                Err(ReceiveError::DeserializeError(error)) => expected.result == Err::<
                    (T::V, Seq<u8>),
                    Failure,
                >(error@) && final(stream)@.written == old(stream)@.written,
                Err(_) => false,
            }
        }),
{
    broadcast use lemma_advance_zero;

    reveal(payload_outcome);
    let ghost start = stream@;
    let ghost read = T::parse(start.window(), start.short());
    let packet = match T::deserialize(stream) {
        Ok(packet) => packet,
        Err(error) => {
            proof {
                lemma_advance_window(start, read.used);
                lemma_advance_twice(start, read.used, (start.window().len() - read.used) as nat);
            }
            return Err(ReceiveError::DeserializeError(drain(stream, error)));
        },
    };
    proof {
        lemma_advance_window(start, read.used);
        lemma_advance_twice(start, read.used, (start.window().len() - read.used) as nat);
    }
    let leftover = if stream.remaining_size() > 0 {
        match LengthInferredByteArray::deserialize(stream) {
            Ok(bytes) => bytes.0,
            Err(failure) => {
                return Err(ReceiveError::DeserializeError(failure));
            },
        }
    } else {
        let none: Vec<u8> = Vec::new();
        assert(none@ =~= start.window().skip(read.used as int));
        none
    };
    proof {
        if start.window().len() < i32::MAX {
            T::lemma_read_can_reply(start.window(), start.short(), packet);
        }
    }
    packet.receive(stream)?;
    Ok((packet, leftover))
}

/// A packet that arrived.
#[derive(Debug)]
pub enum Clientbound {
    LoginSuccess(LoginSuccess),
    PluginMessage(PluginMessage),
    FeatureFlags(FeatureFlags),
    KnownPacks(KnownPacks),
    FinishConfiguration(FinishConfiguration),
    RegistryData(RegistryData),
    UpdateTags(UpdateTags),
    Login(Login),
    ChangeDifficulty(ChangeDifficulty),
    PlayerAbilities(PlayerAbilities),
    SetHeldItem(SetHeldItem),
    UpdateRecipes(UpdateRecipes),
    EntityEvent(EntityEvent),
    SynchronizePlayerPosition(SynchronizePlayerPosition),
    Waypoint(Waypoint),
    UpdateEntityPosition(UpdateEntityPosition),
    UpdateEntityPositionRotation(UpdateEntityPositionRotation),
    PlayersInfoUpdate(PlayersInfoUpdate),
    AddEntity(AddEntity),
    KeepAlive(KeepAlive),
    TeleportEntity(TeleportEntity),
    SetEntityVelocity(SetEntityVelocity),
}

/// What a [`Clientbound`] stands for.
pub enum ClientboundValue {
    LoginSuccess(<LoginSuccess as DeepView>::V),
    PluginMessage(<PluginMessage as DeepView>::V),
    FeatureFlags(<FeatureFlags as DeepView>::V),
    KnownPacks(<KnownPacks as DeepView>::V),
    FinishConfiguration(<FinishConfiguration as DeepView>::V),
    RegistryData(<RegistryData as DeepView>::V),
    UpdateTags(<UpdateTags as DeepView>::V),
    Login(<Login as DeepView>::V),
    ChangeDifficulty(<ChangeDifficulty as DeepView>::V),
    PlayerAbilities(<PlayerAbilities as DeepView>::V),
    SetHeldItem(<SetHeldItem as DeepView>::V),
    UpdateRecipes(<UpdateRecipes as DeepView>::V),
    EntityEvent(<EntityEvent as DeepView>::V),
    SynchronizePlayerPosition(<SynchronizePlayerPosition as DeepView>::V),
    Waypoint(<Waypoint as DeepView>::V),
    UpdateEntityPosition(<UpdateEntityPosition as DeepView>::V),
    UpdateEntityPositionRotation(<UpdateEntityPositionRotation as DeepView>::V),
    PlayersInfoUpdate(<PlayersInfoUpdate as DeepView>::V),
    AddEntity(<AddEntity as DeepView>::V),
    KeepAlive(<KeepAlive as DeepView>::V),
    TeleportEntity(<TeleportEntity as DeepView>::V),
    SetEntityVelocity(<SetEntityVelocity as DeepView>::V),
}

impl DeepView for Clientbound {
    type V = ClientboundValue;

    open spec fn deep_view(&self) -> ClientboundValue {
        match self {
            Clientbound::LoginSuccess(packet) => ClientboundValue::LoginSuccess(packet.deep_view()),
            Clientbound::PluginMessage(packet) =>
                ClientboundValue::PluginMessage(packet.deep_view()),
            Clientbound::FeatureFlags(packet) => ClientboundValue::FeatureFlags(packet.deep_view()),
            Clientbound::KnownPacks(packet) => ClientboundValue::KnownPacks(packet.deep_view()),
            Clientbound::FinishConfiguration(packet) =>
                ClientboundValue::FinishConfiguration(packet.deep_view()),
            Clientbound::RegistryData(packet) => ClientboundValue::RegistryData(packet.deep_view()),
            Clientbound::UpdateTags(packet) => ClientboundValue::UpdateTags(packet.deep_view()),
            Clientbound::Login(packet) => ClientboundValue::Login(packet.deep_view()),
            Clientbound::ChangeDifficulty(packet) =>
                ClientboundValue::ChangeDifficulty(packet.deep_view()),
            Clientbound::PlayerAbilities(packet) =>
                ClientboundValue::PlayerAbilities(packet.deep_view()),
            Clientbound::SetHeldItem(packet) => ClientboundValue::SetHeldItem(packet.deep_view()),
            Clientbound::UpdateRecipes(packet) =>
                ClientboundValue::UpdateRecipes(packet.deep_view()),
            Clientbound::EntityEvent(packet) => ClientboundValue::EntityEvent(packet.deep_view()),
            Clientbound::SynchronizePlayerPosition(packet) =>
                ClientboundValue::SynchronizePlayerPosition(packet.deep_view()),
            Clientbound::Waypoint(packet) => ClientboundValue::Waypoint(packet.deep_view()),
            Clientbound::UpdateEntityPosition(packet) =>
                ClientboundValue::UpdateEntityPosition(packet.deep_view()),
            Clientbound::UpdateEntityPositionRotation(packet) =>
                ClientboundValue::UpdateEntityPositionRotation(packet.deep_view()),
            Clientbound::PlayersInfoUpdate(packet) =>
                ClientboundValue::PlayersInfoUpdate(packet.deep_view()),
            Clientbound::AddEntity(packet) => ClientboundValue::AddEntity(packet.deep_view()),
            Clientbound::KeepAlive(packet) => ClientboundValue::KeepAlive(packet.deep_view()),
            Clientbound::TeleportEntity(packet) =>
                ClientboundValue::TeleportEntity(packet.deep_view()),
            Clientbound::SetEntityVelocity(packet) =>
                ClientboundValue::SetEntityVelocity(packet.deep_view()),
        }
    }
}

impl Clientbound {
    /// The phase in which the packet arrives.
    pub open spec fn state(&self) -> ConnectionState {
        match self {
            Clientbound::LoginSuccess(_) => <LoginSuccess as ClientboundPacket>::STATE,
            Clientbound::PluginMessage(_) => <PluginMessage as ClientboundPacket>::STATE,
            Clientbound::FeatureFlags(_) => <FeatureFlags as ClientboundPacket>::STATE,
            Clientbound::KnownPacks(_) => <KnownPacks as ClientboundPacket>::STATE,
            Clientbound::FinishConfiguration(_) =>
                <FinishConfiguration as ClientboundPacket>::STATE,
            Clientbound::RegistryData(_) => <RegistryData as ClientboundPacket>::STATE,
            Clientbound::UpdateTags(_) => <UpdateTags as ClientboundPacket>::STATE,
            Clientbound::Login(_) => <Login as ClientboundPacket>::STATE,
            Clientbound::ChangeDifficulty(_) => <ChangeDifficulty as ClientboundPacket>::STATE,
            Clientbound::PlayerAbilities(_) => <PlayerAbilities as ClientboundPacket>::STATE,
            Clientbound::SetHeldItem(_) => <SetHeldItem as ClientboundPacket>::STATE,
            Clientbound::UpdateRecipes(_) => <UpdateRecipes as ClientboundPacket>::STATE,
            Clientbound::EntityEvent(_) => <EntityEvent as ClientboundPacket>::STATE,
            Clientbound::SynchronizePlayerPosition(_) =>
                <SynchronizePlayerPosition as ClientboundPacket>::STATE,
            Clientbound::Waypoint(_) => <Waypoint as ClientboundPacket>::STATE,
            Clientbound::UpdateEntityPosition(_) =>
                <UpdateEntityPosition as ClientboundPacket>::STATE,
            Clientbound::UpdateEntityPositionRotation(_) =>
                <UpdateEntityPositionRotation as ClientboundPacket>::STATE,
            Clientbound::PlayersInfoUpdate(_) => <PlayersInfoUpdate as ClientboundPacket>::STATE,
            Clientbound::AddEntity(_) => <AddEntity as ClientboundPacket>::STATE,
            Clientbound::KeepAlive(_) => <KeepAlive as ClientboundPacket>::STATE,
            Clientbound::TeleportEntity(_) => <TeleportEntity as ClientboundPacket>::STATE,
            Clientbound::SetEntityVelocity(_) => <SetEntityVelocity as ClientboundPacket>::STATE,
        }
    }

    /// The phase in which the connection is once the packet was taken in.
    pub open spec fn new_state(&self) -> ConnectionState {
        match self {
            Clientbound::LoginSuccess(_) => <LoginSuccess as ClientboundPacket>::NEW_STATE,
            Clientbound::PluginMessage(_) => <PluginMessage as ClientboundPacket>::NEW_STATE,
            Clientbound::FeatureFlags(_) => <FeatureFlags as ClientboundPacket>::NEW_STATE,
            Clientbound::KnownPacks(_) => <KnownPacks as ClientboundPacket>::NEW_STATE,
            Clientbound::FinishConfiguration(_) =>
                <FinishConfiguration as ClientboundPacket>::NEW_STATE,
            Clientbound::RegistryData(_) => <RegistryData as ClientboundPacket>::NEW_STATE,
            Clientbound::UpdateTags(_) => <UpdateTags as ClientboundPacket>::NEW_STATE,
            Clientbound::Login(_) => <Login as ClientboundPacket>::NEW_STATE,
            Clientbound::ChangeDifficulty(_) => <ChangeDifficulty as ClientboundPacket>::NEW_STATE,
            Clientbound::PlayerAbilities(_) => <PlayerAbilities as ClientboundPacket>::NEW_STATE,
            Clientbound::SetHeldItem(_) => <SetHeldItem as ClientboundPacket>::NEW_STATE,
            Clientbound::UpdateRecipes(_) => <UpdateRecipes as ClientboundPacket>::NEW_STATE,
            Clientbound::EntityEvent(_) => <EntityEvent as ClientboundPacket>::NEW_STATE,
            Clientbound::SynchronizePlayerPosition(_) =>
                <SynchronizePlayerPosition as ClientboundPacket>::NEW_STATE,
            Clientbound::Waypoint(_) => <Waypoint as ClientboundPacket>::NEW_STATE,
            Clientbound::UpdateEntityPosition(_) =>
                <UpdateEntityPosition as ClientboundPacket>::NEW_STATE,
            Clientbound::UpdateEntityPositionRotation(_) =>
                <UpdateEntityPositionRotation as ClientboundPacket>::NEW_STATE,
            Clientbound::PlayersInfoUpdate(_) =>
                <PlayersInfoUpdate as ClientboundPacket>::NEW_STATE,
            Clientbound::AddEntity(_) => <AddEntity as ClientboundPacket>::NEW_STATE,
            Clientbound::KeepAlive(_) => <KeepAlive as ClientboundPacket>::NEW_STATE,
            Clientbound::TeleportEntity(_) => <TeleportEntity as ClientboundPacket>::NEW_STATE,
            Clientbound::SetEntityVelocity(_) =>
                <SetEntityVelocity as ClientboundPacket>::NEW_STATE,
        }
    }

    /// The frame that went back when the packet arrived.
    pub open spec fn reply(&self) -> Seq<u8> {
        match self {
            Clientbound::LoginSuccess(packet) => packet.reply(),
            Clientbound::PluginMessage(packet) => packet.reply(),
            Clientbound::FeatureFlags(packet) => packet.reply(),
            Clientbound::KnownPacks(packet) => packet.reply(),
            Clientbound::FinishConfiguration(packet) => packet.reply(),
            Clientbound::RegistryData(packet) => packet.reply(),
            Clientbound::UpdateTags(packet) => packet.reply(),
            Clientbound::Login(packet) => packet.reply(),
            Clientbound::ChangeDifficulty(packet) => packet.reply(),
            Clientbound::PlayerAbilities(packet) => packet.reply(),
            Clientbound::SetHeldItem(packet) => packet.reply(),
            Clientbound::UpdateRecipes(packet) => packet.reply(),
            Clientbound::EntityEvent(packet) => packet.reply(),
            Clientbound::SynchronizePlayerPosition(packet) => packet.reply(),
            Clientbound::Waypoint(packet) => packet.reply(),
            Clientbound::UpdateEntityPosition(packet) => packet.reply(),
            Clientbound::UpdateEntityPositionRotation(packet) => packet.reply(),
            Clientbound::PlayersInfoUpdate(packet) => packet.reply(),
            Clientbound::AddEntity(packet) => packet.reply(),
            Clientbound::KeepAlive(packet) => packet.reply(),
            Clientbound::TeleportEntity(packet) => packet.reply(),
            Clientbound::SetEntityVelocity(packet) => packet.reply(),
        }
    }
}

/// A packet leaves the connection in its phase or moves it to a phase that
/// lies further along.
pub proof fn lemma_phases_go_forward(packet: Clientbound)
    ensures
        packet.new_state() == packet.state() || packet.new_state().rank()
            > packet.state().rank(),
{
}

/// A frame that was taken in: its packet, and the bytes of the frame that the
/// packet left unread. Bytes that are left tell that the fields of the packet
/// are not those that the server sent; the connection goes on.
#[derive(Debug)]
pub struct Received {
    pub packet: Clientbound,
    pub leftover: Vec<u8>,
}

/// What taking in a frame comes to: the number of bytes read, and the packet
/// with the bytes that it left, or the failure.
pub struct Dispatched {
    pub used: nat,
    pub result: Result<(ClientboundValue, Seq<u8>), ReceiveFailure>,
}

/// The packet of a frame, as the packet that arrived.
pub open spec fn dispatched<V>(
    payload: Outcome<(V, Seq<u8>)>,
    make: spec_fn(V) -> ClientboundValue,
) -> Dispatched {
    Dispatched {
        used: payload.used,
        result: match payload.result {
            Ok((value, leftover)) => Ok((make(value), leftover)),
            Err(failure) => Err(ReceiveFailure::Deserialize(failure)),
        },
    }
}

/// What is done with a frame whose number the phase does not know: the frame
/// is read to its end and the number reported.
pub open spec fn unknown_outcome(window: Seq<u8>, short: bool, id: u32) -> Dispatched {
    Dispatched {
        used: window.len(),
        result: Err(
            if short {
                ReceiveFailure::Deserialize(Failure::Io)
            } else {
                ReceiveFailure::UnknownPacketId(id)
            },
        ),
    }
}

/// What taking in the packet of number `id` gives in the phase `Login`.
#[verifier::opaque]
pub open spec fn login_outcome(window: Seq<u8>, short: bool, id: u32) -> Dispatched {
    if id == <LoginSuccess as ClientboundPacket>::ID {
        dispatched(
            payload_outcome::<LoginSuccess>(window, short),
            |v: <LoginSuccess as DeepView>::V| ClientboundValue::LoginSuccess(v),
        )
    } else {
        unknown_outcome(window, short, id)
    }
}

/// In the phase `Login`, whatever comes of a frame, its window is read to the
/// end, and no failure is the channel's where the channel holds the frame
/// whole.
pub proof fn lemma_login_consumed(window: Seq<u8>, short: bool, id: u32)
    ensures
        login_outcome(window, short, id).used == window.len(),
        !short ==> login_outcome(window, short, id).result != Err::<
            (ClientboundValue, Seq<u8>),
            ReceiveFailure,
        >(ReceiveFailure::Deserialize(Failure::Io)),
{
    reveal(login_outcome);
    reveal(payload_outcome);
}

/// What taking in the packet of number `id` gives in the phase `Configuration`.
#[verifier::opaque]
pub open spec fn configuration_outcome(window: Seq<u8>, short: bool, id: u32) -> Dispatched {
    if id == <PluginMessage as ClientboundPacket>::ID {
        dispatched(
            payload_outcome::<PluginMessage>(window, short),
            |v: <PluginMessage as DeepView>::V| ClientboundValue::PluginMessage(v),
        )
    } else if id == <FeatureFlags as ClientboundPacket>::ID {
        dispatched(
            payload_outcome::<FeatureFlags>(window, short),
            |v: <FeatureFlags as DeepView>::V| ClientboundValue::FeatureFlags(v),
        )
    } else if id == <KnownPacks as ClientboundPacket>::ID {
        dispatched(
            payload_outcome::<KnownPacks>(window, short),
            |v: <KnownPacks as DeepView>::V| ClientboundValue::KnownPacks(v),
        )
    } else if id == <FinishConfiguration as ClientboundPacket>::ID {
        dispatched(
            payload_outcome::<FinishConfiguration>(window, short),
            |v: <FinishConfiguration as DeepView>::V| ClientboundValue::FinishConfiguration(v),
        )
    } else if id == <RegistryData as ClientboundPacket>::ID {
        dispatched(
            payload_outcome::<RegistryData>(window, short),
            |v: <RegistryData as DeepView>::V| ClientboundValue::RegistryData(v),
        )
    } else if id == <UpdateTags as ClientboundPacket>::ID {
        dispatched(
            payload_outcome::<UpdateTags>(window, short),
            |v: <UpdateTags as DeepView>::V| ClientboundValue::UpdateTags(v),
        )
    } else {
        unknown_outcome(window, short, id)
    }
}

/// In the phase `Configuration`, whatever comes of a frame, its window is read to the
/// end, and no failure is the channel's where the channel holds the frame
/// whole.
pub proof fn lemma_configuration_consumed(window: Seq<u8>, short: bool, id: u32)
    ensures
        configuration_outcome(window, short, id).used == window.len(),
        !short ==> configuration_outcome(window, short, id).result != Err::<
            (ClientboundValue, Seq<u8>),
            ReceiveFailure,
        >(ReceiveFailure::Deserialize(Failure::Io)),
{
    reveal(configuration_outcome);
    reveal(payload_outcome);
}

/// What taking in the packet of number `id` gives in the phase `Play`.
#[verifier::opaque]
pub open spec fn play_outcome(window: Seq<u8>, short: bool, id: u32) -> Dispatched {
    if id == <Login as ClientboundPacket>::ID {
        dispatched(
            payload_outcome::<Login>(window, short),
            |v: <Login as DeepView>::V| ClientboundValue::Login(v),
        )
    } else if id == <ChangeDifficulty as ClientboundPacket>::ID {
        dispatched(
            payload_outcome::<ChangeDifficulty>(window, short),
            |v: <ChangeDifficulty as DeepView>::V| ClientboundValue::ChangeDifficulty(v),
        )
    } else if id == <PlayerAbilities as ClientboundPacket>::ID {
        dispatched(
            payload_outcome::<PlayerAbilities>(window, short),
            |v: <PlayerAbilities as DeepView>::V| ClientboundValue::PlayerAbilities(v),
        )
    } else if id == <SetHeldItem as ClientboundPacket>::ID {
        dispatched(
            payload_outcome::<SetHeldItem>(window, short),
            |v: <SetHeldItem as DeepView>::V| ClientboundValue::SetHeldItem(v),
        )
    } else if id == <UpdateRecipes as ClientboundPacket>::ID {
        dispatched(
            payload_outcome::<UpdateRecipes>(window, short),
            |v: <UpdateRecipes as DeepView>::V| ClientboundValue::UpdateRecipes(v),
        )
    } else {
        play_movement_outcome(window, short, id)
    }
}

/// In the phase `Play`, whatever comes of a frame, its window is read to the
/// end, and no failure is the channel's where the channel holds the frame
/// whole.
pub proof fn lemma_play_consumed(window: Seq<u8>, short: bool, id: u32)
    ensures
        play_outcome(window, short, id).used == window.len(),
        !short ==> play_outcome(window, short, id).result != Err::<
            (ClientboundValue, Seq<u8>),
            ReceiveFailure,
        >(ReceiveFailure::Deserialize(Failure::Io)),
{
    reveal(play_outcome);
    reveal(payload_outcome);
    lemma_play_movement_consumed(window, short, id);
}

/// What taking in the packet of number `id` gives in the phase `Play`, among
/// the packets on movement.
#[verifier::opaque]
pub open spec fn play_movement_outcome(window: Seq<u8>, short: bool, id: u32) -> Dispatched {
    if id == <EntityEvent as ClientboundPacket>::ID {
        dispatched(
            payload_outcome::<EntityEvent>(window, short),
            |v: <EntityEvent as DeepView>::V| ClientboundValue::EntityEvent(v),
        )
    } else if id == <SynchronizePlayerPosition as ClientboundPacket>::ID {
        dispatched(
            payload_outcome::<SynchronizePlayerPosition>(window, short),
            |v: <SynchronizePlayerPosition as DeepView>::V|
                ClientboundValue::SynchronizePlayerPosition(v),
        )
    } else if id == <Waypoint as ClientboundPacket>::ID {
        dispatched(
            payload_outcome::<Waypoint>(window, short),
            |v: <Waypoint as DeepView>::V| ClientboundValue::Waypoint(v),
        )
    } else if id == <UpdateEntityPosition as ClientboundPacket>::ID {
        dispatched(
            payload_outcome::<UpdateEntityPosition>(window, short),
            |v: <UpdateEntityPosition as DeepView>::V| ClientboundValue::UpdateEntityPosition(v),
        )
    } else if id == <UpdateEntityPositionRotation as ClientboundPacket>::ID {
        dispatched(
            payload_outcome::<UpdateEntityPositionRotation>(window, short),
            |v: <UpdateEntityPositionRotation as DeepView>::V|
                ClientboundValue::UpdateEntityPositionRotation(v),
        )
    } else {
        play_entities_outcome(window, short, id)
    }
}

/// In the phase `Play`, among the packets on movement, whatever comes of a
/// frame, its window is read to the end, and no failure is the channel's
/// where the channel holds the frame whole.
pub proof fn lemma_play_movement_consumed(window: Seq<u8>, short: bool, id: u32)
    ensures
        play_movement_outcome(window, short, id).used == window.len(),
        !short ==> play_movement_outcome(window, short, id).result != Err::<
            (ClientboundValue, Seq<u8>),
            ReceiveFailure,
        >(ReceiveFailure::Deserialize(Failure::Io)),
{
    reveal(play_movement_outcome);
    reveal(payload_outcome);
    lemma_play_entities_consumed(window, short, id);
}

/// What taking in the packet of number `id` gives in the phase `Play`, among
/// the packets on the entities.
#[verifier::opaque]
pub open spec fn play_entities_outcome(window: Seq<u8>, short: bool, id: u32) -> Dispatched {
    if id == <PlayersInfoUpdate as ClientboundPacket>::ID {
        dispatched(
            payload_outcome::<PlayersInfoUpdate>(window, short),
            |v: <PlayersInfoUpdate as DeepView>::V| ClientboundValue::PlayersInfoUpdate(v),
        )
    } else if id == <AddEntity as ClientboundPacket>::ID {
        dispatched(
            payload_outcome::<AddEntity>(window, short),
            |v: <AddEntity as DeepView>::V| ClientboundValue::AddEntity(v),
        )
    } else if id == <KeepAlive as ClientboundPacket>::ID {
        dispatched(
            payload_outcome::<KeepAlive>(window, short),
            |v: <KeepAlive as DeepView>::V| ClientboundValue::KeepAlive(v),
        )
    } else if id == <TeleportEntity as ClientboundPacket>::ID {
        dispatched(
            payload_outcome::<TeleportEntity>(window, short),
            |v: <TeleportEntity as DeepView>::V| ClientboundValue::TeleportEntity(v),
        )
    } else if id == <SetEntityVelocity as ClientboundPacket>::ID {
        dispatched(
            payload_outcome::<SetEntityVelocity>(window, short),
            |v: <SetEntityVelocity as DeepView>::V| ClientboundValue::SetEntityVelocity(v),
        )
    } else {
        unknown_outcome(window, short, id)
    }
}

/// In the phase `Play`, among the packets on the entities, whatever comes of a
/// frame, its window is read to the end, and no failure is the channel's
/// where the channel holds the frame whole.
pub proof fn lemma_play_entities_consumed(window: Seq<u8>, short: bool, id: u32)
    ensures
        play_entities_outcome(window, short, id).used == window.len(),
        !short ==> play_entities_outcome(window, short, id).result != Err::<
            (ClientboundValue, Seq<u8>),
            ReceiveFailure,
        >(ReceiveFailure::Deserialize(Failure::Io)),
{
    reveal(play_entities_outcome);
    reveal(payload_outcome);
}

/// What taking in the packet of number `id` gives in the phase `state`: each
/// phase has a table of its own.
#[verifier::opaque]
pub open spec fn dispatch_outcome(
    window: Seq<u8>,
    short: bool,
    state: ConnectionState,
    id: u32,
) -> Dispatched {
    match state {
        ConnectionState::Login => login_outcome(window, short, id),
        ConnectionState::Configuration => configuration_outcome(window, short, id),
        ConnectionState::Play => play_outcome(window, short, id),
        _ => unknown_outcome(window, short, id),
    }
}

/// The message of a frame whose length is not above zero.
pub open spec fn negative_size_message(size: i32) -> Seq<char> {
    number_message("Negative packet size (found "@, size as int, ")"@)
}

/// The window of a frame of `size` bytes in the bytes `body` that follow its
/// length: the frame, or what there is of it.
pub open spec fn frame_window(body: Seq<u8>, size: nat) -> Seq<u8> {
    if size <= body.len() {
        body.take(size as int)
    } else {
        body
    }
}

/// What taking in the next frame of a channel gives in the phase `state`:
/// the length of the frame, which must be above zero; within the frame the
/// number of the packet; and the packet that the number means in the phase.
/// A channel that ends within the length has failed. Once the length is
/// read, the frame is read to its end, or as far as the channel holds it.
pub open spec fn frame_outcome(unread: Seq<u8>, state: ConnectionState) -> Dispatched {
    let size = VarInt::parse(unread, true);
    match size.result {
        Err(failure) => Dispatched {
            used: size.used,
            result: Err(ReceiveFailure::Deserialize(failure)),
        },
        Ok(VarInt(n)) => if n <= 0 {
            Dispatched {
                used: size.used,
                result: Err(
                    ReceiveFailure::Deserialize(Failure::Malformed(negative_size_message(n))),
                ),
            }
        } else {
            let body = unread.skip(size.used as int);
            let window = frame_window(body, n as nat);
            let short = n > body.len();
            let id = VarInt::parse(window, short);
            match id.result {
                Err(failure) => Dispatched {
                    used: size.used + window.len(),
                    result: Err(ReceiveFailure::Deserialize(after_drain(failure, short))),
                },
                Ok(VarInt(k)) => {
                    let packet = dispatch_outcome(
                        window.skip(id.used as int),
                        short,
                        state,
                        bits32(k) as u32,
                    );
                    Dispatched { used: size.used + id.used + packet.used, result: packet.result }
                },
            }
        },
    }
}

/// What is still to be fetched before a frame can be taken in, told from the
/// bytes of its length that are there so far.
#[derive(Debug, Clone, Copy, PartialEq, Eq, Structural)]
pub enum FrameNeed {
    /// The length is not at its end: one more byte of it.
    More,
    /// The length is read: the payload of so many bytes.
    Payload(usize),
    /// The bytes are no length of a frame: nothing more. Taking in the frame
    /// reports what is wrong with them.
    Malformed,
}

/// Tells from the first bytes of a frame what is still to be fetched: more
/// of the length while its chain goes on, the payload once the length is
/// read and above zero, and nothing where the chain is too long or the
/// length is not above zero.
pub fn frame_need(prefix: &[u8]) -> (need: FrameNeed)
    ensures
        match var_scan(prefix@, 5) {
            VarScan::Truncated => need is More,
            VarScan::TooLong => need is Malformed,
            VarScan::Value { value, used } => if from_bits32(value) > 0 {
                need == FrameNeed::Payload(from_bits32(value) as usize)
            } else {
                need is Malformed
            },
        },
{
    let mut scratch = ByteChannel::new();
    scratch.feed(prefix);
    assert(scratch.unread() =~= prefix@);
    match VarInt::read(&mut scratch) {
        Ok(size) => if size > 0 {
            FrameNeed::Payload(size as usize)
        } else {
            FrameNeed::Malformed
        },
        Err(DeserializeError::Io(_)) => FrameNeed::More,
        Err(_) => FrameNeed::Malformed,
    }
}

/// Whether a call that went from phase `before` to phase `after`, wrote
/// `written` and returned `result` did what `expected` describes.
pub open spec fn took_in(
    before: ConnectionState,
    after: ConnectionState,
    written: Seq<u8>,
    result: Result<Received, ReceiveError>,
    expected: Dispatched,
) -> bool {
    match result {
        Ok(received) => {
            &&& expected.result == Ok::<(ClientboundValue, Seq<u8>), ReceiveFailure>(
                (received.packet.deep_view(), received.leftover@),
            )
            &&& received.packet.state() == before
            &&& after == received.packet.new_state()
            &&& written == received.packet.reply()
        },
        Err(error) => expected.result == Err::<(ClientboundValue, Seq<u8>), ReceiveFailure>(
            error@,
        ) && after == before && written == Seq::<u8>::empty(),
    }
}

/// Takes in the frames of a connection, one at a time, in the phase that the
/// connection is in.
#[derive(Debug)]
pub struct PacketReceiver {
    state: ConnectionState,
}

impl PacketReceiver {
    /// The phase that the connection is in.
    pub closed spec fn state(&self) -> ConnectionState {
        self.state
    }

    /// A receiver for a connection that has just been made.
    pub fn new() -> (receiver: Self)
        ensures
            receiver.state() == ConnectionState::Handshaking,
    {
        Self { state: ConnectionState::Handshaking }
    }

    /// Moves the connection to another phase. To set the phase that the
    /// connection is in already is an error of the program.
    pub fn set_state(&mut self, new_state: ConnectionState)
        requires
            new_state != old(self).state(),
        ensures
            final(self).state() == new_state,
    {
        self.state = new_state;
    }

    /// The phase that the connection is in.
    pub fn get_state(&self) -> (state: ConnectionState)
        ensures
            state == self.state(),
    {
        self.state
    }

    /// Takes in the next frame of the channel.
    pub fn receive_packet(&mut self, stream: &mut ByteChannel) -> (result: Result<
        Received,
        ReceiveError,
    >)
        ensures
            ({
                let expected = frame_outcome(old(stream).unread(), old(self).state());
                &&& expected.used <= old(stream).unread().len()
                &&& final(stream).unread() == old(stream).unread().skip(expected.used as int)
                &&& exists|written: Seq<u8>|
                    final(stream).written() == old(stream).written() + written
                        && #[trigger] took_in(
                        old(self).state(),
                        final(self).state(),
                        written,
                        result,
                        expected,
                    )
            }),
    {
        let ghost unread = stream.unread();
        let ghost before = stream.written();
        assert(before + Seq::<u8>::empty() =~= before);
        let ghost size_ = VarInt::parse(unread, true);
        let size = match VarInt::read(stream) {
            Ok(size) => size,
            Err(error) => {
                assert(took_in(
                    self.state(),
                    self.state(),
                    Seq::<u8>::empty(),
                    Err(ReceiveError::DeserializeError(error)),
                    frame_outcome(unread, self.state()),
                ));
                return Err(ReceiveError::DeserializeError(error));
            },
        };
        if size <= 0 {
            let error = malformed_with_number("Negative packet size (found ", size as i64, ")");
            assert(took_in(
                self.state(),
                self.state(),
                Seq::<u8>::empty(),
                Err(ReceiveError::DeserializeError(error)),
                frame_outcome(unread, self.state()),
            ));
            return Err(ReceiveError::DeserializeError(error));
        }
        let size = size as usize;
        let mut owned = ByteChannel::new();
        core::mem::swap(stream, &mut owned);
        let mut frame = DataStream::new(owned, size);
        let ghost start = frame@;
        let ghost body = unread.skip(size_.used as int);
        let ghost window = frame_window(body, size as nat);
        let ghost short = size > body.len();
        assert(start.window() =~= window);
        let ghost id_ = VarInt::parse(window, short);
        let ghost expected = frame_outcome(unread, self.state());
        let ghost phase = self.state();
        let ghost mut written = Seq::<u8>::empty();
        let result = match VarInt::deserialize(&mut frame) {
            Ok(id) => {
                proof {
                    lemma_advance_window(start, id_.used);
                    lemma_var_scan_bounds(window, 5);
                }
                let number: u32 = if id.0 >= 0 {
                    id.0 as u32
                } else {
                    (id.0 as i64 + 0x1_0000_0000) as u32
                };
                let ghost inner = frame@;
                let result = self.receive_packet_(&mut frame, number);
                proof {
                    let packet = dispatch_outcome(
                        window.skip(id_.used as int),
                        short,
                        phase,
                        number,
                    );
                    assert(expected.result == packet.result);
                    assert(expected.used == size_.used + id_.used + packet.used);
                    written = choose|written: Seq<u8>|
                        frame@.written == inner.written + written && #[trigger] took_in(
                            phase,
                            self.state(),
                            written,
                            result,
                            packet,
                        );
                    assert(took_in(phase, self.state(), written, result, expected));
                    assert(body.skip(id_.used as int).skip(packet.used as int) =~= body.skip(
                        (id_.used + packet.used) as int,
                    ));
                }
                result
            },
            Err(error) => {
                proof {
                    lemma_advance_window(start, id_.used);
                    lemma_advance_twice(start, id_.used, (window.len() - id_.used) as nat);
                }
                let error = drain(&mut frame, error);
                assert(took_in(
                    phase,
                    phase,
                    Seq::<u8>::empty(),
                    Err(ReceiveError::DeserializeError(error)),
                    expected,
                ));
                Err(ReceiveError::DeserializeError(error))
            },
        };
        let mut back = frame.into_inner();
        core::mem::swap(stream, &mut back);
        proof {
            assert(unread.skip(size_.used as int).skip((expected.used - size_.used) as int)
                =~= unread.skip(expected.used as int));
            assert(took_in(old(self).state(), self.state(), written, result, expected));
        }
        result
    }

    /// Takes in the packet of number `id` from the window of its frame.
    fn receive_packet_(&mut self, stream: &mut DataStream, id: u32) -> (result: Result<
        Received,
        ReceiveError,
    >)
        requires
            old(stream)@.window().len() < i32::MAX,
        ensures
            ({
                let expected = dispatch_outcome(
                    old(stream)@.window(),
                    old(stream)@.short(),
                    old(self).state(),
                    id,
                );
                &&& expected.used <= old(stream)@.window().len()
                &&& final(stream)@.unread == old(stream)@.unread.skip(expected.used as int)
                &&& final(stream)@.remaining == old(stream)@.remaining - expected.used
                &&& exists|written: Seq<u8>|
                    final(stream)@.written == old(stream)@.written + written && #[trigger] took_in(
                        old(self).state(),
                        final(self).state(),
                        written,
                        result,
                        expected,
                    )
            }),
    {
        reveal(dispatch_outcome);
        match self.state {
            ConnectionState::Login => self.receive_login(stream, id),
            ConnectionState::Configuration => self.receive_configuration(stream, id),
            ConnectionState::Play => self.receive_play(stream, id),
            _ => self.skip_unknown(stream, id),
        }
    }

    /// Reads a frame of an unknown number to its end.
    fn skip_unknown(&self, stream: &mut DataStream, id: u32) -> (result: Result<
        Received,
        ReceiveError,
    >)
        ensures
            ({
                let expected = unknown_outcome(old(stream)@.window(), old(stream)@.short(), id);
                &&& final(stream)@.unread == old(stream)@.unread.skip(expected.used as int)
                &&& final(stream)@.remaining == old(stream)@.remaining - expected.used
                &&& final(stream)@.written == old(stream)@.written
                &&& took_in(self.state(), self.state(), Seq::<u8>::empty(), result, expected)
            }),
    {
        match LengthInferredByteArray::deserialize(stream) {
            Ok(_) => Err(ReceiveError::UnknownPacketId(id)),
            Err(error) => Err(ReceiveError::DeserializeError(error)),
        }
    }

    /// Takes in the packet of number `id` in the phase `Login`.
    fn receive_login(&mut self, stream: &mut DataStream, id: u32) -> (result: Result<
        Received,
        ReceiveError,
    >)
        requires
            old(self).state() == ConnectionState::Login,
            old(stream)@.window().len() < i32::MAX,
        ensures
            ({
                let expected = login_outcome(old(stream)@.window(), old(stream)@.short(), id);
                &&& expected.used <= old(stream)@.window().len()
                &&& final(stream)@.unread == old(stream)@.unread.skip(expected.used as int)
                &&& final(stream)@.remaining == old(stream)@.remaining - expected.used
                &&& exists|written: Seq<u8>|
                    final(stream)@.written == old(stream)@.written + written && #[trigger] took_in(
                        old(self).state(),
                        final(self).state(),
                        written,
                        result,
                        expected,
                    )
            }),
    {
        reveal(login_outcome);
        let ghost before = stream@.written;
        let ghost phase = self.state();
        let ghost expected = login_outcome(stream@.window(), stream@.short(), id);
        assert(before + Seq::<u8>::empty() =~= before);
        if id == <LoginSuccess as ClientboundPacket>::ID {
            match receive_::<LoginSuccess>(stream) {
                Ok((packet, leftover)) => {
                    self.set_state(ConnectionState::Configuration);
                    let received = Received { packet: Clientbound::LoginSuccess(packet), leftover };
                    assert(took_in(phase, self.state(), packet.reply(), Ok(received), expected));
                    Ok(received)
                },
                Err(error) => {
                    assert(took_in(phase, phase, Seq::<u8>::empty(), Err(error), expected));
                    Err(error)
                },
            }
        } else {
            self.skip_unknown(stream, id)
        }
    }

    /// Takes in the packet of number `id` in the phase `Configuration`.
    fn receive_configuration(&mut self, stream: &mut DataStream, id: u32) -> (result: Result<
        Received,
        ReceiveError,
    >)
        requires
            old(self).state() == ConnectionState::Configuration,
            old(stream)@.window().len() < i32::MAX,
        ensures
            ({
                let expected = configuration_outcome(
                    old(stream)@.window(),
                    old(stream)@.short(),
                    id,
                );
                &&& expected.used <= old(stream)@.window().len()
                &&& final(stream)@.unread == old(stream)@.unread.skip(expected.used as int)
                &&& final(stream)@.remaining == old(stream)@.remaining - expected.used
                &&& exists|written: Seq<u8>|
                    final(stream)@.written == old(stream)@.written + written && #[trigger] took_in(
                        old(self).state(),
                        final(self).state(),
                        written,
                        result,
                        expected,
                    )
            }),
    {
        reveal(configuration_outcome);
        let ghost before = stream@.written;
        let ghost phase = self.state();
        let ghost expected = configuration_outcome(stream@.window(), stream@.short(), id);
        assert(before + Seq::<u8>::empty() =~= before);
        if id == <PluginMessage as ClientboundPacket>::ID {
            match receive_::<PluginMessage>(stream) {
                Ok((packet, leftover)) => {
                    let received = Received {
                        packet: Clientbound::PluginMessage(packet),
                        leftover,
                    };
                    assert(took_in(phase, self.state(), packet.reply(), Ok(received), expected));
                    Ok(received)
                },
                Err(error) => {
                    assert(took_in(phase, phase, Seq::<u8>::empty(), Err(error), expected));
                    Err(error)
                },
            }
        } else if id == <FeatureFlags as ClientboundPacket>::ID {
            match receive_::<FeatureFlags>(stream) {
                Ok((packet, leftover)) => {
                    let received = Received { packet: Clientbound::FeatureFlags(packet), leftover };
                    assert(took_in(phase, self.state(), packet.reply(), Ok(received), expected));
                    Ok(received)
                },
                Err(error) => {
                    assert(took_in(phase, phase, Seq::<u8>::empty(), Err(error), expected));
                    Err(error)
                },
            }
        } else if id == <KnownPacks as ClientboundPacket>::ID {
            match receive_::<KnownPacks>(stream) {
                Ok((packet, leftover)) => {
                    let received = Received { packet: Clientbound::KnownPacks(packet), leftover };
                    assert(took_in(phase, self.state(), packet.reply(), Ok(received), expected));
                    Ok(received)
                },
                Err(error) => {
                    assert(took_in(phase, phase, Seq::<u8>::empty(), Err(error), expected));
                    Err(error)
                },
            }
        } else if id == <FinishConfiguration as ClientboundPacket>::ID {
            match receive_::<FinishConfiguration>(stream) {
                Ok((packet, leftover)) => {
                    self.set_state(ConnectionState::Play);
                    let received = Received {
                        packet: Clientbound::FinishConfiguration(packet),
                        leftover,
                    };
                    assert(took_in(phase, self.state(), packet.reply(), Ok(received), expected));
                    Ok(received)
                },
                Err(error) => {
                    assert(took_in(phase, phase, Seq::<u8>::empty(), Err(error), expected));
                    Err(error)
                },
            }
        } else if id == <RegistryData as ClientboundPacket>::ID {
            match receive_::<RegistryData>(stream) {
                Ok((packet, leftover)) => {
                    let received = Received { packet: Clientbound::RegistryData(packet), leftover };
                    assert(took_in(phase, self.state(), packet.reply(), Ok(received), expected));
                    Ok(received)
                },
                Err(error) => {
                    assert(took_in(phase, phase, Seq::<u8>::empty(), Err(error), expected));
                    Err(error)
                },
            }
        } else if id == <UpdateTags as ClientboundPacket>::ID {
            match receive_::<UpdateTags>(stream) {
                Ok((packet, leftover)) => {
                    let received = Received { packet: Clientbound::UpdateTags(packet), leftover };
                    assert(took_in(phase, self.state(), packet.reply(), Ok(received), expected));
                    Ok(received)
                },
                Err(error) => {
                    assert(took_in(phase, phase, Seq::<u8>::empty(), Err(error), expected));
                    Err(error)
                },
            }
        } else {
            self.skip_unknown(stream, id)
        }
    }

    /// Takes in the packet of number `id` in the phase `Play`.
    fn receive_play(&mut self, stream: &mut DataStream, id: u32) -> (result: Result<
        Received,
        ReceiveError,
    >)
        requires
            old(self).state() == ConnectionState::Play,
            old(stream)@.window().len() < i32::MAX,
        ensures
            ({
                let expected = play_outcome(old(stream)@.window(), old(stream)@.short(), id);
                &&& expected.used <= old(stream)@.window().len()
                &&& final(stream)@.unread == old(stream)@.unread.skip(expected.used as int)
                &&& final(stream)@.remaining == old(stream)@.remaining - expected.used
                &&& exists|written: Seq<u8>|
                    final(stream)@.written == old(stream)@.written + written && #[trigger] took_in(
                        old(self).state(),
                        final(self).state(),
                        written,
                        result,
                        expected,
                    )
            }),
    {
        reveal(play_outcome);
        let ghost before = stream@.written;
        let ghost phase = self.state();
        let ghost expected = play_outcome(stream@.window(), stream@.short(), id);
        assert(before + Seq::<u8>::empty() =~= before);
        if id == <Login as ClientboundPacket>::ID {
            match receive_::<Login>(stream) {
                Ok((packet, leftover)) => {
                    let received = Received { packet: Clientbound::Login(packet), leftover };
                    assert(took_in(phase, self.state(), packet.reply(), Ok(received), expected));
                    Ok(received)
                },
                Err(error) => {
                    assert(took_in(phase, phase, Seq::<u8>::empty(), Err(error), expected));
                    Err(error)
                },
            }
        } else if id == <ChangeDifficulty as ClientboundPacket>::ID {
            match receive_::<ChangeDifficulty>(stream) {
                Ok((packet, leftover)) => {
                    let received = Received {
                        packet: Clientbound::ChangeDifficulty(packet),
                        leftover,
                    };
                    assert(took_in(phase, self.state(), packet.reply(), Ok(received), expected));
                    Ok(received)
                },
                Err(error) => {
                    assert(took_in(phase, phase, Seq::<u8>::empty(), Err(error), expected));
                    Err(error)
                },
            }
        } else if id == <PlayerAbilities as ClientboundPacket>::ID {
            match receive_::<PlayerAbilities>(stream) {
                Ok((packet, leftover)) => {
                    let received = Received {
                        packet: Clientbound::PlayerAbilities(packet),
                        leftover,
                    };
                    assert(took_in(phase, self.state(), packet.reply(), Ok(received), expected));
                    Ok(received)
                },
                Err(error) => {
                    assert(took_in(phase, phase, Seq::<u8>::empty(), Err(error), expected));
                    Err(error)
                },
            }
        } else if id == <SetHeldItem as ClientboundPacket>::ID {
            match receive_::<SetHeldItem>(stream) {
                Ok((packet, leftover)) => {
                    let received = Received { packet: Clientbound::SetHeldItem(packet), leftover };
                    assert(took_in(phase, self.state(), packet.reply(), Ok(received), expected));
                    Ok(received)
                },
                Err(error) => {
                    assert(took_in(phase, phase, Seq::<u8>::empty(), Err(error), expected));
                    Err(error)
                },
            }
        } else if id == <UpdateRecipes as ClientboundPacket>::ID {
            match receive_::<UpdateRecipes>(stream) {
                Ok((packet, leftover)) => {
                    let received = Received {
                        packet: Clientbound::UpdateRecipes(packet),
                        leftover,
                    };
                    assert(took_in(phase, self.state(), packet.reply(), Ok(received), expected));
                    Ok(received)
                },
                Err(error) => {
                    assert(took_in(phase, phase, Seq::<u8>::empty(), Err(error), expected));
                    Err(error)
                },
            }
        } else {
            self.receive_play_movement(stream, id)
        }
    }

    /// Takes in the packet of number `id` in the phase `Play`, among the
    /// packets on movement.
    fn receive_play_movement(&mut self, stream: &mut DataStream, id: u32) -> (result: Result<
        Received,
        ReceiveError,
    >)
        requires
            old(self).state() == ConnectionState::Play,
            old(stream)@.window().len() < i32::MAX,
        ensures
            ({
                let expected = play_movement_outcome(
                    old(stream)@.window(),
                    old(stream)@.short(),
                    id,
                );
                &&& expected.used <= old(stream)@.window().len()
                &&& final(stream)@.unread == old(stream)@.unread.skip(expected.used as int)
                &&& final(stream)@.remaining == old(stream)@.remaining - expected.used
                &&& exists|written: Seq<u8>|
                    final(stream)@.written == old(stream)@.written + written && #[trigger] took_in(
                        old(self).state(),
                        final(self).state(),
                        written,
                        result,
                        expected,
                    )
            }),
    {
        reveal(play_movement_outcome);
        let ghost before = stream@.written;
        let ghost phase = self.state();
        let ghost expected = play_movement_outcome(stream@.window(), stream@.short(), id);
        assert(before + Seq::<u8>::empty() =~= before);
        if id == <EntityEvent as ClientboundPacket>::ID {
            match receive_::<EntityEvent>(stream) {
                Ok((packet, leftover)) => {
                    let received = Received { packet: Clientbound::EntityEvent(packet), leftover };
                    assert(took_in(phase, self.state(), packet.reply(), Ok(received), expected));
                    Ok(received)
                },
                Err(error) => {
                    assert(took_in(phase, phase, Seq::<u8>::empty(), Err(error), expected));
                    Err(error)
                },
            }
        } else if id == <SynchronizePlayerPosition as ClientboundPacket>::ID {
            match receive_::<SynchronizePlayerPosition>(stream) {
                Ok((packet, leftover)) => {
                    let received = Received {
                        packet: Clientbound::SynchronizePlayerPosition(packet),
                        leftover,
                    };
                    assert(took_in(phase, self.state(), packet.reply(), Ok(received), expected));
                    Ok(received)
                },
                Err(error) => {
                    assert(took_in(phase, phase, Seq::<u8>::empty(), Err(error), expected));
                    Err(error)
                },
            }
        } else if id == <Waypoint as ClientboundPacket>::ID {
            match receive_::<Waypoint>(stream) {
                Ok((packet, leftover)) => {
                    let received = Received { packet: Clientbound::Waypoint(packet), leftover };
                    assert(took_in(phase, self.state(), packet.reply(), Ok(received), expected));
                    Ok(received)
                },
                Err(error) => {
                    assert(took_in(phase, phase, Seq::<u8>::empty(), Err(error), expected));
                    Err(error)
                },
            }
        } else if id == <UpdateEntityPosition as ClientboundPacket>::ID {
            match receive_::<UpdateEntityPosition>(stream) {
                Ok((packet, leftover)) => {
                    let received = Received {
                        packet: Clientbound::UpdateEntityPosition(packet),
                        leftover,
                    };
                    assert(took_in(phase, self.state(), packet.reply(), Ok(received), expected));
                    Ok(received)
                },
                Err(error) => {
                    assert(took_in(phase, phase, Seq::<u8>::empty(), Err(error), expected));
                    Err(error)
                },
            }
        } else if id == <UpdateEntityPositionRotation as ClientboundPacket>::ID {
            match receive_::<UpdateEntityPositionRotation>(stream) {
                Ok((packet, leftover)) => {
                    let received = Received {
                        packet: Clientbound::UpdateEntityPositionRotation(packet),
                        leftover,
                    };
                    assert(took_in(phase, self.state(), packet.reply(), Ok(received), expected));
                    Ok(received)
                },
                Err(error) => {
                    assert(took_in(phase, phase, Seq::<u8>::empty(), Err(error), expected));
                    Err(error)
                },
            }
        } else {
            self.receive_play_entities(stream, id)
        }
    }

    /// Takes in the packet of number `id` in the phase `Play`, among the
    /// packets on the entities.
    fn receive_play_entities(&mut self, stream: &mut DataStream, id: u32) -> (result: Result<
        Received,
        ReceiveError,
    >)
        requires
            old(self).state() == ConnectionState::Play,
            old(stream)@.window().len() < i32::MAX,
        ensures
            ({
                let expected = play_entities_outcome(
                    old(stream)@.window(),
                    old(stream)@.short(),
                    id,
                );
                &&& expected.used <= old(stream)@.window().len()
                &&& final(stream)@.unread == old(stream)@.unread.skip(expected.used as int)
                &&& final(stream)@.remaining == old(stream)@.remaining - expected.used
                &&& exists|written: Seq<u8>|
                    final(stream)@.written == old(stream)@.written + written && #[trigger] took_in(
                        old(self).state(),
                        final(self).state(),
                        written,
                        result,
                        expected,
                    )
            }),
    {
        reveal(play_entities_outcome);
        let ghost before = stream@.written;
        let ghost phase = self.state();
        let ghost expected = play_entities_outcome(stream@.window(), stream@.short(), id);
        assert(before + Seq::<u8>::empty() =~= before);
        if id == <PlayersInfoUpdate as ClientboundPacket>::ID {
            match receive_::<PlayersInfoUpdate>(stream) {
                Ok((packet, leftover)) => {
                    let received = Received {
                        packet: Clientbound::PlayersInfoUpdate(packet),
                        leftover,
                    };
                    assert(took_in(phase, self.state(), packet.reply(), Ok(received), expected));
                    Ok(received)
                },
                Err(error) => {
                    assert(took_in(phase, phase, Seq::<u8>::empty(), Err(error), expected));
                    Err(error)
                },
            }
        } else if id == <AddEntity as ClientboundPacket>::ID {
            match receive_::<AddEntity>(stream) {
                Ok((packet, leftover)) => {
                    let received = Received { packet: Clientbound::AddEntity(packet), leftover };
                    assert(took_in(phase, self.state(), packet.reply(), Ok(received), expected));
                    Ok(received)
                },
                Err(error) => {
                    assert(took_in(phase, phase, Seq::<u8>::empty(), Err(error), expected));
                    Err(error)
                },
            }
        } else if id == <KeepAlive as ClientboundPacket>::ID {
            match receive_::<KeepAlive>(stream) {
                Ok((packet, leftover)) => {
                    let received = Received { packet: Clientbound::KeepAlive(packet), leftover };
                    assert(took_in(phase, self.state(), packet.reply(), Ok(received), expected));
                    Ok(received)
                },
                Err(error) => {
                    assert(took_in(phase, phase, Seq::<u8>::empty(), Err(error), expected));
                    Err(error)
                },
            }
        } else if id == <TeleportEntity as ClientboundPacket>::ID {
            match receive_::<TeleportEntity>(stream) {
                Ok((packet, leftover)) => {
                    let received = Received {
                        packet: Clientbound::TeleportEntity(packet),
                        leftover,
                    };
                    assert(took_in(phase, self.state(), packet.reply(), Ok(received), expected));
                    Ok(received)
                },
                Err(error) => {
                    assert(took_in(phase, phase, Seq::<u8>::empty(), Err(error), expected));
                    Err(error)
                },
            }
        } else if id == <SetEntityVelocity as ClientboundPacket>::ID {
            match receive_::<SetEntityVelocity>(stream) {
                Ok((packet, leftover)) => {
                    let received = Received {
                        packet: Clientbound::SetEntityVelocity(packet),
                        leftover,
                    };
                    assert(took_in(phase, self.state(), packet.reply(), Ok(received), expected));
                    Ok(received)
                },
                Err(error) => {
                    assert(took_in(phase, phase, Seq::<u8>::empty(), Err(error), expected));
                    Err(error)
                },
            }
        } else {
            self.skip_unknown(stream, id)
        }
    }

}

/// The table of the packets that arrive: for each its number, the phase in
/// which the number means the packet, and the phase in which the connection
/// is once the packet was taken in.
pub proof fn lemma_clientbound_table()
    ensures
        <LoginSuccess as ClientboundPacket>::ID == 2,
        <LoginSuccess as ClientboundPacket>::STATE == ConnectionState::Login,
        <LoginSuccess as ClientboundPacket>::NEW_STATE == ConnectionState::Configuration,
        <PluginMessage as ClientboundPacket>::ID == 1,
        <PluginMessage as ClientboundPacket>::STATE == ConnectionState::Configuration,
        <PluginMessage as ClientboundPacket>::NEW_STATE == ConnectionState::Configuration,
        <FeatureFlags as ClientboundPacket>::ID == 0x0C,
        <FeatureFlags as ClientboundPacket>::STATE == ConnectionState::Configuration,
        <FeatureFlags as ClientboundPacket>::NEW_STATE == ConnectionState::Configuration,
        <KnownPacks as ClientboundPacket>::ID == 0x0E,
        <KnownPacks as ClientboundPacket>::STATE == ConnectionState::Configuration,
        <KnownPacks as ClientboundPacket>::NEW_STATE == ConnectionState::Configuration,
        <FinishConfiguration as ClientboundPacket>::ID == 3,
        <FinishConfiguration as ClientboundPacket>::STATE == ConnectionState::Configuration,
        <FinishConfiguration as ClientboundPacket>::NEW_STATE == ConnectionState::Play,
        <RegistryData as ClientboundPacket>::ID == 7,
        <RegistryData as ClientboundPacket>::STATE == ConnectionState::Configuration,
        <RegistryData as ClientboundPacket>::NEW_STATE == ConnectionState::Configuration,
        <UpdateTags as ClientboundPacket>::ID == 0x0D,
        <UpdateTags as ClientboundPacket>::STATE == ConnectionState::Configuration,
        <UpdateTags as ClientboundPacket>::NEW_STATE == ConnectionState::Configuration,
        <Login as ClientboundPacket>::ID == 0x2B,
        <Login as ClientboundPacket>::STATE == ConnectionState::Play,
        <Login as ClientboundPacket>::NEW_STATE == ConnectionState::Play,
        <ChangeDifficulty as ClientboundPacket>::ID == 0xA,
        <ChangeDifficulty as ClientboundPacket>::STATE == ConnectionState::Play,
        <ChangeDifficulty as ClientboundPacket>::NEW_STATE == ConnectionState::Play,
        <PlayerAbilities as ClientboundPacket>::ID == 0x39,
        <PlayerAbilities as ClientboundPacket>::STATE == ConnectionState::Play,
        <PlayerAbilities as ClientboundPacket>::NEW_STATE == ConnectionState::Play,
        <SetHeldItem as ClientboundPacket>::ID == 0x62,
        <SetHeldItem as ClientboundPacket>::STATE == ConnectionState::Play,
        <SetHeldItem as ClientboundPacket>::NEW_STATE == ConnectionState::Play,
        <UpdateRecipes as ClientboundPacket>::ID == 0x7E,
        <UpdateRecipes as ClientboundPacket>::STATE == ConnectionState::Play,
        <UpdateRecipes as ClientboundPacket>::NEW_STATE == ConnectionState::Play,
        <EntityEvent as ClientboundPacket>::ID == 0x1E,
        <EntityEvent as ClientboundPacket>::STATE == ConnectionState::Play,
        <EntityEvent as ClientboundPacket>::NEW_STATE == ConnectionState::Play,
        <SynchronizePlayerPosition as ClientboundPacket>::ID == 0x41,
        <SynchronizePlayerPosition as ClientboundPacket>::STATE == ConnectionState::Play,
        <SynchronizePlayerPosition as ClientboundPacket>::NEW_STATE == ConnectionState::Play,
        <Waypoint as ClientboundPacket>::ID == 0x83,
        <Waypoint as ClientboundPacket>::STATE == ConnectionState::Play,
        <Waypoint as ClientboundPacket>::NEW_STATE == ConnectionState::Play,
        <UpdateEntityPosition as ClientboundPacket>::ID == 0x2E,
        <UpdateEntityPosition as ClientboundPacket>::STATE == ConnectionState::Play,
        <UpdateEntityPosition as ClientboundPacket>::NEW_STATE == ConnectionState::Play,
        <UpdateEntityPositionRotation as ClientboundPacket>::ID == 0x2F,
        <UpdateEntityPositionRotation as ClientboundPacket>::STATE == ConnectionState::Play,
        <UpdateEntityPositionRotation as ClientboundPacket>::NEW_STATE == ConnectionState::Play,
        <PlayersInfoUpdate as ClientboundPacket>::ID == 0x3F,
        <PlayersInfoUpdate as ClientboundPacket>::STATE == ConnectionState::Play,
        <PlayersInfoUpdate as ClientboundPacket>::NEW_STATE == ConnectionState::Play,
        <AddEntity as ClientboundPacket>::ID == 0x1,
        <AddEntity as ClientboundPacket>::STATE == ConnectionState::Play,
        <AddEntity as ClientboundPacket>::NEW_STATE == ConnectionState::Play,
        <KeepAlive as ClientboundPacket>::ID == 0x26,
        <KeepAlive as ClientboundPacket>::STATE == ConnectionState::Play,
        <KeepAlive as ClientboundPacket>::NEW_STATE == ConnectionState::Play,
        <TeleportEntity as ClientboundPacket>::ID == 0x1F,
        <TeleportEntity as ClientboundPacket>::STATE == ConnectionState::Play,
        <TeleportEntity as ClientboundPacket>::NEW_STATE == ConnectionState::Play,
        <SetEntityVelocity as ClientboundPacket>::ID == 0x5E,
        <SetEntityVelocity as ClientboundPacket>::STATE == ConnectionState::Play,
        <SetEntityVelocity as ClientboundPacket>::NEW_STATE == ConnectionState::Play,
        <ChunkDataWithLight as ClientboundPacket>::ID == 0x27,
        <ChunkDataWithLight as ClientboundPacket>::STATE == ConnectionState::Play,
        <ChunkDataWithLight as ClientboundPacket>::NEW_STATE == ConnectionState::Play,
{
}

/// Whether a packet of number `id` can be taken in in the phase `state`.
pub open spec fn known(state: ConnectionState, id: u32) -> bool {
    match state {
        ConnectionState::Login => id == 2,
        ConnectionState::Configuration => id == 1 || id == 0x0C || id == 0x0E || id == 3 || id == 7
            || id == 0x0D,
        ConnectionState::Play => id == 0x2B || id == 0xA || id == 0x39 || id == 0x62 || id == 0x7E
            || id == 0x1E || id == 0x41 || id == 0x83 || id == 0x2E || id == 0x2F || id == 0x3F
            || id == 0x1 || id == 0x26 || id == 0x1F || id == 0x5E,
        _ => false,
    }
}

/// A number that the phase has no packet for is unknown: the frame is read
/// to its end and the number reported. So a number of one phase means
/// nothing in another that does not know it, and no phase but the three that
/// take in packets knows any.
pub proof fn lemma_unknown_number(window: Seq<u8>, short: bool, state: ConnectionState, id: u32)
    requires
        !known(state, id),
    ensures
        dispatch_outcome(window, short, state, id) == unknown_outcome(window, short, id),
{
    reveal(dispatch_outcome);
    reveal(login_outcome);
    reveal(configuration_outcome);
    reveal(play_outcome);
    reveal(play_movement_outcome);
    reveal(play_entities_outcome);
}

/// Once the length of a frame is read and is above zero, every outcome
/// leaves the channel at the end of the frame, or at its own end where it
/// does not hold the whole frame: the next frame is read from its first byte,
/// whether the packet was known or not, could be read or not, and left bytes
/// behind or not. Of a frame that the channel holds whole, no failure is the
/// channel's: whatever is wrong with the frame, the connection can go on.
pub proof fn lemma_frame_is_consumed(unread: Seq<u8>, state: ConnectionState)
    requires
        VarInt::parse(unread, true).result is Ok,
        VarInt::parse(unread, true).result->Ok_0.0 > 0,
    ensures
        frame_outcome(unread, state).used == VarInt::parse(unread, true).used + frame_window(
            unread.skip(VarInt::parse(unread, true).used as int),
            VarInt::parse(unread, true).result->Ok_0.0 as nat,
        ).len(),
        VarInt::parse(unread, true).used + VarInt::parse(unread, true).result->Ok_0.0
            <= unread.len() ==> frame_outcome(unread, state).used == VarInt::parse(
            unread,
            true,
        ).used + VarInt::parse(unread, true).result->Ok_0.0 && frame_outcome(
            unread,
            state,
        ).result != Err::<(ClientboundValue, Seq<u8>), ReceiveFailure>(
            ReceiveFailure::Deserialize(Failure::Io),
        ),
{
    let size = VarInt::parse(unread, true);
    let n = size.result->Ok_0.0;
    let body = unread.skip(size.used as int);
    let window = frame_window(body, n as nat);
    let short = n > body.len();
    let id = VarInt::parse(window, short);
    lemma_var_scan_bounds(unread, 5);
    lemma_var_scan_bounds(window, 5);
    if id.result is Ok {
        let number = bits32(id.result->Ok_0.0) as u32;
        lemma_dispatch_consumed(window.skip(id.used as int), short, state, number);
    }
}

/// Whatever comes of the packet of a frame, the window of the frame is read
/// to the end, and no failure is the channel's where the channel holds the
/// frame whole.
pub proof fn lemma_dispatch_consumed(
    window: Seq<u8>,
    short: bool,
    state: ConnectionState,
    id: u32,
)
    ensures
        dispatch_outcome(window, short, state, id).used == window.len(),
        !short ==> dispatch_outcome(window, short, state, id).result != Err::<
            (ClientboundValue, Seq<u8>),
            ReceiveFailure,
        >(ReceiveFailure::Deserialize(Failure::Io)),
{
    reveal(dispatch_outcome);
    lemma_login_consumed(window, short, id);
    lemma_configuration_consumed(window, short, id);
    lemma_play_consumed(window, short, id);
}

/// A packet that is read from a frame which the channel holds whole is
/// handed on with the bytes that it left: these are read and the frame is at
/// its end, however many they are.
pub proof fn lemma_leftover_is_read<T: Deserialize>(window: Seq<u8>)
    requires
        T::parse(window, false).result is Ok,
    ensures
        payload_outcome::<T>(window, false) == done(
            (
                T::parse(window, false).result->Ok_0,
                window.skip(T::parse(window, false).used as int),
            ),
            window.len(),
        ),
{
    reveal(payload_outcome);
}

/// A packet that cannot be read from a frame which the channel holds whole
/// is reported with the failure of its read, which is not the channel's,
/// and the frame is at its end.
pub proof fn lemma_failure_is_drained<T: Deserialize>(window: Seq<u8>)
    requires
        T::parse(window, false).result is Err,
    ensures
        payload_outcome::<T>(window, false) == failed::<(T::V, Seq<u8>)>(
            after_drain(T::parse(window, false).result->Err_0, false),
            window.len(),
        ),
        payload_outcome::<T>(window, false).result != Err::<(T::V, Seq<u8>), Failure>(
            Failure::Io,
        ),
{
    reveal(payload_outcome);
}

} // verus!
