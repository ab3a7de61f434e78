//! The packets of the protocol: the fields of each, in the order in which
//! they travel.

use crate::codec::{
    RoundTrip, add_sizes, begin, behind, decoded, done, failed, field, finish, made,
    malformed_with_number, number_message, pair, step, Deserialize, DeserializeError, Failure,
    Outcome, Serialize,
};
use crate::chunk::{ChunkData, LightData};
use crate::containers::{behind_items, negative_count_message};
use crate::datatypes::{Angle, Double, Float, LengthInferredByteArray, Or};
use crate::entity::EntityId;
use crate::nbt::{Nbt, NbtValue};
use crate::send::ServerboundPacket;
use crate::slot::{SlotDisplay, SlotDisplayValue};
use crate::stream::{lemma_advance_twice, lemma_advance_window, lemma_advance_zero, DataStream};
use crate::types::{Color, IdSet, IdSetValue, Rotation, Vec3, Vec3d, Vec3i};
use crate::varint::VarInt;
use vstd::prelude::*;

verus! {

/// The first packet of a connection: it names the protocol, the server, and the phase to go to.
#[derive(Debug)]
pub struct Handshake {
    pub protocol_version: VarInt,
    pub server_addr: String,
    pub server_port: u16,
    pub intent: VarInt,
}

impl DeepView for Handshake {
    type V = (VarInt, Seq<char>, u16, VarInt);

    open spec fn deep_view(&self) -> Self::V {
        (
            self.protocol_version.deep_view(),
            self.server_addr.deep_view(),
            self.server_port.deep_view(),
            self.intent.deep_view(),
        )
    }
}

impl Serialize for Handshake {
    open spec fn wire(&self) -> Seq<u8> {
        self.protocol_version.wire()
            + self.server_addr.wire()
            + self.server_port.wire()
            + self.intent.wire()
    }

    open spec fn encodable(&self) -> bool {
        self.protocol_version.encodable()
            && self.server_addr.encodable()
            && self.server_port.encodable()
            && self.intent.encodable()
    }

    fn size(&self) -> (size: usize) {
        self.protocol_version.size()
            + self.server_addr.size()
            + self.server_port.size()
            + self.intent.size()
    }

    fn checked_size(&self) -> (size: Option<usize>) {
        let size = self.protocol_version.checked_size();
        let size = add_sizes(size, self.server_addr.checked_size());
        let size = add_sizes(size, self.server_port.checked_size());
        let size = add_sizes(size, self.intent.checked_size());
        size
    }

    fn serialize(&self, stream: &mut Vec<u8>) {
        self.protocol_version.serialize(stream);
        self.server_addr.serialize(stream);
        self.server_port.serialize(stream);
        self.intent.serialize(stream);
        assert(stream@ =~= old(stream)@ + self.wire());
    }
}

impl ServerboundPacket for Handshake {
    const ID: u32 = 0;
}

/// Asks the server for its status.
#[derive(Debug)]
pub struct StatusRequest {}

impl DeepView for StatusRequest {
    type V = ();

    open spec fn deep_view(&self) -> Self::V {
        ()
    }
}

impl Serialize for StatusRequest {
    open spec fn wire(&self) -> Seq<u8> {
        Seq::empty()
    }

    open spec fn encodable(&self) -> bool {
        true
    }

    fn size(&self) -> (size: usize) {
        0
    }

    fn checked_size(&self) -> (size: Option<usize>) {
        Some(0)
    }

    fn serialize(&self, stream: &mut Vec<u8>) {
        assert(stream@ =~= old(stream)@ + self.wire());
    }
}

impl ServerboundPacket for StatusRequest {
    const ID: u32 = 0;
}

/// The server's status, as text.
#[derive(Debug)]
pub struct StatusResponse {
    pub response: String,
}

impl DeepView for StatusResponse {
    type V = Seq<char>;

    open spec fn deep_view(&self) -> Self::V {
        self.response.deep_view()
    }
}

impl Deserialize for StatusResponse {
    open spec fn parse(window: Seq<u8>, short: bool) -> Outcome<Self::V> {
        let r0 = String::parse(window, short);
        let at1 = step(begin(), r0);
        finish(at1, r0.result->Ok_0)
    }

    fn deserialize(stream: &mut DataStream) -> (result: Result<Self, DeserializeError>) {
        broadcast use lemma_advance_zero;

        let ghost start = stream@;
        let ghost window = start.window();
        let ghost short = start.short();
        assert(window.skip(0) =~= window);
        let response: String = field(stream, Ghost(start), Ghost(begin()))?;
        Ok(StatusResponse { response })
    }
}

/// A number that the other side sends back.
#[derive(Debug)]
pub struct PingPong {
    pub timestamp: i64,
}

impl DeepView for PingPong {
    type V = i64;

    open spec fn deep_view(&self) -> Self::V {
        self.timestamp.deep_view()
    }
}

impl Serialize for PingPong {
    open spec fn wire(&self) -> Seq<u8> {
        self.timestamp.wire()
    }

    open spec fn encodable(&self) -> bool {
        self.timestamp.encodable()
    }

    fn size(&self) -> (size: usize) {
        self.timestamp.size()
    }

    fn checked_size(&self) -> (size: Option<usize>) {
        let size = self.timestamp.checked_size();
        size
    }

    fn serialize(&self, stream: &mut Vec<u8>) {
        self.timestamp.serialize(stream);
        assert(stream@ =~= old(stream)@ + self.wire());
    }
}

impl Deserialize for PingPong {
    open spec fn parse(window: Seq<u8>, short: bool) -> Outcome<Self::V> {
        let r0 = i64::parse(window, short);
        let at1 = step(begin(), r0);
        finish(at1, r0.result->Ok_0)
    }

    fn deserialize(stream: &mut DataStream) -> (result: Result<Self, DeserializeError>) {
        broadcast use lemma_advance_zero;

        let ghost start = stream@;
        let ghost window = start.window();
        let ghost short = start.short();
        assert(window.skip(0) =~= window);
        let timestamp: i64 = field(stream, Ghost(start), Ghost(begin()))?;
        Ok(PingPong { timestamp })
    }
}

impl RoundTrip for PingPong {
    open spec fn readable(&self) -> bool {
        self.timestamp.readable()
    }

    proof fn lemma_round_trip(&self, rest: Seq<u8>, short: bool) {
        let window = self.wire() + rest;
        assert(window =~= self.timestamp.wire() + (rest));
        self.timestamp.lemma_round_trip(rest, short);
    }
}

impl ServerboundPacket for PingPong {
    const ID: u32 = 1;
}

// State Login

/// Asks to log in under a name.
#[derive(Debug)]
pub struct LoginStart {
    /// name length should be <= 16
    pub username: String,
    pub uuid: u128,
}

impl DeepView for LoginStart {
    type V = (Seq<char>, u128);

    open spec fn deep_view(&self) -> Self::V {
        (self.username.deep_view(), self.uuid.deep_view())
    }
}

impl Serialize for LoginStart {
    open spec fn wire(&self) -> Seq<u8> {
        self.username.wire() + self.uuid.wire()
    }

    open spec fn encodable(&self) -> bool {
        self.username.encodable() && self.uuid.encodable()
    }

    fn size(&self) -> (size: usize) {
        self.username.size() + self.uuid.size()
    }

    fn checked_size(&self) -> (size: Option<usize>) {
        let size = self.username.checked_size();
        let size = add_sizes(size, self.uuid.checked_size());
        size
    }

    fn serialize(&self, stream: &mut Vec<u8>) {
        self.username.serialize(stream);
        self.uuid.serialize(stream);
        assert(stream@ =~= old(stream)@ + self.wire());
    }
}

impl ServerboundPacket for LoginStart {
    const ID: u32 = 0;
}

/// A property of a player, signed or not.
#[derive(Debug)]
pub struct PlayerProperty {
    pub name: String,
    pub value: String,
    pub signature: Option<String>,
}

impl DeepView for PlayerProperty {
    type V = (Seq<char>, Seq<char>, Option<Seq<char>>);

    open spec fn deep_view(&self) -> Self::V {
        (self.name.deep_view(), self.value.deep_view(), self.signature.deep_view())
    }
}

impl Deserialize for PlayerProperty {
    open spec fn parse(window: Seq<u8>, short: bool) -> Outcome<Self::V> {
        let r0 = String::parse(window, short);
        let at1 = step(begin(), r0);
        let r1 = String::parse(window.skip(at1.used as int), short);
        let at2 = step(at1, r1);
        let r2 = Option::<String>::parse(window.skip(at2.used as int), short);
        let at3 = step(at2, r2);
        finish(at3, (r0.result->Ok_0, r1.result->Ok_0, r2.result->Ok_0))
    }

    fn deserialize(stream: &mut DataStream) -> (result: Result<Self, DeserializeError>) {
        broadcast use lemma_advance_zero;

        let ghost start = stream@;
        let ghost window = start.window();
        let ghost short = start.short();
        assert(window.skip(0) =~= window);
        let name: String = field(stream, Ghost(start), Ghost(begin()))?;
        let ghost at1 = step(begin(), String::parse(window, short));
        let value: String = field(stream, Ghost(start), Ghost(at1))?;
        let ghost at2 = step(at1, String::parse(window.skip(at1.used as int), short));
        let signature: Option<String> = field(stream, Ghost(start), Ghost(at2))?;
        Ok(PlayerProperty { name, value, signature })
    }
}

/// The server accepts the login.
#[derive(Debug)]
pub struct LoginSuccess {
    pub uuid: u128,
    pub username: String,
    pub property: Vec<PlayerProperty>,
}

impl DeepView for LoginSuccess {
    type V = (u128, Seq<char>, Seq<<PlayerProperty as DeepView>::V>);

    open spec fn deep_view(&self) -> Self::V {
        (self.uuid.deep_view(), self.username.deep_view(), self.property.deep_view())
    }
}

impl Deserialize for LoginSuccess {
    open spec fn parse(window: Seq<u8>, short: bool) -> Outcome<Self::V> {
        let r0 = u128::parse(window, short);
        let at1 = step(begin(), r0);
        let r1 = String::parse(window.skip(at1.used as int), short);
        let at2 = step(at1, r1);
        let r2 = Vec::<PlayerProperty>::parse(window.skip(at2.used as int), short);
        let at3 = step(at2, r2);
        finish(at3, (r0.result->Ok_0, r1.result->Ok_0, r2.result->Ok_0))
    }

    fn deserialize(stream: &mut DataStream) -> (result: Result<Self, DeserializeError>) {
        broadcast use lemma_advance_zero;

        let ghost start = stream@;
        let ghost window = start.window();
        let ghost short = start.short();
        assert(window.skip(0) =~= window);
        let uuid: u128 = field(stream, Ghost(start), Ghost(begin()))?;
        let ghost at1 = step(begin(), u128::parse(window, short));
        let username: String = field(stream, Ghost(start), Ghost(at1))?;
        let ghost at2 = step(at1, String::parse(window.skip(at1.used as int), short));
        let property: Vec<PlayerProperty> = field(stream, Ghost(start), Ghost(at2))?;
        Ok(LoginSuccess { uuid, username, property })
    }
}

/// The client has seen that the login succeeded.
#[derive(Debug)]
pub struct LoginAcknowledged {}

impl DeepView for LoginAcknowledged {
    type V = ();

    open spec fn deep_view(&self) -> Self::V {
        ()
    }
}

impl Serialize for LoginAcknowledged {
    open spec fn wire(&self) -> Seq<u8> {
        Seq::empty()
    }

    open spec fn encodable(&self) -> bool {
        true
    }

    fn size(&self) -> (size: usize) {
        0
    }

    fn checked_size(&self) -> (size: Option<usize>) {
        Some(0)
    }

    fn serialize(&self, stream: &mut Vec<u8>) {
        assert(stream@ =~= old(stream)@ + self.wire());
    }
}

impl ServerboundPacket for LoginAcknowledged {
    const ID: u32 = 3;
}

// State Configuration

/// Bytes for a named channel.
#[derive(Debug)]
pub struct PluginMessage {
    pub channel: String,
    pub data: LengthInferredByteArray,
}

impl DeepView for PluginMessage {
    type V = (Seq<char>, Seq<u8>);

    open spec fn deep_view(&self) -> Self::V {
        (self.channel.deep_view(), self.data.deep_view())
    }
}

impl Serialize for PluginMessage {
    open spec fn wire(&self) -> Seq<u8> {
        self.channel.wire() + self.data.wire()
    }

    open spec fn encodable(&self) -> bool {
        self.channel.encodable() && self.data.encodable()
    }

    fn size(&self) -> (size: usize) {
        self.channel.size() + self.data.size()
    }

    fn checked_size(&self) -> (size: Option<usize>) {
        let size = self.channel.checked_size();
        let size = add_sizes(size, self.data.checked_size());
        size
    }

    fn serialize(&self, stream: &mut Vec<u8>) {
        self.channel.serialize(stream);
        self.data.serialize(stream);
        assert(stream@ =~= old(stream)@ + self.wire());
    }
}

impl Deserialize for PluginMessage {
    open spec fn parse(window: Seq<u8>, short: bool) -> Outcome<Self::V> {
        let r0 = String::parse(window, short);
        let at1 = step(begin(), r0);
        let r1 = LengthInferredByteArray::parse(window.skip(at1.used as int), short);
        let at2 = step(at1, r1);
        finish(at2, (r0.result->Ok_0, r1.result->Ok_0))
    }

    fn deserialize(stream: &mut DataStream) -> (result: Result<Self, DeserializeError>) {
        broadcast use lemma_advance_zero;

        let ghost start = stream@;
        let ghost window = start.window();
        let ghost short = start.short();
        assert(window.skip(0) =~= window);
        let channel: String = field(stream, Ghost(start), Ghost(begin()))?;
        let ghost at1 = step(begin(), String::parse(window, short));
        let data: LengthInferredByteArray = field(stream, Ghost(start), Ghost(at1))?;
        Ok(PluginMessage { channel, data })
    }
}

impl ServerboundPacket for PluginMessage {
    const ID: u32 = 2;
}

/// The features that the server has switched on.
#[derive(Debug)]
pub struct FeatureFlags(pub Vec<String>);

impl DeepView for FeatureFlags {
    type V = Seq<Seq<char>>;

    open spec fn deep_view(&self) -> Self::V {
        self.0.deep_view()
    }
}

impl Deserialize for FeatureFlags {
    open spec fn parse(window: Seq<u8>, short: bool) -> Outcome<Self::V> {
        let r0 = Vec::<String>::parse(window, short);
        let at1 = step(begin(), r0);
        finish(at1, r0.result->Ok_0)
    }

    fn deserialize(stream: &mut DataStream) -> (result: Result<Self, DeserializeError>) {
        broadcast use lemma_advance_zero;

        let ghost start = stream@;
        let ghost window = start.window();
        let ghost short = start.short();
        assert(window.skip(0) =~= window);
        let v0: Vec<String> = field(stream, Ghost(start), Ghost(begin()))?;
        Ok(FeatureFlags(v0))
    }
}

/// A data pack, by name and version.
#[derive(Debug)]
pub struct KnownPack {
    pub namespace: String,
    pub id: String,
    pub version: String,
}

impl DeepView for KnownPack {
    type V = (Seq<char>, Seq<char>, Seq<char>);

    open spec fn deep_view(&self) -> Self::V {
        (self.namespace.deep_view(), self.id.deep_view(), self.version.deep_view())
    }
}

impl Serialize for KnownPack {
    open spec fn wire(&self) -> Seq<u8> {
        self.namespace.wire() + self.id.wire() + self.version.wire()
    }

    open spec fn encodable(&self) -> bool {
        self.namespace.encodable() && self.id.encodable() && self.version.encodable()
    }

    fn size(&self) -> (size: usize) {
        self.namespace.size() + self.id.size() + self.version.size()
    }

    fn checked_size(&self) -> (size: Option<usize>) {
        let size = self.namespace.checked_size();
        let size = add_sizes(size, self.id.checked_size());
        let size = add_sizes(size, self.version.checked_size());
        size
    }

    fn serialize(&self, stream: &mut Vec<u8>) {
        self.namespace.serialize(stream);
        self.id.serialize(stream);
        self.version.serialize(stream);
        assert(stream@ =~= old(stream)@ + self.wire());
    }
}

impl Deserialize for KnownPack {
    open spec fn parse(window: Seq<u8>, short: bool) -> Outcome<Self::V> {
        let r0 = String::parse(window, short);
        let at1 = step(begin(), r0);
        let r1 = String::parse(window.skip(at1.used as int), short);
        let at2 = step(at1, r1);
        let r2 = String::parse(window.skip(at2.used as int), short);
        let at3 = step(at2, r2);
        finish(at3, (r0.result->Ok_0, r1.result->Ok_0, r2.result->Ok_0))
    }

    fn deserialize(stream: &mut DataStream) -> (result: Result<Self, DeserializeError>) {
        broadcast use lemma_advance_zero;

        let ghost start = stream@;
        let ghost window = start.window();
        let ghost short = start.short();
        assert(window.skip(0) =~= window);
        let namespace: String = field(stream, Ghost(start), Ghost(begin()))?;
        let ghost at1 = step(begin(), String::parse(window, short));
        let id: String = field(stream, Ghost(start), Ghost(at1))?;
        let ghost at2 = step(at1, String::parse(window.skip(at1.used as int), short));
        let version: String = field(stream, Ghost(start), Ghost(at2))?;
        Ok(KnownPack { namespace, id, version })
    }
}

impl RoundTrip for KnownPack {
    open spec fn readable(&self) -> bool {
        self.namespace.readable() && self.id.readable() && self.version.readable()
    }

    proof fn lemma_round_trip(&self, rest: Seq<u8>, short: bool) {
        let window = self.wire() + rest;
        assert(window =~= self.namespace.wire() + (self.id.wire() + self.version.wire() + rest));
        self.namespace.lemma_round_trip(self.id.wire() + self.version.wire() + rest, short);
        assert(
            window.skip((self.namespace.wire().len()) as int) =~= self.id.wire()
                + (self.version.wire() + rest)
        );
        self.id.lemma_round_trip(self.version.wire() + rest, short);
        assert(
            window.skip(
                (self.namespace.wire().len() + self.id.wire().len()) as int,
            ) =~= self.version.wire() + (rest)
        );
        self.version.lemma_round_trip(rest, short);
    }
}

/// The data packs that a side knows.
#[derive(Debug)]
pub struct KnownPacks(pub Vec<KnownPack>);

impl DeepView for KnownPacks {
    type V = Seq<(Seq<char>, Seq<char>, Seq<char>)>;

    open spec fn deep_view(&self) -> Self::V {
        self.0.deep_view()
    }
}

impl Serialize for KnownPacks {
    open spec fn wire(&self) -> Seq<u8> {
        self.0.wire()
    }

    open spec fn encodable(&self) -> bool {
        self.0.encodable()
    }

    fn size(&self) -> (size: usize) {
        self.0.size()
    }

    fn checked_size(&self) -> (size: Option<usize>) {
        let size = self.0.checked_size();
        size
    }

    fn serialize(&self, stream: &mut Vec<u8>) {
        self.0.serialize(stream);
        assert(stream@ =~= old(stream)@ + self.wire());
    }
}

impl Deserialize for KnownPacks {
    open spec fn parse(window: Seq<u8>, short: bool) -> Outcome<Self::V> {
        let r0 = Vec::<KnownPack>::parse(window, short);
        let at1 = step(begin(), r0);
        finish(at1, r0.result->Ok_0)
    }

    fn deserialize(stream: &mut DataStream) -> (result: Result<Self, DeserializeError>) {
        broadcast use lemma_advance_zero;

        let ghost start = stream@;
        let ghost window = start.window();
        let ghost short = start.short();
        assert(window.skip(0) =~= window);
        let v0: Vec<KnownPack> = field(stream, Ghost(start), Ghost(begin()))?;
        Ok(KnownPacks(v0))
    }
}

impl RoundTrip for KnownPacks {
    open spec fn readable(&self) -> bool {
        self.0.readable()
    }

    proof fn lemma_round_trip(&self, rest: Seq<u8>, short: bool) {
        let window = self.wire() + rest;
        assert(window =~= self.0.wire() + (rest));
        self.0.lemma_round_trip(rest, short);
    }
}

impl ServerboundPacket for KnownPacks {
    const ID: u32 = 7;
}

/// The configuration is over.
#[derive(Debug)]
pub struct FinishConfiguration {}

impl DeepView for FinishConfiguration {
    type V = ();

    open spec fn deep_view(&self) -> Self::V {
        ()
    }
}

impl Serialize for FinishConfiguration {
    open spec fn wire(&self) -> Seq<u8> {
        Seq::empty()
    }

    open spec fn encodable(&self) -> bool {
        true
    }

    fn size(&self) -> (size: usize) {
        0
    }

    fn checked_size(&self) -> (size: Option<usize>) {
        Some(0)
    }

    fn serialize(&self, stream: &mut Vec<u8>) {
        assert(stream@ =~= old(stream)@ + self.wire());
    }
}

impl Deserialize for FinishConfiguration {
    open spec fn parse(window: Seq<u8>, short: bool) -> Outcome<Self::V> {
        done((), 0)
    }

    fn deserialize(stream: &mut DataStream) -> (result: Result<Self, DeserializeError>) {
        broadcast use lemma_advance_zero;

        Ok(FinishConfiguration {})
    }
}

impl RoundTrip for FinishConfiguration {
    open spec fn readable(&self) -> bool {
        true
    }

    proof fn lemma_round_trip(&self, rest: Seq<u8>, short: bool) {
    }
}

impl ServerboundPacket for FinishConfiguration {
    const ID: u32 = 3;
}

/// An entry of a registry.
#[derive(Debug)]
pub struct RegistryDataEntry {
    pub entry_id: String,
    pub data: Option<Nbt>,
}

impl DeepView for RegistryDataEntry {
    type V = (Seq<char>, Option<NbtValue>);

    open spec fn deep_view(&self) -> Self::V {
        (self.entry_id.deep_view(), self.data.deep_view())
    }
}

impl Deserialize for RegistryDataEntry {
    open spec fn parse(window: Seq<u8>, short: bool) -> Outcome<Self::V> {
        let r0 = String::parse(window, short);
        let at1 = step(begin(), r0);
        let r1 = Option::<Nbt>::parse(window.skip(at1.used as int), short);
        let at2 = step(at1, r1);
        finish(at2, (r0.result->Ok_0, r1.result->Ok_0))
    }

    fn deserialize(stream: &mut DataStream) -> (result: Result<Self, DeserializeError>) {
        broadcast use lemma_advance_zero;

        let ghost start = stream@;
        let ghost window = start.window();
        let ghost short = start.short();
        assert(window.skip(0) =~= window);
        let entry_id: String = field(stream, Ghost(start), Ghost(begin()))?;
        let ghost at1 = step(begin(), String::parse(window, short));
        let data: Option<Nbt> = field(stream, Ghost(start), Ghost(at1))?;
        Ok(RegistryDataEntry { entry_id, data })
    }
}

/// The entries of a registry.
#[derive(Debug)]
pub struct RegistryData {
    pub registry_id: String,
    pub entries: Vec<RegistryDataEntry>,
}

impl DeepView for RegistryData {
    type V = (Seq<char>, Seq<(Seq<char>, Option<NbtValue>)>);

    open spec fn deep_view(&self) -> Self::V {
        (self.registry_id.deep_view(), self.entries.deep_view())
    }
}

impl Deserialize for RegistryData {
    open spec fn parse(window: Seq<u8>, short: bool) -> Outcome<Self::V> {
        let r0 = String::parse(window, short);
        let at1 = step(begin(), r0);
        let r1 = Vec::<RegistryDataEntry>::parse(window.skip(at1.used as int), short);
        let at2 = step(at1, r1);
        finish(at2, (r0.result->Ok_0, r1.result->Ok_0))
    }

    fn deserialize(stream: &mut DataStream) -> (result: Result<Self, DeserializeError>) {
        broadcast use lemma_advance_zero;

        let ghost start = stream@;
        let ghost window = start.window();
        let ghost short = start.short();
        assert(window.skip(0) =~= window);
        let registry_id: String = field(stream, Ghost(start), Ghost(begin()))?;
        let ghost at1 = step(begin(), String::parse(window, short));
        let entries: Vec<RegistryDataEntry> = field(stream, Ghost(start), Ghost(at1))?;
        Ok(RegistryData { registry_id, entries })
    }
}

/// Tags, each with the ids that it names.
#[derive(Debug)]
pub struct Tags(pub Vec<(String, Vec<VarInt>)>);

impl DeepView for Tags {
    type V = Seq<(Seq<char>, Seq<VarInt>)>;

    open spec fn deep_view(&self) -> Self::V {
        self.0.deep_view()
    }
}

impl Deserialize for Tags {
    open spec fn parse(window: Seq<u8>, short: bool) -> Outcome<Self::V> {
        let r0 = Vec::<(String, Vec<VarInt>)>::parse(window, short);
        let at1 = step(begin(), r0);
        finish(at1, r0.result->Ok_0)
    }

    fn deserialize(stream: &mut DataStream) -> (result: Result<Self, DeserializeError>) {
        broadcast use lemma_advance_zero;

        let ghost start = stream@;
        let ghost window = start.window();
        let ghost short = start.short();
        assert(window.skip(0) =~= window);
        let v0: Vec<(String, Vec<VarInt>)> = field(stream, Ghost(start), Ghost(begin()))?;
        Ok(Tags(v0))
    }
}

/// The tags of some registries.
#[derive(Debug)]
pub struct UpdateTags {
    pub tags_array: Vec<(String, Tags)>,
}

impl DeepView for UpdateTags {
    type V = Seq<(Seq<char>, Seq<(Seq<char>, Seq<VarInt>)>)>;

    open spec fn deep_view(&self) -> Self::V {
        self.tags_array.deep_view()
    }
}

impl Deserialize for UpdateTags {
    open spec fn parse(window: Seq<u8>, short: bool) -> Outcome<Self::V> {
        let r0 = Vec::<(String, Tags)>::parse(window, short);
        let at1 = step(begin(), r0);
        finish(at1, r0.result->Ok_0)
    }

    fn deserialize(stream: &mut DataStream) -> (result: Result<Self, DeserializeError>) {
        broadcast use lemma_advance_zero;

        let ghost start = stream@;
        let ghost window = start.window();
        let ghost short = start.short();
        assert(window.skip(0) =~= window);
        let tags_array: Vec<(String, Tags)> = field(stream, Ghost(start), Ghost(begin()))?;
        Ok(UpdateTags { tags_array })
    }
}

// State Play

/// Where the player died.
#[derive(Debug)]
pub struct DeathLocation {
    pub dimension_name: String,
    pub location: Vec3i,
}

impl DeepView for DeathLocation {
    type V = (Seq<char>, (i32, i32, i32));

    open spec fn deep_view(&self) -> Self::V {
        (self.dimension_name.deep_view(), self.location.deep_view())
    }
}

impl Deserialize for DeathLocation {
    open spec fn parse(window: Seq<u8>, short: bool) -> Outcome<Self::V> {
        let r0 = String::parse(window, short);
        let at1 = step(begin(), r0);
        let r1 = Vec3i::parse(window.skip(at1.used as int), short);
        let at2 = step(at1, r1);
        finish(at2, (r0.result->Ok_0, r1.result->Ok_0))
    }

    fn deserialize(stream: &mut DataStream) -> (result: Result<Self, DeserializeError>) {
        broadcast use lemma_advance_zero;

        let ghost start = stream@;
        let ghost window = start.window();
        let ghost short = start.short();
        assert(window.skip(0) =~= window);
        let dimension_name: String = field(stream, Ghost(start), Ghost(begin()))?;
        let ghost at1 = step(begin(), String::parse(window, short));
        let location: Vec3i = field(stream, Ghost(start), Ghost(at1))?;
        Ok(DeathLocation { dimension_name, location })
    }
}

/// The player has joined the game.
#[derive(Debug)]
pub struct Login {
    pub entity_id: EntityId,
    pub is_hardcore: bool,
    pub dimension_names: Vec<String>,
    pub max_players: VarInt,
    pub view_distance: VarInt,
    pub simulation_distance: VarInt,
    pub reduced_debug_info: bool,
    pub enable_respawn_screen: bool,
    pub limited_crafting: bool,
    pub dimension_type: VarInt,
    pub dimesion_name: String,
    pub hashed_seed: i64,
    pub game_mode: u8,
    pub previous_game_mode: i8,
    pub is_debug: bool,
    pub is_flat: bool,
    pub death_location: Option<DeathLocation>,
    pub portal_cooldown: VarInt,
    pub sea_level: VarInt,
    pub enforce_secure_chat: bool,
}

impl DeepView for Login {
    type V = (
        (i32, bool, Seq<Seq<char>>, VarInt, VarInt, VarInt, bool, bool, bool, VarInt),
        (
            Seq<char>,
            i64,
            u8,
            i8,
            bool,
            bool,
            Option<(Seq<char>, (i32, i32, i32))>,
            VarInt,
            VarInt,
            bool,
        ),
    );

    open spec fn deep_view(&self) -> Self::V {
        (
            (
                self.entity_id.deep_view(),
                self.is_hardcore.deep_view(),
                self.dimension_names.deep_view(),
                self.max_players.deep_view(),
                self.view_distance.deep_view(),
                self.simulation_distance.deep_view(),
                self.reduced_debug_info.deep_view(),
                self.enable_respawn_screen.deep_view(),
                self.limited_crafting.deep_view(),
                self.dimension_type.deep_view(),
            ),
            (
                self.dimesion_name.deep_view(),
                self.hashed_seed.deep_view(),
                self.game_mode.deep_view(),
                self.previous_game_mode.deep_view(),
                self.is_debug.deep_view(),
                self.is_flat.deep_view(),
                self.death_location.deep_view(),
                self.portal_cooldown.deep_view(),
                self.sea_level.deep_view(),
                self.enforce_secure_chat.deep_view(),
            ),
        )
    }
}

/// The first fields of [`Login`], as they are read.
#[derive(Debug)]
pub struct LoginFirst {
    pub entity_id: EntityId,
    pub is_hardcore: bool,
    pub dimension_names: Vec<String>,
    pub max_players: VarInt,
    pub view_distance: VarInt,
    pub simulation_distance: VarInt,
    pub reduced_debug_info: bool,
    pub enable_respawn_screen: bool,
    pub limited_crafting: bool,
    pub dimension_type: VarInt,
}

impl DeepView for LoginFirst {
    type V = (i32, bool, Seq<Seq<char>>, VarInt, VarInt, VarInt, bool, bool, bool, VarInt);

    open spec fn deep_view(&self) -> Self::V {
        (
            self.entity_id.deep_view(),
            self.is_hardcore.deep_view(),
            self.dimension_names.deep_view(),
            self.max_players.deep_view(),
            self.view_distance.deep_view(),
            self.simulation_distance.deep_view(),
            self.reduced_debug_info.deep_view(),
            self.enable_respawn_screen.deep_view(),
            self.limited_crafting.deep_view(),
            self.dimension_type.deep_view(),
        )
    }
}

impl Deserialize for LoginFirst {
    open spec fn parse(window: Seq<u8>, short: bool) -> Outcome<Self::V> {
        let r0 = EntityId::parse(window, short);
        let at1 = step(begin(), r0);
        let r1 = bool::parse(window.skip(at1.used as int), short);
        let at2 = step(at1, r1);
        let r2 = Vec::<String>::parse(window.skip(at2.used as int), short);
        let at3 = step(at2, r2);
        let r3 = VarInt::parse(window.skip(at3.used as int), short);
        let at4 = step(at3, r3);
        let r4 = VarInt::parse(window.skip(at4.used as int), short);
        let at5 = step(at4, r4);
        let r5 = VarInt::parse(window.skip(at5.used as int), short);
        let at6 = step(at5, r5);
        let r6 = bool::parse(window.skip(at6.used as int), short);
        let at7 = step(at6, r6);
        let r7 = bool::parse(window.skip(at7.used as int), short);
        let at8 = step(at7, r7);
        let r8 = bool::parse(window.skip(at8.used as int), short);
        let at9 = step(at8, r8);
        let r9 = VarInt::parse(window.skip(at9.used as int), short);
        let at10 = step(at9, r9);
        finish(
            at10,
            (
                r0.result->Ok_0,
                r1.result->Ok_0,
                r2.result->Ok_0,
                r3.result->Ok_0,
                r4.result->Ok_0,
                r5.result->Ok_0,
                r6.result->Ok_0,
                r7.result->Ok_0,
                r8.result->Ok_0,
                r9.result->Ok_0,
            ),
        )
    }

    fn deserialize(stream: &mut DataStream) -> (result: Result<Self, DeserializeError>) {
        broadcast use lemma_advance_zero;

        let ghost start = stream@;
        let ghost window = start.window();
        let ghost short = start.short();
        assert(window.skip(0) =~= window);
        let entity_id: EntityId = field(stream, Ghost(start), Ghost(begin()))?;
        let ghost at1 = step(begin(), EntityId::parse(window, short));
        let is_hardcore: bool = field(stream, Ghost(start), Ghost(at1))?;
        let ghost at2 = step(at1, bool::parse(window.skip(at1.used as int), short));
        let dimension_names: Vec<String> = field(stream, Ghost(start), Ghost(at2))?;
        let ghost at3 = step(at2, Vec::<String>::parse(window.skip(at2.used as int), short));
        let max_players: VarInt = field(stream, Ghost(start), Ghost(at3))?;
        let ghost at4 = step(at3, VarInt::parse(window.skip(at3.used as int), short));
        let view_distance: VarInt = field(stream, Ghost(start), Ghost(at4))?;
        let ghost at5 = step(at4, VarInt::parse(window.skip(at4.used as int), short));
        let simulation_distance: VarInt = field(stream, Ghost(start), Ghost(at5))?;
        let ghost at6 = step(at5, VarInt::parse(window.skip(at5.used as int), short));
        let reduced_debug_info: bool = field(stream, Ghost(start), Ghost(at6))?;
        let ghost at7 = step(at6, bool::parse(window.skip(at6.used as int), short));
        let enable_respawn_screen: bool = field(stream, Ghost(start), Ghost(at7))?;
        let ghost at8 = step(at7, bool::parse(window.skip(at7.used as int), short));
        let limited_crafting: bool = field(stream, Ghost(start), Ghost(at8))?;
        let ghost at9 = step(at8, bool::parse(window.skip(at8.used as int), short));
        let dimension_type: VarInt = field(stream, Ghost(start), Ghost(at9))?;
        Ok(
            LoginFirst {
                entity_id,
                is_hardcore,
                dimension_names,
                max_players,
                view_distance,
                simulation_distance,
                reduced_debug_info,
                enable_respawn_screen,
                limited_crafting,
                dimension_type,
            },
        )
    }
}

/// The last fields of [`Login`], as they are read.
#[derive(Debug)]
pub struct LoginSecond {
    pub dimesion_name: String,
    pub hashed_seed: i64,
    pub game_mode: u8,
    pub previous_game_mode: i8,
    pub is_debug: bool,
    pub is_flat: bool,
    pub death_location: Option<DeathLocation>,
    pub portal_cooldown: VarInt,
    pub sea_level: VarInt,
    pub enforce_secure_chat: bool,
}

impl DeepView for LoginSecond {
    type V = (
        Seq<char>,
        i64,
        u8,
        i8,
        bool,
        bool,
        Option<(Seq<char>, (i32, i32, i32))>,
        VarInt,
        VarInt,
        bool,
    );

    open spec fn deep_view(&self) -> Self::V {
        (
            self.dimesion_name.deep_view(),
            self.hashed_seed.deep_view(),
            self.game_mode.deep_view(),
            self.previous_game_mode.deep_view(),
            self.is_debug.deep_view(),
            self.is_flat.deep_view(),
            self.death_location.deep_view(),
            self.portal_cooldown.deep_view(),
            self.sea_level.deep_view(),
            self.enforce_secure_chat.deep_view(),
        )
    }
}

impl Deserialize for LoginSecond {
    open spec fn parse(window: Seq<u8>, short: bool) -> Outcome<Self::V> {
        let r0 = String::parse(window, short);
        let at1 = step(begin(), r0);
        let r1 = i64::parse(window.skip(at1.used as int), short);
        let at2 = step(at1, r1);
        let r2 = u8::parse(window.skip(at2.used as int), short);
        let at3 = step(at2, r2);
        let r3 = i8::parse(window.skip(at3.used as int), short);
        let at4 = step(at3, r3);
        let r4 = bool::parse(window.skip(at4.used as int), short);
        let at5 = step(at4, r4);
        let r5 = bool::parse(window.skip(at5.used as int), short);
        let at6 = step(at5, r5);
        let r6 = Option::<DeathLocation>::parse(window.skip(at6.used as int), short);
        let at7 = step(at6, r6);
        let r7 = VarInt::parse(window.skip(at7.used as int), short);
        let at8 = step(at7, r7);
        let r8 = VarInt::parse(window.skip(at8.used as int), short);
        let at9 = step(at8, r8);
        let r9 = bool::parse(window.skip(at9.used as int), short);
        let at10 = step(at9, r9);
        finish(
            at10,
            (
                r0.result->Ok_0,
                r1.result->Ok_0,
                r2.result->Ok_0,
                r3.result->Ok_0,
                r4.result->Ok_0,
                r5.result->Ok_0,
                r6.result->Ok_0,
                r7.result->Ok_0,
                r8.result->Ok_0,
                r9.result->Ok_0,
            ),
        )
    }

    fn deserialize(stream: &mut DataStream) -> (result: Result<Self, DeserializeError>) {
        broadcast use lemma_advance_zero;

        let ghost start = stream@;
        let ghost window = start.window();
        let ghost short = start.short();
        assert(window.skip(0) =~= window);
        let dimesion_name: String = field(stream, Ghost(start), Ghost(begin()))?;
        let ghost at1 = step(begin(), String::parse(window, short));
        let hashed_seed: i64 = field(stream, Ghost(start), Ghost(at1))?;
        let ghost at2 = step(at1, i64::parse(window.skip(at1.used as int), short));
        let game_mode: u8 = field(stream, Ghost(start), Ghost(at2))?;
        let ghost at3 = step(at2, u8::parse(window.skip(at2.used as int), short));
        let previous_game_mode: i8 = field(stream, Ghost(start), Ghost(at3))?;
        let ghost at4 = step(at3, i8::parse(window.skip(at3.used as int), short));
        let is_debug: bool = field(stream, Ghost(start), Ghost(at4))?;
        let ghost at5 = step(at4, bool::parse(window.skip(at4.used as int), short));
        let is_flat: bool = field(stream, Ghost(start), Ghost(at5))?;
        let ghost at6 = step(at5, bool::parse(window.skip(at5.used as int), short));
        let death_location: Option<DeathLocation> = field(stream, Ghost(start), Ghost(at6))?;
        let ghost at7 = step(
            at6,
            Option::<DeathLocation>::parse(window.skip(at6.used as int), short),
        );
        let portal_cooldown: VarInt = field(stream, Ghost(start), Ghost(at7))?;
        let ghost at8 = step(at7, VarInt::parse(window.skip(at7.used as int), short));
        let sea_level: VarInt = field(stream, Ghost(start), Ghost(at8))?;
        let ghost at9 = step(at8, VarInt::parse(window.skip(at8.used as int), short));
        let enforce_secure_chat: bool = field(stream, Ghost(start), Ghost(at9))?;
        Ok(
            LoginSecond {
                dimesion_name,
                hashed_seed,
                game_mode,
                previous_game_mode,
                is_debug,
                is_flat,
                death_location,
                portal_cooldown,
                sea_level,
                enforce_secure_chat,
            },
        )
    }
}
impl Deserialize for Login {
    open spec fn parse(window: Seq<u8>, short: bool) -> Outcome<Self::V> {
        <(LoginFirst, LoginSecond)>::parse(window, short)
    }

    fn deserialize(stream: &mut DataStream) -> (result: Result<Self, DeserializeError>) {
        let (first, second) = <(LoginFirst, LoginSecond)>::deserialize(stream)?;
        Ok(
            Login {
                entity_id: first.entity_id,
                is_hardcore: first.is_hardcore,
                dimension_names: first.dimension_names,
                max_players: first.max_players,
                view_distance: first.view_distance,
                simulation_distance: first.simulation_distance,
                reduced_debug_info: first.reduced_debug_info,
                enable_respawn_screen: first.enable_respawn_screen,
                limited_crafting: first.limited_crafting,
                dimension_type: first.dimension_type,
                dimesion_name: second.dimesion_name,
                hashed_seed: second.hashed_seed,
                game_mode: second.game_mode,
                previous_game_mode: second.previous_game_mode,
                is_debug: second.is_debug,
                is_flat: second.is_flat,
                death_location: second.death_location,
                portal_cooldown: second.portal_cooldown,
                sea_level: second.sea_level,
                enforce_secure_chat: second.enforce_secure_chat,
            },
        )
    }
}

/// The difficulty of the game.
#[derive(Debug)]
pub struct ChangeDifficulty {
    pub difficulty: u8,
    pub is_locked: bool,
}

impl DeepView for ChangeDifficulty {
    type V = (u8, bool);

    open spec fn deep_view(&self) -> Self::V {
        (self.difficulty.deep_view(), self.is_locked.deep_view())
    }
}

impl Deserialize for ChangeDifficulty {
    open spec fn parse(window: Seq<u8>, short: bool) -> Outcome<Self::V> {
        let r0 = u8::parse(window, short);
        let at1 = step(begin(), r0);
        let r1 = bool::parse(window.skip(at1.used as int), short);
        let at2 = step(at1, r1);
        finish(at2, (r0.result->Ok_0, r1.result->Ok_0))
    }

    fn deserialize(stream: &mut DataStream) -> (result: Result<Self, DeserializeError>) {
        broadcast use lemma_advance_zero;

        let ghost start = stream@;
        let ghost window = start.window();
        let ghost short = start.short();
        assert(window.skip(0) =~= window);
        let difficulty: u8 = field(stream, Ghost(start), Ghost(begin()))?;
        let ghost at1 = step(begin(), u8::parse(window, short));
        let is_locked: bool = field(stream, Ghost(start), Ghost(at1))?;
        Ok(ChangeDifficulty { difficulty, is_locked })
    }
}

/// What a player is able to do, as flags.
#[derive(Debug, Clone, Copy, PartialEq, Eq, Structural)]
pub struct PlayerAbilitiesFlags(pub u8);

impl DeepView for PlayerAbilitiesFlags {
    type V = u8;

    open spec fn deep_view(&self) -> Self::V {
        self.0.deep_view()
    }
}

impl Serialize for PlayerAbilitiesFlags {
    open spec fn wire(&self) -> Seq<u8> {
        self.0.wire()
    }

    open spec fn encodable(&self) -> bool {
        self.0.encodable()
    }

    fn size(&self) -> (size: usize) {
        self.0.size()
    }

    fn checked_size(&self) -> (size: Option<usize>) {
        let size = self.0.checked_size();
        size
    }

    fn serialize(&self, stream: &mut Vec<u8>) {
        self.0.serialize(stream);
        assert(stream@ =~= old(stream)@ + self.wire());
    }
}

impl Deserialize for PlayerAbilitiesFlags {
    open spec fn parse(window: Seq<u8>, short: bool) -> Outcome<Self::V> {
        let r0 = u8::parse(window, short);
        let at1 = step(begin(), r0);
        finish(at1, r0.result->Ok_0)
    }

    fn deserialize(stream: &mut DataStream) -> (result: Result<Self, DeserializeError>) {
        broadcast use lemma_advance_zero;

        let ghost start = stream@;
        let ghost window = start.window();
        let ghost short = start.short();
        assert(window.skip(0) =~= window);
        let v0: u8 = field(stream, Ghost(start), Ghost(begin()))?;
        Ok(PlayerAbilitiesFlags(v0))
    }
}

impl RoundTrip for PlayerAbilitiesFlags {
    open spec fn readable(&self) -> bool {
        self.0.readable()
    }

    proof fn lemma_round_trip(&self, rest: Seq<u8>, short: bool) {
        let window = self.wire() + rest;
        assert(window =~= self.0.wire() + (rest));
        self.0.lemma_round_trip(rest, short);
    }
}

impl PlayerAbilitiesFlags {
    pub const INVULNERABLE: u8 = 0x1;

    pub const FLYING: u8 = 0x2;

    pub const ALLOW_FLYING: u8 = 0x4;

    pub const CREATIVE_MODE: u8 = 0x8;

    /// The set that holds no flag.
    pub fn empty() -> (flags: Self)
        ensures
            flags.0 == 0,
    {
        Self(0)
    }

    /// The set that holds just the bits of `bits`, known or not.
    pub fn from_bits_retain(bits: u8) -> (flags: Self)
        ensures
            flags.0 == bits,
    {
        Self(bits)
    }

    /// The bits of the set.
    pub fn bits(&self) -> (bits: u8)
        ensures
            bits == self.0,
    {
        self.0
    }

    /// Whether the set holds every bit of `flag`.
    pub fn contains(&self, flag: u8) -> (held: bool)
        ensures
            held == (self.0 & flag == flag),
    {
        self.0 & flag == flag
    }
}

/// The player's abilities.
#[derive(Debug)]
pub struct PlayerAbilities {
    pub flags: PlayerAbilitiesFlags,
    pub flying_speed: Float,
    pub fov_modified: Float,
}

impl DeepView for PlayerAbilities {
    type V = (u8, Float, Float);

    open spec fn deep_view(&self) -> Self::V {
        (self.flags.deep_view(), self.flying_speed.deep_view(), self.fov_modified.deep_view())
    }
}

impl Deserialize for PlayerAbilities {
    open spec fn parse(window: Seq<u8>, short: bool) -> Outcome<Self::V> {
        let r0 = PlayerAbilitiesFlags::parse(window, short);
        let at1 = step(begin(), r0);
        let r1 = Float::parse(window.skip(at1.used as int), short);
        let at2 = step(at1, r1);
        let r2 = Float::parse(window.skip(at2.used as int), short);
        let at3 = step(at2, r2);
        finish(at3, (r0.result->Ok_0, r1.result->Ok_0, r2.result->Ok_0))
    }

    fn deserialize(stream: &mut DataStream) -> (result: Result<Self, DeserializeError>) {
        broadcast use lemma_advance_zero;

        let ghost start = stream@;
        let ghost window = start.window();
        let ghost short = start.short();
        assert(window.skip(0) =~= window);
        let flags: PlayerAbilitiesFlags = field(stream, Ghost(start), Ghost(begin()))?;
        let ghost at1 = step(begin(), PlayerAbilitiesFlags::parse(window, short));
        let flying_speed: Float = field(stream, Ghost(start), Ghost(at1))?;
        let ghost at2 = step(at1, Float::parse(window.skip(at1.used as int), short));
        let fov_modified: Float = field(stream, Ghost(start), Ghost(at2))?;
        Ok(PlayerAbilities { flags, flying_speed, fov_modified })
    }
}

/// The slot of the item in hand.
#[derive(Debug)]
pub struct SetHeldItem {
    pub slot: VarInt,
}

impl DeepView for SetHeldItem {
    type V = VarInt;

    open spec fn deep_view(&self) -> Self::V {
        self.slot.deep_view()
    }
}

impl Deserialize for SetHeldItem {
    open spec fn parse(window: Seq<u8>, short: bool) -> Outcome<Self::V> {
        let r0 = VarInt::parse(window, short);
        let at1 = step(begin(), r0);
        finish(at1, r0.result->Ok_0)
    }

    fn deserialize(stream: &mut DataStream) -> (result: Result<Self, DeserializeError>) {
        broadcast use lemma_advance_zero;

        let ghost start = stream@;
        let ghost window = start.window();
        let ghost short = start.short();
        assert(window.skip(0) =~= window);
        let slot: VarInt = field(stream, Ghost(start), Ghost(begin()))?;
        Ok(SetHeldItem { slot })
    }
}

/// The recipes that the client may show.
#[derive(Debug)]
pub struct UpdateRecipes {
    pub property_sets: Vec<(String, Vec<VarInt>)>,
    pub stonecutter_recipes: Vec<(IdSet, SlotDisplay)>,
}

impl DeepView for UpdateRecipes {
    type V = (Seq<(Seq<char>, Seq<VarInt>)>, Seq<(IdSetValue, SlotDisplayValue)>);

    open spec fn deep_view(&self) -> Self::V {
        (self.property_sets.deep_view(), self.stonecutter_recipes.deep_view())
    }
}

impl Deserialize for UpdateRecipes {
    open spec fn parse(window: Seq<u8>, short: bool) -> Outcome<Self::V> {
        let r0 = Vec::<(String, Vec<VarInt>)>::parse(window, short);
        let at1 = step(begin(), r0);
        let r1 = Vec::<(IdSet, SlotDisplay)>::parse(window.skip(at1.used as int), short);
        let at2 = step(at1, r1);
        finish(at2, (r0.result->Ok_0, r1.result->Ok_0))
    }

    fn deserialize(stream: &mut DataStream) -> (result: Result<Self, DeserializeError>) {
        broadcast use lemma_advance_zero;

        let ghost start = stream@;
        let ghost window = start.window();
        let ghost short = start.short();
        assert(window.skip(0) =~= window);
        let property_sets: Vec<(
            String,
            Vec<VarInt>,
        )> = field(stream, Ghost(start), Ghost(begin()))?;
        let ghost at1 = step(begin(), Vec::<(String, Vec<VarInt>)>::parse(window, short));
        let stonecutter_recipes: Vec<(
            IdSet,
            SlotDisplay,
        )> = field(stream, Ghost(start), Ghost(at1))?;
        Ok(UpdateRecipes { property_sets, stonecutter_recipes })
    }
}

/// Something happened to an entity.
#[derive(Debug)]
pub struct EntityEvent {
    pub id: EntityId,
    pub entity_status: i8,
}

impl DeepView for EntityEvent {
    type V = (i32, i8);

    open spec fn deep_view(&self) -> Self::V {
        (self.id.deep_view(), self.entity_status.deep_view())
    }
}

impl Deserialize for EntityEvent {
    open spec fn parse(window: Seq<u8>, short: bool) -> Outcome<Self::V> {
        let r0 = EntityId::parse(window, short);
        let at1 = step(begin(), r0);
        let r1 = i8::parse(window.skip(at1.used as int), short);
        let at2 = step(at1, r1);
        finish(at2, (r0.result->Ok_0, r1.result->Ok_0))
    }

    fn deserialize(stream: &mut DataStream) -> (result: Result<Self, DeserializeError>) {
        broadcast use lemma_advance_zero;

        let ghost start = stream@;
        let ghost window = start.window();
        let ghost short = start.short();
        assert(window.skip(0) =~= window);
        let id: EntityId = field(stream, Ghost(start), Ghost(begin()))?;
        let ghost at1 = step(begin(), EntityId::parse(window, short));
        let entity_status: i8 = field(stream, Ghost(start), Ghost(at1))?;
        Ok(EntityEvent { id, entity_status })
    }
}

/// Which parts of a teleport are relative to where the player is, as flags.
#[derive(Debug, Clone, Copy, PartialEq, Eq, Structural)]
pub struct TeleportFlags(pub i32);

impl DeepView for TeleportFlags {
    type V = i32;

    open spec fn deep_view(&self) -> Self::V {
        self.0.deep_view()
    }
}

impl Serialize for TeleportFlags {
    open spec fn wire(&self) -> Seq<u8> {
        self.0.wire()
    }

    open spec fn encodable(&self) -> bool {
        self.0.encodable()
    }

    fn size(&self) -> (size: usize) {
        self.0.size()
    }

    fn checked_size(&self) -> (size: Option<usize>) {
        let size = self.0.checked_size();
        size
    }

    fn serialize(&self, stream: &mut Vec<u8>) {
        self.0.serialize(stream);
        assert(stream@ =~= old(stream)@ + self.wire());
    }
}

impl Deserialize for TeleportFlags {
    open spec fn parse(window: Seq<u8>, short: bool) -> Outcome<Self::V> {
        let r0 = i32::parse(window, short);
        let at1 = step(begin(), r0);
        finish(at1, r0.result->Ok_0)
    }

    fn deserialize(stream: &mut DataStream) -> (result: Result<Self, DeserializeError>) {
        broadcast use lemma_advance_zero;

        let ghost start = stream@;
        let ghost window = start.window();
        let ghost short = start.short();
        assert(window.skip(0) =~= window);
        let v0: i32 = field(stream, Ghost(start), Ghost(begin()))?;
        Ok(TeleportFlags(v0))
    }
}

impl RoundTrip for TeleportFlags {
    open spec fn readable(&self) -> bool {
        self.0.readable()
    }

    proof fn lemma_round_trip(&self, rest: Seq<u8>, short: bool) {
        let window = self.wire() + rest;
        assert(window =~= self.0.wire() + (rest));
        self.0.lemma_round_trip(rest, short);
    }
}

impl TeleportFlags {
    pub const RX: i32 = 0b1;

    pub const RY: i32 = 0b10;

    pub const RZ: i32 = 0b100;

    pub const RYAW: i32 = 0b1000;

    pub const RPITCH: i32 = 0b10000;

    pub const RVX: i32 = 0b100000;

    pub const RVY: i32 = 0b1000000;

    pub const RVZ: i32 = 0b10000000;

    pub const ROTATE_BEFORE: i32 = 0x100;

    /// The set that holds no flag.
    pub fn empty() -> (flags: Self)
        ensures
            flags.0 == 0,
    {
        Self(0)
    }

    /// The set that holds just the bits of `bits`, known or not.
    pub fn from_bits_retain(bits: i32) -> (flags: Self)
        ensures
            flags.0 == bits,
    {
        Self(bits)
    }

    /// The bits of the set.
    pub fn bits(&self) -> (bits: i32)
        ensures
            bits == self.0,
    {
        self.0
    }

    /// Whether the set holds every bit of `flag`.
    pub fn contains(&self, flag: i32) -> (held: bool)
        ensures
            held == (self.0 & flag == flag),
    {
        self.0 & flag == flag
    }
}

/// The server moves the player.
#[derive(Debug)]
pub struct SynchronizePlayerPosition {
    pub teleport_id: VarInt,
    pub position: Vec3d,
    pub speed: Vec3d,
    pub rotation: Rotation,
    pub flags: TeleportFlags,
}

impl DeepView for SynchronizePlayerPosition {
    type V = (VarInt, (Double, Double, Double), (Double, Double, Double), (Float, Float), i32);

    open spec fn deep_view(&self) -> Self::V {
        (
            self.teleport_id.deep_view(),
            self.position.deep_view(),
            self.speed.deep_view(),
            self.rotation.deep_view(),
            self.flags.deep_view(),
        )
    }
}

impl Deserialize for SynchronizePlayerPosition {
    open spec fn parse(window: Seq<u8>, short: bool) -> Outcome<Self::V> {
        let r0 = VarInt::parse(window, short);
        let at1 = step(begin(), r0);
        let r1 = Vec3d::parse(window.skip(at1.used as int), short);
        let at2 = step(at1, r1);
        let r2 = Vec3d::parse(window.skip(at2.used as int), short);
        let at3 = step(at2, r2);
        let r3 = Rotation::parse(window.skip(at3.used as int), short);
        let at4 = step(at3, r3);
        let r4 = TeleportFlags::parse(window.skip(at4.used as int), short);
        let at5 = step(at4, r4);
        finish(
            at5,
            (r0.result->Ok_0, r1.result->Ok_0, r2.result->Ok_0, r3.result->Ok_0, r4.result->Ok_0),
        )
    }

    fn deserialize(stream: &mut DataStream) -> (result: Result<Self, DeserializeError>) {
        broadcast use lemma_advance_zero;

        let ghost start = stream@;
        let ghost window = start.window();
        let ghost short = start.short();
        assert(window.skip(0) =~= window);
        let teleport_id: VarInt = field(stream, Ghost(start), Ghost(begin()))?;
        let ghost at1 = step(begin(), VarInt::parse(window, short));
        let position: Vec3d = field(stream, Ghost(start), Ghost(at1))?;
        let ghost at2 = step(at1, Vec3d::parse(window.skip(at1.used as int), short));
        let speed: Vec3d = field(stream, Ghost(start), Ghost(at2))?;
        let ghost at3 = step(at2, Vec3d::parse(window.skip(at2.used as int), short));
        let rotation: Rotation = field(stream, Ghost(start), Ghost(at3))?;
        let ghost at4 = step(at3, Rotation::parse(window.skip(at3.used as int), short));
        let flags: TeleportFlags = field(stream, Ghost(start), Ghost(at4))?;
        Ok(SynchronizePlayerPosition { teleport_id, position, speed, rotation, flags })
    }
}

/// The client has seen that the server moved the player.
#[derive(Debug)]
pub struct ConfirmTeleportation {
    pub teleport_id: VarInt,
}

impl DeepView for ConfirmTeleportation {
    type V = VarInt;

    open spec fn deep_view(&self) -> Self::V {
        self.teleport_id.deep_view()
    }
}

impl Serialize for ConfirmTeleportation {
    open spec fn wire(&self) -> Seq<u8> {
        self.teleport_id.wire()
    }

    open spec fn encodable(&self) -> bool {
        self.teleport_id.encodable()
    }

    fn size(&self) -> (size: usize) {
        self.teleport_id.size()
    }

    fn checked_size(&self) -> (size: Option<usize>) {
        let size = self.teleport_id.checked_size();
        size
    }

    fn serialize(&self, stream: &mut Vec<u8>) {
        self.teleport_id.serialize(stream);
        assert(stream@ =~= old(stream)@ + self.wire());
    }
}

impl ServerboundPacket for ConfirmTeleportation {
    const ID: u32 = 0;
}

/// What to do with a waypoint.
#[derive(Debug, Clone, Copy, PartialEq, Eq, Structural)]
pub enum WaypointOperation {
    Track,
    Untrack,
    Update,
}

impl DeepView for WaypointOperation {
    type V = WaypointOperation;

    open spec fn deep_view(&self) -> WaypointOperation {
        *self
    }
}

impl Deserialize for WaypointOperation {
    open spec fn parse(window: Seq<u8>, short: bool) -> Outcome<WaypointOperation> {
        let tag = VarInt::parse(window, short);
        match tag.result {
            Err(failure) => failed(failure, tag.used),
            Ok(VarInt(n)) => if n == 0 {
                done(WaypointOperation::Track, tag.used)
            } else if n == 1 {
                done(WaypointOperation::Untrack, tag.used)
            } else if n == 2 {
                done(WaypointOperation::Update, tag.used)
            } else {
                failed(
                    Failure::Malformed(
                        number_message("WaypointOperation: invalid type "@, n as int, ""@),
                    ),
                    tag.used,
                )
            },
        }
    }

    fn deserialize(stream: &mut DataStream) -> (result: Result<Self, DeserializeError>) {
        let repr = VarInt::deserialize(stream)?;
        match repr.0 {
            0 => Ok(WaypointOperation::Track),
            1 => Ok(WaypointOperation::Untrack),
            2 => Ok(WaypointOperation::Update),
            other =>
                Err(malformed_with_number("WaypointOperation: invalid type ", other as i64, "")),
        }
    }
}

/// Where a waypoint lies.
#[derive(Debug)]
pub enum WaypointData {
    Empty,
    Vec3i(Vec3<VarInt>),
    Chunk { x: VarInt, z: VarInt },
    Azimuth(Float),
}

/// What a [`WaypointData`] stands for.
pub enum WaypointDataValue {
    Empty,
    Vec3i((VarInt, VarInt, VarInt)),
    Chunk { x: VarInt, z: VarInt },
    Azimuth(Float),
}

impl DeepView for WaypointData {
    type V = WaypointDataValue;

    open spec fn deep_view(&self) -> WaypointDataValue {
        match self {
            WaypointData::Empty => WaypointDataValue::Empty,
            WaypointData::Vec3i(v0) => WaypointDataValue::Vec3i(v0.deep_view()),
            WaypointData::Chunk { x, z } =>
                WaypointDataValue::Chunk { x: x.deep_view(), z: z.deep_view() },
            WaypointData::Azimuth(v0) => WaypointDataValue::Azimuth(v0.deep_view()),
        }
    }
}

impl Deserialize for WaypointData {
    open spec fn parse(window: Seq<u8>, short: bool) -> Outcome<WaypointDataValue> {
        let tag = VarInt::parse(window, short);
        let body = window.skip(tag.used as int);
        match tag.result {
            Err(failure) => failed(failure, tag.used),
            Ok(VarInt(n)) => if n == 0 {
                done(WaypointDataValue::Empty, tag.used)
            } else if n == 1 {
                behind(
                    tag.used,
                    made(
                        Vec3::<VarInt>::parse(body, short),
                        |v: (VarInt, VarInt, VarInt)| WaypointDataValue::Vec3i(v),
                    ),
                )
            } else if n == 2 {
                behind(
                    tag.used,
                    made(
                        <(VarInt, VarInt)>::parse(body, short),
                        |v: (VarInt, VarInt)| WaypointDataValue::Chunk { x: v.0, z: v.1 },
                    ),
                )
            } else if n == 3 {
                behind(
                    tag.used,
                    made(Float::parse(body, short), |v: Float| WaypointDataValue::Azimuth(v)),
                )
            } else {
                failed(
                    Failure::Malformed(
                        number_message("WaypointData: invalid type "@, n as int, ""@),
                    ),
                    tag.used,
                )
            },
        }
    }

    fn deserialize(stream: &mut DataStream) -> (result: Result<Self, DeserializeError>) {
        let ghost start = stream@;
        let ghost tag = VarInt::parse(start.window(), start.short());
        let repr = VarInt::deserialize(stream)?;
        proof {
            lemma_advance_window(start, tag.used);
        }
        match repr.0 {
            0 => Ok(WaypointData::Empty),
            1 => {
                let ghost read = <Vec3<VarInt>>::parse(stream@.window(), stream@.short());
                let value = <Vec3<VarInt>>::deserialize(stream);
                proof {
                    lemma_advance_twice(start, tag.used, read.used);
                }
                Ok(WaypointData::Vec3i(value?))
            },
            2 => {
                let ghost read = <(VarInt, VarInt)>::parse(stream@.window(), stream@.short());
                let value = <(VarInt, VarInt)>::deserialize(stream);
                proof {
                    lemma_advance_twice(start, tag.used, read.used);
                }
                let (first, second) = value?;
                Ok(WaypointData::Chunk { x: first, z: second })
            },
            3 => {
                let ghost read = <Float>::parse(stream@.window(), stream@.short());
                let value = <Float>::deserialize(stream);
                proof {
                    lemma_advance_twice(start, tag.used, read.used);
                }
                Ok(WaypointData::Azimuth(value?))
            },
            other => Err(malformed_with_number("WaypointData: invalid type ", other as i64, "")),
        }
    }
}

/// A waypoint to track, to drop or to change.
#[derive(Debug)]
pub struct Waypoint {
    pub operation: WaypointOperation,
    pub identifier: Or<u128, String>,
    pub icon_style: String,
    pub color: Option<Color>,
    pub waypoint_data: WaypointData,
}

impl DeepView for Waypoint {
    type V = (
        WaypointOperation,
        Or<u128, Seq<char>>,
        Seq<char>,
        Option<(u8, u8, u8)>,
        WaypointDataValue,
    );

    open spec fn deep_view(&self) -> Self::V {
        (
            self.operation.deep_view(),
            self.identifier.deep_view(),
            self.icon_style.deep_view(),
            self.color.deep_view(),
            self.waypoint_data.deep_view(),
        )
    }
}

impl Deserialize for Waypoint {
    open spec fn parse(window: Seq<u8>, short: bool) -> Outcome<Self::V> {
        let r0 = WaypointOperation::parse(window, short);
        let at1 = step(begin(), r0);
        let r1 = Or::<u128, String>::parse(window.skip(at1.used as int), short);
        let at2 = step(at1, r1);
        let r2 = String::parse(window.skip(at2.used as int), short);
        let at3 = step(at2, r2);
        let r3 = Option::<Color>::parse(window.skip(at3.used as int), short);
        let at4 = step(at3, r3);
        let r4 = WaypointData::parse(window.skip(at4.used as int), short);
        let at5 = step(at4, r4);
        finish(
            at5,
            (r0.result->Ok_0, r1.result->Ok_0, r2.result->Ok_0, r3.result->Ok_0, r4.result->Ok_0),
        )
    }

    fn deserialize(stream: &mut DataStream) -> (result: Result<Self, DeserializeError>) {
        broadcast use lemma_advance_zero;

        let ghost start = stream@;
        let ghost window = start.window();
        let ghost short = start.short();
        assert(window.skip(0) =~= window);
        let operation: WaypointOperation = field(stream, Ghost(start), Ghost(begin()))?;
        let ghost at1 = step(begin(), WaypointOperation::parse(window, short));
        let identifier: Or<u128, String> = field(stream, Ghost(start), Ghost(at1))?;
        let ghost at2 = step(at1, Or::<u128, String>::parse(window.skip(at1.used as int), short));
        let icon_style: String = field(stream, Ghost(start), Ghost(at2))?;
        let ghost at3 = step(at2, String::parse(window.skip(at2.used as int), short));
        let color: Option<Color> = field(stream, Ghost(start), Ghost(at3))?;
        let ghost at4 = step(at3, Option::<Color>::parse(window.skip(at3.used as int), short));
        let waypoint_data: WaypointData = field(stream, Ghost(start), Ghost(at4))?;
        Ok(Waypoint { operation, identifier, icon_style, color, waypoint_data })
    }
}

/// An entity moved a little.
#[derive(Debug)]
pub struct UpdateEntityPosition {
    pub entity_id: VarInt,
    pub dx: i16,
    pub dy: i16,
    pub dz: i16,
    pub on_ground: bool,
}

impl DeepView for UpdateEntityPosition {
    type V = (VarInt, i16, i16, i16, bool);

    open spec fn deep_view(&self) -> Self::V {
        (
            self.entity_id.deep_view(),
            self.dx.deep_view(),
            self.dy.deep_view(),
            self.dz.deep_view(),
            self.on_ground.deep_view(),
        )
    }
}

impl Deserialize for UpdateEntityPosition {
    open spec fn parse(window: Seq<u8>, short: bool) -> Outcome<Self::V> {
        let r0 = VarInt::parse(window, short);
        let at1 = step(begin(), r0);
        let r1 = i16::parse(window.skip(at1.used as int), short);
        let at2 = step(at1, r1);
        let r2 = i16::parse(window.skip(at2.used as int), short);
        let at3 = step(at2, r2);
        let r3 = i16::parse(window.skip(at3.used as int), short);
        let at4 = step(at3, r3);
        let r4 = bool::parse(window.skip(at4.used as int), short);
        let at5 = step(at4, r4);
        finish(
            at5,
            (r0.result->Ok_0, r1.result->Ok_0, r2.result->Ok_0, r3.result->Ok_0, r4.result->Ok_0),
        )
    }

    fn deserialize(stream: &mut DataStream) -> (result: Result<Self, DeserializeError>) {
        broadcast use lemma_advance_zero;

        let ghost start = stream@;
        let ghost window = start.window();
        let ghost short = start.short();
        assert(window.skip(0) =~= window);
        let entity_id: VarInt = field(stream, Ghost(start), Ghost(begin()))?;
        let ghost at1 = step(begin(), VarInt::parse(window, short));
        let dx: i16 = field(stream, Ghost(start), Ghost(at1))?;
        let ghost at2 = step(at1, i16::parse(window.skip(at1.used as int), short));
        let dy: i16 = field(stream, Ghost(start), Ghost(at2))?;
        let ghost at3 = step(at2, i16::parse(window.skip(at2.used as int), short));
        let dz: i16 = field(stream, Ghost(start), Ghost(at3))?;
        let ghost at4 = step(at3, i16::parse(window.skip(at3.used as int), short));
        let on_ground: bool = field(stream, Ghost(start), Ghost(at4))?;
        Ok(UpdateEntityPosition { entity_id, dx, dy, dz, on_ground })
    }
}

/// An entity moved a little and turned.
#[derive(Debug)]
pub struct UpdateEntityPositionRotation {
    pub entity_id: VarInt,
    pub dx: i16,
    pub dy: i16,
    pub dz: i16,
    pub yaw: Angle,
    pub pitch: Angle,
    pub on_ground: bool,
}

impl DeepView for UpdateEntityPositionRotation {
    type V = (VarInt, i16, i16, i16, u8, u8, bool);

    open spec fn deep_view(&self) -> Self::V {
        (
            self.entity_id.deep_view(),
            self.dx.deep_view(),
            self.dy.deep_view(),
            self.dz.deep_view(),
            self.yaw.deep_view(),
            self.pitch.deep_view(),
            self.on_ground.deep_view(),
        )
    }
}

impl Deserialize for UpdateEntityPositionRotation {
    open spec fn parse(window: Seq<u8>, short: bool) -> Outcome<Self::V> {
        let r0 = VarInt::parse(window, short);
        let at1 = step(begin(), r0);
        let r1 = i16::parse(window.skip(at1.used as int), short);
        let at2 = step(at1, r1);
        let r2 = i16::parse(window.skip(at2.used as int), short);
        let at3 = step(at2, r2);
        let r3 = i16::parse(window.skip(at3.used as int), short);
        let at4 = step(at3, r3);
        let r4 = Angle::parse(window.skip(at4.used as int), short);
        let at5 = step(at4, r4);
        let r5 = Angle::parse(window.skip(at5.used as int), short);
        let at6 = step(at5, r5);
        let r6 = bool::parse(window.skip(at6.used as int), short);
        let at7 = step(at6, r6);
        finish(
            at7,
            (
                r0.result->Ok_0,
                r1.result->Ok_0,
                r2.result->Ok_0,
                r3.result->Ok_0,
                r4.result->Ok_0,
                r5.result->Ok_0,
                r6.result->Ok_0,
            ),
        )
    }

    fn deserialize(stream: &mut DataStream) -> (result: Result<Self, DeserializeError>) {
        broadcast use lemma_advance_zero;

        let ghost start = stream@;
        let ghost window = start.window();
        let ghost short = start.short();
        assert(window.skip(0) =~= window);
        let entity_id: VarInt = field(stream, Ghost(start), Ghost(begin()))?;
        let ghost at1 = step(begin(), VarInt::parse(window, short));
        let dx: i16 = field(stream, Ghost(start), Ghost(at1))?;
        let ghost at2 = step(at1, i16::parse(window.skip(at1.used as int), short));
        let dy: i16 = field(stream, Ghost(start), Ghost(at2))?;
        let ghost at3 = step(at2, i16::parse(window.skip(at2.used as int), short));
        let dz: i16 = field(stream, Ghost(start), Ghost(at3))?;
        let ghost at4 = step(at3, i16::parse(window.skip(at3.used as int), short));
        let yaw: Angle = field(stream, Ghost(start), Ghost(at4))?;
        let ghost at5 = step(at4, Angle::parse(window.skip(at4.used as int), short));
        let pitch: Angle = field(stream, Ghost(start), Ghost(at5))?;
        let ghost at6 = step(at5, Angle::parse(window.skip(at5.used as int), short));
        let on_ground: bool = field(stream, Ghost(start), Ghost(at6))?;
        Ok(UpdateEntityPositionRotation { entity_id, dx, dy, dz, yaw, pitch, on_ground })
    }
}

/// How the player stands, as flags.
#[derive(Debug, Clone, Copy, PartialEq, Eq, Structural)]
pub struct PlayerPosFlags(pub u8);

impl DeepView for PlayerPosFlags {
    type V = u8;

    open spec fn deep_view(&self) -> Self::V {
        self.0.deep_view()
    }
}

impl Serialize for PlayerPosFlags {
    open spec fn wire(&self) -> Seq<u8> {
        self.0.wire()
    }

    open spec fn encodable(&self) -> bool {
        self.0.encodable()
    }

    fn size(&self) -> (size: usize) {
        self.0.size()
    }

    fn checked_size(&self) -> (size: Option<usize>) {
        let size = self.0.checked_size();
        size
    }

    fn serialize(&self, stream: &mut Vec<u8>) {
        self.0.serialize(stream);
        assert(stream@ =~= old(stream)@ + self.wire());
    }
}

impl Deserialize for PlayerPosFlags {
    open spec fn parse(window: Seq<u8>, short: bool) -> Outcome<Self::V> {
        let r0 = u8::parse(window, short);
        let at1 = step(begin(), r0);
        finish(at1, r0.result->Ok_0)
    }

    fn deserialize(stream: &mut DataStream) -> (result: Result<Self, DeserializeError>) {
        broadcast use lemma_advance_zero;

        let ghost start = stream@;
        let ghost window = start.window();
        let ghost short = start.short();
        assert(window.skip(0) =~= window);
        let v0: u8 = field(stream, Ghost(start), Ghost(begin()))?;
        Ok(PlayerPosFlags(v0))
    }
}

impl RoundTrip for PlayerPosFlags {
    open spec fn readable(&self) -> bool {
        self.0.readable()
    }

    proof fn lemma_round_trip(&self, rest: Seq<u8>, short: bool) {
        let window = self.wire() + rest;
        assert(window =~= self.0.wire() + (rest));
        self.0.lemma_round_trip(rest, short);
    }
}

impl PlayerPosFlags {
    pub const ON_GROUND: u8 = 1;

    pub const PUSHING_WALL: u8 = 2;

    /// The set that holds no flag.
    pub fn empty() -> (flags: Self)
        ensures
            flags.0 == 0,
    {
        Self(0)
    }

    /// The set that holds just the bits of `bits`, known or not.
    pub fn from_bits_retain(bits: u8) -> (flags: Self)
        ensures
            flags.0 == bits,
    {
        Self(bits)
    }

    /// The bits of the set.
    pub fn bits(&self) -> (bits: u8)
        ensures
            bits == self.0,
    {
        self.0
    }

    /// Whether the set holds every bit of `flag`.
    pub fn contains(&self, flag: u8) -> (held: bool)
        ensures
            held == (self.0 & flag == flag),
    {
        self.0 & flag == flag
    }
}

/// The player moved.
#[derive(Debug)]
pub struct SetPlayerPosition {
    /// Y is feet Y
    pub pos: Vec3d,
    pub flags: PlayerPosFlags,
}

impl DeepView for SetPlayerPosition {
    type V = ((Double, Double, Double), u8);

    open spec fn deep_view(&self) -> Self::V {
        (self.pos.deep_view(), self.flags.deep_view())
    }
}

impl Serialize for SetPlayerPosition {
    open spec fn wire(&self) -> Seq<u8> {
        self.pos.wire() + self.flags.wire()
    }

    open spec fn encodable(&self) -> bool {
        self.pos.encodable() && self.flags.encodable()
    }

    fn size(&self) -> (size: usize) {
        self.pos.size() + self.flags.size()
    }

    fn checked_size(&self) -> (size: Option<usize>) {
        let size = self.pos.checked_size();
        let size = add_sizes(size, self.flags.checked_size());
        size
    }

    fn serialize(&self, stream: &mut Vec<u8>) {
        self.pos.serialize(stream);
        self.flags.serialize(stream);
        assert(stream@ =~= old(stream)@ + self.wire());
    }
}

impl ServerboundPacket for SetPlayerPosition {
    const ID: u32 = 0x1D;
}

/// The player moved and turned.
#[derive(Debug)]
pub struct SetPlayerPositionRotation {
    /// Y is feet Y
    pub pos: Vec3d,
    pub rotation: Rotation,
    pub flags: PlayerPosFlags,
}

impl DeepView for SetPlayerPositionRotation {
    type V = ((Double, Double, Double), (Float, Float), u8);

    open spec fn deep_view(&self) -> Self::V {
        (self.pos.deep_view(), self.rotation.deep_view(), self.flags.deep_view())
    }
}

impl Serialize for SetPlayerPositionRotation {
    open spec fn wire(&self) -> Seq<u8> {
        self.pos.wire() + self.rotation.wire() + self.flags.wire()
    }

    open spec fn encodable(&self) -> bool {
        self.pos.encodable() && self.rotation.encodable() && self.flags.encodable()
    }

    fn size(&self) -> (size: usize) {
        self.pos.size() + self.rotation.size() + self.flags.size()
    }

    fn checked_size(&self) -> (size: Option<usize>) {
        let size = self.pos.checked_size();
        let size = add_sizes(size, self.rotation.checked_size());
        let size = add_sizes(size, self.flags.checked_size());
        size
    }

    fn serialize(&self, stream: &mut Vec<u8>) {
        self.pos.serialize(stream);
        self.rotation.serialize(stream);
        self.flags.serialize(stream);
        assert(stream@ =~= old(stream)@ + self.wire());
    }
}

impl ServerboundPacket for SetPlayerPositionRotation {
    const ID: u32 = 0x1E;
}

/// The player turned.
#[derive(Debug)]
pub struct SetPlayerRotation {
    pub rotation: Rotation,
    pub flags: PlayerPosFlags,
}

impl DeepView for SetPlayerRotation {
    type V = ((Float, Float), u8);

    open spec fn deep_view(&self) -> Self::V {
        (self.rotation.deep_view(), self.flags.deep_view())
    }
}

impl Serialize for SetPlayerRotation {
    open spec fn wire(&self) -> Seq<u8> {
        self.rotation.wire() + self.flags.wire()
    }

    open spec fn encodable(&self) -> bool {
        self.rotation.encodable() && self.flags.encodable()
    }

    fn size(&self) -> (size: usize) {
        self.rotation.size() + self.flags.size()
    }

    fn checked_size(&self) -> (size: Option<usize>) {
        let size = self.rotation.checked_size();
        let size = add_sizes(size, self.flags.checked_size());
        size
    }

    fn serialize(&self, stream: &mut Vec<u8>) {
        self.rotation.serialize(stream);
        self.flags.serialize(stream);
        assert(stream@ =~= old(stream)@ + self.wire());
    }
}

impl ServerboundPacket for SetPlayerRotation {
    const ID: u32 = 0x1F;
}

/// The key with which a player signs chat.
#[derive(Debug)]
pub struct InitializeChatData {
    pub uuid: u128,
    pub key_expiry_time: i64,
    pub public_key: Vec<u8>,
    pub key_signature: Vec<u8>,
}

impl DeepView for InitializeChatData {
    type V = (u128, i64, Seq<u8>, Seq<u8>);

    open spec fn deep_view(&self) -> Self::V {
        (
            self.uuid.deep_view(),
            self.key_expiry_time.deep_view(),
            self.public_key.deep_view(),
            self.key_signature.deep_view(),
        )
    }
}

impl Deserialize for InitializeChatData {
    open spec fn parse(window: Seq<u8>, short: bool) -> Outcome<Self::V> {
        let r0 = u128::parse(window, short);
        let at1 = step(begin(), r0);
        let r1 = i64::parse(window.skip(at1.used as int), short);
        let at2 = step(at1, r1);
        let r2 = Vec::<u8>::parse(window.skip(at2.used as int), short);
        let at3 = step(at2, r2);
        let r3 = Vec::<u8>::parse(window.skip(at3.used as int), short);
        let at4 = step(at3, r3);
        finish(at4, (r0.result->Ok_0, r1.result->Ok_0, r2.result->Ok_0, r3.result->Ok_0))
    }

    fn deserialize(stream: &mut DataStream) -> (result: Result<Self, DeserializeError>) {
        broadcast use lemma_advance_zero;

        let ghost start = stream@;
        let ghost window = start.window();
        let ghost short = start.short();
        assert(window.skip(0) =~= window);
        let uuid: u128 = field(stream, Ghost(start), Ghost(begin()))?;
        let ghost at1 = step(begin(), u128::parse(window, short));
        let key_expiry_time: i64 = field(stream, Ghost(start), Ghost(at1))?;
        let ghost at2 = step(at1, i64::parse(window.skip(at1.used as int), short));
        let public_key: Vec<u8> = field(stream, Ghost(start), Ghost(at2))?;
        let ghost at3 = step(at2, Vec::<u8>::parse(window.skip(at2.used as int), short));
        let key_signature: Vec<u8> = field(stream, Ghost(start), Ghost(at3))?;
        Ok(InitializeChatData { uuid, key_expiry_time, public_key, key_signature })
    }
}

/// An entity appeared.
#[derive(Debug)]
pub struct AddEntity {
    pub entity_id: VarInt,
    pub uuid: u128,
    pub entity_type: VarInt,
    pub pos: Vec3d,
    pub pitch: Angle,
    pub yaw: Angle,
    pub head_yaw: Angle,
    pub data: VarInt,
    pub vx: i16,
    pub vy: i16,
    pub vz: i16,
}

impl DeepView for AddEntity {
    type V = (VarInt, u128, VarInt, (Double, Double, Double), u8, u8, u8, VarInt, i16, i16, i16);

    open spec fn deep_view(&self) -> Self::V {
        (
            self.entity_id.deep_view(),
            self.uuid.deep_view(),
            self.entity_type.deep_view(),
            self.pos.deep_view(),
            self.pitch.deep_view(),
            self.yaw.deep_view(),
            self.head_yaw.deep_view(),
            self.data.deep_view(),
            self.vx.deep_view(),
            self.vy.deep_view(),
            self.vz.deep_view(),
        )
    }
}

impl Deserialize for AddEntity {
    open spec fn parse(window: Seq<u8>, short: bool) -> Outcome<Self::V> {
        let r0 = VarInt::parse(window, short);
        let at1 = step(begin(), r0);
        let r1 = u128::parse(window.skip(at1.used as int), short);
        let at2 = step(at1, r1);
        let r2 = VarInt::parse(window.skip(at2.used as int), short);
        let at3 = step(at2, r2);
        let r3 = Vec3d::parse(window.skip(at3.used as int), short);
        let at4 = step(at3, r3);
        let r4 = Angle::parse(window.skip(at4.used as int), short);
        let at5 = step(at4, r4);
        let r5 = Angle::parse(window.skip(at5.used as int), short);
        let at6 = step(at5, r5);
        let r6 = Angle::parse(window.skip(at6.used as int), short);
        let at7 = step(at6, r6);
        let r7 = VarInt::parse(window.skip(at7.used as int), short);
        let at8 = step(at7, r7);
        let r8 = i16::parse(window.skip(at8.used as int), short);
        let at9 = step(at8, r8);
        let r9 = i16::parse(window.skip(at9.used as int), short);
        let at10 = step(at9, r9);
        let r10 = i16::parse(window.skip(at10.used as int), short);
        let at11 = step(at10, r10);
        finish(
            at11,
            (
                r0.result->Ok_0,
                r1.result->Ok_0,
                r2.result->Ok_0,
                r3.result->Ok_0,
                r4.result->Ok_0,
                r5.result->Ok_0,
                r6.result->Ok_0,
                r7.result->Ok_0,
                r8.result->Ok_0,
                r9.result->Ok_0,
                r10.result->Ok_0,
            ),
        )
    }

    fn deserialize(stream: &mut DataStream) -> (result: Result<Self, DeserializeError>) {
        broadcast use lemma_advance_zero;

        let ghost start = stream@;
        let ghost window = start.window();
        let ghost short = start.short();
        assert(window.skip(0) =~= window);
        let entity_id: VarInt = field(stream, Ghost(start), Ghost(begin()))?;
        let ghost at1 = step(begin(), VarInt::parse(window, short));
        let uuid: u128 = field(stream, Ghost(start), Ghost(at1))?;
        let ghost at2 = step(at1, u128::parse(window.skip(at1.used as int), short));
        let entity_type: VarInt = field(stream, Ghost(start), Ghost(at2))?;
        let ghost at3 = step(at2, VarInt::parse(window.skip(at2.used as int), short));
        let pos: Vec3d = field(stream, Ghost(start), Ghost(at3))?;
        let ghost at4 = step(at3, Vec3d::parse(window.skip(at3.used as int), short));
        let pitch: Angle = field(stream, Ghost(start), Ghost(at4))?;
        let ghost at5 = step(at4, Angle::parse(window.skip(at4.used as int), short));
        let yaw: Angle = field(stream, Ghost(start), Ghost(at5))?;
        let ghost at6 = step(at5, Angle::parse(window.skip(at5.used as int), short));
        let head_yaw: Angle = field(stream, Ghost(start), Ghost(at6))?;
        let ghost at7 = step(at6, Angle::parse(window.skip(at6.used as int), short));
        let data: VarInt = field(stream, Ghost(start), Ghost(at7))?;
        let ghost at8 = step(at7, VarInt::parse(window.skip(at7.used as int), short));
        let vx: i16 = field(stream, Ghost(start), Ghost(at8))?;
        let ghost at9 = step(at8, i16::parse(window.skip(at8.used as int), short));
        let vy: i16 = field(stream, Ghost(start), Ghost(at9))?;
        let ghost at10 = step(at9, i16::parse(window.skip(at9.used as int), short));
        let vz: i16 = field(stream, Ghost(start), Ghost(at10))?;
        Ok(AddEntity { entity_id, uuid, entity_type, pos, pitch, yaw, head_yaw, data, vx, vy, vz })
    }
}

/// A number that the client sends back to show that it is there.
#[derive(Debug)]
pub struct KeepAlive(pub i64);

impl DeepView for KeepAlive {
    type V = i64;

    open spec fn deep_view(&self) -> Self::V {
        self.0.deep_view()
    }
}

impl Serialize for KeepAlive {
    open spec fn wire(&self) -> Seq<u8> {
        self.0.wire()
    }

    open spec fn encodable(&self) -> bool {
        self.0.encodable()
    }

    fn size(&self) -> (size: usize) {
        self.0.size()
    }

    fn checked_size(&self) -> (size: Option<usize>) {
        let size = self.0.checked_size();
        size
    }

    fn serialize(&self, stream: &mut Vec<u8>) {
        self.0.serialize(stream);
        assert(stream@ =~= old(stream)@ + self.wire());
    }
}

impl Deserialize for KeepAlive {
    open spec fn parse(window: Seq<u8>, short: bool) -> Outcome<Self::V> {
        let r0 = i64::parse(window, short);
        let at1 = step(begin(), r0);
        finish(at1, r0.result->Ok_0)
    }

    fn deserialize(stream: &mut DataStream) -> (result: Result<Self, DeserializeError>) {
        broadcast use lemma_advance_zero;

        let ghost start = stream@;
        let ghost window = start.window();
        let ghost short = start.short();
        assert(window.skip(0) =~= window);
        let v0: i64 = field(stream, Ghost(start), Ghost(begin()))?;
        Ok(KeepAlive(v0))
    }
}

impl RoundTrip for KeepAlive {
    open spec fn readable(&self) -> bool {
        self.0.readable()
    }

    proof fn lemma_round_trip(&self, rest: Seq<u8>, short: bool) {
        let window = self.wire() + rest;
        assert(window =~= self.0.wire() + (rest));
        self.0.lemma_round_trip(rest, short);
    }
}

impl ServerboundPacket for KeepAlive {
    const ID: u32 = 0x1B;
}

/// An entity was moved far.
#[derive(Debug)]
pub struct TeleportEntity {
    pub entity_id: VarInt,
    pub pos: Vec3d,
    pub speed: Vec3d,
    pub rotation: Rotation,
    pub on_ground: bool,
}

impl DeepView for TeleportEntity {
    type V = (VarInt, (Double, Double, Double), (Double, Double, Double), (Float, Float), bool);

    open spec fn deep_view(&self) -> Self::V {
        (
            self.entity_id.deep_view(),
            self.pos.deep_view(),
            self.speed.deep_view(),
            self.rotation.deep_view(),
            self.on_ground.deep_view(),
        )
    }
}

impl Deserialize for TeleportEntity {
    open spec fn parse(window: Seq<u8>, short: bool) -> Outcome<Self::V> {
        let r0 = VarInt::parse(window, short);
        let at1 = step(begin(), r0);
        let r1 = Vec3d::parse(window.skip(at1.used as int), short);
        let at2 = step(at1, r1);
        let r2 = Vec3d::parse(window.skip(at2.used as int), short);
        let at3 = step(at2, r2);
        let r3 = Rotation::parse(window.skip(at3.used as int), short);
        let at4 = step(at3, r3);
        let r4 = bool::parse(window.skip(at4.used as int), short);
        let at5 = step(at4, r4);
        finish(
            at5,
            (r0.result->Ok_0, r1.result->Ok_0, r2.result->Ok_0, r3.result->Ok_0, r4.result->Ok_0),
        )
    }

    fn deserialize(stream: &mut DataStream) -> (result: Result<Self, DeserializeError>) {
        broadcast use lemma_advance_zero;

        let ghost start = stream@;
        let ghost window = start.window();
        let ghost short = start.short();
        assert(window.skip(0) =~= window);
        let entity_id: VarInt = field(stream, Ghost(start), Ghost(begin()))?;
        let ghost at1 = step(begin(), VarInt::parse(window, short));
        let pos: Vec3d = field(stream, Ghost(start), Ghost(at1))?;
        let ghost at2 = step(at1, Vec3d::parse(window.skip(at1.used as int), short));
        let speed: Vec3d = field(stream, Ghost(start), Ghost(at2))?;
        let ghost at3 = step(at2, Vec3d::parse(window.skip(at2.used as int), short));
        let rotation: Rotation = field(stream, Ghost(start), Ghost(at3))?;
        let ghost at4 = step(at3, Rotation::parse(window.skip(at3.used as int), short));
        let on_ground: bool = field(stream, Ghost(start), Ghost(at4))?;
        Ok(TeleportEntity { entity_id, pos, speed, rotation, on_ground })
    }
}

/// The speed of an entity.
#[derive(Debug)]
pub struct SetEntityVelocity {
    pub entity_id: VarInt,
    pub vx: i16,
    pub vy: i16,
    pub vz: i16,
}

impl DeepView for SetEntityVelocity {
    type V = (VarInt, i16, i16, i16);

    open spec fn deep_view(&self) -> Self::V {
        (self.entity_id.deep_view(), self.vx.deep_view(), self.vy.deep_view(), self.vz.deep_view())
    }
}

impl Deserialize for SetEntityVelocity {
    open spec fn parse(window: Seq<u8>, short: bool) -> Outcome<Self::V> {
        let r0 = VarInt::parse(window, short);
        let at1 = step(begin(), r0);
        let r1 = i16::parse(window.skip(at1.used as int), short);
        let at2 = step(at1, r1);
        let r2 = i16::parse(window.skip(at2.used as int), short);
        let at3 = step(at2, r2);
        let r3 = i16::parse(window.skip(at3.used as int), short);
        let at4 = step(at3, r3);
        finish(at4, (r0.result->Ok_0, r1.result->Ok_0, r2.result->Ok_0, r3.result->Ok_0))
    }

    fn deserialize(stream: &mut DataStream) -> (result: Result<Self, DeserializeError>) {
        broadcast use lemma_advance_zero;

        let ghost start = stream@;
        let ghost window = start.window();
        let ghost short = start.short();
        assert(window.skip(0) =~= window);
        let entity_id: VarInt = field(stream, Ghost(start), Ghost(begin()))?;
        let ghost at1 = step(begin(), VarInt::parse(window, short));
        let vx: i16 = field(stream, Ghost(start), Ghost(at1))?;
        let ghost at2 = step(at1, i16::parse(window.skip(at1.used as int), short));
        let vy: i16 = field(stream, Ghost(start), Ghost(at2))?;
        let ghost at3 = step(at2, i16::parse(window.skip(at2.used as int), short));
        let vz: i16 = field(stream, Ghost(start), Ghost(at3))?;
        Ok(SetEntityVelocity { entity_id, vx, vy, vz })
    }
}

/// The numbers of the packets that the client sends.
pub proof fn lemma_serverbound_ids()
    ensures
        <Handshake as ServerboundPacket>::ID == 0,
        <StatusRequest as ServerboundPacket>::ID == 0,
        <PingPong as ServerboundPacket>::ID == 1,
        <LoginStart as ServerboundPacket>::ID == 0,
        <LoginAcknowledged as ServerboundPacket>::ID == 3,
        <PluginMessage as ServerboundPacket>::ID == 2,
        <KnownPacks as ServerboundPacket>::ID == 7,
        <FinishConfiguration as ServerboundPacket>::ID == 3,
        <ConfirmTeleportation as ServerboundPacket>::ID == 0,
        <SetPlayerPosition as ServerboundPacket>::ID == 0x1D,
        <SetPlayerPositionRotation as ServerboundPacket>::ID == 0x1E,
        <SetPlayerRotation as ServerboundPacket>::ID == 0x1F,
        <KeepAlive as ServerboundPacket>::ID == 0x1B,
{
}

/// A chunk and its light.
#[derive(Debug)]
pub struct ChunkDataWithLight {
    pub x: i32,
    pub y: i32,
    pub data: ChunkData,
    pub light: LightData,
}

impl DeepView for ChunkDataWithLight {
    type V = (i32, i32, <ChunkData as DeepView>::V, <LightData as DeepView>::V);

    open spec fn deep_view(&self) -> Self::V {
        (self.x.deep_view(), self.y.deep_view(), self.data.deep_view(), self.light.deep_view())
    }
}

impl Deserialize for ChunkDataWithLight {
    open spec fn parse(window: Seq<u8>, short: bool) -> Outcome<Self::V> {
        let r0 = i32::parse(window, short);
        let at1 = step(begin(), r0);
        let r1 = i32::parse(window.skip(at1.used as int), short);
        let at2 = step(at1, r1);
        let r2 = ChunkData::parse(window.skip(at2.used as int), short);
        let at3 = step(at2, r2);
        let r3 = LightData::parse(window.skip(at3.used as int), short);
        let at4 = step(at3, r3);
        finish(at4, (r0.result->Ok_0, r1.result->Ok_0, r2.result->Ok_0, r3.result->Ok_0))
    }

    fn deserialize(stream: &mut DataStream) -> (result: Result<Self, DeserializeError>) {
        broadcast use lemma_advance_zero;

        let ghost start = stream@;
        let ghost window = start.window();
        let ghost short = start.short();
        assert(window.skip(0) =~= window);
        let x: i32 = field(stream, Ghost(start), Ghost(begin()))?;
        let ghost at1 = step(begin(), i32::parse(window, short));
        let y: i32 = field(stream, Ghost(start), Ghost(at1))?;
        let ghost at2 = step(at1, i32::parse(window.skip(at1.used as int), short));
        let data: ChunkData = field(stream, Ghost(start), Ghost(at2))?;
        let ghost at3 = step(at2, ChunkData::parse(window.skip(at2.used as int), short));
        let light: LightData = field(stream, Ghost(start), Ghost(at3))?;
        Ok(ChunkDataWithLight { x, y, data, light })
    }
}

/// The kinds of news that a list of players carries about each player, as flags.
#[derive(Debug, Clone, Copy, PartialEq, Eq, Structural)]
pub struct PlayerActionFlag(pub u8);

impl DeepView for PlayerActionFlag {
    type V = u8;

    open spec fn deep_view(&self) -> Self::V {
        self.0.deep_view()
    }
}

impl Serialize for PlayerActionFlag {
    open spec fn wire(&self) -> Seq<u8> {
        self.0.wire()
    }

    open spec fn encodable(&self) -> bool {
        self.0.encodable()
    }

    fn size(&self) -> (size: usize) {
        self.0.size()
    }

    fn checked_size(&self) -> (size: Option<usize>) {
        let size = self.0.checked_size();
        size
    }

    fn serialize(&self, stream: &mut Vec<u8>) {
        self.0.serialize(stream);
        assert(stream@ =~= old(stream)@ + self.wire());
    }
}

impl Deserialize for PlayerActionFlag {
    open spec fn parse(window: Seq<u8>, short: bool) -> Outcome<Self::V> {
        let r0 = u8::parse(window, short);
        let at1 = step(begin(), r0);
        finish(at1, r0.result->Ok_0)
    }

    fn deserialize(stream: &mut DataStream) -> (result: Result<Self, DeserializeError>) {
        broadcast use lemma_advance_zero;

        let ghost start = stream@;
        let ghost window = start.window();
        let ghost short = start.short();
        assert(window.skip(0) =~= window);
        let v0: u8 = field(stream, Ghost(start), Ghost(begin()))?;
        Ok(PlayerActionFlag(v0))
    }
}

impl RoundTrip for PlayerActionFlag {
    open spec fn readable(&self) -> bool {
        self.0.readable()
    }

    proof fn lemma_round_trip(&self, rest: Seq<u8>, short: bool) {
        let window = self.wire() + rest;
        assert(window =~= self.0.wire() + (rest));
        self.0.lemma_round_trip(rest, short);
    }
}

impl PlayerActionFlag {
    pub const ADD_PLAYER: u8 = 1;

    pub const INITIALIZE_CHAT: u8 = 2;

    pub const UPDATE_GAME_MODE: u8 = 4;

    pub const UPDATE_LISTED: u8 = 8;

    pub const UPDATE_LATENCY: u8 = 16;

    pub const UPDATE_DISPLAY_NAME: u8 = 32;

    pub const UPDATE_LIST_PRIORITY: u8 = 64;

    pub const UPDATE_HAT: u8 = 128;

    /// The set that holds no flag.
    pub fn empty() -> (flags: Self)
        ensures
            flags.0 == 0,
    {
        Self(0)
    }

    /// The set that holds just the bits of `bits`, known or not.
    pub fn from_bits_retain(bits: u8) -> (flags: Self)
        ensures
            flags.0 == bits,
    {
        Self(bits)
    }

    /// The bits of the set.
    pub fn bits(&self) -> (bits: u8)
        ensures
            bits == self.0,
    {
        self.0
    }

    /// Whether the set holds every bit of `flag`.
    pub fn contains(&self, flag: u8) -> (held: bool)
        ensures
            held == (self.0 & flag == flag),
    {
        self.0 & flag == flag
    }
}

/// A piece of news about a player.
#[derive(Debug)]
pub enum PlayerAction {
    AddPlayer { name: String, properties: Vec<PlayerProperty> },
    InitializeChat(Option<InitializeChatData>),
    UpdateGameMode(VarInt),
    UpdateListed(bool),
    UpdateLatency(VarInt),
    UpdateDisplayName(Option<String>),
    UpdateListPriority(VarInt),
    UpdateHat(bool),
}

/// What a [`PlayerAction`] stands for.
pub enum PlayerActionValue {
    AddPlayer { name: Seq<char>, properties: Seq<(Seq<char>, Seq<char>, Option<Seq<char>>)> },
    InitializeChat(Option<(u128, i64, Seq<u8>, Seq<u8>)>),
    UpdateGameMode(VarInt),
    UpdateListed(bool),
    UpdateLatency(VarInt),
    UpdateDisplayName(Option<Seq<char>>),
    UpdateListPriority(VarInt),
    UpdateHat(bool),
}

impl DeepView for PlayerAction {
    type V = PlayerActionValue;

    open spec fn deep_view(&self) -> PlayerActionValue {
        match self {
            PlayerAction::AddPlayer { name, properties } => PlayerActionValue::AddPlayer {
                name: name@,
                properties: properties.deep_view(),
            },
            PlayerAction::InitializeChat(data) => PlayerActionValue::InitializeChat(
                data.deep_view(),
            ),
            PlayerAction::UpdateGameMode(mode) => PlayerActionValue::UpdateGameMode(*mode),
            PlayerAction::UpdateListed(listed) => PlayerActionValue::UpdateListed(*listed),
            PlayerAction::UpdateLatency(latency) => PlayerActionValue::UpdateLatency(*latency),
            PlayerAction::UpdateDisplayName(name) => PlayerActionValue::UpdateDisplayName(
                name.deep_view(),
            ),
            PlayerAction::UpdateListPriority(priority) => PlayerActionValue::UpdateListPriority(
                *priority,
            ),
            PlayerAction::UpdateHat(hat) => PlayerActionValue::UpdateHat(*hat),
        }
    }
}

/// News about some players: for each player, one piece of each kind that the
/// packet announces.
#[derive(Debug)]
pub struct PlayersInfoUpdate {
    pub players: Vec<(u128, Vec<PlayerAction>)>,
}

impl DeepView for PlayersInfoUpdate {
    type V = Seq<(u128, Seq<PlayerActionValue>)>;

    open spec fn deep_view(&self) -> Seq<(u128, Seq<PlayerActionValue>)> {
        self.players.deep_view()
    }
}

/// Whether `flags` announces the kind of news at `place`.
pub open spec fn announces(flags: u8, place: u8) -> bool {
    flags & (1u8 << place) != 0
}

/// What reading the piece of news of the kind at `place` gives.
#[verifier::opaque]
pub open spec fn action_outcome(window: Seq<u8>, short: bool, place: u8) -> Outcome<
    PlayerActionValue,
> {
    if place == 0 {
        made(
            <(String, Vec<PlayerProperty>)>::parse(window, short),
            |v: (Seq<char>, Seq<(Seq<char>, Seq<char>, Option<Seq<char>>)>)|
                PlayerActionValue::AddPlayer { name: v.0, properties: v.1 },
        )
    } else if place == 1 {
        made(
            Option::<InitializeChatData>::parse(window, short),
            |v: Option<(u128, i64, Seq<u8>, Seq<u8>)>| PlayerActionValue::InitializeChat(v),
        )
    } else if place == 2 {
        made(VarInt::parse(window, short), |v: VarInt| PlayerActionValue::UpdateGameMode(v))
    } else if place == 3 {
        made(bool::parse(window, short), |v: bool| PlayerActionValue::UpdateListed(v))
    } else if place == 4 {
        made(VarInt::parse(window, short), |v: VarInt| PlayerActionValue::UpdateLatency(v))
    } else if place == 5 {
        made(
            Option::<String>::parse(window, short),
            |v: Option<Seq<char>>| PlayerActionValue::UpdateDisplayName(v),
        )
    } else if place == 6 {
        made(VarInt::parse(window, short), |v: VarInt| PlayerActionValue::UpdateListPriority(v))
    } else {
        made(bool::parse(window, short), |v: bool| PlayerActionValue::UpdateHat(v))
    }
}

/// What reading the news about one player gives, from the kind at `place`
/// on: a piece of each kind that `flags` announces, in the order of the
/// kinds.
pub open spec fn actions_outcome(window: Seq<u8>, short: bool, flags: u8, place: u8) -> Outcome<
    Seq<PlayerActionValue>,
>
    decreases 8 - place,
{
    if place >= 8 {
        done(Seq::empty(), 0)
    } else if !announces(flags, place) {
        actions_outcome(window, short, flags, (place + 1) as u8)
    } else {
        let first = action_outcome(window, short, place);
        match first.result {
            Err(failure) => failed(failure, first.used),
            Ok(value) => {
                let more = actions_outcome(
                    crate::codec::rest(window, first.used),
                    short,
                    flags,
                    (place + 1) as u8,
                );
                match more.result {
                    Err(failure) => failed(failure, first.used + more.used),
                    Ok(values) => done(seq![value] + values, first.used + more.used),
                }
            },
        }
    }
}

/// What reading one player gives: the player's id and the news.
pub open spec fn player_outcome(window: Seq<u8>, short: bool, flags: u8) -> Outcome<
    (u128, Seq<PlayerActionValue>),
> {
    let uuid = u128::parse(window, short);
    pair(uuid, actions_outcome(window.skip(uuid.used as int), short, flags, 0))
}

/// What reading `count` players, one behind the other, gives.
pub open spec fn players_outcome(window: Seq<u8>, short: bool, flags: u8, count: nat) -> Outcome<
    Seq<(u128, Seq<PlayerActionValue>)>,
>
    decreases count,
{
    if count == 0 {
        done(Seq::empty(), 0)
    } else {
        let first = player_outcome(window, short, flags);
        match first.result {
            Err(failure) => failed(failure, first.used),
            Ok(value) => {
                let more = players_outcome(
                    crate::codec::rest(window, first.used),
                    short,
                    flags,
                    (count - 1) as nat,
                );
                match more.result {
                    Err(failure) => failed(failure, first.used + more.used),
                    Ok(values) => done(seq![value] + values, first.used + more.used),
                }
            },
        }
    }
}

impl PlayersInfoUpdate {
    /// Reads the piece of news of the kind at `place`.
    fn read_action(stream: &mut DataStream, place: u8) -> (result: Result<
        PlayerAction,
        DeserializeError,
    >)
        requires
            place < 8,
        ensures
            decoded(
                old(stream)@,
                final(stream)@,
                result,
                action_outcome(old(stream)@.window(), old(stream)@.short(), place),
            ),
    {
        reveal(action_outcome);
        let action = match place {
            0 => {
                let (name, properties) = <(String, Vec<PlayerProperty>)>::deserialize(stream)?;
                PlayerAction::AddPlayer { name, properties }
            },
            1 => PlayerAction::InitializeChat(Option::deserialize(stream)?),
            2 => PlayerAction::UpdateGameMode(VarInt::deserialize(stream)?),
            3 => PlayerAction::UpdateListed(bool::deserialize(stream)?),
            4 => PlayerAction::UpdateLatency(VarInt::deserialize(stream)?),
            5 => PlayerAction::UpdateDisplayName(Option::deserialize(stream)?),
            6 => PlayerAction::UpdateListPriority(VarInt::deserialize(stream)?),
            _ => PlayerAction::UpdateHat(bool::deserialize(stream)?),
        };
        Ok(action)
    }

    /// Reads the news about one player: a piece of each kind that `flags`
    /// announces.
    fn read_actions(stream: &mut DataStream, flags: u8) -> (result: Result<
        Vec<PlayerAction>,
        DeserializeError,
    >)
        ensures
            decoded(
                old(stream)@,
                final(stream)@,
                result,
                actions_outcome(old(stream)@.window(), old(stream)@.short(), flags, 0),
            ),
    {
        broadcast use lemma_advance_zero;

        let ghost start = stream@;
        let ghost window = start.window();
        let ghost short = start.short();
        let mut data: Vec<PlayerAction> = Vec::new();
        let ghost mut used: nat = 0;
        let mut place: u8 = 0;
        assert(crate::codec::rest(window, 0) =~= window);
        assert(Seq::<PlayerActionValue>::empty() + actions_outcome(
            window,
            short,
            flags,
            0,
        ).result->Ok_0 =~= actions_outcome(window, short, flags, 0).result->Ok_0);
        while place < 8
            invariant
                place <= 8,
                start == old(stream)@,
                window == start.window(),
                short == start.short(),
                used <= window.len(),
                stream@ == start.advance(used),
                actions_outcome(window, short, flags, 0) == behind_items(
                    data.deep_view(),
                    used,
                    actions_outcome(crate::codec::rest(window, used), short, flags, place),
                ),
            decreases 8 - place,
        {
            if flags & (1u8 << place) != 0 {
                proof {
                    lemma_advance_window(start, used);
                }
                let ghost here = action_outcome(crate::codec::rest(window, used), short, place);
                let ghost items = data.deep_view();
                let action = Self::read_action(stream, place);
                proof {
                    lemma_advance_twice(start, used, here.used);
                }
                let action = action?;
                data.push(action);
                proof {
                    assert(crate::codec::rest(crate::codec::rest(window, used), here.used)
                        =~= crate::codec::rest(window, used + here.used));
                    assert(data.deep_view() =~= items.push(action.deep_view()));
                    let more = actions_outcome(
                        crate::codec::rest(window, used + here.used),
                        short,
                        flags,
                        (place + 1) as u8,
                    );
                    if more.result is Ok {
                        assert(items + (seq![action.deep_view()] + more.result->Ok_0)
                            =~= items.push(action.deep_view()) + more.result->Ok_0);
                    }
                    used = used + here.used;
                }
            }
            place = place + 1;
        }
        assert(data.deep_view() + Seq::<PlayerActionValue>::empty() =~= data.deep_view());
        Ok(data)
    }

    /// Reads one player: the player's id and the news.
    fn read_player(stream: &mut DataStream, flags: u8) -> (result: Result<
        (u128, Vec<PlayerAction>),
        DeserializeError,
    >)
        ensures
            decoded(
                old(stream)@,
                final(stream)@,
                result,
                player_outcome(old(stream)@.window(), old(stream)@.short(), flags),
            ),
    {
        let ghost start = stream@;
        let ghost uuid_ = u128::parse(start.window(), start.short());
        let uuid = u128::deserialize(stream)?;
        proof {
            lemma_advance_window(start, uuid_.used);
        }
        let ghost actions_ = actions_outcome(stream@.window(), stream@.short(), flags, 0);
        let player_actions = Self::read_actions(stream, flags);
        proof {
            lemma_advance_twice(start, uuid_.used, actions_.used);
        }
        Ok((uuid, player_actions?))
    }

    /// Reads `count` players, one behind the other.
    fn read_players(stream: &mut DataStream, flags: u8, count: i32) -> (result: Result<
        Vec<(u128, Vec<PlayerAction>)>,
        DeserializeError,
    >)
        requires
            count >= 0,
        ensures
            decoded(
                old(stream)@,
                final(stream)@,
                result,
                players_outcome(old(stream)@.window(), old(stream)@.short(), flags, count as nat),
            ),
    {
        broadcast use lemma_advance_zero;

        let ghost start = stream@;
        let ghost window = start.window();
        let ghost short = start.short();
        let mut data: Vec<(u128, Vec<PlayerAction>)> = Vec::new();
        let ghost mut used: nat = 0;
        let mut i: i32 = 0;
        assert(crate::codec::rest(window, 0) =~= window);
        assert(Seq::<(u128, Seq<PlayerActionValue>)>::empty() + players_outcome(
            window,
            short,
            flags,
            count as nat,
        ).result->Ok_0 =~= players_outcome(window, short, flags, count as nat).result->Ok_0);
        while i < count
            invariant
                0 <= i <= count,
                start == old(stream)@,
                window == start.window(),
                short == start.short(),
                used <= window.len(),
                stream@ == start.advance(used),
                players_outcome(window, short, flags, count as nat) == behind_items(
                    data.deep_view(),
                    used,
                    players_outcome(
                        crate::codec::rest(window, used),
                        short,
                        flags,
                        (count - i) as nat,
                    ),
                ),
            decreases count - i,
        {
            proof {
                lemma_advance_window(start, used);
            }
            let ghost here = player_outcome(crate::codec::rest(window, used), short, flags);
            let ghost items = data.deep_view();
            let player = Self::read_player(stream, flags);
            proof {
                lemma_advance_twice(start, used, here.used);
            }
            let player = player?;
            data.push(player);
            proof {
                assert(crate::codec::rest(crate::codec::rest(window, used), here.used)
                    =~= crate::codec::rest(window, used + here.used));
                assert(data.deep_view() =~= items.push(player.deep_view()));
                let more = players_outcome(
                    crate::codec::rest(window, used + here.used),
                    short,
                    flags,
                    (count - i - 1) as nat,
                );
                if more.result is Ok {
                    assert(items + (seq![player.deep_view()] + more.result->Ok_0) =~= items.push(
                        player.deep_view(),
                    ) + more.result->Ok_0);
                }
                used = used + here.used;
            }
            i = i + 1;
        }
        assert(data.deep_view() + Seq::<(u128, Seq<PlayerActionValue>)>::empty()
            =~= data.deep_view());
        Ok(data)
    }
}

impl Deserialize for PlayersInfoUpdate {
    /// The kinds of news that the packet carries, the count of players,
    /// which may not be below zero, and the players.
    open spec fn parse(window: Seq<u8>, short: bool) -> Outcome<
        Seq<(u128, Seq<PlayerActionValue>)>,
    > {
        let actions = PlayerActionFlag::parse(window, short);
        let count = VarInt::parse(window.skip(actions.used as int), short);
        match (actions.result, count.result) {
            (Err(failure), _) => failed(failure, actions.used),
            (Ok(_), Err(failure)) => failed(failure, actions.used + count.used),
            (Ok(flags), Ok(VarInt(n))) => if n < 0 {
                failed(Failure::Malformed(negative_count_message()), actions.used + count.used)
            } else {
                behind(
                    actions.used + count.used,
                    players_outcome(
                        window.skip((actions.used + count.used) as int),
                        short,
                        flags,
                        n as nat,
                    ),
                )
            },
        }
    }

    fn deserialize(stream: &mut DataStream) -> (result: Result<Self, DeserializeError>) {
        let ghost start = stream@;
        let ghost window = start.window();
        let ghost short = start.short();
        let ghost actions_ = PlayerActionFlag::parse(window, short);
        let actions = PlayerActionFlag::deserialize(stream)?;
        proof {
            lemma_advance_window(start, actions_.used);
        }
        let ghost count_ = VarInt::parse(window.skip(actions_.used as int), short);
        let players_count = VarInt::deserialize(stream);
        proof {
            lemma_advance_twice(start, actions_.used, count_.used);
            lemma_advance_window(start, actions_.used + count_.used);
        }
        let players_count = players_count?.0;
        if players_count < 0 {
            return Err(crate::codec::malformed("Negative sequence length"));
        }
        let ghost players_ = players_outcome(
            window.skip((actions_.used + count_.used) as int),
            short,
            actions.0,
            players_count as nat,
        );
        let players = Self::read_players(stream, actions.bits(), players_count);
        proof {
            lemma_advance_twice(start, actions_.used + count_.used, players_.used);
        }
        Ok(PlayersInfoUpdate { players: players? })
    }
}

} // verus!
