//! Positions, colours and the other small records that packets are made of.

use crate::codec::{
    RoundTrip, add_sizes, begin, behind, failed, field, finish, made, malformed_with_number,
    number_message, step, Deserialize, DeserializeError, Failure, Outcome, Serialize,
};
use crate::containers::{deserialize_slice, repeat};
use crate::datatypes::{BlockPos, Double, Float};
use crate::stream::{lemma_advance_twice, lemma_advance_window, lemma_advance_zero, DataStream};
use crate::varint::VarInt;
use vstd::prelude::*;
use vstd::std_specs::convert::FromSpecImpl;

verus! {

/// Two coordinates in the horizontal plane.
#[derive(Debug, Clone, Copy, PartialEq, Eq, Structural, Hash, Default)]
pub struct Vec2<T> {
    pub x: T,
    pub z: T,
}

impl<T: DeepView> DeepView for Vec2<T> {
    type V = (T::V, T::V);

    open spec fn deep_view(&self) -> Self::V {
        (self.x.deep_view(), self.z.deep_view())
    }
}

impl<T: Serialize> Serialize for Vec2<T> {
    open spec fn wire(&self) -> Seq<u8> {
        self.x.wire() + self.z.wire()
    }

    open spec fn encodable(&self) -> bool {
        self.x.encodable() && self.z.encodable()
    }

    fn size(&self) -> (size: usize) {
        self.x.size() + self.z.size()
    }

    fn checked_size(&self) -> (size: Option<usize>) {
        let size = self.x.checked_size();
        let size = add_sizes(size, self.z.checked_size());
        size
    }

    fn serialize(&self, stream: &mut Vec<u8>) {
        self.x.serialize(stream);
        self.z.serialize(stream);
        assert(stream@ =~= old(stream)@ + self.wire());
    }
}

impl<T: Deserialize> Deserialize for Vec2<T> {
    open spec fn parse(window: Seq<u8>, short: bool) -> Outcome<Self::V> {
        let r0 = T::parse(window, short);
        let at1 = step(begin(), r0);
        let r1 = T::parse(window.skip(at1.used as int), short);
        let at2 = step(at1, r1);
        finish(at2, (r0.result->Ok_0, r1.result->Ok_0))
    }

    fn deserialize(stream: &mut DataStream) -> (result: Result<Self, DeserializeError>) {
        broadcast use lemma_advance_zero;

        let ghost start = stream@;
        let ghost window = start.window();
        let ghost short = start.short();
        assert(window.skip(0) =~= window);
        let x: T = field(stream, Ghost(start), Ghost(begin()))?;
        let ghost at1 = step(begin(), T::parse(window, short));
        let z: T = field(stream, Ghost(start), Ghost(at1))?;
        Ok(Vec2 { x, z })
    }
}

impl<T: RoundTrip> RoundTrip for Vec2<T> {
    open spec fn readable(&self) -> bool {
        self.x.readable() && self.z.readable()
    }

    proof fn lemma_round_trip(&self, rest: Seq<u8>, short: bool) {
        let window = self.wire() + rest;
        assert(window =~= self.x.wire() + (self.z.wire() + rest));
        self.x.lemma_round_trip(self.z.wire() + rest, short);
        assert(window.skip((self.x.wire().len()) as int) =~= self.z.wire() + (rest));
        self.z.lemma_round_trip(rest, short);
    }
}
/// Three coordinates.
#[derive(Debug, Clone, Copy, PartialEq, Eq, Structural, Hash, Default)]
pub struct Vec3<T> {
    pub x: T,
    pub y: T,
    pub z: T,
}

impl<T: DeepView> DeepView for Vec3<T> {
    type V = (T::V, T::V, T::V);

    open spec fn deep_view(&self) -> Self::V {
        (self.x.deep_view(), self.y.deep_view(), self.z.deep_view())
    }
}

impl<T: Serialize> Serialize for Vec3<T> {
    open spec fn wire(&self) -> Seq<u8> {
        self.x.wire() + self.y.wire() + self.z.wire()
    }

    open spec fn encodable(&self) -> bool {
        self.x.encodable() && self.y.encodable() && self.z.encodable()
    }

    fn size(&self) -> (size: usize) {
        self.x.size() + self.y.size() + self.z.size()
    }

    fn checked_size(&self) -> (size: Option<usize>) {
        let size = self.x.checked_size();
        let size = add_sizes(size, self.y.checked_size());
        let size = add_sizes(size, self.z.checked_size());
        size
    }

    fn serialize(&self, stream: &mut Vec<u8>) {
        self.x.serialize(stream);
        self.y.serialize(stream);
        self.z.serialize(stream);
        assert(stream@ =~= old(stream)@ + self.wire());
    }
}

impl<T: Deserialize> Deserialize for Vec3<T> {
    open spec fn parse(window: Seq<u8>, short: bool) -> Outcome<Self::V> {
        let r0 = T::parse(window, short);
        let at1 = step(begin(), r0);
        let r1 = T::parse(window.skip(at1.used as int), short);
        let at2 = step(at1, r1);
        let r2 = T::parse(window.skip(at2.used as int), short);
        let at3 = step(at2, r2);
        finish(at3, (r0.result->Ok_0, r1.result->Ok_0, r2.result->Ok_0))
    }

    fn deserialize(stream: &mut DataStream) -> (result: Result<Self, DeserializeError>) {
        broadcast use lemma_advance_zero;

        let ghost start = stream@;
        let ghost window = start.window();
        let ghost short = start.short();
        assert(window.skip(0) =~= window);
        let x: T = field(stream, Ghost(start), Ghost(begin()))?;
        let ghost at1 = step(begin(), T::parse(window, short));
        let y: T = field(stream, Ghost(start), Ghost(at1))?;
        let ghost at2 = step(at1, T::parse(window.skip(at1.used as int), short));
        let z: T = field(stream, Ghost(start), Ghost(at2))?;
        Ok(Vec3 { x, y, z })
    }
}

impl<T: RoundTrip> RoundTrip for Vec3<T> {
    open spec fn readable(&self) -> bool {
        self.x.readable() && self.y.readable() && self.z.readable()
    }

    proof fn lemma_round_trip(&self, rest: Seq<u8>, short: bool) {
        let window = self.wire() + rest;
        assert(window =~= self.x.wire() + (self.y.wire() + self.z.wire() + rest));
        self.x.lemma_round_trip(self.y.wire() + self.z.wire() + rest, short);
        assert(
            window.skip((self.x.wire().len()) as int) =~= self.y.wire() + (self.z.wire() + rest)
        );
        self.y.lemma_round_trip(self.z.wire() + rest, short);
        assert(
            window.skip((self.x.wire().len() + self.y.wire().len()) as int) =~= self.z.wire()
                + (rest)
        );
        self.z.lemma_round_trip(rest, short);
    }
}
/// Three whole coordinates.
pub type Vec3i = Vec3<i32>;

/// Three coordinates of double precision, each held as its bits.
pub type Vec3d = Vec3<Double>;

/// Two whole coordinates.
pub type Vec2i = Vec2<i32>;

/// The place of a chunk among the chunks.
pub type ChunkPos = Vec2i;

/// The place of a chunk section among the sections.
pub type ChunkSectionPos = Vec3i;

/// The place of a block within its chunk section.
pub type LocalPos = Vec3<u8>;

impl From<Vec2<VarInt>> for Vec2<i32> {
    fn from(source: Vec2<VarInt>) -> (vector: Self) {
        Self { x: source.x.0, z: source.z.0 }
    }
}

impl FromSpecImpl<Vec2<VarInt>> for Vec2<i32> {
    open spec fn obeys_from_spec() -> bool {
        true
    }

    open spec fn from_spec(source: Vec2<VarInt>) -> Self {
        Vec2 { x: source.x.0, z: source.z.0 }
    }
}

impl From<Vec3<VarInt>> for Vec3<i32> {
    fn from(source: Vec3<VarInt>) -> (vector: Self) {
        Self { x: source.x.0, y: source.y.0, z: source.z.0 }
    }
}

impl FromSpecImpl<Vec3<VarInt>> for Vec3<i32> {
    open spec fn obeys_from_spec() -> bool {
        true
    }

    open spec fn from_spec(source: Vec3<VarInt>) -> Self {
        Vec3 { x: source.x.0, y: source.y.0, z: source.z.0 }
    }
}

impl From<ChunkSectionPos> for ChunkPos {
    fn from(value: ChunkSectionPos) -> (pos: Self) {
        Self { x: value.x, z: value.z }
    }
}

impl FromSpecImpl<ChunkSectionPos> for ChunkPos {
    open spec fn obeys_from_spec() -> bool {
        true
    }

    open spec fn from_spec(value: ChunkSectionPos) -> Self {
        Vec2 { x: value.x, z: value.z }
    }
}

/// The chunk that holds block coordinate `x` along one axis: chunks are 16
/// blocks wide, and the division rounds down.
pub open spec fn axis_chunk(x: int) -> int {
    x / 16
}

/// The place of block coordinate `x` within its chunk along one axis.
pub open spec fn axis_local(x: int) -> int {
    x % 16
}

/// The chunk that holds block coordinate `x` along one axis.
pub fn calc_axis_chunk_pos(x: i32) -> (chunk: i32)
    ensures
        chunk == axis_chunk(x as int),
{
    if x >= 0 || x % 16 == 0 {
        x / 16
    } else {
        x / 16 - 1
    }
}

/// The place of block coordinate `x` within its chunk along one axis.
fn calc_axis_local_pos(x: i32) -> (local: u8)
    ensures
        local == axis_local(x as int),
{
    let r = x % 16;
    if r < 0 {
        (r + 16) as u8
    } else {
        r as u8
    }
}

impl ChunkPos {
    /// Convert a block pos to a chunk pos
    pub fn from_block_pos(pos: BlockPos) -> (chunk: Self)
        ensures
            chunk.x == axis_chunk(pos.0.x as int),
            chunk.z == axis_chunk(pos.0.z as int),
    {
        Self { x: calc_axis_chunk_pos(pos.0.x), z: calc_axis_chunk_pos(pos.0.z) }
    }
}

impl ChunkSectionPos {
    /// Convert a block pos to a chunk section pos
    pub fn from_block_pos(pos: BlockPos) -> (section: Self)
        ensures
            section.x == axis_chunk(pos.0.x as int),
            section.y == axis_chunk(pos.0.y as int),
            section.z == axis_chunk(pos.0.z as int),
    {
        Self {
            x: calc_axis_chunk_pos(pos.0.x),
            y: calc_axis_chunk_pos(pos.0.y),
            z: calc_axis_chunk_pos(pos.0.z),
        }
    }
}

impl LocalPos {
    /// The place of a block within its chunk section.
    pub fn from_global_block_pos(pos: BlockPos) -> (local: Self)
        ensures
            local.x == axis_local(pos.0.x as int),
            local.y == axis_local(pos.0.y as int),
            local.z == axis_local(pos.0.z as int),
            local.x < 16 && local.y < 16 && local.z < 16,
    {
        Self {
            x: calc_axis_local_pos(pos.0.x),
            y: calc_axis_local_pos(pos.0.y),
            z: calc_axis_local_pos(pos.0.z),
        }
    }
}

/// A block coordinate is the first of its chunk moved on by its place within
/// the chunk.
pub proof fn lemma_axis_split(x: int)
    ensures
        x == 16 * axis_chunk(x) + axis_local(x),
        0 <= axis_local(x) < 16,
{
}

/// The direction in which an entity looks, in degrees.
#[derive(Debug, Clone, Copy, PartialEq, Eq, Structural, Default)]
pub struct Rotation {
    pub yaw: Float,
    pub pitch: Float,
}

impl DeepView for Rotation {
    type V = (Float, Float);

    open spec fn deep_view(&self) -> Self::V {
        (self.yaw.deep_view(), self.pitch.deep_view())
    }
}

impl Serialize for Rotation {
    open spec fn wire(&self) -> Seq<u8> {
        self.yaw.wire() + self.pitch.wire()
    }

    open spec fn encodable(&self) -> bool {
        self.yaw.encodable() && self.pitch.encodable()
    }

    fn size(&self) -> (size: usize) {
        self.yaw.size() + self.pitch.size()
    }

    fn checked_size(&self) -> (size: Option<usize>) {
        let size = self.yaw.checked_size();
        let size = add_sizes(size, self.pitch.checked_size());
        size
    }

    fn serialize(&self, stream: &mut Vec<u8>) {
        self.yaw.serialize(stream);
        self.pitch.serialize(stream);
        assert(stream@ =~= old(stream)@ + self.wire());
    }
}

impl Deserialize for Rotation {
    open spec fn parse(window: Seq<u8>, short: bool) -> Outcome<Self::V> {
        let r0 = Float::parse(window, short);
        let at1 = step(begin(), r0);
        let r1 = Float::parse(window.skip(at1.used as int), short);
        let at2 = step(at1, r1);
        finish(at2, (r0.result->Ok_0, r1.result->Ok_0))
    }

    fn deserialize(stream: &mut DataStream) -> (result: Result<Self, DeserializeError>) {
        broadcast use lemma_advance_zero;

        let ghost start = stream@;
        let ghost window = start.window();
        let ghost short = start.short();
        assert(window.skip(0) =~= window);
        let yaw: Float = field(stream, Ghost(start), Ghost(begin()))?;
        let ghost at1 = step(begin(), Float::parse(window, short));
        let pitch: Float = field(stream, Ghost(start), Ghost(at1))?;
        Ok(Rotation { yaw, pitch })
    }
}

impl RoundTrip for Rotation {
    open spec fn readable(&self) -> bool {
        self.yaw.readable() && self.pitch.readable()
    }

    proof fn lemma_round_trip(&self, rest: Seq<u8>, short: bool) {
        let window = self.wire() + rest;
        assert(window =~= self.yaw.wire() + (self.pitch.wire() + rest));
        self.yaw.lemma_round_trip(self.pitch.wire() + rest, short);
        assert(window.skip((self.yaw.wire().len()) as int) =~= self.pitch.wire() + (rest));
        self.pitch.lemma_round_trip(rest, short);
    }
}
/// A colour of three channels.
#[derive(Debug)]
pub struct Color {
    pub r: u8,
    pub g: u8,
    pub b: u8,
}

impl DeepView for Color {
    type V = (u8, u8, u8);

    open spec fn deep_view(&self) -> Self::V {
        (self.r.deep_view(), self.g.deep_view(), self.b.deep_view())
    }
}

impl Serialize for Color {
    open spec fn wire(&self) -> Seq<u8> {
        self.r.wire() + self.g.wire() + self.b.wire()
    }

    open spec fn encodable(&self) -> bool {
        self.r.encodable() && self.g.encodable() && self.b.encodable()
    }

    fn size(&self) -> (size: usize) {
        self.r.size() + self.g.size() + self.b.size()
    }

    fn checked_size(&self) -> (size: Option<usize>) {
        let size = self.r.checked_size();
        let size = add_sizes(size, self.g.checked_size());
        let size = add_sizes(size, self.b.checked_size());
        size
    }

    fn serialize(&self, stream: &mut Vec<u8>) {
        self.r.serialize(stream);
        self.g.serialize(stream);
        self.b.serialize(stream);
        assert(stream@ =~= old(stream)@ + self.wire());
    }
}

impl Deserialize for Color {
    open spec fn parse(window: Seq<u8>, short: bool) -> Outcome<Self::V> {
        let r0 = u8::parse(window, short);
        let at1 = step(begin(), r0);
        let r1 = u8::parse(window.skip(at1.used as int), short);
        let at2 = step(at1, r1);
        let r2 = u8::parse(window.skip(at2.used as int), short);
        let at3 = step(at2, r2);
        finish(at3, (r0.result->Ok_0, r1.result->Ok_0, r2.result->Ok_0))
    }

    fn deserialize(stream: &mut DataStream) -> (result: Result<Self, DeserializeError>) {
        broadcast use lemma_advance_zero;

        let ghost start = stream@;
        let ghost window = start.window();
        let ghost short = start.short();
        assert(window.skip(0) =~= window);
        let r: u8 = field(stream, Ghost(start), Ghost(begin()))?;
        let ghost at1 = step(begin(), u8::parse(window, short));
        let g: u8 = field(stream, Ghost(start), Ghost(at1))?;
        let ghost at2 = step(at1, u8::parse(window.skip(at1.used as int), short));
        let b: u8 = field(stream, Ghost(start), Ghost(at2))?;
        Ok(Color { r, g, b })
    }
}

impl RoundTrip for Color {
    open spec fn readable(&self) -> bool {
        self.r.readable() && self.g.readable() && self.b.readable()
    }

    proof fn lemma_round_trip(&self, rest: Seq<u8>, short: bool) {
        let window = self.wire() + rest;
        assert(window =~= self.r.wire() + (self.g.wire() + self.b.wire() + rest));
        self.r.lemma_round_trip(self.g.wire() + self.b.wire() + rest, short);
        assert(
            window.skip((self.r.wire().len()) as int) =~= self.g.wire() + (self.b.wire() + rest)
        );
        self.g.lemma_round_trip(self.b.wire() + rest, short);
        assert(
            window.skip((self.r.wire().len() + self.g.wire().len()) as int) =~= self.b.wire()
                + (rest)
        );
        self.b.lemma_round_trip(rest, short);
    }
}
/// A set of ids: those that a tag names, or the ids themselves.
#[derive(Debug)]
pub enum IdSet {
    TagName(String),
    Ids(Vec<VarInt>),
}

/// What an [`IdSet`] stands for.
pub enum IdSetValue {
    TagName(Seq<char>),
    Ids(Seq<VarInt>),
}

impl DeepView for IdSet {
    type V = IdSetValue;

    open spec fn deep_view(&self) -> IdSetValue {
        match self {
            IdSet::TagName(name) => IdSetValue::TagName(name@),
            IdSet::Ids(ids) => IdSetValue::Ids(ids.deep_view()),
        }
    }
}

/// The message of a set of ids whose kind is below zero.
pub open spec fn negative_id_set_message(kind: i32) -> Seq<char> {
    number_message("ID Set: Negative type ("@, kind as int, ")"@)
}

impl Deserialize for IdSet {
    /// A kind, which may not be below zero; behind kind 0 the name of a tag,
    /// behind any other kind one id fewer than the kind says.
    open spec fn parse(window: Seq<u8>, short: bool) -> Outcome<IdSetValue> {
        let kind = VarInt::parse(window, short);
        match kind.result {
            Err(failure) => failed(failure, kind.used),
            Ok(VarInt(n)) => if n < 0 {
                failed(Failure::Malformed(negative_id_set_message(n)), kind.used)
            } else if n == 0 {
                behind(
                    kind.used,
                    made(
                        String::parse(window.skip(kind.used as int), short),
                        |name: Seq<char>| IdSetValue::TagName(name),
                    ),
                )
            } else {
                behind(
                    kind.used,
                    made(
                        repeat::<VarInt>(window.skip(kind.used as int), short, (n - 1) as nat),
                        |ids: Seq<VarInt>| IdSetValue::Ids(ids),
                    ),
                )
            },
        }
    }

    fn deserialize(stream: &mut DataStream) -> (result: Result<Self, DeserializeError>) {
        let ghost start = stream@;
        let ghost kind = VarInt::parse(start.window(), start.short());
        let type_ = VarInt::deserialize(stream)?.0;
        if type_ < 0 {
            return Err(malformed_with_number("ID Set: Negative type (", type_ as i64, ")"));
        }
        proof {
            lemma_advance_window(start, kind.used);
        }
        if type_ == 0 {
            let ghost name = String::parse(stream@.window(), stream@.short());
            let tag_name = String::deserialize(stream);
            proof {
                lemma_advance_twice(start, kind.used, name.used);
            }
            Ok(IdSet::TagName(tag_name?))
        } else {
            let len = type_ - 1;
            let ghost ids = repeat::<VarInt>(stream@.window(), stream@.short(), len as nat);
            let data = deserialize_slice::<VarInt>(stream, len as usize);
            proof {
                lemma_advance_twice(start, kind.used, ids.used);
            }
            Ok(IdSet::Ids(data?))
        }
    }
}

} // verus!
