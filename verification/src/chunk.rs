//! The data of a chunk as it travels: height maps, sections with their
//! palettes, block entities, and light.

use crate::codec::{
    begin, behind, done, failed, field, finish, made, malformed_with_number, number_message, pair,
    step, Deserialize, DeserializeError, Failure, Outcome,
};
use crate::containers::{deserialize_slice, repeat};
use crate::datatypes::BitSet;
use crate::nbt::{Nbt, NbtValue};
use crate::palette::{entries_count, words_for, Biomes, Blocks, Palette, PaletteConfig};
use crate::stream::{lemma_advance_twice, lemma_advance_window, lemma_advance_zero, DataStream};
use crate::varint::VarInt;
use std::marker::PhantomData;
use vstd::prelude::*;

verus! {

/// What a height map measures.
#[derive(Debug, Clone, Copy, PartialEq, Eq, Structural)]
pub enum HeightmapType {
    WorldSurface,
    MotionBlocking,
    MotionBlockingNoLeaves,
}

impl DeepView for HeightmapType {
    type V = HeightmapType;

    open spec fn deep_view(&self) -> HeightmapType {
        *self
    }
}

impl Deserialize for HeightmapType {
    open spec fn parse(window: Seq<u8>, short: bool) -> Outcome<HeightmapType> {
        let tag = VarInt::parse(window, short);
        match tag.result {
            Err(failure) => failed(failure, tag.used),
            Ok(VarInt(n)) => if n == 1 {
                done(HeightmapType::WorldSurface, tag.used)
            } else if n == 4 {
                done(HeightmapType::MotionBlocking, tag.used)
            } else if n == 5 {
                done(HeightmapType::MotionBlockingNoLeaves, tag.used)
            } else {
                failed(
                    Failure::Malformed(
                        number_message("HeightmapType: invalid type "@, n as int, ""@),
                    ),
                    tag.used,
                )
            },
        }
    }

    fn deserialize(stream: &mut DataStream) -> (result: Result<Self, DeserializeError>) {
        let repr = VarInt::deserialize(stream)?;
        match repr.0 {
            1 => Ok(HeightmapType::WorldSurface),
            4 => Ok(HeightmapType::MotionBlocking),
            5 => Ok(HeightmapType::MotionBlockingNoLeaves),
            other => Err(malformed_with_number("HeightmapType: invalid type ", other as i64, "")),
        }
    }
}

/// The height of every column of a chunk, packed into words.
#[derive(Debug)]
pub struct Heightmap {
    pub heightmap_type: HeightmapType,
    pub data: Vec<u64>,
}

impl DeepView for Heightmap {
    type V = (HeightmapType, Seq<u64>);

    open spec fn deep_view(&self) -> Self::V {
        (self.heightmap_type.deep_view(), self.data.deep_view())
    }
}

impl Deserialize for Heightmap {
    open spec fn parse(window: Seq<u8>, short: bool) -> Outcome<Self::V> {
        let r0 = HeightmapType::parse(window, short);
        let at1 = step(begin(), r0);
        let r1 = Vec::<u64>::parse(window.skip(at1.used as int), short);
        let at2 = step(at1, r1);
        finish(at2, (r0.result->Ok_0, r1.result->Ok_0))
    }

    fn deserialize(stream: &mut DataStream) -> (result: Result<Self, DeserializeError>) {
        broadcast use lemma_advance_zero;

        let ghost start = stream@;
        let ghost window = start.window();
        let ghost short = start.short();
        assert(window.skip(0) =~= window);
        let heightmap_type: HeightmapType = field(stream, Ghost(start), Ghost(begin()))?;
        let ghost at1 = step(begin(), HeightmapType::parse(window, short));
        let data: Vec<u64> = field(stream, Ghost(start), Ghost(at1))?;
        Ok(Heightmap { heightmap_type, data })
    }
}

/// A block that carries data of its own.
#[derive(Debug)]
pub struct BlockEntity {
    pub xz: u8,
    pub y: i16,
    pub block_entity_type: VarInt,
    pub data: Nbt,
}

impl DeepView for BlockEntity {
    type V = (u8, i16, VarInt, NbtValue);

    open spec fn deep_view(&self) -> Self::V {
        (
            self.xz.deep_view(),
            self.y.deep_view(),
            self.block_entity_type.deep_view(),
            self.data.deep_view(),
        )
    }
}

impl Deserialize for BlockEntity {
    open spec fn parse(window: Seq<u8>, short: bool) -> Outcome<Self::V> {
        let r0 = u8::parse(window, short);
        let at1 = step(begin(), r0);
        let r1 = i16::parse(window.skip(at1.used as int), short);
        let at2 = step(at1, r1);
        let r2 = VarInt::parse(window.skip(at2.used as int), short);
        let at3 = step(at2, r2);
        let r3 = Nbt::parse(window.skip(at3.used as int), short);
        let at4 = step(at3, r3);
        finish(at4, (r0.result->Ok_0, r1.result->Ok_0, r2.result->Ok_0, r3.result->Ok_0))
    }

    fn deserialize(stream: &mut DataStream) -> (result: Result<Self, DeserializeError>) {
        broadcast use lemma_advance_zero;

        let ghost start = stream@;
        let ghost window = start.window();
        let ghost short = start.short();
        assert(window.skip(0) =~= window);
        let xz: u8 = field(stream, Ghost(start), Ghost(begin()))?;
        let ghost at1 = step(begin(), u8::parse(window, short));
        let y: i16 = field(stream, Ghost(start), Ghost(at1))?;
        let ghost at2 = step(at1, i16::parse(window.skip(at1.used as int), short));
        let block_entity_type: VarInt = field(stream, Ghost(start), Ghost(at2))?;
        let ghost at3 = step(at2, VarInt::parse(window.skip(at2.used as int), short));
        let data: Nbt = field(stream, Ghost(start), Ghost(at3))?;
        Ok(BlockEntity { xz, y, block_entity_type, data })
    }
}

/// The ids of a volume as they travel, in one of three forms.
#[derive(Debug)]
pub enum ProtocolPalette<CONFIG: PaletteConfig> {
    SingleValued { id: VarInt, _phantom: PhantomData<CONFIG> },
    Indirect { bpe: u32, palette: Vec<VarInt>, data: Vec<u64> },
    Direct { bpe: u32, data: Vec<u64> },
}

/// What a [`ProtocolPalette`] stands for.
pub enum PaletteValue {
    SingleValued { id: VarInt },
    Indirect { bpe: u32, palette: Seq<VarInt>, data: Seq<u64> },
    Direct { bpe: u32, data: Seq<u64> },
}

impl<CONFIG: PaletteConfig> DeepView for ProtocolPalette<CONFIG> {
    type V = PaletteValue;

    open spec fn deep_view(&self) -> PaletteValue {
        match self {
            ProtocolPalette::SingleValued { id, .. } => PaletteValue::SingleValued { id: *id },
            ProtocolPalette::Indirect { bpe, palette, data } => PaletteValue::Indirect {
                bpe: *bpe,
                palette: palette@,
                data: data@,
            },
            ProtocolPalette::Direct { bpe, data } =>
                PaletteValue::Direct { bpe: *bpe, data: data@ },
        }
    }
}

/// The message of a width that no form of palette has.
pub open spec fn invalid_bpe_message(bpe: i32) -> Seq<char> {
    number_message("Invalid bpe: "@, bpe as int, ""@)
}

impl<CONFIG: PaletteConfig> Deserialize for ProtocolPalette<CONFIG> {
    /// The width in bits of an entry, and behind it: at width 0 the one id;
    /// at a width below the direct one the dictionary, counted, and the
    /// words that the entries take at the width; at the direct width the
    /// words. Any other width is refused.
    open spec fn parse(window: Seq<u8>, short: bool) -> Outcome<PaletteValue> {
        let width = VarInt::parse(window, short);
        let body = window.skip(width.used as int);
        match width.result {
            Err(failure) => failed(failure, width.used),
            Ok(VarInt(n)) => if n == 0 {
                behind(
                    width.used,
                    made(
                        VarInt::parse(body, short),
                        |id: VarInt| PaletteValue::SingleValued { id },
                    ),
                )
            } else if 0 < n < CONFIG::DIRECT_BPE {
                let palette = Vec::<VarInt>::parse(body, short);
                let data = repeat::<u64>(
                    body.skip(palette.used as int),
                    short,
                    words_for(entries_count::<CONFIG>() as int, n as u32) as nat,
                );
                behind(
                    width.used,
                    made(
                        pair(palette, data),
                        |parts: (Seq<VarInt>, Seq<u64>)|
                            PaletteValue::Indirect {
                                bpe: n as u32,
                                palette: parts.0,
                                data: parts.1,
                            },
                    ),
                )
            } else if n == CONFIG::DIRECT_BPE {
                behind(
                    width.used,
                    made(
                        repeat::<u64>(
                            body,
                            short,
                            words_for(entries_count::<CONFIG>() as int, n as u32) as nat,
                        ),
                        |data: Seq<u64>| PaletteValue::Direct { bpe: n as u32, data },
                    ),
                )
            } else {
                failed(Failure::Malformed(invalid_bpe_message(n)), width.used)
            },
        }
    }

    fn deserialize(stream: &mut DataStream) -> (result: Result<Self, DeserializeError>) {
        proof {
            CONFIG::measures_fit();
        }
        let ghost start = stream@;
        let ghost width = VarInt::parse(start.window(), start.short());
        let bpe = VarInt::deserialize(stream)?.0;
        proof {
            lemma_advance_window(start, width.used);
        }
        let ghost body = stream@.window();
        let ghost short = stream@.short();
        if bpe == 0 {
            let ghost read = VarInt::parse(body, short);
            let id = VarInt::deserialize(stream);
            proof {
                lemma_advance_twice(start, width.used, read.used);
            }
            Ok(ProtocolPalette::SingleValued { id: id?, _phantom: PhantomData })
        } else if bpe > 0 && (bpe as u32) < CONFIG::DIRECT_BPE {
            let bpe = bpe as u32;
            let ghost palette_ = Vec::<VarInt>::parse(body, short);
            let palette: Result<Vec<VarInt>, DeserializeError> = Vec::deserialize(stream);
            proof {
                lemma_advance_twice(start, width.used, palette_.used);
                lemma_advance_window(start, width.used + palette_.used);
                assert(body.skip(palette_.used as int) =~= start.window().skip(
                    (width.used + palette_.used) as int,
                ));
            }
            let palette = palette?;
            let data_length = Palette::<CONFIG>::words(bpe);
            let ghost data_ = repeat::<u64>(stream@.window(), short, data_length as nat);
            let data = deserialize_slice::<u64>(stream, data_length);
            proof {
                lemma_advance_twice(start, width.used + palette_.used, data_.used);
            }
            let data = data?;
            assert(palette.deep_view() =~= palette@);
            assert(data.deep_view() =~= data@);
            Ok(ProtocolPalette::Indirect { bpe, palette, data })
        } else if bpe > 0 && bpe as u32 == CONFIG::DIRECT_BPE {
            let bpe = bpe as u32;
            let data_length = Palette::<CONFIG>::words(bpe);
            let ghost data_ = repeat::<u64>(body, short, data_length as nat);
            let data = deserialize_slice::<u64>(stream, data_length);
            proof {
                lemma_advance_twice(start, width.used, data_.used);
            }
            let data = data?;
            assert(data.deep_view() =~= data@);
            Ok(ProtocolPalette::Direct { bpe, data })
        } else {
            Err(malformed_with_number("Invalid bpe: ", bpe as i64, ""))
        }
    }
}

/// A section of a chunk as it travels: sixteen blocks high.
#[derive(Debug)]
pub struct ProtocolChunkSection {
    pub block_count: u16,
    pub blocks: ProtocolPalette<Blocks>,
    pub biomes: ProtocolPalette<Biomes>,
}

impl DeepView for ProtocolChunkSection {
    type V = (u16, PaletteValue, PaletteValue);

    open spec fn deep_view(&self) -> Self::V {
        (self.block_count.deep_view(), self.blocks.deep_view(), self.biomes.deep_view())
    }
}

impl Deserialize for ProtocolChunkSection {
    open spec fn parse(window: Seq<u8>, short: bool) -> Outcome<Self::V> {
        let r0 = u16::parse(window, short);
        let at1 = step(begin(), r0);
        let r1 = ProtocolPalette::<Blocks>::parse(window.skip(at1.used as int), short);
        let at2 = step(at1, r1);
        let r2 = ProtocolPalette::<Biomes>::parse(window.skip(at2.used as int), short);
        let at3 = step(at2, r2);
        finish(at3, (r0.result->Ok_0, r1.result->Ok_0, r2.result->Ok_0))
    }

    fn deserialize(stream: &mut DataStream) -> (result: Result<Self, DeserializeError>) {
        broadcast use lemma_advance_zero;

        let ghost start = stream@;
        let ghost window = start.window();
        let ghost short = start.short();
        assert(window.skip(0) =~= window);
        let block_count: u16 = field(stream, Ghost(start), Ghost(begin()))?;
        let ghost at1 = step(begin(), u16::parse(window, short));
        let blocks: ProtocolPalette<Blocks> = field(stream, Ghost(start), Ghost(at1))?;
        let ghost at2 = step(
            at1,
            ProtocolPalette::<Blocks>::parse(window.skip(at1.used as int), short),
        );
        let biomes: ProtocolPalette<Biomes> = field(stream, Ghost(start), Ghost(at2))?;
        Ok(ProtocolChunkSection { block_count, blocks, biomes })
    }
}

/// A chunk as it travels.
#[derive(Debug)]
pub struct ChunkData {
    pub heightmaps: Vec<Heightmap>,
    pub data_size: VarInt,
    /// 24 only in overworld
    pub chunk_sections: [ProtocolChunkSection; 24],
    pub block_entities: Vec<BlockEntity>,
}

impl DeepView for ChunkData {
    type V = (
        Seq<(HeightmapType, Seq<u64>)>,
        VarInt,
        Seq<(u16, PaletteValue, PaletteValue)>,
        Seq<(u8, i16, VarInt, NbtValue)>,
    );

    open spec fn deep_view(&self) -> Self::V {
        (
            self.heightmaps.deep_view(),
            self.data_size.deep_view(),
            self.chunk_sections.deep_view(),
            self.block_entities.deep_view(),
        )
    }
}

impl Deserialize for ChunkData {
    open spec fn parse(window: Seq<u8>, short: bool) -> Outcome<Self::V> {
        let r0 = Vec::<Heightmap>::parse(window, short);
        let at1 = step(begin(), r0);
        let r1 = VarInt::parse(window.skip(at1.used as int), short);
        let at2 = step(at1, r1);
        let r2 = <[ProtocolChunkSection; 24]>::parse(window.skip(at2.used as int), short);
        let at3 = step(at2, r2);
        let r3 = Vec::<BlockEntity>::parse(window.skip(at3.used as int), short);
        let at4 = step(at3, r3);
        finish(at4, (r0.result->Ok_0, r1.result->Ok_0, r2.result->Ok_0, r3.result->Ok_0))
    }

    fn deserialize(stream: &mut DataStream) -> (result: Result<Self, DeserializeError>) {
        broadcast use lemma_advance_zero;

        let ghost start = stream@;
        let ghost window = start.window();
        let ghost short = start.short();
        assert(window.skip(0) =~= window);
        let heightmaps: Vec<Heightmap> = field(stream, Ghost(start), Ghost(begin()))?;
        let ghost at1 = step(begin(), Vec::<Heightmap>::parse(window, short));
        let data_size: VarInt = field(stream, Ghost(start), Ghost(at1))?;
        let ghost at2 = step(at1, VarInt::parse(window.skip(at1.used as int), short));
        let chunk_sections: [ProtocolChunkSection; 24] = field(stream, Ghost(start), Ghost(at2))?;
        let ghost at3 = step(
            at2,
            <[ProtocolChunkSection; 24]>::parse(window.skip(at2.used as int), short),
        );
        let block_entities: Vec<BlockEntity> = field(stream, Ghost(start), Ghost(at3))?;
        Ok(ChunkData { heightmaps, data_size, chunk_sections, block_entities })
    }
}

/// The light of a chunk.
#[derive(Debug)]
pub struct LightData {
    pub sky_light_mask: BitSet,
    pub block_light_mask: BitSet,
    pub empty_sky_light_mask: BitSet,
    pub empty_block_light_mask: BitSet,
    pub sky_light_arrays: Vec<Vec<u8>>,
    pub block_light_arrays: Vec<Vec<u8>>,
}

impl DeepView for LightData {
    type V = (Seq<i64>, Seq<i64>, Seq<i64>, Seq<i64>, Seq<Seq<u8>>, Seq<Seq<u8>>);

    open spec fn deep_view(&self) -> Self::V {
        (
            self.sky_light_mask.deep_view(),
            self.block_light_mask.deep_view(),
            self.empty_sky_light_mask.deep_view(),
            self.empty_block_light_mask.deep_view(),
            self.sky_light_arrays.deep_view(),
            self.block_light_arrays.deep_view(),
        )
    }
}

impl Deserialize for LightData {
    open spec fn parse(window: Seq<u8>, short: bool) -> Outcome<Self::V> {
        let r0 = BitSet::parse(window, short);
        let at1 = step(begin(), r0);
        let r1 = BitSet::parse(window.skip(at1.used as int), short);
        let at2 = step(at1, r1);
        let r2 = BitSet::parse(window.skip(at2.used as int), short);
        let at3 = step(at2, r2);
        let r3 = BitSet::parse(window.skip(at3.used as int), short);
        let at4 = step(at3, r3);
        let r4 = Vec::<Vec<u8>>::parse(window.skip(at4.used as int), short);
        let at5 = step(at4, r4);
        let r5 = Vec::<Vec<u8>>::parse(window.skip(at5.used as int), short);
        let at6 = step(at5, r5);
        finish(
            at6,
            (
                r0.result->Ok_0,
                r1.result->Ok_0,
                r2.result->Ok_0,
                r3.result->Ok_0,
                r4.result->Ok_0,
                r5.result->Ok_0,
            ),
        )
    }

    fn deserialize(stream: &mut DataStream) -> (result: Result<Self, DeserializeError>) {
        broadcast use lemma_advance_zero;

        let ghost start = stream@;
        let ghost window = start.window();
        let ghost short = start.short();
        assert(window.skip(0) =~= window);
        let sky_light_mask: BitSet = field(stream, Ghost(start), Ghost(begin()))?;
        let ghost at1 = step(begin(), BitSet::parse(window, short));
        let block_light_mask: BitSet = field(stream, Ghost(start), Ghost(at1))?;
        let ghost at2 = step(at1, BitSet::parse(window.skip(at1.used as int), short));
        let empty_sky_light_mask: BitSet = field(stream, Ghost(start), Ghost(at2))?;
        let ghost at3 = step(at2, BitSet::parse(window.skip(at2.used as int), short));
        let empty_block_light_mask: BitSet = field(stream, Ghost(start), Ghost(at3))?;
        let ghost at4 = step(at3, BitSet::parse(window.skip(at3.used as int), short));
        let sky_light_arrays: Vec<Vec<u8>> = field(stream, Ghost(start), Ghost(at4))?;
        let ghost at5 = step(at4, Vec::<Vec<u8>>::parse(window.skip(at4.used as int), short));
        let block_light_arrays: Vec<Vec<u8>> = field(stream, Ghost(start), Ghost(at5))?;
        Ok(
            LightData {
                sky_light_mask,
                block_light_mask,
                empty_sky_light_mask,
                empty_block_light_mask,
                sky_light_arrays,
                block_light_arrays,
            },
        )
    }
}

} // verus!
