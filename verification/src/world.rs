//! The blocks of the world: chunks by their place, each a column of
//! sections, each section a palette of blocks and one of biomes.

use crate::chunk::{BlockEntity, ChunkData, Heightmap, ProtocolChunkSection};
use crate::datatypes::BlockPos;
use crate::palette::{
    entries_count, fits, flat_index, in_bounds, lemma_blocks_measures, lemma_flat_index_bound,
    Biomes, Blocks, Palette, PaletteConfig,
};
use crate::types::{axis_chunk, axis_local, ChunkPos, ChunkSectionPos, LocalPos};
use crate::varint::bits32;
use std::collections::HashMap;
use vstd::prelude::*;

verus! {

/// The number of ids of `ids` that are not 0: the blocks that are not air.
pub open spec fn solid_count(ids: Seq<i32>) -> nat
    decreases ids.len(),
{
    if ids.len() == 0 {
        0
    } else {
        solid_count(ids.drop_last()) + if ids.last() != 0 {
            1nat
        } else {
            0nat
        }
    }
}

/// No more ids are not 0 than there are ids.
pub proof fn lemma_solid_count_bound(ids: Seq<i32>)
    ensures
        solid_count(ids) <= ids.len(),
    decreases ids.len(),
{
    if ids.len() > 0 {
        lemma_solid_count_bound(ids.drop_last());
    }
}

/// Writing one id changes the count by what the id that goes and the id that
/// comes add to it.
pub proof fn lemma_solid_count_update(ids: Seq<i32>, place: int, id: i32)
    requires
        0 <= place < ids.len(),
    ensures
        solid_count(ids.update(place, id)) + (if ids[place] != 0 {
            1nat
        } else {
            0nat
        }) == solid_count(ids) + (if id != 0 {
            1nat
        } else {
            0nat
        }),
    decreases ids.len(),
{
    let after = ids.update(place, id);
    if place == ids.len() - 1 {
        assert(after.drop_last() =~= ids.drop_last());
    } else {
        lemma_solid_count_update(ids.drop_last(), place, id);
        assert(after.drop_last() =~= ids.drop_last().update(place, id));
    }
}

/// A section of a chunk: sixteen blocks in each direction.
#[derive(Debug)]
pub struct ChunkSection {
    /// The number of blocks of the section that are not air.
    pub block_count: u16,
    pub blocks: Palette<Blocks>,
    pub biomes: Palette<Biomes>,
}

impl ChunkSection {
    /// Whether the palettes are well-formed and the count is the number of
    /// the blocks that are not air.
    pub open spec fn wf(&self) -> bool {
        &&& self.blocks.wf()
        &&& self.biomes.wf()
        &&& self.block_count == solid_count(self.blocks@)
    }

    /// Whether the section holds just what `value` carried.
    pub open spec fn carries(&self, value: ProtocolChunkSection) -> bool {
        &&& self.block_count == value.block_count
        &&& self.blocks.carries(value.blocks)
        &&& self.biomes.carries(value.biomes)
    }

    /// A section of air.
    pub fn empty() -> (section: Self)
        ensures
            section.wf(),
            section.block_count == 0,
            forall|index: int|
                0 <= index < entries_count::<Blocks>() ==> section.blocks@[index] == 0,
    {
        let section = Self { block_count: 0, blocks: Palette::empty(), biomes: Palette::empty() };
        proof {
            lemma_all_air(section.blocks@);
        }
        section
    }

    /// The section that holds what `value` carried. Nothing of it is
    /// checked: see [`ChunkSection::is_valid`].
    pub fn from(value: ProtocolChunkSection) -> (section: Self)
        ensures
            section.carries(value),
            section.blocks.dictionary_agrees(),
            section.biomes.dictionary_agrees(),
    {
        Self {
            block_count: value.block_count,
            blocks: Palette::from(value.blocks),
            biomes: Palette::from(value.biomes),
        }
    }

    /// Whether the section is well-formed, where the two directions of the
    /// dictionaries of its palettes agree.
    pub fn is_valid(&self) -> (valid: bool)
        requires
            self.blocks.dictionary_agrees(),
            self.biomes.dictionary_agrees(),
        ensures
            valid == self.wf(),
    {
        if !self.blocks.is_valid() || !self.biomes.is_valid() {
            return false;
        }
        let mut solid: u16 = 0;
        let mut index: usize = 0;
        proof {
            lemma_blocks_measures();
            assert(self.blocks@.take(0) =~= Seq::<i32>::empty());
        }
        while index < 4096
            invariant
                self.blocks.wf(),
                index <= 4096,
                entries_count::<Blocks>() == 4096,
                solid == solid_count(self.blocks@.take(index as int)),
            decreases 4096 - index,
        {
            proof {
                lemma_solid_count_bound(self.blocks@.take(index as int));
                assert(self.blocks@.take(index + 1).drop_last() =~= self.blocks@.take(
                    index as int,
                ));
            }
            if self.blocks.get_at(index) != 0 {
                solid = solid + 1;
            }
            index = index + 1;
        }
        assert(self.blocks@.take(4096) =~= self.blocks@);
        solid == self.block_count
    }

    /// Writes `block` at `pos` and keeps the count of the blocks that are not
    /// air.
    pub fn set_block(&mut self, pos: LocalPos, block: i32)
        requires
            old(self).wf(),
            in_bounds::<Blocks>(pos),
            fits(block, Blocks::DIRECT_BPE),
        ensures
            final(self).wf(),
            final(self).blocks@ == old(self).blocks@.update(flat_index::<Blocks>(pos), block),
            final(self).biomes == old(self).biomes,
    {
        proof {
            lemma_blocks_measures();
            lemma_flat_index_bound::<Blocks>(pos);
            lemma_solid_count_update(self.blocks@, flat_index::<Blocks>(pos), block);
            lemma_solid_count_bound(self.blocks@.update(flat_index::<Blocks>(pos), block));
            lemma_solid_count_bound(self.blocks@);
        }
        let old = self.blocks.set(pos, block);
        if old == block {
            return ;
        }
        if old == 0 {
            self.block_count = self.block_count + 1;
        }
        if block == 0 {
            self.block_count = self.block_count - 1;
        }
    }
}

/// Where every id is 0, no block is not air.
pub proof fn lemma_all_air(ids: Seq<i32>)
    requires
        forall|index: int| 0 <= index < ids.len() ==> ids[index] == 0,
    ensures
        solid_count(ids) == 0,
    decreases ids.len(),
{
    if ids.len() > 0 {
        lemma_all_air(ids.drop_last());
    }
}

/// The number of sections of a chunk, from four sections below the ground
/// level up.
pub const SECTIONS_PER_CHUNK: usize = 24;

/// A column of the world: sixteen blocks wide and deep, 24 sections high.
#[derive(Debug)]
pub struct Chunk {
    pub heightmaps: Vec<Heightmap>,
    pub sections: Vec<ChunkSection>,
    pub block_entities: Vec<BlockEntity>,
}

impl Chunk {
    /// Whether the chunk has its 24 sections, each well-formed.
    pub open spec fn wf(&self) -> bool {
        &&& self.sections@.len() == SECTIONS_PER_CHUNK
        &&& forall|i: int| 0 <= i < self.sections@.len() ==> (#[trigger] self.sections@[i]).wf()
    }

    /// A chunk of air.
    pub fn empty() -> (chunk: Self)
        ensures
            chunk.wf(),
            forall|i: int, index: int|
                #![trigger chunk.sections@[i].blocks@[index]]
                0 <= i < SECTIONS_PER_CHUNK && 0 <= index < entries_count::<Blocks>()
                    ==> chunk.sections@[i].blocks@[index] == 0,
    {
        let mut sections: Vec<ChunkSection> = Vec::new();
        while sections.len() < SECTIONS_PER_CHUNK
            invariant
                sections@.len() <= SECTIONS_PER_CHUNK,
                forall|i: int| 0 <= i < sections@.len() ==> (#[trigger] sections@[i]).wf(),
                forall|i: int, index: int|
                    #![trigger sections@[i].blocks@[index]]
                    0 <= i < sections@.len() && 0 <= index < entries_count::<Blocks>()
                        ==> sections@[i].blocks@[index] == 0,
            decreases SECTIONS_PER_CHUNK - sections@.len(),
        {
            sections.push(ChunkSection::empty());
        }
        Self { heightmaps: Vec::new(), sections, block_entities: Vec::new() }
    }

    /// The chunk that holds what `data` carried, section by section. Nothing
    /// of it is checked.
    pub fn from(data: ChunkData) -> (chunk: Self)
        ensures
            chunk.sections@.len() == SECTIONS_PER_CHUNK,
            forall|i: int|
                0 <= i < SECTIONS_PER_CHUNK ==> (#[trigger] chunk.sections@[i]).carries(
                    data.chunk_sections@[i],
                ),
            chunk.heightmaps == data.heightmaps,
            chunk.block_entities == data.block_entities,
    {
        let ChunkData { heightmaps, chunk_sections, block_entities, .. } = data;
        let mut waiting = vec_from_array(chunk_sections);
        let mut sections: Vec<ChunkSection> = Vec::new();
        while waiting.len() > 0
            invariant
                sections@.len() + waiting@.len() == SECTIONS_PER_CHUNK,
                chunk_sections@.len() == SECTIONS_PER_CHUNK,
                waiting@ == chunk_sections@.skip(sections@.len() as int),
                forall|i: int|
                    0 <= i < sections@.len() ==> (#[trigger] sections@[i]).carries(
                        chunk_sections@[i],
                    ),
            decreases waiting@.len(),
        {
            let ghost done = sections@.len();
            let next = waiting.remove(0);
            sections.push(ChunkSection::from(next));
            proof {
                assert(waiting@ =~= chunk_sections@.skip(done as int + 1));
            }
        }
        Self { heightmaps, sections, block_entities }
    }
}

/// Calls `Vec::from` for an array, which gives the values of the array, in
/// their order, as a vector.
#[verifier::external_body]
fn vec_from_array<T, const N: usize>(array: [T; N]) -> (items: Vec<T>)
    ensures
        items@ == array@,
{
    Vec::from(array)
}

/// The key under which the chunk at a place is kept: the 32 bits of `x`
/// above the 32 bits of `z`.
pub open spec fn chunk_key(x: i32, z: i32) -> u64 {
    (bits32(x) * 0x1_0000_0000 + bits32(z)) as u64
}

/// Two places have one key only where they are one place.
pub proof fn lemma_chunk_key_injective(x1: i32, z1: i32, x2: i32, z2: i32)
    requires
        chunk_key(x1, z1) == chunk_key(x2, z2),
    ensures
        x1 == x2,
        z1 == z2,
{
}

/// Two block positions in two chunks have two keys.
pub proof fn lemma_chunk_key_differs(a: BlockPos, b: BlockPos)
    requires
        !same_chunk(a, b),
    ensures
        key_at(a) != key_at(b),
{
    if key_at(a) == key_at(b) {
        lemma_chunk_key_injective(
            axis_chunk(a.0.x as int) as i32,
            axis_chunk(a.0.z as int) as i32,
            axis_chunk(b.0.x as int) as i32,
            axis_chunk(b.0.z as int) as i32,
        );
    }
}

/// The blocks of the world, chunk by chunk.
#[derive(Debug)]
pub struct World {
    chunks: HashMap<u64, Chunk>,
}

impl View for World {
    type V = Map<u64, Chunk>;

    closed spec fn view(&self) -> Map<u64, Chunk> {
        self.chunks@
    }
}

/// Whether a block position lies within the height of a chunk: from four
/// sections below the ground level to twenty above.
pub open spec fn in_height(y: i32) -> bool {
    -4 <= axis_chunk(y as int) < 20
}

/// The place of a block position within its section.
pub open spec fn local_index(pos: BlockPos) -> int {
    (axis_local(pos.0.y as int) * 16 + axis_local(pos.0.z as int)) * 16 + axis_local(
        pos.0.x as int,
    )
}

/// Whether two block positions lie in one chunk.
pub open spec fn same_chunk(a: BlockPos, b: BlockPos) -> bool {
    axis_chunk(a.0.x as int) == axis_chunk(b.0.x as int) && axis_chunk(a.0.z as int)
        == axis_chunk(b.0.z as int)
}

/// The key of the chunk of a block position.
pub open spec fn key_at(pos: BlockPos) -> u64 {
    chunk_key(axis_chunk(pos.0.x as int) as i32, axis_chunk(pos.0.z as int) as i32)
}

/// Two block positions that differ and lie in one section of one chunk have
/// two places in the section.
pub proof fn lemma_places_differ(a: BlockPos, b: BlockPos)
    requires
        a.0 != b.0,
        same_chunk(a, b),
        axis_chunk(a.0.y as int) == axis_chunk(b.0.y as int),
    ensures
        local_index(a) != local_index(b),
        0 <= local_index(a) < 4096,
{
}

impl World {
    /// Whether every chunk of the world is well-formed.
    pub open spec fn wf(&self) -> bool {
        forall|key: u64| #[trigger] self@.contains_key(key) ==> self@[key].wf()
    }

    /// The block at `pos`, where the world holds the chunk of the position.
    pub open spec fn block(&self, pos: BlockPos) -> Option<i32> {
        let key = key_at(pos);
        if self@.contains_key(key) {
            Some(self@[key].sections@[axis_chunk(pos.0.y as int) + 4].blocks@[local_index(pos)])
        } else {
            None
        }
    }

    /// A world without chunks.
    pub fn new() -> (world: Self)
        ensures
            world.wf(),
            world@ == Map::<u64, Chunk>::empty(),
    {
        Self { chunks: HashMap::new() }
    }

    /// The key of the chunk at `pos`.
    fn key_of(pos: ChunkPos) -> (key: u64)
        ensures
            key == chunk_key(pos.x, pos.z),
    {
        let x: u64 = if pos.x >= 0 {
            pos.x as u64
        } else {
            (pos.x as i64 + 0x1_0000_0000) as u64
        };
        let z: u64 = if pos.z >= 0 {
            pos.z as u64
        } else {
            (pos.z as i64 + 0x1_0000_0000) as u64
        };
        x * 0x1_0000_0000 + z
    }

    /// The block at `pos`; nothing where the world does not hold the chunk of
    /// the position.
    pub fn block_at(&self, pos: BlockPos) -> (block: Option<i32>)
        requires
            self.wf(),
            in_height(pos.0.y),
        ensures
            block == self.block(pos),
    {
        broadcast use vstd::std_specs::hash::group_hash_axioms;

        proof {
            lemma_blocks_measures();
        }
        let section_pos = ChunkSectionPos::from_block_pos(pos);
        let chunk_pos = ChunkPos { x: section_pos.x, z: section_pos.z };
        let key = Self::key_of(chunk_pos);
        match self.chunks.get(&key) {
            None => None,
            Some(chunk) => {
                let section = &chunk.sections[(section_pos.y + 4) as usize];
                assert(section.wf());
                let local_pos = LocalPos::from_global_block_pos(pos);
                Some(section.blocks.get(local_pos))
            },
        }
    }

    /// Writes `block` at `pos`. Where the world does not hold the chunk of
    /// the position, a chunk of air is made for the block, unless the block
    /// is air itself: then nothing is done.
    pub fn set_block(&mut self, pos: BlockPos, block: i32)
        requires
            old(self).wf(),
            in_height(pos.0.y),
            fits(block, Blocks::DIRECT_BPE),
        ensures
            final(self).wf(),
            final(self).block(pos) == if old(self).block(pos) is None && block == 0 {
                None
            } else {
                Some(block)
            },
            old(self).block(pos) is None && block == 0 ==> final(self)@ == old(self)@,
            forall|other: BlockPos|
                in_height(other.0.y) && other.0 != pos.0 ==> #[trigger] final(self).block(other)
                    == if same_chunk(other, pos) && old(self).block(pos) is None && block != 0 {
                    Some(0i32)
                } else {
                    old(self).block(other)
                },
    {
        broadcast use vstd::std_specs::hash::group_hash_axioms;

        proof {
            lemma_blocks_measures();
        }
        let section_pos = ChunkSectionPos::from_block_pos(pos);
        let local_pos = LocalPos::from_global_block_pos(pos);
        let key = Self::key_of(ChunkPos { x: section_pos.x, z: section_pos.z });
        let mut chunk = match self.chunks.remove(&key) {
            Some(chunk) => chunk,
            None => {
                if block == 0 {
                    // air
                    assert(self@ =~= old(self)@);
                    return ;
                }
                Chunk::empty()
            },
        };
        let level = (section_pos.y + 4) as usize;
        let section = ChunkSection::empty();
        let ghost before = chunk.sections@;
        assert(chunk.wf());
        assert(before[level as int].wf());
        chunk.sections.push(section);
        let mut section = chunk.sections.swap_remove(level);
        section.set_block(local_pos, block);
        chunk.sections.push(section);
        let _ = chunk.sections.swap_remove(level);
        proof {
            assert(chunk.sections@ =~= before.update(level as int, section));
            assert forall|i: int| 0 <= i < chunk.sections@.len() implies (
            #[trigger] chunk.sections@[i]).wf() by {
                if i != level {
                    assert(before[i].wf());
                }
            }
            lemma_flat_index_bound::<Blocks>(local_pos);
        }
        self.chunks.insert(key, chunk);
        proof {
            assert forall|other: u64| #[trigger] self@.contains_key(other) implies self@[
                other
            ].wf() by {
                if other != key {
                    assert(old(self)@.contains_key(other));
                }
            }
            assert forall|other: BlockPos|
                in_height(other.0.y) && other.0 != pos.0 implies #[trigger] self.block(other)
                    == if same_chunk(other, pos) && old(self).block(pos) is None && block != 0 {
                    Some(0i32)
                } else {
                    old(self).block(other)
                } by {
                if same_chunk(other, pos) {
                    assert(key_at(other) == key);
                    if axis_chunk(other.0.y as int) == axis_chunk(pos.0.y as int) {
                        lemma_places_differ(other, pos);
                    } else {
                        assert(chunk.sections@[axis_chunk(other.0.y as int) + 4] == before[
                            axis_chunk(other.0.y as int) + 4
                        ]);
                    }
                } else {
                    lemma_chunk_key_differs(other, pos);
                }
            }
        }
    }

    /// Puts the chunk `data` at `pos`, in the place of the chunk that was
    /// there, if one was.
    pub fn register_chunk_data(&mut self, pos: ChunkPos, data: Chunk)
        requires
            old(self).wf(),
            data.wf(),
        ensures
            final(self).wf(),
            final(self)@ == old(self)@.insert(chunk_key(pos.x, pos.z), data),
    {
        broadcast use vstd::std_specs::hash::group_hash_axioms;

        let key = Self::key_of(pos);
        self.chunks.insert(key, data);
        proof {
            assert forall|other: u64| #[trigger]
                self@.contains_key(other) implies self@[other].wf() by {
                if other != key {
                    assert(old(self)@.contains_key(other));
                }
            }
        }
    }
}

} // verus!
