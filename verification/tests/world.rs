use mcwire::chunk::{ChunkData, ProtocolChunkSection, ProtocolPalette};
use mcwire::codec::Deserialize;
use mcwire::datatypes::BlockPos;
use mcwire::palette::Palette;
use mcwire::stream::{ByteChannel, DataStream};
use mcwire::types::{calc_axis_chunk_pos, ChunkPos, ChunkSectionPos, LocalPos, Vec2, Vec3};
use mcwire::varint::VarInt;
use mcwire::world::{Chunk, ChunkSection, World};
use std::marker::PhantomData;

fn block(x: i32, y: i32, z: i32) -> BlockPos {
    BlockPos(Vec3 { x, y, z })
}

#[test]
fn chunks_are_sixteen_blocks_wide() {
    assert_eq!(calc_axis_chunk_pos(0), 0);
    assert_eq!(calc_axis_chunk_pos(15), 0);
    assert_eq!(calc_axis_chunk_pos(16), 1);
    assert_eq!(calc_axis_chunk_pos(-1), -1);
    assert_eq!(calc_axis_chunk_pos(-16), -1);
    assert_eq!(calc_axis_chunk_pos(-17), -2);
    assert_eq!(calc_axis_chunk_pos(i32::MAX), 134217727);
    assert_eq!(calc_axis_chunk_pos(i32::MIN), -134217728);
}

#[test]
fn positions_split_into_chunk_and_place() {
    let pos = block(-1, 35, 16);
    assert_eq!(ChunkPos::from_block_pos(pos), Vec2 { x: -1, z: 1 });
    assert_eq!(ChunkSectionPos::from_block_pos(pos), Vec3 { x: -1, y: 2, z: 1 });
    assert_eq!(LocalPos::from_global_block_pos(pos), Vec3 { x: 15, y: 3, z: 0 });
    assert_eq!(ChunkPos::from(Vec3 { x: 4, y: 5, z: 6 }), Vec2 { x: 4, z: 6 });
    assert_eq!(
        Vec3::<i32>::from(Vec3 { x: VarInt(1), y: VarInt(-2), z: VarInt(3) }),
        Vec3 { x: 1, y: -2, z: 3 }
    );
    assert_eq!(Vec2::<i32>::from(Vec2 { x: VarInt(7), z: VarInt(8) }), Vec2 { x: 7, z: 8 });
    let pos = block(-17, -64, -32);
    assert_eq!(ChunkSectionPos::from_block_pos(pos), Vec3 { x: -2, y: -4, z: -2 });
    assert_eq!(LocalPos::from_global_block_pos(pos), Vec3 { x: 15, y: 0, z: 0 });
}

#[test]
fn a_section_counts_its_blocks() {
    let mut section = ChunkSection::empty();
    assert!(section.is_valid());
    assert_eq!(section.block_count, 0);
    section.set_block(Vec3 { x: 1, y: 2, z: 3 }, 5);
    assert_eq!(section.block_count, 1);
    section.set_block(Vec3 { x: 1, y: 2, z: 3 }, 6);
    assert_eq!(section.block_count, 1);
    section.set_block(Vec3 { x: 0, y: 0, z: 0 }, 6);
    assert_eq!(section.block_count, 2);
    section.set_block(Vec3 { x: 0, y: 0, z: 0 }, 6);
    assert_eq!(section.block_count, 2);
    section.set_block(Vec3 { x: 1, y: 2, z: 3 }, 0);
    assert_eq!(section.block_count, 1);
    section.set_block(Vec3 { x: 5, y: 5, z: 5 }, 0);
    assert_eq!(section.block_count, 1);
    assert!(section.is_valid());
    assert_eq!(section.blocks.get(Vec3 { x: 0, y: 0, z: 0 }), 6);
    assert_eq!(section.blocks.get(Vec3 { x: 1, y: 2, z: 3 }), 0);
    section.block_count = 7;
    assert!(!section.is_valid());
}

#[test]
fn a_received_section_is_carried_over() {
    let section = ChunkSection::from(ProtocolChunkSection {
        block_count: 4096,
        blocks: ProtocolPalette::SingleValued { id: VarInt(1), _phantom: PhantomData },
        biomes: ProtocolPalette::SingleValued { id: VarInt(2), _phantom: PhantomData },
    });
    assert_eq!(section.block_count, 4096);
    assert!(section.is_valid());
    assert_eq!(section.blocks.get(Vec3 { x: 3, y: 3, z: 3 }), 1);
    assert_eq!(section.biomes.get(Vec3 { x: 3, y: 3, z: 3 }), 2);
    let section = ChunkSection::from(ProtocolChunkSection {
        block_count: 5,
        blocks: ProtocolPalette::SingleValued { id: VarInt(1), _phantom: PhantomData },
        biomes: ProtocolPalette::SingleValued { id: VarInt(2), _phantom: PhantomData },
    });
    assert!(!section.is_valid());
}

#[test]
fn an_empty_chunk_has_its_sections() {
    let chunk = Chunk::empty();
    assert_eq!(chunk.sections.len(), 24);
    assert!(chunk.heightmaps.is_empty());
    assert!(chunk.block_entities.is_empty());
    for section in &chunk.sections {
        assert_eq!(section.block_count, 0);
        assert!(matches!(section.blocks, Palette::SingleValued { id: 0, .. }));
    }
}

#[test]
fn a_world_without_chunks_holds_no_block() {
    let mut world = World::new();
    assert_eq!(world.block_at(block(0, 0, 0)), None);
    world.set_block(block(0, 0, 0), 0);
    assert_eq!(world.block_at(block(0, 0, 0)), None);
}

#[test]
fn blocks_are_written_and_read_back() {
    let mut world = World::new();
    world.set_block(block(1, 2, 3), 7);
    assert_eq!(world.block_at(block(1, 2, 3)), Some(7));
    assert_eq!(world.block_at(block(1, 2, 4)), Some(0));
    assert_eq!(world.block_at(block(15, 319, 15)), Some(0));
    assert_eq!(world.block_at(block(16, 2, 3)), None);
    assert_eq!(world.block_at(block(1, 2, -13)), None);
    world.set_block(block(-1, -64, -1), 9);
    assert_eq!(world.block_at(block(-1, -64, -1)), Some(9));
    assert_eq!(world.block_at(block(-16, -64, -16)), Some(0));
    assert_eq!(world.block_at(block(1, 2, 3)), Some(7));
    world.set_block(block(1, 2, 3), 0);
    assert_eq!(world.block_at(block(1, 2, 3)), Some(0));
    world.set_block(block(1, 18, 3), 32767);
    assert_eq!(world.block_at(block(1, 18, 3)), Some(32767));
    assert_eq!(world.block_at(block(1, 2, 3)), Some(0));
}

#[test]
fn chunks_far_apart_do_not_meet() {
    let mut world = World::new();
    world.set_block(block(i32::MAX, 0, i32::MIN), 1);
    world.set_block(block(i32::MIN, 0, i32::MAX), 2);
    world.set_block(block(0, 0, 16), 3);
    world.set_block(block(16, 0, 0), 4);
    assert_eq!(world.block_at(block(i32::MAX, 0, i32::MIN)), Some(1));
    assert_eq!(world.block_at(block(i32::MIN, 0, i32::MAX)), Some(2));
    assert_eq!(world.block_at(block(0, 0, 16)), Some(3));
    assert_eq!(world.block_at(block(16, 0, 0)), Some(4));
    assert_eq!(world.block_at(block(0, 0, 0)), None);
}

/// The bytes of a chunk without height maps or block entities, whose
/// sections all hold one block and one biome.
fn chunk_bytes() -> Vec<u8> {
    let mut bytes = vec![0, 0];
    for section in 0..24u8 {
        bytes.extend([0x10, 0x00]);
        bytes.extend([0, section + 1]);
        bytes.extend([0, 1]);
    }
    bytes.push(0);
    bytes
}

#[test]
fn a_registered_chunk_is_read() {
    let bytes = chunk_bytes();
    let mut channel = ByteChannel::new();
    channel.feed(&bytes);
    let mut stream = DataStream::new(channel, bytes.len());
    let data = ChunkData::deserialize(&mut stream).unwrap();
    assert_eq!(stream.remaining_size(), 0);
    assert_eq!(data.chunk_sections.len(), 24);
    let chunk = Chunk::from(data);
    assert_eq!(chunk.sections.len(), 24);
    for (level, section) in chunk.sections.iter().enumerate() {
        assert_eq!(section.block_count, 4096);
        assert!(section.is_valid());
        assert!(matches!(section.blocks, Palette::SingleValued { id, .. } if id == level as i32 + 1));
    }
    let mut world = World::new();
    world.register_chunk_data(Vec2 { x: 2, z: -3 }, chunk);
    assert_eq!(world.block_at(block(32, -64, -48)), Some(1));
    assert_eq!(world.block_at(block(47, -48, -33)), Some(2));
    assert_eq!(world.block_at(block(40, 319, -40)), Some(24));
    assert_eq!(world.block_at(block(48, 0, -48)), None);
    world.set_block(block(40, 0, -40), 0);
    assert_eq!(world.block_at(block(40, 0, -40)), Some(0));
    assert_eq!(world.block_at(block(41, 0, -40)), Some(5));
}
