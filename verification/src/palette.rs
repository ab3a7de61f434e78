//! Dense storage of the ids of one cubic volume: one id for all positions,
//! or an id for each position, packed into 64-bit words at a width of some
//! bits per entry.

use crate::chunk::ProtocolPalette;
use crate::types::LocalPos;
use crate::varint::VarInt;
use std::collections::HashMap;
use std::marker::PhantomData;
use vstd::prelude::*;

verus! {

/// The measures of a kind of volume.
pub trait PaletteConfig {
    /// The side length of the volume.
    const ENTRIES_PER_AXE: usize;

    /// The width, in bits, of an id that is stored as itself.
    const DIRECT_BPE: u32;

    /// How much entries in an indirect palette before converting it to direct
    const MAX_INDIRECT_ENTRIES: usize;

    /// The measures fit the storage: a position fits its type, an id at the
    /// direct width is not negative, and a code of the largest dictionary
    /// fits half a word.
    proof fn measures_fit()
        ensures
            1 <= Self::ENTRIES_PER_AXE <= 256,
            1 <= Self::DIRECT_BPE <= 31,
            1 <= Self::MAX_INDIRECT_ENTRIES <= 0x8000_0000,
    ;
}

/// The volume of block ids of a chunk section.
#[derive(Debug)]
pub struct Blocks;

impl PaletteConfig for Blocks {
    const ENTRIES_PER_AXE: usize = 16;

    const DIRECT_BPE: u32 = 15;

    const MAX_INDIRECT_ENTRIES: usize = 256;

    proof fn measures_fit() {
    }
}

/// The volume of biome ids of a chunk section.
#[derive(Debug)]
pub struct Biomes;

impl PaletteConfig for Biomes {
    const ENTRIES_PER_AXE: usize = 4;

    const DIRECT_BPE: u32 = 6;

    const MAX_INDIRECT_ENTRIES: usize = 8;

    proof fn measures_fit() {
    }
}

/// The number of positions of a volume.
pub open spec fn entries_count<CONFIG: PaletteConfig>() -> nat {
    (CONFIG::ENTRIES_PER_AXE * CONFIG::ENTRIES_PER_AXE * CONFIG::ENTRIES_PER_AXE) as nat
}

/// Whether `pos` lies within the volume.
pub open spec fn in_bounds<CONFIG: PaletteConfig>(pos: LocalPos) -> bool {
    &&& pos.x < CONFIG::ENTRIES_PER_AXE
    &&& pos.y < CONFIG::ENTRIES_PER_AXE
    &&& pos.z < CONFIG::ENTRIES_PER_AXE
}

/// The place of `pos` among the entries: layers of `y`, rows of `z` in a
/// layer, `x` along a row.
pub open spec fn flat_index<CONFIG: PaletteConfig>(pos: LocalPos) -> int {
    (pos.y * CONFIG::ENTRIES_PER_AXE + pos.z) * CONFIG::ENTRIES_PER_AXE + pos.x
}

/// A position within the volume has its place among the entries.
pub proof fn lemma_flat_index_bound<CONFIG: PaletteConfig>(pos: LocalPos)
    requires
        in_bounds::<CONFIG>(pos),
    ensures
        0 <= flat_index::<CONFIG>(pos) < entries_count::<CONFIG>(),
{
    CONFIG::measures_fit();
    let side = CONFIG::ENTRIES_PER_AXE as int;
    let (x, y, z) = (pos.x as int, pos.y as int, pos.z as int);
    assert(0 <= (y * side + z) * side + x < side * side * side && side * side * side
        <= 0x100_0000) by (nonlinear_arith)
        requires
            1 <= side <= 256,
            0 <= x < side,
            0 <= y < side,
            0 <= z < side,
    ;
}

/// The measures of the volume of blocks, in numbers.
pub proof fn lemma_blocks_measures()
    ensures
        Blocks::ENTRIES_PER_AXE == 16,
        Blocks::DIRECT_BPE == 15,
        Blocks::MAX_INDIRECT_ENTRIES == 256,
        entries_count::<Blocks>() == 4096,
        low_mask(Blocks::DIRECT_BPE) == 0x7FFF,
{
    assert(16 * 16 * 16 == 4096) by (nonlinear_arith);
    assert(low_mask(15) == 0x7FFF) by (bit_vector);
}

/// The measures of the volume of biomes, in numbers.
pub proof fn lemma_biomes_measures()
    ensures
        Biomes::ENTRIES_PER_AXE == 4,
        Biomes::DIRECT_BPE == 6,
        Biomes::MAX_INDIRECT_ENTRIES == 8,
        entries_count::<Biomes>() == 64,
        low_mask(Biomes::DIRECT_BPE) == 0x3F,
{
    assert(4 * 4 * 4 == 64) by (nonlinear_arith);
    assert(low_mask(6) == 0x3F) by (bit_vector);
}

/// The word whose low `bpe` bits are set.
pub open spec fn low_mask(bpe: u32) -> u64 {
    ((1u64 << bpe) - 1) as u64
}

/// The field of `bpe` bits that begins at bit `offset` of `word`.
pub open spec fn field(word: u64, bpe: u32, offset: u32) -> u64 {
    (word >> offset) & low_mask(bpe)
}

/// `word` with the low `bpe` bits of `value` in the field at bit `offset`.
pub open spec fn with_field(word: u64, bpe: u32, offset: u32, value: u64) -> u64 {
    (word & !(low_mask(bpe) << offset)) | ((value << offset) & (low_mask(bpe) << offset))
}

/// The number of entries of `bpe` bits in a word. Entries never span two
/// words: the bits that are left at the top of a word hold nothing.
pub open spec fn per_word(bpe: u32) -> int {
    64int / (bpe as int)
}

/// The number of words that `count` entries of `bpe` bits take.
pub open spec fn words_for(count: int, bpe: u32) -> int {
    (count + per_word(bpe) - 1) / per_word(bpe)
}

/// The bit at which entry `index` begins within its word.
pub open spec fn offset_of(bpe: u32, index: int) -> u32 {
    (bpe * (index % per_word(bpe))) as u32
}

/// Entry `index` of a packed array.
pub open spec fn entry(data: Seq<u64>, bpe: u32, index: int) -> u64 {
    field(data[index / per_word(bpe)], bpe, offset_of(bpe, index))
}

/// The packed array `data` with the low `bpe` bits of `value` in entry
/// `index`: one field of one word is written, and nothing else.
pub open spec fn with_entry(data: Seq<u64>, bpe: u32, index: int, value: u64) -> Seq<u64> {
    data.update(
        index / per_word(bpe),
        with_field(data[index / per_word(bpe)], bpe, offset_of(bpe, index), value),
    )
}

/// Whether every field of the words of `data` from place `count` on holds
/// `value`. The fields behind the last entry of a volume hold no entry; they
/// lie in the last word where the entries do not fill it.
pub open spec fn rest_holds(data: Seq<u64>, bpe: u32, count: int, value: u64) -> bool {
    forall|index: int|
        count <= index < data.len() * per_word(bpe) ==> #[trigger] entry(data, bpe, index)
            == value
}

/// The bits at the top of a word that hold no entry of `bpe` bits.
pub open spec fn spare_bits(word: u64, bpe: u32) -> u64 {
    if bpe * per_word(bpe) >= 64 {
        0
    } else {
        word >> ((bpe * per_word(bpe)) as u32)
    }
}

/// Whether the bits that hold no entry are zero in every word.
pub open spec fn zero_padded(data: Seq<u64>, bpe: u32) -> bool {
    forall|w: int| 0 <= w < data.len() ==> spare_bits(#[trigger] data[w], bpe) == 0
}

/// Whether `id` can be stored as itself in `bpe` bits.
pub open spec fn fits(id: i32, bpe: u32) -> bool {
    0 <= id && id as u64 <= low_mask(bpe)
}

/// The number of bits of `n` in base two: the width that the codes up to
/// `n` take.
pub open spec fn bits_for(n: nat) -> nat
    decreases n,
{
    if n == 0 {
        0
    } else {
        1 + bits_for(n / 2)
    }
}

proof fn lemma_mask(bpe: u32)
    by (bit_vector)
    requires
        1 <= bpe <= 32,
    ensures
        (1u64 << bpe) >= 2,
        low_mask(bpe) <= 0xFFFF_FFFF,
        low_mask(bpe) >= 1,
        bpe <= 31 ==> low_mask(bpe) <= 0x7FFF_FFFF,
{
}

proof fn lemma_mask_step(bpe: u32)
    by (bit_vector)
    requires
        bpe <= 31,
    ensures
        low_mask(0) == 0,
        low_mask((bpe + 1) as u32) == 2 * low_mask(bpe) + 1,
{
}

/// A number below two to the power `limit` has at most `limit` bits.
proof fn lemma_bits_bound(n: nat, limit: nat)
    requires
        n < vstd::arithmetic::power2::pow2(limit),
    ensures
        bits_for(n) <= limit,
    decreases limit,
{
    if limit == 0 {
        vstd::arithmetic::power2::lemma2_to64();
    } else if n > 0 {
        vstd::arithmetic::power2::lemma_pow2_unfold(limit);
        lemma_bits_bound(n / 2, (limit - 1) as nat);
    }
}

/// A code below two to the power 31 has at most 31 bits, at least one where
/// it is not zero, and fits the width of its bits.
proof fn lemma_bits_for(n: nat)
    requires
        n < 0x8000_0000,
    ensures
        bits_for(n) <= 31,
        n >= 1 ==> bits_for(n) >= 1,
        n <= low_mask(bits_for(n) as u32),
    decreases n,
{
    vstd::arithmetic::power2::lemma2_to64();
    lemma_bits_bound(n, 31);
    if n > 0 {
        lemma_bits_for(n / 2);
        lemma_bits_bound(n / 2, 30);
        lemma_mask_step(bits_for(n / 2) as u32);
    } else {
        lemma_mask_step(0);
    }
}

proof fn lemma_field_bound(word: u64, bpe: u32, offset: u32)
    by (bit_vector)
    requires
        1 <= bpe <= 32,
        offset < 64,
    ensures
        field(word, bpe, offset) <= low_mask(bpe),
        field(0, bpe, offset) == 0,
{
}

proof fn lemma_field_written(word: u64, bpe: u32, offset: u32, value: u64)
    by (bit_vector)
    requires
        1 <= bpe <= 32,
        offset + bpe <= 64,
    ensures
        field(with_field(word, bpe, offset, value), bpe, offset) == value & low_mask(bpe),
        value <= low_mask(bpe) ==> value & low_mask(bpe) == value,
{
}

proof fn lemma_field_kept(word: u64, bpe: u32, offset: u32, value: u64, other: u32)
    by (bit_vector)
    requires
        1 <= bpe <= 32,
        offset + bpe <= 64,
        other + bpe <= 64,
        other + bpe <= offset || offset + bpe <= other,
    ensures
        field(with_field(word, bpe, offset, value), bpe, other) == field(word, bpe, other),
{
}

proof fn lemma_spare_kept(word: u64, bpe: u32, offset: u32, value: u64, used: u32)
    by (bit_vector)
    requires
        1 <= bpe <= 32,
        offset + bpe <= used,
        used < 64,
    ensures
        with_field(word, bpe, offset, value) >> used == word >> used,
        0u64 >> used == 0,
{
}

/// An entry lies within its word, and two entries of one word do not
/// overlap.
proof fn lemma_offsets(bpe: u32, index: int, other: int)
    requires
        1 <= bpe <= 32,
        0 <= index,
        0 <= other,
    ensures
        2 <= per_word(bpe) <= 64,
        0 <= index % per_word(bpe) < per_word(bpe),
        offset_of(bpe, index) == bpe * (index % per_word(bpe)),
        offset_of(bpe, index) + bpe <= bpe * per_word(bpe),
        bpe * per_word(bpe) <= 64,
        offset_of(bpe, index) + bpe <= 64,
        offset_of(bpe, other) + bpe <= 64,
        index / per_word(bpe) == other / per_word(bpe) && index != other ==> offset_of(
            bpe,
            other,
        ) + bpe <= offset_of(bpe, index) || offset_of(bpe, index) + bpe <= offset_of(
            bpe,
            other,
        ),
{
    let per = per_word(bpe);
    let b = bpe as int;
    assert(2 <= per <= 64 && b * per <= 64) by (nonlinear_arith)
        requires
            per == 64int / b,
            1 <= b <= 32,
    ;
    let j = index % per;
    let k = other % per;
    assert(b * j + b <= b * per) by (nonlinear_arith)
        requires
            0 <= j < per,
            1 <= b,
    ;
    assert(b * k + b <= b * per) by (nonlinear_arith)
        requires
            0 <= k < per,
            1 <= b,
    ;
    if index / per == other / per && index != other {
        vstd::arithmetic::div_mod::lemma_fundamental_div_mod(index, per);
        vstd::arithmetic::div_mod::lemma_fundamental_div_mod(other, per);
        if j < k {
            assert(b * j + b <= b * k) by (nonlinear_arith)
                requires
                    0 <= j < k,
                    1 <= b,
            ;
        } else {
            assert(b * k + b <= b * j) by (nonlinear_arith)
                requires
                    0 <= k < j,
                    1 <= b,
            ;
        }
    }
}

/// The word of an entry lies within the words that the entries take.
proof fn lemma_word_in_range(count: int, bpe: u32, index: int)
    requires
        1 <= bpe <= 32,
        0 <= index < count,
    ensures
        0 <= index / per_word(bpe) < words_for(count, bpe),
{
    let per = per_word(bpe);
    lemma_offsets(bpe, index, index);
    assert(0 <= index / per < (count + per - 1) / per) by (nonlinear_arith)
        requires
            0 <= index < count,
            2 <= per,
    ;
}

/// The word of a field lies within the words.
proof fn lemma_field_in_range(len: int, bpe: u32, index: int)
    requires
        1 <= bpe <= 32,
        0 <= index < len * per_word(bpe),
    ensures
        0 <= index / per_word(bpe) < len,
{
    lemma_offsets(bpe, index, index);
    assert(len * per_word(bpe) == per_word(bpe) * len) by (nonlinear_arith);
    vstd::arithmetic::div_mod::lemma_multiply_divide_lt(index, per_word(bpe), len);
    vstd::arithmetic::div_mod::lemma_div_pos_is_pos(index, per_word(bpe));
}

/// Writing an entry below `count` leaves what the fields from `count` on
/// hold.
proof fn lemma_rest_kept(data: Seq<u64>, bpe: u32, index: int, value: u64, count: int, held: u64)
    requires
        1 <= bpe <= 32,
        0 <= index < count,
        index / per_word(bpe) < data.len(),
        rest_holds(data, bpe, count, held),
    ensures
        rest_holds(with_entry(data, bpe, index, value), bpe, count, held),
{
    let after = with_entry(data, bpe, index, value);
    assert forall|other: int| count <= other < after.len() * per_word(bpe) implies #[trigger] entry(
        after,
        bpe,
        other,
    ) == held by {
        lemma_field_in_range(data.len() as int, bpe, other);
        lemma_offsets(bpe, index, other);
        assert(entry(data, bpe, other) == held);
        if other / per_word(bpe) == index / per_word(bpe) {
            lemma_field_kept(
                data[index / per_word(bpe)],
                bpe,
                offset_of(bpe, index),
                value,
                offset_of(bpe, other),
            );
        }
    }
}

/// The mask of the low `bpe` bits.
fn mask_of(bpe: u32) -> (mask: u64)
    requires
        1 <= bpe <= 32,
    ensures
        mask == low_mask(bpe),
{
    proof {
        lemma_mask(bpe);
    }
    (1u64 << bpe) - 1
}

/// Reads entry `index` of a packed array.
fn read_entry(data: &Vec<u64>, bpe: u32, index: usize) -> (value: u64)
    requires
        1 <= bpe <= 32,
        index as int / per_word(bpe) < data@.len(),
    ensures
        value == entry(data@, bpe, index as int),
        value <= low_mask(bpe),
        value <= 0xFFFF_FFFF,
{
    proof {
        lemma_offsets(bpe, index as int, index as int);
        lemma_mask(bpe);
    }
    let entries_per_long = (64 / bpe) as usize;
    let long_idx = index / entries_per_long;
    let offset = bpe * ((index % entries_per_long) as u32);
    let mask = mask_of(bpe);
    proof {
        lemma_field_bound(data@[long_idx as int], bpe, offset);
    }
    (data[long_idx] >> offset) & mask
}

/// Writes the low `bpe` bits of `value` into entry `index` of a packed array
/// and returns what the entry held; all other entries keep what they hold.
fn write_entry(data: &mut Vec<u64>, bpe: u32, index: usize, value: u64) -> (old_value: u64)
    requires
        1 <= bpe <= 32,
        index as int / per_word(bpe) < old(data)@.len(),
    ensures
        final(data)@ == with_entry(old(data)@, bpe, index as int, value),
        final(data)@.len() == old(data)@.len(),
        old_value == entry(old(data)@, bpe, index as int),
        old_value <= low_mask(bpe),
        entry(final(data)@, bpe, index as int) == value & low_mask(bpe),
        value <= low_mask(bpe) ==> entry(final(data)@, bpe, index as int) == value,
        forall|other: int|
            0 <= other && other != index && other / per_word(bpe) < old(data)@.len()
                ==> #[trigger] entry(final(data)@, bpe, other) == entry(old(data)@, bpe, other),
        zero_padded(old(data)@, bpe) ==> zero_padded(final(data)@, bpe),
{
    proof {
        lemma_offsets(bpe, index as int, index as int);
        lemma_mask(bpe);
    }
    let entries_per_long = (64 / bpe) as usize;
    let long_idx = index / entries_per_long;
    let offset = bpe * ((index % entries_per_long) as u32);
    let low = mask_of(bpe);
    let mask = low << offset;
    let word = data[long_idx];
    let old_value = (word >> offset) & low;
    let new_word = (word & !mask) | ((value << offset) & mask);
    data.set(long_idx, new_word);
    proof {
        assert(data@ =~= with_entry(old(data)@, bpe, index as int, value));
        lemma_field_bound(word, bpe, offset);
        lemma_field_written(word, bpe, offset, value);
        if zero_padded(old(data)@, bpe) {
            assert forall|w: int| 0 <= w < data@.len() implies spare_bits(
                #[trigger] data@[w],
                bpe,
            ) == 0 by {
                assert(spare_bits(old(data)@[w], bpe) == 0);
                if w == long_idx && bpe * per_word(bpe) < 64 {
                    lemma_spare_kept(word, bpe, offset, value, (bpe * per_word(bpe)) as u32);
                }
            }
        }
        assert forall|other: int|
            0 <= other && other != index && other / per_word(bpe) < old(data)@.len()
                implies #[trigger] entry(data@, bpe, other) == entry(old(data)@, bpe, other) by {
            lemma_offsets(bpe, index as int, other);
            if other / per_word(bpe) == long_idx {
                lemma_field_kept(word, bpe, offset, value, offset_of(bpe, other));
            }
        }
    }
    old_value
}

/// `word` with the low `bpe` bits of `value` in the field at bit `offset`.
fn put_field(word: u64, bpe: u32, offset: u32, value: u64) -> (new_word: u64)
    requires
        1 <= bpe <= 32,
        offset + bpe <= 64,
    ensures
        new_word == with_field(word, bpe, offset, value),
{
    let mask = mask_of(bpe) << offset;
    (word & !mask) | ((value << offset) & mask)
}

/// The number of bits of `n` in base two.
fn code_width(n: usize) -> (bits: u32)
    requires
        n < 0x8000_0000,
    ensures
        bits == bits_for(n as nat),
        bits <= 31,
{
    proof {
        lemma_bits_for(n as nat);
    }
    let mut bits: u32 = 0;
    let mut rest: usize = n;
    while rest > 0
        invariant
            bits + bits_for(rest as nat) == bits_for(n as nat),
            bits_for(n as nat) <= 31,
        decreases rest,
    {
        rest = rest / 2;
        bits = bits + 1;
    }
    bits
}

/// The ids that a dictionary carries, in the order of their codes.
pub open spec fn ids_of(palette: Seq<VarInt>) -> Seq<i32> {
    Seq::new(palette.len(), |code: int| palette[code].0)
}

/// The ids of a volume, in one of three forms.
#[derive(Debug)]
pub enum Palette<CONFIG: PaletteConfig> {
    /// One id for every position.
    SingleValued { id: i32, _phantom: PhantomData<CONFIG> },
    /// A dictionary of the ids that occur, and for each position the code of
    /// its id in the dictionary, packed at `bpe` bits.
    Indirect { bpe: u32, palette2id: Vec<i32>, id2palette: HashMap<i32, usize>, data: Vec<u64> },
    /// For each position its id, packed at the direct width.
    Direct { bpe: u32, data: Vec<u64> },
}

impl<CONFIG: PaletteConfig> View for Palette<CONFIG> {
    type V = Seq<i32>;

    /// The id of every position, by the position's place.
    open spec fn view(&self) -> Seq<i32> {
        Seq::new(entries_count::<CONFIG>(), |index: int| self.at(index))
    }
}

impl<CONFIG: PaletteConfig> Palette<CONFIG> {
    /// The id at place `index`.
    pub open spec fn at(&self, index: int) -> i32 {
        match self {
            Palette::SingleValued { id, .. } => *id,
            Palette::Indirect { bpe, palette2id, data, .. } => palette2id@[entry(
                data@,
                *bpe,
                index,
            ) as int],
            Palette::Direct { bpe, data } => entry(data@, *bpe, index) as i32,
        }
    }

    /// Whether the two directions of the dictionary agree: every id of the
    /// dictionary has a code, and every code that an id has stands for the
    /// id. A palette without a dictionary has nothing to disagree on.
    pub open spec fn dictionary_agrees(&self) -> bool {
        match self {
            Palette::Indirect { palette2id, id2palette, .. } => {
                &&& forall|code: int|
                    0 <= code < palette2id@.len() ==> id2palette@.contains_key(
                        #[trigger] palette2id@[code],
                    )
                &&& forall|id: i32| #[trigger]
                    id2palette@.contains_key(id) ==> id2palette@[id] < palette2id@.len()
                        && palette2id@[id2palette@[id] as int] == id
            },
            _ => true,
        }
    }

    /// Whether the bits that hold no entry are zero in every word of the
    /// palette's packed array.
    pub open spec fn zero_padded(&self) -> bool {
        match self {
            Palette::SingleValued { .. } => true,
            Palette::Indirect { bpe, data, .. } => zero_padded(data@, *bpe),
            Palette::Direct { bpe, data } => zero_padded(data@, *bpe),
        }
    }

    /// The width of the entries of the palette's packed array; 0 where it
    /// has none.
    pub open spec fn width(&self) -> u32 {
        match self {
            Palette::SingleValued { .. } => 0,
            Palette::Indirect { bpe, .. } => *bpe,
            Palette::Direct { bpe, .. } => *bpe,
        }
    }

    /// Whether the palette holds just what `value` carried.
    pub open spec fn carries(&self, value: ProtocolPalette<CONFIG>) -> bool {
        match value {
            ProtocolPalette::SingleValued { id, .. } => self matches Palette::SingleValued {
                id: held,
                ..
            } && held == id.0,
            ProtocolPalette::Indirect { bpe, palette, data } => self matches Palette::Indirect {
                bpe: width,
                palette2id,
                data: words,
                ..
            } && width == bpe && words@ == data@ && palette2id@ == ids_of(palette@),
            ProtocolPalette::Direct { bpe, data } => self matches Palette::Direct {
                bpe: width,
                data: words,
            } && width == bpe && words@ == data@,
        }
    }

    /// Whether the parts of the palette hold together: the words are those
    /// of the width, every code stands in the dictionary, and the
    /// dictionary's two directions agree. Such a palette can be read, and
    /// written for as long as it keeps its form.
    pub open spec fn coherent(&self) -> bool {
        match self {
            Palette::SingleValued { .. } => true,
            Palette::Indirect { bpe, palette2id, id2palette, data } => {
                &&& 1 <= *bpe <= 31
                &&& palette2id@.len() <= low_mask(*bpe) + 1
                &&& data@.len() == words_for(entries_count::<CONFIG>() as int, *bpe)
                &&& forall|index: int|
                    0 <= index < entries_count::<CONFIG>() ==> (#[trigger] entry(
                        data@,
                        *bpe,
                        index,
                    )) < palette2id@.len()
                &&& self.dictionary_agrees()
            },
            Palette::Direct { bpe, data } => {
                &&& *bpe == CONFIG::DIRECT_BPE
                &&& data@.len() == words_for(entries_count::<CONFIG>() as int, *bpe)
            },
        }
    }

    /// Whether a write of `id` leaves the palette without a packed array of
    /// ids: a palette of the one id `id`, or an indirect palette whose
    /// dictionary holds `id` or has room for it. Such a write takes any id;
    /// every other write stores the id at the direct width.
    pub open spec fn keeps_ids_unpacked(&self, id: i32) -> bool {
        match self {
            Palette::SingleValued { id: held, .. } => id == *held,
            Palette::Indirect { palette2id, id2palette, .. } => {
                ||| id2palette@.contains_key(id)
                ||| id2palette@.len() < CONFIG::MAX_INDIRECT_ENTRIES && palette2id@.len()
                    < 0x8000_0000
            },
            Palette::Direct { .. } => false,
        }
    }

    /// Whether the parts of the palette agree: it holds together, and every
    /// id of it fits the direct width, so that it can become direct.
    pub open spec fn wf(&self) -> bool {
        match self {
            Palette::SingleValued { id, .. } => fits(*id, CONFIG::DIRECT_BPE),
            Palette::Indirect { bpe, palette2id, id2palette, data } => {
                &&& 1 <= *bpe <= 31
                &&& palette2id@.len() <= low_mask(*bpe) + 1
                &&& data@.len() == words_for(entries_count::<CONFIG>() as int, *bpe)
                &&& forall|index: int|
                    0 <= index < entries_count::<CONFIG>() ==> (#[trigger] entry(
                        data@,
                        *bpe,
                        index,
                    )) < palette2id@.len()
                &&& forall|code: int|
                    0 <= code < palette2id@.len() ==> fits(
                        #[trigger] palette2id@[code],
                        CONFIG::DIRECT_BPE,
                    )
                &&& self.dictionary_agrees()
            },
            Palette::Direct { bpe, data } => {
                &&& *bpe == CONFIG::DIRECT_BPE
                &&& data@.len() == words_for(entries_count::<CONFIG>() as int, *bpe)
            },
        }
    }

    /// The number of positions.
    pub(crate) fn count() -> (count: usize)
        ensures
            count == entries_count::<CONFIG>(),
            1 <= count <= 0x100_0000,
    {
        proof {
            CONFIG::measures_fit();
            let side = CONFIG::ENTRIES_PER_AXE as int;
            assert(1 <= side * side <= 0x1_0000 && 1 <= side * side * side <= 0x100_0000)
                by (nonlinear_arith)
                requires
                    1 <= side <= 256,
            ;
        }
        CONFIG::ENTRIES_PER_AXE * CONFIG::ENTRIES_PER_AXE * CONFIG::ENTRIES_PER_AXE
    }

    /// The number of words that the entries take at `bpe` bits.
    pub(crate) fn words(bpe: u32) -> (words: usize)
        requires
            1 <= bpe <= 32,
        ensures
            words == words_for(entries_count::<CONFIG>() as int, bpe),
    {
        proof {
            lemma_offsets(bpe, 0, 0);
        }
        let entries_per_long = (64 / bpe) as usize;
        (Self::count() + entries_per_long - 1) / entries_per_long
    }

    /// The place of `pos` among the entries.
    pub(crate) fn index_of(pos: LocalPos) -> (index: usize)
        requires
            in_bounds::<CONFIG>(pos),
        ensures
            index == flat_index::<CONFIG>(pos),
            index < entries_count::<CONFIG>(),
    {
        proof {
            CONFIG::measures_fit();
            let side = CONFIG::ENTRIES_PER_AXE as int;
            let (x, y, z) = (pos.x as int, pos.y as int, pos.z as int);
            assert(0 <= y * side <= 0xFF00 && 0 <= (y * side + z) * side <= 0xFF_FF00 && 0 <= (y
                * side + z) * side + x < side * side * side && side * side * side <= 0x100_0000)
                by (nonlinear_arith)
                requires
                    1 <= side <= 256,
                    0 <= x < side,
                    0 <= y < side,
                    0 <= z < side,
            ;
        }
        (pos.y as usize * CONFIG::ENTRIES_PER_AXE + pos.z as usize) * CONFIG::ENTRIES_PER_AXE
            + pos.x as usize
    }

    /// In a dictionary whose two directions agree, no more ids have a code
    /// than there are codes: a dictionary of fewer codes than the threshold
    /// has room for an id.
    pub proof fn lemma_dictionary_size(&self)
        requires
            self.dictionary_agrees(),
            self is Indirect,
        ensures
            self->id2palette@.len() <= self->palette2id@.len(),
    {
        broadcast use vstd::std_specs::hash::group_hash_axioms;

        let ids = self->id2palette@.dom();
        let listed = self->palette2id@.to_set();
        vstd::seq_lib::seq_to_set_is_finite(self->palette2id@);
        assert(ids.subset_of(listed)) by {
            assert forall|id: i32| ids.contains(id) implies listed.contains(id) by {
                assert(self->id2palette@.contains_key(id));
                assert(self->palette2id@[self->id2palette@[id] as int] == id);
            }
        }
        vstd::set_lib::lemma_len_subset(ids, listed);
        self->palette2id@.lemma_cardinality_of_set();
    }

    /// The palette of a volume in which every position holds id 0.
    pub fn empty() -> (palette: Self)
        ensures
            palette.wf(),
            palette is SingleValued,
            forall|index: int| 0 <= index < entries_count::<CONFIG>() ==> palette@[index] == 0,
    {
        proof {
            CONFIG::measures_fit();
            lemma_mask(CONFIG::DIRECT_BPE);
        }
        Palette::SingleValued { id: 0, _phantom: PhantomData }
    }

    /// The palette that holds what `value` carried. Nothing of it is
    /// checked: see [`Palette::is_valid`].
    pub fn from(value: ProtocolPalette<CONFIG>) -> (palette: Self)
        ensures
            palette.carries(value),
            palette.dictionary_agrees(),
    {
        broadcast use vstd::std_specs::hash::group_hash_axioms;

        match value {
            ProtocolPalette::SingleValued { id, .. } => Palette::SingleValued {
                id: id.0,
                _phantom: PhantomData,
            },
            ProtocolPalette::Indirect { bpe, palette, data } => {
                let mut palette2id: Vec<i32> = Vec::new();
                let mut id2palette: HashMap<i32, usize> = HashMap::new();
                let mut code: usize = 0;
                while code < palette.len()
                    invariant
                        code <= palette@.len(),
                        palette2id@ == ids_of(palette@.take(code as int)),
                        forall|k: int|
                            0 <= k < palette2id@.len() ==> id2palette@.contains_key(
                                #[trigger] palette2id@[k],
                            ),
                        forall|id: i32| #[trigger]
                            id2palette@.contains_key(id) ==> id2palette@[id] < palette2id@.len()
                                && palette2id@[id2palette@[id] as int] == id,
                    decreases palette@.len() - code,
                {
                    let id = palette[code].0;
                    let ghost before = palette2id@;
                    palette2id.push(id);
                    id2palette.insert(id, code);
                    proof {
                        assert(palette2id@ =~= ids_of(palette@.take(code + 1)));
                        assert forall|k: int|
                            0 <= k < palette2id@.len() implies id2palette@.contains_key(
                            #[trigger] palette2id@[k],
                        ) by {
                            if k < code {
                                assert(palette2id@[k] == before[k]);
                            }
                        }
                    }
                    code = code + 1;
                }
                assert(palette@.take(code as int) =~= palette@);
                Palette::Indirect { bpe, palette2id, id2palette, data }
            },
            ProtocolPalette::Direct { bpe, data } => Palette::Direct { bpe, data },
        }
    }

    /// Whether the parts of the palette agree, where the two directions of
    /// its dictionary do.
    pub fn is_valid(&self) -> (valid: bool)
        requires
            self.dictionary_agrees(),
        ensures
            valid == self.wf(),
    {
        proof {
            CONFIG::measures_fit();
            lemma_mask(CONFIG::DIRECT_BPE);
        }
        match self {
            Palette::SingleValued { id, .. } => *id >= 0 && *id as u64 <= mask_of(
                CONFIG::DIRECT_BPE,
            ),
            Palette::Direct { bpe, data } => *bpe == CONFIG::DIRECT_BPE && data.len()
                == Self::words(*bpe),
            Palette::Indirect { bpe, palette2id, data, .. } => {
                if *bpe < 1 || *bpe > 31 {
                    return false;
                }
                proof {
                    lemma_mask(*bpe);
                }
                if palette2id.len() as u64 > mask_of(*bpe) + 1 || data.len() != Self::words(
                    *bpe,
                ) {
                    return false;
                }
                Self::all_fit(palette2id) && Self::all_below(data, *bpe, palette2id.len())
            },
        }
    }

    /// Whether every id of a dictionary fits the direct width.
    fn all_fit(palette2id: &Vec<i32>) -> (all: bool)
        ensures
            all == forall|code: int|
                0 <= code < palette2id@.len() ==> fits(
                    #[trigger] palette2id@[code],
                    CONFIG::DIRECT_BPE,
                ),
    {
        proof {
            CONFIG::measures_fit();
        }
        let limit = mask_of(CONFIG::DIRECT_BPE);
        let mut code: usize = 0;
        while code < palette2id.len()
            invariant
                code <= palette2id@.len(),
                limit == low_mask(CONFIG::DIRECT_BPE),
                forall|k: int|
                    0 <= k < code ==> fits(#[trigger] palette2id@[k], CONFIG::DIRECT_BPE),
            decreases palette2id@.len() - code,
        {
            let id = palette2id[code];
            if id < 0 || id as u64 > limit {
                assert(!fits(palette2id@[code as int], CONFIG::DIRECT_BPE));
                return false;
            }
            code = code + 1;
        }
        true
    }

    /// Whether every entry of a packed array is below `limit`.
    fn all_below(data: &Vec<u64>, bpe: u32, limit: usize) -> (all: bool)
        requires
            1 <= bpe <= 31,
            data@.len() == words_for(entries_count::<CONFIG>() as int, bpe),
        ensures
            all == forall|index: int|
                0 <= index < entries_count::<CONFIG>() ==> (#[trigger] entry(data@, bpe, index))
                    < limit,
    {
        let count = Self::count();
        let mut index: usize = 0;
        while index < count
            invariant
                1 <= bpe <= 31,
                count == entries_count::<CONFIG>(),
                index <= count,
                data@.len() == words_for(entries_count::<CONFIG>() as int, bpe),
                forall|done: int| 0 <= done < index ==> (#[trigger] entry(
                    data@,
                    bpe,
                    done,
                )) < limit,
            decreases count - index,
        {
            proof {
                lemma_word_in_range(entries_count::<CONFIG>() as int, bpe, index as int);
            }
            if read_entry(data, bpe, index) >= limit as u64 {
                assert(!(entry(data@, bpe, index as int) < limit));
                return false;
            }
            index = index + 1;
        }
        true
    }

    /// The id at the place `index`.
    pub fn get_at(&self, index: usize) -> (id: i32)
        requires
            self.coherent(),
            index < entries_count::<CONFIG>(),
        ensures
            id == self@[index as int],
    {
        match self {
            Palette::SingleValued { id, .. } => *id,
            Palette::Indirect { palette2id, data, bpe, .. } => {
                proof {
                    lemma_word_in_range(entries_count::<CONFIG>() as int, *bpe, index as int);
                }
                let code = read_entry(data, *bpe, index) as usize;
                palette2id[code]
            },
            Palette::Direct { data, bpe } => {
                proof {
                    CONFIG::measures_fit();
                    lemma_mask(*bpe);
                    lemma_word_in_range(entries_count::<CONFIG>() as int, *bpe, index as int);
                }
                read_entry(data, *bpe, index) as i32
            },
        }
    }

    /// The id at `pos`.
    pub fn get(&self, pos: LocalPos) -> (id: i32)
        requires
            self.coherent(),
            in_bounds::<CONFIG>(pos),
        ensures
            id == self@[flat_index::<CONFIG>(pos)],
    {
        let index = Self::index_of(pos);
        match self {
            Palette::SingleValued { id, .. } => *id,
            Palette::Indirect { palette2id, data, bpe, .. } => {
                let idx = Self::get_from_data(data, *bpe, pos);
                palette2id[idx]
            },
            Palette::Direct { data, bpe } => {
                proof {
                    CONFIG::measures_fit();
                    lemma_mask(*bpe);
                }
                Self::get_from_data(data, *bpe, pos) as i32
            },
        }
    }

    /// The entry of `pos` in a packed array.
    fn get_from_data(data: &Vec<u64>, bpe: u32, pos: LocalPos) -> (value: usize)
        requires
            1 <= bpe <= 31,
            in_bounds::<CONFIG>(pos),
            data@.len() == words_for(entries_count::<CONFIG>() as int, bpe),
        ensures
            value == entry(data@, bpe, flat_index::<CONFIG>(pos)),
            value <= low_mask(bpe),
            value <= 0x7FFF_FFFF,
    {
        let index = Self::index_of(pos);
        proof {
            lemma_word_in_range(entries_count::<CONFIG>() as int, bpe, index as int);
            lemma_mask(bpe);
        }
        read_entry(data, bpe, index) as usize
    }

    /// Writes `value` into the entry of `pos` in a packed array.
    /// Return the old value
    fn set_from_data(data: &mut Vec<u64>, bpe: u32, pos: LocalPos, value: i32) -> (old_value:
        i32)
        requires
            1 <= bpe <= 31,
            in_bounds::<CONFIG>(pos),
            old(data)@.len() == words_for(entries_count::<CONFIG>() as int, bpe),
            fits(value, bpe),
        ensures
            final(data)@ == with_entry(
                old(data)@,
                bpe,
                flat_index::<CONFIG>(pos) as int,
                value as u64,
            ),
            final(data)@.len() == old(data)@.len(),
            old_value == entry(old(data)@, bpe, flat_index::<CONFIG>(pos)),
            0 <= old_value,
            zero_padded(old(data)@, bpe) ==> zero_padded(final(data)@, bpe),
            forall|index: int|
                0 <= index < entries_count::<CONFIG>() ==> #[trigger] entry(
                    final(data)@,
                    bpe,
                    index,
                ) == if index == flat_index::<CONFIG>(pos) {
                    value as u64
                } else {
                    entry(old(data)@, bpe, index)
                },
    {
        let index = Self::index_of(pos);
        proof {
            lemma_word_in_range(entries_count::<CONFIG>() as int, bpe, index as int);
            lemma_mask(bpe);
        }
        let old_value = write_entry(data, bpe, index, value as u64);
        proof {
            assert forall|other: int|
                0 <= other < entries_count::<CONFIG>() implies #[trigger] entry(
                data@,
                bpe,
                other,
            ) == if other == index {
                value as u64
            } else {
                entry(old(data)@, bpe, other)
            } by {
                lemma_word_in_range(entries_count::<CONFIG>() as int, bpe, other);
            }
        }
        old_value as i32
    }

    /// Writes `id` at `pos` and returns the id that stood there. All other
    /// positions keep their ids.
    ///
    /// A write that leaves the palette with its one id or with a dictionary
    /// takes any id. A write into a packed array of ids, or one that makes
    /// the palette direct, stores ids at the direct width: it is for a
    /// palette all of whose ids fit that width, and an id that fits it.
    ///
    /// A palette of one id stays as it is where `id` is that id, and else
    /// becomes direct at once. An indirect palette whose dictionary holds
    /// `id` keeps its width. One whose dictionary does not hold it takes it
    /// in, as long as the dictionary is below the threshold, at the width
    /// that the codes then take, anew packed where the width changed; at the
    /// threshold it becomes direct. A direct palette stays direct. An array
    /// that is packed anew has zeros in the bits that hold no entry, but in
    /// the array of a palette that held one id every field holds that id,
    /// also those behind the last entry. A write into an array that is kept
    /// changes the one field of the position and nothing else.
    pub fn set(&mut self, pos: LocalPos, id: i32) -> (old_id: i32)
        requires
            old(self).coherent(),
            in_bounds::<CONFIG>(pos),
            old(self).keeps_ids_unpacked(id) || (old(self).wf() && fits(id, CONFIG::DIRECT_BPE)),
        ensures
            final(self).coherent(),
            old(self).wf() && fits(id, CONFIG::DIRECT_BPE) ==> final(self).wf(),
            old_id == old(self)@[flat_index::<CONFIG>(pos)],
            final(self)@ == old(self)@.update(flat_index::<CONFIG>(pos), id),
            old(self).zero_padded() || final(self).width() != old(self).width() || (*old(self)
                is Indirect && *final(self) is Direct) ==> final(self).zero_padded(),
            ({
                let after = *final(self);
                let place = flat_index::<CONFIG>(pos) as int;
                let count = entries_count::<CONFIG>() as int;
                match *old(self) {
                    Palette::SingleValued { id: held, .. } => if id == held {
                        after is SingleValued
                    } else {
                        after is Direct && rest_holds(
                            after->Direct_data@,
                            CONFIG::DIRECT_BPE,
                            count,
                            held as u64,
                        )
                    },
                    Palette::Indirect {
                        bpe,
                        palette2id,
                        id2palette,
                        data,
                    } => if id2palette@.contains_key(
                        id,
                    ) {
                        &&& after is Indirect
                        &&& after->Indirect_bpe == bpe
                        &&& after->palette2id@ == palette2id@
                        &&& after->id2palette@ == id2palette@
                        &&& after->Indirect_data@ == with_entry(
                            data@,
                            bpe,
                            place,
                            id2palette@[id] as u64,
                        )
                    } else if id2palette@.len() < CONFIG::MAX_INDIRECT_ENTRIES
                        && palette2id@.len() < 0x8000_0000 {
                        &&& after is Indirect
                        &&& after->Indirect_bpe == bits_for(palette2id@.len())
                        &&& after->palette2id@ == palette2id@.push(id)
                        &&& after->id2palette@ == id2palette@.insert(
                            id,
                            palette2id@.len() as usize,
                        )
                        &&& forall|index: int|
                            0 <= index < count ==> #[trigger] entry(
                                after->Indirect_data@,
                                after->Indirect_bpe,
                                index,
                            ) == if index == place {
                                palette2id@.len() as u64
                            } else {
                                entry(data@, bpe, index)
                            }
                        &&& after->Indirect_bpe == bpe ==> after->Indirect_data@ == with_entry(
                            data@,
                            bpe,
                            place,
                            palette2id@.len() as u64,
                        )
                        &&& after->Indirect_bpe != bpe ==> rest_holds(
                            after->Indirect_data@,
                            after->Indirect_bpe,
                            count,
                            0,
                        )
                    } else {
                        after is Direct && rest_holds(
                            after->Direct_data@,
                            CONFIG::DIRECT_BPE,
                            count,
                            0,
                        )
                    },
                    Palette::Direct { bpe, data } => after is Direct && after->Direct_data@
                        == with_entry(data@, bpe, place, id as u64),
                }
            }),
    {
        broadcast use vstd::std_specs::hash::group_hash_axioms;

        proof {
            CONFIG::measures_fit();
            lemma_mask(CONFIG::DIRECT_BPE);
        }
        let ghost before = *old(self);
        let ghost place = flat_index::<CONFIG>(pos);
        let index = Self::index_of(pos);
        let mut owned = Palette::SingleValued { id: 0, _phantom: PhantomData };
        core::mem::swap(self, &mut owned);
        let (palette, old_id) = match owned {
            Palette::Direct { bpe, mut data } => {
                let old_id = Self::set_from_data(&mut data, bpe, pos, id);
                (Palette::Direct { bpe, data }, old_id)
            },
            Palette::SingleValued { id: held, _phantom } => {
                if held == id {
                    (Palette::SingleValued { id: held, _phantom }, held)
                } else {
                    let (bpe, mut data) = Self::single_to_direct(held);
                    let ghost uniform = data@;
                    let old_id = Self::set_from_data(&mut data, bpe, pos, id);
                    proof {
                        lemma_word_in_range(entries_count::<CONFIG>() as int, bpe, place as int);
                        lemma_rest_kept(
                            uniform,
                            bpe,
                            place as int,
                            id as u64,
                            entries_count::<CONFIG>() as int,
                            held as u64,
                        );
                    }
                    (Palette::Direct { bpe, data }, old_id)
                }
            },
            Palette::Indirect { bpe, mut palette2id, mut id2palette, mut data } => {
                if id2palette.contains_key(&id) {
                    let old_id = Self::set_indirect(
                        bpe,
                        &id2palette,
                        &palette2id,
                        &mut data,
                        pos,
                        id,
                    );
                    (Palette::Indirect { bpe, palette2id, id2palette, data }, old_id)
                } else if id2palette.len() < CONFIG::MAX_INDIRECT_ENTRIES && palette2id.len()
                    < 0x8000_0000 {
                    let palette_id = palette2id.len();
                    proof {
                        lemma_bits_for(palette_id as nat);
                        lemma_mask(bpe);
                        assert(entry(data@, bpe, 0) < palette2id@.len());
                    }
                    palette2id.push(id);
                    id2palette.insert(id, palette_id);
                    let new_bpe = code_width(palette_id);
                    let mut bpe = bpe;
                    if new_bpe != bpe {
                        Self::indirect_rebuild_new_bpe(bpe, new_bpe, &mut data);
                        bpe = new_bpe;
                    }
                    let ghost packed = data@;
                    let old_id = Self::set_indirect(
                        bpe,
                        &id2palette,
                        &palette2id,
                        &mut data,
                        pos,
                        id,
                    );
                    proof {
                        if before->Indirect_bpe != bpe {
                            lemma_word_in_range(
                                entries_count::<CONFIG>() as int,
                                bpe,
                                place as int,
                            );
                            lemma_rest_kept(
                                packed,
                                bpe,
                                place as int,
                                palette_id as u64,
                                entries_count::<CONFIG>() as int,
                                0,
                            );
                        }
                    }
                    (Palette::Indirect { bpe, palette2id, id2palette, data }, old_id)
                } else {
                    let mut data = Self::indirect_to_direct(bpe, &palette2id, &data);
                    let ghost packed = data@;
                    let old_id = Self::set_from_data(&mut data, CONFIG::DIRECT_BPE, pos, id);
                    proof {
                        lemma_word_in_range(
                            entries_count::<CONFIG>() as int,
                            CONFIG::DIRECT_BPE,
                            place as int,
                        );
                        lemma_rest_kept(
                            packed,
                            CONFIG::DIRECT_BPE,
                            place as int,
                            id as u64,
                            entries_count::<CONFIG>() as int,
                            0,
                        );
                    }
                    (Palette::Direct { bpe: CONFIG::DIRECT_BPE, data }, old_id)
                }
            },
        };
        *self = palette;
        assert(self@ =~= before@.update(place, id));
        old_id
    }

    /// Writes the code of `id` into the entry of `pos` and returns the id
    /// for which the entry's code stood.
    fn set_indirect(
        bpe: u32,
        id2palette: &HashMap<i32, usize>,
        palette2id: &Vec<i32>,
        data: &mut Vec<u64>,
        pos: LocalPos,
        id: i32,
    ) -> (old_id: i32)
        requires
            1 <= bpe <= 31,
            in_bounds::<CONFIG>(pos),
            old(data)@.len() == words_for(entries_count::<CONFIG>() as int, bpe),
            id2palette@.contains_key(id),
            id2palette@[id] <= low_mask(bpe),
            entry(old(data)@, bpe, flat_index::<CONFIG>(pos)) < palette2id@.len(),
        ensures
            final(data)@ == with_entry(
                old(data)@,
                bpe,
                flat_index::<CONFIG>(pos) as int,
                id2palette@[id] as u64,
            ),
            final(data)@.len() == old(data)@.len(),
            zero_padded(old(data)@, bpe) ==> zero_padded(final(data)@, bpe),
            old_id == palette2id@[entry(old(data)@, bpe, flat_index::<CONFIG>(pos)) as int],
            forall|index: int|
                0 <= index < entries_count::<CONFIG>() ==> #[trigger] entry(
                    final(data)@,
                    bpe,
                    index,
                ) == if index == flat_index::<CONFIG>(pos) {
                    id2palette@[id] as u64
                } else {
                    entry(old(data)@, bpe, index)
                },
    {
        broadcast use vstd::std_specs::hash::group_hash_axioms;

        proof {
            lemma_mask(bpe);
        }
        let code = match id2palette.get(&id) {
            Some(code) => *code,
            None => 0,
        };
        let old_palette_id = Self::set_from_data(data, bpe, pos, code as i32);
        palette2id[old_palette_id as usize]
    }

    /// The packed array, at the direct width, of a volume in which every
    /// position holds `id`.
    fn single_to_direct(id: i32) -> (result: (u32, Vec<u64>))
        requires
            fits(id, CONFIG::DIRECT_BPE),
        ensures
            result.0 == CONFIG::DIRECT_BPE,
            result.1@.len() == words_for(entries_count::<CONFIG>() as int, result.0),
            zero_padded(result.1@, result.0),
            rest_holds(result.1@, result.0, 0, id as u64),
            forall|index: int|
                0 <= index < entries_count::<CONFIG>() ==> #[trigger] entry(
                    result.1@,
                    result.0,
                    index,
                ) == id as u64,
    {
        proof {
            CONFIG::measures_fit();
        }
        let bpe = CONFIG::DIRECT_BPE;
        let entries_per_long = 64 / bpe;
        let data_length = Self::words(bpe);
        let mut long: u64 = 0;
        let mut slot: u32 = 0;
        proof {
            lemma_offsets(bpe, 0, 0);
            if bpe * per_word(bpe) < 64 {
                lemma_spare_kept(0, bpe, 0, 0, (bpe * per_word(bpe)) as u32);
            }
        }
        while slot < entries_per_long
            invariant
                1 <= bpe <= 31,
                entries_per_long == per_word(bpe),
                slot <= entries_per_long,
                fits(id, bpe),
                spare_bits(long, bpe) == 0,
                forall|k: int|
                    0 <= k < slot ==> field(long, bpe, #[trigger] offset_of(bpe, k)) == id as u64,
            decreases entries_per_long - slot,
        {
            proof {
                lemma_offsets(bpe, slot as int, slot as int);
                vstd::arithmetic::div_mod::lemma_small_mod(slot as nat, per_word(bpe) as nat);
            }
            let ghost before = long;
            let offset = bpe * slot;
            long = put_field(long, bpe, offset, id as u64);
            proof {
                lemma_field_written(before, bpe, offset, id as u64);
                if bpe * per_word(bpe) < 64 {
                    lemma_spare_kept(before, bpe, offset, id as u64, (bpe * per_word(bpe)) as u32);
                }
                assert forall|k: int| 0 <= k < slot + 1 implies field(
                    long,
                    bpe,
                    #[trigger] offset_of(bpe, k),
                ) == id as u64 by {
                    if k < slot {
                        vstd::arithmetic::div_mod::lemma_basic_div(slot as int, per_word(bpe));
                        vstd::arithmetic::div_mod::lemma_basic_div(k, per_word(bpe));
                        lemma_offsets(bpe, slot as int, k);
                        lemma_field_kept(before, bpe, offset, id as u64, offset_of(bpe, k));
                    }
                }
            }
            slot = slot + 1;
        }
        let data = vec![long; data_length];
        proof {
            assert forall|index: int|
                0 <= index && index / per_word(bpe) < data@.len() implies #[trigger] entry(
                data@,
                bpe,
                index,
            ) == id as u64 by {
                lemma_offsets(bpe, index, index);
                let k = index % per_word(bpe);
                assert(offset_of(bpe, k) == offset_of(bpe, index)) by {
                    lemma_offsets(bpe, k, k);
                    vstd::arithmetic::div_mod::lemma_small_mod(k as nat, per_word(bpe) as nat);
                }
            }
            assert forall|index: int|
                0 <= index < entries_count::<CONFIG>() implies #[trigger] entry(
                data@,
                bpe,
                index,
            ) == id as u64 by {
                lemma_word_in_range(entries_count::<CONFIG>() as int, bpe, index);
            }
            assert forall|index: int|
                0 <= index < data@.len() * per_word(bpe) implies #[trigger] entry(
                data@,
                bpe,
                index,
            ) == id as u64 by {
                lemma_field_in_range(data@.len() as int, bpe, index);
            }
        }
        (bpe, data)
    }

    /// Packs anew, at the direct width, the ids for which the codes of a
    /// packed array stand.
    fn indirect_to_direct(bpe: u32, palette2id: &Vec<i32>, data: &Vec<u64>) -> (new_data: Vec<
        u64,
    >)
        requires
            1 <= bpe <= 31,
            data@.len() == words_for(entries_count::<CONFIG>() as int, bpe),
            forall|index: int|
                0 <= index < entries_count::<CONFIG>() ==> (#[trigger] entry(data@, bpe, index))
                    < palette2id@.len(),
            forall|code: int|
                0 <= code < palette2id@.len() ==> fits(
                    #[trigger] palette2id@[code],
                    CONFIG::DIRECT_BPE,
                ),
        ensures
            new_data@.len() == words_for(entries_count::<CONFIG>() as int, CONFIG::DIRECT_BPE),
            zero_padded(new_data@, CONFIG::DIRECT_BPE),
            rest_holds(new_data@, CONFIG::DIRECT_BPE, entries_count::<CONFIG>() as int, 0),
            forall|index: int|
                0 <= index < entries_count::<CONFIG>() ==> #[trigger] entry(
                    new_data@,
                    CONFIG::DIRECT_BPE,
                    index,
                ) == palette2id@[entry(data@, bpe, index) as int] as u64,
    {
        proof {
            CONFIG::measures_fit();
            lemma_mask(bpe);
        }
        let lookup = |palette_id: i32| -> (id: i32)
            requires
                0 <= palette_id < palette2id@.len(),
            ensures
                id == palette2id@[palette_id as int],
            { palette2id[palette_id as usize] };
        assert forall|index: int| 0 <= index < entries_count::<CONFIG>() implies call_requires(
            lookup,
            (#[trigger] entry(data@, bpe, index) as i32,),
        ) by {
            lemma_word_in_range(entries_count::<CONFIG>() as int, bpe, index);
            lemma_offsets(bpe, index, index);
            lemma_field_bound(data@[index / per_word(bpe)], bpe, offset_of(bpe, index));
        }
        assert forall|index: int, id: i32|
            0 <= index < entries_count::<CONFIG>() && #[trigger] call_ensures(
                lookup,
                (entry(data@, bpe, index) as i32,),
                id,
            ) implies fits(id, CONFIG::DIRECT_BPE) by {
            lemma_word_in_range(entries_count::<CONFIG>() as int, bpe, index);
            lemma_offsets(bpe, index, index);
            lemma_field_bound(data@[index / per_word(bpe)], bpe, offset_of(bpe, index));
            assert(entry(data@, bpe, index) < palette2id@.len());
        }
        let new_data = Self::indirect_rebuild_new_bpe_map(
            bpe,
            CONFIG::DIRECT_BPE,
            data,
            lookup,
        );
        proof {
            assert forall|index: int|
                0 <= index < entries_count::<CONFIG>() implies #[trigger] entry(
                new_data@,
                CONFIG::DIRECT_BPE,
                index,
            ) == palette2id@[entry(data@, bpe, index) as int] as u64 by {
                lemma_word_in_range(entries_count::<CONFIG>() as int, bpe, index);
                lemma_offsets(bpe, index, index);
                lemma_field_bound(data@[index / per_word(bpe)], bpe, offset_of(bpe, index));
                assert(entry(data@, bpe, index) < palette2id@.len());
                lemma_word_in_range(
                    entries_count::<CONFIG>() as int,
                    CONFIG::DIRECT_BPE,
                    index,
                );
                lemma_offsets(CONFIG::DIRECT_BPE, index, index);
                lemma_mask(CONFIG::DIRECT_BPE);
                lemma_field_bound(
                    new_data@[index / per_word(CONFIG::DIRECT_BPE)],
                    CONFIG::DIRECT_BPE,
                    offset_of(CONFIG::DIRECT_BPE, index),
                );
            }
        }
        new_data
    }

    /// Packs the codes of a packed array anew at another width.
    fn indirect_rebuild_new_bpe(old_bpe: u32, new_bpe: u32, data: &mut Vec<u64>)
        requires
            1 <= old_bpe <= 31,
            1 <= new_bpe <= 31,
            old(data)@.len() == words_for(entries_count::<CONFIG>() as int, old_bpe),
            forall|index: int|
                0 <= index < entries_count::<CONFIG>() ==> (#[trigger] entry(
                    old(data)@,
                    old_bpe,
                    index,
                )) <= low_mask(new_bpe),
        ensures
            final(data)@.len() == words_for(entries_count::<CONFIG>() as int, new_bpe),
            zero_padded(final(data)@, new_bpe),
            rest_holds(final(data)@, new_bpe, entries_count::<CONFIG>() as int, 0),
            forall|index: int|
                0 <= index < entries_count::<CONFIG>() ==> #[trigger] entry(
                    final(data)@,
                    new_bpe,
                    index,
                ) == entry(old(data)@, old_bpe, index),
    {
        proof {
            lemma_mask(old_bpe);
            lemma_mask(new_bpe);
        }
        let same = |a: i32| -> (b: i32)
            ensures
                b == a,
            { a };
        assert forall|index: int, id: i32|
            0 <= index < entries_count::<CONFIG>() && #[trigger] call_ensures(
                same,
                (entry(data@, old_bpe, index) as i32,),
                id,
            ) implies fits(id, new_bpe) by {
            lemma_word_in_range(entries_count::<CONFIG>() as int, old_bpe, index);
            lemma_offsets(old_bpe, index, index);
            lemma_field_bound(data@[index / per_word(old_bpe)], old_bpe, offset_of(old_bpe, index));
            assert(entry(data@, old_bpe, index) <= low_mask(new_bpe));
        }
        let new_data = Self::indirect_rebuild_new_bpe_map(old_bpe, new_bpe, data, same);
        proof {
            assert forall|index: int|
                0 <= index < entries_count::<CONFIG>() implies #[trigger] entry(
                new_data@,
                new_bpe,
                index,
            ) == entry(data@, old_bpe, index) by {
                lemma_word_in_range(entries_count::<CONFIG>() as int, old_bpe, index);
                lemma_word_in_range(entries_count::<CONFIG>() as int, new_bpe, index);
                lemma_offsets(old_bpe, index, index);
                lemma_offsets(new_bpe, index, index);
                lemma_field_bound(
                    data@[index / per_word(old_bpe)],
                    old_bpe,
                    offset_of(old_bpe, index),
                );
                lemma_field_bound(
                    new_data@[index / per_word(new_bpe)],
                    new_bpe,
                    offset_of(new_bpe, index),
                );
            }
        }
        *data = new_data;
    }

    /// Walks every entry once: reads it at the old width, makes it into what
    /// `map` gives for it, and writes that at the new width into a fresh
    /// array.
    fn indirect_rebuild_new_bpe_map<F: Fn(i32) -> i32>(
        old_bpe: u32,
        new_bpe: u32,
        data: &Vec<u64>,
        map: F,
    ) -> (new_data: Vec<u64>)
        requires
            1 <= old_bpe <= 31,
            1 <= new_bpe <= 31,
            data@.len() == words_for(entries_count::<CONFIG>() as int, old_bpe),
            forall|index: int|
                0 <= index < entries_count::<CONFIG>() ==> call_requires(
                    map,
                    (#[trigger] entry(data@, old_bpe, index) as i32,),
                ),
            forall|index: int, id: i32|
                0 <= index < entries_count::<CONFIG>() && #[trigger] call_ensures(
                    map,
                    (entry(data@, old_bpe, index) as i32,),
                    id,
                ) ==> fits(id, new_bpe),
        ensures
            new_data@.len() == words_for(entries_count::<CONFIG>() as int, new_bpe),
            zero_padded(new_data@, new_bpe),
            forall|index: int|
                0 <= index < entries_count::<CONFIG>() ==> call_ensures(
                    map,
                    (entry(data@, old_bpe, index) as i32,),
                    #[trigger] entry(new_data@, new_bpe, index) as i32,
                ),
            forall|index: int|
                entries_count::<CONFIG>() <= index < new_data@.len() * per_word(new_bpe)
                    ==> #[trigger] entry(new_data@, new_bpe, index) == 0,
    {
        let count = Self::count();
        let new_data_length = Self::words(new_bpe);
        let mut new_data: Vec<u64> = vec![0; new_data_length];
        let mut index: usize = 0;
        proof {
            lemma_offsets(new_bpe, 0, 0);
            if new_bpe * per_word(new_bpe) < 64 {
                lemma_spare_kept(0, new_bpe, 0, 0, (new_bpe * per_word(new_bpe)) as u32);
            }
            assert forall|k: int|
                0 <= k < new_data@.len() * per_word(new_bpe) implies #[trigger] entry(
                new_data@,
                new_bpe,
                k,
            ) == 0 by {
                lemma_field_in_range(new_data@.len() as int, new_bpe, k);
                lemma_offsets(new_bpe, k, k);
                lemma_field_bound(0, new_bpe, offset_of(new_bpe, k));
            }
        }
        while index < count
            invariant
                1 <= old_bpe <= 31,
                1 <= new_bpe <= 31,
                zero_padded(new_data@, new_bpe),
                rest_holds(new_data@, new_bpe, index as int, 0),
                count == entries_count::<CONFIG>(),
                index <= count,
                data@.len() == words_for(entries_count::<CONFIG>() as int, old_bpe),
                new_data@.len() == words_for(entries_count::<CONFIG>() as int, new_bpe),
                forall|index: int|
                    0 <= index < entries_count::<CONFIG>() ==> call_requires(
                        map,
                        (#[trigger] entry(data@, old_bpe, index) as i32,),
                    ),
                forall|index: int, id: i32|
                    0 <= index < entries_count::<CONFIG>() && #[trigger] call_ensures(
                        map,
                        (entry(data@, old_bpe, index) as i32,),
                        id,
                    ) ==> fits(id, new_bpe),
                forall|done: int|
                    0 <= done < index ==> call_ensures(
                        map,
                        (entry(data@, old_bpe, done) as i32,),
                        #[trigger] entry(new_data@, new_bpe, done) as i32,
                    ),
            decreases count - index,
        {
            proof {
                lemma_word_in_range(entries_count::<CONFIG>() as int, old_bpe, index as int);
                lemma_word_in_range(entries_count::<CONFIG>() as int, new_bpe, index as int);
                lemma_mask(old_bpe);
                lemma_mask(new_bpe);
            }
            let val = read_entry(data, old_bpe, index);
            let val = map(val as i32);
            let ghost before = new_data@;
            write_entry(&mut new_data, new_bpe, index, val as u64);
            proof {
                lemma_rest_kept(before, new_bpe, index as int, val as u64, index + 1, 0);
                assert forall|done: int| 0 <= done < index + 1 implies call_ensures(
                    map,
                    (entry(data@, old_bpe, done) as i32,),
                    #[trigger] entry(new_data@, new_bpe, done) as i32,
                ) by {
                    lemma_word_in_range(entries_count::<CONFIG>() as int, new_bpe, done);
                    if done < index {
                        assert(entry(new_data@, new_bpe, done) == entry(before, new_bpe, done));
                    }
                }
            }
            index = index + 1;
        }
        new_data
    }
}

} // verus!
