use mcwire::chunk::ProtocolPalette;
use mcwire::palette::{Biomes, Blocks, Palette, PaletteConfig};
use mcwire::types::{LocalPos, Vec3};
use mcwire::varint::VarInt;
use std::marker::PhantomData;

fn pos(x: u8, y: u8, z: u8) -> LocalPos {
    Vec3 { x, y, z }
}

fn flat<C: PaletteConfig>(p: LocalPos) -> usize {
    (p.y as usize * C::ENTRIES_PER_AXE + p.z as usize) * C::ENTRIES_PER_AXE + p.x as usize
}

fn positions<C: PaletteConfig>() -> Vec<LocalPos> {
    let side = C::ENTRIES_PER_AXE as u8;
    let mut all = Vec::new();
    for y in 0..side {
        for z in 0..side {
            for x in 0..side {
                all.push(pos(x, y, z));
            }
        }
    }
    all
}

fn check_all<C: PaletteConfig>(palette: &Palette<C>, expected: &[i32]) {
    for p in positions::<C>() {
        assert_eq!(palette.get(p), expected[flat::<C>(p)]);
        assert_eq!(palette.get_at(flat::<C>(p)), expected[flat::<C>(p)]);
    }
}

/// An indirect palette of biomes at one bit: two ids, the second at every
/// third position.
fn two_biomes() -> (Palette<Biomes>, Vec<i32>) {
    let mut word: u64 = 0;
    let mut expected = vec![3; 64];
    for i in (0..64).step_by(3) {
        word |= 1 << i;
        expected[i] = 9;
    }
    let palette = Palette::from(ProtocolPalette::Indirect {
        bpe: 1,
        palette: vec![VarInt(3), VarInt(9)],
        data: vec![word],
    });
    assert!(palette.is_valid());
    (palette, expected)
}

#[test]
fn the_measures_of_the_volumes() {
    assert_eq!(Blocks::ENTRIES_PER_AXE, 16);
    assert_eq!(Blocks::DIRECT_BPE, 15);
    assert_eq!(Blocks::MAX_INDIRECT_ENTRIES, 256);
    assert_eq!(Biomes::ENTRIES_PER_AXE, 4);
    assert_eq!(Biomes::DIRECT_BPE, 6);
    assert_eq!(Biomes::MAX_INDIRECT_ENTRIES, 8);
}

#[test]
fn an_empty_palette_holds_zero_everywhere() {
    let palette = Palette::<Blocks>::empty();
    assert!(matches!(palette, Palette::SingleValued { id: 0, .. }));
    check_all(&palette, &vec![0; 4096]);
    let palette = Palette::<Biomes>::empty();
    check_all(&palette, &vec![0; 64]);
}

#[test]
fn the_first_write_makes_the_palette_direct() {
    for target in [pos(0, 0, 0), pos(1, 2, 3), pos(15, 15, 15), pos(3, 0, 15), pos(0, 7, 0)] {
        let mut palette = Palette::<Blocks>::empty();
        let old = palette.set(target, 1234);
        assert_eq!(old, 0);
        assert!(matches!(palette, Palette::Direct { bpe: 15, .. }));
        let mut expected = vec![0; 4096];
        expected[flat::<Blocks>(target)] = 1234;
        check_all(&palette, &expected);
    }
}

#[test]
fn the_first_write_at_every_position() {
    for target in positions::<Biomes>() {
        let mut palette = Palette::<Biomes>::empty();
        assert_eq!(palette.set(target, 63), 0);
        assert!(matches!(palette, Palette::Direct { bpe: 6, .. }));
        let mut expected = vec![0; 64];
        expected[flat::<Biomes>(target)] = 63;
        check_all(&palette, &expected);
    }
}

#[test]
fn writing_the_one_id_again_changes_nothing() {
    let mut palette = Palette::<Blocks>::empty();
    assert_eq!(palette.set(pos(4, 5, 6), 0), 0);
    assert!(matches!(palette, Palette::SingleValued { id: 0, .. }));
}

#[test]
fn direct_words_hold_four_ids_and_zero_padding() {
    let mut palette = Palette::<Blocks>::empty();
    palette.set(pos(0, 0, 0), 0x7fff);
    palette.set(pos(1, 0, 0), 1);
    palette.set(pos(3, 0, 0), 2);
    palette.set(pos(4, 0, 0), 3);
    match &palette {
        Palette::Direct { bpe, data } => {
            assert_eq!(*bpe, 15);
            assert_eq!(data.len(), 1024);
            assert_eq!(data[0], 0x7fff | (1 << 15) | (2 << 45));
            assert_eq!(data[1], 3);
            assert_eq!(data[2], 0);
        },
        other => panic!("unexpected: {:?}", other),
    }
}

#[test]
fn a_write_returns_what_stood_there() {
    let mut palette = Palette::<Blocks>::empty();
    assert_eq!(palette.set(pos(1, 1, 1), 7), 0);
    assert_eq!(palette.set(pos(1, 1, 1), 8), 7);
    assert_eq!(palette.set(pos(1, 1, 1), 0), 8);
    assert_eq!(palette.get(pos(1, 1, 1)), 0);
    assert!(matches!(palette, Palette::Direct { .. }));
}

#[test]
fn a_received_palette_is_carried_over() {
    let (palette, expected) = two_biomes();
    match &palette {
        Palette::Indirect { bpe, palette2id, id2palette, data } => {
            assert_eq!(*bpe, 1);
            assert_eq!(palette2id, &vec![3, 9]);
            assert_eq!(id2palette.len(), 2);
            assert_eq!(id2palette[&3], 0);
            assert_eq!(id2palette[&9], 1);
            assert_eq!(data.len(), 1);
        },
        other => panic!("unexpected: {:?}", other),
    }
    check_all(&palette, &expected);
    let single = Palette::<Biomes>::from(ProtocolPalette::SingleValued {
        id: VarInt(5),
        _phantom: PhantomData,
    });
    assert!(single.is_valid());
    check_all(&single, &vec![5; 64]);
    let direct = Palette::<Biomes>::from(ProtocolPalette::Direct { bpe: 6, data: vec![7; 7] });
    assert!(direct.is_valid());
    assert_eq!(direct.get(pos(0, 0, 0)), 7);
    assert_eq!(direct.get(pos(1, 0, 0)), 0);
}

#[test]
fn received_palettes_that_do_not_hold_together() {
    let too_few_words =
        Palette::<Biomes>::from(ProtocolPalette::Direct { bpe: 6, data: vec![0; 6] });
    assert!(!too_few_words.is_valid());
    let wrong_width = Palette::<Biomes>::from(ProtocolPalette::Direct { bpe: 5, data: vec![0; 6] });
    assert!(!wrong_width.is_valid());
    let code_without_id = Palette::<Biomes>::from(ProtocolPalette::Indirect {
        bpe: 1,
        palette: vec![VarInt(3)],
        data: vec![2],
    });
    assert!(!code_without_id.is_valid());
    let id_too_wide = Palette::<Biomes>::from(ProtocolPalette::Indirect {
        bpe: 1,
        palette: vec![VarInt(3), VarInt(64)],
        data: vec![0],
    });
    assert!(!id_too_wide.is_valid());
    let id_below_zero = Palette::<Biomes>::from(ProtocolPalette::SingleValued {
        id: VarInt(-1),
        _phantom: PhantomData,
    });
    assert!(!id_below_zero.is_valid());
    let dictionary_too_long = Palette::<Biomes>::from(ProtocolPalette::Indirect {
        bpe: 1,
        palette: vec![VarInt(1), VarInt(2), VarInt(3)],
        data: vec![0],
    });
    assert!(!dictionary_too_long.is_valid());
    let no_width = Palette::<Biomes>::from(ProtocolPalette::Indirect {
        bpe: 0,
        palette: vec![VarInt(1)],
        data: vec![],
    });
    assert!(!no_width.is_valid());
}

#[test]
fn writing_a_known_id_keeps_the_width() {
    let (mut palette, mut expected) = two_biomes();
    assert_eq!(palette.set(pos(1, 0, 0), 9), 3);
    expected[1] = 9;
    assert_eq!(palette.set(pos(0, 0, 0), 3), 9);
    expected[0] = 3;
    assert!(matches!(&palette, Palette::Indirect { bpe: 1, palette2id, .. } if palette2id.len() == 2));
    check_all(&palette, &expected);
}

#[test]
fn a_growing_dictionary_loses_nothing() {
    let (mut palette, mut expected) = two_biomes();
    let targets = positions::<Biomes>();
    // 3 and 9 are known: six more ids fit below the threshold of eight
    for (step, id) in [10, 11, 12, 13, 14, 15].into_iter().enumerate() {
        let target = targets[(step * 11 + 5) % 64];
        let old = palette.set(target, id);
        assert_eq!(old, expected[flat::<Biomes>(target)]);
        expected[flat::<Biomes>(target)] = id;
        let entries = step + 3;
        let width = match entries {
            3 | 4 => 2,
            _ => 3,
        };
        match &palette {
            Palette::Indirect { bpe, palette2id, id2palette, data } => {
                assert_eq!(*bpe, width);
                assert_eq!(palette2id.len(), entries);
                assert_eq!(id2palette.len(), entries);
                assert_eq!(palette2id[entries - 1], id);
                assert_eq!(data.len(), 64usize.div_ceil(64 / width as usize));
            },
            other => panic!("unexpected: {:?}", other),
        }
        check_all(&palette, &expected);
    }
}

#[test]
fn words_of_three_bits_hold_twenty_one_codes() {
    let (mut palette, _) = two_biomes();
    for id in [10, 11, 12] {
        palette.set(pos(0, 0, 0), id);
    }
    // five ids: three bits, 21 codes in a word, the top bit of each word unused
    match &palette {
        Palette::Indirect { bpe, data, .. } => {
            assert_eq!(*bpe, 3);
            assert_eq!(data.len(), 4);
            for word in data {
                assert_eq!(word >> 63, 0);
            }
            assert_eq!(data[0] & 7, 4);
            assert_eq!(data[3] >> 3, 0);
        },
        other => panic!("unexpected: {:?}", other),
    }
}

#[test]
fn one_id_more_than_the_threshold_makes_the_palette_direct() {
    let (mut palette, mut expected) = two_biomes();
    let targets = positions::<Biomes>();
    for (step, id) in [10, 11, 12, 13, 14, 15].into_iter().enumerate() {
        let target = targets[step * 7];
        palette.set(target, id);
        expected[flat::<Biomes>(target)] = id;
    }
    assert!(matches!(&palette, Palette::Indirect { palette2id, .. } if palette2id.len() == 8));
    let target = pos(3, 3, 3);
    let old = palette.set(target, 40);
    assert_eq!(old, expected[flat::<Biomes>(target)]);
    expected[flat::<Biomes>(target)] = 40;
    assert!(matches!(&palette, Palette::Direct { bpe: 6, data } if data.len() == 7));
    check_all(&palette, &expected);
    // once direct, always direct
    palette.set(pos(0, 0, 0), 3);
    expected[0] = 3;
    assert!(matches!(palette, Palette::Direct { .. }));
    check_all(&palette, &expected);
}

#[test]
fn blocks_grow_to_the_threshold_and_then_go_direct() {
    let mut expected = vec![100; 4096];
    expected[1] = 101;
    let mut data = vec![0u64; 64];
    data[0] = 2;
    let mut palette = Palette::<Blocks>::from(ProtocolPalette::Indirect {
        bpe: 1,
        palette: vec![VarInt(100), VarInt(101)],
        data,
    });
    assert!(palette.is_valid());
    check_all(&palette, &expected);
    let targets = positions::<Blocks>();
    for step in 0..254usize {
        let id = 200 + step as i32;
        let target = targets[(step * 37 + 11) % 4096];
        let old = palette.set(target, id);
        assert_eq!(old, expected[flat::<Blocks>(target)]);
        expected[flat::<Blocks>(target)] = id;
        match &palette {
            Palette::Indirect { bpe, palette2id, .. } => {
                assert_eq!(palette2id.len(), step + 3);
                assert_eq!(*bpe, usize::BITS - (step + 2).leading_zeros());
            },
            other => panic!("unexpected: {:?}", other),
        }
        if step % 16 == 0 || step > 250 {
            check_all(&palette, &expected);
        }
    }
    assert!(matches!(&palette, Palette::Indirect { bpe: 8, palette2id, .. } if palette2id.len() == 256));
    check_all(&palette, &expected);
    let target = pos(9, 9, 9);
    let old = palette.set(target, 32767);
    assert_eq!(old, expected[flat::<Blocks>(target)]);
    expected[flat::<Blocks>(target)] = 32767;
    assert!(matches!(&palette, Palette::Direct { bpe: 15, data } if data.len() == 1024));
    check_all(&palette, &expected);
}

#[test]
fn the_words_after_the_first_write_to_an_empty_palette() {
    let mut palette = Palette::<Biomes>::empty();
    assert_eq!(palette.set(pos(1, 2, 3), 5), 0);
    match &palette {
        Palette::Direct { bpe, data } => {
            assert_eq!(*bpe, 6);
            assert_eq!(data, &vec![0, 0, 0, 0, 5u64 << 30, 0, 0]);
        },
        other => panic!("unexpected: {:?}", other),
    }
    assert_eq!(palette.get(pos(1, 2, 3)), 5);
}

#[test]
fn every_field_holds_the_one_id_after_the_first_write() {
    let mut palette: Palette<Biomes> =
        Palette::from(ProtocolPalette::SingleValued { id: VarInt(3), _phantom: PhantomData });
    assert_eq!(palette.set(pos(0, 0, 0), 5), 3);
    // ten fields of six bits to a word, each holding 3
    let mut threes: u64 = 0;
    for slot in 0..10 {
        threes |= 3 << (6 * slot);
    }
    match &palette {
        Palette::Direct { bpe, data } => {
            assert_eq!(*bpe, 6);
            assert_eq!(data.len(), 7);
            assert_eq!(data[0], (threes & !0x3f) | 5);
            // the last word holds four entries; the six fields behind them
            // hold the id too, and the four bits at the top hold nothing
            for word in &data[1..] {
                assert_eq!(*word, threes);
            }
        },
        other => panic!("unexpected: {:?}", other),
    }
}

#[test]
fn a_write_of_a_known_id_changes_one_field() {
    // at three bits 21 entries fill a word, and the top bit holds nothing
    let mut ones: u64 = 0;
    for slot in 0..21 {
        ones |= 1 << (3 * slot);
    }
    // what a received array holds behind its last entry is left alone
    let last = (1u64 << 63) | (0x1234_5678 << 3) | 1;
    let mut palette: Palette<Biomes> = Palette::from(ProtocolPalette::Indirect {
        bpe: 3,
        palette: vec![VarInt(3), VarInt(9), VarInt(4)],
        data: vec![ones, ones, ones, last],
    });
    assert!(palette.is_valid());
    assert_eq!(palette.set(pos(1, 0, 0), 4), 9);
    match &palette {
        Palette::Indirect { bpe, palette2id, id2palette, data } => {
            assert_eq!(*bpe, 3);
            assert_eq!(palette2id, &vec![3, 9, 4]);
            assert_eq!(id2palette.len(), 3);
            assert_eq!(id2palette[&3], 0);
            assert_eq!(id2palette[&9], 1);
            assert_eq!(id2palette[&4], 2);
            assert_eq!(data, &vec![(ones & !(7 << 3)) | (2 << 3), ones, ones, last]);
        },
        other => panic!("unexpected: {:?}", other),
    }
}

#[test]
fn an_array_packed_anew_holds_zeros_behind_the_last_entry() {
    // two ids at one bit: one word, every bit an entry
    let (mut palette, mut expected) = two_biomes();
    assert_eq!(palette.set(pos(2, 0, 0), 7), 3);
    expected[2] = 7;
    match &palette {
        Palette::Indirect { bpe, palette2id, data, .. } => {
            // three ids take two bits: 32 entries to a word, two words
            assert_eq!(*bpe, 2);
            assert_eq!(palette2id, &vec![3, 9, 7]);
            assert_eq!(data.len(), 2);
            let mut words = [0u64; 2];
            for (place, id) in expected.iter().enumerate() {
                let code: u64 = match id {
                    3 => 0,
                    9 => 1,
                    _ => 2,
                };
                words[place / 32] |= code << (2 * (place % 32));
            }
            assert_eq!(data.as_slice(), &words);
        },
        other => panic!("unexpected: {:?}", other),
    }
    check_all(&palette, &expected);
    // at three bits 21 entries fill a word: the fourth word holds one entry
    // and twenty fields of zeros behind it
    assert_eq!(palette.set(pos(3, 3, 3), 8), 9);
    assert_eq!(palette.set(pos(3, 3, 3), 11), 8);
    match &palette {
        Palette::Indirect { bpe, data, .. } => {
            assert_eq!(*bpe, 3);
            assert_eq!(data.len(), 4);
            assert_eq!(data[3], 4);
        },
        other => panic!("unexpected: {:?}", other),
    }
}

#[test]
fn a_dictionary_takes_any_id() {
    // 1000 and -5 do not fit the six bits of the direct width of biomes
    let (mut palette, mut expected) = two_biomes();
    assert_eq!(palette.set(pos(2, 1, 0), 1000), expected[flat::<Biomes>(pos(2, 1, 0))]);
    expected[flat::<Biomes>(pos(2, 1, 0))] = 1000;
    check_all(&palette, &expected);
    assert_eq!(palette.set(pos(0, 3, 3), -5), expected[flat::<Biomes>(pos(0, 3, 3))]);
    expected[flat::<Biomes>(pos(0, 3, 3))] = -5;
    check_all(&palette, &expected);
    assert_eq!(palette.set(pos(1, 1, 1), 1000), expected[flat::<Biomes>(pos(1, 1, 1))]);
    expected[flat::<Biomes>(pos(1, 1, 1))] = 1000;
    check_all(&palette, &expected);
    match &palette {
        Palette::Indirect { bpe, palette2id, .. } => {
            assert_eq!(*bpe, 2);
            assert_eq!(palette2id, &vec![3, 9, 1000, -5]);
        },
        other => panic!("unexpected: {:?}", other),
    }
    // such a palette holds together, but it cannot become direct
    assert!(!palette.is_valid());
}
