use mcwire::codec::{Deserialize, DeserializeError, Serialize};
use mcwire::containers::deserialize_slice;
use mcwire::datatypes::{
    Angle, BitSet, BlockPos, Double, EnumRepr, Float, LengthInferredArray, LengthInferredByteArray, Or,
};
use mcwire::stream::{ByteChannel, DataStream, IoError};
use mcwire::text::utf8_char_width;
use mcwire::varint::VarInt;

fn stream_of(bytes: &[u8]) -> DataStream {
    let mut channel = ByteChannel::new();
    channel.feed(bytes);
    DataStream::new(channel, bytes.len())
}

fn bytes_of<T: Serialize>(value: &T) -> Vec<u8> {
    let mut out = Vec::new();
    value.serialize(&mut out);
    assert_eq!(value.size(), out.len());
    assert_eq!(value.checked_size(), Some(out.len()));
    out
}

fn message_of<T: std::fmt::Debug>(result: Result<T, DeserializeError>) -> String {
    match result {
        Err(DeserializeError::MalformedPacket(message)) => message,
        other => panic!("unexpected: {:?}", other),
    }
}

#[test]
fn booleans_are_one_byte() {
    assert_eq!(bytes_of(&true), vec![1]);
    assert_eq!(bytes_of(&false), vec![0]);
    assert_eq!(bool::deserialize(&mut stream_of(&[0])).unwrap(), false);
    assert_eq!(bool::deserialize(&mut stream_of(&[1])).unwrap(), true);
}

#[test]
fn other_bytes_are_no_booleans() {
    assert_eq!(message_of(bool::deserialize(&mut stream_of(&[2]))), "Invalid bool value (found 2)");
    assert_eq!(
        message_of(bool::deserialize(&mut stream_of(&[255]))),
        "Invalid bool value (found 255)"
    );
    assert_eq!(message_of(bool::deserialize(&mut stream_of(&[]))), "Unexpected end of packet");
    let mut short = DataStream::new(ByteChannel::new(), 1);
    assert!(matches!(
        bool::deserialize(&mut short),
        Err(DeserializeError::Io(IoError::UnexpectedEof))
    ));
}

#[test]
fn numbers_are_big_endian() {
    assert_eq!(bytes_of(&0x12u8), vec![0x12]);
    assert_eq!(bytes_of(&-2i8), vec![0xfe]);
    assert_eq!(bytes_of(&25565u16), vec![0x63, 0xdd]);
    assert_eq!(bytes_of(&-2i16), vec![0xff, 0xfe]);
    assert_eq!(bytes_of(&0x01020304i32), vec![1, 2, 3, 4]);
    assert_eq!(bytes_of(&-1i32), vec![0xff; 4]);
    assert_eq!(bytes_of(&0x0102030405060708i64), vec![1, 2, 3, 4, 5, 6, 7, 8]);
    assert_eq!(bytes_of(&i64::MIN), vec![0x80, 0, 0, 0, 0, 0, 0, 0]);
    assert_eq!(bytes_of(&0xfffefdfcfbfaf9f8u64), vec![0xff, 0xfe, 0xfd, 0xfc, 0xfb, 0xfa, 0xf9, 0xf8]);
    assert_eq!(
        bytes_of(&0x000102030405060708090a0b0c0d0e0fu128),
        vec![0, 1, 2, 3, 4, 5, 6, 7, 8, 9, 10, 11, 12, 13, 14, 15]
    );
    assert_eq!(bytes_of(&Float(0x3f800000)), vec![0x3f, 0x80, 0, 0]);
    assert_eq!(bytes_of(&Double(0x3ff0000000000000)), vec![0x3f, 0xf0, 0, 0, 0, 0, 0, 0]);
}

#[test]
fn numbers_round_trip() {
    assert_eq!(u8::deserialize(&mut stream_of(&[0x12])).unwrap(), 0x12);
    assert_eq!(i8::deserialize(&mut stream_of(&[0x80])).unwrap(), i8::MIN);
    assert_eq!(u16::deserialize(&mut stream_of(&[0x63, 0xdd])).unwrap(), 25565);
    assert_eq!(i16::deserialize(&mut stream_of(&[0xff, 0xfe])).unwrap(), -2);
    for value in [0i32, 1, -1, i32::MAX, i32::MIN, 0x01020304] {
        assert_eq!(i32::deserialize(&mut stream_of(&bytes_of(&value))).unwrap(), value);
    }
    for value in [0i64, 1, -1, i64::MAX, i64::MIN] {
        assert_eq!(i64::deserialize(&mut stream_of(&bytes_of(&value))).unwrap(), value);
    }
    for value in [0u64, 1, u64::MAX, 0x8000000000000000] {
        assert_eq!(u64::deserialize(&mut stream_of(&bytes_of(&value))).unwrap(), value);
    }
    for value in [0u128, 1, u128::MAX, 1 << 127] {
        assert_eq!(u128::deserialize(&mut stream_of(&bytes_of(&value))).unwrap(), value);
    }
    assert_eq!(Float::deserialize(&mut stream_of(&[0x3f, 0x80, 0, 0])).unwrap(), Float(0x3f800000));
    assert_eq!(
        Double::deserialize(&mut stream_of(&[0xc0, 0, 0, 0, 0, 0, 0, 1])).unwrap(),
        Double(0xc000000000000001)
    );
}

#[test]
fn a_number_cut_short_takes_the_window() {
    let mut stream = stream_of(&[1, 2, 3]);
    assert_eq!(message_of(i32::deserialize(&mut stream)), "Unexpected end of packet");
    assert_eq!(stream.remaining_size(), 0);
}

#[test]
fn strings_count_characters() {
    let text = String::from("h\u{e9}llo\u{20ac}");
    let bytes = bytes_of(&text);
    assert_eq!(bytes, vec![6, b'h', 0xc3, 0xa9, b'l', b'l', b'o', 0xe2, 0x82, 0xac]);
    let mut stream = stream_of(&bytes);
    assert_eq!(String::deserialize(&mut stream).unwrap(), text);
    assert_eq!(stream.remaining_size(), 0);
}

#[test]
fn strings_round_trip() {
    for text in ["", "a", "127.0.0.1", "Coucou", "\u{7f}\u{80}\u{7ff}\u{800}\u{ffff}", "\u{0}x"] {
        let text = String::from(text);
        let mut bytes = bytes_of(&text);
        bytes.push(0x55);
        let mut stream = stream_of(&bytes);
        assert_eq!(String::deserialize(&mut stream).unwrap(), text);
        assert_eq!(stream.remaining_size(), 1);
    }
}

#[test]
fn a_character_of_four_bytes_is_refused() {
    let text = String::from("a\u{1f600}b");
    let bytes = bytes_of(&text);
    assert_eq!(bytes, vec![3, b'a', 0xf0, 0x9f, 0x98, 0x80, b'b']);
    let mut stream = stream_of(&bytes);
    assert_eq!(message_of(String::deserialize(&mut stream)), "Invalid UTF-8");
    assert_eq!(stream.remaining_size(), 4);
}

#[test]
fn strings_that_break_the_rules() {
    assert_eq!(
        message_of(String::deserialize(&mut stream_of(&[0xff, 0xff, 0xff, 0xff, 0x0f]))),
        "Negative String length"
    );
    assert_eq!(message_of(String::deserialize(&mut stream_of(&[1, 0x80]))), "Invalid UTF-8");
    assert_eq!(message_of(String::deserialize(&mut stream_of(&[1, 0xc0, 0x80]))), "Invalid UTF-8");
    assert_eq!(message_of(String::deserialize(&mut stream_of(&[1, 0xc3, 0x28]))), "Invalid UTF-8");
    assert_eq!(
        message_of(String::deserialize(&mut stream_of(&[1, 0xed, 0xa0, 0x80]))),
        "Invalid UTF-8"
    );
    assert_eq!(
        message_of(String::deserialize(&mut stream_of(&[2, b'a']))),
        "Unexpected end of packet"
    );
    assert_eq!(
        message_of(String::deserialize(&mut stream_of(&[1, 0xe2, 0x82]))),
        "Unexpected end of packet"
    );
}

#[test]
fn width_of_a_character_by_its_first_byte() {
    assert_eq!(utf8_char_width(0x00), 1);
    assert_eq!(utf8_char_width(0x7f), 1);
    assert_eq!(utf8_char_width(0x80), 0);
    assert_eq!(utf8_char_width(0xbf), 0);
    assert_eq!(utf8_char_width(0xc0), 0);
    assert_eq!(utf8_char_width(0xc1), 0);
    assert_eq!(utf8_char_width(0xc2), 2);
    assert_eq!(utf8_char_width(0xdf), 2);
    assert_eq!(utf8_char_width(0xe0), 3);
    assert_eq!(utf8_char_width(0xef), 3);
    assert_eq!(utf8_char_width(0xf0), 4);
    assert_eq!(utf8_char_width(0xf4), 4);
    assert_eq!(utf8_char_width(0xf5), 0);
    assert_eq!(utf8_char_width(0xff), 0);
}

#[test]
fn optional_values_have_a_flag() {
    assert_eq!(bytes_of(&Some(0x0102u16)), vec![1, 1, 2]);
    assert_eq!(bytes_of(&None::<u16>), vec![0]);
    assert_eq!(Option::<u16>::deserialize(&mut stream_of(&[1, 1, 2])).unwrap(), Some(0x0102));
    assert_eq!(Option::<u16>::deserialize(&mut stream_of(&[0, 1, 2])).unwrap(), None);
    assert_eq!(
        message_of(Option::<u16>::deserialize(&mut stream_of(&[3, 1, 2]))),
        "Invalid bool value (found 3)"
    );
}

#[test]
fn sequences_have_a_count() {
    let values: Vec<u16> = vec![1, 2, 0x0304];
    assert_eq!(bytes_of(&values), vec![3, 0, 1, 0, 2, 3, 4]);
    assert_eq!(Vec::<u16>::deserialize(&mut stream_of(&[3, 0, 1, 0, 2, 3, 4])).unwrap(), values);
    assert_eq!(Vec::<u16>::deserialize(&mut stream_of(&[0])).unwrap(), Vec::<u16>::new());
    let texts = vec![String::from("ab"), String::from("")];
    assert_eq!(bytes_of(&texts), vec![2, 2, b'a', b'b', 0]);
}

#[test]
fn a_count_below_zero_is_refused() {
    assert_eq!(
        message_of(Vec::<u8>::deserialize(&mut stream_of(&[0xff, 0xff, 0xff, 0xff, 0x0f, 1, 2]))),
        "Negative sequence length"
    );
}

#[test]
fn a_sequence_cut_short() {
    let mut stream = stream_of(&[3, 0, 1, 0]);
    assert_eq!(message_of(Vec::<u16>::deserialize(&mut stream)), "Unexpected end of packet");
    assert_eq!(stream.remaining_size(), 0);
}

#[test]
fn deserialize_slice_reads_the_count_asked() {
    let mut stream = stream_of(&[1, 2, 3, 4, 5]);
    let values: Vec<u16> = deserialize_slice(&mut stream, 2).unwrap();
    assert_eq!(values, vec![0x0102, 0x0304]);
    assert_eq!(stream.remaining_size(), 1);
    let none: Vec<u16> = deserialize_slice(&mut stream, 0).unwrap();
    assert!(none.is_empty());
    assert!(deserialize_slice::<u16>(&mut stream, 1).is_err());
}

#[test]
fn pairs_arrays_and_boxes() {
    assert_eq!(bytes_of(&(0x01u8, 0x0203u16)), vec![1, 2, 3]);
    assert_eq!(<(u8, u16)>::deserialize(&mut stream_of(&[1, 2, 3])).unwrap(), (1, 0x0203));
    assert_eq!(bytes_of(&[1u16, 2, 3]), vec![0, 1, 0, 2, 0, 3]);
    assert_eq!(<[u16; 3]>::deserialize(&mut stream_of(&[0, 1, 0, 2, 0, 3])).unwrap(), [1, 2, 3]);
    assert_eq!(<[u16; 0]>::deserialize(&mut stream_of(&[])).unwrap(), []);
    assert!(<[u16; 3]>::deserialize(&mut stream_of(&[0, 1, 0, 2, 0])).is_err());
    assert_eq!(bytes_of(&Box::new(7u16)), vec![0, 7]);
    assert_eq!(*Box::<u16>::deserialize(&mut stream_of(&[0, 7])).unwrap(), 7);
}

#[test]
fn length_inferred_bytes_take_the_rest() {
    let mut stream = stream_of(&[1, 2, 3, 4]);
    assert_eq!(stream.read_byte(), Ok(1));
    assert_eq!(LengthInferredByteArray::deserialize(&mut stream).unwrap().0, vec![2, 3, 4]);
    assert_eq!(stream.remaining_size(), 0);
    assert_eq!(LengthInferredByteArray::deserialize(&mut stream).unwrap().0, Vec::<u8>::new());
    assert_eq!(bytes_of(&LengthInferredByteArray(vec![5, 6])), vec![5, 6]);
}

#[test]
fn length_inferred_bytes_on_a_short_channel() {
    let mut channel = ByteChannel::new();
    channel.feed(&[1, 2]);
    let mut stream = DataStream::new(channel, 3);
    assert!(matches!(
        LengthInferredByteArray::deserialize(&mut stream),
        Err(DeserializeError::Io(_))
    ));
}

#[test]
fn length_inferred_arrays_read_to_the_end() {
    let mut stream = stream_of(&[0, 1, 0, 2, 0, 3]);
    assert_eq!(LengthInferredArray::<u16>::deserialize(&mut stream).unwrap().0, vec![1, 2, 3]);
    assert_eq!(stream.remaining_size(), 0);
    let mut stream = stream_of(&[0, 1, 0]);
    assert_eq!(
        message_of(LengthInferredArray::<u16>::deserialize(&mut stream).map(|array| array.0)),
        "Unexpected end of packet"
    );
    let mut stream = stream_of(&[0x80, 0x01, 0x05]);
    assert_eq!(
        LengthInferredArray::<VarInt>::deserialize(&mut stream).unwrap().0,
        vec![VarInt(128), VarInt(5)]
    );
    assert_eq!(bytes_of(&LengthInferredArray(vec![1u16, 2])), vec![0, 1, 0, 2]);
}

#[test]
fn one_of_two_values() {
    assert_eq!(bytes_of(&Or::<u16, u8>::Y(5)), vec![0, 5]);
    assert_eq!(bytes_of(&Or::<u16, u8>::X(5)), vec![1, 0, 5]);
    assert!(matches!(Or::<u16, u8>::deserialize(&mut stream_of(&[0, 5])).unwrap(), Or::Y(5)));
    assert!(matches!(Or::<u16, u8>::deserialize(&mut stream_of(&[1, 0, 5])).unwrap(), Or::X(5)));
    assert!(Or::<u16, u8>::deserialize(&mut stream_of(&[2, 0, 5])).is_err());
}

#[test]
fn enum_representations() {
    assert_eq!(VarInt::from_value(7), VarInt(7));
    assert_eq!(VarInt(7).to_value(), 7);
    assert_eq!(bool::from_value(0), false);
    assert_eq!(bool::from_value(1), true);
    assert_eq!(true.to_value(), 1);
    assert_eq!(false.to_value(), 0);
    assert_eq!(u8::from_value(9), 9);
    assert_eq!(9i64.to_value(), 9);
}

#[test]
fn angles_and_bit_sets() {
    assert_eq!(bytes_of(&Angle(64)), vec![64]);
    assert_eq!(Angle::deserialize(&mut stream_of(&[200])).unwrap(), Angle(200));
    let set = BitSet::deserialize(&mut stream_of(&[1, 0, 0, 0, 0, 0, 0, 0, 5])).unwrap();
    assert_eq!(set.0, vec![5]);
}

#[test]
fn block_positions_are_packed() {
    // x = 1, z = 2, y = 3
    let packed: u64 = (1u64 << 38) | (2u64 << 12) | 3;
    let pos = BlockPos::deserialize(&mut stream_of(&packed.to_be_bytes())).unwrap();
    assert_eq!((pos.0.x, pos.0.y, pos.0.z), (1, 3, 2));
    // x = -1, z = -2, y = -3
    let packed: u64 = ((0x3ff_ffffu64) << 38) | ((0x3ff_fffeu64) << 12) | 0xffd;
    let pos = BlockPos::deserialize(&mut stream_of(&packed.to_be_bytes())).unwrap();
    assert_eq!((pos.0.x, pos.0.y, pos.0.z), (-1, -3, -2));
    let packed: u64 = ((0x200_0000u64) << 38) | ((0x1ff_ffffu64) << 12) | 0x800;
    let pos = BlockPos::deserialize(&mut stream_of(&packed.to_be_bytes())).unwrap();
    assert_eq!((pos.0.x, pos.0.y, pos.0.z), (-33554432, -2048, 33554431));
}

#[test]
fn a_channel_that_ends_within_a_value_has_failed() {
    let mut channel = ByteChannel::new();
    channel.feed(&[1, 2, 3]);
    let mut stream = DataStream::new(channel, 8);
    assert!(matches!(
        i32::deserialize(&mut stream),
        Err(DeserializeError::Io(IoError::UnexpectedEof))
    ));
    assert_eq!(stream.remaining_size(), 5);
    let mut channel = ByteChannel::new();
    channel.feed(&[2, b'a']);
    let mut stream = DataStream::new(channel, 3);
    assert!(matches!(String::deserialize(&mut stream), Err(DeserializeError::Io(_))));
}
