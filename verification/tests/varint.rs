use mcwire::codec::{Deserialize, DeserializeError, Serialize};
use mcwire::stream::{ByteChannel, DataStream, IoError};
use mcwire::varint::{VarInt, VarLong};

fn stream_of(bytes: &[u8], budget: usize) -> DataStream {
    let mut channel = ByteChannel::new();
    channel.feed(bytes);
    DataStream::new(channel, budget)
}

fn encode_int(value: i32) -> Vec<u8> {
    let mut out = Vec::new();
    VarInt(value).serialize(&mut out);
    out
}

fn encode_long(value: i64) -> Vec<u8> {
    let mut out = Vec::new();
    VarLong(value).serialize(&mut out);
    out
}

#[test]
fn var_int_zero_is_one_zero_byte() {
    assert_eq!(encode_int(0), vec![0x00]);
    assert_eq!(VarInt(0).size(), 1);
}

#[test]
fn var_int_known_encodings() {
    assert_eq!(encode_int(1), vec![0x01]);
    assert_eq!(encode_int(2), vec![0x02]);
    assert_eq!(encode_int(127), vec![0x7f]);
    assert_eq!(encode_int(128), vec![0x80, 0x01]);
    assert_eq!(encode_int(255), vec![0xff, 0x01]);
    assert_eq!(encode_int(772), vec![0x84, 0x06]);
    assert_eq!(encode_int(25565), vec![0xdd, 0xc7, 0x01]);
    assert_eq!(encode_int(2097151), vec![0xff, 0xff, 0x7f]);
    assert_eq!(encode_int(i32::MAX), vec![0xff, 0xff, 0xff, 0xff, 0x07]);
    assert_eq!(encode_int(-1), vec![0xff, 0xff, 0xff, 0xff, 0x0f]);
    assert_eq!(encode_int(i32::MIN), vec![0x80, 0x80, 0x80, 0x80, 0x08]);
}

#[test]
fn var_int_size_is_the_number_of_bytes_written() {
    for value in [0, 1, 127, 128, 16383, 16384, 2097151, 2097152, i32::MAX, -1, i32::MIN] {
        assert_eq!(VarInt(value).size(), encode_int(value).len());
        assert_eq!(VarInt(value).checked_size(), Some(encode_int(value).len()));
        assert!(encode_int(value).len() <= 5);
    }
}

#[test]
fn var_int_round_trip() {
    let mut values = vec![0, 1, -1, 2, 127, 128, 255, 256, 25565, i32::MAX, i32::MIN, -2147483647];
    let mut v: i64 = 1;
    while v < i32::MAX as i64 {
        values.push(v as i32);
        values.push(-(v as i32));
        values.push((v as i32).wrapping_sub(1));
        v *= 3;
    }
    for value in values {
        let bytes = encode_int(value);
        let mut stream = stream_of(&bytes, bytes.len());
        let decoded = VarInt::deserialize(&mut stream).unwrap();
        assert_eq!(decoded, VarInt(value));
        assert_eq!(stream.remaining_size(), 0);
    }
}

#[test]
fn var_int_decode_leaves_what_follows() {
    let mut stream = stream_of(&[0xdd, 0xc7, 0x01, 0x2a, 0x2b], 5);
    assert_eq!(VarInt::deserialize(&mut stream).unwrap(), VarInt(25565));
    assert_eq!(stream.remaining_size(), 2);
    assert_eq!(VarInt::deserialize(&mut stream).unwrap(), VarInt(0x2a));
}

#[test]
fn var_int_accepts_redundant_groups() {
    let mut stream = stream_of(&[0x80, 0x00], 2);
    assert_eq!(VarInt::deserialize(&mut stream).unwrap(), VarInt(0));
    assert_eq!(stream.remaining_size(), 0);
}

#[test]
fn var_int_fifth_byte_keeps_only_the_low_bits() {
    let mut stream = stream_of(&[0xff, 0xff, 0xff, 0xff, 0x7f], 5);
    assert_eq!(VarInt::deserialize(&mut stream).unwrap(), VarInt(-1));
}

#[test]
fn var_int_too_long() {
    let mut stream = stream_of(&[0x80, 0x80, 0x80, 0x80, 0x80, 0x01], 6);
    match VarInt::deserialize(&mut stream) {
        Err(DeserializeError::MalformedPacket(message)) => assert_eq!(message, "VarInt too long"),
        other => panic!("unexpected: {:?}", other),
    }
    assert_eq!(stream.remaining_size(), 1);
}

#[test]
fn var_int_budget_ends_within_the_chain() {
    let mut stream = stream_of(&[0x80, 0x80, 0x01], 2);
    assert!(matches!(
        VarInt::deserialize(&mut stream),
        Err(DeserializeError::MalformedPacket(message)) if message == "Unexpected end of packet"
    ));
    assert_eq!(stream.remaining_size(), 0);
}

#[test]
fn var_int_channel_ends_within_the_chain() {
    let mut stream = stream_of(&[0x80], 10);
    assert!(matches!(
        VarInt::deserialize(&mut stream),
        Err(DeserializeError::Io(IoError::UnexpectedEof))
    ));
}

#[test]
fn var_int_read_from_a_channel() {
    let mut channel = ByteChannel::new();
    channel.feed(&[0x84, 0x06, 0x09]);
    assert_eq!(VarInt::read(&mut channel).unwrap(), 772);
    assert_eq!(channel.available(), 1);
    assert_eq!(VarInt::read(&mut channel).unwrap(), 9);
    assert!(matches!(VarInt::read(&mut channel), Err(DeserializeError::Io(_))));
}

#[test]
fn var_long_known_encodings() {
    assert_eq!(encode_long(0), vec![0x00]);
    assert_eq!(encode_long(127), vec![0x7f]);
    assert_eq!(encode_long(128), vec![0x80, 0x01]);
    assert_eq!(encode_long(2147483647), vec![0xff, 0xff, 0xff, 0xff, 0x07]);
    assert_eq!(
        encode_long(i64::MAX),
        vec![0xff, 0xff, 0xff, 0xff, 0xff, 0xff, 0xff, 0xff, 0x7f]
    );
    assert_eq!(
        encode_long(-1),
        vec![0xff, 0xff, 0xff, 0xff, 0xff, 0xff, 0xff, 0xff, 0xff, 0x01]
    );
    assert_eq!(
        encode_long(i64::MIN),
        vec![0x80, 0x80, 0x80, 0x80, 0x80, 0x80, 0x80, 0x80, 0x80, 0x01]
    );
}

#[test]
fn var_long_round_trip() {
    let mut values = vec![0i64, 1, -1, i64::MAX, i64::MIN, 1 << 35, -(1 << 35), 1 << 62];
    let mut v: i64 = 1;
    while v < i64::MAX / 7 {
        values.push(v);
        values.push(-v);
        v *= 7;
    }
    for value in values {
        let bytes = encode_long(value);
        assert!(bytes.len() <= 10);
        assert_eq!(VarLong(value).size(), bytes.len());
        let mut stream = stream_of(&bytes, bytes.len());
        assert_eq!(VarLong::deserialize(&mut stream).unwrap(), VarLong(value));
        assert_eq!(stream.remaining_size(), 0);
    }
}

#[test]
fn var_long_too_long() {
    let mut stream = stream_of(&[0x80; 11], 11);
    match VarLong::deserialize(&mut stream) {
        Err(DeserializeError::MalformedPacket(message)) => assert_eq!(message, "VarLong too long"),
        other => panic!("unexpected: {:?}", other),
    }
    assert_eq!(stream.remaining_size(), 1);
}

#[test]
fn var_long_read_from_a_channel() {
    let mut channel = ByteChannel::new();
    channel.feed(&[0xff, 0xff, 0xff, 0xff, 0xff, 0xff, 0xff, 0xff, 0xff, 0x01, 0x05]);
    assert_eq!(VarLong::read(&mut channel).unwrap(), -1);
    assert_eq!(channel.available(), 1);
}
