use mcwire::codec::{Deserialize, DeserializeError};
use mcwire::datatypes::{Double, Float};
use mcwire::nbt::{Nbt, NbtError};
use mcwire::stream::{ByteChannel, DataStream};

fn stream_of(bytes: &[u8]) -> DataStream {
    let mut channel = ByteChannel::new();
    channel.feed(bytes);
    DataStream::new(channel, bytes.len())
}

fn entries_of(value: Nbt) -> Vec<(String, Nbt)> {
    match value {
        Nbt::Compound(entries) => entries,
        other => panic!("no mapping: {:?}", other),
    }
}

fn nbt_error(bytes: &[u8]) -> NbtError {
    match Nbt::deserialize(&mut stream_of(bytes)) {
        Err(DeserializeError::Nbt(error)) => error,
        other => panic!("unexpected: {:?}", other),
    }
}

fn malformed(bytes: &[u8]) -> String {
    match Nbt::deserialize(&mut stream_of(bytes)) {
        Err(DeserializeError::MalformedPacket(message)) => message,
        other => panic!("unexpected: {:?}", other),
    }
}

/// The bytes of a name: its length in 16 bits, then the name.
fn name(text: &str) -> Vec<u8> {
    let mut out = (text.len() as u16).to_be_bytes().to_vec();
    out.extend_from_slice(text.as_bytes());
    out
}

/// The byte that ends a mapping.
fn end() -> Vec<u8> {
    vec![0]
}

#[test]
fn an_empty_mapping_reads_as_an_empty_mapping() {
    let mut stream = stream_of(&[10, 0]);
    let root = Nbt::deserialize(&mut stream).unwrap();
    assert!(entries_of(root).is_empty());
    assert_eq!(stream.remaining_size(), 0);
}

#[test]
fn nothing_is_read_behind_the_end_of_a_mapping() {
    let mut stream = stream_of(&[10, 0, 0, 0]);
    let root = Nbt::deserialize(&mut stream).unwrap();
    assert!(entries_of(root).is_empty());
    assert_eq!(stream.remaining_size(), 2);
}

#[test]
fn the_root_must_be_a_mapping() {
    assert!(matches!(nbt_error(&[9, 0, 0, 0, 0, 0]), NbtError::MalformedRoot));
    assert!(matches!(nbt_error(&[0]), NbtError::MalformedRoot));
    assert!(matches!(nbt_error(&[1, 5]), NbtError::MalformedRoot));
    assert_eq!(malformed(&[]), "Unexpected end of packet");
}

#[test]
fn two_entries_of_one_name_are_refused() {
    let mut bytes = vec![10];
    bytes.push(1);
    bytes.extend(name("a"));
    bytes.push(5);
    bytes.push(1);
    bytes.extend(name("a"));
    bytes.push(6);
    bytes.extend(end());
    match nbt_error(&bytes) {
        NbtError::SameName(found) => assert_eq!(found, "a"),
        other => panic!("unexpected: {:?}", other),
    }
}

#[test]
fn two_entries_of_two_names_are_kept_in_order() {
    let mut bytes = vec![10];
    bytes.push(1);
    bytes.extend(name("b"));
    bytes.push(5);
    bytes.push(1);
    bytes.extend(name("a"));
    bytes.push(0xfa);
    bytes.extend(end());
    let entries = entries_of(Nbt::deserialize(&mut stream_of(&bytes)).unwrap());
    assert_eq!(entries.len(), 2);
    assert_eq!(entries[0].0, "b");
    assert!(matches!(entries[0].1, Nbt::Byte(5)));
    assert_eq!(entries[1].0, "a");
    assert!(matches!(entries[1].1, Nbt::Byte(-6)));
}

#[test]
fn a_list_of_absence_with_values_is_refused() {
    let mut bytes = vec![10];
    bytes.push(9);
    bytes.extend(name("l"));
    bytes.push(0);
    bytes.extend([0, 0, 0, 1]);
    bytes.extend(end());
    assert!(matches!(nbt_error(&bytes), NbtError::EndInList));
}

#[test]
fn an_empty_list_may_be_of_absence() {
    let mut bytes = vec![10];
    bytes.push(9);
    bytes.extend(name("l"));
    bytes.push(0);
    bytes.extend([0, 0, 0, 0]);
    bytes.extend(end());
    let entries = entries_of(Nbt::deserialize(&mut stream_of(&bytes)).unwrap());
    match &entries[0].1 {
        Nbt::List(items) => assert!(items.is_empty()),
        other => panic!("unexpected: {:?}", other),
    }
}

#[test]
fn a_list_with_a_count_below_zero_is_refused() {
    let mut bytes = vec![10];
    bytes.push(9);
    bytes.extend(name("l"));
    bytes.push(1);
    bytes.extend([0xff, 0xff, 0xff, 0xfe]);
    assert!(matches!(nbt_error(&bytes), NbtError::NegativeListLength(-2)));
}

#[test]
fn an_array_with_a_count_below_zero_is_refused() {
    let mut bytes = vec![10];
    bytes.push(11);
    bytes.extend(name("a"));
    bytes.extend([0xff, 0xff, 0xff, 0xff]);
    assert!(matches!(nbt_error(&bytes), NbtError::NegativeArrayLength(-1)));
}

#[test]
fn an_unknown_type_is_refused() {
    let mut bytes = vec![10];
    bytes.push(13);
    bytes.extend(name("x"));
    assert!(matches!(nbt_error(&bytes), NbtError::UnknownType(13)));
}

#[test]
fn a_name_that_is_no_text_is_refused() {
    let bytes = vec![10, 1, 0, 2, 0xc3, 0x28, 5, 0, 0, 0];
    assert!(matches!(nbt_error(&bytes), NbtError::InvalidUTF8(_)));
}

#[test]
fn every_kind_of_value() {
    let mut bytes = vec![10];
    bytes.push(1);
    bytes.extend(name("byte"));
    bytes.push(0x7f);
    bytes.push(2);
    bytes.extend(name("short"));
    bytes.extend([0x80, 0x00]);
    bytes.push(3);
    bytes.extend(name("int"));
    bytes.extend([0, 0, 1, 0]);
    bytes.push(4);
    bytes.extend(name("long"));
    bytes.extend([0xff; 8]);
    bytes.push(5);
    bytes.extend(name("float"));
    bytes.extend([0x3f, 0x80, 0, 0]);
    bytes.push(6);
    bytes.extend(name("double"));
    bytes.extend([0x3f, 0xf0, 0, 0, 0, 0, 0, 0]);
    bytes.push(7);
    bytes.extend(name("bytes"));
    bytes.extend([0, 0, 0, 2, 9, 8]);
    bytes.push(8);
    bytes.extend(name("text"));
    bytes.extend(name("h\u{e9}"));
    bytes.push(9);
    bytes.extend(name("list"));
    bytes.push(2);
    bytes.extend([0, 0, 0, 2, 0, 1, 0, 2]);
    bytes.push(10);
    bytes.extend(name("map"));
    bytes.push(1);
    bytes.extend(name("in"));
    bytes.push(1);
    bytes.extend(end());
    bytes.push(11);
    bytes.extend(name("ints"));
    bytes.extend([0, 0, 0, 1, 0xff, 0xff, 0xff, 0xff]);
    bytes.push(12);
    bytes.extend(name("longs"));
    bytes.extend([0, 0, 0, 1, 0, 0, 0, 0, 0, 0, 0, 7]);
    bytes.extend(end());
    bytes.push(0x99);

    let mut stream = stream_of(&bytes);
    let entries = entries_of(Nbt::deserialize(&mut stream).unwrap());
    assert_eq!(stream.remaining_size(), 1);
    assert_eq!(entries.len(), 12);
    assert!(matches!(entries[0].1, Nbt::Byte(127)));
    assert!(matches!(entries[1].1, Nbt::Short(-32768)));
    assert!(matches!(entries[2].1, Nbt::Int(256)));
    assert!(matches!(entries[3].1, Nbt::Long(-1)));
    assert!(matches!(entries[4].1, Nbt::Float(Float(0x3f800000))));
    assert!(matches!(entries[5].1, Nbt::Double(Double(0x3ff0000000000000))));
    match &entries[6].1 {
        Nbt::ByteArray(v) => assert_eq!(v, &vec![9, 8]),
        other => panic!("unexpected: {:?}", other),
    }
    match &entries[7].1 {
        Nbt::String(v) => assert_eq!(v, "h\u{e9}"),
        other => panic!("unexpected: {:?}", other),
    }
    match &entries[8].1 {
        Nbt::List(v) => {
            assert_eq!(v.len(), 2);
            assert!(matches!(v[0], Nbt::Short(1)));
            assert!(matches!(v[1], Nbt::Short(2)));
        },
        other => panic!("unexpected: {:?}", other),
    }
    match &entries[9].1 {
        Nbt::Compound(v) => {
            assert_eq!(v.len(), 1);
            assert_eq!(v[0].0, "in");
            assert!(matches!(v[0].1, Nbt::Byte(1)));
        },
        other => panic!("unexpected: {:?}", other),
    }
    match &entries[10].1 {
        Nbt::IntArray(v) => assert_eq!(v, &vec![-1]),
        other => panic!("unexpected: {:?}", other),
    }
    match &entries[11].1 {
        Nbt::LongArray(v) => assert_eq!(v, &vec![7]),
        other => panic!("unexpected: {:?}", other),
    }
    assert_eq!(entries[11].0, "longs");
}

#[test]
fn lists_in_lists() {
    let mut bytes = vec![10];
    bytes.push(9);
    bytes.extend(name("l"));
    bytes.push(9);
    bytes.extend([0, 0, 0, 2]);
    bytes.push(1);
    bytes.extend([0, 0, 0, 1, 7]);
    bytes.push(10);
    bytes.extend([0, 0, 0, 1]);
    bytes.extend(end());
    bytes.extend(end());
    let entries = entries_of(Nbt::deserialize(&mut stream_of(&bytes)).unwrap());
    match &entries[0].1 {
        Nbt::List(outer) => {
            assert_eq!(outer.len(), 2);
            match &outer[0] {
                Nbt::List(inner) => assert!(matches!(inner[..], [Nbt::Byte(7)])),
                other => panic!("unexpected: {:?}", other),
            }
            match &outer[1] {
                Nbt::List(inner) => assert!(matches!(&inner[..], [Nbt::Compound(e)] if e.is_empty())),
                other => panic!("unexpected: {:?}", other),
            }
        },
        other => panic!("unexpected: {:?}", other),
    }
}

#[test]
fn a_tree_cut_short() {
    let mut bytes = vec![10];
    bytes.push(3);
    bytes.extend(name("int"));
    bytes.extend([0, 0, 1]);
    let mut stream = stream_of(&bytes);
    assert!(matches!(
        Nbt::deserialize(&mut stream),
        Err(DeserializeError::MalformedPacket(message)) if message == "Unexpected end of packet"
    ));
    assert_eq!(stream.remaining_size(), 0);
    assert_eq!(malformed(&[10]), "Unexpected end of packet");
    assert_eq!(malformed(&[10, 3]), "Unexpected end of packet");
    let mut channel = ByteChannel::new();
    channel.feed(&bytes);
    let mut stream = DataStream::new(channel, bytes.len() + 1);
    assert!(matches!(Nbt::deserialize(&mut stream), Err(DeserializeError::Io(_))));
}
