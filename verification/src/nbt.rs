//! The self-describing tree format that some packets carry in one field.

use crate::codec::{
    behind, decoded, done, ended, ended_error, failed, made, rest, Deserialize, DeserializeError,
    Failure, Outcome,
};
use crate::containers::{behind_items, deserialize_slice, repeat};
use crate::datatypes::{Double, Float};
use crate::primitives::be_value;
use crate::stream::{
    lemma_advance_twice, lemma_advance_window, lemma_advance_zero, DataStream, StreamView,
};
use std::string::FromUtf8Error;
use vstd::prelude::*;
use vstd::utf8::{decode_utf8, valid_utf8};

verus! {

/// Why a tree could not be decoded.
#[derive(Debug)]
pub enum NbtError {
    NegativeArrayLength(i32),
    NegativeListLength(i32),
    InvalidUTF8(FromUtf8Error),
    EndInList,
    SameName(String),
    UnknownType(u8),
    MalformedRoot,
}

/// What an [`NbtError`] stands for.
pub enum NbtFailure {
    NegativeArrayLength(i32),
    NegativeListLength(i32),
    InvalidUTF8,
    EndInList,
    SameName(Seq<char>),
    UnknownType(u8),
    MalformedRoot,
}

impl View for NbtError {
    type V = NbtFailure;

    open spec fn view(&self) -> NbtFailure {
        match self {
            NbtError::NegativeArrayLength(len) => NbtFailure::NegativeArrayLength(*len),
            NbtError::NegativeListLength(len) => NbtFailure::NegativeListLength(*len),
            NbtError::InvalidUTF8(_) => NbtFailure::InvalidUTF8,
            NbtError::EndInList => NbtFailure::EndInList,
            NbtError::SameName(name) => NbtFailure::SameName(name@),
            NbtError::UnknownType(id) => NbtFailure::UnknownType(*id),
            NbtError::MalformedRoot => NbtFailure::MalformedRoot,
        }
    }
}

/// A value of the tree format.
#[derive(Debug)]
pub enum Nbt {
    End,
    Byte(i8),
    Short(i16),
    Int(i32),
    Long(i64),
    Float(Float),
    Double(Double),
    ByteArray(Vec<u8>),
    String(String),
    List(Vec<Nbt>),
    /// The entries of a mapping, in the order in which they were read; no
    /// name occurs twice.
    Compound(Vec<(String, Nbt)>),
    IntArray(Vec<i32>),
    LongArray(Vec<i64>),
}

/// What an [`Nbt`] stands for. The entries of a mapping have no order.
pub enum NbtValue {
    End,
    Byte(i8),
    Short(i16),
    Int(i32),
    Long(i64),
    Float(Float),
    Double(Double),
    ByteArray(Seq<u8>),
    String(Seq<char>),
    List(Seq<NbtValue>),
    Compound(Map<Seq<char>, NbtValue>),
    IntArray(Seq<i32>),
    LongArray(Seq<i64>),
}

/// What the values of a list stand for, in order.
pub open spec fn list_values(items: Seq<Nbt>) -> Seq<NbtValue>
    decreases items,
{
    if items.len() == 0 {
        Seq::empty()
    } else {
        list_values(items.drop_last()).push(items.last().deep_view())
    }
}

/// What the entries of a mapping stand for; of two entries of one name the
/// later one counts.
pub open spec fn entry_values(entries: Seq<(String, Nbt)>) -> Map<Seq<char>, NbtValue>
    decreases entries,
{
    if entries.len() == 0 {
        Map::empty()
    } else {
        entry_values(entries.drop_last()).insert(
            entries.last().0@,
            entries.last().1.deep_view(),
        )
    }
}

impl DeepView for Nbt {
    type V = NbtValue;

    open spec fn deep_view(&self) -> NbtValue
        decreases self,
    {
        match self {
            Nbt::End => NbtValue::End,
            Nbt::Byte(v) => NbtValue::Byte(*v),
            Nbt::Short(v) => NbtValue::Short(*v),
            Nbt::Int(v) => NbtValue::Int(*v),
            Nbt::Long(v) => NbtValue::Long(*v),
            Nbt::Float(v) => NbtValue::Float(*v),
            Nbt::Double(v) => NbtValue::Double(*v),
            Nbt::ByteArray(v) => NbtValue::ByteArray(v@),
            Nbt::String(v) => NbtValue::String(v@),
            Nbt::List(items) => NbtValue::List(list_values(items@)),
            Nbt::Compound(entries) => NbtValue::Compound(entry_values(entries@)),
            Nbt::IntArray(v) => NbtValue::IntArray(v@),
            Nbt::LongArray(v) => NbtValue::LongArray(v@),
        }
    }
}

/// What reading a string gives: a length of 16 bits, then that many bytes of
/// UTF-8.
pub open spec fn string_outcome(window: Seq<u8>, short: bool) -> Outcome<Seq<char>> {
    let len = u16::parse(window, short);
    match len.result {
        Err(failure) => failed(failure, len.used),
        Ok(n) => {
            let body = rest(window, 2);
            if body.len() < n {
                failed(ended(short), window.len())
            } else if valid_utf8(body.take(n as int)) {
                done(decode_utf8(body.take(n as int)), (2 + n) as nat)
            } else {
                failed(Failure::Nbt(NbtFailure::InvalidUTF8), (2 + n) as nat)
            }
        },
    }
}

/// What reading an array gives: a count of 32 bits, which may not be below
/// zero, then that many values.
pub open spec fn array_outcome<T: Deserialize>(window: Seq<u8>, short: bool) -> Outcome<Seq<T::V>> {
    let len = i32::parse(window, short);
    match len.result {
        Err(failure) => failed(failure, len.used),
        Ok(n) => if n < 0 {
            failed(Failure::Nbt(NbtFailure::NegativeArrayLength(n)), len.used)
        } else {
            behind(len.used, repeat::<T>(rest(window, len.used), short, n as nat))
        },
    }
}

/// What reading the payload of a value of type `id` gives. A value of type 0
/// has no payload.
pub open spec fn payload_outcome(window: Seq<u8>, short: bool, id: u8) -> Outcome<NbtValue>
    decreases window.len(), 2nat, 0nat,
{
    if id == 0 {
        done(NbtValue::End, 0)
    } else if id == 1 {
        made(i8::parse(window, short), |v: i8| NbtValue::Byte(v))
    } else if id == 2 {
        made(i16::parse(window, short), |v: i16| NbtValue::Short(v))
    } else if id == 3 {
        made(i32::parse(window, short), |v: i32| NbtValue::Int(v))
    } else if id == 4 {
        made(i64::parse(window, short), |v: i64| NbtValue::Long(v))
    } else if id == 5 {
        made(Float::parse(window, short), |v: Float| NbtValue::Float(v))
    } else if id == 6 {
        made(Double::parse(window, short), |v: Double| NbtValue::Double(v))
    } else if id == 7 {
        made(array_outcome::<u8>(window, short), |v: Seq<u8>| NbtValue::ByteArray(v))
    } else if id == 8 {
        made(string_outcome(window, short), |v: Seq<char>| NbtValue::String(v))
    } else if id == 9 {
        made(list_outcome(window, short), |v: Seq<NbtValue>| NbtValue::List(v))
    } else if id == 10 {
        made(
            compound_outcome(window, short, Map::empty()),
            |v: Map<Seq<char>, NbtValue>| NbtValue::Compound(v),
        )
    } else if id == 11 {
        made(array_outcome::<i32>(window, short), |v: Seq<i32>| NbtValue::IntArray(v))
    } else if id == 12 {
        made(array_outcome::<i64>(window, short), |v: Seq<i64>| NbtValue::LongArray(v))
    } else {
        failed(Failure::Nbt(NbtFailure::UnknownType(id)), 0)
    }
}

/// What reading a list gives: the type that its values share, a count of 32
/// bits, then that many payloads of the type. The count may not be below
/// zero; an empty list may be of any type, a list with values not of type 0.
pub open spec fn list_outcome(window: Seq<u8>, short: bool) -> Outcome<Seq<NbtValue>>
    decreases window.len(), 1nat, 0nat,
{
    let id = u8::parse(window, short);
    match id.result {
        Err(failure) => failed(failure, id.used),
        Ok(type_id) => {
            let len = i32::parse(rest(window, 1), short);
            match len.result {
                Err(failure) => failed(failure, 1 + len.used),
                Ok(n) => if n < 0 {
                    failed(Failure::Nbt(NbtFailure::NegativeListLength(n)), 5)
                } else if n == 0 {
                    done(Seq::empty(), 5)
                } else if type_id == 0 {
                    failed(Failure::Nbt(NbtFailure::EndInList), 5)
                } else {
                    behind(5, items_outcome(rest(window, 5), short, type_id, n as nat))
                },
            }
        },
    }
}

/// What reading `count` payloads of type `id`, one behind the other, gives.
pub open spec fn items_outcome(
    window: Seq<u8>,
    short: bool,
    id: u8,
    count: nat,
) -> Outcome<Seq<NbtValue>>
    decreases window.len(), 3nat, count,
{
    if count == 0 {
        done(Seq::empty(), 0)
    } else {
        let first = payload_outcome(window, short, id);
        match first.result {
            Err(failure) => failed(failure, first.used),
            Ok(value) => {
                let more = items_outcome(
                    rest(window, first.used),
                    short,
                    id,
                    (count - 1) as nat,
                );
                match more.result {
                    Err(failure) => failed(failure, first.used + more.used),
                    Ok(values) => done(seq![value] + values, first.used + more.used),
                }
            },
        }
    }
}

/// What reading one entry of a mapping gives: its type, its name, and the
/// payload of the type. (The type that ends a mapping begins no entry: see
/// [`compound_outcome`].)
pub open spec fn entry_outcome(window: Seq<u8>, short: bool) -> Outcome<
    (u8, Seq<char>, NbtValue),
>
    decreases window.len(), 0nat, 0nat,
{
    let id = u8::parse(window, short);
    let name = string_outcome(rest(window, 1), short);
    match (id.result, name.result) {
        (Err(failure), _) => failed(failure, id.used),
        (Ok(_), Err(failure)) => failed(failure, 1 + name.used),
        (Ok(tag), Ok(key)) => {
            let value = payload_outcome(rest(window, 1 + name.used), short, tag);
            match value.result {
                Err(failure) => failed(failure, 1 + name.used + value.used),
                Ok(v) => done((tag, key, v), 1 + name.used + value.used),
            }
        },
    }
}

/// What reading the entries of a mapping behind the entries `seen` gives.
/// The type is read first. The type 0 ends the mapping: it is one byte, with
/// no name and no payload behind it, and it is not kept. Any other type
/// begins an entry, whose name and payload follow. A name that was seen
/// before is refused. (An entry that was read took at least the byte of its
/// type: the case that asks for it only shows that the definition ends.)
pub open spec fn compound_outcome(
    window: Seq<u8>,
    short: bool,
    seen: Map<Seq<char>, NbtValue>,
) -> Outcome<Map<Seq<char>, NbtValue>>
    decreases window.len(), 1nat, 0nat,
{
    let id = u8::parse(window, short);
    match id.result {
        Err(failure) => failed(failure, id.used),
        Ok(tag) => if tag == 0 {
            done(seen, 1)
        } else {
            let entry = entry_outcome(window, short);
            match entry.result {
                Err(failure) => failed(failure, entry.used),
                Ok((_, key, value)) => if seen.dom().contains(key) {
                    failed(Failure::Nbt(NbtFailure::SameName(key)), entry.used)
                } else if entry.used < 1 || window.len() < 1 {
                    failed(ended(short), 0)
                } else {
                    behind(
                        entry.used,
                        compound_outcome(
                            rest(window, entry.used),
                            short,
                            seen.insert(key, value),
                        ),
                    )
                },
            }
        },
    }
}

/// What reading a tree gives: the type of the root, which must be a mapping,
/// and behind it the mapping's entries.
pub open spec fn root_outcome(window: Seq<u8>, short: bool) -> Outcome<NbtValue> {
    let id = u8::parse(window, short);
    match id.result {
        Err(failure) => failed(failure, id.used),
        Ok(tag) => if tag != 10 {
            failed(Failure::Nbt(NbtFailure::MalformedRoot), 1)
        } else {
            behind(
                1,
                made(
                    compound_outcome(rest(window, 1), short, Map::empty()),
                    |v: Map<Seq<char>, NbtValue>| NbtValue::Compound(v),
                ),
            )
        },
    }
}

/// The type of a mapping and the type 0 behind it are an empty mapping,
/// read from just those two bytes, whatever follows them.
pub proof fn lemma_empty_mapping(behind: Seq<u8>, short: bool)
    ensures
        root_outcome(seq![10u8, 0u8] + behind, short) == done(
            NbtValue::Compound(Map::empty()),
            2,
        ),
{
    let window = seq![10u8, 0u8] + behind;
    assert(window.take(1) =~= seq![10u8]);
    assert(rest(window, 1).take(1) =~= seq![0u8]);
    reveal_with_fuel(be_value, 2);
    assert(seq![10u8].drop_last() =~= Seq::<u8>::empty());
    assert(seq![0u8].drop_last() =~= Seq::<u8>::empty());
}

/// A mapping in which an entry has the name of the entry before it is
/// refused, whatever the two entries hold and whatever follows them.
pub proof fn lemma_same_name_rejected(window: Seq<u8>, short: bool)
    requires
        entry_outcome(window, short).result is Ok,
        entry_outcome(rest(window, entry_outcome(window, short).used), short).result is Ok,
        entry_outcome(window, short).result->Ok_0.0 != 0,
        entry_outcome(rest(window, entry_outcome(window, short).used), short).result->Ok_0.0
            != 0,
        entry_outcome(window, short).result->Ok_0.1 == entry_outcome(
            rest(window, entry_outcome(window, short).used),
            short,
        ).result->Ok_0.1,
    ensures
        compound_outcome(window, short, Map::empty()).result == Err::<
            Map<Seq<char>, NbtValue>,
            Failure,
        >(Failure::Nbt(NbtFailure::SameName(entry_outcome(window, short).result->Ok_0.1))),
{
    let first = entry_outcome(window, short);
    let (tag, key, value) = first.result->Ok_0;
    let behind_first = rest(window, first.used);
    let second = entry_outcome(behind_first, short);
    let seen = Map::<Seq<char>, NbtValue>::empty().insert(key, value);
    assert(seen.dom().contains(key));
    assert(compound_outcome(behind_first, short, seen).result == Err::<
        Map<Seq<char>, NbtValue>,
        Failure,
    >(Failure::Nbt(NbtFailure::SameName(key))));
}

/// A list that declares values of type 0 and a count above zero is refused,
/// whatever follows its head.
pub proof fn lemma_end_in_list_rejected(window: Seq<u8>, short: bool)
    requires
        u8::parse(window, short).result == Ok::<u8, Failure>(0),
        i32::parse(rest(window, 1), short).result is Ok,
        i32::parse(rest(window, 1), short).result->Ok_0 > 0,
    ensures
        list_outcome(window, short) == failed::<Seq<NbtValue>>(
            Failure::Nbt(NbtFailure::EndInList),
            5,
        ),
{
}

/// Whether the mappings of every value of `items` hold no name twice.
pub open spec fn all_well_formed(items: Seq<Nbt>) -> bool
    decreases items,
{
    if items.len() == 0 {
        true
    } else {
        all_well_formed(items.drop_last()) && items.last().wf()
    }
}

/// Whether the mappings of the value of every entry hold no name twice.
pub open spec fn values_well_formed(entries: Seq<(String, Nbt)>) -> bool
    decreases entries,
{
    if entries.len() == 0 {
        true
    } else {
        values_well_formed(entries.drop_last()) && entries.last().1.wf()
    }
}

impl Nbt {
    /// Whether no mapping of the tree holds a name twice.
    pub open spec fn wf(&self) -> bool
        decreases self,
    {
        match self {
            Nbt::List(items) => all_well_formed(items@),
            Nbt::Compound(entries) => distinct_names(entries@) && values_well_formed(entries@),
            _ => true,
        }
    }
}

/// Whether no two entries have one name.
pub open spec fn distinct_names(entries: Seq<(String, Nbt)>) -> bool {
    forall|i: int, j: int| 0 <= i < j < entries.len() ==> entries[i].0@ != entries[j].0@
}

/// The names that entries stand for are the names of the entries.
pub proof fn lemma_entry_names(entries: Seq<(String, Nbt)>, key: Seq<char>)
    ensures
        entry_values(entries).dom().contains(key) <==> exists|i: int|
            0 <= i < entries.len() && (#[trigger] entries[i]).0@ == key,
    decreases entries.len(),
{
    if entries.len() > 0 {
        let front = entries.drop_last();
        let last = entries.last();
        lemma_entry_names(front, key);
        assert(entry_values(entries) == entry_values(front).insert(last.0@, last.1.deep_view()));
        if entry_values(entries).dom().contains(key) {
            if last.0@ == key {
                assert(entries[entries.len() - 1].0@ == key);
            } else {
                assert(entry_values(front).dom().contains(key));
                let i = choose|i: int| 0 <= i < front.len() && (#[trigger] front[i]).0@ == key;
                assert(front[i] == entries[i]);
            }
        }
        if exists|i: int| 0 <= i < entries.len() && (#[trigger] entries[i]).0@ == key {
            let i = choose|i: int| 0 <= i < entries.len() && (#[trigger] entries[i]).0@ == key;
            if i < front.len() {
                assert(front[i] == entries[i]);
            }
        }
    }
}

/// Whether one of `entries` has the name `name`.
fn has_name(entries: &Vec<(String, Nbt)>, name: &String) -> (found: bool)
    ensures
        found == entry_values(entries@).dom().contains(name@),
{
    let mut i: usize = 0;
    while i < entries.len()
        invariant
            i <= entries@.len(),
            forall|j: int| 0 <= j < i ==> (#[trigger] entries@[j]).0@ != name@,
        decreases entries@.len() - i,
    {
        if entries[i].0 == *name {
            proof {
                lemma_entry_names(entries@, name@);
                assert(entries@[i as int].0@ == name@);
            }
            return true;
        }
        i = i + 1;
    }
    proof {
        lemma_entry_names(entries@, name@);
    }
    false
}

impl Nbt {
    /// Reads the payload of a value of type `id`.
    fn deserialize_by_id(stream: &mut DataStream, id: u8) -> (result: Result<
        Nbt,
        DeserializeError,
    >)
        ensures
            decoded(
                old(stream)@,
                final(stream)@,
                result,
                payload_outcome(old(stream)@.window(), old(stream)@.short(), id),
            ),
            result matches Ok(value) ==> value.wf(),
        decreases old(stream)@.window().len(), 2nat,
    {
        broadcast use lemma_advance_zero;

        let value = match id {
            0 => Nbt::End,
            1 => Nbt::Byte(i8::deserialize(stream)?),
            2 => Nbt::Short(i16::deserialize(stream)?),
            3 => Nbt::Int(i32::deserialize(stream)?),
            4 => Nbt::Long(i64::deserialize(stream)?),
            5 => Nbt::Float(Float::deserialize(stream)?),
            6 => Nbt::Double(Double::deserialize(stream)?),
            7 => {
                let bytes: Vec<u8> = Nbt::deserialize_array(stream)?;
                assert(bytes.deep_view() =~= bytes@);
                Nbt::ByteArray(bytes)
            },
            8 => Nbt::String(Nbt::deserialize_string(stream)?),
            9 => Nbt::List(Nbt::deserialize_list(stream)?),
            10 => Nbt::Compound(Nbt::deserialize_compound(stream)?),
            11 => {
                let ints: Vec<i32> = Nbt::deserialize_array(stream)?;
                assert(ints.deep_view() =~= ints@);
                Nbt::IntArray(ints)
            },
            12 => {
                let longs: Vec<i64> = Nbt::deserialize_array(stream)?;
                assert(longs.deep_view() =~= longs@);
                Nbt::LongArray(longs)
            },
            _ => {
                return Err(DeserializeError::Nbt(NbtError::UnknownType(id)));
            },
        };
        Ok(value)
    }

    /// Reads an array: a count of 32 bits, then that many values.
    fn deserialize_array<T: Deserialize>(stream: &mut DataStream) -> (result: Result<
        Vec<T>,
        DeserializeError,
    >)
        ensures
            decoded(
                old(stream)@,
                final(stream)@,
                result,
                array_outcome::<T>(old(stream)@.window(), old(stream)@.short()),
            ),
    {
        let ghost start = stream@;
        let ghost len_ = i32::parse(start.window(), start.short());
        let len = i32::deserialize(stream)?;
        if len < 0 {
            return Err(DeserializeError::Nbt(NbtError::NegativeArrayLength(len)));
        }
        proof {
            lemma_advance_window(start, len_.used);
        }
        let ghost items = repeat::<T>(stream@.window(), stream@.short(), len as nat);
        let result = deserialize_slice(stream, len as usize);
        proof {
            lemma_advance_twice(start, len_.used, items.used);
        }
        result
    }

    /// Reads a string: a length of 16 bits, then that many bytes of UTF-8.
    fn deserialize_string(stream: &mut DataStream) -> (result: Result<String, DeserializeError>)
        ensures
            decoded(
                old(stream)@,
                final(stream)@,
                result,
                string_outcome(old(stream)@.window(), old(stream)@.short()),
            ),
    {
        let ghost start = stream@;
        let len = u16::deserialize(stream)?;
        proof {
            lemma_advance_window(start, 2);
        }
        let data = match stream.read_exact(len as usize) {
            Ok(data) => data,
            Err(error) => {
                proof {
                    lemma_advance_twice(start, 2, (start.window().len() - 2) as nat);
                    lemma_advance_window(start, start.window().len());
                }
                return Err(ended_error(stream, error));
            },
        };
        proof {
            lemma_advance_twice(start, 2, len as nat);
        }
        match String::from_utf8(data) {
            Ok(text) => Ok(text),
            Err(error) => Err(DeserializeError::Nbt(NbtError::InvalidUTF8(error))),
        }
    }

    /// Reads a list: the type of its values, their count, and the values.
    #[verifier::rlimit(40)]
    fn deserialize_list(stream: &mut DataStream) -> (result: Result<Vec<Nbt>, DeserializeError>)
        ensures
            ({
                let expected = list_outcome(old(stream)@.window(), old(stream)@.short());
                &&& expected.used <= old(stream)@.window().len()
                &&& final(stream)@ == old(stream)@.advance(expected.used)
                &&& match result {
                    Ok(items) => expected.result == Ok::<Seq<NbtValue>, Failure>(
                        list_values(items@),
                    ) && all_well_formed(items@),
                    Err(error) => expected.result == Err::<Seq<NbtValue>, Failure>(error@),
                }
            }),
        decreases old(stream)@.window().len(), 1nat,
    {
        broadcast use lemma_advance_zero;

        let ghost start = stream@;
        let ghost window = start.window();
        let ghost short = start.short();
        let type_id = u8::deserialize(stream)?;
        proof {
            lemma_advance_window(start, 1);
        }
        let ghost len_ = i32::parse(rest(window, 1), short);
        let len = i32::deserialize(stream);
        proof {
            lemma_advance_twice(start, 1, len_.used);
        }
        let len = len?;
        if len < 0 {
            return Err(DeserializeError::Nbt(NbtError::NegativeListLength(len)));
        }
        if len == 0 {
            return Ok(Vec::new());
        }
        if type_id == 0 {
            return Err(DeserializeError::Nbt(NbtError::EndInList));
        }
        let ghost body = rest(window, 5);
        let ghost after_head = stream@;
        proof {
            lemma_advance_window(start, 5);
            assert(body.skip(0) =~= body);
        }
        let mut data: Vec<Nbt> = Vec::new();
        let ghost mut used: nat = 0;
        let mut i: i32 = 0;
        while i < len
            invariant
                0 <= i <= len,
                type_id != 0,
                5 <= window.len(),
                window == old(stream)@.window(),
                short == old(stream)@.short(),
                body == rest(window, 5),
                after_head == old(stream)@.advance(5),
                after_head.window() == body,
                after_head.short() == short,
                used <= body.len(),
                stream@ == after_head.advance(used),
                all_well_formed(data@),
                list_outcome(window, short) == behind(
                    5,
                    items_outcome(body, short, type_id, len as nat),
                ),
                items_outcome(body, short, type_id, len as nat) == behind_items(
                    list_values(data@),
                    used,
                    items_outcome(rest(body, used), short, type_id, (len - i) as nat),
                ),
            decreases len - i,
        {
            proof {
                lemma_advance_window(after_head, used);
            }
            let ghost here = payload_outcome(rest(body, used), short, type_id);
            let ghost before = list_values(data@);
            let ghost items_before = data@;
            let item = Nbt::deserialize_by_id(stream, type_id);
            proof {
                lemma_advance_twice(after_head, used, here.used);
                lemma_advance_twice(old(stream)@, 5, used + here.used);
            }
            let item = item?;
            data.push(item);
            proof {
                assert(data@.drop_last() =~= items_before);
                assert(rest(rest(body, used), here.used) =~= rest(body, used + here.used));
                let more = items_outcome(
                    rest(body, used + here.used),
                    short,
                    type_id,
                    (len - i - 1) as nat,
                );
                if more.result is Ok {
                    assert(before + (seq![item.deep_view()] + more.result->Ok_0)
                        =~= list_values(data@) + more.result->Ok_0);
                }
                used = used + here.used;
            }
            i = i + 1;
        }
        proof {
            lemma_advance_twice(old(stream)@, 5, used);
            assert(list_values(data@) + Seq::<NbtValue>::empty() =~= list_values(data@));
        }
        Ok(data)
    }

    /// Reads what follows the type `id` of an entry of a mapping that begins
    /// at `at`: the entry's name and its payload.
    fn deserialize_entry(stream: &mut DataStream, id: u8, Ghost(at): Ghost<StreamView>) -> (result:
        Result<(String, Nbt), DeserializeError>)
        requires
            u8::parse(at.window(), at.short()) == done(id, 1),
            1 <= at.window().len(),
            old(stream)@ == at.advance(1),
        ensures
            ({
                let expected = entry_outcome(at.window(), at.short());
                &&& 1 <= expected.used <= at.window().len()
                &&& final(stream)@ == at.advance(expected.used)
                &&& match result {
                    Ok((name, value)) => expected.result == Ok::<
                        (u8, Seq<char>, NbtValue),
                        Failure,
                    >((id, name@, value.deep_view())) && value.wf(),
                    Err(error) => expected.result == Err::<(u8, Seq<char>, NbtValue), Failure>(
                        error@,
                    ),
                }
            }),
        decreases old(stream)@.window().len(), 0nat,
    {
        let ghost window = at.window();
        let ghost short = at.short();
        proof {
            lemma_advance_window(at, 1);
        }
        let ghost name_ = string_outcome(rest(window, 1), short);
        let name = Nbt::deserialize_string(stream);
        proof {
            lemma_advance_twice(at, 1, name_.used);
        }
        let name = name?;
        proof {
            lemma_advance_window(at, 1 + name_.used);
        }
        let ghost value_ = payload_outcome(rest(window, 1 + name_.used), short, id);
        let value = Nbt::deserialize_by_id(stream, id);
        proof {
            lemma_advance_twice(at, 1 + name_.used, value_.used);
        }
        Ok((name, value?))
    }

    /// Reads the entries of a mapping, up to and with the type 0 that ends
    /// it.
    fn deserialize_compound(stream: &mut DataStream) -> (result: Result<
        Vec<(String, Nbt)>,
        DeserializeError,
    >)
        ensures
            ({
                let expected = compound_outcome(
                    old(stream)@.window(),
                    old(stream)@.short(),
                    Map::empty(),
                );
                &&& expected.used <= old(stream)@.window().len()
                &&& final(stream)@ == old(stream)@.advance(expected.used)
                &&& match result {
                    Ok(entries) => expected.result == Ok::<Map<Seq<char>, NbtValue>, Failure>(
                        entry_values(entries@),
                    ) && distinct_names(entries@) && values_well_formed(entries@),
                    Err(error) => expected.result == Err::<Map<Seq<char>, NbtValue>, Failure>(
                        error@,
                    ),
                }
            }),
        decreases old(stream)@.window().len(), 1nat,
    {
        broadcast use lemma_advance_zero;

        let ghost start = stream@;
        let ghost window = start.window();
        let ghost short = start.short();
        let mut data: Vec<(String, Nbt)> = Vec::new();
        let ghost mut used: nat = 0;
        assert(rest(window, 0) =~= window);
        loop
            invariant
                start == old(stream)@,
                window == start.window(),
                short == start.short(),
                used <= window.len(),
                stream@ == start.advance(used),
                distinct_names(data@),
                values_well_formed(data@),
                compound_outcome(window, short, Map::empty()) == behind(
                    used,
                    compound_outcome(rest(window, used), short, entry_values(data@)),
                ),
            decreases window.len() - used,
        {
            let ghost here = rest(window, used);
            let ghost entry_ = entry_outcome(here, short);
            let ghost at = stream@;
            proof {
                lemma_advance_window(start, used);
            }
            let id = u8::deserialize(stream);
            proof {
                lemma_advance_twice(start, used, u8::parse(here, short).used);
            }
            let id = id?;
            if id == 0 {
                return Ok(data);
            }
            let entry = Nbt::deserialize_entry(stream, id, Ghost(at));
            proof {
                lemma_advance_twice(start, used, entry_.used);
            }
            let (name, value) = entry?;
            if has_name(&data, &name) {
                return Err(DeserializeError::Nbt(NbtError::SameName(name)));
            }
            proof {
                lemma_entry_names(data@, name@);
            }
            let ghost before = data@;
            data.push((name, value));
            proof {
                assert(data@.drop_last() =~= before);
                assert(rest(here, entry_.used) =~= rest(window, used + entry_.used));
                used = used + entry_.used;
            }
        }
    }
}

impl Deserialize for Nbt {
    open spec fn parse(window: Seq<u8>, short: bool) -> Outcome<NbtValue> {
        root_outcome(window, short)
    }

    fn deserialize(stream: &mut DataStream) -> (result: Result<Self, DeserializeError>)
        ensures
            result matches Ok(tree) ==> tree.wf(),
    {
        let ghost start = stream@;
        let id = u8::deserialize(stream)?;
        if id != 10 {
            return Err(DeserializeError::Nbt(NbtError::MalformedRoot));
        }
        proof {
            lemma_advance_window(start, 1);
        }
        let ghost entries = compound_outcome(stream@.window(), stream@.short(), Map::empty());
        let root = Nbt::deserialize_compound(stream);
        proof {
            lemma_advance_twice(start, 1, entries.used);
        }
        Ok(Nbt::Compound(root?))
    }
}

} // verus!
