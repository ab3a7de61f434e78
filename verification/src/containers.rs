//! Optional values, pairs, boxes and counted sequences of values that have a
//! form on the wire.

use crate::codec::{
    RoundTrip, add_sizes, behind, decoded, done, failed, malformed, pair, Deserialize,
    DeserializeError, Failure, Outcome, Serialize,
};
use crate::stream::{lemma_advance_twice, lemma_advance_window, lemma_advance_zero, DataStream};
use crate::varint::{lemma_var_int_round_trip, VarInt};
use vstd::prelude::*;

verus! {

/// The bytes of the values of `items`, one behind the other.
pub open spec fn wire_all<T: Serialize>(items: Seq<T>) -> Seq<u8>
    decreases items.len(),
{
    if items.len() == 0 {
        Seq::empty()
    } else {
        wire_all(items.drop_last()) + items.last().wire()
    }
}

/// Whether the format can express every value of `items`.
pub open spec fn all_encodable<T: Serialize>(items: Seq<T>) -> bool {
    forall|i: int| 0 <= i < items.len() ==> (#[trigger] items[i]).encodable()
}

/// What reading `count` values, one behind the other, gives: all of them, or
/// the first failure.
pub open spec fn repeat<T: Deserialize>(window: Seq<u8>, short: bool, count: nat) -> Outcome<
    Seq<T::V>,
>
    decreases count,
{
    if count == 0 {
        done(Seq::empty(), 0)
    } else {
        let first = T::parse(window, short);
        match first.result {
            Err(failure) => failed(failure, first.used),
            Ok(value) => {
                let rest = repeat::<T>(window.skip(first.used as int), short, (count - 1) as nat);
                match rest.result {
                    Err(failure) => failed(failure, first.used + rest.used),
                    Ok(values) => done(seq![value] + values, first.used + rest.used),
                }
            },
        }
    }
}

/// The outcome `rest` of reading the values behind `items`, which took
/// `used` bytes, seen from the front of the sequence.
pub open spec fn behind_items<V>(items: Seq<V>, used: nat, rest: Outcome<Seq<V>>) -> Outcome<
    Seq<V>,
> {
    match rest.result {
        Err(failure) => failed(failure, used + rest.used),
        Ok(values) => done(items + values, used + rest.used),
    }
}

/// The message of a sequence whose count is below zero.
pub open spec fn negative_count_message() -> Seq<char> {
    "Negative sequence length"@
}

/// The bytes of a prefix of a sequence are no more than those of the whole.
pub proof fn lemma_wire_all_prefix<T: Serialize>(items: Seq<T>, count: int)
    requires
        0 <= count <= items.len(),
    ensures
        wire_all(items.take(count)).len() <= wire_all(items).len(),
        count < items.len() ==> wire_all(items.take(count + 1)) == wire_all(items.take(count))
            + items[count].wire(),
    decreases items.len() - count,
{
    if count < items.len() {
        assert(items.take(count + 1).drop_last() =~= items.take(count));
        lemma_wire_all_prefix(items, count + 1);
    } else {
        assert(items.take(count) =~= items);
    }
}

/// Reads `length` values, one behind the other.
pub fn deserialize_slice<T: Deserialize>(stream: &mut DataStream, length: usize) -> (result:
    Result<Vec<T>, DeserializeError>)
    ensures
        decoded(
            old(stream)@,
            final(stream)@,
            result,
            repeat::<T>(old(stream)@.window(), old(stream)@.short(), length as nat),
        ),
        result matches Ok(items) ==> items@.len() == length,
{
    broadcast use lemma_advance_zero;

    let ghost window = old(stream)@.window();
    let ghost short = old(stream)@.short();
    let ghost mut used: nat = 0;
    let mut data: Vec<T> = Vec::new();
    assert(window.skip(0) =~= window);
    assert(Seq::<T::V>::empty() + repeat::<T>(window, short, length as nat).result->Ok_0
        =~= repeat::<T>(window, short, length as nat).result->Ok_0);
    let mut i: usize = 0;
    while i < length
        invariant
            i <= length,
            window == old(stream)@.window(),
            short == old(stream)@.short(),
            used <= window.len(),
            stream@ == old(stream)@.advance(used),
            data@.len() == i,
            repeat::<T>(window, short, length as nat) == behind_items(
                data.deep_view(),
                used,
                repeat::<T>(window.skip(used as int), short, (length - i) as nat),
            ),
        decreases length - i,
    {
        proof {
            lemma_advance_window(old(stream)@, used);
        }
        let ghost here = T::parse(window.skip(used as int), short);
        let ghost items = data.deep_view();
        let value = match T::deserialize(stream) {
            Ok(value) => value,
            Err(error) => {
                proof {
                    lemma_advance_twice(old(stream)@, used, here.used);
                }
                return Err(error);
            },
        };
        data.push(value);
        proof {
            lemma_advance_twice(old(stream)@, used, here.used);
            assert(window.skip(used as int).skip(here.used as int) =~= window.skip(
                (used + here.used) as int,
            ));
            assert(data.deep_view() =~= items.push(value.deep_view()));
            let rest = repeat::<T>(
                window.skip((used + here.used) as int),
                short,
                (length - i - 1) as nat,
            );
            if rest.result is Ok {
                assert(items + (seq![value.deep_view()] + rest.result->Ok_0) =~= items.push(
                    value.deep_view(),
                ) + rest.result->Ok_0);
            }
            used = used + here.used;
        }
        i = i + 1;
    }
    assert(data.deep_view() + Seq::<T::V>::empty() =~= data.deep_view());
    Ok(data)
}

/// The size of the values of `items` together.
pub(crate) fn size_of_all<T: Serialize>(items: &[T]) -> (size: usize)
    requires
        all_encodable(items@),
        wire_all(items@).len() <= usize::MAX,
    ensures
        size == wire_all(items@).len(),
{
    let mut total: usize = 0;
    let mut i: usize = 0;
    while i < items.len()
        invariant
            i <= items@.len(),
            all_encodable(items@),
            wire_all(items@).len() <= usize::MAX,
            total == wire_all(items@.take(i as int)).len(),
        decreases items@.len() - i,
    {
        proof {
            lemma_wire_all_prefix(items@, i as int);
            lemma_wire_all_prefix(items@, i + 1);
        }
        total = total + items[i].size();
        i = i + 1;
    }
    assert(items@.take(i as int) =~= items@);
    total
}

/// The size of the values of `items` together, where the format can
/// express them all and the size fits.
pub(crate) fn checked_size_of_all<T: Serialize>(items: &[T]) -> (size: Option<usize>)
    ensures
        match size {
            Some(n) => all_encodable(items@) && n == wire_all(items@).len(),
            None => !all_encodable(items@) || wire_all(items@).len() > usize::MAX,
        },
{
    let mut total: Option<usize> = Some(0);
    let mut i: usize = 0;
    while i < items.len()
        invariant
            i <= items@.len(),
            match total {
                Some(n) => n == wire_all(items@.take(i as int)).len() && all_encodable(
                    items@.take(i as int),
                ),
                None => !all_encodable(items@) || wire_all(items@).len() > usize::MAX,
            },
        decreases items@.len() - i,
    {
        proof {
            lemma_wire_all_prefix(items@, i as int);
            lemma_wire_all_prefix(items@, i + 1);
        }
        let ghost before = total;
        total = add_sizes(total, items[i].checked_size());
        proof {
            if total is Some {
                assert forall|j: int| 0 <= j < i + 1 implies (#[trigger] items@.take(
                    i + 1,
                )[j]).encodable() by {
                    if j < i {
                        assert(items@.take(i as int)[j].encodable());
                    }
                }
            } else if before is Some {
                if !items@[i as int].encodable() {
                    assert(!all_encodable(items@));
                }
            }
        }
        i = i + 1;
    }
    assert(items@.take(i as int) =~= items@);
    total
}

/// Appends the bytes of the values of `items`, one behind the other.
pub(crate) fn serialize_all<T: Serialize>(items: &[T], stream: &mut Vec<u8>)
    requires
        all_encodable(items@),
    ensures
        final(stream)@ == old(stream)@ + wire_all(items@),
{
    let mut i: usize = 0;
    assert(items@.take(0) =~= Seq::<T>::empty());
    while i < items.len()
        invariant
            i <= items@.len(),
            all_encodable(items@),
            stream@ == old(stream)@ + wire_all(items@.take(i as int)),
        decreases items@.len() - i,
    {
        proof {
            lemma_wire_all_prefix(items@, i as int);
        }
        items[i].serialize(stream);
        assert(stream@ =~= old(stream)@ + wire_all(items@.take(i + 1)));
        i = i + 1;
    }
    assert(items@.take(i as int) =~= items@);
}

impl<T: Serialize> Serialize for Vec<T> {
    open spec fn wire(&self) -> Seq<u8> {
        VarInt(self@.len() as i32).wire() + wire_all(self@)
    }

    open spec fn encodable(&self) -> bool {
        self@.len() <= i32::MAX && all_encodable(self@)
    }

    fn size(&self) -> (size: usize) {
        VarInt(self.len() as i32).size() + size_of_all(self.as_slice())
    }

    fn checked_size(&self) -> (size: Option<usize>) {
        if self.len() > 0x7FFF_FFFF {
            return None;
        }
        add_sizes(VarInt(self.len() as i32).checked_size(), checked_size_of_all(self.as_slice()))
    }

    fn serialize(&self, stream: &mut Vec<u8>) {
        VarInt(self.len() as i32).serialize(stream);
        serialize_all(self.as_slice(), stream);
        assert(stream@ =~= old(stream)@ + self.wire());
    }
}

impl<T: Deserialize> Deserialize for Vec<T> {
    open spec fn parse(window: Seq<u8>, short: bool) -> Outcome<Seq<T::V>> {
        let count = VarInt::parse(window, short);
        match count.result {
            Err(failure) => failed(failure, count.used),
            Ok(VarInt(n)) => if n < 0 {
                failed(Failure::Malformed(negative_count_message()), count.used)
            } else {
                behind(count.used, repeat::<T>(window.skip(count.used as int), short, n as nat))
            },
        }
    }

    fn deserialize(stream: &mut DataStream) -> (result: Result<Self, DeserializeError>) {
        let ghost count = VarInt::parse(old(stream)@.window(), old(stream)@.short());
        let n = VarInt::deserialize(stream)?.0;
        if n < 0 {
            return Err(malformed("Negative sequence length"));
        }
        proof {
            lemma_advance_window(old(stream)@, count.used);
        }
        let ghost rest = repeat::<T>(stream@.window(), stream@.short(), n as nat);
        let result = deserialize_slice(stream, n as usize);
        proof {
            lemma_advance_twice(old(stream)@, count.used, rest.used);
        }
        result
    }
}

impl<T: Serialize> Serialize for Option<T> {
    open spec fn wire(&self) -> Seq<u8> {
        match self {
            Some(value) => seq![1u8] + value.wire(),
            None => seq![0u8],
        }
    }

    open spec fn encodable(&self) -> bool {
        match self {
            Some(value) => value.encodable(),
            None => true,
        }
    }

    fn size(&self) -> (size: usize) {
        match self {
            Some(value) => 1 + value.size(),
            None => 1,
        }
    }

    fn checked_size(&self) -> (size: Option<usize>) {
        match self {
            Some(value) => add_sizes(Some(1), value.checked_size()),
            None => Some(1),
        }
    }

    fn serialize(&self, stream: &mut Vec<u8>) {
        self.is_some().serialize(stream);
        if let Some(value) = self {
            value.serialize(stream);
        }
        assert(stream@ =~= old(stream)@ + self.wire());
    }
}

impl<T: Deserialize> Deserialize for Option<T> {
    open spec fn parse(window: Seq<u8>, short: bool) -> Outcome<Option<T::V>> {
        let flag = bool::parse(window, short);
        match flag.result {
            Err(failure) => failed(failure, flag.used),
            Ok(false) => done(None, flag.used),
            Ok(true) => {
                let value = T::parse(window.skip(flag.used as int), short);
                match value.result {
                    Err(failure) => failed(failure, flag.used + value.used),
                    Ok(v) => done(Some(v), flag.used + value.used),
                }
            },
        }
    }

    fn deserialize(stream: &mut DataStream) -> (result: Result<Self, DeserializeError>) {
        let ghost flag = bool::parse(old(stream)@.window(), old(stream)@.short());
        let is_some = bool::deserialize(stream)?;
        if is_some {
            proof {
                lemma_advance_window(old(stream)@, flag.used);
            }
            let ghost value = T::parse(stream@.window(), stream@.short());
            let result = T::deserialize(stream);
            proof {
                lemma_advance_twice(old(stream)@, flag.used, value.used);
            }
            Ok(Some(result?))
        } else {
            Ok(None)
        }
    }
}

impl<U: Serialize, V: Serialize> Serialize for (U, V) {
    open spec fn wire(&self) -> Seq<u8> {
        self.0.wire() + self.1.wire()
    }

    open spec fn encodable(&self) -> bool {
        self.0.encodable() && self.1.encodable()
    }

    fn size(&self) -> (size: usize) {
        self.0.size() + self.1.size()
    }

    fn checked_size(&self) -> (size: Option<usize>) {
        add_sizes(self.0.checked_size(), self.1.checked_size())
    }

    fn serialize(&self, stream: &mut Vec<u8>) {
        self.0.serialize(stream);
        self.1.serialize(stream);
        assert(stream@ =~= old(stream)@ + self.wire());
    }
}

impl<U: Deserialize, V: Deserialize> Deserialize for (U, V) {
    open spec fn parse(window: Seq<u8>, short: bool) -> Outcome<(U::V, V::V)> {
        let first = U::parse(window, short);
        pair(first, V::parse(window.skip(first.used as int), short))
    }

    fn deserialize(stream: &mut DataStream) -> (result: Result<Self, DeserializeError>) {
        let ghost first = U::parse(old(stream)@.window(), old(stream)@.short());
        let u = U::deserialize(stream)?;
        proof {
            lemma_advance_window(old(stream)@, first.used);
        }
        let ghost second = V::parse(stream@.window(), stream@.short());
        let result = V::deserialize(stream);
        proof {
            lemma_advance_twice(old(stream)@, first.used, second.used);
        }
        Ok((u, result?))
    }
}

impl<T: Serialize> Serialize for Box<T> {
    open spec fn wire(&self) -> Seq<u8> {
        (**self).wire()
    }

    open spec fn encodable(&self) -> bool {
        (**self).encodable()
    }

    fn size(&self) -> (size: usize) {
        (**self).size()
    }

    fn checked_size(&self) -> (size: Option<usize>) {
        (**self).checked_size()
    }

    fn serialize(&self, stream: &mut Vec<u8>) {
        (**self).serialize(stream)
    }
}

impl<T: Deserialize> Deserialize for Box<T> {
    open spec fn parse(window: Seq<u8>, short: bool) -> Outcome<T::V> {
        T::parse(window, short)
    }

    fn deserialize(stream: &mut DataStream) -> (result: Result<Self, DeserializeError>) {
        let inner = T::deserialize(stream)?;
        Ok(Box::new(inner))
    }
}

/// The bytes of a value before other values stand before theirs.
pub proof fn lemma_wire_all_front<T: Serialize>(first: T, others: Seq<T>)
    ensures
        wire_all(seq![first] + others) == first.wire() + wire_all(others),
    decreases others.len(),
{
    let all = seq![first] + others;
    if others.len() == 0 {
        assert(all.drop_last() =~= Seq::<T>::empty());
        assert(all.last() == first);
        assert(wire_all(all.drop_last()) =~= Seq::<u8>::empty());
        assert(wire_all(all) =~= first.wire() + wire_all(others));
    } else {
        lemma_wire_all_front(first, others.drop_last());
        assert(all.drop_last() =~= seq![first] + others.drop_last());
        assert(all.last() == others.last());
        assert(wire_all(all) =~= first.wire() + wire_all(others));
    }
}

/// Whether every value of `items` is one that the reader takes.
pub open spec fn all_readable<T: RoundTrip>(items: Seq<T>) -> bool {
    forall|i: int| 0 <= i < items.len() ==> (#[trigger] items[i]).readable()
}

/// What the values of `items` stand for, in order.
pub open spec fn views<T: DeepView>(items: Seq<T>) -> Seq<T::V> {
    Seq::new(items.len(), |i: int| items[i].deep_view())
}

/// Reading as many values as `items` has from their bytes, whatever follows
/// them, gives the values back from just those bytes.
pub proof fn lemma_repeat_round_trip<T: RoundTrip>(items: Seq<T>, rest: Seq<u8>, short: bool)
    requires
        all_encodable(items),
        all_readable(items),
    ensures
        repeat::<T>(wire_all(items) + rest, short, items.len()) == done(
            views(items),
            wire_all(items).len(),
        ),
    decreases items.len(),
{
    if items.len() == 0 {
        assert(views(items) =~= Seq::<T::V>::empty());
    } else {
        let first = items[0];
        let others = items.drop_first();
        assert(items =~= seq![first] + others);
        lemma_wire_all_front(first, others);
        let window = wire_all(items) + rest;
        assert(window =~= first.wire() + (wire_all(others) + rest));
        first.lemma_round_trip(wire_all(others) + rest, short);
        assert(window.skip(first.wire().len() as int) =~= wire_all(others) + rest);
        lemma_repeat_round_trip(others, rest, short);
        assert(seq![first.deep_view()] + views(others) =~= views(items));
    }
}

impl<T: RoundTrip> RoundTrip for Vec<T> {
    open spec fn readable(&self) -> bool {
        all_readable(self@)
    }

    proof fn lemma_round_trip(&self, rest: Seq<u8>, short: bool) {
        let count = VarInt(self@.len() as i32);
        let window = self.wire() + rest;
        lemma_var_int_round_trip(count, wire_all(self@) + rest, short);
        assert(window =~= count.wire() + (wire_all(self@) + rest));
        assert(window.skip(count.wire().len() as int) =~= wire_all(self@) + rest);
        lemma_repeat_round_trip(self@, rest, short);
        assert(views(self@) =~= self.deep_view());
    }
}

impl<T: RoundTrip> RoundTrip for Option<T> {
    open spec fn readable(&self) -> bool {
        match self {
            Some(value) => value.readable(),
            None => true,
        }
    }

    proof fn lemma_round_trip(&self, rest: Seq<u8>, short: bool) {
        let window = self.wire() + rest;
        match self {
            Some(value) => {
                assert(window =~= seq![1u8] + (value.wire() + rest));
                assert(window.skip(1) =~= value.wire() + rest);
                value.lemma_round_trip(rest, short);
            },
            None => {
                assert(window[0] == 0);
            },
        }
    }
}

impl<U: RoundTrip, V: RoundTrip> RoundTrip for (U, V) {
    open spec fn readable(&self) -> bool {
        self.0.readable() && self.1.readable()
    }

    proof fn lemma_round_trip(&self, rest: Seq<u8>, short: bool) {
        let window = self.wire() + rest;
        assert(window =~= self.0.wire() + (self.1.wire() + rest));
        self.0.lemma_round_trip(self.1.wire() + rest, short);
        assert(window.skip(self.0.wire().len() as int) =~= self.1.wire() + rest);
        self.1.lemma_round_trip(rest, short);
    }
}

impl<T: RoundTrip> RoundTrip for Box<T> {
    open spec fn readable(&self) -> bool {
        (**self).readable()
    }

    proof fn lemma_round_trip(&self, rest: Seq<u8>, short: bool) {
        (**self).lemma_round_trip(rest, short);
    }
}

} // verus!
