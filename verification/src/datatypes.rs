//! Wire types that belong to no single packet.

use crate::codec::{
    add_sizes, begin, behind, done, ended, failed, field, finish, made, step, Deserialize,
    DeserializeError, Failure, Outcome, RoundTrip, Serialize,
};
use crate::containers::{
    behind_items, checked_size_of_all, deserialize_slice, repeat, serialize_all, size_of_all,
    wire_all, all_encodable,
};
use crate::types::Vec3i;
use crate::varint::{bits64, lemma_var_scan_bounds, VarInt, VarLong};
use crate::primitives::{
    lemma_fixed_round_trip, be_bytes, fixed_outcome, lemma_be_bytes_len, lemma_byte_weight_values,
    read_be, write_be,
};
use crate::stream::{lemma_advance_twice, lemma_advance_window, lemma_advance_zero, DataStream};
use vstd::prelude::*;

verus! {

/// A single-precision number of IEEE 754, held as its 32 bits.
#[derive(Debug, Clone, Copy, PartialEq, Eq, Structural, Default)]
pub struct Float(pub u32);

/// A double-precision number of IEEE 754, held as its 64 bits.
#[derive(Debug, Clone, Copy, PartialEq, Eq, Structural, Default)]
pub struct Double(pub u64);

impl DeepView for Float {
    type V = Float;

    open spec fn deep_view(&self) -> Float {
        *self
    }
}

impl DeepView for Double {
    type V = Double;

    open spec fn deep_view(&self) -> Double {
        *self
    }
}

impl Serialize for Float {
    open spec fn wire(&self) -> Seq<u8> {
        be_bytes(self.0 as nat, 4)
    }

    open spec fn encodable(&self) -> bool {
        true
    }

    fn size(&self) -> (size: usize) {
        proof {
            lemma_be_bytes_len(self.0 as nat, 4);
        }
        4
    }

    fn checked_size(&self) -> (size: Option<usize>) {
        proof {
            lemma_be_bytes_len(self.0 as nat, 4);
        }
        Some(4)
    }

    fn serialize(&self, stream: &mut Vec<u8>) {
        write_be(self.0 as u128, 4, stream)
    }
}

impl Deserialize for Float {
    open spec fn parse(window: Seq<u8>, short: bool) -> Outcome<Float> {
        let fixed = fixed_outcome(window, short, 4);
        match fixed.result {
            Ok(n) => done(Float(n as u32), fixed.used),
            Err(failure) => failed(failure, fixed.used),
        }
    }

    fn deserialize(stream: &mut DataStream) -> (result: Result<Self, DeserializeError>) {
        proof {
            lemma_byte_weight_values();
        }
        let n = read_be(stream, 4)?;
        Ok(Float(n as u32))
    }
}

impl Serialize for Double {
    open spec fn wire(&self) -> Seq<u8> {
        be_bytes(self.0 as nat, 8)
    }

    open spec fn encodable(&self) -> bool {
        true
    }

    fn size(&self) -> (size: usize) {
        proof {
            lemma_be_bytes_len(self.0 as nat, 8);
        }
        8
    }

    fn checked_size(&self) -> (size: Option<usize>) {
        proof {
            lemma_be_bytes_len(self.0 as nat, 8);
        }
        Some(8)
    }

    fn serialize(&self, stream: &mut Vec<u8>) {
        write_be(self.0 as u128, 8, stream)
    }
}

impl Deserialize for Double {
    open spec fn parse(window: Seq<u8>, short: bool) -> Outcome<Double> {
        let fixed = fixed_outcome(window, short, 8);
        match fixed.result {
            Ok(n) => done(Double(n as u64), fixed.used),
            Err(failure) => failed(failure, fixed.used),
        }
    }

    fn deserialize(stream: &mut DataStream) -> (result: Result<Self, DeserializeError>) {
        proof {
            lemma_byte_weight_values();
        }
        let n = read_be(stream, 8)?;
        Ok(Double(n as u64))
    }
}

/// All the bytes that are left of a frame.
#[derive(Debug)]
pub struct LengthInferredByteArray(pub Vec<u8>);

impl DeepView for LengthInferredByteArray {
    type V = Seq<u8>;

    open spec fn deep_view(&self) -> Seq<u8> {
        self.0@
    }
}

impl Serialize for LengthInferredByteArray {
    open spec fn wire(&self) -> Seq<u8> {
        self.0@
    }

    open spec fn encodable(&self) -> bool {
        true
    }

    fn size(&self) -> (size: usize) {
        self.0.len()
    }

    fn checked_size(&self) -> (size: Option<usize>) {
        Some(self.0.len())
    }

    fn serialize(&self, stream: &mut Vec<u8>) {
        stream.extend_from_slice(self.0.as_slice());
        assert(stream@ =~= old(stream)@ + self.wire());
    }
}

impl Deserialize for LengthInferredByteArray {
    /// The whole window; a failure of the channel, with the whole window
    /// read, where the budget promises more than the channel holds.
    open spec fn parse(window: Seq<u8>, short: bool) -> Outcome<Seq<u8>> {
        if short {
            failed(Failure::Io, window.len())
        } else {
            done(window, window.len())
        }
    }

    fn deserialize(stream: &mut DataStream) -> (result: Result<Self, DeserializeError>) {
        let count = stream.remaining_size();
        match stream.read_exact(count) {
            Ok(bytes) => {
                assert(bytes@ =~= old(stream)@.window());
                Ok(LengthInferredByteArray(bytes))
            },
            Err(error) => Err(DeserializeError::Io(error)),
        }
    }
}

/// A direction in 256th parts of a full turn.
#[derive(Debug, Clone, Copy, PartialEq, Eq, Structural)]
pub struct Angle(pub u8);

impl DeepView for Angle {
    type V = u8;

    open spec fn deep_view(&self) -> u8 {
        self.0.deep_view()
    }
}

impl Serialize for Angle {
    open spec fn wire(&self) -> Seq<u8> {
        self.0.wire()
    }

    open spec fn encodable(&self) -> bool {
        self.0.encodable()
    }

    fn size(&self) -> (size: usize) {
        self.0.size()
    }

    fn checked_size(&self) -> (size: Option<usize>) {
        let size = self.0.checked_size();
        size
    }

    fn serialize(&self, stream: &mut Vec<u8>) {
        self.0.serialize(stream);
        assert(stream@ =~= old(stream)@ + self.wire());
    }
}

impl Deserialize for Angle {
    open spec fn parse(window: Seq<u8>, short: bool) -> Outcome<u8> {
        let f0 = u8::parse(window, short);
        let at1 = step(begin(), f0);
        finish(at1, f0.result->Ok_0)
    }

    fn deserialize(stream: &mut DataStream) -> (result: Result<Self, DeserializeError>) {
        broadcast use lemma_advance_zero;

        let ghost start = stream@;
        let ghost window = start.window();
        let ghost short = start.short();
        assert(window.skip(0) =~= window);
        let v0: u8 = field(stream, Ghost(start), Ghost(begin()))?;
        Ok(Angle(v0))
    }
}
/// A set of small numbers, as the bits of 64-bit words: a count, then the words.
#[derive(Debug)]
pub struct BitSet(pub Vec<i64>);

impl DeepView for BitSet {
    type V = Seq<i64>;

    open spec fn deep_view(&self) -> Seq<i64> {
        self.0.deep_view()
    }
}

impl Deserialize for BitSet {
    open spec fn parse(window: Seq<u8>, short: bool) -> Outcome<Seq<i64>> {
        let f0 = Vec::<i64>::parse(window, short);
        let at1 = step(begin(), f0);
        finish(at1, f0.result->Ok_0)
    }

    fn deserialize(stream: &mut DataStream) -> (result: Result<Self, DeserializeError>) {
        broadcast use lemma_advance_zero;

        let ghost start = stream@;
        let ghost window = start.window();
        let ghost short = start.short();
        assert(window.skip(0) =~= window);
        let v0: Vec<i64> = field(stream, Ghost(start), Ghost(begin()))?;
        Ok(BitSet(v0))
    }
}
/// The place of a block in the world.
#[derive(Debug, Clone, Copy, Default)]
pub struct BlockPos(pub Vec3i);

/// The signed number with the low `width` bits of `n` in two's complement,
/// where `half` is two to the power `width - 1`.
pub open spec fn signed_field(n: nat, half: nat) -> int {
    let low = n % (2 * half);
    if low < half {
        low as int
    } else {
        low - 2 * half
    }
}

/// The coordinates that 64 bits hold: `x` in the top 26 bits, `z` in the 26
/// below, `y` in the low 12, each in two's complement.
pub open spec fn block_pos_of(bits: nat) -> (i32, i32, i32) {
    (
        signed_field(bits / 0x40_0000_0000, 0x200_0000) as i32,
        signed_field(bits % 0x1000, 0x800) as i32,
        signed_field((bits / 0x1000) % 0x400_0000, 0x200_0000) as i32,
    )
}

impl DeepView for BlockPos {
    type V = (i32, i32, i32);

    open spec fn deep_view(&self) -> (i32, i32, i32) {
        (self.0.x, self.0.y, self.0.z)
    }
}

impl Deserialize for BlockPos {
    open spec fn parse(window: Seq<u8>, short: bool) -> Outcome<(i32, i32, i32)> {
        made(i64::parse(window, short), |val: i64| block_pos_of(bits64(val)))
    }

    fn deserialize(stream: &mut DataStream) -> (result: Result<Self, DeserializeError>) {
        let val = i64::deserialize(stream)?;
        let bits: u64 = if val >= 0 {
            val as u64
        } else {
            (val as i128 + 0x1_0000_0000_0000_0000) as u64
        };
        let x = bits / 0x40_0000_0000;
        let y = bits % 0x1000;
        let z = (bits / 0x1000) % 0x400_0000;
        proof {
            assert(bits == bits64(val));
            assert(x % 0x400_0000 == x);
            assert(y % 0x1000 == y);
            assert(z % 0x400_0000 == z);
        }
        Ok(
            BlockPos(
                Vec3i {
                    x: if x < 0x200_0000 {
                        x as i32
                    } else {
                        (x as i64 - 0x400_0000) as i32
                    },
                    y: if y < 0x800 {
                        y as i32
                    } else {
                        (y as i64 - 0x1000) as i32
                    },
                    z: if z < 0x200_0000 {
                        z as i32
                    } else {
                        (z as i64 - 0x400_0000) as i32
                    },
                },
            ),
        )
    }
}

/// One of two values; a boolean before the value tells which.
#[derive(Debug)]
pub enum Or<X, Y> {
    Y(Y),
    X(X),
}

impl<X: DeepView, Y: DeepView> DeepView for Or<X, Y> {
    type V = Or<X::V, Y::V>;

    open spec fn deep_view(&self) -> Or<X::V, Y::V> {
        match self {
            Or::Y(y) => Or::Y(y.deep_view()),
            Or::X(x) => Or::X(x.deep_view()),
        }
    }
}

impl<X: Serialize, Y: Serialize> Serialize for Or<X, Y> {
    open spec fn wire(&self) -> Seq<u8> {
        match self {
            Or::Y(y) => false.wire() + y.wire(),
            Or::X(x) => true.wire() + x.wire(),
        }
    }

    open spec fn encodable(&self) -> bool {
        match self {
            Or::Y(y) => y.encodable(),
            Or::X(x) => x.encodable(),
        }
    }

    fn size(&self) -> (size: usize) {
        match self {
            Or::Y(y) => 1 + y.size(),
            Or::X(x) => 1 + x.size(),
        }
    }

    fn checked_size(&self) -> (size: Option<usize>) {
        match self {
            Or::Y(y) => add_sizes(Some(1), y.checked_size()),
            Or::X(x) => add_sizes(Some(1), x.checked_size()),
        }
    }

    fn serialize(&self, stream: &mut Vec<u8>) {
        match self {
            Or::Y(y) => {
                bool::from_value(0).serialize(stream);
                y.serialize(stream);
            },
            Or::X(x) => {
                bool::from_value(1).serialize(stream);
                x.serialize(stream);
            },
        }
        assert(stream@ =~= old(stream)@ + self.wire());
    }
}

impl<X: Deserialize, Y: Deserialize> Deserialize for Or<X, Y> {
    open spec fn parse(window: Seq<u8>, short: bool) -> Outcome<Or<X::V, Y::V>> {
        let flag = bool::parse(window, short);
        match flag.result {
            Err(failure) => failed(failure, flag.used),
            Ok(false) => behind(
                flag.used,
                made(Y::parse(window.skip(flag.used as int), short), |y: Y::V| Or::Y(y)),
            ),
            Ok(true) => behind(
                flag.used,
                made(X::parse(window.skip(flag.used as int), short), |x: X::V| Or::X(x)),
            ),
        }
    }

    fn deserialize(stream: &mut DataStream) -> (result: Result<Self, DeserializeError>) {
        let ghost start = stream@;
        let ghost flag = bool::parse(start.window(), start.short());
        let repr = bool::deserialize(stream)?;
        proof {
            lemma_advance_window(start, flag.used);
        }
        if repr.to_value() == 0 {
            let ghost y = Y::parse(stream@.window(), stream@.short());
            let value = Y::deserialize(stream);
            proof {
                lemma_advance_twice(start, flag.used, y.used);
            }
            Ok(Or::Y(value?))
        } else {
            let ghost x = X::parse(stream@.window(), stream@.short());
            let value = X::deserialize(stream);
            proof {
                lemma_advance_twice(start, flag.used, x.used);
            }
            Ok(Or::X(value?))
        }
    }
}

/// A type whose values stand for the variants of an enum on the wire.
pub trait EnumRepr: Copy + Serialize + Deserialize {
    /// The plain number that a value carries.
    type Inner;

    /// Whether `v` is the number of a value.
    spec fn valid_value(v: Self::Inner) -> bool;

    /// The number that the value carries.
    spec fn value_of(self) -> Self::Inner;

    fn from_value(v: Self::Inner) -> (value: Self)
        requires
            Self::valid_value(v),
        ensures
            value.value_of() == v,
    ;

    fn to_value(self) -> (v: Self::Inner)
        ensures
            v == self.value_of(),
            Self::valid_value(v),
    ;
}

impl EnumRepr for u8 {
    type Inner = u8;

    open spec fn valid_value(v: u8) -> bool {
        true
    }

    open spec fn value_of(self) -> u8 {
        self
    }

    fn from_value(v: u8) -> (value: Self) {
        v
    }

    fn to_value(self) -> (v: u8) {
        self
    }
}

impl EnumRepr for i8 {
    type Inner = i8;

    open spec fn valid_value(v: i8) -> bool {
        true
    }

    open spec fn value_of(self) -> i8 {
        self
    }

    fn from_value(v: i8) -> (value: Self) {
        v
    }

    fn to_value(self) -> (v: i8) {
        self
    }
}

impl EnumRepr for u16 {
    type Inner = u16;

    open spec fn valid_value(v: u16) -> bool {
        true
    }

    open spec fn value_of(self) -> u16 {
        self
    }

    fn from_value(v: u16) -> (value: Self) {
        v
    }

    fn to_value(self) -> (v: u16) {
        self
    }
}

impl EnumRepr for i16 {
    type Inner = i16;

    open spec fn valid_value(v: i16) -> bool {
        true
    }

    open spec fn value_of(self) -> i16 {
        self
    }

    fn from_value(v: i16) -> (value: Self) {
        v
    }

    fn to_value(self) -> (v: i16) {
        self
    }
}

impl EnumRepr for i32 {
    type Inner = i32;

    open spec fn valid_value(v: i32) -> bool {
        true
    }

    open spec fn value_of(self) -> i32 {
        self
    }

    fn from_value(v: i32) -> (value: Self) {
        v
    }

    fn to_value(self) -> (v: i32) {
        self
    }
}

impl EnumRepr for i64 {
    type Inner = i64;

    open spec fn valid_value(v: i64) -> bool {
        true
    }

    open spec fn value_of(self) -> i64 {
        self
    }

    fn from_value(v: i64) -> (value: Self) {
        v
    }

    fn to_value(self) -> (v: i64) {
        self
    }
}

impl EnumRepr for u128 {
    type Inner = u128;

    open spec fn valid_value(v: u128) -> bool {
        true
    }

    open spec fn value_of(self) -> u128 {
        self
    }

    fn from_value(v: u128) -> (value: Self) {
        v
    }

    fn to_value(self) -> (v: u128) {
        self
    }
}

impl EnumRepr for VarInt {
    type Inner = i32;

    open spec fn valid_value(v: i32) -> bool {
        true
    }

    open spec fn value_of(self) -> i32 {
        self.0
    }

    fn from_value(v: i32) -> (value: Self) {
        Self(v)
    }

    fn to_value(self) -> (v: i32) {
        self.0
    }
}

impl EnumRepr for bool {
    type Inner = u8;

    open spec fn valid_value(v: u8) -> bool {
        v <= 1
    }

    open spec fn value_of(self) -> u8 {
        if self {
            1
        } else {
            0
        }
    }

    fn from_value(v: u8) -> (value: Self) {
        v == 1
    }

    fn to_value(self) -> (v: u8) {
        if self {
            1
        } else {
            0
        }
    }
}

/// A value whose read, where it succeeds, takes at least one byte.
pub trait Consuming: Deserialize {
    proof fn lemma_consumes(window: Seq<u8>, short: bool)
        ensures
            Self::parse(window, short).result is Ok ==> Self::parse(window, short).used >= 1,
    ;
}

impl Consuming for bool {
    proof fn lemma_consumes(window: Seq<u8>, short: bool) {
    }
}

impl Consuming for u8 {
    proof fn lemma_consumes(window: Seq<u8>, short: bool) {
    }
}

impl Consuming for i8 {
    proof fn lemma_consumes(window: Seq<u8>, short: bool) {
    }
}

impl Consuming for u16 {
    proof fn lemma_consumes(window: Seq<u8>, short: bool) {
    }
}

impl Consuming for i16 {
    proof fn lemma_consumes(window: Seq<u8>, short: bool) {
    }
}

impl Consuming for i32 {
    proof fn lemma_consumes(window: Seq<u8>, short: bool) {
    }
}

impl Consuming for i64 {
    proof fn lemma_consumes(window: Seq<u8>, short: bool) {
    }
}

impl Consuming for u64 {
    proof fn lemma_consumes(window: Seq<u8>, short: bool) {
    }
}

impl Consuming for u128 {
    proof fn lemma_consumes(window: Seq<u8>, short: bool) {
    }
}

impl Consuming for Float {
    proof fn lemma_consumes(window: Seq<u8>, short: bool) {
    }
}

impl Consuming for Double {
    proof fn lemma_consumes(window: Seq<u8>, short: bool) {
    }
}

impl Consuming for VarInt {
    proof fn lemma_consumes(window: Seq<u8>, short: bool) {
        lemma_var_scan_bounds(window, 5);
    }
}

impl Consuming for VarLong {
    proof fn lemma_consumes(window: Seq<u8>, short: bool) {
        lemma_var_scan_bounds(window, 10);
    }
}

/// Values, one behind the other, up to the end of the frame.
#[derive(Debug)]
pub struct LengthInferredArray<T>(pub Vec<T>);

impl<T: DeepView> DeepView for LengthInferredArray<T> {
    type V = Seq<T::V>;

    open spec fn deep_view(&self) -> Seq<T::V> {
        self.0.deep_view()
    }
}

/// What reading values until the budget is used up gives. (A value that was
/// read took at least one byte: the case that asks for it only shows that
/// the definition ends.)
pub open spec fn until_empty<T: Deserialize>(window: Seq<u8>, short: bool) -> Outcome<Seq<T::V>>
    decreases window.len(),
{
    if window.len() == 0 && !short {
        done(Seq::empty(), 0)
    } else {
        let first = T::parse(window, short);
        match first.result {
            Err(failure) => failed(failure, first.used),
            Ok(value) => if first.used < 1 || first.used > window.len() {
                failed(ended(short), first.used)
            } else {
                let more = until_empty::<T>(window.skip(first.used as int), short);
                match more.result {
                    Err(failure) => failed(failure, first.used + more.used),
                    Ok(values) => done(seq![value] + values, first.used + more.used),
                }
            },
        }
    }
}

impl<T: Consuming> Deserialize for LengthInferredArray<T> {
    open spec fn parse(window: Seq<u8>, short: bool) -> Outcome<Seq<T::V>> {
        until_empty::<T>(window, short)
    }

    fn deserialize(stream: &mut DataStream) -> (result: Result<Self, DeserializeError>) {
        broadcast use lemma_advance_zero;

        let ghost start = stream@;
        let ghost window = start.window();
        let ghost short = start.short();
        let ghost mut used: nat = 0;
        let mut data: Vec<T> = Vec::new();
        assert(window.skip(0) =~= window);
        assert(Seq::<T::V>::empty() + until_empty::<T>(window, short).result->Ok_0
            =~= until_empty::<T>(window, short).result->Ok_0);
        while stream.remaining_size() > 0
            invariant
                start == old(stream)@,
                window == start.window(),
                short == start.short(),
                used <= window.len(),
                stream@ == start.advance(used),
                until_empty::<T>(window, short) == behind_items(
                    data.deep_view(),
                    used,
                    until_empty::<T>(window.skip(used as int), short),
                ),
            decreases stream@.remaining,
        {
            proof {
                lemma_advance_window(start, used);
                T::lemma_consumes(window.skip(used as int), short);
            }
            let ghost here = T::parse(window.skip(used as int), short);
            let ghost items = data.deep_view();
            let val = T::deserialize(stream);
            proof {
                lemma_advance_twice(start, used, here.used);
            }
            let val = val?;
            data.push(val);
            proof {
                assert(window.skip(used as int).skip(here.used as int) =~= window.skip(
                    (used + here.used) as int,
                ));
                assert(data.deep_view() =~= items.push(val.deep_view()));
                let more = until_empty::<T>(window.skip((used + here.used) as int), short);
                if more.result is Ok {
                    assert(items + (seq![val.deep_view()] + more.result->Ok_0) =~= items.push(
                        val.deep_view(),
                    ) + more.result->Ok_0);
                }
                used = used + here.used;
            }
        }
        proof {
            lemma_advance_window(start, used);
            assert(data.deep_view() + Seq::<T::V>::empty() =~= data.deep_view());
        }
        Ok(LengthInferredArray(data))
    }
}

impl<T: Serialize> Serialize for LengthInferredArray<T> {
    open spec fn wire(&self) -> Seq<u8> {
        wire_all(self.0@)
    }

    open spec fn encodable(&self) -> bool {
        all_encodable(self.0@)
    }

    fn size(&self) -> (size: usize) {
        size_of_all(self.0.as_slice())
    }

    fn checked_size(&self) -> (size: Option<usize>) {
        checked_size_of_all(self.0.as_slice())
    }

    fn serialize(&self, stream: &mut Vec<u8>) {
        serialize_all(self.0.as_slice(), stream)
    }
}

/// Calls `Vec::try_into` for an array, which gives the array of the
/// vector's values where the vector has as many as the array takes, and
/// nothing where it has not.
#[verifier::external_body]
fn array_from_vec<T, const N: usize>(items: Vec<T>) -> (array: Option<[T; N]>)
    ensures
        array is Some <==> items@.len() == N,
        array matches Some(a) ==> a@ == items@,
{
    items.try_into().ok()
}

impl<const N: usize, T: Serialize> Serialize for [T; N] {
    open spec fn wire(&self) -> Seq<u8> {
        wire_all(self@)
    }

    open spec fn encodable(&self) -> bool {
        all_encodable(self@)
    }

    fn size(&self) -> (size: usize) {
        size_of_all(self.as_slice())
    }

    fn checked_size(&self) -> (size: Option<usize>) {
        checked_size_of_all(self.as_slice())
    }

    fn serialize(&self, stream: &mut Vec<u8>) {
        serialize_all(self.as_slice(), stream)
    }
}

impl<const N: usize, T: Deserialize> Deserialize for [T; N] {
    open spec fn parse(window: Seq<u8>, short: bool) -> Outcome<Seq<T::V>> {
        repeat::<T>(window, short, N as nat)
    }

    fn deserialize(stream: &mut DataStream) -> (result: Result<Self, DeserializeError>) {
        let items: Vec<T> = deserialize_slice(stream, N)?;
        let ghost views = items.deep_view();
        match array_from_vec::<T, N>(items) {
            Some(array) => {
                assert(array.deep_view() =~= views);
                Ok(array)
            },
            None => Err(DeserializeError::Io(crate::stream::IoError::UnexpectedEof)),
        }
    }
}

impl RoundTrip for Float {
    open spec fn readable(&self) -> bool {
        true
    }

    proof fn lemma_round_trip(&self, rest: Seq<u8>, short: bool) {
        lemma_byte_weight_values();
        lemma_fixed_round_trip(self.0 as nat, 4, rest, short);
        lemma_be_bytes_len(self.0 as nat, 4);
    }
}

impl RoundTrip for Double {
    open spec fn readable(&self) -> bool {
        true
    }

    proof fn lemma_round_trip(&self, rest: Seq<u8>, short: bool) {
        lemma_byte_weight_values();
        lemma_fixed_round_trip(self.0 as nat, 8, rest, short);
        lemma_be_bytes_len(self.0 as nat, 8);
    }
}

impl RoundTrip for Angle {
    open spec fn readable(&self) -> bool {
        true
    }

    proof fn lemma_round_trip(&self, rest: Seq<u8>, short: bool) {
        self.0.lemma_round_trip(rest, short);
    }
}

impl<X: RoundTrip, Y: RoundTrip> RoundTrip for Or<X, Y> {
    open spec fn readable(&self) -> bool {
        match self {
            Or::Y(y) => y.readable(),
            Or::X(x) => x.readable(),
        }
    }

    proof fn lemma_round_trip(&self, rest: Seq<u8>, short: bool) {
        let window = self.wire() + rest;
        match self {
            Or::Y(y) => {
                assert(window =~= seq![0u8] + (y.wire() + rest));
                assert(window.skip(1) =~= y.wire() + rest);
                y.lemma_round_trip(rest, short);
            },
            Or::X(x) => {
                assert(window =~= seq![1u8] + (x.wire() + rest));
                assert(window.skip(1) =~= x.wire() + rest);
                x.lemma_round_trip(rest, short);
            },
        }
    }
}

} // verus!
