//! Booleans and fixed-width numbers: one byte that is 0 or 1, and big-endian
//! bytes at the width of the type.

use crate::codec::{
    done, ended, ended_error, failed, malformed_with_number, number_message, Deserialize,
    DeserializeError, Failure, Outcome, RoundTrip, Serialize,
};
use crate::stream::{lemma_advance_window, lemma_advance_zero, DataStream};
use crate::varint::{
    bits32, bits64, from_bits32, from_bits64, lemma_bits32_round_trip, lemma_bits64_round_trip,
};
use vstd::prelude::*;

verus! {

/// 256 to the power `count`.
pub open spec fn byte_weight(count: nat) -> nat
    decreases count,
{
    if count == 0 {
        1
    } else {
        256 * byte_weight((count - 1) as nat)
    }
}

/// The `width` low bytes of `n`, most significant first.
pub open spec fn be_bytes(n: nat, width: nat) -> Seq<u8>
    decreases width,
{
    if width == 0 {
        Seq::empty()
    } else {
        be_bytes(n / 256, (width - 1) as nat).push((n % 256) as u8)
    }
}

/// The number that `bytes` spell, most significant byte first.
pub open spec fn be_value(bytes: Seq<u8>) -> nat
    decreases bytes.len(),
{
    if bytes.len() == 0 {
        0
    } else {
        256 * be_value(bytes.drop_last()) + bytes.last() as nat
    }
}

/// What reading a number of `width` bytes gives: the number that the first
/// `width` bytes spell, or the failure of a window that holds fewer.
pub open spec fn fixed_outcome(window: Seq<u8>, short: bool, width: nat) -> Outcome<nat> {
    if window.len() >= width {
        done(be_value(window.take(width as int)), width)
    } else {
        failed(ended(short), window.len())
    }
}

/// The unsigned number with the same 8 bits as `v` in two's complement.
pub open spec fn bits8(v: i8) -> nat {
    if v >= 0 {
        v as nat
    } else {
        (v + 0x100) as nat
    }
}

/// The signed number with the low 8 bits of `n` in two's complement.
pub open spec fn from_bits8(n: nat) -> i8 {
    let low = n % 0x100;
    if low < 0x80 {
        low as i8
    } else {
        (low - 0x100) as i8
    }
}

/// The unsigned number with the same 16 bits as `v` in two's complement.
pub open spec fn bits16(v: i16) -> nat {
    if v >= 0 {
        v as nat
    } else {
        (v + 0x1_0000) as nat
    }
}

/// The signed number with the low 16 bits of `n` in two's complement.
pub open spec fn from_bits16(n: nat) -> i16 {
    let low = n % 0x1_0000;
    if low < 0x8000 {
        low as i16
    } else {
        (low - 0x1_0000) as i16
    }
}

/// The weights of the first sixteen places.
pub proof fn lemma_byte_weight_values()
    ensures
        byte_weight(0) == 1,
        byte_weight(1) == 0x100,
        byte_weight(2) == 0x1_0000,
        byte_weight(4) == 0x1_0000_0000,
        byte_weight(8) == 0x1_0000_0000_0000_0000,
        byte_weight(16) == 0x1_0000_0000_0000_0000_0000_0000_0000_0000,
        forall|count: nat| count <= 16 ==> 1 <= #[trigger] byte_weight(count) <= byte_weight(16),
{
    reveal_with_fuel(byte_weight, 17);
    assert forall|count: nat| count <= 16 implies 1 <= #[trigger] byte_weight(count)
        <= byte_weight(16) by {
        lemma_byte_weight_grows(count, 16);
    }
}

/// A later place weighs at least as much as an earlier one.
pub proof fn lemma_byte_weight_grows(low: nat, high: nat)
    requires
        low <= high,
    ensures
        1 <= byte_weight(low) <= byte_weight(high),
    decreases high,
{
    if high == 0 {
    } else if low == high {
        lemma_byte_weight_grows((low - 1) as nat, (high - 1) as nat);
    } else {
        lemma_byte_weight_grows(low, (high - 1) as nat);
    }
}

/// A number written at a width takes that many bytes.
pub proof fn lemma_be_bytes_len(n: nat, width: nat)
    ensures
        be_bytes(n, width).len() == width,
    decreases width,
{
    if width > 0 {
        lemma_be_bytes_len(n / 256, (width - 1) as nat);
    }
}

/// What bytes spell is below the weight of the place behind them.
pub proof fn lemma_be_value_bound(bytes: Seq<u8>)
    ensures
        be_value(bytes) < byte_weight(bytes.len()),
    decreases bytes.len(),
{
    if bytes.len() > 0 {
        lemma_be_value_bound(bytes.drop_last());
    }
}

/// A number that fits a width is what its bytes at that width spell.
pub proof fn lemma_be_round_trip(n: nat, width: nat)
    requires
        n < byte_weight(width),
    ensures
        be_value(be_bytes(n, width)) == n,
    decreases width,
{
    if width > 0 {
        let bytes = be_bytes(n, width);
        lemma_be_round_trip(n / 256, (width - 1) as nat);
        assert(bytes.drop_last() =~= be_bytes(n / 256, (width - 1) as nat));
    }
}

/// Reading a number's bytes at a width it fits, whatever follows them, gives
/// the number back from just those bytes.
pub proof fn lemma_fixed_round_trip(n: nat, width: nat, rest: Seq<u8>, short: bool)
    requires
        n < byte_weight(width),
    ensures
        fixed_outcome(be_bytes(n, width) + rest, short, width) == done(n, width),
{
    lemma_be_bytes_len(n, width);
    lemma_be_round_trip(n, width);
    assert((be_bytes(n, width) + rest).take(width as int) =~= be_bytes(n, width));
}

/// Appends the `width` low bytes of `n`, most significant first.
pub(crate) fn write_be(n: u128, width: usize, out: &mut Vec<u8>)
    ensures
        final(out)@ == old(out)@ + be_bytes(n as nat, width as nat),
    decreases width,
{
    if width > 0 {
        write_be(n / 256, width - 1, out);
        out.push((n % 256) as u8);
    }
    assert(out@ =~= old(out)@ + be_bytes(n as nat, width as nat));
}

/// Reads a number of `width` bytes, most significant first.
pub(crate) fn read_be(stream: &mut DataStream, width: usize) -> (result: Result<
    u128,
    DeserializeError,
>)
    requires
        width <= 16,
    ensures
        ({
            let expected = fixed_outcome(
                old(stream)@.window(),
                old(stream)@.short(),
                width as nat,
            );
            &&& expected.used <= old(stream)@.window().len()
            &&& final(stream)@ == old(stream)@.advance(expected.used)
            &&& match result {
                Ok(value) => expected.result == Ok::<nat, Failure>(value as nat) && value
                    < byte_weight(width as nat),
                Err(error) => expected.result == Err::<nat, Failure>(error@),
            }
        }),
{
    let bytes = match stream.read_exact(width) {
        Ok(bytes) => bytes,
        Err(error) => {
            proof {
                lemma_advance_window(old(stream)@, old(stream)@.window().len());
            }
            return Err(ended_error(stream, error));
        },
    };
    let mut value: u128 = 0;
    let mut i: usize = 0;
    while i < width
        invariant
            i <= width <= 16,
            bytes@.len() == width,
            value == be_value(bytes@.take(i as int)),
        decreases width - i,
    {
        proof {
            lemma_byte_weight_values();
            lemma_be_value_bound(bytes@.take(i as int));
            lemma_byte_weight_grows(i as nat, 15);
            reveal_with_fuel(byte_weight, 17);
            assert(bytes@.take(i + 1).drop_last() =~= bytes@.take(i as int));
        }
        value = value * 256 + bytes[i] as u128;
        i = i + 1;
    }
    proof {
        assert(bytes@.take(width as int) =~= bytes@);
        lemma_be_value_bound(bytes@);
    }
    Ok(value)
}

/// The message of a byte that is neither 0 nor 1 where a boolean stands.
pub open spec fn invalid_bool_message(byte: u8) -> Seq<char> {
    number_message("Invalid bool value (found "@, byte as int, ")"@)
}

impl Serialize for bool {
    open spec fn wire(&self) -> Seq<u8> {
        seq![if *self { 1u8 } else { 0u8 }]
    }

    open spec fn encodable(&self) -> bool {
        true
    }

    fn size(&self) -> (size: usize) {
        1
    }

    fn checked_size(&self) -> (size: Option<usize>) {
        Some(1)
    }

    fn serialize(&self, stream: &mut Vec<u8>) {
        if *self {
            stream.push(1);
        } else {
            stream.push(0);
        }
        assert(stream@ =~= old(stream)@ + self.wire());
    }
}

impl Deserialize for bool {
    open spec fn parse(window: Seq<u8>, short: bool) -> Outcome<bool> {
        if window.len() == 0 {
            failed(ended(short), 0)
        } else if window[0] == 0 {
            done(false, 1)
        } else if window[0] == 1 {
            done(true, 1)
        } else {
            failed(Failure::Malformed(invalid_bool_message(window[0])), 1)
        }
    }

    fn deserialize(stream: &mut DataStream) -> (result: Result<Self, DeserializeError>) {
        broadcast use lemma_advance_zero;

        let byte = match stream.read_byte() {
            Ok(byte) => byte,
            Err(error) => {
                return Err(ended_error(stream, error));
            },
        };
        if byte == 0 {
            Ok(false)
        } else if byte == 1 {
            Ok(true)
        } else {
            Err(malformed_with_number("Invalid bool value (found ", byte as i64, ")"))
        }
    }
}

impl RoundTrip for bool {
    open spec fn readable(&self) -> bool {
        true
    }

    proof fn lemma_round_trip(&self, rest: Seq<u8>, short: bool) {
        assert((self.wire() + rest)[0] == self.wire()[0]);
    }
}

/// The bits of a number of 8 bits, read back as a signed number, are the
/// number.
pub proof fn lemma_bits8_round_trip(v: i8)
    ensures
        bits8(v) < 0x100,
        from_bits8(bits8(v)) == v,
{
}

/// The bits of a number of 16 bits, read back as a signed number, are the
/// number.
pub proof fn lemma_bits16_round_trip(v: i16)
    ensures
        bits16(v) < 0x1_0000,
        from_bits16(bits16(v)) == v,
{
}

impl Serialize for u8 {
    open spec fn wire(&self) -> Seq<u8> {
        be_bytes(*self as nat, 1)
    }

    open spec fn encodable(&self) -> bool {
        true
    }

    fn size(&self) -> (size: usize) {
        proof {
            lemma_be_bytes_len(*self as nat, 1);
        }
        1
    }

    fn checked_size(&self) -> (size: Option<usize>) {
        proof {
            lemma_be_bytes_len(*self as nat, 1);
        }
        Some(1)
    }

    fn serialize(&self, stream: &mut Vec<u8>) {
        write_be(*self as u128, 1, stream)
    }
}

impl Deserialize for u8 {
    open spec fn parse(window: Seq<u8>, short: bool) -> Outcome<u8> {
        let fixed = fixed_outcome(window, short, 1);
        match fixed.result {
            Ok(n) => done(n as u8, fixed.used),
            Err(failure) => failed(failure, fixed.used),
        }
    }

    fn deserialize(stream: &mut DataStream) -> (result: Result<Self, DeserializeError>) {
        proof {
            lemma_byte_weight_values();
        }
        let n = read_be(stream, 1)?;
        Ok(n as u8)
    }
}

impl RoundTrip for u8 {
    open spec fn readable(&self) -> bool {
        true
    }

    proof fn lemma_round_trip(&self, rest: Seq<u8>, short: bool) {
        lemma_byte_weight_values();
        lemma_fixed_round_trip(*self as nat, 1, rest, short);
        lemma_be_bytes_len(*self as nat, 1);
    }
}

impl Serialize for i8 {
    open spec fn wire(&self) -> Seq<u8> {
        be_bytes(bits8(*self), 1)
    }

    open spec fn encodable(&self) -> bool {
        true
    }

    fn size(&self) -> (size: usize) {
        proof {
            lemma_be_bytes_len(bits8(*self), 1);
        }
        1
    }

    fn checked_size(&self) -> (size: Option<usize>) {
        proof {
            lemma_be_bytes_len(bits8(*self), 1);
        }
        Some(1)
    }

    fn serialize(&self, stream: &mut Vec<u8>) {
        let bits: u128 = if *self >= 0 {
            *self as u128
        } else {
            (*self as i128 + 0x100) as u128
        };
        write_be(bits, 1, stream)
    }
}

impl Deserialize for i8 {
    open spec fn parse(window: Seq<u8>, short: bool) -> Outcome<i8> {
        let fixed = fixed_outcome(window, short, 1);
        match fixed.result {
            Ok(n) => done(from_bits8(n), fixed.used),
            Err(failure) => failed(failure, fixed.used),
        }
    }

    fn deserialize(stream: &mut DataStream) -> (result: Result<Self, DeserializeError>) {
        proof {
            lemma_byte_weight_values();
        }
        let n = read_be(stream, 1)?;
        if n < 0x80 {
            Ok(n as i8)
        } else {
            Ok((n as i128 - 0x100) as i8)
        }
    }
}

impl RoundTrip for i8 {
    open spec fn readable(&self) -> bool {
        true
    }

    proof fn lemma_round_trip(&self, rest: Seq<u8>, short: bool) {
        lemma_byte_weight_values();
        lemma_bits8_round_trip(*self);
        lemma_fixed_round_trip(bits8(*self), 1, rest, short);
        lemma_be_bytes_len(bits8(*self), 1);
    }
}

impl Serialize for u16 {
    open spec fn wire(&self) -> Seq<u8> {
        be_bytes(*self as nat, 2)
    }

    open spec fn encodable(&self) -> bool {
        true
    }

    fn size(&self) -> (size: usize) {
        proof {
            lemma_be_bytes_len(*self as nat, 2);
        }
        2
    }

    fn checked_size(&self) -> (size: Option<usize>) {
        proof {
            lemma_be_bytes_len(*self as nat, 2);
        }
        Some(2)
    }

    fn serialize(&self, stream: &mut Vec<u8>) {
        write_be(*self as u128, 2, stream)
    }
}

impl Deserialize for u16 {
    open spec fn parse(window: Seq<u8>, short: bool) -> Outcome<u16> {
        let fixed = fixed_outcome(window, short, 2);
        match fixed.result {
            Ok(n) => done(n as u16, fixed.used),
            Err(failure) => failed(failure, fixed.used),
        }
    }

    fn deserialize(stream: &mut DataStream) -> (result: Result<Self, DeserializeError>) {
        proof {
            lemma_byte_weight_values();
        }
        let n = read_be(stream, 2)?;
        Ok(n as u16)
    }
}

impl RoundTrip for u16 {
    open spec fn readable(&self) -> bool {
        true
    }

    proof fn lemma_round_trip(&self, rest: Seq<u8>, short: bool) {
        lemma_byte_weight_values();
        lemma_fixed_round_trip(*self as nat, 2, rest, short);
        lemma_be_bytes_len(*self as nat, 2);
    }
}

impl Serialize for i16 {
    open spec fn wire(&self) -> Seq<u8> {
        be_bytes(bits16(*self), 2)
    }

    open spec fn encodable(&self) -> bool {
        true
    }

    fn size(&self) -> (size: usize) {
        proof {
            lemma_be_bytes_len(bits16(*self), 2);
        }
        2
    }

    fn checked_size(&self) -> (size: Option<usize>) {
        proof {
            lemma_be_bytes_len(bits16(*self), 2);
        }
        Some(2)
    }

    fn serialize(&self, stream: &mut Vec<u8>) {
        let bits: u128 = if *self >= 0 {
            *self as u128
        } else {
            (*self as i128 + 0x1_0000) as u128
        };
        write_be(bits, 2, stream)
    }
}

impl Deserialize for i16 {
    open spec fn parse(window: Seq<u8>, short: bool) -> Outcome<i16> {
        let fixed = fixed_outcome(window, short, 2);
        match fixed.result {
            Ok(n) => done(from_bits16(n), fixed.used),
            Err(failure) => failed(failure, fixed.used),
        }
    }

    fn deserialize(stream: &mut DataStream) -> (result: Result<Self, DeserializeError>) {
        proof {
            lemma_byte_weight_values();
        }
        let n = read_be(stream, 2)?;
        if n < 0x8000 {
            Ok(n as i16)
        } else {
            Ok((n as i128 - 0x1_0000) as i16)
        }
    }
}

impl RoundTrip for i16 {
    open spec fn readable(&self) -> bool {
        true
    }

    proof fn lemma_round_trip(&self, rest: Seq<u8>, short: bool) {
        lemma_byte_weight_values();
        lemma_bits16_round_trip(*self);
        lemma_fixed_round_trip(bits16(*self), 2, rest, short);
        lemma_be_bytes_len(bits16(*self), 2);
    }
}

impl Serialize for i32 {
    open spec fn wire(&self) -> Seq<u8> {
        be_bytes(bits32(*self), 4)
    }

    open spec fn encodable(&self) -> bool {
        true
    }

    fn size(&self) -> (size: usize) {
        proof {
            lemma_be_bytes_len(bits32(*self), 4);
        }
        4
    }

    fn checked_size(&self) -> (size: Option<usize>) {
        proof {
            lemma_be_bytes_len(bits32(*self), 4);
        }
        Some(4)
    }

    fn serialize(&self, stream: &mut Vec<u8>) {
        let bits: u128 = if *self >= 0 {
            *self as u128
        } else {
            (*self as i128 + 0x1_0000_0000) as u128
        };
        write_be(bits, 4, stream)
    }
}

impl Deserialize for i32 {
    open spec fn parse(window: Seq<u8>, short: bool) -> Outcome<i32> {
        let fixed = fixed_outcome(window, short, 4);
        match fixed.result {
            Ok(n) => done(from_bits32(n), fixed.used),
            Err(failure) => failed(failure, fixed.used),
        }
    }

    fn deserialize(stream: &mut DataStream) -> (result: Result<Self, DeserializeError>) {
        proof {
            lemma_byte_weight_values();
        }
        let n = read_be(stream, 4)?;
        if n < 0x8000_0000 {
            Ok(n as i32)
        } else {
            Ok((n as i128 - 0x1_0000_0000) as i32)
        }
    }
}

impl RoundTrip for i32 {
    open spec fn readable(&self) -> bool {
        true
    }

    proof fn lemma_round_trip(&self, rest: Seq<u8>, short: bool) {
        lemma_byte_weight_values();
        lemma_bits32_round_trip(*self);
        lemma_fixed_round_trip(bits32(*self), 4, rest, short);
        lemma_be_bytes_len(bits32(*self), 4);
    }
}

impl Serialize for i64 {
    open spec fn wire(&self) -> Seq<u8> {
        be_bytes(bits64(*self), 8)
    }

    open spec fn encodable(&self) -> bool {
        true
    }

    fn size(&self) -> (size: usize) {
        proof {
            lemma_be_bytes_len(bits64(*self), 8);
        }
        8
    }

    fn checked_size(&self) -> (size: Option<usize>) {
        proof {
            lemma_be_bytes_len(bits64(*self), 8);
        }
        Some(8)
    }

    fn serialize(&self, stream: &mut Vec<u8>) {
        let bits: u128 = if *self >= 0 {
            *self as u128
        } else {
            (*self as i128 + 0x1_0000_0000_0000_0000) as u128
        };
        write_be(bits, 8, stream)
    }
}

impl Deserialize for i64 {
    open spec fn parse(window: Seq<u8>, short: bool) -> Outcome<i64> {
        let fixed = fixed_outcome(window, short, 8);
        match fixed.result {
            Ok(n) => done(from_bits64(n), fixed.used),
            Err(failure) => failed(failure, fixed.used),
        }
    }

    fn deserialize(stream: &mut DataStream) -> (result: Result<Self, DeserializeError>) {
        proof {
            lemma_byte_weight_values();
        }
        let n = read_be(stream, 8)?;
        if n < 0x8000_0000_0000_0000 {
            Ok(n as i64)
        } else {
            Ok((n as i128 - 0x1_0000_0000_0000_0000) as i64)
        }
    }
}

impl RoundTrip for i64 {
    open spec fn readable(&self) -> bool {
        true
    }

    proof fn lemma_round_trip(&self, rest: Seq<u8>, short: bool) {
        lemma_byte_weight_values();
        lemma_bits64_round_trip(*self);
        lemma_fixed_round_trip(bits64(*self), 8, rest, short);
        lemma_be_bytes_len(bits64(*self), 8);
    }
}

impl Serialize for u64 {
    open spec fn wire(&self) -> Seq<u8> {
        be_bytes(*self as nat, 8)
    }

    open spec fn encodable(&self) -> bool {
        true
    }

    fn size(&self) -> (size: usize) {
        proof {
            lemma_be_bytes_len(*self as nat, 8);
        }
        8
    }

    fn checked_size(&self) -> (size: Option<usize>) {
        proof {
            lemma_be_bytes_len(*self as nat, 8);
        }
        Some(8)
    }

    fn serialize(&self, stream: &mut Vec<u8>) {
        write_be(*self as u128, 8, stream)
    }
}

impl Deserialize for u64 {
    open spec fn parse(window: Seq<u8>, short: bool) -> Outcome<u64> {
        let fixed = fixed_outcome(window, short, 8);
        match fixed.result {
            Ok(n) => done(n as u64, fixed.used),
            Err(failure) => failed(failure, fixed.used),
        }
    }

    fn deserialize(stream: &mut DataStream) -> (result: Result<Self, DeserializeError>) {
        proof {
            lemma_byte_weight_values();
        }
        let n = read_be(stream, 8)?;
        Ok(n as u64)
    }
}

impl RoundTrip for u64 {
    open spec fn readable(&self) -> bool {
        true
    }

    proof fn lemma_round_trip(&self, rest: Seq<u8>, short: bool) {
        lemma_byte_weight_values();
        lemma_fixed_round_trip(*self as nat, 8, rest, short);
        lemma_be_bytes_len(*self as nat, 8);
    }
}

impl Serialize for u128 {
    open spec fn wire(&self) -> Seq<u8> {
        be_bytes(*self as nat, 16)
    }

    open spec fn encodable(&self) -> bool {
        true
    }

    fn size(&self) -> (size: usize) {
        proof {
            lemma_be_bytes_len(*self as nat, 16);
        }
        16
    }

    fn checked_size(&self) -> (size: Option<usize>) {
        proof {
            lemma_be_bytes_len(*self as nat, 16);
        }
        Some(16)
    }

    fn serialize(&self, stream: &mut Vec<u8>) {
        write_be(*self as u128, 16, stream)
    }
}

impl Deserialize for u128 {
    open spec fn parse(window: Seq<u8>, short: bool) -> Outcome<u128> {
        let fixed = fixed_outcome(window, short, 16);
        match fixed.result {
            Ok(n) => done(n as u128, fixed.used),
            Err(failure) => failed(failure, fixed.used),
        }
    }

    fn deserialize(stream: &mut DataStream) -> (result: Result<Self, DeserializeError>) {
        proof {
            lemma_byte_weight_values();
        }
        let n = read_be(stream, 16)?;
        Ok(n as u128)
    }
}

impl RoundTrip for u128 {
    open spec fn readable(&self) -> bool {
        true
    }

    proof fn lemma_round_trip(&self, rest: Seq<u8>, short: bool) {
        lemma_byte_weight_values();
        lemma_fixed_round_trip(*self as nat, 16, rest, short);
        lemma_be_bytes_len(*self as nat, 16);
    }
}

} // verus!
