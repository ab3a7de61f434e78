//! Integers in groups of seven bits, least significant group first, each byte
//! but the last marked with a continuation bit.

use crate::codec::{
    done, ended, ended_error, failed, Deserialize, DeserializeError, Failure, Outcome, RoundTrip,
    Serialize,
};
use crate::stream::{
    lemma_advance_twice, lemma_advance_window, lemma_advance_zero, ByteChannel, DataStream,
};
use vstd::prelude::*;

verus! {

/// A signed 32-bit integer that travels in one to five bytes.
#[derive(Debug, Clone, Copy, PartialEq, Eq, Structural, PartialOrd, Ord)]
pub struct VarInt(pub i32);

/// A signed 64-bit integer that travels in one to ten bytes.
#[derive(Debug, Clone, Copy, PartialEq, Eq, Structural, PartialOrd, Ord)]
pub struct VarLong(pub i64);

/// The most bytes a `VarInt` may take.
pub const VAR_INT_MAX_BYTES: usize = 5;

/// The most bytes a `VarLong` may take.
pub const VAR_LONG_MAX_BYTES: usize = 10;

/// The unsigned number with the same 32 bits as `v` in two's complement.
pub open spec fn bits32(v: i32) -> nat {
    if v >= 0 {
        v as nat
    } else {
        (v + 0x1_0000_0000) as nat
    }
}

/// The signed number with the low 32 bits of `n` in two's complement.
pub open spec fn from_bits32(n: nat) -> i32 {
    let low = n % 0x1_0000_0000;
    if low < 0x8000_0000 {
        low as i32
    } else {
        (low - 0x1_0000_0000) as i32
    }
}

/// The unsigned number with the same 64 bits as `v` in two's complement.
pub open spec fn bits64(v: i64) -> nat {
    if v >= 0 {
        v as nat
    } else {
        (v + 0x1_0000_0000_0000_0000) as nat
    }
}

/// The signed number with the low 64 bits of `n` in two's complement.
pub open spec fn from_bits64(n: nat) -> i64 {
    let low = n % 0x1_0000_0000_0000_0000;
    if low < 0x8000_0000_0000_0000 {
        low as i64
    } else {
        (low - 0x1_0000_0000_0000_0000) as i64
    }
}

/// The bytes of `n`: its low seven bits, with the continuation bit where more
/// follows, then the bytes of what is left. Zero is the single byte zero.
pub open spec fn var_bytes(n: nat) -> Seq<u8>
    decreases n,
{
    if n < 128 {
        seq![n as u8]
    } else {
        seq![(n % 128 + 128) as u8] + var_bytes(n / 128)
    }
}

/// What reading a chain of at most `max` bytes finds at the front of a window.
pub enum VarScan {
    /// The chain ends within `used` bytes and holds `value`.
    Value { value: nat, used: nat },
    /// The first `max` bytes all carry the continuation bit.
    TooLong,
    /// The window ends, before `max` bytes, within the chain.
    Truncated,
}

/// Reads bytes while the continuation bit is set, each byte's low seven bits
/// standing seven bits above those of the byte before.
pub open spec fn var_scan(window: Seq<u8>, max: nat) -> VarScan
    decreases max,
{
    if max == 0 {
        VarScan::TooLong
    } else if window.len() == 0 {
        VarScan::Truncated
    } else if window[0] < 128 {
        VarScan::Value { value: window[0] as nat, used: 1 }
    } else {
        match var_scan(window.skip(1), (max - 1) as nat) {
            VarScan::Value { value, used } => VarScan::Value {
                value: (window[0] - 128) as nat + 128 * value,
                used: used + 1,
            },
            VarScan::TooLong => VarScan::TooLong,
            VarScan::Truncated => VarScan::Truncated,
        }
    }
}

/// The number of bytes that a scan reads, whatever it finds.
pub open spec fn var_scan_used(window: Seq<u8>, max: nat) -> nat {
    match var_scan(window, max) {
        VarScan::Value { value, used } => used,
        VarScan::TooLong => max,
        VarScan::Truncated => window.len(),
    }
}

/// 128 to the power `count`: the weight of the group at place `count`.
pub open spec fn group_weight(count: nat) -> nat
    decreases count,
{
    if count == 0 {
        1
    } else {
        128 * group_weight((count - 1) as nat)
    }
}

/// The message of a chain that does not end within the type's bound.
pub open spec fn too_long_message(max: nat) -> Seq<char> {
    if max == 5 {
        "VarInt too long"@
    } else {
        "VarLong too long"@
    }
}

/// What a scan comes to as the outcome of reading a value.
pub open spec fn scan_outcome(window: Seq<u8>, short: bool, max: nat) -> Outcome<nat> {
    match var_scan(window, max) {
        VarScan::Value { value, used } => done(value, used),
        VarScan::TooLong => failed(Failure::Malformed(too_long_message(max)), max),
        VarScan::Truncated => failed(ended(short), window.len()),
    }
}

/// A chain is cut off only by a window of fewer than `max` bytes.
pub proof fn lemma_truncated_is_shorter(window: Seq<u8>, max: nat)
    ensures
        var_scan(window, max) is Truncated ==> window.len() < max,
    decreases max,
{
    if max > 0 && window.len() > 0 && window[0] >= 128 {
        lemma_truncated_is_shorter(window.skip(1), (max - 1) as nat);
    }
}

/// The weights of the first ten places fit well within 128 bits.
pub proof fn lemma_group_weight_bound(count: nat)
    requires
        count <= 10,
    ensures
        1 <= group_weight(count) <= 0x40_0000_0000_0000_0000,
        count <= 9 ==> group_weight(count) <= 0x8000_0000_0000_0000,
        count == 5 ==> group_weight(count) == 0x8_0000_0000,
        count == 10 ==> group_weight(count) == 0x40_0000_0000_0000_0000,
{
    reveal_with_fuel(group_weight, 11);
}

/// A scan never reads past the window, nor more than `max` bytes, and the
/// value of a chain is below the weight of the place behind its last group.
pub proof fn lemma_var_scan_bounds(window: Seq<u8>, max: nat)
    ensures
        var_scan_used(window, max) <= window.len() || var_scan(window, max) is TooLong,
        var_scan_used(window, max) <= max,
        var_scan(window, max) is TooLong ==> max <= window.len(),
        var_scan(window, max) matches VarScan::Value { value, used } ==> 1 <= used && value
            < group_weight(used),
        var_scan(window, max) matches VarScan::Value { value, used } ==> value < group_weight(max),
    decreases max,
{
    if max > 0 && window.len() > 0 && window[0] >= 128 {
        lemma_var_scan_bounds(window.skip(1), (max - 1) as nat);
        match var_scan(window.skip(1), (max - 1) as nat) {
            VarScan::Value { value, used } => {
                assert(128 * value + 127 < 128 * group_weight(used)) by (nonlinear_arith)
                    requires
                        value < group_weight(used),
                ;
                assert(128 * value + 127 < 128 * group_weight((max - 1) as nat))
                    by (nonlinear_arith)
                    requires
                        value < group_weight((max - 1) as nat),
                ;
            },
            _ => {},
        }
    } else if max > 0 && window.len() > 0 {
        lemma_group_weight_bound(0);
        assert(group_weight(max) >= 128) by {
            assert(group_weight((max - 1) as nat) >= 1) by {
                lemma_group_weight_positive((max - 1) as nat);
            }
        }
    }
}

/// A later place weighs at least as much as an earlier one.
pub proof fn lemma_group_weight_grows(low: nat, high: nat)
    requires
        low <= high,
    ensures
        group_weight(low) <= group_weight(high),
    decreases high,
{
    if low < high {
        lemma_group_weight_grows(low, (high - 1) as nat);
    }
}

/// Every weight is at least one.
pub proof fn lemma_group_weight_positive(count: nat)
    ensures
        group_weight(count) >= 1,
    decreases count,
{
    if count > 0 {
        lemma_group_weight_positive((count - 1) as nat);
    }
}

/// The bytes of a number below the weight of place `max` are at most `max`,
/// and a scan of them, whatever follows, finds the number in just those bytes.
pub proof fn lemma_scan_of_var_bytes(n: nat, rest: Seq<u8>, max: nat)
    requires
        1 <= max,
        n < group_weight(max),
    ensures
        1 <= var_bytes(n).len() <= max,
        var_scan(var_bytes(n) + rest, max) == (VarScan::Value {
            value: n,
            used: var_bytes(n).len(),
        }),
    decreases max,
{
    let bytes = var_bytes(n) + rest;
    if n < 128 {
        assert(bytes[0] == n as u8);
    } else {
        assert(max >= 2) by {
            if max == 1 {
                assert(group_weight(1) == 128 * group_weight(0));
            }
        }
        assert(n / 128 < group_weight((max - 1) as nat));
        lemma_scan_of_var_bytes(n / 128, rest, (max - 1) as nat);
        assert(bytes[0] == (n % 128 + 128) as u8);
        assert(bytes.skip(1) =~= var_bytes(n / 128) + rest);
    }
}

/// Reads one chain of at most `max` bytes and returns the number it holds.
fn read_groups(stream: &mut DataStream, max: usize) -> (result: Result<u128, DeserializeError>)
    requires
        max == 5 || max == 10,
    ensures
        ({
            let expected = scan_outcome(
                old(stream)@.window(),
                old(stream)@.short(),
                max as nat,
            );
            &&& expected.used <= old(stream)@.window().len()
            &&& final(stream)@ == old(stream)@.advance(expected.used)
            &&& match result {
                Ok(value) => expected.result == Ok::<nat, Failure>(value as nat),
                Err(error) => expected.result == Err::<nat, Failure>(error@),
            }
        }),
{
    broadcast use {lemma_advance_zero, lemma_advance_window, lemma_advance_twice};

    let ghost window = old(stream)@.window();
    let mut value: u128 = 0;
    let mut weight: u128 = 1;
    let mut count: usize = 0;
    assert(window.skip(0) =~= window);
    loop
        invariant
            max == 5 || max == 10,
            window == old(stream)@.window(),
            count <= max,
            count <= window.len(),
            weight == group_weight(count as nat),
            value < weight,
            stream@ == old(stream)@.advance(count as nat),
            var_scan(window, max as nat) == lift_scan(
                var_scan(window.skip(count as int), (max - count) as nat),
                value as nat,
                weight as nat,
                count as nat,
            ),
        decreases max - count,
    {
        proof {
            lemma_group_weight_bound(count as nat);
            lemma_advance_window(old(stream)@, count as nat);
        }
        if count == max {
            let message = if max == 5 {
                "VarInt too long".to_string()
            } else {
                "VarLong too long".to_string()
            };
            return Err(DeserializeError::MalformedPacket(message));
        }
        let byte = match stream.read_byte() {
            Ok(byte) => byte,
            Err(error) => {
                assert(window.skip(count as int).len() == 0);
                return Err(ended_error(stream, error));
            },
        };
        proof {
            lemma_advance_twice(old(stream)@, count as nat, 1);
            assert(window.skip(count as int)[0] == window[count as int]);
            assert(window.skip(count as int).skip(1) =~= window.skip(count + 1));
        }
        let group: u128 = (byte % 128) as u128;
        assert(group * weight <= 127 * weight) by (nonlinear_arith)
            requires
                group <= 127,
        ;
        let ghost before = value;
        value = value + group * weight;
        if byte < 128 {
            proof {
                assert(group == byte);
                assert(weight * byte == group * weight) by (nonlinear_arith)
                    requires
                        group == byte,
                ;
            }
            return Ok(value);
        }
        proof {
            let tail = var_scan(window.skip(count + 1), (max - count - 1) as nat);
            assert(group == byte - 128);
            match tail {
                VarScan::Value { value: v, used } => {
                    assert(before + weight * ((byte - 128) + 128 * v) == (before + (byte - 128)
                        * weight) + (128 * weight) * v) by (nonlinear_arith);
                },
                _ => {},
            }
        }
        weight = weight * 128;
        count = count + 1;
    }
}

/// A scan behind `count` bytes that all carry the continuation bit and hold
/// `value` between them, seen from the front of the chain.
pub open spec fn lift_scan(tail: VarScan, value: nat, weight: nat, count: nat) -> VarScan {
    match tail {
        VarScan::Value { value: v, used } => VarScan::Value {
            value: value + weight * v,
            used: used + count,
        },
        VarScan::TooLong => VarScan::TooLong,
        VarScan::Truncated => VarScan::Truncated,
    }
}

/// The number of bytes in the chain of `n`.
fn count_groups(n: u64) -> (count: usize)
    ensures
        count == var_bytes(n as nat).len(),
        1 <= count <= 10,
{
    proof {
        lemma_group_weight_bound(10);
        lemma_scan_of_var_bytes(n as nat, Seq::empty(), 10);
    }
    let mut count: usize = 1;
    let mut rest: u64 = n;
    while rest >= 128
        invariant
            1 <= count,
            count + var_bytes(rest as nat).len() == var_bytes(n as nat).len() + 1,
            var_bytes(n as nat).len() <= 10,
        decreases rest,
    {
        rest = rest / 128;
        count = count + 1;
    }
    count
}

/// Appends the chain of `n` to `out`.
fn write_groups(n: u64, out: &mut Vec<u8>)
    ensures
        final(out)@ == old(out)@ + var_bytes(n as nat),
{
    let mut rest: u64 = n;
    while rest >= 128
        invariant
            out@ + var_bytes(rest as nat) == old(out)@ + var_bytes(n as nat),
        decreases rest,
    {
        let ghost before = out@;
        out.push((rest % 128 + 128) as u8);
        proof {
            assert(before + var_bytes(rest as nat) =~= out@ + var_bytes((rest / 128) as nat));
        }
        rest = rest / 128;
    }
    let ghost before = out@;
    out.push(rest as u8);
    assert(out@ =~= before + var_bytes(rest as nat));
}

impl DeepView for VarInt {
    type V = VarInt;

    open spec fn deep_view(&self) -> VarInt {
        *self
    }
}

impl DeepView for VarLong {
    type V = VarLong;

    open spec fn deep_view(&self) -> VarLong {
        *self
    }
}

impl VarInt {
    /// The value's 32 bits as an unsigned number.
    fn bits(&self) -> (bits: u64)
        ensures
            bits == bits32(self.0),
    {
        if self.0 >= 0 {
            self.0 as u64
        } else {
            (self.0 as i64 + 0x1_0000_0000) as u64
        }
    }

    /// Reads one value from a channel that has no budget laid over it, and
    /// returns the bare integer. A channel that ends within the value has
    /// failed.
    pub fn read(from: &mut ByteChannel) -> (result: Result<i32, DeserializeError>)
        ensures
            ({
                let expected = VarInt::parse(old(from).unread(), true);
                &&& expected.used <= old(from).unread().len()
                &&& final(from).unread() == old(from).unread().skip(expected.used as int)
                &&& final(from).written() == old(from).written()
                &&& match result {
                    Ok(value) => expected.result == Ok::<VarInt, Failure>(VarInt(value)),
                    Err(error) => expected.result == Err::<VarInt, Failure>(error@),
                }
            }),
    {
        let mut owned = ByteChannel::new();
        core::mem::swap(from, &mut owned);
        let _ = owned.available();
        let mut stream = DataStream::new(owned, usize::MAX);
        assert(stream@.window() =~= old(from).unread());
        proof {
            lemma_truncated_is_shorter(old(from).unread(), 5);
        }
        let result = VarInt::deserialize(&mut stream);
        let mut back = stream.into_inner();
        core::mem::swap(from, &mut back);
        match result {
            Ok(value) => Ok(value.0),
            Err(error) => Err(error),
        }
    }
}

impl Serialize for VarInt {
    open spec fn wire(&self) -> Seq<u8> {
        var_bytes(bits32(self.0))
    }

    open spec fn encodable(&self) -> bool {
        true
    }

    fn size(&self) -> (size: usize) {
        count_groups(self.bits())
    }

    fn checked_size(&self) -> (size: Option<usize>) {
        Some(count_groups(self.bits()))
    }

    fn serialize(&self, stream: &mut Vec<u8>) {
        write_groups(self.bits(), stream)
    }
}

impl Deserialize for VarInt {
    open spec fn parse(window: Seq<u8>, short: bool) -> Outcome<VarInt> {
        let scan = scan_outcome(window, short, 5);
        match scan.result {
            Ok(n) => done(VarInt(from_bits32(n)), scan.used),
            Err(failure) => failed(failure, scan.used),
        }
    }

    fn deserialize(stream: &mut DataStream) -> (result: Result<Self, DeserializeError>) {
        let n = read_groups(stream, VAR_INT_MAX_BYTES)?;
        let low: u64 = (n % 0x1_0000_0000) as u64;
        if low < 0x8000_0000 {
            Ok(VarInt(low as i32))
        } else {
            Ok(VarInt((low as i64 - 0x1_0000_0000) as i32))
        }
    }
}

impl VarLong {
    /// The value's 64 bits as an unsigned number.
    fn bits(&self) -> (bits: u64)
        ensures
            bits == bits64(self.0),
    {
        if self.0 >= 0 {
            self.0 as u64
        } else {
            (self.0 as i128 + 0x1_0000_0000_0000_0000) as u64
        }
    }

    /// Reads one value from a channel that has no budget laid over it, and
    /// returns the bare integer. A channel that ends within the value has
    /// failed.
    pub fn read(from: &mut ByteChannel) -> (result: Result<i64, DeserializeError>)
        ensures
            ({
                let expected = VarLong::parse(old(from).unread(), true);
                &&& expected.used <= old(from).unread().len()
                &&& final(from).unread() == old(from).unread().skip(expected.used as int)
                &&& final(from).written() == old(from).written()
                &&& match result {
                    Ok(value) => expected.result == Ok::<VarLong, Failure>(VarLong(value)),
                    Err(error) => expected.result == Err::<VarLong, Failure>(error@),
                }
            }),
    {
        let mut owned = ByteChannel::new();
        core::mem::swap(from, &mut owned);
        let _ = owned.available();
        let mut stream = DataStream::new(owned, usize::MAX);
        assert(stream@.window() =~= old(from).unread());
        proof {
            lemma_truncated_is_shorter(old(from).unread(), 10);
        }
        let result = VarLong::deserialize(&mut stream);
        let mut back = stream.into_inner();
        core::mem::swap(from, &mut back);
        match result {
            Ok(value) => Ok(value.0),
            Err(error) => Err(error),
        }
    }
}

impl Serialize for VarLong {
    open spec fn wire(&self) -> Seq<u8> {
        var_bytes(bits64(self.0))
    }

    open spec fn encodable(&self) -> bool {
        true
    }

    fn size(&self) -> (size: usize) {
        count_groups(self.bits())
    }

    fn checked_size(&self) -> (size: Option<usize>) {
        Some(count_groups(self.bits()))
    }

    fn serialize(&self, stream: &mut Vec<u8>) {
        write_groups(self.bits(), stream)
    }
}

impl Deserialize for VarLong {
    open spec fn parse(window: Seq<u8>, short: bool) -> Outcome<VarLong> {
        let scan = scan_outcome(window, short, 10);
        match scan.result {
            Ok(n) => done(VarLong(from_bits64(n)), scan.used),
            Err(failure) => failed(failure, scan.used),
        }
    }

    fn deserialize(stream: &mut DataStream) -> (result: Result<Self, DeserializeError>) {
        let n = read_groups(stream, VAR_LONG_MAX_BYTES)?;
        let low: u64 = (n % 0x1_0000_0000_0000_0000) as u64;
        if low < 0x8000_0000_0000_0000 {
            Ok(VarLong(low as i64))
        } else {
            Ok(VarLong((low as i128 - 0x1_0000_0000_0000_0000) as i64))
        }
    }
}

/// A 32-bit value's bits, read back as a signed number, are the value.
pub proof fn lemma_bits32_round_trip(v: i32)
    ensures
        bits32(v) < 0x1_0000_0000,
        from_bits32(bits32(v)) == v,
{
}

/// A 64-bit value's bits, read back as a signed number, are the value.
pub proof fn lemma_bits64_round_trip(v: i64)
    ensures
        bits64(v) < 0x1_0000_0000_0000_0000,
        from_bits64(bits64(v)) == v,
{
}

/// Reading the bytes of any `VarInt`, whatever follows them, gives the value
/// back from just those bytes, which are at most five; zero is the one byte
/// zero.
pub proof fn lemma_var_int_round_trip(value: VarInt, rest: Seq<u8>, short: bool)
    ensures
        1 <= value.wire().len() <= 5,
        VarInt::parse(value.wire() + rest, short) == done(value, value.wire().len()),
        VarInt(0).wire() == seq![0u8],
{
    lemma_bits32_round_trip(value.0);
    lemma_group_weight_bound(5);
    lemma_scan_of_var_bytes(bits32(value.0), rest, 5);
}

/// Reading the bytes of any `VarLong`, whatever follows them, gives the value
/// back from just those bytes, which are at most ten; zero is the one byte
/// zero.
pub proof fn lemma_var_long_round_trip(value: VarLong, rest: Seq<u8>, short: bool)
    ensures
        1 <= value.wire().len() <= 10,
        VarLong::parse(value.wire() + rest, short) == done(value, value.wire().len()),
        VarLong(0).wire() == seq![0u8],
{
    lemma_bits64_round_trip(value.0);
    lemma_group_weight_bound(10);
    lemma_scan_of_var_bytes(bits64(value.0), rest, 10);
}

impl RoundTrip for VarInt {
    open spec fn readable(&self) -> bool {
        true
    }

    proof fn lemma_round_trip(&self, rest: Seq<u8>, short: bool) {
        lemma_var_int_round_trip(*self, rest, short);
    }
}

impl RoundTrip for VarLong {
    open spec fn readable(&self) -> bool {
        true
    }

    proof fn lemma_round_trip(&self, rest: Seq<u8>, short: bool) {
        lemma_var_long_round_trip(*self, rest, short);
    }
}

} // verus!
