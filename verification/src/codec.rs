//! The two capabilities of a value on the wire: giving its bytes, and being
//! read back from a bounded stream.

use crate::nbt::{NbtError, NbtFailure};
use crate::stream::{lemma_advance_twice, lemma_advance_window, DataStream, IoError, StreamView};
use vstd::prelude::*;

verus! {

/// Why a value could not be written.
#[derive(Debug, Clone, Copy, PartialEq, Eq, Structural)]
pub enum SerializeError {
    /// The format cannot express the value: a count, or the length of the
    /// frame, does not fit the 32 bits that the format gives it.
    Unencodable,
}

/// Why a value could not be read from a stream.
#[derive(Debug)]
pub enum DeserializeError {
    /// The channel failed: it gave fewer bytes than the frame promises. The
    /// connection cannot go on.
    Io(IoError),
    /// The payload breaks a rule of the format; the next frame can still be
    /// read.
    MalformedPacket(String),
    /// The payload's tree-structured field breaks a rule of its format.
    Nbt(NbtError),
}

/// What a [`DeserializeError`] stands for.
pub enum Failure {
    Io,
    Malformed(Seq<char>),
    Nbt(NbtFailure),
}

impl View for DeserializeError {
    type V = Failure;

    open spec fn view(&self) -> Failure {
        match self {
            DeserializeError::Io(_) => Failure::Io,
            DeserializeError::MalformedPacket(message) => Failure::Malformed(message@),
            DeserializeError::Nbt(error) => Failure::Nbt(error@),
        }
    }
}

/// The digits of a natural number in base ten, most significant first.
pub open spec fn digits(n: nat) -> Seq<char>
    decreases n,
{
    let last = ((n % 10) as u8 + 48) as char;
    if n < 10 {
        seq![last]
    } else {
        digits(n / 10).push(last)
    }
}

/// An integer in base ten, with a minus sign where it is negative.
pub open spec fn decimal(n: int) -> Seq<char> {
    if n < 0 {
        seq!['-'] + digits((-n) as nat)
    } else {
        digits(n as nat)
    }
}

/// A message that names a number between two fixed parts.
pub open spec fn number_message(before: Seq<char>, n: int, after: Seq<char>) -> Seq<char> {
    before + decimal(n) + after
}

/// Calls `format!` to put `n`, as `Display` prints an integer, between
/// `before` and `after`. The contract claims that this is the number in base
/// ten with a leading minus sign where it is negative, as the documentation
/// of `Display` for the integer types has it.
#[verifier::external_body]
pub(crate) fn format_number(before: &str, n: i64, after: &str) -> (message: String)
    ensures
        message@ == number_message(before@, n as int, after@),
{
    format!("{}{}{}", before, n, after)
}

/// The error of a payload that breaks a rule, with the number that broke it
/// named in the message.
pub(crate) fn malformed_with_number(before: &str, n: i64, after: &str) -> (error:
    DeserializeError)
    ensures
        error@ == Failure::Malformed(number_message(before@, n as int, after@)),
{
    DeserializeError::MalformedPacket(format_number(before, n, after))
}

/// The error of a payload that breaks a rule.
pub(crate) fn malformed(message: &str) -> (error: DeserializeError)
    ensures
        error@ == Failure::Malformed(message@),
{
    DeserializeError::MalformedPacket(message.to_string())
}

/// The message of a payload that ends within a value.
pub open spec fn cut_short_message() -> Seq<char> {
    "Unexpected end of packet"@
}

/// The failure of a window that ends within a value. Where the budget
/// promises more bytes than the channel holds, the channel has failed. Where
/// the channel holds all that the budget promises, the payload is shorter
/// than its fields: it breaks a rule of the format.
pub open spec fn ended(short: bool) -> Failure {
    if short {
        Failure::Io
    } else {
        Failure::Malformed(cut_short_message())
    }
}

/// The error of a read that found the window empty: the channel's where the
/// budget is not used up, the payload's where it is.
pub(crate) fn ended_error(stream: &DataStream, error: IoError) -> (result: DeserializeError)
    requires
        stream@.window().len() == 0,
    ensures
        result@ == ended(stream@.short()),
{
    if stream.remaining_size() == 0 {
        malformed("Unexpected end of packet")
    } else {
        DeserializeError::Io(error)
    }
}

/// What reading a value from a window of bytes comes to: the value or the
/// failure, and the number of bytes read until then.
pub struct Outcome<V> {
    pub result: Result<V, Failure>,
    pub used: nat,
}

/// The outcome of a read that gave `value` from `used` bytes.
pub open spec fn done<V>(value: V, used: nat) -> Outcome<V> {
    Outcome { result: Ok(value), used }
}

/// The outcome of a read that failed after `used` bytes.
pub open spec fn failed<V>(failure: Failure, used: nat) -> Outcome<V> {
    Outcome { result: Err(failure), used }
}

/// The outcome of reading one value and then, behind it, a second one:
/// `second` is what reading the second gives on the bytes that the first
/// left. The first failure ends the read.
pub open spec fn pair<A, B>(first: Outcome<A>, second: Outcome<B>) -> Outcome<(A, B)> {
    match first.result {
        Err(failure) => failed(failure, first.used),
        Ok(a) => match second.result {
            Err(failure) => failed(failure, first.used + second.used),
            Ok(b) => done((a, b), first.used + second.used),
        },
    }
}

/// The bytes of `window` behind its first `used`; none where it holds fewer.
pub open spec fn rest(window: Seq<u8>, used: nat) -> Seq<u8> {
    if used <= window.len() {
        window.skip(used as int)
    } else {
        Seq::empty()
    }
}

/// The outcome of a read whose value is made into another by `make`.
pub open spec fn made<A, B>(outcome: Outcome<A>, make: spec_fn(A) -> B) -> Outcome<B> {
    match outcome.result {
        Ok(value) => done(make(value), outcome.used),
        Err(failure) => failed(failure, outcome.used),
    }
}

/// The outcome `rest` of a read that began behind `used` bytes, seen from
/// the front of those bytes.
pub open spec fn behind<V>(used: nat, rest: Outcome<V>) -> Outcome<V> {
    Outcome { result: rest.result, used: used + rest.used }
}

/// How far the read of a record has come: the bytes that its fields took so
/// far, and the failure of the first field that could not be read.
pub struct Progress {
    pub used: nat,
    pub failure: Option<Failure>,
}

/// The read of a record before its first field.
pub open spec fn begin() -> Progress {
    Progress { used: 0, failure: None }
}

/// The read of a record after one more field, whose own read came to
/// `field`. Behind a failure nothing more is read.
pub open spec fn step<V>(before: Progress, field: Outcome<V>) -> Progress {
    if before.failure is Some {
        before
    } else {
        Progress {
            used: before.used + field.used,
            failure: match field.result {
                Ok(_) => None,
                Err(failure) => Some(failure),
            },
        }
    }
}

/// The outcome of the read of a record: the record made of its fields, or
/// the first failure.
pub open spec fn finish<V>(progress: Progress, value: V) -> Outcome<V> {
    match progress.failure {
        Some(failure) => failed(failure, progress.used),
        None => done(value, progress.used),
    }
}

/// After the fields before it took `before.used` bytes of a stream that
/// began at `start`, reading one more field leaves the stream where the
/// progress with that field says.
pub proof fn lemma_field<V>(start: StreamView, before: Progress, field: Outcome<V>)
    requires
        before.failure is None,
        before.used <= start.window().len(),
        field.used <= start.advance(before.used).window().len(),
    ensures
        step(before, field).used == before.used + field.used,
        step(before, field).used <= start.window().len(),
        start.advance(before.used).advance(field.used) == start.advance(
            step(before, field).used,
        ),
        start.advance(step(before, field).used).window() == start.window().skip(
            step(before, field).used as int,
        ),
        start.advance(step(before, field).used).short() == start.short(),
        field.result is Ok ==> step(before, field).failure is None,
        field.result matches Err(failure) ==> step(before, field).failure == Some(failure),
{
    lemma_advance_window(start, before.used);
    lemma_advance_twice(start, before.used, field.used);
    lemma_advance_window(start, before.used + field.used);
}

/// Reads the next field of a record whose read began at `start` and has come
/// as far as `before`.
pub(crate) fn field<T: Deserialize>(
    stream: &mut DataStream,
    Ghost(start): Ghost<StreamView>,
    Ghost(before): Ghost<Progress>,
) -> (result: Result<T, DeserializeError>)
    requires
        before.failure is None,
        before.used <= start.window().len(),
        old(stream)@ == start.advance(before.used),
    ensures
        ({
            let read = T::parse(start.window().skip(before.used as int), start.short());
            let after = step(before, read);
            &&& after.used == before.used + read.used
            &&& after.used <= start.window().len()
            &&& final(stream)@ == start.advance(after.used)
            &&& match result {
                Ok(value) => read.result == Ok::<T::V, Failure>(value.deep_view())
                    && after.failure is None,
                Err(error) => read.result == Err::<T::V, Failure>(error@) && after.failure
                    == Some(error@),
            }
        }),
{
    proof {
        lemma_advance_window(start, before.used);
    }
    let ghost read = T::parse(stream@.window(), stream@.short());
    let result = T::deserialize(stream);
    proof {
        lemma_field(start, before, read);
    }
    result
}

/// Whether a read that went from `before` to `after` and returned `result` is
/// the read that `expected` describes.
pub open spec fn decoded<T: DeepView>(
    before: StreamView,
    after: StreamView,
    result: Result<T, DeserializeError>,
    expected: Outcome<T::V>,
) -> bool {
    &&& expected.used <= before.window().len()
    &&& after == before.advance(expected.used)
    &&& match result {
        Ok(value) => expected.result == Ok::<T::V, Failure>(value.deep_view()),
        Err(error) => expected.result == Err::<T::V, Failure>(error@),
    }
}

/// The sum of two sizes, where both are there and the sum fits.
pub(crate) fn add_sizes(first: Option<usize>, second: Option<usize>) -> (sum: Option<usize>)
    ensures
        match sum {
            Some(n) => first is Some && second is Some && n == first->Some_0 + second->Some_0,
            None => first is None || second is None || first->Some_0 + second->Some_0
                > usize::MAX,
        },
{
    match (first, second) {
        (Some(a), Some(b)) => a.checked_add(b),
        _ => None,
    }
}

/// A value that has a form on the wire.
pub trait Serialize {
    /// The bytes of the value on the wire.
    spec fn wire(&self) -> Seq<u8>;

    /// Whether the format can express the value.
    spec fn encodable(&self) -> bool;

    /// The exact number of bytes that `serialize` writes.
    fn size(&self) -> (size: usize)
        requires
            self.encodable(),
            self.wire().len() <= usize::MAX,
        ensures
            size == self.wire().len(),
    ;

    /// The number of bytes that `serialize` writes, where the format can
    /// express the value and the number fits.
    fn checked_size(&self) -> (size: Option<usize>)
        ensures
            match size {
                Some(n) => self.encodable() && n == self.wire().len(),
                None => !self.encodable() || self.wire().len() > usize::MAX,
            },
    ;

    /// Appends the value's bytes to `stream`.
    fn serialize(&self, stream: &mut Vec<u8>)
        requires
            self.encodable(),
        ensures
            final(stream)@ == old(stream)@ + self.wire(),
    ;
}

/// A value that can be read from a bounded stream.
pub trait Deserialize: Sized + DeepView {
    /// What reading a value gives on the window `window`; `short` tells
    /// whether the stream's budget promises more bytes than its channel
    /// holds. It decides what a window that ends within the value means:
    /// see [`ended`].
    spec fn parse(window: Seq<u8>, short: bool) -> Outcome<Self::V>;

    /// Reads a value from the front of the stream's window.
    fn deserialize(stream: &mut DataStream) -> (result: Result<Self, DeserializeError>)
        ensures
            decoded(
                old(stream)@,
                final(stream)@,
                result,
                Self::parse(old(stream)@.window(), old(stream)@.short()),
            ),
    ;
}

/// A value that reads back as itself: whatever follows its bytes, reading
/// them gives the value, from just those bytes.
pub trait RoundTrip: Serialize + Deserialize {
    /// Whether the value is one that the reader takes: for a value of text,
    /// that no character of it takes four bytes.
    spec fn readable(&self) -> bool;

    /// Reading the bytes of the value, whatever follows them, gives the
    /// value back and takes just those bytes.
    proof fn lemma_round_trip(&self, rest: Seq<u8>, short: bool)
        requires
            self.encodable(),
            self.readable(),
        ensures
            Self::parse(self.wire() + rest, short) == done(self.deep_view(), self.wire().len()),
    ;
}

} // verus!
