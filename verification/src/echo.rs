//! What was read can be written: a value that a read gave is one that the
//! format can express, in no more bytes than the read took.

use crate::codec::{begin, step, Deserialize, Failure, Serialize};
use crate::containers::{repeat, wire_all};
use crate::packets::{KnownPack, KnownPacks};
use crate::text::{char_run, utf8_width};
use crate::varint::{
    bits32, group_weight, lemma_group_weight_grows, lemma_scan_of_var_bytes,
    lemma_var_int_round_trip, lemma_var_scan_bounds, var_bytes, var_scan, VarInt, VarScan,
};
use vstd::prelude::*;
use vstd::utf8::{
    decode_utf8, decode_utf8_encode_utf8, encode_utf8, length_of_first_scalar, pop_first_scalar,
    valid_first_scalar, valid_utf8,
};

verus! {

/// The bytes of a `VarInt` that was read are no more than the read took.
pub proof fn lemma_var_int_echo(window: Seq<u8>, short: bool)
    ensures
        VarInt::parse(window, short).result matches Ok(value) ==> value.wire().len()
            <= VarInt::parse(window, short).used,
{
    lemma_var_scan_bounds(window, 5);
    if let VarScan::Value { value: raw, used } = var_scan(window, 5) {
        let value = VarInt::parse(window, short).result->Ok_0;
        lemma_var_int_round_trip(value, Seq::empty(), short);
        if used < 5 {
            assert(group_weight(4) == 0x1000_0000) by {
                reveal_with_fuel(group_weight, 5);
            }
            lemma_group_weight_grows(used, 4);
            assert(raw % 0x1_0000_0000 == raw);
            assert(bits32(value.0) == raw);
            lemma_scan_of_var_bytes(raw, Seq::empty(), used);
        }
    }
}

/// The bytes that a string takes on the wire, by its text.
pub open spec fn text_wire_len(text: Seq<char>) -> nat {
    VarInt(text.len() as i32).wire().len() + encode_utf8(text).len()
}

/// Characters that were taken one by one, each as long as its first byte
/// says, and that together are well-formed text, are as many characters of
/// text as were taken.
pub proof fn lemma_char_run_counts(window: Seq<u8>, count: nat)
    requires
        char_run(window, count) is Run,
        char_run(window, count)->Run_0 <= window.len(),
        valid_utf8(window.take(char_run(window, count)->Run_0 as int)),
    ensures
        decode_utf8(window.take(char_run(window, count)->Run_0 as int)).len() == count,
    decreases count,
{
    let len = char_run(window, count)->Run_0;
    let bytes = window.take(len as int);
    if count > 0 {
        let width = utf8_width(window[0]);
        let after = window.skip(width as int);
        assert(bytes.len() > 0);
        assert(bytes[0] == window[0]);
        assert(valid_first_scalar(bytes));
        assert(length_of_first_scalar(bytes) == width);
        assert(pop_first_scalar(bytes) =~= after.take((len - width) as int));
        crate::text::lemma_char_run_bound(after, (count - 1) as nat);
        lemma_char_run_counts(after, (count - 1) as nat);
    }
}

/// A string that was read has a count of characters that the format can
/// express, and its bytes are no more than the read took.
pub proof fn lemma_string_echo(window: Seq<u8>, short: bool)
    ensures
        String::parse(window, short).result matches Ok(text) ==> text.len() <= i32::MAX
            && text_wire_len(text) <= String::parse(window, short).used,
{
    let head = VarInt::parse(window, short);
    if String::parse(window, short).result is Ok {
        let n = head.result->Ok_0.0;
        let body = window.skip(head.used as int);
        let len = char_run(body, n as nat)->Run_0;
        let text = String::parse(window, short).result->Ok_0;
        crate::text::lemma_char_run_bound(body, n as nat);
        lemma_char_run_counts(body, n as nat);
        decode_utf8_encode_utf8(body.take(len as int));
        lemma_var_int_echo(window, short);
        assert(text.len() == n);
    }
}

/// What a pack stands for: its three texts.
pub type PackValue = (Seq<char>, Seq<char>, Seq<char>);

/// Whether the format can express a pack: each of its texts.
pub open spec fn pack_fits(pack: PackValue) -> bool {
    pack.0.len() <= i32::MAX && pack.1.len() <= i32::MAX && pack.2.len() <= i32::MAX
}

/// The bytes that a pack takes on the wire.
pub open spec fn pack_wire_len(pack: PackValue) -> nat {
    text_wire_len(pack.0) + text_wire_len(pack.1) + text_wire_len(pack.2)
}

/// A pack that was read can be written in no more bytes than the read took.
pub proof fn lemma_known_pack_echo(window: Seq<u8>, short: bool)
    ensures
        KnownPack::parse(window, short).result matches Ok(pack) ==> pack_fits(pack)
            && pack_wire_len(pack) <= KnownPack::parse(window, short).used,
{
    let r0 = String::parse(window, short);
    let at1 = step(begin(), r0);
    let r1 = String::parse(window.skip(at1.used as int), short);
    let at2 = step(at1, r1);
    lemma_string_echo(window, short);
    lemma_string_echo(window.skip(at1.used as int), short);
    lemma_string_echo(window.skip(at2.used as int), short);
}

/// The bytes that packs take on the wire, one behind the other.
pub open spec fn packs_wire_len(packs: Seq<PackValue>) -> nat
    decreases packs.len(),
{
    if packs.len() == 0 {
        0
    } else {
        packs_wire_len(packs.drop_last()) + pack_wire_len(packs.last())
    }
}

/// A pack before other packs takes its bytes before theirs.
pub proof fn lemma_packs_wire_len_front(first: PackValue, others: Seq<PackValue>)
    ensures
        packs_wire_len(seq![first] + others) == pack_wire_len(first) + packs_wire_len(others),
    decreases others.len(),
{
    let all = seq![first] + others;
    assert(all.len() == others.len() + 1);
    if others.len() == 0 {
        assert(all.drop_last() =~= Seq::<PackValue>::empty());
        assert(all.last() == first);
        assert(packs_wire_len(all.drop_last()) == 0);
    } else {
        lemma_packs_wire_len_front(first, others.drop_last());
        assert(all.drop_last() =~= seq![first] + others.drop_last());
        assert(all.last() == others.last());
    }
}

/// Packs that were read, one behind the other, are as many as were asked
/// for, and can be written in no more bytes than the read took.
pub proof fn lemma_known_packs_echo(window: Seq<u8>, short: bool, count: nat)
    ensures
        repeat::<KnownPack>(window, short, count).result matches Ok(packs) ==> packs.len()
            == count && (forall|i: int| 0 <= i < packs.len() ==> pack_fits(#[trigger] packs[i]))
            && packs_wire_len(packs) <= repeat::<KnownPack>(window, short, count).used,
    decreases count,
{
    if count > 0 {
        let first = KnownPack::parse(window, short);
        lemma_known_pack_echo(window, short);
        if first.result is Ok {
            let rest = repeat::<KnownPack>(
                window.skip(first.used as int),
                short,
                (count - 1) as nat,
            );
            lemma_known_packs_echo(window.skip(first.used as int), short, (count - 1) as nat);
            if rest.result is Ok {
                lemma_packs_wire_len_front(first.result->Ok_0, rest.result->Ok_0);
            }
        }
    }
}

/// What packs stand for give the bytes that the packs take.
pub proof fn lemma_packs_wire(packs: Seq<KnownPack>)
    ensures
        wire_all(packs).len() == packs_wire_len(
            Seq::new(packs.len(), |i: int| packs[i].deep_view()),
        ),
    decreases packs.len(),
{
    let values = Seq::new(packs.len(), |i: int| packs[i].deep_view());
    if packs.len() > 0 {
        let front = packs.drop_last();
        lemma_packs_wire(front);
        assert(values.drop_last() =~= Seq::new(front.len(), |i: int| front[i].deep_view()));
    }
}

/// The packs of a list that was read from a window of fewer bytes than a
/// frame may have can be sent back.
pub proof fn lemma_known_packs_sendable(window: Seq<u8>, short: bool, packet: KnownPacks)
    requires
        KnownPacks::parse(window, short).result == Ok::<Seq<PackValue>, Failure>(
            packet.deep_view(),
        ),
        KnownPacks::parse(window, short).used <= window.len(),
        window.len() < i32::MAX,
    ensures
        crate::send::sendable(&packet),
{
    let count = VarInt::parse(window, short);
    let n = count.result->Ok_0.0;
    let read = repeat::<KnownPack>(window.skip(count.used as int), short, n as nat);
    lemma_var_int_echo(window, short);
    lemma_known_packs_echo(window.skip(count.used as int), short, n as nat);
    lemma_packs_wire(packet.0@);
    let values = packet.0.deep_view();
    assert(KnownPacks::parse(window, short).used == count.used + read.used);
    assert(read.result == Ok::<Seq<PackValue>, Failure>(values));
    assert(values =~= Seq::new(packet.0@.len(), |i: int| packet.0@[i].deep_view()));
    assert forall|i: int| 0 <= i < packet.0@.len() implies (#[trigger] packet.0@[
        i
    ]).encodable() by {
        assert(pack_fits(values[i]));
    }
    assert(packet.0@.len() == n);
    assert(packet.encodable());
    assert(packet.wire().len() <= count.used + read.used);
    assert(var_bytes(7) =~= seq![7u8]);
    crate::packets::lemma_serverbound_ids();
}

} // verus!
