//! Item stacks, and the ways in which a recipe shows what goes into a slot.

use crate::codec::{
    behind, decoded, done, ended, failed, made, malformed, malformed_with_number, number_message,
    rest, Deserialize, DeserializeError, Failure, Outcome,
};
use crate::containers::{behind_items, deserialize_slice, negative_count_message, repeat};
use crate::datatypes::EnumRepr;
use crate::stream::{lemma_advance_twice, lemma_advance_window, lemma_advance_zero, DataStream};
use crate::varint::VarInt;
use vstd::prelude::*;

verus! {

/// A component of an item stack. The format of components is not known
/// here: every read of one fails, so no read gives a value of this type.
#[derive(Debug)]
pub enum StructuredComponent {
    Unknown,
}

impl DeepView for StructuredComponent {
    type V = ();

    open spec fn deep_view(&self) -> () {
        ()
    }
}

/// The message of a component, which cannot be read.
pub open spec fn unknown_component_message() -> Seq<char> {
    "Slot: unknown structured component"@
}

impl Deserialize for StructuredComponent {
    open spec fn parse(window: Seq<u8>, short: bool) -> Outcome<()> {
        failed(Failure::Malformed(unknown_component_message()), 0)
    }

    fn deserialize(stream: &mut DataStream) -> (result: Result<Self, DeserializeError>) {
        broadcast use lemma_advance_zero;

        Err(malformed("Slot: unknown structured component"))
    }
}

/// What a slot holds: nothing, or a number of items of a kind.
#[derive(Debug)]
pub enum Slot {
    Empty,
    NonEmpty {
        count: VarInt,
        id: VarInt,
        components_to_add: Vec<StructuredComponent>,
        components_to_remove: Vec<VarInt>,
    },
}

/// What a [`Slot`] stands for.
pub enum SlotValue {
    Empty,
    NonEmpty {
        count: VarInt,
        id: VarInt,
        components_to_add: Seq<()>,
        components_to_remove: Seq<VarInt>,
    },
}

impl DeepView for Slot {
    type V = SlotValue;

    open spec fn deep_view(&self) -> SlotValue {
        match self {
            Slot::Empty => SlotValue::Empty,
            Slot::NonEmpty { count, id, components_to_add, components_to_remove } => {
                SlotValue::NonEmpty {
                    count: *count,
                    id: *id,
                    components_to_add: components_to_add.deep_view(),
                    components_to_remove: components_to_remove.deep_view(),
                }
            },
        }
    }
}

/// The message of a slot whose count of items is below zero.
pub open spec fn negative_item_count_message(count: i32) -> Seq<char> {
    number_message("Slot: Negative item count ("@, count as int, ")"@)
}

/// The message of a slot whose count of components to add is below zero.
pub open spec fn negative_add_count_message(count: i32) -> Seq<char> {
    number_message("Slot: Negative components to add count ("@, count as int, ")"@)
}

/// The message of a slot whose count of components to remove is below zero.
pub open spec fn negative_remove_count_message(count: i32) -> Seq<char> {
    number_message("Slot: Negative components to remove count ("@, count as int, ")"@)
}

impl Deserialize for Slot {
    /// The count of items, which may not be below zero; behind a count above
    /// zero the kind of the items, the counts of the components to add and to
    /// remove, neither below zero, and then the components.
    open spec fn parse(window: Seq<u8>, short: bool) -> Outcome<SlotValue> {
        let count = VarInt::parse(window, short);
        let id = VarInt::parse(window.skip(count.used as int), short);
        let add = VarInt::parse(window.skip((count.used + id.used) as int), short);
        let head = count.used + id.used + add.used;
        let remove = VarInt::parse(window.skip(head as int), short);
        let head = head + remove.used;
        match (count.result, id.result, add.result, remove.result) {
            (Err(failure), _, _, _) => failed(failure, count.used),
            (Ok(VarInt(n)), _, _, _) if n < 0 => failed(
                Failure::Malformed(negative_item_count_message(n)),
                count.used,
            ),
            (Ok(VarInt(n)), _, _, _) if n == 0 => done(SlotValue::Empty, count.used),
            (Ok(_), Err(failure), _, _) => failed(failure, count.used + id.used),
            (Ok(_), Ok(_), Err(failure), _) => failed(failure, count.used + id.used + add.used),
            (Ok(_), Ok(_), Ok(_), Err(failure)) => failed(failure, head),
            (Ok(n), Ok(kind), Ok(VarInt(to_add)), Ok(VarInt(to_remove))) => if to_add < 0 {
                failed(Failure::Malformed(negative_add_count_message(to_add)), head)
            } else if to_remove < 0 {
                failed(Failure::Malformed(negative_remove_count_message(to_remove)), head)
            } else {
                let added = repeat::<StructuredComponent>(
                    window.skip(head as int),
                    short,
                    to_add as nat,
                );
                let removed = repeat::<VarInt>(
                    window.skip((head + added.used) as int),
                    short,
                    to_remove as nat,
                );
                match (added.result, removed.result) {
                    (Err(failure), _) => failed(failure, head + added.used),
                    (Ok(_), Err(failure)) => failed(failure, head + added.used + removed.used),
                    (Ok(a), Ok(r)) => done(
                        SlotValue::NonEmpty {
                            count: n,
                            id: kind,
                            components_to_add: a,
                            components_to_remove: r,
                        },
                        head + added.used + removed.used,
                    ),
                }
            },
        }
    }

    fn deserialize(stream: &mut DataStream) -> (result: Result<Self, DeserializeError>) {
        let ghost start = stream@;
        let ghost window = start.window();
        let ghost short = start.short();
        let ghost count_ = VarInt::parse(window, short);
        let count = VarInt::deserialize(stream)?;
        if count.0 < 0 {
            return Err(
                malformed_with_number("Slot: Negative item count (", count.0 as i64, ")"),
            );
        }
        if count.0 == 0 {
            return Ok(Slot::Empty);
        }
        proof {
            lemma_advance_window(start, count_.used);
        }
        let ghost id_ = VarInt::parse(window.skip(count_.used as int), short);
        let id = VarInt::deserialize(stream);
        proof {
            lemma_advance_twice(start, count_.used, id_.used);
            lemma_advance_window(start, count_.used + id_.used);
        }
        let id = id?;
        let ghost add_ = VarInt::parse(window.skip((count_.used + id_.used) as int), short);
        let components_to_add_count = VarInt::deserialize(stream);
        proof {
            lemma_advance_twice(start, count_.used + id_.used, add_.used);
            lemma_advance_window(start, count_.used + id_.used + add_.used);
        }
        let components_to_add_count = components_to_add_count?;
        let ghost head = count_.used + id_.used + add_.used;
        let ghost remove_ = VarInt::parse(window.skip(head as int), short);
        let components_to_remove_count = VarInt::deserialize(stream);
        proof {
            lemma_advance_twice(start, head, remove_.used);
            lemma_advance_window(start, head + remove_.used);
        }
        let components_to_remove_count = components_to_remove_count?;
        let ghost head = head + remove_.used;
        if components_to_add_count.0 < 0 {
            return Err(
                malformed_with_number(
                    "Slot: Negative components to add count (",
                    components_to_add_count.0 as i64,
                    ")",
                ),
            );
        }
        if components_to_remove_count.0 < 0 {
            return Err(
                malformed_with_number(
                    "Slot: Negative components to remove count (",
                    components_to_remove_count.0 as i64,
                    ")",
                ),
            );
        }
        let ghost added_ = repeat::<StructuredComponent>(
            window.skip(head as int),
            short,
            components_to_add_count.0 as nat,
        );
        let components_to_add = deserialize_slice::<StructuredComponent>(
            stream,
            components_to_add_count.0 as usize,
        );
        proof {
            lemma_advance_twice(start, head, added_.used);
            lemma_advance_window(start, head + added_.used);
        }
        let components_to_add = components_to_add?;
        let ghost removed_ = repeat::<VarInt>(
            window.skip((head + added_.used) as int),
            short,
            components_to_remove_count.0 as nat,
        );
        let components_to_remove = deserialize_slice::<VarInt>(
            stream,
            components_to_remove_count.0 as usize,
        );
        proof {
            lemma_advance_twice(start, head + added_.used, removed_.used);
        }
        let components_to_remove = components_to_remove?;
        Ok(Slot::NonEmpty { count, id, components_to_add, components_to_remove })
    }
}

/// How a recipe shows what goes into a slot.
#[derive(Debug)]
pub enum SlotDisplay {
    Empty,
    AnyFuel,
    Item { item_type: VarInt },
    ItemStack(Slot),
    Tag(String),
    SmithingTrim { base: Box<SlotDisplay>, material: Box<SlotDisplay>, patter: Box<SlotDisplay> },
    WithRemainder { ingredient: Box<SlotDisplay>, remainder: Box<SlotDisplay> },
    Composite(Vec<SlotDisplay>),
}

/// What a [`SlotDisplay`] stands for.
pub enum SlotDisplayValue {
    Empty,
    AnyFuel,
    Item { item_type: VarInt },
    ItemStack(SlotValue),
    Tag(Seq<char>),
    SmithingTrim {
        base: Box<SlotDisplayValue>,
        material: Box<SlotDisplayValue>,
        patter: Box<SlotDisplayValue>,
    },
    WithRemainder { ingredient: Box<SlotDisplayValue>, remainder: Box<SlotDisplayValue> },
    Composite(Seq<SlotDisplayValue>),
}

/// What some displays stand for, in order.
pub open spec fn display_values(items: Seq<SlotDisplay>) -> Seq<SlotDisplayValue>
    decreases items,
{
    if items.len() == 0 {
        Seq::empty()
    } else {
        display_values(items.drop_last()).push(items.last().deep_view())
    }
}

impl DeepView for SlotDisplay {
    type V = SlotDisplayValue;

    open spec fn deep_view(&self) -> SlotDisplayValue
        decreases self,
    {
        match self {
            SlotDisplay::Empty => SlotDisplayValue::Empty,
            SlotDisplay::AnyFuel => SlotDisplayValue::AnyFuel,
            SlotDisplay::Item { item_type } => SlotDisplayValue::Item { item_type: *item_type },
            SlotDisplay::ItemStack(slot) => SlotDisplayValue::ItemStack(slot.deep_view()),
            SlotDisplay::Tag(tag) => SlotDisplayValue::Tag(tag@),
            SlotDisplay::SmithingTrim { base, material, patter } => SlotDisplayValue::SmithingTrim {
                base: Box::new((**base).deep_view()),
                material: Box::new((**material).deep_view()),
                patter: Box::new((**patter).deep_view()),
            },
            SlotDisplay::WithRemainder { ingredient, remainder } => {
                SlotDisplayValue::WithRemainder {
                    ingredient: Box::new((**ingredient).deep_view()),
                    remainder: Box::new((**remainder).deep_view()),
                }
            },
            SlotDisplay::Composite(items) => SlotDisplayValue::Composite(display_values(items@)),
        }
    }
}

/// The message of a display of a kind that is not known.
pub open spec fn unknown_display_message(kind: i32) -> Seq<char> {
    number_message("SlotDisplay: invalid type "@, kind as int, ""@)
}

/// What reading a display gives: its kind, and behind it what the kind
/// holds. A display may hold displays. (The kind that was read took at least
/// one byte: the case that asks for it only shows that the definition ends.)
pub open spec fn display_outcome(window: Seq<u8>, short: bool) -> Outcome<SlotDisplayValue>
    decreases window.len(), 0nat, 0nat,
{
    let tag = VarInt::parse(window, short);
    let body = rest(window, tag.used);
    match tag.result {
        Err(failure) => failed(failure, tag.used),
        Ok(VarInt(n)) => if n == 0 {
            done(SlotDisplayValue::Empty, tag.used)
        } else if n == 1 {
            done(SlotDisplayValue::AnyFuel, tag.used)
        } else if n == 2 {
            behind(
                tag.used,
                made(
                    VarInt::parse(body, short),
                    |item_type: VarInt| SlotDisplayValue::Item { item_type },
                ),
            )
        } else if n == 3 {
            behind(
                tag.used,
                made(Slot::parse(body, short), |slot: SlotValue| SlotDisplayValue::ItemStack(slot)),
            )
        } else if n == 4 {
            behind(
                tag.used,
                made(String::parse(body, short), |tag: Seq<char>| SlotDisplayValue::Tag(tag)),
            )
        } else if tag.used < 1 || window.len() < 1 {
            failed(ended(short), 0)
        } else if n == 5 {
            behind(tag.used, trim_outcome(body, short))
        } else if n == 6 {
            behind(tag.used, with_remainder_outcome(body, short))
        } else if n == 7 {
            behind(tag.used, composite_outcome(body, short))
        } else {
            failed(Failure::Malformed(unknown_display_message(n)), tag.used)
        },
    }
}

/// What reading the three displays of a smithing trim gives.
pub open spec fn trim_outcome(window: Seq<u8>, short: bool) -> Outcome<SlotDisplayValue>
    decreases window.len(), 1nat, 0nat,
{
    let base = display_outcome(window, short);
    let material = display_outcome(rest(window, base.used), short);
    let patter = display_outcome(rest(window, base.used + material.used), short);
    match (base.result, material.result, patter.result) {
        (Err(failure), _, _) => failed(failure, base.used),
        (Ok(_), Err(failure), _) => failed(failure, base.used + material.used),
        (Ok(_), Ok(_), Err(failure)) => failed(failure, base.used + material.used + patter.used),
        (Ok(b), Ok(m), Ok(p)) => done(
            SlotDisplayValue::SmithingTrim {
                base: Box::new(b),
                material: Box::new(m),
                patter: Box::new(p),
            },
            base.used + material.used + patter.used,
        ),
    }
}

/// What reading the two displays of an ingredient with a remainder gives.
pub open spec fn with_remainder_outcome(window: Seq<u8>, short: bool) -> Outcome<SlotDisplayValue>
    decreases window.len(), 1nat, 0nat,
{
    let ingredient = display_outcome(window, short);
    let remainder = display_outcome(rest(window, ingredient.used), short);
    match (ingredient.result, remainder.result) {
        (Err(failure), _) => failed(failure, ingredient.used),
        (Ok(_), Err(failure)) => failed(failure, ingredient.used + remainder.used),
        (Ok(i), Ok(r)) => done(
            SlotDisplayValue::WithRemainder { ingredient: Box::new(i), remainder: Box::new(r) },
            ingredient.used + remainder.used,
        ),
    }
}

/// What reading a composite gives: a count, which may not be below zero,
/// and that many displays.
pub open spec fn composite_outcome(window: Seq<u8>, short: bool) -> Outcome<SlotDisplayValue>
    decreases window.len(), 2nat, 0nat,
{
    let count = VarInt::parse(window, short);
    match count.result {
        Err(failure) => failed(failure, count.used),
        Ok(VarInt(k)) => if k < 0 {
            failed(Failure::Malformed(negative_count_message()), count.used)
        } else {
            behind(
                count.used,
                made(
                    displays_outcome(rest(window, count.used), short, k as nat),
                    |items: Seq<SlotDisplayValue>| SlotDisplayValue::Composite(items),
                ),
            )
        },
    }
}

/// What reading `count` displays, one behind the other, gives.
pub open spec fn displays_outcome(window: Seq<u8>, short: bool, count: nat) -> Outcome<
    Seq<SlotDisplayValue>,
>
    decreases window.len(), 1nat, count,
{
    if count == 0 {
        done(Seq::empty(), 0)
    } else {
        let first = display_outcome(window, short);
        match first.result {
            Err(failure) => failed(failure, first.used),
            Ok(value) => {
                let more = displays_outcome(rest(window, first.used), short, (count - 1) as nat);
                match more.result {
                    Err(failure) => failed(failure, first.used + more.used),
                    Ok(values) => done(seq![value] + values, first.used + more.used),
                }
            },
        }
    }
}

impl SlotDisplay {
    /// Reads `count` displays, one behind the other.
    fn deserialize_all(stream: &mut DataStream, count: i32) -> (result: Result<
        Vec<SlotDisplay>,
        DeserializeError,
    >)
        requires
            count >= 0,
        ensures
            ({
                let expected = displays_outcome(
                    old(stream)@.window(),
                    old(stream)@.short(),
                    count as nat,
                );
                &&& expected.used <= old(stream)@.window().len()
                &&& final(stream)@ == old(stream)@.advance(expected.used)
                &&& match result {
                    Ok(items) => expected.result == Ok::<Seq<SlotDisplayValue>, Failure>(
                        display_values(items@),
                    ),
                    Err(error) => expected.result == Err::<Seq<SlotDisplayValue>, Failure>(
                        error@,
                    ),
                }
            }),
        decreases old(stream)@.window().len(), 1nat,
    {
        broadcast use lemma_advance_zero;

        let ghost start = stream@;
        let ghost window = start.window();
        let ghost short = start.short();
        let mut data: Vec<SlotDisplay> = Vec::new();
        let ghost mut used: nat = 0;
        let mut i: i32 = 0;
        assert(rest(window, 0) =~= window);
        while i < count
            invariant
                0 <= i <= count,
                start == old(stream)@,
                window == start.window(),
                short == start.short(),
                used <= window.len(),
                stream@ == start.advance(used),
                displays_outcome(window, short, count as nat) == behind_items(
                    display_values(data@),
                    used,
                    displays_outcome(rest(window, used), short, (count - i) as nat),
                ),
            decreases count - i,
        {
            proof {
                lemma_advance_window(start, used);
            }
            let ghost here = display_outcome(rest(window, used), short);
            let ghost before = display_values(data@);
            let ghost items_before = data@;
            let item = SlotDisplay::read(stream);
            proof {
                lemma_advance_twice(start, used, here.used);
            }
            let item = item?;
            data.push(item);
            proof {
                assert(data@.drop_last() =~= items_before);
                assert(rest(rest(window, used), here.used) =~= rest(window, used + here.used));
                let more = displays_outcome(
                    rest(window, used + here.used),
                    short,
                    (count - i - 1) as nat,
                );
                if more.result is Ok {
                    assert(before + (seq![item.deep_view()] + more.result->Ok_0)
                        =~= display_values(data@) + more.result->Ok_0);
                }
                used = used + here.used;
            }
            i = i + 1;
        }
        assert(display_values(data@) + Seq::<SlotDisplayValue>::empty() =~= display_values(
            data@,
        ));
        Ok(data)
    }

    /// Reads the three displays of a smithing trim.
    #[verifier::rlimit(40)]
    fn read_trim(stream: &mut DataStream) -> (result: Result<SlotDisplay, DeserializeError>)
        ensures
            decoded(
                old(stream)@,
                final(stream)@,
                result,
                trim_outcome(old(stream)@.window(), old(stream)@.short()),
            ),
        decreases old(stream)@.window().len(), 1nat,
    {
        let ghost start = stream@;
        let ghost window = start.window();
        let ghost short = start.short();
        let ghost base_ = display_outcome(window, short);
        let base = SlotDisplay::read(stream)?;
        proof {
            lemma_advance_window(start, base_.used);
        }
        let ghost material_ = display_outcome(rest(window, base_.used), short);
        let material = SlotDisplay::read(stream);
        proof {
            lemma_advance_twice(start, base_.used, material_.used);
            lemma_advance_window(start, base_.used + material_.used);
        }
        let material = material?;
        let ghost patter_ = display_outcome(rest(window, base_.used + material_.used), short);
        let patter = SlotDisplay::read(stream);
        proof {
            lemma_advance_twice(start, base_.used + material_.used, patter_.used);
        }
        let patter = patter?;
        Ok(
            SlotDisplay::SmithingTrim {
                base: Box::new(base),
                material: Box::new(material),
                patter: Box::new(patter),
            },
        )
    }

    /// Reads the two displays of an ingredient with a remainder.
    fn read_with_remainder(stream: &mut DataStream) -> (result: Result<
        SlotDisplay,
        DeserializeError,
    >)
        ensures
            decoded(
                old(stream)@,
                final(stream)@,
                result,
                with_remainder_outcome(old(stream)@.window(), old(stream)@.short()),
            ),
        decreases old(stream)@.window().len(), 1nat,
    {
        let ghost start = stream@;
        let ghost window = start.window();
        let ghost short = start.short();
        let ghost ingredient_ = display_outcome(window, short);
        let ingredient = SlotDisplay::read(stream)?;
        proof {
            lemma_advance_window(start, ingredient_.used);
        }
        let ghost remainder_ = display_outcome(rest(window, ingredient_.used), short);
        let remainder = SlotDisplay::read(stream);
        proof {
            lemma_advance_twice(start, ingredient_.used, remainder_.used);
        }
        let remainder = remainder?;
        Ok(
            SlotDisplay::WithRemainder {
                ingredient: Box::new(ingredient),
                remainder: Box::new(remainder),
            },
        )
    }

    /// Reads a composite: a count and that many displays.
    fn read_composite(stream: &mut DataStream) -> (result: Result<SlotDisplay, DeserializeError>)
        ensures
            decoded(
                old(stream)@,
                final(stream)@,
                result,
                composite_outcome(old(stream)@.window(), old(stream)@.short()),
            ),
        decreases old(stream)@.window().len(), 2nat,
    {
        let ghost start = stream@;
        let ghost window = start.window();
        let ghost short = start.short();
        let ghost count_ = VarInt::parse(window, short);
        let count = VarInt::deserialize(stream)?.0;
        if count < 0 {
            return Err(malformed("Negative sequence length"));
        }
        proof {
            lemma_advance_window(start, count_.used);
        }
        let ghost items_ = displays_outcome(rest(window, count_.used), short, count as nat);
        let items = SlotDisplay::deserialize_all(stream, count);
        proof {
            lemma_advance_twice(start, count_.used, items_.used);
        }
        Ok(SlotDisplay::Composite(items?))
    }

    /// Reads a display.
    fn read(stream: &mut DataStream) -> (result: Result<SlotDisplay, DeserializeError>)
        ensures
            decoded(
                old(stream)@,
                final(stream)@,
                result,
                display_outcome(old(stream)@.window(), old(stream)@.short()),
            ),
        decreases old(stream)@.window().len(), 0nat,
    {
        let ghost start = stream@;
        let ghost window = start.window();
        let ghost short = start.short();
        let ghost tag = VarInt::parse(window, short);
        let repr = VarInt::deserialize(stream)?;
        let ghost body = rest(window, tag.used);
        proof {
            lemma_advance_window(start, tag.used);
            crate::varint::lemma_var_scan_bounds(window, 5);
        }
        match repr.0 {
            0 => Ok(SlotDisplay::Empty),
            1 => Ok(SlotDisplay::AnyFuel),
            2 => {
                let ghost read = VarInt::parse(body, short);
                let item_type = VarInt::deserialize(stream);
                proof {
                    lemma_advance_twice(start, tag.used, read.used);
                }
                Ok(SlotDisplay::Item { item_type: item_type? })
            },
            3 => {
                let ghost read = Slot::parse(body, short);
                let slot = Slot::deserialize(stream);
                proof {
                    lemma_advance_twice(start, tag.used, read.used);
                }
                Ok(SlotDisplay::ItemStack(slot?))
            },
            4 => {
                let ghost read = String::parse(body, short);
                let name = String::deserialize(stream);
                proof {
                    lemma_advance_twice(start, tag.used, read.used);
                }
                Ok(SlotDisplay::Tag(name?))
            },
            5 => {
                let ghost read = trim_outcome(body, short);
                let trim = SlotDisplay::read_trim(stream);
                proof {
                    lemma_advance_twice(start, tag.used, read.used);
                }
                trim
            },
            6 => {
                let ghost read = with_remainder_outcome(body, short);
                let display = SlotDisplay::read_with_remainder(stream);
                proof {
                    lemma_advance_twice(start, tag.used, read.used);
                }
                display
            },
            7 => {
                let ghost read = composite_outcome(body, short);
                let composite = SlotDisplay::read_composite(stream);
                proof {
                    lemma_advance_twice(start, tag.used, read.used);
                }
                composite
            },
            other => Err(malformed_with_number("SlotDisplay: invalid type ", other as i64, "")),
        }
    }
}

impl Deserialize for SlotDisplay {
    open spec fn parse(window: Seq<u8>, short: bool) -> Outcome<SlotDisplayValue> {
        display_outcome(window, short)
    }

    fn deserialize(stream: &mut DataStream) -> (result: Result<Self, DeserializeError>) {
        SlotDisplay::read(stream)
    }
}

} // verus!
