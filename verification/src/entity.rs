//! The number by which an entity is known.

use crate::codec::{
    RoundTrip, begin, decimal, field, finish, format_number, step, Deserialize, DeserializeError,
    Outcome, Serialize,
};
use crate::stream::{lemma_advance_zero, DataStream};
use crate::varint::VarInt;
use vstd::prelude::*;
use vstd::std_specs::convert::FromSpecImpl;

verus! {

/// The number by which the server names an entity.
#[derive(Debug, Clone, Copy, PartialEq, Eq, Structural, Hash, Default)]
pub struct EntityId(pub i32);

impl DeepView for EntityId {
    type V = i32;

    open spec fn deep_view(&self) -> Self::V {
        self.0.deep_view()
    }
}

impl Serialize for EntityId {
    open spec fn wire(&self) -> Seq<u8> {
        self.0.wire()
    }

    open spec fn encodable(&self) -> bool {
        self.0.encodable()
    }

    fn size(&self) -> (size: usize) {
        self.0.size()
    }

    fn checked_size(&self) -> (size: Option<usize>) {
        let size = self.0.checked_size();
        size
    }

    fn serialize(&self, stream: &mut Vec<u8>) {
        self.0.serialize(stream);
        assert(stream@ =~= old(stream)@ + self.wire());
    }
}

impl Deserialize for EntityId {
    open spec fn parse(window: Seq<u8>, short: bool) -> Outcome<Self::V> {
        let r0 = i32::parse(window, short);
        let at1 = step(begin(), r0);
        finish(at1, r0.result->Ok_0)
    }

    fn deserialize(stream: &mut DataStream) -> (result: Result<Self, DeserializeError>) {
        broadcast use lemma_advance_zero;

        let ghost start = stream@;
        let ghost window = start.window();
        let ghost short = start.short();
        assert(window.skip(0) =~= window);
        let v0: i32 = field(stream, Ghost(start), Ghost(begin()))?;
        Ok(EntityId(v0))
    }
}

impl RoundTrip for EntityId {
    open spec fn readable(&self) -> bool {
        self.0.readable()
    }

    proof fn lemma_round_trip(&self, rest: Seq<u8>, short: bool) {
        let window = self.wire() + rest;
        assert(window =~= self.0.wire() + (rest));
        self.0.lemma_round_trip(rest, short);
    }
}
impl EntityId {
    /// The number, as it is printed: in base ten.
    pub fn to_string(&self) -> (text: String)
        ensures
            text@ == decimal(self.0 as int),
    {
        let text = format_number("", self.0 as i64, "");
        proof {
            reveal_strlit("");
            assert(text@ =~= decimal(self.0 as int));
        }
        text
    }
}

impl From<i32> for EntityId {
    fn from(value: i32) -> (id: Self) {
        Self(value)
    }
}

impl FromSpecImpl<i32> for EntityId {
    open spec fn obeys_from_spec() -> bool {
        true
    }

    open spec fn from_spec(value: i32) -> Self {
        EntityId(value)
    }
}

impl From<VarInt> for EntityId {
    fn from(value: VarInt) -> (id: Self) {
        Self(value.0)
    }
}

impl FromSpecImpl<VarInt> for EntityId {
    open spec fn obeys_from_spec() -> bool {
        true
    }

    open spec fn from_spec(value: VarInt) -> Self {
        EntityId(value.0)
    }
}

/// An operation that the state of the game refuses.
#[derive(Debug)]
pub enum GameError {
    /// No entity of this number is known.
    UnkonwnEntity(EntityId),
}

} // verus!
