//! Frames that leave: the length of the frame, the number of the packet,
//! and the packet.

use crate::codec::{Serialize, SerializeError};
use crate::stream::ReadWrite;
use crate::varint::{from_bits32, lemma_var_int_round_trip, VarInt};
use std::collections::VecDeque;
use vstd::prelude::*;

verus! {

/// A packet that the client sends.
pub trait ServerboundPacket: Serialize {
    /// The number by which the protocol knows the packet.
    const ID: u32;
}

/// The number of a packet as it stands in a frame.
pub open spec fn packet_id<T: ServerboundPacket>() -> VarInt {
    VarInt(from_bits32(T::ID as nat))
}

/// The length that the frame of `packet` declares: that of the number and
/// of the packet together.
pub open spec fn frame_size<T: ServerboundPacket>(packet: &T) -> nat {
    packet_id::<T>().wire().len() + packet.wire().len()
}

/// Whether `packet` can be sent: the format can express it, and the length of
/// its frame fits the 32 bits of a length.
pub open spec fn sendable<T: ServerboundPacket>(packet: &T) -> bool {
    packet.encodable() && frame_size(packet) <= i32::MAX
}

/// The frame of `packet`.
pub open spec fn frame_of<T: ServerboundPacket>(packet: &T) -> Seq<u8> {
    VarInt(frame_size(packet) as i32).wire() + packet_id::<T>().wire() + packet.wire()
}

/// The frame of `packet`, as bytes.
pub fn frame_packet<T: ServerboundPacket>(packet: &T) -> (frame: Result<Vec<u8>, SerializeError>)
    ensures
        match frame {
            Ok(bytes) => sendable(packet) && bytes@ == frame_of(packet),
            Err(_) => !sendable(packet),
        },
{
    let id = VarInt(
        if T::ID < 0x8000_0000 {
            T::ID as i32
        } else {
            (T::ID as i64 - 0x1_0000_0000) as i32
        },
    );
    proof {
        lemma_var_int_round_trip(id, Seq::empty(), false);
    }
    let packet_size = match packet.checked_size() {
        Some(size) => size,
        None => {
            return Err(SerializeError::Unencodable);
        },
    };
    let id_size = id.size();
    if packet_size > 0x7FFF_FFFF - id_size {
        return Err(SerializeError::Unencodable);
    }
    let size = packet_size + id_size;
    let mut frame: Vec<u8> = Vec::new();
    VarInt(size as i32).serialize(&mut frame);
    id.serialize(&mut frame);
    packet.serialize(&mut frame);
    assert(frame@ =~= frame_of(packet));
    Ok(frame)
}

/// Writes the frame of `packet` onto the stream, or nothing where the
/// packet cannot be sent.
pub fn send_packet<S: ReadWrite, T: ServerboundPacket>(stream: &mut S, packet: T) -> (result:
    Result<(), SerializeError>)
    ensures
        final(stream).incoming() == old(stream).incoming(),
        match result {
            Ok(_) => sendable(&packet) && final(stream).outgoing() == old(stream).outgoing()
                + frame_of(&packet),
            Err(_) => !sendable(&packet) && final(stream).outgoing() == old(stream).outgoing(),
        },
{
    let frame = frame_packet(&packet)?;
    stream.write_all(frame.as_slice());
    Ok(())
}

/// The frames that the tick loop has made and the reader has not yet
/// written, in the order in which they were made.
#[derive(Debug)]
pub struct PacketQueue {
    frames: VecDeque<Vec<u8>>,
}

/// The bytes of some frames, one frame behind the other.
pub open spec fn joined(frames: Seq<Seq<u8>>) -> Seq<u8>
    decreases frames.len(),
{
    if frames.len() == 0 {
        Seq::empty()
    } else {
        frames[0] + joined(frames.drop_first())
    }
}

impl View for PacketQueue {
    type V = Seq<Seq<u8>>;

    closed spec fn view(&self) -> Seq<Seq<u8>> {
        Seq::new(self.frames@.len(), |i: int| self.frames@[i]@)
    }
}

impl PacketQueue {
    /// Puts a frame behind the frames that wait.
    pub fn push(&mut self, frame: Vec<u8>)
        ensures
            final(self)@ == old(self)@.push(frame@),
    {
        self.frames.push_back(frame);
        assert(self@ =~= old(self)@.push(frame@));
    }

    /// Takes the frame that has waited longest.
    pub fn pop(&mut self) -> (frame: Option<Vec<u8>>)
        ensures
            match frame {
                Some(bytes) => old(self)@.len() > 0 && bytes@ == old(self)@[0] && final(self)@
                    == old(self)@.drop_first(),
                None => old(self)@.len() == 0 && final(self)@ == old(self)@,
            },
    {
        let frame = self.frames.pop_front();
        assert(frame is Some ==> self@ =~= old(self)@.drop_first());
        assert(frame is None ==> self@ =~= old(self)@);
        frame
    }
}

/// The queue between the tick loop and the reader, with nothing in it.
pub fn init_multithread() -> (queue: PacketQueue)
    ensures
        queue@ == Seq::<Seq<u8>>::empty(),
{
    let queue = PacketQueue { frames: VecDeque::new() };
    assert(queue@ =~= Seq::<Seq<u8>>::empty());
    queue
}

/// Puts the frame of `packet` into the queue, or nothing where the packet
/// cannot be sent.
pub fn send_packet_from_thread<T: ServerboundPacket>(queue: &mut PacketQueue, packet: T) -> (result:
    Result<(), SerializeError>)
    ensures
        match result {
            Ok(_) => sendable(&packet) && final(queue)@ == old(queue)@.push(frame_of(&packet)),
            Err(_) => !sendable(&packet) && final(queue)@ == old(queue)@,
        },
{
    let frame = frame_packet(&packet)?;
    queue.push(frame);
    Ok(())
}

/// Writes all the frames that wait onto the stream, in the order in which
/// they were made, and leaves the queue empty.
pub fn send_collected_packets<S: ReadWrite>(receiver: &mut PacketQueue, stream: &mut S)
    ensures
        final(receiver)@ == Seq::<Seq<u8>>::empty(),
        final(stream).outgoing() == old(stream).outgoing() + joined(old(receiver)@),
        final(stream).incoming() == old(stream).incoming(),
{
    loop
        invariant
            stream.incoming() == old(stream).incoming(),
            stream.outgoing() + joined(receiver@) == old(stream).outgoing() + joined(
                old(receiver)@,
            ),
        ensures
            receiver@ == Seq::<Seq<u8>>::empty(),
        decreases receiver@.len(),
    {
        let ghost waiting = receiver@;
        let ghost written = stream.outgoing();
        match receiver.pop() {
            Some(data) => {
                stream.write_all(data.as_slice());
                assert(written + joined(waiting) =~= stream.outgoing() + joined(receiver@));
            },
            None => {
                assert(waiting =~= Seq::<Seq<u8>>::empty());
                break ;
            },
        }
    }
    assert(stream.outgoing() + joined(receiver@) =~= stream.outgoing());
}

} // verus!
