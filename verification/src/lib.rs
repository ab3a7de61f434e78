//! The wire format of a block game's network protocol, as a client speaks
//! it, and the storage of the blocks that the client is told of.
//!
//! Every value that travels has a form in bytes ([`codec::Serialize`]) and a
//! way to be read back from the payload of a frame
//! ([`codec::Deserialize`]). Each read is specified as a function from the
//! bytes of the frame to the value or the failure and to the number of bytes
//! taken, and proved against it. Frames are taken in by a
//! [`receive::PacketReceiver`], which keeps the phase of the connection and
//! knows for each phase which packet a number means. The ids of the blocks
//! of a volume are kept in a [`palette::Palette`], packed into words.
//!
//! The library reads from and writes onto channels that are held in memory
//! ([`stream::ByteChannel`]); sockets, threads and the numbers of floating
//! point that the game computes with are the business of the program around
//! it.

/// Chunks as they travel.
pub mod chunk;
/// The two capabilities of a value on the wire, and how records are read.
pub mod codec;
/// Optional values, pairs, boxes and counted sequences.
pub mod containers;
/// Wire types that belong to no single packet.
pub mod datatypes;
/// What was read can be written.
pub mod echo;
/// The number by which an entity is known.
pub mod entity;
/// The tree format of auxiliary data.
pub mod nbt;
/// The packets.
pub mod packets;
/// Packed storage of the ids of a volume.
pub mod palette;
/// Booleans and numbers of fixed width.
pub mod primitives;
/// Frames that arrive, and the phases of a connection.
pub mod receive;
/// Frames that leave.
pub mod send;
/// Item stacks and their displays in recipes.
pub mod slot;
/// Byte channels and the bounded stream over the payload of a frame.
pub mod stream;
/// Strings.
pub mod text;
/// Positions and other small records.
pub mod types;
/// Integers of variable length.
pub mod varint;
/// Chunks, sections and the blocks of the world.
pub mod world;
