use mcwire::codec::{DeserializeError, Serialize, SerializeError};
use mcwire::datatypes::LengthInferredByteArray;
use mcwire::packets::{
    ConfirmTeleportation, FinishConfiguration, Handshake, KeepAlive, KnownPack, KnownPacks,
    LoginAcknowledged, LoginStart, PingPong, PluginMessage, StatusRequest,
};
use mcwire::receive::{
    frame_need, Clientbound, ConnectionState, FrameNeed, PacketReceiver, ReceiveError,
};
use mcwire::send::{
    frame_packet, init_multithread, send_collected_packets, send_packet, send_packet_from_thread,
    ServerboundPacket,
};
use mcwire::stream::ByteChannel;
use mcwire::varint::VarInt;

const HANDSHAKE: [u8; 17] = [
    0x10, 0x00, 0x84, 0x06, 0x09, b'1', b'2', b'7', b'.', b'0', b'.', b'0', b'.', b'1', 0x63, 0xdd,
    0x02,
];

fn handshake() -> Handshake {
    Handshake {
        protocol_version: VarInt(772),
        server_addr: String::from("127.0.0.1"),
        server_port: 25565,
        intent: ConnectionState::Login.handshake_intent(),
    }
}

/// A frame: the length of number and payload, the number, the payload.
fn frame(id: u8, payload: &[u8]) -> Vec<u8> {
    assert!(payload.len() < 127 && id < 128);
    let mut out = vec![payload.len() as u8 + 1, id];
    out.extend_from_slice(payload);
    out
}

/// The payload of a login success for the player `Coucou`.
fn login_success() -> Vec<u8> {
    let mut payload = vec![0; 16];
    payload[15] = 0x2a;
    payload.push(6);
    payload.extend_from_slice(b"Coucou");
    payload.push(0);
    payload
}

fn receiver_in(state: ConnectionState) -> PacketReceiver {
    let mut receiver = PacketReceiver::new();
    receiver.set_state(state);
    receiver
}

#[test]
fn the_intent_of_a_handshake() {
    assert_eq!(ConnectionState::Status.handshake_intent(), VarInt(1));
    assert_eq!(ConnectionState::Login.handshake_intent(), VarInt(2));
}

#[test]
fn the_frame_of_a_handshake() {
    let mut channel = ByteChannel::new();
    assert_eq!(send_packet(&mut channel, handshake()), Ok(()));
    assert_eq!(channel.take_written(), HANDSHAKE.to_vec());
    assert_eq!(frame_packet(&handshake()).unwrap(), HANDSHAKE.to_vec());
    assert_eq!(handshake().size(), 15);
}

#[test]
fn frames_of_other_packets() {
    assert_eq!(frame_packet(&StatusRequest {}).unwrap(), vec![1, 0]);
    assert_eq!(frame_packet(&LoginAcknowledged {}).unwrap(), vec![1, 3]);
    assert_eq!(frame_packet(&FinishConfiguration {}).unwrap(), vec![1, 3]);
    assert_eq!(frame_packet(&PingPong { timestamp: 1 }).unwrap(), vec![9, 1, 0, 0, 0, 0, 0, 0, 0, 1]);
    assert_eq!(frame_packet(&KeepAlive(-1)).unwrap(), vec![9, 0x1b, 255, 255, 255, 255, 255, 255, 255, 255]);
    assert_eq!(
        frame_packet(&ConfirmTeleportation { teleport_id: VarInt(300) }).unwrap(),
        vec![3, 0, 0xac, 0x02]
    );
    let login = LoginStart { username: String::from("Coucou"), uuid: 0 };
    let mut expected = vec![24, 0, 6];
    expected.extend_from_slice(b"Coucou");
    expected.extend([0; 16]);
    assert_eq!(frame_packet(&login).unwrap(), expected);
    let message = PluginMessage {
        channel: String::from("a:b"),
        data: LengthInferredByteArray(vec![1, 2]),
    };
    assert_eq!(frame_packet(&message).unwrap(), vec![7, 2, 3, b'a', b':', b'b', 1, 2]);
    assert_eq!(<Handshake as ServerboundPacket>::ID, 0);
    assert_eq!(<KeepAlive as ServerboundPacket>::ID, 0x1b);
}

#[test]
fn a_frame_of_two_length_bytes() {
    let message = PluginMessage {
        channel: String::from("c"),
        data: LengthInferredByteArray(vec![7; 200]),
    };
    let frame = frame_packet(&message).unwrap();
    assert_eq!(frame.len(), 2 + 1 + 2 + 200);
    assert_eq!(&frame[..5], &[0xcb, 0x01, 2, 1, b'c']);
}

#[test]
fn frames_queue_up_in_order() {
    let mut queue = init_multithread();
    assert_eq!(queue.pop(), None);
    assert_eq!(send_packet_from_thread(&mut queue, KeepAlive(1)), Ok(()));
    assert_eq!(send_packet_from_thread(&mut queue, StatusRequest {}), Ok(()));
    queue.push(vec![0xee]);
    let mut channel = ByteChannel::new();
    channel.write_all(&[0xaa]);
    send_collected_packets(&mut queue, &mut channel);
    assert_eq!(
        channel.take_written(),
        vec![0xaa, 9, 0x1b, 0, 0, 0, 0, 0, 0, 0, 1, 1, 0, 0xee]
    );
    assert_eq!(queue.pop(), None);
    send_collected_packets(&mut queue, &mut channel);
    assert_eq!(channel.take_written(), Vec::<u8>::new());
}

#[test]
fn the_queue_hands_frames_out_one_by_one() {
    let mut queue = init_multithread();
    queue.push(vec![1]);
    queue.push(vec![2, 3]);
    assert_eq!(queue.pop(), Some(vec![1]));
    assert_eq!(queue.pop(), Some(vec![2, 3]));
    assert_eq!(queue.pop(), None);
}

#[test]
fn a_packet_is_sent_through_a_bounded_stream() {
    let mut channel = ByteChannel::new();
    channel.feed(&[1, 2, 3]);
    let mut stream = mcwire::stream::DataStream::new(channel, 2);
    assert_eq!(send_packet(&mut stream, KeepAlive(2)), Ok(()));
    assert_eq!(stream.remaining_size(), 2);
    let mut channel = stream.into_inner();
    assert_eq!(channel.take_written(), vec![9, 0x1b, 0, 0, 0, 0, 0, 0, 0, 2]);
    assert_eq!(channel.available(), 3);
}

#[test]
fn a_new_receiver_is_handshaking() {
    let mut receiver = PacketReceiver::new();
    assert_eq!(receiver.get_state(), ConnectionState::Handshaking);
    receiver.set_state(ConnectionState::Login);
    assert_eq!(receiver.get_state(), ConnectionState::Login);
}

#[test]
fn login_success_moves_on_to_the_configuration() {
    let mut channel = ByteChannel::new();
    assert_eq!(send_packet(&mut channel, handshake()), Ok(()));
    assert_eq!(channel.take_written(), HANDSHAKE.to_vec());
    let mut receiver = receiver_in(ConnectionState::Login);

    // the server answers; behind its answer it sends the same packet again
    channel.feed(&frame(2, &login_success()));
    channel.feed(&frame(2, &login_success()));
    channel.feed(&frame(3, &[]));

    let received = receiver.receive_packet(&mut channel).unwrap();
    assert_eq!(receiver.get_state(), ConnectionState::Configuration);
    assert!(received.leftover.is_empty());
    match received.packet {
        Clientbound::LoginSuccess(packet) => {
            assert_eq!(packet.uuid, 0x2a);
            assert_eq!(packet.username, "Coucou");
            assert!(packet.property.is_empty());
        },
        other => panic!("unexpected: {:?}", other),
    }
    assert_eq!(channel.take_written(), vec![1, 3]);

    // in the configuration the number means nothing: the frame is skipped
    let before = channel.available();
    assert!(matches!(
        receiver.receive_packet(&mut channel),
        Err(ReceiveError::UnknownPacketId(2))
    ));
    assert_eq!(receiver.get_state(), ConnectionState::Configuration);
    assert_eq!(channel.available(), before - 26);
    assert_eq!(channel.take_written(), Vec::<u8>::new());

    // and the frame behind it is read from its first byte
    let received = receiver.receive_packet(&mut channel).unwrap();
    assert!(matches!(received.packet, Clientbound::FinishConfiguration(_)));
    assert_eq!(receiver.get_state(), ConnectionState::Play);
    assert_eq!(channel.take_written(), vec![1, 3]);
    assert_eq!(channel.available(), 0);
}

#[test]
fn bytes_left_behind_do_not_shift_the_next_frame() {
    let mut receiver = receiver_in(ConnectionState::Play);
    let mut channel = ByteChannel::new();
    // a keep-alive with three bytes too many, then a proper one
    channel.feed(&frame(0x26, &[0, 0, 0, 0, 0, 0, 0, 5, 0xde, 0xad, 0xbe]));
    channel.feed(&frame(0x26, &[0, 0, 0, 0, 0, 0, 0, 6]));
    let received = receiver.receive_packet(&mut channel).unwrap();
    assert!(matches!(received.packet, Clientbound::KeepAlive(KeepAlive(5))));
    assert_eq!(received.leftover, vec![0xde, 0xad, 0xbe]);
    assert_eq!(channel.available(), 10);
    let received = receiver.receive_packet(&mut channel).unwrap();
    assert!(matches!(received.packet, Clientbound::KeepAlive(KeepAlive(6))));
    assert!(received.leftover.is_empty());
    assert_eq!(channel.available(), 0);
    assert_eq!(
        channel.take_written(),
        vec![9, 0x1b, 0, 0, 0, 0, 0, 0, 0, 5, 9, 0x1b, 0, 0, 0, 0, 0, 0, 0, 6]
    );
}

#[test]
fn a_packet_that_breaks_a_rule_is_skipped_whole() {
    let mut receiver = receiver_in(ConnectionState::Play);
    let mut channel = ByteChannel::new();
    // a change of difficulty whose flag is no boolean, with bytes behind it
    channel.feed(&frame(0x0a, &[1, 7, 9, 9]));
    channel.feed(&frame(0x0a, &[2, 1]));
    match receiver.receive_packet(&mut channel) {
        Err(ReceiveError::DeserializeError(DeserializeError::MalformedPacket(message))) => {
            assert_eq!(message, "Invalid bool value (found 7)")
        },
        other => panic!("unexpected: {:?}", other),
    }
    assert_eq!(channel.available(), 4);
    match receiver.receive_packet(&mut channel).unwrap().packet {
        Clientbound::ChangeDifficulty(packet) => {
            assert_eq!(packet.difficulty, 2);
            assert!(packet.is_locked);
        },
        other => panic!("unexpected: {:?}", other),
    }
}

#[test]
fn a_packet_longer_than_its_frame_is_malformed() {
    let mut receiver = receiver_in(ConnectionState::Play);
    let mut channel = ByteChannel::new();
    channel.feed(&frame(0x26, &[0, 0, 0, 1]));
    channel.feed(&frame(0x26, &[0, 0, 0, 0, 0, 0, 0, 7]));
    assert!(matches!(
        receiver.receive_packet(&mut channel),
        Err(ReceiveError::DeserializeError(DeserializeError::MalformedPacket(message)))
            if message == "Unexpected end of packet"
    ));
    // the bytes behind the frame were not touched, and the next frame is read
    assert_eq!(channel.available(), 10);
    let received = receiver.receive_packet(&mut channel).unwrap();
    assert!(matches!(received.packet, Clientbound::KeepAlive(KeepAlive(7))));
    assert!(received.leftover.is_empty());
}

#[test]
fn a_number_of_a_packet_that_cannot_be_read() {
    let mut receiver = receiver_in(ConnectionState::Play);
    let mut channel = ByteChannel::new();
    channel.feed(&[7, 0x80, 0x80, 0x80, 0x80, 0x80, 1, 2]);
    channel.feed(&[2, 0x80, 0x80]);
    channel.feed(&frame(0x26, &[0, 0, 0, 0, 0, 0, 0, 7]));
    assert!(matches!(
        receiver.receive_packet(&mut channel),
        Err(ReceiveError::DeserializeError(DeserializeError::MalformedPacket(message)))
            if message == "VarInt too long"
    ));
    assert_eq!(channel.available(), 13);
    assert!(matches!(
        receiver.receive_packet(&mut channel),
        Err(ReceiveError::DeserializeError(DeserializeError::MalformedPacket(message)))
            if message == "Unexpected end of packet"
    ));
    assert_eq!(channel.available(), 10);
    assert!(receiver.receive_packet(&mut channel).is_ok());
}

#[test]
fn a_frame_that_the_channel_does_not_hold_whole() {
    let mut receiver = receiver_in(ConnectionState::Play);
    let mut channel = ByteChannel::new();
    channel.feed(&[9, 0x26, 0, 0, 0, 0]);
    assert!(matches!(
        receiver.receive_packet(&mut channel),
        Err(ReceiveError::DeserializeError(DeserializeError::Io(_)))
    ));
    let mut channel = ByteChannel::new();
    channel.feed(&[9, 0x7f, 0, 0]);
    assert!(matches!(
        receiver.receive_packet(&mut channel),
        Err(ReceiveError::DeserializeError(DeserializeError::Io(_)))
    ));
    let mut channel = ByteChannel::new();
    assert!(matches!(
        receiver.receive_packet(&mut channel),
        Err(ReceiveError::DeserializeError(DeserializeError::Io(_)))
    ));
}

#[test]
fn a_frame_length_must_be_above_zero() {
    let mut receiver = receiver_in(ConnectionState::Play);
    let mut channel = ByteChannel::new();
    channel.feed(&[0, 0x26]);
    match receiver.receive_packet(&mut channel) {
        Err(ReceiveError::DeserializeError(DeserializeError::MalformedPacket(message))) => {
            assert_eq!(message, "Negative packet size (found 0)")
        },
        other => panic!("unexpected: {:?}", other),
    }
    assert_eq!(channel.available(), 1);
    let mut channel = ByteChannel::new();
    channel.feed(&[0xfe, 0xff, 0xff, 0xff, 0x0f]);
    match receiver.receive_packet(&mut channel) {
        Err(ReceiveError::DeserializeError(DeserializeError::MalformedPacket(message))) => {
            assert_eq!(message, "Negative packet size (found -2)")
        },
        other => panic!("unexpected: {:?}", other),
    }
}

#[test]
fn no_phase_before_the_login_knows_a_packet() {
    for state in [ConnectionState::Status, ConnectionState::Handshaking] {
        let mut receiver = PacketReceiver::new();
        if state != ConnectionState::Handshaking {
            receiver.set_state(state);
        }
        let mut channel = ByteChannel::new();
        channel.feed(&frame(2, &login_success()));
        channel.feed(&[0x55]);
        assert!(matches!(
            receiver.receive_packet(&mut channel),
            Err(ReceiveError::UnknownPacketId(2))
        ));
        assert_eq!(receiver.get_state(), state);
        assert_eq!(channel.available(), 1);
    }
}

#[test]
fn a_number_below_zero_is_unknown() {
    let mut receiver = receiver_in(ConnectionState::Play);
    let mut channel = ByteChannel::new();
    channel.feed(&[7, 0xff, 0xff, 0xff, 0xff, 0x0f, 1, 2]);
    assert!(matches!(
        receiver.receive_packet(&mut channel),
        Err(ReceiveError::UnknownPacketId(u32::MAX))
    ));
    assert_eq!(channel.available(), 0);
}

#[test]
fn known_packs_are_sent_back() {
    let mut receiver = receiver_in(ConnectionState::Configuration);
    let mut channel = ByteChannel::new();
    let payload = [1, 2, b'm', b'c', 4, b'c', b'o', b'r', b'e', 3, b'1', b'.', b'0'];
    channel.feed(&frame(0x0e, &payload));
    match receiver.receive_packet(&mut channel).unwrap().packet {
        Clientbound::KnownPacks(KnownPacks(packs)) => {
            assert_eq!(packs.len(), 1);
            assert_eq!(packs[0].namespace, "mc");
            assert_eq!(packs[0].id, "core");
            assert_eq!(packs[0].version, "1.0");
        },
        other => panic!("unexpected: {:?}", other),
    }
    assert_eq!(channel.take_written(), frame(7, &payload));
    assert_eq!(receiver.get_state(), ConnectionState::Configuration);
}

#[test]
fn a_teleport_is_confirmed() {
    let mut receiver = receiver_in(ConnectionState::Play);
    let mut channel = ByteChannel::new();
    let mut payload = vec![0xac, 0x02];
    payload.extend([0; 24]);
    payload.extend([0; 24]);
    payload.extend([0x42, 0xb4, 0, 0, 0, 0, 0, 0]);
    payload.extend([0, 0, 0, 0x18]);
    channel.feed(&frame(0x41, &payload));
    match receiver.receive_packet(&mut channel).unwrap().packet {
        Clientbound::SynchronizePlayerPosition(packet) => {
            assert_eq!(packet.teleport_id, VarInt(300));
            assert_eq!(packet.rotation.yaw.0, 0x42b40000);
            assert!(packet.flags.contains(mcwire::packets::TeleportFlags::RYAW));
            assert!(packet.flags.contains(mcwire::packets::TeleportFlags::RPITCH));
            assert!(!packet.flags.contains(mcwire::packets::TeleportFlags::RX));
        },
        other => panic!("unexpected: {:?}", other),
    }
    assert_eq!(channel.take_written(), vec![3, 0, 0xac, 0x02]);
}

#[test]
fn a_packet_that_cannot_be_expressed_is_not_sent() {
    let mut packs = Vec::new();
    packs.push(KnownPack {
        namespace: String::from("a"),
        id: String::from("b"),
        version: String::from("c"),
    });
    let sendable = KnownPacks(packs);
    assert_eq!(sendable.checked_size(), Some(7));
    let mut channel = ByteChannel::new();
    assert_eq!(send_packet(&mut channel, sendable), Ok(()));
    assert_eq!(channel.take_written(), vec![8, 7, 1, 1, b'a', 1, b'b', 1, b'c']);
}

#[test]
fn a_frame_longer_than_the_format_allows_is_not_sent() {
    // the payload and the number together take one byte more than a length can say
    let message = PluginMessage {
        channel: String::new(),
        data: LengthInferredByteArray(vec![0; 0x7fff_fffe]),
    };
    assert_eq!(message.checked_size(), Some(0x7fff_ffff));
    assert_eq!(frame_packet(&message), Err(SerializeError::Unencodable));
    let mut channel = ByteChannel::new();
    assert_eq!(send_packet(&mut channel, message), Err(SerializeError::Unencodable));
    assert_eq!(channel.take_written(), Vec::<u8>::new());
    let mut queue = init_multithread();
    let message = PluginMessage {
        channel: String::new(),
        data: LengthInferredByteArray(vec![0; 0x7fff_fffe]),
    };
    assert_eq!(send_packet_from_thread(&mut queue, message), Err(SerializeError::Unencodable));
    assert_eq!(queue.pop(), None);
}

#[test]
fn what_a_frame_still_needs() {
    assert_eq!(frame_need(&[]), FrameNeed::More);
    assert_eq!(frame_need(&[0x80]), FrameNeed::More);
    assert_eq!(frame_need(&[0xff, 0xff, 0xff, 0xff]), FrameNeed::More);
    assert_eq!(frame_need(&[9]), FrameNeed::Payload(9));
    assert_eq!(frame_need(&[0x84, 0x06]), FrameNeed::Payload(772));
    assert_eq!(
        frame_need(&[0xff, 0xff, 0xff, 0xff, 0x07]),
        FrameNeed::Payload(i32::MAX as usize)
    );
    assert_eq!(frame_need(&[0]), FrameNeed::Malformed);
    assert_eq!(frame_need(&[0xff, 0xff, 0xff, 0xff, 0x0f]), FrameNeed::Malformed);
    assert_eq!(frame_need(&[0x80, 0x80, 0x80, 0x80, 0x80]), FrameNeed::Malformed);
}
