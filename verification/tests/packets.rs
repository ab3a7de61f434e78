use mcwire::chunk::{HeightmapType, ProtocolPalette};
use mcwire::codec::{Deserialize, DeserializeError};
use mcwire::datatypes::Or;
use mcwire::entity::{EntityId, GameError};
use mcwire::packets::{
    PlayerAbilitiesFlags, PlayerAction, PlayerActionFlag, PlayerPosFlags, PlayersInfoUpdate,
    RegistryData, TeleportFlags, UpdateRecipes, UpdateTags, Waypoint, WaypointData,
    WaypointOperation,
};
use mcwire::palette::{Biomes, Blocks};
use mcwire::receive::{Clientbound, ClientboundPacket, ConnectionState, PacketReceiver};
use mcwire::slot::{Slot, SlotDisplay};
use mcwire::stream::{ByteChannel, DataStream};
use mcwire::types::{Color, IdSet, Rotation, Vec3};
use mcwire::varint::VarInt;

fn stream_of(bytes: &[u8]) -> DataStream {
    let mut channel = ByteChannel::new();
    channel.feed(bytes);
    DataStream::new(channel, bytes.len())
}

fn message_of<T: std::fmt::Debug>(result: Result<T, DeserializeError>) -> String {
    match result {
        Err(DeserializeError::MalformedPacket(message)) => message,
        other => panic!("unexpected: {:?}", other),
    }
}

#[test]
fn the_table_of_the_phases() {
    assert_eq!(<mcwire::packets::LoginSuccess as ClientboundPacket>::ID, 2);
    assert_eq!(<mcwire::packets::LoginSuccess as ClientboundPacket>::STATE, ConnectionState::Login);
    assert_eq!(
        <mcwire::packets::LoginSuccess as ClientboundPacket>::NEW_STATE,
        ConnectionState::Configuration
    );
    assert_eq!(<mcwire::packets::FinishConfiguration as ClientboundPacket>::ID, 3);
    assert_eq!(
        <mcwire::packets::FinishConfiguration as ClientboundPacket>::NEW_STATE,
        ConnectionState::Play
    );
    assert_eq!(<mcwire::packets::KeepAlive as ClientboundPacket>::ID, 0x26);
    assert_eq!(<mcwire::packets::KeepAlive as ClientboundPacket>::NEW_STATE, ConnectionState::Play);
    assert_eq!(<mcwire::packets::ChunkDataWithLight as ClientboundPacket>::ID, 0x27);
    assert_eq!(<mcwire::packets::PluginMessage as ClientboundPacket>::ID, 1);
    assert_eq!(<mcwire::packets::AddEntity as ClientboundPacket>::STATE, ConnectionState::Play);
}

#[test]
fn entity_ids() {
    assert_eq!(EntityId::from(5), EntityId(5));
    assert_eq!(EntityId::from(VarInt(-7)), EntityId(-7));
    assert_eq!(EntityId(-7).to_string(), "-7");
    assert_eq!(EntityId(0).to_string(), "0");
    assert_eq!(EntityId(i32::MIN).to_string(), "-2147483648");
    assert_eq!(EntityId::deserialize(&mut stream_of(&[0, 0, 1, 0])).unwrap(), EntityId(256));
    assert!(matches!(GameError::UnkonwnEntity(EntityId(3)), GameError::UnkonwnEntity(EntityId(3))));
}

#[test]
fn flags_are_bits() {
    let flags = TeleportFlags::from_bits_retain(0b101);
    assert!(flags.contains(TeleportFlags::RX));
    assert!(!flags.contains(TeleportFlags::RY));
    assert!(flags.contains(TeleportFlags::RZ));
    assert!(flags.contains(TeleportFlags::RX | TeleportFlags::RZ));
    assert!(!flags.contains(TeleportFlags::ROTATE_BEFORE));
    assert_eq!(flags.bits(), 5);
    assert_eq!(PlayerPosFlags::empty().bits(), 0);
    assert!(PlayerPosFlags::empty().contains(0));
    assert!(PlayerAbilitiesFlags::from_bits_retain(0xff).contains(PlayerAbilitiesFlags::CREATIVE_MODE));
    assert_eq!(PlayerActionFlag::UPDATE_HAT, 128);
    assert_eq!(TeleportFlags::deserialize(&mut stream_of(&[0, 0, 1, 0])).unwrap().bits(), 0x100);
}

#[test]
fn small_records() {
    let color = Color::deserialize(&mut stream_of(&[1, 2, 3])).unwrap();
    assert_eq!((color.r, color.g, color.b), (1, 2, 3));
    let rotation = Rotation::deserialize(&mut stream_of(&[0, 0, 0, 1, 0, 0, 0, 2])).unwrap();
    assert_eq!((rotation.yaw.0, rotation.pitch.0), (1, 2));
    let v = Vec3::<i16>::deserialize(&mut stream_of(&[0, 1, 0, 2, 0xff, 0xff])).unwrap();
    assert_eq!(v, Vec3 { x: 1, y: 2, z: -1 });
}

#[test]
fn sets_of_ids() {
    match IdSet::deserialize(&mut stream_of(&[0, 3, b't', b'a', b'g'])).unwrap() {
        IdSet::TagName(name) => assert_eq!(name, "tag"),
        other => panic!("unexpected: {:?}", other),
    }
    match IdSet::deserialize(&mut stream_of(&[3, 0x80, 0x01, 5])).unwrap() {
        IdSet::Ids(ids) => assert_eq!(ids, vec![VarInt(128), VarInt(5)]),
        other => panic!("unexpected: {:?}", other),
    }
    match IdSet::deserialize(&mut stream_of(&[1])).unwrap() {
        IdSet::Ids(ids) => assert!(ids.is_empty()),
        other => panic!("unexpected: {:?}", other),
    }
    assert_eq!(
        message_of(IdSet::deserialize(&mut stream_of(&[0xff, 0xff, 0xff, 0xff, 0x0f]))),
        "ID Set: Negative type (-1)"
    );
}

#[test]
fn kinds_of_height_maps() {
    assert_eq!(HeightmapType::deserialize(&mut stream_of(&[1])).unwrap(), HeightmapType::WorldSurface);
    assert_eq!(HeightmapType::deserialize(&mut stream_of(&[4])).unwrap(), HeightmapType::MotionBlocking);
    assert_eq!(
        HeightmapType::deserialize(&mut stream_of(&[5])).unwrap(),
        HeightmapType::MotionBlockingNoLeaves
    );
    assert_eq!(
        message_of(HeightmapType::deserialize(&mut stream_of(&[0]))),
        "HeightmapType: invalid type 0"
    );
}

#[test]
fn waypoints() {
    assert_eq!(
        WaypointOperation::deserialize(&mut stream_of(&[2])).unwrap(),
        WaypointOperation::Update
    );
    assert_eq!(
        message_of(WaypointOperation::deserialize(&mut stream_of(&[3]))),
        "WaypointOperation: invalid type 3"
    );
    assert!(matches!(WaypointData::deserialize(&mut stream_of(&[0])).unwrap(), WaypointData::Empty));
    assert!(matches!(
        WaypointData::deserialize(&mut stream_of(&[1, 1, 2, 3])).unwrap(),
        WaypointData::Vec3i(Vec3 { x: VarInt(1), y: VarInt(2), z: VarInt(3) })
    ));
    assert!(matches!(
        WaypointData::deserialize(&mut stream_of(&[2, 7, 8])).unwrap(),
        WaypointData::Chunk { x: VarInt(7), z: VarInt(8) }
    ));
    assert!(matches!(
        WaypointData::deserialize(&mut stream_of(&[3, 0, 0, 0, 9])).unwrap(),
        WaypointData::Azimuth(mcwire::datatypes::Float(9))
    ));
    assert_eq!(
        message_of(WaypointData::deserialize(&mut stream_of(&[4]))),
        "WaypointData: invalid type 4"
    );
    let mut bytes = vec![0, 0, 1, b'n', 1, b's', 1, 10, 20, 30, 2, 1, 2];
    bytes.push(0x77);
    let mut stream = stream_of(&bytes);
    let waypoint = Waypoint::deserialize(&mut stream).unwrap();
    assert_eq!(stream.remaining_size(), 1);
    assert_eq!(waypoint.operation, WaypointOperation::Track);
    assert!(matches!(&waypoint.identifier, Or::Y(name) if name == "n"));
    assert_eq!(waypoint.icon_style, "s");
    assert!(matches!(waypoint.color, Some(Color { r: 10, g: 20, b: 30 })));
    assert!(matches!(waypoint.waypoint_data, WaypointData::Chunk { x: VarInt(1), z: VarInt(2) }));
}

#[test]
fn slots() {
    assert!(matches!(Slot::deserialize(&mut stream_of(&[0])).unwrap(), Slot::Empty));
    match Slot::deserialize(&mut stream_of(&[2, 9, 0, 2, 5, 6])).unwrap() {
        Slot::NonEmpty { count, id, components_to_add, components_to_remove } => {
            assert_eq!(count, VarInt(2));
            assert_eq!(id, VarInt(9));
            assert!(components_to_add.is_empty());
            assert_eq!(components_to_remove, vec![VarInt(5), VarInt(6)]);
        },
        other => panic!("unexpected: {:?}", other),
    }
    let minus_one = [0xff, 0xff, 0xff, 0xff, 0x0f];
    assert_eq!(
        message_of(Slot::deserialize(&mut stream_of(&minus_one))),
        "Slot: Negative item count (-1)"
    );
    let mut bytes = vec![1, 9];
    bytes.extend(minus_one);
    bytes.push(0);
    assert_eq!(
        message_of(Slot::deserialize(&mut stream_of(&bytes))),
        "Slot: Negative components to add count (-1)"
    );
    let mut bytes = vec![1, 9, 0];
    bytes.extend(minus_one);
    assert_eq!(
        message_of(Slot::deserialize(&mut stream_of(&bytes))),
        "Slot: Negative components to remove count (-1)"
    );
    assert_eq!(
        message_of(Slot::deserialize(&mut stream_of(&[1, 9, 1, 0, 0]))),
        "Slot: unknown structured component"
    );
}

#[test]
fn displays_of_slots() {
    assert!(matches!(SlotDisplay::deserialize(&mut stream_of(&[0])).unwrap(), SlotDisplay::Empty));
    assert!(matches!(SlotDisplay::deserialize(&mut stream_of(&[1])).unwrap(), SlotDisplay::AnyFuel));
    assert!(matches!(
        SlotDisplay::deserialize(&mut stream_of(&[2, 7])).unwrap(),
        SlotDisplay::Item { item_type: VarInt(7) }
    ));
    assert!(matches!(
        SlotDisplay::deserialize(&mut stream_of(&[3, 0])).unwrap(),
        SlotDisplay::ItemStack(Slot::Empty)
    ));
    assert!(matches!(
        SlotDisplay::deserialize(&mut stream_of(&[4, 1, b't'])).unwrap(),
        SlotDisplay::Tag(tag) if tag == "t"
    ));
    match SlotDisplay::deserialize(&mut stream_of(&[5, 0, 1, 2, 3])).unwrap() {
        SlotDisplay::SmithingTrim { base, material, patter } => {
            assert!(matches!(*base, SlotDisplay::Empty));
            assert!(matches!(*material, SlotDisplay::AnyFuel));
            assert!(matches!(*patter, SlotDisplay::Item { item_type: VarInt(3) }));
        },
        other => panic!("unexpected: {:?}", other),
    }
    match SlotDisplay::deserialize(&mut stream_of(&[6, 6, 0, 1, 1])).unwrap() {
        SlotDisplay::WithRemainder { ingredient, remainder } => {
            assert!(matches!(*remainder, SlotDisplay::AnyFuel));
            match *ingredient {
                SlotDisplay::WithRemainder { ingredient, remainder } => {
                    assert!(matches!(*ingredient, SlotDisplay::Empty));
                    assert!(matches!(*remainder, SlotDisplay::AnyFuel));
                },
                other => panic!("unexpected: {:?}", other),
            }
        },
        other => panic!("unexpected: {:?}", other),
    }
    let mut stream = stream_of(&[7, 3, 0, 7, 1, 1, 2, 9, 0x33]);
    match SlotDisplay::deserialize(&mut stream).unwrap() {
        SlotDisplay::Composite(items) => {
            assert_eq!(items.len(), 3);
            assert!(matches!(items[0], SlotDisplay::Empty));
            assert!(matches!(&items[1], SlotDisplay::Composite(inner) if inner.len() == 1));
            assert!(matches!(items[2], SlotDisplay::Item { item_type: VarInt(9) }));
        },
        other => panic!("unexpected: {:?}", other),
    }
    assert_eq!(stream.remaining_size(), 1);
    assert_eq!(
        message_of(SlotDisplay::deserialize(&mut stream_of(&[8]))),
        "SlotDisplay: invalid type 8"
    );
    assert_eq!(
        message_of(SlotDisplay::deserialize(&mut stream_of(&[7, 0xff, 0xff, 0xff, 0xff, 0x0f]))),
        "Negative sequence length"
    );
    assert_eq!(
        message_of(SlotDisplay::deserialize(&mut stream_of(&[5, 0, 1]))),
        "Unexpected end of packet"
    );
}

#[test]
fn recipes() {
    let bytes = [1, 1, b'p', 2, 4, 5, 1, 0, 1, b't', 2, 6];
    let recipes = UpdateRecipes::deserialize(&mut stream_of(&bytes)).unwrap();
    assert_eq!(recipes.property_sets.len(), 1);
    assert_eq!(recipes.property_sets[0].0, "p");
    assert_eq!(recipes.property_sets[0].1, vec![VarInt(4), VarInt(5)]);
    assert_eq!(recipes.stonecutter_recipes.len(), 1);
    assert!(matches!(&recipes.stonecutter_recipes[0].0, IdSet::TagName(t) if t == "t"));
    assert!(matches!(
        recipes.stonecutter_recipes[0].1,
        SlotDisplay::Item { item_type: VarInt(6) }
    ));
}

#[test]
fn news_about_players() {
    // listed and latency for two players
    let mut bytes = vec![8 | 16, 2];
    bytes.extend([0; 15]);
    bytes.push(1);
    bytes.extend([1, 0x80, 0x01]);
    bytes.extend([0; 15]);
    bytes.push(2);
    bytes.extend([0, 7]);
    let update = PlayersInfoUpdate::deserialize(&mut stream_of(&bytes)).unwrap();
    assert_eq!(update.players.len(), 2);
    assert_eq!(update.players[0].0, 1);
    assert!(matches!(
        update.players[0].1[..],
        [PlayerAction::UpdateListed(true), PlayerAction::UpdateLatency(VarInt(128))]
    ));
    assert_eq!(update.players[1].0, 2);
    assert!(matches!(
        update.players[1].1[..],
        [PlayerAction::UpdateListed(false), PlayerAction::UpdateLatency(VarInt(7))]
    ));
}

#[test]
fn every_kind_of_news_about_a_player() {
    let mut bytes = vec![0xff, 1];
    bytes.extend([0; 16]);
    bytes.extend([2, b'a', b'b', 1, 1, b'n', 1, b'v', 0]);
    bytes.push(0);
    bytes.push(3);
    bytes.push(1);
    bytes.push(42);
    bytes.extend([1, 1, b'd']);
    bytes.push(9);
    bytes.push(0);
    let update = PlayersInfoUpdate::deserialize(&mut stream_of(&bytes)).unwrap();
    let actions = &update.players[0].1;
    assert_eq!(actions.len(), 8);
    match &actions[0] {
        PlayerAction::AddPlayer { name, properties } => {
            assert_eq!(name, "ab");
            assert_eq!(properties.len(), 1);
            assert_eq!(properties[0].name, "n");
            assert_eq!(properties[0].value, "v");
            assert_eq!(properties[0].signature, None);
        },
        other => panic!("unexpected: {:?}", other),
    }
    assert!(matches!(actions[1], PlayerAction::InitializeChat(None)));
    assert!(matches!(actions[2], PlayerAction::UpdateGameMode(VarInt(3))));
    assert!(matches!(actions[3], PlayerAction::UpdateListed(true)));
    assert!(matches!(actions[4], PlayerAction::UpdateLatency(VarInt(42))));
    assert!(matches!(&actions[5], PlayerAction::UpdateDisplayName(Some(name)) if name == "d"));
    assert!(matches!(actions[6], PlayerAction::UpdateListPriority(VarInt(9))));
    assert!(matches!(actions[7], PlayerAction::UpdateHat(false)));
}

#[test]
fn news_about_players_that_breaks_the_rules() {
    assert_eq!(
        message_of(PlayersInfoUpdate::deserialize(&mut stream_of(&[8, 0xff, 0xff, 0xff, 0xff, 0x0f]))),
        "Negative sequence length"
    );
    let mut bytes = vec![8, 1];
    bytes.extend([0; 16]);
    bytes.push(2);
    assert_eq!(
        message_of(PlayersInfoUpdate::deserialize(&mut stream_of(&bytes))),
        "Invalid bool value (found 2)"
    );
    assert!(PlayersInfoUpdate::deserialize(&mut stream_of(&[0, 0])).unwrap().players.is_empty());
}

#[test]
fn palettes_as_they_travel() {
    match ProtocolPalette::<Biomes>::deserialize(&mut stream_of(&[0, 5])).unwrap() {
        ProtocolPalette::SingleValued { id, .. } => assert_eq!(id, VarInt(5)),
        other => panic!("unexpected: {:?}", other),
    }
    let mut bytes = vec![2, 3, 7, 8, 9];
    bytes.extend([0, 0, 0, 0, 0, 0, 0, 1]);
    bytes.extend([0, 0, 0, 0, 0, 0, 0, 2]);
    match ProtocolPalette::<Biomes>::deserialize(&mut stream_of(&bytes)).unwrap() {
        ProtocolPalette::Indirect { bpe, palette, data } => {
            assert_eq!(bpe, 2);
            assert_eq!(palette, vec![VarInt(7), VarInt(8), VarInt(9)]);
            assert_eq!(data, vec![1, 2]);
        },
        other => panic!("unexpected: {:?}", other),
    }
    let mut bytes = vec![6];
    for word in 0..7u8 {
        bytes.extend([0, 0, 0, 0, 0, 0, 0, word]);
    }
    match ProtocolPalette::<Biomes>::deserialize(&mut stream_of(&bytes)).unwrap() {
        ProtocolPalette::Direct { bpe, data } => {
            assert_eq!(bpe, 6);
            assert_eq!(data, vec![0, 1, 2, 3, 4, 5, 6]);
        },
        other => panic!("unexpected: {:?}", other),
    }
    assert_eq!(
        message_of(ProtocolPalette::<Biomes>::deserialize(&mut stream_of(&[7]))),
        "Invalid bpe: 7"
    );
    assert_eq!(
        message_of(ProtocolPalette::<Blocks>::deserialize(&mut stream_of(&[16]))),
        "Invalid bpe: 16"
    );
    assert_eq!(
        message_of(ProtocolPalette::<Blocks>::deserialize(&mut stream_of(&[
            0xff, 0xff, 0xff, 0xff, 0x0f
        ]))),
        "Invalid bpe: -1"
    );
    let mut bytes = vec![15];
    bytes.extend(vec![0; 1024 * 8]);
    assert!(matches!(
        ProtocolPalette::<Blocks>::deserialize(&mut stream_of(&bytes)).unwrap(),
        ProtocolPalette::Direct { bpe: 15, data } if data.len() == 1024
    ));
}

#[test]
fn registries_and_tags() {
    let bytes = [1, b'r', 2, 1, b'a', 0, 1, b'b', 1, 10, 0];
    let registry = RegistryData::deserialize(&mut stream_of(&bytes)).unwrap();
    assert_eq!(registry.registry_id, "r");
    assert_eq!(registry.entries.len(), 2);
    assert_eq!(registry.entries[0].entry_id, "a");
    assert!(registry.entries[0].data.is_none());
    assert!(registry.entries[1].data.is_some());
    let bytes = [1, 1, b'r', 1, 1, b't', 2, 3, 4];
    let tags = UpdateTags::deserialize(&mut stream_of(&bytes)).unwrap();
    assert_eq!(tags.tags_array.len(), 1);
    assert_eq!(tags.tags_array[0].0, "r");
    assert_eq!((tags.tags_array[0].1).0[0].0, "t");
    assert_eq!((tags.tags_array[0].1).0[0].1, vec![VarInt(3), VarInt(4)]);
}

#[test]
fn the_login_into_the_game() {
    let mut payload = vec![0, 0, 0, 7];
    payload.push(0);
    payload.extend([1, 1, b'o']);
    payload.extend([20, 10, 10]);
    payload.extend([0, 1, 0]);
    payload.push(0);
    payload.extend([1, b'o']);
    payload.extend([0, 0, 0, 0, 0, 0, 0, 9]);
    payload.push(1);
    payload.push(0xff);
    payload.extend([0, 1]);
    payload.push(0);
    payload.extend([0, 63]);
    payload.push(1);
    let mut frame = vec![payload.len() as u8 + 1, 0x2b];
    frame.extend(&payload);
    let mut receiver = PacketReceiver::new();
    receiver.set_state(ConnectionState::Play);
    let mut channel = ByteChannel::new();
    channel.feed(&frame);
    let received = receiver.receive_packet(&mut channel).unwrap();
    assert!(received.leftover.is_empty());
    match received.packet {
        Clientbound::Login(login) => {
            assert_eq!(login.entity_id, EntityId(7));
            assert!(!login.is_hardcore);
            assert_eq!(login.dimension_names, vec![String::from("o")]);
            assert_eq!(login.max_players, VarInt(20));
            assert_eq!(login.view_distance, VarInt(10));
            assert!(login.enable_respawn_screen);
            assert_eq!(login.dimesion_name, "o");
            assert_eq!(login.hashed_seed, 9);
            assert_eq!(login.game_mode, 1);
            assert_eq!(login.previous_game_mode, -1);
            assert!(login.is_flat);
            assert!(login.death_location.is_none());
            assert_eq!(login.sea_level, VarInt(63));
            assert!(login.enforce_secure_chat);
        },
        other => panic!("unexpected: {:?}", other),
    }
    assert_eq!(receiver.get_state(), ConnectionState::Play);
}
