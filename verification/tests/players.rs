use bomberman::game_states::components::{ControlKey, MoveDirectionStack};
use bomberman::object_groups::{ArenaObjectGroup, PlayerSpawnsProperties, SoftBlockAreasProperties};
use bomberman::players::{create_player_controls, Direction, Player, PlayerCommand, PlayerFaceDirection, PlayerId};
use bomberman::tiles::texture_holder::TextureHolder;
use bomberman::tiles::tileset::{Properties, PropertyValue, TileData, Tileset, TilesetData};

#[test]
fn object_group_names() {
    assert_eq!(ArenaObjectGroup::HardBlocks.as_str(), "hard_blocks");
    assert_eq!(ArenaObjectGroup::SoftBlockAreas.as_str(), "soft_block_areas");
    assert_eq!(ArenaObjectGroup::PlayerSpawns.as_str(), "player_spawns");
    assert_eq!(SoftBlockAreasProperties::SpawnChance.as_str(), "spawn_chance");
    assert_eq!(PlayerSpawnsProperties::PlayerId.as_str(), "player_id");
}

#[test]
fn player_ids_and_names() {
    assert_eq!(PlayerId::from_u32(1), PlayerId::Player1);
    assert_eq!(PlayerId::from_u32(4), PlayerId::Player4);
    assert_eq!(PlayerId::Player2.as_str(), "player2");
    assert_eq!(PlayerId::Player3.as_str(), "player3");
}

#[test]
fn face_directions() {
    assert_eq!(PlayerFaceDirection::from_name("left"), PlayerFaceDirection::Left);
    assert_eq!(PlayerFaceDirection::from_name("down"), PlayerFaceDirection::Down);
    assert_eq!(PlayerFaceDirection::Right.as_str(), "right");
    assert_eq!(PlayerFaceDirection::from_direction(Direction::Up), PlayerFaceDirection::Up);
    for face in [
        PlayerFaceDirection::Down,
        PlayerFaceDirection::Up,
        PlayerFaceDirection::Left,
        PlayerFaceDirection::Right,
    ] {
        assert_eq!(PlayerFaceDirection::from_name(face.as_str()), face);
    }
}

fn face_tile(id: u32, face: &str) -> TileData {
    let mut properties = Properties::new();
    properties.insert("face_direction".to_string(), PropertyValue::StringValue(face.to_string()));
    TileData { id, properties, animation: None }
}

#[test]
fn tile_of_a_face() {
    let data = TilesetData {
        first_gid: 1,
        tiles: vec![face_tile(0, "up"), face_tile(1, "down"), face_tile(2, "down")],
    };
    let tileset: Tileset<()> = Tileset::from_tileset(&data, TextureHolder::new());
    assert_eq!(PlayerFaceDirection::Down.get_tile_id(&tileset), Some(2));
    assert_eq!(PlayerFaceDirection::Up.get_tile_id(&tileset), Some(1));
    assert_eq!(PlayerFaceDirection::Left.get_tile_id(&tileset), None);
}

#[test]
fn controls_of_the_players() {
    let first = create_player_controls(PlayerId::Player1);
    assert_eq!(first.get(ControlKey::Left), Some(PlayerCommand::Movement(Direction::Left)));
    assert_eq!(first.get(ControlKey::Down), Some(PlayerCommand::Movement(Direction::Down)));
    assert_eq!(first.get(ControlKey::RCtrl), Some(PlayerCommand::Bomb));
    assert_eq!(first.get(ControlKey::W), None);
    let second = create_player_controls(PlayerId::Player2);
    assert_eq!(second.get(ControlKey::W), Some(PlayerCommand::Movement(Direction::Up)));
    assert_eq!(second.get(ControlKey::LCtrl), Some(PlayerCommand::Bomb));
    assert_eq!(second.get(ControlKey::Left), None);
    let third = create_player_controls(PlayerId::Player3);
    assert_eq!(third.get(ControlKey::Left), None);
}

#[test]
fn movement_controls_have_no_bomb_key() {
    let first = Player::create_player_controls(PlayerId::Player1);
    assert_eq!(first.get(ControlKey::Left), Some(PlayerCommand::Movement(Direction::Left)));
    assert_eq!(first.get(ControlKey::Right), Some(PlayerCommand::Movement(Direction::Right)));
    assert_eq!(first.get(ControlKey::Up), Some(PlayerCommand::Movement(Direction::Up)));
    assert_eq!(first.get(ControlKey::Down), Some(PlayerCommand::Movement(Direction::Down)));
    assert_eq!(first.get(ControlKey::RCtrl), None);
    let second = Player::create_player_controls(PlayerId::Player2);
    assert_eq!(second.get(ControlKey::A), Some(PlayerCommand::Movement(Direction::Left)));
    assert_eq!(second.get(ControlKey::D), Some(PlayerCommand::Movement(Direction::Right)));
    assert_eq!(second.get(ControlKey::S), Some(PlayerCommand::Movement(Direction::Down)));
    assert_eq!(second.get(ControlKey::LCtrl), None);
    assert_eq!(second.get(ControlKey::Up), None);
    assert_eq!(Player::create_player_controls(PlayerId::Player4).get(ControlKey::W), None);
}

#[test]
fn move_direction_stack() {
    let mut stack = MoveDirectionStack::new();
    stack.press(Direction::Up);
    stack.press(Direction::Left);
    assert_eq!(stack.last(), Some(Direction::Left));
    stack.press(Direction::Up);
    stack.release(Direction::Up);
    assert_eq!(stack.0, vec![Direction::Left, Direction::Up]);
    stack.release(Direction::Down);
    assert_eq!(stack.0, vec![Direction::Left, Direction::Up]);
    stack.release(Direction::Up);
    stack.release(Direction::Left);
    assert_eq!(stack.last(), None);
}
