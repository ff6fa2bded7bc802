use bomberman::game_states::components::{ButtonState, ControlKey, MoveDirectionStack};
use bomberman::game_states::components::EntityType;
use bomberman::game_states::systems::{animated_tile, apply_control, bomb_left_by_player, turn_player, AnimatedTile};
use bomberman::players::{create_player_controls, Direction, PlayerId};
use bomberman::tiles::animation::{Animation, Frame};
use bomberman::tiles::texture_holder::TextureHolder;
use bomberman::tiles::tileset::{Properties, PropertyValue, TileData, Tileset, TilesetData};
use std::sync::Arc;

#[test]
fn controls_push_and_release_directions() {
    let controls = create_player_controls(PlayerId::Player1);
    let mut stack = MoveDirectionStack::new();
    assert!(!apply_control(&controls, &mut stack, ControlKey::Left, ButtonState::Press));
    assert!(!apply_control(&controls, &mut stack, ControlKey::Up, ButtonState::Press));
    assert_eq!(stack.0, vec![Direction::Left, Direction::Up]);
    assert!(!apply_control(&controls, &mut stack, ControlKey::Left, ButtonState::Release));
    assert_eq!(stack.0, vec![Direction::Up]);
    assert!(!apply_control(&controls, &mut stack, ControlKey::W, ButtonState::Press));
    assert_eq!(stack.0, vec![Direction::Up]);
}

#[test]
fn bomb_key_spawns_a_bomb_when_pressed() {
    let controls = create_player_controls(PlayerId::Player2);
    let mut stack = MoveDirectionStack::new();
    assert!(apply_control(&controls, &mut stack, ControlKey::LCtrl, ButtonState::Press));
    assert!(!apply_control(&controls, &mut stack, ControlKey::LCtrl, ButtonState::Release));
    assert!(stack.0.is_empty());
}

fn face_tile(id: u32, face: &str) -> TileData {
    let mut properties = Properties::new();
    properties.insert("face_direction".to_string(), PropertyValue::StringValue(face.to_string()));
    TileData { id, properties, animation: None }
}

#[test]
fn player_turns_to_the_tile_of_its_direction() {
    let data = TilesetData {
        first_gid: 1,
        tiles: vec![face_tile(0, "down"), face_tile(1, "up"), face_tile(2, "left"), face_tile(3, "right")],
    };
    let tileset: Tileset<()> = Tileset::from_tileset(&data, TextureHolder::new());
    let mut stack = MoveDirectionStack::new();
    assert_eq!(turn_player(&stack, &tileset, 1), None);
    stack.press(Direction::Left);
    assert_eq!(turn_player(&stack, &tileset, 1), Some(3));
    assert_eq!(turn_player(&stack, &tileset, 3), None);
}

#[test]
fn finished_animation_shows_the_default_tile() {
    let frames = Arc::new(vec![Frame { tile_id: 7, duration: 1 }]);
    let mut animation = Animation::builder(frames).build();
    assert!(matches!(animated_tile(&animation, 2), AnimatedTile::Running(7)));
    animation.update(1000);
    assert!(matches!(animated_tile(&animation, 2), AnimatedTile::Finished(2)));
}

#[test]
fn bomb_left_by_a_player() {
    assert_eq!(bomb_left_by_player(Some(EntityType::Bomb), Some(EntityType::Player)), Some(true));
    assert_eq!(bomb_left_by_player(Some(EntityType::Player), Some(EntityType::Bomb)), Some(false));
    assert_eq!(bomb_left_by_player(Some(EntityType::Bomb), Some(EntityType::Bomb)), None);
    assert_eq!(bomb_left_by_player(None, Some(EntityType::Player)), None);
}
