//! The decisions that the play state's systems take each frame; the systems
//! themselves apply them to the entities and the physics world.
use crate::game_states::components::{
    ButtonState, ControlKey, Controls, EntityType, MoveDirectionStack, without_first,
};
use crate::players::{Direction, PlayerCommand, PlayerFaceDirection, first_face_tile};
use crate::tiles::animation::Animation;
use crate::tiles::tileset::{TileId, Tileset};
use vstd::prelude::*;

verus! {

/// The directions a player holds after `key` went down or up: a movement key
/// pushes its direction on the stack when it goes down and takes its first
/// occurrence off when it goes up; other keys change nothing.
pub open spec fn controlled_directions(
    controls: Controls,
    directions: Seq<Direction>,
    key: ControlKey,
    state: ButtonState,
) -> Seq<Direction> {
    match controls.spec_get(key) {
        Some(PlayerCommand::Movement(direction)) => if state == ButtonState::Press {
            directions.push(direction)
        } else {
            without_first(directions, direction)
        },
        _ => directions,
    }
}

/// Whether `key` going down or up asks for a bomb: the bomb key going down.
pub open spec fn asks_for_bomb(controls: Controls, key: ControlKey, state: ButtonState) -> bool {
    controls.spec_get(key) == Some(PlayerCommand::Bomb) && state == ButtonState::Press
}

/// A key of a player's controls went down or up: a movement key pushes its
/// direction on the player's stack when it goes down and takes it off when it
/// goes up; the bomb key asks for a bomb when it goes down. Returns whether a
/// bomb is to be spawned.
pub fn apply_control(
    controls: &Controls,
    move_direction_stack: &mut MoveDirectionStack,
    key: ControlKey,
    state: ButtonState,
) -> (spawn_bomb: bool)
    ensures
        final(move_direction_stack).0@ == controlled_directions(
            *controls,
            old(move_direction_stack).0@,
            key,
            state,
        ),
        spawn_bomb == asks_for_bomb(*controls, key, state),
{
    match controls.get(key) {
        Some(PlayerCommand::Movement(direction)) => {
            match state {
                ButtonState::Press => move_direction_stack.press(direction),
                ButtonState::Release => move_direction_stack.release(direction),
            }
            false
        },
        Some(PlayerCommand::Bomb) => state == ButtonState::Press,
        None => false,
    }
}

/// The tile a player turns to: that of the face of the direction the player
/// moves in, where it differs from the tile the player shows by default.
pub open spec fn turned_tile<T>(
    directions: Seq<crate::players::Direction>,
    tileset: Tileset<T>,
    default_tile_id: TileId,
) -> Option<TileId> {
    if directions.len() == 0 {
        None
    } else {
        let face = PlayerFaceDirection::of_direction(directions.last());
        let tile_id = first_face_tile(tileset.properties@, face.name()).unwrap();
        if tile_id == default_tile_id {
            None
        } else {
            Some(tile_id)
        }
    }
}

/// Only the direction pressed last decides where a player turns: whatever
/// directions it held before, once it presses `direction` it turns to the tile
/// of that direction's face, unless it shows that tile already.
pub proof fn lemma_last_pressed_direction_decides<T>(
    held: Seq<Direction>,
    direction: Direction,
    tileset: Tileset<T>,
    default_tile_id: TileId,
)
    requires
        first_face_tile(
            tileset.properties@,
            PlayerFaceDirection::of_direction(direction).name(),
        ) is Some,
    ensures
        turned_tile(held.push(direction), tileset, default_tile_id) == turned_tile(
            seq![direction],
            tileset,
            default_tile_id,
        ),
        ({
            let face_tile = first_face_tile(
                tileset.properties@,
                PlayerFaceDirection::of_direction(direction).name(),
            )->Some_0;
            &&& face_tile != default_tile_id ==> turned_tile(
                held.push(direction),
                tileset,
                default_tile_id,
            ) == Some(face_tile)
            &&& face_tile == default_tile_id ==> turned_tile(
                held.push(direction),
                tileset,
                default_tile_id,
            ) is None
        }),
{
    assert(held.push(direction).last() == direction);
    assert(seq![direction].last() == direction);
}

/// A player that turns shows the face of the direction it moves in, the last
/// one it holds, and a player that does not move does not turn.
pub proof fn lemma_turned_tile_faces_movement<T>(
    directions: Seq<Direction>,
    tileset: Tileset<T>,
    default_tile_id: TileId,
)
    requires
        directions.len() > 0 ==> first_face_tile(
            tileset.properties@,
            PlayerFaceDirection::of_direction(directions.last()).name(),
        ) is Some,
    ensures
        directions.len() == 0 ==> turned_tile(directions, tileset, default_tile_id) is None,
        turned_tile(directions, tileset, default_tile_id) matches Some(t) ==> directions.len() > 0
            && first_face_tile(
            tileset.properties@,
            PlayerFaceDirection::of_direction(directions[directions.len() - 1]).name(),
        ) == Some(t) && t != default_tile_id,
{
}

/// The tile a player is to turn to, if the player turns. The tileset must have
/// a tile for the face of the direction the player moves in.
pub fn turn_player<T>(
    move_direction_stack: &MoveDirectionStack,
    tileset: &Tileset<T>,
    default_tile_id: TileId,
) -> (tile_id: Option<TileId>)
    requires
        move_direction_stack.0@.len() > 0 ==> first_face_tile(
            tileset.properties@,
            PlayerFaceDirection::of_direction(move_direction_stack.0@.last()).name(),
        ) is Some,
    ensures
        tile_id == turned_tile(move_direction_stack.0@, *tileset, default_tile_id),
        move_direction_stack.0@.len() == 0 ==> tile_id is None,
        move_direction_stack.0@.len() > 0 ==> {
            let face_tile = first_face_tile(
                tileset.properties@,
                PlayerFaceDirection::of_direction(move_direction_stack.0@.last()).name(),
            );
            &&& tile_id matches Some(t) ==> face_tile == Some(t) && t != default_tile_id
            &&& tile_id is None ==> face_tile == Some(default_tile_id)
        },
{
    match move_direction_stack.last() {
        Some(direction) => {
            let face = PlayerFaceDirection::from_direction(direction);
            let tile_id = face.get_tile_id(tileset).unwrap();
            if tile_id != default_tile_id {
                Some(tile_id)
            } else {
                None
            }
        },
        None => None,
    }
}

/// Which of two colliders that stopped touching is a bomb that a player has
/// left: the first (`Some(true)`), the second (`Some(false)`) or neither. Once
/// its player has left it, a bomb blocks the way.
pub fn bomb_left_by_player(first: Option<EntityType>, second: Option<EntityType>) -> (bomb: Option<
    bool,
>)
    ensures
        bomb == (if first == Some(EntityType::Bomb) && second == Some(EntityType::Player) {
            Some(true)
        } else if first == Some(EntityType::Player) && second == Some(EntityType::Bomb) {
            Some(false)
        } else {
            None
        }),
{
    match (first, second) {
        (Some(EntityType::Bomb), Some(EntityType::Player)) => Some(true),
        (Some(EntityType::Player), Some(EntityType::Bomb)) => Some(false),
        _ => None,
    }
}

/// What an entity shows after its animation has run: the animation's current
/// tile while it runs; once it has finished, the entity's default tile, and the
/// animation is to be removed.
pub enum AnimatedTile {
    Running(TileId),
    Finished(TileId),
}

pub fn animated_tile(animation: &Animation, default_tile_id: TileId) -> (tile: AnimatedTile)
    requires
        animation@.frames.len() > 0,
    ensures
        animation@.is_finished ==> tile == AnimatedTile::Finished(default_tile_id),
        !animation@.is_finished ==> tile == AnimatedTile::Running(
            animation@.frames[animation@.current_frame as int].tile_id,
        ),
{
    if animation.is_finished() {
        AnimatedTile::Finished(default_tile_id)
    } else {
        AnimatedTile::Running(animation.get_current_tile_id())
    }
}

} // verus!
