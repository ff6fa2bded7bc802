//! Player identities, facing directions, commands, controls and the stack of
//! movement directions that a player's held keys build up.
use crate::game_states::components::{ControlKey, Controls};
use crate::game_states::map::{PlayerSpawns, spawn_point};
use crate::tiles::animation::{Animation, AnimationView};
use crate::tiles::tileset::{Properties, PropertyValue, TileId, TilePosition, Tileset};
use crate::utils::collections::share;
use vstd::prelude::*;

verus! {

broadcast use vstd::std_specs::hash::group_hash_axioms;

/// A movement direction.
#[derive(PartialEq, Eq, Structural, Hash, Clone, Copy, Debug)]
pub enum Direction {
    Up,
    Down,
    Left,
    Right,
}

/// What a key of a player's controls asks for.
#[derive(PartialEq, Eq, Structural, Hash, Clone, Copy, Debug)]
pub enum PlayerCommand {
    Movement(Direction),
    Bomb,
}

/// One of the four players.
#[derive(PartialEq, Eq, Structural, Hash, Clone, Copy, Debug)]
pub enum PlayerId {
    Player1,
    Player2,
    Player3,
    Player4,
}

/// The player with the given number (1 to 4).
pub open spec fn player_with_number(num: u32) -> PlayerId {
    if num == 1 {
        PlayerId::Player1
    } else if num == 2 {
        PlayerId::Player2
    } else if num == 3 {
        PlayerId::Player3
    } else {
        PlayerId::Player4
    }
}

impl PlayerId {
    /// The name under which the player's assets are stored.
    pub open spec fn name(self) -> Seq<char> {
        match self {
            PlayerId::Player1 => "player1"@,
            PlayerId::Player2 => "player2"@,
            PlayerId::Player3 => "player3"@,
            PlayerId::Player4 => "player4"@,
        }
    }

    /// The player's number, from 1 to 4.
    pub open spec fn number(self) -> u32 {
        match self {
            PlayerId::Player1 => 1,
            PlayerId::Player2 => 2,
            PlayerId::Player3 => 3,
            PlayerId::Player4 => 4,
        }
    }

    pub fn as_str(&self) -> (s: &'static str)
        ensures
            s@ == self.name(),
    {
        match self {
            PlayerId::Player1 => "player1",
            PlayerId::Player2 => "player2",
            PlayerId::Player3 => "player3",
            PlayerId::Player4 => "player4",
        }
    }

    /// The player with number `num`; only 1 to 4 name a player.
    pub fn from_u32(num: u32) -> (id: PlayerId)
        requires
            1 <= num <= 4,
        ensures
            id == player_with_number(num),
            id.number() == num,
    {
        if num == 1 {
            PlayerId::Player1
        } else if num == 2 {
            PlayerId::Player2
        } else if num == 3 {
            PlayerId::Player3
        } else {
            PlayerId::Player4
        }
    }
}

/// The players of a play state.
pub struct Players<E> {
    pub players: Vec<E>,
}

impl<E> Players<E> {
    pub fn new() -> (players: Players<E>)
        ensures
            players.players@.len() == 0,
    {
        Players { players: Vec::new() }
    }
}

/// How a player enters the arena: where, showing which tile, and with the
/// animation of that tile.
pub struct PlayerStart {
    pub position: TilePosition,
    pub tile_id: TileId,
    pub animation: Animation,
}

/// The start of player `id`: at its spawn point, facing down, with the
/// animation of the tile that faces down, looping and running. The player
/// must have a spawn point, and its tileset a tile facing down that is animated.
pub fn create_player<T>(id: PlayerId, player_spawns: &PlayerSpawns, tileset: &Tileset<T>) -> (start:
    PlayerStart)
    requires
        spawn_point(player_spawns.0@, id) is Some,
        first_face_tile(tileset.properties@, PlayerFaceDirection::Down.name()) matches Some(tile_id)
            && tileset.animation_frames_holder@.contains_key(tile_id),
    ensures
        Some(start.position) == spawn_point(player_spawns.0@, id),
        Some(start.tile_id) == first_face_tile(
            tileset.properties@,
            PlayerFaceDirection::Down.name(),
        ),
        start.animation@ == (AnimationView {
            is_paused: false,
            is_finished: false,
            should_loop: true,
            current_frame: 0,
            frame_time: 0,
            frames: tileset.animation_frames_holder@[start.tile_id]@,
        }),
{
    let position = player_spawns.get(id).unwrap();
    let tile_id = PlayerFaceDirection::Down.get_tile_id(tileset).unwrap();
    let frames = tileset.animation_frames_holder.get(&tile_id).unwrap();
    let animation = Animation::builder(share(frames)).looping(true).paused(false).build();
    PlayerStart { position, tile_id, animation }
}

/// The command that `key` gives `player`: the arrow keys move the first player
/// and right control drops its bombs; W, A, S and D move the second player and
/// left control drops its bombs; the other players have no keys.
pub open spec fn player_binding(player: PlayerId, key: ControlKey) -> Option<PlayerCommand> {
    match player {
        PlayerId::Player1 => match key {
            ControlKey::Left => Some(PlayerCommand::Movement(Direction::Left)),
            ControlKey::Right => Some(PlayerCommand::Movement(Direction::Right)),
            ControlKey::Up => Some(PlayerCommand::Movement(Direction::Up)),
            ControlKey::Down => Some(PlayerCommand::Movement(Direction::Down)),
            ControlKey::RCtrl => Some(PlayerCommand::Bomb),
            _ => None,
        },
        PlayerId::Player2 => match key {
            ControlKey::A => Some(PlayerCommand::Movement(Direction::Left)),
            ControlKey::D => Some(PlayerCommand::Movement(Direction::Right)),
            ControlKey::W => Some(PlayerCommand::Movement(Direction::Up)),
            ControlKey::S => Some(PlayerCommand::Movement(Direction::Down)),
            ControlKey::LCtrl => Some(PlayerCommand::Bomb),
            _ => None,
        },
        _ => None,
    }
}

/// The controls of `player_id`.
pub fn create_player_controls(player_id: PlayerId) -> (controls: Controls)
    ensures
        forall|key: ControlKey| controls.spec_get(key) == player_binding(player_id, key),
{
    let mut controls = Controls::new();
    match player_id {
        PlayerId::Player1 => {
            controls.insert(ControlKey::Left, PlayerCommand::Movement(Direction::Left));
            controls.insert(ControlKey::Right, PlayerCommand::Movement(Direction::Right));
            controls.insert(ControlKey::Up, PlayerCommand::Movement(Direction::Up));
            controls.insert(ControlKey::Down, PlayerCommand::Movement(Direction::Down));
            controls.insert(ControlKey::RCtrl, PlayerCommand::Bomb);
        },
        PlayerId::Player2 => {
            controls.insert(ControlKey::A, PlayerCommand::Movement(Direction::Left));
            controls.insert(ControlKey::D, PlayerCommand::Movement(Direction::Right));
            controls.insert(ControlKey::W, PlayerCommand::Movement(Direction::Up));
            controls.insert(ControlKey::S, PlayerCommand::Movement(Direction::Down));
            controls.insert(ControlKey::LCtrl, PlayerCommand::Bomb);
        },
        PlayerId::Player3 => {},
        PlayerId::Player4 => {},
    }
    controls
}

/// The movement command that `key` gives `player`, with no key for bombs:
/// the arrow keys move the first player, W, A, S and D the second one, and
/// the other players have no keys.
pub open spec fn movement_binding(player: PlayerId, key: ControlKey) -> Option<PlayerCommand> {
    match player_binding(player, key) {
        Some(PlayerCommand::Bomb) => None,
        binding => binding,
    }
}

/// A player that only moves.
pub struct Player {}

impl Player {
    /// The movement controls of `player_id`.
    pub fn create_player_controls(player_id: PlayerId) -> (controls: Controls)
        ensures
            forall|key: ControlKey| controls.spec_get(key) == movement_binding(player_id, key),
    {
        let mut controls = Controls::new();
        match player_id {
            PlayerId::Player1 => {
                controls.insert(ControlKey::Left, PlayerCommand::Movement(Direction::Left));
                controls.insert(ControlKey::Right, PlayerCommand::Movement(Direction::Right));
                controls.insert(ControlKey::Up, PlayerCommand::Movement(Direction::Up));
                controls.insert(ControlKey::Down, PlayerCommand::Movement(Direction::Down));
            },
            PlayerId::Player2 => {
                controls.insert(ControlKey::A, PlayerCommand::Movement(Direction::Left));
                controls.insert(ControlKey::D, PlayerCommand::Movement(Direction::Right));
                controls.insert(ControlKey::W, PlayerCommand::Movement(Direction::Up));
                controls.insert(ControlKey::S, PlayerCommand::Movement(Direction::Down));
            },
            PlayerId::Player3 => {},
            PlayerId::Player4 => {},
        }
        controls
    }
}

/// A player's number names that player again.
pub proof fn lemma_player_number_round_trip(id: PlayerId)
    ensures
        1 <= id.number() <= 4,
        player_with_number(id.number()) == id,
{
}

/// Distinct players have distinct names.
pub proof fn lemma_player_names_distinct(a: PlayerId, b: PlayerId)
    requires
        a != b,
    ensures
        a.name() != b.name(),
{
    reveal_strlit("player1");
    reveal_strlit("player2");
    reveal_strlit("player3");
    reveal_strlit("player4");
    assert(a.name()[6] != b.name()[6]);
}

/// The direction a player's sprite faces.
#[derive(PartialEq, Eq, Structural, Hash, Clone, Copy, Debug)]
pub enum PlayerFaceDirection {
    Down,
    Up,
    Left,
    Right,
}

/// Whether `s` is the name of a facing direction.
pub open spec fn is_face_direction_name(s: Seq<char>) -> bool {
    s == "down"@ || s == "up"@ || s == "left"@ || s == "right"@
}

impl PlayerFaceDirection {
    /// The value of the `face_direction` property of the tile showing this direction.
    pub open spec fn name(self) -> Seq<char> {
        match self {
            PlayerFaceDirection::Down => "down"@,
            PlayerFaceDirection::Up => "up"@,
            PlayerFaceDirection::Left => "left"@,
            PlayerFaceDirection::Right => "right"@,
        }
    }

    /// The facing direction of a movement direction.
    pub open spec fn of_direction(direction: Direction) -> PlayerFaceDirection {
        match direction {
            Direction::Up => PlayerFaceDirection::Up,
            Direction::Down => PlayerFaceDirection::Down,
            Direction::Left => PlayerFaceDirection::Left,
            Direction::Right => PlayerFaceDirection::Right,
        }
    }

    pub fn as_str(&self) -> (s: &'static str)
        ensures
            s@ == self.name(),
    {
        match self {
            PlayerFaceDirection::Down => "down",
            PlayerFaceDirection::Up => "up",
            PlayerFaceDirection::Left => "left",
            PlayerFaceDirection::Right => "right",
        }
    }

    /// The first tile of `tileset` whose `face_direction` property is this
    /// direction's name.
    pub fn get_tile_id<T>(&self, tileset: &Tileset<T>) -> (tile_id: Option<TileId>)
        ensures
            tile_id == first_face_tile(tileset.properties@, self.name()),
    {
        let name = self.as_str().to_owned();
        let n = tileset.properties.len();
        assert(tileset.properties@.skip(0) =~= tileset.properties@);
        for i in 0..n
            invariant
                n == tileset.properties@.len(),
                name@ == self.name(),
                first_face_tile(tileset.properties@, self.name()) == first_face_tile(
                    tileset.properties@.skip(i as int),
                    self.name(),
                ),
        {
            assert(tileset.properties@.skip(i as int).drop_first() =~= tileset.properties@.skip(
                i + 1,
            ));
            let (tile_id, properties) = &tileset.properties[i];
            if let Some(PropertyValue::StringValue(face_direction)) = properties.get(
                "face_direction",
            ) {
                if *face_direction == name {
                    return Some(*tile_id);
                }
            }
        }
        None
    }

    pub fn from_direction(direction: Direction) -> (face: PlayerFaceDirection)
        ensures
            face == Self::of_direction(direction),
    {
        match direction {
            Direction::Up => PlayerFaceDirection::Up,
            Direction::Down => PlayerFaceDirection::Down,
            Direction::Left => PlayerFaceDirection::Left,
            Direction::Right => PlayerFaceDirection::Right,
        }
    }

    /// The facing direction named `face_direction`, which must be one of
    /// "down", "up", "left" and "right".
    pub fn from_name(face_direction: &str) -> (face: PlayerFaceDirection)
        requires
            is_face_direction_name(face_direction@),
        ensures
            face.name() == face_direction@,
    {
        let name = face_direction.to_owned();
        if name == "down".to_owned() {
            PlayerFaceDirection::Down
        } else if name == "up".to_owned() {
            PlayerFaceDirection::Up
        } else if name == "left".to_owned() {
            PlayerFaceDirection::Left
        } else {
            PlayerFaceDirection::Right
        }
    }
}

/// Whether `properties` give the `face_direction` property the value `name`.
pub open spec fn shows_face(properties: Properties, name: Seq<char>) -> bool {
    properties.spec_get("face_direction"@) matches Some(PropertyValue::StringValue(value))
        && value@ == name
}

/// The id of the first tile of `properties` that shows the face named `name`.
pub open spec fn first_face_tile(properties: Seq<(TileId, Properties)>, name: Seq<char>) -> Option<
    TileId,
>
    decreases properties.len(),
{
    if properties.len() == 0 {
        None
    } else if shows_face(properties[0].1, name) {
        Some(properties[0].0)
    } else {
        first_face_tile(properties.drop_first(), name)
    }
}

/// Distinct facing directions have distinct names, each of which `from_name` accepts.
pub proof fn lemma_face_direction_names_distinct(a: PlayerFaceDirection, b: PlayerFaceDirection)
    requires
        a != b,
    ensures
        a.name() != b.name(),
        is_face_direction_name(a.name()),
{
    reveal_strlit("down");
    reveal_strlit("up");
    reveal_strlit("left");
    reveal_strlit("right");
    assert(a.name()[0] != b.name()[0]);
}

} // verus!
