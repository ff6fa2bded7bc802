//! The entities of a play state as its systems see them, and the systems that
//! go over all of them: controls, turning and animation.
use crate::game_states::components::{
    ButtonState, ControlKey, Controls, EntityType, MoveDirectionStack,
};
use crate::game_states::map::{PlayerSpawns, spawn_point};
use crate::players::{
    PlayerFaceDirection, PlayerId, Players, create_player, create_player_controls,
    first_face_tile, player_binding,
};
use crate::game_states::systems::{
    AnimatedTile, animated_tile, apply_control, asks_for_bomb, controlled_directions, turn_player,
    turned_tile,
};
use crate::tiles::animation::{Animation, AnimationView};
use crate::tiles::tileset::{TileId, Tileset};
use crate::utils::collections::share;
use std::collections::HashMap;
use std::sync::Arc;
use vstd::prelude::*;
use vstd::std_specs::iter::IteratorSpec;

verus! {

broadcast use vstd::std_specs::hash::group_hash_axioms;

/// The animation an entity shows: the one that all tiles of a kind share, or
/// one of its own.
pub enum EntityAnimation {
    Shared(TileId),
    Owned(Animation),
}

/// What a player's keys drive: its controls and the directions it holds.
pub struct PlayerControls {
    pub controls: Controls,
    pub move_direction_stack: MoveDirectionStack,
}

/// An entity of a play state: its drawing layer, what it is, the tile it
/// shows by default and now, its tileset, its animation, its controls where it
/// is a player, and `body`, what these systems do not read (where and how it
/// lies in the world).
pub struct Entity<T, B> {
    pub layer: usize,
    pub entity_type: EntityType,
    pub default_tile_id: TileId,
    pub current_tile_id: TileId,
    pub tileset: Arc<Tileset<T>>,
    pub animation: Option<EntityAnimation>,
    pub player: Option<PlayerControls>,
    pub body: B,
}

/// Whether `after` is `before` with nothing changed but the player's stack of
/// directions, which is `directions`.
pub open spec fn same_but_directions<T, B>(
    before: Entity<T, B>,
    after: Entity<T, B>,
    directions: Seq<crate::players::Direction>,
) -> bool {
    &&& after.layer == before.layer
    &&& after.entity_type == before.entity_type
    &&& after.default_tile_id == before.default_tile_id
    &&& after.current_tile_id == before.current_tile_id
    &&& after.tileset == before.tileset
    &&& after.animation == before.animation
    &&& after.body == before.body
    &&& match before.player {
        Some(player) => after.player matches Some(now) && now.controls == player.controls
            && now.move_direction_stack.0@ == directions,
        None => after.player is None,
    }
}

/// Whether `after` is `entity` after `key` went down or up: a player's stack
/// of directions changes as its controls say; nothing else changes.
pub open spec fn controlled_entity<T, B>(
    before: Entity<T, B>,
    after: Entity<T, B>,
    key: ControlKey,
    state: ButtonState,
) -> bool {
    match before.player {
        Some(player) => same_but_directions(
            before,
            after,
            controlled_directions(player.controls, player.move_direction_stack.0@, key, state),
        ),
        None => after == before,
    }
}

/// Whether `entity` is a player that `key` going down or up makes ask for a bomb.
pub open spec fn entity_asks_for_bomb<T, B>(
    entity: Entity<T, B>,
    key: ControlKey,
    state: ButtonState,
) -> bool {
    entity.player matches Some(player) && asks_for_bomb(player.controls, key, state)
}

/// The positions of the entities of `entities` that ask for a bomb, in order.
pub open spec fn bomb_requests<T, B>(
    entities: Seq<Entity<T, B>>,
    key: ControlKey,
    state: ButtonState,
) -> Seq<usize>
    decreases entities.len(),
{
    if entities.len() == 0 {
        Seq::empty()
    } else {
        let earlier = bomb_requests(entities.drop_last(), key, state);
        if entity_asks_for_bomb(entities.last(), key, state) {
            earlier.push((entities.len() - 1) as usize)
        } else {
            earlier
        }
    }
}

/// `key` went down or up: every player's directions change as its controls
/// say. Returns the positions of the players that ask for a bomb, in order.
pub fn controls_system<T, B>(
    entities: &mut Vec<Entity<T, B>>,
    key: ControlKey,
    state: ButtonState,
) -> (spawn_bombs: Vec<usize>)
    ensures
        final(entities)@.len() == old(entities)@.len(),
        forall|i: int|
            0 <= i < old(entities)@.len() ==> controlled_entity(
                old(entities)@[i],
                #[trigger] final(entities)@[i],
                key,
                state,
            ),
        spawn_bombs@ == bomb_requests(old(entities)@, key, state),
{
    let n = entities.len();
    let mut spawn_bombs: Vec<usize> = Vec::new();
    for i in 0..n
        invariant
            n == old(entities)@.len(),
            entities@.len() == n,
            forall|j: int|
                0 <= j < i ==> controlled_entity(
                    old(entities)@[j],
                    #[trigger] entities@[j],
                    key,
                    state,
                ),
            forall|j: int| i <= j < n ==> entities@[j] == old(entities)@[j],
            spawn_bombs@ == bomb_requests(old(entities)@.take(i as int), key, state),
    {
        let ghost before = entities@;
        assert(old(entities)@.take(i + 1).drop_last() =~= old(entities)@.take(i as int));
        let entity = entities.remove(i);
        let ghost original = entity;
        let Entity {
            layer,
            entity_type,
            default_tile_id,
            current_tile_id,
            tileset,
            animation,
            player,
            body,
        } = entity;
        let player = match player {
            Some(player) => {
                let PlayerControls { controls, mut move_direction_stack } = player;
                let spawn_bomb = apply_control(&controls, &mut move_direction_stack, key, state);
                if spawn_bomb {
                    spawn_bombs.push(i);
                }
                Some(PlayerControls { controls, move_direction_stack })
            },
            None => None,
        };
        let entity = Entity {
            layer,
            entity_type,
            default_tile_id,
            current_tile_id,
            tileset,
            animation,
            player,
            body,
        };
        assert(controlled_entity(original, entity, key, state));
        entities.insert(i, entity);
        assert forall|j: int| 0 <= j < n && j != i implies entities@[j] == before[j] by {}
    }
    assert(old(entities)@.take(n as int) =~= old(entities)@);
    spawn_bombs
}

/// Whether `after` is `before` once the player has turned: a player that
/// moves in a direction whose face shows another tile than its default one
/// takes that tile as its default and current tile, and, where the tile is
/// animated, a new looping animation of it; nothing else changes.
pub open spec fn turned_entity<T, B>(before: Entity<T, B>, after: Entity<T, B>) -> bool {
    match before.player {
        Some(player) => match turned_tile(
            player.move_direction_stack.0@,
            *before.tileset,
            before.default_tile_id,
        ) {
            Some(tile_id) => {
                &&& after.layer == before.layer
                &&& after.entity_type == before.entity_type
                &&& after.default_tile_id == tile_id
                &&& after.current_tile_id == tile_id
                &&& after.tileset == before.tileset
                &&& after.player == before.player
                &&& after.body == before.body
                &&& if before.tileset.animation_frames_holder@.contains_key(tile_id) {
                    after.animation matches Some(EntityAnimation::Owned(animation))
                        && animation@ == AnimationView::built(
                        before.tileset.animation_frames_holder@[tile_id]@,
                        true,
                        false,
                    )
                } else {
                    after.animation == before.animation
                }
            },
            None => after == before,
        },
        None => after == before,
    }
}

/// Whether the tileset of every player that moves has a tile for the face of
/// the direction it moves in.
pub open spec fn faces_known<T, B>(entities: Seq<Entity<T, B>>) -> bool {
    forall|i: int|
        0 <= i < entities.len() ==> match (#[trigger] entities[i]).player {
            Some(player) => player.move_direction_stack.0@.len() > 0 ==> crate::players::first_face_tile(
                entities[i].tileset.properties@,
                crate::players::PlayerFaceDirection::of_direction(
                    player.move_direction_stack.0@.last(),
                ).name(),
            ) is Some,
            None => true,
        }
}

/// Every player turns to the face of the direction it moves in.
pub fn turn_player_system<T, B>(entities: &mut Vec<Entity<T, B>>)
    requires
        faces_known(old(entities)@),
    ensures
        final(entities)@.len() == old(entities)@.len(),
        forall|i: int|
            0 <= i < old(entities)@.len() ==> turned_entity(
                old(entities)@[i],
                #[trigger] final(entities)@[i],
            ),
        forall|i: int|
            0 <= i < old(entities)@.len() ==> match (#[trigger] old(entities)@[i]).player {
                Some(player) => player.move_direction_stack.0@.len() > 0 ==> Some(
                    final(entities)@[i].default_tile_id,
                ) == first_face_tile(
                    old(entities)@[i].tileset.properties@,
                    PlayerFaceDirection::of_direction(player.move_direction_stack.0@.last()).name(),
                ),
                None => true,
            },
{
    let n = entities.len();
    for i in 0..n
        invariant
            n == old(entities)@.len(),
            entities@.len() == n,
            faces_known(old(entities)@),
            forall|j: int|
                0 <= j < i ==> turned_entity(old(entities)@[j], #[trigger] entities@[j]),
            forall|j: int| i <= j < n ==> entities@[j] == old(entities)@[j],
    {
        let ghost before = entities@;
        let entity = entities.remove(i);
        let ghost original = entity;
        assert(original == old(entities)@[i as int]);
        let Entity {
            layer,
            entity_type,
            mut default_tile_id,
            mut current_tile_id,
            tileset,
            mut animation,
            player,
            body,
        } = entity;
        if let Some(player) = &player {
            if let Some(tile_id) = turn_player(&player.move_direction_stack, &tileset, default_tile_id) {
                default_tile_id = tile_id;
                current_tile_id = tile_id;
                if let Some(frames) = tileset.animation_frames_holder.get(&tile_id) {
                    animation = Some(
                        EntityAnimation::Owned(
                            Animation::builder(share(frames)).looping(true).build(),
                        ),
                    );
                }
            }
        }
        let entity = Entity {
            layer,
            entity_type,
            default_tile_id,
            current_tile_id,
            tileset,
            animation,
            player,
            body,
        };
        assert(turned_entity(original, entity));
        entities.insert(i, entity);
        assert forall|j: int| 0 <= j < n && j != i implies entities@[j] == before[j] by {}
    }
}

/// The tile ids of `animations`, each once.
fn tile_ids(animations: &HashMap<TileId, Animation>) -> (ids: Vec<TileId>)
    ensures
        ids@.to_set() == animations@.dom(),
        ids@.no_duplicates(),
{
    let ghost all = vstd::std_specs::hash::spec_keys_iter(animations).remaining();
    let mut ids: Vec<TileId> = Vec::new();
    for id in iter: animations.keys()
        invariant
            iter.seq() == all,
            ids@ == all.take(iter.index()).unref(),
    {
        ids.push(*id);
        assert(ids@ =~= all.take(iter.index() + 1).unref());
    }
    assert(ids@ =~= all.unref());
    ids
}

/// Lets `dt` microseconds pass on each of the animations that tiles share,
/// once each.
pub fn update_shared_animations(animations: &mut HashMap<TileId, Animation>, dt: u64)
    requires
        forall|id: TileId| #[trigger]
            old(animations)@.contains_key(id) ==> (old(animations)@[id]@.is_playing()
                ==> old(animations)@[id]@.frames.len() > 0),
    ensures
        final(animations)@.dom() == old(animations)@.dom(),
        forall|id: TileId| #[trigger]
            final(animations)@.contains_key(id) ==> final(animations)@[id]@ == old(
                animations,
            )@[id]@.updated(dt as nat),
{
    let ids = tile_ids(animations);
    let n = ids.len();
    for i in 0..n
        invariant
            n == ids@.len(),
            ids@.to_set() == old(animations)@.dom(),
            ids@.no_duplicates(),
            animations@.dom() == old(animations)@.dom(),
            forall|j: int|
                0 <= j < i ==> animations@[#[trigger] ids@[j]]@ == old(animations)@[ids@[j]]@.updated(
                    dt as nat,
                ),
            forall|id: TileId|
                !ids@.take(i as int).contains(id) && #[trigger] animations@.contains_key(id)
                    ==> animations@[id] == old(animations)@[id],
            forall|id: TileId| #[trigger]
                old(animations)@.contains_key(id) ==> (old(animations)@[id]@.is_playing()
                    ==> old(animations)@[id]@.frames.len() > 0),
    {
        let id = ids[i];
        assert(old(animations)@.dom().contains(id)) by {
            assert(ids@.to_set().contains(ids@[i as int]));
        }
        assert(!ids@.take(i as int).contains(id)) by {
            if ids@.take(i as int).contains(id) {
                let k = choose|k: int| 0 <= k < i && ids@.take(i as int)[k] == id;
                assert(ids@[k] == ids@[i as int]);
            }
        }
        let ghost before = animations@;
        let mut animation = animations.remove(&id).unwrap();
        animation.update(dt);
        animations.insert(id, animation);
        assert(animations@ == before.insert(id, animation));
        assert forall|j: int| 0 <= j < i + 1 implies animations@[#[trigger] ids@[j]]@ == old(
            animations,
        )@[ids@[j]]@.updated(dt as nat) by {
            if j < i {
                assert(ids@[j] != id);
            }
        }
        assert forall|other: TileId|
            !ids@.take(i + 1).contains(other) && #[trigger] animations@.contains_key(other)
                implies animations@[other] == old(animations)@[other] by {
            assert(other != id) by {
                assert(ids@.take(i + 1)[i as int] == id);
            }
            if ids@.take(i as int).contains(other) {
                let k = choose|k: int| 0 <= k < i && ids@.take(i as int)[k] == other;
                assert(ids@.take(i + 1)[k] == other);
            }
        }
    }
    assert forall|id: TileId| #[trigger]
        animations@.contains_key(id) implies animations@[id]@ == old(animations)@[id]@.updated(
        dt as nat,
    ) by {
        assert(ids@.to_set().contains(id));
        let k = choose|k: int| 0 <= k < n && ids@[k] == id;
        assert(animations@[ids@[k]]@ == old(animations)@[ids@[k]]@.updated(dt as nat));
    }
}

/// Whether `after` is `before` once `dt` microseconds have passed, where the
/// shared animations are now `shared`: an entity shows the
/// current tile of its animation, its own one updated first; once that
/// animation has finished, the entity shows its default tile and loses the
/// animation. Nothing else changes.
pub open spec fn animated_entity<T, B>(
    before: Entity<T, B>,
    after: Entity<T, B>,
    shared: Map<TileId, Animation>,
    dt: nat,
) -> bool {
    match before.animation {
        Some(EntityAnimation::Shared(tile_id)) => {
            let animation = shared[tile_id]@;
            if animation.is_finished {
                after == Entity { animation: None, current_tile_id: before.default_tile_id, ..before }
            } else {
                after == Entity {
                    current_tile_id: animation.frames[animation.current_frame as int].tile_id,
                    ..before
                }
            }
        },
        Some(EntityAnimation::Owned(own)) => {
            let animation = own@.updated(dt);
            &&& after.layer == before.layer
            &&& after.entity_type == before.entity_type
            &&& after.default_tile_id == before.default_tile_id
            &&& after.tileset == before.tileset
            &&& after.player == before.player
            &&& after.body == before.body
            &&& if animation.is_finished {
                after.animation is None && after.current_tile_id == before.default_tile_id
            } else {
                &&& after.animation matches Some(EntityAnimation::Owned(now)) && now@ == animation
                &&& after.current_tile_id == animation.frames[animation.current_frame as int].tile_id
            }
        },
        None => after == before,
    }
}

/// Whether every animation that `entities` show has frames, each shared one
/// among `shared`.
pub open spec fn animations_known<T, B>(
    entities: Seq<Entity<T, B>>,
    shared: Map<TileId, Animation>,
) -> bool {
    forall|i: int|
        0 <= i < entities.len() ==> match (#[trigger] entities[i]).animation {
            Some(EntityAnimation::Shared(tile_id)) => shared.contains_key(tile_id)
                && shared[tile_id]@.frames.len() > 0,
            Some(EntityAnimation::Owned(animation)) => animation@.frames.len() > 0,
            None => true,
        }
}

/// `dt` microseconds have passed: each shared animation is updated once,
/// however many entities show it; then every entity shows the current tile of
/// its animation, a shared one or its own one, which is updated too.
pub fn animation_system<T, B>(
    entities: &mut Vec<Entity<T, B>>,
    shared: &mut HashMap<TileId, Animation>,
    dt: u64,
)
    requires
        forall|id: TileId| #[trigger]
            old(shared)@.contains_key(id) ==> (old(shared)@[id]@.is_playing()
                ==> old(shared)@[id]@.frames.len() > 0),
        animations_known(old(entities)@, old(shared)@),
    ensures
        final(shared)@.dom() == old(shared)@.dom(),
        forall|id: TileId| #[trigger]
            final(shared)@.contains_key(id) ==> final(shared)@[id]@ == old(
                shared,
            )@[id]@.updated(dt as nat),
        final(entities)@.len() == old(entities)@.len(),
        forall|i: int|
            0 <= i < old(entities)@.len() ==> animated_entity(
                old(entities)@[i],
                #[trigger] final(entities)@[i],
                final(shared)@,
                dt as nat,
            ),
{
    update_shared_animations(shared, dt);
    assert(animations_known(entities@, shared@)) by {
        assert forall|i: int| 0 <= i < entities@.len() implies match (#[trigger] entities@[i]).animation {
            Some(EntityAnimation::Shared(tile_id)) => shared@.contains_key(tile_id)
                && shared@[tile_id]@.frames.len() > 0,
            Some(EntityAnimation::Owned(animation)) => animation@.frames.len() > 0,
            None => true,
        } by {
            if let Some(EntityAnimation::Shared(tile_id)) = entities@[i].animation {
                assert(old(shared)@.contains_key(tile_id));
                assert(shared@[tile_id]@ == old(shared)@[tile_id]@.updated(dt as nat));
            }
        }
    }
    show_animations(entities, shared, dt);
}

/// Every entity shows the current tile of its animation, taken from `shared`
/// or its own one, which is updated by `dt` microseconds first.
fn show_animations<T, B>(
    entities: &mut Vec<Entity<T, B>>,
    shared: &HashMap<TileId, Animation>,
    dt: u64,
)
    requires
        animations_known(old(entities)@, shared@),
    ensures
        final(entities)@.len() == old(entities)@.len(),
        forall|i: int|
            0 <= i < old(entities)@.len() ==> animated_entity(
                old(entities)@[i],
                #[trigger] final(entities)@[i],
                shared@,
                dt as nat,
            ),
{
    let n = entities.len();
    for i in 0..n
        invariant
            n == old(entities)@.len(),
            entities@.len() == n,
            animations_known(old(entities)@, shared@),
            forall|j: int|
                0 <= j < i ==> animated_entity(
                    old(entities)@[j],
                    #[trigger] entities@[j],
                    shared@,
                    dt as nat,
                ),
            forall|j: int| i <= j < n ==> entities@[j] == old(entities)@[j],
    {
        let ghost before = entities@;
        let entity = entities.remove(i);
        let ghost original = entity;
        assert(original == old(entities)@[i as int]);
        let Entity {
            layer,
            entity_type,
            default_tile_id,
            mut current_tile_id,
            tileset,
            animation,
            player,
            body,
        } = entity;
        let animation = match animation {
            Some(EntityAnimation::Shared(tile_id)) => {
                let shown = shared.get(&tile_id).unwrap();
                match animated_tile(shown, default_tile_id) {
                    AnimatedTile::Running(tile) => {
                        current_tile_id = tile;
                        Some(EntityAnimation::Shared(tile_id))
                    },
                    AnimatedTile::Finished(tile) => {
                        current_tile_id = tile;
                        None
                    },
                }
            },
            Some(EntityAnimation::Owned(own)) => {
                let mut own = own;
                own.update(dt);
                match animated_tile(&own, default_tile_id) {
                    AnimatedTile::Running(tile) => {
                        current_tile_id = tile;
                        Some(EntityAnimation::Owned(own))
                    },
                    AnimatedTile::Finished(tile) => {
                        current_tile_id = tile;
                        None
                    },
                }
            },
            None => None,
        };
        let entity = Entity {
            layer,
            entity_type,
            default_tile_id,
            current_tile_id,
            tileset,
            animation,
            player,
            body,
        };
        assert(animated_entity(original, entity, shared@, dt as nat));
        entities.insert(i, entity);
        assert forall|j: int| 0 <= j < n && j != i implies entities@[j] == before[j] by {}
    }
}

/// Whether `entity` is player `id` as it enters the arena: on the players'
/// layer, showing its tile that faces down, by default and now, with the
/// looping, running animation of that tile, the controls of `id`, no direction
/// held, the tileset `tileset` and the body `body`.
pub open spec fn new_player<T, B>(
    entity: Entity<T, B>,
    id: PlayerId,
    tileset: Arc<Tileset<T>>,
    body: B,
) -> bool {
    let tile_id = first_face_tile(tileset.properties@, PlayerFaceDirection::Down.name()).unwrap();
    &&& entity.layer == 1
    &&& entity.entity_type == EntityType::Player
    &&& entity.default_tile_id == tile_id
    &&& entity.current_tile_id == tile_id
    &&& entity.tileset == tileset
    &&& entity.animation matches Some(EntityAnimation::Owned(animation)) && animation@
        == AnimationView::built(tileset.animation_frames_holder@[tile_id]@, true, false)
    &&& entity.player matches Some(player) && player.move_direction_stack.0@.len() == 0 && forall|
        key: ControlKey,
    | #[trigger] player.controls.spec_get(key) == player_binding(id, key)
    &&& entity.body == body
}

/// Puts player `id` among `entities` and `players`: it comes last among the
/// entities, with the body `body`, and `players` notes its position. Returns
/// where it spawns. The player must have a spawn point, and its tileset a tile
/// facing down that is animated.
pub fn create_player_entity<T, B>(
    players: &mut Players<usize>,
    entities: &mut Vec<Entity<T, B>>,
    id: PlayerId,
    player_spawns: &PlayerSpawns,
    tileset: Arc<Tileset<T>>,
    body: B,
) -> (position: crate::tiles::tileset::TilePosition)
    requires
        spawn_point(player_spawns.0@, id) is Some,
        first_face_tile(tileset.properties@, PlayerFaceDirection::Down.name()) matches Some(tile_id)
            && tileset.animation_frames_holder@.contains_key(tile_id),
    ensures
        Some(position) == spawn_point(player_spawns.0@, id),
        final(entities)@.len() == old(entities)@.len() + 1,
        final(entities)@.drop_last() == old(entities)@,
        new_player(final(entities)@.last(), id, tileset, body),
        final(entities)@.last().animation matches Some(EntityAnimation::Owned(animation))
            && animation@.should_loop && animation@.is_playing(),
        final(players).players@ == old(players).players@.push(old(entities)@.len() as usize),
{
    let start = create_player(id, player_spawns, &tileset);
    let entity = Entity {
        layer: 1,
        entity_type: EntityType::Player,
        default_tile_id: start.tile_id,
        current_tile_id: start.tile_id,
        tileset,
        animation: Some(EntityAnimation::Owned(start.animation)),
        player: Some(
            PlayerControls {
                controls: create_player_controls(id),
                move_direction_stack: MoveDirectionStack::new(),
            },
        ),
        body,
    };
    let index = entities.len();
    entities.push(entity);
    players.players.push(index);
    assert(entities@.drop_last() =~= old(entities)@);
    start.position
}

/// The tile of a bomb in the bombs' tileset.
pub const BOMB_TILE_ID: TileId = 1;

/// Whether `entity` is a bomb as it is dropped: on the players' layer,
/// showing the bomb tile by default and now, with the looping, running
/// animation of that tile, no controls, the tileset `tileset` and the body
/// `body`.
pub open spec fn new_bomb<T, B>(entity: Entity<T, B>, tileset: Arc<Tileset<T>>, body: B) -> bool {
    &&& entity.layer == 1
    &&& entity.entity_type == EntityType::Bomb
    &&& entity.default_tile_id == BOMB_TILE_ID
    &&& entity.current_tile_id == BOMB_TILE_ID
    &&& entity.tileset == tileset
    &&& entity.animation matches Some(EntityAnimation::Owned(animation)) && animation@
        == AnimationView::built(tileset.animation_frames_holder@[BOMB_TILE_ID]@, true, false)
    &&& entity.player is None
    &&& entity.body == body
}

/// Puts a bomb with the body `body` last among `entities`. The bomb tile of
/// `tileset` must be animated.
pub fn create_bomb_entity<T, B>(entities: &mut Vec<Entity<T, B>>, tileset: Arc<Tileset<T>>, body: B)
    requires
        tileset.animation_frames_holder@.contains_key(BOMB_TILE_ID),
    ensures
        final(entities)@.len() == old(entities)@.len() + 1,
        final(entities)@.drop_last() == old(entities)@,
        new_bomb(final(entities)@.last(), tileset, body),
        final(entities)@.last().animation matches Some(EntityAnimation::Owned(animation))
            && animation@.should_loop && animation@.is_playing(),
{
    let frames = share(tileset.animation_frames_holder.get(&BOMB_TILE_ID).unwrap());
    let animation = Animation::builder(frames).looping(true).build();
    entities.push(
        Entity {
            layer: 1,
            entity_type: EntityType::Bomb,
            default_tile_id: BOMB_TILE_ID,
            current_tile_id: BOMB_TILE_ID,
            tileset,
            animation: Some(EntityAnimation::Owned(animation)),
            player: None,
            body,
        },
    );
    assert(entities@.drop_last() =~= old(entities)@);
}

/// A dropped bomb animates as long as it lies there: whatever calls follow,
/// its animation never finishes and its current frame stays one of the frames
/// of the bomb tile.
pub proof fn lemma_bomb_animates_forever<T, B>(
    entity: Entity<T, B>,
    tileset: Arc<Tileset<T>>,
    body: B,
    calls: Seq<crate::tiles::animation::AnimationCall>,
)
    requires
        new_bomb(entity, tileset, body),
        tileset.animation_frames_holder@[BOMB_TILE_ID]@.len() > 0,
    ensures
        entity.animation matches Some(EntityAnimation::Owned(animation)) && {
            let later = animation@.after_calls(calls);
            &&& !later.is_finished
            &&& later.current_frame < tileset.animation_frames_holder@[BOMB_TILE_ID]@.len()
        },
{
    crate::tiles::animation::lemma_looping_plays_forever(
        tileset.animation_frames_holder@[BOMB_TILE_ID]@,
        false,
        calls,
    );
}

/// A player that enters the arena animates its tile for as long as the game
/// goes on: whatever calls follow, its animation never finishes.
pub proof fn lemma_new_player_animates_forever<T, B>(
    entity: Entity<T, B>,
    id: PlayerId,
    tileset: Arc<Tileset<T>>,
    body: B,
    calls: Seq<crate::tiles::animation::AnimationCall>,
)
    requires
        new_player(entity, id, tileset, body),
        entity.animation matches Some(EntityAnimation::Owned(animation)) && animation@.frames.len()
            > 0,
    ensures
        entity.animation matches Some(EntityAnimation::Owned(animation)) && !animation@.after_calls(
            calls,
        ).is_finished,
{
    let animation = entity.animation->Some_0->Owned_0;
    crate::tiles::animation::lemma_looping_plays_forever(animation@.frames, false, calls);
}

} // verus!
