use bomberman::game_states::map::{layer_tiles, ArenaMap, MapBlock, MapObject, ObjectGroup, Tilemap};
use bomberman::players::{create_player, PlayerId, Players};
use bomberman::tiles::animation::Frame;
use bomberman::tiles::texture_holder::TextureHolder;
use bomberman::tiles::tileset::{Properties, PropertyValue, TileData, Tileset, TilesetData};
use std::sync::Arc;

fn object(gid: u32, x: u32, y: u32, properties: Vec<(&str, PropertyValue)>) -> MapObject {
    let mut converted = Properties::new();
    for (name, value) in properties {
        converted.insert(name.to_string(), value);
    }
    MapObject { gid, x, y, properties: converted }
}

fn tilemap() -> Tilemap<()> {
    let tileset: Tileset<()> = Tileset::from_tileset(
        &TilesetData {
            first_gid: 1,
            tiles: vec![
                TileData {
                    id: 1,
                    properties: Properties::new(),
                    animation: Some(vec![Frame { tile_id: 1, duration: 100 }, Frame { tile_id: 2, duration: 100 }]),
                },
                TileData {
                    id: 4,
                    properties: Properties::new(),
                    animation: Some(vec![Frame { tile_id: 4, duration: 50 }]),
                },
                TileData {
                    id: 7,
                    properties: Properties::new(),
                    animation: Some(vec![Frame { tile_id: 7, duration: 50 }]),
                },
            ],
        },
        TextureHolder::new(),
    );
    Tilemap {
        tiles: vec![vec![([0, 0], 2), ([32, 0], 3)], vec![([0, 32], 3)]],
        object_groups: vec![
            ObjectGroup {
                name: "player_spawns".to_string(),
                objects: vec![
                    object(0, 32, 32, vec![("player_id", PropertyValue::IntValue(1))]),
                    object(0, 64, 32, vec![("player_id", PropertyValue::IntValue(-2))]),
                    object(0, 96, 32, vec![("player_id", PropertyValue::StringValue("3".to_string()))]),
                    object(0, 128, 32, vec![]),
                ],
            },
            ObjectGroup {
                name: "soft_block_areas".to_string(),
                objects: vec![object(5, 0, 0, vec![]), object(6, 0, 0, vec![])],
            },
        ],
        tileset: Arc::new(tileset),
        width: 10,
        height: 10,
    }
}

#[test]
fn player_spawns_from_objects() {
    let map = ArenaMap::new(Arc::new(tilemap()));
    let spawns = map.get_player_spawns();
    assert_eq!(spawns.0.len(), 2);
    assert_eq!(spawns.get(PlayerId::Player1), Some([32, 32]));
    assert_eq!(spawns.get(PlayerId::Player2), Some([64, 32]));
    assert_eq!(spawns.get(PlayerId::Player3), None);
}

#[test]
fn used_tiles_share_animations() {
    let map = ArenaMap::new(Arc::new(tilemap()));
    let mut ids: Vec<u32> = map.tile_animations.keys().copied().collect();
    ids.sort();
    assert_eq!(ids, vec![2, 5]);
    let animation = &map.tile_animations[&2];
    assert!(animation.is_playing());
    assert_eq!(animation.get_current_tile_id(), 2);
}

#[test]
fn used_tile_ids_layer_by_layer() {
    assert_eq!(tilemap().get_used_tile_ids(), vec![2, 3, 3]);
}

#[test]
fn later_group_of_a_name_wins() {
    let mut map = tilemap();
    map.object_groups.push(ObjectGroup { name: "player_spawns".to_string(), objects: vec![] });
    assert_eq!(map.get_player_spawns().0.len(), 0);
    assert!(map.get_object_group("missing").is_none());
}

#[test]
fn soft_blocks_where_chosen_and_layered() {
    let mut map = tilemap();
    map.object_groups[1].objects = vec![
        object(5, 1, 2, vec![("spawn_chance", PropertyValue::Other), ("render_layer", PropertyValue::IntValue(2))]),
        object(6, 3, 4, vec![("render_layer", PropertyValue::IntValue(1)), ("spawn_chance", PropertyValue::Other)]),
        object(7, 5, 6, vec![("spawn_chance", PropertyValue::Other)]),
        object(8, 7, 8, vec![("render_layer", PropertyValue::IntValue(1))]),
        object(9, 9, 10, vec![("render_layer", PropertyValue::IntValue(1)), ("spawn_chance", PropertyValue::IntValue(1))]),
    ];
    let map = ArenaMap::new(Arc::new(map));
    let blocks = map.create_soft_blocks(&vec![true, false, true, true, true]);
    assert_eq!(blocks, vec![MapBlock { layer: 2, tile_id: 5, position: [1, 2] }]);
    let blocks = map.create_soft_blocks(&vec![true, true, true, true, true]);
    assert_eq!(
        blocks,
        vec![
            MapBlock { layer: 2, tile_id: 5, position: [1, 2] },
            MapBlock { layer: 1, tile_id: 6, position: [3, 4] },
        ]
    );
    assert!(map.create_soft_blocks(&vec![false, false, false, false, false]).is_empty());
}

#[test]
fn hard_blocks_layer_by_layer() {
    let map = ArenaMap::new(Arc::new(tilemap()));
    assert_eq!(
        map.create_tilemap_entities(),
        vec![
            MapBlock { layer: 0, tile_id: 2, position: [0, 0] },
            MapBlock { layer: 0, tile_id: 3, position: [32, 0] },
            MapBlock { layer: 1, tile_id: 3, position: [0, 32] },
        ]
    );
}

#[test]
fn player_starts_at_its_spawn_facing_down() {
    let mut down = Properties::new();
    down.insert("face_direction".to_string(), PropertyValue::StringValue("down".to_string()));
    let tileset: Tileset<()> = Tileset::from_tileset(
        &TilesetData {
            first_gid: 1,
            tiles: vec![TileData {
                id: 2,
                properties: down,
                animation: Some(vec![Frame { tile_id: 2, duration: 100 }, Frame { tile_id: 0, duration: 100 }]),
            }],
        },
        TextureHolder::new(),
    );
    let map = ArenaMap::new(Arc::new(tilemap()));
    let spawns = map.get_player_spawns();
    let start = create_player(PlayerId::Player2, &spawns, &tileset);
    assert_eq!(start.position, [64, 32]);
    assert_eq!(start.tile_id, 3);
    assert!(start.animation.is_playing());
    assert_eq!(start.animation.get_current_tile_id(), 3);
    let players: Players<u32> = Players::new();
    assert!(players.players.is_empty());
}

#[test]
fn layer_grid_to_tiles() {
    let rows = vec![vec![0, 4, 0], vec![7, 0, 9]];
    assert_eq!(
        layer_tiles(&rows, 32, 16),
        vec![([32, 0], 4), ([0, 16], 7), ([64, 16], 9)]
    );
    assert!(layer_tiles(&vec![vec![0, 0]], 32, 32).is_empty());
}
