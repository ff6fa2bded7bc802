//! The arena map: its object groups, the players' spawn points, and the
//! animations that all tiles of one kind share.
use crate::object_groups::{ArenaObjectGroup, PlayerSpawnsProperties, SoftBlockAreasProperties};
use crate::players::{PlayerId, player_with_number};
use crate::tiles::animation::{Animation, AnimationView};
use crate::tiles::tileset::{Properties, PropertyValue, TileId, TilePosition, Tileset, frames_view};
use crate::utils::collections::share;
use std::collections::HashMap;
use std::sync::Arc;
use vstd::prelude::*;

verus! {

broadcast use vstd::std_specs::hash::group_hash_axioms;

/// An object of the map: the tile it shows, where it is and its properties.
pub struct MapObject {
    pub gid: TileId,
    pub x: u32,
    pub y: u32,
    pub properties: Properties,
}

/// A named group of objects.
pub struct ObjectGroup {
    pub name: String,
    pub objects: Vec<MapObject>,
}

/// The objects of the group named `name`: those of the last group of that name.
pub open spec fn group_objects(groups: Seq<ObjectGroup>, name: Seq<char>) -> Option<Seq<MapObject>>
    decreases groups.len(),
{
    if groups.len() == 0 {
        None
    } else if groups.last().name@ == name {
        Some(groups.last().objects@)
    } else {
        group_objects(groups.drop_last(), name)
    }
}

/// A tile map: its layers of tiles, each tile at a position, its object
/// groups, and the tileset of its tiles.
pub struct Tilemap<T> {
    pub tiles: Vec<Vec<(TilePosition, TileId)>>,
    pub object_groups: Vec<ObjectGroup>,
    pub tileset: Arc<Tileset<T>>,
    pub width: u32,
    pub height: u32,
}

/// The absolute value of `n`.
pub open spec fn abs(n: i32) -> int {
    if n < 0 {
        -n
    } else {
        n as int
    }
}

/// The spawn point that `object` gives: the player named by the number of its
/// `player_id` property, at the object's position.
pub open spec fn spawn_of(object: MapObject) -> Option<(PlayerId, TilePosition)> {
    match object.properties.spec_get("player_id"@) {
        Some(PropertyValue::IntValue(n)) => Some(
            (player_with_number(abs(n) as u32), [object.x, object.y]),
        ),
        _ => None,
    }
}

/// The spawn points that `objects` give, in order.
pub open spec fn spawns_of(objects: Seq<MapObject>) -> Seq<(PlayerId, TilePosition)>
    decreases objects.len(),
{
    if objects.len() == 0 {
        Seq::empty()
    } else {
        match spawn_of(objects.last()) {
            Some(spawn) => spawns_of(objects.drop_last()).push(spawn),
            None => spawns_of(objects.drop_last()),
        }
    }
}

/// Whether every `player_id` property of `objects` that is a number names a player.
pub open spec fn player_ids_valid(objects: Seq<MapObject>) -> bool {
    forall|i: int|
        0 <= i < objects.len() ==> match (#[trigger] objects[i]).properties.spec_get(
            "player_id"@,
        ) {
            Some(PropertyValue::IntValue(n)) => 1 <= abs(n) <= 4,
            _ => true,
        }
}

/// The spawn point of each player; a later point of a player replaces an earlier one.
pub struct PlayerSpawns(pub Vec<(PlayerId, TilePosition)>);

/// The spawn point that `spawns` give `id`: the last one.
pub open spec fn spawn_point(spawns: Seq<(PlayerId, TilePosition)>, id: PlayerId) -> Option<
    TilePosition,
>
    decreases spawns.len(),
{
    if spawns.len() == 0 {
        None
    } else if spawns.last().0 == id {
        Some(spawns.last().1)
    } else {
        spawn_point(spawns.drop_last(), id)
    }
}

impl PlayerSpawns {
    pub fn get(&self, id: PlayerId) -> (position: Option<TilePosition>)
        ensures
            position == spawn_point(self.0@, id),
    {
        let mut i = self.0.len();
        assert(self.0@.take(i as int) =~= self.0@);
        while i > 0
            invariant
                i <= self.0@.len(),
                spawn_point(self.0@, id) == spawn_point(self.0@.take(i as int), id),
            decreases i,
        {
            assert(self.0@.take(i as int).drop_last() =~= self.0@.take(i - 1));
            if self.0[i - 1].0 == id {
                return Some(self.0[i - 1].1);
            }
            i -= 1;
        }
        None
    }
}

/// The tiles of a row of a layer's grid, at row `y`: each cell that holds a
/// tile (any id but 0) gives that tile at the cell's position in pixels.
pub open spec fn row_tiles(row: Seq<u32>, y: int, tile_width: u32, tile_height: u32) -> Seq<
    (TilePosition, TileId),
>
    decreases row.len(),
{
    if row.len() == 0 {
        Seq::empty()
    } else {
        let earlier = row_tiles(row.drop_last(), y, tile_width, tile_height);
        if row.last() == 0 {
            earlier
        } else {
            earlier.push(
                (
                    [((row.len() - 1) * tile_width) as u32, (y * tile_height) as u32],
                    row.last(),
                ),
            )
        }
    }
}

/// The tiles of a layer's grid, row by row.
pub open spec fn grid_tiles(rows: Seq<Vec<u32>>, tile_width: u32, tile_height: u32) -> Seq<
    (TilePosition, TileId),
>
    decreases rows.len(),
{
    if rows.len() == 0 {
        Seq::empty()
    } else {
        grid_tiles(rows.drop_last(), tile_width, tile_height) + row_tiles(
            rows.last()@,
            rows.len() - 1,
            tile_width,
            tile_height,
        )
    }
}

/// Whether the positions of all cells of `rows` are numbers.
pub open spec fn grid_fits(rows: Seq<Vec<u32>>, tile_width: u32, tile_height: u32) -> bool {
    &&& rows.len() <= u32::MAX
    &&& rows.len() * tile_height <= u32::MAX
    &&& forall|r: int|
        0 <= r < rows.len() ==> (#[trigger] rows[r])@.len() <= u32::MAX && rows[r]@.len()
            * tile_width <= u32::MAX
}

proof fn lemma_cell_position_fits(index: int, count: int, size: int)
    requires
        0 <= index < count,
        0 <= size,
        count * size <= u32::MAX,
    ensures
        0 <= index * size <= u32::MAX,
{
    assert(0 <= index * size <= count * size) by (nonlinear_arith)
        requires
            0 <= index < count,
            0 <= size,
    ;
}

/// The tiles of a layer given as a grid of tile ids, row by row, where 0 marks
/// an empty cell; each tile is at its cell's position in pixels.
pub fn layer_tiles(rows: &Vec<Vec<u32>>, tile_width: u32, tile_height: u32) -> (tiles: Vec<
    (TilePosition, TileId),
>)
    requires
        grid_fits(rows@, tile_width, tile_height),
    ensures
        tiles@ == grid_tiles(rows@, tile_width, tile_height),
{
    let mut tiles: Vec<(TilePosition, TileId)> = Vec::new();
    for y in 0..rows.len()
        invariant
            grid_fits(rows@, tile_width, tile_height),
            tiles@ == grid_tiles(rows@.take(y as int), tile_width, tile_height),
    {
        let row = &rows[y];
        let ghost before = tiles@;
        assert(rows@.take(y + 1).drop_last() =~= rows@.take(y as int));
        proof {
            lemma_cell_position_fits(y as int, rows@.len() as int, tile_height as int);
        }
        assert(rows@[y as int]@.len() <= u32::MAX && rows@[y as int]@.len() * tile_width
            <= u32::MAX);
        let top = y as u32 * tile_height;
        for x in 0..row.len()
            invariant
                grid_fits(rows@, tile_width, tile_height),
                *row == rows@[y as int],
                row@.len() <= u32::MAX,
                row@.len() * tile_width <= u32::MAX,
                top == y * tile_height,
                tiles@ == before + row_tiles(row@.take(x as int), y as int, tile_width, tile_height),
        {
            assert(row@.take(x + 1).drop_last() =~= row@.take(x as int));
            let gid = row[x];
            if gid != 0 {
                proof {
                    lemma_cell_position_fits(x as int, row@.len() as int, tile_width as int);
                }
                tiles.push(([x as u32 * tile_width, top], gid));
            }
            assert(tiles@ =~= before + row_tiles(row@.take(x + 1), y as int, tile_width, tile_height));
        }
        assert(row@.take(row@.len() as int) =~= row@);
    }
    assert(rows@.take(rows@.len() as int) =~= rows@);
    tiles
}

/// The ids of the tiles of `layers`, layer by layer.
pub open spec fn layer_tile_ids(layers: Seq<Vec<(TilePosition, TileId)>>) -> Seq<TileId>
    decreases layers.len(),
{
    if layers.len() == 0 {
        Seq::empty()
    } else {
        layer_tile_ids(layers.drop_last()) + layers.last()@.map_values(
            |tile: (TilePosition, TileId)| tile.1,
        )
    }
}

impl<T> Tilemap<T> {
    /// The ids of the tiles of all layers, layer by layer.
    pub fn get_used_tile_ids(&self) -> (tile_ids: Vec<TileId>)
        ensures
            tile_ids@ == layer_tile_ids(self.tiles@),
    {
        let mut tile_ids: Vec<TileId> = Vec::new();
        for i in 0..self.tiles.len()
            invariant
                tile_ids@ == layer_tile_ids(self.tiles@.take(i as int)),
        {
            let layer = &self.tiles[i];
            let ghost before = tile_ids@;
            assert(self.tiles@.take(i + 1).drop_last() =~= self.tiles@.take(i as int));
            for j in 0..layer.len()
                invariant
                    tile_ids@ == before + layer@.map_values(
                        |tile: (TilePosition, TileId)| tile.1,
                    ).take(j as int),
            {
                tile_ids.push(layer[j].1);
                assert(tile_ids@ =~= before + layer@.map_values(
                    |tile: (TilePosition, TileId)| tile.1,
                ).take(j + 1));
            }
            assert(layer@.map_values(|tile: (TilePosition, TileId)| tile.1).take(
                layer@.len() as int,
            ) =~= layer@.map_values(|tile: (TilePosition, TileId)| tile.1));
        }
        assert(self.tiles@.take(self.tiles@.len() as int) =~= self.tiles@);
        tile_ids
    }

    /// The objects of the group named `name`, if the map has one.
    pub fn get_object_group(&self, name: &str) -> (objects: Option<&Vec<MapObject>>)
        ensures
            match objects {
                Some(objects) => group_objects(self.object_groups@, name@) == Some(objects@),
                None => group_objects(self.object_groups@, name@) is None,
            },
    {
        let key = name.to_owned();
        let mut i = self.object_groups.len();
        assert(self.object_groups@.take(i as int) =~= self.object_groups@);
        while i > 0
            invariant
                i <= self.object_groups@.len(),
                key@ == name@,
                group_objects(self.object_groups@, name@) == group_objects(
                    self.object_groups@.take(i as int),
                    name@,
                ),
            decreases i,
        {
            assert(self.object_groups@.take(i as int).drop_last() =~= self.object_groups@.take(
                i - 1,
            ));
            if self.object_groups[i - 1].name == key {
                return Some(&self.object_groups[i - 1].objects);
            }
            i -= 1;
        }
        None
    }

    /// The spawn points of the map's player spawns group.
    pub open spec fn spec_player_spawns(&self) -> Seq<(PlayerId, TilePosition)> {
        match group_objects(self.object_groups@, ArenaObjectGroup::PlayerSpawns.name()) {
            Some(objects) => spawns_of(objects),
            None => Seq::empty(),
        }
    }

    /// The spawn point of each player, from the objects of the player spawns
    /// group that have a `player_id` property; every such number must name a player.
    pub fn get_player_spawns(&self) -> (spawns: PlayerSpawns)
        requires
            group_objects(self.object_groups@, ArenaObjectGroup::PlayerSpawns.name()) matches Some(
                objects,
            ) ==> player_ids_valid(objects),
        ensures
            spawns.0@ == self.spec_player_spawns(),
    {
        let mut spawns: Vec<(PlayerId, TilePosition)> = Vec::new();
        match self.get_object_group(ArenaObjectGroup::PlayerSpawns.as_str()) {
            Some(objects) => {
                let n = objects.len();
                for i in 0..n
                    invariant
                        n == objects@.len(),
                        player_ids_valid(objects@),
                        spawns@ == spawns_of(objects@.take(i as int)),
                {
                    assert(objects@.take(i + 1).drop_last() =~= objects@.take(i as int));
                    let object = &objects[i];
                    assert(objects@[i as int] == *object);
                    if let Some(PropertyValue::IntValue(player_id)) = object.properties.get(
                        PlayerSpawnsProperties::PlayerId.as_str(),
                    ) {
                        let number = if *player_id < 0 {
                            -*player_id
                        } else {
                            *player_id
                        };
                        spawns.push(
                            (PlayerId::from_u32(number as u32), [object.x, object.y]),
                        );
                    }
                }
                assert(objects@.take(n as int) =~= objects@);
            },
            None => {},
        }
        PlayerSpawns(spawns)
    }
}

/// The arena map of a play state: its tile map, and the animation that all
/// tiles of each animated kind share.
pub struct ArenaMap<T> {
    pub tilemap: Arc<Tilemap<T>>,
    pub tile_animations: HashMap<TileId, Animation>,
}

impl<T> ArenaMap<T> {
    pub fn new(tilemap: Arc<Tilemap<T>>) -> (map: ArenaMap<T>)
        ensures
            map.tilemap == tilemap,
            forall|id: TileId|
                #![trigger map.tile_animations@.contains_key(id)]
                map.tile_animations@.contains_key(id) <==> used_tile_ids(
                    *tilemap,
                    layer_tile_ids(tilemap.tiles@),
                ).contains(id) && tilemap.tileset.animation_frames_holder@.contains_key(id),
            forall|id: TileId| #[trigger]
                map.tile_animations@.contains_key(id) ==> map.tile_animations@[id]@
                    == shared_animation(tilemap.tileset.animation_frames_holder@[id]@),
            forall|id: TileId| #[trigger]
                map.tile_animations@.contains_key(id) ==> {
                    &&& map.tile_animations@[id]@.should_loop
                    &&& map.tile_animations@[id]@.is_playing()
                    &&& map.tile_animations@[id]@.frames
                        == tilemap.tileset.animation_frames_holder@[id]@
                },
    {
        let tile_ids = tilemap.get_used_tile_ids();
        let tile_animations = create_shared_tile_animations(&tilemap, &tile_ids);
        ArenaMap { tilemap, tile_animations }
    }

    /// The hard blocks: one for each tile of each layer.
    pub fn create_tilemap_entities(&self) -> (blocks: Vec<MapBlock>)
        ensures
            blocks@ == layer_blocks(self.tilemap.tiles@),
    {
        let layers = &self.tilemap.tiles;
        let mut blocks: Vec<MapBlock> = Vec::new();
        for i in 0..layers.len()
            invariant
                *layers == self.tilemap.tiles,
                blocks@ == layer_blocks(layers@.take(i as int)),
        {
            let layer = &layers[i];
            let ghost before = blocks@;
            assert(layers@.take(i + 1).drop_last() =~= layers@.take(i as int));
            for j in 0..layer.len()
                invariant
                    blocks@ == before + layer@.map_values(
                        |tile: (TilePosition, TileId)|
                            MapBlock { layer: i, tile_id: tile.1, position: tile.0 },
                    ).take(j as int),
            {
                let (position, tile_id) = layer[j];
                blocks.push(MapBlock { layer: i, tile_id, position });
                assert(blocks@ =~= before + layer@.map_values(
                    |tile: (TilePosition, TileId)|
                        MapBlock { layer: i, tile_id: tile.1, position: tile.0 },
                ).take(j + 1));
            }
            assert(layer@.map_values(
                |tile: (TilePosition, TileId)| MapBlock { layer: i, tile_id: tile.1, position: tile.0 },
            ).take(layer@.len() as int) =~= layer@.map_values(
                |tile: (TilePosition, TileId)| MapBlock { layer: i, tile_id: tile.1, position: tile.0 },
            ));
        }
        assert(layers@.take(layers@.len() as int) =~= layers@);
        blocks
    }

    /// The soft blocks: one for each area of the soft block areas group that
    /// has a spawn chance, that `spawn` chooses (`spawn` holds the outcome of
    /// each area's draw against its chance, in order) and that has a
    /// `render_layer` property that is an integer.
    pub fn create_soft_blocks(&self, spawn: &Vec<bool>) -> (blocks: Vec<MapBlock>)
        requires
            group_objects(self.tilemap.object_groups@, ArenaObjectGroup::SoftBlockAreas.name())
                matches Some(objects) ==> spawn@.len() == objects.len(),
        ensures
            blocks@ == match group_objects(
                self.tilemap.object_groups@,
                ArenaObjectGroup::SoftBlockAreas.name(),
            ) {
                Some(objects) => soft_blocks_of(objects, spawn@),
                None => Seq::empty(),
            },
    {
        let mut blocks: Vec<MapBlock> = Vec::new();
        match self.tilemap.get_object_group(ArenaObjectGroup::SoftBlockAreas.as_str()) {
            Some(objects) => {
                let n = objects.len();
                for i in 0..n
                    invariant
                        n == objects@.len(),
                        spawn@.len() == n,
                        blocks@ == soft_blocks_of(objects@.take(i as int), spawn@.take(i as int)),
                {
                    assert(objects@.take(i + 1).drop_last() =~= objects@.take(i as int));
                    assert(spawn@.take(i + 1).drop_last() =~= spawn@.take(i as int));
                    let object = &objects[i];
                    assert(objects@[i as int] == *object);
                    let chance = object.properties.get(
                        SoftBlockAreasProperties::SpawnChance.as_str(),
                    );
                    let has_chance = match chance {
                        Some(PropertyValue::Other) => true,
                        _ => false,
                    };
                    if spawn[i] && has_chance {
                        if let Some(PropertyValue::IntValue(layer)) = object.properties.get(
                            SoftBlockAreasProperties::RenderLayer.as_str(),
                        ) {
                            blocks.push(
                                MapBlock {
                                    layer: *layer as usize,
                                    tile_id: object.gid,
                                    position: [object.x, object.y],
                                },
                            );
                        }
                    }
                }
                assert(objects@.take(n as int) =~= objects@);
                assert(spawn@.take(n as int) =~= spawn@);
            },
            None => {},
        }
        blocks
    }

    /// The spawn point of each player, from the objects of the player spawns
    /// group that have a `player_id` property; every such number must name a player.
    pub fn get_player_spawns(&self) -> (spawns: PlayerSpawns)
        requires
            group_objects(self.tilemap.object_groups@, ArenaObjectGroup::PlayerSpawns.name())
                matches Some(objects) ==> player_ids_valid(objects),
        ensures
            spawns.0@ == self.tilemap.spec_player_spawns(),
    {
        self.tilemap.get_player_spawns()
    }
}

/// A block to put on the map: its drawing layer, its tile and its position.
#[derive(PartialEq, Eq, Clone, Copy, Debug)]
pub struct MapBlock {
    pub layer: usize,
    pub tile_id: TileId,
    pub position: TilePosition,
}

/// The block that a soft block area gives, if its `render_layer` property is a number.
pub open spec fn soft_block_of(object: MapObject) -> Option<MapBlock> {
    match object.properties.spec_get("render_layer"@) {
        Some(PropertyValue::IntValue(layer)) => Some(
            MapBlock { layer: layer as usize, tile_id: object.gid, position: [object.x, object.y] },
        ),
        _ => None,
    }
}

/// Whether the area `object` has a spawn chance: a `spawn_chance` property
/// that is a floating point number.
pub open spec fn has_spawn_chance(object: MapObject) -> bool {
    object.properties.spec_get("spawn_chance"@) matches Some(PropertyValue::Other)
}

/// The blocks of the areas of `objects` chosen by `spawn`, in order; an area
/// without a spawn chance is never chosen.
pub open spec fn soft_blocks_of(objects: Seq<MapObject>, spawn: Seq<bool>) -> Seq<MapBlock>
    decreases objects.len(),
{
    if objects.len() == 0 {
        Seq::empty()
    } else {
        let earlier = soft_blocks_of(objects.drop_last(), spawn.drop_last());
        if spawn.last() && has_spawn_chance(objects.last()) {
            match soft_block_of(objects.last()) {
                Some(block) => earlier.push(block),
                None => earlier,
            }
        } else {
            earlier
        }
    }
}

/// The blocks of the tiles of `layers`, layer by layer, each on the layer of its index.
pub open spec fn layer_blocks(layers: Seq<Vec<(TilePosition, TileId)>>) -> Seq<MapBlock>
    decreases layers.len(),
{
    if layers.len() == 0 {
        Seq::empty()
    } else {
        let index = (layers.len() - 1) as usize;
        layer_blocks(layers.drop_last()) + layers.last()@.map_values(
            |tile: (TilePosition, TileId)|
                MapBlock { layer: index, tile_id: tile.1, position: tile.0 },
        )
    }
}

/// The animation that all tiles of one kind share: it loops, runs, and starts
/// at the first frame.
pub open spec fn shared_animation(frames: Seq<crate::tiles::animation::Frame>) -> AnimationView {
    AnimationView {
        is_paused: false,
        is_finished: false,
        should_loop: true,
        current_frame: 0,
        frame_time: 0,
        frames,
    }
}

/// An animation that the map shares among the tiles of a kind plays forever:
/// whatever calls follow, it never finishes and its current frame stays one of
/// its frames, so a tile that shows it keeps it.
pub proof fn lemma_shared_animation_plays_forever(
    frames: Seq<crate::tiles::animation::Frame>,
    calls: Seq<crate::tiles::animation::AnimationCall>,
)
    requires
        frames.len() > 0,
    ensures
        !shared_animation(frames).after_calls(calls).is_finished,
        shared_animation(frames).after_calls(calls).current_frame < frames.len(),
        shared_animation(frames).after_calls(calls).frames == frames,
{
    crate::tiles::animation::lemma_calls_keep_wf(shared_animation(frames), calls);
}

/// The ids of `tile_ids`, and those of the soft block areas group's objects.
pub open spec fn used_tile_ids<T>(tilemap: Tilemap<T>, tile_ids: Seq<TileId>) -> Set<TileId> {
    tile_ids.to_set().union(
        match group_objects(tilemap.object_groups@, ArenaObjectGroup::SoftBlockAreas.name()) {
            Some(objects) => objects.map_values(|object: MapObject| object.gid).to_set(),
            None => Set::empty(),
        },
    )
}

/// One shared animation for each tile of `tile_ids` and of the soft block
/// areas that the tileset animates.
pub fn create_shared_tile_animations<T>(tilemap: &Tilemap<T>, tile_ids: &Vec<TileId>) -> (animations:
    HashMap<TileId, Animation>)
    ensures
        forall|id: TileId|
            #![trigger animations@.contains_key(id)]
            animations@.contains_key(id) <==> used_tile_ids(*tilemap, tile_ids@).contains(id)
                && tilemap.tileset.animation_frames_holder@.contains_key(id),
        forall|id: TileId| #[trigger]
            animations@.contains_key(id) ==> animations@[id]@ == shared_animation(
                tilemap.tileset.animation_frames_holder@[id]@,
            ),
        forall|id: TileId| #[trigger]
            animations@.contains_key(id) ==> {
                &&& animations@[id]@.should_loop
                &&& animations@[id]@.is_playing()
                &&& animations@[id]@.frames == tilemap.tileset.animation_frames_holder@[id]@
            },
{
    let mut used: Vec<TileId> = Vec::new();
    for i in 0..tile_ids.len()
        invariant
            used@ == tile_ids@.take(i as int),
    {
        used.push(tile_ids[i]);
        assert(used@ =~= tile_ids@.take(i + 1));
    }
    assert(tile_ids@.take(tile_ids@.len() as int) =~= tile_ids@);
    let ghost from_layers = used@;
    match tilemap.get_object_group(ArenaObjectGroup::SoftBlockAreas.as_str()) {
        Some(objects) => {
            for i in 0..objects.len()
                invariant
                    used@ == from_layers + objects@.map_values(|object: MapObject| object.gid).take(
                        i as int,
                    ),
            {
                used.push(objects[i].gid);
                assert(used@ =~= from_layers + objects@.map_values(
                    |object: MapObject| object.gid,
                ).take(i + 1));
            }
            assert(objects@.map_values(|object: MapObject| object.gid).take(
                objects@.len() as int,
            ) =~= objects@.map_values(|object: MapObject| object.gid));
        },
        None => {},
    }
    let ghost all = used@;
    assert(all.to_set() =~= used_tile_ids(*tilemap, tile_ids@)) by {
        assert forall|id: TileId| all.to_set().contains(id) <==> used_tile_ids(
            *tilemap,
            tile_ids@,
        ).contains(id) by {
            if all.to_set().contains(id) {
                let k = choose|k: int| 0 <= k < all.len() && all[k] == id;
                if k >= from_layers.len() {
                    let objects = group_objects(
                        tilemap.object_groups@,
                        ArenaObjectGroup::SoftBlockAreas.name(),
                    ).unwrap();
                    assert(objects.map_values(|object: MapObject| object.gid)[k
                        - from_layers.len()] == id);
                } else {
                    assert(tile_ids@[k] == id);
                }
            }
            if used_tile_ids(*tilemap, tile_ids@).contains(id) {
                if tile_ids@.to_set().contains(id) {
                    let k = choose|k: int| 0 <= k < tile_ids@.len() && tile_ids@[k] == id;
                    assert(all[k] == id);
                } else {
                    let objects = group_objects(
                        tilemap.object_groups@,
                        ArenaObjectGroup::SoftBlockAreas.name(),
                    ).unwrap();
                    let gids = objects.map_values(|object: MapObject| object.gid);
                    let k = choose|k: int| 0 <= k < gids.len() && gids[k] == id;
                    assert(all[from_layers.len() + k] == id);
                }
            }
        }
    }
    let mut animations: HashMap<TileId, Animation> = HashMap::new();
    let frames_holder = &tilemap.tileset.animation_frames_holder;
    for i in 0..used.len()
        invariant
            used@ == all,
            frames_holder@ == tilemap.tileset.animation_frames_holder@,
            forall|id: TileId|
                #![trigger animations@.contains_key(id)]
                animations@.contains_key(id) <==> all.take(i as int).to_set().contains(id)
                    && frames_holder@.contains_key(id),
            forall|id: TileId| #[trigger]
                animations@.contains_key(id) ==> animations@[id]@ == shared_animation(
                    frames_holder@[id]@,
                ),
    {
        let tile_id = used[i];
        assert(all.take(i + 1).to_set() =~= all.take(i as int).to_set().insert(tile_id)) by {
            assert(all.take(i + 1) =~= all.take(i as int).push(tile_id));
            all.take(i as int).lemma_push_to_set_commute(tile_id);
        }
        match frames_holder.get(&tile_id) {
            Some(frames) => {
                let animation = Animation::builder(share(frames)).paused(false).looping(true).build();
                animations.insert(tile_id, animation);
            },
            None => {},
        }
    }
    assert(all.take(all.len() as int) =~= all);
    animations
}

} // verus!
