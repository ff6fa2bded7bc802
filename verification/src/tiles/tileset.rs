//! Tilesets: the tiles of a tileset file, their properties and animations.
use crate::tiles::animation::{Animation, Frame, tile_animation_frames};
use crate::tiles::texture_holder::TextureHolder;
use std::collections::HashMap;
use std::sync::Arc;
use vstd::prelude::*;

verus! {

broadcast use vstd::std_specs::hash::group_hash_axioms;

/// The id of a tile; ids of a map are global ids, offset by a tileset's first global id.
pub type TileId = u32;

/// A position on the map, in pixels.
pub type TilePosition = [u32; 2];

/// The value of a custom property of a tile or map object.
pub enum PropertyValue {
    BoolValue(bool),
    IntValue(i32),
    ColorValue(u32),
    StringValue(String),
    /// A floating point number, whose value this library does not read.
    Other,
}

impl PropertyValue {
    /// A copy of the value.
    pub fn duplicate(&self) -> (value: PropertyValue)
        ensures
            value == *self,
    {
        match self {
            PropertyValue::BoolValue(b) => PropertyValue::BoolValue(*b),
            PropertyValue::IntValue(i) => PropertyValue::IntValue(*i),
            PropertyValue::ColorValue(c) => PropertyValue::ColorValue(*c),
            PropertyValue::StringValue(s) => PropertyValue::StringValue(s.clone()),
            PropertyValue::Other => PropertyValue::Other,
        }
    }
}

/// The value that `entries` give to the property `name`: that of the last entry with that name.
pub open spec fn lookup_property(entries: Seq<(String, PropertyValue)>, name: Seq<char>) -> Option<
    PropertyValue,
>
    decreases entries.len(),
{
    if entries.len() == 0 {
        None
    } else if entries.last().0@ == name {
        Some(entries.last().1)
    } else {
        lookup_property(entries.drop_last(), name)
    }
}

/// The custom properties of a tile or map object. A later entry for a name
/// replaces an earlier one.
pub struct Properties {
    pub entries: Vec<(String, PropertyValue)>,
}

impl Properties {
    /// The value of property `name`, if it is set.
    pub open spec fn spec_get(&self, name: Seq<char>) -> Option<PropertyValue> {
        lookup_property(self.entries@, name)
    }

    pub fn new() -> (properties: Properties)
        ensures
            properties.entries@.len() == 0,
            forall|name: Seq<char>| properties.spec_get(name) is None,
    {
        Properties { entries: Vec::new() }
    }

    /// Sets property `name` to `value`.
    pub fn insert(&mut self, name: String, value: PropertyValue)
        ensures
            final(self).entries@ == old(self).entries@.push((name, value)),
            final(self).spec_get(name@) == Some(value),
            forall|other: Seq<char>|
                other != name@ ==> final(self).spec_get(other) == old(self).spec_get(other),
    {
        self.entries.push((name, value));
        assert(self.entries@.drop_last() =~= old(self).entries@);
    }

    /// The value of property `name`, if it is set.
    pub fn get(&self, name: &str) -> (value: Option<&PropertyValue>)
        ensures
            match value {
                Some(v) => self.spec_get(name@) == Some(*v),
                None => self.spec_get(name@) is None,
            },
    {
        let key = name.to_owned();
        let mut i = self.entries.len();
        assert(self.entries@.take(i as int) =~= self.entries@);
        while i > 0
            invariant
                i <= self.entries@.len(),
                key@ == name@,
                lookup_property(self.entries@, name@) == lookup_property(
                    self.entries@.take(i as int),
                    name@,
                ),
            decreases i,
        {
            assert(self.entries@.take(i as int).drop_last() =~= self.entries@.take(i - 1));
            if self.entries[i - 1].0 == key {
                return Some(&self.entries[i - 1].1);
            }
            i -= 1;
        }
        None
    }

    /// A copy of these properties.
    pub fn duplicate(&self) -> (properties: Properties)
        ensures
            properties.entries@ == self.entries@,
    {
        let mut entries: Vec<(String, PropertyValue)> = Vec::new();
        for i in 0..self.entries.len()
            invariant
                entries@ == self.entries@.take(i as int),
        {
            let entry = (self.entries[i].0.clone(), self.entries[i].1.duplicate());
            entries.push(entry);
            assert(entries@ =~= self.entries@.take(i + 1));
        }
        assert(self.entries@.take(self.entries@.len() as int) =~= self.entries@);
        Properties { entries }
    }
}

/// A tile of a tileset file, with its id local to the tileset.
pub struct TileData {
    pub id: u32,
    pub properties: Properties,
    pub animation: Option<Vec<Frame>>,
}

/// The tiles of a tileset file.
pub struct TilesetData {
    pub first_gid: u32,
    pub tiles: Vec<TileData>,
}

/// Whether every tile of `tiles` gets a global id when offset by `first_gid`.
pub open spec fn tile_ids_fit(tiles: Seq<TileData>, first_gid: u32) -> bool {
    forall|i: int| 0 <= i < tiles.len() ==> tiles[i].id + first_gid <= u32::MAX
}

/// Whether `properties` lists the properties of `tiles`, in order, each under
/// the tile's global id.
pub open spec fn global_tile_properties(
    properties: Seq<(TileId, Properties)>,
    tiles: Seq<TileData>,
    first_gid: u32,
) -> bool {
    &&& properties.len() == tiles.len()
    &&& forall|i: int|
        0 <= i < tiles.len() ==> {
            &&& #[trigger] properties[i].0 == tiles[i].id + first_gid
            &&& properties[i].1.entries@ == tiles[i].properties.entries@
        }
}

/// Whether `entries` hold the properties of tile `id`.
pub open spec fn has_tile(entries: Seq<(TileId, Properties)>, id: TileId) -> bool {
    exists|i: int| 0 <= i < entries.len() && #[trigger] entries[i].0 == id
}

/// The entries of `entries` whose tiles `newer` do not hold, in order.
pub open spec fn entries_outside(
    entries: Seq<(TileId, Properties)>,
    newer: Seq<(TileId, Properties)>,
) -> Seq<(TileId, Properties)>
    decreases entries.len(),
{
    if entries.len() == 0 {
        Seq::empty()
    } else {
        let rest = entries_outside(entries.drop_first(), newer);
        if has_tile(newer, entries[0].0) {
            rest
        } else {
            seq![entries[0]] + rest
        }
    }
}

/// Whether the first `count` entries of `entries` hold the properties of tile `id`.
fn lists_tile(entries: &Vec<(TileId, Properties)>, count: usize, id: TileId) -> (found: bool)
    requires
        count <= entries@.len(),
    ensures
        found == has_tile(entries@.take(count as int), id),
{
    let mut i: usize = 0;
    while i < count
        invariant
            count <= entries@.len(),
            i <= count,
            forall|j: int| 0 <= j < i ==> entries@[j].0 != id,
        decreases count - i,
    {
        if entries[i].0 == id {
            assert(entries@.take(count as int)[i as int].0 == id);
            return true;
        }
        i += 1;
    }
    assert forall|j: int| 0 <= j < count implies #[trigger] entries@.take(count as int)[j].0 != id by {
        assert(entries@.take(count as int)[j] == entries@[j]);
    }
    false
}

/// The tiles of a tileset with what the game reads of them: where their
/// pictures are, and the animation frames and the properties of each tile,
/// under the tile's global id.
pub struct Tileset<T> {
    pub texture_holder: TextureHolder<T>,
    pub animation_frames_holder: HashMap<TileId, Arc<Vec<Frame>>>,
    pub properties: Vec<(TileId, Properties)>,
}

/// The sequences of frames that a map of shared frame vectors holds.
pub open spec fn frames_view(m: Map<TileId, Arc<Vec<Frame>>>) -> Map<TileId, Seq<Frame>> {
    m.map_values(|frames: Arc<Vec<Frame>>| frames@)
}

impl<T> Tileset<T> {
    /// The tileset of no tile.
    pub fn new() -> (tileset: Tileset<T>)
        ensures
            tileset.texture_holder.texture_map@ == Map::<TileId, (T, u32, u32)>::empty(),
            tileset.texture_holder.spritesheet_list@.len() == 0,
            tileset.animation_frames_holder@ == Map::<TileId, Arc<Vec<Frame>>>::empty(),
            tileset.properties@.len() == 0,
    {
        Tileset {
            texture_holder: TextureHolder::new(),
            animation_frames_holder: HashMap::new(),
            properties: Vec::new(),
        }
    }

    /// The tiles of `tileset` under their global ids, with their pictures
    /// where `texture_holder` says.
    pub fn from_tileset(tileset: &TilesetData, texture_holder: TextureHolder<T>) -> (result:
        Tileset<T>)
        requires
            tile_ids_fit(tileset.tiles@, tileset.first_gid),
            crate::tiles::animation::frame_ids_fit(tileset.tiles@, tileset.first_gid),
        ensures
            frames_view(result.animation_frames_holder@) == tile_animation_frames(
                tileset.tiles@,
                tileset.first_gid,
            ),
            global_tile_properties(result.properties@, tileset.tiles@, tileset.first_gid),
            result.texture_holder == texture_holder,
    {
        let animation_frames_holder = Animation::load_animation_frames_from_tileset(tileset, false);
        let properties = Self::get_properties(tileset);
        Tileset { texture_holder, animation_frames_holder, properties }
    }

    /// Adds the tiles of `tileset`; its entries replace those of the same tiles.
    pub fn combine(&mut self, tileset: Tileset<T>)
        ensures
            final(self).texture_holder.texture_map@ == old(
                self,
            ).texture_holder.texture_map@.union_prefer_right(tileset.texture_holder.texture_map@),
            final(self).texture_holder.spritesheet_list@ == old(self).texture_holder.spritesheet_list@
                + tileset.texture_holder.spritesheet_list@,
            final(self).animation_frames_holder@ == old(
                self,
            ).animation_frames_holder@.union_prefer_right(tileset.animation_frames_holder@),
            final(self).properties@ == tileset.properties@ + entries_outside(
                old(self).properties@,
                tileset.properties@,
            ),
    {
        let Tileset { texture_holder, animation_frames_holder, properties } = tileset;
        self.texture_holder.combine(texture_holder);
        crate::utils::collections::extend_map(
            &mut self.animation_frames_holder,
            animation_frames_holder,
        );
        let ghost added = properties@;
        let mut combined = properties;
        let count = combined.len();
        let mut earlier = Vec::new();
        std::mem::swap(&mut earlier, &mut self.properties);
        let ghost all_earlier = earlier@;
        while earlier.len() > 0
            invariant
                count <= combined@.len(),
                combined@.take(count as int) == added,
                combined@ + entries_outside(earlier@, added) == added + entries_outside(
                    all_earlier,
                    added,
                ),
            decreases earlier.len(),
        {
            let ghost rest = earlier@;
            let entry = earlier.remove(0);
            assert(earlier@ =~= rest.drop_first());
            let replaced = lists_tile(&combined, count, entry.0);
            let ghost before = combined@;
            if !replaced {
                combined.push(entry);
                assert(combined@.take(count as int) =~= before.take(count as int));
                assert(combined@ + entries_outside(earlier@, added) =~= before + entries_outside(
                    rest,
                    added,
                ));
            }
        }
        assert(combined@ + entries_outside(earlier@, added) =~= combined@);
        self.properties = combined;
    }

    fn get_properties(tileset: &TilesetData) -> (properties: Vec<(TileId, Properties)>)
        requires
            tile_ids_fit(tileset.tiles@, tileset.first_gid),
        ensures
            global_tile_properties(properties@, tileset.tiles@, tileset.first_gid),
    {
        let mut properties: Vec<(TileId, Properties)> = Vec::new();
        for i in 0..tileset.tiles.len()
            invariant
                tile_ids_fit(tileset.tiles@, tileset.first_gid),
                global_tile_properties(
                    properties@,
                    tileset.tiles@.take(i as int),
                    tileset.first_gid,
                ),
        {
            let tile = &tileset.tiles[i];
            assert(tile.id + tileset.first_gid <= u32::MAX);
            let entry = (tile.id + tileset.first_gid, tile.properties.duplicate());
            let ghost before = properties@;
            properties.push(entry);
            assert forall|j: int| 0 <= j < i + 1 implies {
                &&& #[trigger] properties@[j].0 == tileset.tiles@.take(i + 1)[j].id + tileset.first_gid
                &&& properties@[j].1.entries@ == tileset.tiles@.take(i + 1)[j].properties.entries@
            } by {
                if j < i {
                    assert(properties@[j] == before[j]);
                    assert(before[j].0 == tileset.tiles@.take(i as int)[j].id + tileset.first_gid);
                    assert(tileset.tiles@.take(i + 1)[j] == tileset.tiles@.take(i as int)[j]);
                } else {
                    assert(properties@[j] == entry);
                    assert(tileset.tiles@.take(i + 1)[j] == *tile);
                }
            }
        }
        assert(tileset.tiles@.take(tileset.tiles@.len() as int) =~= tileset.tiles@);
        properties
    }
}

} // verus!
