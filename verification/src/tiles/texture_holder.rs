//! Where the picture of a tile is found: in a spritesheet, as a rectangle of a
//! larger texture, or as a texture of its own.
use crate::tiles::tileset::TileId;
use std::collections::HashMap;
use vstd::prelude::*;

verus! {

broadcast use vstd::std_specs::hash::group_hash_axioms;

/// A rectangle of a texture: left, top, width and height, in pixels.
pub type SourceRectangle = [u32; 4];

/// A texture cut into a grid of equally sized tiles, numbered row by row from
/// `first_gid` on.
pub struct Spritesheet<T> {
    pub texture: T,
    pub texture_width: u32,
    pub texture_height: u32,
    pub tile_width: u32,
    pub tile_height: u32,
    pub first_gid: u32,
}

/// The number of tiles in a grid of `columns` columns and `rows` rows.
pub open spec fn grid_size(columns: int, rows: int) -> int {
    columns * rows
}

impl<T> Spritesheet<T> {
    /// The number of columns of the grid.
    pub open spec fn columns(&self) -> int {
        self.texture_width as int / self.tile_width as int
    }

    /// The number of rows of the grid.
    pub open spec fn rows(&self) -> int {
        self.texture_height as int / self.tile_height as int
    }

    /// Tiles have a size, and the ids of all tiles of the grid are numbers.
    pub open spec fn wf(&self) -> bool {
        &&& self.tile_width > 0
        &&& self.tile_height > 0
        &&& self.first_gid + grid_size(self.columns(), self.rows()) <= u32::MAX
    }

    /// Whether the tile is one of the grid.
    pub open spec fn spec_contains(&self, tile_id: TileId) -> bool {
        self.first_gid <= tile_id < self.first_gid + grid_size(self.columns(), self.rows())
    }

    /// The rectangle of the tile in the texture.
    pub open spec fn spec_src_rect(&self, tile_id: TileId) -> SourceRectangle {
        let index = tile_id - self.first_gid;
        [
            ((index % self.columns()) * self.tile_width) as u32,
            ((index / self.columns()) * self.tile_height) as u32,
            self.tile_width,
            self.tile_height,
        ]
    }

    pub fn contains(&self, tile_id: TileId) -> (contained: bool)
        requires
            self.wf(),
        ensures
            contained == self.spec_contains(tile_id),
    {
        let x_tiles = self.texture_width / self.tile_width;
        let y_tiles = self.texture_height / self.tile_height;
        proof {
            lemma_grid_size_bounds(x_tiles as int, y_tiles as int, self.first_gid as int);
        }
        let number_of_tiles = x_tiles * y_tiles;
        let last_gid = self.first_gid + number_of_tiles;
        self.first_gid <= tile_id && tile_id < last_gid
    }

    pub fn get_src_rect(&self, tile_id: TileId) -> (rect: Option<SourceRectangle>)
        requires
            self.wf(),
        ensures
            match rect {
                Some(r) => self.spec_contains(tile_id) && r == self.spec_src_rect(tile_id),
                None => !self.spec_contains(tile_id),
            },
    {
        if self.contains(tile_id) {
            let columns = self.texture_width / self.tile_width;
            let index = tile_id - self.first_gid;
            proof {
                lemma_tile_in_texture(self, tile_id);
            }
            let x = (index % columns) * self.tile_width;
            let y = (index / columns) * self.tile_height;
            Some([x, y, self.tile_width, self.tile_height])
        } else {
            None
        }
    }

    pub fn get_texture_data(&self, tile_id: TileId) -> (data: Option<(&T, SourceRectangle)>)
        requires
            self.wf(),
        ensures
            match data {
                Some((texture, r)) => self.spec_contains(tile_id) && *texture == self.texture && r
                    == self.spec_src_rect(tile_id),
                None => !self.spec_contains(tile_id),
            },
    {
        match self.get_src_rect(tile_id) {
            Some(rect) => Some((&self.texture, rect)),
            None => None,
        }
    }
}

proof fn lemma_grid_size_bounds(columns: int, rows: int, first_gid: int)
    requires
        columns >= 0,
        rows >= 0,
        first_gid >= 0,
        first_gid + grid_size(columns, rows) <= u32::MAX,
    ensures
        columns * rows <= u32::MAX,
        first_gid + columns * rows <= u32::MAX,
{
    assert(columns * rows >= 0) by (nonlinear_arith)
        requires
            columns >= 0,
            rows >= 0,
    ;
}

/// The rectangle of a tile of the grid lies inside the texture.
pub proof fn lemma_tile_in_texture<T>(sheet: &Spritesheet<T>, tile_id: TileId)
    requires
        sheet.wf(),
        sheet.spec_contains(tile_id),
    ensures
        sheet.columns() > 0,
        ({
            let index = tile_id - sheet.first_gid;
            &&& (index % sheet.columns()) * sheet.tile_width + sheet.tile_width <= sheet.texture_width
            &&& (index / sheet.columns()) * sheet.tile_height + sheet.tile_height
                <= sheet.texture_height
        }),
{
    let columns = sheet.columns();
    let rows = sheet.rows();
    let index = tile_id - sheet.first_gid;
    let w = sheet.tile_width as int;
    let h = sheet.tile_height as int;
    let tw = sheet.texture_width as int;
    let th = sheet.texture_height as int;
    assert(index < columns * rows);
    assert(columns > 0 && rows > 0) by (nonlinear_arith)
        requires
            0 <= index < columns * rows,
            columns >= 0,
            rows >= 0,
    ;
    assert((index % columns) * w + w <= tw) by (nonlinear_arith)
        requires
            columns > 0,
            w > 0,
            columns == tw / w,
            0 <= index,
    {
        assert(index % columns < columns);
        assert((index % columns + 1) * w <= columns * w);
        assert(columns * w <= tw);
    }
    assert((index / columns) * h + h <= th) by (nonlinear_arith)
        requires
            columns > 0,
            h > 0,
            rows == th / h,
            0 <= index < columns * rows,
    {
        assert(index / columns < rows);
        assert((index / columns + 1) * h <= rows * h);
        assert(rows * h <= th);
    }
}

/// Where the picture of a tile is found.
pub struct TextureHolder<T> {
    /// Tiles that have a texture of their own, with its width and height.
    pub texture_map: HashMap<TileId, (T, u32, u32)>,
    pub spritesheet_list: Vec<Spritesheet<T>>,
}

/// The index of the first spritesheet of `sheets` that holds the tile, if any does.
pub open spec fn first_sheet_with<T>(sheets: Seq<Spritesheet<T>>, tile_id: TileId) -> Option<int>
    decreases sheets.len(),
{
    if sheets.len() == 0 {
        None
    } else if sheets[0].spec_contains(tile_id) {
        Some(0)
    } else {
        match first_sheet_with(sheets.drop_first(), tile_id) {
            Some(i) => Some(i + 1),
            None => None,
        }
    }
}

/// Whether the spritesheets of `sheets` can be asked for the tile in order,
/// up to the first that holds it: each of them is well formed.
pub open spec fn sheets_readable_for<T>(sheets: Seq<Spritesheet<T>>, tile_id: TileId) -> bool
    decreases sheets.len(),
{
    sheets.len() > 0 ==> {
        &&& sheets[0].wf()
        &&& !sheets[0].spec_contains(tile_id) ==> sheets_readable_for(sheets.drop_first(), tile_id)
    }
}

/// The textures that `textures` give their tiles, each under the tile's id
/// offset by `first_gid`; a later texture of a tile replaces an earlier one.
pub open spec fn tile_textures<T>(textures: Seq<(u32, T, u32, u32)>, first_gid: u32) -> Map<
    TileId,
    (T, u32, u32),
>
    decreases textures.len(),
{
    if textures.len() == 0 {
        Map::empty()
    } else {
        let (id, texture, width, height) = textures.last();
        tile_textures(textures.drop_last(), first_gid).insert(
            (id + first_gid) as u32,
            (texture, width, height),
        )
    }
}

impl<T> TextureHolder<T> {
    /// The textures of a tileset cut from one picture.
    pub fn from_spritesheet(spritesheet: Spritesheet<T>) -> (holder: TextureHolder<T>)
        ensures
            holder.texture_map@ == Map::<TileId, (T, u32, u32)>::empty(),
            holder.spritesheet_list@ == seq![spritesheet],
    {
        let mut spritesheet_list = Vec::new();
        spritesheet_list.push(spritesheet);
        TextureHolder { texture_map: HashMap::new(), spritesheet_list }
    }

    /// The textures of a tileset whose tiles each have a picture of their own,
    /// given as the tile's id, the texture, and its width and height.
    pub fn from_tile_textures(first_gid: u32, textures: Vec<(u32, T, u32, u32)>) -> (holder:
        TextureHolder<T>)
        requires
            forall|i: int| 0 <= i < textures@.len() ==> #[trigger] textures@[i].0 + first_gid <= u32::MAX,
        ensures
            holder.texture_map@ == tile_textures(textures@, first_gid),
            holder.spritesheet_list@.len() == 0,
    {
        let mut texture_map: HashMap<TileId, (T, u32, u32)> = HashMap::new();
        let mut rest = textures;
        let ghost all = rest@;
        let ghost mut done: int = 0;
        while rest.len() > 0
            invariant
                0 <= done <= all.len(),
                rest@ == all.skip(done),
                forall|i: int| 0 <= i < all.len() ==> #[trigger] all[i].0 + first_gid <= u32::MAX,
                texture_map@ == tile_textures(all.take(done), first_gid),
            decreases rest.len(),
        {
            let (id, texture, width, height) = rest.remove(0);
            proof {
                assert(all[done] == (id, texture, width, height));
                assert(all.take(done + 1).drop_last() =~= all.take(done));
                assert(all.take(done + 1).last() == all[done]);
                done = done + 1;
                assert(rest@ =~= all.skip(done));
            }
            texture_map.insert(id + first_gid, (texture, width, height));
        }
        assert(all.take(done) =~= all);
        TextureHolder { texture_map, spritesheet_list: Vec::new() }
    }

    pub fn new() -> (holder: TextureHolder<T>)
        ensures
            holder.texture_map@ == Map::<TileId, (T, u32, u32)>::empty(),
            holder.spritesheet_list@.len() == 0,
    {
        TextureHolder { texture_map: HashMap::new(), spritesheet_list: Vec::new() }
    }

    /// Adds the textures of `texture_holder`: its own textures replace those of
    /// the same tiles, and its spritesheets come after these.
    pub fn combine(&mut self, texture_holder: TextureHolder<T>)
        ensures
            final(self).texture_map@ == old(self).texture_map@.union_prefer_right(
                texture_holder.texture_map@,
            ),
            final(self).spritesheet_list@ == old(self).spritesheet_list@
                + texture_holder.spritesheet_list@,
    {
        let TextureHolder { texture_map, spritesheet_list } = texture_holder;
        let mut spritesheet_list = spritesheet_list;
        crate::utils::collections::extend_map(&mut self.texture_map, texture_map);
        self.spritesheet_list.append(&mut spritesheet_list);
    }

    /// The texture of the tile and the rectangle of it that shows the tile:
    /// from the first spritesheet that holds it, else its own texture.
    pub fn get_texture_data(&self, tile_id: TileId) -> (data: Option<(&T, SourceRectangle)>)
        requires
            sheets_readable_for(self.spritesheet_list@, tile_id),
        ensures
            match first_sheet_with(self.spritesheet_list@, tile_id) {
                Some(i) => data matches Some((texture, r)) && *texture
                    == self.spritesheet_list@[i].texture && r
                    == self.spritesheet_list@[i].spec_src_rect(tile_id),
                None => match data {
                    Some((texture, r)) => self.texture_map@.contains_key(tile_id) && *texture
                        == self.texture_map@[tile_id].0 && r == [
                        0,
                        0,
                        self.texture_map@[tile_id].1,
                        self.texture_map@[tile_id].2,
                    ],
                    None => !self.texture_map@.contains_key(tile_id),
                },
            },
    {
        let n = self.spritesheet_list.len();
        assert(self.spritesheet_list@.skip(0) =~= self.spritesheet_list@);
        for i in 0..n
            invariant
                n == self.spritesheet_list@.len(),
                sheets_readable_for(self.spritesheet_list@.skip(i as int), tile_id),
                first_sheet_with(self.spritesheet_list@, tile_id) == match first_sheet_with(
                    self.spritesheet_list@.skip(i as int),
                    tile_id,
                ) {
                    Some(j) => Some(j + i),
                    None => None::<int>,
                },
        {
            assert(self.spritesheet_list@.skip(i as int).drop_first() =~= self.spritesheet_list@.skip(
                i + 1,
            ));
            let sheet = &self.spritesheet_list[i];
            if let Some(data) = sheet.get_texture_data(tile_id) {
                return Some(data);
            }
        }
        match self.texture_map.get(&tile_id) {
            Some(entry) => Some((&entry.0, [0, 0, entry.1, entry.2])),
            None => None,
        }
    }
}

} // verus!
