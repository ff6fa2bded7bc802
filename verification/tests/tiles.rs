use bomberman::players::PlayerFaceDirection;
use bomberman::tiles::texture_holder::{Spritesheet, TextureHolder};
use bomberman::tiles::tileset::{Properties, PropertyValue, TileData, Tileset, TilesetData};
use bomberman::tiles::animation::Frame;

fn sheet(first_gid: u32) -> Spritesheet<&'static str> {
    Spritesheet {
        texture: "sheet",
        texture_width: 96,
        texture_height: 64,
        tile_width: 32,
        tile_height: 32,
        first_gid,
    }
}

#[test]
fn spritesheet_rectangles() {
    let sheet = sheet(10);
    assert!(!sheet.contains(9));
    assert!(sheet.contains(10));
    assert!(sheet.contains(15));
    assert!(!sheet.contains(16));
    assert_eq!(sheet.get_src_rect(10), Some([0, 0, 32, 32]));
    assert_eq!(sheet.get_src_rect(14), Some([32, 32, 32, 32]));
    assert_eq!(sheet.get_src_rect(15), Some([64, 32, 32, 32]));
    assert_eq!(sheet.get_src_rect(16), None);
}

#[test]
fn spritesheet_smaller_than_a_tile_holds_nothing() {
    let sheet = Spritesheet {
        texture: (),
        texture_width: 16,
        texture_height: 64,
        tile_width: 32,
        tile_height: 32,
        first_gid: 1,
    };
    assert!(!sheet.contains(1));
    assert_eq!(sheet.get_texture_data(1), None);
}

#[test]
fn texture_holder_prefers_spritesheets() {
    let mut holder = TextureHolder::from_spritesheet(sheet(1));
    let own = TextureHolder::from_tile_textures(10, vec![(0, "own_a", 8, 9), (6, "own_b", 5, 5)]);
    holder.combine(own);
    assert_eq!(holder.get_texture_data(2), Some((&"sheet", [32, 0, 32, 32])));
    assert_eq!(holder.get_texture_data(10), Some((&"own_a", [0, 0, 8, 9])));
    assert_eq!(holder.get_texture_data(16), Some((&"own_b", [0, 0, 5, 5])));
    assert_eq!(holder.get_texture_data(11), None);
    // Tile 6 lies in the spritesheet, whose textures come first.
    let mut other = TextureHolder::from_tile_textures(0, vec![(6, "own_c", 1, 1)]);
    other.combine(TextureHolder::from_spritesheet(sheet(1)));
    assert_eq!(other.get_texture_data(6), Some((&"sheet", [64, 32, 32, 32])));
}

#[test]
fn properties_lookup() {
    let mut properties = Properties::new();
    properties.insert("a".to_string(), PropertyValue::IntValue(1));
    properties.insert("b".to_string(), PropertyValue::BoolValue(true));
    properties.insert("a".to_string(), PropertyValue::IntValue(2));
    assert!(matches!(properties.get("a"), Some(PropertyValue::IntValue(2))));
    assert!(matches!(properties.get("b"), Some(PropertyValue::BoolValue(true))));
    assert!(properties.get("c").is_none());
}

#[test]
fn tilesets_combine() {
    let first: Tileset<()> = Tileset::from_tileset(
        &TilesetData {
            first_gid: 1,
            tiles: vec![TileData {
                id: 0,
                properties: Properties::new(),
                animation: Some(vec![Frame { tile_id: 0, duration: 1 }]),
            }],
        },
        TextureHolder::new(),
    );
    let second: Tileset<()> = Tileset::from_tileset(
        &TilesetData {
            first_gid: 5,
            tiles: vec![TileData {
                id: 0,
                properties: Properties::new(),
                animation: Some(vec![Frame { tile_id: 1, duration: 2 }]),
            }],
        },
        TextureHolder::new(),
    );
    let mut combined: Tileset<()> = Tileset::new();
    combined.combine(first);
    combined.combine(second);
    assert_eq!(combined.animation_frames_holder.len(), 2);
    assert_eq!(*combined.animation_frames_holder[&1], vec![Frame { tile_id: 1, duration: 1 }]);
    assert_eq!(*combined.animation_frames_holder[&5], vec![Frame { tile_id: 6, duration: 2 }]);
    assert_eq!(combined.properties.len(), 2);
    assert_eq!(combined.properties[0].0, 5);
}

#[test]
fn combined_tileset_replaces_properties_of_the_same_tile() {
    let mut face = Properties::new();
    face.insert("face_direction".to_string(), PropertyValue::StringValue("down".to_string()));
    let first: Tileset<()> = Tileset::from_tileset(
        &TilesetData {
            first_gid: 1,
            tiles: vec![
                TileData { id: 0, properties: face, animation: None },
                TileData { id: 1, properties: Properties::new(), animation: None },
            ],
        },
        TextureHolder::new(),
    );
    let second: Tileset<()> = Tileset::from_tileset(
        &TilesetData {
            first_gid: 1,
            tiles: vec![TileData { id: 0, properties: Properties::new(), animation: None }],
        },
        TextureHolder::new(),
    );
    let mut combined: Tileset<()> = Tileset::new();
    combined.combine(first);
    assert_eq!(PlayerFaceDirection::Down.get_tile_id(&combined), Some(1));
    combined.combine(second);
    let ids: Vec<u32> = combined.properties.iter().map(|entry| entry.0).collect();
    assert_eq!(ids, vec![1, 2]);
    assert!(combined.properties[0].1.get("face_direction").is_none());
    assert_eq!(PlayerFaceDirection::Down.get_tile_id(&combined), None);
}

#[test]
fn later_spritesheets_are_not_asked() {
    let mut holder = TextureHolder::from_spritesheet(sheet(1));
    let mut broken = sheet(100);
    broken.tile_width = 0;
    holder.combine(TextureHolder::from_spritesheet(broken));
    assert_eq!(holder.get_texture_data(5), Some((&"sheet", [32, 32, 32, 32])));
}
