use bomberman::tiles::animation::{Animation, AnimationBuilder, Frame};
use bomberman::tiles::texture_holder::TextureHolder;
use bomberman::tiles::tileset::{Properties, PropertyValue, TileData, Tileset, TilesetData};
use std::sync::Arc;

fn convert_properties(properties: &tiled::Properties) -> Properties {
    let mut converted = Properties::new();
    for (name, value) in properties.iter() {
        let value = match value {
            tiled::PropertyValue::BoolValue(b) => PropertyValue::BoolValue(*b),
            tiled::PropertyValue::IntValue(i) => PropertyValue::IntValue(*i),
            tiled::PropertyValue::ColorValue(c) => PropertyValue::ColorValue(*c),
            tiled::PropertyValue::StringValue(s) => PropertyValue::StringValue(s.clone()),
            tiled::PropertyValue::FloatValue(_) => PropertyValue::Other,
        };
        converted.insert(name.clone(), value);
    }
    converted
}

fn convert_tileset(tileset: &tiled::Tileset) -> TilesetData {
    TilesetData {
        first_gid: tileset.first_gid,
        tiles: tileset
            .tiles
            .iter()
            .map(|tile| TileData {
                id: tile.id,
                properties: convert_properties(&tile.properties),
                animation: tile.animation.as_ref().map(|frames| {
                    frames
                        .iter()
                        .map(|frame| Frame { tile_id: frame.tile_id, duration: frame.duration })
                        .collect()
                }),
            })
            .collect(),
    }
}

#[test]
fn test_animation_update() {
    let tileset_str = "\
        <?xml version=\"1.0\" encoding=\"UTF-8\"?>
        <tileset version=\"1.2\" tiledversion=\"1.3.0\" name=\"player_tiles\" tilewidth=\"32\" tileheight=\"32\" tilecount=\"12\" columns=\"0\">
         <grid orientation=\"orthogonal\" width=\"1\" height=\"1\"/>
         <tile id=\"0\">
          <image width=\"32\" height=\"32\" source=\"bomber_down_left.png\"/>
         </tile>
         <tile id=\"1\">
          <image width=\"32\" height=\"32\" source=\"bomber_down_right.png\"/>
         </tile>
         <tile id=\"2\">
          <properties>
           <property name=\"name\" value=\"player_standing_down\"/>
          </properties>
          <image width=\"32\" height=\"32\" source=\"bomber_down_standing.png\"/>
          <animation>
           <frame tileid=\"0\" duration=\"200\"/>
           <frame tileid=\"2\" duration=\"200\"/>
           <frame tileid=\"1\" duration=\"200\"/>
           <frame tileid=\"2\" duration=\"200\"/>
          </animation>
         </tile>
        </tileset>
    ";

    let gid = 1;

    let tileset = tiled::parse_tileset(tileset_str.as_bytes(), gid).unwrap();
    let tileset: Tileset<()> = Tileset::from_tileset(&convert_tileset(&tileset), TextureHolder::new());

    let mut animation =
        Animation::builder(Arc::clone(&tileset.animation_frames_holder[&(2 + gid)]))
            .looping(true)
            .build();

    let mut result = Vec::new();

    result.push(animation.get_current_tile_id());
    animation.play();

    // Time passes in microseconds: 100 ms is 100 * 1000 µs.
    animation.update(100 * 1000);
    result.push(animation.get_current_tile_id());

    animation.update(100 * 1000);
    result.push(animation.get_current_tile_id());

    animation.update(200 * 1000);
    result.push(animation.get_current_tile_id());

    animation.update(200 * 1000);
    result.push(animation.get_current_tile_id());

    animation.update(200 * 1000);
    result.push(animation.get_current_tile_id());

    assert_eq!(result.as_slice(), [gid, gid, 2 + gid, 1 + gid, 2 + gid, gid]);
}

fn frames(list: &[(u32, u32)]) -> Arc<Vec<Frame>> {
    Arc::new(list.iter().map(|&(tile_id, duration)| Frame { tile_id, duration }).collect())
}

#[test]
fn animation_without_loop_finishes_after_last_frame() {
    let mut animation = Animation::builder(frames(&[(5, 10), (6, 20)])).build();
    assert!(animation.is_playing());
    animation.update(10_000);
    assert_eq!(animation.get_current_tile_id(), 6);
    animation.update(19_999);
    assert!(!animation.is_finished());
    assert_eq!(animation.get_current_tile_id(), 6);
    animation.update(1);
    assert!(animation.is_finished());
    assert!(!animation.is_playing());
}

#[test]
fn looping_animation_starts_over() {
    let mut animation = Animation::builder(frames(&[(5, 10), (6, 10)])).looping(true).build();
    animation.update(10_000);
    animation.update(10_000);
    assert!(!animation.is_finished());
    assert_eq!(animation.get_current_tile_id(), 5);
}

#[test]
fn paused_animation_does_not_advance() {
    let mut animation = Animation::builder(frames(&[(5, 10), (6, 10)])).paused(true).build();
    assert!(!animation.is_playing());
    animation.update(50_000);
    assert_eq!(animation.get_current_tile_id(), 5);
    animation.play();
    animation.update(10_000);
    assert_eq!(animation.get_current_tile_id(), 6);
    animation.pause();
    animation.update(10_000);
    assert_eq!(animation.get_current_tile_id(), 6);
}

#[test]
fn one_frame_per_update_at_most() {
    let mut animation = Animation::builder(frames(&[(1, 10), (2, 10), (3, 10)])).build();
    animation.update(25_000);
    assert_eq!(animation.get_current_tile_id(), 2);
    animation.update(0);
    assert_eq!(animation.get_current_tile_id(), 3);
}

#[test]
fn builder_defaults() {
    let builder = AnimationBuilder::new(frames(&[(1, 10)]));
    assert!(!builder.should_loop);
    assert!(!builder.is_paused);
    let builder = builder.looping(true).paused(true);
    assert!(builder.should_loop);
    assert!(builder.is_paused);
}

#[test]
fn frames_are_offset_by_first_gid() {
    let data = TilesetData {
        first_gid: 10,
        tiles: vec![
            TileData { id: 0, properties: Properties::new(), animation: None },
            TileData {
                id: 3,
                properties: Properties::new(),
                animation: Some(vec![Frame { tile_id: 1, duration: 7 }]),
            },
        ],
    };
    let global = Animation::load_animation_frames_from_tileset(&data, false);
    assert_eq!(global.len(), 1);
    assert_eq!(*global[&13], vec![Frame { tile_id: 11, duration: 7 }]);
    let local = Animation::load_animation_frames_from_tileset(&data, true);
    assert_eq!(*local[&3], vec![Frame { tile_id: 1, duration: 7 }]);
}

#[test]
fn finished_animation_stays_finished() {
    let mut animation = Animation::builder(frames(&[(5, 1), (6, 1)])).build();
    animation.update(1_000);
    assert!(!animation.is_finished());
    animation.update(1_000);
    assert!(animation.is_finished());
    animation.play();
    assert!(!animation.is_playing());
    animation.update(5_000);
    animation.pause();
    animation.play();
    animation.update(5_000);
    assert!(animation.is_finished());
    assert!(!animation.is_playing());
}

#[test]
fn looping_animation_never_finishes() {
    let mut animation = Animation::builder(frames(&[(5, 1), (6, 2), (7, 1)])).looping(true).build();
    let mut seen = Vec::new();
    for step in 0..20u64 {
        if step == 7 {
            animation.pause();
        }
        if step == 9 {
            animation.play();
        }
        animation.update(1_000);
        assert!(!animation.is_finished());
        seen.push(animation.get_current_tile_id());
    }
    assert!(seen.iter().all(|tile| [5, 6, 7].contains(tile)));
    assert_eq!(&seen[..4], &[6, 6, 7, 5]);
}

#[test]
fn stopped_animation_without_frames_can_update() {
    let mut animation = Animation::builder(Arc::new(Vec::new())).paused(true).build();
    animation.update(1_000);
    assert!(!animation.is_playing());
    assert_eq!(animation.number_of_frames(), 0);
}
