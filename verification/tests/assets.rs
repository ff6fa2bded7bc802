use bomberman::arenas::{ArenaSelection, MenuAction, MenuKey};
use bomberman::game_states::game_state_builder::{AssetLoader, GameStateBuilderBuilder};
use bomberman::game_states::play_state::{play_state_assets, TILEMAP_ID};
use bomberman::utils::asset_storage::{Asset, AssetStorage};

#[derive(Debug, PartialEq)]
struct Named(String);

impl Asset for Named {
    fn load_from_file(path: &str) -> Self {
        Named(format!("loaded {}", path))
    }
}

#[test]
fn assets_are_stored_under_ids() {
    let mut storage: AssetStorage<Named> = AssetStorage::new();
    storage.load_asset_from_file("a.xml", "a");
    storage.insert("b", Named("b".to_string()));
    assert_eq!(*storage.get_asset("a"), Named("loaded a.xml".to_string()));
    storage.load_asset_from_file("c.xml", "a");
    assert_eq!(*storage.get_asset("a"), Named("loaded c.xml".to_string()));
    storage.release_asset("a");
    assert_eq!(*storage.get_asset("b"), Named("b".to_string()));
    storage.load_asset_from_file("d.xml", "a");
    assert_eq!(*storage.get_asset("a"), Named("loaded d.xml".to_string()));
}

#[test]
fn builder_collects_loaders_in_order() {
    let builder = GameStateBuilderBuilder::new()
        .load_asset("maps/a.tmx", "a")
        .load_asset_with(5u32)
        .load_asset("b.xml", "b");
    let built = builder.build("state");
    assert_eq!(built.build, "state");
    assert_eq!(built.asset_loaders.len(), 3);
    assert!(matches!(&built.asset_loaders[0], AssetLoader::FromFile { path, id } if path == "maps/a.tmx" && id == "a"));
    assert!(matches!(&built.asset_loaders[1], AssetLoader::With(5)));
    assert!(matches!(&built.asset_loaders[2], AssetLoader::FromFile { path, id } if path == "b.xml" && id == "b"));
}

#[test]
fn arena_menu_moves_and_starts() {
    let mut selection = ArenaSelection::new(3);
    assert_eq!(selection.handle_key(MenuKey::Up), MenuAction::Nothing);
    assert_eq!(selection.handle_key(MenuKey::Down), MenuAction::Moved(true));
    assert_eq!(selection.handle_key(MenuKey::Down), MenuAction::Moved(true));
    assert_eq!(selection.handle_key(MenuKey::Down), MenuAction::Nothing);
    assert_eq!(selection.selected_arena, 2);
    assert_eq!(selection.handle_key(MenuKey::Up), MenuAction::Moved(false));
    assert_eq!(selection.handle_key(MenuKey::Return), MenuAction::Start(1));
    assert_eq!(selection.handle_key(MenuKey::Other), MenuAction::Nothing);
}

#[test]
fn missing_assets_are_none() {
    let mut storage: AssetStorage<Named> = AssetStorage::new();
    assert!(storage.get("a").is_none());
    storage.insert("a", Named("x".to_string()));
    assert_eq!(*storage.get("a").unwrap(), Named("x".to_string()));
    storage.release_asset("a");
    assert!(storage.get("a").is_none());
}

#[test]
fn play_state_loads_the_arena_and_the_tilesets() {
    let built = play_state_assets::<()>().build(());
    let files: Vec<(String, String)> = built
        .asset_loaders
        .iter()
        .map(|loader| match loader {
            AssetLoader::FromFile { path, id } => (path.clone(), id.clone()),
            AssetLoader::With(_) => panic!("no loader of its own"),
        })
        .collect();
    assert_eq!(
        files,
        vec![
            ("assets/textures/arena_tiles/ashlands.tmx".to_string(), "ashlands".to_string()),
            ("assets/textures/player/player1.xml".to_string(), "player1".to_string()),
            ("assets/textures/player/player2.xml".to_string(), "player2".to_string()),
            ("assets/textures/bomb/bomb.xml".to_string(), "bomb".to_string()),
        ]
    );
    assert_eq!(TILEMAP_ID, "ashlands");
}

fn store_b(storage: &mut AssetStorage<Named>) {
    storage.insert("b", Named("from a function".to_string()));
}

#[test]
fn builder_loads_assets_in_order() {
    let builder = GameStateBuilderBuilder::new()
        .load_asset("a.xml", "a")
        .load_asset_with(store_b as fn(&mut AssetStorage<Named>))
        .load_asset("c.xml", "a")
        .build("state");
    let mut storage: AssetStorage<Named> = AssetStorage::new();
    storage.insert("z", Named("kept".to_string()));
    let build = builder.load_assets(&mut storage);
    assert_eq!(build, "state");
    assert_eq!(*storage.get_asset("a"), Named("loaded c.xml".to_string()));
    assert_eq!(*storage.get_asset("b"), Named("from a function".to_string()));
    assert_eq!(*storage.get_asset("z"), Named("kept".to_string()));
}
