//! The play state: the assets it loads before it starts.
use crate::game_states::game_state_builder::{AssetLoader, GameStateBuilderBuilder};
use crate::players::PlayerId;
use vstd::prelude::*;

verus! {

/// The id of the arena's tile map among the loaded assets.
pub const TILEMAP_ID: &'static str = "ashlands";

/// Whether `loader` loads the file at `path` under `id`.
pub open spec fn loads_file<F>(loader: AssetLoader<F>, path: Seq<char>, id: Seq<char>) -> bool {
    loader matches AssetLoader::FromFile { path: p, id: i } && p@ == path && i@ == id
}

/// The assets of the play state: the arena's tile map, the tilesets of the
/// first two players, and that of the bombs.
pub fn play_state_assets<F>() -> (builder: GameStateBuilderBuilder<F>)
    ensures
        builder.loaders().len() == 4,
        loads_file(
            builder.loaders()[0],
            "assets/textures/arena_tiles/ashlands.tmx"@,
            TILEMAP_ID@,
        ),
        loads_file(
            builder.loaders()[1],
            "assets/textures/player/player1.xml"@,
            PlayerId::Player1.name(),
        ),
        loads_file(
            builder.loaders()[2],
            "assets/textures/player/player2.xml"@,
            PlayerId::Player2.name(),
        ),
        loads_file(builder.loaders()[3], "assets/textures/bomb/bomb.xml"@, "bomb"@),
{
    let builder = GameStateBuilderBuilder::new();
    let builder = builder.load_asset("assets/textures/arena_tiles/ashlands.tmx", TILEMAP_ID);
    let b1 = builder.load_asset("assets/textures/player/player1.xml", PlayerId::Player1.as_str());
    let b2 = b1.load_asset("assets/textures/player/player2.xml", PlayerId::Player2.as_str());
    let b3 = b2.load_asset("assets/textures/bomb/bomb.xml", "bomb");
    assert(b3.loaders().drop_last().drop_last() == b1.loaders());
    b3
}

} // verus!
