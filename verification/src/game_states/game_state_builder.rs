//! Builders of game states: the assets to load before a state is built, and
//! the function that builds it.
use crate::utils::asset_storage::{Asset, AssetStorage};
use std::sync::Arc;
use vstd::prelude::*;

verus! {

/// An asset to load before a game state is built: one loaded from a file and
/// stored under an id, or one that a function of the state's own loads.
pub enum AssetLoader<F> {
    FromFile { path: String, id: String },
    With(F),
}

/// How to build a game state: load the assets in order, then call `build`.
pub struct GameStateBuilder<F, G> {
    pub asset_loaders: Vec<AssetLoader<F>>,
    pub build: G,
}

/// Whether `loader` can turn `before` into `after`: one that loads a file
/// stores under its id what loading the file at its path gives, and leaves the
/// other ids as they were. What a function of the state's own does is said
/// where it runs, in `GameStateBuilder::load_assets`.
pub open spec fn loaded_by<A: Asset, F>(
    loader: AssetLoader<F>,
    before: AssetStorage<A>,
    after: AssetStorage<A>,
) -> bool {
    match loader {
        AssetLoader::FromFile { path, id } => {
            &&& exists|asset: A, file: &str|
                file@ == path@ && call_ensures(A::load_from_file, (file,), asset)
                    && after.spec_get(id@) == Some(Arc::new(asset))
            &&& forall|other: Seq<char>| other != id@ ==> after.spec_get(other) == before.spec_get(other)
        },
        AssetLoader::With(_) => true,
    }
}

/// Whether `loaders`, first to last, can turn `before` into `after`: each
/// loader turns one storage of `steps` into the next.
pub open spec fn loaded_through<A: Asset, F>(
    loaders: Seq<AssetLoader<F>>,
    steps: Seq<AssetStorage<A>>,
    before: AssetStorage<A>,
    after: AssetStorage<A>,
) -> bool {
    &&& steps.len() == loaders.len() + 1
    &&& steps[0] == before
    &&& steps.last() == after
    &&& forall|i: int| 0 <= i < loaders.len() ==> loaded_by(#[trigger] loaders[i], steps[i], steps[i + 1])
}

impl<F, G> GameStateBuilder<F, G> {
    /// Loads the assets into `storage`, in order, each once, and hands back the
    /// function that builds the state: a function of the state's own is called
    /// once, on the storage as the loaders before it left it, and what it
    /// leaves is what the next loader gets.
    pub fn load_assets<A: Asset>(self, storage: &mut AssetStorage<A>) -> (build: G) where
        F: FnOnce(&mut AssetStorage<A>),
        requires
            forall|i: int|
                0 <= i < self.asset_loaders@.len() && (#[trigger] self.asset_loaders@[i]) is With
                    ==> forall|any: &mut AssetStorage<A>|
                    call_requires(self.asset_loaders@[i]->With_0, (any,)),
        ensures
            build == self.build,
            exists|steps: Seq<AssetStorage<A>>|
                {
                    &&& loaded_through(self.asset_loaders@, steps, *old(storage), *final(storage))
                    &&& forall|i: int|
                        0 <= i < self.asset_loaders@.len() && (#[trigger] self.asset_loaders@[i]) is With
                            ==> exists|given: &mut AssetStorage<A>|
                            *given == steps[i] && *final(given) == steps[i + 1] && call_ensures(
                                self.asset_loaders@[i]->With_0,
                                (given,),
                                (),
                            )
                },
    {
        let ghost all = self.asset_loaders@;
        let GameStateBuilder { asset_loaders, build } = self;
        let mut loaders = asset_loaders;
        let ghost mut steps = seq![*storage];
        let ghost mut done: int = 0;
        while loaders.len() > 0
            invariant
                0 <= done <= all.len(),
                loaders@ == all.skip(done),
                forall|i: int|
                    0 <= i < all.len() && (#[trigger] all[i]) is With ==> forall|
                        any: &mut AssetStorage<A>,
                    | call_requires(all[i]->With_0, (any,)),
                steps.len() == done + 1,
                steps[0] == *old(storage),
                steps.last() == *storage,
                forall|i: int| 0 <= i < done ==> loaded_by(#[trigger] all[i], steps[i], steps[i + 1]),
                forall|i: int|
                    0 <= i < done && (#[trigger] all[i]) is With ==> exists|given: &mut AssetStorage<A>|
                        *given == steps[i] && *final(given) == steps[i + 1] && call_ensures(
                            all[i]->With_0,
                            (given,),
                            (),
                        ),
            decreases loaders.len(),
        {
            let ghost before = *storage;
            let loader = loaders.remove(0);
            assert(loaders@ =~= all.skip(done + 1));
            assert(loader == all[done]);
            match loader {
                AssetLoader::FromFile { path, id } => {
                    storage.load_asset_from_file(path.as_str(), id.as_str());
                },
                AssetLoader::With(load) => {
                    load(storage);
                    assert(exists|given: &mut AssetStorage<A>|
                        *given == before && *final(given) == *storage && call_ensures(
                            load,
                            (given,),
                            (),
                        ));
                },
            }
            proof {
                assert(loaded_by(all[done], before, *storage));
                steps = steps.push(*storage);
                done = done + 1;
            }
        }
        assert(all.skip(done).len() == 0);
        assert(loaded_through(all, steps, *old(storage), *storage));
        build
    }
}

/// Collects the assets that a game state needs.
pub struct GameStateBuilderBuilder<F> {
    asset_loaders: Vec<AssetLoader<F>>,
}

impl<F> GameStateBuilderBuilder<F> {
    /// The assets to load, in order.
    pub closed spec fn loaders(&self) -> Seq<AssetLoader<F>> {
        self.asset_loaders@
    }

    pub fn new() -> (builder: GameStateBuilderBuilder<F>)
        ensures
            builder.loaders().len() == 0,
    {
        GameStateBuilderBuilder { asset_loaders: Vec::new() }
    }

    /// Adds the asset of the file at `path`, to be stored under `id`.
    pub fn load_asset(self, path: &str, id: &str) -> (builder: Self)
        ensures
            builder.loaders().len() == self.loaders().len() + 1,
            builder.loaders().drop_last() == self.loaders(),
            builder.loaders().last() matches AssetLoader::FromFile { path: p, id: i } && p@
                == path@ && i@ == id@,
    {
        let mut builder = self;
        builder.asset_loaders.push(AssetLoader::FromFile { path: path.to_owned(), id: id.to_owned() });
        assert(builder.asset_loaders@.drop_last() =~= self.asset_loaders@);
        builder
    }

    /// Adds an asset that `f` loads.
    pub fn load_asset_with(self, f: F) -> (builder: Self)
        ensures
            builder.loaders() == self.loaders().push(AssetLoader::With(f)),
    {
        let mut builder = self;
        builder.asset_loaders.push(AssetLoader::With(f));
        builder
    }

    /// The builder of the state that `f` builds once the assets are loaded.
    pub fn build<G>(self, f: G) -> (builder: GameStateBuilder<F, G>)
        ensures
            builder.asset_loaders@ == self.loaders(),
            builder.build == f,
    {
        GameStateBuilder { asset_loaders: self.asset_loaders, build: f }
    }
}

} // verus!
