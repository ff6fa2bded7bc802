//! Names of the object groups and object properties of an arena map.
use vstd::prelude::*;

verus! {

/// The object groups that an arena map holds.
pub enum ArenaObjectGroup {
    HardBlocks,
    SoftBlockAreas,
    PlayerSpawns,
}

impl ArenaObjectGroup {
    /// The name under which the group is stored in the map file.
    pub open spec fn name(self) -> Seq<char> {
        match self {
            ArenaObjectGroup::HardBlocks => "hard_blocks"@,
            ArenaObjectGroup::SoftBlockAreas => "soft_block_areas"@,
            ArenaObjectGroup::PlayerSpawns => "player_spawns"@,
        }
    }

    pub fn as_str(&self) -> (s: &'static str)
        ensures
            s@ == self.name(),
    {
        match self {
            ArenaObjectGroup::HardBlocks => "hard_blocks",
            ArenaObjectGroup::SoftBlockAreas => "soft_block_areas",
            ArenaObjectGroup::PlayerSpawns => "player_spawns",
        }
    }
}

/// The properties of an object of the soft block areas group.
pub enum SoftBlockAreasProperties {
    SpawnChance,
    RenderLayer,
}

impl SoftBlockAreasProperties {
    pub open spec fn name(self) -> Seq<char> {
        match self {
            SoftBlockAreasProperties::SpawnChance => "spawn_chance"@,
            SoftBlockAreasProperties::RenderLayer => "render_layer"@,
        }
    }

    pub fn as_str(&self) -> (s: &'static str)
        ensures
            s@ == self.name(),
    {
        match self {
            SoftBlockAreasProperties::SpawnChance => "spawn_chance",
            SoftBlockAreasProperties::RenderLayer => "render_layer",
        }
    }
}

/// The properties of an object of the player spawns group.
pub enum PlayerSpawnsProperties {
    PlayerId,
}

impl PlayerSpawnsProperties {
    pub open spec fn name(self) -> Seq<char> {
        match self {
            PlayerSpawnsProperties::PlayerId => "player_id"@,
        }
    }

    pub fn as_str(&self) -> (s: &'static str)
        ensures
            s@ == self.name(),
    {
        match self {
            PlayerSpawnsProperties::PlayerId => "player_id",
        }
    }
}

/// Distinct object groups are stored under distinct names.
pub proof fn lemma_object_group_names_distinct(a: ArenaObjectGroup, b: ArenaObjectGroup)
    requires
        a != b,
    ensures
        a.name() != b.name(),
{
    reveal_strlit("hard_blocks");
    reveal_strlit("soft_block_areas");
    reveal_strlit("player_spawns");
    assert("hard_blocks"@[0] != "soft_block_areas"@[0]);
    assert("hard_blocks"@[0] != "player_spawns"@[0]);
    assert("soft_block_areas"@[0] != "player_spawns"@[0]);
}

} // verus!
