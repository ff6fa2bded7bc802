//! Arenas: their layouts, the list of arenas to choose from, and the choice of
//! one in the menu.
use vstd::prelude::*;

verus! {

/// A tile of an arena layout, with the number of its picture.
pub enum Tile {
    Ground(u8),
    Wall(u8),
    SoftWall(u8),
    SoftWallArea(u8),
    PlayerStart(u8),
}

/// The layout of an arena, row by row.
pub struct Arena {
    pub tiles: Vec<Vec<Tile>>,
}

/// The name of an arena and the file of its layout.
pub struct ArenaData {
    pub name: String,
    pub file: String,
}

/// The arenas to choose from.
pub struct Arenas {
    pub arenas: Vec<ArenaData>,
}

/// The system that moves the list of arenas when the player scrolls it.
pub struct SelectArena;

/// A key that the arena menu reacts to.
#[derive(PartialEq, Eq, Structural, Clone, Copy, Debug)]
pub enum MenuKey {
    Down,
    Up,
    Return,
    Other,
}

/// What the arena menu does after a key.
#[derive(PartialEq, Eq, Structural, Clone, Copy, Debug)]
pub enum MenuAction {
    /// The selection moved one arena down (`true`) or up (`false`).
    Moved(bool),
    /// The game starts in the arena with this index.
    Start(usize),
    Nothing,
}

/// Which of the arenas is selected.
pub struct ArenaSelection {
    pub number_of_arenas: usize,
    pub selected_arena: usize,
}

impl ArenaSelection {
    /// The selected arena is one of the arenas; with no arena, none is.
    pub open spec fn wf(&self) -> bool {
        self.selected_arena < self.number_of_arenas || (self.number_of_arenas == 0
            && self.selected_arena == 0)
    }

    /// The selection of the first of `number_of_arenas` arenas.
    pub fn new(number_of_arenas: usize) -> (selection: ArenaSelection)
        ensures
            selection.number_of_arenas == number_of_arenas,
            selection.selected_arena == 0,
    {
        ArenaSelection { number_of_arenas, selected_arena: 0 }
    }

    /// Down selects the next arena and up the previous one, where there is
    /// one; return starts the game in the selected arena. Down and return need
    /// an arena.
    pub fn handle_key(&mut self, key: MenuKey) -> (action: MenuAction)
        requires
            old(self).wf(),
            old(self).number_of_arenas == 0 ==> key == MenuKey::Up || key == MenuKey::Other,
        ensures
            final(self).wf(),
            final(self).number_of_arenas == old(self).number_of_arenas,
            key == MenuKey::Down && old(self).selected_arena + 1 < old(self).number_of_arenas ==> {
                &&& action == MenuAction::Moved(true)
                &&& final(self).selected_arena == old(self).selected_arena + 1
            },
            key == MenuKey::Up && old(self).selected_arena > 0 ==> {
                &&& action == MenuAction::Moved(false)
                &&& final(self).selected_arena == old(self).selected_arena - 1
            },
            key == MenuKey::Return ==> {
                &&& action == MenuAction::Start(old(self).selected_arena)
                &&& final(self).selected_arena == old(self).selected_arena
            },
            (key == MenuKey::Other || (key == MenuKey::Down && old(self).selected_arena + 1
                == old(self).number_of_arenas) || (key == MenuKey::Up && old(self).selected_arena
                == 0)) ==> {
                &&& action == MenuAction::Nothing
                &&& final(self).selected_arena == old(self).selected_arena
            },
    {
        let is_down = key == MenuKey::Down && self.selected_arena != self.number_of_arenas - 1;
        let is_up = key == MenuKey::Up && self.selected_arena != 0;
        if is_down {
            self.selected_arena += 1;
            MenuAction::Moved(true)
        } else if is_up {
            self.selected_arena -= 1;
            MenuAction::Moved(false)
        } else if key == MenuKey::Return {
            MenuAction::Start(self.selected_arena)
        } else {
            MenuAction::Nothing
        }
    }
}

} // verus!
