//! The components that the entities of a play state carry.
use crate::players::{Direction, PlayerCommand};
use crate::tiles::tileset::TileId;
use std::collections::HashSet;
use vstd::prelude::*;

verus! {

/// The drawing layer of an entity; lower layers are drawn first.
#[derive(Clone, Copy, Debug, PartialEq, Eq, Structural)]
pub struct Layer(pub usize);

/// The tile that an entity shows now.
#[derive(Clone, Copy, Debug, PartialEq, Eq, Structural)]
pub struct CurrentTileId(pub TileId);

/// The tile that an entity shows when no animation runs.
#[derive(Clone, Copy, Debug, PartialEq, Eq, Structural)]
pub struct DefaultTileId(pub TileId);

/// What an entity is.
#[derive(Clone, Copy, Debug, PartialEq, Eq, Structural, Hash)]
pub enum EntityType {
    Player,
    Bomb,
    SoftBlock,
    HardBlock,
}

/// Whether an entity collides.
#[derive(Clone, Copy, Debug, PartialEq, Eq, Structural)]
pub struct Collision(pub bool);

/// Commands that a player cannot give at the moment.
pub struct DeactivatedCommands(pub HashSet<PlayerCommand>);

/// A key that a player's controls can bind.
#[derive(Clone, Copy, Debug, PartialEq, Eq, Structural, Hash)]
pub enum ControlKey {
    Left,
    Right,
    Up,
    Down,
    RCtrl,
    A,
    D,
    W,
    S,
    LCtrl,
}

/// Whether a key went down or up.
#[derive(Clone, Copy, Debug, PartialEq, Eq, Structural)]
pub enum ButtonState {
    Press,
    Release,
}

/// The command that `bindings` give to `key`: that of its last binding.
pub open spec fn bound_command(bindings: Seq<(ControlKey, PlayerCommand)>, key: ControlKey) -> Option<
    PlayerCommand,
>
    decreases bindings.len(),
{
    if bindings.len() == 0 {
        None
    } else if bindings.last().0 == key {
        Some(bindings.last().1)
    } else {
        bound_command(bindings.drop_last(), key)
    }
}

/// The keys of a player and the command each gives; a later binding of a key
/// replaces an earlier one.
pub struct Controls(pub Vec<(ControlKey, PlayerCommand)>);

impl Controls {
    /// The command bound to `key`, if any.
    pub open spec fn spec_get(&self, key: ControlKey) -> Option<PlayerCommand> {
        bound_command(self.0@, key)
    }

    pub fn new() -> (controls: Controls)
        ensures
            forall|key: ControlKey| controls.spec_get(key) is None,
            controls.0@.len() == 0,
    {
        Controls(Vec::new())
    }

    /// Binds `key` to `command`.
    pub fn insert(&mut self, key: ControlKey, command: PlayerCommand)
        ensures
            final(self).0@ == old(self).0@.push((key, command)),
            final(self).spec_get(key) == Some(command),
            forall|other: ControlKey|
                other != key ==> final(self).spec_get(other) == old(self).spec_get(other),
    {
        self.0.push((key, command));
        assert(self.0@.drop_last() =~= old(self).0@);
    }

    /// The command bound to `key`, if any.
    pub fn get(&self, key: ControlKey) -> (command: Option<PlayerCommand>)
        ensures
            command == self.spec_get(key),
    {
        let mut i = self.0.len();
        assert(self.0@.take(i as int) =~= self.0@);
        while i > 0
            invariant
                i <= self.0@.len(),
                bound_command(self.0@, key) == bound_command(self.0@.take(i as int), key),
            decreases i,
        {
            assert(self.0@.take(i as int).drop_last() =~= self.0@.take(i - 1));
            if self.0[i - 1].0 == key {
                return Some(self.0[i - 1].1);
            }
            i -= 1;
        }
        None
    }
}

/// The directions a player holds, in the order the keys went down; the last is
/// the one the player moves in.
#[derive(Clone, Debug, PartialEq, Eq)]
pub struct MoveDirectionStack(pub Vec<Direction>);

/// Whether `i` is the first position of `direction` in `stack`.
pub open spec fn is_first_position(stack: Seq<Direction>, direction: Direction, i: int) -> bool {
    &&& 0 <= i < stack.len()
    &&& stack[i] == direction
    &&& forall|j: int| 0 <= j < i ==> stack[j] != direction
}

/// `stack` without the first occurrence of `direction`, if there is one.
pub open spec fn without_first(stack: Seq<Direction>, direction: Direction) -> Seq<Direction> {
    if stack.contains(direction) {
        let i = choose|i: int| is_first_position(stack, direction, i);
        stack.remove(i)
    } else {
        stack
    }
}

impl MoveDirectionStack {
    pub fn new() -> (stack: MoveDirectionStack)
        ensures
            stack.0@.len() == 0,
    {
        MoveDirectionStack(Vec::new())
    }

    /// A key of `direction` went down.
    pub fn press(&mut self, direction: Direction)
        ensures
            final(self).0@ == old(self).0@.push(direction),
    {
        self.0.push(direction);
    }

    /// A key of `direction` went up: its first occurrence leaves the stack.
    pub fn release(&mut self, direction: Direction)
        ensures
            final(self).0@ == without_first(old(self).0@, direction),
    {
        let n = self.0.len();
        let mut i: usize = 0;
        while i < n
            invariant
                n == self.0@.len(),
                self.0@ == old(self).0@,
                i <= n,
                forall|j: int| 0 <= j < i ==> self.0@[j] != direction,
            decreases n - i,
        {
            if self.0[i] == direction {
                proof {
                    lemma_first_position_unique(self.0@, direction, i as int);
                }
                self.0.remove(i);
                return ;
            }
            i += 1;
        }
        assert(!old(self).0@.contains(direction));
    }

    /// The direction the player moves in: the last one held.
    pub fn last(&self) -> (direction: Option<Direction>)
        ensures
            direction == (if self.0@.len() == 0 {
                None
            } else {
                Some(self.0@.last())
            }),
    {
        if self.0.len() == 0 {
            None
        } else {
            Some(self.0[self.0.len() - 1])
        }
    }
}

proof fn lemma_first_position_unique(stack: Seq<Direction>, direction: Direction, i: int)
    requires
        is_first_position(stack, direction, i),
    ensures
        stack.contains(direction),
        without_first(stack, direction) == stack.remove(i),
{
    let k = choose|k: int| is_first_position(stack, direction, k);
    assert(is_first_position(stack, direction, k));
    assert(k == i);
}

/// Releasing a direction that was pressed while not held gives back the stack
/// from before the press.
pub proof fn lemma_press_release_restores(stack: Seq<Direction>, direction: Direction)
    requires
        !stack.contains(direction),
    ensures
        without_first(stack.push(direction), direction) == stack,
{
    let pushed = stack.push(direction);
    assert forall|j: int| 0 <= j < stack.len() implies pushed[j] != direction by {
        assert(stack[j] == pushed[j]);
    }
    assert(is_first_position(pushed, direction, stack.len() as int));
    lemma_first_position_unique(pushed, direction, stack.len() as int);
    assert(pushed.remove(stack.len() as int) =~= stack);
}

/// Releasing removes exactly one occurrence of a held direction and keeps the
/// order of the others.
pub proof fn lemma_release_removes_one(stack: Seq<Direction>, direction: Direction)
    ensures
        stack.contains(direction) ==> without_first(stack, direction).len() + 1 == stack.len(),
        !stack.contains(direction) ==> without_first(stack, direction) == stack,
{
    if stack.contains(direction) {
        let k = choose|k: int| 0 <= k < stack.len() && stack[k] == direction;
        lemma_first_position_exists(stack, direction, k);
        let i = choose|i: int| is_first_position(stack, direction, i);
        lemma_first_position_unique(stack, direction, i);
    }
}

proof fn lemma_first_position_exists(stack: Seq<Direction>, direction: Direction, k: int)
    requires
        0 <= k < stack.len(),
        stack[k] == direction,
    ensures
        exists|i: int| is_first_position(stack, direction, i),
    decreases k,
{
    if exists|j: int| 0 <= j < k && stack[j] == direction {
        let j = choose|j: int| 0 <= j < k && stack[j] == direction;
        lemma_first_position_exists(stack, direction, j);
    } else {
        assert(is_first_position(stack, direction, k));
    }
}

} // verus!
