//! The stack of game states, the transitions between them, and how input
//! events reach them.
use std::collections::HashSet;
use vstd::prelude::*;

verus! {

broadcast use vstd::std_specs::hash::group_hash_axioms;

/// A change of the stack of game states; a new state comes with it.
pub enum StateTransition<S> {
    /// The new state goes on top.
    Push(S),
    /// The top state leaves.
    Pop,
    /// The new state replaces the top one.
    Switch(S),
    /// All states leave.
    Clear,
}

/// The states after `transition`.
pub open spec fn transitioned<S>(states: Seq<S>, transition: StateTransition<S>) -> Seq<S> {
    match transition {
        StateTransition::Push(state) => states.push(state),
        StateTransition::Pop => if states.len() == 0 {
            states
        } else {
            states.drop_last()
        },
        StateTransition::Switch(state) => if states.len() == 0 {
            states.push(state)
        } else {
            states.drop_last().push(state)
        },
        StateTransition::Clear => Seq::empty(),
    }
}

/// A game state: it handles the events that reach it.
pub trait GameState<E> {
    /// Whether handling `event` turns this state into `after`, and lets the
    /// states below see the event exactly when `pass_down`. A kind of state
    /// that says nothing of it allows any change.
    open spec fn handles(&self, event: &E, after: &Self, pass_down: bool) -> bool {
        true
    }

    /// Handles `event`; returns whether the states below see it too.
    fn execute(&mut self, event: &E) -> (pass_down: bool)
        ensures
            old(self).handles(event, final(self), pass_down),
    ;
}

/// Whether handling `event` turns `before` into `after`, whatever the state
/// said of the states below.
pub open spec fn handled<S: GameState<E>, E>(before: S, event: E, after: S) -> bool {
    exists|pass_down: bool| #[trigger] before.handles(&event, &after, pass_down)
}

/// The game states, the last on top.
pub struct StateStack<S> {
    pub stack: Vec<S>,
}

impl<S> StateStack<S> {
    pub fn new() -> (states: StateStack<S>)
        ensures
            states.stack@.len() == 0,
    {
        StateStack { stack: Vec::new() }
    }

    pub fn is_empty(&self) -> (empty: bool)
        ensures
            empty == (self.stack@.len() == 0),
    {
        self.stack.len() == 0
    }

    pub fn apply(&mut self, transition: StateTransition<S>)
        ensures
            final(self).stack@ == transitioned(old(self).stack@, transition),
    {
        match transition {
            StateTransition::Push(state) => {
                self.stack.push(state);
            },
            StateTransition::Pop => {
                self.stack.pop();
            },
            StateTransition::Switch(state) => {
                self.stack.pop();
                self.stack.push(state);
            },
            StateTransition::Clear => {
                self.stack.clear();
            },
        }
    }

    /// Offers `event` to the states from the top down, until one keeps it from
    /// those below. Returns how many states saw it: each of them became what
    /// handling the event makes of it, all but the lowest of them let it pass
    /// down, and the lowest kept it unless it is the bottom state. The states
    /// below those are left as they were.
    pub fn update<E>(&mut self, event: &E) -> (seen: usize) where S: GameState<E>
        ensures
            final(self).stack@.len() == old(self).stack@.len(),
            seen <= old(self).stack@.len(),
            old(self).stack@.len() > 0 ==> seen >= 1,
            forall|j: int|
                0 <= j < old(self).stack@.len() - seen ==> final(self).stack@[j] == old(
                    self,
                ).stack@[j],
            forall|j: int|
                old(self).stack@.len() - seen <= j < old(self).stack@.len() ==> handled(
                    old(self).stack@[j],
                    *event,
                    #[trigger] final(self).stack@[j],
                ),
            forall|j: int|
                old(self).stack@.len() - seen < j < old(self).stack@.len() ==> old(
                    self,
                ).stack@[j].handles(event, &#[trigger] final(self).stack@[j], true),
            seen < old(self).stack@.len() ==> old(self).stack@[old(self).stack@.len()
                - seen].handles(event, &final(self).stack@[old(self).stack@.len() - seen], false),
    {
        let n = self.stack.len();
        let mut seen: usize = 0;
        let mut kept = false;
        while seen < n
            invariant_except_break
                !kept,
                forall|j: int|
                    n - seen <= j < n ==> old(self).stack@[j].handles(event, &#[trigger] self.stack@[j], true),
            invariant
                n == old(self).stack@.len(),
                self.stack@.len() == n,
                seen <= n,
                forall|j: int| 0 <= j < n - seen ==> self.stack@[j] == old(self).stack@[j],
                forall|j: int|
                    n - seen <= j < n ==> handled(old(self).stack@[j], *event, #[trigger] self.stack@[j]),
            ensures
                self.stack@.len() == n,
                seen <= n,
                n > 0 ==> seen >= 1,
                forall|j: int| 0 <= j < n - seen ==> self.stack@[j] == old(self).stack@[j],
                forall|j: int|
                    n - seen <= j < n ==> handled(old(self).stack@[j], *event, #[trigger] self.stack@[j]),
                forall|j: int|
                    n - seen < j < n ==> old(self).stack@[j].handles(event, &#[trigger] self.stack@[j], true),
                seen < n ==> kept,
                kept ==> seen >= 1 && old(self).stack@[n - seen].handles(event, &self.stack@[n - seen], false),
            decreases n - seen,
        {
            let index = n - 1 - seen;
            let mut state = self.stack.remove(index);
            let pass_down = state.execute(event);
            self.stack.insert(index, state);
            seen += 1;
            if !pass_down {
                kept = true;
                break;
            }
        }
        seen
    }

    /// Shows `event` to every state, from the bottom up: each state becomes
    /// what handling the event makes of it.
    pub fn draw<E>(&mut self, event: &E) where S: GameState<E>
        ensures
            final(self).stack@.len() == old(self).stack@.len(),
            forall|j: int|
                0 <= j < old(self).stack@.len() ==> handled(
                    old(self).stack@[j],
                    *event,
                    #[trigger] final(self).stack@[j],
                ),
    {
        let n = self.stack.len();
        let mut index: usize = 0;
        while index < n
            invariant
                n == old(self).stack@.len(),
                self.stack@.len() == n,
                index <= n,
                forall|j: int|
                    0 <= j < index ==> handled(old(self).stack@[j], *event, #[trigger] self.stack@[j]),
                forall|j: int| index <= j < n ==> self.stack@[j] == old(self).stack@[j],
            decreases n - index,
        {
            let ghost before = self.stack@;
            let mut state = self.stack.remove(index);
            let ghost old_state = state;
            let pass_down = state.execute(event);
            self.stack.insert(index, state);
            assert forall|j: int| 0 <= j < index + 1 implies handled(
                old(self).stack@[j],
                *event,
                #[trigger] self.stack@[j],
            ) by {
                if j < index {
                    assert(self.stack@[j] == before[j]);
                } else {
                    assert(old(self).stack@[j] == old_state);
                    assert(old(self).stack@[j].handles(event, &self.stack@[j], pass_down));
                }
            }
            assert forall|j: int| index + 1 <= j < n implies self.stack@[j] == old(self).stack@[j] by {
                assert(self.stack@[j] == before[j]);
            }
            index += 1;
        }
    }

    /// Applies `pending_transitions` in order, first to last.
    pub fn apply_pending_transitions(&mut self, pending_transitions: Vec<StateTransition<S>>)
        ensures
            final(self).stack@ == transitioned_all(old(self).stack@, pending_transitions@),
    {
        let mut transitions = pending_transitions;
        while transitions.len() > 0
            invariant
                transitioned_all(old(self).stack@, pending_transitions@) == transitioned_all(
                    self.stack@,
                    transitions@,
                ),
            decreases transitions.len(),
        {
            let ghost rest = transitions@;
            let transition = transitions.remove(0);
            assert(rest.drop_first() =~= transitions@);
            self.apply(transition);
        }
    }
}

/// The states after `transitions`, applied first to last.
pub open spec fn transitioned_all<S>(states: Seq<S>, transitions: Seq<StateTransition<S>>) -> Seq<S>
    decreases transitions.len(),
{
    if transitions.len() == 0 {
        states
    } else {
        transitioned_all(transitioned(states, transitions[0]), transitions.drop_first())
    }
}

/// Pushing a state and popping it gives back the stack from before.
pub proof fn lemma_push_pop<S>(states: Seq<S>, state: S)
    ensures
        transitioned(transitioned(states, StateTransition::Push(state)), StateTransition::Pop)
            == states,
{
    assert(states.push(state).drop_last() =~= states);
}

/// Switching keeps the number of states of a stack that has some, and puts
/// the new state on top.
pub proof fn lemma_switch_keeps_height<S>(states: Seq<S>, state: S)
    requires
        states.len() > 0,
    ensures
        transitioned(states, StateTransition::Switch(state)).len() == states.len(),
        transitioned(states, StateTransition::Switch(state)).last() == state,
{
}

/// What becomes of an input event.
#[derive(PartialEq, Eq, Structural, Clone, Copy, Debug)]
pub enum EventRoute {
    /// The states update with it, top first.
    Update,
    /// The states draw themselves.
    Draw,
    /// Nobody sees it.
    Ignore,
}

/// An input event; each button is known by a number of its own.
#[derive(PartialEq, Eq, Structural, Clone, Copy, Debug)]
pub enum InputEvent {
    Press(u64),
    Release(u64),
    Render,
    Other,
}

/// The buttons held down.
pub struct ButtonStorage {
    pub held: HashSet<u64>,
}

/// What becomes of `event` while `held` are held, and which are held after it:
/// a press of a held button is a repeat and is ignored; any other press or
/// release updates the states; render events draw them; the others update them.
pub open spec fn routed(held: Set<u64>, event: InputEvent) -> (EventRoute, Set<u64>) {
    match event {
        InputEvent::Press(button) => if held.contains(button) {
            (EventRoute::Ignore, held)
        } else {
            (EventRoute::Update, held.insert(button))
        },
        InputEvent::Release(button) => (EventRoute::Update, held.remove(button)),
        InputEvent::Render => (EventRoute::Draw, held),
        InputEvent::Other => (EventRoute::Update, held),
    }
}

impl ButtonStorage {
    pub fn new() -> (storage: ButtonStorage)
        ensures
            storage.held@ == Set::<u64>::empty(),
    {
        ButtonStorage { held: HashSet::new() }
    }

    /// Where `event` goes; notes the buttons that go down and up.
    pub fn route(&mut self, event: InputEvent) -> (route: EventRoute)
        ensures
            (route, final(self).held@) == routed(old(self).held@, event),
    {
        match event {
            InputEvent::Press(button) => {
                if self.held.contains(&button) {
                    EventRoute::Ignore
                } else {
                    self.held.insert(button);
                    EventRoute::Update
                }
            },
            InputEvent::Release(button) => {
                self.held.remove(&button);
                EventRoute::Update
            },
            InputEvent::Render => EventRoute::Draw,
            InputEvent::Other => EventRoute::Update,
        }
    }
}

/// Holding a button down yields one update: a second press before the release
/// is ignored; after the release, a press updates again.
pub proof fn lemma_repeated_press_ignored(held: Set<u64>, button: u64)
    ensures
        routed(routed(held, InputEvent::Press(button)).1, InputEvent::Press(button)).0
            == EventRoute::Ignore,
        routed(
            routed(routed(held, InputEvent::Press(button)).1, InputEvent::Release(button)).1,
            InputEvent::Press(button),
        ).0 == EventRoute::Update,
{
}

} // verus!
