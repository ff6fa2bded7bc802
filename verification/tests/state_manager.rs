use bomberman::game_states::state_manager::{ButtonStorage, EventRoute, GameState, InputEvent, StateStack, StateTransition};

#[test]
fn transitions_change_the_stack() {
    let mut states: StateStack<&str> = StateStack::new();
    assert!(states.is_empty());
    states.apply(StateTransition::Push("menu"));
    states.apply(StateTransition::Push("play"));
    assert_eq!(states.stack, vec!["menu", "play"]);
    states.apply(StateTransition::Switch("pause"));
    assert_eq!(states.stack, vec!["menu", "pause"]);
    states.apply(StateTransition::Pop);
    assert_eq!(states.stack, vec!["menu"]);
    states.apply(StateTransition::Clear);
    assert!(states.is_empty());
    states.apply(StateTransition::Pop);
    assert!(states.is_empty());
    states.apply(StateTransition::Switch("only"));
    assert_eq!(states.stack, vec!["only"]);
}

#[test]
fn pending_transitions_apply_in_order() {
    let mut states: StateStack<u32> = StateStack::new();
    states.apply_pending_transitions(vec![
        StateTransition::Push(1),
        StateTransition::Push(2),
        StateTransition::Pop,
        StateTransition::Push(3),
        StateTransition::Switch(4),
    ]);
    assert_eq!(states.stack, vec![1, 4]);
}

#[test]
fn held_buttons_are_not_repeated() {
    let mut buttons = ButtonStorage::new();
    assert_eq!(buttons.route(InputEvent::Press(7)), EventRoute::Update);
    assert_eq!(buttons.route(InputEvent::Press(7)), EventRoute::Ignore);
    assert_eq!(buttons.route(InputEvent::Press(8)), EventRoute::Update);
    assert_eq!(buttons.route(InputEvent::Release(7)), EventRoute::Update);
    assert_eq!(buttons.route(InputEvent::Press(7)), EventRoute::Update);
    assert_eq!(buttons.route(InputEvent::Render), EventRoute::Draw);
    assert_eq!(buttons.route(InputEvent::Other), EventRoute::Update);
    assert_eq!(buttons.route(InputEvent::Release(9)), EventRoute::Update);
}

struct Counter {
    seen: u32,
    pass_down: bool,
}

impl GameState<u32> for Counter {
    fn execute(&mut self, event: &u32) -> bool {
        self.seen += *event;
        self.pass_down
    }
}

#[test]
fn events_go_down_until_a_state_keeps_them() {
    let mut states: StateStack<Counter> = StateStack::new();
    states.apply(StateTransition::Push(Counter { seen: 0, pass_down: true }));
    states.apply(StateTransition::Push(Counter { seen: 0, pass_down: false }));
    states.apply(StateTransition::Push(Counter { seen: 0, pass_down: true }));
    assert_eq!(states.update(&2), 2);
    assert_eq!(
        states.stack.iter().map(|state| state.seen).collect::<Vec<_>>(),
        vec![0, 2, 2]
    );
    states.draw(&1);
    assert_eq!(
        states.stack.iter().map(|state| state.seen).collect::<Vec<_>>(),
        vec![1, 3, 3]
    );
    let mut empty: StateStack<Counter> = StateStack::new();
    assert_eq!(empty.update(&1), 0);
}
