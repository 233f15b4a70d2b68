use fenestre::command::Command;
use fenestre::config::{KeyBindingConfig, KeyBindingTarget, PointerBindingConfig, PointerOp};
use fenestre::seat::SeatId;
use fenestre::wm::{Event, WMState};

fn key(target: KeyBindingTarget, keysym: u32) -> KeyBindingConfig {
    KeyBindingConfig { target, keysym, modifiers: 0, command: Command::FocusNext }
}

fn two_seats() -> WMState {
    let mut state = WMState::new();
    state.handle_event(Event::SeatCreated { seat_id: SeatId(4) });
    state.handle_event(Event::SeatCreated { seat_id: SeatId(2) });
    state
}

#[test]
fn primary_binding_goes_to_lowest_seat_and_all_to_every_seat() {
    let state = two_seats();
    let bindings = vec![key(KeyBindingTarget::Primary, 10), key(KeyBindingTarget::All, 11)];
    assert_eq!(
        state.key_binding_assignments(&bindings),
        vec![(SeatId(2), 0), (SeatId(2), 1), (SeatId(4), 1)]
    );
}

#[test]
fn bindings_without_seats_yield_nothing() {
    let state = WMState::new();
    let bindings = vec![key(KeyBindingTarget::Primary, 10), key(KeyBindingTarget::All, 11)];
    assert!(state.key_binding_assignments(&bindings).is_empty());
}

#[test]
fn pointer_bindings_resolve_like_key_bindings() {
    let state = two_seats();
    let bindings = vec![PointerBindingConfig {
        target: KeyBindingTarget::All,
        button: 272,
        modifiers: 64,
        op: PointerOp::Move,
    }];
    assert_eq!(
        state.pointer_binding_assignments(&bindings),
        vec![(SeatId(2), 0), (SeatId(4), 0)]
    );
}
