use pong_core::Player;
use pong_core::bindings::KeyBindings;
use pong_core::bindings::KeyEvent;
use pong_core::bindings::PlayerKeyBinds;
use pong_core::bindings::SetBinding;
use pong_core::bindings::choose_new_key;
use pong_core::bindings::set_key_binding;
use pong_core::bindings::KEY_DOWN;
use pong_core::bindings::KEY_ESCAPE;
use pong_core::bindings::KEY_RETURN;
use pong_core::bindings::KEY_S;
use pong_core::bindings::KEY_UP;
use pong_core::bindings::KEY_W;

fn defaults() -> PlayerKeyBinds {
    PlayerKeyBinds::from_loaded(None)
}

#[test]
fn default_bindings_are_wasd_and_arrows() {
    let b = defaults();
    assert_eq!(b.player1, KeyBindings { move_up: KEY_W, move_down: KEY_S });
    assert_eq!(b.player2, KeyBindings { move_up: KEY_UP, move_down: KEY_DOWN });
    assert_eq!(b, PlayerKeyBinds::default());
}

#[test]
fn loaded_bindings_win_over_defaults() {
    let stored = PlayerKeyBinds {
        player1: KeyBindings { move_up: 1, move_down: 2 },
        player2: KeyBindings { move_up: 3, move_down: 4 },
    };
    assert_eq!(PlayerKeyBinds::from_loaded(Some(stored)), stored);
}

#[test]
fn set_swaps_duplicate_into_vacated_slot() {
    // Binding player one's up action to S moves the old W into the
    // down slot that held S; no slot keeps a duplicate S.
    let mut b = defaults();
    b.set(Player::PlayerOne, true, KEY_S);
    assert_eq!(b.player1, KeyBindings { move_up: KEY_S, move_down: KEY_W });
    assert_eq!(b.player2, KeyBindings { move_up: KEY_UP, move_down: KEY_DOWN });
}

#[test]
fn set_swaps_across_players() {
    let mut b = defaults();
    b.set(Player::PlayerOne, true, KEY_UP);
    assert_eq!(b.player1, KeyBindings { move_up: KEY_UP, move_down: KEY_S });
    assert_eq!(b.player2, KeyBindings { move_up: KEY_W, move_down: KEY_DOWN });
}

#[test]
fn set_fresh_key_touches_one_slot() {
    let mut b = defaults();
    b.set(Player::PlayerTwo, false, 99);
    assert_eq!(b.player1, KeyBindings { move_up: KEY_W, move_down: KEY_S });
    assert_eq!(b.player2, KeyBindings { move_up: KEY_UP, move_down: 99 });
}

#[test]
fn set_same_key_changes_nothing() {
    let mut b = defaults();
    b.set(Player::PlayerOne, true, KEY_W);
    assert_eq!(b, defaults());
}

#[test]
fn set_keeps_all_slots_distinct() {
    let mut b = defaults();
    b.set(Player::PlayerTwo, true, KEY_S);
    let keys = [
        b.player1.move_up,
        b.player1.move_down,
        b.player2.move_up,
        b.player2.move_down,
    ];
    for i in 0..4 {
        for j in 0..4 {
            if i != j {
                assert_ne!(keys[i], keys[j]);
            }
        }
    }
}

#[test]
fn get_returns_the_players_own_bindings() {
    let b = defaults();
    assert_eq!(b.get(Player::PlayerOne), KeyBindings { move_up: KEY_W, move_down: KEY_S });
    assert_eq!(b.get(Player::PlayerTwo), KeyBindings { move_up: KEY_UP, move_down: KEY_DOWN });
}

fn press(k: u32) -> KeyEvent {
    KeyEvent { key: Some(k), pressed: true }
}

#[test]
fn last_pressed_key_wins() {
    let events = vec![press(65), press(66), KeyEvent { key: Some(67), pressed: false }];
    assert_eq!(choose_new_key(&events), Some(66));
}

#[test]
fn reserved_keys_never_bind() {
    assert_eq!(choose_new_key(&vec![press(KEY_ESCAPE), press(KEY_RETURN)]), None);
    // A reserved key later in the frame does not erase an earlier pick.
    assert_eq!(choose_new_key(&vec![press(70), press(KEY_ESCAPE)]), Some(70));
}

#[test]
fn releases_and_empty_frames_pick_nothing() {
    assert_eq!(choose_new_key(&vec![]), None);
    assert_eq!(choose_new_key(&vec![KeyEvent { key: Some(65), pressed: false }]), None);
    assert_eq!(choose_new_key(&vec![KeyEvent { key: None, pressed: true }]), None);
}

#[test]
fn rebinding_frame_applies_and_disarms() {
    let mut b = defaults();
    let (next, save) = set_key_binding(&mut b, SetBinding::P1Up, &vec![press(70)]);
    assert_eq!(next, SetBinding::Idle);
    assert!(save);
    assert_eq!(b.player1.move_up, 70);
}

#[test]
fn rebinding_frame_without_key_stays_armed() {
    let mut b = defaults();
    let (next, save) = set_key_binding(&mut b, SetBinding::P2Down, &vec![press(KEY_ESCAPE)]);
    assert_eq!(next, SetBinding::P2Down);
    assert!(!save);
    assert_eq!(b, defaults());
}
