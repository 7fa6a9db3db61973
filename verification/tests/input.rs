use geese::input::ButtonEvent;
use geese::input::ActionMap;
use geese::input::ButtonState;
use geese::input::GamepadButton;
use geese::input::InputBinding;
use geese::input::KeyCode;
use geese::input::MouseButton;

#[test]
fn key_press_release_tracks_down_and_edge() {
    let mut s = ButtonState::new();
    s.key_down(KeyCode::W);
    assert!(s.is_key_down(KeyCode::W));
    assert!(s.key_pressed(KeyCode::W));
    assert!(!s.key_released(KeyCode::W));

    s.begin_frame();
    assert!(s.is_key_down(KeyCode::W));
    assert!(!s.key_pressed(KeyCode::W), "press edge cleared at frame begin");

    s.key_up(KeyCode::W);
    assert!(!s.is_key_down(KeyCode::W));
    assert!(s.key_released(KeyCode::W));
}

#[test]
fn focus_lost_clears_all_held_state() {
    let mut s = ButtonState::new();
    s.key_down(KeyCode::Space);
    s.mouse_down(MouseButton::Left);
    s.gamepad_down(0, GamepadButton::South);
    assert!(s.is_key_down(KeyCode::Space));

    s.focus_lost();
    assert!(!s.is_key_down(KeyCode::Space));
    assert!(!s.is_mouse_down(MouseButton::Left));
    assert!(!s.is_gamepad_button_down(0, GamepadButton::South));
}

#[test]
fn action_map_matches_any_binding() {
    let mut map = ActionMap::new();
    map.bind("jump", InputBinding::Key(KeyCode::Space));
    map.bind("jump", InputBinding::GamepadButton(GamepadButton::South));

    let mut s = ButtonState::new();
    assert!(!map.is_active("jump", &s));

    s.gamepad_down(0, GamepadButton::South);
    assert!(map.is_active("jump", &s));

    s.gamepad_up(0, GamepadButton::South);
    s.key_down(KeyCode::Space);
    assert!(map.is_active("jump", &s));
}

#[test]
fn repeated_press_records_no_new_edge() {
    let mut s = ButtonState::new();
    s.key_down(KeyCode::A);
    s.begin_frame();
    s.key_down(KeyCode::A);
    assert!(s.is_key_down(KeyCode::A));
    assert!(!s.key_pressed(KeyCode::A));
    s.key_up(KeyCode::B);
    assert!(!s.key_released(KeyCode::B));
}

#[test]
fn press_and_release_in_one_frame_records_both_edges() {
    let mut s = ButtonState::new();
    s.mouse_down(MouseButton::Other(4));
    s.mouse_up(MouseButton::Other(4));
    assert!(!s.is_mouse_down(MouseButton::Other(4)));
    assert!(s.mouse_pressed(MouseButton::Other(4)));
    assert!(s.mouse_released(MouseButton::Other(4)));
    assert!(!s.mouse_pressed(MouseButton::Other(5)));
}

#[test]
fn focus_lost_keeps_frame_edges() {
    let mut s = ButtonState::new();
    s.key_down(KeyCode::Q);
    s.focus_lost();
    assert!(s.key_pressed(KeyCode::Q));
    assert!(!s.key_released(KeyCode::Q));
}

#[test]
fn gamepad_buttons_are_per_pad_and_have_no_edges() {
    let mut s = ButtonState::new();
    s.gamepad_down(1, GamepadButton::North);
    assert!(s.is_gamepad_button_down(1, GamepadButton::North));
    assert!(!s.is_gamepad_button_down(0, GamepadButton::North));
    let mut map = ActionMap::new();
    map.bind("menu", InputBinding::GamepadButton(GamepadButton::North));
    assert!(!map.is_active("menu", &s));
}

#[test]
fn bindings_lists_in_order_and_unbind_all_removes() {
    let mut map = ActionMap::default();
    assert!(map.bindings("fire").is_none());
    map.bind("fire", InputBinding::Mouse(MouseButton::Left));
    map.bind("fire", InputBinding::Key(KeyCode::F));
    map.bind("walk", InputBinding::Key(KeyCode::W));
    assert_eq!(
        map.bindings("fire"),
        Some(&[InputBinding::Mouse(MouseButton::Left), InputBinding::Key(KeyCode::F)][..])
    );
    map.unbind_all("fire");
    assert!(map.bindings("fire").is_none());
    assert_eq!(map.bindings("walk"), Some(&[InputBinding::Key(KeyCode::W)][..]));
    let mut s = ButtonState::new();
    s.mouse_down(MouseButton::Left);
    assert!(!map.is_active("fire", &s));
    map.unbind_all("missing");
    assert_eq!(map.bindings("walk").map(|b| b.len()), Some(1));
}

#[test]
fn digital_events_update_buttons() {
    let mut s = geese::input::ButtonState::new();
    s.apply(geese::input::ButtonEvent::KeyPressed(geese::input::KeyCode::W));
    assert!(s.is_key_down(geese::input::KeyCode::W));
    assert!(s.key_pressed(geese::input::KeyCode::W));
    s.apply(ButtonEvent::GamepadButtonPressed { id: 0, button: geese::input::GamepadButton::South });
    assert!(s.is_gamepad_button_down(0, geese::input::GamepadButton::South));
    s.apply(ButtonEvent::FocusLost);
    assert!(!s.is_key_down(geese::input::KeyCode::W));
    assert!(!s.is_gamepad_button_down(0, geese::input::GamepadButton::South));
}
