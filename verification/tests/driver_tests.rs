use parblo::config::{Config, Control, Keymap, KeymapConfig};
use parblo::driver::{
    Action, StylusButtons, button_action, control_of, next_schema, schema_index_after_reload,
};
use parblo::keys::Key;
use parblo::protocol::Button;

fn two_schemas() -> Config {
    let mut first = KeymapConfig::none();
    first.set(Control::Button0, Keymap::parse("ctrl+z").unwrap());
    first.set(Control::Ring0, Keymap::parse("switchSchema").unwrap());
    let mut second = KeymapConfig::default();
    second.set(Control::Button1, Keymap::parse("b").unwrap());
    Config { keymaps: vec![first, second], keymap_index: 0 }
}

#[test]
fn buttons_act_as_their_mapping_says() {
    let config = two_schemas();
    assert!(matches!(button_action(&config, 0, Button::Release), Action::Release));
    assert!(matches!(button_action(&config, 0, Button::Ring0), Action::SwitchSchema));
    assert!(matches!(button_action(&config, 0, Button::Button2), Action::Nothing));
    let Action::Press(keys) = button_action(&config, 1, Button::Button0) else {
        panic!("the second schema falls back to ctrl+z");
    };
    assert_eq!(keys, vec![Key::Keyboard(0xa2), Key::Keyboard(0x5a)]);
    let Action::Press(keys) = button_action(&config, 1, Button::Button1) else {
        panic!("the second schema maps b");
    };
    assert_eq!(keys, vec![Key::Keyboard(0x42)]);
}

#[test]
fn controls_of_buttons() {
    assert_eq!(control_of(Button::Release), None);
    assert_eq!(control_of(Button::Ring1), Some(Control::Ring1));
    assert_eq!(control_of(Button::RingButton), Some(Control::RingButton));
}

#[test]
fn switching_goes_round() {
    assert_eq!(next_schema(1, 0), None);
    assert_eq!(next_schema(0, 0), None);
    assert_eq!(next_schema(3, 0), Some(1));
    assert_eq!(next_schema(3, 2), Some(0));
    let mut current = 1;
    for _ in 0..3 {
        current = next_schema(3, current).unwrap();
    }
    assert_eq!(current, 1);
}

#[test]
fn reload_keeps_index_in_range() {
    assert_eq!(schema_index_after_reload(2, 3), 2);
    assert_eq!(schema_index_after_reload(3, 3), 0);
}

#[test]
fn stylus_buttons_act_on_change_only() {
    let mut buttons = StylusButtons::default();
    let keymap = Keymap::parse("mouseRight").unwrap();
    let Action::Press(keys) = buttons.update(0, true, &keymap) else {
        panic!("going down presses the mapping");
    };
    assert_eq!(keys, vec![Key::MouseRight]);
    assert!(matches!(buttons.update(0, true, &keymap), Action::Nothing));
    assert!(matches!(buttons.update(1, false, &keymap), Action::Nothing));
    assert!(matches!(buttons.update(0, false, &keymap), Action::Release));
    buttons.update(1, true, &Keymap::Disabled);
    buttons.reset();
    assert_eq!(buttons.pressed, [false, false]);
}
