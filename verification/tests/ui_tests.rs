use parblo::config::{Config, Control, Keymap, KeymapConfig};
use parblo::keys::Key;
use parblo::protocol::{Button, PenEvent};
use parblo::ui::{
    Page, TrayCommand, button_label, editing_from_config, entry_values, join_strs, key_name,
    pen_state, recent_buttons_text, selected_schema, shortcut_value,
};

#[test]
fn pen_state_lists_what_is_pressed() {
    let mut pen = PenEvent {
        in_area: false,
        tip_pressed: true,
        button0_pressed: true,
        button1_pressed: true,
        x: 0,
        y: 0,
        pressure: 0,
        tilt_x: 0,
        tilt_y: 0,
    };
    assert_eq!(pen_state(&pen), "已离开感应区");
    pen.in_area = true;
    assert_eq!(pen_state(&pen), "在感应区内  笔尖  下侧键  上侧键");
    pen.tip_pressed = false;
    pen.button0_pressed = false;
    assert_eq!(pen_state(&pen), "在感应区内  上侧键");
    pen.button1_pressed = false;
    assert_eq!(pen_state(&pen), "在感应区内");
}

#[test]
fn button_labels() {
    assert_eq!(button_label(Button::Release), None);
    assert_eq!(button_label(Button::Button3), Some("按键3"));
    assert_eq!(button_label(Button::RingButton), Some("转环中键"));
}

#[test]
fn recent_buttons_latest_first() {
    assert_eq!(recent_buttons_text(&Vec::new()), "尚未收到按键事件");
    assert_eq!(recent_buttons_text(&vec![Button::Release]), "尚未收到按键事件");
    assert_eq!(
        recent_buttons_text(&vec![Button::Button0, Button::Release, Button::Ring1]),
        "转环顺时针、按键0"
    );
}

#[test]
fn recorded_keys_are_named() {
    assert_eq!(key_name("A"), Some("a"));
    assert_eq!(key_name("z"), Some("z"));
    assert_eq!(key_name("7"), Some("7"));
    assert_eq!(key_name("/"), Some("/"));
    assert_eq!(key_name("\u{F700}"), Some("up"));
    assert_eq!(key_name("\u{F70F}"), Some("f12"));
    assert_eq!(key_name("\r"), Some("enter"));
    assert_eq!(key_name("\n"), Some("enter"));
    assert_eq!(key_name(" "), Some("space"));
    assert_eq!(key_name("\u{7f}"), Some("delete"));
    assert_eq!(key_name(""), None);
    assert_eq!(key_name("ab"), None);
    assert_eq!(key_name("é"), None);
    assert_eq!(key_name("\u{F730}"), None);
}

#[test]
fn shortcut_joins_modifiers_in_order() {
    assert_eq!(shortcut_value(true, true, false, true, "z"), "ctrl+shift+meta+z");
    assert_eq!(shortcut_value(false, false, false, false, "f5"), "f5");
    let value = shortcut_value(false, true, true, false, "a");
    assert_eq!(value, "shift+alt+a");
    assert_eq!(
        Keymap::parse(&value),
        Ok(Keymap::Press(vec![Key::Keyboard(0xa0), Key::Keyboard(0xa4), Key::Keyboard(0x41)]))
    );
}

#[test]
fn join_of_slices() {
    assert_eq!(join_strs(&Vec::new(), "+"), "");
    assert_eq!(join_strs(&vec!["a"], "+"), "a");
    assert_eq!(join_strs(&vec!["a", "b", "c"], ", "), "a, b, c");
}

#[test]
fn pages_and_tray() {
    let labels: Vec<&str> = Page::all().iter().map(|page| page.label()).collect();
    assert_eq!(labels, vec!["按键映射", "映射区域", "压感曲线", "原始数据", "日志"]);
    assert_ne!(TrayCommand::Show, TrayCommand::Quit);
}

#[test]
fn editing_rows_from_config() {
    let empty = Config { keymaps: Vec::new(), keymap_index: 0 };
    let rows = editing_from_config(&empty);
    assert_eq!(rows.len(), 1);
    assert!(rows[0].iter().all(|value| value == "none"));
    assert_eq!(rows[0].len(), 13);

    let mut first = KeymapConfig::default();
    first.set(Control::Button2, Keymap::parse("alt+tab").unwrap());
    let config = Config { keymaps: vec![first], keymap_index: 0 };
    let rows = editing_from_config(&config);
    assert_eq!(rows.len(), 1);
    assert_eq!(rows[0][2], "alt+tab");
    assert_eq!(rows[0][0], "fallback");
    assert_eq!(Config::from_values(&rows, 0), Ok(config));
}

#[test]
fn entries_of_missing_schema_are_none() {
    let config = Config::default();
    assert!(entry_values(&config, 4).iter().all(|value| value == "none"));
    let values = entry_values(&config, 0);
    assert_eq!(values.len(), 13);
}

#[test]
fn schema_selection() {
    assert_eq!(selected_schema(-1, 3), None);
    assert_eq!(selected_schema(2, 3), Some(2));
    assert_eq!(selected_schema(3, 3), None);
}

#[test]
fn recorded_special_key_shortcut_parses() {
    let name = key_name("\u{F700}").unwrap();
    let value = shortcut_value(true, false, false, false, name);
    assert_eq!(value, "ctrl+up");
    assert_eq!(
        Keymap::parse(&value),
        Ok(Keymap::Press(vec![Key::Keyboard(0xa2), Key::Keyboard(0x26)]))
    );
    let value = shortcut_value(true, true, true, true, key_name("=").unwrap());
    assert_eq!(
        Keymap::parse(&value),
        Ok(Keymap::Press(vec![
            Key::Keyboard(0xa2),
            Key::Keyboard(0xa0),
            Key::Keyboard(0xa4),
            Key::Keyboard(0x5b),
            Key::Keyboard(0xbb),
        ]))
    );
}
