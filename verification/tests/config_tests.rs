use parblo::config::{
    AreaAnchor, Config, ConfigError, Control, Keymap, KeymapConfig, KeymapError, StandaloneWord,
};
use parblo::keys::Key;

fn values_of(texts: &[&str]) -> Vec<String> {
    texts.iter().map(|t| t.to_string()).collect()
}

#[test]
fn parse_and_format_roundtrip() {
    for value in ["none", "switchSchema", "fallback", "ctrl+shift+z", "mouseRight"] {
        let keymap = Keymap::parse(value).unwrap();
        assert_eq!(keymap.to_config_value(), value);
    }
}

#[test]
fn reject_invalid_combination() {
    assert!(Keymap::parse("ctrl+switchSchema").is_err());
    assert!(Keymap::parse("nosuchkey").is_err());
}

#[test]
fn fallback_resolves_to_previous_schema() {
    let mut first = KeymapConfig::default();
    first.set(Control::Button0, Keymap::parse("a").unwrap());
    let second = KeymapConfig::default();
    let config = Config {
        keymaps: vec![first, second],
        ..Default::default()
    };
    assert_eq!(config.resolve(1, Control::Button0).to_config_value(), "a");
    assert_eq!(config.resolve(1, Control::Button1), Keymap::Disabled);
}

#[test]
fn parse_trims_and_drops_repeated_parts() {
    let keymap = Keymap::parse(" ctrl + z +ctrl").unwrap();
    assert_eq!(keymap, Keymap::Press(vec![Key::Keyboard(0xa2), Key::Keyboard(0x5a)]));
    assert_eq!(keymap.to_config_value(), "ctrl+z");
}

#[test]
fn parse_errors_name_the_cause() {
    assert_eq!(
        Keymap::parse("ctrl+switchSchema"),
        Err(KeymapError::NotCombinable(StandaloneWord::SwitchSchema))
    );
    assert_eq!(
        Keymap::parse("fallback+a"),
        Err(KeymapError::NotCombinable(StandaloneWord::Fallback))
    );
    assert_eq!(
        Keymap::parse("none+a"),
        Err(KeymapError::NotCombinable(StandaloneWord::Disabled))
    );
    assert_eq!(
        Keymap::parse("a+nosuchkey+b"),
        Err(KeymapError::UnknownKey("nosuchkey".to_string()))
    );
    assert_eq!(Keymap::parse(""), Err(KeymapError::UnknownKey(String::new())));
}

#[test]
fn repeated_standalone_word_stands_alone() {
    assert_eq!(Keymap::parse("fallback+fallback"), Ok(Keymap::Fallback));
    assert_eq!(Keymap::parse(" none "), Ok(Keymap::Disabled));
}

#[test]
fn every_mouse_key_round_trips() {
    for value in ["mouseLeft", "mouseMiddle", "mouseRight", "ctrl+mouseLeft", "f12+numdot+meta"] {
        let keymap = Keymap::parse(value).unwrap();
        assert_eq!(Keymap::parse(&keymap.to_config_value()), Ok(keymap));
    }
}

#[test]
fn resolve_in_first_schema_treats_fallback_as_disabled() {
    let config = Config {
        keymaps: vec![KeymapConfig::default()],
        keymap_index: 0,
    };
    assert_eq!(config.keymaps[0].get(Control::Ring0), &Keymap::Fallback);
    assert_eq!(config.resolve(0, Control::Ring0), Keymap::Disabled);
}

#[test]
fn resolve_skips_several_fallbacks() {
    let mut first = KeymapConfig::default();
    first.set(Control::Ring1, Keymap::parse("switchSchema").unwrap());
    let config = Config {
        keymaps: vec![first, KeymapConfig::default(), KeymapConfig::default()],
        keymap_index: 2,
    };
    assert_eq!(config.resolve(2, Control::Ring1), Keymap::SwitchSchema);
    assert_eq!(config.resolve(7, Control::Ring1), Keymap::SwitchSchema);
}

#[test]
fn config_values_round_trip() {
    let rows = vec![
        values_of(&[
            "a", "b", "ctrl+c", "none", "fallback", "switchSchema", "mouseLeft", "shift", "up",
            "down", "space", "f1", "esc",
        ]),
        values_of(&["fallback"; 13]),
    ];
    let config = Config::from_values(&rows, 1).unwrap();
    assert_eq!(config.keymaps.len(), 2);
    assert_eq!(config.keymap_index, 1);
    assert_eq!(config.to_values(), rows);
}

#[test]
fn config_from_values_reports_schema_and_control() {
    let mut bad = values_of(&["none"; 13]);
    bad[4] = "ctrl+nosuchkey".to_string();
    let rows = vec![values_of(&["none"; 13]), bad];
    assert_eq!(
        Config::from_values(&rows, 0),
        Err(ConfigError {
            schema: 1,
            control: Control::Button4,
            error: KeymapError::UnknownKey("nosuchkey".to_string()),
        })
    );
}

#[test]
fn config_without_schemas_gets_a_disabled_one() {
    let config = Config::from_values(&Vec::new(), 3).unwrap();
    assert_eq!(config.keymaps.len(), 1);
    assert_eq!(config.keymaps[0], KeymapConfig::none());
}

#[test]
fn schema_insert_and_remove() {
    let mut config = Config::default();
    assert_eq!(config.insert_schema(0), 1);
    assert_eq!(config.insert_schema(0), 1);
    assert_eq!(config.keymaps.len(), 3);
    assert_eq!(config.insert_schema(9), 3);
    assert_eq!(config.remove_schema(3), Some(2));
    assert_eq!(config.remove_schema(0), Some(0));
    assert_eq!(config.remove_schema(5), Some(0));
    assert_eq!(config.keymaps.len(), 1);
    assert_eq!(config.remove_schema(0), None);
    assert_eq!(config.keymaps.len(), 1);
}

#[test]
fn set_entry_parses_or_disables() {
    let mut config = Config::default();
    assert!(config.set_entry(0, Control::StylusButton0, "mouseRight"));
    assert_eq!(config.keymaps[0].get(Control::StylusButton0), &Keymap::Press(vec![Key::MouseRight]));
    assert!(config.set_entry(0, Control::StylusButton1, "bogus"));
    assert_eq!(config.keymaps[0].get(Control::StylusButton1), &Keymap::Disabled);
    assert!(!config.set_entry(1, Control::Button0, "a"));
}

#[test]
fn clamped_index_stays_in_range() {
    let mut config = Config::default();
    config.keymap_index = 5;
    assert_eq!(config.clamped_index(), 0);
    config.keymaps.push(KeymapConfig::default());
    config.keymap_index = 1;
    assert_eq!(config.clamped_index(), 1);
}

#[test]
fn controls_in_order_with_labels() {
    let all = Control::all();
    assert_eq!(all.len(), 13);
    for (i, control) in all.iter().enumerate() {
        assert_eq!(control.index(), i);
        assert_eq!(Control::from_index(i), Some(*control));
    }
    assert_eq!(Control::from_index(13), None);
    assert_eq!(Control::Button0.label(), "按键0");
    assert_eq!(Control::Ring0.label(), "转环逆时针");
    assert_eq!(Control::StylusButton1.label(), "笔上侧键");
}

#[test]
fn schema_values_round_trip() {
    let mut keymap = KeymapConfig::none();
    keymap.set(Control::RingButton, Keymap::parse("ctrl+alt+delete").unwrap());
    let values = keymap.to_values();
    assert_eq!(values[10], "ctrl+alt+delete");
    assert_eq!(values[0], "none");
    assert_eq!(KeymapConfig::from_values(&values), Ok(keymap));
}

#[test]
fn anchor_values_round_trip() {
    for anchor in AreaAnchor::all() {
        assert_eq!(AreaAnchor::parse(anchor.to_config_value()), anchor);
    }
    assert_eq!(AreaAnchor::parse("middle"), AreaAnchor::TopLeft);
    assert_eq!(AreaAnchor::default(), AreaAnchor::TopLeft);
    assert!(AreaAnchor::BottomRight.is_right() && AreaAnchor::BottomRight.is_bottom());
    assert!(!AreaAnchor::TopRight.is_bottom() && AreaAnchor::TopRight.is_right());
    assert_eq!(AreaAnchor::BottomLeft.label(), "对齐左下角");
}

#[test]
fn anchor_selected_by_place() {
    assert_eq!(AreaAnchor::selected(-3), AreaAnchor::TopLeft);
    assert_eq!(AreaAnchor::selected(2), AreaAnchor::BottomLeft);
    assert_eq!(AreaAnchor::selected(3), AreaAnchor::BottomRight);
    assert_eq!(AreaAnchor::selected(4), AreaAnchor::TopLeft);
}

#[test]
fn set_changes_only_its_control() {
    let mut schema = KeymapConfig::none();
    let before = schema.clone();
    let keymap = Keymap::parse("ctrl+c").unwrap();
    schema.set(Control::Ring1, keymap.clone());
    assert_eq!(schema.get(Control::Ring1), &keymap);
    for control in Control::all() {
        if control != Control::Ring1 {
            assert_eq!(schema.get(control), before.get(control));
        }
    }
    assert_eq!(schema.to_values().len(), 13);
}

#[test]
fn saved_values_load_back() {
    let mut first = KeymapConfig::none();
    first.set(Control::Button5, Keymap::parse("shift+f4").unwrap());
    let config = Config { keymaps: vec![first, KeymapConfig::default()], keymap_index: 1 };
    let rows = config.to_values();
    assert!(rows.iter().all(|row| row.len() == 13));
    assert_eq!(Config::from_values(&rows, config.keymap_index), Ok(config));
}
