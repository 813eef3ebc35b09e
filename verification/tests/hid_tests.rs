use parblo::hid::{
    HidInterface, PenRanges, ValueCap, find_interface, padded_report, pen_ranges_from_caps,
};
use parblo::keys::Key;

fn cap(usage_page: u16, usage: u16, logical_max: i32) -> ValueCap {
    ValueCap { usage_page, usage, logical_max }
}

#[test]
fn pen_ranges_from_value_caps() {
    let caps = [cap(0x01, 0x30, 30000), cap(0x01, 0x31, 17000), cap(0x0d, 0x30, 8191)];
    assert_eq!(
        pen_ranges_from_caps(0x0d, 0x02, &caps),
        Some(PenRanges { x_max: 30000, y_max: 17000, pressure_max: 8191 })
    );
    assert_eq!(pen_ranges_from_caps(0x0d, 0x01, &caps), None);
    assert_eq!(pen_ranges_from_caps(0x01, 0x02, &caps), None);
    assert_eq!(pen_ranges_from_caps(0x0d, 0x02, &caps[..2]), None);
}

#[test]
fn later_caps_win() {
    let caps = [
        cap(0x01, 0x30, 100),
        cap(0x01, 0x31, 200),
        cap(0x0d, 0x30, 300),
        cap(0x01, 0x30, 400),
    ];
    assert_eq!(
        pen_ranges_from_caps(0x0d, 0x02, &caps),
        Some(PenRanges { x_max: 400, y_max: 200, pressure_max: 300 })
    );
}

#[test]
fn default_ranges() {
    assert_eq!(PenRanges::default(), PenRanges { x_max: 28800, y_max: 16200, pressure_max: 8191 });
}

#[test]
fn first_interface_with_usage_page() {
    let interfaces = vec![
        HidInterface { path: vec![1], usage_page: 0xff00, input_len: 0, output_len: 0 },
        HidInterface { path: vec![2], usage_page: 0xff0a, input_len: 10, output_len: 0 },
        HidInterface { path: vec![3], usage_page: 0xff0a, input_len: 10, output_len: 0 },
    ];
    assert_eq!(find_interface(&interfaces, 0xff0a), Some(1));
    assert_eq!(find_interface(&interfaces, 0xff0c), None);
}

#[test]
fn key_names_and_codes() {
    assert_eq!(Key::parse("numdot"), Some(Key::Keyboard(0x6e)));
    assert_eq!(Key::parse("mouseMiddle"), Some(Key::MouseMiddle));
    assert_eq!(Key::parse("Ctrl"), None);
    assert_eq!(Key::Keyboard(0x6e).name(), "numdot");
    assert_eq!(Key::Keyboard(0xff).name(), "none");
    assert_eq!(Key::MouseLeft.name(), "mouseLeft");
    assert_eq!(Key::config_name('q'), Some("q"));
    assert_eq!(Key::config_name('Q'), None);
    assert_eq!(Key::config_name('\\'), Some("\\"));
}

#[test]
fn reports_are_padded_with_zeros() {
    assert_eq!(padded_report(&[0xfd, 0x89], 5), Some(vec![0xfd, 0x89, 0, 0, 0]));
    assert_eq!(padded_report(&[1, 2, 3], 3), Some(vec![1, 2, 3]));
    assert_eq!(padded_report(&[], 2), Some(vec![0, 0]));
    assert_eq!(padded_report(&[1, 2, 3], 2), None);
}
