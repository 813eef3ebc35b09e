use parblo::area;
use parblo::log::{LogBuffer, MAX_ENTRIES, clear, entries};
use parblo::protocol::{Button, PenEvent};
use parblo::shared::{MAX_RECENT_BUTTONS, Monitor, Observed, Status};

fn pen_at(in_area: bool, x: u16, y: u16) -> PenEvent {
    PenEvent {
        in_area,
        tip_pressed: false,
        button0_pressed: false,
        button1_pressed: false,
        x,
        y,
        pressure: 0,
        tilt_x: 0,
        tilt_y: 0,
    }
}

#[test]
fn observed_keeps_extremes() {
    let mut observed = Observed::default();
    assert!(observed.is_empty());
    observed.record(100, 50);
    observed.record(20, 300);
    observed.record(60, 60);
    assert!(!observed.is_empty());
    assert_eq!(observed, Observed { min_x: 20, max_x: 100, min_y: 50, max_y: 300 });
}

#[test]
fn area_measurement_counts_samples() {
    let mut observed = area::Observed::default();
    assert!(observed.is_empty());
    observed.record(5, 9);
    observed.record(3, 12);
    assert!(!observed.is_empty());
    assert_eq!(observed.samples, 2);
    assert_eq!((observed.min_x, observed.max_x, observed.min_y, observed.max_y), (3, 5, 9, 12));
}

#[test]
fn monitor_measures_only_in_range() {
    let mut monitor = Monitor::default();
    monitor.record_pen(pen_at(false, 1, 1));
    assert!(monitor.observed.is_empty());
    assert_eq!(monitor.pen, Some(pen_at(false, 1, 1)));
    monitor.record_pen(pen_at(true, 40, 30));
    assert_eq!(monitor.observed, Observed { min_x: 40, max_x: 40, min_y: 30, max_y: 30 });
    monitor.clear_observed();
    assert!(monitor.observed.is_empty());
    assert_eq!(monitor.pen, Some(pen_at(true, 40, 30)));
}

#[test]
fn recent_buttons_keep_last_five_presses() {
    let mut monitor = Monitor::default();
    let order = [
        Button::Button0,
        Button::Release,
        Button::Button1,
        Button::Button2,
        Button::Button3,
        Button::Button4,
        Button::Release,
        Button::Button5,
    ];
    for button in order {
        monitor.record_button(button);
    }
    assert_eq!(monitor.recent_buttons.len(), MAX_RECENT_BUTTONS);
    let kept: Vec<Button> = monitor.recent_buttons.iter().copied().collect();
    assert_eq!(
        kept,
        vec![Button::Button1, Button::Button2, Button::Button3, Button::Button4, Button::Button5]
    );
}

#[test]
fn status_starts_disconnected() {
    assert_eq!(Status::default(), Status { connected: false, ranges: None });
}

#[test]
fn log_keeps_latest_entries() {
    let mut log = LogBuffer::new();
    for i in 0..(MAX_ENTRIES + 3) {
        log.push("INFO", format!("line {}", i));
    }
    let lines = entries(&log);
    assert_eq!(lines.len(), MAX_ENTRIES);
    assert_eq!(lines[0].text, "line 3");
    assert_eq!(lines[MAX_ENTRIES - 1].text, format!("line {}", MAX_ENTRIES + 2));
    assert_eq!(lines[0].level, "INFO");
    clear(&mut log);
    assert!(entries(&log).is_empty());
}
