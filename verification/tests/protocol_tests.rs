use parblo::protocol::{
    Button, HandshakeTarget, InputEvent, PenEvent, handshake_messages, handshake_target,
    parse_button, parse_input,
};

#[test]
fn parse_buttons() {
    let cases = [
        ([0x02, 0xf0, 0x00, 0x00], Button::Release),
        ([0x02, 0xf0, 0x01, 0x00], Button::Button0),
        ([0x02, 0xf0, 0x02, 0x00], Button::Button1),
        ([0x02, 0xf0, 0x04, 0x00], Button::Button2),
        ([0x02, 0xf0, 0x08, 0x00], Button::Button3),
        ([0x02, 0xf0, 0x10, 0x00], Button::Button4),
        ([0x02, 0xf0, 0x20, 0x00], Button::Button5),
        ([0x02, 0xf0, 0x40, 0x00], Button::Button6),
        ([0x02, 0xf0, 0x80, 0x00], Button::Button7),
        ([0x02, 0xf0, 0x08, 0x01], Button::Ring1),
        ([0x02, 0xf0, 0x08, 0x02], Button::Ring0),
        ([0x02, 0xf0, 0x08, 0x03], Button::RingButton),
    ];
    for (head, expected) in cases {
        let mut buf = [0u8; 10];
        buf[..4].copy_from_slice(&head);
        assert_eq!(parse_input(&buf), Some(InputEvent::Button(expected)));
    }
}

#[test]
fn parse_pen() {
    let buf = [0x02, 0xa0, 0x5b, 0x03, 0x30, 0x03, 0x00, 0x00, 0x03, 0xfc];
    let event = parse_input(&buf).unwrap();
    assert_eq!(
        event,
        InputEvent::Pen(PenEvent {
            in_area: true,
            tip_pressed: false,
            button0_pressed: false,
            button1_pressed: false,
            x: 859,
            y: 816,
            pressure: 0,
            tilt_x: 3,
            tilt_y: -4,
        })
    );
}

#[test]
fn parse_pen_status_bits() {
    let mut buf = [0x02, 0xa1, 0, 0, 0, 0, 0, 0, 0, 0];
    let InputEvent::Pen(pen) = parse_input(&buf).unwrap() else {
        panic!("应当解析成笔事件");
    };
    assert!(pen.tip_pressed && !pen.button0_pressed && !pen.button1_pressed);

    buf[1] = 0xa2;
    let InputEvent::Pen(pen) = parse_input(&buf).unwrap() else {
        panic!("应当解析成笔事件");
    };
    assert!(!pen.tip_pressed && pen.button0_pressed && !pen.button1_pressed);

    buf[1] = 0xa4;
    let InputEvent::Pen(pen) = parse_input(&buf).unwrap() else {
        panic!("应当解析成笔事件");
    };
    assert!(!pen.tip_pressed && !pen.button0_pressed && pen.button1_pressed);

    buf[1] = 0xc0;
    let InputEvent::Pen(pen) = parse_input(&buf).unwrap() else {
        panic!("应当解析成笔事件");
    };
    assert!(!pen.in_area);
}

#[test]
fn reject_invalid() {
    assert_eq!(parse_input(&[]), None);
    assert_eq!(parse_input(&[0x02, 0xa0]), None);
    assert_eq!(parse_input(&[0xfc, 0xa0, 0, 0, 0, 0, 0, 0, 0, 0]), None);
    assert_eq!(parse_input(&[0x02, 0x10, 0, 0, 0, 0, 0, 0, 0, 0]), None);
    assert_eq!(parse_input(&[0x02, 0xf0, 0x00, 0x09, 0, 0, 0, 0, 0, 0]), None);
}

#[test]
fn pen_pressure_and_negative_tilt() {
    let buf = [0x02, 0xa1, 0x10, 0x27, 0x20, 0x4e, 0xff, 0x1f, 0x80, 0x7f];
    assert_eq!(
        parse_input(&buf),
        Some(InputEvent::Pen(PenEvent {
            in_area: true,
            tip_pressed: true,
            button0_pressed: false,
            button1_pressed: false,
            x: 10000,
            y: 20000,
            pressure: 8191,
            tilt_x: -128,
            tilt_y: 127,
        }))
    );
}

#[test]
fn button_codes() {
    assert_eq!(parse_button(0x0000), Some(Button::Release));
    assert_eq!(parse_button(0x8000), Some(Button::Button7));
    assert_eq!(parse_button(0x0801), Some(Button::Ring1));
    assert_eq!(parse_button(0x0803), Some(Button::RingButton));
    assert_eq!(parse_button(0x0003), None);
    assert_eq!(parse_button(0x0900), None);
}

#[test]
fn handshake_goes_to_both_collections() {
    let messages = handshake_messages();
    assert_eq!(messages.len(), 4);
    assert_eq!(messages[0].len(), 16);
    assert_eq!(messages[3], vec![0x02, 0xb0, 0x04, 0x00, 0x00, 0x00, 0x00, 0x00]);
    for message in &messages[..3] {
        assert_eq!(handshake_target(message), HandshakeTarget::Handshake);
    }
    assert_eq!(handshake_target(&messages[3]), HandshakeTarget::Event);
}
