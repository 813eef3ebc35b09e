//! The vendor protocol of the tablet.
//!
//! The device offers several HID top-level collections; two of them belong to
//! the vendor: usage page `0xff0a` reports input events and usage page
//! `0xff0c` takes the handshake. Before events arrive, the four handshake
//! messages are written in order, the first three to `0xff0c` and the last to
//! `0xff0a`, each followed by one read whose content does not matter.
//!
//! An input report is at least ten bytes and starts with `REPORT_ID_EVENT`:
//!
//! ```text
//! offset  size  meaning
//!  0       1    report id, always 0x02
//!  1       1    status byte, see below
//!  2       2    X, little endian (a key code in key events)
//!  4       2    Y, little endian
//!  6       2    pressure, little endian
//!  8       1    tilt along X, i8, in degrees
//!  9       1    tilt along Y, i8, in degrees
//! ```
//!
//! The high four bits of the status byte give the kind of report: `0xf0` a
//! key event, whose code is bytes 2 and 3 in **big** endian order (0 when the
//! key is let go; one key at a time); `0xa0` the pen within range, with the
//! tip in bit 0, the lower side button in bit 1 and the upper one in bit 2;
//! `0xc0` the pen out of range, with coordinates and pressure meaningless.

use vstd::prelude::*;

verus! {

pub const VENDOR_ID: u16 = 0x0483;

pub const PRODUCT_ID: u16 = 0xa013;

pub const USAGE_PAGE_EVENT: u16 = 0xff0a;

pub const USAGE_PAGE_HANDSHAKE: u16 = 0xff0c;

pub const REPORT_ID_EVENT: u8 = 0x02;

/// The bytes of the handshake messages, in the order they are sent.
pub open spec fn handshake_spec() -> Seq<Seq<u8>> {
    seq![
        seq![0xfdu8, 0x89, 0xff, 0xff, 0x00, 0x00, 0x00, 0x06, 0x00, 0x00, 0x03, 0x01, 0x01, 0x01, 0x91, 0x20],
        seq![0xfdu8, 0x89, 0xff, 0xff, 0x00, 0x01, 0x00, 0x06, 0x00, 0x00, 0x01, 0x01, 0x02, 0x02, 0xfd, 0x58],
        seq![0xfdu8, 0x89, 0xff, 0xff, 0x00, 0x02, 0x00, 0x06, 0x00, 0x00, 0x01, 0x01, 0x02, 0x04, 0x4e, 0x69],
        seq![0x02u8, 0xb0, 0x04, 0x00, 0x00, 0x00, 0x00, 0x00],
    ]
}

/// The handshake messages; the first three go to the handshake collection,
/// the last to the event collection.
pub fn handshake_messages() -> (r: Vec<Vec<u8>>)
    ensures
        r@.map_values(|m: Vec<u8>| m@) == handshake_spec(),
{
    let r = vec![
        vec![0xfdu8, 0x89, 0xff, 0xff, 0x00, 0x00, 0x00, 0x06, 0x00, 0x00, 0x03, 0x01, 0x01, 0x01, 0x91, 0x20],
        vec![0xfdu8, 0x89, 0xff, 0xff, 0x00, 0x01, 0x00, 0x06, 0x00, 0x00, 0x01, 0x01, 0x02, 0x02, 0xfd, 0x58],
        vec![0xfdu8, 0x89, 0xff, 0xff, 0x00, 0x02, 0x00, 0x06, 0x00, 0x00, 0x01, 0x01, 0x02, 0x04, 0x4e, 0x69],
        vec![0x02u8, 0xb0, 0x04, 0x00, 0x00, 0x00, 0x00, 0x00],
    ];
    assert(r@.map_values(|m: Vec<u8>| m@) =~= handshake_spec());
    r
}

/// Which collection a handshake message goes to.
#[derive(Clone, Copy, Debug, PartialEq, Eq, Structural)]
pub enum HandshakeTarget {
    Handshake,
    Event,
}

/// Messages that start with `0xfd` go to the handshake collection, the rest
/// to the event collection.
pub fn handshake_target(message: &[u8]) -> (r: HandshakeTarget)
    requires
        message@.len() > 0,
    ensures
        r == if message@[0] == 0xfd {
            HandshakeTarget::Handshake
        } else {
            HandshakeTarget::Event
        },
{
    if message[0] == 0xfd {
        HandshakeTarget::Handshake
    } else {
        HandshakeTarget::Event
    }
}

/// The first three handshake messages go to the handshake collection, the
/// last to the event collection.
pub proof fn lemma_handshake_targets()
    ensures
        handshake_spec().len() == 4,
        forall|i: int| 0 <= i < 3 ==> (#[trigger] handshake_spec()[i])[0] == 0xfd,
        handshake_spec()[3][0] != 0xfd,
{
}

#[derive(Clone, Copy, Debug, PartialEq, Eq, Structural)]
pub enum InputEvent {
    Button(Button),
    Pen(PenEvent),
}

#[derive(Clone, Copy, Debug, PartialEq, Eq, Structural)]
pub enum Button {
    Release,
    Button0,
    Button1,
    Button2,
    Button3,
    Button4,
    Button5,
    Button6,
    Button7,
    Ring0,
    Ring1,
    RingButton,
}

#[derive(Clone, Copy, Debug, PartialEq, Eq, Structural)]
pub struct PenEvent {
    pub in_area: bool,
    pub tip_pressed: bool,
    pub button0_pressed: bool,
    pub button1_pressed: bool,
    pub x: u16,
    pub y: u16,
    pub pressure: u16,
    pub tilt_x: i8,
    pub tilt_y: i8,
}

/// The button that a key code reports.
pub open spec fn button_spec(code: u16) -> Option<Button> {
    if code == 0x0000 {
        Some(Button::Release)
    } else if code == 0x0100 {
        Some(Button::Button0)
    } else if code == 0x0200 {
        Some(Button::Button1)
    } else if code == 0x0400 {
        Some(Button::Button2)
    } else if code == 0x0800 {
        Some(Button::Button3)
    } else if code == 0x0801 {
        Some(Button::Ring1)
    } else if code == 0x0802 {
        Some(Button::Ring0)
    } else if code == 0x0803 {
        Some(Button::RingButton)
    } else if code == 0x1000 {
        Some(Button::Button4)
    } else if code == 0x2000 {
        Some(Button::Button5)
    } else if code == 0x4000 {
        Some(Button::Button6)
    } else if code == 0x8000 {
        Some(Button::Button7)
    } else {
        None
    }
}

/// A byte read as a two's complement signed number.
pub open spec fn signed_byte(b: u8) -> int {
    if b < 128 {
        b as int
    } else {
        b - 256
    }
}

/// The pen event in a report, given whether the pen is in range.
pub open spec fn pen_event_spec(buf: Seq<u8>, in_area: bool) -> PenEvent {
    PenEvent {
        in_area,
        tip_pressed: buf[1] % 2 == 1,
        button0_pressed: (buf[1] / 2) % 2 == 1,
        button1_pressed: (buf[1] / 4) % 2 == 1,
        x: (buf[2] + 256 * buf[3]) as u16,
        y: (buf[4] + 256 * buf[5]) as u16,
        pressure: (buf[6] + 256 * buf[7]) as u16,
        tilt_x: signed_byte(buf[8]) as i8,
        tilt_y: signed_byte(buf[9]) as i8,
    }
}

/// What a report from the event collection means: nothing for a short report
/// or another report id, a button for a key event, a pen event for the pen
/// in or out of range, nothing for any other status.
pub open spec fn parse_input_spec(buf: Seq<u8>) -> Option<InputEvent> {
    if buf.len() < 10 || buf[0] != REPORT_ID_EVENT {
        None
    } else if buf[1] / 16 == 0xf {
        match button_spec((256 * buf[2] + buf[3]) as u16) {
            Some(b) => Some(InputEvent::Button(b)),
            None => None,
        }
    } else if buf[1] / 16 == 0xa {
        Some(InputEvent::Pen(pen_event_spec(buf, true)))
    } else if buf[1] / 16 == 0xc {
        Some(InputEvent::Pen(pen_event_spec(buf, false)))
    } else {
        None
    }
}

/// Reads an input report of the event collection; `None` where it is not one
/// that the driver knows.
pub fn parse_input(buf: &[u8]) -> (r: Option<InputEvent>)
    ensures
        r == parse_input_spec(buf@),
{
    if buf.len() < 10 || buf[0] != REPORT_ID_EVENT {
        return None;
    }
    let status = buf[1];
    let high = status & 0xf0;
    assert(high == (status / 16) * 16 && high / 16 == status / 16) by (bit_vector)
        requires
            high == status & 0xf0,
    ;
    if high == 0xf0 {
        let hi = buf[2];
        let lo = buf[3];
        let code = ((hi as u16) << 8) | (lo as u16);
        assert(code == 256 * hi + lo) by (bit_vector)
            requires
                code == ((hi as u16) << 8) | (lo as u16),
        ;
        return match parse_button(code) {
            Some(b) => Some(InputEvent::Button(b)),
            None => None,
        };
    }
    let in_area = if high == 0xa0 {
        true
    } else if high == 0xc0 {
        false
    } else {
        return None;
    };
    let tip = status & 1 != 0;
    let b0 = status & 2 != 0;
    let b1 = status & 4 != 0;
    assert(tip == (status % 2 == 1) && b0 == ((status / 2) % 2 == 1) && b1 == ((status / 4) % 2
        == 1)) by (bit_vector)
        requires
            tip == (status & 1 != 0),
            b0 == (status & 2 != 0),
            b1 == (status & 4 != 0),
    ;
    Some(
        InputEvent::Pen(
            PenEvent {
                in_area,
                tip_pressed: tip,
                button0_pressed: b0,
                button1_pressed: b1,
                x: le_u16(buf[2], buf[3]),
                y: le_u16(buf[4], buf[5]),
                pressure: le_u16(buf[6], buf[7]),
                tilt_x: signed(buf[8]),
                tilt_y: signed(buf[9]),
            },
        ),
    )
}

/// Two bytes, low one first, as a number.
fn le_u16(lo: u8, hi: u8) -> (r: u16)
    ensures
        r == lo + 256 * hi,
{
    let r = (lo as u16) | ((hi as u16) << 8);
    assert(r == lo + 256 * hi) by (bit_vector)
        requires
            r == (lo as u16) | ((hi as u16) << 8),
    ;
    r
}

/// A byte as a two's complement signed number.
fn signed(b: u8) -> (r: i8)
    ensures
        r == signed_byte(b),
{
    if b < 128 {
        b as i8
    } else {
        (b as i16 - 256) as i8
    }
}

/// The button that a key code reports; `None` for a code the device does not send.
pub fn parse_button(code: u16) -> (r: Option<Button>)
    ensures
        r == button_spec(code),
{
    match code {
        0x0000 => Some(Button::Release),
        0x0100 => Some(Button::Button0),
        0x0200 => Some(Button::Button1),
        0x0400 => Some(Button::Button2),
        0x0800 => Some(Button::Button3),
        0x0801 => Some(Button::Ring1),
        0x0802 => Some(Button::Ring0),
        0x0803 => Some(Button::RingButton),
        0x1000 => Some(Button::Button4),
        0x2000 => Some(Button::Button5),
        0x4000 => Some(Button::Button6),
        0x8000 => Some(Button::Button7),
        _ => None,
    }
}

/// Every button is reported under exactly one code.
pub proof fn lemma_button_codes_distinct(c1: u16, c2: u16)
    requires
        button_spec(c1) is Some,
        button_spec(c1) == button_spec(c2),
    ensures
        c1 == c2,
{
}

/// Only reports of at least ten bytes that start with the event report id mean anything.
pub proof fn lemma_parse_input_needs_header(buf: Seq<u8>)
    requires
        parse_input_spec(buf) is Some,
    ensures
        buf.len() >= 10,
        buf[0] == REPORT_ID_EVENT,
{
}

/// The bits of a status byte and the bytes of a little-endian field, read
/// with bit operations.
proof fn lemma_status_bits(status: u8, lo: u8, hi: u8)
    ensures
        (status & 0xf0 == 0xa0) == (status / 16 == 0xa),
        (status & 0xf0 == 0xc0) == (status / 16 == 0xc),
        (status & 1 == 1) == (status % 2 == 1),
        (status & 2 == 2) == ((status / 2) % 2 == 1),
        (status & 4 == 4) == ((status / 4) % 2 == 1),
        ((lo as u16) | ((hi as u16) << 8)) == (lo + 256 * hi) as u16,
{
    assert((status & 0xf0 == 0xa0) == (status / 16 == 0xa)) by (bit_vector);
    assert((status & 0xf0 == 0xc0) == (status / 16 == 0xc)) by (bit_vector);
    assert((status & 1 == 1) == (status % 2 == 1)) by (bit_vector);
    assert((status & 2 == 2) == ((status / 2) % 2 == 1)) by (bit_vector);
    assert((status & 4 == 4) == ((status / 4) % 2 == 1)) by (bit_vector);
    assert(((lo as u16) | ((hi as u16) << 8)) == (lo + 256 * hi) as u16) by (bit_vector);
}

/// A tilt byte read as a signed number keeps its bits.
proof fn lemma_tilt_bits(b: u8)
    ensures
        (signed_byte(b) as i8) as u8 == b,
        -128 <= signed_byte(b) < 128,
        (b < 128) == (signed_byte(b) >= 0),
{
    if b < 128 {
        assert(((b as int) as i8) as u8 == b) by (bit_vector)
            requires
                b < 128,
        ;
    } else {
        assert(((b - 256) as i8) as u8 == b) by (bit_vector)
            requires
                b >= 128,
        ;
    }
}

/// A pen report, whatever else its status byte holds, gives a pen event whose
/// every field is read from its own bits: the high nibble says whether the pen
/// is in range (0xa) or not (0xc); bit 0 of the status is the tip, bit 1 the
/// lower side button and bit 2 the upper one; X, Y and pressure are
/// little-endian pairs of bytes 2-3, 4-5 and 6-7; the tilts are bytes 8 and 9
/// as two's complement numbers.
pub proof fn lemma_pen_report_fields(buf: Seq<u8>)
    requires
        buf.len() >= 10,
        buf[0] == REPORT_ID_EVENT,
        buf[1] & 0xf0 == 0xa0 || buf[1] & 0xf0 == 0xc0,
    ensures
        parse_input_spec(buf) matches Some(InputEvent::Pen(p)) && {
            &&& p.in_area == (buf[1] & 0xf0 == 0xa0)
            &&& p.tip_pressed == (buf[1] & 1 == 1)
            &&& p.button0_pressed == (buf[1] & 2 == 2)
            &&& p.button1_pressed == (buf[1] & 4 == 4)
            &&& p.x == ((buf[2] as u16) | ((buf[3] as u16) << 8))
            &&& p.y == ((buf[4] as u16) | ((buf[5] as u16) << 8))
            &&& p.pressure == ((buf[6] as u16) | ((buf[7] as u16) << 8))
            &&& p.tilt_x as u8 == buf[8]
            &&& p.tilt_y as u8 == buf[9]
            &&& (p.tilt_x >= 0) == (buf[8] < 128)
            &&& (p.tilt_y >= 0) == (buf[9] < 128)
        },
{
    lemma_status_bits(buf[1], buf[2], buf[3]);
    lemma_status_bits(buf[1], buf[4], buf[5]);
    lemma_status_bits(buf[1], buf[6], buf[7]);
    lemma_tilt_bits(buf[8]);
    lemma_tilt_bits(buf[9]);
}

/// Only reports whose status nibble is 0xf, 0xa or 0xc mean anything; 0xf
/// ones are buttons and the others pen events.
pub proof fn lemma_report_kinds(buf: Seq<u8>)
    requires
        buf.len() >= 10,
        buf[0] == REPORT_ID_EVENT,
    ensures
        parse_input_spec(buf) matches Some(InputEvent::Button(_)) ==> buf[1] & 0xf0 == 0xf0,
        parse_input_spec(buf) matches Some(InputEvent::Pen(_)) ==> buf[1] & 0xf0 == 0xa0 || buf[1]
            & 0xf0 == 0xc0,
        buf[1] & 0xf0 != 0xf0 && buf[1] & 0xf0 != 0xa0 && buf[1] & 0xf0 != 0xc0 ==> parse_input_spec(buf) is None,
{
    let s = buf[1];
    assert((s & 0xf0 == 0xf0) == (s / 16 == 0xf)) by (bit_vector);
    lemma_status_bits(s, buf[2], buf[3]);
}

/// A key report (status nibble 0xf) names its button by bytes 2 and 3: key K
/// of the eight sets bit K of byte 2 with byte 3 zero, the ring sends byte 2
/// 0x08 with byte 3 giving the turn (1 clockwise, 2 anticlockwise) or 3 for its
/// button, and both zero is a release; any other pair means nothing.
pub proof fn lemma_button_report(buf: Seq<u8>)
    requires
        buf.len() >= 10,
        buf[0] == REPORT_ID_EVENT,
        buf[1] & 0xf0 == 0xf0,
    ensures
        buf[2] == 0x00 && buf[3] == 0x00 ==> parse_input_spec(buf) == Some(InputEvent::Button(Button::Release)),
        buf[2] == 0x01 && buf[3] == 0x00 ==> parse_input_spec(buf) == Some(InputEvent::Button(Button::Button0)),
        buf[2] == 0x02 && buf[3] == 0x00 ==> parse_input_spec(buf) == Some(InputEvent::Button(Button::Button1)),
        buf[2] == 0x04 && buf[3] == 0x00 ==> parse_input_spec(buf) == Some(InputEvent::Button(Button::Button2)),
        buf[2] == 0x08 && buf[3] == 0x00 ==> parse_input_spec(buf) == Some(InputEvent::Button(Button::Button3)),
        buf[2] == 0x10 && buf[3] == 0x00 ==> parse_input_spec(buf) == Some(InputEvent::Button(Button::Button4)),
        buf[2] == 0x20 && buf[3] == 0x00 ==> parse_input_spec(buf) == Some(InputEvent::Button(Button::Button5)),
        buf[2] == 0x40 && buf[3] == 0x00 ==> parse_input_spec(buf) == Some(InputEvent::Button(Button::Button6)),
        buf[2] == 0x80 && buf[3] == 0x00 ==> parse_input_spec(buf) == Some(InputEvent::Button(Button::Button7)),
        buf[2] == 0x08 && buf[3] == 0x01 ==> parse_input_spec(buf) == Some(InputEvent::Button(Button::Ring1)),
        buf[2] == 0x08 && buf[3] == 0x02 ==> parse_input_spec(buf) == Some(InputEvent::Button(Button::Ring0)),
        buf[2] == 0x08 && buf[3] == 0x03 ==> parse_input_spec(buf) == Some(InputEvent::Button(Button::RingButton)),
        !((buf[2] == 0x00 && buf[3] == 0x00) || (buf[2] == 0x01 && buf[3] == 0x00) || (buf[2] == 0x02 && buf[3] == 0x00) || (buf[2] == 0x04 && buf[3] == 0x00) || (buf[2] == 0x08 && buf[3] == 0x00) || (buf[2] == 0x10 && buf[3] == 0x00) || (buf[2] == 0x20 && buf[3] == 0x00) || (buf[2] == 0x40 && buf[3] == 0x00) || (buf[2] == 0x80 && buf[3] == 0x00) || (buf[2] == 0x08 && buf[3] == 0x01) || (buf[2] == 0x08 && buf[3] == 0x02) || (buf[2] == 0x08 && buf[3] == 0x03)) ==> parse_input_spec(buf) is None,
{
    let s = buf[1];
    assert((s & 0xf0 == 0xf0) == (s / 16 == 0xf)) by (bit_vector);
}

} // verus!
