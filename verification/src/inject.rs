//! What injection remembers between events: the keys held down by a mapping,
//! and whether the synthetic pen is in range and touching. The functions here
//! decide which strokes and pointer frames to send; sending them is the
//! caller's work.

use vstd::prelude::*;

use crate::keys::Key;
use crate::protocol::PenEvent;

verus! {

/// One key going down or coming up.
#[derive(Clone, Copy, Debug, PartialEq, Eq, Structural)]
pub struct KeyStroke {
    pub key: Key,
    pub up: bool,
}

/// Letting go of held keys: the last one pressed comes up first.
pub open spec fn release_strokes(pressed: Seq<Key>) -> Seq<KeyStroke> {
    Seq::new(pressed.len(), |i: int| KeyStroke { key: pressed[pressed.len() - 1 - i], up: true })
}

/// Pressing keys in the given order.
pub open spec fn press_strokes(keys: Seq<Key>) -> Seq<KeyStroke> {
    Seq::new(keys.len(), |i: int| KeyStroke { key: keys[i], up: false })
}

/// The keys held down by one mapping. The device reports one combination at
/// a time, so only the combination held now is remembered.
#[derive(Debug)]
pub struct KeyInjector {
    pressed: Vec<Key>,
}

impl View for KeyInjector {
    type V = Seq<Key>;

    closed spec fn view(&self) -> Seq<Key> {
        self.pressed@
    }
}

impl Default for KeyInjector {
    fn default() -> (r: KeyInjector)
        ensures
            r@ == Seq::<Key>::empty(),
    {
        KeyInjector { pressed: Vec::new() }
    }
}

impl KeyInjector {
    /// Lets go of the keys held now; returns the strokes to send, last key first.
    pub fn release(&mut self) -> (r: Vec<KeyStroke>)
        ensures
            r@ == release_strokes(old(self)@),
            final(self)@ == Seq::<Key>::empty(),
    {
        let mut strokes: Vec<KeyStroke> = Vec::new();
        let n = self.pressed.len();
        for i in 0..n
            invariant
                n == self.pressed@.len(),
                self.pressed@ == old(self)@,
                strokes@ == release_strokes(old(self)@).take(i as int),
        {
            strokes.push(KeyStroke { key: self.pressed[n - 1 - i], up: true });
            assert(strokes@ =~= release_strokes(old(self)@).take(i + 1));
        }
        assert(strokes@ =~= release_strokes(old(self)@));
        self.pressed = Vec::new();
        strokes
    }

    /// Lets go of the keys held now, then presses `keys` in order; returns the
    /// strokes to send, the releases first.
    pub fn press(&mut self, keys: &[Key]) -> (r: Vec<KeyStroke>)
        ensures
            r@ == release_strokes(old(self)@) + press_strokes(keys@),
            final(self)@ == keys@,
    {
        let mut strokes = self.release();
        let ghost released = strokes@;
        for i in 0..keys.len()
            invariant
                strokes@ == released + press_strokes(keys@).take(i as int),
                self.pressed@ == keys@.take(i as int),
        {
            strokes.push(KeyStroke { key: keys[i], up: false });
            self.pressed.push(keys[i]);
            assert(strokes@ =~= released + press_strokes(keys@).take(i + 1));
            assert(self.pressed@ =~= keys@.take(i + 1));
        }
        assert(press_strokes(keys@).take(keys@.len() as int) =~= press_strokes(keys@));
        assert(keys@.take(keys@.len() as int) =~= keys@);
        strokes
    }

    /// After sending stopped early: only the first `sent` keys of the
    /// combination went down, and only those stay held.
    pub fn press_interrupted(&mut self, sent: usize)
        requires
            sent <= old(self)@.len(),
        ensures
            final(self)@ == old(self)@.take(sent as int),
    {
        self.pressed.truncate(sent);
        assert(self.pressed@ =~= old(self)@.take(sent as int));
    }
}

/// Pressing a combination and then letting go sends every key up again, in
/// the reverse order of going down.
pub proof fn lemma_release_undoes_press(keys: Seq<Key>)
    ensures
        release_strokes(keys).len() == press_strokes(keys).len(),
        forall|i: int|
            0 <= i < keys.len() ==> #[trigger] release_strokes(keys)[i] == (KeyStroke {
                key: press_strokes(keys)[keys.len() - 1 - i].key,
                up: true,
            }),
{
}

/// The scan code that a virtual key maps to, split into the code to send and
/// whether it is an extended key (prefix `0xe0` or `0xe1`).
#[derive(Clone, Copy, Debug, PartialEq, Eq, Structural)]
pub struct ScanCode {
    pub code: u16,
    pub extended: bool,
}

/// Splits a scan code as `MapVirtualKeyW(.., MAPVK_VK_TO_VSC_EX)` returns it.
pub fn scan_code(mapped: u32) -> (r: ScanCode)
    ensures
        r.code == mapped % 256,
        r.extended == ((mapped / 256) % 256 == 0xe0 || (mapped / 256) % 256 == 0xe1),
{
    let prefix = mapped & 0xff00;
    let code = (mapped & 0xff) as u16;
    let extended = prefix == 0xe000 || prefix == 0xe100;
    assert(code == mapped % 256 && (extended == ((mapped / 256) % 256 == 0xe0 || (mapped / 256)
        % 256 == 0xe1))) by (bit_vector)
        requires
            prefix == mapped & 0xff00,
            code == (mapped & 0xff) as u16,
            extended == (prefix == 0xe000 || prefix == 0xe100),
    ;
    ScanCode { code, extended }
}

/// The pointer flags of one injected pen frame.
#[derive(Clone, Copy, Debug, PartialEq, Eq, Structural)]
pub struct PointerFlags {
    pub in_range: bool,
    pub primary: bool,
    pub in_contact: bool,
    pub first_button: bool,
    pub down: bool,
    pub up: bool,
    pub update: bool,
}

/// One frame to inject for the synthetic pen: where the pen is and how it
/// tilts come from `event`; pressure is sent only when `in_contact`.
#[derive(Clone, Copy, Debug, PartialEq, Eq, Structural)]
pub struct PenFrame {
    pub event: PenEvent,
    pub flags: PointerFlags,
    pub in_contact: bool,
}

/// Whether the synthetic pen is in range, and whether its tip is down.
#[derive(Clone, Copy, Debug, PartialEq, Eq, Structural)]
pub struct PenTracker {
    pub in_area: bool,
    pub tip_pressed: bool,
}

impl Default for PenTracker {
    fn default() -> (r: PenTracker)
        ensures
            r == (PenTracker { in_area: false, tip_pressed: false }),
    {
        PenTracker { in_area: false, tip_pressed: false }
    }
}

pub open spec fn no_flags() -> PointerFlags {
    PointerFlags {
        in_range: false,
        primary: false,
        in_contact: false,
        first_button: false,
        down: false,
        up: false,
        update: false,
    }
}

/// The pen hovering in range.
pub open spec fn hover_flags() -> PointerFlags {
    PointerFlags { in_range: true, primary: true, update: true, ..no_flags() }
}

/// The flags for a pen in range whose tip was down (`was`) and is down now (`now`).
pub open spec fn in_range_flags(was: bool, now: bool) -> PointerFlags {
    if now {
        PointerFlags {
            in_range: true,
            primary: true,
            in_contact: true,
            first_button: true,
            down: !was,
            update: was,
            ..no_flags()
        }
    } else {
        PointerFlags { in_range: true, primary: true, up: was, update: !was, ..no_flags() }
    }
}

/// The event sent when the pen leaves: everything zero.
pub open spec fn leave_event() -> PenEvent {
    PenEvent {
        in_area: false,
        tip_pressed: false,
        button0_pressed: false,
        button1_pressed: false,
        x: 0,
        y: 0,
        pressure: 0,
        tilt_x: 0,
        tilt_y: 0,
    }
}

/// Frames sent when the pen leaves range: none if it was out already, else
/// one that lifts the tip if it was down.
pub open spec fn leave_frames(state: PenTracker) -> Seq<PenFrame> {
    if !state.in_area {
        Seq::<PenFrame>::empty()
    } else {
        seq![
            PenFrame {
                event: leave_event(),
                flags: if state.tip_pressed {
                    PointerFlags { up: true, ..no_flags() }
                } else {
                    PointerFlags { update: true, ..no_flags() }
                },
                in_contact: false,
            },
        ]
    }
}

/// Frames sent for an event. Out of range the pen leaves. In range one frame
/// is sent, before which a hovering frame is sent if the pen comes into range
/// with its tip already down, so that the tip does not land where the pen left.
pub open spec fn handle_frames(state: PenTracker, event: PenEvent) -> Seq<PenFrame> {
    if !event.in_area {
        leave_frames(state)
    } else {
        let main = PenFrame {
            event,
            flags: in_range_flags(state.tip_pressed, event.tip_pressed),
            in_contact: event.tip_pressed,
        };
        if !state.in_area && event.tip_pressed {
            seq![PenFrame { event, flags: hover_flags(), in_contact: false }, main]
        } else {
            seq![main]
        }
    }
}

/// The state after the pen leaves: unchanged if it was out of range already.
pub open spec fn leave_next(state: PenTracker) -> PenTracker {
    if state.in_area {
        PenTracker { in_area: false, tip_pressed: false }
    } else {
        state
    }
}

/// The state after an event.
pub open spec fn handle_next(state: PenTracker, event: PenEvent) -> PenTracker {
    if !event.in_area {
        leave_next(state)
    } else {
        PenTracker { in_area: true, tip_pressed: event.tip_pressed }
    }
}

/// A tip that is down belongs to a pen in range.
pub open spec fn tracker_wf(state: PenTracker) -> bool {
    state.tip_pressed ==> state.in_area
}

impl PenTracker {
    /// Decides the frames for a pen event and moves to the next state.
    pub fn handle(&mut self, event: &PenEvent) -> (r: Vec<PenFrame>)
        ensures
            r@ == handle_frames(*old(self), *event),
            *final(self) == handle_next(*old(self), *event),
    {
        if !event.in_area {
            return self.leave();
        }
        let entering = !self.in_area;
        self.in_area = true;
        let was = self.tip_pressed;
        let now = event.tip_pressed;
        let flags = if now {
            PointerFlags {
                in_range: true,
                primary: true,
                in_contact: true,
                first_button: true,
                down: !was,
                up: false,
                update: was,
            }
        } else {
            PointerFlags {
                in_range: true,
                primary: true,
                in_contact: false,
                first_button: false,
                down: false,
                up: was,
                update: !was,
            }
        };
        self.tip_pressed = now;
        let mut frames: Vec<PenFrame> = Vec::new();
        if entering && now {
            frames.push(
                PenFrame {
                    event: *event,
                    flags: PointerFlags {
                        in_range: true,
                        primary: true,
                        in_contact: false,
                        first_button: false,
                        down: false,
                        up: false,
                        update: true,
                    },
                    in_contact: false,
                },
            );
        }
        frames.push(PenFrame { event: *event, flags, in_contact: now });
        assert(frames@ =~= handle_frames(*old(self), *event));
        frames
    }

    /// The pen leaves range.
    pub fn leave(&mut self) -> (r: Vec<PenFrame>)
        ensures
            r@ == leave_frames(*old(self)),
            *final(self) == leave_next(*old(self)),
    {
        let mut frames: Vec<PenFrame> = Vec::new();
        if !self.in_area {
            assert(frames@ =~= leave_frames(*old(self)));
            return frames;
        }
        let flags = PointerFlags {
            in_range: false,
            primary: false,
            in_contact: false,
            first_button: false,
            down: false,
            up: self.tip_pressed,
            update: !self.tip_pressed,
        };
        self.tip_pressed = false;
        self.in_area = false;
        frames.push(
            PenFrame {
                event: PenEvent {
                    in_area: false,
                    tip_pressed: false,
                    button0_pressed: false,
                    button1_pressed: false,
                    x: 0,
                    y: 0,
                    pressure: 0,
                    tilt_x: 0,
                    tilt_y: 0,
                },
                flags,
                in_contact: false,
            },
        );
        assert(frames@ =~= leave_frames(*old(self)));
        frames
    }
}

/// Whether the tip is down after the frames, starting from `contact`.
pub open spec fn contact_after(contact: bool, frames: Seq<PenFrame>) -> bool
    decreases frames.len(),
{
    if frames.len() == 0 {
        contact
    } else {
        let c = contact_after(contact, frames.drop_last());
        if frames.last().flags.down {
            true
        } else if frames.last().flags.up {
            false
        } else {
            c
        }
    }
}

/// The frames put the tip down only while it is up, lift it only while it is
/// down, and never do both at once.
pub open spec fn bracketed(contact: bool, frames: Seq<PenFrame>) -> bool
    decreases frames.len(),
{
    if frames.len() == 0 {
        true
    } else {
        let c = contact_after(contact, frames.drop_last());
        &&& bracketed(contact, frames.drop_last())
        &&& !(frames.last().flags.down && frames.last().flags.up)
        &&& frames.last().flags.down ==> !c
        &&& frames.last().flags.up ==> c
    }
}

/// The state and all frames after a run of events.
pub open spec fn run_frames(state: PenTracker, events: Seq<PenEvent>) -> (PenTracker, Seq<PenFrame>)
    decreases events.len(),
{
    if events.len() == 0 {
        (state, Seq::<PenFrame>::empty())
    } else {
        let (s, frames) = run_frames(state, events.drop_last());
        (handle_next(s, events.last()), frames + handle_frames(s, events.last()))
    }
}

proof fn lemma_bracketed_append(contact: bool, a: Seq<PenFrame>, b: Seq<PenFrame>)
    requires
        bracketed(contact, a),
        bracketed(contact_after(contact, a), b),
    ensures
        bracketed(contact, a + b),
        contact_after(contact, a + b) == contact_after(contact_after(contact, a), b),
    decreases b.len(),
{
    if b.len() == 0 {
        assert(a + b =~= a);
    } else {
        lemma_bracketed_append(contact, a, b.drop_last());
        assert((a + b).drop_last() =~= a + b.drop_last());
        assert((a + b).last() == b.last());
    }
}

/// Each event keeps the tip state and the frames in step: the frames for one
/// event are bracketed from the tip state before it, and end with the tip
/// state after it.
pub proof fn lemma_handle_bracketed(state: PenTracker, event: PenEvent)
    requires
        tracker_wf(state),
    ensures
        tracker_wf(handle_next(state, event)),
        bracketed(state.tip_pressed, handle_frames(state, event)),
        contact_after(state.tip_pressed, handle_frames(state, event)) == handle_next(
            state,
            event,
        ).tip_pressed,
{
    let frames = handle_frames(state, event);
    let c = state.tip_pressed;
    let empty = Seq::<PenFrame>::empty();
    assert(contact_after(c, empty) == c);
    assert(bracketed(c, empty));
    if frames.len() == 2 {
        let first = seq![frames[0]];
        assert(frames.drop_last() =~= first);
        assert(first.drop_last() =~= empty);
        assert(first.last() == frames[0]);
        assert(contact_after(c, first) == c);
        assert(bracketed(c, first));
    } else if frames.len() == 1 {
        assert(frames.drop_last() =~= Seq::<PenFrame>::empty());
    } else {
        assert(frames =~= Seq::<PenFrame>::empty());
    }
}

/// Over any run of events, the injected frames never put the tip down twice
/// without lifting it, nor lift it when it is up; and the tip is down at the
/// end exactly when the tracker says so.
pub proof fn lemma_run_bracketed(state: PenTracker, events: Seq<PenEvent>)
    requires
        tracker_wf(state),
    ensures
        tracker_wf(run_frames(state, events).0),
        bracketed(state.tip_pressed, run_frames(state, events).1),
        contact_after(state.tip_pressed, run_frames(state, events).1) == run_frames(
            state,
            events,
        ).0.tip_pressed,
    decreases events.len(),
{
    if events.len() > 0 {
        lemma_run_bracketed(state, events.drop_last());
        let (s, frames) = run_frames(state, events.drop_last());
        lemma_handle_bracketed(s, events.last());
        assert(s.tip_pressed == contact_after(state.tip_pressed, frames));
        lemma_bracketed_append(state.tip_pressed, frames, handle_frames(s, events.last()));
    }
}

/// Leaving twice sends nothing the second time.
pub proof fn lemma_leave_idempotent(state: PenTracker)
    ensures
        leave_frames(PenTracker { in_area: false, tip_pressed: false }) == Seq::<PenFrame>::empty(),
        state.in_area ==> leave_frames(state).len() == 1 && (leave_frames(state)[0].flags.up
            <==> state.tip_pressed),
{
}

/// What the frames for an event carry, from any state in which the tip is down
/// only in range (every state that handling events reaches, see
/// `lemma_handle_bracketed`): a pen in range ends with one frame at
/// the event's own position, whose contact is exactly the event's tip (so
/// pressure goes out on every frame with the tip down, the first touch and
/// every drag after it alike); no frame is in contact unless the tip is down
/// and the pen in range; a frame's contact and its contact flag agree; the
/// tip goes down only on a frame for a tip that is down now and was not, and
/// comes up only where it was down.
pub proof fn lemma_frames_carry_contact(state: PenTracker, event: PenEvent)
    requires
        tracker_wf(state),
    ensures
        ({
            let frames = handle_frames(state, event);
            &&& event.in_area ==> frames.len() >= 1 && frames.last().event == event
                && frames.last().in_contact == event.tip_pressed && frames.last().flags.in_range
            &&& forall|i: int|
                0 <= i < frames.len() ==> (#[trigger] frames[i]).in_contact == frames[i].flags.in_contact
            &&& forall|i: int|
                0 <= i < frames.len() && (#[trigger] frames[i]).in_contact ==> event.in_area
                    && event.tip_pressed
            &&& forall|i: int|
                0 <= i < frames.len() && (#[trigger] frames[i]).flags.down ==> event.tip_pressed
                    && !state.tip_pressed
            &&& forall|i: int|
                0 <= i < frames.len() && (#[trigger] frames[i]).flags.up ==> state.tip_pressed
                    && !(event.in_area && event.tip_pressed)
            &&& event.in_area && event.tip_pressed && state.tip_pressed ==> frames.last().flags.update
                && !frames.last().flags.down
            &&& event.in_area && event.tip_pressed && !state.tip_pressed ==> frames.last().flags.down
            &&& state.tip_pressed && !(event.in_area && event.tip_pressed) ==> frames.len() >= 1
                && frames.last().flags.up
            &&& handle_next(state, event).tip_pressed == (event.in_area && event.tip_pressed)
            &&& handle_next(state, event).in_area == event.in_area
        }),
{
}

} // verus!
