//! What the driver records for the screens: the connection, the last pen
//! event, the recent buttons, and how far the pen has reached.

use std::collections::VecDeque;

use vstd::prelude::*;

use crate::hid::PenRanges;
use crate::protocol::{Button, PenEvent};

verus! {

/// How many of the recent button events are kept for display.
pub const MAX_RECENT_BUTTONS: usize = 5;

#[derive(Clone, Copy, Debug, PartialEq, Eq, Structural)]
pub struct Status {
    pub connected: bool,
    pub ranges: Option<PenRanges>,
}

impl Default for Status {
    fn default() -> (r: Status)
        ensures
            r == (Status { connected: false, ranges: None }),
    {
        Status { connected: false, ranges: None }
    }
}

/// The coordinates the pen has actually reached since measuring began; the
/// declared ranges are usually larger than what the tablet senses.
#[derive(Clone, Copy, Debug, PartialEq, Eq, Structural)]
pub struct Observed {
    pub min_x: u16,
    pub max_x: u16,
    pub min_y: u16,
    pub max_y: u16,
}

impl Default for Observed {
    /// Nothing measured: the minimum above the maximum.
    fn default() -> (r: Observed)
        ensures
            r == (Observed { min_x: u16::MAX, max_x: 0, min_y: u16::MAX, max_y: 0 }),
    {
        Observed { min_x: u16::MAX, max_x: 0, min_y: u16::MAX, max_y: 0 }
    }
}

pub open spec fn min_u16(a: u16, b: u16) -> u16 {
    if a <= b {
        a
    } else {
        b
    }
}

pub open spec fn max_u16(a: u16, b: u16) -> u16 {
    if a >= b {
        a
    } else {
        b
    }
}

/// The measurement after the pen is seen at a point.
pub open spec fn observed_after(o: Observed, x: u16, y: u16) -> Observed {
    Observed {
        min_x: min_u16(o.min_x, x),
        max_x: max_u16(o.max_x, x),
        min_y: min_u16(o.min_y, y),
        max_y: max_u16(o.max_y, y),
    }
}

impl Observed {
    /// Whether nothing has been measured.
    pub fn is_empty(&self) -> (r: bool)
        ensures
            r == (self.min_x > self.max_x),
    {
        self.min_x > self.max_x
    }

    /// Takes a point the pen was seen at into the measurement.
    pub fn record(&mut self, x: u16, y: u16)
        ensures
            *final(self) == observed_after(*old(self), x, y),
    {
        if x < self.min_x {
            self.min_x = x;
        }
        if x > self.max_x {
            self.max_x = x;
        }
        if y < self.min_y {
            self.min_y = y;
        }
        if y > self.max_y {
            self.max_y = y;
        }
    }
}

/// The measurement after a run of points, from `o`.
pub open spec fn observed_run(o: Observed, points: Seq<(u16, u16)>) -> Observed
    decreases points.len(),
{
    if points.len() == 0 {
        o
    } else {
        let p = points.last();
        observed_after(observed_run(o, points.drop_last()), p.0, p.1)
    }
}

/// Measuring from nothing: after at least one point the measurement is not
/// empty, every point lies within it, and each of its bounds is reached by
/// some point.
pub proof fn lemma_observed_bounds(points: Seq<(u16, u16)>)
    ensures
        ({
            let o = observed_run(
                Observed { min_x: u16::MAX, max_x: 0, min_y: u16::MAX, max_y: 0 },
                points,
            );
            &&& points.len() == 0 ==> o.min_x > o.max_x || (o.min_x == u16::MAX && o.max_x == 0)
            &&& points.len() > 0 ==> o.min_x <= o.max_x && o.min_y <= o.max_y
            &&& forall|i: int|
                0 <= i < points.len() ==> o.min_x <= (#[trigger] points[i]).0 <= o.max_x && o.min_y
                    <= points[i].1 <= o.max_y
            &&& points.len() > 0 ==> (exists|i: int| 0 <= i < points.len() && (#[trigger] points[i]).0 == o.min_x)
            &&& points.len() > 0 ==> (exists|i: int| 0 <= i < points.len() && (#[trigger] points[i]).0 == o.max_x)
            &&& points.len() > 0 ==> (exists|i: int| 0 <= i < points.len() && (#[trigger] points[i]).1 == o.min_y)
            &&& points.len() > 0 ==> (exists|i: int| 0 <= i < points.len() && (#[trigger] points[i]).1 == o.max_y)
        }),
    decreases points.len(),
{
    let start = Observed { min_x: u16::MAX, max_x: 0, min_y: u16::MAX, max_y: 0 };
    if points.len() > 0 {
        let init = points.drop_last();
        lemma_observed_bounds(init);
        let o0 = observed_run(start, init);
        let o = observed_run(start, points);
        let p = points.last();
        assert(points[points.len() - 1] == p);
        assert forall|i: int| 0 <= i < points.len() implies o.min_x <= (#[trigger] points[i]).0
            <= o.max_x && o.min_y <= points[i].1 <= o.max_y by {
            if i < init.len() {
                assert(init[i] == points[i]);
            }
        }
        if init.len() > 0 {
            let kx = choose|i: int| 0 <= i < init.len() && (#[trigger] init[i]).0 == o0.min_x;
            let kX = choose|i: int| 0 <= i < init.len() && (#[trigger] init[i]).0 == o0.max_x;
            let ky = choose|i: int| 0 <= i < init.len() && (#[trigger] init[i]).1 == o0.min_y;
            let kY = choose|i: int| 0 <= i < init.len() && (#[trigger] init[i]).1 == o0.max_y;
            assert(points[kx] == init[kx] && points[kX] == init[kX] && points[ky] == init[ky]
                && points[kY] == init[kY]);
        }
    }
}

/// The recent buttons after a button is recorded: a release is not kept, and
/// the oldest ones make room so that at most `MAX_RECENT_BUTTONS` remain.
pub open spec fn recent_after(recent: Seq<Button>, button: Button) -> Seq<Button> {
    if button == Button::Release {
        recent
    } else if recent.len() >= MAX_RECENT_BUTTONS {
        recent.skip(recent.len() - (MAX_RECENT_BUTTONS - 1)).push(button)
    } else {
        recent.push(button)
    }
}

/// The data the screens show while the driver runs.
#[derive(Clone, Debug)]
pub struct Monitor {
    pub pen: Option<PenEvent>,
    pub recent_buttons: VecDeque<Button>,
    pub observed: Observed,
}

impl Default for Monitor {
    fn default() -> (r: Monitor)
        ensures
            r.pen is None,
            r.recent_buttons@ == Seq::<Button>::empty(),
            r.observed == (Observed { min_x: u16::MAX, max_x: 0, min_y: u16::MAX, max_y: 0 }),
    {
        Monitor { pen: None, recent_buttons: VecDeque::new(), observed: Observed::default() }
    }
}

impl Monitor {
    /// Records a pen event: it becomes the last one, and where the pen is in
    /// range its point joins the measurement.
    pub fn record_pen(&mut self, event: PenEvent)
        ensures
            final(self).pen == Some(event),
            final(self).recent_buttons@ == old(self).recent_buttons@,
            final(self).observed == if event.in_area {
                observed_after(old(self).observed, event.x, event.y)
            } else {
                old(self).observed
            },
    {
        if event.in_area {
            self.observed.record(event.x, event.y);
        }
        self.pen = Some(event);
    }

    /// Records a button event, as `recent_after` says.
    pub fn record_button(&mut self, button: Button)
        ensures
            final(self).recent_buttons@ == recent_after(old(self).recent_buttons@, button),
            final(self).pen == old(self).pen,
            final(self).observed == old(self).observed,
    {
        if button == Button::Release {
            return;
        }
        let ghost start = self.recent_buttons@;
        while self.recent_buttons.len() >= MAX_RECENT_BUTTONS
            invariant
                start == old(self).recent_buttons@,
                self.recent_buttons@.len() <= start.len(),
                self.pen == old(self).pen,
                self.observed == old(self).observed,
                start.len() >= MAX_RECENT_BUTTONS ==> self.recent_buttons@.len() >= MAX_RECENT_BUTTONS
                    - 1 && self.recent_buttons@ == start.skip(
                    start.len() - self.recent_buttons@.len(),
                ),
                start.len() < MAX_RECENT_BUTTONS ==> self.recent_buttons@ == start,
            decreases self.recent_buttons@.len(),
        {
            let ghost before = self.recent_buttons@;
            assert(start.len() >= MAX_RECENT_BUTTONS);
            assert(before == start.skip(start.len() - before.len()));
            self.recent_buttons.pop_front();
            assert(self.recent_buttons@ == before.subrange(1, before.len() as int));
            assert(self.recent_buttons@ =~= start.skip(start.len() - self.recent_buttons@.len()));
        }
        self.recent_buttons.push_back(button);
    }

    /// Starts measuring anew.
    pub fn clear_observed(&mut self)
        ensures
            final(self).observed == (Observed {
                min_x: u16::MAX,
                max_x: 0,
                min_y: u16::MAX,
                max_y: 0,
            }),
            final(self).pen == old(self).pen,
            final(self).recent_buttons@ == old(self).recent_buttons@,
    {
        self.observed = Observed::default();
    }
}

/// The recent buttons after a run of button events.
pub open spec fn recent_run(recent: Seq<Button>, buttons: Seq<Button>) -> Seq<Button>
    decreases buttons.len(),
{
    if buttons.len() == 0 {
        recent
    } else {
        recent_after(recent_run(recent, buttons.drop_last()), buttons.last())
    }
}

/// The buttons of a run that are not releases.
pub open spec fn pressed_only(buttons: Seq<Button>) -> Seq<Button> {
    buttons.filter(|b: Button| b != Button::Release)
}

/// The last `n` of a sequence, or all of it if it is shorter.
pub open spec fn last_n(s: Seq<Button>, n: nat) -> Seq<Button> {
    if s.len() <= n {
        s
    } else {
        s.skip(s.len() - n)
    }
}

/// The recent buttons are always the last `MAX_RECENT_BUTTONS` buttons other
/// than releases, oldest first.
pub proof fn lemma_recent_buttons(recent: Seq<Button>, buttons: Seq<Button>)
    requires
        recent.len() <= MAX_RECENT_BUTTONS,
    ensures
        recent_run(recent, buttons) == last_n(recent + pressed_only(buttons), MAX_RECENT_BUTTONS as nat),
    decreases buttons.len(),
{
    reveal_with_fuel(Seq::filter, 1);
    if buttons.len() == 0 {
        assert(pressed_only(buttons) =~= Seq::<Button>::empty());
        assert(recent + pressed_only(buttons) =~= recent);
    } else {
        let init = buttons.drop_last();
        let b = buttons.last();
        lemma_recent_buttons(recent, init);
        let prev = recent + pressed_only(init);
        assert(pressed_only(buttons) == if b != Button::Release {
            pressed_only(init).push(b)
        } else {
            pressed_only(init)
        });
        if b != Button::Release {
            assert(recent + pressed_only(buttons) =~= prev.push(b));
            let l = last_n(prev, MAX_RECENT_BUTTONS as nat);
            if prev.len() >= MAX_RECENT_BUTTONS {
                assert(l.skip(l.len() - (MAX_RECENT_BUTTONS - 1)).push(b) =~= last_n(
                    prev.push(b),
                    MAX_RECENT_BUTTONS as nat,
                ));
            } else {
                assert(l.push(b) =~= last_n(prev.push(b), MAX_RECENT_BUTTONS as nat));
            }
        }
    }
}

} // verus!
