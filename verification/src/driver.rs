//! The decisions of the driver loop: what a button or a stylus button does
//! under the current schema, and which schema comes next.

use vstd::prelude::*;

use crate::config::{Config, Control, Keymap, KeymapView, resolve_spec};
use crate::keys::Key;
use crate::protocol::Button;

verus! {

/// The control that a tablet button is; a release is none.
pub open spec fn control_of_spec(button: Button) -> Option<Control> {
    match button {
        Button::Release => None,
        Button::Button0 => Some(Control::Button0),
        Button::Button1 => Some(Control::Button1),
        Button::Button2 => Some(Control::Button2),
        Button::Button3 => Some(Control::Button3),
        Button::Button4 => Some(Control::Button4),
        Button::Button5 => Some(Control::Button5),
        Button::Button6 => Some(Control::Button6),
        Button::Button7 => Some(Control::Button7),
        Button::Ring0 => Some(Control::Ring0),
        Button::Ring1 => Some(Control::Ring1),
        Button::RingButton => Some(Control::RingButton),
    }
}

/// The control that a tablet button is; a release is none.
pub fn control_of(button: Button) -> (r: Option<Control>)
    ensures
        r == control_of_spec(button),
{
    match button {
        Button::Release => None,
        Button::Button0 => Some(Control::Button0),
        Button::Button1 => Some(Control::Button1),
        Button::Button2 => Some(Control::Button2),
        Button::Button3 => Some(Control::Button3),
        Button::Button4 => Some(Control::Button4),
        Button::Button5 => Some(Control::Button5),
        Button::Button6 => Some(Control::Button6),
        Button::Button7 => Some(Control::Button7),
        Button::Ring0 => Some(Control::Ring0),
        Button::Ring1 => Some(Control::Ring1),
        Button::RingButton => Some(Control::RingButton),
    }
}

/// What the driver does in answer to a button.
#[derive(Debug)]
pub enum Action {
    /// Nothing.
    Nothing,
    /// Let go of the keys that this input holds.
    Release,
    /// Press these keys (letting go of those held before).
    Press(Vec<Key>),
    /// Move on to the next schema.
    SwitchSchema,
}

pub enum ActionView {
    Nothing,
    Release,
    Press(Seq<Key>),
    SwitchSchema,
}

impl View for Action {
    type V = ActionView;

    open spec fn view(&self) -> ActionView {
        match self {
            Action::Nothing => ActionView::Nothing,
            Action::Release => ActionView::Release,
            Action::Press(keys) => ActionView::Press(keys@),
            Action::SwitchSchema => ActionView::SwitchSchema,
        }
    }
}

/// What a mapping asks for when its input goes down.
pub open spec fn keymap_action(keymap: KeymapView) -> ActionView {
    match keymap {
        KeymapView::Disabled => ActionView::Nothing,
        KeymapView::Fallback => ActionView::Nothing,
        KeymapView::Press(keys) => ActionView::Press(keys),
        KeymapView::SwitchSchema => ActionView::SwitchSchema,
    }
}

fn action_of(keymap: Keymap) -> (r: Action)
    ensures
        r@ == keymap_action(keymap@),
{
    match keymap {
        Keymap::Disabled => Action::Nothing,
        Keymap::Fallback => Action::Nothing,
        Keymap::Press(keys) => Action::Press(keys),
        Keymap::SwitchSchema => Action::SwitchSchema,
    }
}

/// What a button does under schema `index`: a release lets go of the keys
/// that the buttons hold; any other button does what its mapping says.
pub open spec fn button_action_spec(config: Config, index: usize, button: Button) -> ActionView {
    match control_of_spec(button) {
        None => ActionView::Release,
        Some(control) => keymap_action(resolve_spec(config.schemas(), index as int, control)),
    }
}

/// What a button does under schema `index`.
pub fn button_action(config: &Config, index: usize, button: Button) -> (r: Action)
    requires
        config.keymaps@.len() > 0,
    ensures
        r@ == button_action_spec(*config, index, button),
{
    match control_of(button) {
        None => Action::Release,
        Some(control) => action_of(config.resolve(index, control)),
    }
}

/// The schema after `current` among `count`, going round; none when there is
/// no other schema to go to.
pub fn next_schema(count: usize, current: usize) -> (r: Option<usize>)
    requires
        current < usize::MAX,
    ensures
        count <= 1 ==> r is None,
        count > 1 ==> r == Some(((current + 1) % (count as int)) as usize),
{
    if count <= 1 {
        return None;
    }
    Some((current + 1) % count)
}

/// The schema index to use when the schemas change: 0 where the old one is past the last.
pub fn schema_index_after_reload(index: usize, count: usize) -> (r: usize)
    ensures
        r == if index >= count {
            0
        } else {
            index
        },
{
    if index >= count {
        0
    } else {
        index
    }
}

/// The schema reached from `start` after `steps` switches among `count`.
pub open spec fn switched(count: int, start: int, steps: nat) -> int
    decreases steps,
{
    if steps == 0 {
        start
    } else {
        (switched(count, start, (steps - 1) as nat) + 1) % count
    }
}

/// Switching goes round every schema: after `count` switches the schema in
/// use is the one that was in use before, and each switch lands on a schema.
pub proof fn lemma_switch_cycle(count: int, start: int)
    requires
        count > 1,
        0 <= start < count,
    ensures
        switched(count, start, count as nat) == start,
        forall|k: nat| 0 < k ==> 0 <= #[trigger] switched(count, start, k) < count,
{
    assert forall|k: nat| switched(count, start, k) == (start + k) % count by {
        lemma_switched_mod(count, start, k);
    }
    assert forall|k: nat| 0 < k implies 0 <= #[trigger] switched(count, start, k) < count by {
        lemma_switched_mod(count, start, k);
    }
    lemma_switched_mod(count, start, count as nat);
    vstd::arithmetic::div_mod::lemma_mod_add_multiples_vanish(start, count);
    vstd::arithmetic::div_mod::lemma_small_mod(start as nat, count as nat);
}

proof fn lemma_switched_mod(count: int, start: int, k: nat)
    requires
        count > 1,
        0 <= start < count,
    ensures
        switched(count, start, k) == (start + k) % count,
        0 <= (start + k) % count < count,
    decreases k,
{
    vstd::arithmetic::div_mod::lemma_mod_bound(start + k, count);
    if k == 0 {
        vstd::arithmetic::div_mod::lemma_small_mod(start as nat, count as nat);
    } else {
        lemma_switched_mod(count, start, (k - 1) as nat);
        vstd::arithmetic::div_mod::lemma_add_mod_noop(start + k - 1, 1, count);
        vstd::arithmetic::div_mod::lemma_small_mod(1, count as nat);
    }
}

/// Which stylus buttons are held; the two are independent.
#[derive(Clone, Copy, Debug, PartialEq, Eq)]
pub struct StylusButtons {
    pub pressed: [bool; 2],
}

impl Default for StylusButtons {
    fn default() -> (r: StylusButtons)
        ensures
            r.pressed@ == seq![false, false],
    {
        let r = StylusButtons { pressed: [false, false] };
        assert(r.pressed@ =~= seq![false, false]);
        r
    }
}

/// What a stylus button does when it is reported: nothing if it did not
/// change; letting go of its keys when it comes up; what its mapping says
/// when it goes down.
pub open spec fn stylus_action_spec(was: bool, pressed: bool, keymap: KeymapView) -> ActionView {
    if pressed == was {
        ActionView::Nothing
    } else if !pressed {
        ActionView::Release
    } else {
        keymap_action(keymap)
    }
}

impl StylusButtons {
    /// Takes the reported state of stylus button `index` (0 the lower, 1 the
    /// upper) under its mapping, and says what to do.
    pub fn update(&mut self, index: usize, pressed: bool, keymap: &Keymap) -> (r: Action)
        requires
            index < 2,
        ensures
            r@ == stylus_action_spec(old(self).pressed@[index as int], pressed, keymap@),
            final(self).pressed@ == old(self).pressed@.update(index as int, pressed),
    {
        if pressed == self.pressed[index] {
            assert(self.pressed@ =~= old(self).pressed@.update(index as int, pressed));
            return Action::Nothing;
        }
        self.pressed[index] = pressed;
        if !pressed {
            return Action::Release;
        }
        action_of(keymap.duplicate())
    }

    /// Forgets both buttons, as when the device goes away.
    pub fn reset(&mut self)
        ensures
            final(self).pressed@ == seq![false, false],
    {
        self.pressed = [false, false];
        assert(self.pressed@ =~= seq![false, false]);
    }
}

/// Each tablet button is the control of the same name, so it fires its own
/// mapping; a release is no control; two buttons are never one control; and
/// the buttons cover every control but the two stylus buttons.
pub proof fn lemma_buttons_are_their_controls()
    ensures
        control_of_spec(Button::Release) is None,
        control_of_spec(Button::Button0) == Some(Control::Button0),
        control_of_spec(Button::Button1) == Some(Control::Button1),
        control_of_spec(Button::Button2) == Some(Control::Button2),
        control_of_spec(Button::Button3) == Some(Control::Button3),
        control_of_spec(Button::Button4) == Some(Control::Button4),
        control_of_spec(Button::Button5) == Some(Control::Button5),
        control_of_spec(Button::Button6) == Some(Control::Button6),
        control_of_spec(Button::Button7) == Some(Control::Button7),
        control_of_spec(Button::Ring0) == Some(Control::Ring0),
        control_of_spec(Button::Ring1) == Some(Control::Ring1),
        control_of_spec(Button::RingButton) == Some(Control::RingButton),
        forall|a: Button, b: Button|
            #[trigger] control_of_spec(a) is Some && control_of_spec(a) == #[trigger] control_of_spec(b)
                ==> a == b,
        forall|c: Control|
            #![trigger c.index_spec()]
            c != Control::StylusButton0 && c != Control::StylusButton1 ==> exists|b: Button|
                #[trigger] control_of_spec(b) == Some(c),
{
    assert forall|c: Control|
        #![trigger c.index_spec()]
        c != Control::StylusButton0 && c != Control::StylusButton1 implies exists|b: Button|
            #[trigger] control_of_spec(b) == Some(c) by {
        match c {
            Control::Button0 => { assert(control_of_spec(Button::Button0) == Some(c)); },
            Control::Button1 => { assert(control_of_spec(Button::Button1) == Some(c)); },
            Control::Button2 => { assert(control_of_spec(Button::Button2) == Some(c)); },
            Control::Button3 => { assert(control_of_spec(Button::Button3) == Some(c)); },
            Control::Button4 => { assert(control_of_spec(Button::Button4) == Some(c)); },
            Control::Button5 => { assert(control_of_spec(Button::Button5) == Some(c)); },
            Control::Button6 => { assert(control_of_spec(Button::Button6) == Some(c)); },
            Control::Button7 => { assert(control_of_spec(Button::Button7) == Some(c)); },
            Control::Ring0 => { assert(control_of_spec(Button::Ring0) == Some(c)); },
            Control::Ring1 => { assert(control_of_spec(Button::Ring1) == Some(c)); },
            Control::RingButton => { assert(control_of_spec(Button::RingButton) == Some(c)); },
            _ => {},
        }
    }
}

/// The action of a mapping when its input goes down, stated mapping by
/// mapping: keys are pressed, a switch switches schema, and a disabled or
/// falling-back mapping does nothing.
pub proof fn lemma_mapping_actions(keys: Seq<Key>)
    ensures
        keymap_action(KeymapView::Press(keys)) == ActionView::Press(keys),
        keymap_action(KeymapView::SwitchSchema) == ActionView::SwitchSchema,
        keymap_action(KeymapView::Disabled) == ActionView::Nothing,
        keymap_action(KeymapView::Fallback) == ActionView::Nothing,
{
}

/// A stylus button that goes down does what its mapping asks, exactly as a
/// tablet button with that mapping would: it presses the mapping's keys,
/// switches schema for `switchSchema`, and does nothing for a disabled or
/// falling-back mapping. Going up lets go of its keys; no change does nothing.
pub proof fn lemma_stylus_acts_like_buttons(
    config: Config,
    index: usize,
    button: Button,
    keys: Seq<Key>,
    was: bool,
    pressed: bool,
)
    ensures
        stylus_action_spec(false, true, KeymapView::Press(keys)) == ActionView::Press(keys),
        stylus_action_spec(false, true, KeymapView::SwitchSchema) == ActionView::SwitchSchema,
        stylus_action_spec(false, true, KeymapView::Disabled) == ActionView::Nothing,
        stylus_action_spec(false, true, KeymapView::Fallback) == ActionView::Nothing,
        stylus_action_spec(true, false, KeymapView::Press(keys)) == ActionView::Release,
        stylus_action_spec(was, was, KeymapView::Press(keys)) == ActionView::Nothing,
        control_of_spec(button) matches Some(control) ==> stylus_action_spec(
            false,
            true,
            resolve_spec(config.schemas(), index as int, control),
        ) == button_action_spec(config, index, button),
{
}

} // verus!
