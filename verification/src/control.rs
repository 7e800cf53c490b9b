//! The control surface: the one button that starts and resets the
//! simulation.

use vstd::prelude::*;

verus! {

/// What the pointer is doing to the control, which is also how its
/// background is drawn: plain when idle, accented when hovered, confirming
/// when pressed.
#[derive(Debug, Clone, Copy, PartialEq, Eq, Structural, Hash)]
pub enum ControlState {
    Idle,
    Hovered,
    Pressed,
}

/// Whether a control last shown as `shown` is activated by the interaction
/// `now`: only a press that follows something other than a press counts, so
/// holding the button down activates it once.
pub open spec fn activates(shown: ControlState, now: ControlState) -> bool {
    now is Pressed && !(shown is Pressed)
}

/// The control surface. It remembers how it was last shown, which is what
/// tells a new press from a held one.
#[derive(Debug, Clone, Copy, PartialEq, Eq, Structural)]
pub struct Control {
    shown: ControlState,
}

impl View for Control {
    type V = ControlState;

    closed spec fn view(&self) -> ControlState {
        self.shown
    }
}

impl Control {
    /// An idle control.
    pub fn new() -> (control: Self)
        ensures
            control@ == ControlState::Idle,
    {
        Control { shown: ControlState::Idle }
    }

    /// How the control is shown now.
    pub fn shown(&self) -> (shown: ControlState)
        ensures
            shown == self@,
    {
        self.shown
    }

    /// Takes this frame's interaction: the control is shown accordingly, and
    /// the result tells whether it was activated.
    pub fn interact(&mut self, now: ControlState) -> (activated: bool)
        ensures
            final(self)@ == now,
            activated == activates(old(self)@, now),
    {
        let activated = match (self.shown, now) {
            (ControlState::Pressed, _) => false,
            (_, ControlState::Pressed) => true,
            _ => false,
        };
        self.shown = now;
        activated
    }
}

/// A press is an activation only on its first frame: while the button is
/// held, no further frame activates the control.
pub proof fn lemma_held_press_activates_once(shown: ControlState)
    ensures
        activates(shown, ControlState::Pressed) <==> !(shown is Pressed),
        !activates(ControlState::Pressed, ControlState::Pressed),
        !activates(shown, ControlState::Hovered),
        !activates(shown, ControlState::Idle),
{
}

} // verus!
