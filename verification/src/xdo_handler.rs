//! The X11 pointer handler's state machine: the same decisions as the
//! general mouse handler, for the worker that owns the X11 display
//! handle alone.

use vstd::prelude::*;

verus! {

/// Operations of the X11 pointer worker.
#[derive(Clone, Copy, Debug, PartialEq, Eq, Structural)]
pub enum XDoCommand {
    MouseUp,
    MouseDown,
    MoveMouseRelative,
}

/// What one handler call asks the surroundings to do.
#[derive(Clone, Copy, Debug, PartialEq, Eq, Structural)]
pub enum XDoEffect {
    /// Hand (command, p1, p2) to the worker that owns the display handle.
    Send(XDoCommand, i32, i32),
    /// Run the command-line injector for a button press (`true`) or
    /// release (`false`).
    SpawnClick(bool),
    /// Run the command-line injector for a relative motion.
    SpawnMove(i32, i32),
    /// After the delay (milliseconds), release the button through the
    /// active back end.
    ScheduleUp(i32, i64),
}

/// The handler state: which back end is active, whether a delayed release
/// is pending, and whether the synthetic button is held down.
pub struct XDoHandler {
    pub is_xorg: bool,
    pub has_guard: bool,
    pub handler_mouse_down: bool,
}

/// A fresh handler for the chosen back end: nothing scheduled, button up.
pub fn start_handler(is_xorg: bool) -> (h: XDoHandler)
    ensures
        h.is_xorg == is_xorg,
        !h.has_guard,
        !h.handler_mouse_down,
{
    XDoHandler { is_xorg, has_guard: false, handler_mouse_down: false }
}

impl XDoHandler {
    /// Cancel a pending delayed release, if one is scheduled.
    fn cancel_timer_if_present(&mut self)
        ensures
            final(self).is_xorg == old(self).is_xorg,
            !final(self).has_guard,
            final(self).handler_mouse_down == (old(self).has_guard
                || old(self).handler_mouse_down),
    {
        if self.has_guard {
            self.has_guard = false;
            self.handler_mouse_down = true;
        }
    }

    /// Press the button: cancel any pending release, then either send to
    /// the worker (X11) or spawn the injector (Wayland).
    pub fn mouse_down(&mut self, button: i32) -> (eff: XDoEffect)
        ensures
            eff == if old(self).is_xorg {
                XDoEffect::Send(XDoCommand::MouseDown, button, 255)
            } else {
                XDoEffect::SpawnClick(true)
            },
            final(self).is_xorg == old(self).is_xorg,
            !final(self).has_guard,
            final(self).handler_mouse_down,
    {
        self.cancel_timer_if_present();
        self.handler_mouse_down = true;
        if self.is_xorg {
            XDoEffect::Send(XDoCommand::MouseDown, button, 255)
        } else {
            XDoEffect::SpawnClick(true)
        }
    }

    /// Schedule the button release after `delay_ms`; the new schedule
    /// replaces any pending one.
    pub fn mouse_up_delay(&mut self, button: i32, delay_ms: i64) -> (eff: XDoEffect)
        ensures
            eff == (XDoEffect::ScheduleUp(button, delay_ms)),
            final(self).is_xorg == old(self).is_xorg,
            final(self).has_guard,
            !final(self).handler_mouse_down,
    {
        self.has_guard = true;
        self.handler_mouse_down = false;
        XDoEffect::ScheduleUp(button, delay_ms)
    }

    /// Move the pointer: cancel any pending release, then either send to
    /// the worker (X11) or spawn the injector (Wayland).
    pub fn move_mouse_relative(&mut self, x_val: i32, y_val: i32) -> (eff: XDoEffect)
        ensures
            eff == if old(self).is_xorg {
                XDoEffect::Send(XDoCommand::MoveMouseRelative, x_val, y_val)
            } else {
                XDoEffect::SpawnMove(x_val, y_val)
            },
            final(self).is_xorg == old(self).is_xorg,
            !final(self).has_guard,
            final(self).handler_mouse_down == (old(self).has_guard
                || old(self).handler_mouse_down),
    {
        self.cancel_timer_if_present();
        if self.is_xorg {
            XDoEffect::Send(XDoCommand::MoveMouseRelative, x_val, y_val)
        } else {
            XDoEffect::SpawnMove(x_val, y_val)
        }
    }
}

} // verus!
