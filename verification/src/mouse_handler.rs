//! The mouse-synthesis path: the bounded queue feeding the worker that
//! owns the display handle, coalescing of consecutive relative moves, and
//! the handler state machine that turns pointer requests into effects for
//! the surroundings to perform (channel sends, injector subprocesses,
//! delayed releases).

use vstd::prelude::*;

verus! {

/// Operations of the synthetic pointer.
#[derive(Clone, Copy, Debug, PartialEq, Eq, Structural)]
pub enum MouseCommand {
    MouseUp,
    MouseDown,
    MoveMouseRelative,
}

/// Contribution of one queued message to the net horizontal displacement.
pub open spec fn move_contrib_dx(e: (MouseCommand, i32, i32)) -> int {
    if e.0 == MouseCommand::MoveMouseRelative {
        e.1 as int
    } else {
        0
    }
}

/// Contribution of one queued message to the net vertical displacement.
pub open spec fn move_contrib_dy(e: (MouseCommand, i32, i32)) -> int {
    if e.0 == MouseCommand::MoveMouseRelative {
        e.2 as int
    } else {
        0
    }
}

/// Net horizontal displacement of a message sequence.
pub open spec fn net_dx(s: Seq<(MouseCommand, i32, i32)>) -> int
    decreases s.len(),
{
    if s.len() == 0 {
        0
    } else {
        net_dx(s.drop_last()) + move_contrib_dx(s.last())
    }
}

/// Net vertical displacement of a message sequence.
pub open spec fn net_dy(s: Seq<(MouseCommand, i32, i32)>) -> int
    decreases s.len(),
{
    if s.len() == 0 {
        0
    } else {
        net_dy(s.drop_last()) + move_contrib_dy(s.last())
    }
}

/// Length of the run of relative moves at the front of the sequence.
pub open spec fn move_prefix_len(s: Seq<(MouseCommand, i32, i32)>) -> int
    decreases s.len(),
{
    if s.len() == 0 || s[0].0 != MouseCommand::MoveMouseRelative {
        0
    } else {
        1 + move_prefix_len(s.drop_first())
    }
}

/// Clamp of a mathematical integer into the `i32` range, as the summed
/// displacement is clamped before it is handed to the back end.
pub open spec fn clamp_i32(v: int) -> int {
    if v > 0x7FFFFFFF {
        0x7FFFFFFF
    } else if v < -0x80000000 {
        -0x80000000
    } else {
        v
    }
}

/// Net displacement splits over any cut of the message sequence; in
/// particular, coalescing a prefix of relative moves into their sum
/// preserves the net displacement of the whole stream.
pub proof fn lemma_net_displacement_split(s: Seq<(MouseCommand, i32, i32)>, k: int)
    requires
        0 <= k <= s.len(),
    ensures
        net_dx(s) == net_dx(s.take(k)) + net_dx(s.skip(k)),
        net_dy(s) == net_dy(s.take(k)) + net_dy(s.skip(k)),
    decreases s.len() - k,
{
    if k == s.len() {
        assert(s.take(k) =~= s);
        assert(s.skip(k) =~= Seq::<(MouseCommand, i32, i32)>::empty());
    } else {
        lemma_net_displacement_split(s, k + 1);
        assert(s.take(k + 1).drop_last() =~= s.take(k));
        assert(s.take(k + 1).last() == s[k]);
        assert(s.skip(k).drop_first() =~= s.skip(k + 1));
        lemma_net_first(s.skip(k));
    }
}

/// Net displacement read off from the front of a non-empty sequence.
proof fn lemma_net_first(s: Seq<(MouseCommand, i32, i32)>)
    requires
        s.len() > 0,
    ensures
        net_dx(s) == move_contrib_dx(s[0]) + net_dx(s.drop_first()),
        net_dy(s) == move_contrib_dy(s[0]) + net_dy(s.drop_first()),
    decreases s.len(),
{
    if s.len() == 1 {
        assert(s.drop_last() =~= Seq::<(MouseCommand, i32, i32)>::empty());
        assert(s.drop_first() =~= Seq::<(MouseCommand, i32, i32)>::empty());
        assert(s.last() == s[0]);
    } else {
        lemma_net_first(s.drop_last());
        assert(s.drop_last()[0] == s[0]);
        assert(s.drop_last().drop_first() =~= s.drop_first().drop_last());
        assert(s.drop_first().last() == s.last());
    }
}

/// The run of relative moves at the front is exactly `j` when the first
/// `j` messages are moves and the next one, if any, is not.
proof fn lemma_move_prefix_len_exact(s: Seq<(MouseCommand, i32, i32)>, j: int)
    requires
        0 <= j <= s.len(),
        forall|i: int| 0 <= i < j ==> (#[trigger] s[i]).0 == MouseCommand::MoveMouseRelative,
        j < s.len() ==> s[j].0 != MouseCommand::MoveMouseRelative,
    ensures
        move_prefix_len(s) == j,
    decreases j,
{
    if j == 0 {
    } else {
        assert(s[0].0 == MouseCommand::MoveMouseRelative);
        lemma_move_prefix_len_exact(s.drop_first(), j - 1);
    }
}

/// The bounded queue of pointer messages, with the drop counter of the
/// lossy enqueue path.
pub struct MouseQueue {
    items: Vec<(MouseCommand, i32, i32)>,
    cap: usize,
    dropped: u64,
}

impl View for MouseQueue {
    type V = Seq<(MouseCommand, i32, i32)>;

    closed spec fn view(&self) -> Seq<(MouseCommand, i32, i32)> {
        self.items@
    }
}

impl MouseQueue {
    /// The queue's capacity.
    pub closed spec fn cap_spec(&self) -> int {
        self.cap as int
    }

    /// How many relative moves were dropped on a full queue.
    pub closed spec fn dropped_spec(&self) -> int {
        self.dropped as int
    }

    /// An empty queue of capacity `cap`.
    pub fn new(cap: usize) -> (q: MouseQueue)
        requires
            1 <= cap <= 0x7FFFFFFF,
        ensures
            q@ == Seq::<(MouseCommand, i32, i32)>::empty(),
            q.cap_spec() == cap,
            q.dropped_spec() == 0,
    {
        MouseQueue { items: Vec::new(), cap, dropped: 0 }
    }

    /// How many relative moves were dropped on a full queue so far.
    pub fn dropped(&self) -> (n: u64)
        ensures
            n as int == self.dropped_spec(),
    {
        self.dropped
    }

    /// How many messages are queued.
    pub fn len(&self) -> (n: usize)
        ensures
            n == self@.len(),
    {
        self.items.len()
    }

    /// Offer a button message. Button presses and releases are rare and
    /// correctness-critical, so a refused offer is the caller's signal to
    /// wait for room and offer again rather than drop.
    pub fn try_send(&mut self, cmd: MouseCommand, p1: i32, p2: i32) -> (ok: bool)
        ensures
            ok == (old(self)@.len() < old(self).cap_spec()),
            final(self).cap_spec() == old(self).cap_spec(),
            final(self).dropped_spec() == old(self).dropped_spec(),
            final(self)@ == if ok {
                old(self)@.push((cmd, p1, p2))
            } else {
                old(self)@
            },
    {
        if self.items.len() < self.cap {
            self.items.push((cmd, p1, p2));
            true
        } else {
            false
        }
    }

    /// Offer a relative move. Moves are lossy by nature: on a full queue
    /// the move is dropped and counted, never waited for.
    pub fn try_send_move(&mut self, dx: i32, dy: i32) -> (sent: bool)
        ensures
            sent == (old(self)@.len() < old(self).cap_spec()),
            final(self).cap_spec() == old(self).cap_spec(),
            final(self)@ == if sent {
                old(self)@.push((MouseCommand::MoveMouseRelative, dx, dy))
            } else {
                old(self)@
            },
            final(self).dropped_spec() == if sent {
                old(self).dropped_spec()
            } else if old(self).dropped_spec() < u64::MAX {
                old(self).dropped_spec() + 1
            } else {
                old(self).dropped_spec()
            },
    {
        if self.items.len() < self.cap {
            self.items.push((MouseCommand::MoveMouseRelative, dx, dy));
            true
        } else {
            if self.dropped < u64::MAX {
                self.dropped = self.dropped + 1;
            }
            false
        }
    }

    /// Take the worker's next piece of work: the oldest message, except
    /// that a run of relative moves at the front is coalesced into a
    /// single move carrying the clamped sum of its displacements. The
    /// first message of another kind is left queued as the next
    /// iteration's starting work.
    pub fn drain_coalesced(&mut self) -> (r: Option<(MouseCommand, i32, i32)>)
        requires
            old(self)@.len() <= 0x7FFFFFFF,
        ensures
            final(self).cap_spec() == old(self).cap_spec(),
            final(self).dropped_spec() == old(self).dropped_spec(),
            old(self)@.len() == 0 ==> r is None && final(self)@ == old(self)@,
            old(self)@.len() > 0 && old(self)@[0].0 != MouseCommand::MoveMouseRelative ==> r
                == Option::Some(old(self)@[0]) && final(self)@ == old(self)@.drop_first(),
            old(self)@.len() > 0 && old(self)@[0].0 == MouseCommand::MoveMouseRelative ==> {
                let k = move_prefix_len(old(self)@);
                &&& (match r {
                    Option::Some(e) => {
                        &&& e.0 == MouseCommand::MoveMouseRelative
                        &&& e.1 as int == clamp_i32(net_dx(old(self)@.take(k)))
                        &&& e.2 as int == clamp_i32(net_dy(old(self)@.take(k)))
                    },
                    Option::None => false,
                })
                &&& final(self)@ == old(self)@.skip(k)
            },
    {
        let n = self.items.len();
        if n == 0 {
            return Option::None;
        }
        let head = self.items[0];
        if !matches!(head.0, MouseCommand::MoveMouseRelative) {
            let e = self.items.remove(0);
            proof {
                assert(self.items@ =~= old(self)@.drop_first());
            }
            return Option::Some(e);
        }
        let mut j: usize = 0;
        let mut acc_dx: i64 = 0;
        let mut acc_dy: i64 = 0;
        while j < n && matches!(self.items[j].0, MouseCommand::MoveMouseRelative)
            invariant
                self == old(self),
                n == self.items@.len() <= 0x7FFFFFFF,
                j <= n,
                forall|i: int|
                    0 <= i < j ==> (#[trigger] self.items@[i]).0
                        == MouseCommand::MoveMouseRelative,
                acc_dx == net_dx(self.items@.take(j as int)),
                acc_dy == net_dy(self.items@.take(j as int)),
                -(j as int) * 0x80000000 <= acc_dx <= (j as int) * 0x80000000,
                -(j as int) * 0x80000000 <= acc_dy <= (j as int) * 0x80000000,
            decreases n - j,
        {
            let e = self.items[j];
            proof {
                assert(self.items@.take(j + 1).drop_last() =~= self.items@.take(j as int));
                assert(self.items@.take(j + 1).last() == self.items@[j as int]);
            }
            acc_dx = acc_dx + (e.1 as i64);
            acc_dy = acc_dy + (e.2 as i64);
            j += 1;
        }
        proof {
            lemma_move_prefix_len_exact(self.items@, j as int);
        }
        let dx: i32 = if acc_dx > 0x7FFFFFFF {
            0x7FFFFFFFi32
        } else if acc_dx < -0x80000000 {
            -0x80000000i32
        } else {
            acc_dx as i32
        };
        let dy: i32 = if acc_dy > 0x7FFFFFFF {
            0x7FFFFFFFi32
        } else if acc_dy < -0x80000000 {
            -0x80000000i32
        } else {
            acc_dy as i32
        };
        let tail = self.items.split_off(j);
        self.items = tail;
        Option::Some((MouseCommand::MoveMouseRelative, dx, dy))
    }
}

/// What one handler call asks the surroundings to do. The worker channel
/// and the injector subprocesses live outside the crate; the handler only
/// decides.
#[derive(Clone, Copy, Debug, PartialEq, Eq, Structural)]
pub enum MouseEffect {
    /// Hand (command, p1, p2) to the worker that owns the display handle.
    Send(MouseCommand, i32, i32),
    /// Run the command-line injector for a button press (`true`) or
    /// release (`false`).
    SpawnClick(bool),
    /// Run the command-line injector for a relative motion.
    SpawnMove(i32, i32),
    /// After the delay (milliseconds), release the button through the
    /// active back end; superseded by any later scheduling or cancelled
    /// by an intervening press or move.
    ScheduleUp(i32, i64),
}

/// The handler state: which back end is active, whether a delayed release
/// is pending, and whether the synthetic button is held down.
pub struct MouseHandler {
    pub is_xorg: bool,
    pub has_guard: bool,
    pub handler_mouse_down: bool,
}

/// A fresh handler for the chosen back end: nothing scheduled, button up.
pub fn start_handler(is_xorg: bool) -> (h: MouseHandler)
    ensures
        h.is_xorg == is_xorg,
        !h.has_guard,
        !h.handler_mouse_down,
{
    MouseHandler { is_xorg, has_guard: false, handler_mouse_down: false }
}

impl MouseHandler {
    /// Cancel a pending delayed release, if one is scheduled: the gesture
    /// is clearly ongoing, so the button counts as held again.
    fn cancel_timer_if_present(&mut self)
        ensures
            final(self).is_xorg == old(self).is_xorg,
            !final(self).has_guard,
            final(self).handler_mouse_down == (old(self).has_guard
                || old(self).handler_mouse_down),
    {
        if self.has_guard {
            self.has_guard = false;
            self.handler_mouse_down = true;
        }
    }

    /// Press the button: cancel any pending release, then either send to
    /// the worker (X11) or spawn the injector (Wayland).
    pub fn mouse_down(&mut self, button: i32) -> (eff: MouseEffect)
        ensures
            eff == if old(self).is_xorg {
                MouseEffect::Send(MouseCommand::MouseDown, button, 255)
            } else {
                MouseEffect::SpawnClick(true)
            },
            final(self).is_xorg == old(self).is_xorg,
            !final(self).has_guard,
            final(self).handler_mouse_down,
    {
        self.cancel_timer_if_present();
        self.handler_mouse_down = true;
        if self.is_xorg {
            MouseEffect::Send(MouseCommand::MouseDown, button, 255)
        } else {
            MouseEffect::SpawnClick(true)
        }
    }

    /// Schedule the button release after `delay_ms`; the new schedule
    /// replaces any pending one.
    pub fn mouse_up_delay(&mut self, button: i32, delay_ms: i64) -> (eff: MouseEffect)
        ensures
            eff == (MouseEffect::ScheduleUp(button, delay_ms)),
            final(self).is_xorg == old(self).is_xorg,
            final(self).has_guard,
            !final(self).handler_mouse_down,
    {
        self.has_guard = true;
        self.handler_mouse_down = false;
        MouseEffect::ScheduleUp(button, delay_ms)
    }

    /// Move the pointer: cancel any pending release, then either send to
    /// the worker (X11) or spawn the injector (Wayland).
    pub fn move_mouse_relative(&mut self, x_val: i32, y_val: i32) -> (eff: MouseEffect)
        ensures
            eff == if old(self).is_xorg {
                MouseEffect::Send(MouseCommand::MoveMouseRelative, x_val, y_val)
            } else {
                MouseEffect::SpawnMove(x_val, y_val)
            },
            final(self).is_xorg == old(self).is_xorg,
            !final(self).has_guard,
            final(self).handler_mouse_down == (old(self).has_guard
                || old(self).handler_mouse_down),
    {
        self.cancel_timer_if_present();
        if self.is_xorg {
            MouseEffect::Send(MouseCommand::MoveMouseRelative, x_val, y_val)
        } else {
            MouseEffect::SpawnMove(x_val, y_val)
        }
    }
}

} // verus!
