//! The gesture state machine: one in-flight gesture tracked across its
//! begin/update/end phases, matched against the rule index, and turned
//! into a list of actions (shell dispatches and synthetic-pointer
//! requests) for the surroundings to perform. The event loop that polls
//! the input device lives outside the crate and feeds decoded events in,
//! together with the monotonic clock in microseconds.

use crate::cache::GestureCache;
use crate::cache::GestureKind;
use crate::config::Config;
use crate::config::ConfigV;
use crate::gestures::clone_bytes;
use crate::gestures::hold_state;
use crate::gestures::pinch_dir_spec;
use crate::gestures::pinch_state;
use crate::gestures::rules_view;
use crate::gestures::swipe_dir_spec;
use crate::gestures::swipe_state;
use crate::gestures::Gesture;
use crate::gestures::GestureV;
use crate::gestures::Hold;
use crate::gestures::Pinch;
use crate::gestures::PinchDir;
use crate::gestures::Swipe;
use crate::gestures::SwipeDir;
use crate::gestures::SwipeV;
use crate::subst::motion_zero;
use crate::subst::Motion;
use crate::throttle::throttle_admits;
use crate::throttle::throttle_after_admit;
use crate::throttle::ThrottleState;
use vstd::prelude::*;

verus! {

/// One decoded gesture event, as the input subsystem reports it: a phase
/// of one of the three gesture kinds, with its motion parameters in
/// hundredths.
#[derive(Clone, Copy, Debug, PartialEq, Eq, Structural)]
pub enum GestureEvent {
    SwipeBegin { fingers: i32 },
    SwipeUpdate { dx_c: i32, dy_c: i32 },
    SwipeEnd { cancelled: bool },
    PinchBegin { fingers: i32 },
    PinchUpdate { scale_c: i32, angle_c: i32 },
    PinchEnd,
    HoldBegin { fingers: i32 },
    HoldEnd,
}

/// One action decided by the state machine, for the surroundings to
/// perform.
#[derive(Debug)]
pub enum Action {
    /// Dispatch the action string, substituted with the motion sample,
    /// through the command fan-out; `lossy` on the update phase, where a
    /// full queue drops, never blocks.
    Exec { template: Vec<u8>, motion: Motion, lossy: bool },
    /// Press the synthetic mouse button.
    MouseDown { button: i32 },
    /// Release the synthetic mouse button after the delay (milliseconds).
    MouseUpDelay { button: i32, delay_ms: i64 },
    /// Move the synthetic pointer by whole pixels.
    MoveRelative { dx: i32, dy: i32 },
}

/// Mathematical value of an action.
pub ghost enum ActionV {
    Exec { template: Seq<u8>, motion: Motion, lossy: bool },
    MouseDown { button: int },
    MouseUpDelay { button: int, delay_ms: int },
    MoveRelative { dx: int, dy: int },
}

impl View for Action {
    type V = ActionV;

    open spec fn view(&self) -> ActionV {
        match self {
            Action::Exec { template, motion, lossy } => ActionV::Exec {
                template: template@,
                motion: *motion,
                lossy: *lossy,
            },
            Action::MouseDown { button } => ActionV::MouseDown { button: *button as int },
            Action::MouseUpDelay { button, delay_ms } => ActionV::MouseUpDelay {
                button: *button as int,
                delay_ms: *delay_ms as int,
            },
            Action::MoveRelative { dx, dy } => ActionV::MoveRelative {
                dx: *dx as int,
                dy: *dy as int,
            },
        }
    }
}

/// The mathematical values of an action list, element-wise.
pub open spec fn acts_view(s: Seq<Action>) -> Seq<ActionV> {
    s.map_values(|a: Action| a@)
}

/// An optional action string that actually asks for work: present and
/// non-empty.
pub open spec fn has_action(o: Option<Seq<u8>>) -> bool {
    match o {
        Option::Some(s) => s.len() > 0,
        Option::None => false,
    }
}

/// The bytes of an optional action string (empty when absent).
pub open spec fn action_of(o: Option<Seq<u8>>) -> Seq<u8> {
    match o {
        Option::Some(s) => s,
        Option::None => Seq::empty(),
    }
}

/// A swipe rule drives the synthetic pointer directly instead of running
/// shell commands: direction `any` with both an acceleration and a
/// mouse-up delay configured.
pub open spec fn is_direct_mouse(s: SwipeV) -> bool {
    s.direction == SwipeDir::Any && s.acceleration is Some && s.mouse_up_delay is Some
}

/// The configured acceleration of a swipe rule, zero when absent.
pub open spec fn accel_of(s: SwipeV) -> int {
    match s.acceleration {
        Option::Some(a) => a,
        Option::None => 0,
    }
}

/// The configured mouse-up delay of a swipe rule, zero when absent.
pub open spec fn delay_of(s: SwipeV) -> int {
    match s.mouse_up_delay {
        Option::Some(d) => d,
        Option::None => 0,
    }
}

/// A motion component scaled by a rule's acceleration: the product by
/// acceleration/10, on values in hundredths, truncated toward zero to
/// whole pixels.
pub open spec fn scaled_delta(delta: int, accel: int) -> int {
    let p = delta * accel;
    if p >= 0 {
        p / 1000
    } else {
        -((-p) / 1000)
    }
}

/// A motion component scaled by a rule's acceleration.
fn scale_component(delta: i32, accel: i8) -> (r: i32)
    ensures
        r as int == scaled_delta(delta as int, accel as int),
{
    proof {
        assert(-0x4000000000 <= (delta as int) * (accel as int) <= 0x4000000000)
            by (nonlinear_arith)
            requires
                -0x80000000 <= delta as int <= 0x7FFFFFFF,
                -128 <= accel as int <= 127,
        ;
    }
    let p: i64 = (delta as i64) * (accel as i64);
    if p >= 0 {
        let q: u64 = (p as u64) / 1000;
        q as i32
    } else {
        let m: u64 = (-p) as u64;
        let q: u64 = m / 1000;
        -(q as i32)
    }
}

/// Actions of one rule at a swipe begin: a direct-mouse rule presses the
/// button; otherwise an `any`-direction rule with a start string runs it.
pub open spec fn swipe_begin_rule_actions(r: GestureV) -> Seq<ActionV> {
    match r {
        GestureV::Swipe(s) => if is_direct_mouse(s) {
            seq![ActionV::MouseDown { button: 1 }]
        } else if s.direction == SwipeDir::Any && has_action(s.start) {
            seq![
                ActionV::Exec {
                    template: action_of(s.start),
                    motion: motion_zero(),
                    lossy: false,
                },
            ]
        } else {
            Seq::empty()
        },
        _ => Seq::empty(),
    }
}

/// Actions of one rule at a swipe update: a direct-mouse rule moves the
/// pointer by the accelerated motion; otherwise a rule whose direction
/// matches runs its update string with the motion substituted. Both are
/// gated by the throttle.
pub open spec fn swipe_update_rule_actions(
    r: GestureV,
    dir: SwipeDir,
    admitted: bool,
    dx_c: i32,
    dy_c: i32,
) -> Seq<ActionV> {
    match r {
        GestureV::Swipe(s) => if is_direct_mouse(s) {
            if admitted {
                seq![
                    ActionV::MoveRelative {
                        dx: scaled_delta(dx_c as int, accel_of(s)),
                        dy: scaled_delta(dy_c as int, accel_of(s)),
                    },
                ]
            } else {
                Seq::empty()
            }
        } else if (s.direction == dir || s.direction == SwipeDir::Any) && admitted && has_action(
            s.update,
        ) {
            seq![
                ActionV::Exec {
                    template: action_of(s.update),
                    motion: (Motion { dx_c: dx_c as i64, dy_c: dy_c as i64, angle_c: 0, scale_c: 0 }),
                    lossy: true,
                },
            ]
        } else {
            Seq::empty()
        },
        _ => Seq::empty(),
    }
}

/// Actions of one rule at a non-cancelled swipe end: a direct-mouse rule
/// schedules the deferred button release; otherwise a rule whose
/// direction matches runs its end string.
pub open spec fn swipe_end_rule_actions(r: GestureV, dir: SwipeDir) -> Seq<ActionV> {
    match r {
        GestureV::Swipe(s) => if is_direct_mouse(s) {
            seq![ActionV::MouseUpDelay { button: 1, delay_ms: delay_of(s) }]
        } else if (s.direction == dir || s.direction == SwipeDir::Any) && has_action(s.end) {
            seq![
                ActionV::Exec { template: action_of(s.end), motion: motion_zero(), lossy: false },
            ]
        } else {
            Seq::empty()
        },
        _ => Seq::empty(),
    }
}

/// Actions of one rule at a pinch begin: an `any`-direction rule with a
/// start string runs it.
pub open spec fn pinch_begin_rule_actions(r: GestureV) -> Seq<ActionV> {
    match r {
        GestureV::Pinch(p) => if p.direction == PinchDir::Any && has_action(p.start) {
            seq![
                ActionV::Exec {
                    template: action_of(p.start),
                    motion: motion_zero(),
                    lossy: false,
                },
            ]
        } else {
            Seq::empty()
        },
        _ => Seq::empty(),
    }
}

/// Actions of one rule at a pinch update: a rule whose direction matches
/// runs its update string with angle and scale substituted.
pub open spec fn pinch_update_rule_actions(
    r: GestureV,
    dir: PinchDir,
    scale_c: i32,
    angle_c: i32,
) -> Seq<ActionV> {
    match r {
        GestureV::Pinch(p) => if (p.direction == dir || p.direction == PinchDir::Any)
            && has_action(p.update) {
            seq![
                ActionV::Exec {
                    template: action_of(p.update),
                    motion: (Motion {
                        dx_c: 0,
                        dy_c: 0,
                        angle_c: angle_c as i64,
                        scale_c: scale_c as i64,
                    }),
                    lossy: true,
                },
            ]
        } else {
            Seq::empty()
        },
        _ => Seq::empty(),
    }
}

/// Actions of one rule at a pinch end: a rule whose direction matches
/// runs its end string.
pub open spec fn pinch_end_rule_actions(r: GestureV, dir: PinchDir) -> Seq<ActionV> {
    match r {
        GestureV::Pinch(p) => if (p.direction == dir || p.direction == PinchDir::Any)
            && has_action(p.end) {
            seq![
                ActionV::Exec { template: action_of(p.end), motion: motion_zero(), lossy: false },
            ]
        } else {
            Seq::empty()
        },
        _ => Seq::empty(),
    }
}

/// Actions of one rule at a hold end: a rule with an action string runs
/// it.
pub open spec fn hold_end_rule_actions(r: GestureV) -> Seq<ActionV> {
    match r {
        GestureV::Hold(h) => if has_action(h.action) {
            seq![
                ActionV::Exec { template: action_of(h.action), motion: motion_zero(), lossy: false },
            ]
        } else {
            Seq::empty()
        },
        _ => Seq::empty(),
    }
}

/// Actions of a rule list at a swipe begin, in rule order.
pub open spec fn swipe_begin_actions(rules: Seq<GestureV>) -> Seq<ActionV>
    decreases rules.len(),
{
    if rules.len() == 0 {
        Seq::empty()
    } else {
        swipe_begin_actions(rules.drop_last()) + swipe_begin_rule_actions(rules.last())
    }
}

/// Actions of a rule list at a swipe update, in rule order.
pub open spec fn swipe_update_actions(
    rules: Seq<GestureV>,
    dir: SwipeDir,
    admitted: bool,
    dx_c: i32,
    dy_c: i32,
) -> Seq<ActionV>
    decreases rules.len(),
{
    if rules.len() == 0 {
        Seq::empty()
    } else {
        swipe_update_actions(rules.drop_last(), dir, admitted, dx_c, dy_c)
            + swipe_update_rule_actions(rules.last(), dir, admitted, dx_c, dy_c)
    }
}

/// Actions of a rule list at a swipe end, in rule order.
pub open spec fn swipe_end_actions(rules: Seq<GestureV>, dir: SwipeDir) -> Seq<ActionV>
    decreases rules.len(),
{
    if rules.len() == 0 {
        Seq::empty()
    } else {
        swipe_end_actions(rules.drop_last(), dir) + swipe_end_rule_actions(rules.last(), dir)
    }
}

/// Actions of a rule list at a pinch begin, in rule order.
pub open spec fn pinch_begin_actions(rules: Seq<GestureV>) -> Seq<ActionV>
    decreases rules.len(),
{
    if rules.len() == 0 {
        Seq::empty()
    } else {
        pinch_begin_actions(rules.drop_last()) + pinch_begin_rule_actions(rules.last())
    }
}

/// Actions of a rule list at a pinch update, in rule order.
pub open spec fn pinch_update_actions(
    rules: Seq<GestureV>,
    dir: PinchDir,
    scale_c: i32,
    angle_c: i32,
) -> Seq<ActionV>
    decreases rules.len(),
{
    if rules.len() == 0 {
        Seq::empty()
    } else {
        pinch_update_actions(rules.drop_last(), dir, scale_c, angle_c) + pinch_update_rule_actions(
            rules.last(),
            dir,
            scale_c,
            angle_c,
        )
    }
}

/// Actions of a rule list at a pinch end, in rule order.
pub open spec fn pinch_end_actions(rules: Seq<GestureV>, dir: PinchDir) -> Seq<ActionV>
    decreases rules.len(),
{
    if rules.len() == 0 {
        Seq::empty()
    } else {
        pinch_end_actions(rules.drop_last(), dir) + pinch_end_rule_actions(rules.last(), dir)
    }
}

/// Actions of a rule list at a hold end, in rule order.
pub open spec fn hold_end_actions(rules: Seq<GestureV>) -> Seq<ActionV>
    decreases rules.len(),
{
    if rules.len() == 0 {
        Seq::empty()
    } else {
        hold_end_actions(rules.drop_last()) + hold_end_rule_actions(rules.last())
    }
}

/// The index is due for a rebuild: its build time lies more than a second
/// behind the clock.
pub open spec fn refresh_due(c: GestureCache, now_us: u64) -> bool {
    now_us - c.last_update_us > 1_000_000
}

/// How the rule index relates to its previous state after a possible
/// refresh: rebuilt from the configuration when it was stale, untouched
/// otherwise.
pub open spec fn cache_refreshed(
    pre: GestureCache,
    post: GestureCache,
    cfg: ConfigV,
    now_us: u64,
) -> bool {
    if refresh_due(pre, now_us) {
        post.indexes(cfg.gestures) && post.last_update_us == now_us
    } else {
        post == pre
    }
}

/// The event handler: the gesture in flight, the rule index, and the
/// update throttle. It owns no I/O; events, the configuration snapshot
/// and the clock come in, actions go out.
pub struct EventHandler {
    pub event: Gesture,
    pub cache: GestureCache,
    pub throttle: ThrottleState,
}

/// The caller's clock reads at or after both clocks stored in the state
/// (the clock is monotonic).
pub open spec fn clock_ok(h: EventHandler, now_us: u64) -> bool {
    h.cache.last_update_us <= now_us && h.throttle.last_update_us <= now_us
}

/// Nothing happened: the state is untouched and no action was decided.
pub open spec fn unchanged_post(pre: EventHandler, post: EventHandler, acts: Seq<ActionV>) -> bool {
    post == pre && acts.len() == 0
}

/// The contract of a swipe begin: the current gesture becomes a swipe
/// with no direction yet, the index is refreshed if stale, and the
/// begin actions of the matching bucket are decided.
pub open spec fn swipe_begin_post(
    pre: EventHandler,
    post: EventHandler,
    acts: Seq<ActionV>,
    fingers: int,
    cfg: ConfigV,
    now_us: u64,
) -> bool {
    &&& cache_refreshed(pre.cache, post.cache, cfg, now_us)
    &&& post.throttle == pre.throttle
    &&& post.event@ == GestureV::Swipe(swipe_state(fingers, SwipeDir::Any))
    &&& acts == swipe_begin_actions(post.cache.lookup_spec(GestureKind::Swipe, fingers))
}

/// The contract of a swipe update: with a swipe in flight, the direction
/// is recomputed from the motion, the throttle is consulted once, the
/// index is refreshed if stale, and the update actions are decided.
/// Without a swipe in flight the event is ignored.
pub open spec fn swipe_update_post(
    pre: EventHandler,
    post: EventHandler,
    acts: Seq<ActionV>,
    dx_c: i32,
    dy_c: i32,
    cfg: ConfigV,
    now_us: u64,
) -> bool {
    match pre.event@ {
        GestureV::Swipe(st) => {
            let dir = swipe_dir_spec(dx_c as int, dy_c as int);
            let admitted = throttle_admits(pre.throttle, now_us);
            &&& cache_refreshed(pre.cache, post.cache, cfg, now_us)
            &&& post.throttle == (if admitted {
                throttle_after_admit(pre.throttle, now_us)
            } else {
                pre.throttle
            })
            &&& post.event@ == GestureV::Swipe(swipe_state(st.fingers, dir))
            &&& acts == swipe_update_actions(
                post.cache.lookup_spec(GestureKind::Swipe, st.fingers),
                dir,
                admitted,
                dx_c,
                dy_c,
            )
        },
        _ => unchanged_post(pre, post, acts),
    }
}

/// The contract of a non-cancelled swipe end: with a swipe in flight, the
/// end actions for the direction seen so far are decided; the gesture
/// state is kept until the next begin. Without a swipe in flight the
/// event is ignored.
pub open spec fn swipe_end_post(
    pre: EventHandler,
    post: EventHandler,
    acts: Seq<ActionV>,
    cfg: ConfigV,
    now_us: u64,
) -> bool {
    match pre.event@ {
        GestureV::Swipe(st) => {
            &&& cache_refreshed(pre.cache, post.cache, cfg, now_us)
            &&& post.throttle == pre.throttle
            &&& post.event@ == pre.event@
            &&& acts == swipe_end_actions(
                post.cache.lookup_spec(GestureKind::Swipe, st.fingers),
                st.direction,
            )
        },
        _ => unchanged_post(pre, post, acts),
    }
}

/// The contract of a pinch begin, in the image of the swipe begin.
pub open spec fn pinch_begin_post(
    pre: EventHandler,
    post: EventHandler,
    acts: Seq<ActionV>,
    fingers: int,
    cfg: ConfigV,
    now_us: u64,
) -> bool {
    &&& cache_refreshed(pre.cache, post.cache, cfg, now_us)
    &&& post.throttle == pre.throttle
    &&& post.event@ == GestureV::Pinch(pinch_state(fingers, PinchDir::Any))
    &&& acts == pinch_begin_actions(post.cache.lookup_spec(GestureKind::Pinch, fingers))
}

/// The contract of a pinch update: the direction is recomputed from scale
/// and angle, the matching rules run their update strings, and the state
/// records the new direction. Without a pinch in flight the event is
/// ignored.
pub open spec fn pinch_update_post(
    pre: EventHandler,
    post: EventHandler,
    acts: Seq<ActionV>,
    scale_c: i32,
    angle_c: i32,
    cfg: ConfigV,
    now_us: u64,
) -> bool {
    match pre.event@ {
        GestureV::Pinch(pt) => {
            let dir = pinch_dir_spec(scale_c as int, angle_c as int);
            &&& cache_refreshed(pre.cache, post.cache, cfg, now_us)
            &&& post.throttle == pre.throttle
            &&& post.event@ == GestureV::Pinch(pinch_state(pt.fingers, dir))
            &&& acts == pinch_update_actions(
                post.cache.lookup_spec(GestureKind::Pinch, pt.fingers),
                dir,
                scale_c,
                angle_c,
            )
        },
        _ => unchanged_post(pre, post, acts),
    }
}

/// The contract of a pinch end, for the direction seen so far. Without a
/// pinch in flight the event is ignored.
pub open spec fn pinch_end_post(
    pre: EventHandler,
    post: EventHandler,
    acts: Seq<ActionV>,
    cfg: ConfigV,
    now_us: u64,
) -> bool {
    match pre.event@ {
        GestureV::Pinch(pt) => {
            &&& cache_refreshed(pre.cache, post.cache, cfg, now_us)
            &&& post.throttle == pre.throttle
            &&& post.event@ == pre.event@
            &&& acts == pinch_end_actions(
                post.cache.lookup_spec(GestureKind::Pinch, pt.fingers),
                pt.direction,
            )
        },
        _ => unchanged_post(pre, post, acts),
    }
}

/// The contract of a hold begin: only the current gesture changes.
pub open spec fn hold_begin_post(
    pre: EventHandler,
    post: EventHandler,
    acts: Seq<ActionV>,
    fingers: int,
) -> bool {
    &&& post.cache == pre.cache
    &&& post.throttle == pre.throttle
    &&& post.event@ == GestureV::Hold(hold_state(fingers))
    &&& acts.len() == 0
}

/// The contract of a hold end: the matching rules fire their action
/// strings. Without a hold in flight the event is ignored.
pub open spec fn hold_end_post(
    pre: EventHandler,
    post: EventHandler,
    acts: Seq<ActionV>,
    cfg: ConfigV,
    now_us: u64,
) -> bool {
    match pre.event@ {
        GestureV::Hold(ht) => {
            &&& cache_refreshed(pre.cache, post.cache, cfg, now_us)
            &&& post.throttle == pre.throttle
            &&& post.event@ == pre.event@
            &&& acts == hold_end_actions(post.cache.lookup_spec(GestureKind::Hold, ht.fingers))
        },
        _ => unchanged_post(pre, post, acts),
    }
}

/// The contract of one dispatched event, by phase; cancelled swipe ends
/// are silently dropped.
pub open spec fn step_post(
    pre: EventHandler,
    post: EventHandler,
    acts: Seq<ActionV>,
    ev: GestureEvent,
    cfg: ConfigV,
    now_us: u64,
) -> bool {
    match ev {
        GestureEvent::SwipeBegin { fingers } => swipe_begin_post(
            pre,
            post,
            acts,
            fingers as int,
            cfg,
            now_us,
        ),
        GestureEvent::SwipeUpdate { dx_c, dy_c } => swipe_update_post(
            pre,
            post,
            acts,
            dx_c,
            dy_c,
            cfg,
            now_us,
        ),
        GestureEvent::SwipeEnd { cancelled } => if cancelled {
            unchanged_post(pre, post, acts)
        } else {
            swipe_end_post(pre, post, acts, cfg, now_us)
        },
        GestureEvent::PinchBegin { fingers } => pinch_begin_post(
            pre,
            post,
            acts,
            fingers as int,
            cfg,
            now_us,
        ),
        GestureEvent::PinchUpdate { scale_c, angle_c } => pinch_update_post(
            pre,
            post,
            acts,
            scale_c,
            angle_c,
            cfg,
            now_us,
        ),
        GestureEvent::PinchEnd => pinch_end_post(pre, post, acts, cfg, now_us),
        GestureEvent::HoldBegin { fingers } => hold_begin_post(pre, post, acts, fingers as int),
        GestureEvent::HoldEnd => hold_end_post(pre, post, acts, cfg, now_us),
    }
}

/// A rule list extended by one rule decides the actions decided before,
/// then the new rule's.
proof fn lemma_swipe_begin_actions_push(s: Seq<GestureV>, r: GestureV)
    ensures
        swipe_begin_actions(s.push(r)) == swipe_begin_actions(s) + swipe_begin_rule_actions(r),
{
    assert(s.push(r).drop_last() =~= s);
    assert(s.push(r).last() == r);
}

/// As `lemma_swipe_begin_actions_push`, for the swipe update phase.
proof fn lemma_swipe_update_actions_push(
    s: Seq<GestureV>,
    r: GestureV,
    dir: SwipeDir,
    admitted: bool,
    dx_c: i32,
    dy_c: i32,
)
    ensures
        swipe_update_actions(s.push(r), dir, admitted, dx_c, dy_c) == swipe_update_actions(
            s,
            dir,
            admitted,
            dx_c,
            dy_c,
        ) + swipe_update_rule_actions(r, dir, admitted, dx_c, dy_c),
{
    assert(s.push(r).drop_last() =~= s);
    assert(s.push(r).last() == r);
}

/// As `lemma_swipe_begin_actions_push`, for the swipe end phase.
proof fn lemma_swipe_end_actions_push(s: Seq<GestureV>, r: GestureV, dir: SwipeDir)
    ensures
        swipe_end_actions(s.push(r), dir) == swipe_end_actions(s, dir) + swipe_end_rule_actions(
            r,
            dir,
        ),
{
    assert(s.push(r).drop_last() =~= s);
    assert(s.push(r).last() == r);
}

/// As `lemma_swipe_begin_actions_push`, for the pinch begin phase.
proof fn lemma_pinch_begin_actions_push(s: Seq<GestureV>, r: GestureV)
    ensures
        pinch_begin_actions(s.push(r)) == pinch_begin_actions(s) + pinch_begin_rule_actions(r),
{
    assert(s.push(r).drop_last() =~= s);
    assert(s.push(r).last() == r);
}

/// As `lemma_swipe_begin_actions_push`, for the pinch update phase.
proof fn lemma_pinch_update_actions_push(
    s: Seq<GestureV>,
    r: GestureV,
    dir: PinchDir,
    scale_c: i32,
    angle_c: i32,
)
    ensures
        pinch_update_actions(s.push(r), dir, scale_c, angle_c) == pinch_update_actions(
            s,
            dir,
            scale_c,
            angle_c,
        ) + pinch_update_rule_actions(r, dir, scale_c, angle_c),
{
    assert(s.push(r).drop_last() =~= s);
    assert(s.push(r).last() == r);
}

/// As `lemma_swipe_begin_actions_push`, for the pinch end phase.
proof fn lemma_pinch_end_actions_push(s: Seq<GestureV>, r: GestureV, dir: PinchDir)
    ensures
        pinch_end_actions(s.push(r), dir) == pinch_end_actions(s, dir) + pinch_end_rule_actions(
            r,
            dir,
        ),
{
    assert(s.push(r).drop_last() =~= s);
    assert(s.push(r).last() == r);
}

/// As `lemma_swipe_begin_actions_push`, for the hold end phase.
proof fn lemma_hold_end_actions_push(s: Seq<GestureV>, r: GestureV)
    ensures
        hold_end_actions(s.push(r)) == hold_end_actions(s) + hold_end_rule_actions(r),
{
    assert(s.push(r).drop_last() =~= s);
    assert(s.push(r).last() == r);
}

/// Walk a matching bucket and decide the swipe begin actions.
fn emit_swipe_begin(rules: &Vec<Gesture>) -> (acts: Vec<Action>)
    ensures
        acts_view(acts@) == swipe_begin_actions(rules_view(rules@)),
{
    let ghost rv = rules_view(rules@);
    let mut acts: Vec<Action> = Vec::new();
    proof {
        assert(rv.take(0) =~= Seq::<GestureV>::empty());
        assert(acts_view(acts@) =~= Seq::<ActionV>::empty());
    }
    let mut i: usize = 0;
    while i < rules.len()
        invariant
            i <= rules@.len(),
            rv == rules_view(rules@),
            acts_view(acts@) == swipe_begin_actions(rv.take(i as int)),
        decreases rules@.len() - i,
    {
        proof {
            assert(rv.take(i + 1) =~= rv.take(i as int).push(rv[i as int]));
            lemma_swipe_begin_actions_push(rv.take(i as int), rv[i as int]);
            assert(rv[i as int] == rules@[i as int]@);
        }
        match &rules[i] {
            Gesture::Swipe(s) => {
                let direct = s.direction == SwipeDir::Any && s.acceleration.is_some()
                    && s.mouse_up_delay.is_some();
                if direct {
                    acts.push(Action::MouseDown { button: 1 });
                } else if s.direction == SwipeDir::Any {
                    match &s.start {
                        Option::Some(v) => if v.len() > 0 {
                            acts.push(
                                Action::Exec {
                                    template: clone_bytes(v),
                                    motion: Motion::zero(),
                                    lossy: false,
                                },
                            );
                        },
                        Option::None => {
                        },
                    }
                }
            },
            _ => {
            },
        }
        proof {
            assert(acts_view(acts@) =~= swipe_begin_actions(rv.take(i as int))
                + swipe_begin_rule_actions(rv[i as int]));
        }
        i += 1;
    }
    proof {
        assert(rv.take(rules@.len() as int) =~= rv);
    }
    acts
}

/// Walk a matching bucket and decide the swipe update actions.
fn emit_swipe_update(rules: &Vec<Gesture>, dir: SwipeDir, admitted: bool, dx_c: i32, dy_c: i32) -> (acts:
    Vec<Action>)
    ensures
        acts_view(acts@) == swipe_update_actions(rules_view(rules@), dir, admitted, dx_c, dy_c),
{
    let ghost rv = rules_view(rules@);
    let mut acts: Vec<Action> = Vec::new();
    proof {
        assert(rv.take(0) =~= Seq::<GestureV>::empty());
        assert(acts_view(acts@) =~= Seq::<ActionV>::empty());
    }
    let mut i: usize = 0;
    while i < rules.len()
        invariant
            i <= rules@.len(),
            rv == rules_view(rules@),
            acts_view(acts@) == swipe_update_actions(rv.take(i as int), dir, admitted, dx_c, dy_c),
        decreases rules@.len() - i,
    {
        proof {
            assert(rv.take(i + 1) =~= rv.take(i as int).push(rv[i as int]));
            lemma_swipe_update_actions_push(rv.take(i as int), rv[i as int], dir, admitted, dx_c, dy_c);
            assert(rv[i as int] == rules@[i as int]@);
        }
        match &rules[i] {
            Gesture::Swipe(s) => {
                let direct = s.direction == SwipeDir::Any && s.acceleration.is_some()
                    && s.mouse_up_delay.is_some();
                if direct {
                    if admitted {
                        let accel: i8 = match s.acceleration {
                            Option::Some(a) => a,
                            Option::None => 0,
                        };
                        acts.push(
                            Action::MoveRelative {
                                dx: scale_component(dx_c, accel),
                                dy: scale_component(dy_c, accel),
                            },
                        );
                    }
                } else if (s.direction == dir || s.direction == SwipeDir::Any) && admitted {
                    match &s.update {
                        Option::Some(v) => if v.len() > 0 {
                            acts.push(
                                Action::Exec {
                                    template: clone_bytes(v),
                                    motion: (Motion {
                                        dx_c: dx_c as i64,
                                        dy_c: dy_c as i64,
                                        angle_c: 0,
                                        scale_c: 0,
                                    }),
                                    lossy: true,
                                },
                            );
                        },
                        Option::None => {
                        },
                    }
                }
            },
            _ => {
            },
        }
        proof {
            assert(acts_view(acts@) =~= swipe_update_actions(rv.take(i as int), dir, admitted, dx_c, dy_c)
                + swipe_update_rule_actions(rv[i as int], dir, admitted, dx_c, dy_c));
        }
        i += 1;
    }
    proof {
        assert(rv.take(rules@.len() as int) =~= rv);
    }
    acts
}

/// Walk a matching bucket and decide the swipe end actions.
fn emit_swipe_end(rules: &Vec<Gesture>, dir: SwipeDir) -> (acts: Vec<Action>)
    ensures
        acts_view(acts@) == swipe_end_actions(rules_view(rules@), dir),
{
    let ghost rv = rules_view(rules@);
    let mut acts: Vec<Action> = Vec::new();
    proof {
        assert(rv.take(0) =~= Seq::<GestureV>::empty());
        assert(acts_view(acts@) =~= Seq::<ActionV>::empty());
    }
    let mut i: usize = 0;
    while i < rules.len()
        invariant
            i <= rules@.len(),
            rv == rules_view(rules@),
            acts_view(acts@) == swipe_end_actions(rv.take(i as int), dir),
        decreases rules@.len() - i,
    {
        proof {
            assert(rv.take(i + 1) =~= rv.take(i as int).push(rv[i as int]));
            lemma_swipe_end_actions_push(rv.take(i as int), rv[i as int], dir);
            assert(rv[i as int] == rules@[i as int]@);
        }
        match &rules[i] {
            Gesture::Swipe(s) => {
                let direct = s.direction == SwipeDir::Any && s.acceleration.is_some()
                    && s.mouse_up_delay.is_some();
                if direct {
                    let delay: i64 = match s.mouse_up_delay {
                        Option::Some(d) => d,
                        Option::None => 0,
                    };
                    acts.push(Action::MouseUpDelay { button: 1, delay_ms: delay });
                } else if s.direction == dir || s.direction == SwipeDir::Any {
                    match &s.end {
                        Option::Some(v) => if v.len() > 0 {
                            acts.push(
                                Action::Exec {
                                    template: clone_bytes(v),
                                    motion: Motion::zero(),
                                    lossy: false,
                                },
                            );
                        },
                        Option::None => {
                        },
                    }
                }
            },
            _ => {
            },
        }
        proof {
            assert(acts_view(acts@) =~= swipe_end_actions(rv.take(i as int), dir)
                + swipe_end_rule_actions(rv[i as int], dir));
        }
        i += 1;
    }
    proof {
        assert(rv.take(rules@.len() as int) =~= rv);
    }
    acts
}

/// Walk a matching bucket and decide the pinch begin actions.
fn emit_pinch_begin(rules: &Vec<Gesture>) -> (acts: Vec<Action>)
    ensures
        acts_view(acts@) == pinch_begin_actions(rules_view(rules@)),
{
    let ghost rv = rules_view(rules@);
    let mut acts: Vec<Action> = Vec::new();
    proof {
        assert(rv.take(0) =~= Seq::<GestureV>::empty());
        assert(acts_view(acts@) =~= Seq::<ActionV>::empty());
    }
    let mut i: usize = 0;
    while i < rules.len()
        invariant
            i <= rules@.len(),
            rv == rules_view(rules@),
            acts_view(acts@) == pinch_begin_actions(rv.take(i as int)),
        decreases rules@.len() - i,
    {
        proof {
            assert(rv.take(i + 1) =~= rv.take(i as int).push(rv[i as int]));
            lemma_pinch_begin_actions_push(rv.take(i as int), rv[i as int]);
            assert(rv[i as int] == rules@[i as int]@);
        }
        match &rules[i] {
            Gesture::Pinch(p) => {
                if p.direction == PinchDir::Any {
                    match &p.start {
                        Option::Some(v) => if v.len() > 0 {
                            acts.push(
                                Action::Exec {
                                    template: clone_bytes(v),
                                    motion: Motion::zero(),
                                    lossy: false,
                                },
                            );
                        },
                        Option::None => {
                        },
                    }
                }
            },
            _ => {
            },
        }
        proof {
            assert(acts_view(acts@) =~= pinch_begin_actions(rv.take(i as int))
                + pinch_begin_rule_actions(rv[i as int]));
        }
        i += 1;
    }
    proof {
        assert(rv.take(rules@.len() as int) =~= rv);
    }
    acts
}

/// Walk a matching bucket and decide the pinch update actions.
fn emit_pinch_update(rules: &Vec<Gesture>, dir: PinchDir, scale_c: i32, angle_c: i32) -> (acts: Vec<
    Action,
>)
    ensures
        acts_view(acts@) == pinch_update_actions(rules_view(rules@), dir, scale_c, angle_c),
{
    let ghost rv = rules_view(rules@);
    let mut acts: Vec<Action> = Vec::new();
    proof {
        assert(rv.take(0) =~= Seq::<GestureV>::empty());
        assert(acts_view(acts@) =~= Seq::<ActionV>::empty());
    }
    let mut i: usize = 0;
    while i < rules.len()
        invariant
            i <= rules@.len(),
            rv == rules_view(rules@),
            acts_view(acts@) == pinch_update_actions(rv.take(i as int), dir, scale_c, angle_c),
        decreases rules@.len() - i,
    {
        proof {
            assert(rv.take(i + 1) =~= rv.take(i as int).push(rv[i as int]));
            lemma_pinch_update_actions_push(rv.take(i as int), rv[i as int], dir, scale_c, angle_c);
            assert(rv[i as int] == rules@[i as int]@);
        }
        match &rules[i] {
            Gesture::Pinch(p) => {
                if p.direction == dir || p.direction == PinchDir::Any {
                    match &p.update {
                        Option::Some(v) => if v.len() > 0 {
                            acts.push(
                                Action::Exec {
                                    template: clone_bytes(v),
                                    motion: (Motion {
                                        dx_c: 0,
                                        dy_c: 0,
                                        angle_c: angle_c as i64,
                                        scale_c: scale_c as i64,
                                    }),
                                    lossy: true,
                                },
                            );
                        },
                        Option::None => {
                        },
                    }
                }
            },
            _ => {
            },
        }
        proof {
            assert(acts_view(acts@) =~= pinch_update_actions(rv.take(i as int), dir, scale_c, angle_c)
                + pinch_update_rule_actions(rv[i as int], dir, scale_c, angle_c));
        }
        i += 1;
    }
    proof {
        assert(rv.take(rules@.len() as int) =~= rv);
    }
    acts
}

/// Walk a matching bucket and decide the pinch end actions.
fn emit_pinch_end(rules: &Vec<Gesture>, dir: PinchDir) -> (acts: Vec<Action>)
    ensures
        acts_view(acts@) == pinch_end_actions(rules_view(rules@), dir),
{
    let ghost rv = rules_view(rules@);
    let mut acts: Vec<Action> = Vec::new();
    proof {
        assert(rv.take(0) =~= Seq::<GestureV>::empty());
        assert(acts_view(acts@) =~= Seq::<ActionV>::empty());
    }
    let mut i: usize = 0;
    while i < rules.len()
        invariant
            i <= rules@.len(),
            rv == rules_view(rules@),
            acts_view(acts@) == pinch_end_actions(rv.take(i as int), dir),
        decreases rules@.len() - i,
    {
        proof {
            assert(rv.take(i + 1) =~= rv.take(i as int).push(rv[i as int]));
            lemma_pinch_end_actions_push(rv.take(i as int), rv[i as int], dir);
            assert(rv[i as int] == rules@[i as int]@);
        }
        match &rules[i] {
            Gesture::Pinch(p) => {
                if p.direction == dir || p.direction == PinchDir::Any {
                    match &p.end {
                        Option::Some(v) => if v.len() > 0 {
                            acts.push(
                                Action::Exec {
                                    template: clone_bytes(v),
                                    motion: Motion::zero(),
                                    lossy: false,
                                },
                            );
                        },
                        Option::None => {
                        },
                    }
                }
            },
            _ => {
            },
        }
        proof {
            assert(acts_view(acts@) =~= pinch_end_actions(rv.take(i as int), dir)
                + pinch_end_rule_actions(rv[i as int], dir));
        }
        i += 1;
    }
    proof {
        assert(rv.take(rules@.len() as int) =~= rv);
    }
    acts
}

/// Walk a matching bucket and decide the hold end actions.
fn emit_hold_end(rules: &Vec<Gesture>) -> (acts: Vec<Action>)
    ensures
        acts_view(acts@) == hold_end_actions(rules_view(rules@)),
{
    let ghost rv = rules_view(rules@);
    let mut acts: Vec<Action> = Vec::new();
    proof {
        assert(rv.take(0) =~= Seq::<GestureV>::empty());
        assert(acts_view(acts@) =~= Seq::<ActionV>::empty());
    }
    let mut i: usize = 0;
    while i < rules.len()
        invariant
            i <= rules@.len(),
            rv == rules_view(rules@),
            acts_view(acts@) == hold_end_actions(rv.take(i as int)),
        decreases rules@.len() - i,
    {
        proof {
            assert(rv.take(i + 1) =~= rv.take(i as int).push(rv[i as int]));
            lemma_hold_end_actions_push(rv.take(i as int), rv[i as int]);
            assert(rv[i as int] == rules@[i as int]@);
        }
        match &rules[i] {
            Gesture::Hold(h) => {
                match &h.action {
                    Option::Some(v) => if v.len() > 0 {
                        acts.push(
                            Action::Exec {
                                template: clone_bytes(v),
                                motion: Motion::zero(),
                                lossy: false,
                            },
                        );
                    },
                    Option::None => {
                    },
                }
            },
            _ => {
            },
        }
        proof {
            assert(acts_view(acts@) =~= hold_end_actions(rv.take(i as int))
                + hold_end_rule_actions(rv[i as int]));
        }
        i += 1;
    }
    proof {
        assert(rv.take(rules@.len() as int) =~= rv);
    }
    acts
}

impl EventHandler {
    /// A fresh handler: no gesture in flight, an empty index, and a
    /// throttle admitting at most `fps` updates per second, both stamped
    /// with the clock at `now_us`.
    pub fn new(fps: u32, now_us: u64) -> (h: EventHandler)
        requires
            fps >= 1,
        ensures
            h.event@ == GestureV::Null,
            h.cache.indexes(Seq::<GestureV>::empty()),
            h.cache.last_update_us == now_us,
            h.throttle.last_update_us == now_us,
            h.throttle.min_interval_us == 1_000_000 as int / fps as int,
    {
        EventHandler {
            event: Gesture::Null,
            cache: GestureCache::new(now_us),
            throttle: ThrottleState::new(fps, now_us),
        }
    }

    /// Rebuild the rule index from the configuration snapshot if its
    /// build time lies more than a second behind the clock.
    pub fn update_cache(&mut self, config: &Config, now_us: u64)
        requires
            old(self).cache.last_update_us <= now_us,
        ensures
            cache_refreshed(old(self).cache, final(self).cache, config@, now_us),
            final(self).event == old(self).event,
            final(self).throttle == old(self).throttle,
    {
        if now_us - self.cache.last_update_us > 1_000_000 {
            self.cache = GestureCache::rebuild(config, now_us);
        }
    }

    /// A swipe begins: record it and decide the begin actions.
    pub fn handle_swipe_begin(&mut self, fingers: i32, config: &Config, now_us: u64) -> (acts: Vec<
        Action,
    >)
        requires
            old(self).cache.last_update_us <= now_us,
        ensures
            swipe_begin_post(
                *old(self),
                *final(self),
                acts_view(acts@),
                fingers as int,
                config@,
                now_us,
            ),
    {
        self.event = Gesture::Swipe(Swipe::new(fingers));
        self.update_cache(config, now_us);
        let rules = self.cache.lookup(GestureKind::Swipe, fingers);
        emit_swipe_begin(&rules)
    }

    /// A swipe moves: recompute its direction, consult the throttle once,
    /// and decide the update actions.
    pub fn handle_swipe_update(&mut self, dx_c: i32, dy_c: i32, config: &Config, now_us: u64) -> (acts:
        Vec<Action>)
        requires
            clock_ok(*old(self), now_us),
        ensures
            swipe_update_post(
                *old(self),
                *final(self),
                acts_view(acts@),
                dx_c,
                dy_c,
                config@,
                now_us,
            ),
    {
        let fingers: i32 = match &self.event {
            Gesture::Swipe(s) => s.fingers,
            _ => {
                let acts: Vec<Action> = Vec::new();
                proof {
                    assert(acts_view(acts@) =~= Seq::<ActionV>::empty());
                }
                return acts;
            },
        };
        let dir = SwipeDir::dir(dx_c, dy_c);
        let admitted = self.throttle.should_update(now_us);
        self.event = Gesture::Swipe(Swipe::with_direction(fingers, dir));
        self.update_cache(config, now_us);
        let rules = self.cache.lookup(GestureKind::Swipe, fingers);
        emit_swipe_update(&rules, dir, admitted, dx_c, dy_c)
    }

    /// A swipe ends without being cancelled: decide the end actions for
    /// the direction seen so far.
    pub fn handle_swipe_end(&mut self, config: &Config, now_us: u64) -> (acts: Vec<Action>)
        requires
            old(self).cache.last_update_us <= now_us,
        ensures
            swipe_end_post(*old(self), *final(self), acts_view(acts@), config@, now_us),
    {
        let (fingers, direction): (i32, SwipeDir) = match &self.event {
            Gesture::Swipe(s) => (s.fingers, s.direction),
            _ => {
                let acts: Vec<Action> = Vec::new();
                proof {
                    assert(acts_view(acts@) =~= Seq::<ActionV>::empty());
                }
                return acts;
            },
        };
        self.update_cache(config, now_us);
        let rules = self.cache.lookup(GestureKind::Swipe, fingers);
        emit_swipe_end(&rules, direction)
    }

    /// A pinch begins: record it and decide the begin actions.
    pub fn handle_pinch_begin(&mut self, fingers: i32, config: &Config, now_us: u64) -> (acts: Vec<
        Action,
    >)
        requires
            old(self).cache.last_update_us <= now_us,
        ensures
            pinch_begin_post(
                *old(self),
                *final(self),
                acts_view(acts@),
                fingers as int,
                config@,
                now_us,
            ),
    {
        self.event = Gesture::Pinch(
            Pinch {
                direction: PinchDir::Any,
                fingers,
                update: Option::None,
                start: Option::None,
                end: Option::None,
            },
        );
        self.update_cache(config, now_us);
        let rules = self.cache.lookup(GestureKind::Pinch, fingers);
        emit_pinch_begin(&rules)
    }

    /// A pinch moves: recompute its direction from scale and angle and
    /// decide the update actions.
    pub fn handle_pinch_update(
        &mut self,
        scale_c: i32,
        angle_c: i32,
        config: &Config,
        now_us: u64,
    ) -> (acts: Vec<Action>)
        requires
            old(self).cache.last_update_us <= now_us,
        ensures
            pinch_update_post(
                *old(self),
                *final(self),
                acts_view(acts@),
                scale_c,
                angle_c,
                config@,
                now_us,
            ),
    {
        let fingers: i32 = match &self.event {
            Gesture::Pinch(p) => p.fingers,
            _ => {
                let acts: Vec<Action> = Vec::new();
                proof {
                    assert(acts_view(acts@) =~= Seq::<ActionV>::empty());
                }
                return acts;
            },
        };
        let dir = PinchDir::dir(scale_c, angle_c);
        self.event = Gesture::Pinch(
            Pinch {
                direction: dir,
                fingers,
                update: Option::None,
                start: Option::None,
                end: Option::None,
            },
        );
        self.update_cache(config, now_us);
        let rules = self.cache.lookup(GestureKind::Pinch, fingers);
        emit_pinch_update(&rules, dir, scale_c, angle_c)
    }

    /// A pinch ends: decide the end actions for the direction seen so
    /// far.
    pub fn handle_pinch_end(&mut self, config: &Config, now_us: u64) -> (acts: Vec<Action>)
        requires
            old(self).cache.last_update_us <= now_us,
        ensures
            pinch_end_post(*old(self), *final(self), acts_view(acts@), config@, now_us),
    {
        let (fingers, direction): (i32, PinchDir) = match &self.event {
            Gesture::Pinch(p) => (p.fingers, p.direction),
            _ => {
                let acts: Vec<Action> = Vec::new();
                proof {
                    assert(acts_view(acts@) =~= Seq::<ActionV>::empty());
                }
                return acts;
            },
        };
        self.update_cache(config, now_us);
        let rules = self.cache.lookup(GestureKind::Pinch, fingers);
        emit_pinch_end(&rules, direction)
    }

    /// A hold begins: only record it.
    pub fn handle_hold_begin(&mut self, fingers: i32) -> (acts: Vec<Action>)
        ensures
            hold_begin_post(*old(self), *final(self), acts_view(acts@), fingers as int),
    {
        self.event = Gesture::Hold(Hold { fingers, action: Option::None });
        let acts: Vec<Action> = Vec::new();
        proof {
            assert(acts_view(acts@) =~= Seq::<ActionV>::empty());
        }
        acts
    }

    /// A hold ends: fire the matching action strings.
    pub fn handle_hold_end(&mut self, config: &Config, now_us: u64) -> (acts: Vec<Action>)
        requires
            old(self).cache.last_update_us <= now_us,
        ensures
            hold_end_post(*old(self), *final(self), acts_view(acts@), config@, now_us),
    {
        let fingers: i32 = match &self.event {
            Gesture::Hold(h) => h.fingers,
            _ => {
                let acts: Vec<Action> = Vec::new();
                proof {
                    assert(acts_view(acts@) =~= Seq::<ActionV>::empty());
                }
                return acts;
            },
        };
        self.update_cache(config, now_us);
        let rules = self.cache.lookup(GestureKind::Hold, fingers);
        emit_hold_end(&rules)
    }

    /// Dispatch one decoded event by phase. Cancelled swipe ends are
    /// silently dropped, and events whose phase contradicts the gesture
    /// in flight are ignored.
    pub fn handle_event(&mut self, ev: &GestureEvent, config: &Config, now_us: u64) -> (acts: Vec<
        Action,
    >)
        requires
            clock_ok(*old(self), now_us),
        ensures
            step_post(*old(self), *final(self), acts_view(acts@), *ev, config@, now_us),
    {
        match *ev {
            GestureEvent::SwipeBegin { fingers } => self.handle_swipe_begin(
                fingers,
                config,
                now_us,
            ),
            GestureEvent::SwipeUpdate { dx_c, dy_c } => self.handle_swipe_update(
                dx_c,
                dy_c,
                config,
                now_us,
            ),
            GestureEvent::SwipeEnd { cancelled } => {
                if cancelled {
                    let acts: Vec<Action> = Vec::new();
                    proof {
                        assert(acts_view(acts@) =~= Seq::<ActionV>::empty());
                    }
                    acts
                } else {
                    self.handle_swipe_end(config, now_us)
                }
            },
            GestureEvent::PinchBegin { fingers } => self.handle_pinch_begin(
                fingers,
                config,
                now_us,
            ),
            GestureEvent::PinchUpdate { scale_c, angle_c } => self.handle_pinch_update(
                scale_c,
                angle_c,
                config,
                now_us,
            ),
            GestureEvent::PinchEnd => self.handle_pinch_end(config, now_us),
            GestureEvent::HoldBegin { fingers } => self.handle_hold_begin(fingers),
            GestureEvent::HoldEnd => self.handle_hold_end(config, now_us),
        }
    }
}

} // verus!
