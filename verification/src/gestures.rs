//! Gesture rules and direction classification.
//!
//! A configured rule is one of three kinds (swipe, pinch, hold); the same
//! tagged union, with a null value, also records the gesture currently in
//! flight. Directions are classified from integer motion samples given in
//! hundredths (fixed point with two decimal places), the unit in which all
//! motion parameters circulate through this crate.

use vstd::math::abs;
use vstd::prelude::*;

verus! {

/// Direction of swipe gestures on the compass rose, with `Any` as the
/// wildcard that matches every concrete direction.
///
/// ```text
/// NW  N  NE
/// W   C   E
/// SW  S  SE
/// ```
#[derive(Clone, Copy, Debug, PartialEq, Eq, Structural)]
pub enum SwipeDir {
    Any,
    N,
    S,
    E,
    W,
    NE,
    NW,
    SE,
    SW,
}

/// Direction of pinch gestures, with `Any` as the wildcard.
#[derive(Clone, Copy, Debug, PartialEq, Eq, Structural)]
pub enum PinchDir {
    Any,
    In,
    Out,
    Clockwise,
    Counterclockwise,
}

/// The displacement (x, y) lies strictly within one half-octant (π/8) of
/// the x axis: |y| < |x|·tan(π/8). Since tan(π/8) = √2 − 1, that is
/// equivalent to (|x| + |y|)² < 2·x², which is exact on integers.
pub open spec fn near_x_axis(x: int, y: int) -> bool {
    let a = abs(x);
    let b = abs(y);
    (a + b) * (a + b) < 2 * (a * a)
}

/// The displacement (x, y) lies strictly within one half-octant (π/8) of
/// the y axis: |x| < |y|·tan(π/8).
pub open spec fn near_y_axis(x: int, y: int) -> bool {
    let a = abs(x);
    let b = abs(y);
    (a + b) * (a + b) < 2 * (b * b)
}

/// Classification of a swipe displacement, in screen coordinates (y grows
/// downward), into the eight octants of width π/4 centred on the compass
/// directions, with boundaries at ±π/8, ±3π/8, ±5π/8, ±7π/8; the zero
/// displacement is `Any`. On integer displacements no boundary angle is
/// representable (the boundary slopes are irrational), so the strictness
/// of the comparisons never decides a reachable input.
pub open spec fn swipe_dir_spec(x: int, y: int) -> SwipeDir {
    if x == 0 && y == 0 {
        SwipeDir::Any
    } else if near_x_axis(x, y) {
        if x > 0 {
            SwipeDir::E
        } else {
            SwipeDir::W
        }
    } else if near_y_axis(x, y) {
        if y > 0 {
            SwipeDir::S
        } else {
            SwipeDir::N
        }
    } else if x > 0 {
        if y > 0 {
            SwipeDir::SE
        } else {
            SwipeDir::NE
        }
    } else {
        if y > 0 {
            SwipeDir::SW
        } else {
            SwipeDir::NW
        }
    }
}

/// Classification of a pinch sample: the scale (in hundredths, 100 being
/// the neutral ratio 1.0) dominates the accumulated angle when its
/// deviation from neutral is at least as large in magnitude, giving `Out`
/// or `In`; otherwise the sign of the angle gives the rotation sense.
/// A fully neutral sample is `Any`.
pub open spec fn pinch_dir_spec(scale_c: int, angle_c: int) -> PinchDir {
    let dev = scale_c - 100;
    if dev == 0 && angle_c == 0 {
        PinchDir::Any
    } else if abs(dev) >= abs(angle_c) {
        if dev > 0 {
            PinchDir::Out
        } else {
            PinchDir::In
        }
    } else {
        if angle_c > 0 {
            PinchDir::Clockwise
        } else {
            PinchDir::Counterclockwise
        }
    }
}

/// Absolute value of an `i32`, widened so that `i32::MIN` is no special
/// case.
fn abs_wide(x: i32) -> (r: u128)
    ensures
        r as int == abs(x as int),
{
    let wide: i64 = x as i64;
    if wide < 0 {
        (-wide) as u128
    } else {
        wide as u128
    }
}

impl SwipeDir {
    /// Classify a swipe displacement, given in screen coordinates
    /// (y grows downward) in hundredths, into a compass direction;
    /// the zero displacement yields `Any`.
    pub fn dir(x: i32, y: i32) -> (d: SwipeDir)
        ensures
            d == swipe_dir_spec(x as int, y as int),
    {
        if x == 0 && y == 0 {
            return SwipeDir::Any;
        }
        let a: u128 = abs_wide(x);
        let b: u128 = abs_wide(y);
        let s: u128 = a + b;
        assert(s * s <= 0x100000000u128 * 0x100000000u128) by (nonlinear_arith)
            requires
                s <= 0x100000000u128,
        ;
        assert(a * a <= 0x100000000u128 * 0x100000000u128) by (nonlinear_arith)
            requires
                a <= 0x100000000u128,
        ;
        assert(b * b <= 0x100000000u128 * 0x100000000u128) by (nonlinear_arith)
            requires
                b <= 0x100000000u128,
        ;
        let s2: u128 = s * s;
        if s2 < 2 * (a * a) {
            if x > 0 {
                SwipeDir::E
            } else {
                SwipeDir::W
            }
        } else if s2 < 2 * (b * b) {
            if y > 0 {
                SwipeDir::S
            } else {
                SwipeDir::N
            }
        } else if x > 0 {
            if y > 0 {
                SwipeDir::SE
            } else {
                SwipeDir::NE
            }
        } else {
            if y > 0 {
                SwipeDir::SW
            } else {
                SwipeDir::NW
            }
        }
    }
}

impl PinchDir {
    /// Classify a pinch sample from its scale (hundredths of the ratio,
    /// 100 = neutral) and accumulated angle (hundredths).
    pub fn dir(scale_c: i32, angle_c: i32) -> (d: PinchDir)
        ensures
            d == pinch_dir_spec(scale_c as int, angle_c as int),
    {
        let dev: i64 = scale_c as i64 - 100;
        let adev: i64 = if dev < 0 {
            -dev
        } else {
            dev
        };
        let ang: i64 = angle_c as i64;
        let aang: i64 = if ang < 0 {
            -ang
        } else {
            ang
        };
        if dev == 0 && angle_c == 0 {
            PinchDir::Any
        } else if adev >= aang {
            if dev > 0 {
                PinchDir::Out
            } else {
                PinchDir::In
            }
        } else {
            if angle_c > 0 {
                PinchDir::Clockwise
            } else {
                PinchDir::Counterclockwise
            }
        }
    }
}

/// Mathematical value of an optional byte string (an optional action
/// string of a rule).
pub open spec fn opt_bytes_view(o: Option<Vec<u8>>) -> Option<Seq<u8>> {
    match o {
        Option::Some(v) => Option::Some(v@),
        Option::None => Option::None,
    }
}

/// A configured swipe rule. Action strings are opaque shell snippets,
/// held as bytes; `None` and the empty string both mean "do nothing".
#[derive(Debug)]
pub struct Swipe {
    pub direction: SwipeDir,
    pub fingers: i32,
    pub update: Option<Vec<u8>>,
    pub start: Option<Vec<u8>>,
    pub end: Option<Vec<u8>>,
    pub acceleration: Option<i8>,
    pub mouse_up_delay: Option<i64>,
}

/// Mathematical value of a swipe rule.
pub ghost struct SwipeV {
    pub direction: SwipeDir,
    pub fingers: int,
    pub update: Option<Seq<u8>>,
    pub start: Option<Seq<u8>>,
    pub end: Option<Seq<u8>>,
    pub acceleration: Option<int>,
    pub mouse_up_delay: Option<int>,
}

impl View for Swipe {
    type V = SwipeV;

    open spec fn view(&self) -> SwipeV {
        SwipeV {
            direction: self.direction,
            fingers: self.fingers as int,
            update: opt_bytes_view(self.update),
            start: opt_bytes_view(self.start),
            end: opt_bytes_view(self.end),
            acceleration: match self.acceleration {
                Option::Some(a) => Option::Some(a as int),
                Option::None => Option::None,
            },
            mouse_up_delay: match self.mouse_up_delay {
                Option::Some(d) => Option::Some(d as int),
                Option::None => Option::None,
            },
        }
    }
}

/// A configured pinch rule.
#[derive(Debug)]
pub struct Pinch {
    pub direction: PinchDir,
    pub fingers: i32,
    pub update: Option<Vec<u8>>,
    pub start: Option<Vec<u8>>,
    pub end: Option<Vec<u8>>,
}

/// Mathematical value of a pinch rule.
pub ghost struct PinchV {
    pub direction: PinchDir,
    pub fingers: int,
    pub update: Option<Seq<u8>>,
    pub start: Option<Seq<u8>>,
    pub end: Option<Seq<u8>>,
}

impl View for Pinch {
    type V = PinchV;

    open spec fn view(&self) -> PinchV {
        PinchV {
            direction: self.direction,
            fingers: self.fingers as int,
            update: opt_bytes_view(self.update),
            start: opt_bytes_view(self.start),
            end: opt_bytes_view(self.end),
        }
    }
}

/// A configured hold rule.
#[derive(Debug)]
pub struct Hold {
    pub fingers: i32,
    pub action: Option<Vec<u8>>,
}

/// Mathematical value of a hold rule.
pub ghost struct HoldV {
    pub fingers: int,
    pub action: Option<Seq<u8>>,
}

impl View for Hold {
    type V = HoldV;

    open spec fn view(&self) -> HoldV {
        HoldV { fingers: self.fingers as int, action: opt_bytes_view(self.action) }
    }
}

/// A gesture: either a configured rule of one of the three kinds, or, when
/// used as the current-gesture state, the null value meaning that no
/// gesture is in flight.
#[derive(Debug)]
pub enum Gesture {
    Null,
    Swipe(Swipe),
    Pinch(Pinch),
    Hold(Hold),
}

/// Mathematical value of a gesture.
pub ghost enum GestureV {
    Null,
    Swipe(SwipeV),
    Pinch(PinchV),
    Hold(HoldV),
}

impl View for Gesture {
    type V = GestureV;

    open spec fn view(&self) -> GestureV {
        match self {
            Gesture::Null => GestureV::Null,
            Gesture::Swipe(s) => GestureV::Swipe(s@),
            Gesture::Pinch(p) => GestureV::Pinch(p@),
            Gesture::Hold(h) => GestureV::Hold(h@),
        }
    }
}

/// The mathematical values of a rule list, element-wise.
pub open spec fn rules_view(v: Seq<Gesture>) -> Seq<GestureV> {
    v.map_values(|g: Gesture| g@)
}

/// The swipe state value of a gesture in flight: a finger count and the
/// direction so far, no actions.
pub open spec fn swipe_state(fingers: int, direction: SwipeDir) -> SwipeV {
    SwipeV {
        direction,
        fingers,
        update: Option::None,
        start: Option::None,
        end: Option::None,
        acceleration: Option::None,
        mouse_up_delay: Option::None,
    }
}

/// The pinch state value of a gesture in flight.
pub open spec fn pinch_state(fingers: int, direction: PinchDir) -> PinchV {
    PinchV {
        direction,
        fingers,
        update: Option::None,
        start: Option::None,
        end: Option::None,
    }
}

/// The hold state value of a gesture in flight.
pub open spec fn hold_state(fingers: int) -> HoldV {
    HoldV { fingers, action: Option::None }
}

impl Swipe {
    /// A fresh swipe state: no direction seen yet.
    pub fn new(fingers: i32) -> (s: Swipe)
        ensures
            s@ == swipe_state(fingers as int, SwipeDir::Any),
    {
        Swipe {
            direction: SwipeDir::Any,
            fingers,
            update: Option::None,
            start: Option::None,
            end: Option::None,
            acceleration: Option::None,
            mouse_up_delay: Option::None,
        }
    }

    /// A swipe state with the direction recomputed from the latest
    /// motion.
    pub fn with_direction(fingers: i32, direction: SwipeDir) -> (s: Swipe)
        ensures
            s@ == swipe_state(fingers as int, direction),
    {
        Swipe {
            direction,
            fingers,
            update: Option::None,
            start: Option::None,
            end: Option::None,
            acceleration: Option::None,
            mouse_up_delay: Option::None,
        }
    }
}

/// Compare two optional byte strings by contents.
fn opt_bytes_eq(a: &Option<Vec<u8>>, b: &Option<Vec<u8>>) -> (r: bool)
    ensures
        r == (opt_bytes_view(*a) == opt_bytes_view(*b)),
{
    match (a, b) {
        (Option::None, Option::None) => true,
        (Option::Some(x), Option::Some(y)) => bytes_eq(x, y),
        _ => false,
    }
}

/// Compare two byte strings by contents.
pub fn bytes_eq(a: &Vec<u8>, b: &Vec<u8>) -> (r: bool)
    ensures
        r == (a@ == b@),
{
    if a.len() != b.len() {
        return false;
    }
    let mut i: usize = 0;
    while i < a.len()
        invariant
            i <= a.len(),
            a.len() == b.len(),
            forall|j: int| 0 <= j < i ==> a@[j] == b@[j],
        decreases a.len() - i,
    {
        if a[i] != b[i] {
            return false;
        }
        i += 1;
    }
    proof {
        assert(a@ =~= b@);
    }
    true
}

/// Copy a byte string.
pub fn clone_bytes(v: &Vec<u8>) -> (r: Vec<u8>)
    ensures
        r@ == v@,
{
    let r = v.clone();
    proof {
        assert forall|i: int| 0 <= i < v@.len() implies v@[i] == r@[i] by {
            assert(cloned::<u8>(v[i], r[i]));
        }
        assert(r@ =~= v@);
    }
    r
}

/// Copy an optional byte string.
fn clone_opt_bytes(o: &Option<Vec<u8>>) -> (r: Option<Vec<u8>>)
    ensures
        opt_bytes_view(r) == opt_bytes_view(*o),
{
    match o {
        Option::None => Option::None,
        Option::Some(v) => Option::Some(clone_bytes(v)),
    }
}

impl Clone for Swipe {
    /// A copy with the same mathematical value.
    fn clone(&self) -> (r: Self)
        ensures
            r@ == self@,
    {
        Swipe {
            direction: self.direction,
            fingers: self.fingers,
            update: clone_opt_bytes(&self.update),
            start: clone_opt_bytes(&self.start),
            end: clone_opt_bytes(&self.end),
            acceleration: self.acceleration,
            mouse_up_delay: self.mouse_up_delay,
        }
    }
}

impl Clone for Pinch {
    /// A copy with the same mathematical value.
    fn clone(&self) -> (r: Self)
        ensures
            r@ == self@,
    {
        Pinch {
            direction: self.direction,
            fingers: self.fingers,
            update: clone_opt_bytes(&self.update),
            start: clone_opt_bytes(&self.start),
            end: clone_opt_bytes(&self.end),
        }
    }
}

impl Clone for Hold {
    /// A copy with the same mathematical value.
    fn clone(&self) -> (r: Self)
        ensures
            r@ == self@,
    {
        Hold { fingers: self.fingers, action: clone_opt_bytes(&self.action) }
    }
}

impl Clone for Gesture {
    /// A copy with the same mathematical value.
    fn clone(&self) -> (r: Self)
        ensures
            r@ == self@,
    {
        match self {
            Gesture::Null => Gesture::Null,
            Gesture::Swipe(s) => Gesture::Swipe(s.clone()),
            Gesture::Pinch(p) => Gesture::Pinch(p.clone()),
            Gesture::Hold(h) => Gesture::Hold(h.clone()),
        }
    }
}

impl PartialEq for Swipe {
    fn eq(&self, other: &Self) -> (r: bool) {
        let acc_eq = match (self.acceleration, other.acceleration) {
            (Option::None, Option::None) => true,
            (Option::Some(x), Option::Some(y)) => x == y,
            _ => false,
        };
        let delay_eq = match (self.mouse_up_delay, other.mouse_up_delay) {
            (Option::None, Option::None) => true,
            (Option::Some(x), Option::Some(y)) => x == y,
            _ => false,
        };
        self.direction == other.direction && self.fingers == other.fingers && acc_eq && delay_eq
            && opt_bytes_eq(&self.update, &other.update) && opt_bytes_eq(
            &self.start,
            &other.start,
        ) && opt_bytes_eq(&self.end, &other.end)
    }
}

impl vstd::std_specs::cmp::PartialEqSpecImpl for Swipe {
    open spec fn obeys_eq_spec() -> bool {
        true
    }

    open spec fn eq_spec(&self, other: &Self) -> bool {
        self@ == other@
    }
}

impl Eq for Swipe {

}

impl PartialEq for Pinch {
    fn eq(&self, other: &Self) -> (r: bool) {
        self.direction == other.direction && self.fingers == other.fingers && opt_bytes_eq(
            &self.update,
            &other.update,
        ) && opt_bytes_eq(&self.start, &other.start) && opt_bytes_eq(&self.end, &other.end)
    }
}

impl vstd::std_specs::cmp::PartialEqSpecImpl for Pinch {
    open spec fn obeys_eq_spec() -> bool {
        true
    }

    open spec fn eq_spec(&self, other: &Self) -> bool {
        self@ == other@
    }
}

impl Eq for Pinch {

}

impl PartialEq for Hold {
    fn eq(&self, other: &Self) -> (r: bool) {
        self.fingers == other.fingers && opt_bytes_eq(&self.action, &other.action)
    }
}

impl vstd::std_specs::cmp::PartialEqSpecImpl for Hold {
    open spec fn obeys_eq_spec() -> bool {
        true
    }

    open spec fn eq_spec(&self, other: &Self) -> bool {
        self@ == other@
    }
}

impl Eq for Hold {

}

impl PartialEq for Gesture {
    fn eq(&self, other: &Self) -> (r: bool) {
        match (self, other) {
            (Gesture::Null, Gesture::Null) => true,
            (Gesture::Swipe(a), Gesture::Swipe(b)) => a == b,
            (Gesture::Pinch(a), Gesture::Pinch(b)) => a == b,
            (Gesture::Hold(a), Gesture::Hold(b)) => a == b,
            _ => false,
        }
    }
}

impl vstd::std_specs::cmp::PartialEqSpecImpl for Gesture {
    open spec fn obeys_eq_spec() -> bool {
        true
    }

    open spec fn eq_spec(&self, other: &Self) -> bool {
        self@ == other@
    }
}

impl Eq for Gesture {

}

/// The classifier is a total function: every displacement is given a
/// direction, `Any` exactly for the zero displacement.
pub proof fn lemma_swipe_dir_total(x: int, y: int)
    ensures
        (x == 0 && y == 0) <==> swipe_dir_spec(x, y) == SwipeDir::Any,
{
}

/// Classification depends only on the direction of the displacement, not
/// on its magnitude: scaling both components by the same positive factor
/// leaves the result unchanged. In particular the behaviour at and near
/// the octant boundaries is stable.
pub proof fn lemma_swipe_dir_scale_invariant(x: int, y: int, k: int)
    requires
        k > 0,
    ensures
        swipe_dir_spec(k * x, k * y) == swipe_dir_spec(x, y),
{
    assert(abs(k * x) == k * abs(x)) by (nonlinear_arith)
        requires
            k > 0,
    ;
    assert(abs(k * y) == k * abs(y)) by (nonlinear_arith)
        requires
            k > 0,
    ;
    let a = abs(x);
    let b = abs(y);
    assert((k * a + k * b) * (k * a + k * b) < 2 * ((k * a) * (k * a)) <==> (a + b) * (a + b) < 2
        * (a * a)) by (nonlinear_arith)
        requires
            k > 0,
            a >= 0,
            b >= 0,
    ;
    assert((k * a + k * b) * (k * a + k * b) < 2 * ((k * b) * (k * b)) <==> (a + b) * (a + b) < 2
        * (b * b)) by (nonlinear_arith)
        requires
            k > 0,
            a >= 0,
            b >= 0,
    ;
    assert(near_x_axis(k * x, k * y) <==> near_x_axis(x, y));
    assert(near_y_axis(k * x, k * y) <==> near_y_axis(x, y));
    assert(k * x == 0 <==> x == 0) by (nonlinear_arith)
        requires
            k > 0,
    ;
    assert(k * y == 0 <==> y == 0) by (nonlinear_arith)
        requires
            k > 0,
    ;
    assert(k * x > 0 <==> x > 0) by (nonlinear_arith)
        requires
            k > 0,
    ;
    assert(k * y > 0 <==> y > 0) by (nonlinear_arith)
        requires
            k > 0,
    ;
}

} // verus!
