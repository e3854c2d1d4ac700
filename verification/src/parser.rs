//! The textual rule configuration: a line-oriented format of `swipe`,
//! `pinch` and `hold` nodes with `name=value` properties, its parser and
//! its serialiser, and the proof that the one reads back what the other
//! wrote.
//!
//! Values are quoted strings (with `\"`, `\\` and `\n` escapes) or signed
//! integers; blank lines and `//` comments are skipped; properties may
//! come in any order, each at most once. The serialiser writes one node
//! per line in a fixed property order.

use crate::cache::GestureKind;
use crate::config::Config;
use crate::config::ConfigError;
use crate::gestures::bytes_eq;
use crate::gestures::clone_bytes;
use crate::gestures::rules_view;
use crate::gestures::Gesture;
use crate::gestures::GestureV;
use crate::gestures::Hold;
use crate::gestures::HoldV;
use crate::gestures::Pinch;
use crate::gestures::PinchDir;
use crate::gestures::PinchV;
use crate::gestures::Swipe;
use crate::gestures::SwipeDir;
use crate::gestures::SwipeV;
use crate::numfmt::dec_digits;
use crate::numfmt::i64_to_dec;
use crate::numfmt::is_dec_digit;
use crate::numfmt::parse_i64;
use crate::numfmt::parse_int_spec;
use crate::numfmt::render_int_spec;
use crate::numfmt::BMINUS;
use vstd::prelude::*;

verus! {

/// ASCII space.
pub const SPACE: u8 = 0x20;

/// ASCII horizontal tab.
pub const TAB: u8 = 0x09;

/// ASCII carriage return.
pub const CR: u8 = 0x0D;

/// ASCII line feed: the line separator.
pub const NL: u8 = 0x0A;

/// ASCII double quote.
pub const QUOTE: u8 = 0x22;

/// ASCII backslash.
pub const BSLASH: u8 = 0x5C;

/// ASCII equals sign.
pub const EQ: u8 = 0x3D;

/// ASCII slash; two of them open a comment line.
pub const SLASH: u8 = 0x2F;

/// ASCII `n`, the escape letter for a line feed.
pub const ESC_N: u8 = 0x6E;

/// Whitespace within a line.
pub open spec fn is_ws(b: u8) -> bool {
    b == SPACE || b == TAB || b == CR
}

/// A byte of a node or property name: a lowercase letter or a dash.
pub open spec fn is_ident_byte(b: u8) -> bool {
    (0x61 <= b && b <= 0x7A) || b == 0x2D
}

/// A byte of an integer token.
pub open spec fn is_int_byte(b: u8) -> bool {
    is_dec_digit(b) || b == BMINUS
}

/// The bytes of `swipe`.
pub open spec fn name_swipe() -> Seq<u8> {
    seq![0x73u8, 0x77, 0x69, 0x70, 0x65]
}

/// The bytes of `pinch`.
pub open spec fn name_pinch() -> Seq<u8> {
    seq![0x70u8, 0x69, 0x6E, 0x63, 0x68]
}

/// The bytes of `hold`.
pub open spec fn name_hold() -> Seq<u8> {
    seq![0x68u8, 0x6F, 0x6C, 0x64]
}

/// The bytes of `direction`.
pub open spec fn name_direction() -> Seq<u8> {
    seq![0x64u8, 0x69, 0x72, 0x65, 0x63, 0x74, 0x69, 0x6F, 0x6E]
}

/// The bytes of `fingers`.
pub open spec fn name_fingers() -> Seq<u8> {
    seq![0x66u8, 0x69, 0x6E, 0x67, 0x65, 0x72, 0x73]
}

/// The bytes of `update`.
pub open spec fn name_update() -> Seq<u8> {
    seq![0x75u8, 0x70, 0x64, 0x61, 0x74, 0x65]
}

/// The bytes of `start`.
pub open spec fn name_start() -> Seq<u8> {
    seq![0x73u8, 0x74, 0x61, 0x72, 0x74]
}

/// The bytes of `end`.
pub open spec fn name_end() -> Seq<u8> {
    seq![0x65u8, 0x6E, 0x64]
}

/// The bytes of `acceleration`.
pub open spec fn name_acceleration() -> Seq<u8> {
    seq![0x61u8, 0x63, 0x63, 0x65, 0x6C, 0x65, 0x72, 0x61, 0x74, 0x69, 0x6F, 0x6E]
}

/// The bytes of `mouse-up-delay`.
pub open spec fn name_mouse_up_delay() -> Seq<u8> {
    seq![0x6Du8, 0x6F, 0x75, 0x73, 0x65, 0x2D, 0x75, 0x70, 0x2D, 0x64, 0x65, 0x6C, 0x61, 0x79]
}

/// The bytes of `action`.
pub open spec fn name_action() -> Seq<u8> {
    seq![0x61u8, 0x63, 0x74, 0x69, 0x6F, 0x6E]
}

/// The bytes of `any`.
pub open spec fn name_val_any() -> Seq<u8> {
    seq![0x61u8, 0x6E, 0x79]
}

/// The bytes of `n`.
pub open spec fn name_val_n() -> Seq<u8> {
    seq![0x6Eu8]
}

/// The bytes of `s`.
pub open spec fn name_val_s() -> Seq<u8> {
    seq![0x73u8]
}

/// The bytes of `e`.
pub open spec fn name_val_e() -> Seq<u8> {
    seq![0x65u8]
}

/// The bytes of `w`.
pub open spec fn name_val_w() -> Seq<u8> {
    seq![0x77u8]
}

/// The bytes of `ne`.
pub open spec fn name_val_ne() -> Seq<u8> {
    seq![0x6Eu8, 0x65]
}

/// The bytes of `nw`.
pub open spec fn name_val_nw() -> Seq<u8> {
    seq![0x6Eu8, 0x77]
}

/// The bytes of `se`.
pub open spec fn name_val_se() -> Seq<u8> {
    seq![0x73u8, 0x65]
}

/// The bytes of `sw`.
pub open spec fn name_val_sw() -> Seq<u8> {
    seq![0x73u8, 0x77]
}

/// The bytes of `in`.
pub open spec fn name_val_in() -> Seq<u8> {
    seq![0x69u8, 0x6E]
}

/// The bytes of `out`.
pub open spec fn name_val_out() -> Seq<u8> {
    seq![0x6Fu8, 0x75, 0x74]
}

/// The bytes of `clockwise`.
pub open spec fn name_val_clockwise() -> Seq<u8> {
    seq![0x63u8, 0x6C, 0x6F, 0x63, 0x6B, 0x77, 0x69, 0x73, 0x65]
}

/// The bytes of `counterclockwise`.
pub open spec fn name_val_counterclockwise() -> Seq<u8> {
    seq![0x63u8, 0x6F, 0x75, 0x6E, 0x74, 0x65, 0x72, 0x63, 0x6C, 0x6F, 0x63, 0x6B, 0x77, 0x69, 0x73, 0x65]
}

/// The bytes of `swipe` as a vector.
fn build_swipe() -> (v: Vec<u8>)
    ensures
        v@ == name_swipe(),
{
    let mut v: Vec<u8> = Vec::new();
    v.push(0x73);
    v.push(0x77);
    v.push(0x69);
    v.push(0x70);
    v.push(0x65);
    proof {
        assert(v@ =~= name_swipe());
    }
    v
}

/// The bytes of `pinch` as a vector.
fn build_pinch() -> (v: Vec<u8>)
    ensures
        v@ == name_pinch(),
{
    let mut v: Vec<u8> = Vec::new();
    v.push(0x70);
    v.push(0x69);
    v.push(0x6E);
    v.push(0x63);
    v.push(0x68);
    proof {
        assert(v@ =~= name_pinch());
    }
    v
}

/// The bytes of `hold` as a vector.
fn build_hold() -> (v: Vec<u8>)
    ensures
        v@ == name_hold(),
{
    let mut v: Vec<u8> = Vec::new();
    v.push(0x68);
    v.push(0x6F);
    v.push(0x6C);
    v.push(0x64);
    proof {
        assert(v@ =~= name_hold());
    }
    v
}

/// The bytes of `direction` as a vector.
fn build_direction() -> (v: Vec<u8>)
    ensures
        v@ == name_direction(),
{
    let mut v: Vec<u8> = Vec::new();
    v.push(0x64);
    v.push(0x69);
    v.push(0x72);
    v.push(0x65);
    v.push(0x63);
    v.push(0x74);
    v.push(0x69);
    v.push(0x6F);
    v.push(0x6E);
    proof {
        assert(v@ =~= name_direction());
    }
    v
}

/// The bytes of `fingers` as a vector.
fn build_fingers() -> (v: Vec<u8>)
    ensures
        v@ == name_fingers(),
{
    let mut v: Vec<u8> = Vec::new();
    v.push(0x66);
    v.push(0x69);
    v.push(0x6E);
    v.push(0x67);
    v.push(0x65);
    v.push(0x72);
    v.push(0x73);
    proof {
        assert(v@ =~= name_fingers());
    }
    v
}

/// The bytes of `update` as a vector.
fn build_update() -> (v: Vec<u8>)
    ensures
        v@ == name_update(),
{
    let mut v: Vec<u8> = Vec::new();
    v.push(0x75);
    v.push(0x70);
    v.push(0x64);
    v.push(0x61);
    v.push(0x74);
    v.push(0x65);
    proof {
        assert(v@ =~= name_update());
    }
    v
}

/// The bytes of `start` as a vector.
fn build_start() -> (v: Vec<u8>)
    ensures
        v@ == name_start(),
{
    let mut v: Vec<u8> = Vec::new();
    v.push(0x73);
    v.push(0x74);
    v.push(0x61);
    v.push(0x72);
    v.push(0x74);
    proof {
        assert(v@ =~= name_start());
    }
    v
}

/// The bytes of `end` as a vector.
fn build_end() -> (v: Vec<u8>)
    ensures
        v@ == name_end(),
{
    let mut v: Vec<u8> = Vec::new();
    v.push(0x65);
    v.push(0x6E);
    v.push(0x64);
    proof {
        assert(v@ =~= name_end());
    }
    v
}

/// The bytes of `acceleration` as a vector.
fn build_acceleration() -> (v: Vec<u8>)
    ensures
        v@ == name_acceleration(),
{
    let mut v: Vec<u8> = Vec::new();
    v.push(0x61);
    v.push(0x63);
    v.push(0x63);
    v.push(0x65);
    v.push(0x6C);
    v.push(0x65);
    v.push(0x72);
    v.push(0x61);
    v.push(0x74);
    v.push(0x69);
    v.push(0x6F);
    v.push(0x6E);
    proof {
        assert(v@ =~= name_acceleration());
    }
    v
}

/// The bytes of `mouse-up-delay` as a vector.
fn build_mouse_up_delay() -> (v: Vec<u8>)
    ensures
        v@ == name_mouse_up_delay(),
{
    let mut v: Vec<u8> = Vec::new();
    v.push(0x6D);
    v.push(0x6F);
    v.push(0x75);
    v.push(0x73);
    v.push(0x65);
    v.push(0x2D);
    v.push(0x75);
    v.push(0x70);
    v.push(0x2D);
    v.push(0x64);
    v.push(0x65);
    v.push(0x6C);
    v.push(0x61);
    v.push(0x79);
    proof {
        assert(v@ =~= name_mouse_up_delay());
    }
    v
}

/// The bytes of `action` as a vector.
fn build_action() -> (v: Vec<u8>)
    ensures
        v@ == name_action(),
{
    let mut v: Vec<u8> = Vec::new();
    v.push(0x61);
    v.push(0x63);
    v.push(0x74);
    v.push(0x69);
    v.push(0x6F);
    v.push(0x6E);
    proof {
        assert(v@ =~= name_action());
    }
    v
}

/// The bytes of `any` as a vector.
fn build_val_any() -> (v: Vec<u8>)
    ensures
        v@ == name_val_any(),
{
    let mut v: Vec<u8> = Vec::new();
    v.push(0x61);
    v.push(0x6E);
    v.push(0x79);
    proof {
        assert(v@ =~= name_val_any());
    }
    v
}

/// The bytes of `n` as a vector.
fn build_val_n() -> (v: Vec<u8>)
    ensures
        v@ == name_val_n(),
{
    let mut v: Vec<u8> = Vec::new();
    v.push(0x6E);
    proof {
        assert(v@ =~= name_val_n());
    }
    v
}

/// The bytes of `s` as a vector.
fn build_val_s() -> (v: Vec<u8>)
    ensures
        v@ == name_val_s(),
{
    let mut v: Vec<u8> = Vec::new();
    v.push(0x73);
    proof {
        assert(v@ =~= name_val_s());
    }
    v
}

/// The bytes of `e` as a vector.
fn build_val_e() -> (v: Vec<u8>)
    ensures
        v@ == name_val_e(),
{
    let mut v: Vec<u8> = Vec::new();
    v.push(0x65);
    proof {
        assert(v@ =~= name_val_e());
    }
    v
}

/// The bytes of `w` as a vector.
fn build_val_w() -> (v: Vec<u8>)
    ensures
        v@ == name_val_w(),
{
    let mut v: Vec<u8> = Vec::new();
    v.push(0x77);
    proof {
        assert(v@ =~= name_val_w());
    }
    v
}

/// The bytes of `ne` as a vector.
fn build_val_ne() -> (v: Vec<u8>)
    ensures
        v@ == name_val_ne(),
{
    let mut v: Vec<u8> = Vec::new();
    v.push(0x6E);
    v.push(0x65);
    proof {
        assert(v@ =~= name_val_ne());
    }
    v
}

/// The bytes of `nw` as a vector.
fn build_val_nw() -> (v: Vec<u8>)
    ensures
        v@ == name_val_nw(),
{
    let mut v: Vec<u8> = Vec::new();
    v.push(0x6E);
    v.push(0x77);
    proof {
        assert(v@ =~= name_val_nw());
    }
    v
}

/// The bytes of `se` as a vector.
fn build_val_se() -> (v: Vec<u8>)
    ensures
        v@ == name_val_se(),
{
    let mut v: Vec<u8> = Vec::new();
    v.push(0x73);
    v.push(0x65);
    proof {
        assert(v@ =~= name_val_se());
    }
    v
}

/// The bytes of `sw` as a vector.
fn build_val_sw() -> (v: Vec<u8>)
    ensures
        v@ == name_val_sw(),
{
    let mut v: Vec<u8> = Vec::new();
    v.push(0x73);
    v.push(0x77);
    proof {
        assert(v@ =~= name_val_sw());
    }
    v
}

/// The bytes of `in` as a vector.
fn build_val_in() -> (v: Vec<u8>)
    ensures
        v@ == name_val_in(),
{
    let mut v: Vec<u8> = Vec::new();
    v.push(0x69);
    v.push(0x6E);
    proof {
        assert(v@ =~= name_val_in());
    }
    v
}

/// The bytes of `out` as a vector.
fn build_val_out() -> (v: Vec<u8>)
    ensures
        v@ == name_val_out(),
{
    let mut v: Vec<u8> = Vec::new();
    v.push(0x6F);
    v.push(0x75);
    v.push(0x74);
    proof {
        assert(v@ =~= name_val_out());
    }
    v
}

/// The bytes of `clockwise` as a vector.
fn build_val_clockwise() -> (v: Vec<u8>)
    ensures
        v@ == name_val_clockwise(),
{
    let mut v: Vec<u8> = Vec::new();
    v.push(0x63);
    v.push(0x6C);
    v.push(0x6F);
    v.push(0x63);
    v.push(0x6B);
    v.push(0x77);
    v.push(0x69);
    v.push(0x73);
    v.push(0x65);
    proof {
        assert(v@ =~= name_val_clockwise());
    }
    v
}

/// The bytes of `counterclockwise` as a vector.
fn build_val_counterclockwise() -> (v: Vec<u8>)
    ensures
        v@ == name_val_counterclockwise(),
{
    let mut v: Vec<u8> = Vec::new();
    v.push(0x63);
    v.push(0x6F);
    v.push(0x75);
    v.push(0x6E);
    v.push(0x74);
    v.push(0x65);
    v.push(0x72);
    v.push(0x63);
    v.push(0x6C);
    v.push(0x6F);
    v.push(0x63);
    v.push(0x6B);
    v.push(0x77);
    v.push(0x69);
    v.push(0x73);
    v.push(0x65);
    proof {
        assert(v@ =~= name_val_counterclockwise());
    }
    v
}
/// A property value: a signed integer or an unescaped string.
pub ghost enum ValV {
    Int(int),
    Str(Seq<u8>),
}

/// One parsed property.
pub ghost struct PropV {
    pub name: Seq<u8>,
    pub value: ValV,
}

/// The remainder of a byte string after its leading in-line whitespace.
pub open spec fn skip_ws(s: Seq<u8>) -> Seq<u8>
    decreases s.len(),
{
    if s.len() > 0 && is_ws(s[0]) {
        skip_ws(s.drop_first())
    } else {
        s
    }
}

/// Length of the identifier at the front of a byte string.
pub open spec fn ident_len(s: Seq<u8>) -> nat
    decreases s.len(),
{
    if s.len() > 0 && is_ident_byte(s[0]) {
        1 + ident_len(s.drop_first())
    } else {
        0
    }
}

/// Length of the integer token at the front of a byte string.
pub open spec fn int_len(s: Seq<u8>) -> nat
    decreases s.len(),
{
    if s.len() > 0 && is_int_byte(s[0]) {
        1 + int_len(s.drop_first())
    } else {
        0
    }
}

/// The byte encoded by an escape letter.
pub open spec fn unescape_byte(b: u8) -> u8 {
    if b == ESC_N {
        NL
    } else {
        b
    }
}

/// Read a quoted string from after its opening quote: the unescaped
/// contents and the remainder after the closing quote, or nothing for an
/// unterminated or badly escaped string.
pub open spec fn parse_qstring(s: Seq<u8>) -> Option<(Seq<u8>, Seq<u8>)>
    decreases s.len(),
{
    if s.len() == 0 {
        Option::None
    } else if s[0] == QUOTE {
        Option::Some((Seq::empty(), s.skip(1)))
    } else if s[0] == BSLASH {
        if s.len() >= 2 && (s[1] == QUOTE || s[1] == BSLASH || s[1] == ESC_N) {
            match parse_qstring(s.skip(2)) {
                Option::Some(p) => Option::Some((seq![unescape_byte(s[1])] + p.0, p.1)),
                Option::None => Option::None,
            }
        } else {
            Option::None
        }
    } else {
        match parse_qstring(s.skip(1)) {
            Option::Some(p) => Option::Some((seq![s[0]] + p.0, p.1)),
            Option::None => Option::None,
        }
    }
}

/// A quoted string consumes at least its closing quote.
proof fn lemma_parse_qstring_len(s: Seq<u8>)
    ensures
        (match parse_qstring(s) {
            Option::Some(p) => p.1.len() < s.len(),
            Option::None => true,
        }),
    decreases s.len(),
{
    if s.len() > 0 && s[0] != QUOTE {
        if s[0] == BSLASH {
            if s.len() >= 2 {
                lemma_parse_qstring_len(s.skip(2));
            }
        } else {
            lemma_parse_qstring_len(s.skip(1));
        }
    }
}

/// Leading whitespace only shortens a byte string.
proof fn lemma_skip_ws_len(s: Seq<u8>)
    ensures
        skip_ws(s).len() <= s.len(),
    decreases s.len(),
{
    if s.len() > 0 && is_ws(s[0]) {
        lemma_skip_ws_len(s.drop_first());
    }
}

/// An identifier is no longer than its string.
proof fn lemma_ident_len_le(s: Seq<u8>)
    ensures
        ident_len(s) <= s.len(),
    decreases s.len(),
{
    if s.len() > 0 && is_ident_byte(s[0]) {
        lemma_ident_len_le(s.drop_first());
    }
}

/// An integer token is no longer than its string.
proof fn lemma_int_len_le(s: Seq<u8>)
    ensures
        int_len(s) <= s.len(),
    decreases s.len(),
{
    if s.len() > 0 && is_int_byte(s[0]) {
        lemma_int_len_le(s.drop_first());
    }
}

/// Read the properties of one node: leading whitespace, then `name=value`
/// pairs until the end of the line.
pub open spec fn parse_props(s: Seq<u8>) -> Option<Seq<PropV>>
    decreases s.len(),
    via parse_props_decreases
{
    let t = skip_ws(s);
    if t.len() == 0 {
        Option::Some(Seq::empty())
    } else {
        let nlen = ident_len(t);
        if nlen == 0 {
            Option::None
        } else {
            let name = t.take(nlen as int);
            let r1 = t.skip(nlen as int);
            if r1.len() == 0 || r1[0] != EQ {
                Option::None
            } else {
                let r2 = r1.skip(1);
                if r2.len() > 0 && r2[0] == QUOTE {
                    match parse_qstring(r2.skip(1)) {
                        Option::Some(p) => match parse_props(p.1) {
                            Option::Some(ps) => Option::Some(
                                seq![PropV { name, value: ValV::Str(p.0) }] + ps,
                            ),
                            Option::None => Option::None,
                        },
                        Option::None => Option::None,
                    }
                } else {
                    let ilen = int_len(r2);
                    if ilen == 0 {
                        Option::None
                    } else {
                        match parse_int_spec(r2.take(ilen as int)) {
                            Option::Some(v) => if i64::MIN <= v <= i64::MAX {
                                match parse_props(r2.skip(ilen as int)) {
                                    Option::Some(ps) => Option::Some(
                                        seq![PropV { name, value: ValV::Int(v) }] + ps,
                                    ),
                                    Option::None => Option::None,
                                }
                            } else {
                                Option::None
                            },
                            Option::None => Option::None,
                        }
                    }
                }
            }
        }
    }
}

#[via_fn]
proof fn parse_props_decreases(s: Seq<u8>) {
    lemma_skip_ws_len(s);
    let t = skip_ws(s);
    if t.len() > 0 {
        lemma_ident_len_le(t);
        let nlen = ident_len(t);
        if nlen > 0 {
            let r1 = t.skip(nlen as int);
            if r1.len() > 0 && r1[0] == EQ {
                let r2 = r1.skip(1);
                if r2.len() > 0 && r2[0] == QUOTE {
                    lemma_parse_qstring_len(r2.skip(1));
                } else {
                    lemma_int_len_le(r2);
                }
            }
        }
    }
}

/// The swipe direction named by a byte string.
pub open spec fn swipe_dir_of_name(s: Seq<u8>) -> Option<SwipeDir> {
    if s == name_val_any() {
        Option::Some(SwipeDir::Any)
    } else if s == name_val_n() {
        Option::Some(SwipeDir::N)
    } else if s == name_val_s() {
        Option::Some(SwipeDir::S)
    } else if s == name_val_e() {
        Option::Some(SwipeDir::E)
    } else if s == name_val_w() {
        Option::Some(SwipeDir::W)
    } else if s == name_val_ne() {
        Option::Some(SwipeDir::NE)
    } else if s == name_val_nw() {
        Option::Some(SwipeDir::NW)
    } else if s == name_val_se() {
        Option::Some(SwipeDir::SE)
    } else if s == name_val_sw() {
        Option::Some(SwipeDir::SW)
    } else {
        Option::None
    }
}

/// The pinch direction named by a byte string.
pub open spec fn pinch_dir_of_name(s: Seq<u8>) -> Option<PinchDir> {
    if s == name_val_any() {
        Option::Some(PinchDir::Any)
    } else if s == name_val_in() {
        Option::Some(PinchDir::In)
    } else if s == name_val_out() {
        Option::Some(PinchDir::Out)
    } else if s == name_val_clockwise() {
        Option::Some(PinchDir::Clockwise)
    } else if s == name_val_counterclockwise() {
        Option::Some(PinchDir::Counterclockwise)
    } else {
        Option::None
    }
}

/// The canonical name of a swipe direction.
pub open spec fn swipe_dir_name(d: SwipeDir) -> Seq<u8> {
    match d {
        SwipeDir::Any => name_val_any(),
        SwipeDir::N => name_val_n(),
        SwipeDir::S => name_val_s(),
        SwipeDir::E => name_val_e(),
        SwipeDir::W => name_val_w(),
        SwipeDir::NE => name_val_ne(),
        SwipeDir::NW => name_val_nw(),
        SwipeDir::SE => name_val_se(),
        SwipeDir::SW => name_val_sw(),
    }
}

/// The canonical name of a pinch direction.
pub open spec fn pinch_dir_name(d: PinchDir) -> Seq<u8> {
    match d {
        PinchDir::Any => name_val_any(),
        PinchDir::In => name_val_in(),
        PinchDir::Out => name_val_out(),
        PinchDir::Clockwise => name_val_clockwise(),
        PinchDir::Counterclockwise => name_val_counterclockwise(),
    }
}

/// The property accumulator of one node, `bad` once a property was
/// unknown, doubled, of the wrong type, or out of range.
pub ghost struct AccV {
    pub direction: Option<Seq<u8>>,
    pub fingers: Option<int>,
    pub update: Option<Seq<u8>>,
    pub start: Option<Seq<u8>>,
    pub end: Option<Seq<u8>>,
    pub acceleration: Option<int>,
    pub mouse_up_delay: Option<int>,
    pub action: Option<Seq<u8>>,
    pub bad: bool,
}

/// The empty accumulator.
pub open spec fn acc_init() -> AccV {
    AccV {
        direction: Option::None,
        fingers: Option::None,
        update: Option::None,
        start: Option::None,
        end: Option::None,
        acceleration: Option::None,
        mouse_up_delay: Option::None,
        action: Option::None,
        bad: false,
    }
}

/// One property folded into the accumulator: each property belongs to
/// certain node kinds, carries one value type, and may appear once.
pub open spec fn acc_apply(acc: AccV, p: PropV, kind: GestureKind) -> AccV {
    if acc.bad {
        acc
    } else if p.name == name_direction() && kind != GestureKind::Hold {
        match p.value {
            ValV::Str(s) => if acc.direction is None {
                AccV { direction: Option::Some(s), ..acc }
            } else {
                AccV { bad: true, ..acc }
            },
            ValV::Int(_) => AccV { bad: true, ..acc },
        }
    } else if p.name == name_fingers() {
        match p.value {
            ValV::Int(v) => if acc.fingers is None {
                AccV { fingers: Option::Some(v), ..acc }
            } else {
                AccV { bad: true, ..acc }
            },
            ValV::Str(_) => AccV { bad: true, ..acc },
        }
    } else if p.name == name_update() && kind != GestureKind::Hold {
        match p.value {
            ValV::Str(s) => if acc.update is None {
                AccV { update: Option::Some(s), ..acc }
            } else {
                AccV { bad: true, ..acc }
            },
            ValV::Int(_) => AccV { bad: true, ..acc },
        }
    } else if p.name == name_start() && kind != GestureKind::Hold {
        match p.value {
            ValV::Str(s) => if acc.start is None {
                AccV { start: Option::Some(s), ..acc }
            } else {
                AccV { bad: true, ..acc }
            },
            ValV::Int(_) => AccV { bad: true, ..acc },
        }
    } else if p.name == name_end() && kind != GestureKind::Hold {
        match p.value {
            ValV::Str(s) => if acc.end is None {
                AccV { end: Option::Some(s), ..acc }
            } else {
                AccV { bad: true, ..acc }
            },
            ValV::Int(_) => AccV { bad: true, ..acc },
        }
    } else if p.name == name_acceleration() && kind == GestureKind::Swipe {
        match p.value {
            ValV::Int(v) => if acc.acceleration is None {
                AccV { acceleration: Option::Some(v), ..acc }
            } else {
                AccV { bad: true, ..acc }
            },
            ValV::Str(_) => AccV { bad: true, ..acc },
        }
    } else if p.name == name_mouse_up_delay() && kind == GestureKind::Swipe {
        match p.value {
            ValV::Int(v) => if acc.mouse_up_delay is None {
                AccV { mouse_up_delay: Option::Some(v), ..acc }
            } else {
                AccV { bad: true, ..acc }
            },
            ValV::Str(_) => AccV { bad: true, ..acc },
        }
    } else if p.name == name_action() && kind == GestureKind::Hold {
        match p.value {
            ValV::Str(s) => if acc.action is None {
                AccV { action: Option::Some(s), ..acc }
            } else {
                AccV { bad: true, ..acc }
            },
            ValV::Int(_) => AccV { bad: true, ..acc },
        }
    } else {
        AccV { bad: true, ..acc }
    }
}

/// All properties folded into the accumulator, left to right.
pub open spec fn fold_props(acc: AccV, ps: Seq<PropV>, kind: GestureKind) -> AccV
    decreases ps.len(),
{
    if ps.len() == 0 {
        acc
    } else {
        fold_props(acc_apply(acc, ps[0], kind), ps.drop_first(), kind)
    }
}

/// An optional integer that is absent or within bounds.
pub open spec fn opt_int_in(o: Option<int>, lo: int, hi: int) -> bool {
    match o {
        Option::Some(v) => lo <= v <= hi,
        Option::None => true,
    }
}

/// Build the rule of one node from its accumulated properties: direction
/// (except for hold) and fingers are required, fingers is at least one,
/// and every value must fit its field.
pub open spec fn build_rule(kind: GestureKind, acc: AccV) -> Option<GestureV> {
    if acc.bad {
        Option::None
    } else {
        match kind {
            GestureKind::Swipe => match (acc.direction, acc.fingers) {
                (Option::Some(dn), Option::Some(f)) => match swipe_dir_of_name(dn) {
                    Option::Some(d) => if 1 <= f <= 0x7FFFFFFF && opt_int_in(
                        acc.acceleration,
                        -128,
                        127,
                    ) {
                        Option::Some(
                            GestureV::Swipe(
                                SwipeV {
                                    direction: d,
                                    fingers: f,
                                    update: acc.update,
                                    start: acc.start,
                                    end: acc.end,
                                    acceleration: acc.acceleration,
                                    mouse_up_delay: acc.mouse_up_delay,
                                },
                            ),
                        )
                    } else {
                        Option::None
                    },
                    Option::None => Option::None,
                },
                _ => Option::None,
            },
            GestureKind::Pinch => match (acc.direction, acc.fingers) {
                (Option::Some(dn), Option::Some(f)) => match pinch_dir_of_name(dn) {
                    Option::Some(d) => if 1 <= f <= 0x7FFFFFFF {
                        Option::Some(
                            GestureV::Pinch(
                                PinchV {
                                    direction: d,
                                    fingers: f,
                                    update: acc.update,
                                    start: acc.start,
                                    end: acc.end,
                                },
                            ),
                        )
                    } else {
                        Option::None
                    },
                    Option::None => Option::None,
                },
                _ => Option::None,
            },
            GestureKind::Hold => match acc.fingers {
                Option::Some(f) => if 1 <= f <= 0x7FFFFFFF {
                    Option::Some(GestureV::Hold(HoldV { fingers: f, action: acc.action }))
                } else {
                    Option::None
                },
                Option::None => Option::None,
            },
        }
    }
}

/// Read one line: nothing for a blank or comment line, a rule for a node
/// line, or a failure.
pub open spec fn parse_line_spec(line: Seq<u8>) -> Option<Option<GestureV>> {
    let t = skip_ws(line);
    if t.len() == 0 {
        Option::Some(Option::None)
    } else if t.len() >= 2 && t[0] == SLASH && t[1] == SLASH {
        Option::Some(Option::None)
    } else {
        let il = ident_len(t);
        if il == 0 {
            Option::None
        } else {
            let ident = t.take(il as int);
            let rest = t.skip(il as int);
            let kind = if ident == name_swipe() {
                Option::Some(GestureKind::Swipe)
            } else if ident == name_pinch() {
                Option::Some(GestureKind::Pinch)
            } else if ident == name_hold() {
                Option::Some(GestureKind::Hold)
            } else {
                Option::None
            };
            match kind {
                Option::None => Option::None,
                Option::Some(k) => match parse_props(rest) {
                    Option::None => Option::None,
                    Option::Some(ps) => match build_rule(k, fold_props(acc_init(), ps, k)) {
                        Option::None => Option::None,
                        Option::Some(r) => Option::Some(Option::Some(r)),
                    },
                },
            }
        }
    }
}

/// Position of the first line feed, or the length when there is none.
pub open spec fn find_nl(s: Seq<u8>) -> nat
    decreases s.len(),
{
    if s.len() == 0 {
        0
    } else if s[0] == NL {
        0
    } else {
        1 + find_nl(s.drop_first())
    }
}

/// The first line feed lies within the string.
proof fn lemma_find_nl_le(s: Seq<u8>)
    ensures
        find_nl(s) <= s.len(),
    decreases s.len(),
{
    if s.len() > 0 && s[0] != NL {
        lemma_find_nl_le(s.drop_first());
    }
}

/// Read a whole configuration text: the rules of its node lines in
/// order, or nothing as soon as one line is bad.
pub open spec fn parse_config_spec(s: Seq<u8>) -> Option<Seq<GestureV>>
    decreases s.len(),
{
    if s.len() == 0 {
        Option::Some(Seq::empty())
    } else {
        let k = if find_nl(s) > s.len() {
            s.len()
        } else {
            find_nl(s)
        };
        let line = s.take(k as int);
        let rest = if k < s.len() {
            s.skip(k + 1 as int)
        } else {
            Seq::<u8>::empty()
        };
        match parse_line_spec(line) {
            Option::None => Option::None,
            Option::Some(opt) => match parse_config_spec(rest) {
                Option::None => Option::None,
                Option::Some(tail) => match opt {
                    Option::Some(r) => Option::Some(seq![r] + tail),
                    Option::None => Option::Some(tail),
                },
            },
        }
    }
}
/// A rule list in which every rule can be written down and read back:
/// no null values, at least one finger, and every number within its
/// field's machine range.
pub open spec fn wf_rule(r: GestureV) -> bool {
    match r {
        GestureV::Swipe(s) => 1 <= s.fingers <= 0x7FFFFFFF && opt_int_in(
            s.acceleration,
            -128,
            127,
        ) && opt_int_in(s.mouse_up_delay, i64::MIN as int, i64::MAX as int),
        GestureV::Pinch(p) => 1 <= p.fingers <= 0x7FFFFFFF,
        GestureV::Hold(h) => 1 <= h.fingers <= 0x7FFFFFFF,
        GestureV::Null => false,
    }
}

/// Every rule of the list is well-formed.
pub open spec fn wf_rules(rs: Seq<GestureV>) -> bool {
    forall|i: int| 0 <= i < rs.len() ==> wf_rule(#[trigger] rs[i])
}

/// The escape sequence of one byte inside a quoted string.
pub open spec fn escape_byte(b: u8) -> Seq<u8> {
    if b == QUOTE {
        seq![BSLASH, QUOTE]
    } else if b == BSLASH {
        seq![BSLASH, BSLASH]
    } else if b == NL {
        seq![BSLASH, ESC_N]
    } else {
        seq![b]
    }
}

/// A byte string escaped for a quoted string.
pub open spec fn escape_spec(s: Seq<u8>) -> Seq<u8>
    decreases s.len(),
{
    if s.len() == 0 {
        Seq::empty()
    } else {
        escape_byte(s[0]) + escape_spec(s.drop_first())
    }
}

/// The text of one property: a space, the name, `=`, and the value.
pub open spec fn serialize_prop(p: PropV) -> Seq<u8> {
    seq![SPACE] + p.name + seq![EQ] + (match p.value {
        ValV::Str(s) => seq![QUOTE] + escape_spec(s) + seq![QUOTE],
        ValV::Int(v) => render_int_spec(v),
    })
}

/// The text of a property list.
pub open spec fn serialize_props(ps: Seq<PropV>) -> Seq<u8>
    decreases ps.len(),
{
    if ps.len() == 0 {
        Seq::empty()
    } else {
        serialize_prop(ps[0]) + serialize_props(ps.drop_first())
    }
}

/// A string property when present.
pub open spec fn opt_str_prop(name: Seq<u8>, o: Option<Seq<u8>>) -> Seq<PropV> {
    match o {
        Option::Some(s) => seq![PropV { name, value: ValV::Str(s) }],
        Option::None => Seq::empty(),
    }
}

/// An integer property when present.
pub open spec fn opt_int_prop(name: Seq<u8>, o: Option<int>) -> Seq<PropV> {
    match o {
        Option::Some(v) => seq![PropV { name, value: ValV::Int(v) }],
        Option::None => Seq::empty(),
    }
}

/// The canonical property list of a rule, in the order the serialiser
/// writes.
pub open spec fn props_of_rule(r: GestureV) -> Seq<PropV> {
    match r {
        GestureV::Swipe(s) => seq![
            PropV { name: name_direction(), value: ValV::Str(swipe_dir_name(s.direction)) },
        ] + seq![PropV { name: name_fingers(), value: ValV::Int(s.fingers) }] + opt_str_prop(
            name_update(),
            s.update,
        ) + opt_str_prop(name_start(), s.start) + opt_str_prop(name_end(), s.end) + opt_int_prop(
            name_acceleration(),
            s.acceleration,
        ) + opt_int_prop(name_mouse_up_delay(), s.mouse_up_delay),
        GestureV::Pinch(p) => seq![
            PropV { name: name_direction(), value: ValV::Str(pinch_dir_name(p.direction)) },
        ] + seq![PropV { name: name_fingers(), value: ValV::Int(p.fingers) }] + opt_str_prop(
            name_update(),
            p.update,
        ) + opt_str_prop(name_start(), p.start) + opt_str_prop(name_end(), p.end),
        GestureV::Hold(h) => seq![PropV { name: name_fingers(), value: ValV::Int(h.fingers) }]
            + opt_str_prop(name_action(), h.action),
        GestureV::Null => Seq::empty(),
    }
}

/// The node name of a rule.
pub open spec fn rule_ident(r: GestureV) -> Seq<u8> {
    match r {
        GestureV::Swipe(_) => name_swipe(),
        GestureV::Pinch(_) => name_pinch(),
        GestureV::Hold(_) => name_hold(),
        GestureV::Null => Seq::empty(),
    }
}

/// The canonical line of one rule (without its line feed).
pub open spec fn serialize_rule_spec(r: GestureV) -> Seq<u8> {
    rule_ident(r) + serialize_props(props_of_rule(r))
}

/// The canonical text of a rule list: one line per rule.
pub open spec fn serialize_config_spec(rs: Seq<GestureV>) -> Seq<u8>
    decreases rs.len(),
{
    if rs.len() == 0 {
        Seq::empty()
    } else {
        serialize_rule_spec(rs[0]) + seq![NL] + serialize_config_spec(rs.drop_first())
    }
}

/// Whether a byte is in-line whitespace.
fn ws_byte(b: u8) -> (r: bool)
    ensures
        r == is_ws(b),
{
    b == SPACE || b == TAB || b == CR
}

/// Whether a byte may stand in a name.
fn ident_byte(b: u8) -> (r: bool)
    ensures
        r == is_ident_byte(b),
{
    (0x61 <= b && b <= 0x7A) || b == 0x2D
}

/// Whether a byte may stand in an integer token.
fn int_byte(b: u8) -> (r: bool)
    ensures
        r == is_int_byte(b),
{
    (0x30 <= b && b <= 0x39) || b == BMINUS
}

/// The suffix of a byte string from `from` on, as a fresh vector.
fn slice_from(s: &Vec<u8>, from: usize) -> (r: Vec<u8>)
    requires
        from <= s@.len(),
    ensures
        r@ == s@.skip(from as int),
{
    let mut r: Vec<u8> = Vec::new();
    let mut i: usize = from;
    while i < s.len()
        invariant
            from <= i <= s@.len(),
            r@ == s@.subrange(from as int, i as int),
        decreases s@.len() - i,
    {
        r.push(s[i]);
        proof {
            assert(r@ =~= s@.subrange(from as int, i + 1));
        }
        i += 1;
    }
    proof {
        assert(r@ =~= s@.skip(from as int));
    }
    r
}

/// The prefix of a byte string up to `to`, as a fresh vector.
fn slice_take(s: &Vec<u8>, to: usize) -> (r: Vec<u8>)
    requires
        to <= s@.len(),
    ensures
        r@ == s@.take(to as int),
{
    let mut r: Vec<u8> = Vec::new();
    let mut i: usize = 0;
    while i < to
        invariant
            i <= to <= s@.len(),
            r@ == s@.subrange(0, i as int),
        decreases to - i,
    {
        r.push(s[i]);
        proof {
            assert(r@ =~= s@.subrange(0, i + 1));
        }
        i += 1;
    }
    proof {
        assert(r@ =~= s@.take(to as int));
    }
    r
}

/// The remainder of a byte string after its leading whitespace.
fn exec_skip_ws(s: &Vec<u8>) -> (r: Vec<u8>)
    ensures
        r@ == skip_ws(s@),
{
    let mut i: usize = 0;
    proof {
        assert(s@.skip(0) =~= s@);
    }
    while i < s.len() && ws_byte(s[i])
        invariant
            i <= s@.len(),
            skip_ws(s@) == skip_ws(s@.skip(i as int)),
        decreases s@.len() - i,
    {
        proof {
            assert(s@.skip(i as int).drop_first() =~= s@.skip(i + 1));
        }
        i += 1;
    }
    proof {
        assert(skip_ws(s@.skip(i as int)) == s@.skip(i as int));
    }
    slice_from(s, i)
}

/// Length of the identifier at the front.
fn exec_ident_len(s: &Vec<u8>) -> (n: usize)
    ensures
        n as nat == ident_len(s@),
        n <= s@.len(),
{
    let mut i: usize = 0;
    proof {
        assert(s@.skip(0) =~= s@);
    }
    while i < s.len() && ident_byte(s[i])
        invariant
            i <= s@.len(),
            ident_len(s@) == i + ident_len(s@.skip(i as int)),
        decreases s@.len() - i,
    {
        proof {
            assert(s@.skip(i as int).drop_first() =~= s@.skip(i + 1));
        }
        i += 1;
    }
    proof {
        assert(ident_len(s@.skip(i as int)) == 0);
    }
    i
}

/// Length of the integer token at the front.
fn exec_int_len(s: &Vec<u8>) -> (n: usize)
    ensures
        n as nat == int_len(s@),
        n <= s@.len(),
{
    let mut i: usize = 0;
    proof {
        assert(s@.skip(0) =~= s@);
    }
    while i < s.len() && int_byte(s[i])
        invariant
            i <= s@.len(),
            int_len(s@) == i + int_len(s@.skip(i as int)),
        decreases s@.len() - i,
    {
        proof {
            assert(s@.skip(i as int).drop_first() =~= s@.skip(i + 1));
        }
        i += 1;
    }
    proof {
        assert(int_len(s@.skip(i as int)) == 0);
    }
    i
}

/// Position of the first line feed, or the length when there is none.
fn scan_nl(s: &Vec<u8>) -> (k: usize)
    ensures
        k as nat == find_nl(s@),
        k <= s@.len(),
{
    let mut i: usize = 0;
    proof {
        assert(s@.skip(0) =~= s@);
    }
    while i < s.len() && s[i] != NL
        invariant
            i <= s@.len(),
            find_nl(s@) == i + find_nl(s@.skip(i as int)),
        decreases s@.len() - i,
    {
        proof {
            assert(s@.skip(i as int).drop_first() =~= s@.skip(i + 1));
        }
        i += 1;
    }
    proof {
        assert(find_nl(s@.skip(i as int)) == 0);
    }
    i
}

/// Read a quoted string from after its opening quote.
fn exec_parse_qstring(s: &Vec<u8>) -> (r: Option<(Vec<u8>, Vec<u8>)>)
    ensures
        (match parse_qstring(s@) {
            Option::Some(p) => (match r {
                Option::Some(q) => q.0@ == p.0 && q.1@ == p.1,
                Option::None => false,
            }),
            Option::None => r is None,
        }),
    decreases s@.len(),
{
    if s.len() == 0 {
        return Option::None;
    }
    let b = s[0];
    if b == QUOTE {
        let rest = slice_from(s, 1);
        let val: Vec<u8> = Vec::new();
        proof {
            assert(val@ =~= Seq::<u8>::empty());
        }
        return Option::Some((val, rest));
    }
    if b == BSLASH {
        if s.len() >= 2 && (s[1] == QUOTE || s[1] == BSLASH || s[1] == ESC_N) {
            let inner = slice_from(s, 2);
            match exec_parse_qstring(&inner) {
                Option::Some(q) => {
                    let (mut val, rest) = q;
                    let unb: u8 = if s[1] == ESC_N {
                        NL
                    } else {
                        s[1]
                    };
                    let mut out: Vec<u8> = Vec::new();
                    out.push(unb);
                    out.append(&mut val);
                    proof {
                        let p = parse_qstring(s@).unwrap();
                        assert(out@ =~= p.0);
                    }
                    Option::Some((out, rest))
                },
                Option::None => Option::None,
            }
        } else {
            Option::None
        }
    } else {
        let inner = slice_from(s, 1);
        match exec_parse_qstring(&inner) {
            Option::Some(q) => {
                let (mut val, rest) = q;
                let mut out: Vec<u8> = Vec::new();
                out.push(b);
                out.append(&mut val);
                proof {
                    let p = parse_qstring(s@).unwrap();
                    assert(out@ =~= p.0);
                }
                Option::Some((out, rest))
            },
            Option::None => Option::None,
        }
    }
}

/// A property value as parsed.
pub enum Val {
    Int(i64),
    Str(Vec<u8>),
}

impl View for Val {
    type V = ValV;

    open spec fn view(&self) -> ValV {
        match self {
            Val::Int(v) => ValV::Int(*v as int),
            Val::Str(b) => ValV::Str(b@),
        }
    }
}

/// One parsed property.
pub struct Prop {
    pub name: Vec<u8>,
    pub value: Val,
}

impl View for Prop {
    type V = PropV;

    open spec fn view(&self) -> PropV {
        PropV { name: self.name@, value: self.value@ }
    }
}

/// The mathematical values of a property list, element-wise.
pub open spec fn props_view(ps: Seq<Prop>) -> Seq<PropV> {
    ps.map_values(|p: Prop| p@)
}

/// Read the properties of one node.
fn exec_parse_props(s: &Vec<u8>) -> (r: Option<Vec<Prop>>)
    ensures
        (match parse_props(s@) {
            Option::Some(ps) => (match r {
                Option::Some(v) => props_view(v@) == ps,
                Option::None => false,
            }),
            Option::None => r is None,
        }),
    decreases s@.len(),
{
    proof {
        lemma_skip_ws_len(s@);
    }
    let t = exec_skip_ws(s);
    if t.len() == 0 {
        let v: Vec<Prop> = Vec::new();
        proof {
            assert(props_view(v@) =~= Seq::<PropV>::empty());
        }
        return Option::Some(v);
    }
    let nlen = exec_ident_len(&t);
    if nlen == 0 {
        return Option::None;
    }
    let name = slice_take(&t, nlen);
    let r1 = slice_from(&t, nlen);
    if r1.len() == 0 {
        return Option::None;
    }
    if r1[0] != EQ {
        return Option::None;
    }
    let r2 = slice_from(&r1, 1);
    if r2.len() > 0 && r2[0] == QUOTE {
        let qarg = slice_from(&r2, 1);
        proof {
            lemma_parse_qstring_len(qarg@);
        }
        match exec_parse_qstring(&qarg) {
            Option::Some(q) => {
                let (sval, rest) = q;
                match exec_parse_props(&rest) {
                    Option::Some(mut ps) => {
                        let ghost ps_pre = ps@;
                        ps.insert(0, Prop { name, value: Val::Str(sval) });
                        proof {
                            assert(props_view(ps@) =~= seq![ps@[0]@] + props_view(ps_pre));
                        }
                        Option::Some(ps)
                    },
                    Option::None => Option::None,
                }
            },
            Option::None => Option::None,
        }
    } else {
        let ilen = exec_int_len(&r2);
        if ilen == 0 {
            return Option::None;
        }
        proof {
            assert(r2@.subrange(0, ilen as int) =~= r2@.take(ilen as int));
        }
        match parse_i64(&r2, 0, ilen) {
            Option::Some(v) => {
                let rest = slice_from(&r2, ilen);
                match exec_parse_props(&rest) {
                    Option::Some(mut ps) => {
                        let ghost ps_pre = ps@;
                        ps.insert(0, Prop { name, value: Val::Int(v) });
                        proof {
                            assert(props_view(ps@) =~= seq![ps@[0]@] + props_view(ps_pre));
                        }
                        Option::Some(ps)
                    },
                    Option::None => Option::None,
                }
            },
            Option::None => Option::None,
        }
    }
}
/// The mathematical value of an optional parsed integer.
pub open spec fn opt_i64_view(o: Option<i64>) -> Option<int> {
    match o {
        Option::Some(v) => Option::Some(v as int),
        Option::None => Option::None,
    }
}

/// The property accumulator of one node, as the parser fills it.
pub struct Acc {
    pub direction: Option<Vec<u8>>,
    pub fingers: Option<i64>,
    pub update: Option<Vec<u8>>,
    pub start: Option<Vec<u8>>,
    pub end: Option<Vec<u8>>,
    pub acceleration: Option<i64>,
    pub mouse_up_delay: Option<i64>,
    pub action: Option<Vec<u8>>,
    pub bad: bool,
}

impl View for Acc {
    type V = AccV;

    open spec fn view(&self) -> AccV {
        AccV {
            direction: crate::gestures::opt_bytes_view(self.direction),
            fingers: opt_i64_view(self.fingers),
            update: crate::gestures::opt_bytes_view(self.update),
            start: crate::gestures::opt_bytes_view(self.start),
            end: crate::gestures::opt_bytes_view(self.end),
            acceleration: opt_i64_view(self.acceleration),
            mouse_up_delay: opt_i64_view(self.mouse_up_delay),
            action: crate::gestures::opt_bytes_view(self.action),
            bad: self.bad,
        }
    }
}

/// The empty accumulator.
fn acc_new() -> (a: Acc)
    ensures
        a@ == acc_init(),
{
    Acc {
        direction: Option::None,
        fingers: Option::None,
        update: Option::None,
        start: Option::None,
        end: Option::None,
        acceleration: Option::None,
        mouse_up_delay: Option::None,
        action: Option::None,
        bad: false,
    }
}

/// One property folded into the accumulator.
fn exec_acc_apply(acc: Acc, p: Prop, kind: GestureKind) -> (r: Acc)
    ensures
        r@ == acc_apply(acc@, p@, kind),
{
    if acc.bad {
        return acc;
    }
    let is_hold = kind == GestureKind::Hold;
    let is_swipe = kind == GestureKind::Swipe;
    if bytes_eq(&p.name, &build_direction()) && !is_hold {
        match p.value {
            Val::Str(s) => if acc.direction.is_none() {
                Acc { direction: Option::Some(s), ..acc }
            } else {
                Acc { bad: true, ..acc }
            },
            Val::Int(_) => Acc { bad: true, ..acc },
        }
    } else if bytes_eq(&p.name, &build_fingers()) {
        match p.value {
            Val::Int(v) => if acc.fingers.is_none() {
                Acc { fingers: Option::Some(v), ..acc }
            } else {
                Acc { bad: true, ..acc }
            },
            Val::Str(_) => Acc { bad: true, ..acc },
        }
    } else if bytes_eq(&p.name, &build_update()) && !is_hold {
        match p.value {
            Val::Str(s) => if acc.update.is_none() {
                Acc { update: Option::Some(s), ..acc }
            } else {
                Acc { bad: true, ..acc }
            },
            Val::Int(_) => Acc { bad: true, ..acc },
        }
    } else if bytes_eq(&p.name, &build_start()) && !is_hold {
        match p.value {
            Val::Str(s) => if acc.start.is_none() {
                Acc { start: Option::Some(s), ..acc }
            } else {
                Acc { bad: true, ..acc }
            },
            Val::Int(_) => Acc { bad: true, ..acc },
        }
    } else if bytes_eq(&p.name, &build_end()) && !is_hold {
        match p.value {
            Val::Str(s) => if acc.end.is_none() {
                Acc { end: Option::Some(s), ..acc }
            } else {
                Acc { bad: true, ..acc }
            },
            Val::Int(_) => Acc { bad: true, ..acc },
        }
    } else if bytes_eq(&p.name, &build_acceleration()) && is_swipe {
        match p.value {
            Val::Int(v) => if acc.acceleration.is_none() {
                Acc { acceleration: Option::Some(v), ..acc }
            } else {
                Acc { bad: true, ..acc }
            },
            Val::Str(_) => Acc { bad: true, ..acc },
        }
    } else if bytes_eq(&p.name, &build_mouse_up_delay()) && is_swipe {
        match p.value {
            Val::Int(v) => if acc.mouse_up_delay.is_none() {
                Acc { mouse_up_delay: Option::Some(v), ..acc }
            } else {
                Acc { bad: true, ..acc }
            },
            Val::Str(_) => Acc { bad: true, ..acc },
        }
    } else if bytes_eq(&p.name, &build_action()) && is_hold {
        match p.value {
            Val::Str(s) => if acc.action.is_none() {
                Acc { action: Option::Some(s), ..acc }
            } else {
                Acc { bad: true, ..acc }
            },
            Val::Int(_) => Acc { bad: true, ..acc },
        }
    } else {
        Acc { bad: true, ..acc }
    }
}

/// The swipe direction named by a byte string.
fn exec_swipe_dir_of(tok: &Vec<u8>) -> (r: Option<SwipeDir>)
    ensures
        r == swipe_dir_of_name(tok@),
{
    if bytes_eq(tok, &build_val_any()) {
        Option::Some(SwipeDir::Any)
    } else if bytes_eq(tok, &build_val_n()) {
        Option::Some(SwipeDir::N)
    } else if bytes_eq(tok, &build_val_s()) {
        Option::Some(SwipeDir::S)
    } else if bytes_eq(tok, &build_val_e()) {
        Option::Some(SwipeDir::E)
    } else if bytes_eq(tok, &build_val_w()) {
        Option::Some(SwipeDir::W)
    } else if bytes_eq(tok, &build_val_ne()) {
        Option::Some(SwipeDir::NE)
    } else if bytes_eq(tok, &build_val_nw()) {
        Option::Some(SwipeDir::NW)
    } else if bytes_eq(tok, &build_val_se()) {
        Option::Some(SwipeDir::SE)
    } else if bytes_eq(tok, &build_val_sw()) {
        Option::Some(SwipeDir::SW)
    } else {
        Option::None
    }
}

/// The pinch direction named by a byte string.
fn exec_pinch_dir_of(tok: &Vec<u8>) -> (r: Option<PinchDir>)
    ensures
        r == pinch_dir_of_name(tok@),
{
    if bytes_eq(tok, &build_val_any()) {
        Option::Some(PinchDir::Any)
    } else if bytes_eq(tok, &build_val_in()) {
        Option::Some(PinchDir::In)
    } else if bytes_eq(tok, &build_val_out()) {
        Option::Some(PinchDir::Out)
    } else if bytes_eq(tok, &build_val_clockwise()) {
        Option::Some(PinchDir::Clockwise)
    } else if bytes_eq(tok, &build_val_counterclockwise()) {
        Option::Some(PinchDir::Counterclockwise)
    } else {
        Option::None
    }
}

/// Build the rule of one node from its accumulated properties.
fn build_rule_exec(kind: GestureKind, acc: Acc) -> (r: Option<Gesture>)
    ensures
        (match r {
            Option::Some(g) => build_rule(kind, acc@) == Option::Some(g@),
            Option::None => build_rule(kind, acc@) is None,
        }),
{
    if acc.bad {
        return Option::None;
    }
    let Acc { direction, fingers, update, start, end, acceleration, mouse_up_delay, action, bad: _ }
        = acc;
    match kind {
        GestureKind::Swipe => {
            match (direction, fingers) {
                (Option::Some(dn), Option::Some(f)) => {
                    match exec_swipe_dir_of(&dn) {
                        Option::Some(d) => {
                            let accel_ok = match acceleration {
                                Option::Some(a) => -128 <= a && a <= 127,
                                Option::None => true,
                            };
                            if 1 <= f && f <= 0x7FFFFFFF && accel_ok {
                                let accel: Option<i8> = match acceleration {
                                    Option::Some(a) => Option::Some(a as i8),
                                    Option::None => Option::None,
                                };
                                Option::Some(
                                    Gesture::Swipe(
                                        Swipe {
                                            direction: d,
                                            fingers: f as i32,
                                            update,
                                            start,
                                            end,
                                            acceleration: accel,
                                            mouse_up_delay,
                                        },
                                    ),
                                )
                            } else {
                                Option::None
                            }
                        },
                        Option::None => Option::None,
                    }
                },
                _ => Option::None,
            }
        },
        GestureKind::Pinch => {
            match (direction, fingers) {
                (Option::Some(dn), Option::Some(f)) => {
                    match exec_pinch_dir_of(&dn) {
                        Option::Some(d) => {
                            if 1 <= f && f <= 0x7FFFFFFF {
                                Option::Some(
                                    Gesture::Pinch(
                                        Pinch {
                                            direction: d,
                                            fingers: f as i32,
                                            update,
                                            start,
                                            end,
                                        },
                                    ),
                                )
                            } else {
                                Option::None
                            }
                        },
                        Option::None => Option::None,
                    }
                },
                _ => Option::None,
            }
        },
        GestureKind::Hold => {
            match fingers {
                Option::Some(f) => {
                    if 1 <= f && f <= 0x7FFFFFFF {
                        Option::Some(Gesture::Hold(Hold { fingers: f as i32, action }))
                    } else {
                        Option::None
                    }
                },
                Option::None => Option::None,
            }
        },
    }
}

/// Read one line: nothing for a blank or comment line, a rule for a node
/// line, or a failure.
fn exec_parse_line(line: &Vec<u8>) -> (r: Option<Option<Gesture>>)
    ensures
        (match parse_line_spec(line@) {
            Option::None => r is None,
            Option::Some(opt) => (match (r, opt) {
                (Option::Some(Option::None), Option::None) => true,
                (Option::Some(Option::Some(g)), Option::Some(rv)) => g@ == rv,
                _ => false,
            }),
        }),
{
    let t = exec_skip_ws(line);
    if t.len() == 0 {
        return Option::Some(Option::None);
    }
    if t.len() >= 2 && t[0] == SLASH && t[1] == SLASH {
        return Option::Some(Option::None);
    }
    let il = exec_ident_len(&t);
    if il == 0 {
        return Option::None;
    }
    let ident = slice_take(&t, il);
    let rest = slice_from(&t, il);
    let kind: Option<GestureKind> = if bytes_eq(&ident, &build_swipe()) {
        Option::Some(GestureKind::Swipe)
    } else if bytes_eq(&ident, &build_pinch()) {
        Option::Some(GestureKind::Pinch)
    } else if bytes_eq(&ident, &build_hold()) {
        Option::Some(GestureKind::Hold)
    } else {
        Option::None
    };
    match kind {
        Option::None => Option::None,
        Option::Some(k) => {
            match exec_parse_props(&rest) {
                Option::None => Option::None,
                Option::Some(props) => {
                    let ghost all_props = props_view(props@);
                    let mut acc = acc_new();
                    let mut remaining = props;
                    while remaining.len() > 0
                        invariant
                            fold_props(acc_init(), all_props, k) == fold_props(
                                acc@,
                                props_view(remaining@),
                                k,
                            ),
                        decreases remaining@.len(),
                    {
                        let ghost pre = remaining@;
                        let p = remaining.remove(0);
                        proof {
                            assert(props_view(pre)[0] == p@);
                            assert(props_view(pre).drop_first() =~= props_view(remaining@));
                        }
                        acc = exec_acc_apply(acc, p, k);
                    }
                    proof {
                        assert(props_view(remaining@).len() == 0);
                        assert(fold_props(acc@, props_view(remaining@), k) == acc@);
                    }
                    match build_rule_exec(k, acc) {
                        Option::Some(g) => Option::Some(Option::Some(g)),
                        Option::None => Option::None,
                    }
                },
            }
        },
    }
}

/// Read a configuration text from `line_no` on, one line at a time.
fn parse_config_rec(s: &Vec<u8>, line_no: usize) -> (r: Result<Vec<Gesture>, ConfigError>)
    ensures
        (match parse_config_spec(s@) {
            Option::Some(rs) => (match r {
                Result::Ok(v) => rules_view(v@) == rs,
                Result::Err(_) => false,
            }),
            Option::None => (match r {
                Result::Ok(_) => false,
                Result::Err(e) => e matches ConfigError::Parse { .. },
            }),
        }),
    decreases s@.len(),
{
    if s.len() == 0 {
        let v: Vec<Gesture> = Vec::new();
        proof {
            assert(rules_view(v@) =~= Seq::<GestureV>::empty());
        }
        return Result::Ok(v);
    }
    proof {
        lemma_find_nl_le(s@);
    }
    let k = scan_nl(s);
    let line = slice_take(s, k);
    let rest: Vec<u8> = if k < s.len() {
        slice_from(s, k + 1)
    } else {
        Vec::new()
    };
    proof {
        if k >= s@.len() {
            assert(rest@ =~= Seq::<u8>::empty());
        }
    }
    match exec_parse_line(&line) {
        Option::None => Result::Err(ConfigError::Parse { line: line_no }),
        Option::Some(opt) => {
            let next_no: usize = if line_no < usize::MAX {
                line_no + 1
            } else {
                line_no
            };
            match parse_config_rec(&rest, next_no) {
                Result::Err(e) => Result::Err(e),
                Result::Ok(mut v) => {
                    match opt {
                        Option::Some(g) => {
                            let ghost tail = rules_view(v@);
                            v.insert(0, g);
                            proof {
                                assert(rules_view(v@) =~= seq![v@[0]@] + tail);
                            }
                            Result::Ok(v)
                        },
                        Option::None => Result::Ok(v),
                    }
                },
            }
        },
    }
}

/// Read a whole configuration text: the rules of its node lines in order,
/// or the first bad line. Exactly the texts accepted by
/// `parse_config_spec` are accepted.
pub fn parse_config(text: &Vec<u8>) -> (r: Result<Config, ConfigError>)
    ensures
        (match parse_config_spec(text@) {
            Option::Some(rs) => (match r {
                Result::Ok(c) => c@.gestures == rs,
                Result::Err(_) => false,
            }),
            Option::None => (match r {
                Result::Ok(_) => false,
                Result::Err(e) => e matches ConfigError::Parse { .. },
            }),
        }),
{
    match parse_config_rec(text, 0) {
        Result::Ok(v) => Result::Ok(Config { gestures: v }),
        Result::Err(e) => Result::Err(e),
    }
}

/// Escaping distributes over extension at the right.
proof fn lemma_escape_snoc(s: Seq<u8>, b: u8)
    ensures
        escape_spec(s.push(b)) == escape_spec(s) + escape_byte(b),
    decreases s.len(),
{
    if s.len() == 0 {
        assert(s.push(b)[0] == b);
        assert(s.push(b).drop_first() =~= Seq::<u8>::empty());
        assert(escape_spec(s) + escape_byte(b) =~= escape_byte(b) + escape_spec(
            Seq::<u8>::empty(),
        ));
    } else {
        assert(s.push(b).drop_first() =~= s.drop_first().push(b));
        lemma_escape_snoc(s.drop_first(), b);
        assert(s.push(b)[0] == s[0]);
        assert(escape_spec(s) + escape_byte(b) =~= escape_byte(s[0]) + (escape_spec(s.drop_first())
            + escape_byte(b)));
    }
}

/// A byte string escaped for a quoted string.
fn exec_escape(s: &Vec<u8>) -> (r: Vec<u8>)
    ensures
        r@ == escape_spec(s@),
{
    let mut out: Vec<u8> = Vec::new();
    proof {
        assert(s@.take(0) =~= Seq::<u8>::empty());
    }
    let mut i: usize = 0;
    while i < s.len()
        invariant
            i <= s@.len(),
            out@ == escape_spec(s@.take(i as int)),
        decreases s@.len() - i,
    {
        proof {
            assert(s@.take(i + 1) =~= s@.take(i as int).push(s@[i as int]));
            lemma_escape_snoc(s@.take(i as int), s@[i as int]);
        }
        let b = s[i];
        if b == QUOTE {
            out.push(BSLASH);
            out.push(QUOTE);
        } else if b == BSLASH {
            out.push(BSLASH);
            out.push(BSLASH);
        } else if b == NL {
            out.push(BSLASH);
            out.push(ESC_N);
        } else {
            out.push(b);
        }
        proof {
            assert(out@ =~= escape_spec(s@.take(i + 1)));
        }
        i += 1;
    }
    proof {
        assert(s@.take(s@.len() as int) =~= s@);
    }
    out
}

/// Append the text of one string property.
fn push_prop_str(out: &mut Vec<u8>, mut name: Vec<u8>, v: &Vec<u8>)
    ensures
        final(out)@ == old(out)@ + serialize_prop(
            (PropV { name: name@, value: ValV::Str(v@) }),
        ),
{
    let ghost name_v = name@;
    out.push(SPACE);
    out.append(&mut name);
    out.push(EQ);
    out.push(QUOTE);
    let mut e = exec_escape(v);
    out.append(&mut e);
    out.push(QUOTE);
    proof {
        assert(out@ =~= old(out)@ + serialize_prop(
            (PropV { name: name_v, value: ValV::Str(v@) }),
        ));
    }
}

/// Append the text of one integer property.
fn push_prop_int(out: &mut Vec<u8>, mut name: Vec<u8>, v: i64)
    ensures
        final(out)@ == old(out)@ + serialize_prop(
            (PropV { name: name@, value: ValV::Int(v as int) }),
        ),
{
    let ghost name_v = name@;
    out.push(SPACE);
    out.append(&mut name);
    out.push(EQ);
    let mut d = i64_to_dec(v);
    out.append(&mut d);
    proof {
        assert(out@ =~= old(out)@ + serialize_prop(
            (PropV { name: name_v, value: ValV::Int(v as int) }),
        ));
    }
}

/// The canonical name of a swipe direction, as a vector.
fn swipe_dir_vec(d: SwipeDir) -> (v: Vec<u8>)
    ensures
        v@ == swipe_dir_name(d),
{
    match d {
        SwipeDir::Any => build_val_any(),
        SwipeDir::N => build_val_n(),
        SwipeDir::S => build_val_s(),
        SwipeDir::E => build_val_e(),
        SwipeDir::W => build_val_w(),
        SwipeDir::NE => build_val_ne(),
        SwipeDir::NW => build_val_nw(),
        SwipeDir::SE => build_val_se(),
        SwipeDir::SW => build_val_sw(),
    }
}

/// The canonical name of a pinch direction, as a vector.
fn pinch_dir_vec(d: PinchDir) -> (v: Vec<u8>)
    ensures
        v@ == pinch_dir_name(d),
{
    match d {
        PinchDir::Any => build_val_any(),
        PinchDir::In => build_val_in(),
        PinchDir::Out => build_val_out(),
        PinchDir::Clockwise => build_val_clockwise(),
        PinchDir::Counterclockwise => build_val_counterclockwise(),
    }
}

/// The canonical line of one rule (without its line feed).
pub fn serialize_rule(g: &Gesture) -> (out: Vec<u8>)
    ensures
        out@ == serialize_rule_spec(g@),
{
    proof {
        lemma_serialize_props_singletons();
        lemma_serialize_rule_decompose(g@);
    }
    match g {
        Gesture::Swipe(s) => {
            let ghost sv = s@;
            let mut out = build_swipe();
            let dname = swipe_dir_vec(s.direction);
            let ghost a1 = name_swipe() + serialize_prop(
                (PropV { name: name_direction(), value: ValV::Str(swipe_dir_name(sv.direction)) }),
            );
            push_prop_str(&mut out, build_direction(), &dname);
            proof {
                assert(out@ == a1);
            }
            let ghost a2 = a1 + serialize_prop(
                (PropV { name: name_fingers(), value: ValV::Int(sv.fingers) }),
            );
            push_prop_int(&mut out, build_fingers(), s.fingers as i64);
            proof {
                assert(out@ == a2);
            }
            let ghost a3 = a2 + serialize_props(opt_str_prop(name_update(), sv.update));
            match &s.update {
                Option::Some(v) => {
                    push_prop_str(&mut out, build_update(), v);
                    proof {
                        assert(opt_str_prop(name_update(), sv.update) =~= seq![
                            PropV { name: name_update(), value: ValV::Str(v@) },
                        ]);
                        assert(out@ == a3);
                    }
                },
                Option::None => {
                    proof {
                        assert(a3 =~= a2);
                    }
                },
            }
            let ghost a4 = a3 + serialize_props(opt_str_prop(name_start(), sv.start));
            match &s.start {
                Option::Some(v) => {
                    push_prop_str(&mut out, build_start(), v);
                    proof {
                        assert(opt_str_prop(name_start(), sv.start) =~= seq![
                            PropV { name: name_start(), value: ValV::Str(v@) },
                        ]);
                        assert(out@ == a4);
                    }
                },
                Option::None => {
                    proof {
                        assert(a4 =~= a3);
                    }
                },
            }
            let ghost a5 = a4 + serialize_props(opt_str_prop(name_end(), sv.end));
            match &s.end {
                Option::Some(v) => {
                    push_prop_str(&mut out, build_end(), v);
                    proof {
                        assert(opt_str_prop(name_end(), sv.end) =~= seq![
                            PropV { name: name_end(), value: ValV::Str(v@) },
                        ]);
                        assert(out@ == a5);
                    }
                },
                Option::None => {
                    proof {
                        assert(a5 =~= a4);
                    }
                },
            }
            let ghost a6 = a5 + serialize_props(opt_int_prop(name_acceleration(), sv.acceleration));
            match s.acceleration {
                Option::Some(a) => {
                    push_prop_int(&mut out, build_acceleration(), a as i64);
                    proof {
                        assert(opt_int_prop(name_acceleration(), sv.acceleration) =~= seq![
                            PropV { name: name_acceleration(), value: ValV::Int(a as int) },
                        ]);
                        assert(out@ == a6);
                    }
                },
                Option::None => {
                    proof {
                        assert(a6 =~= a5);
                    }
                },
            }
            let ghost a7 = a6 + serialize_props(
                opt_int_prop(name_mouse_up_delay(), sv.mouse_up_delay),
            );
            match s.mouse_up_delay {
                Option::Some(dl) => {
                    push_prop_int(&mut out, build_mouse_up_delay(), dl);
                    proof {
                        assert(opt_int_prop(name_mouse_up_delay(), sv.mouse_up_delay) =~= seq![
                            PropV { name: name_mouse_up_delay(), value: ValV::Int(dl as int) },
                        ]);
                        assert(out@ == a7);
                    }
                },
                Option::None => {
                    proof {
                        assert(a7 =~= a6);
                    }
                },
            }
            proof {
                assert(out@ == serialize_rule_spec(g@));
            }
            out
        },
        Gesture::Pinch(p) => {
            let ghost pv = p@;
            let mut out = build_pinch();
            let dname = pinch_dir_vec(p.direction);
            let ghost a1 = name_pinch() + serialize_prop(
                (PropV { name: name_direction(), value: ValV::Str(pinch_dir_name(pv.direction)) }),
            );
            push_prop_str(&mut out, build_direction(), &dname);
            proof {
                assert(out@ == a1);
            }
            let ghost a2 = a1 + serialize_prop(
                (PropV { name: name_fingers(), value: ValV::Int(pv.fingers) }),
            );
            push_prop_int(&mut out, build_fingers(), p.fingers as i64);
            proof {
                assert(out@ == a2);
            }
            let ghost a3 = a2 + serialize_props(opt_str_prop(name_update(), pv.update));
            match &p.update {
                Option::Some(v) => {
                    push_prop_str(&mut out, build_update(), v);
                    proof {
                        assert(opt_str_prop(name_update(), pv.update) =~= seq![
                            PropV { name: name_update(), value: ValV::Str(v@) },
                        ]);
                        assert(out@ == a3);
                    }
                },
                Option::None => {
                    proof {
                        assert(a3 =~= a2);
                    }
                },
            }
            let ghost a4 = a3 + serialize_props(opt_str_prop(name_start(), pv.start));
            match &p.start {
                Option::Some(v) => {
                    push_prop_str(&mut out, build_start(), v);
                    proof {
                        assert(opt_str_prop(name_start(), pv.start) =~= seq![
                            PropV { name: name_start(), value: ValV::Str(v@) },
                        ]);
                        assert(out@ == a4);
                    }
                },
                Option::None => {
                    proof {
                        assert(a4 =~= a3);
                    }
                },
            }
            let ghost a5 = a4 + serialize_props(opt_str_prop(name_end(), pv.end));
            match &p.end {
                Option::Some(v) => {
                    push_prop_str(&mut out, build_end(), v);
                    proof {
                        assert(opt_str_prop(name_end(), pv.end) =~= seq![
                            PropV { name: name_end(), value: ValV::Str(v@) },
                        ]);
                        assert(out@ == a5);
                    }
                },
                Option::None => {
                    proof {
                        assert(a5 =~= a4);
                    }
                },
            }
            proof {
                assert(out@ == serialize_rule_spec(g@));
            }
            out
        },
        Gesture::Hold(h) => {
            let ghost hv = h@;
            let mut out = build_hold();
            let ghost a1 = name_hold() + serialize_prop(
                (PropV { name: name_fingers(), value: ValV::Int(hv.fingers) }),
            );
            push_prop_int(&mut out, build_fingers(), h.fingers as i64);
            proof {
                assert(out@ == a1);
            }
            let ghost a2 = a1 + serialize_props(opt_str_prop(name_action(), hv.action));
            match &h.action {
                Option::Some(v) => {
                    push_prop_str(&mut out, build_action(), v);
                    proof {
                        assert(opt_str_prop(name_action(), hv.action) =~= seq![
                            PropV { name: name_action(), value: ValV::Str(v@) },
                        ]);
                        assert(out@ == a2);
                    }
                },
                Option::None => {
                    proof {
                        assert(a2 =~= a1);
                    }
                },
            }
            proof {
                assert(out@ == serialize_rule_spec(g@));
            }
            out
        },
        Gesture::Null => {
            let out: Vec<u8> = Vec::new();
            proof {
                assert(out@ == serialize_rule_spec(g@));
            }
            out
        },
    }
}

/// The text of a property list, decomposed over concatenation.
proof fn lemma_serialize_props_concat(a: Seq<PropV>, b: Seq<PropV>)
    ensures
        serialize_props(a + b) == serialize_props(a) + serialize_props(b),
    decreases a.len(),
{
    if a.len() == 0 {
        assert(a + b =~= b);
        assert(serialize_props(a) + serialize_props(b) =~= serialize_props(b));
    } else {
        assert((a + b).drop_first() =~= a.drop_first() + b);
        lemma_serialize_props_concat(a.drop_first(), b);
        assert((a + b)[0] == a[0]);
        assert(serialize_props(a) + serialize_props(b) =~= serialize_prop(a[0]) + (serialize_props(
            a.drop_first(),
        ) + serialize_props(b)));
    }
}

/// The line of a swipe rule, decomposed into its pieces.
#[verifier::rlimit(100)]
proof fn lemma_serialize_swipe_decompose(s: SwipeV)
    ensures
        serialize_rule_spec(GestureV::Swipe(s)) == name_swipe() + serialize_prop(
            (PropV { name: name_direction(), value: ValV::Str(swipe_dir_name(s.direction)) }),
        ) + serialize_prop((PropV { name: name_fingers(), value: ValV::Int(s.fingers) }))
            + serialize_props(opt_str_prop(name_update(), s.update)) + serialize_props(
            opt_str_prop(name_start(), s.start),
        ) + serialize_props(opt_str_prop(name_end(), s.end)) + serialize_props(
            opt_int_prop(name_acceleration(), s.acceleration),
        ) + serialize_props(opt_int_prop(name_mouse_up_delay(), s.mouse_up_delay)),
{
    lemma_serialize_props_singletons();
    let r = GestureV::Swipe(s);
    let p1 = seq![
        PropV { name: name_direction(), value: ValV::Str(swipe_dir_name(s.direction)) },
    ];
    let p2 = seq![PropV { name: name_fingers(), value: ValV::Int(s.fingers) }];
    let p3 = opt_str_prop(name_update(), s.update);
    let p4 = opt_str_prop(name_start(), s.start);
    let p5 = opt_str_prop(name_end(), s.end);
    let p6 = opt_int_prop(name_acceleration(), s.acceleration);
    let p7 = opt_int_prop(name_mouse_up_delay(), s.mouse_up_delay);
    let r6 = p6 + p7;
    let r5 = p5 + r6;
    let r4 = p4 + r5;
    let r3 = p3 + r4;
    let r2 = p2 + r3;
    let r1 = p1 + r2;
    assert(props_of_rule(r) =~= r1);
    lemma_serialize_props_concat(p1, r2);
    lemma_serialize_props_concat(p2, r3);
    lemma_serialize_props_concat(p3, r4);
    lemma_serialize_props_concat(p4, r5);
    lemma_serialize_props_concat(p5, r6);
    lemma_serialize_props_concat(p6, p7);
    let n = name_swipe();
    let sp1 = serialize_prop(p1[0]);
    let sp2 = serialize_prop(p2[0]);
    let s3 = serialize_props(p3);
    let s4 = serialize_props(p4);
    let s5 = serialize_props(p5);
    let s6 = serialize_props(p6);
    let s7 = serialize_props(p7);
    assert(serialize_rule_spec(r) == n + serialize_props(r1));
    vstd::seq_lib::lemma_concat_associative(n, sp1, serialize_props(r2));
    vstd::seq_lib::lemma_concat_associative(n + sp1, sp2, serialize_props(r3));
    vstd::seq_lib::lemma_concat_associative(n + sp1 + sp2, s3, serialize_props(r4));
    vstd::seq_lib::lemma_concat_associative(n + sp1 + sp2 + s3, s4, serialize_props(r5));
    vstd::seq_lib::lemma_concat_associative(n + sp1 + sp2 + s3 + s4, s5, serialize_props(r6));
    vstd::seq_lib::lemma_concat_associative(n + sp1 + sp2 + s3 + s4 + s5, s6, s7);
    assert(serialize_rule_spec(r) == n + sp1 + sp2 + s3 + s4 + s5 + s6 + s7);
}

/// The line of a pinch rule, decomposed into its pieces.
#[verifier::rlimit(100)]
proof fn lemma_serialize_pinch_decompose(p: PinchV)
    ensures
        serialize_rule_spec(GestureV::Pinch(p)) == name_pinch() + serialize_prop(
            (PropV { name: name_direction(), value: ValV::Str(pinch_dir_name(p.direction)) }),
        ) + serialize_prop((PropV { name: name_fingers(), value: ValV::Int(p.fingers) }))
            + serialize_props(opt_str_prop(name_update(), p.update)) + serialize_props(
            opt_str_prop(name_start(), p.start),
        ) + serialize_props(opt_str_prop(name_end(), p.end)),
{
    lemma_serialize_props_singletons();
    let r = GestureV::Pinch(p);
    let p1 = seq![
        PropV { name: name_direction(), value: ValV::Str(pinch_dir_name(p.direction)) },
    ];
    let p2 = seq![PropV { name: name_fingers(), value: ValV::Int(p.fingers) }];
    let p3 = opt_str_prop(name_update(), p.update);
    let p4 = opt_str_prop(name_start(), p.start);
    let p5 = opt_str_prop(name_end(), p.end);
    let r4 = p4 + p5;
    let r3 = p3 + r4;
    let r2 = p2 + r3;
    let r1 = p1 + r2;
    assert(props_of_rule(r) =~= r1);
    lemma_serialize_props_concat(p1, r2);
    lemma_serialize_props_concat(p2, r3);
    lemma_serialize_props_concat(p3, r4);
    lemma_serialize_props_concat(p4, p5);
    let n = name_pinch();
    let sp1 = serialize_prop(p1[0]);
    let sp2 = serialize_prop(p2[0]);
    let s3 = serialize_props(p3);
    let s4 = serialize_props(p4);
    let s5 = serialize_props(p5);
    assert(serialize_rule_spec(r) == n + serialize_props(r1));
    vstd::seq_lib::lemma_concat_associative(n, sp1, serialize_props(r2));
    vstd::seq_lib::lemma_concat_associative(n + sp1, sp2, serialize_props(r3));
    vstd::seq_lib::lemma_concat_associative(n + sp1 + sp2, s3, serialize_props(r4));
    vstd::seq_lib::lemma_concat_associative(n + sp1 + sp2 + s3, s4, s5);
    assert(serialize_rule_spec(r) == n + sp1 + sp2 + s3 + s4 + s5);
}

/// The line of a hold rule, decomposed into its pieces.
#[verifier::rlimit(100)]
proof fn lemma_serialize_hold_decompose(h: HoldV)
    ensures
        serialize_rule_spec(GestureV::Hold(h)) == name_hold() + serialize_prop(
            (PropV { name: name_fingers(), value: ValV::Int(h.fingers) }),
        ) + serialize_props(opt_str_prop(name_action(), h.action)),
{
    lemma_serialize_props_singletons();
    let r = GestureV::Hold(h);
    let p1 = seq![PropV { name: name_fingers(), value: ValV::Int(h.fingers) }];
    let p2 = opt_str_prop(name_action(), h.action);
    let r1 = p1 + p2;
    assert(props_of_rule(r) =~= r1);
    lemma_serialize_props_concat(p1, p2);
    let n = name_hold();
    let sp1 = serialize_prop(p1[0]);
    let s2 = serialize_props(p2);
    assert(serialize_rule_spec(r) == n + serialize_props(r1));
    vstd::seq_lib::lemma_concat_associative(n, sp1, s2);
    assert(serialize_rule_spec(r) == n + sp1 + s2);
}

/// The line of a rule is its node name followed by its properties'
/// texts, one after the other.
proof fn lemma_serialize_rule_decompose(r: GestureV)
    ensures
        (match r {
            GestureV::Swipe(s) => serialize_rule_spec(r) == name_swipe() + serialize_prop(
                (PropV { name: name_direction(), value: ValV::Str(swipe_dir_name(s.direction)) }),
            ) + serialize_prop((PropV { name: name_fingers(), value: ValV::Int(s.fingers) }))
                + serialize_props(opt_str_prop(name_update(), s.update)) + serialize_props(
                opt_str_prop(name_start(), s.start),
            ) + serialize_props(opt_str_prop(name_end(), s.end)) + serialize_props(
                opt_int_prop(name_acceleration(), s.acceleration),
            ) + serialize_props(opt_int_prop(name_mouse_up_delay(), s.mouse_up_delay)),
            GestureV::Pinch(p) => serialize_rule_spec(r) == name_pinch() + serialize_prop(
                (PropV { name: name_direction(), value: ValV::Str(pinch_dir_name(p.direction)) }),
            ) + serialize_prop((PropV { name: name_fingers(), value: ValV::Int(p.fingers) }))
                + serialize_props(opt_str_prop(name_update(), p.update)) + serialize_props(
                opt_str_prop(name_start(), p.start),
            ) + serialize_props(opt_str_prop(name_end(), p.end)),
            GestureV::Hold(h) => serialize_rule_spec(r) == name_hold() + serialize_prop(
                (PropV { name: name_fingers(), value: ValV::Int(h.fingers) }),
            ) + serialize_props(opt_str_prop(name_action(), h.action)),
            GestureV::Null => serialize_rule_spec(r) == Seq::<u8>::empty(),
        }),
{
    lemma_serialize_props_singletons();
    match r {
        GestureV::Swipe(s) => {
            lemma_serialize_swipe_decompose(s);
        },
        GestureV::Pinch(p) => {
            lemma_serialize_pinch_decompose(p);
        },
        GestureV::Hold(h) => {
            lemma_serialize_hold_decompose(h);
        },
        GestureV::Null => {
            assert(serialize_rule_spec(r) =~= Seq::<u8>::empty());
        },
    }
}

/// The text of an empty or one-element property list.
proof fn lemma_serialize_props_singletons()
    ensures
        serialize_props(Seq::<PropV>::empty()) == Seq::<u8>::empty(),
        forall|p: PropV|
            serialize_props(seq![p]) == #[trigger] serialize_prop(p),
{
    assert forall|p: PropV| serialize_props(seq![p]) == #[trigger] serialize_prop(p) by {
        assert(seq![p].drop_first() =~= Seq::<PropV>::empty());
        assert(serialize_prop(p) + serialize_props(Seq::<PropV>::empty()) =~= serialize_prop(p));
    }
}

/// A rule list extended by one rule serialises to the text so far, the
/// new rule's line, and its line feed.
proof fn lemma_serialize_config_snoc(rs: Seq<GestureV>, r: GestureV)
    ensures
        serialize_config_spec(rs.push(r)) == serialize_config_spec(rs) + serialize_rule_spec(r)
            + seq![NL],
    decreases rs.len(),
{
    if rs.len() == 0 {
        assert(rs.push(r)[0] == r);
        assert(rs.push(r).drop_first() =~= rs);
        assert(serialize_config_spec(rs.push(r).drop_first()) == serialize_config_spec(rs));
        assert(serialize_config_spec(rs.push(r)) =~= serialize_config_spec(rs)
            + serialize_rule_spec(r) + seq![NL]);
    } else {
        assert(rs.push(r).drop_first() =~= rs.drop_first().push(r));
        lemma_serialize_config_snoc(rs.drop_first(), r);
        assert(rs.push(r)[0] == rs[0]);
        assert(serialize_config_spec(rs) + serialize_rule_spec(r) + seq![NL] =~= serialize_rule_spec(
            rs[0],
        ) + seq![NL] + (serialize_config_spec(rs.drop_first()) + serialize_rule_spec(r)
            + seq![NL]));
    }
}

/// The canonical text of the configured rules, one line per rule, as the
/// reload path would read it back.
pub fn serialize_rules(config: &Config) -> (out: Vec<u8>)
    ensures
        out@ == serialize_config_spec(config@.gestures),
{
    let mut out: Vec<u8> = Vec::new();
    proof {
        assert(config@.gestures.take(0) =~= Seq::<GestureV>::empty());
        assert(out@ =~= serialize_config_spec(config@.gestures.take(0)));
    }
    let mut i: usize = 0;
    while i < config.gestures.len()
        invariant
            i <= config.gestures@.len(),
            out@ == serialize_config_spec(config@.gestures.take(i as int)),
        decreases config.gestures@.len() - i,
    {
        proof {
            assert(config@.gestures.take(i + 1) =~= config@.gestures.take(i as int).push(
                config@.gestures[i as int],
            ));
            lemma_serialize_config_snoc(config@.gestures.take(i as int), config@.gestures[i as int]);
            assert(config@.gestures[i as int] == config.gestures@[i as int]@);
        }
        let mut line = serialize_rule(&config.gestures[i]);
        out.append(&mut line);
        out.push(NL);
        proof {
            assert(out@ =~= serialize_config_spec(config@.gestures.take(i + 1)));
        }
        i += 1;
    }
    proof {
        assert(config@.gestures.take(config.gestures@.len() as int) =~= config@.gestures);
    }
    out
}

/// Every node and property name is a non-empty identifier.
proof fn lemma_names_wf()
    ensures
        name_swipe().len() == 5,
        forall|i: int| 0 <= i < name_swipe().len() ==> is_ident_byte(#[trigger] name_swipe()[i]),
        name_pinch().len() == 5,
        forall|i: int| 0 <= i < name_pinch().len() ==> is_ident_byte(#[trigger] name_pinch()[i]),
        name_hold().len() == 4,
        forall|i: int| 0 <= i < name_hold().len() ==> is_ident_byte(#[trigger] name_hold()[i]),
        name_direction().len() == 9,
        forall|i: int| 0 <= i < name_direction().len() ==> is_ident_byte(#[trigger] name_direction()[i]),
        name_fingers().len() == 7,
        forall|i: int| 0 <= i < name_fingers().len() ==> is_ident_byte(#[trigger] name_fingers()[i]),
        name_update().len() == 6,
        forall|i: int| 0 <= i < name_update().len() ==> is_ident_byte(#[trigger] name_update()[i]),
        name_start().len() == 5,
        forall|i: int| 0 <= i < name_start().len() ==> is_ident_byte(#[trigger] name_start()[i]),
        name_end().len() == 3,
        forall|i: int| 0 <= i < name_end().len() ==> is_ident_byte(#[trigger] name_end()[i]),
        name_acceleration().len() == 12,
        forall|i: int| 0 <= i < name_acceleration().len() ==> is_ident_byte(#[trigger] name_acceleration()[i]),
        name_mouse_up_delay().len() == 14,
        forall|i: int| 0 <= i < name_mouse_up_delay().len() ==> is_ident_byte(#[trigger] name_mouse_up_delay()[i]),
        name_action().len() == 6,
        forall|i: int| 0 <= i < name_action().len() ==> is_ident_byte(#[trigger] name_action()[i]),
{
}

/// The property names are pairwise distinct.
proof fn lemma_prop_names_distinct()
    ensures
        name_direction() != name_fingers(),
        name_direction() != name_update(),
        name_direction() != name_start(),
        name_direction() != name_end(),
        name_direction() != name_acceleration(),
        name_direction() != name_mouse_up_delay(),
        name_direction() != name_action(),
        name_fingers() != name_update(),
        name_fingers() != name_start(),
        name_fingers() != name_end(),
        name_fingers() != name_acceleration(),
        name_fingers() != name_mouse_up_delay(),
        name_fingers() != name_action(),
        name_update() != name_start(),
        name_update() != name_end(),
        name_update() != name_acceleration(),
        name_update() != name_mouse_up_delay(),
        name_update() != name_action(),
        name_start() != name_end(),
        name_start() != name_acceleration(),
        name_start() != name_mouse_up_delay(),
        name_start() != name_action(),
        name_end() != name_acceleration(),
        name_end() != name_mouse_up_delay(),
        name_end() != name_action(),
        name_acceleration() != name_mouse_up_delay(),
        name_acceleration() != name_action(),
        name_mouse_up_delay() != name_action(),
{
    assert(name_update()[0] != name_action()[0]);
}

/// The node names are pairwise distinct.
proof fn lemma_node_names_distinct()
    ensures
        name_swipe() != name_pinch(),
        name_swipe() != name_hold(),
        name_pinch() != name_hold(),
{
    assert(name_swipe()[0] != name_pinch()[0]);
}

/// Reading a swipe direction's canonical name back gives the direction.
proof fn lemma_swipe_dir_roundtrip(d: SwipeDir)
    ensures
        swipe_dir_of_name(swipe_dir_name(d)) == Option::Some(d),
{
    match d {
        SwipeDir::Any => {

        },
        SwipeDir::N => {
            assert(name_val_n().len() != name_val_any().len());
        },
        SwipeDir::S => {
            assert(name_val_s().len() != name_val_any().len());
            assert(name_val_s()[0] != name_val_n()[0]);
        },
        SwipeDir::E => {
            assert(name_val_e().len() != name_val_any().len());
            assert(name_val_e()[0] != name_val_n()[0]);
            assert(name_val_e()[0] != name_val_s()[0]);
        },
        SwipeDir::W => {
            assert(name_val_w().len() != name_val_any().len());
            assert(name_val_w()[0] != name_val_n()[0]);
            assert(name_val_w()[0] != name_val_s()[0]);
            assert(name_val_w()[0] != name_val_e()[0]);
        },
        SwipeDir::NE => {
            assert(name_val_ne().len() != name_val_any().len());
            assert(name_val_ne().len() != name_val_n().len());
            assert(name_val_ne().len() != name_val_s().len());
            assert(name_val_ne().len() != name_val_e().len());
            assert(name_val_ne().len() != name_val_w().len());
        },
        SwipeDir::NW => {
            assert(name_val_nw().len() != name_val_any().len());
            assert(name_val_nw().len() != name_val_n().len());
            assert(name_val_nw().len() != name_val_s().len());
            assert(name_val_nw().len() != name_val_e().len());
            assert(name_val_nw().len() != name_val_w().len());
            assert(name_val_nw()[1] != name_val_ne()[1]);
        },
        SwipeDir::SE => {
            assert(name_val_se().len() != name_val_any().len());
            assert(name_val_se().len() != name_val_n().len());
            assert(name_val_se().len() != name_val_s().len());
            assert(name_val_se().len() != name_val_e().len());
            assert(name_val_se().len() != name_val_w().len());
            assert(name_val_se()[0] != name_val_ne()[0]);
            assert(name_val_se()[0] != name_val_nw()[0]);
        },
        SwipeDir::SW => {
            assert(name_val_sw().len() != name_val_any().len());
            assert(name_val_sw().len() != name_val_n().len());
            assert(name_val_sw().len() != name_val_s().len());
            assert(name_val_sw().len() != name_val_e().len());
            assert(name_val_sw().len() != name_val_w().len());
            assert(name_val_sw()[0] != name_val_ne()[0]);
            assert(name_val_sw()[0] != name_val_nw()[0]);
            assert(name_val_sw()[1] != name_val_se()[1]);
        },
    }
}

/// Reading a pinch direction's canonical name back gives the direction.
proof fn lemma_pinch_dir_roundtrip(d: PinchDir)
    ensures
        pinch_dir_of_name(pinch_dir_name(d)) == Option::Some(d),
{
    match d {
        PinchDir::Any => {

        },
        PinchDir::In => {
            assert(name_val_in().len() != name_val_any().len());
        },
        PinchDir::Out => {
            assert(name_val_out()[0] != name_val_any()[0]);
            assert(name_val_out().len() != name_val_in().len());
        },
        PinchDir::Clockwise => {
            assert(name_val_clockwise().len() != name_val_any().len());
            assert(name_val_clockwise().len() != name_val_in().len());
            assert(name_val_clockwise().len() != name_val_out().len());
        },
        PinchDir::Counterclockwise => {
            assert(name_val_counterclockwise().len() != name_val_any().len());
            assert(name_val_counterclockwise().len() != name_val_in().len());
            assert(name_val_counterclockwise().len() != name_val_out().len());
            assert(name_val_counterclockwise().len() != name_val_clockwise().len());
        },
    }
}
/// A byte string without line feeds.
pub open spec fn no_nl(s: Seq<u8>) -> bool {
    forall|i: int| 0 <= i < s.len() ==> s[i] != NL
}

/// A well-formed property: a named identifier with a value in machine
/// range.
pub open spec fn wf_prop(p: PropV) -> bool {
    &&& p.name.len() >= 1
    &&& forall|i: int| 0 <= i < p.name.len() ==> is_ident_byte(#[trigger] p.name[i])
    &&& (match p.value {
        ValV::Int(v) => i64::MIN <= v <= i64::MAX,
        ValV::Str(_) => true,
    })
}

/// Every property of the list is well-formed.
pub open spec fn wf_props(ps: Seq<PropV>) -> bool {
    forall|i: int| 0 <= i < ps.len() ==> wf_prop(#[trigger] ps[i])
}

/// The identifier at the front of an identifier followed by a
/// non-identifier is the identifier itself.
proof fn lemma_ident_len_concat(a: Seq<u8>, b: Seq<u8>)
    requires
        forall|i: int| 0 <= i < a.len() ==> is_ident_byte(#[trigger] a[i]),
        b.len() == 0 || !is_ident_byte(b[0]),
    ensures
        ident_len(a + b) == a.len(),
    decreases a.len(),
{
    if a.len() == 0 {
        assert(a + b =~= b);
    } else {
        assert((a + b)[0] == a[0]);
        assert((a + b).drop_first() =~= a.drop_first() + b);
        lemma_ident_len_concat(a.drop_first(), b);
    }
}

/// The integer token at the front of a numeral followed by a non-token
/// byte is the numeral itself.
proof fn lemma_int_len_concat(a: Seq<u8>, b: Seq<u8>)
    requires
        forall|i: int| 0 <= i < a.len() ==> is_int_byte(#[trigger] a[i]),
        b.len() == 0 || !is_int_byte(b[0]),
    ensures
        int_len(a + b) == a.len(),
    decreases a.len(),
{
    if a.len() == 0 {
        assert(a + b =~= b);
    } else {
        assert((a + b)[0] == a[0]);
        assert((a + b).drop_first() =~= a.drop_first() + b);
        lemma_int_len_concat(a.drop_first(), b);
    }
}

/// Every byte of a signed numeral belongs to an integer token.
proof fn lemma_render_int_bytes(v: int)
    ensures
        render_int_spec(v).len() >= 1,
        forall|i: int|
            0 <= i < render_int_spec(v).len() ==> is_int_byte(#[trigger] render_int_spec(v)[i]),
        !is_ws(render_int_spec(v)[0]),
        render_int_spec(v)[0] != QUOTE,
        no_nl(render_int_spec(v)),
{
    if v < 0 {
        crate::numfmt::lemma_dec_digits_wf(vstd::math::abs(v));
        assert forall|i: int| 0 <= i < render_int_spec(v).len() implies is_int_byte(
            #[trigger] render_int_spec(v)[i],
        ) by {
            if i > 0 {
                assert(render_int_spec(v)[i] == dec_digits(vstd::math::abs(v))[i - 1]);
            }
        }
    } else {
        crate::numfmt::lemma_dec_digits_wf(v as nat);
    }
}

/// Unescaping what escaping wrote gives the string back, whatever
/// follows the closing quote.
proof fn lemma_qstring_of_escape(sv: Seq<u8>, rest: Seq<u8>)
    ensures
        parse_qstring(escape_spec(sv) + seq![QUOTE] + rest) == Option::Some((sv, rest)),
    decreases sv.len(),
{
    if sv.len() == 0 {
        assert(escape_spec(sv) + seq![QUOTE] + rest =~= seq![QUOTE] + rest);
        assert((seq![QUOTE] + rest)[0] == QUOTE);
        assert((seq![QUOTE] + rest).skip(1) =~= rest);
    } else {
        let b = sv[0];
        let t = escape_spec(sv) + seq![QUOTE] + rest;
        lemma_qstring_of_escape(sv.drop_first(), rest);
        let inner = escape_spec(sv.drop_first()) + seq![QUOTE] + rest;
        if b == QUOTE || b == BSLASH || b == NL {
            let enc: u8 = if b == QUOTE {
                QUOTE
            } else if b == BSLASH {
                BSLASH
            } else {
                ESC_N
            };
            assert(t =~= seq![BSLASH, enc] + inner);
            assert(t[0] == BSLASH);
            assert(t[1] == enc);
            assert(t.len() >= 2);
            assert(t.skip(2) =~= inner);
            assert(unescape_byte(enc) == b);
            assert(seq![unescape_byte(t[1])] + sv.drop_first() =~= sv);
        } else {
            assert(t =~= seq![b] + inner);
            assert(t[0] == b);
            assert(t.skip(1) =~= inner);
            assert(seq![t[0]] + sv.drop_first() =~= sv);
        }
    }
}

/// The text of a non-empty property list begins with its separating
/// space.
proof fn lemma_serialize_props_head(ps: Seq<PropV>)
    requires
        ps.len() > 0,
    ensures
        serialize_props(ps).len() > 0,
        serialize_props(ps)[0] == SPACE,
        is_ws(serialize_props(ps)[0]),
{
    assert(serialize_prop(ps[0])[0] == SPACE);
    assert(serialize_props(ps)[0] == serialize_prop(ps[0])[0]);
}

/// Reading one serialised string property off the front of the text.
proof fn lemma_parse_props_step_str(
    name: Seq<u8>,
    sv: Seq<u8>,
    rest_text: Seq<u8>,
    rest_ps: Seq<PropV>,
)
    requires
        name.len() >= 1,
        forall|i: int| 0 <= i < name.len() ==> is_ident_byte(#[trigger] name[i]),
        parse_props(rest_text) == Option::Some(rest_ps),
    ensures
        parse_props(
            seq![SPACE] + name + seq![EQ] + (seq![QUOTE] + escape_spec(sv) + seq![QUOTE])
                + rest_text,
        ) == Option::Some(seq![PropV { name, value: ValV::Str(sv) }] + rest_ps),
{
    let vtext = seq![QUOTE] + escape_spec(sv) + seq![QUOTE];
    let w = seq![SPACE] + name + seq![EQ] + vtext + rest_text;
    let t1 = name + seq![EQ] + vtext + rest_text;
    assert(w[0] == SPACE);
    assert(w.drop_first() =~= t1);
    assert(t1[0] == name[0]);
    assert(!is_ws(t1[0]));
    assert(skip_ws(w) == skip_ws(t1));
    assert(skip_ws(t1) == t1);
    assert(t1 =~= name + (seq![EQ] + vtext + rest_text));
    lemma_ident_len_concat(name, seq![EQ] + vtext + rest_text);
    assert(ident_len(t1) == name.len());
    assert(t1.take(name.len() as int) =~= name);
    let r1 = t1.skip(name.len() as int);
    assert(r1 =~= seq![EQ] + vtext + rest_text);
    assert(r1[0] == EQ);
    let r2 = r1.skip(1);
    assert(r2 =~= vtext + rest_text);
    assert(r2[0] == QUOTE);
    assert(r2.len() > 0);
    assert(r2.skip(1) =~= escape_spec(sv) + seq![QUOTE] + rest_text);
    lemma_qstring_of_escape(sv, rest_text);
    assert(parse_props(w) == Option::Some(
        seq![PropV { name: t1.take(name.len() as int), value: ValV::Str(sv) }] + rest_ps,
    ));
    assert(seq![PropV { name: t1.take(name.len() as int), value: ValV::Str(sv) }] =~= seq![
        PropV { name, value: ValV::Str(sv) },
    ]);
}

/// Reading one serialised integer property off the front of the text.
proof fn lemma_parse_props_step_int(name: Seq<u8>, v: int, rest_text: Seq<u8>, rest_ps: Seq<PropV>)
    requires
        name.len() >= 1,
        forall|i: int| 0 <= i < name.len() ==> is_ident_byte(#[trigger] name[i]),
        i64::MIN <= v <= i64::MAX,
        parse_props(rest_text) == Option::Some(rest_ps),
        rest_text.len() == 0 || rest_text[0] == SPACE,
    ensures
        parse_props(seq![SPACE] + name + seq![EQ] + render_int_spec(v) + rest_text)
            == Option::Some(seq![PropV { name, value: ValV::Int(v) }] + rest_ps),
{
    let vtext = render_int_spec(v);
    lemma_render_int_bytes(v);
    let w = seq![SPACE] + name + seq![EQ] + vtext + rest_text;
    let t1 = name + seq![EQ] + vtext + rest_text;
    assert(w[0] == SPACE);
    assert(w.drop_first() =~= t1);
    assert(t1[0] == name[0]);
    assert(!is_ws(t1[0]));
    assert(skip_ws(w) == skip_ws(t1));
    assert(skip_ws(t1) == t1);
    assert(t1 =~= name + (seq![EQ] + vtext + rest_text));
    lemma_ident_len_concat(name, seq![EQ] + vtext + rest_text);
    assert(ident_len(t1) == name.len());
    assert(t1.take(name.len() as int) =~= name);
    let r1 = t1.skip(name.len() as int);
    assert(r1 =~= seq![EQ] + vtext + rest_text);
    assert(r1[0] == EQ);
    let r2 = r1.skip(1);
    assert(r2 =~= vtext + rest_text);
    assert(r2[0] == vtext[0]);
    assert(r2[0] != QUOTE);
    assert(r2.len() > 0);
    lemma_int_len_concat(vtext, rest_text);
    assert(int_len(r2) == vtext.len());
    assert(r2.take(vtext.len() as int) =~= vtext);
    crate::numfmt::lemma_parse_of_render_int(v);
    assert(r2.skip(vtext.len() as int) =~= rest_text);
    assert(parse_props(w) == Option::Some(
        seq![PropV { name: t1.take(name.len() as int), value: ValV::Int(v) }] + rest_ps,
    ));
    assert(seq![PropV { name: t1.take(name.len() as int), value: ValV::Int(v) }] =~= seq![
        PropV { name, value: ValV::Int(v) },
    ]);
}

/// Reading the text of a well-formed property list back gives the list.
proof fn lemma_parse_props_of_serialize(ps: Seq<PropV>)
    requires
        wf_props(ps),
    ensures
        parse_props(serialize_props(ps)) == Option::Some(ps),
    decreases ps.len(),
{
    if ps.len() == 0 {
        assert(skip_ws(serialize_props(ps)) == serialize_props(ps));
        assert(serialize_props(ps).len() == 0);
    } else {
        let p = ps[0];
        let tail = ps.drop_first();
        assert(wf_props(tail)) by {
            assert(forall|i: int| 0 <= i < tail.len() ==> tail[i] == #[trigger] ps[i + 1]);
        }
        lemma_parse_props_of_serialize(tail);
        let rest_text = serialize_props(tail);
        if tail.len() > 0 {
            lemma_serialize_props_head(tail);
        }
        assert(wf_prop(p));
        match p.value {
            ValV::Str(sv) => {
                lemma_parse_props_step_str(p.name, sv, rest_text, tail);
                assert(serialize_props(ps) == serialize_prop(p) + rest_text);
                assert(serialize_prop(p) + rest_text =~= seq![SPACE] + p.name + seq![EQ] + (
                seq![QUOTE] + escape_spec(sv) + seq![QUOTE]) + rest_text);
                assert(seq![PropV { name: p.name, value: ValV::Str(sv) }] + tail =~= ps);
            },
            ValV::Int(v) => {
                lemma_parse_props_step_int(p.name, v, rest_text, tail);
                assert(serialize_props(ps) == serialize_prop(p) + rest_text);
                assert(serialize_prop(p) + rest_text =~= seq![SPACE] + p.name + seq![EQ]
                    + render_int_spec(v) + rest_text);
                assert(seq![PropV { name: p.name, value: ValV::Int(v) }] + tail =~= ps);
            },
        }
    }
}
/// Folding distributes over concatenation of property lists.
proof fn lemma_fold_props_concat(acc: AccV, a: Seq<PropV>, b: Seq<PropV>, kind: GestureKind)
    ensures
        fold_props(acc, a + b, kind) == fold_props(fold_props(acc, a, kind), b, kind),
    decreases a.len(),
{
    if a.len() == 0 {
        assert(a + b =~= b);
        assert(fold_props(acc, a, kind) == acc);
    } else {
        assert((a + b)[0] == a[0]);
        assert((a + b).drop_first() =~= a.drop_first() + b);
        lemma_fold_props_concat(acc_apply(acc, a[0], kind), a.drop_first(), b, kind);
    }
}

/// Folding a single property applies it.
proof fn lemma_fold_props_singleton(acc: AccV, p: PropV, kind: GestureKind)
    ensures
        fold_props(acc, seq![p], kind) == acc_apply(acc, p, kind),
{
    assert(seq![p][0] == p);
    assert(seq![p].drop_first() =~= Seq::<PropV>::empty());
    assert(fold_props(acc_apply(acc, p, kind), seq![p].drop_first(), kind) == acc_apply(
        acc,
        p,
        kind,
    ));
}

/// The canonical property list of a well-formed rule is well-formed.
#[verifier::rlimit(100)]
proof fn lemma_wf_props_of_rule(r: GestureV)
    requires
        wf_rule(r),
    ensures
        wf_props(props_of_rule(r)),
{
    lemma_names_wf();
    assert forall|i: int|
        0 <= i < props_of_rule(r).len() implies wf_prop(#[trigger] props_of_rule(r)[i]) by {
        match r {
            GestureV::Swipe(s) => {
                let p1 = seq![
                    PropV { name: name_direction(), value: ValV::Str(swipe_dir_name(s.direction)) },
                ];
                let p2 = seq![PropV { name: name_fingers(), value: ValV::Int(s.fingers) }];
                let p3 = opt_str_prop(name_update(), s.update);
                let p4 = opt_str_prop(name_start(), s.start);
                let p5 = opt_str_prop(name_end(), s.end);
                let p6 = opt_int_prop(name_acceleration(), s.acceleration);
                let p7 = opt_int_prop(name_mouse_up_delay(), s.mouse_up_delay);
                assert(props_of_rule(r) =~= p1 + (p2 + (p3 + (p4 + (p5 + (p6 + p7))))));
                assert(wf_prop(p1[0]));
                assert(wf_prop(p2[0]));
                if p3.len() > 0 {
                    assert(wf_prop(p3[0]));
                }
                if p4.len() > 0 {
                    assert(wf_prop(p4[0]));
                }
                if p5.len() > 0 {
                    assert(wf_prop(p5[0]));
                }
                if p6.len() > 0 {
                    assert(wf_prop(p6[0]));
                }
                if p7.len() > 0 {
                    assert(wf_prop(p7[0]));
                }
            },
            GestureV::Pinch(p) => {
                let p1 = seq![
                    PropV { name: name_direction(), value: ValV::Str(pinch_dir_name(p.direction)) },
                ];
                let p2 = seq![PropV { name: name_fingers(), value: ValV::Int(p.fingers) }];
                let p3 = opt_str_prop(name_update(), p.update);
                let p4 = opt_str_prop(name_start(), p.start);
                let p5 = opt_str_prop(name_end(), p.end);
                assert(props_of_rule(r) =~= p1 + (p2 + (p3 + (p4 + p5))));
                assert(wf_prop(p1[0]));
                assert(wf_prop(p2[0]));
                if p3.len() > 0 {
                    assert(wf_prop(p3[0]));
                }
                if p4.len() > 0 {
                    assert(wf_prop(p4[0]));
                }
                if p5.len() > 0 {
                    assert(wf_prop(p5[0]));
                }
            },
            GestureV::Hold(h) => {
                let p1 = seq![PropV { name: name_fingers(), value: ValV::Int(h.fingers) }];
                let p2 = opt_str_prop(name_action(), h.action);
                assert(props_of_rule(r) =~= p1 + p2);
                assert(wf_prop(p1[0]));
                if p2.len() > 0 {
                    assert(wf_prop(p2[0]));
                }
            },
            GestureV::Null => {
            },
        }
    }
}

/// Folding the canonical properties of a well-formed swipe rule and
/// building gives the rule back.
#[verifier::rlimit(100)]
proof fn lemma_build_of_props_swipe(s: SwipeV)
    requires
        wf_rule(GestureV::Swipe(s)),
    ensures
        build_rule(
            GestureKind::Swipe,
            fold_props(acc_init(), props_of_rule(GestureV::Swipe(s)), GestureKind::Swipe),
        ) == Option::Some(GestureV::Swipe(s)),
{
    lemma_prop_names_distinct();
    lemma_swipe_dir_roundtrip(s.direction);
    let kind = GestureKind::Swipe;
    let p1 = seq![
        PropV { name: name_direction(), value: ValV::Str(swipe_dir_name(s.direction)) },
    ];
    let p2 = seq![PropV { name: name_fingers(), value: ValV::Int(s.fingers) }];
    let p3 = opt_str_prop(name_update(), s.update);
    let p4 = opt_str_prop(name_start(), s.start);
    let p5 = opt_str_prop(name_end(), s.end);
    let p6 = opt_int_prop(name_acceleration(), s.acceleration);
    let p7 = opt_int_prop(name_mouse_up_delay(), s.mouse_up_delay);
    let r6 = p6 + p7;
    let r5 = p5 + r6;
    let r4 = p4 + r5;
    let r3 = p3 + r4;
    let r2 = p2 + r3;
    let r1 = p1 + r2;
    assert(props_of_rule(GestureV::Swipe(s)) =~= r1);
    lemma_fold_props_concat(acc_init(), p1, r2, kind);
    lemma_fold_props_singleton(acc_init(), p1[0], kind);
    let acc1 = acc_apply(acc_init(), p1[0], kind);
    assert(!acc1.bad && acc1.direction == Option::Some(swipe_dir_name(s.direction))
        && acc1.fingers is None && acc1.update is None && acc1.start is None && acc1.end is None
        && acc1.acceleration is None && acc1.mouse_up_delay is None);
    lemma_fold_props_concat(acc1, p2, r3, kind);
    lemma_fold_props_singleton(acc1, p2[0], kind);
    let acc2 = acc_apply(acc1, p2[0], kind);
    assert(!acc2.bad && acc2.direction == acc1.direction && acc2.fingers == Option::Some(s.fingers)
        && acc2.update is None && acc2.start is None && acc2.end is None
        && acc2.acceleration is None && acc2.mouse_up_delay is None);
    lemma_fold_props_concat(acc2, p3, r4, kind);
    let acc3 = fold_props(acc2, p3, kind);
    match s.update {
        Option::Some(u) => {
            lemma_fold_props_singleton(acc2, p3[0], kind);
        },
        Option::None => {
        },
    }
    assert(!acc3.bad && acc3.direction == acc2.direction && acc3.fingers == acc2.fingers
        && acc3.update == s.update && acc3.start is None && acc3.end is None
        && acc3.acceleration is None && acc3.mouse_up_delay is None);
    lemma_fold_props_concat(acc3, p4, r5, kind);
    let acc4 = fold_props(acc3, p4, kind);
    match s.start {
        Option::Some(u) => {
            lemma_fold_props_singleton(acc3, p4[0], kind);
        },
        Option::None => {
        },
    }
    assert(!acc4.bad && acc4.direction == acc3.direction && acc4.fingers == acc3.fingers
        && acc4.update == acc3.update && acc4.start == s.start && acc4.end is None
        && acc4.acceleration is None && acc4.mouse_up_delay is None);
    lemma_fold_props_concat(acc4, p5, r6, kind);
    let acc5 = fold_props(acc4, p5, kind);
    match s.end {
        Option::Some(u) => {
            lemma_fold_props_singleton(acc4, p5[0], kind);
        },
        Option::None => {
        },
    }
    assert(!acc5.bad && acc5.direction == acc4.direction && acc5.fingers == acc4.fingers
        && acc5.update == acc4.update && acc5.start == acc4.start && acc5.end == s.end
        && acc5.acceleration is None && acc5.mouse_up_delay is None);
    lemma_fold_props_concat(acc5, p6, p7, kind);
    let acc6 = fold_props(acc5, p6, kind);
    match s.acceleration {
        Option::Some(u) => {
            lemma_fold_props_singleton(acc5, p6[0], kind);
        },
        Option::None => {
        },
    }
    assert(!acc6.bad && acc6.direction == acc5.direction && acc6.fingers == acc5.fingers
        && acc6.update == acc5.update && acc6.start == acc5.start && acc6.end == acc5.end
        && acc6.acceleration == s.acceleration && acc6.mouse_up_delay is None);
    let acc7 = fold_props(acc6, p7, kind);
    match s.mouse_up_delay {
        Option::Some(u) => {
            lemma_fold_props_singleton(acc6, p7[0], kind);
        },
        Option::None => {
        },
    }
    assert(!acc7.bad && acc7.direction == acc6.direction && acc7.fingers == acc6.fingers
        && acc7.update == acc6.update && acc7.start == acc6.start && acc7.end == acc6.end
        && acc7.acceleration == acc6.acceleration && acc7.mouse_up_delay == s.mouse_up_delay);
    assert(fold_props(acc_init(), r1, kind) == acc7);
    assert(build_rule(kind, acc7) == Option::Some(GestureV::Swipe(s)));
}

/// Folding the canonical properties of a well-formed pinch rule and
/// building gives the rule back.
proof fn lemma_build_of_props_pinch(p: PinchV)
    requires
        wf_rule(GestureV::Pinch(p)),
    ensures
        build_rule(
            GestureKind::Pinch,
            fold_props(acc_init(), props_of_rule(GestureV::Pinch(p)), GestureKind::Pinch),
        ) == Option::Some(GestureV::Pinch(p)),
{
    lemma_prop_names_distinct();
    lemma_pinch_dir_roundtrip(p.direction);
    let kind = GestureKind::Pinch;
    let p1 = seq![
        PropV { name: name_direction(), value: ValV::Str(pinch_dir_name(p.direction)) },
    ];
    let p2 = seq![PropV { name: name_fingers(), value: ValV::Int(p.fingers) }];
    let p3 = opt_str_prop(name_update(), p.update);
    let p4 = opt_str_prop(name_start(), p.start);
    let p5 = opt_str_prop(name_end(), p.end);
    let r4 = p4 + p5;
    let r3 = p3 + r4;
    let r2 = p2 + r3;
    let r1 = p1 + r2;
    assert(props_of_rule(GestureV::Pinch(p)) =~= r1);
    lemma_fold_props_concat(acc_init(), p1, r2, kind);
    lemma_fold_props_singleton(acc_init(), p1[0], kind);
    let acc1 = acc_apply(acc_init(), p1[0], kind);
    assert(!acc1.bad && acc1.direction == Option::Some(pinch_dir_name(p.direction))
        && acc1.fingers is None && acc1.update is None && acc1.start is None && acc1.end is None);
    lemma_fold_props_concat(acc1, p2, r3, kind);
    lemma_fold_props_singleton(acc1, p2[0], kind);
    let acc2 = acc_apply(acc1, p2[0], kind);
    assert(!acc2.bad && acc2.direction == acc1.direction && acc2.fingers == Option::Some(p.fingers)
        && acc2.update is None && acc2.start is None && acc2.end is None);
    lemma_fold_props_concat(acc2, p3, r4, kind);
    let acc3 = fold_props(acc2, p3, kind);
    match p.update {
        Option::Some(u) => {
            lemma_fold_props_singleton(acc2, p3[0], kind);
        },
        Option::None => {
        },
    }
    assert(!acc3.bad && acc3.direction == acc2.direction && acc3.fingers == acc2.fingers
        && acc3.update == p.update && acc3.start is None && acc3.end is None);
    lemma_fold_props_concat(acc3, p4, p5, kind);
    let acc4 = fold_props(acc3, p4, kind);
    match p.start {
        Option::Some(u) => {
            lemma_fold_props_singleton(acc3, p4[0], kind);
        },
        Option::None => {
        },
    }
    assert(!acc4.bad && acc4.direction == acc3.direction && acc4.fingers == acc3.fingers
        && acc4.update == acc3.update && acc4.start == p.start && acc4.end is None);
    let acc5 = fold_props(acc4, p5, kind);
    match p.end {
        Option::Some(u) => {
            lemma_fold_props_singleton(acc4, p5[0], kind);
        },
        Option::None => {
        },
    }
    assert(!acc5.bad && acc5.direction == acc4.direction && acc5.fingers == acc4.fingers
        && acc5.update == acc4.update && acc5.start == acc4.start && acc5.end == p.end);
    assert(fold_props(acc_init(), r1, kind) == acc5);
    assert(build_rule(kind, acc5) == Option::Some(GestureV::Pinch(p)));
}

/// Folding the canonical properties of a well-formed hold rule and
/// building gives the rule back.
proof fn lemma_build_of_props_hold(h: HoldV)
    requires
        wf_rule(GestureV::Hold(h)),
    ensures
        build_rule(
            GestureKind::Hold,
            fold_props(acc_init(), props_of_rule(GestureV::Hold(h)), GestureKind::Hold),
        ) == Option::Some(GestureV::Hold(h)),
{
    lemma_prop_names_distinct();
    let kind = GestureKind::Hold;
    let p1 = seq![PropV { name: name_fingers(), value: ValV::Int(h.fingers) }];
    let p2 = opt_str_prop(name_action(), h.action);
    let r1 = p1 + p2;
    assert(props_of_rule(GestureV::Hold(h)) =~= r1);
    lemma_fold_props_concat(acc_init(), p1, p2, kind);
    lemma_fold_props_singleton(acc_init(), p1[0], kind);
    let acc1 = acc_apply(acc_init(), p1[0], kind);
    assert(!acc1.bad && acc1.fingers == Option::Some(h.fingers) && acc1.action is None);
    let acc2 = fold_props(acc1, p2, kind);
    match h.action {
        Option::Some(u) => {
            lemma_fold_props_singleton(acc1, p2[0], kind);
        },
        Option::None => {
        },
    }
    assert(!acc2.bad && acc2.fingers == acc1.fingers && acc2.action == h.action);
    assert(fold_props(acc_init(), r1, kind) == acc2);
    assert(build_rule(kind, acc2) == Option::Some(GestureV::Hold(h)));
}
/// Byte strings without line feeds concatenate to one.
proof fn lemma_no_nl_concat(a: Seq<u8>, b: Seq<u8>)
    requires
        no_nl(a),
        no_nl(b),
    ensures
        no_nl(a + b),
{
    assert forall|i: int| 0 <= i < (a + b).len() implies (a + b)[i] != NL by {
        if i < a.len() {
            assert((a + b)[i] == a[i]);
        } else {
            assert((a + b)[i] == b[i - a.len()]);
        }
    }
}

/// Escaped strings contain no line feed.
proof fn lemma_escape_no_nl(sv: Seq<u8>)
    ensures
        no_nl(escape_spec(sv)),
    decreases sv.len(),
{
    if sv.len() > 0 {
        lemma_escape_no_nl(sv.drop_first());
        lemma_no_nl_concat(escape_byte(sv[0]), escape_spec(sv.drop_first()));
    }
}

/// The text of a well-formed property contains no line feed.
proof fn lemma_serialize_prop_no_nl(p: PropV)
    requires
        wf_prop(p),
    ensures
        no_nl(serialize_prop(p)),
{
    assert(no_nl(seq![SPACE]));
    assert(no_nl(p.name)) by {
        assert forall|i: int| 0 <= i < p.name.len() implies p.name[i] != NL by {
            assert(is_ident_byte(p.name[i]));
        }
    }
    lemma_no_nl_concat(seq![SPACE], p.name);
    lemma_no_nl_concat(seq![SPACE] + p.name, seq![EQ]);
    match p.value {
        ValV::Str(sv) => {
            lemma_escape_no_nl(sv);
            lemma_no_nl_concat(seq![QUOTE], escape_spec(sv));
            lemma_no_nl_concat(seq![QUOTE] + escape_spec(sv), seq![QUOTE]);
            lemma_no_nl_concat(
                seq![SPACE] + p.name + seq![EQ],
                seq![QUOTE] + escape_spec(sv) + seq![QUOTE],
            );
        },
        ValV::Int(v) => {
            lemma_render_int_bytes(v);
            lemma_no_nl_concat(seq![SPACE] + p.name + seq![EQ], render_int_spec(v));
        },
    }
}

/// The text of a well-formed property list contains no line feed.
proof fn lemma_serialize_props_no_nl(ps: Seq<PropV>)
    requires
        wf_props(ps),
    ensures
        no_nl(serialize_props(ps)),
    decreases ps.len(),
{
    if ps.len() > 0 {
        assert(wf_props(ps.drop_first())) by {
            assert(forall|i: int|
                0 <= i < ps.drop_first().len() ==> ps.drop_first()[i] == #[trigger] ps[i + 1]);
        }
        lemma_serialize_props_no_nl(ps.drop_first());
        assert(wf_prop(ps[0]));
        lemma_serialize_prop_no_nl(ps[0]);
        lemma_no_nl_concat(serialize_prop(ps[0]), serialize_props(ps.drop_first()));
    }
}

/// The line of a well-formed rule contains no line feed.
proof fn lemma_serialize_rule_no_nl(r: GestureV)
    requires
        wf_rule(r),
    ensures
        no_nl(serialize_rule_spec(r)),
{
    lemma_names_wf();
    lemma_wf_props_of_rule(r);
    lemma_serialize_props_no_nl(props_of_rule(r));
    assert(no_nl(rule_ident(r))) by {
        assert forall|i: int| 0 <= i < rule_ident(r).len() implies rule_ident(r)[i] != NL by {
            assert(is_ident_byte(rule_ident(r)[i]));
        }
    }
    lemma_no_nl_concat(rule_ident(r), serialize_props(props_of_rule(r)));
}

/// The first line feed of a line, its separator, and a remainder stands
/// right after the line.
proof fn lemma_find_nl_concat(a: Seq<u8>, rest: Seq<u8>)
    requires
        no_nl(a),
    ensures
        find_nl(a + seq![NL] + rest) == a.len(),
    decreases a.len(),
{
    let t = a + seq![NL] + rest;
    if a.len() == 0 {
        assert(t[0] == NL);
    } else {
        assert(t[0] == a[0]);
        assert(t[0] != NL);
        assert(t.drop_first() =~= a.drop_first() + seq![NL] + rest);
        assert(no_nl(a.drop_first())) by {
            assert(forall|i: int|
                0 <= i < a.drop_first().len() ==> a.drop_first()[i] == #[trigger] a[i + 1]);
        }
        lemma_find_nl_concat(a.drop_first(), rest);
    }
}

/// Reading the canonical line of a well-formed rule back gives the rule.
proof fn lemma_parse_line_of_serialize(r: GestureV)
    requires
        wf_rule(r),
    ensures
        parse_line_spec(serialize_rule_spec(r)) == Option::Some(Option::Some(r)),
{
    lemma_names_wf();
    lemma_node_names_distinct();
    lemma_wf_props_of_rule(r);
    lemma_parse_props_of_serialize(props_of_rule(r));
    let ident = rule_ident(r);
    let ptext = serialize_props(props_of_rule(r));
    let line = serialize_rule_spec(r);
    assert(line == ident + ptext);
    assert(ident.len() >= 1) by {
        match r {
            GestureV::Swipe(_) => {
            },
            GestureV::Pinch(_) => {
            },
            GestureV::Hold(_) => {
            },
            GestureV::Null => {
                assert(false);
            },
        }
    }
    assert(forall|i: int| 0 <= i < ident.len() ==> is_ident_byte(#[trigger] ident[i]));
    assert(line[0] == ident[0]);
    assert(is_ident_byte(line[0]));
    assert(!is_ws(line[0]));
    assert(skip_ws(line) == line);
    assert(line[0] != SLASH);
    if props_of_rule(r).len() > 0 {
        lemma_serialize_props_head(props_of_rule(r));
    } else {
        assert(ptext.len() == 0);
    }
    lemma_ident_len_concat(ident, ptext);
    assert(ident_len(line) == ident.len());
    assert(line.take(ident.len() as int) =~= ident);
    assert(line.skip(ident.len() as int) =~= ptext);
    match r {
        GestureV::Swipe(s) => {
            lemma_build_of_props_swipe(s);
        },
        GestureV::Pinch(p) => {
            assert(ident != name_swipe());
            lemma_build_of_props_pinch(p);
        },
        GestureV::Hold(h) => {
            assert(ident != name_swipe());
            assert(ident != name_pinch());
            lemma_build_of_props_hold(h);
        },
        GestureV::Null => {
        },
    }
}

/// Parsing the serialisation of any well-formed rule list yields exactly
/// that list: the configuration format round-trips.
pub proof fn lemma_parse_of_serialize(rules: Seq<GestureV>)
    requires
        wf_rules(rules),
    ensures
        parse_config_spec(serialize_config_spec(rules)) == Option::Some(rules),
    decreases rules.len(),
{
    if rules.len() == 0 {
        assert(serialize_config_spec(rules).len() == 0);
    } else {
        let r0 = rules[0];
        let tail = rules.drop_first();
        assert(wf_rules(tail)) by {
            assert(forall|i: int|
                0 <= i < tail.len() ==> tail[i] == #[trigger] rules[i + 1]);
        }
        lemma_parse_of_serialize(tail);
        let line = serialize_rule_spec(r0);
        let rest_text = serialize_config_spec(tail);
        let text = serialize_config_spec(rules);
        assert(text == line + seq![NL] + rest_text);
        assert(wf_rule(r0));
        lemma_serialize_rule_no_nl(r0);
        lemma_find_nl_concat(line, rest_text);
        lemma_find_nl_le(text);
        assert(text.len() == line.len() + 1 + rest_text.len()) by {
            assert(text =~= line + seq![NL] + rest_text);
        }
        assert(find_nl(text) == line.len());
        assert(find_nl(text) < text.len());
        assert(text.take(line.len() as int) =~= line);
        assert(text.skip(line.len() + 1 as int) =~= rest_text);
        lemma_parse_line_of_serialize(r0);
        assert(seq![r0] + tail =~= rules);
    }
}

} // verus!
