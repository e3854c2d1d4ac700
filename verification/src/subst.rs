//! Substitution of motion variables into action strings.
//!
//! The four variables `$delta_x`, `$delta_y`, `$delta_angle` and `$scale`
//! are replaced, in one left-to-right pass, by their values rendered with
//! two decimal places. No variable is a prefix of another at the same
//! position and no rendering contains a `$`, so the single pass replaces
//! exactly the occurrences present in the template.

use crate::numfmt::render_hundredths;
use crate::numfmt::render_hundredths_spec;
use vstd::prelude::*;

verus! {

/// One motion sample: the parameters substituted into action strings,
/// all in hundredths (fixed point with two decimal places).
#[derive(Clone, Copy, Debug, PartialEq, Eq, Structural)]
pub struct Motion {
    pub dx_c: i64,
    pub dy_c: i64,
    pub angle_c: i64,
    pub scale_c: i64,
}

impl Motion {
    /// The all-zero motion sample, used for the begin and end phases.
    pub fn zero() -> (m: Motion)
        ensures
            m == motion_zero(),
    {
        Motion { dx_c: 0, dy_c: 0, angle_c: 0, scale_c: 0 }
    }
}

/// The all-zero motion sample.
pub open spec fn motion_zero() -> Motion {
    Motion { dx_c: 0, dy_c: 0, angle_c: 0, scale_c: 0 }
}

/// The bytes of `$delta_x`.
pub open spec fn tok_delta_x() -> Seq<u8> {
    seq![0x24u8, 0x64, 0x65, 0x6C, 0x74, 0x61, 0x5F, 0x78]
}

/// The bytes of `$delta_y`.
pub open spec fn tok_delta_y() -> Seq<u8> {
    seq![0x24u8, 0x64, 0x65, 0x6C, 0x74, 0x61, 0x5F, 0x79]
}

/// The bytes of `$delta_angle`.
pub open spec fn tok_delta_angle() -> Seq<u8> {
    seq![0x24u8, 0x64, 0x65, 0x6C, 0x74, 0x61, 0x5F, 0x61, 0x6E, 0x67, 0x6C, 0x65]
}

/// The bytes of `$scale`.
pub open spec fn tok_scale() -> Seq<u8> {
    seq![0x24u8, 0x73, 0x63, 0x61, 0x6C, 0x65]
}

/// `tok` occurs in `s` starting at position `i`.
pub open spec fn matches_at(s: Seq<u8>, i: int, tok: Seq<u8>) -> bool {
    0 <= i && i + tok.len() <= s.len() && s.subrange(i, i + tok.len()) == tok
}

/// The template with every variable occurrence replaced by its rendered
/// value, scanning once from the left; at each position the earliest of
/// the four variables starting there (they exclude each other) wins.
pub open spec fn subst_spec(t: Seq<u8>, m: Motion) -> Seq<u8>
    decreases t.len(),
{
    if t.len() == 0 {
        Seq::empty()
    } else if matches_at(t, 0, tok_delta_x()) {
        render_hundredths_spec(m.dx_c as int) + subst_spec(t.skip(8), m)
    } else if matches_at(t, 0, tok_delta_y()) {
        render_hundredths_spec(m.dy_c as int) + subst_spec(t.skip(8), m)
    } else if matches_at(t, 0, tok_delta_angle()) {
        render_hundredths_spec(m.angle_c as int) + subst_spec(t.skip(12), m)
    } else if matches_at(t, 0, tok_scale()) {
        render_hundredths_spec(m.scale_c as int) + subst_spec(t.skip(6), m)
    } else {
        seq![t[0]] + subst_spec(t.skip(1), m)
    }
}

/// The bytes of `$delta_x` as a vector.
fn build_tok_delta_x() -> (v: Vec<u8>)
    ensures
        v@ == tok_delta_x(),
{
    let mut v: Vec<u8> = Vec::new();
    v.push(0x24);
    v.push(0x64);
    v.push(0x65);
    v.push(0x6C);
    v.push(0x74);
    v.push(0x61);
    v.push(0x5F);
    v.push(0x78);
    proof {
        assert(v@ =~= tok_delta_x());
    }
    v
}

/// The bytes of `$delta_y` as a vector.
fn build_tok_delta_y() -> (v: Vec<u8>)
    ensures
        v@ == tok_delta_y(),
{
    let mut v: Vec<u8> = Vec::new();
    v.push(0x24);
    v.push(0x64);
    v.push(0x65);
    v.push(0x6C);
    v.push(0x74);
    v.push(0x61);
    v.push(0x5F);
    v.push(0x79);
    proof {
        assert(v@ =~= tok_delta_y());
    }
    v
}

/// The bytes of `$delta_angle` as a vector.
fn build_tok_delta_angle() -> (v: Vec<u8>)
    ensures
        v@ == tok_delta_angle(),
{
    let mut v: Vec<u8> = Vec::new();
    v.push(0x24);
    v.push(0x64);
    v.push(0x65);
    v.push(0x6C);
    v.push(0x74);
    v.push(0x61);
    v.push(0x5F);
    v.push(0x61);
    v.push(0x6E);
    v.push(0x67);
    v.push(0x6C);
    v.push(0x65);
    proof {
        assert(v@ =~= tok_delta_angle());
    }
    v
}

/// The bytes of `$scale` as a vector.
fn build_tok_scale() -> (v: Vec<u8>)
    ensures
        v@ == tok_scale(),
{
    let mut v: Vec<u8> = Vec::new();
    v.push(0x24);
    v.push(0x73);
    v.push(0x63);
    v.push(0x61);
    v.push(0x6C);
    v.push(0x65);
    proof {
        assert(v@ =~= tok_scale());
    }
    v
}

/// Whether `tok` occurs in `t` at position `i`.
fn is_tok_at(t: &Vec<u8>, i: usize, tok: &Vec<u8>) -> (r: bool)
    requires
        i <= t@.len(),
    ensures
        r == matches_at(t@, i as int, tok@),
{
    if t.len() - i < tok.len() {
        return false;
    }
    let mut k: usize = 0;
    while k < tok.len()
        invariant
            i + tok@.len() <= t@.len(),
            k <= tok@.len(),
            forall|j: int| 0 <= j < k ==> t@[i + j] == tok@[j],
        decreases tok@.len() - k,
    {
        let n = t.len();
        proof {
            assert(i + k < n);
        }
        if t[i + k] != tok[k] {
            proof {
                assert(t@.subrange(i as int, i + tok@.len())[k as int] != tok@[k as int]);
            }
            return false;
        }
        k += 1;
    }
    proof {
        assert(t@.subrange(i as int, i + tok@.len()) =~= tok@);
    }
    true
}

/// A token occurs at position `i` of `t` exactly when it starts the
/// remainder of `t` from `i`.
proof fn lemma_matches_shift(t: Seq<u8>, i: int, tok: Seq<u8>)
    requires
        0 <= i <= t.len(),
    ensures
        matches_at(t, i, tok) <==> matches_at(t.skip(i), 0, tok),
{
    if matches_at(t, i, tok) {
        assert(t.skip(i).subrange(0, tok.len() as int) =~= t.subrange(i, i + tok.len()));
    }
    if matches_at(t.skip(i), 0, tok) {
        assert(t.subrange(i, i + tok.len()) =~= t.skip(i).subrange(0, tok.len() as int));
    }
}

/// Substitute the motion sample `m` into the template `t`.
pub fn substitute(t: &Vec<u8>, m: &Motion) -> (r: Vec<u8>)
    ensures
        r@ == subst_spec(t@, *m),
{
    let tok_dx = build_tok_delta_x();
    let tok_dy = build_tok_delta_y();
    let tok_da = build_tok_delta_angle();
    let tok_sc = build_tok_scale();
    let mut out: Vec<u8> = Vec::new();
    let mut i: usize = 0;
    proof {
        assert(t@.skip(0) =~= t@);
    }
    while i < t.len()
        invariant
            i <= t@.len(),
            tok_dx@ == tok_delta_x(),
            tok_dy@ == tok_delta_y(),
            tok_da@ == tok_delta_angle(),
            tok_sc@ == tok_scale(),
            subst_spec(t@, *m) == out@ + subst_spec(t@.skip(i as int), *m),
        decreases t@.len() - i,
    {
        let ghost rest = t@.skip(i as int);
        proof {
            lemma_matches_shift(t@, i as int, tok_delta_x());
            lemma_matches_shift(t@, i as int, tok_delta_y());
            lemma_matches_shift(t@, i as int, tok_delta_angle());
            lemma_matches_shift(t@, i as int, tok_scale());
        }
        if is_tok_at(t, i, &tok_dx) {
            proof {
                assert(rest.skip(8) =~= t@.skip(i + 8));
                assert(subst_spec(rest, *m) == render_hundredths_spec(m.dx_c as int)
                    + subst_spec(t@.skip(i + 8), *m));
            }
            let mut piece = render_hundredths(m.dx_c);
            out.append(&mut piece);
            i += 8;
        } else if is_tok_at(t, i, &tok_dy) {
            proof {
                assert(rest.skip(8) =~= t@.skip(i + 8));
                assert(subst_spec(rest, *m) == render_hundredths_spec(m.dy_c as int)
                    + subst_spec(t@.skip(i + 8), *m));
            }
            let mut piece = render_hundredths(m.dy_c);
            out.append(&mut piece);
            i += 8;
        } else if is_tok_at(t, i, &tok_da) {
            proof {
                assert(rest.skip(12) =~= t@.skip(i + 12));
                assert(subst_spec(rest, *m) == render_hundredths_spec(m.angle_c as int)
                    + subst_spec(t@.skip(i + 12), *m));
            }
            let mut piece = render_hundredths(m.angle_c);
            out.append(&mut piece);
            i += 12;
        } else if is_tok_at(t, i, &tok_sc) {
            proof {
                assert(rest.skip(6) =~= t@.skip(i + 6));
                assert(subst_spec(rest, *m) == render_hundredths_spec(m.scale_c as int)
                    + subst_spec(t@.skip(i + 6), *m));
            }
            let mut piece = render_hundredths(m.scale_c);
            out.append(&mut piece);
            i += 6;
        } else {
            proof {
                assert(rest.skip(1) =~= t@.skip(i + 1));
                assert(rest[0] == t@[i as int]);
                assert(subst_spec(rest, *m) == seq![t@[i as int]] + subst_spec(
                    t@.skip(i + 1),
                    *m,
                ));
            }
            out.push(t[i]);
            i += 1;
        }
        proof {
            assert(out@ + subst_spec(t@.skip(i as int), *m) =~= subst_spec(t@, *m));
        }
    }
    proof {
        assert(t@.skip(t@.len() as int) =~= Seq::<u8>::empty());
    }
    out
}

} // verus!
