//! The rule index: the configured rules denormalised into fingers-keyed
//! buckets, one mapping per gesture kind, rebuilt from the configuration
//! when its build time has fallen more than a second behind.

use crate::config::Config;
use crate::gestures::Gesture;
use crate::gestures::rules_view;
use crate::gestures::GestureV;
use vstd::prelude::*;

verus! {

/// The three kinds of gesture rules.
#[derive(Clone, Copy, Debug, PartialEq, Eq, Structural)]
pub enum GestureKind {
    Swipe,
    Pinch,
    Hold,
}

/// The bucket key of a rule: its kind and finger count, or nothing for
/// the null gesture.
pub open spec fn rule_key_spec(g: GestureV, kind: GestureKind) -> Option<int> {
    match g {
        GestureV::Swipe(s) => if kind == GestureKind::Swipe {
            Option::Some(s.fingers)
        } else {
            Option::None
        },
        GestureV::Pinch(p) => if kind == GestureKind::Pinch {
            Option::Some(p.fingers)
        } else {
            Option::None
        },
        GestureV::Hold(h) => if kind == GestureKind::Hold {
            Option::Some(h.fingers)
        } else {
            Option::None
        },
        GestureV::Null => Option::None,
    }
}

/// Exactly the rules of the given kind and finger count, in their
/// original order.
pub open spec fn rules_matching(rules: Seq<GestureV>, kind: GestureKind, fingers: int) -> Seq<
    GestureV,
>
    decreases rules.len(),
{
    if rules.len() == 0 {
        Seq::empty()
    } else {
        rules_matching(rules.drop_last(), kind, fingers) + if rule_key_spec(rules.last(), kind)
            == Option::Some(fingers) {
            seq![rules.last()]
        } else {
            Seq::empty()
        }
    }
}

/// One bucket of the index: the rules of one finger count, one kind.
pub struct Bucket {
    pub fingers: i32,
    pub rules: Vec<Gesture>,
}

/// The rules held by the first bucket of the given finger count, or none.
pub open spec fn buckets_lookup(bs: Seq<Bucket>, fingers: int) -> Seq<GestureV>
    decreases bs.len(),
{
    if bs.len() == 0 {
        Seq::empty()
    } else if bs[0].fingers == fingers {
        rules_view(bs[0].rules@)
    } else {
        buckets_lookup(bs.drop_first(), fingers)
    }
}

/// Appending a rule to the bucket at `i`, the first of its key, extends
/// that key's lookup and no other.
proof fn lemma_buckets_lookup_update(bs: Seq<Bucket>, i: int, b2: Bucket)
    requires
        0 <= i < bs.len(),
        b2.fingers == bs[i].fingers,
        forall|j: int| 0 <= j < i ==> (#[trigger] bs[j]).fingers != bs[i].fingers,
    ensures
        forall|f: int|
            buckets_lookup(bs.update(i, b2), f) == if f == bs[i].fingers as int {
                rules_view(b2.rules@)
            } else {
                buckets_lookup(bs, f)
            },
    decreases i,
{
    let bs2 = bs.update(i, b2);
    assert forall|f: int|
        buckets_lookup(bs2, f) == (if f == bs[i].fingers as int {
            rules_view(b2.rules@)
        } else {
            buckets_lookup(bs, f)
        }) by {
        if i == 0 {
            assert(bs2.drop_first() =~= bs.drop_first());
            assert(bs2[0] == b2);
        } else {
            assert(bs2.drop_first() =~= bs.drop_first().update(i - 1, b2));
            lemma_buckets_lookup_update(bs.drop_first(), i - 1, b2);
            assert(buckets_lookup(bs.drop_first().update(i - 1, b2), f) == (if f
                == bs.drop_first()[i - 1].fingers as int {
                rules_view(b2.rules@)
            } else {
                buckets_lookup(bs.drop_first(), f)
            }));
            assert(bs2[0] == bs[0]);
        }
    }
}

/// Appending a bucket with a fresh key adds that key's lookup and changes
/// no other.
proof fn lemma_buckets_lookup_push(bs: Seq<Bucket>, b2: Bucket)
    requires
        forall|j: int| 0 <= j < bs.len() ==> (#[trigger] bs[j]).fingers != b2.fingers,
    ensures
        forall|f: int|
            buckets_lookup(bs.push(b2), f) == if f == b2.fingers as int {
                rules_view(b2.rules@)
            } else {
                buckets_lookup(bs, f)
            },
    decreases bs.len(),
{
    assert forall|f: int|
        buckets_lookup(bs.push(b2), f) == (if f == b2.fingers as int {
            rules_view(b2.rules@)
        } else {
            buckets_lookup(bs, f)
        }) by {
        if bs.len() == 0 {
            assert(bs.push(b2)[0] == b2);
            assert(bs.push(b2).drop_first() =~= Seq::<Bucket>::empty());
            assert(buckets_lookup(bs, f) == Seq::<GestureV>::empty());
            assert(buckets_lookup(bs.push(b2).drop_first(), f) == Seq::<GestureV>::empty());
            if f == b2.fingers as int {
                assert(buckets_lookup(bs.push(b2), f) == rules_view(b2.rules@));
            } else {
                assert(buckets_lookup(bs.push(b2), f) == buckets_lookup(bs, f));
            }
        } else {
            assert(bs.push(b2).drop_first() =~= bs.drop_first().push(b2));
            lemma_buckets_lookup_push(bs.drop_first(), b2);
            assert(buckets_lookup(bs.drop_first().push(b2), f) == (if f == b2.fingers as int {
                rules_view(b2.rules@)
            } else {
                buckets_lookup(bs.drop_first(), f)
            }));
            assert(bs.push(b2)[0] == bs[0]);
        }
    }
}

/// A rule list extended by one rule matches as before, plus the new rule
/// in its own bucket.
proof fn lemma_rules_matching_push(s: Seq<GestureV>, r: GestureV, kind: GestureKind)
    ensures
        forall|f: int|
            rules_matching(s.push(r), kind, f) == rules_matching(s, kind, f) + if rule_key_spec(
                r,
                kind,
            ) == Option::Some(f) {
                seq![r]
            } else {
                Seq::<GestureV>::empty()
            },
{
    assert forall|f: int| true implies rules_matching(s.push(r), kind, f) == rules_matching(
        s,
        kind,
        f,
    ) + (if rule_key_spec(r, kind) == Option::Some(f) {
        seq![r]
    } else {
        Seq::<GestureV>::empty()
    }) by {
        assert(s.push(r).drop_last() =~= s);
        assert(s.push(r).last() == r);
    }
}

/// The bucket key of a rule, as computed by the indexer.
fn rule_key(g: &Gesture, kind: GestureKind) -> (r: Option<i32>)
    ensures
        (match r {
            Option::Some(f) => rule_key_spec(g@, kind) == Option::Some(f as int),
            Option::None => rule_key_spec(g@, kind) is None,
        }),
{
    match g {
        Gesture::Swipe(s) => if matches!(kind, GestureKind::Swipe) {
            Option::Some(s.fingers)
        } else {
            Option::None
        },
        Gesture::Pinch(p) => if matches!(kind, GestureKind::Pinch) {
            Option::Some(p.fingers)
        } else {
            Option::None
        },
        Gesture::Hold(h) => if matches!(kind, GestureKind::Hold) {
            Option::Some(h.fingers)
        } else {
            Option::None
        },
        Gesture::Null => Option::None,
    }
}

/// The first bucket of the given finger count, if any.
fn find_bucket(bs: &Vec<Bucket>, fingers: i32) -> (r: Option<usize>)
    ensures
        (match r {
            Option::Some(i) => i < bs@.len() && bs@[i as int].fingers == fingers && forall|j: int|
                0 <= j < i ==> (#[trigger] bs@[j]).fingers != fingers,
            Option::None => forall|j: int|
                0 <= j < bs@.len() ==> (#[trigger] bs@[j]).fingers != fingers,
        }),
{
    let mut i: usize = 0;
    while i < bs.len()
        invariant
            i <= bs@.len(),
            forall|j: int| 0 <= j < i ==> (#[trigger] bs@[j]).fingers != fingers,
        decreases bs@.len() - i,
    {
        if bs[i].fingers == fingers {
            return Option::Some(i);
        }
        i += 1;
    }
    Option::None
}

/// Partition the rules of one kind into fingers-keyed buckets, keeping
/// declaration order within each bucket.
fn build_buckets(rules: &Vec<Gesture>, kind: GestureKind) -> (bs: Vec<Bucket>)
    ensures
        forall|f: int|
            #![trigger buckets_lookup(bs@, f)]
            buckets_lookup(bs@, f) == rules_matching(
                rules_view(rules@), kind, f),
{
    let ghost rv = rules_view(rules@);
    let mut bs: Vec<Bucket> = Vec::new();
    let mut idx: usize = 0;
    proof {
        assert(rv.take(0) =~= Seq::<GestureV>::empty());
    }
    while idx < rules.len()
        invariant
            idx <= rules@.len(),
            rv == rules_view(rules@),
            forall|f: int|
                #![trigger buckets_lookup(bs@, f)]
                buckets_lookup(bs@, f) == rules_matching(rv.take(idx as int), kind, f),
        decreases rules@.len() - idx,
    {
        let g = &rules[idx];
        proof {
            assert(rv.take(idx + 1) =~= rv.take(idx as int).push(rv[idx as int]));
            lemma_rules_matching_push(rv.take(idx as int), rv[idx as int], kind);
        }
        match rule_key(g, kind) {
            Option::Some(f) => {
                match find_bucket(&bs, f) {
                    Option::Some(i) => {
                        let ghost bs_old = bs@;
                        let mut b = bs.remove(i);
                        b.rules.push(g.clone());
                        proof {
                            assert(rules_view(b.rules@) =~= rules_view(bs_old[i as int].rules@).push(rv[idx as int]));
                        }
                        bs.insert(i, b);
                        proof {
                            assert(bs@ =~= bs_old.update(i as int, bs@[i as int]));
                            lemma_buckets_lookup_update(bs_old, i as int, bs@[i as int]);
                            lemma_buckets_lookup_first(bs_old, i as int, f as int);
                            assert forall|f2: int|
                                #![trigger buckets_lookup(bs@, f2)]
                                buckets_lookup(bs@, f2) == rules_matching(
                                    rv.take(idx + 1),
                                    kind,
                                    f2,
                                ) by {
                                assert(buckets_lookup(bs_old, f2) == rules_matching(
                                    rv.take(idx as int),
                                    kind,
                                    f2,
                                ));
                                if f2 == f as int {
                                    assert(buckets_lookup(bs@, f2) == rules_view(bs@[i as int].rules@));
                                    assert(rules_matching(rv.take(idx as int), kind, f2) + seq![
                                        rv[idx as int],
                                    ] =~= rules_matching(rv.take(idx as int), kind, f2).push(
                                        rv[idx as int],
                                    ));
                                } else {
                                    assert(rules_matching(rv.take(idx as int), kind, f2) + Seq::<
                                        GestureV,
                                    >::empty() =~= rules_matching(rv.take(idx as int), kind, f2));
                                }
                            }
                        }
                    },
                    Option::None => {
                        let ghost bs_old = bs@;
                        let mut fresh: Vec<Gesture> = Vec::new();
                        fresh.push(g.clone());
                        let b = Bucket { fingers: f, rules: fresh };
                        proof {
                            assert(rules_view(b.rules@) =~= seq![rv[idx as int]]);
                        }
                        bs.push(b);
                        proof {
                            assert(bs@ =~= bs_old.push(bs@[bs_old.len() as int]));
                            assert(bs@[bs_old.len() as int] == b);
                            lemma_buckets_lookup_push(bs_old, b);
                            lemma_buckets_lookup_absent(bs_old, f as int);
                            assert forall|f2: int|
                                #![trigger buckets_lookup(bs@, f2)]
                                buckets_lookup(bs@, f2) == rules_matching(
                                    rv.take(idx + 1),
                                    kind,
                                    f2,
                                ) by {
                                assert(buckets_lookup(bs_old, f2) == rules_matching(
                                    rv.take(idx as int),
                                    kind,
                                    f2,
                                ));
                                if f2 == f as int {
                                    assert(rules_matching(rv.take(idx as int), kind, f2) == Seq::<
                                        GestureV,
                                    >::empty());
                                    assert(Seq::<GestureV>::empty() + seq![rv[idx as int]] =~= seq![
                                        rv[idx as int],
                                    ]);
                                } else {
                                    assert(rules_matching(rv.take(idx as int), kind, f2) + Seq::<
                                        GestureV,
                                    >::empty() =~= rules_matching(rv.take(idx as int), kind, f2));
                                }
                            }
                        }
                    },
                }
            },
            Option::None => {
                proof {
                    assert forall|f2: int|
                        #![trigger buckets_lookup(bs@, f2)]
                        buckets_lookup(bs@, f2) == rules_matching(rv.take(idx + 1), kind, f2) by {
                        assert(buckets_lookup(bs@, f2) == rules_matching(
                            rv.take(idx as int),
                            kind,
                            f2,
                        ));
                        assert(rules_matching(rv.take(idx as int), kind, f2) + Seq::<
                            GestureV,
                        >::empty() =~= rules_matching(rv.take(idx as int), kind, f2));
                    }
                }
            },
        }
        idx += 1;
    }
    proof {
        assert(rv.take(rules@.len() as int) =~= rv);
    }
    bs
}

/// The rule index: one fingers-keyed mapping per gesture kind, stamped
/// with its build time.
pub struct GestureCache {
    pub swipe: Vec<Bucket>,
    pub pinch: Vec<Bucket>,
    pub hold: Vec<Bucket>,
    /// When this index was built, in microseconds of the monotonic clock.
    pub last_update_us: u64,
}

impl GestureCache {
    /// The indexed rules of one kind and finger count, in declaration
    /// order.
    pub open spec fn lookup_spec(&self, kind: GestureKind, fingers: int) -> Seq<GestureV> {
        match kind {
            GestureKind::Swipe => buckets_lookup(self.swipe@, fingers),
            GestureKind::Pinch => buckets_lookup(self.pinch@, fingers),
            GestureKind::Hold => buckets_lookup(self.hold@, fingers),
        }
    }

    /// The index is a faithful partition of the rules `rv`.
    pub open spec fn indexes(&self, rv: Seq<GestureV>) -> bool {
        forall|kind: GestureKind, f: int|
            #[trigger] self.lookup_spec(kind, f) == rules_matching(rv, kind, f)
    }

    /// An empty index, as the event handler starts with before the first
    /// rebuild.
    pub fn new(now_us: u64) -> (c: GestureCache)
        ensures
            c.indexes(Seq::<GestureV>::empty()),
            c.last_update_us == now_us,
    {
        let c = GestureCache {
            swipe: Vec::new(),
            pinch: Vec::new(),
            hold: Vec::new(),
            last_update_us: now_us,
        };
        proof {
            assert(c.swipe@ =~= Seq::<Bucket>::empty());
            assert(c.pinch@ =~= Seq::<Bucket>::empty());
            assert(c.hold@ =~= Seq::<Bucket>::empty());
        }
        c
    }

    /// Rebuild the index from the configuration: afterwards every lookup
    /// yields exactly the rules of that kind whose finger count matches,
    /// in their original order.
    pub fn rebuild(config: &Config, now_us: u64) -> (c: GestureCache)
        ensures
            c.indexes(config@.gestures),
            c.last_update_us == now_us,
    {
        GestureCache {
            swipe: build_buckets(&config.gestures, GestureKind::Swipe),
            pinch: build_buckets(&config.gestures, GestureKind::Pinch),
            hold: build_buckets(&config.gestures, GestureKind::Hold),
            last_update_us: now_us,
        }
    }

    /// The indexed rules of one kind and finger count, as a freshly
    /// copied list.
    pub fn lookup(&self, kind: GestureKind, fingers: i32) -> (r: Vec<Gesture>)
        ensures
            rules_view(r@) == self.lookup_spec(kind, fingers as int),
    {
        let bs: &Vec<Bucket> = match kind {
            GestureKind::Swipe => &self.swipe,
            GestureKind::Pinch => &self.pinch,
            GestureKind::Hold => &self.hold,
        };
        match find_bucket(bs, fingers) {
            Option::Some(i) => {
                proof {
                    lemma_buckets_lookup_first(bs@, i as int, fingers as int);
                }
                clone_rules(&bs[i].rules)
            },
            Option::None => {
                proof {
                    lemma_buckets_lookup_absent(bs@, fingers as int);
                }
                let r: Vec<Gesture> = Vec::new();
                proof {
                    assert(rules_view(r@) =~= Seq::<GestureV>::empty());
                }
                r
            },
        }
    }
}

/// The lookup of a key held by the bucket at `i`, the first of its key,
/// is that bucket's rules.
proof fn lemma_buckets_lookup_first(bs: Seq<Bucket>, i: int, fingers: int)
    requires
        0 <= i < bs.len(),
        bs[i].fingers == fingers,
        forall|j: int| 0 <= j < i ==> (#[trigger] bs[j]).fingers != fingers,
    ensures
        buckets_lookup(bs, fingers) == rules_view(bs[i].rules@),
    decreases i,
{
    if i > 0 {
        lemma_buckets_lookup_first(bs.drop_first(), i - 1, fingers);
    }
}

/// The lookup of a key no bucket holds is empty.
proof fn lemma_buckets_lookup_absent(bs: Seq<Bucket>, fingers: int)
    requires
        forall|j: int| 0 <= j < bs.len() ==> (#[trigger] bs[j]).fingers != fingers,
    ensures
        buckets_lookup(bs, fingers) == Seq::<GestureV>::empty(),
    decreases bs.len(),
{
    if bs.len() > 0 {
        lemma_buckets_lookup_absent(bs.drop_first(), fingers);
    }
}

/// A copy of a rule list with the same mathematical value.
fn clone_rules(rules: &Vec<Gesture>) -> (r: Vec<Gesture>)
    ensures
        rules_view(r@) == rules_view(rules@),
{
    let mut r: Vec<Gesture> = Vec::new();
    let mut i: usize = 0;
    while i < rules.len()
        invariant
            i <= rules@.len(),
            r@.len() == i,
            forall|j: int| 0 <= j < i ==> r@[j]@ == rules@[j]@,
        decreases rules@.len() - i,
    {
        r.push(rules[i].clone());
        i += 1;
    }
    proof {
        assert(rules_view(r@) =~= rules_view(rules@));
    }
    r
}

} // verus!
