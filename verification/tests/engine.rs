use gestures::cache::GestureCache;
use gestures::cache::GestureKind;
use gestures::config::Config;
use gestures::event_handler::Action;
use gestures::event_handler::EventHandler;
use gestures::event_handler::GestureEvent;
use gestures::gestures::Gesture;
use gestures::gestures::Hold;
use gestures::gestures::Pinch;
use gestures::gestures::PinchDir;
use gestures::gestures::Swipe;
use gestures::gestures::SwipeDir;
use gestures::subst::Motion;

fn swipe_rule(direction: SwipeDir, fingers: i32) -> Gesture {
    Gesture::Swipe(Swipe {
        direction,
        fingers,
        update: None,
        start: None,
        end: None,
        acceleration: None,
        mouse_up_delay: None,
    })
}

#[test]
fn test_index_lookup_partitions_by_kind_and_fingers() {
    let config = Config {
        gestures: vec![
            swipe_rule(SwipeDir::E, 3),
            Gesture::Hold(Hold { fingers: 3, action: Some(b"h".to_vec()) }),
            swipe_rule(SwipeDir::W, 3),
            swipe_rule(SwipeDir::N, 4),
            Gesture::Pinch(Pinch {
                direction: PinchDir::In,
                fingers: 3,
                update: None,
                start: None,
                end: Some(b"p".to_vec()),
            }),
            swipe_rule(SwipeDir::S, 3),
        ],
    };
    let cache = GestureCache::rebuild(&config, 0);
    // Exactly the swipe rules with three fingers, in declaration order.
    let b3 = cache.lookup(GestureKind::Swipe, 3);
    assert_eq!(
        b3,
        vec![swipe_rule(SwipeDir::E, 3), swipe_rule(SwipeDir::W, 3), swipe_rule(SwipeDir::S, 3)]
    );
    let b4 = cache.lookup(GestureKind::Swipe, 4);
    assert_eq!(b4, vec![swipe_rule(SwipeDir::N, 4)]);
    assert_eq!(cache.lookup(GestureKind::Swipe, 2), vec![]);
    assert_eq!(cache.lookup(GestureKind::Hold, 3).len(), 1);
    assert_eq!(cache.lookup(GestureKind::Pinch, 3).len(), 1);
    assert_eq!(cache.lookup(GestureKind::Pinch, 4), vec![]);
}

#[test]
fn test_index_lookup_one_and_five_fingers() {
    let config = Config {
        gestures: vec![swipe_rule(SwipeDir::E, 1), swipe_rule(SwipeDir::W, 5)],
    };
    let cache = GestureCache::rebuild(&config, 0);
    assert_eq!(cache.lookup(GestureKind::Swipe, 1), vec![swipe_rule(SwipeDir::E, 1)]);
    assert_eq!(cache.lookup(GestureKind::Swipe, 5), vec![swipe_rule(SwipeDir::W, 5)]);
    assert_eq!(cache.lookup(GestureKind::Swipe, 3), vec![]);
}

#[test]
fn test_three_finger_drag_synthesis() {
    // swipe direction="any" fingers=3 mouse-up-delay=500 acceleration=20
    let config = Config {
        gestures: vec![Gesture::Swipe(Swipe {
            direction: SwipeDir::Any,
            fingers: 3,
            update: None,
            start: None,
            end: None,
            acceleration: Some(20),
            mouse_up_delay: Some(500),
        })],
    };
    let mut eh = EventHandler::new(120, 0);
    // The first event lies beyond the index staleness window, so the
    // index is rebuilt from the configuration.
    let t0: u64 = 2_000_000;
    let begin = eh.handle_event(&GestureEvent::SwipeBegin { fingers: 3 }, &config, t0);
    assert!(matches!(begin[..], [Action::MouseDown { button: 1 }]));
    // Two updates at 120 Hz, deltas 10 and 5 pixels (in hundredths):
    // acceleration 20 scales by 2.0.
    let u1 = eh.handle_event(
        &GestureEvent::SwipeUpdate { dx_c: 1000, dy_c: 0 },
        &config,
        t0 + 8_333,
    );
    assert!(matches!(u1[..], [Action::MoveRelative { dx: 20, dy: 0 }]));
    let u2 = eh.handle_event(
        &GestureEvent::SwipeUpdate { dx_c: 500, dy_c: 0 },
        &config,
        t0 + 16_666,
    );
    assert!(matches!(u2[..], [Action::MoveRelative { dx: 10, dy: 0 }]));
    // Net displacement 30 pixels, as the two raw deltas scaled by 2.0.
    let total: i32 = [&u1, &u2]
        .iter()
        .flat_map(|acts| acts.iter())
        .map(|a| match a {
            Action::MoveRelative { dx, .. } => *dx,
            _ => 0,
        })
        .sum();
    assert_eq!(total, 30);
    // The end schedules the deferred release.
    let end = eh.handle_event(&GestureEvent::SwipeEnd { cancelled: false }, &config, t0 + 20_000);
    assert!(matches!(end[..], [Action::MouseUpDelay { button: 1, delay_ms: 500 }]));
}

#[test]
fn test_phase_dispatch() {
    // swipe direction="e" fingers=4 start="A" update="B" end="C"
    let config = Config {
        gestures: vec![Gesture::Swipe(Swipe {
            direction: SwipeDir::E,
            fingers: 4,
            update: Some(b"B".to_vec()),
            start: Some(b"A".to_vec()),
            end: Some(b"C".to_vec()),
            acceleration: None,
            mouse_up_delay: None,
        })],
    };
    let mut eh = EventHandler::new(60, 0);
    let t0: u64 = 2_000_000;
    // Begin: start strings fire only for direction="any" swipe rules.
    let begin = eh.handle_event(&GestureEvent::SwipeBegin { fingers: 4 }, &config, t0);
    assert!(begin.is_empty());
    // An eastward update runs the update string, once per admitted
    // throttle slot.
    let u1 = eh.handle_event(
        &GestureEvent::SwipeUpdate { dx_c: 100, dy_c: 0 },
        &config,
        t0 + 20_000,
    );
    assert_eq!(u1.len(), 1);
    match &u1[0] {
        Action::Exec { template, motion, lossy } => {
            assert_eq!(template, &b"B".to_vec());
            assert_eq!(*motion, Motion { dx_c: 100, dy_c: 0, angle_c: 0, scale_c: 0 });
            assert!(*lossy);
        }
        _ => panic!("expected a shell dispatch"),
    }
    // A second update within the minimum interval is suppressed.
    let u2 = eh.handle_event(
        &GestureEvent::SwipeUpdate { dx_c: 100, dy_c: 0 },
        &config,
        t0 + 21_000,
    );
    assert!(u2.is_empty());
    // The end runs the end string for the direction seen so far.
    let end = eh.handle_event(&GestureEvent::SwipeEnd { cancelled: false }, &config, t0 + 30_000);
    assert_eq!(end.len(), 1);
    match &end[0] {
        Action::Exec { template, lossy, .. } => {
            assert_eq!(template, &b"C".to_vec());
            assert!(!*lossy);
        }
        _ => panic!("expected a shell dispatch"),
    }
}

#[test]
fn test_phase_dispatch_wrong_direction() {
    let config = Config {
        gestures: vec![Gesture::Swipe(Swipe {
            direction: SwipeDir::E,
            fingers: 4,
            update: Some(b"B".to_vec()),
            start: None,
            end: Some(b"C".to_vec()),
            acceleration: None,
            mouse_up_delay: None,
        })],
    };
    let mut eh = EventHandler::new(60, 0);
    let t0: u64 = 2_000_000;
    eh.handle_event(&GestureEvent::SwipeBegin { fingers: 4 }, &config, t0);
    // A westward update does not match an eastward rule.
    let u1 = eh.handle_event(
        &GestureEvent::SwipeUpdate { dx_c: -100, dy_c: 0 },
        &config,
        t0 + 20_000,
    );
    assert!(u1.is_empty());
    // Neither does the end, which uses the direction seen so far.
    let end = eh.handle_event(&GestureEvent::SwipeEnd { cancelled: false }, &config, t0 + 30_000);
    assert!(end.is_empty());
}

#[test]
fn test_cancelled_swipe_end_dropped() {
    let config = Config {
        gestures: vec![Gesture::Swipe(Swipe {
            direction: SwipeDir::Any,
            fingers: 3,
            update: None,
            start: None,
            end: Some(b"C".to_vec()),
            acceleration: None,
            mouse_up_delay: None,
        })],
    };
    let mut eh = EventHandler::new(60, 0);
    let t0: u64 = 2_000_000;
    eh.handle_event(&GestureEvent::SwipeBegin { fingers: 3 }, &config, t0);
    let end = eh.handle_event(&GestureEvent::SwipeEnd { cancelled: true }, &config, t0 + 10_000);
    assert!(end.is_empty());
}

#[test]
fn test_update_without_begin_ignored() {
    let config = Config { gestures: vec![] };
    let mut eh = EventHandler::new(60, 0);
    let acts = eh.handle_event(
        &GestureEvent::SwipeUpdate { dx_c: 100, dy_c: 0 },
        &config,
        2_000_000,
    );
    assert!(acts.is_empty());
    let acts2 = eh.handle_event(&GestureEvent::PinchEnd, &config, 2_100_000);
    assert!(acts2.is_empty());
    let acts3 = eh.handle_event(&GestureEvent::HoldEnd, &config, 2_200_000);
    assert!(acts3.is_empty());
}

#[test]
fn test_pinch_dispatch() {
    let config = Config {
        gestures: vec![Gesture::Pinch(Pinch {
            direction: PinchDir::Out,
            fingers: 2,
            update: Some(b"U".to_vec()),
            start: None,
            end: Some(b"E".to_vec()),
        })],
    };
    let mut eh = EventHandler::new(60, 0);
    let t0: u64 = 2_000_000;
    let begin = eh.handle_event(&GestureEvent::PinchBegin { fingers: 2 }, &config, t0);
    assert!(begin.is_empty());
    // Scale 1.5 dominates: direction out, update fires with angle and
    // scale substituted.
    let u1 = eh.handle_event(
        &GestureEvent::PinchUpdate { scale_c: 150, angle_c: 10 },
        &config,
        t0 + 10_000,
    );
    assert_eq!(u1.len(), 1);
    match &u1[0] {
        Action::Exec { template, motion, lossy } => {
            assert_eq!(template, &b"U".to_vec());
            assert_eq!(*motion, Motion { dx_c: 0, dy_c: 0, angle_c: 10, scale_c: 150 });
            assert!(*lossy);
        }
        _ => panic!("expected a shell dispatch"),
    }
    let end = eh.handle_event(&GestureEvent::PinchEnd, &config, t0 + 20_000);
    assert_eq!(end.len(), 1);
}

#[test]
fn test_hold_dispatch() {
    let config = Config {
        gestures: vec![Gesture::Hold(Hold { fingers: 4, action: Some(b"launcher".to_vec()) })],
    };
    let mut eh = EventHandler::new(60, 0);
    let t0: u64 = 2_000_000;
    let begin = eh.handle_event(&GestureEvent::HoldBegin { fingers: 4 }, &config, t0);
    assert!(begin.is_empty());
    let end = eh.handle_event(&GestureEvent::HoldEnd, &config, t0 + 10_000);
    assert_eq!(end.len(), 1);
    match &end[0] {
        Action::Exec { template, lossy, .. } => {
            assert_eq!(template, &b"launcher".to_vec());
            assert!(!*lossy);
        }
        _ => panic!("expected a shell dispatch"),
    }
    // A hold of another finger count fires nothing.
    let mut eh2 = EventHandler::new(60, 0);
    eh2.handle_event(&GestureEvent::HoldBegin { fingers: 3 }, &config, t0);
    let none = eh2.handle_event(&GestureEvent::HoldEnd, &config, t0 + 10_000);
    assert!(none.is_empty());
}
