use gestures::config::Config;
use gestures::gestures::PinchDir;
use gestures::gestures::SwipeDir;
use gestures::mouse_handler::start_handler;
use gestures::mouse_handler::MouseCommand;
use gestures::mouse_handler::MouseEffect;
use gestures::mouse_handler::MouseQueue;
use gestures::numfmt::render_hundredths;
use gestures::subst::substitute;
use gestures::subst::Motion;
use gestures::throttle::ThrottleState;
use gestures::utils::exec_command_from_string;
use gestures::utils::CommandQueue;
use gestures::utils::ExecOutcome;
use gestures::xdo_handler::start_handler as start_xdo;
use gestures::xdo_handler::XDoCommand;
use gestures::xdo_handler::XDoEffect;

#[test]
fn test_config_default() {
    let c = Config::default();
    assert_eq!(c, Config { gestures: vec![] });
}

#[test]
fn test_dir() {
    let test_cases = vec![
        (0, 0, SwipeDir::Any),
        (1, 0, SwipeDir::E),
        (-1, 0, SwipeDir::W),
        (0, 1, SwipeDir::S),
        (0, -1, SwipeDir::N),
        (1, 1, SwipeDir::SE),
        (-1, 1, SwipeDir::SW),
        (1, -1, SwipeDir::NE),
        (-1, -1, SwipeDir::NW),
        (2, 1, SwipeDir::SE),
        (-2, 1, SwipeDir::SW),
        (2, -1, SwipeDir::NE),
        (-2, -1, SwipeDir::NW),
    ];

    for (x, y, expected) in test_cases {
        assert_eq!(SwipeDir::dir(x, y), expected);
    }
}

#[test]
fn test_dir_octant_boundaries() {
    // tan(pi/8) = 0.41421...: slope 41/100 still counts as E, 42/100 as SE.
    assert_eq!(SwipeDir::dir(100, 41), SwipeDir::E);
    assert_eq!(SwipeDir::dir(100, 42), SwipeDir::SE);
    // The same threshold against the y axis.
    assert_eq!(SwipeDir::dir(41, 100), SwipeDir::S);
    assert_eq!(SwipeDir::dir(42, 100), SwipeDir::SE);
    // Classification is scale-invariant.
    assert_eq!(SwipeDir::dir(1000, 410), SwipeDir::E);
    assert_eq!(SwipeDir::dir(1000, 420), SwipeDir::SE);
}

#[test]
fn test_pinch_dir() {
    assert_eq!(PinchDir::dir(100, 0), PinchDir::Any);
    assert_eq!(PinchDir::dir(150, 10), PinchDir::Out);
    assert_eq!(PinchDir::dir(50, 10), PinchDir::In);
    assert_eq!(PinchDir::dir(101, 500), PinchDir::Clockwise);
    assert_eq!(PinchDir::dir(101, -500), PinchDir::Counterclockwise);
    assert_eq!(PinchDir::dir(100, 7), PinchDir::Clockwise);
    assert_eq!(PinchDir::dir(100, -7), PinchDir::Counterclockwise);
}

#[test]
fn test_throttle_admits_one_per_interval() {
    let mut t = ThrottleState::new(60, 0);
    // 1_000_000 / 60 = 16666 microseconds.
    assert!(!t.should_update(10_000));
    assert!(t.should_update(16_666));
    assert!(!t.should_update(20_000));
    assert!(!t.should_update(33_331));
    assert!(t.should_update(33_332));
}

#[test]
fn test_command_queue_fifo() {
    let mut q = CommandQueue::new(2);
    assert!(q.try_push(b"a".to_vec()));
    assert!(q.try_push(b"b".to_vec()));
    assert!(!q.try_push(b"c".to_vec()));
    assert_eq!(q.pop_front(), Some(b"a".to_vec()));
    assert!(q.try_push(b"c".to_vec()));
    assert_eq!(q.pop_front(), Some(b"b".to_vec()));
    assert_eq!(q.pop_front(), Some(b"c".to_vec()));
    assert_eq!(q.pop_front(), None);
}

#[test]
fn test_exec_command_policies() {
    let mut q = CommandQueue::new(1);
    let m = Motion::zero();
    // An empty action string is a no-op.
    assert_eq!(exec_command_from_string(&mut q, &vec![], &m, true), ExecOutcome::Empty);
    assert_eq!(q.len(), 0);
    // With room, the rendered command is queued.
    assert_eq!(exec_command_from_string(&mut q, &b"x".to_vec(), &m, true), ExecOutcome::Queued);
    // Update queue full: drop.
    assert_eq!(exec_command_from_string(&mut q, &b"y".to_vec(), &m, true), ExecOutcome::Dropped);
    // Begin/end queue full: the caller must block, not lose the command.
    assert_eq!(
        exec_command_from_string(&mut q, &b"y".to_vec(), &m, false),
        ExecOutcome::WouldBlock
    );
    // Block then succeed: once drained, the same offer goes through.
    assert_eq!(q.pop_front(), Some(b"x".to_vec()));
    assert_eq!(exec_command_from_string(&mut q, &b"y".to_vec(), &m, false), ExecOutcome::Queued);
}

#[test]
fn test_back_pressure_storm() {
    // A storm of lossy update dispatches neither panics nor blocks: the
    // overflow is dropped and counted, and later blocking dispatches
    // still find their way through after a drain.
    let mut q = CommandQueue::new(256);
    let m = Motion::zero();
    let mut dropped: u64 = 0;
    for _ in 0..10_000 {
        match exec_command_from_string(&mut q, &b"sleep 1".to_vec(), &m, true) {
            ExecOutcome::Dropped => dropped += 1,
            ExecOutcome::Queued => {}
            _ => panic!("unexpected outcome"),
        }
    }
    assert!(dropped > 0);
    assert_eq!(q.len(), 256);
    assert_eq!(q.pop_front(), Some(b"sleep 1".to_vec()));
    assert_eq!(exec_command_from_string(&mut q, &b"end".to_vec(), &m, false), ExecOutcome::Queued);
}

#[test]
fn test_mouse_queue_policies() {
    let mut q = MouseQueue::new(1);
    assert!(q.try_send(MouseCommand::MouseDown, 1, 255));
    // Full queue: a button message is refused (the caller waits).
    assert!(!q.try_send(MouseCommand::MouseUp, 1, 255));
    assert_eq!(q.dropped(), 0);
    // Full queue: a relative move is dropped and counted.
    assert!(!q.try_send_move(3, 4));
    assert_eq!(q.dropped(), 1);
}

#[test]
fn test_coalescing_preserves_net_displacement() {
    let mut q = MouseQueue::new(64);
    assert!(q.try_send_move(10, 0));
    assert!(q.try_send_move(5, -3));
    assert!(q.try_send_move(-2, 7));
    assert!(q.try_send(MouseCommand::MouseUp, 1, 255));
    assert!(q.try_send_move(1, 1));
    // The run of moves at the front is summed into one.
    assert_eq!(q.drain_coalesced(), Some((MouseCommand::MoveMouseRelative, 13, 4)));
    // The first non-move is the next piece of work.
    assert_eq!(q.drain_coalesced(), Some((MouseCommand::MouseUp, 1, 255)));
    assert_eq!(q.drain_coalesced(), Some((MouseCommand::MoveMouseRelative, 1, 1)));
    assert_eq!(q.drain_coalesced(), None);
}

#[test]
fn test_mouse_handler_effects() {
    let mut h = start_handler(true);
    assert_eq!(h.mouse_down(1), MouseEffect::Send(MouseCommand::MouseDown, 1, 255));
    assert_eq!(h.mouse_up_delay(1, 500), MouseEffect::ScheduleUp(1, 500));
    // An intervening move cancels the pending release and counts the
    // button as held again.
    assert_eq!(h.move_mouse_relative(2, 3), MouseEffect::Send(MouseCommand::MoveMouseRelative, 2, 3));
    assert!(h.handler_mouse_down);
    assert!(!h.has_guard);

    let mut w = start_handler(false);
    assert_eq!(w.mouse_down(1), MouseEffect::SpawnClick(true));
    assert_eq!(w.move_mouse_relative(-1, 9), MouseEffect::SpawnMove(-1, 9));
}

#[test]
fn test_substitution() {
    // Motion (1.234, -5.6) in hundredths: the variables render with two
    // decimal places.
    let m = Motion { dx_c: 123, dy_c: -560, angle_c: 0, scale_c: 0 };
    let out = substitute(&b"echo $delta_x $delta_y".to_vec(), &m);
    assert_eq!(out, b"echo 1.23 -5.60".to_vec());
}

#[test]
fn test_substitution_all_variables() {
    let m = Motion { dx_c: 0, dy_c: 5, angle_c: -12345, scale_c: 100 };
    let out = substitute(&b"a $delta_x b $delta_y c $delta_angle d $scale e".to_vec(), &m);
    assert_eq!(out, b"a 0.00 b 0.05 c -123.45 d 1.00 e".to_vec());
    // Unknown variables and lone dollars pass through unchanged.
    let out2 = substitute(&b"$delta_z $$scale".to_vec(), &m);
    assert_eq!(out2, b"$delta_z $1.00".to_vec());
}

#[test]
fn test_render_hundredths_edges() {
    assert_eq!(render_hundredths(0), b"0.00".to_vec());
    assert_eq!(render_hundredths(-1), b"-0.01".to_vec());
    assert_eq!(render_hundredths(12), b"0.12".to_vec());
    assert_eq!(render_hundredths(-12345), b"-123.45".to_vec());
    assert_eq!(render_hundredths(100), b"1.00".to_vec());
}

#[test]
fn test_xdo_handler_effects() {
    let mut h = start_xdo(true);
    assert_eq!(h.mouse_down(1), XDoEffect::Send(XDoCommand::MouseDown, 1, 255));
    assert_eq!(h.mouse_up_delay(1, 250), XDoEffect::ScheduleUp(1, 250));
    assert_eq!(
        h.move_mouse_relative(4, -4),
        XDoEffect::Send(XDoCommand::MoveMouseRelative, 4, -4)
    );
    assert!(h.handler_mouse_down);
    let mut w = start_xdo(false);
    assert_eq!(w.mouse_down(1), XDoEffect::SpawnClick(true));
}

#[test]
fn test_coalescing_clamps_overflowing_sum() {
    let mut q = MouseQueue::new(4);
    assert!(q.try_send_move(i32::MAX, 0));
    assert!(q.try_send_move(i32::MAX, 0));
    assert!(q.try_send_move(0, i32::MIN));
    assert!(q.try_send_move(0, -1));
    // A sum out of range is clamped; within range it is exact.
    assert_eq!(
        q.drain_coalesced(),
        Some((MouseCommand::MoveMouseRelative, i32::MAX, i32::MIN))
    );
}
