use gestures::config::apply_reload;
use gestures::config::Config;
use gestures::config::ConfigError;
use gestures::detect_wayland;
use gestures::event_handler::Action;
use gestures::event_handler::EventHandler;
use gestures::event_handler::GestureEvent;
use gestures::get_default_config;
use gestures::gestures::Gesture;
use gestures::gestures::Hold;
use gestures::gestures::Pinch;
use gestures::gestures::PinchDir;
use gestures::gestures::Swipe;
use gestures::gestures::SwipeDir;
use gestures::ipc::handle_command;
use gestures::ipc::line_contains_reload;
use gestures::ipc::socket_path;
use gestures::parser::parse_config;
use gestures::parser::serialize_rules;
use gestures::Commands;

#[test]
fn test_parse_serialize_roundtrip() {
    let config = Config {
        gestures: vec![
            Gesture::Swipe(Swipe {
                direction: SwipeDir::NE,
                fingers: 3,
                update: Some(b"echo $delta_x".to_vec()),
                start: None,
                end: Some(b"say \"done\" \\ now".to_vec()),
                acceleration: Some(-5),
                mouse_up_delay: None,
            }),
            Gesture::Swipe(Swipe {
                direction: SwipeDir::Any,
                fingers: 3,
                update: None,
                start: None,
                end: None,
                acceleration: Some(20),
                mouse_up_delay: Some(500),
            }),
            Gesture::Pinch(Pinch {
                direction: PinchDir::Counterclockwise,
                fingers: 2,
                update: None,
                start: Some(b"line one\nline two".to_vec()),
                end: None,
            }),
            Gesture::Hold(Hold { fingers: 5, action: Some(b"rofi -show drun".to_vec()) }),
            Gesture::Hold(Hold { fingers: 1, action: None }),
        ],
    };
    let text = serialize_rules(&config);
    let reread = parse_config(&text).expect("canonical text parses");
    assert_eq!(reread, config);
    // Serialising the re-parse gives the same text again.
    assert_eq!(serialize_rules(&reread), text);
}

#[test]
fn test_parse_default_config() {
    let text: Vec<u8> = get_default_config().as_bytes().to_vec();
    let config = parse_config(&text).expect("the default configuration parses");
    assert_eq!(
        config,
        Config {
            gestures: vec![Gesture::Swipe(Swipe {
                direction: SwipeDir::Any,
                fingers: 3,
                update: None,
                start: None,
                end: None,
                acceleration: Some(20),
                mouse_up_delay: Some(500),
            })],
        }
    );
}

#[test]
fn test_parse_comments_blanks_and_order() {
    let text = b"// a comment\n\n  \t\nhold fingers=2 action=\"a b\"\nswipe fingers=4 direction=\"w\" end=\"x\"\n".to_vec();
    let config = parse_config(&text).expect("parses");
    assert_eq!(config.gestures.len(), 2);
    assert_eq!(
        config.gestures[1],
        Gesture::Swipe(Swipe {
            direction: SwipeDir::W,
            fingers: 4,
            update: None,
            start: None,
            end: Some(b"x".to_vec()),
            acceleration: None,
            mouse_up_delay: None,
        })
    );
}

#[test]
fn test_parse_errors() {
    // Missing fingers.
    assert_eq!(
        parse_config(&b"swipe direction=\"any\"".to_vec()),
        Err(ConfigError::Parse { line: 0 })
    );
    // Fingers must be at least one.
    assert_eq!(
        parse_config(&b"hold fingers=0".to_vec()),
        Err(ConfigError::Parse { line: 0 })
    );
    // Unknown node, reported with its line index.
    assert_eq!(
        parse_config(&b"hold fingers=1\nwave fingers=2\n".to_vec()),
        Err(ConfigError::Parse { line: 1 })
    );
    // Unknown property.
    assert!(parse_config(&b"hold fingers=1 speed=2".to_vec()).is_err());
    // Doubled property.
    assert!(parse_config(&b"hold fingers=1 fingers=2".to_vec()).is_err());
    // A number where a string belongs, and the other way round.
    assert!(parse_config(&b"hold fingers=1 action=3".to_vec()).is_err());
    assert!(parse_config(&b"hold fingers=\"two\"".to_vec()).is_err());
    // Unterminated string.
    assert!(parse_config(&b"hold fingers=1 action=\"oops".to_vec()).is_err());
    // Direction on a hold rule.
    assert!(parse_config(&b"hold fingers=1 direction=\"any\"".to_vec()).is_err());
    // Acceleration out of its field's range.
    assert!(parse_config(&b"swipe direction=\"any\" fingers=3 acceleration=200".to_vec()).is_err());
}

#[test]
fn test_reload_keeps_config_on_failure() {
    let mut current = Config {
        gestures: vec![Gesture::Hold(Hold { fingers: 3, action: Some(b"a".to_vec()) })],
    };
    let before = Config {
        gestures: vec![Gesture::Hold(Hold { fingers: 3, action: Some(b"a".to_vec()) })],
    };
    // A malformed file leaves the observable configuration untouched.
    let bad = parse_config(&b"not a rule".to_vec());
    assert!(bad.is_err());
    apply_reload(&mut current, bad);
    assert_eq!(current, before);
    // A good file replaces it wholesale.
    let good = parse_config(&b"hold fingers=4 action=\"b\"\n".to_vec());
    apply_reload(&mut current, good);
    assert_eq!(
        current,
        Config { gestures: vec![Gesture::Hold(Hold { fingers: 4, action: Some(b"b".to_vec()) })] }
    );
}

#[test]
fn test_reload_unchanged_is_noop() {
    let text = b"hold fingers=4 action=\"b\"\n".to_vec();
    let mut current = parse_config(&text).expect("parses");
    let before = parse_config(&text).expect("parses");
    // Re-reading the same file and installing the result changes nothing.
    apply_reload(&mut current, parse_config(&text));
    assert_eq!(current, before);
}

#[test]
fn test_hot_reload_pipeline() {
    // Start with the empty configuration: a hold fires nothing.
    let mut config = Config::default();
    let mut eh = EventHandler::new(60, 0);
    let t0: u64 = 2_000_000;
    eh.handle_event(&GestureEvent::HoldBegin { fingers: 4 }, &config, t0);
    assert!(eh.handle_event(&GestureEvent::HoldEnd, &config, t0 + 1000).is_empty());
    // A control line containing `reload` triggers a re-read of the file,
    // which now defines one hold rule.
    assert!(line_contains_reload(&b"please reload\n".to_vec()));
    apply_reload(&mut config, parse_config(&b"hold fingers=4 action=\"new\"\n".to_vec()));
    // Once the index staleness window has passed, the next hold fires
    // the new action.
    let t1 = t0 + 2_000_000;
    eh.handle_event(&GestureEvent::HoldBegin { fingers: 4 }, &config, t1);
    let acts = eh.handle_event(&GestureEvent::HoldEnd, &config, t1 + 1000);
    assert_eq!(acts.len(), 1);
    match &acts[0] {
        Action::Exec { template, .. } => assert_eq!(template, &b"new".to_vec()),
        _ => panic!("expected a shell dispatch"),
    }
}

#[test]
fn test_line_protocol() {
    assert!(line_contains_reload(&b"reload".to_vec()));
    assert!(line_contains_reload(&b"xxreloadyy".to_vec()));
    assert!(!line_contains_reload(&b"reloa".to_vec()));
    assert!(!line_contains_reload(&b"".to_vec()));
    assert!(!line_contains_reload(&b"RELOAD".to_vec()));
}

#[test]
fn test_client_messages() {
    assert_eq!(handle_command(&Commands::Reload), Some(b"reload".to_vec()));
    assert_eq!(handle_command(&Commands::Start), None);
    assert_eq!(handle_command(&Commands::InstallService { print: true }), None);
}

#[test]
fn test_socket_path_resolution() {
    let dir = b"/run/user/1000".to_vec();
    assert_eq!(socket_path(Some(&dir), 1000), b"/run/user/1000/gestures.sock".to_vec());
    assert_eq!(socket_path(None, 1207), b"/run/user/1207/gestures.sock".to_vec());
}

#[test]
fn test_config_home_resolution() {
    let xdg = b"/home/u/.config".to_vec();
    let home = b"/home/u".to_vec();
    assert_eq!(
        Config::get_config_home(Some(&xdg), Some(&home)),
        Ok(b"/home/u/.config".to_vec())
    );
    assert_eq!(Config::get_config_home(None, Some(&home)), Ok(b"/home/u/.config".to_vec()));
    assert_eq!(Config::get_config_home(None, None), Err(ConfigError::NoConfigHome));
    let (first, second) = Config::config_search_paths(&xdg);
    assert_eq!(first, b"/home/u/.config/gestures.kdl".to_vec());
    assert_eq!(second, b"/home/u/.config/gestures/gestures.kdl".to_vec());
}

#[test]
fn test_detect_wayland() {
    let display = b"wayland-0".to_vec();
    let wl = b"Wayland".to_vec();
    let x11 = b"x11".to_vec();
    assert!(detect_wayland(Some(&display), None));
    assert!(detect_wayland(None, Some(&wl)));
    assert!(!detect_wayland(None, Some(&x11)));
    assert!(!detect_wayland(None, None));
}

#[test]
fn test_parse_numeric_extremes() {
    // The largest finger count that fits its field parses; one more does
    // not.
    let ok = parse_config(&b"hold fingers=2147483647".to_vec()).expect("parses");
    assert_eq!(ok.gestures, vec![Gesture::Hold(Hold { fingers: 2147483647, action: None })]);
    assert!(parse_config(&b"hold fingers=2147483648".to_vec()).is_err());
    // A mouse-up delay at the far ends of its field round-trips.
    let config = Config {
        gestures: vec![Gesture::Swipe(Swipe {
            direction: SwipeDir::Any,
            fingers: 3,
            update: None,
            start: None,
            end: None,
            acceleration: Some(127),
            mouse_up_delay: Some(i64::MIN),
        })],
    };
    let text = serialize_rules(&config);
    assert_eq!(parse_config(&text).expect("parses"), config);
    // A value beyond any machine integer is refused outright.
    assert!(
        parse_config(&b"swipe direction=\"any\" fingers=3 mouse-up-delay=99999999999999999999"
            .to_vec())
        .is_err()
    );
}
