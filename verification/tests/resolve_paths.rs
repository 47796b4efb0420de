//! Path classification, prefix round trips, configuration, and the
//! lifecycle decisions.

use tg::cli::SetAction;
use tg::config::Config;
use tg::entries::base_name;
use tg::lifecycle::MountDecision;
use tg::lifecycle::ShutdownEvent;
use tg::lifecycle::ShutdownState;
use tg::resolve::classify;
use tg::resolve::decode_tags;
use tg::resolve::split_components;
use tg::resolve::validate_segment;
use tg::resolve::PathSegment;

#[test]
fn default_config() {
    let c = Config::default();
    assert_eq!(c.tag_prefix(), ":");
    assert_eq!(c.file_prefix(), "_");
    assert!(c.mountpoint().is_none());
    assert_eq!(c.config_path(), "");
    assert_eq!(c.db_path(), "");
}

#[test]
fn classify_root() {
    let c = Config::default();
    assert_eq!(classify("/", &c), PathSegment::Root);
    assert_eq!(classify("", &c), PathSegment::Root);
    assert_eq!(classify("///", &c), PathSegment::Root);
}

#[test]
fn classify_tag_and_file() {
    let c = Config::default();
    assert_eq!(classify("/:red", &c), PathSegment::Tag("red".to_string()));
    assert_eq!(classify("/:red/_a.txt", &c), PathSegment::File("a.txt".to_string()));
    assert_eq!(classify("/:red/:big", &c), PathSegment::Tag("big".to_string()));
}

#[test]
fn classify_unknown() {
    let c = Config::default();
    assert_eq!(classify("/red", &c), PathSegment::Unknown);
    assert_eq!(classify("/:red/plain", &c), PathSegment::Unknown);
}

#[test]
fn split_drops_empty_components() {
    assert_eq!(split_components("/:a//:b/"), vec![":a".to_string(), ":b".to_string()]);
    assert_eq!(split_components("/"), Vec::<String>::new());
}

#[test]
fn decode_strips_every_marker() {
    assert_eq!(decode_tags("/:red/:big"), vec!["red".to_string(), "big".to_string()]);
    assert_eq!(decode_tags("/:red/_a.txt"), vec!["red".to_string(), "a.txt".to_string()]);
}

#[test]
fn prefix_round_trip_on_display_names() {
    // Decoding a displayed name and re-prefixing it reproduces the
    // display name, and the other way around.
    let c = Config::default();
    let display = ":music";
    match classify(&format!("/{display}"), &c) {
        PathSegment::Tag(name) => {
            assert_eq!(format!("{}{}", c.tag_prefix(), name), display);
        }
        other => panic!("expected a tag segment, got {other:?}"),
    }
    let name = "b.txt";
    let redisplayed = format!("{}{}", c.file_prefix(), name);
    match classify(&format!("/:red/{redisplayed}"), &c) {
        PathSegment::File(decoded) => assert_eq!(decoded, name),
        other => panic!("expected a file segment, got {other:?}"),
    }
}

#[test]
fn base_name_variants() {
    assert_eq!(base_name("/a/b/c.txt"), "c.txt");
    assert_eq!(base_name("c.txt"), "c.txt");
    assert_eq!(base_name("/c.txt"), "c.txt");
    assert_eq!(base_name(""), "");
}

#[test]
fn validation_degrades_to_unknown() {
    let tag = PathSegment::Tag("red".to_string());
    assert_eq!(validate_segment(tag.clone(), true), tag);
    assert_eq!(validate_segment(tag, false), PathSegment::Unknown);
    assert_eq!(validate_segment(PathSegment::Root, false), PathSegment::Root);
    assert_eq!(validate_segment(PathSegment::Unknown, true), PathSegment::Unknown);
}

#[test]
fn custom_prefixes() {
    let mut c = Config::default();
    c.set_tag_prefix("+".to_string());
    c.set_file_prefix("%".to_string());
    assert_eq!(classify("/+rock", &c), PathSegment::Tag("rock".to_string()));
    assert_eq!(classify("/+rock/%a.flac", &c), PathSegment::File("a.flac".to_string()));
    assert_eq!(classify("/:rock", &c), PathSegment::Unknown);
}

#[test]
fn apply_set_changes_one_marker() {
    let mut c = Config::default();
    tg::cli::apply_set(&mut c, SetAction::TagPrefix { value: "+".to_string() });
    assert_eq!(c.tag_prefix(), "+");
    assert_eq!(c.file_prefix(), "_");
    tg::cli::apply_set(&mut c, SetAction::FilePrefix { value: "-".to_string() });
    assert_eq!(c.file_prefix(), "-");
    assert_eq!(c.tag_prefix(), "+");
}

#[test]
fn mountpoint_choice() {
    let mut c = Config::default();
    match tg::lifecycle::choose_mountpoint(Some("/mnt/tags".to_string()), &c) {
        MountDecision::UseGiven(m) => assert_eq!(m, "/mnt/tags"),
        other => panic!("expected the explicit mountpoint, got {other:?}"),
    }
    match tg::lifecycle::choose_mountpoint(None, &c) {
        MountDecision::NoMountpoint => {}
        other => panic!("expected a refusal, got {other:?}"),
    }
    c.set_mountpoint("/mnt/saved".to_string());
    match tg::lifecycle::choose_mountpoint(None, &c) {
        MountDecision::UseConfigured(m) => assert_eq!(m, "/mnt/saved"),
        other => panic!("expected the configured mountpoint, got {other:?}"),
    }
}

#[test]
fn shutdown_flag_sticks() {
    let mut st = ShutdownState::new();
    assert!(!st.should_exit());
    st.observe(&ShutdownEvent::Signal);
    assert!(st.should_exit());
    st.observe(&ShutdownEvent::Unmounted);
    assert!(st.should_exit());

    let mut st2 = ShutdownState::new();
    st2.observe(&ShutdownEvent::Unmounted);
    assert!(st2.should_exit());
}
