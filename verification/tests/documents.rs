use server_box::cli::valid_server_name;
use server_box::colors::{colorize, Color};
use server_box::config::Config;
use server_box::config_cli::{manage_config_action, server_running, ConfigAction};
use server_box::download::progress_percent;
use server_box::error::Error;
use server_box::server::Server;
use server_box::server_manipulator::ServerManipulator;
use server_box::text::{contains_str, parse_u32, replace_all, trim_str};
use server_box::theme::Theme;

fn record(name: &str, location: &str) -> Server {
    Server::new(
        name,
        String::from("Paper"),
        String::from("1.20.1"),
        String::from("42"),
        location,
    )
}

#[test]
fn properties_parse_comment_blank_and_pairs() {
    let manipulator = ServerManipulator { server: record("a", "/srv/a") };
    let text = "#minecraft\n\nmotd=Hello=World\nserver-ip=\nview-distance=10\r\n";
    let props = manipulator.get_server_properties(text).unwrap();
    assert_eq!(props.len(), 3);
    assert_eq!(props[0], (String::from("motd"), String::from("Hello")));
    assert_eq!(props[1], (String::from("server-ip"), String::new()));
    assert_eq!(props[2], (String::from("view-distance"), String::from("10")));
}

#[test]
fn properties_last_occurrence_wins() {
    let manipulator = ServerManipulator { server: record("a", "/srv/a") };
    let props = manipulator.get_server_properties("a=1\na=2\n").unwrap();
    assert_eq!(props, vec![(String::from("a"), String::from("2"))]);
}

#[test]
fn properties_line_without_equals_is_a_fault() {
    let manipulator = ServerManipulator { server: record("a", "/srv/a") };
    assert!(matches!(
        manipulator.get_server_properties("broken line\n"),
        Err(Error::Io { .. })
    ));
}

#[test]
fn properties_render_one_line_per_pair() {
    let manipulator = ServerManipulator { server: record("a", "/srv/a") };
    let props = vec![
        (String::from("a"), String::from("1")),
        (String::from("b"), String::from("x=y")),
    ];
    assert_eq!(manipulator.save_server_properties(&props), "a=1\nb=x=y\n");
}

#[test]
fn optimization_sets_the_three_documented_keys() {
    let manipulator = ServerManipulator { server: record("a", "/srv/a") };
    let mut props = vec![
        (String::from("view-distance"), String::from("10")),
        (String::from("motd"), String::from("hi")),
    ];
    manipulator.optimized_properties(&mut props);
    assert_eq!(props[0], (String::from("view-distance"), String::from("7")));
    assert_eq!(props[1], (String::from("motd"), String::from("hi")));
    assert_eq!(
        props[2],
        (String::from("network-compression-threshold"), String::from("256"))
    );
    assert_eq!(props[3], (String::from("simulation-distance"), String::from("4")));
}

#[test]
fn colorize_wraps_with_escape_codes() {
    assert_eq!(colorize("ok", Color::Green), "\x1b[92mok\x1b[0m");
    assert_eq!(Color::Gold.to_str(), "\x1b[33m");
}

#[test]
fn theme_load_yields_the_gray_default() {
    let theme = Theme::load().unwrap();
    assert_eq!(theme.name, "");
    assert!(matches!(theme.primary_color, Color::Gray));
}

#[test]
fn error_messages_carry_their_context() {
    let e = Error::UnknownFlavor { name: String::from("folia") };
    assert_eq!(e.message(), "Unknown flavor: folia");
    assert_eq!(Error::LicenseNotAccepted.message(), "License not accepted");
    let missing = Error::ServerNotFound { name: String::from("lobby") };
    assert_eq!(missing.message(), "Server not found: lobby");
}

#[test]
fn progress_is_a_rounded_down_percentage() {
    assert_eq!(progress_percent(0, 7), 0);
    assert_eq!(progress_percent(1, 3), 33);
    assert_eq!(progress_percent(7, 7), 100);
}

#[test]
fn text_helpers_behave_like_their_specifications() {
    assert_eq!(parse_u32("042"), Some(42));
    assert_eq!(parse_u32("4294967295"), Some(u32::MAX));
    assert_eq!(parse_u32("4294967296"), None);
    assert_eq!(parse_u32(""), None);
    assert_eq!(parse_u32("12a"), None);
    assert!(contains_str("hello world", "lo wo"));
    assert!(!contains_str("hello", "world"));
    assert_eq!(replace_all("a-{v}-{v}", "{v}", "1.20"), "a-1.20-1.20");
    assert_eq!(trim_str("  padded \t"), "padded");
}

#[test]
fn wizard_accepts_only_fresh_short_names() {
    let mut config = Config { servers: Vec::new() };
    config.add_server(&record("Taken", "/srv/taken"));
    assert!(valid_server_name(&config, "fresh"));
    assert!(!valid_server_name(&config, ""));
    assert!(!valid_server_name(&config, "taken"));
    let long = "x".repeat(101);
    assert!(!valid_server_name(&config, &long));
}

#[test]
fn running_detection_looks_for_the_name_marker() {
    let listing = "1234 Jps -v\n5678 server.jar -Dname=Lobby -Xms1G";
    assert!(server_running(listing, "Lobby"));
    assert!(server_running(listing, " Lobby "));
    assert!(!server_running(listing, "Other"));
}

#[test]
fn registry_overview_lists_servers_and_providers() {
    let mut config = Config { servers: Vec::new() };
    config.add_server(&record("Lobby", "/srv/lobby"));
    let text = manage_config_action(&ConfigAction::Info, &config, &vec![true]).unwrap();
    assert!(text.contains("Lobby (/srv/lobby)"));
    assert!(text.contains("\x1b[92mRunning\x1b[0m"));
    assert!(text.contains("Paper"));
    assert!(text.contains("Velocity"));

    let empty = Config { servers: Vec::new() };
    let text = manage_config_action(&ConfigAction::Info, &empty, &vec![]).unwrap();
    assert!(text.contains("No servers!"));
}
