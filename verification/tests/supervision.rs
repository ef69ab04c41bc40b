use server_box::server::{accept_eula_text, Server};
use server_box::supervisor::{
    is_license_rejection, java_args, run_simulation, step, RunOutcome, SupervisorEvent,
    SupervisorState,
};

const REJECTION: &str =
    "You need to agree to the EULA in order to run the server. Go to eula.txt for more info.";

fn record(name: &str, location: &str) -> Server {
    Server::new(
        name,
        String::from("Paper"),
        String::from("1.20.1"),
        String::from("42"),
        location,
    )
}

#[test]
fn rejection_line_is_recognized_inside_noise() {
    assert!(is_license_rejection(REJECTION));
    let wrapped = format!("[12:00:01 INFO]: {} More text.", REJECTION);
    assert!(is_license_rejection(&wrapped));
    assert!(!is_license_rejection("Done (3.14s)! For help, type \"help\""));
    assert!(!is_license_rejection(""));
}

#[test]
fn auto_acceptance_flips_once_and_returns_the_inner_outcome() {
    let lines = vec![
        String::from("Starting server..."),
        String::from(REJECTION),
        String::from("never read"),
    ];
    let (outcome, flips) = run_simulation(&lines, true, false, 0, RunOutcome::Exited(0));
    assert_eq!(flips, 1);
    assert_eq!(outcome, RunOutcome::Exited(0));
    assert_ne!(outcome, RunOutcome::LicenseNotAccepted);
}

#[test]
fn declined_prompt_ends_without_touching_the_license() {
    let lines = vec![String::from("Starting..."), String::from(REJECTION)];
    let (outcome, flips) = run_simulation(&lines, false, false, 0, RunOutcome::Exited(0));
    assert_eq!(outcome, RunOutcome::LicenseNotAccepted);
    assert_eq!(flips, 0);
}

#[test]
fn accepted_prompt_behaves_like_automatic_acceptance() {
    let lines = vec![String::from(REJECTION)];
    let (outcome, flips) = run_simulation(&lines, false, true, 7, RunOutcome::Exited(3));
    assert_eq!(outcome, RunOutcome::Exited(3));
    assert_eq!(flips, 1);
}

#[test]
fn a_clean_run_exits_with_the_child_code() {
    let lines = vec![String::from("Done!"), String::from("Stopping server")];
    let (outcome, flips) = run_simulation(&lines, true, true, 5, RunOutcome::Exited(0));
    assert_eq!(outcome, RunOutcome::Exited(5));
    assert_eq!(flips, 0);
}

#[test]
fn spawn_failure_terminates_the_machine() {
    let state = SupervisorState::Launching { auto_accept: false };
    let (next, actions) = step(&state, &SupervisorEvent::SpawnFailed);
    assert_eq!(next, SupervisorState::Terminated { outcome: RunOutcome::SpawnFailed });
    assert!(actions.is_empty());
}

#[test]
fn read_failure_terminates_the_machine() {
    let state = SupervisorState::Streaming { auto_accept: true };
    let (next, actions) = step(&state, &SupervisorEvent::ReadFailed);
    assert_eq!(next, SupervisorState::Terminated { outcome: RunOutcome::IoError });
    assert!(actions.is_empty());
}

#[test]
fn eula_flip_changes_exactly_the_first_rejected_line() {
    let (text, flipped) = accept_eula_text("#By changing...\neula=false\n");
    assert!(flipped);
    assert_eq!(text, "#By changing...\neula=true\n");

    let (text, flipped) = accept_eula_text("eula=false\neula=false");
    assert!(flipped);
    assert_eq!(text, "eula=true\neula=false");
}

#[test]
fn eula_flip_handles_carriage_return_line_endings() {
    let (text, flipped) = accept_eula_text("#note\r\neula=false\r\n");
    assert!(flipped);
    assert_eq!(text, "#note\r\neula=true\r\n");
}

#[test]
fn eula_without_a_rejected_line_stays_untouched() {
    let original = "#comment\neula=true\n";
    let (text, flipped) = accept_eula_text(original);
    assert!(!flipped);
    assert_eq!(text, original);

    let (text, flipped) = accept_eula_text("");
    assert!(!flipped);
    assert_eq!(text, "");
}

#[test]
fn java_args_carry_name_heaps_flags_and_jar() {
    let mut server = record(" Lobby ", "/srv/lobby");
    server.xms = Some(String::from("512M"));
    let args = java_args(&server);
    assert_eq!(args[0], "-Dname=Lobby");
    assert_eq!(args[1], "-Xms512M");
    assert_eq!(args[2], "-Xmx1G");
    assert!(args.contains(&String::from("-XX:+UseG1GC")));
    assert!(args.contains(&String::from("-jar")));
    assert_eq!(args[args.len() - 2], "/srv/lobby/Paper-1.20.1.jar");
    assert_eq!(args[args.len() - 1], "--nogui");

    server.gui = true;
    let args = java_args(&server);
    assert_ne!(args[args.len() - 1], "--nogui");
}

#[test]
fn unknown_version_drops_the_dash_in_the_jar_name() {
    let mut server = record("a", "/srv/a");
    server.version = String::from("Unknown");
    assert_eq!(server.run_jar_file_name(), "Paper.jar");
}
