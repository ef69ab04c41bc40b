use server_box::config::{Config, ServerInfo};
use server_box::error::Error;
use server_box::server::Server;

fn record(name: &str, location: &str) -> Server {
    Server::new(
        name,
        String::from("Paper"),
        String::from("1.20.1"),
        String::from("42"),
        location,
    )
}

fn empty_config() -> Config {
    Config { servers: Vec::new() }
}

#[test]
fn add_then_get_round_trips_through_the_sidecar() {
    let mut config = empty_config();
    let server = record("Lobby", "/srv/lobby");
    config.add_server(&server);
    let info = config.get_server("lobby").expect("added server must be found");
    assert_eq!(info.server_name, "Lobby");
    assert_eq!(info.location, "/srv/lobby");
    // the sidecar at that location restores the full record
    let restored = Server::from_sidecar_text(&server.sidecar_text()).unwrap();
    assert_eq!(restored.jar_name, server.jar_name);
    assert_eq!(restored.version, server.version);
    assert_eq!(restored.build, server.build);
    assert_eq!(restored.location, server.location);
    assert_eq!(restored, server);
}

#[test]
fn add_replaces_the_entry_at_the_same_location() {
    let mut config = empty_config();
    config.add_server(&record("old", "/srv/a"));
    config.add_server(&record("new", "/srv/a"));
    assert_eq!(config.servers.len(), 1);
    assert_eq!(config.servers[0].server_name, "new");
}

#[test]
fn names_at_different_locations_coexist() {
    let mut config = empty_config();
    config.add_server(&record("twin", "/srv/a"));
    config.add_server(&record("twin", "/srv/b"));
    assert_eq!(config.servers.len(), 2);
}

#[test]
fn get_is_case_insensitive_and_first_match_wins() {
    let mut config = empty_config();
    config.add_server(&record("Alpha", "/srv/a"));
    config.add_server(&record("beta", "/srv/b"));
    assert_eq!(config.get_server("ALPHA").unwrap().location, "/srv/a");
    assert_eq!(config.get_server("Beta").unwrap().location, "/srv/b");
    assert!(config.get_server("gamma").is_none());
}

#[test]
fn remove_drops_only_the_named_entry() {
    let mut config = empty_config();
    config.add_server(&record("a", "/srv/a"));
    config.add_server(&record("b", "/srv/b"));
    assert!(config.remove_server("A"));
    assert_eq!(config.servers.len(), 1);
    assert_eq!(config.servers[0].server_name, "b");
    assert!(!config.remove_server("a"));
}

#[test]
fn save_server_repoints_an_entry_ignoring_case() {
    let mut config = empty_config();
    config.add_server(&record("Alpha", "/srv/a"));
    let moved = record("ALPHA", "/srv/elsewhere");
    config.save_server(&moved).unwrap();
    assert_eq!(config.servers.len(), 1);
    assert_eq!(config.servers[0].location, "/srv/elsewhere");
    assert_eq!(config.servers[0].server_name, "ALPHA");
    let unknown = record("nobody", "/srv/x");
    match config.save_server(&unknown) {
        Err(Error::ServerNotFound { name }) => assert_eq!(name, "nobody"),
        other => panic!("expected ServerNotFound, got {:?}", other),
    }
    assert_eq!(config.servers.len(), 1);
}

#[test]
fn pruning_drops_vanished_locations_and_is_idempotent() {
    let mut config = empty_config();
    config.add_server(&record("keep", "/srv/keep"));
    config.add_server(&record("gone", "/srv/gone"));
    let changed = config.prune_missing(&vec![true, false]);
    assert!(changed);
    assert_eq!(config.servers.len(), 1);
    assert_eq!(config.servers[0].server_name, "keep");
    // a second load over the same disk state removes nothing
    let changed_again = config.prune_missing(&vec![true]);
    assert!(!changed_again);
    assert_eq!(config.servers.len(), 1);
}

#[test]
fn index_documents_round_trip() {
    let mut config = empty_config();
    config.add_server(&record("Lobby", "/srv/lobby"));
    config.add_server(&record("Creative", "/srv/creative"));
    let text = config.index_text();
    let reloaded = Config::from_index_text(&text).unwrap();
    assert_eq!(reloaded.servers.len(), 2);
    assert_eq!(reloaded.servers[0].server_name, "Lobby");
    assert_eq!(reloaded.servers[0].location, "/srv/lobby");
    assert_eq!(reloaded.servers[1].server_name, "Creative");
}

#[test]
fn empty_index_document_is_the_empty_registry() {
    let reloaded = Config::from_index_text("").unwrap();
    assert!(reloaded.servers.is_empty());
}

#[test]
fn index_documents_tolerate_unknown_fields() {
    let text = "[[servers]]\nserver_name = \"a\"\ncolor = \"blue\"\nlocation = \"/srv/a\"\n";
    let reloaded = Config::from_index_text(text).unwrap();
    assert_eq!(reloaded.servers.len(), 1);
    assert_eq!(reloaded.servers[0].location, "/srv/a");
}

#[test]
fn broken_index_document_is_a_fault() {
    assert!(matches!(
        Config::from_index_text("[[servers]]\nserver_name = \"a\"\n"),
        Err(Error::Io { .. })
    ));
    assert!(matches!(
        Config::from_index_text("server_name = \"a\"\n"),
        Err(Error::Io { .. })
    ));
}

#[test]
fn sidecars_keep_every_field_and_escapes() {
    let mut server = record("Quo\"ted\\name", "/srv/it\tis");
    server.gui = true;
    server.xms = Some(String::from("512M"));
    server.xmx = Some(String::from("4G"));
    let restored = Server::from_sidecar_text(&server.sidecar_text()).unwrap();
    assert_eq!(restored, server);
}

#[test]
fn sidecars_tolerate_unknown_fields() {
    let text = "server_name = \"a\"\njar_name = \"Paper\"\nversion = \"1.20\"\nfancy = true\nbuild = \"1\"\ngui = false\nlocation = \"/srv/a\"";
    let restored = Server::from_sidecar_text(text).unwrap();
    assert_eq!(restored.server_name, "a");
    assert!(restored.xms.is_none());
}

#[test]
fn broken_sidecar_is_a_fault() {
    assert!(matches!(Server::from_sidecar_text("not a document"), Err(Error::Io { .. })));
    // a required field missing
    assert!(matches!(
        Server::from_sidecar_text("server_name = \"a\"\n"),
        Err(Error::Io { .. })
    ));
    // a duplicated field
    let text = "server_name = \"a\"\nserver_name = \"b\"\njar_name = \"p\"\nversion = \"1\"\nbuild = \"1\"\ngui = true\nlocation = \"/x\"";
    assert!(matches!(Server::from_sidecar_text(text), Err(Error::Io { .. })));
}

#[test]
fn import_needs_exactly_one_jar() {
    let no_jars: Vec<String> = vec![String::from("readme.txt")];
    match Server::import_from_directory("/srv/box", &no_jars) {
        Err(Error::NoJarFound { location }) => assert_eq!(location, "/srv/box"),
        other => panic!("expected NoJarFound, got {:?}", other),
    }
    let two_jars = vec![String::from("a.jar"), String::from("b.jar")];
    assert!(matches!(
        Server::import_from_directory("/srv/box", &two_jars),
        Err(Error::NoJarFound { .. })
    ));
}

#[test]
fn import_infers_flavor_and_version_from_the_file_name() {
    let files = vec![String::from("paper-1.20.4.jar"), String::from("notes.md")];
    let server = Server::import_from_directory("/srv/my-box", &files).unwrap();
    assert_eq!(server.server_name, "my-box");
    assert_eq!(server.jar_name, "paper");
    assert_eq!(server.version, "1.20.4");
    assert_eq!(server.build, "Unknown");
    assert_eq!(server.location, "/srv/my-box");
}

#[test]
fn import_without_a_delimiter_leaves_the_version_unknown() {
    let files = vec![String::from("server.jar")];
    let server = Server::import_from_directory("box", &files).unwrap();
    assert_eq!(server.server_name, "box");
    assert_eq!(server.jar_name, "server");
    assert_eq!(server.version, "Unknown");
}

#[test]
fn server_info_mirrors_the_record() {
    let server = record("a", "/srv/a");
    let info = ServerInfo::from_server(&server);
    assert_eq!(info.server_name, server.server_name);
    assert_eq!(info.location, server.location);
}
