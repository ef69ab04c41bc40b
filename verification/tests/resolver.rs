use server_box::error::Error;
use server_box::jars::{load, JarProjectInfo, PaperJarBuildInfo, PurpurJarBuildInfo};

#[test]
fn get_jar_returns_expected_jar() {
    let jars = load().unwrap();
    let paper_jar = jars.get_jar("paper").unwrap();
    assert_eq!(paper_jar.name, "Paper");
}

#[test]
fn get_jar_returns_none_for_non_existent_jar() {
    let jars = load().unwrap();
    let non_existent_jar = jars.get_jar("non_existent");
    assert!(non_existent_jar.is_none());
}

#[test]
fn flavors_are_listed_in_registry_order() {
    let jars = load().unwrap();
    assert_eq!(jars.list_flavors(), vec!["Paper", "Purpur", "Waterfall", "Velocity"]);
}

#[test]
fn get_jar_is_case_insensitive() {
    let jars = load().unwrap();
    assert_eq!(jars.get_jar("PURPUR").unwrap().name, "Purpur");
    assert_eq!(jars.get_jar("Velocity").unwrap().name, "Velocity");
}

#[test]
fn flat_builds_are_normalized_latest_first() {
    let jars = load().unwrap();
    let paper = jars.get_jar("paper").unwrap();
    let body = "{\"project_id\":\"paper\",\"project_name\":\"Paper\",\"version\":\"1.20\",\"builds\":[1,17,42]}";
    let builds = paper.get_builds("1.20", body).unwrap();
    assert_eq!(builds, vec![42, 17, 1]);
    assert_eq!(paper.get_latest_build("1.20", body), Some(42));
    assert_eq!(builds[0], paper.get_latest_build("1.20", body).unwrap());
}

#[test]
fn nested_builds_are_normalized_latest_first() {
    let jars = load().unwrap();
    let purpur = jars.get_jar("purpur").unwrap();
    let body = "{\"project\":\"purpur\",\"version\":\"1.19.2\",\"builds\":{\"latest\":\"2062\",\"all\":[\"2060\",\"2061\",\"2062\"]}}";
    let builds = purpur.get_builds("1.19.2", body).unwrap();
    assert_eq!(builds, vec![2062, 2061, 2060]);
    assert_eq!(purpur.get_latest_build("1.19.2", body), Some(2062));
}

#[test]
fn unknown_members_are_tolerated() {
    let jars = load().unwrap();
    let paper = jars.get_jar("paper").unwrap();
    let body = "{\"project_id\":\"paper\",\"time\":-1.5e3,\"project_name\":\"Paper\",\"channel\":null,\"promoted\":false,\"meta\":{\"a\":[1,\"x\"]},\"version\":\"1.20\",\"builds\":[7]}";
    let builds = paper.get_builds("1.20", body).unwrap();
    assert_eq!(builds, vec![7]);
}

#[test]
fn empty_build_list_is_an_error() {
    let jars = load().unwrap();
    let paper = jars.get_jar("paper").unwrap();
    let body = "{\"project_id\":\"paper\",\"project_name\":\"Paper\",\"version\":\"1.20\",\"builds\":[]}";
    match paper.get_builds("1.20", body) {
        Err(Error::NoBuildsForVersion { flavor, version }) => {
            assert_eq!(flavor, "Paper");
            assert_eq!(version, "1.20");
        },
        other => panic!("expected NoBuildsForVersion, got {:?}", other),
    }
    assert_eq!(paper.get_latest_build("1.20", body), None);
}

#[test]
fn malformed_build_payload_is_an_error() {
    let jars = load().unwrap();
    let paper = jars.get_jar("paper").unwrap();
    assert!(matches!(
        paper.get_builds("1.20", "not json at all"),
        Err(Error::MalformedResponse { .. })
    ));
    let nested_for_flat = "{\"project\":\"purpur\",\"version\":\"1.19\",\"builds\":{\"latest\":\"1\",\"all\":[\"1\"]}}";
    assert!(matches!(
        paper.get_builds("1.19", nested_for_flat),
        Err(Error::MalformedResponse { .. })
    ));
}

#[test]
fn unknown_flavor_is_an_error() {
    let jar = server_box::jars::Jar {
        name: String::from("Folia"),
        download_url: String::new(),
        builds_url: String::new(),
        versions_url: String::new(),
    };
    match jar.get_builds("1.20", "{}") {
        Err(Error::UnknownFlavor { name }) => assert_eq!(name, "Folia"),
        other => panic!("expected UnknownFlavor, got {:?}", other),
    }
}

#[test]
fn versions_are_normalized_newest_first() {
    let jars = load().unwrap();
    let paper = jars.get_jar("paper").unwrap();
    let body = "{\"project_id\":\"paper\",\"project_name\":\"Paper\",\"version_groups\":[\"1.19\",\"1.20\"],\"versions\":[\"1.19.4\",\"1.20\",\"1.20.1\"]}";
    let versions = paper.get_versions(body).unwrap();
    assert_eq!(versions, vec!["1.20.1", "1.20", "1.19.4"]);
}

#[test]
fn versions_without_identity_members_parse() {
    let jars = load().unwrap();
    let purpur = jars.get_jar("purpur").unwrap();
    let body = "{\"versions\":[\"1.18\",\"1.19\"]}";
    let versions = purpur.get_versions(body).unwrap();
    assert_eq!(versions, vec!["1.19", "1.18"]);
}

#[test]
fn malformed_version_payload_is_an_error() {
    let jars = load().unwrap();
    let paper = jars.get_jar("paper").unwrap();
    assert!(matches!(
        paper.get_versions("{\"versions\":\"1.20\"}"),
        Err(Error::MalformedResponse { .. })
    ));
}

#[test]
fn download_url_substitutes_both_placeholders() {
    let jars = load().unwrap();
    let purpur = jars.get_jar("purpur").unwrap();
    let url = purpur.resolve_download_url("1.19.2", "2062");
    assert_eq!(url, "https://api.purpurmc.org/v2/purpur/1.19.2/2062/download");
    let builds_url = purpur.resolve_builds_url("1.19.2");
    assert_eq!(builds_url, "https://api.purpurmc.org/v2/purpur/1.19.2");
}

#[test]
fn jar_file_name_is_flavor_dash_version() {
    let jars = load().unwrap();
    let paper = jars.get_jar("paper").unwrap();
    assert_eq!(paper.jar_file_name("1.20.1"), "Paper-1.20.1.jar");
}

#[test]
fn build_info_payloads_parse_field_by_field() {
    let body = "{\"project_id\":\"paper\",\"project_name\":\"Paper\",\"version\":\"1.20\",\"builds\":[3,4]}";
    let info = PaperJarBuildInfo::parse(body).unwrap();
    assert_eq!(info.project_id, "paper");
    assert_eq!(info.project_name, "Paper");
    assert_eq!(info.version, "1.20");
    assert_eq!(info.builds, vec![3, 4]);

    let body = "{\"project\":\"purpur\",\"version\":\"1.19\",\"builds\":{\"latest\":\"9\",\"all\":[\"8\",\"9\"]}}";
    let info = PurpurJarBuildInfo::parse(body).unwrap();
    assert_eq!(info.project, "purpur");
    assert_eq!(info.builds.latest, "9");
    assert_eq!(info.builds.all, vec!["8", "9"]);

    let body = "{\"versions\":[\"1.18\"]}";
    let info = JarProjectInfo::parse(body).unwrap();
    assert!(info.project.is_none());
    assert_eq!(info.versions, vec!["1.18"]);
}

#[test]
fn build_beyond_u32_is_malformed() {
    let body = "{\"project_id\":\"paper\",\"project_name\":\"Paper\",\"version\":\"1.20\",\"builds\":[4294967296]}";
    assert!(matches!(
        PaperJarBuildInfo::parse(body),
        Err(Error::MalformedResponse { .. })
    ));
}

#[test]
fn non_numeric_nested_build_is_malformed() {
    let jars = load().unwrap();
    let purpur = jars.get_jar("purpur").unwrap();
    let body = "{\"project\":\"purpur\",\"version\":\"1.19\",\"builds\":{\"latest\":\"x\",\"all\":[\"x\"]}}";
    assert!(matches!(
        purpur.get_builds("1.19", body),
        Err(Error::MalformedResponse { .. })
    ));
}
