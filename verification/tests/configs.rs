use rustfmt_user_config_db::git::CandidateFile;
use rustfmt_user_config_db::rustfmt_toml::{starts_at_root, JsonError, JsonStep};
use rustfmt_user_config_db::{ClonedRepo, RustfmtConfig};

fn document(text: &str) -> toml::Value {
    toml::from_str::<toml::Value>(text).unwrap()
}

fn json(text: &str) -> serde_json::Value {
    serde_json::from_str::<serde_json::Value>(text).unwrap()
}

fn candidate(path: &str, content: Option<&str>) -> CandidateFile {
    CandidateFile::new(path.to_string(), content.map(|c| c.to_string()))
}

#[test]
fn candidate_under_the_checkout_becomes_a_config() {
    let file = candidate("/tmp/clone/rustfmt.toml", Some("max_width = 100\n"));
    assert_eq!(file.absolute_path(), "/tmp/clone/rustfmt.toml");
    assert_eq!(file.content(), Some("max_width = 100\n"));
    let config = RustfmtConfig::read(&file, "/tmp/clone").unwrap();
    assert_eq!(config.relative_path(), "rustfmt.toml");
    assert_eq!(config.to_json().unwrap(), json("{\"max_width\":100}"));
}

#[test]
fn relative_path_keeps_the_directories_below_the_root() {
    let file = candidate("/tmp/clone/crates/core/.rustfmt.toml", Some("edition = \"2021\""));
    let config = RustfmtConfig::read(&file, "/tmp/clone/").unwrap();
    assert_eq!(config.relative_path(), "crates/core/.rustfmt.toml");
    assert!(!config.relative_path().starts_with('/'));
}

#[test]
fn candidate_outside_the_checkout_is_skipped() {
    let file = candidate("/elsewhere/rustfmt.toml", Some("max_width = 100"));
    assert!(RustfmtConfig::read(&file, "/tmp/clone").is_none());
    let sibling = candidate("/tmp/clone-2/rustfmt.toml", Some("max_width = 100"));
    assert!(RustfmtConfig::read(&sibling, "/tmp/clone").is_none());
}

#[test]
fn candidate_that_could_not_be_read_is_skipped() {
    assert!(RustfmtConfig::read(&candidate("/tmp/clone/rustfmt.toml", None), "/tmp/clone").is_none());
}

#[test]
fn candidate_that_is_no_toml_is_skipped() {
    let file = candidate("/tmp/clone/rustfmt.toml", Some("max_width = = 100"));
    assert!(RustfmtConfig::read(&file, "/tmp/clone").is_none());
    let value_only = candidate("/tmp/clone/rustfmt.toml", Some("\"just a string\""));
    assert!(RustfmtConfig::read(&value_only, "/tmp/clone").is_none());
}

#[test]
fn configs_are_found_in_order_and_bad_ones_do_not_block_the_others() {
    let cloned = ClonedRepo::new(
        "https://github.com/owner/repo.git",
        "/tmp/clone".to_string(),
        Some("abc".to_string()),
        vec![
            candidate("/tmp/clone/rustfmt.toml", Some("max_width = 80")),
            candidate("/tmp/clone/broken/rustfmt.toml", Some("not toml at all [")),
            candidate("/tmp/clone/unreadable/rustfmt.toml", None),
            candidate("/other/rustfmt.toml", Some("max_width = 80")),
            candidate("/tmp/clone/sub/.rustfmt.toml", Some("hard_tabs = true")),
        ],
    );
    assert_eq!(cloned.url(), "https://github.com/owner/repo.git");
    assert_eq!(cloned.path(), "/tmp/clone");
    assert_eq!(cloned.head(), Some("abc".to_string()));
    assert_eq!(cloned.candidates().len(), 5);
    let configs = cloned.find_rustfmt_configs();
    assert_eq!(configs.len(), 2);
    assert_eq!(configs[0].relative_path(), "rustfmt.toml");
    assert_eq!(configs[0].to_json().unwrap(), json("{\"max_width\":80}"));
    assert_eq!(configs[1].relative_path(), "sub/.rustfmt.toml");
    assert_eq!(configs[1].to_json().unwrap(), json("{\"hard_tabs\":true}"));
}

#[test]
fn checkout_without_candidates_has_no_configs() {
    let cloned = ClonedRepo::new("u", "/tmp/clone".to_string(), None, Vec::new());
    assert!(cloned.find_rustfmt_configs().is_empty());
    assert_eq!(cloned.head(), None);
}

#[test]
fn toml_becomes_the_same_document_in_json() {
    let config = RustfmtConfig::new(
        "rustfmt.toml".to_string(),
        document("max_width = 120\nuse_small_heuristics = \"Max\"\nignore = [\"a\", \"b\"]\n[nested]\nflag = false\nratio = 0.5\n"),
    )
    .unwrap();
    assert_eq!(
        config.to_json().unwrap(),
        json("{\"max_width\":120,\"use_small_heuristics\":\"Max\",\"ignore\":[\"a\",\"b\"],\"nested\":{\"flag\":false,\"ratio\":0.5}}")
    );
    let empty = RustfmtConfig::new(".rustfmt.toml".to_string(), document("")).unwrap();
    assert_eq!(empty.to_json().unwrap(), json("{}"));
}

#[test]
fn absolute_path_is_no_relative_path() {
    assert!(RustfmtConfig::new("/etc/rustfmt.toml".to_string(), document("")).is_none());
    assert!(RustfmtConfig::new("etc/rustfmt.toml".to_string(), document("")).is_some());
    assert!(RustfmtConfig::new(String::new(), document("")).is_some());
    assert!(starts_at_root("/"));
    assert!(starts_at_root("/a"));
    assert!(!starts_at_root("a/"));
    assert!(!starts_at_root(""));
}

#[test]
fn document_nested_too_deep_for_json_is_an_error() {
    let mut value = toml::Value::Integer(1);
    for _ in 0..200 {
        value = toml::Value::Array(vec![value]);
    }
    let config = RustfmtConfig::new("deep/rustfmt.toml".to_string(), value).unwrap();
    let error = config.to_json().unwrap_err();
    assert_eq!(error.step, JsonStep::Read);
    assert_eq!(error.file_path, "deep/rustfmt.toml");
    assert_eq!(error.message(), "failed to convert deep/rustfmt.toml to json");

    let mut shallow = toml::Value::Integer(1);
    for _ in 0..100 {
        shallow = toml::Value::Array(vec![shallow]);
    }
    assert!(RustfmtConfig::new("x".to_string(), shallow).unwrap().to_json().is_ok());
}

#[test]
fn json_error_names_the_file() {
    let error = JsonError { file_path: "sub/rustfmt.toml".to_string(), step: JsonStep::Read };
    assert_eq!(error.message(), "failed to convert sub/rustfmt.toml to json");
    assert_eq!(error.step, JsonStep::Read);
    let error = JsonError { file_path: String::new(), step: JsonStep::Write };
    assert_eq!(error.message(), "failed to convert  to json");
}
