use rustfmt_user_config_db::database::repository::GitRepository;
use rustfmt_user_config_db::github::graphql::{
    ensure_git_suffix, strip_git_suffix, Languages, RepositoryInfo,
};
use rustfmt_user_config_db::{LanguageNode, Percentage, Repository};
use time::OffsetDateTime;

fn moment(seconds: i64) -> OffsetDateTime {
    OffsetDateTime::from_unix_timestamp(seconds).unwrap()
}

fn breakdown(total_size: usize, edges: &[(&str, usize)]) -> Languages {
    let nodes = edges
        .iter()
        .map(|(name, size)| LanguageNode::new(name.to_string(), *size))
        .collect::<Vec<_>>();
    Languages::new(nodes.len(), total_size, nodes)
}

fn found(id: &str, url: &str, languages: Languages) -> RepositoryInfo {
    RepositoryInfo::new(
        id.to_string(),
        "rust-lang/rustfmt".to_string(),
        url.to_string(),
        "Format Rust code".to_string(),
        None,
        false,
        false,
        moment(1_700_000_000),
        moment(1_700_000_500),
        languages,
        "abc123".to_string(),
    )
}

fn stored(id: &str, git_url: &str) -> GitRepository {
    GitRepository::new(
        id.to_string(),
        "rust-lang/rustfmt".to_string(),
        git_url.to_string(),
        Percentage::from_bits(98.5f64.to_bits()),
        "def456".to_string(),
        true,
        false,
        Some(moment(1_600_000_000)),
        moment(1_700_000_000),
        moment(1_700_000_500),
    )
}

#[test]
fn git_suffix_is_added_once() {
    assert_eq!(ensure_git_suffix("https://github.com/a/b".to_string()), "https://github.com/a/b.git");
    assert_eq!(
        ensure_git_suffix("https://github.com/a/b.git".to_string()),
        "https://github.com/a/b.git"
    );
    assert_eq!(ensure_git_suffix(String::new()), ".git");
    assert_eq!(ensure_git_suffix("git".to_string()), "git.git");
}

#[test]
fn git_suffix_is_stripped_exactly() {
    assert_eq!(strip_git_suffix("https://github.com/a/b.git"), Some("https://github.com/a/b"));
    assert_eq!(strip_git_suffix(".git"), Some(""));
    assert_eq!(
        strip_git_suffix("https://example.org/caf\u{e9}.git"),
        Some("https://example.org/caf\u{e9}")
    );
    assert_eq!(strip_git_suffix("https://github.com/a/b"), None);
    assert_eq!(strip_git_suffix("git"), None);
    assert_eq!(strip_git_suffix(""), None);
    assert_eq!(strip_git_suffix("a.git/"), None);
}

#[test]
fn browse_url_is_git_url_without_suffix_for_search_results() {
    let repository = Repository::from_search(found(
        "R_1",
        "https://github.com/rust-lang/rustfmt",
        breakdown(10, &[("Rust", 10)]),
    ));
    assert_eq!(repository.git_url(), "https://github.com/rust-lang/rustfmt.git");
    assert_eq!(repository.url(), "https://github.com/rust-lang/rustfmt");
    assert_eq!(format!("{}.git", repository.url()), repository.git_url());
}

#[test]
fn browse_url_is_git_url_without_suffix_for_stored_rows() {
    let repository = Repository::from_row(stored("R_2", "https://github.com/rust-lang/rustfmt.git"));
    assert_eq!(repository.git_url(), "https://github.com/rust-lang/rustfmt.git");
    assert_eq!(repository.url(), "https://github.com/rust-lang/rustfmt");

    let bare = Repository::from(stored("R_3", "https://github.com/rust-lang/rust"));
    assert_eq!(bare.git_url(), "https://github.com/rust-lang/rust.git");
    assert_eq!(bare.url(), "https://github.com/rust-lang/rust");
}

#[test]
fn accessors_pass_fields_through_for_both_origins() {
    let search = Repository::from(found(
        "R_1",
        "https://github.com/rust-lang/rustfmt",
        breakdown(4, &[("Rust", 1)]),
    ));
    assert_eq!(search.id(), "R_1");
    assert_eq!(search.name_with_owner(), "rust-lang/rustfmt");
    assert_eq!(search.commit_hash(), "abc123");
    assert!(!search.is_fork());
    assert!(!search.is_locked());
    assert_eq!(search.archived_at(), None);
    assert_eq!(search.pushed_at(), moment(1_700_000_000));
    assert_eq!(search.updated_at(), moment(1_700_000_500));
    assert_eq!(search.percent_of_code_in_rust(), Percentage::ratio(1, 4));

    let row = Repository::from_row(stored("R_2", "https://github.com/rust-lang/rustfmt.git"));
    assert_eq!(row.id(), "R_2");
    assert_eq!(row.commit_hash(), "def456");
    assert!(row.is_fork());
    assert!(!row.is_locked());
    assert_eq!(row.archived_at(), Some(moment(1_600_000_000)));
    assert_eq!(row.percent_of_code_in_rust().as_bits(), Some(98.5f64.to_bits()));
    assert_eq!(row.percent_of_code_in_rust().as_ratio(), None);
}

#[test]
fn clone_keeps_the_record() {
    let repository = Repository::from_search(found(
        "R_1",
        "https://github.com/rust-lang/rustfmt",
        breakdown(4, &[("C", 3), ("Rust", 1)]),
    ));
    let copy = repository.clone();
    assert_eq!(copy.id(), repository.id());
    assert_eq!(copy.git_url(), repository.git_url());
    assert_eq!(copy.percent_of_code_in_rust(), repository.percent_of_code_in_rust());
    assert_eq!(copy.pushed_at(), repository.pushed_at());
}

#[test]
fn rust_share_is_size_out_of_total() {
    let languages = breakdown(200, &[("C", 150), ("Rust", 50)]);
    let percent = languages.percent_of_code_in_rust();
    assert_eq!(percent.as_ratio(), Some((50, 200)));
    assert_eq!(percent.hundredths(), Some(2500));
}

#[test]
fn rust_share_is_zero_when_rust_is_absent() {
    let languages = breakdown(200, &[("C", 150), ("Python", 50)]);
    assert_eq!(languages.percent_of_code_in_rust(), Percentage::zero());
    assert_eq!(languages.percent_of_code_in_rust().hundredths(), Some(0));
    assert_eq!(breakdown(0, &[]).percent_of_code_in_rust(), Percentage::zero());
}

#[test]
fn rust_share_is_zero_when_total_size_is_zero() {
    let languages = breakdown(0, &[("Rust", 50)]);
    let percent = languages.percent_of_code_in_rust();
    assert_eq!(percent, Percentage::zero());
    assert_eq!(percent.as_ratio(), Some((0, 1)));
    assert_eq!(percent.hundredths(), Some(0));
}

#[test]
fn rust_share_takes_the_first_language_named_rust() {
    let languages = breakdown(100, &[("rust", 5), ("Rust", 60), ("Rust", 10)]);
    assert_eq!(languages.percent_of_code_in_rust().as_ratio(), Some((60, 100)));
}

#[test]
fn rust_share_stays_within_bounds() {
    for (size, total) in [(0usize, 1usize), (1, 1), (1, 3), (999, 1000), (usize::MAX, usize::MAX)] {
        let hundredths = breakdown(total, &[("Rust", size)])
            .percent_of_code_in_rust()
            .hundredths()
            .unwrap();
        assert!(hundredths <= 10000);
    }
}

#[test]
fn hundredths_round_down() {
    assert_eq!(Percentage::ratio(1, 3).hundredths(), Some(3333));
    assert_eq!(Percentage::ratio(2, 3).hundredths(), Some(6666));
    assert_eq!(Percentage::ratio(1, 1).hundredths(), Some(10000));
    assert_eq!(Percentage::ratio(3, 2).hundredths(), Some(15000));
    assert_eq!(Percentage::ratio(5, 0).hundredths(), Some(0));
    assert_eq!(Percentage::from_bits(7).hundredths(), None);
}

#[test]
fn languages_keep_their_order_and_shares() {
    let info = found(
        "R_1",
        "https://github.com/rust-lang/rustfmt",
        breakdown(10, &[("Rust", 7), ("Shell", 3)]),
    );
    let languages = info.languages();
    assert_eq!(languages.len(), 2);
    assert_eq!(languages[0].name(), "Rust");
    assert_eq!(languages[0].percent_of_code_in_repo(), Percentage::ratio(7, 10));
    assert_eq!(languages[1].name(), "Shell");
    assert_eq!(languages[1].percent_of_code_in_repo().hundredths(), Some(3000));
    assert_eq!(info.description(), "Format Rust code");
}
