use rustfmt_user_config_db::cli::{Cli, Commands};
use rustfmt_user_config_db::github::search::SearchStep;

#[test]
fn add_repositories_configures_the_search() {
    let cli = Cli {
        command: Commands::AddRepositories {
            limit: 2000,
            max_pages: 3,
            stars: 75,
            repo: Some("rust-lang/rustfmt".to_string()),
            dry_run: true,
        },
    };
    assert!(cli.command.dry_run());
    assert_eq!(cli.command.checkout_limit(), None);
    let mut results = cli.command.search("token", "agent").unwrap().search().unwrap();
    match results.next() {
        SearchStep::Fetch(request) => {
            assert_eq!(request.variables().limit(), 1000);
            assert_eq!(
                request.variables().git_hub_search_string(),
                "language:rust topic:rust stars:>=75 template:false archived:false repo:rust-lang/rustfmt"
            );
        }
        other => panic!("expected a request, got {other:?}"),
    }
}

#[test]
fn add_repositories_without_a_name_searches_all() {
    let command = Commands::AddRepositories {
        limit: 100,
        max_pages: 0,
        stars: 50,
        repo: None,
        dry_run: false,
    };
    assert!(!command.dry_run());
    let mut results = command.search("token", "agent").unwrap().search().unwrap();
    assert!(matches!(results.next(), SearchStep::Done));
}

#[test]
fn extract_asks_for_checkouts_and_no_search() {
    let command = Commands::ExtractRustfmtToml { limit: 40000, dry_run: false };
    assert!(command.search("token", "agent").is_none());
    assert_eq!(command.checkout_limit(), Some(40000));
    assert!(!command.dry_run());
    assert!(Commands::ExtractRustfmtToml { limit: 1, dry_run: true }.dry_run());
}
