use rustfmt_user_config_db::github::graphql::{
    github_repository_search_variables, GitHubSearchResult, GraphQLResponse, Languages,
    RepositoryInfo, SearchFailure, SearchRequest, GITHUB_GRAPHQL_URL, GITHUB_REPOSITORY_QUERY,
};
use rustfmt_user_config_db::github::search::{Repo, SearchStep};
use rustfmt_user_config_db::{GitHubRepoSearch, LanguageNode, RepoSearchResults, Repository};
use time::OffsetDateTime;

fn record(id: &str) -> RepositoryInfo {
    RepositoryInfo::new(
        id.to_string(),
        format!("owner/{id}"),
        format!("https://github.com/owner/{id}"),
        String::new(),
        None,
        false,
        false,
        OffsetDateTime::from_unix_timestamp(1_700_000_000).unwrap(),
        OffsetDateTime::from_unix_timestamp(1_700_000_000).unwrap(),
        Languages::new(1, 10, vec![LanguageNode::new("Rust".to_string(), 10)]),
        "c0ffee".to_string(),
    )
}

fn page(ids: &[&str], has_next_page: bool, end_cursor: Option<&str>) -> GitHubSearchResult {
    GitHubSearchResult::new(
        100,
        has_next_page,
        end_cursor.map(|c| c.to_string()),
        ids.iter().map(|id| record(id)).collect(),
    )
}

fn answer(page: GitHubSearchResult) -> Result<GraphQLResponse, SearchFailure> {
    Ok(GraphQLResponse { data: Some(page), error: None })
}

fn results(page_size: usize, max_pages: usize) -> RepoSearchResults {
    let mut search = GitHubRepoSearch::new("token", "agent");
    search.min_stars(50).repositories_per_page(page_size).max_pages(max_pages);
    search.search().unwrap()
}

fn expect_fetch(step: SearchStep) -> SearchRequest {
    match step {
        SearchStep::Fetch(request) => request,
        other => panic!("expected a request, got {other:?}"),
    }
}

fn expect_yield(step: SearchStep) -> Repository {
    match step {
        SearchStep::Yield(repository) => repository,
        other => panic!("expected a repository, got {other:?}"),
    }
}

#[test]
fn search_needs_headers_that_can_be_sent() {
    assert!(GitHubRepoSearch::new("token", "agent").search().is_some());
    assert!(GitHubRepoSearch::new("to\nken", "agent").search().is_none());
    assert!(GitHubRepoSearch::new("token", "age\rnt").search().is_none());
    assert!(GitHubRepoSearch::new("tok\u{7f}en", "agent").search().is_none());
    assert!(GitHubRepoSearch::new("to\tken \u{e9}", "agent").search().is_some());
    assert!(GitHubRepoSearch::new("", "").search().is_some());
}

#[test]
fn search_carries_the_bearer_token_and_the_user_agent() {
    let results = GitHubRepoSearch::new("s3cret", "my-agent/1.0").search().unwrap();
    assert_eq!(results.authorization(), "Bearer s3cret");
    assert_eq!(results.user_agent(), "my-agent/1.0");
    assert_eq!(results.next_page(), None);
    assert_eq!(results.requests_issued(), 0);
    assert_eq!(results.successful_requests_made(), 0);
    assert_eq!(results.buffered(), 0);
    assert!(!results.is_awaiting());
    assert!(!results.has_failed());
}

#[test]
fn search_defaults_are_fifty_stars_hundred_per_page_one_page() {
    let mut results = GitHubRepoSearch::new("token", "agent").search().unwrap();
    let request = expect_fetch(results.next());
    assert_eq!(request.variables().limit(), 100);
    assert_eq!(request.variables().cursor_offset(), None);
    assert_eq!(
        request.variables().git_hub_search_string(),
        "language:rust topic:rust stars:>=50 template:false archived:false"
    );
    assert!(results.receive(answer(page(&["a"], true, Some("c1")))).is_some());
    assert!(matches!(results.next(), SearchStep::Done));
    assert_eq!(results.requests_issued(), 1);
}

#[test]
fn page_size_is_cut_down_to_the_maximum() {
    let mut search = GitHubRepoSearch::new("token", "agent");
    search.repositories_per_page(5000);
    let mut results = search.search().unwrap();
    assert_eq!(expect_fetch(results.next()).variables().limit(), 1000);

    let mut search = GitHubRepoSearch::new("token", "agent");
    search.repositories_per_page(1000);
    assert_eq!(expect_fetch(search.search().unwrap().next()).variables().limit(), 1000);

    let mut search = GitHubRepoSearch::new("token", "agent");
    search.repositories_per_page(0);
    assert_eq!(expect_fetch(search.search().unwrap().next()).variables().limit(), 0);
}

#[test]
fn filters_are_part_of_the_request() {
    let mut search = GitHubRepoSearch::new("token", "agent");
    search.min_stars(1234).repository_name("rustfmt");
    let request = expect_fetch(search.search().unwrap().next());
    assert_eq!(
        request.variables().git_hub_search_string(),
        "language:rust topic:rust stars:>=1234 template:false archived:false rustfmt in:name"
    );

    let mut search = GitHubRepoSearch::new("token", "agent");
    search.min_stars(0).repository_name("rust-lang/rustfmt");
    let request = expect_fetch(search.search().unwrap().next());
    assert_eq!(
        request.variables().git_hub_search_string(),
        "language:rust topic:rust stars:>=0 template:false archived:false repo:rust-lang/rustfmt"
    );
}

#[test]
fn request_names_the_query_and_its_order() {
    let request = SearchRequest::new(github_repository_search_variables(7, Some("cur"), None, None));
    assert_eq!(request.endpoint(), GITHUB_GRAPHQL_URL);
    assert_eq!(request.endpoint(), "https://api.github.com/graphql");
    assert_eq!(request.operation_name(), "GitHubRepositorySearch");
    assert_eq!(request.query(), GITHUB_REPOSITORY_QUERY);
    assert!(request.query().contains("query GitHubRepositorySearch("));
    assert_eq!(request.variables().limit(), 7);
    assert_eq!(request.variables().cursor_offset(), Some("cur"));
    assert_eq!(request.variables().language_order_field(), "SIZE");
    assert_eq!(request.variables().language_order_direction(), "DESC");
    assert_eq!(
        request.variables().git_hub_search_string(),
        "language:rust topic:rust stars:>=50 template:false archived:false"
    );
}

#[test]
fn repo_name_with_a_slash_names_the_owner() {
    assert!(matches!(Repo::parse("rustfmt"), Repo::Name(name) if name == "rustfmt"));
    assert!(matches!(Repo::parse("rust-lang/rustfmt"), Repo::NameWithOwner(name) if name == "rust-lang/rustfmt"));
    assert!(matches!(Repo::parse(""), Repo::Name(name) if name.is_empty()));
    assert_eq!(Repo::parse("a/b").as_str(), "a/b");
    assert_eq!(Repo::parse("a").clone().as_str(), "a");
}

#[test]
fn repo_name_is_read_from_text_and_read_as_text() {
    let owned = "rust-lang/rustfmt".parse::<Repo>().unwrap();
    assert!(matches!(owned, Repo::NameWithOwner(_)));
    assert_eq!(&*owned, "rust-lang/rustfmt");
    let bare = "rustfmt".parse::<Repo>().unwrap();
    assert!(matches!(bare, Repo::Name(_)));
    assert_eq!(bare.len(), 7);
}

#[test]
fn two_pages_of_two_are_yielded_in_order_and_then_nothing() {
    let mut results = results(2, 2);

    let first = expect_fetch(results.next());
    assert_eq!(first.variables().limit(), 2);
    assert_eq!(first.variables().cursor_offset(), None);
    assert_eq!(
        first.variables().git_hub_search_string(),
        "language:rust topic:rust stars:>=50 template:false archived:false"
    );

    let mut yielded = Vec::new();
    yielded.push(results.receive(answer(page(&["a", "b"], true, Some("cursor-1")))).unwrap());
    yielded.push(expect_yield(results.next()));

    let second = expect_fetch(results.next());
    assert_eq!(second.variables().cursor_offset(), Some("cursor-1"));
    yielded.push(results.receive(answer(page(&["c", "d"], false, None))).unwrap());
    yielded.push(expect_yield(results.next()));

    let ids = yielded.iter().map(|r| r.id().to_string()).collect::<Vec<_>>();
    assert_eq!(ids, vec!["a", "b", "c", "d"]);

    for _ in 0..5 {
        assert!(matches!(results.next(), SearchStep::Done));
    }
    assert_eq!(results.requests_issued(), 2);
    assert_eq!(results.successful_requests_made(), 2);
    assert_eq!(results.next_page(), None);
}

#[test]
fn ceiling_holds_even_if_more_pages_are_signalled() {
    let mut results = results(1, 3);
    let mut requests = 0;
    let mut yielded = 0;
    for _ in 0..50 {
        match results.next() {
            SearchStep::Yield(_) => yielded += 1,
            SearchStep::Fetch(_) => {
                requests += 1;
                let cursor = format!("cursor-{requests}");
                if results.receive(answer(page(&["x", "y"], true, Some(&cursor)))).is_some() {
                    yielded += 1;
                }
            }
            SearchStep::Waiting => panic!("no request is outstanding"),
            SearchStep::Done => {}
        }
    }
    assert_eq!(requests, 3);
    assert_eq!(yielded, 6);
    assert_eq!(results.requests_issued(), 3);
    assert_eq!(results.successful_requests_made(), 3);
    assert_eq!(results.next_page(), Some("cursor-3"));
    assert!(matches!(results.next(), SearchStep::Done));
}

#[test]
fn zero_pages_means_no_request() {
    let mut results = results(10, 0);
    assert!(matches!(results.next(), SearchStep::Done));
    assert!(results.page_request().is_none());
    assert_eq!(results.requests_issued(), 0);
}

#[test]
fn whole_page_is_replayed_before_the_next_request() {
    let mut results = results(3, 5);
    let _ = expect_fetch(results.next());
    let first = results.receive(answer(page(&["a", "b", "c"], true, Some("n1")))).unwrap();
    assert_eq!(first.id(), "a");
    assert_eq!(results.buffered(), 2);
    assert_eq!(results.requests_issued(), 1);
    assert_eq!(expect_yield(results.next()).id(), "b");
    assert_eq!(results.requests_issued(), 1);
    assert_eq!(expect_yield(results.next()).id(), "c");
    assert_eq!(results.requests_issued(), 1);
    assert_eq!(results.buffered(), 0);
    let next = expect_fetch(results.next());
    assert_eq!(next.variables().cursor_offset(), Some("n1"));
    assert_eq!(results.requests_issued(), 2);
}

#[test]
fn one_request_at_a_time() {
    let mut results = results(3, 5);
    let _ = expect_fetch(results.next());
    assert!(results.is_awaiting());
    assert!(matches!(results.next(), SearchStep::Waiting));
    assert!(results.page_request().is_none());
    assert_eq!(results.requests_issued(), 1);
    assert!(results.receive(answer(page(&["a"], true, Some("n1")))).is_some());
    assert!(!results.is_awaiting());
}

#[test]
fn failure_ends_the_search_without_advancing() {
    let mut results = results(2, 5);
    let _ = expect_fetch(results.next());
    assert!(results.receive(answer(page(&["a"], true, Some("n1")))).is_some());
    let _ = expect_fetch(results.next());
    assert!(results.receive(Err(SearchFailure::Transport)).is_none());
    assert!(results.has_failed());
    assert_eq!(results.successful_requests_made(), 1);
    assert_eq!(results.next_page(), Some("n1"));
    assert_eq!(results.requests_issued(), 2);
    for _ in 0..3 {
        assert!(matches!(results.next(), SearchStep::Done));
    }
    assert_eq!(results.requests_issued(), 2);
}

#[test]
fn answer_without_data_is_a_failure() {
    let mut results = results(2, 5);
    let _ = expect_fetch(results.next());
    let complaint = serde_json::from_str::<serde_json::Value>("{\"message\":\"bad\"}").unwrap();
    let page = results.get_next_page(Ok(GraphQLResponse { data: None, error: Some(complaint) }));
    assert!(page.is_none());
    assert!(results.has_failed());
    assert_eq!(results.successful_requests_made(), 0);
    assert!(matches!(results.next(), SearchStep::Done));

    let mut results = self::results(2, 5);
    let _ = expect_fetch(results.next());
    assert!(results.get_next_page(Err(SearchFailure::Decode)).is_none());
    assert!(results.has_failed());
}

#[test]
fn search_ends_when_no_page_follows() {
    let mut results = results(2, 10);
    let _ = expect_fetch(results.next());
    assert_eq!(results.receive(answer(page(&["a"], false, Some("ignored")))).unwrap().id(), "a");
    assert_eq!(results.next_page(), None);
    assert!(matches!(results.next(), SearchStep::Done));
    assert!(matches!(results.next(), SearchStep::Done));
    assert_eq!(results.requests_issued(), 1);
}

#[test]
fn empty_page_yields_nothing() {
    let mut results = results(2, 10);
    let _ = expect_fetch(results.next());
    assert!(results.receive(answer(page(&[], true, Some("n1")))).is_none());
    assert_eq!(results.successful_requests_made(), 1);
    assert_eq!(results.next_page(), Some("n1"));
    let next = expect_fetch(results.next());
    assert_eq!(next.variables().cursor_offset(), Some("n1"));
}

#[test]
fn pages_can_be_taken_whole() {
    let mut results = results(2, 2);
    let request = results.page_request().unwrap();
    assert_eq!(request.variables().cursor_offset(), None);
    let first = results.get_next_page(answer(page(&["a", "b"], true, Some("n1")))).unwrap();
    assert_eq!(first.iter().map(|r| r.id().to_string()).collect::<Vec<_>>(), vec!["a", "b"]);
    assert_eq!(results.buffered(), 0);
    let request = results.page_request().unwrap();
    assert_eq!(request.variables().cursor_offset(), Some("n1"));
    let second = results.get_next_page(answer(page(&["c"], true, Some("n2")))).unwrap();
    assert_eq!(second.len(), 1);
    assert_eq!(second[0].id(), "c");
    assert_eq!(second[0].git_url(), "https://github.com/owner/c.git");
    assert!(results.page_request().is_none());
    assert_eq!(results.next_page(), Some("n2"));
}

#[test]
fn response_without_a_request_changes_nothing() {
    let mut results = results(2, 2);
    assert!(results.get_next_page(answer(page(&["a"], true, Some("n1")))).is_none());
    assert!(results.receive(answer(page(&["a"], true, Some("n1")))).is_none());
    assert_eq!(results.successful_requests_made(), 0);
    assert_eq!(results.requests_issued(), 0);
    assert_eq!(results.next_page(), None);
    assert!(!results.has_failed());
    assert!(matches!(results.next(), SearchStep::Fetch(_)));
}

#[test]
fn page_reports_its_count_and_cursor() {
    let with_next = page(&["a"], true, Some("n1"));
    assert_eq!(with_next.total_repository_count(), 100);
    assert_eq!(with_next.next_page(), Some("n1"));
    assert_eq!(page(&["a"], false, Some("n1")).next_page(), None);
    assert_eq!(page(&["a"], true, None).next_page(), None);
    let repositories = page(&["a", "b", "c"], false, None).into_repositories();
    assert_eq!(
        repositories.iter().map(|r| r.id().to_string()).collect::<Vec<_>>(),
        vec!["a", "b", "c"]
    );
    let data = GraphQLResponse { data: Some(page(&["z"], false, None)), error: None }.into_data();
    assert_eq!(data.unwrap().total_repository_count(), 100);
}
