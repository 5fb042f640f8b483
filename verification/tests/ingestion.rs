use rustfmt_user_config_db::database::ingestion::{
    store_in_db_outcome, FailedStep, IngestAction, IngestEvent, Ingestion, Phase, StoreError,
};
use rustfmt_user_config_db::database::statement::{SqlValue, Statement};
use rustfmt_user_config_db::database::store::{
    Checkout, ConfigBatch, DecodedConfig, INSERT_CONFIGS, STAMP_REPOSITORIES, UPSERT_CONFIGS,
};
use rustfmt_user_config_db::git::CandidateFile;
use rustfmt_user_config_db::github::graphql::{Languages, RepositoryInfo};
use rustfmt_user_config_db::{store_rustfmt_configs, ClonedRepo, Repository, RustfmtConfig};
use time::OffsetDateTime;

fn doc(text: &str) -> serde_json::Value {
    serde_json::from_str::<serde_json::Value>(text).unwrap()
}

fn repo(id: &str) -> Repository {
    Repository::from_search(RepositoryInfo::new(
        id.to_string(),
        format!("owner/{id}"),
        format!("https://github.com/owner/{id}"),
        String::new(),
        None,
        false,
        false,
        OffsetDateTime::from_unix_timestamp(1).unwrap(),
        OffsetDateTime::from_unix_timestamp(2).unwrap(),
        Languages::new(0, 0, Vec::new()),
        "from-search".to_string(),
    ))
}

fn checkout(id: &str, commit: Option<&str>, files: Vec<(&str, Option<&str>)>) -> Checkout {
    Checkout::new(
        id.to_string(),
        format!("owner/{id}"),
        commit.map(|c| c.to_string()),
        files
            .into_iter()
            .map(|(path, json)| DecodedConfig::new(path.to_string(), json.map(doc)).unwrap())
            .collect(),
    )
}

fn texts(values: &[SqlValue]) -> Vec<String> {
    values
        .iter()
        .map(|value| match value {
            SqlValue::Text(text) => text.clone(),
            SqlValue::Json(document) => document.to_string(),
            other => panic!("unexpected value {other:?}"),
        })
        .collect()
}

fn advance(state: Ingestion, event: IngestEvent) -> (Ingestion, IngestAction) {
    state.step(event)
}

fn expect_statement(action: IngestAction) -> Statement {
    match action {
        IngestAction::Execute(statement) => statement,
        other => panic!("expected a statement, got {other:?}"),
    }
}

fn expect_failure(action: IngestAction) -> StoreError {
    match action {
        IngestAction::Finish(Err(error)) => error,
        other => panic!("expected a failure, got {other:?}"),
    }
}

fn accumulating(checkouts: Vec<Checkout>) -> Ingestion {
    let (mut state, action) = advance(Ingestion::start(), IngestEvent::Opened(Ok(())));
    assert!(matches!(action, IngestAction::Continue));
    for checkout in checkouts {
        let (next, action) = advance(state, IngestEvent::Inspected(checkout));
        assert!(matches!(action, IngestAction::Continue));
        assert_eq!(next.phase(), Phase::Accumulating);
        state = next;
    }
    state
}

#[test]
fn only_the_resolved_checkout_is_written_and_stamped() {
    let mut batch = ConfigBatch::new();
    batch.accumulate(checkout("R_lost", None, vec![("rustfmt.toml", Some("{\"a\":1}"))]));
    batch.accumulate(checkout("R_found", Some("abc"), vec![("rustfmt.toml", Some("{\"b\":2}"))]));
    assert_eq!(batch.checked_out(), &vec!["R_found".to_string()]);
    assert_eq!(batch.rows().len(), 1);
    assert_eq!(batch.rows()[0].repository_id(), "R_found");
    assert_eq!(batch.rows()[0].latest_commit(), "abc");
    assert_eq!(batch.rows()[0].file_path(), "rustfmt.toml");
    assert_eq!(batch.rows()[0].config(), &doc("{\"b\":2}"));
    assert!(batch.rows().iter().all(|row| row.repository_id() != "R_lost"));

    let (insert, update) = batch.into_statements();
    let (insert, update) = (insert.unwrap(), update.unwrap());
    assert_eq!(texts(insert.arguments()), vec!["R_found", "abc", "rustfmt.toml", "{\"b\":2}"]);
    assert_eq!(texts(update.arguments()), vec!["R_found"]);
}

#[test]
fn undecoded_file_is_left_out_and_its_siblings_are_kept() {
    let mut batch = ConfigBatch::new();
    batch.accumulate(checkout(
        "R_1",
        Some("abc"),
        vec![
            ("rustfmt.toml", Some("{\"a\":1}")),
            ("bad/rustfmt.toml", None),
            ("sub/.rustfmt.toml", Some("{\"c\":3}")),
        ],
    ));
    assert_eq!(batch.checked_out(), &vec!["R_1".to_string()]);
    let paths = batch.rows().iter().map(|row| row.file_path().to_string()).collect::<Vec<_>>();
    assert_eq!(paths, vec!["rustfmt.toml", "sub/.rustfmt.toml"]);
}

#[test]
fn decoded_file_needs_a_relative_path() {
    assert!(DecodedConfig::new("/etc/rustfmt.toml".to_string(), Some(doc("{}"))).is_none());
    assert!(DecodedConfig::new("/".to_string(), None).is_none());
    assert!(DecodedConfig::new("etc/rustfmt.toml".to_string(), None).is_some());
}

#[test]
fn resolved_checkout_without_files_is_stamped() {
    let mut batch = ConfigBatch::new();
    batch.accumulate(checkout("R_1", Some("abc"), Vec::new()));
    batch.accumulate(checkout("R_2", Some("def"), vec![("rustfmt.toml", None)]));
    assert!(batch.rows().is_empty());
    assert_eq!(batch.checked_out(), &vec!["R_1".to_string(), "R_2".to_string()]);
}

#[test]
fn batch_statements_have_one_tuple_for_each_row() {
    let mut batch = ConfigBatch::new();
    batch.accumulate(checkout(
        "R_1",
        Some("abc"),
        vec![("rustfmt.toml", Some("{}")), ("sub/rustfmt.toml", Some("{\"x\":true}"))],
    ));
    batch.accumulate(checkout("R_2", Some("def"), vec![(".rustfmt.toml", Some("[1]"))]));
    let (insert, update) = batch.into_statements();
    let (insert, update) = (insert.unwrap(), update.unwrap());
    assert_eq!(
        insert.sql(),
        format!("{INSERT_CONFIGS}($1, $2, $3, $4),\n($5, $6, $7, $8),\n($9, $10, $11, $12){UPSERT_CONFIGS}")
    );
    assert!(insert.sql().starts_with("insert into rustfmt_configuration_files(\n    github_graphql_id,\n    latest_commit,\n    file_path,\n    config\n)\nvalues\n($1, "));
    assert!(insert.sql().ends_with("\non conflict on constraint rustfmt_configuration_files_pkey\ndo update set\nlatest_commit = excluded.latest_commit,\nconfig = excluded.config,\nrecord_last_updated = now();"));
    assert_eq!(
        texts(insert.arguments()),
        vec![
            "R_1", "abc", "rustfmt.toml", "{}",
            "R_1", "abc", "sub/rustfmt.toml", "{\"x\":true}",
            "R_2", "def", ".rustfmt.toml", "[1]",
        ]
    );
    assert_eq!(update.sql(), format!("{STAMP_REPOSITORIES}$1, $2)"));
    assert_eq!(
        update.sql(),
        "update github_repositories\nset last_git_cloned_at = now()\nwhere github_graphql_id in (\n$1, $2)"
    );
    assert_eq!(texts(update.arguments()), vec!["R_1", "R_2"]);
}

#[test]
fn file_that_comes_twice_is_written_once_with_what_came_last() {
    let mut batch = ConfigBatch::new();
    batch.accumulate(checkout(
        "R_1",
        Some("abc"),
        vec![
            ("rustfmt.toml", Some("{\"v\":1}")),
            ("sub/rustfmt.toml", Some("{\"v\":2}")),
            ("rustfmt.toml", Some("{\"v\":3}")),
        ],
    ));
    batch.accumulate(checkout("R_2", Some("def"), vec![("rustfmt.toml", Some("{\"v\":4}"))]));
    batch.accumulate(checkout("R_1", Some("xyz"), vec![("sub/rustfmt.toml", Some("{\"v\":5}"))]));
    assert_eq!(batch.rows().len(), 5);
    let (insert, update) = batch.into_statements();
    let (insert, update) = (insert.unwrap(), update.unwrap());
    assert_eq!(
        insert.sql(),
        format!("{INSERT_CONFIGS}($1, $2, $3, $4),\n($5, $6, $7, $8),\n($9, $10, $11, $12){UPSERT_CONFIGS}")
    );
    assert_eq!(
        texts(insert.arguments()),
        vec![
            "R_1", "abc", "rustfmt.toml", "{\"v\":3}",
            "R_1", "xyz", "sub/rustfmt.toml", "{\"v\":5}",
            "R_2", "def", "rustfmt.toml", "{\"v\":4}",
        ]
    );
    assert_eq!(update.sql(), format!("{STAMP_REPOSITORIES}$1, $2)"));
    assert_eq!(texts(update.arguments()), vec!["R_1", "R_2"]);
}

#[test]
fn ids_and_rows_are_merged_in_the_order_in_which_they_came_first() {
    let ids = ["b", "a", "b", "c", "a"].iter().map(|id| id.to_string()).collect::<Vec<_>>();
    assert_eq!(ConfigBatch::merge_ids(ids), vec!["b", "a", "c"]);
    assert!(ConfigBatch::merge_ids(Vec::new()).is_empty());
    assert!(ConfigBatch::merge_rows(Vec::new()).is_empty());
}

#[test]
fn batch_has_no_statement_for_what_it_lacks() {
    let (insert, update) = ConfigBatch::new().into_statements();
    assert!(insert.is_none());
    assert!(update.is_none());

    let mut stamped_only = ConfigBatch::new();
    stamped_only.accumulate(checkout("R_1", Some("abc"), vec![("rustfmt.toml", None)]));
    let (insert, update) = stamped_only.into_statements();
    assert!(insert.is_none());
    let update = update.unwrap();
    assert_eq!(update.sql(), format!("{STAMP_REPOSITORIES}$1)"));
    assert_eq!(texts(update.arguments()), vec!["R_1"]);

    let mut unresolved_only = ConfigBatch::new();
    unresolved_only.accumulate(checkout("R_1", None, vec![("rustfmt.toml", Some("{}"))]));
    let (insert, update) = unresolved_only.into_statements();
    assert!(insert.is_none());
    assert!(update.is_none());
}

#[test]
fn resolved_checkout_without_files_is_stamped_and_committed() {
    let state = accumulating(vec![checkout("R_1", Some("abc"), Vec::new())]);
    let (state, action) = advance(state, IngestEvent::EndOfInput);
    assert_eq!(state.phase(), Phase::Accumulating);
    let update = expect_statement(action);
    assert_eq!(update.sql(), format!("{STAMP_REPOSITORIES}$1)"));
    assert_eq!(texts(update.arguments()), vec!["R_1"]);
    let (state, action) = advance(state, IngestEvent::Executed(Ok(())));
    assert_eq!(state.phase(), Phase::Committing);
    assert!(matches!(action, IngestAction::Commit));
    let (state, action) = advance(state, IngestEvent::CommitDone(Ok(())));
    assert_eq!(state.phase(), Phase::Committed);
    assert!(matches!(action, IngestAction::Finish(Ok(()))));
}

#[test]
fn batch_with_nothing_to_write_is_committed_without_a_statement() {
    for checkouts in [Vec::new(), vec![checkout("R_1", None, vec![("rustfmt.toml", Some("{}"))])]] {
        let state = accumulating(checkouts);
        let (state, action) = advance(state, IngestEvent::EndOfInput);
        assert_eq!(state.phase(), Phase::Committing);
        assert!(matches!(action, IngestAction::Commit));
        let (state, action) = advance(state, IngestEvent::CommitDone(Ok(())));
        assert_eq!(state.phase(), Phase::Committed);
        assert!(matches!(action, IngestAction::Finish(Ok(()))));
    }
}

#[test]
fn failed_stamp_of_a_batch_without_rows_rolls_back() {
    let state = accumulating(vec![checkout("R_1", Some("abc"), Vec::new())]);
    let (state, action) = advance(state, IngestEvent::EndOfInput);
    let _update = expect_statement(action);
    let (state, action) = advance(state, IngestEvent::Executed(Err("timeout".to_string())));
    assert_eq!(state.phase(), Phase::Failing);
    assert!(matches!(action, IngestAction::Rollback));
    let (_, action) = advance(state, IngestEvent::RollbackDone(Ok(())));
    let error = expect_failure(action);
    assert_eq!(error.step(), FailedStep::Update);
    assert_eq!(error.cause(), "timeout");
}

#[test]
fn checkouts_are_inspected_and_gathered_in_order() {
    let first = repo("R_1");
    let second = repo("R_2");
    let third = repo("R_3");
    let pairs = vec![
        (
            &first,
            ClonedRepo::new(
                "https://github.com/owner/R_1.git",
                "/tmp/one".to_string(),
                Some("aaa".to_string()),
                vec![
                    CandidateFile::new("/tmp/one/rustfmt.toml".to_string(), Some("max_width = 90".to_string())),
                    CandidateFile::new("/tmp/one/x/rustfmt.toml".to_string(), Some("= broken".to_string())),
                ],
            ),
        ),
        (
            &second,
            ClonedRepo::new(
                "https://github.com/owner/R_2.git",
                "/tmp/two".to_string(),
                None,
                vec![CandidateFile::new("/tmp/two/rustfmt.toml".to_string(), Some("max_width = 70".to_string()))],
            ),
        ),
        (
            &third,
            ClonedRepo::new(
                "https://github.com/owner/R_3.git",
                "/tmp/three".to_string(),
                Some("ccc".to_string()),
                vec![CandidateFile::new("/tmp/three/.rustfmt.toml".to_string(), Some("tab_spaces = 2".to_string()))],
            ),
        ),
    ];
    let batch = store_rustfmt_configs(&pairs);
    assert_eq!(batch.checked_out(), &vec!["R_1".to_string(), "R_3".to_string()]);
    assert_eq!(batch.rows().len(), 2);
    assert_eq!(batch.rows()[0].repository_id(), "R_1");
    assert_eq!(batch.rows()[0].latest_commit(), "aaa");
    assert_eq!(batch.rows()[0].file_path(), "rustfmt.toml");
    assert_eq!(batch.rows()[0].config(), &doc("{\"max_width\":90}"));
    assert_eq!(batch.rows()[1].repository_id(), "R_3");
    assert_eq!(batch.rows()[1].latest_commit(), "ccc");
    assert_eq!(batch.rows()[1].file_path(), ".rustfmt.toml");
    assert_eq!(batch.rows()[1].config(), &doc("{\"tab_spaces\":2}"));
}

#[test]
fn inspection_decodes_each_config() {
    let repository = repo("R_1");
    let cloned = ClonedRepo::new(
        "u",
        "/tmp/one".to_string(),
        Some("aaa".to_string()),
        vec![CandidateFile::new("/tmp/one/rustfmt.toml".to_string(), Some("a = 1".to_string()))],
    );
    let mut batch = ConfigBatch::new();
    batch.accumulate(Checkout::inspect(&repository, &cloned));
    assert_eq!(batch.rows().len(), 1);
    assert_eq!(batch.rows()[0].config(), &doc("{\"a\":1}"));

    let config = RustfmtConfig::new("p.toml".to_string(), toml::from_str::<toml::Value>("b = [1, 2]").unwrap()).unwrap();
    let mut batch = ConfigBatch::new();
    batch.accumulate(Checkout::new(
        "R_9".to_string(),
        "owner/R_9".to_string(),
        Some("fff".to_string()),
        vec![DecodedConfig::decode(&config)],
    ));
    assert_eq!(batch.rows()[0].file_path(), "p.toml");
    assert_eq!(batch.rows()[0].config(), &doc("{\"b\":[1,2]}"));
}

#[test]
fn batch_is_committed_when_both_statements_ran() {
    let state = Ingestion::start();
    assert_eq!(state.phase(), Phase::Open);
    let state = accumulating(vec![
        checkout("R_1", Some("abc"), vec![("rustfmt.toml", Some("{}"))]),
        checkout("R_2", None, Vec::new()),
    ]);
    let (state, action) = advance(state, IngestEvent::EndOfInput);
    assert_eq!(state.phase(), Phase::Accumulating);
    let insert = expect_statement(action);
    assert_eq!(insert.sql(), format!("{INSERT_CONFIGS}($1, $2, $3, $4){UPSERT_CONFIGS}"));

    let (state, action) = advance(state, IngestEvent::Executed(Ok(())));
    assert_eq!(state.phase(), Phase::Accumulating);
    let update = expect_statement(action);
    assert_eq!(update.sql(), format!("{STAMP_REPOSITORIES}$1)"));
    assert_eq!(texts(update.arguments()), vec!["R_1"]);

    let (state, action) = advance(state, IngestEvent::Executed(Ok(())));
    assert_eq!(state.phase(), Phase::Committing);
    assert!(matches!(action, IngestAction::Commit));

    let (state, action) = advance(state, IngestEvent::CommitDone(Ok(())));
    assert_eq!(state.phase(), Phase::Committed);
    assert!(matches!(action, IngestAction::Finish(Ok(()))));

    let (state, action) = advance(state, IngestEvent::Executed(Ok(())));
    assert_eq!(state.phase(), Phase::Committed);
    assert!(matches!(action, IngestAction::Finish(Ok(()))));
}

#[test]
fn failed_insert_rolls_back_and_the_update_never_runs() {
    let stamped_before = vec![("R_1".to_string(), None::<u32>)];
    let mut stamped = stamped_before.clone();
    let mut working = stamped.clone();
    let mut statements_run = 0;

    let state = accumulating(vec![checkout("R_1", Some("abc"), vec![("rustfmt.toml", Some("{}"))])]);
    let (state, action) = advance(state, IngestEvent::EndOfInput);
    let _insert = expect_statement(action);
    statements_run += 1;

    let (mut state, mut action) =
        advance(state, IngestEvent::Executed(Err("duplicate key".to_string())));
    assert_eq!(state.phase(), Phase::Failing);
    let mut outcome = None;
    for _ in 0..10 {
        match action {
            IngestAction::Execute(_) => {
                statements_run += 1;
                working[0].1 = Some(1);
                let next = advance(state, IngestEvent::Executed(Ok(())));
                state = next.0;
                action = next.1;
            }
            IngestAction::Commit => {
                stamped = working.clone();
                let next = advance(state, IngestEvent::CommitDone(Ok(())));
                state = next.0;
                action = next.1;
            }
            IngestAction::Rollback => {
                working = stamped.clone();
                let next = advance(state, IngestEvent::RollbackDone(Ok(())));
                state = next.0;
                action = next.1;
            }
            IngestAction::Finish(result) => {
                outcome = Some(result);
                break;
            }
            IngestAction::Continue => panic!("the input has ended"),
        }
    }
    let error = outcome.unwrap().unwrap_err();
    assert_eq!(error.step(), FailedStep::Insert);
    assert_eq!(error.cause(), "duplicate key");
    assert_eq!(error.rollback(), None);
    assert_eq!(error.context(), "Failed to store rustfmt.toml files in the database");
    assert_eq!(state.phase(), Phase::RolledBack);
    assert_eq!(statements_run, 1);
    assert_eq!(stamped, stamped_before);
    assert_eq!(working, stamped_before);
}

#[test]
fn failed_update_rolls_back() {
    let state = accumulating(vec![checkout("R_1", Some("abc"), vec![("rustfmt.toml", Some("{}"))])]);
    let (state, _) = advance(state, IngestEvent::EndOfInput);
    let (state, _) = advance(state, IngestEvent::Executed(Ok(())));
    let (state, action) = advance(state, IngestEvent::Executed(Err("deadlock".to_string())));
    assert_eq!(state.phase(), Phase::Failing);
    assert!(matches!(action, IngestAction::Rollback));
    let (state, action) = advance(state, IngestEvent::RollbackDone(Ok(())));
    assert_eq!(state.phase(), Phase::RolledBack);
    let error = expect_failure(action);
    assert_eq!(error.step(), FailedStep::Update);
    assert_eq!(error.cause(), "deadlock");

    let (state, action) = advance(state, IngestEvent::CommitDone(Ok(())));
    assert_eq!(state.phase(), Phase::RolledBack);
    assert_eq!(expect_failure(action).step(), FailedStep::Update);
}

#[test]
fn failed_rollback_is_reported_with_both_causes() {
    let state = accumulating(vec![checkout("R_1", Some("abc"), vec![("rustfmt.toml", Some("{}"))])]);
    let (state, _) = advance(state, IngestEvent::EndOfInput);
    let (state, action) = advance(state, IngestEvent::Executed(Err("syntax error".to_string())));
    assert!(matches!(action, IngestAction::Rollback));
    let (state, action) = advance(state, IngestEvent::RollbackDone(Err("connection lost".to_string())));
    assert_eq!(state.phase(), Phase::RolledBack);
    let error = expect_failure(action);
    assert_eq!(error.step(), FailedStep::Insert);
    assert_eq!(error.cause(), "syntax error");
    assert_eq!(error.rollback(), Some("connection lost"));
    assert_eq!(error.context(), "Failed to rollback transaction");
    let copy = error.clone();
    assert_eq!(copy.cause(), "syntax error");
    assert_eq!(copy.rollback(), Some("connection lost"));
}

#[test]
fn failed_commit_is_reported() {
    let state = accumulating(vec![checkout("R_1", Some("abc"), vec![("rustfmt.toml", Some("{}"))])]);
    let (state, _) = advance(state, IngestEvent::EndOfInput);
    let (state, _) = advance(state, IngestEvent::Executed(Ok(())));
    let (state, _) = advance(state, IngestEvent::Executed(Ok(())));
    let (state, action) = advance(state, IngestEvent::CommitDone(Err("disk full".to_string())));
    assert_eq!(state.phase(), Phase::RolledBack);
    let error = expect_failure(action);
    assert_eq!(error.step(), FailedStep::Commit);
    assert_eq!(error.cause(), "disk full");
    assert_eq!(error.context(), "Failed to commit transaction");
}

#[test]
fn transaction_that_cannot_be_opened_writes_nothing() {
    let (state, action) = advance(Ingestion::start(), IngestEvent::Opened(Err("refused".to_string())));
    assert_eq!(state.phase(), Phase::RolledBack);
    let error = expect_failure(action);
    assert_eq!(error.step(), FailedStep::Open);
    assert_eq!(error.cause(), "refused");
    assert_eq!(error.context(), "Failed to open transaction");
    let (state, action) =
        advance(state, IngestEvent::Inspected(checkout("R_1", Some("abc"), Vec::new())));
    assert_eq!(state.phase(), Phase::RolledBack);
    assert_eq!(expect_failure(action).step(), FailedStep::Open);
}

#[test]
fn outcome_out_of_turn_rolls_an_open_transaction_back() {
    let (state, action) = advance(Ingestion::start(), IngestEvent::EndOfInput);
    assert_eq!(state.phase(), Phase::Open);
    let error = expect_failure(action);
    assert_eq!(error.step(), FailedStep::OutOfTurn);
    assert_eq!(error.cause(), "an outcome was reported out of turn");
    assert_eq!(error.context(), "Failed to follow the transaction");

    let (state, action) = advance(accumulating(Vec::new()), IngestEvent::CommitDone(Ok(())));
    assert_eq!(state.phase(), Phase::Failing);
    assert!(matches!(action, IngestAction::Rollback));
    let (state, action) = advance(state, IngestEvent::Executed(Ok(())));
    assert_eq!(state.phase(), Phase::Failing);
    assert!(matches!(action, IngestAction::Rollback));
    let (state, action) = advance(state, IngestEvent::RollbackDone(Ok(())));
    assert_eq!(state.phase(), Phase::RolledBack);
    assert_eq!(expect_failure(action).step(), FailedStep::OutOfTurn);
}

#[test]
fn failed_store_is_reported_with_its_cause() {
    assert!(store_in_db_outcome(None).is_ok());
    assert!(store_in_db_outcome(Some(Ok(()))).is_ok());
    let error = store_in_db_outcome(Some(Err("connection reset".to_string()))).unwrap_err();
    assert_eq!(error.step(), FailedStep::Store);
    assert_eq!(error.cause(), "connection reset");
    assert_eq!(error.rollback(), None);
    assert_eq!(error.context(), "Failed to store in the database");
    let made = StoreError::new(FailedStep::Update, "x".to_string());
    assert_eq!(made.step(), FailedStep::Update);
    assert_eq!(made.context(), "Failed to store rustfmt.toml files in the database");
}
