//! Reading back the repositories whose checkouts are to be inspected next.

use vstd::prelude::*;
use crate::database::repository::GitRepository;
use crate::database::statement::{
    values_view, SqlValue, SqlValueView, Statement, StatementView,
};
use crate::database::store::records_of;
use crate::github::graphql::RepositoryRecord;
use crate::github::Repository;

verus! {

/// The query that selects the repositories to check out: those that can be
/// cloned and are no fork, not locked and not archived; the ones whose record
/// was refreshed longest ago come first, so that none is passed over for
/// ever; at most as many as the one placeholder says.
pub const LOOKUP_REPOSITORIES: &'static str =
    "select\n    github_graphql_id as id,\n    repo_name as name_with_owner,\n    git_url,\n    percent_of_code_in_rust,\n    latest_commit as commit_hash,\n    is_fork,\n    is_locked,\n    archived_at,\n    pushed_at,\n    updated_at\nfrom github_repositories\nwhere can_clone_repo\n    and not is_fork\n    and not is_locked\n    and archived_at is null\norder by record_last_updated\nlimit $1;\n";

/// The query for at most `limit` repositories.
pub open spec fn lookup_statement(limit: int) -> StatementView {
    StatementView { sql: LOOKUP_REPOSITORIES@, arguments: seq![SqlValueView::Integer(limit)] }
}

/// Builds the query for at most `limit` repositories to check out.
pub fn lookup_repositories(limit: i32) -> (statement: Statement)
    ensures
        statement@ == lookup_statement(limit as int),
{
    let mut arguments: Vec<SqlValue> = Vec::new();
    arguments.push(SqlValue::Integer(limit));
    assert(values_view(arguments@) =~= seq![SqlValueView::Integer(limit as int)]);
    Statement::with_arguments(LOOKUP_REPOSITORIES, arguments)
}

/// What the rows say.
pub open spec fn rows_of(rows: Seq<GitRepository>) -> Seq<RepositoryRecord> {
    rows.map_values(|row: GitRepository| row@)
}

/// The repositories that the rows of the answer stand for, in the order of the
/// rows.
pub fn repositories_from_rows(rows: Vec<GitRepository>) -> (repositories: Vec<Repository>)
    ensures
        records_of(repositories@) == rows_of(rows@),
{
    let ghost all = rows@;
    let n: usize = rows.len();
    let mut stack: Vec<GitRepository> = crate::vectors::reversed(rows);
    let mut repositories: Vec<Repository> = Vec::new();
    let mut i: usize = 0;
    while i < n
        invariant
            i <= n,
            n == all.len(),
            stack@.len() == n - i,
            forall|j: int| 0 <= j < stack@.len() ==> stack@[j] == all[n - 1 - j],
            repositories@.len() == i,
            forall|j: int| 0 <= j < i ==> (#[trigger] repositories@[j])@ == all[j]@,
        decreases n - i,
    {
        let row = stack.pop().unwrap();
        repositories.push(Repository::from_row(row));
        i = i + 1;
    }
    assert(records_of(repositories@) =~= rows_of(all));
    repositories
}

} // verus!
