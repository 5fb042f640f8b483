//! Writing to the store: the statement that upserts repositories, and the batch
//! that adds the configuration files of checkouts.

use vstd::prelude::*;
use vstd::string::*;
use vstd::pervasive::VecAdditionalExecFns;
use crate::database::merge::{
    index_of_key, keys_differ, laid_over, lemma_index_of_key, lemma_index_of_key_is_first,
    lemma_merged, lemma_merged_into_is_of_the_rows, merged, merged_into,
};
use crate::database::statement::{
    tuples_view, values_view, SqlValue, SqlValueView, Statement, StatementView,
};
use crate::database::model::{
    ids_differ, lemma_merged_by_id, merge_by_id, merged_by_id, upsert_all,
};
use crate::git::{ClonedRepo, ClonedRepoView};
use crate::github::graphql::RepositoryRecord;
use crate::github::Repository;
use crate::rustfmt_toml::{
    configs_of, configs_view, is_absolute, json_of, starts_at_root, RustfmtConfig,
    RustfmtConfigView,
};
use crate::text::same_text;
use crate::vectors::reversed;

verus! {

/// The head of the statement that upserts repositories: the table and its
/// columns, in the order in which each row gives its values.
pub const INSERT_REPOSITORIES: &'static str =
    "insert into github_repositories(\n    github_graphql_id,\n    repo_name,\n    git_url,\n    is_fork,\n    is_locked,\n    latest_commit,\n    percent_of_code_in_rust,\n    archived_at,\n    pushed_at,\n    updated_at\n)\n";

/// The end of the statement that upserts repositories: a row whose id is
/// stored already overwrites every other column of the stored row, and the
/// row is stamped with the time of the write.
pub const UPSERT_REPOSITORIES: &'static str =
    "\n        on conflict on constraint github_repositories_pkey\n        do update set\n        repo_name = excluded.repo_name,\n        git_url = excluded.git_url,\n        is_fork = excluded.is_fork,\n        is_locked = excluded.is_locked,\n        latest_commit = excluded.latest_commit,\n        percent_of_code_in_rust = excluded.percent_of_code_in_rust,\n        archived_at = excluded.archived_at,\n        pushed_at = excluded.pushed_at,\n        updated_at = excluded.updated_at,\n        record_last_updated = now();";

/// The values of one repository, in the order of the columns.
pub open spec fn repository_tuple(record: RepositoryRecord) -> Seq<SqlValueView> {
    seq![
        SqlValueView::Text(record.id),
        SqlValueView::Text(record.name_with_owner),
        SqlValueView::Text(record.git_url),
        SqlValueView::Flag(record.is_fork),
        SqlValueView::Flag(record.is_locked),
        SqlValueView::Text(record.commit_hash),
        SqlValueView::Percent(record.percent_of_code_in_rust),
        SqlValueView::OptionalMoment(record.archived_at),
        SqlValueView::Moment(record.pushed_at),
        SqlValueView::Moment(record.updated_at),
    ]
}

/// The tuples of several repositories, in their order.
pub open spec fn repository_tuples(records: Seq<RepositoryRecord>) -> Seq<Seq<SqlValueView>> {
    records.map_values(|record: RepositoryRecord| repository_tuple(record))
}

/// The statement that upserts the rows `records`: a tuple for each, in their
/// order.
pub open spec fn upsert_statement(records: Seq<RepositoryRecord>) -> StatementView {
    StatementView::new(INSERT_REPOSITORIES@).push("VALUES "@).push_tuples(
        repository_tuples(records),
        ", "@,
    ).push(UPSERT_REPOSITORIES@)
}

/// What is to be run to store `records`: nothing where there are none, and
/// otherwise the one statement that upserts them, merged by id so that no row
/// is written twice.
pub open spec fn store_in_db_statement(records: Seq<RepositoryRecord>) -> Option<StatementView> {
    if records.len() == 0 {
        None
    } else {
        Some(upsert_statement(merged_by_id(records)))
    }
}

/// What the repositories say.
pub open spec fn records_of(repositories: Seq<Repository>) -> Seq<RepositoryRecord> {
    repositories.map_values(|repository: Repository| repository@)
}

/// The values of one repository, in the order of the columns.
pub fn repository_values(repository: &Repository) -> (values: Vec<SqlValue>)
    ensures
        values_view(values@) == repository_tuple(repository@),
{
    let mut values: Vec<SqlValue> = Vec::new();
    values.push(SqlValue::Text(String::from_str(repository.id())));
    values.push(SqlValue::Text(String::from_str(repository.name_with_owner())));
    values.push(SqlValue::Text(String::from_str(repository.git_url())));
    values.push(SqlValue::Flag(repository.is_fork()));
    values.push(SqlValue::Flag(repository.is_locked()));
    values.push(SqlValue::Text(String::from_str(repository.commit_hash())));
    values.push(SqlValue::Percent(repository.percent_of_code_in_rust()));
    values.push(SqlValue::OptionalMoment(repository.archived_at()));
    values.push(SqlValue::Moment(repository.pushed_at()));
    values.push(SqlValue::Moment(repository.updated_at()));
    assert(values_view(values@) =~= repository_tuple(repository@));
    values
}

/// Builds the one statement that stores the repositories: a multi-row insert
/// that, for an id that is stored already, overwrites the stored row.
///
/// Without repositories there is nothing to run. Repositories that share an
/// id are merged first, last wins, since one statement cannot write one row
/// twice; every id gives one row, in the order in which the ids came.
pub fn store_in_db(repositories: &Vec<Repository>) -> (statement: Option<Statement>)
    ensures
        match statement {
            Some(built) => store_in_db_statement(records_of(repositories@)) == Some(built@),
            None => store_in_db_statement(records_of(repositories@)).is_none(),
        },
{
    if repositories.len() == 0 {
        return None;
    }
    let merged = merge_by_id(repositories);
    let ghost records = records_of(merged@);
    let mut tuples: Vec<Vec<SqlValue>> = Vec::new();
    let mut i: usize = 0;
    assert(tuples_view(tuples@) =~= repository_tuples(records.take(0)));
    while i < merged.len()
        invariant
            i <= merged.len(),
            records == records_of(merged@),
            tuples_view(tuples@) == repository_tuples(records.take(i as int)),
        decreases merged.len() - i,
    {
        let values = repository_values(&merged[i]);
        let ghost before = tuples@;
        tuples.push(values);
        proof {
            assert(tuples_view(tuples@) =~= tuples_view(before).push(values_view(values@)));
            assert(records.take(i + 1) =~= records.take(i as int).push(records[i as int]));
            assert(repository_tuples(records.take(i + 1)) =~= repository_tuples(
                records.take(i as int),
            ).push(repository_tuple(records[i as int])));
        }
        i = i + 1;
    }
    assert(records.take(i as int) =~= records);
    let mut statement = Statement::new(INSERT_REPOSITORIES);
    statement.push("VALUES ");
    statement.push_tuples(tuples, ", ");
    statement.push(UPSERT_REPOSITORIES);
    Some(statement)
}

/// The statement that upserts rows binds ten values for each, in the order of
/// the rows: the values of the `i`-th row stand at the positions from
/// `10 * i`.
pub proof fn lemma_upsert_statement_arguments(records: Seq<RepositoryRecord>, i: int)
    requires
        0 <= i < records.len(),
    ensures
        upsert_statement(records).arguments.len() == 10 * records.len(),
        upsert_statement(records).arguments.subrange(10 * i, 10 * i + 10) == repository_tuple(
            records[i],
        ),
{
    let base = StatementView::new(INSERT_REPOSITORIES@).push("VALUES "@);
    crate::database::statement::lemma_push_tuples_arguments(
        base,
        repository_tuples(records),
        ", "@,
    );
    assert(base.arguments + repository_tuples(records).flatten() =~= repository_tuples(
        records,
    ).flatten());
    lemma_flatten_uniform(repository_tuples(records), 10, i);
}

/// What the statement that stores records writes, and what it leaves.
///
/// For records that are not none there is a statement. It has a tuple for
/// each id among the records and binds no id twice; the tuple of an id holds
/// the values of the last record with that id. Upserted into any table, its
/// rows leave what the records would leave if they were upserted one after
/// the other.
pub proof fn lemma_store_in_db_writes_each_id_once(
    table: Map<Seq<char>, RepositoryRecord>,
    records: Seq<RepositoryRecord>,
)
    requires
        records.len() > 0,
    ensures
        store_in_db_statement(records) == Some(upsert_statement(merged_by_id(records))),
        merged_by_id(records).len() > 0,
        ids_differ(merged_by_id(records)),
        upsert_statement(merged_by_id(records)).arguments.len() == 10 * merged_by_id(
            records,
        ).len(),
        forall|i: int|
            0 <= i < merged_by_id(records).len() ==> upsert_statement(
                merged_by_id(records),
            ).arguments.subrange(10 * i, 10 * i + 10) == repository_tuple(
                #[trigger] merged_by_id(records)[i],
            ),
        upsert_all(table, merged_by_id(records)) == upsert_all(table, records),
{
    lemma_merged_by_id(table, records);
    assert forall|i: int| 0 <= i < merged_by_id(records).len() implies upsert_statement(
        merged_by_id(records),
    ).arguments.subrange(10 * i, 10 * i + 10) == repository_tuple(
        #[trigger] merged_by_id(records)[i],
    ) by {
        lemma_upsert_statement_arguments(merged_by_id(records), i);
    }
    lemma_upsert_statement_arguments(merged_by_id(records), 0);
}

/// In a sequence of sequences that all have `width` items, flattened, the
/// `i`-th of them stands at the positions from `width * i`.
pub proof fn lemma_flatten_uniform<T>(parts: Seq<Seq<T>>, width: nat, i: int)
    requires
        forall|j: int| 0 <= j < parts.len() ==> (#[trigger] parts[j]).len() == width,
        0 <= i < parts.len(),
    ensures
        parts.flatten().len() == width * parts.len(),
        parts.flatten().subrange(width * i, width * i + width) == parts[i],
    decreases parts.len(),
{
    let front = parts.drop_last();
    assert(parts =~= front.push(parts.last()));
    front.lemma_flatten_push(parts.last());
    assert(width * parts.len() == width * front.len() + width) by (nonlinear_arith)
        requires
            parts.len() == front.len() + 1,
    ;
    if front.len() == 0 {
        assert(front.flatten() =~= Seq::empty());
        assert(width * front.len() == 0) by (nonlinear_arith)
            requires
                front.len() == 0,
        ;
        assert(width * i == 0) by (nonlinear_arith)
            requires
                i == 0,
        ;
        assert(parts.flatten().subrange(0, width as int) =~= parts[0]);
    } else {
        assert forall|j: int| 0 <= j < front.len() implies (#[trigger] front[j]).len()
            == width by {
            assert(front[j] == parts[j]);
        }
        if i < front.len() {
            lemma_flatten_uniform(front, width, i);
            assert(width * i + width <= width * front.len()) by (nonlinear_arith)
                requires
                    i + 1 <= front.len(),
            ;
            assert(parts.flatten().subrange(width * i, width * i + width)
                =~= front.flatten().subrange(width * i, width * i + width));
        } else {
            lemma_flatten_uniform(front, width, 0);
            assert(width * i == width * front.len()) by (nonlinear_arith)
                requires
                    i == front.len(),
            ;
            assert(parts.flatten().subrange(width * i, width * i + width) =~= parts[i]);
        }
    }
}

/// The head of the statement that upserts configuration files.
pub const INSERT_CONFIGS: &'static str =
    "insert into rustfmt_configuration_files(\n    github_graphql_id,\n    latest_commit,\n    file_path,\n    config\n)\nvalues\n";

/// The end of the statement that upserts configuration files: a file that is
/// stored already for its repository gets the new commit and the new content,
/// and is stamped with the time of the write.
pub const UPSERT_CONFIGS: &'static str =
    "\non conflict on constraint rustfmt_configuration_files_pkey\ndo update set\nlatest_commit = excluded.latest_commit,\nconfig = excluded.config,\nrecord_last_updated = now();";

/// The head of the statement that stamps repositories as checked out.
pub const STAMP_REPOSITORIES: &'static str =
    "update github_repositories\nset last_git_cloned_at = now()\nwhere github_graphql_id in (\n";

/// What a [`DecodedConfig`] holds.
pub struct DecodedConfigView {
    pub relative_path: Seq<char>,
    pub json: Option<serde_json::Value>,
}

/// A configuration file after the attempt to decode it.
#[derive(Debug)]
pub struct DecodedConfig {
    relative_path: String,
    json: Option<serde_json::Value>,
}

impl View for DecodedConfig {
    type V = DecodedConfigView;

    closed spec fn view(&self) -> DecodedConfigView {
        DecodedConfigView { relative_path: self.relative_path@, json: self.json }
    }
}

impl DecodedConfig {
    #[verifier::type_invariant]
    spec fn lies_in_checkout(&self) -> bool {
        !is_absolute(self.relative_path@)
    }

    /// The file at `relative_path` in its checkout, with its content as a
    /// document, or without one where the content could not be decoded. A
    /// path that is absolute gives none.
    pub fn new(relative_path: String, json: Option<serde_json::Value>) -> (decoded: Option<
        DecodedConfig,
    >)
        ensures
            match decoded {
                Some(d) => !is_absolute(relative_path@) && d@ == (DecodedConfigView {
                    relative_path: relative_path@,
                    json,
                }),
                None => is_absolute(relative_path@),
            },
    {
        if starts_at_root(relative_path.as_str()) {
            None
        } else {
            Some(DecodedConfig { relative_path, json })
        }
    }

    /// Decodes a configuration file.
    pub fn decode(config: &RustfmtConfig) -> (decoded: DecodedConfig)
        ensures
            decoded@ == decoded_of(config@),
    {
        let json = match config.to_json() {
            Ok(document) => Some(document),
            Err(_) => None,
        };
        DecodedConfig { relative_path: String::from_str(config.relative_path()), json }
    }
}

/// A configuration file after the attempt to decode it.
pub open spec fn decoded_of(config: RustfmtConfigView) -> DecodedConfigView {
    DecodedConfigView { relative_path: config.file_path, json: json_of(config.toml) }
}

/// What the decoded files hold.
pub open spec fn decoded_view(files: Seq<DecodedConfig>) -> Seq<DecodedConfigView> {
    files.map_values(|file: DecodedConfig| file@)
}

/// What a [`Checkout`] holds.
pub struct CheckoutView {
    pub repository_id: Seq<char>,
    pub name_with_owner: Seq<char>,
    pub commit: Option<Seq<char>>,
    pub files: Seq<DecodedConfigView>,
}

/// What the inspection of one checkout gave: the repository, the commit that
/// is checked out, where it could be told, and the configuration files.
#[derive(Debug)]
pub struct Checkout {
    repository_id: String,
    name_with_owner: String,
    commit: Option<String>,
    files: Vec<DecodedConfig>,
}

impl View for Checkout {
    type V = CheckoutView;

    closed spec fn view(&self) -> CheckoutView {
        CheckoutView {
            repository_id: self.repository_id@,
            name_with_owner: self.name_with_owner@,
            commit: match self.commit {
                Some(commit) => Some(commit@),
                None => None,
            },
            files: decoded_view(self.files@),
        }
    }
}

/// What the inspection of the checkout `cloned` of `repository` gives. Without
/// a commit the files are not looked at.
pub open spec fn checkout_of(repository: RepositoryRecord, cloned: ClonedRepoView) -> CheckoutView {
    CheckoutView {
        repository_id: repository.id,
        name_with_owner: repository.name_with_owner,
        commit: cloned.head,
        files: match cloned.head {
            Some(_) => configs_of(cloned.candidates, cloned.directory).map_values(
                |config: RustfmtConfigView| decoded_of(config),
            ),
            None => Seq::empty(),
        },
    }
}

impl Checkout {
    pub fn new(
        repository_id: String,
        name_with_owner: String,
        commit: Option<String>,
        files: Vec<DecodedConfig>,
    ) -> (checkout: Checkout)
        ensures
            checkout@ == (CheckoutView {
                repository_id: repository_id@,
                name_with_owner: name_with_owner@,
                commit: match commit {
                    Some(c) => Some(c@),
                    None => None,
                },
                files: decoded_view(files@),
            }),
    {
        Checkout { repository_id, name_with_owner, commit, files }
    }

    /// Inspects the checkout of a repository: finds the commit and, where
    /// there is one, the configuration files, and decodes each of them.
    pub fn inspect(repository: &Repository, cloned: &ClonedRepo) -> (checkout: Checkout)
        ensures
            checkout@ == checkout_of(repository@, cloned@),
    {
        let repository_id = String::from_str(repository.id());
        let name_with_owner = String::from_str(repository.name_with_owner());
        let mut files: Vec<DecodedConfig> = Vec::new();
        let commit = match cloned.head() {
            Some(commit) => commit,
            None => {
                assert(decoded_view(files@) =~= Seq::empty());
                return Checkout { repository_id, name_with_owner, commit: None, files };
            },
        };
        let configs = cloned.find_rustfmt_configs();
        let ghost found = configs_view(configs@);
        let mut i: usize = 0;
        while i < configs.len()
            invariant
                i <= configs.len(),
                found == configs_view(configs@),
                files@.len() == i,
                forall|j: int| 0 <= j < i ==> (#[trigger] files@[j])@ == decoded_of(found[j]),
            decreases configs.len() - i,
        {
            files.push(DecodedConfig::decode(&configs[i]));
            i = i + 1;
        }
        assert(decoded_view(files@) =~= found.map_values(
            |config: RustfmtConfigView| decoded_of(config),
        ));
        Checkout { repository_id, name_with_owner, commit: Some(commit), files }
    }
}

/// One row of the table of configuration files.
pub struct ConfigRowView {
    pub repository_id: Seq<char>,
    pub latest_commit: Seq<char>,
    pub file_path: Seq<char>,
    pub config: serde_json::Value,
}

/// One row of the table of configuration files.
#[derive(Debug)]
pub struct ConfigRow {
    repository_id: String,
    latest_commit: String,
    file_path: String,
    config: serde_json::Value,
}

impl View for ConfigRow {
    type V = ConfigRowView;

    closed spec fn view(&self) -> ConfigRowView {
        ConfigRowView {
            repository_id: self.repository_id@,
            latest_commit: self.latest_commit@,
            file_path: self.file_path@,
            config: self.config,
        }
    }
}

impl ConfigRow {
    #[verifier::type_invariant]
    spec fn lies_in_checkout(&self) -> bool {
        !is_absolute(self.file_path@)
    }

    pub fn repository_id(&self) -> (id: &str)
        ensures
            id@ == self@.repository_id,
    {
        self.repository_id.as_str()
    }

    pub fn latest_commit(&self) -> (commit: &str)
        ensures
            commit@ == self@.latest_commit,
    {
        self.latest_commit.as_str()
    }

    /// Where the file lies in its checkout. The path is never absolute.
    pub fn file_path(&self) -> (path: &str)
        ensures
            path@ == self@.file_path,
            !is_absolute(path@),
    {
        proof {
            use_type_invariant(self);
        }
        self.file_path.as_str()
    }

    pub fn config(&self) -> (config: &serde_json::Value)
        ensures
            *config == self@.config,
    {
        &self.config
    }

    /// The values of the row, in the order of the columns.
    pub fn into_values(self) -> (values: Vec<SqlValue>)
        ensures
            values_view(values@) == config_tuple(self@),
    {
        let mut values: Vec<SqlValue> = Vec::new();
        values.push(SqlValue::Text(self.repository_id));
        values.push(SqlValue::Text(self.latest_commit));
        values.push(SqlValue::Text(self.file_path));
        values.push(SqlValue::Json(self.config));
        assert(values_view(values@) =~= config_tuple(self@));
        values
    }
}

/// What the rows hold.
pub open spec fn rows_view(rows: Seq<ConfigRow>) -> Seq<ConfigRowView> {
    rows.map_values(|row: ConfigRow| row@)
}

/// The rows that the decoded files of one checkout give, for the repository
/// `id` at `commit`: one for each file that could be decoded, in the files'
/// order. A file that could not be decoded gives none.
pub open spec fn rows_for(
    id: Seq<char>,
    commit: Seq<char>,
    files: Seq<DecodedConfigView>,
) -> Seq<ConfigRowView>
    decreases files.len(),
{
    if files.len() == 0 {
        Seq::empty()
    } else {
        let before = rows_for(id, commit, files.drop_last());
        match files.last().json {
            Some(document) => before.push(
                ConfigRowView {
                    repository_id: id,
                    latest_commit: commit,
                    file_path: files.last().relative_path,
                    config: document,
                },
            ),
            None => before,
        }
    }
}

impl CheckoutView {
    /// The rows that this checkout gives: none without a commit.
    pub open spec fn rows(self) -> Seq<ConfigRowView> {
        match self.commit {
            Some(commit) => rows_for(self.repository_id, commit, self.files),
            None => Seq::empty(),
        }
    }

    /// The repositories that this checkout stamps as checked out: its own,
    /// if the commit could be told.
    pub open spec fn stamped(self) -> Seq<Seq<char>> {
        match self.commit {
            Some(_) => seq![self.repository_id],
            None => Seq::empty(),
        }
    }
}

/// What a [`ConfigBatch`] holds.
pub struct ConfigBatchView {
    /// The rows to write, in the order in which they were found.
    pub rows: Seq<ConfigRowView>,
    /// The ids of the repositories to stamp as checked out.
    pub checked_out: Seq<Seq<char>>,
}

impl ConfigBatchView {
    /// A batch with nothing in it.
    pub open spec fn empty() -> ConfigBatchView {
        ConfigBatchView { rows: Seq::empty(), checked_out: Seq::empty() }
    }

    /// The batch with what one checkout gives added to it.
    pub open spec fn accumulate(self, checkout: CheckoutView) -> ConfigBatchView {
        ConfigBatchView {
            rows: self.rows + checkout.rows(),
            checked_out: self.checked_out + checkout.stamped(),
        }
    }

    /// The batch with what the checkouts give added to it, one after the
    /// other.
    pub open spec fn accumulate_all(self, checkouts: Seq<CheckoutView>) -> ConfigBatchView
        decreases checkouts.len(),
    {
        if checkouts.len() == 0 {
            self
        } else {
            self.accumulate_all(checkouts.drop_last()).accumulate(checkouts.last())
        }
    }

    /// The statement that upserts the rows of the batch, where it has rows.
    /// Without a row there is nothing to upsert, and no statement. Rows for
    /// one file of one repository are merged first, last wins, so that no row
    /// is written twice.
    pub open spec fn insert_statement(self) -> Option<StatementView> {
        if self.rows.len() == 0 {
            None
        } else {
            Some(
                StatementView::new(INSERT_CONFIGS@).push_tuples(
                    config_tuples(merged_rows(self.rows)),
                    ",\n"@,
                ).push(UPSERT_CONFIGS@),
            )
        }
    }

    /// The statement that stamps the repositories of the batch, where it has
    /// repositories. Without one there is nothing to stamp, and no statement.
    /// Each repository is named once, however often it was checked out.
    pub open spec fn update_statement(self) -> Option<StatementView> {
        if self.checked_out.len() == 0 {
            None
        } else {
            Some(
                StatementView::new(STAMP_REPOSITORIES@).push_binds(
                    id_values(merged_ids(self.checked_out)),
                ).push(")"@),
            )
        }
    }
}

/// The key under which a configuration file is stored: its repository and
/// its path.
pub open spec fn row_key() -> spec_fn(ConfigRowView) -> (Seq<char>, Seq<char>) {
    |row: ConfigRowView| (row.repository_id, row.file_path)
}

/// The rows with those for one file of one repository merged into one: each
/// file stands where it came first, with the commit and the content that
/// came last.
pub open spec fn merged_rows(rows: Seq<ConfigRowView>) -> Seq<ConfigRowView> {
    merged(rows, row_key())
}

/// An id is its own key.
pub open spec fn id_key() -> spec_fn(Seq<char>) -> Seq<char> {
    |id: Seq<char>| id
}

/// The ids, each once, in the order in which they came first.
pub open spec fn merged_ids(ids: Seq<Seq<char>>) -> Seq<Seq<char>> {
    merged(ids, id_key())
}

/// What the ids hold.
pub open spec fn ids_view(ids: Seq<String>) -> Seq<Seq<char>> {
    ids.map_values(|id: String| id@)
}

/// What a statement that may be there holds.
pub open spec fn statement_view(statement: Option<Statement>) -> Option<StatementView> {
    match statement {
        Some(built) => Some(built@),
        None => None,
    }
}

/// The values of one row, in the order of the columns.
pub open spec fn config_tuple(row: ConfigRowView) -> Seq<SqlValueView> {
    seq![
        SqlValueView::Text(row.repository_id),
        SqlValueView::Text(row.latest_commit),
        SqlValueView::Text(row.file_path),
        SqlValueView::Json(row.config),
    ]
}

/// The tuples of several rows, in their order.
pub open spec fn config_tuples(rows: Seq<ConfigRowView>) -> Seq<Seq<SqlValueView>> {
    rows.map_values(|row: ConfigRowView| config_tuple(row))
}

/// The ids as values to bind.
pub open spec fn id_values(ids: Seq<Seq<char>>) -> Seq<SqlValueView> {
    ids.map_values(|id: Seq<char>| SqlValueView::Text(id))
}

/// What is to be written for a batch of checkouts: the rows of the
/// configuration files, and the repositories to stamp as checked out.
#[derive(Debug)]
pub struct ConfigBatch {
    rows: Vec<ConfigRow>,
    checked_out: Vec<String>,
}

impl View for ConfigBatch {
    type V = ConfigBatchView;

    closed spec fn view(&self) -> ConfigBatchView {
        ConfigBatchView {
            rows: rows_view(self.rows@),
            checked_out: self.checked_out@.map_values(|id: String| id@),
        }
    }
}

impl ConfigBatch {
    /// A batch with nothing in it.
    pub fn new() -> (batch: ConfigBatch)
        ensures
            batch@ == ConfigBatchView::empty(),
    {
        let rows: Vec<ConfigRow> = Vec::new();
        let checked_out: Vec<String> = Vec::new();
        assert(rows_view(rows@) =~= Seq::empty());
        assert(checked_out@.map_values(|id: String| id@) =~= Seq::<Seq<char>>::empty());
        ConfigBatch { rows, checked_out }
    }

    /// The rows to write.
    pub fn rows(&self) -> (rows: &Vec<ConfigRow>)
        ensures
            rows_view(rows@) == self@.rows,
    {
        &self.rows
    }

    /// The ids of the repositories to stamp as checked out.
    pub fn checked_out(&self) -> (ids: &Vec<String>)
        ensures
            ids@.map_values(|id: String| id@) == self@.checked_out,
    {
        &self.checked_out
    }

    /// Adds what one checkout gives.
    ///
    /// A checkout without a commit gives nothing: no row, and its repository
    /// is not stamped. With a commit, the repository is stamped, and every
    /// file that was decoded gives a row; a file that was not is left out and
    /// does not keep the others from being written.
    pub fn accumulate(&mut self, checkout: Checkout)
        ensures
            final(self)@ == old(self)@.accumulate(checkout@),
    {
        let ghost start = self@;
        let ghost seen = checkout@;
        let Checkout { repository_id, name_with_owner, commit, files } = checkout;
        let commit = match commit {
            Some(commit) => commit,
            None => {
                assert(start.rows + seen.rows() =~= start.rows);
                assert(start.checked_out + seen.stamped() =~= start.checked_out);
                return ;
            },
        };
        let ghost all = decoded_view(files@);
        let n: usize = files.len();
        let mut stack: Vec<DecodedConfig> = reversed(files);
        let mut i: usize = 0;
        assert(start.rows + rows_for(repository_id@, commit@, all.take(0)) =~= start.rows);
        while i < n
            invariant
                i <= n,
                n == all.len(),
                stack@.len() == n - i,
                forall|j: int| 0 <= j < stack@.len() ==> (#[trigger] stack@[j])@ == all[n - 1 - j],
                rows_view(self.rows@) == start.rows + rows_for(
                    repository_id@,
                    commit@,
                    all.take(i as int),
                ),
                self.checked_out@ == old(self).checked_out@,
            decreases n - i,
        {
            let file = stack.pop().unwrap();
            proof {
                assert(all.take(i + 1).drop_last() =~= all.take(i as int));
                assert(all.take(i + 1).last() == all[i as int]);
            }
            proof {
                use_type_invariant(&file);
            }
            let DecodedConfig { relative_path, json } = file;
            match json {
                Some(document) => {
                    let ghost before = self.rows@;
                    let row = ConfigRow {
                        repository_id: repository_id.clone(),
                        latest_commit: commit.clone(),
                        file_path: relative_path,
                        config: document,
                    };
                    self.rows.push(row);
                    assert(rows_view(self.rows@) =~= rows_view(before).push(row@));
                    assert(rows_view(self.rows@) =~= start.rows + rows_for(
                        repository_id@,
                        commit@,
                        all.take(i + 1),
                    ));
                },
                None => {},
            }
            i = i + 1;
        }
        proof {
            assert(all.take(n as int) =~= all);
        }
        self.checked_out.push(repository_id);
        assert(self.checked_out@.map_values(|id: String| id@) =~= start.checked_out
            + seen.stamped());
    }

    fn position(rows: &Vec<ConfigRow>, row: &ConfigRow) -> (at: Option<usize>)
        ensures
            match at {
                Some(i) => i < rows@.len() && index_of_key(
                    rows_view(rows@),
                    row_key(),
                    (row@.repository_id, row@.file_path),
                ) == Some(i as int),
                None => index_of_key(
                    rows_view(rows@),
                    row_key(),
                    (row@.repository_id, row@.file_path),
                ).is_none(),
            },
    {
        let ghost key = (row@.repository_id, row@.file_path);
        let mut i: usize = 0;
        while i < rows.len()
            invariant
                i <= rows.len(),
                key == (row@.repository_id, row@.file_path),
                forall|j: int|
                    0 <= j < i ==> (#[trigger] rows_view(rows@)[j]).repository_id
                        != row@.repository_id || rows_view(rows@)[j].file_path
                        != row@.file_path,
            decreases rows.len() - i,
        {
            if same_text(rows[i].repository_id(), row.repository_id()) && same_text(
                rows[i].file_path(),
                row.file_path(),
            ) {
                proof {
                    assert(rows_view(rows@)[i as int] == rows@[i as int]@);
                    lemma_index_of_key_is_first(rows_view(rows@), row_key(), key, i as int);
                }
                return Some(i);
            }
            proof {
                assert(rows_view(rows@)[i as int] == rows@[i as int]@);
            }
            i = i + 1;
        }
        proof {
            lemma_index_of_key(rows_view(rows@), row_key(), key);
            if index_of_key(rows_view(rows@), row_key(), key).is_some() {
                let k = index_of_key(rows_view(rows@), row_key(), key).unwrap();
                assert(rows_view(rows@)[k].repository_id == row@.repository_id);
            }
        }
        None
    }

    /// Takes out the ids that came before: each id stays once, where it came
    /// first.
    pub fn merge_ids(ids: Vec<String>) -> (merged: Vec<String>)
        ensures
            ids_view(merged@) == merged_ids(ids_view(ids@)),
            keys_differ(ids_view(merged@), id_key()),
            (merged@.len() == 0) == (ids@.len() == 0),
    {
        let ghost all = ids_view(ids@);
        let n: usize = ids.len();
        let mut stack: Vec<String> = reversed(ids);
        let mut merged: Vec<String> = Vec::new();
        let mut i: usize = 0;
        assert(ids_view(merged@) =~= merged_into(Seq::empty(), id_key(), all.take(0)));
        while i < n
            invariant
                i <= n,
                n == all.len(),
                stack@.len() == n - i,
                forall|j: int| 0 <= j < stack@.len() ==> (#[trigger] stack@[j])@ == all[n - 1 - j],
                ids_view(merged@) == merged_into(Seq::empty(), id_key(), all.take(i as int)),
            decreases n - i,
        {
            let id = stack.pop().unwrap();
            proof {
                assert(all.take(i + 1).drop_last() =~= all.take(i as int));
                assert(all.take(i + 1).last() == all[i as int]);
            }
            let ghost before = ids_view(merged@);
            let mut at: Option<usize> = None;
            let mut k: usize = 0;
            while k < merged.len() && at.is_none()
                invariant
                    k <= merged.len(),
                    before == ids_view(merged@),
                    forall|j: int|
                        0 <= j < k && at.is_none() ==> (#[trigger] before[j]) != id@,
                    at matches Some(found) ==> found < merged.len() && before[found as int]
                        == id@ && forall|j: int|
                        0 <= j < found ==> (#[trigger] before[j]) != id@,
                decreases merged.len() - k + (if at.is_none() { 1nat } else { 0nat }),
            {
                if same_text(merged[k].as_str(), id.as_str()) {
                    assert(before[k as int] == merged@[k as int]@);
                    at = Some(k);
                } else {
                    assert(before[k as int] == merged@[k as int]@);
                    k = k + 1;
                }
            }
            match at {
                Some(found) => {
                    proof {
                        lemma_index_of_key_is_first(before, id_key(), id@, found as int);
                    }
                    merged.set(found, id);
                    assert(ids_view(merged@) =~= before.update(found as int, id@));
                },
                None => {
                    proof {
                        lemma_index_of_key(before, id_key(), id@);
                        if index_of_key(before, id_key(), id@).is_some() {
                            let j = index_of_key(before, id_key(), id@).unwrap();
                            assert(before[j] == id@);
                        }
                    }
                    merged.push(id);
                    assert(ids_view(merged@) =~= before.push(id@));
                },
            }
            i = i + 1;
        }
        proof {
            assert(all.take(n as int) =~= all);
            lemma_merged(Map::empty(), all, id_key());
        }
        merged
    }

    /// Merges the rows for one file of one repository into one, last wins:
    /// each file stands where it came first, and no file comes twice.
    pub fn merge_rows(rows: Vec<ConfigRow>) -> (merged: Vec<ConfigRow>)
        ensures
            rows_view(merged@) == merged_rows(rows_view(rows@)),
            keys_differ(rows_view(merged@), row_key()),
            (merged@.len() == 0) == (rows@.len() == 0),
    {
        let ghost all = rows_view(rows@);
        let n: usize = rows.len();
        let mut stack: Vec<ConfigRow> = reversed(rows);
        let mut merged: Vec<ConfigRow> = Vec::new();
        let mut i: usize = 0;
        assert(rows_view(merged@) =~= merged_into(Seq::empty(), row_key(), all.take(0)));
        while i < n
            invariant
                i <= n,
                n == all.len(),
                stack@.len() == n - i,
                forall|j: int| 0 <= j < stack@.len() ==> (#[trigger] stack@[j])@ == all[n - 1 - j],
                rows_view(merged@) == merged_into(Seq::empty(), row_key(), all.take(i as int)),
            decreases n - i,
        {
            let row = stack.pop().unwrap();
            proof {
                assert(all.take(i + 1).drop_last() =~= all.take(i as int));
                assert(all.take(i + 1).last() == all[i as int]);
            }
            let ghost before = rows_view(merged@);
            match ConfigBatch::position(&merged, &row) {
                Some(k) => {
                    merged.set(k, row);
                    assert(rows_view(merged@) =~= before.update(k as int, row@));
                },
                None => {
                    merged.push(row);
                    assert(rows_view(merged@) =~= before.push(row@));
                },
            }
            i = i + 1;
        }
        proof {
            assert(all.take(n as int) =~= all);
            lemma_merged(Map::empty(), all, row_key());
        }
        merged
    }

    /// The statements that write the batch: the one that upserts its rows,
    /// and the one that stamps its repositories. A batch without rows has no
    /// statement for rows, and one without repositories none for stamps.
    pub fn into_statements(self) -> (statements: (Option<Statement>, Option<Statement>))
        ensures
            statement_view(statements.0) == self@.insert_statement(),
            statement_view(statements.1) == self@.update_statement(),
    {
        let ghost batch = self@;
        let ConfigBatch { rows, checked_out } = self;
        let rows = ConfigBatch::merge_rows(rows);
        let ghost written = merged_rows(batch.rows);
        let n: usize = rows.len();
        let mut stack: Vec<ConfigRow> = reversed(rows);
        let mut tuples: Vec<Vec<SqlValue>> = Vec::new();
        let mut i: usize = 0;
        assert(tuples_view(tuples@) =~= config_tuples(written.take(0)));
        while i < n
            invariant
                i <= n,
                n == written.len(),
                stack@.len() == n - i,
                forall|j: int|
                    0 <= j < stack@.len() ==> (#[trigger] stack@[j])@ == written[n - 1 - j],
                tuples_view(tuples@) == config_tuples(written.take(i as int)),
            decreases n - i,
        {
            let row = stack.pop().unwrap();
            let ghost before = tuples@;
            let values = row.into_values();
            tuples.push(values);
            proof {
                assert(tuples_view(tuples@) =~= tuples_view(before).push(values_view(values@)));
                assert(written.take(i + 1) =~= written.take(i as int).push(written[i as int]));
                assert(config_tuples(written.take(i + 1)) =~= config_tuples(
                    written.take(i as int),
                ).push(config_tuple(written[i as int])));
            }
            i = i + 1;
        }
        assert(written.take(n as int) =~= written);
        let insert = if n == 0 {
            None
        } else {
            let mut insert = Statement::new(INSERT_CONFIGS);
            insert.push_tuples(tuples, ",\n");
            insert.push(UPSERT_CONFIGS);
            Some(insert)
        };

        let checked_out = ConfigBatch::merge_ids(checked_out);
        let ghost stamped = merged_ids(batch.checked_out);
        assert(stamped == ids_view(checked_out@));
        let m: usize = checked_out.len();
        let mut id_stack: Vec<String> = reversed(checked_out);
        let mut ids: Vec<SqlValue> = Vec::new();
        let mut k: usize = 0;
        assert(values_view(ids@) =~= id_values(stamped.take(0)));
        while k < m
            invariant
                k <= m,
                m == stamped.len(),
                id_stack@.len() == m - k,
                forall|j: int|
                    0 <= j < id_stack@.len() ==> (#[trigger] id_stack@[j])@ == stamped[m - 1 - j],
                values_view(ids@) == id_values(stamped.take(k as int)),
            decreases m - k,
        {
            let id = id_stack.pop().unwrap();
            let ghost before = ids@;
            ids.push(SqlValue::Text(id));
            proof {
                assert(values_view(ids@) =~= values_view(before).push(SqlValueView::Text(id@)));
                assert(stamped.take(k + 1) =~= stamped.take(k as int).push(stamped[k as int]));
                assert(id_values(stamped.take(k + 1)) =~= id_values(stamped.take(k as int)).push(
                    SqlValueView::Text(stamped[k as int]),
                ));
            }
            k = k + 1;
        }
        assert(stamped.take(m as int) =~= stamped);
        let update = if m == 0 {
            None
        } else {
            let mut update = Statement::new(STAMP_REPOSITORIES);
            update.push_binds(ids);
            update.push(")");
            Some(update)
        };
        (insert, update)
    }
}

/// What the pairs of a repository and its checkout hold.
pub open spec fn checkouts_of(repositories: Seq<(&Repository, ClonedRepo)>) -> Seq<CheckoutView> {
    repositories.map_values(
        |pair: (&Repository, ClonedRepo)| checkout_of((*pair.0)@, pair.1@),
    )
}

/// Gathers what is to be written for the checkouts of the repositories: each
/// checkout is inspected and added to one batch, in the order given.
pub fn store_rustfmt_configs(repositories: &Vec<(&Repository, ClonedRepo)>) -> (batch: ConfigBatch)
    ensures
        batch@ == ConfigBatchView::empty().accumulate_all(checkouts_of(repositories@)),
{
    let ghost all = checkouts_of(repositories@);
    let mut batch = ConfigBatch::new();
    let mut i: usize = 0;
    while i < repositories.len()
        invariant
            i <= repositories.len(),
            all == checkouts_of(repositories@),
            batch@ == ConfigBatchView::empty().accumulate_all(all.take(i as int)),
        decreases repositories.len() - i,
    {
        proof {
            assert(all.take(i + 1).drop_last() =~= all.take(i as int));
            assert(all.take(i + 1).last() == all[i as int]);
        }
        let pair = &repositories[i];
        batch.accumulate(Checkout::inspect(pair.0, &pair.1));
        i = i + 1;
    }
    proof {
        assert(all.take(i as int) =~= all);
    }
    batch
}

/// A checkout whose commit could not be told leaves the batch as it is: it
/// gives no row and stamps no repository.
pub proof fn lemma_unresolved_gives_nothing(batch: ConfigBatchView, checkout: CheckoutView)
    requires
        checkout.commit.is_none(),
    ensures
        batch.accumulate(checkout) == batch,
{
    assert(batch.rows + checkout.rows() =~= batch.rows);
    assert(batch.checked_out + checkout.stamped() =~= batch.checked_out);
}

/// Every row that the files of a checkout give is a row of the repository at
/// the commit, for a file that was decoded; and the rows are no more than the
/// files.
pub proof fn lemma_rows_for(id: Seq<char>, commit: Seq<char>, files: Seq<DecodedConfigView>)
    ensures
        rows_for(id, commit, files).len() <= files.len(),
        forall|k: int|
            0 <= k < rows_for(id, commit, files).len() ==> {
                let row = #[trigger] rows_for(id, commit, files)[k];
                &&& row.repository_id == id
                &&& row.latest_commit == commit
                &&& exists|j: int|
                    0 <= j < files.len() && (#[trigger] files[j]).relative_path == row.file_path
                        && files[j].json == Some(row.config)
            },
    decreases files.len(),
{
    if files.len() > 0 {
        let front = files.drop_last();
        lemma_rows_for(id, commit, front);
        let before = rows_for(id, commit, front);
        assert forall|k: int| 0 <= k < rows_for(id, commit, files).len() implies {
            let row = #[trigger] rows_for(id, commit, files)[k];
            &&& row.repository_id == id
            &&& row.latest_commit == commit
            &&& exists|j: int|
                0 <= j < files.len() && (#[trigger] files[j]).relative_path == row.file_path
                    && files[j].json == Some(row.config)
        } by {
            let row = rows_for(id, commit, files)[k];
            if k < before.len() {
                assert(row == before[k]);
                let j = choose|j: int|
                    0 <= j < front.len() && (#[trigger] front[j]).relative_path == row.file_path
                        && front[j].json == Some(row.config);
                assert(files[j] == front[j]);
            } else {
                assert(files[files.len() - 1] == files.last());
            }
        }
    }
}

/// One of the checkouts is of the repository `id` and has a commit.
pub open spec fn resolved_in(checkouts: Seq<CheckoutView>, id: Seq<char>) -> bool {
    exists|i: int|
        0 <= i < checkouts.len() && (#[trigger] checkouts[i]).commit.is_some()
            && checkouts[i].repository_id == id
}

/// One of the checkouts is of the repository of `row`, at the commit of `row`.
pub open spec fn found_in(checkouts: Seq<CheckoutView>, row: ConfigRowView) -> bool {
    exists|i: int|
        0 <= i < checkouts.len() && (#[trigger] checkouts[i]).commit == Some(row.latest_commit)
            && checkouts[i].repository_id == row.repository_id
}

/// Whatever the checkouts, the batch holds what the resolved ones give and
/// nothing else.
///
/// A repository is stamped only if one of the checkouts is its own and has a
/// commit, and every checkout with a commit stamps its repository. Every row
/// belongs to a checkout with a commit, and carries that repository and that
/// commit: a checkout without a commit has no row for it in the batch.
pub proof fn lemma_batch_holds_resolved_only(start: ConfigBatchView, checkouts: Seq<CheckoutView>)
    ensures
        ({
            let batch = start.accumulate_all(checkouts);
            &&& start.checked_out.len() <= batch.checked_out.len()
            &&& start.rows.len() <= batch.rows.len()
            &&& batch.checked_out.take(start.checked_out.len() as int) == start.checked_out
            &&& batch.rows.take(start.rows.len() as int) == start.rows
            &&& forall|k: int|
                start.checked_out.len() <= k < batch.checked_out.len() ==> resolved_in(
                    checkouts,
                    #[trigger] batch.checked_out[k],
                )
            &&& forall|i: int|
                0 <= i < checkouts.len() && (#[trigger] checkouts[i]).commit.is_some()
                    ==> batch.checked_out.contains(checkouts[i].repository_id)
            &&& forall|k: int|
                start.rows.len() <= k < batch.rows.len() ==> found_in(
                    checkouts,
                    #[trigger] batch.rows[k],
                )
        }),
    decreases checkouts.len(),
{
    let batch = start.accumulate_all(checkouts);
    if checkouts.len() == 0 {
        assert(batch.checked_out.take(start.checked_out.len() as int) =~= start.checked_out);
        assert(batch.rows.take(start.rows.len() as int) =~= start.rows);
    } else {
        let front = checkouts.drop_last();
        let last = checkouts.last();
        let before = start.accumulate_all(front);
        lemma_batch_holds_resolved_only(start, front);
        assert(batch == before.accumulate(last));
        assert(batch.checked_out.take(start.checked_out.len() as int)
            =~= before.checked_out.take(start.checked_out.len() as int));
        assert(batch.rows.take(start.rows.len() as int) =~= before.rows.take(
            start.rows.len() as int,
        ));
        if last.commit.is_some() {
            lemma_rows_for(last.repository_id, last.commit.unwrap(), last.files);
        }
        assert forall|k: int|
            start.checked_out.len() <= k < batch.checked_out.len() implies resolved_in(
            checkouts,
            #[trigger] batch.checked_out[k],
        ) by {
            if k < before.checked_out.len() {
                assert(batch.checked_out[k] == before.checked_out[k]);
                assert(resolved_in(front, before.checked_out[k]));
                let i = choose|i: int|
                    0 <= i < front.len() && (#[trigger] front[i]).commit.is_some()
                        && front[i].repository_id == before.checked_out[k];
                assert(checkouts[i] == front[i]);
            } else {
                assert(checkouts[checkouts.len() - 1] == last);
            }
        }
        assert forall|i: int|
            0 <= i < checkouts.len() && (#[trigger] checkouts[i]).commit.is_some()
            implies batch.checked_out.contains(checkouts[i].repository_id) by {
            if i < front.len() {
                assert(checkouts[i] == front[i]);
                assert(before.checked_out.contains(front[i].repository_id));
                let k = choose|k: int|
                    0 <= k < before.checked_out.len() && before.checked_out[k]
                        == front[i].repository_id;
                assert(batch.checked_out[k] == before.checked_out[k]);
            } else {
                assert(batch.checked_out[before.checked_out.len() as int]
                    == last.repository_id);
            }
        }
        assert forall|k: int| start.rows.len() <= k < batch.rows.len() implies found_in(
            checkouts,
            #[trigger] batch.rows[k],
        ) by {
            if k < before.rows.len() {
                assert(batch.rows[k] == before.rows[k]);
                assert(found_in(front, before.rows[k]));
                let i = choose|i: int|
                    0 <= i < front.len() && (#[trigger] front[i]).commit == Some(
                        before.rows[k].latest_commit,
                    ) && front[i].repository_id == before.rows[k].repository_id;
                assert(checkouts[i] == front[i]);
            } else {
                assert(batch.rows[k] == last.rows()[k - before.rows.len()]);
                assert(checkouts[checkouts.len() - 1] == last);
            }
        }
    }
}

/// The statement for the rows writes each file of each repository once, and
/// writes what the batch holds.
///
/// In the rows that it writes no file of a repository comes twice. Each of
/// them is a row of a checkout that had a commit, with that repository and
/// that commit. Upserted into any table of files, one after the other, they
/// leave what the rows of the batch would leave: for each file the commit and
/// the content that came last.
pub proof fn lemma_insert_writes_each_file_once(
    table: Map<(Seq<char>, Seq<char>), ConfigRowView>,
    checkouts: Seq<CheckoutView>,
)
    ensures
        ({
            let batch = ConfigBatchView::empty().accumulate_all(checkouts);
            &&& keys_differ(merged_rows(batch.rows), row_key())
            &&& merged_rows(batch.rows).len() <= batch.rows.len()
            &&& batch.rows.len() > 0 ==> merged_rows(batch.rows).len() > 0
            &&& forall|k: int|
                0 <= k < merged_rows(batch.rows).len() ==> found_in(
                    checkouts,
                    #[trigger] merged_rows(batch.rows)[k],
                )
            &&& laid_over(table, merged_rows(batch.rows), row_key()) == laid_over(
                table,
                batch.rows,
                row_key(),
            )
        }),
{
    let batch = ConfigBatchView::empty().accumulate_all(checkouts);
    lemma_merged(table, batch.rows, row_key());
    lemma_batch_holds_resolved_only(ConfigBatchView::empty(), checkouts);
    assert forall|k: int| 0 <= k < merged_rows(batch.rows).len() implies found_in(
        checkouts,
        #[trigger] merged_rows(batch.rows)[k],
    ) by {
        lemma_merged_into_is_of_the_rows(Seq::empty(), row_key(), batch.rows, k);
        let row = merged_rows(batch.rows)[k];
        assert(batch.rows.contains(row));
        let j = choose|j: int| 0 <= j < batch.rows.len() && batch.rows[j] == row;
        assert(found_in(checkouts, batch.rows[j]));
    }
}

} // verus!
