//! The one query that the search sends, and the page that comes back, decoded.

use vstd::prelude::*;
use vstd::string::*;
use time::OffsetDateTime;
use crate::percentage::{share_of, Percentage, PercentageView};
use crate::github::search::{Repo, RepoView};
use crate::github::Repository;
use crate::text::{decimal, ends_with, has_suffix, push_decimal};

verus! {

/// Where the search backend listens.
pub const GITHUB_GRAPHQL_URL: &'static str = "https://api.github.com/graphql";

/// The name of the operation inside [`GITHUB_REPOSITORY_QUERY`].
pub const GITHUB_REPOSITORY_OPERATION: &'static str = "GitHubRepositorySearch";

/// The query text. Its variables are those of [`SearchVariables`].
pub const GITHUB_REPOSITORY_QUERY: &'static str = "
query GitHubRepositorySearch(
  # The search string to look for. GitHub search syntax is supported.
  $gitHubSearchString: String!
  # Returns the first n elements from the list.
  $limit: Int!
  # Returns the elements in the list that come after the specified cursor.
  # Check the `endCursor` on the returned pageInfo
  $cursorOffset: String
  # Ordering options for language connections.
  $languageOrderBy: LanguageOrder!
) {
  search(first: $limit, after: $cursorOffset, query: $gitHubSearchString, type: REPOSITORY) {
    repositoryCount
    pageInfo {
      hasNextPage
      endCursor
    }
    nodes {
      ... on Repository {
        id
        nameWithOwner
        description
        url
        archivedAt
        isFork
        isLocked
        pushedAt
        updatedAt
        languages(first: 5, orderBy: $languageOrderBy) {
          totalCount
          totalSize
          edges {
            size
            node {
              name
            }
          }
        }
        defaultBranchRef {
          target {
            oid
          }
        }
      }
    }
  }
}
";

/// The suffix that every clone address carries: `.git`.
pub open spec fn git_suffix() -> Seq<char> {
    seq!['.', 'g', 'i', 't']
}

/// `url` as a clone address: the suffix is added unless it is there already.
pub open spec fn with_git_suffix(url: Seq<char>) -> Seq<char> {
    if ends_with(url, git_suffix()) {
        url
    } else {
        url + git_suffix()
    }
}

/// The address to browse a repository at: its clone address without the suffix.
pub open spec fn browse_url(git_url: Seq<char>) -> Seq<char>
    recommends
        ends_with(git_url, git_suffix()),
{
    git_url.subrange(0, git_url.len() - git_suffix().len())
}

/// A clone address is its browse address followed by the suffix, and nothing
/// else: taking the suffix off and putting it back changes nothing.
pub proof fn lemma_browse_url_strips_suffix(git_url: Seq<char>)
    requires
        ends_with(git_url, git_suffix()),
    ensures
        browse_url(git_url) + git_suffix() == git_url,
        browse_url(git_url).len() + 4 == git_url.len(),
{
    assert(browse_url(git_url) + git_suffix() =~= git_url);
}

/// A normalised clone address always carries the suffix, and an address that
/// carries it already is left as it is.
pub proof fn lemma_with_git_suffix(url: Seq<char>)
    ensures
        ends_with(with_git_suffix(url), git_suffix()),
        ends_with(url, git_suffix()) ==> with_git_suffix(url) == url,
        !ends_with(url, git_suffix()) ==> browse_url(with_git_suffix(url)) == url,
{
    if !ends_with(url, git_suffix()) {
        let whole = url + git_suffix();
        assert(whole.subrange(whole.len() - 4, whole.len() as int) =~= git_suffix());
        assert(whole.subrange(0, whole.len() - 4) =~= url);
    }
}

/// Makes a clone address of `url`: appends `.git` unless `url` ends with it.
pub fn ensure_git_suffix(url: String) -> (git_url: String)
    ensures
        git_url@ == with_git_suffix(url@),
        ends_with(git_url@, git_suffix()),
{
    proof {
        reveal_strlit(".git");
        lemma_with_git_suffix(url@);
        assert(".git"@ =~= git_suffix());
    }
    if has_suffix(url.as_str(), ".git") {
        url
    } else {
        url.concat(".git")
    }
}

/// Takes `.git` off the end of a clone address; there is nothing to take off
/// an address that does not end with it.
pub fn strip_git_suffix(git_url: &str) -> (url: Option<&str>)
    ensures
        match url {
            Some(u) => ends_with(git_url@, git_suffix()) && u@ == browse_url(git_url@) && u@
                + git_suffix() == git_url@,
            None => !ends_with(git_url@, git_suffix()),
        },
{
    proof {
        reveal_strlit(".git");
        assert(".git"@ =~= git_suffix());
    }
    if !has_suffix(git_url, ".git") {
        return None;
    }
    proof {
        lemma_browse_url_strips_suffix(git_url@);
    }
    let n: usize = git_url.unicode_len();
    Some(git_url.substring_char(0, n - 4))
}

/// The browse address of a clone address that is known to carry its suffix.
pub(crate) fn browse_address(git_url: &str) -> (url: &str)
    requires
        ends_with(git_url@, git_suffix()),
    ensures
        url@ == browse_url(git_url@),
        url@ + git_suffix() == git_url@,
{
    match strip_git_suffix(git_url) {
        Some(url) => url,
        None => vstd::pervasive::unreached(),
    }
}

/// What a [`LanguageNode`] holds.
pub struct LanguageNodeView {
    pub name: Seq<char>,
    pub size: nat,
}

/// One language of a repository with the bytes of code written in it.
#[derive(Debug)]
pub struct LanguageNode {
    /// The number of bytes of code written in the language.
    size: usize,
    /// The name of the language.
    name: String,
}

impl View for LanguageNode {
    type V = LanguageNodeView;

    closed spec fn view(&self) -> LanguageNodeView {
        LanguageNodeView { name: self.name@, size: self.size as nat }
    }
}

impl Clone for LanguageNode {
    fn clone(&self) -> (copy: LanguageNode)
        ensures
            copy@ == self@,
    {
        LanguageNode { size: self.size, name: self.name.clone() }
    }
}

impl LanguageNode {
    pub fn new(name: String, size: usize) -> (node: LanguageNode)
        ensures
            node@ == (LanguageNodeView { name: name@, size: size as nat }),
    {
        LanguageNode { size, name }
    }

    pub fn name(&self) -> (name: &str)
        ensures
            name@ == self@.name,
    {
        self.name.as_str()
    }

    pub fn size(&self) -> (size: usize)
        ensures
            size == self@.size,
    {
        self.size
    }
}

/// What a [`Languages`] holds.
pub struct LanguagesView {
    pub total_count: nat,
    pub total_size: nat,
    pub edges: Seq<LanguageNodeView>,
}

/// The language breakdown of a repository, as the backend reports it.
#[derive(Debug)]
pub struct Languages {
    /// The number of languages found in the repository.
    total_count: usize,
    /// The total size in bytes of the repository's code.
    total_size: usize,
    /// The largest languages, each with its size.
    edges: Vec<LanguageNode>,
}

impl View for Languages {
    type V = LanguagesView;

    closed spec fn view(&self) -> LanguagesView {
        LanguagesView {
            total_count: self.total_count as nat,
            total_size: self.total_size as nat,
            edges: self.edges@.map_values(|node: LanguageNode| node@),
        }
    }
}

impl Clone for Languages {
    fn clone(&self) -> (copy: Languages)
        ensures
            copy@ == self@,
    {
        let mut edges: Vec<LanguageNode> = Vec::new();
        let mut i: usize = 0;
        while i < self.edges.len()
            invariant
                i <= self.edges.len(),
                edges@.len() == i,
                forall|j: int| 0 <= j < i ==> (#[trigger] edges@[j])@ == self.edges@[j]@,
            decreases self.edges.len() - i,
        {
            edges.push(self.edges[i].clone());
            i = i + 1;
        }
        assert(edges@.map_values(|node: LanguageNode| node@) =~= self.edges@.map_values(
            |node: LanguageNode| node@,
        ));
        Languages { total_count: self.total_count, total_size: self.total_size, edges }
    }
}

impl Languages {
    pub fn new(total_count: usize, total_size: usize, edges: Vec<LanguageNode>) -> (languages:
        Languages)
        ensures
            languages@ == (LanguagesView {
                total_count: total_count as nat,
                total_size: total_size as nat,
                edges: edges@.map_values(|node: LanguageNode| node@),
            }),
    {
        Languages { total_count, total_size, edges }
    }
}

/// The name under which the backend reports the language that is looked for.
pub open spec fn rust_name() -> Seq<char> {
    seq!['R', 'u', 's', 't']
}

/// The size of the first language named `Rust`, if there is one.
pub open spec fn rust_size(edges: Seq<LanguageNodeView>) -> Option<nat>
    decreases edges.len(),
{
    if edges.len() == 0 {
        None
    } else if edges[0].name == rust_name() {
        Some(edges[0].size)
    } else {
        rust_size(edges.drop_first())
    }
}

/// How much of a repository is written in Rust: the size of that language out
/// of the total size, and zero where the language is absent or the total is 0.
pub open spec fn rust_share(languages: LanguagesView) -> PercentageView {
    match rust_size(languages.edges) {
        Some(size) => share_of(size, languages.total_size),
        None => share_of(0, 0),
    }
}

/// No language is named `Rust`.
pub open spec fn rust_is_absent(edges: Seq<LanguageNodeView>) -> bool {
    forall|i: int| 0 <= i < edges.len() ==> (#[trigger] edges[i]).name != rust_name()
}

/// Where no language is named `Rust`, no size is found.
pub proof fn lemma_rust_size_absent(edges: Seq<LanguageNodeView>)
    requires
        rust_is_absent(edges),
    ensures
        rust_size(edges).is_none(),
    decreases edges.len(),
{
    if edges.len() > 0 {
        let rest = edges.drop_first();
        assert forall|i: int| 0 <= i < rest.len() implies (#[trigger] rest[i]).name
            != rust_name() by {
            assert(rest[i] == edges[i + 1]);
        }
        lemma_rust_size_absent(rest);
    }
}

/// The size that is found is that of the first language named `Rust`.
pub proof fn lemma_rust_size_found(edges: Seq<LanguageNodeView>, at: int)
    requires
        0 <= at < edges.len(),
        edges[at].name == rust_name(),
        rust_is_absent(edges.take(at)),
    ensures
        rust_size(edges) == Some(edges[at].size),
    decreases at,
{
    if at > 0 {
        let rest = edges.drop_first();
        assert(edges.take(at)[0] == edges[0]);
        assert forall|i: int| 0 <= i < rest.take(at - 1).len() implies (#[trigger] rest.take(
            at - 1,
        )[i]).name != rust_name() by {
            assert(rest.take(at - 1)[i] == edges.take(at)[i + 1]);
        }
        assert(rest[at - 1] == edges[at]);
        lemma_rust_size_found(rest, at - 1);
    }
}

/// The backend reports Rust larger than the total, and the total is not 0.
pub open spec fn rust_exceeds_total(languages: LanguagesView) -> bool {
    match rust_size(languages.edges) {
        Some(size) => languages.total_size > 0 && size > languages.total_size,
        None => false,
    }
}

/// The share of Rust is zero where Rust is absent or the total size is 0, and
/// otherwise it is the size of Rust out of the total size. It lies between 0
/// and 100 percent unless the backend reports Rust larger than the total.
pub proof fn lemma_rust_share_bounds(languages: LanguagesView)
    ensures
        (rust_is_absent(languages.edges) || languages.total_size == 0) ==> rust_share(languages)
            == share_of(0, 0),
        share_of(0, 0).within_bounds(),
        share_of(0, 0).hundredths() == 0,
        !rust_exceeds_total(languages) ==> rust_share(languages).within_bounds(),
        !rust_exceeds_total(languages) ==> 0 <= rust_share(languages).hundredths() <= 10000,
{
    if rust_is_absent(languages.edges) {
        lemma_rust_size_absent(languages.edges);
    }
    if !rust_exceeds_total(languages) {
        crate::percentage::lemma_share_within_bounds(rust_share(languages));
    }
    crate::percentage::lemma_share_within_bounds(share_of(0, 0));
}

/// What a [`ProgrammingLanguage`] holds.
pub struct ProgrammingLanguageView {
    pub name: Seq<char>,
    pub percent_of_code_in_repo: PercentageView,
}

/// Programming language used by a repository.
#[derive(Clone, Copy, Debug)]
pub struct ProgrammingLanguage<'a> {
    percent_of_code_in_repo: Percentage,
    name: &'a str,
}

impl<'a> View for ProgrammingLanguage<'a> {
    type V = ProgrammingLanguageView;

    closed spec fn view(&self) -> ProgrammingLanguageView {
        ProgrammingLanguageView {
            name: self.name@,
            percent_of_code_in_repo: self.percent_of_code_in_repo@,
        }
    }
}

impl<'a> ProgrammingLanguage<'a> {
    pub fn name(&self) -> (name: &str)
        ensures
            name@ == self@.name,
    {
        self.name
    }

    pub fn percent_of_code_in_repo(&self) -> (percent: Percentage)
        ensures
            percent@ == self@.percent_of_code_in_repo,
    {
        self.percent_of_code_in_repo
    }
}

/// The language at `edge` as a share of `total_size`.
pub open spec fn language_of(edge: LanguageNodeView, total_size: nat) -> ProgrammingLanguageView {
    ProgrammingLanguageView {
        name: edge.name,
        percent_of_code_in_repo: share_of(edge.size, total_size),
    }
}

impl Languages {
    /// The languages in the order of the breakdown, each with its share of the
    /// total size.
    pub fn languages(&self) -> (list: Vec<ProgrammingLanguage<'_>>)
        ensures
            list@.len() == self@.edges.len(),
            forall|i: int|
                0 <= i < list@.len() ==> (#[trigger] list@[i])@ == language_of(
                    self@.edges[i],
                    self@.total_size,
                ),
    {
        let mut list: Vec<ProgrammingLanguage<'_>> = Vec::new();
        let mut i: usize = 0;
        while i < self.edges.len()
            invariant
                i <= self.edges.len(),
                list@.len() == i,
                forall|j: int|
                    0 <= j < i ==> (#[trigger] list@[j])@ == language_of(
                        self@.edges[j],
                        self@.total_size,
                    ),
            decreases self.edges.len() - i,
        {
            let node = &self.edges[i];
            list.push(
                ProgrammingLanguage {
                    percent_of_code_in_repo: Percentage::ratio(node.size, self.total_size),
                    name: node.name.as_str(),
                },
            );
            i = i + 1;
        }
        list
    }

    /// How much of the code is written in Rust.
    pub fn percent_of_code_in_rust(&self) -> (percent: Percentage)
        ensures
            percent@ == rust_share(self@),
    {
        proof {
            reveal_strlit("Rust");
            assert("Rust"@ =~= rust_name());
        }
        let rust: String = String::from_str("Rust");
        let mut i: usize = 0;
        while i < self.edges.len()
            invariant
                i <= self.edges.len(),
                rust@ == rust_name(),
                rust_is_absent(self@.edges.take(i as int)),
            decreases self.edges.len() - i,
        {
            let node = &self.edges[i];
            if node.name == rust {
                proof {
                    lemma_rust_size_found(self@.edges, i as int);
                }
                return Percentage::ratio(node.size, self.total_size);
            }
            proof {
                let before = self@.edges.take(i as int);
                let after = self@.edges.take(i + 1);
                assert forall|j: int| 0 <= j < after.len() implies (#[trigger] after[j]).name
                    != rust_name() by {
                    if j < i {
                        assert(after[j] == before[j]);
                    }
                }
            }
            i = i + 1;
        }
        proof {
            assert(self@.edges.take(i as int) =~= self@.edges);
            lemma_rust_size_absent(self@.edges);
        }
        Percentage::zero()
    }
}

/// What a repository record says, whatever its origin.
pub struct RepositoryRecord {
    /// Globally unique, and the key under which the record is stored.
    pub id: Seq<char>,
    pub name_with_owner: Seq<char>,
    /// The clone address; it ends with `.git`.
    pub git_url: Seq<char>,
    pub percent_of_code_in_rust: PercentageView,
    /// The latest commit, empty where the origin cannot tell.
    pub commit_hash: Seq<char>,
    pub is_fork: bool,
    pub is_locked: bool,
    /// `None` means that the repository is not archived.
    pub archived_at: Option<OffsetDateTime>,
    pub pushed_at: OffsetDateTime,
    pub updated_at: OffsetDateTime,
}

impl RepositoryRecord {
    /// The record keeps what every record must: a clone address with its suffix.
    pub open spec fn well_formed(self) -> bool {
        ends_with(self.git_url, git_suffix())
    }

    /// The address to browse the repository at.
    pub open spec fn url(self) -> Seq<char> {
        browse_url(self.git_url)
    }
}

/// Metadata about one repository, as the search backend reports it.
#[derive(Debug)]
pub struct RepositoryInfo {
    /// The node id of the repository.
    id: String,
    /// The repository's name with owner.
    name_with_owner: String,
    /// Clone address, always with its `.git` suffix.
    git_url: String,
    /// The description of the repository.
    description: String,
    /// When the repository was archived, if it was.
    archived_at: Option<OffsetDateTime>,
    /// Identifies if the repository is a fork.
    is_fork: bool,
    /// Indicates if the repository has been locked or not.
    is_locked: bool,
    /// When the repository was last pushed to.
    pushed_at: OffsetDateTime,
    /// When the repository was last updated.
    updated_at: OffsetDateTime,
    /// A breakdown of the language composition of the repository.
    languages: Languages,
    /// The commit that the default branch points at.
    commit_hash: String,
}

impl View for RepositoryInfo {
    type V = RepositoryRecord;

    closed spec fn view(&self) -> RepositoryRecord {
        RepositoryRecord {
            id: self.id@,
            name_with_owner: self.name_with_owner@,
            git_url: self.git_url@,
            percent_of_code_in_rust: rust_share(self.languages@),
            commit_hash: self.commit_hash@,
            is_fork: self.is_fork,
            is_locked: self.is_locked,
            archived_at: self.archived_at,
            pushed_at: self.pushed_at,
            updated_at: self.updated_at,
        }
    }
}

impl Clone for RepositoryInfo {
    fn clone(&self) -> (copy: RepositoryInfo)
        ensures
            copy@ == self@,
            copy.description_view() == self.description_view(),
            copy.languages_view() == self.languages_view(),
    {
        proof {
            use_type_invariant(self);
        }
        RepositoryInfo {
            id: self.id.clone(),
            name_with_owner: self.name_with_owner.clone(),
            git_url: self.git_url.clone(),
            description: self.description.clone(),
            archived_at: self.archived_at,
            is_fork: self.is_fork,
            is_locked: self.is_locked,
            pushed_at: self.pushed_at,
            updated_at: self.updated_at,
            languages: self.languages.clone(),
            commit_hash: self.commit_hash.clone(),
        }
    }
}

impl RepositoryInfo {
    #[verifier::type_invariant]
    spec fn keeps_suffix(&self) -> bool {
        ends_with(self.git_url@, git_suffix())
    }

    /// The description that came with the record.
    pub closed spec fn description_view(&self) -> Seq<char> {
        self.description@
    }

    /// The language breakdown that came with the record.
    pub closed spec fn languages_view(&self) -> LanguagesView {
        self.languages@
    }

    /// Decodes one repository of a page. `url` is the address as the backend
    /// gives it; the record keeps it as a clone address.
    pub fn new(
        id: String,
        name_with_owner: String,
        url: String,
        description: String,
        archived_at: Option<OffsetDateTime>,
        is_fork: bool,
        is_locked: bool,
        pushed_at: OffsetDateTime,
        updated_at: OffsetDateTime,
        languages: Languages,
        commit_hash: String,
    ) -> (info: RepositoryInfo)
        ensures
            info@ == (RepositoryRecord {
                id: id@,
                name_with_owner: name_with_owner@,
                git_url: with_git_suffix(url@),
                percent_of_code_in_rust: rust_share(languages@),
                commit_hash: commit_hash@,
                is_fork,
                is_locked,
                archived_at,
                pushed_at,
                updated_at,
            }),
            info@.well_formed(),
            info.description_view() == description@,
            info.languages_view() == languages@,
    {
        let git_url = ensure_git_suffix(url);
        RepositoryInfo {
            id,
            name_with_owner,
            git_url,
            description,
            archived_at,
            is_fork,
            is_locked,
            pushed_at,
            updated_at,
            languages,
            commit_hash,
        }
    }

    /// The node id of this repository.
    pub fn id(&self) -> (id: &str)
        ensures
            id@ == self@.id,
    {
        self.id.as_str()
    }

    /// The name of the repository with the owner included.
    pub fn name_with_owner(&self) -> (name: &str)
        ensures
            name@ == self@.name_with_owner,
    {
        self.name_with_owner.as_str()
    }

    /// Remote repository address: the clone address without `.git`.
    pub fn url(&self) -> (url: &str)
        ensures
            url@ == self@.url(),
            url@ + git_suffix() == self@.git_url,
    {
        proof {
            use_type_invariant(self);
        }
        browse_address(self.git_url.as_str())
    }

    /// Address used to clone the repository.
    pub fn git_url(&self) -> (git_url: &str)
        ensures
            git_url@ == self@.git_url,
            self@.well_formed(),
    {
        proof {
            use_type_invariant(self);
        }
        self.git_url.as_str()
    }

    /// The description of the repository.
    pub fn description(&self) -> (description: &str)
        ensures
            description@ == self.description_view(),
    {
        self.description.as_str()
    }

    /// The languages of this repository, largest first as the backend orders
    /// them, each with its share of the code.
    pub fn languages(&self) -> (list: Vec<ProgrammingLanguage<'_>>)
        ensures
            list@.len() == self.languages_view().edges.len(),
            forall|i: int|
                0 <= i < list@.len() ==> (#[trigger] list@[i])@ == language_of(
                    self.languages_view().edges[i],
                    self.languages_view().total_size,
                ),
    {
        self.languages.languages()
    }

    /// How much of this repository was written in Rust.
    pub fn percent_of_code_in_rust(&self) -> (percent: Percentage)
        ensures
            percent@ == self@.percent_of_code_in_rust,
            percent@ == rust_share(self.languages_view()),
    {
        self.languages.percent_of_code_in_rust()
    }

    /// The latest commit of the default branch.
    pub fn commit_hash(&self) -> (hash: &str)
        ensures
            hash@ == self@.commit_hash,
    {
        self.commit_hash.as_str()
    }

    pub fn is_fork(&self) -> (is_fork: bool)
        ensures
            is_fork == self@.is_fork,
    {
        self.is_fork
    }

    pub fn is_locked(&self) -> (is_locked: bool)
        ensures
            is_locked == self@.is_locked,
    {
        self.is_locked
    }

    pub fn archived_at(&self) -> (archived_at: Option<OffsetDateTime>)
        ensures
            archived_at == self@.archived_at,
    {
        self.archived_at
    }

    /// The last time this repository was pushed.
    pub fn pushed_at(&self) -> (pushed_at: OffsetDateTime)
        ensures
            pushed_at == self@.pushed_at,
    {
        self.pushed_at
    }

    /// The last time this repository was updated.
    pub fn updated_at(&self) -> (updated_at: OffsetDateTime)
        ensures
            updated_at == self@.updated_at,
    {
        self.updated_at
    }
}

/// The stars asked for where the caller names none.
pub const DEFAULT_MIN_STARS: usize = 50;

/// How the search string names the repository that is looked for: a bare name
/// is searched among the names, an owner-qualified one names the repository.
pub open spec fn name_filter(repo: Option<RepoView>) -> Seq<char> {
    match repo {
        None => Seq::empty(),
        Some(RepoView::Name(name)) => " "@ + name + " in:name"@,
        Some(RepoView::NameWithOwner(name)) => " repo:"@ + name,
    }
}

/// The search string: Rust repositories with at least `min_stars` stars that
/// are neither templates nor archived, narrowed by the name filter.
pub open spec fn search_string(min_stars: nat, repo: Option<RepoView>) -> Seq<char> {
    "language:rust topic:rust stars:>="@ + decimal(min_stars)
        + " template:false archived:false"@ + name_filter(repo)
}

/// What the variables of one request say.
pub struct SearchVariablesView {
    pub search_string: Seq<char>,
    pub limit: nat,
    pub cursor_offset: Option<Seq<char>>,
}

/// The variables of [`GITHUB_REPOSITORY_QUERY`] for one request.
#[derive(Debug)]
pub struct SearchVariables {
    git_hub_search_string: String,
    limit: usize,
    cursor_offset: Option<String>,
}

impl View for SearchVariables {
    type V = SearchVariablesView;

    closed spec fn view(&self) -> SearchVariablesView {
        SearchVariablesView {
            search_string: self.git_hub_search_string@,
            limit: self.limit as nat,
            cursor_offset: match self.cursor_offset {
                Some(cursor) => Some(cursor@),
                None => None,
            },
        }
    }
}

impl SearchVariables {
    /// `$gitHubSearchString`.
    pub fn git_hub_search_string(&self) -> (text: &str)
        ensures
            text@ == self@.search_string,
    {
        self.git_hub_search_string.as_str()
    }

    /// `$limit`.
    pub fn limit(&self) -> (limit: usize)
        ensures
            limit == self@.limit,
    {
        self.limit
    }

    /// `$cursorOffset`.
    pub fn cursor_offset(&self) -> (cursor: Option<&str>)
        ensures
            match cursor {
                Some(c) => self@.cursor_offset == Some(c@),
                None => self@.cursor_offset.is_none(),
            },
    {
        match &self.cursor_offset {
            Some(cursor) => Some(cursor.as_str()),
            None => None,
        }
    }

    /// The field of `$languageOrderBy`: languages are ordered by size.
    pub fn language_order_field(&self) -> (field: &'static str)
        ensures
            field@ == "SIZE"@,
    {
        "SIZE"
    }

    /// The direction of `$languageOrderBy`: largest first.
    pub fn language_order_direction(&self) -> (direction: &'static str)
        ensures
            direction@ == "DESC"@,
    {
        "DESC"
    }
}

/// Builds the variables of one request. The stars and the name filter go into
/// the search string; nothing is filtered after the page has come back.
pub fn github_repository_search_variables(
    limit: usize,
    cursor_offset: Option<&str>,
    min_stars: Option<usize>,
    repo: Option<&Repo>,
) -> (variables: SearchVariables)
    ensures
        variables@.limit == limit,
        variables@.cursor_offset == match cursor_offset {
            Some(cursor) => Some(cursor@),
            None => None,
        },
        variables@.search_string == search_string(
            match min_stars {
                Some(stars) => stars as nat,
                None => DEFAULT_MIN_STARS as nat,
            },
            match repo {
                Some(r) => Some(r@),
                None => None,
            },
        ),
{
    let stars: usize = match min_stars {
        Some(stars) => stars,
        None => DEFAULT_MIN_STARS,
    };
    let mut text = String::from_str("language:rust topic:rust stars:>=");
    push_decimal(&mut text, stars as u128);
    text.append(" template:false archived:false");
    match repo {
        None => {
            assert(text@ =~= text@ + Seq::<char>::empty());
        },
        Some(Repo::Name(name)) => {
            text.append(" ");
            text.append(name.as_str());
            text.append(" in:name");
            assert(text@ =~= search_string(stars as nat, Some(RepoView::Name(name@))));
        },
        Some(Repo::NameWithOwner(name)) => {
            text.append(" repo:");
            text.append(name.as_str());
            assert(text@ =~= search_string(stars as nat, Some(RepoView::NameWithOwner(name@))));
        },
    }
    let cursor: Option<String> = match cursor_offset {
        Some(cursor) => Some(String::from_str(cursor)),
        None => None,
    };
    SearchVariables { git_hub_search_string: text, limit, cursor_offset: cursor }
}

/// What one request says.
pub struct SearchRequestView {
    pub variables: SearchVariablesView,
}

/// One request to the search backend: the operation, the query and its
/// variables, ready to be put into the body of the call.
#[derive(Debug)]
pub struct SearchRequest {
    variables: SearchVariables,
}

impl View for SearchRequest {
    type V = SearchRequestView;

    closed spec fn view(&self) -> SearchRequestView {
        SearchRequestView { variables: self.variables@ }
    }
}

impl SearchRequest {
    pub fn new(variables: SearchVariables) -> (request: SearchRequest)
        ensures
            request@.variables == variables@,
    {
        SearchRequest { variables }
    }

    /// Where the request goes.
    pub fn endpoint(&self) -> (url: &'static str)
        ensures
            url@ == GITHUB_GRAPHQL_URL@,
    {
        GITHUB_GRAPHQL_URL
    }

    /// `operationName` of the body.
    pub fn operation_name(&self) -> (name: &'static str)
        ensures
            name@ == GITHUB_REPOSITORY_OPERATION@,
    {
        GITHUB_REPOSITORY_OPERATION
    }

    /// `query` of the body.
    pub fn query(&self) -> (query: &'static str)
        ensures
            query@ == GITHUB_REPOSITORY_QUERY@,
    {
        GITHUB_REPOSITORY_QUERY
    }

    /// `variables` of the body.
    pub fn variables(&self) -> (variables: &SearchVariables)
        ensures
            variables@ == self@.variables,
    {
        &self.variables
    }
}

/// What a decoded page says.
pub struct SearchPageView {
    pub repository_count: nat,
    pub has_next_page: bool,
    pub end_cursor: Option<Seq<char>>,
    pub repositories: Seq<RepositoryRecord>,
}

impl SearchPageView {
    /// The cursor to go on with: the one that came with the page, and none
    /// where the backend says that no page follows.
    pub open spec fn next_page(self) -> Option<Seq<char>> {
        if self.has_next_page {
            self.end_cursor
        } else {
            None
        }
    }
}

/// One page of search results, decoded.
#[derive(Debug)]
pub struct GitHubSearchResult {
    /// The total number of repositories that matched the search query.
    repository_count: usize,
    /// When paginating forwards, are there more items?
    has_next_page: bool,
    /// When paginating forwards, the cursor to continue.
    end_cursor: Option<String>,
    /// The repositories of this page, in the backend's order.
    repositories: Vec<RepositoryInfo>,
}

impl View for GitHubSearchResult {
    type V = SearchPageView;

    closed spec fn view(&self) -> SearchPageView {
        SearchPageView {
            repository_count: self.repository_count as nat,
            has_next_page: self.has_next_page,
            end_cursor: match self.end_cursor {
                Some(cursor) => Some(cursor@),
                None => None,
            },
            repositories: self.repositories@.map_values(|info: RepositoryInfo| info@),
        }
    }
}

impl GitHubSearchResult {
    pub fn new(
        repository_count: usize,
        has_next_page: bool,
        end_cursor: Option<String>,
        repositories: Vec<RepositoryInfo>,
    ) -> (page: GitHubSearchResult)
        ensures
            page@ == (SearchPageView {
                repository_count: repository_count as nat,
                has_next_page,
                end_cursor: match end_cursor {
                    Some(cursor) => Some(cursor@),
                    None => None,
                },
                repositories: repositories@.map_values(|info: RepositoryInfo| info@),
            }),
    {
        GitHubSearchResult { repository_count, has_next_page, end_cursor, repositories }
    }

    /// The total number of repositories that met the search criteria.
    pub fn total_repository_count(&self) -> (count: usize)
        ensures
            count == self@.repository_count,
    {
        self.repository_count
    }

    /// Token for the next page of data if it exists.
    pub fn next_page(&self) -> (cursor: Option<&str>)
        ensures
            match cursor {
                Some(c) => self@.next_page() == Some(c@),
                None => self@.next_page().is_none(),
            },
    {
        if self.has_next_page {
            match &self.end_cursor {
                Some(cursor) => Some(cursor.as_str()),
                None => None,
            }
        } else {
            None
        }
    }

    /// Converts the page into its repositories, in the backend's order.
    pub fn into_repositories(self) -> (repositories: Vec<Repository>)
        ensures
            repositories@.map_values(|r: Repository| r@) == self@.repositories,
    {
        let ghost infos = self.repositories@;
        let n: usize = self.repositories.len();
        let mut stack: Vec<RepositoryInfo> = crate::vectors::reversed(self.repositories);
        let mut repositories: Vec<Repository> = Vec::new();
        let mut i: usize = 0;
        while i < n
            invariant
                i <= n,
                n == infos.len(),
                stack@.len() == n - i,
                forall|j: int| 0 <= j < stack@.len() ==> stack@[j] == infos[n - 1 - j],
                repositories@.len() == i,
                forall|j: int| 0 <= j < i ==> (#[trigger] repositories@[j])@ == infos[j]@,
            decreases n - i,
        {
            let info = stack.pop().unwrap();
            repositories.push(Repository::from_search(info));
            i = i + 1;
        }
        assert(repositories@.map_values(|r: Repository| r@) =~= infos.map_values(
            |info: RepositoryInfo| info@,
        ));
        repositories
    }
}

/// Why a request gave no page.
#[derive(Clone, Copy, Debug, PartialEq, Eq)]
pub enum SearchFailure {
    /// The request could not be sent, or no answer came back.
    Transport,
    /// The answer could not be decoded.
    Decode,
}

/// What the backend answered: the data asked for, or its complaint.
#[derive(Debug)]
pub struct GraphQLResponse {
    pub data: Option<GitHubSearchResult>,
    pub error: Option<serde_json::Value>,
}

impl GraphQLResponse {
    /// The page in the answer; an answer without data is a failure, whatever
    /// else it holds.
    pub fn into_data(self) -> (data: Option<GitHubSearchResult>)
        ensures
            data == self.data,
    {
        self.data
    }
}

} // verus!
