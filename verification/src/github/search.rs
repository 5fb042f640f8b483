//! The search: its configuration, and the iterator that pages through the
//! results one request at a time.

use vstd::prelude::*;
use vstd::string::*;
use std::collections::VecDeque;
use crate::github::graphql::{
    github_repository_search_variables, search_string, GitHubSearchResult, GraphQLResponse,
    RepositoryRecord, SearchFailure, SearchPageView, SearchRequest, SearchRequestView,
};
use crate::github::Repository;
use crate::outside::{header_value_accepts, is_header_value};
use crate::text::contains_char;

verus! {

/// What a [`Repo`] holds.
pub enum RepoView {
    Name(Seq<char>),
    NameWithOwner(Seq<char>),
}

impl RepoView {
    /// The name as it was given.
    pub open spec fn text(self) -> Seq<char> {
        match self {
            RepoView::Name(name) => name,
            RepoView::NameWithOwner(name) => name,
        }
    }
}

/// The name of the repository that is looked for.
#[derive(Debug)]
pub enum Repo {
    /// A bare name, such as `rustfmt`.
    Name(String),
    /// A name with its owner, such as `rust-lang/rustfmt`.
    NameWithOwner(String),
}

impl View for Repo {
    type V = RepoView;

    open spec fn view(&self) -> RepoView {
        match self {
            Repo::Name(name) => RepoView::Name(name@),
            Repo::NameWithOwner(name) => RepoView::NameWithOwner(name@),
        }
    }
}

/// A name with a slash in it gives the owner too.
pub open spec fn repo_of(name: Seq<char>) -> RepoView {
    if name.contains('/') {
        RepoView::NameWithOwner(name)
    } else {
        RepoView::Name(name)
    }
}

impl Repo {
    /// Reads a repository name: owner-qualified where it holds a slash, bare
    /// otherwise.
    pub fn parse(s: &str) -> (repo: Repo)
        ensures
            repo@ == repo_of(s@),
    {
        if contains_char(s, '/') {
            Repo::NameWithOwner(String::from_str(s))
        } else {
            Repo::Name(String::from_str(s))
        }
    }

    /// The name as it was given.
    pub fn as_str(&self) -> (name: &str)
        ensures
            name@ == self@.text(),
    {
        match self {
            Repo::Name(s) => s.as_str(),
            Repo::NameWithOwner(s) => s.as_str(),
        }
    }
}

impl std::str::FromStr for Repo {
    type Err = std::convert::Infallible;

    /// Reads a repository name; there is no text that is none.
    fn from_str(s: &str) -> (repo: Result<Repo, std::convert::Infallible>)
        ensures
            repo matches Ok(name) && name@ == repo_of(s@),
    {
        Ok(Repo::parse(s))
    }
}

impl std::ops::Deref for Repo {
    type Target = str;

    /// The name as it was given, with the owner where it was given with one.
    fn deref(&self) -> (name: &str)
        ensures
            name@ == self@.text(),
    {
        self.as_str()
    }
}

impl Clone for Repo {
    fn clone(&self) -> (copy: Repo)
        ensures
            copy@ == self@,
    {
        match self {
            Repo::Name(s) => Repo::Name(s.clone()),
            Repo::NameWithOwner(s) => Repo::NameWithOwner(s.clone()),
        }
    }
}

/// Most repositories that the backend hands out on one page.
pub const MAX_REPOSITORIES_PER_PAGE: usize = 1000;

/// What a [`GitHubRepoSearch`] is set to.
pub struct SearchConfig {
    pub api_key: Seq<char>,
    pub user_agent: Seq<char>,
    pub min_stars: nat,
    pub limit: nat,
    pub max_requests: Option<nat>,
    pub repo_name: Option<RepoView>,
}

/// Configure searches for repositories.
pub struct GitHubRepoSearch<'a> {
    /// API key used to authenticate the calls.
    api_key: &'a str,
    /// User agent, so that the backend knows which program is asking.
    user_agent: &'a str,
    /// Only repositories with this number of stars or more are searched for.
    min_stars: usize,
    /// The number of results to return on each page.
    limit: usize,
    /// Most pages that the search will ask the backend for.
    max_requests: Option<usize>,
    /// Name of the repository to search for.
    repo_name: Option<Repo>,
}

impl<'a> View for GitHubRepoSearch<'a> {
    type V = SearchConfig;

    closed spec fn view(&self) -> SearchConfig {
        SearchConfig {
            api_key: self.api_key@,
            user_agent: self.user_agent@,
            min_stars: self.min_stars as nat,
            limit: self.limit as nat,
            max_requests: match self.max_requests {
                Some(m) => Some(m as nat),
                None => None,
            },
            repo_name: match self.repo_name {
                Some(repo) => Some(repo@),
                None => None,
            },
        }
    }
}

/// The text of the `Authorization` header for an API key.
pub open spec fn bearer(api_key: Seq<char>) -> Seq<char> {
    "Bearer "@ + api_key
}

impl<'a> GitHubRepoSearch<'a> {
    /// A search for repositories with 50 stars or more, 100 on a page, one
    /// page, any name.
    pub fn new(api_key: &'a str, user_agent: &'a str) -> (search: Self)
        ensures
            search@ == (SearchConfig {
                api_key: api_key@,
                user_agent: user_agent@,
                min_stars: 50,
                limit: 100,
                max_requests: Some(1nat),
                repo_name: None,
            }),
    {
        Self {
            api_key,
            user_agent,
            min_stars: 50,
            limit: 100,
            max_requests: Some(1),
            repo_name: None,
        }
    }

    /// Set the number of repositories that should be returned on each request.
    /// The backend hands out at most 1000; a larger number is cut down to that.
    pub fn repositories_per_page(&mut self, limit: usize) -> (chained: &mut Self)
        ensures
            chained@ == (SearchConfig {
                limit: if limit <= MAX_REPOSITORIES_PER_PAGE {
                    limit as nat
                } else {
                    MAX_REPOSITORIES_PER_PAGE as nat
                },
                ..old(self)@
            }),
            *final(self) == *final(chained),
    {
        self.limit = if limit <= MAX_REPOSITORIES_PER_PAGE {
            limit
        } else {
            MAX_REPOSITORIES_PER_PAGE
        };
        self
    }

    /// Set the minimum number of stars used to filter repositories.
    pub fn min_stars(&mut self, min_stars: usize) -> (chained: &mut Self)
        ensures
            chained@ == (SearchConfig { min_stars: min_stars as nat, ..old(self)@ }),
            *final(self) == *final(chained),
    {
        self.min_stars = min_stars;
        self
    }

    /// Set the max number of pages to fetch when iterating over
    /// [`RepoSearchResults`].
    pub fn max_pages(&mut self, max_requests: usize) -> (chained: &mut Self)
        ensures
            chained@ == (SearchConfig { max_requests: Some(max_requests as nat), ..old(self)@ }),
            *final(self) == *final(chained),
    {
        self.max_requests = Some(max_requests);
        self
    }

    /// Set the repository name to search for.
    pub fn repository_name(&mut self, name: &str) -> (chained: &mut Self)
        ensures
            chained@ == (SearchConfig { repo_name: Some(repo_of(name@)), ..old(self)@ }),
            *final(self) == *final(chained),
    {
        self.repo_name = Some(Repo::parse(name));
        self
    }

    /// Build a [`RepoSearchResults`] from the configured search. Nothing is
    /// sent yet. There is no search where the API key or the user agent cannot
    /// stand in an HTTP header.
    pub fn search(self) -> (results: Option<RepoSearchResults>)
        ensures
            results.is_some() == (is_header_value(bearer(self@.api_key)) && is_header_value(
                self@.user_agent,
            )),
            results matches Some(r) ==> {
                &&& r@ == SearchState::start(self@)
                &&& r@.well_formed()
                &&& r.authorization_view() == bearer(self@.api_key)
                &&& r.user_agent_view() == self@.user_agent
            },
    {
        let authorization = String::from_str("Bearer ").concat(self.api_key);
        if !header_value_accepts(authorization.as_str()) {
            return None;
        }
        if !header_value_accepts(self.user_agent) {
            return None;
        }
        let buffered_repos: VecDeque<Repository> = VecDeque::new();
        assert(buffered_repos@.map_values(|r: Repository| r@) =~= Seq::empty());
        Some(
            RepoSearchResults {
                authorization,
                user_agent: String::from_str(self.user_agent),
                next_page: None,
                min_stars: self.min_stars,
                limit: self.limit,
                max_requests: self.max_requests,
                repo_name: self.repo_name,
                buffered_repos,
                progress: Progress {
                    successful_requests_made: 0,
                    requests_issued: 0,
                    awaiting: false,
                    failed: false,
                },
            },
        )
    }
}

/// The state of one iteration over search results.
pub struct SearchState {
    /// Where the next page begins; `None` before the first page and once the
    /// backend has said that no page follows.
    pub next_page: Option<Seq<char>>,
    pub min_stars: nat,
    pub limit: nat,
    /// Pages that came back and were decoded.
    pub pages_fetched: nat,
    /// Most pages that may be asked for; `None` sets no ceiling.
    pub max_requests: Option<nat>,
    pub repo_name: Option<RepoView>,
    /// Records of the current page that were not handed out yet, in order.
    pub buffered: Seq<RepositoryRecord>,
    /// Requests handed out so far.
    pub requests_issued: nat,
    /// A request was handed out and its response has not been delivered.
    pub awaiting: bool,
    /// A request failed; no other will be made.
    pub failed: bool,
}

impl SearchState {
    /// The state before anything was asked.
    pub open spec fn start(config: SearchConfig) -> SearchState {
        SearchState {
            next_page: None,
            min_stars: config.min_stars,
            limit: config.limit,
            pages_fetched: 0,
            max_requests: config.max_requests,
            repo_name: config.repo_name,
            buffered: Seq::empty(),
            requests_issued: 0,
            awaiting: false,
            failed: false,
        }
    }

    /// Every request is accounted for: it gave a page, or it is under way, or
    /// it failed; and no more were made than the ceiling allows.
    pub open spec fn well_formed(self) -> bool {
        &&& self.requests_issued == self.pages_fetched + (if self.awaiting || self.failed {
            1nat
        } else {
            0nat
        })
        &&& !(self.awaiting && self.failed)
        &&& self.requests_issued <= usize::MAX
        &&& self.max_requests matches Some(m) ==> self.requests_issued <= m
    }

    /// As many pages came back as may be asked for.
    pub open spec fn ceiling_reached(self) -> bool {
        self.max_requests matches Some(m) && m <= self.pages_fetched
    }

    /// The backend has said that no page follows the last one.
    pub open spec fn exhausted(self) -> bool {
        self.pages_fetched > 0 && self.next_page.is_none()
    }

    /// A request may be made now: none is under way, none has failed, the
    /// ceiling is not reached, the backend has not said that no page follows,
    /// and the count of requests has room for one more.
    pub open spec fn may_request(self) -> bool {
        &&& !self.awaiting
        &&& !self.failed
        &&& !self.ceiling_reached()
        &&& !self.exhausted()
        &&& self.requests_issued < usize::MAX
    }

    /// The request that is made in this state.
    pub open spec fn request(self) -> SearchRequestView {
        SearchRequestView {
            variables: crate::github::graphql::SearchVariablesView {
                search_string: search_string(self.min_stars, self.repo_name),
                limit: self.limit,
                cursor_offset: self.next_page,
            },
        }
    }

    /// The state once the request of this state has been handed out; where
    /// none may be made, nothing changes.
    pub open spec fn after_request(self) -> SearchState {
        if self.may_request() {
            SearchState { awaiting: true, requests_issued: self.requests_issued + 1, ..self }
        } else {
            self
        }
    }

    /// The state once the response to the outstanding request has been
    /// delivered: `None` for a request that failed, the page otherwise. Where
    /// no request is outstanding, nothing changes.
    pub open spec fn after_response(self, page: Option<SearchPageView>) -> SearchState {
        if !self.awaiting {
            self
        } else {
            match page {
                None => SearchState { awaiting: false, failed: true, ..self },
                Some(p) => SearchState {
                    awaiting: false,
                    next_page: p.next_page(),
                    pages_fetched: self.pages_fetched + 1,
                    ..self
                },
            }
        }
    }

    /// The records that the delivered response brings.
    pub open spec fn page_records(self, page: Option<SearchPageView>) -> Option<
        Seq<RepositoryRecord>,
    > {
        if !self.awaiting {
            None
        } else {
            match page {
                None => None,
                Some(p) => Some(p.repositories),
            }
        }
    }
}

/// The page that a response holds, if it holds one.
pub open spec fn page_of(response: Result<GraphQLResponse, SearchFailure>) -> Option<
    SearchPageView,
> {
    match response {
        Ok(answer) => match answer.data {
            Some(page) => Some(page@),
            None => None,
        },
        Err(_) => None,
    }
}

/// Handing out a request keeps the state well formed.
pub proof fn lemma_request_keeps_well_formed(state: SearchState)
    requires
        state.well_formed(),
    ensures
        state.after_request().well_formed(),
{
}

/// Delivering a response keeps the state well formed, whatever the response.
pub proof fn lemma_response_keeps_well_formed(state: SearchState, page: Option<SearchPageView>)
    requires
        state.well_formed(),
    ensures
        state.after_response(page).well_formed(),
{
}

#[derive(Clone, Copy, Debug)]
struct Progress {
    successful_requests_made: usize,
    requests_issued: usize,
    awaiting: bool,
    failed: bool,
}

/// Pages through the results of a search.
///
/// The iterator does not call the backend itself. It says which request is to
/// be made, and takes the response when it has come.
pub struct RepoSearchResults {
    authorization: String,
    user_agent: String,
    next_page: Option<String>,
    min_stars: usize,
    limit: usize,
    max_requests: Option<usize>,
    repo_name: Option<Repo>,
    buffered_repos: VecDeque<Repository>,
    progress: Progress,
}

impl View for RepoSearchResults {
    type V = SearchState;

    closed spec fn view(&self) -> SearchState {
        SearchState {
            next_page: match self.next_page {
                Some(cursor) => Some(cursor@),
                None => None,
            },
            min_stars: self.min_stars as nat,
            limit: self.limit as nat,
            pages_fetched: self.progress.successful_requests_made as nat,
            max_requests: match self.max_requests {
                Some(m) => Some(m as nat),
                None => None,
            },
            repo_name: match self.repo_name {
                Some(repo) => Some(repo@),
                None => None,
            },
            buffered: self.buffered_repos@.map_values(|r: Repository| r@),
            requests_issued: self.progress.requests_issued as nat,
            awaiting: self.progress.awaiting,
            failed: self.progress.failed,
        }
    }
}

/// What the caller of [`RepoSearchResults::next`] is to do.
#[derive(Debug)]
pub enum SearchStep {
    /// Here is the next repository.
    Yield(Repository),
    /// Make this request, and deliver the response with
    /// [`RepoSearchResults::receive`].
    Fetch(SearchRequest),
    /// A request is outstanding: deliver its response first.
    Waiting,
    /// There is nothing more, now or later.
    Done,
}

/// What a [`SearchStep`] says.
pub enum SearchStepView {
    Yield(RepositoryRecord),
    Fetch(SearchRequestView),
    Waiting,
    Done,
}

impl View for SearchStep {
    type V = SearchStepView;

    open spec fn view(&self) -> SearchStepView {
        match self {
            SearchStep::Yield(repository) => SearchStepView::Yield(repository@),
            SearchStep::Fetch(request) => SearchStepView::Fetch(request@),
            SearchStep::Waiting => SearchStepView::Waiting,
            SearchStep::Done => SearchStepView::Done,
        }
    }
}

impl SearchState {
    /// What [`RepoSearchResults::next`] answers in this state: the first
    /// buffered record if there is one; otherwise the request for the next
    /// page, if one may be made.
    pub open spec fn step(self) -> SearchStepView {
        if self.buffered.len() > 0 {
            SearchStepView::Yield(self.buffered[0])
        } else if self.awaiting {
            SearchStepView::Waiting
        } else if self.may_request() {
            SearchStepView::Fetch(self.request())
        } else {
            SearchStepView::Done
        }
    }

    /// The state after [`RepoSearchResults::next`].
    pub open spec fn after_step(self) -> SearchState {
        if self.buffered.len() > 0 {
            SearchState { buffered: self.buffered.skip(1), ..self }
        } else {
            self.after_request()
        }
    }

    /// The record that [`RepoSearchResults::receive`] hands out: the first of
    /// what is buffered once the page has been added.
    pub open spec fn received(self, page: Option<SearchPageView>) -> Option<RepositoryRecord> {
        match self.page_records(page) {
            Some(records) => if (self.buffered + records).len() > 0 {
                Some((self.buffered + records)[0])
            } else {
                None
            },
            None => None,
        }
    }

    /// The state after [`RepoSearchResults::receive`].
    pub open spec fn after_receive(self, page: Option<SearchPageView>) -> SearchState {
        match self.page_records(page) {
            Some(records) => SearchState {
                buffered: if (self.buffered + records).len() > 0 {
                    (self.buffered + records).skip(1)
                } else {
                    self.buffered + records
                },
                ..self.after_response(page)
            },
            None => self.after_response(page),
        }
    }
}

impl RepoSearchResults {
    #[verifier::type_invariant]
    spec fn accounted(&self) -> bool {
        self@.well_formed()
    }

    /// The text of the `Authorization` header that goes with every request.
    pub closed spec fn authorization_view(&self) -> Seq<char> {
        self.authorization@
    }

    /// The text of the `User-Agent` header that goes with every request.
    pub closed spec fn user_agent_view(&self) -> Seq<char> {
        self.user_agent@
    }

    /// The `Authorization` header that goes with every request.
    pub fn authorization(&self) -> (text: &str)
        ensures
            text@ == self.authorization_view(),
    {
        self.authorization.as_str()
    }

    /// The `User-Agent` header that goes with every request.
    pub fn user_agent(&self) -> (text: &str)
        ensures
            text@ == self.user_agent_view(),
    {
        self.user_agent.as_str()
    }

    /// Returns the token that the next page is asked for with, if there is one.
    pub fn next_page(&self) -> (cursor: Option<&str>)
        ensures
            match cursor {
                Some(c) => self@.next_page == Some(c@),
                None => self@.next_page.is_none(),
            },
    {
        match &self.next_page {
            Some(cursor) => Some(cursor.as_str()),
            None => None,
        }
    }

    /// Requests handed out so far. There are never more than the ceiling
    /// allows, whatever the backend answered.
    pub fn requests_issued(&self) -> (count: usize)
        ensures
            count == self@.requests_issued,
            self@.well_formed(),
            self@.max_requests matches Some(m) ==> count <= m,
    {
        proof {
            use_type_invariant(self);
        }
        self.progress.requests_issued
    }

    /// Pages that came back and were decoded.
    pub fn successful_requests_made(&self) -> (count: usize)
        ensures
            count == self@.pages_fetched,
            self@.well_formed(),
            self@.max_requests matches Some(m) ==> count <= m,
    {
        proof {
            use_type_invariant(self);
        }
        self.progress.successful_requests_made
    }

    /// A request was handed out and its response has not been delivered.
    pub fn is_awaiting(&self) -> (awaiting: bool)
        ensures
            awaiting == self@.awaiting,
    {
        self.progress.awaiting
    }

    /// A request failed, and no other will be made.
    pub fn has_failed(&self) -> (failed: bool)
        ensures
            failed == self@.failed,
    {
        self.progress.failed
    }

    /// Records that are buffered and not handed out yet.
    pub fn buffered(&self) -> (count: usize)
        ensures
            count == self@.buffered.len(),
    {
        self.buffered_repos.len()
    }

    fn may_request(&self) -> (may: bool)
        ensures
            may == self@.may_request(),
    {
        if self.progress.awaiting || self.progress.failed {
            return false;
        }
        if let Some(max_requests) = self.max_requests {
            if max_requests <= self.progress.successful_requests_made {
                return false;
            }
        }
        if self.progress.successful_requests_made > 0 && self.next_page.is_none() {
            return false;
        }
        self.progress.requests_issued < usize::MAX
    }

    /// The request for the next page, if one may be made now: none is
    /// outstanding, none has failed, the ceiling is not reached and the backend
    /// has not said that no page follows. The request carries the cursor that
    /// came with the page before, and none for the first page.
    pub fn page_request(&mut self) -> (request: Option<SearchRequest>)
        ensures
            final(self)@ == old(self)@.after_request(),
            final(self)@.well_formed(),
            final(self).authorization_view() == old(self).authorization_view(),
            final(self).user_agent_view() == old(self).user_agent_view(),
            match request {
                Some(r) => old(self)@.may_request() && r@ == old(self)@.request(),
                None => !old(self)@.may_request(),
            },
    {
        proof {
            use_type_invariant(&*self);
            lemma_request_keeps_well_formed(self@);
        }
        if !self.may_request() {
            return None;
        }
        let variables = github_repository_search_variables(
            self.limit,
            self.next_page(),
            Some(self.min_stars),
            self.repo_name.as_ref(),
        );
        self.progress = Progress {
            successful_requests_made: self.progress.successful_requests_made,
            requests_issued: self.progress.requests_issued + 1,
            awaiting: true,
            failed: false,
        };
        Some(SearchRequest::new(variables))
    }

    /// Takes the response to the outstanding request and hands out the page.
    ///
    /// A response that failed, or that holds no data, ends the search: `None`
    /// comes back, the page count and the cursor stay as they are, and no
    /// other request will be made. A page sets the cursor to the one that came
    /// with it, or clears it where the backend says that no page follows, and
    /// counts as one page fetched; its repositories come back in the
    /// backend's order. Without an outstanding request nothing changes.
    pub fn get_next_page(&mut self, response: Result<GraphQLResponse, SearchFailure>) -> (page:
        Option<Vec<Repository>>)
        ensures
            final(self)@ == old(self)@.after_response(page_of(response)),
            final(self)@.well_formed(),
            final(self).authorization_view() == old(self).authorization_view(),
            final(self).user_agent_view() == old(self).user_agent_view(),
            match page {
                Some(repositories) => old(self)@.page_records(page_of(response)) == Some(
                    repositories@.map_values(|r: Repository| r@),
                ),
                None => old(self)@.page_records(page_of(response)).is_none(),
            },
    {
        proof {
            use_type_invariant(&*self);
            lemma_response_keeps_well_formed(self@, page_of(response));
        }
        if !self.progress.awaiting {
            return None;
        }
        let data = match response {
            Ok(answer) => answer.into_data(),
            Err(_) => None,
        };
        match data {
            None => {
                self.progress = Progress {
                    successful_requests_made: self.progress.successful_requests_made,
                    requests_issued: self.progress.requests_issued,
                    awaiting: false,
                    failed: true,
                };
                None
            },
            Some(search_results) => {
                self.next_page = match search_results.next_page() {
                    Some(cursor) => Some(String::from_str(cursor)),
                    None => None,
                };
                self.progress = Progress {
                    successful_requests_made: self.progress.successful_requests_made + 1,
                    requests_issued: self.progress.requests_issued,
                    awaiting: false,
                    failed: false,
                };
                Some(search_results.into_repositories())
            },
        }
    }

    fn pop_buffered(&mut self) -> (repository: Option<Repository>)
        ensures
            match repository {
                Some(r) => old(self)@.buffered.len() > 0 && r@ == old(self)@.buffered[0]
                    && final(self)@ == (SearchState {
                    buffered: old(self)@.buffered.skip(1),
                    ..old(self)@
                }),
                None => old(self)@.buffered.len() == 0 && final(self)@ == old(self)@,
            },
            final(self).authorization_view() == old(self).authorization_view(),
            final(self).user_agent_view() == old(self).user_agent_view(),
    {
        proof {
            use_type_invariant(&*self);
        }
        let mut buffer: VecDeque<Repository> = VecDeque::new();
        core::mem::swap(&mut self.buffered_repos, &mut buffer);
        let ghost before = buffer@;
        let repository = buffer.pop_front();
        proof {
            if before.len() > 0 {
                assert(buffer@.map_values(|r: Repository| r@) =~= before.map_values(
                    |r: Repository| r@,
                ).skip(1));
            }
        }
        self.buffered_repos = buffer;
        repository
    }

    fn push_buffered(&mut self, repositories: Vec<Repository>)
        ensures
            final(self)@ == (SearchState {
                buffered: old(self)@.buffered + repositories@.map_values(|r: Repository| r@),
                ..old(self)@
            }),
            final(self).authorization_view() == old(self).authorization_view(),
            final(self).user_agent_view() == old(self).user_agent_view(),
    {
        proof {
            use_type_invariant(&*self);
        }
        let mut buffer: VecDeque<Repository> = VecDeque::new();
        core::mem::swap(&mut self.buffered_repos, &mut buffer);
        let ghost before = buffer@;
        let ghost added = repositories@;
        let mut rest: Vec<Repository> = repositories;
        let mut incoming: VecDeque<Repository> = VecDeque::new();
        while rest.len() > 0
            invariant
                rest@ + incoming@ =~= added,
            decreases rest@.len(),
        {
            let ghost shorter = rest@.drop_last();
            let repository = rest.pop().unwrap();
            incoming.push_front(repository);
            assert(rest@ =~= shorter);
        }
        assert(incoming@ =~= added);
        buffer.append(&mut incoming);
        proof {
            assert(buffer@.map_values(|r: Repository| r@) =~= before.map_values(
                |r: Repository| r@,
            ) + added.map_values(|r: Repository| r@));
        }
        self.buffered_repos = buffer;
    }

    /// The next step of the iteration.
    ///
    /// A buffered record is handed out without asking the backend. With the
    /// buffer empty, the answer is the request for the next page where one may
    /// be made, and [`SearchStep::Done`] where none may: after a failure, at
    /// the ceiling, and once the backend has no further page.
    pub fn next(&mut self) -> (step: SearchStep)
        ensures
            step@ == old(self)@.step(),
            final(self)@ == old(self)@.after_step(),
            final(self)@.well_formed(),
            final(self).authorization_view() == old(self).authorization_view(),
            final(self).user_agent_view() == old(self).user_agent_view(),
    {
        if let Some(repository) = self.pop_buffered() {
            proof {
                use_type_invariant(&*self);
            }
            return SearchStep::Yield(repository);
        }
        if self.progress.awaiting {
            proof {
                use_type_invariant(&*self);
            }
            return SearchStep::Waiting;
        }
        match self.page_request() {
            Some(request) => SearchStep::Fetch(request),
            None => SearchStep::Done,
        }
    }

    /// Takes the response to the request that [`RepoSearchResults::next`]
    /// asked for, buffers the whole page, and hands out its first record.
    pub fn receive(&mut self, response: Result<GraphQLResponse, SearchFailure>) -> (repository:
        Option<Repository>)
        ensures
            final(self)@ == old(self)@.after_receive(page_of(response)),
            final(self)@.well_formed(),
            final(self).authorization_view() == old(self).authorization_view(),
            final(self).user_agent_view() == old(self).user_agent_view(),
            match repository {
                Some(r) => old(self)@.received(page_of(response)) == Some(r@),
                None => old(self)@.received(page_of(response)).is_none(),
            },
    {
        match self.get_next_page(response) {
            Some(repositories) => {
                self.push_buffered(repositories);
                let repository = self.pop_buffered();
                proof {
                    use_type_invariant(&*self);
                }
                repository
            },
            None => None,
        }
    }
}

impl SearchState {
    /// The state with nothing buffered.
    pub open spec fn drained(self) -> SearchState {
        SearchState { buffered: Seq::empty(), ..self }
    }

    /// The state in which the next page is iterated over, once `page` has
    /// answered the request of this state.
    pub open spec fn turned(self, page: SearchPageView) -> SearchState {
        SearchState {
            buffered: page.repositories,
            ..self.drained().after_request().after_response(Some(page))
        }
    }

    /// The pages that an iteration takes from this state on, when the backend
    /// answers the requests with `responses`, one after the other. The
    /// iteration ends when the iterator has nothing to hand out: no request
    /// may be made, or the request fails, or its page is empty.
    pub open spec fn pages_taken(self, responses: Seq<Option<SearchPageView>>) -> Seq<
        SearchPageView,
    >
        decreases responses.len(),
    {
        if !self.drained().may_request() || responses.len() == 0 {
            Seq::empty()
        } else {
            match responses[0] {
                None => Seq::empty(),
                Some(page) => if page.repositories.len() == 0 {
                    Seq::empty()
                } else {
                    seq![page] + self.turned(page).pages_taken(responses.drop_first())
                },
            }
        }
    }

    /// The requests that the iteration makes.
    pub open spec fn requests(self, responses: Seq<Option<SearchPageView>>) -> Seq<
        SearchRequestView,
    >
        decreases responses.len(),
    {
        if !self.drained().may_request() || responses.len() == 0 {
            Seq::empty()
        } else {
            seq![self.request()] + (match responses[0] {
                None => Seq::empty(),
                Some(page) => if page.repositories.len() == 0 {
                    Seq::empty()
                } else {
                    self.turned(page).requests(responses.drop_first())
                },
            })
        }
    }

    /// The records that the iteration hands out, until it answers with none
    /// for the first time.
    pub open spec fn yielded(self, responses: Seq<Option<SearchPageView>>) -> Seq<
        RepositoryRecord,
    >
        decreases responses.len(),
    {
        self.buffered + (if !self.drained().may_request() || responses.len() == 0 {
            Seq::empty()
        } else {
            match responses[0] {
                None => Seq::empty(),
                Some(page) => if page.repositories.len() == 0 {
                    Seq::empty()
                } else {
                    self.turned(page).yielded(responses.drop_first())
                },
            }
        })
    }
}

/// The records of the pages, page after page.
pub open spec fn records_in(pages: Seq<SearchPageView>) -> Seq<RepositoryRecord> {
    pages.map_values(|page: SearchPageView| page.repositories).flatten()
}

/// With a record in the buffer, the iterator hands out the first one, and the
/// iteration goes on with the rest.
pub proof fn lemma_iteration_yields_buffered(
    state: SearchState,
    responses: Seq<Option<SearchPageView>>,
)
    requires
        state.buffered.len() > 0,
    ensures
        state.step() == SearchStepView::Yield(state.buffered[0]),
        state.yielded(responses) == seq![state.buffered[0]] + state.after_step().yielded(
            responses,
        ),
        state.after_step().requests(responses) == state.requests(responses),
        state.after_step().pages_taken(responses) == state.pages_taken(responses),
{
    let next = state.after_step();
    assert(next.drained() == state.drained());
    assert(next.request() == state.request());
    if state.drained().may_request() && responses.len() > 0 {
        if let Some(page) = responses[0] {
            assert(next.turned(page) == state.turned(page));
        }
    }
    assert(state.yielded(responses) =~= seq![state.buffered[0]] + next.yielded(responses));
}

/// With the buffer empty, the iterator asks for the next page where it may.
/// What it hands out when the response is delivered is the first record of the
/// page, and the iteration goes on with the rest of the page; a request that
/// fails, or an empty page, ends the iteration.
pub proof fn lemma_iteration_fetches(state: SearchState, responses: Seq<Option<SearchPageView>>)
    requires
        state.buffered.len() == 0,
        state.may_request(),
        responses.len() > 0,
    ensures
        state.step() == SearchStepView::Fetch(state.request()),
        state.requests(responses).len() > 0,
        state.requests(responses)[0] == state.request(),
        match state.after_step().received(responses[0]) {
            Some(record) => state.yielded(responses) == seq![record]
                + state.after_step().after_receive(responses[0]).yielded(
                responses.drop_first(),
            ),
            None => state.yielded(responses) == Seq::<RepositoryRecord>::empty(),
        },
{
    assert(state.buffered =~= Seq::empty());
    assert(state.drained() == state);
    let asked = state.after_step();
    assert(asked == state.after_request());
    match responses[0] {
        None => {
            assert(state.yielded(responses) =~= Seq::empty());
        },
        Some(page) => {
            assert(asked.page_records(responses[0]) == Some(page.repositories));
            assert(asked.buffered + page.repositories =~= page.repositories);
            if page.repositories.len() == 0 {
                assert(state.yielded(responses) =~= Seq::empty());
            } else {
                let after = asked.after_receive(responses[0]);
                let turned = state.turned(page);
                assert(after == SearchState { buffered: page.repositories.skip(1), ..turned });
                lemma_iteration_yields_buffered(turned, responses.drop_first());
                assert(turned.after_step() == after);
                assert(state.yielded(responses) =~= turned.yielded(responses.drop_first()));
            }
        },
    }
}

/// With the buffer empty and no request to make, the iteration is over, and it
/// stays over: the state does not change, so the answer is the same the next
/// time, and every time after it.
pub proof fn lemma_iteration_ends(state: SearchState, responses: Seq<Option<SearchPageView>>)
    requires
        state.buffered.len() == 0,
        !state.awaiting,
        !state.may_request(),
    ensures
        state.step() == SearchStepView::Done,
        state.after_step() == state,
        state.yielded(responses) == Seq::<RepositoryRecord>::empty(),
        state.requests(responses) == Seq::<SearchRequestView>::empty(),
{
    assert(state.buffered =~= Seq::empty());
    assert(state.drained() == state);
    assert(state.yielded(responses) =~= Seq::empty());
}

/// Turning to the next page keeps the state well formed.
pub proof fn lemma_turned_keeps_well_formed(state: SearchState, page: SearchPageView)
    requires
        state.well_formed(),
    ensures
        state.turned(page).well_formed(),
        state.drained().may_request() ==> state.turned(page).pages_fetched == state.pages_fetched
            + 1 && state.turned(page).next_page == page.next_page(),
        state.turned(page).limit == state.limit,
        state.turned(page).min_stars == state.min_stars,
        state.turned(page).repo_name == state.repo_name,
        state.turned(page).max_requests == state.max_requests,
{
    lemma_request_keeps_well_formed(state.drained());
    lemma_response_keeps_well_formed(state.drained().after_request(), Some(page));
}

/// An iteration never makes more requests than the ceiling leaves room for,
/// whatever the backend answers, and so also where every page says that
/// another one follows.
pub proof fn lemma_requests_within_ceiling(
    state: SearchState,
    responses: Seq<Option<SearchPageView>>,
)
    requires
        state.well_formed(),
    ensures
        state.requests(responses).len() <= responses.len(),
        state.max_requests matches Some(m) ==> state.requests_issued + state.requests(
            responses,
        ).len() <= m,
    decreases responses.len(),
{
    if state.drained().may_request() && responses.len() > 0 {
        if let Some(page) = responses[0] {
            if page.repositories.len() > 0 {
                lemma_turned_keeps_well_formed(state, page);
                lemma_requests_within_ceiling(state.turned(page), responses.drop_first());
            }
        }
    }
}

/// Each request of an iteration carries the cursor that came with the page
/// before it, and the first one the cursor of the state; one request is made
/// for each page that is taken, and at most one more, which ends the
/// iteration. The filters are the same in every request.
pub proof fn lemma_requests_follow_cursors(
    state: SearchState,
    responses: Seq<Option<SearchPageView>>,
    k: int,
)
    requires
        0 <= k < state.requests(responses).len(),
    ensures
        state.pages_taken(responses).len() <= state.requests(responses).len()
            <= state.pages_taken(responses).len() + 1,
        k <= state.pages_taken(responses).len(),
        state.requests(responses)[k].variables.cursor_offset == if k == 0 {
            state.next_page
        } else {
            state.pages_taken(responses)[k - 1].next_page()
        },
        state.requests(responses)[k].variables.limit == state.limit,
        state.requests(responses)[k].variables.search_string == search_string(
            state.min_stars,
            state.repo_name,
        ),
    decreases responses.len(),
{
    if let Some(page) = responses[0] {
        if page.repositories.len() > 0 {
            let turned = state.turned(page);
            let rest = responses.drop_first();
            assert(state.requests(responses) == seq![state.request()] + turned.requests(rest));
            assert(state.pages_taken(responses) == seq![page] + turned.pages_taken(rest));
            if turned.requests(rest).len() > 0 {
                lemma_requests_follow_cursors(turned, rest, 0);
            } else {
                assert(turned.pages_taken(rest).len() == 0) by {
                    reveal_with_fuel(SearchState::pages_taken, 2);
                    reveal_with_fuel(SearchState::requests, 2);
                }
            }
            if k > 0 {
                lemma_requests_follow_cursors(turned, rest, k - 1);
                assert(state.requests(responses)[k] == turned.requests(rest)[k - 1]);
                if k > 1 {
                    assert(state.pages_taken(responses)[k - 1] == turned.pages_taken(rest)[k
                        - 2]);
                }
            }
        }
    }
}

/// An iteration hands out what was buffered, and after it the records of the
/// pages that it takes: page after page, and within a page in the order in
/// which the backend gave them. The pages are the responses, in their order.
pub proof fn lemma_yielded_in_order(state: SearchState, responses: Seq<Option<SearchPageView>>)
    ensures
        state.yielded(responses) == state.buffered + records_in(state.pages_taken(responses)),
        state.pages_taken(responses).len() <= responses.len(),
        forall|k: int|
            0 <= k < state.pages_taken(responses).len() ==> responses[k] == Some(
                #[trigger] state.pages_taken(responses)[k],
            ),
    decreases responses.len(),
{
    let pages = state.pages_taken(responses);
    let lists = pages.map_values(|page: SearchPageView| page.repositories);
    if pages.len() == 0 {
        assert(lists.flatten() =~= Seq::empty());
        assert(state.yielded(responses) =~= state.buffered + records_in(pages));
    } else {
        let page = responses[0].unwrap();
        let turned = state.turned(page);
        let rest = responses.drop_first();
        lemma_yielded_in_order(turned, rest);
        let rest_lists = turned.pages_taken(rest).map_values(
            |page: SearchPageView| page.repositories,
        );
        assert(lists.first() == page.repositories);
        assert(lists.drop_first() =~= rest_lists);
        assert(state.yielded(responses) =~= state.buffered + records_in(pages));
        assert forall|k: int| 0 <= k < pages.len() implies responses[k] == Some(
            #[trigger] pages[k],
        ) by {
            if k > 0 {
                assert(pages[k] == turned.pages_taken(rest)[k - 1]);
                assert(rest[k - 1] == responses[k]);
            }
        }
    }
}

} // verus!
