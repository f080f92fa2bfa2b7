//! The decisions of the GitHub client: authentication, request targets,
//! error messages, page sizes, pagination and pacing.
use vstd::prelude::*;
use vstd::string::*;

use crate::model::{clone_text, SearchCriteria, SearchUsersResult};
use crate::query::{build_query, query_spec};
use crate::text::{decimal_spec, decimal_string, lemma_occurs_in_middle, occurs_in};

verus! {

/// Root of the REST API.
pub const API_BASE: &'static str = "https://api.github.com";

/// Endpoint of the GraphQL API.
pub const GRAPHQL_URL: &'static str = "https://api.github.com/graphql";

/// Shortest time between the starts of two searches, in nanoseconds
/// (2.1 seconds).
pub const SEARCH_MIN_INTERVAL_NANOS: u64 = 2100000000;

/// Profiles fetched at once with a token.
pub const CONCURRENCY_WITH_TOKEN: usize = 8;

/// Profiles fetched at once without a token.
pub const CONCURRENCY_ANONYMOUS: usize = 4;

/// Users per page of a follower or following list.
pub const RELATIONS_PER_PAGE: u32 = 100;

/// Path of the follower list of the authenticated user.
pub const FOLLOWERS_PATH: &'static str = "/user/followers";

/// Path of the following list of the authenticated user.
pub const FOLLOWING_PATH: &'static str = "/user/following";

/// Path of the authenticated user's profile.
pub const AUTHENTICATED_USER_PATH: &'static str = "/user";

/// Path of the REST user search.
pub const SEARCH_USERS_PATH: &'static str = "/search/users";

/// Path of the rate-limit status.
pub const RATE_LIMIT_PATH: &'static str = "/rate_limit";

/// The GraphQL search query: users with their profile fields, follower and
/// following counts, public repository count and the push date of the most
/// recently pushed repository.
pub const GRAPHQL_QUERY: &'static str = "
query($q: String!, $first: Int!, $after: String) {
  search(query: $q, type: USER, first: $first, after: $after) {
    userCount
    pageInfo { endCursor hasNextPage }
    edges {
      node {
        ... on User {
          login
          databaseId
          avatarUrl
          url
          name
          bio
          company
          location
          createdAt
          followers { totalCount }
          following { totalCount }
          repositories(privacy: PUBLIC, first: 1, orderBy: {field: PUSHED_AT, direction: DESC}) {
            totalCount
            nodes { pushedAt }
          }
        }
      }
    }
  }
}
";

/// Whether a status code is a success (200 to 299).
pub fn status_is_success(status: u16) -> (r: bool)
    ensures
        r == (200 <= status && status < 300),
{
    200 <= status && status < 300
}

/// Whether a status code is a client or server error (400 to 599).
pub fn status_is_error(status: u16) -> (r: bool)
    ensures
        r == (400 <= status && status < 600),
{
    400 <= status && status < 600
}

/// A GET request: the full URL and the bearer token to send, if any.
pub struct GetRequest {
    pub url: String,
    pub bearer: Option<String>,
}

/// A GraphQL search request: the endpoint, the token, and the three
/// variables `q`, `first` and `after`.
pub struct GraphqlRequest {
    pub url: String,
    pub token: String,
    pub query: String,
    pub first: u32,
    pub after: Option<String>,
}

/// A REST search request: the URL, the bearer token, and the query
/// parameters `q`, `per_page` and `page` with their text forms.
pub struct RestSearchRequest {
    pub url: String,
    pub bearer: Option<String>,
    pub query: String,
    pub per_page: u32,
    pub page: u32,
    pub per_page_text: String,
    pub page_text: String,
}

/// The message of a refused request: a rate-limit notice for 403 and 429,
/// naming the mode (anonymous or token), otherwise the context and the
/// status code.
pub open spec fn rate_limit_error_spec(authenticated: bool, status: u16, context: Seq<char>) -> Seq<
    char,
> {
    if status == 403 || status == 429 {
        "API GitHub saturée (rate limit). "@ + (if authenticated {
            "Token actif"@
        } else {
            "Mode anonyme actif (60 req/h)"@
        }) + " : attendez un peu ou définissez GITHUB_TOKEN."@
    } else {
        context + " (HTTP "@ + decimal_spec(status as nat) + ")"@
    }
}

/// The page size of a GraphQL search: the requested size, 30 by default,
/// clamped to 1..=100.
pub open spec fn graphql_page_size_spec(per_page: Option<u32>) -> u32 {
    let n = match per_page {
        Some(n) => n,
        None => 30,
    };
    if n < 1 {
        1
    } else if n > 100 {
        100
    } else {
        n
    }
}

/// The page size of a REST search: as for GraphQL, and at most 10 without
/// a token.
pub open spec fn rest_page_size_spec(per_page: Option<u32>, authenticated: bool) -> u32 {
    let n = graphql_page_size_spec(per_page);
    if !authenticated && n > 10 {
        10
    } else {
        n
    }
}

/// The page size of a GraphQL search.
pub fn graphql_page_size(per_page: Option<u32>) -> (r: u32)
    ensures
        r == graphql_page_size_spec(per_page),
        1 <= r <= 100,
        per_page is None ==> r == 30,
        per_page matches Some(n) ==> (1 <= n <= 100 ==> r == n) && (n == 0 ==> r == 1) && (n
            > 100 ==> r == 100),
{
    let n = match per_page {
        Some(n) => n,
        None => 30,
    };
    if n < 1 {
        1
    } else if n > 100 {
        100
    } else {
        n
    }
}

/// How long to wait before a search may start, given the time since the
/// previous search started (`None` when there was none), in nanoseconds.
pub open spec fn search_delay_spec(since_last: Option<u64>) -> u64 {
    match since_last {
        Some(elapsed) => if elapsed < SEARCH_MIN_INTERVAL_NANOS {
            (SEARCH_MIN_INTERVAL_NANOS - elapsed) as u64
        } else {
            0
        },
        None => 0,
    }
}

/// The wait before a search may start.
pub fn search_delay_nanos(since_last: Option<u64>) -> (r: u64)
    ensures
        r == search_delay_spec(since_last),
        since_last is None ==> r == 0,
        since_last matches Some(e) ==> (e < SEARCH_MIN_INTERVAL_NANOS ==> e + r
            == SEARCH_MIN_INTERVAL_NANOS) && (e >= SEARCH_MIN_INTERVAL_NANOS ==> r == 0),
{
    match since_last {
        Some(elapsed) => if elapsed < SEARCH_MIN_INTERVAL_NANOS {
            SEARCH_MIN_INTERVAL_NANOS - elapsed
        } else {
            0
        },
        None => 0,
    }
}

/// Two searches never start less than the minimum interval apart: the
/// wait and the time already elapsed add up to at least the interval, and
/// nobody waits once the interval has passed.
pub proof fn lemma_search_pacing(elapsed: u64)
    ensures
        elapsed + search_delay_spec(Some(elapsed)) >= SEARCH_MIN_INTERVAL_NANOS,
        elapsed >= SEARCH_MIN_INTERVAL_NANOS ==> search_delay_spec(Some(elapsed)) == 0,
        search_delay_spec(Some(elapsed)) <= SEARCH_MIN_INTERVAL_NANOS,
        search_delay_spec(None) == 0,
{
}

/// The position in the paged walk through a follower or following list.
/// Pages are numbered from 1.
pub struct RelationsPager {
    page: u32,
}

impl RelationsPager {
    /// The page to request next.
    pub closed spec fn page_spec(self) -> u32 {
        self.page
    }

    #[verifier::type_invariant]
    spec fn page_is_positive(self) -> bool {
        self.page >= 1
    }

    /// A walk that starts at page 1.
    pub fn new() -> (r: Self)
        ensures
            r.page_spec() == 1,
    {
        RelationsPager { page: 1 }
    }

    /// The page to request next.
    pub fn page(&self) -> (r: u32)
        ensures
            r == self.page_spec(),
            r >= 1,
    {
        proof {
            use_type_invariant(self);
        }
        self.page
    }

    /// The `per_page` and `page` query parameters of the next request.
    pub fn query(&self) -> (r: (String, String))
        ensures
            r.0@ == decimal_spec(RELATIONS_PER_PAGE as nat),
            r.1@ == decimal_spec(self.page_spec() as nat),
    {
        (decimal_string(100), decimal_string(self.page as u64))
    }

    /// After a page of `count` users: the walk ends when the page was not
    /// full (the list is then complete); otherwise it moves to the next
    /// page. It also ends when the page counter cannot go further.
    pub fn advance(&self, count: usize) -> (r: Option<RelationsPager>)
        ensures
            match r {
                Some(next) => next_page_spec(self.page_spec(), count) == Some(next.page_spec()),
                None => next_page_spec(self.page_spec(), count) is None,
            },
            count < RELATIONS_PER_PAGE ==> r is None,
            count >= RELATIONS_PER_PAGE && self.page_spec() < u32::MAX ==> (r matches Some(next)
                && next.page_spec() == self.page_spec() + 1),
    {
        if count < 100 || self.page == u32::MAX {
            None
        } else {
            Some(RelationsPager { page: self.page + 1 })
        }
    }
}

/// The page after `page` once it held `count` users, or `None` when the
/// walk ends: after a page that was not full, or when the page counter is
/// at its largest value.
pub open spec fn next_page_spec(page: u32, count: usize) -> Option<u32> {
    if count < RELATIONS_PER_PAGE || page == u32::MAX {
        None
    } else {
        Some((page + 1) as u32)
    }
}

/// The number of requests a walk makes from `page` when the successive
/// pages hold `counts` users (the walk also ends when `counts` runs out).
pub open spec fn requests_made(page: u32, counts: Seq<usize>) -> nat
    decreases counts.len(),
{
    if counts.len() == 0 {
        0
    } else {
        match next_page_spec(page, counts[0]) {
            Some(next) => 1 + requests_made(next, counts.drop_first()),
            None => 1,
        }
    }
}

proof fn lemma_requests_until_short_page(page: u32, counts: Seq<usize>, k: int)
    requires
        0 <= k < counts.len(),
        counts[k] < RELATIONS_PER_PAGE,
        forall|j: int| 0 <= j < k ==> #[trigger] counts[j] >= RELATIONS_PER_PAGE,
        page + k <= u32::MAX,
    ensures
        requests_made(page, counts) == k + 1,
    decreases k,
{
    if k > 0 {
        assert(counts[0] >= RELATIONS_PER_PAGE);
        let rest = counts.drop_first();
        assert forall|j: int| 0 <= j < k - 1 implies #[trigger] rest[j] >= RELATIONS_PER_PAGE by {
            assert(rest[j] == counts[j + 1]);
        }
        lemma_requests_until_short_page((page + 1) as u32, rest, k - 1);
    }
}

/// The walk through a follower or following list is complete: it asks for
/// every page up to and including the first page that is not full, and
/// for no page after it; each request asks for the page after the
/// previous one.
pub proof fn lemma_relations_walk_complete(counts: Seq<usize>, k: int, page: u32, count: usize)
    requires
        0 <= k < counts.len(),
        counts[k] < RELATIONS_PER_PAGE,
        forall|j: int| 0 <= j < k ==> #[trigger] counts[j] >= RELATIONS_PER_PAGE,
        k < u32::MAX,
    ensures
        requests_made(1, counts) == k + 1,
        next_page_spec(page, count) matches Some(next) ==> next == page + 1,
        count >= RELATIONS_PER_PAGE && page < u32::MAX ==> next_page_spec(page, count) is Some,
{
    lemma_requests_until_short_page(1, counts, k);
}

/// The client's authentication state: the personal access token, if any.
pub struct GitHubClient {
    token: Option<String>,
}

impl GitHubClient {
    /// The token the client sends.
    pub closed spec fn token_spec(&self) -> Option<String> {
        self.token
    }

    /// A client with the given token, anonymous when it is `None`.
    pub fn new(token: Option<String>) -> (r: Self)
        ensures
            r.token_spec() == token,
    {
        GitHubClient { token }
    }

    /// Replaces the token.
    pub fn set_token(&mut self, token: Option<String>)
        ensures
            final(self).token_spec() == token,
    {
        self.token = token;
    }

    /// Whether a token is set.
    pub fn is_authenticated(&self) -> (r: bool)
        ensures
            r == (self.token_spec() is Some),
    {
        self.token.is_some()
    }

    /// A GET request for `path` under the API root, with the client's token.
    pub fn auth_get(&self, path: &str) -> (r: GetRequest)
        ensures
            r.url@ == API_BASE@ + path@,
            r.bearer == self.token_spec(),
    {
        let url = String::from_str(API_BASE).concat(path);
        GetRequest { url, bearer: clone_text(&self.token) }
    }

    /// The message of a refused request with status `status`.
    pub fn rate_limit_error(&self, status: u16, context: &str) -> (r: String)
        ensures
            r@ == rate_limit_error_spec(self.token_spec() is Some, status, context@),
            (status == 403 || status == 429) && self.token_spec() is Some ==> occurs_in(
                "Token actif"@,
                r@,
            ),
            (status == 403 || status == 429) && self.token_spec() is None ==> occurs_in(
                "Mode anonyme actif (60 req/h)"@,
                r@,
            ),
            status != 403 && status != 429 ==> context@.is_prefix_of(r@) && occurs_in(
                decimal_spec(status as nat),
                r@,
            ),
    {
        if status == 403 || status == 429 {
            let mut msg = String::from_str("API GitHub saturée (rate limit). ");
            if self.token.is_none() {
                msg.append("Mode anonyme actif (60 req/h)");
            } else {
                msg.append("Token actif");
            }
            msg.append(" : attendez un peu ou définissez GITHUB_TOKEN.");
            proof {
                lemma_occurs_in_middle(
                    "API GitHub saturée (rate limit). "@,
                    if self.token.is_none() {
                        "Mode anonyme actif (60 req/h)"@
                    } else {
                        "Token actif"@
                    },
                    " : attendez un peu ou définissez GITHUB_TOKEN."@,
                );
            }
            msg
        } else {
            let mut msg = String::from_str(context);
            msg.append(" (HTTP ");
            msg.append(decimal_string(status as u64).as_str());
            msg.append(")");
            proof {
                lemma_occurs_in_middle(context@ + " (HTTP "@, decimal_spec(status as nat), ")"@);
                lemma_occurs_in_middle(context@, " (HTTP "@ + decimal_spec(status as nat), ")"@);
                assert(context@ + " (HTTP "@ + decimal_spec(status as nat) + ")"@ =~= context@ + (
                " (HTTP "@ + decimal_spec(status as nat)) + ")"@);
            }
            msg
        }
    }

    /// The GraphQL search request for the criteria; it needs a token.
    pub fn graphql_request(&self, criteria: &SearchCriteria) -> (r: Result<GraphqlRequest, String>)
        ensures
            match r {
                Ok(req) => {
                    &&& self.token_spec() == Some(req.token)
                    &&& req.url@ == GRAPHQL_URL@
                    &&& req.query@ == query_spec(*criteria)
                    &&& req.first == graphql_page_size_spec(criteria.per_page)
                    &&& req.after == criteria.cursor
                },
                Err(msg) => self.token_spec() is None && msg@ == "token requis pour GraphQL"@,
            },
    {
        match &self.token {
            None => Err(String::from_str("token requis pour GraphQL")),
            Some(token) => Ok(
                GraphqlRequest {
                    url: String::from_str(GRAPHQL_URL),
                    token: token.clone(),
                    query: build_query(criteria),
                    first: graphql_page_size(criteria.per_page),
                    after: clone_text(&criteria.cursor),
                },
            ),
        }
    }

    /// The page size of a REST search with this client.
    pub fn rest_page_size(&self, per_page: Option<u32>) -> (r: u32)
        ensures
            r == rest_page_size_spec(per_page, self.token_spec() is Some),
            1 <= r <= 100,
            self.token_spec() is None ==> r <= 10,
            self.token_spec() is Some ==> (per_page is None ==> r == 30) && (per_page matches Some(n)
                ==> (1 <= n <= 100 ==> r == n) && (n == 0 ==> r == 1) && (n > 100 ==> r == 100)),
            self.token_spec() is None ==> (per_page is None ==> r == 10) && (per_page matches Some(n)
                ==> (1 <= n <= 10 ==> r == n) && (n == 0 ==> r == 1) && (n > 10 ==> r == 10)),
    {
        let mut n = graphql_page_size(per_page);
        if self.token.is_none() && n > 10 {
            n = 10;
        }
        n
    }

    /// The REST search request for the criteria: page 1 by default.
    pub fn rest_search_request(&self, criteria: &SearchCriteria) -> (r: RestSearchRequest)
        ensures
            r.url@ == API_BASE@ + SEARCH_USERS_PATH@,
            r.bearer == self.token_spec(),
            r.query@ == query_spec(*criteria),
            r.per_page == rest_page_size_spec(criteria.per_page, self.token_spec() is Some),
            r.page == (match criteria.page {
                Some(p) => p,
                None => 1,
            }),
            r.per_page_text@ == decimal_spec(r.per_page as nat),
            r.page_text@ == decimal_spec(r.page as nat),
    {
        let get = self.auth_get(SEARCH_USERS_PATH);
        let per_page = self.rest_page_size(criteria.per_page);
        let page = match criteria.page {
            Some(p) => p,
            None => 1,
        };
        RestSearchRequest {
            url: get.url,
            bearer: get.bearer,
            query: build_query(criteria),
            per_page,
            page,
            per_page_text: decimal_string(per_page as u64),
            page_text: decimal_string(page as u64),
        }
    }

    /// The number of profiles fetched at once.
    pub fn profile_concurrency(&self) -> (r: usize)
        ensures
            r == (if self.token_spec() is Some {
                CONCURRENCY_WITH_TOKEN
            } else {
                CONCURRENCY_ANONYMOUS
            }),
    {
        if self.token.is_some() {
            CONCURRENCY_WITH_TOKEN
        } else {
            CONCURRENCY_ANONYMOUS
        }
    }
}

/// The path of a user's public profile.
pub fn user_path(login: &str) -> (r: String)
    ensures
        r@ == "/users/"@ + login@,
{
    String::from_str("/users/").concat(login)
}

/// The page size of a REST search lies in 1..=100, and in 1..=10 without a
/// token.
pub proof fn lemma_rest_page_size_bounds(per_page: Option<u32>, authenticated: bool)
    ensures
        1 <= rest_page_size_spec(per_page, authenticated) <= 100,
        !authenticated ==> rest_page_size_spec(per_page, authenticated) <= 10,
        authenticated ==> rest_page_size_spec(per_page, authenticated) == graphql_page_size_spec(
            per_page,
        ),
{
}

/// A refused request with 403 or 429 gets the rate-limit notice whatever
/// the context, and it names the mode the client is in; other refusals
/// carry their context and status.
pub proof fn lemma_rate_limit_notice(authenticated: bool, c1: Seq<char>, c2: Seq<char>, status: u16)
    ensures
        rate_limit_error_spec(authenticated, 403, c1) == rate_limit_error_spec(
            authenticated,
            429,
            c2,
        ),
        rate_limit_error_spec(true, 403, c1) != rate_limit_error_spec(false, 403, c1),
        status != 403 && status != 429 ==> rate_limit_error_spec(authenticated, status, c1)
            == c1 + " (HTTP "@ + decimal_spec(status as nat) + ")"@,
{
    reveal_strlit("Token actif");
    reveal_strlit("Mode anonyme actif (60 req/h)");
    let head = "API GitHub saturée (rate limit). "@;
    let tail = " : attendez un peu ou définissez GITHUB_TOKEN."@;
    let a = head + "Token actif"@ + tail;
    let b = head + "Mode anonyme actif (60 req/h)"@ + tail;
    assert(a[head.len() as int] == 'T');
    assert(b[head.len() as int] == 'M');
}

/// Where a search goes first.
pub enum SearchRoute {
    /// The GraphQL endpoint, falling back to REST when it fails.
    Graphql,
    /// The REST search.
    Rest,
}

impl GitHubClient {
    /// A client with a token searches through GraphQL first; an anonymous
    /// one goes straight to REST.
    pub fn first_route(&self) -> (r: SearchRoute)
        ensures
            (r is Graphql) <==> self.token_spec() is Some,
    {
        if self.token.is_some() {
            SearchRoute::Graphql
        } else {
            SearchRoute::Rest
        }
    }
}

/// What follows a GraphQL search: its page when it succeeded (the search
/// is then done), `None` when it failed and the REST search must run.
pub fn after_graphql(outcome: Result<SearchUsersResult, String>) -> (r: Option<SearchUsersResult>)
    ensures
        outcome matches Ok(res) ==> r == Some(res),
        outcome is Err ==> r is None,
{
    match outcome {
        Ok(res) => Some(res),
        Err(_) => None,
    }
}

} // verus!
