//! The GraphQL search response, and the page of results it yields.
use vstd::prelude::*;
use vstd::string::*;

use crate::model::{clone_text, SearchUsersResult, User};
use crate::text::{join, join_spec, string_views};

verus! {

/// An error reported by the GraphQL endpoint.
pub struct GqlError {
    pub message: String,
}

/// A `totalCount` field.
pub struct GqlCount {
    pub total_count: u32,
}

/// A repository node: the time of its last push.
pub struct GqlRepoNode {
    pub pushed_at: Option<String>,
}

/// The public repositories of a user: their number and, at most, the most
/// recently pushed one.
pub struct GqlRepos {
    pub total_count: u32,
    pub nodes: Vec<GqlRepoNode>,
}

/// A user node of the GraphQL search.
pub struct GqlUser {
    pub login: String,
    pub database_id: Option<u64>,
    pub avatar_url: String,
    pub url: String,
    pub name: Option<String>,
    pub bio: Option<String>,
    pub company: Option<String>,
    pub location: Option<String>,
    pub created_at: Option<String>,
    pub followers: Option<GqlCount>,
    pub following: Option<GqlCount>,
    pub repositories: Option<GqlRepos>,
}

/// Paging information of a GraphQL search.
pub struct GqlPageInfo {
    pub end_cursor: Option<String>,
    pub has_next_page: bool,
}

/// The `search` field of a GraphQL response. Each edge holds the node
/// decoded as a user, or `None` when the node is not a user.
pub struct GqlSearch {
    pub user_count: u64,
    pub page_info: GqlPageInfo,
    pub edges: Vec<Option<GqlUser>>,
}

/// The `data` field of a GraphQL response.
pub struct GqlData {
    pub search: Option<GqlSearch>,
}

/// A GraphQL response.
pub struct GqlResponse {
    pub data: Option<GqlData>,
    pub errors: Option<Vec<GqlError>>,
}

/// A count, 0 when absent.
pub open spec fn count_or_zero(c: Option<GqlCount>) -> u32 {
    match c {
        Some(c) => c.total_count,
        None => 0,
    }
}

/// The push time of the first repository node, if any.
pub open spec fn last_push_spec(repos: Option<GqlRepos>) -> Option<String> {
    match repos {
        Some(r) => if r.nodes@.len() > 0 {
            r.nodes@[0].pushed_at
        } else {
            None
        },
        None => None,
    }
}

/// The profile that a user node gives: a missing database id becomes 0,
/// missing counts become 0, and the push time is that of the most recently
/// pushed repository.
pub open spec fn gql_user_spec(u: GqlUser) -> User {
    User {
        login: u.login,
        id: match u.database_id {
            Some(id) => id,
            None => 0,
        },
        avatar_url: u.avatar_url,
        html_url: u.url,
        name: u.name,
        bio: u.bio,
        location: u.location,
        public_repos: match u.repositories {
            Some(r) => r.total_count,
            None => 0,
        },
        followers: count_or_zero(u.followers),
        following: count_or_zero(u.following),
        pushed_at: last_push_spec(u.repositories),
        created_at: u.created_at,
        company: u.company,
    }
}

/// The profile of a user node.
pub fn gql_user_to_user(u: GqlUser) -> (r: User)
    ensures
        r == gql_user_spec(u),
        r.login == u.login,
        r.avatar_url == u.avatar_url,
        r.html_url == u.url,
        r.name == u.name,
        r.bio == u.bio,
        r.company == u.company,
        r.location == u.location,
        r.created_at == u.created_at,
        u.database_id matches Some(id) ==> r.id == id,
        u.database_id is None ==> r.id == 0,
        u.followers matches Some(c) ==> r.followers == c.total_count,
        u.followers is None ==> r.followers == 0,
        u.following matches Some(c) ==> r.following == c.total_count,
        u.following is None ==> r.following == 0,
        u.repositories matches Some(repos) ==> r.public_repos == repos.total_count,
        u.repositories is None ==> r.public_repos == 0 && r.pushed_at is None,
        u.repositories matches Some(repos) ==> (repos.nodes@.len() > 0 ==> r.pushed_at
            == repos.nodes@[0].pushed_at) && (repos.nodes@.len() == 0 ==> r.pushed_at is None),
{
    let GqlUser {
        login,
        database_id,
        avatar_url,
        url,
        name,
        bio,
        company,
        location,
        created_at,
        followers,
        following,
        repositories,
    } = u;
    let public_repos = match &repositories {
        Some(r) => r.total_count,
        None => 0,
    };
    let pushed_at = match &repositories {
        Some(r) => if r.nodes.len() > 0 {
            clone_text(&r.nodes[0].pushed_at)
        } else {
            None
        },
        None => None,
    };
    User {
        login,
        id: match database_id {
            Some(id) => id,
            None => 0,
        },
        avatar_url,
        html_url: url,
        name,
        bio,
        location,
        public_repos,
        followers: match followers {
            Some(c) => c.total_count,
            None => 0,
        },
        following: match following {
            Some(c) => c.total_count,
            None => 0,
        },
        pushed_at,
        created_at,
        company,
    }
}

/// The profiles of the edges that decoded as users, in order.
pub open spec fn present_users(edges: Seq<Option<GqlUser>>) -> Seq<User>
    decreases edges.len(),
{
    if edges.len() == 0 {
        seq![]
    } else {
        let prev = present_users(edges.drop_last());
        match edges.last() {
            Some(u) => prev.push(gql_user_spec(u)),
            None => prev,
        }
    }
}

/// Whether the response holds a `search` field.
pub open spec fn has_search(p: GqlResponse) -> bool {
    p.data matches Some(d) && d.search is Some
}

/// The messages of a list of errors.
pub open spec fn error_messages(errors: Seq<GqlError>) -> Seq<Seq<char>> {
    errors.map_values(|e: GqlError| e.message@)
}

/// The error a response gives, if any: the reported errors joined by
/// `"; "` when there is no search data, otherwise a missing `data` or a
/// missing `search` field.
pub open spec fn graphql_error_spec(p: GqlResponse) -> Option<Seq<char>> {
    if p.errors is Some && !has_search(p) {
        Some("GraphQL: "@ + join_spec(error_messages(p.errors.unwrap()@), "; "@))
    } else if p.data is None {
        Some("GraphQL: réponse vide"@)
    } else if p.data.unwrap().search is None {
        Some("GraphQL: champ search absent"@)
    } else {
        None
    }
}

/// The page of results of a GraphQL response, or its error. `remaining`
/// is the rate-limit quota that the response reported.
pub fn graphql_result(payload: GqlResponse, remaining: Option<u32>) -> (r: Result<
    SearchUsersResult,
    String,
>)
    ensures
        match graphql_error_spec(payload) {
            Some(msg) => r matches Err(e) && e@ == msg,
            None => r matches Ok(res) && {
                let search = payload.data.unwrap().search.unwrap();
                &&& res.total_count == search.user_count
                &&& res.users@ == present_users(search.edges@)
                &&& res.remaining == remaining
                &&& !res.partial
                &&& res.end_cursor == search.page_info.end_cursor
                &&& res.has_next == search.page_info.has_next_page
            },
        },
{
    if let Some(errors) = &payload.errors {
        let has_data = match &payload.data {
            Some(d) => d.search.is_some(),
            None => false,
        };
        if !has_data {
            let mut messages: Vec<String> = Vec::new();
            let mut i: usize = 0;
            while i < errors.len()
                invariant
                    i <= errors.len(),
                    string_views(messages@) == error_messages(errors@).take(i as int),
                decreases errors.len() - i,
            {
                let ghost before = messages@;
                messages.push(errors[i].message.clone());
                assert(string_views(messages@) =~= string_views(before).push(errors@[i as int].message@));
                assert(error_messages(errors@).take(i + 1) =~= error_messages(errors@).take(i as int).push(errors@[i as int].message@));
                i = i + 1;
            }
            assert(error_messages(errors@).take(errors.len() as int) =~= error_messages(errors@));
            let joined = join(&messages, "; ");
            return Err(String::from_str("GraphQL: ").concat(joined.as_str()));
        }
    }
    let data = match payload.data {
        Some(d) => d,
        None => {
            return Err(String::from_str("GraphQL: réponse vide"));
        },
    };
    let search = match data.search {
        Some(s) => s,
        None => {
            return Err(String::from_str("GraphQL: champ search absent"));
        },
    };
    let GqlSearch { user_count, page_info, edges } = search;
    let ghost all = edges@;
    let mut rest = edges;
    let n = rest.len();
    let mut users: Vec<User> = Vec::with_capacity(n);
    let mut i: usize = 0;
    assert(all.skip(0) =~= all);
    assert(all.take(0) =~= Seq::<Option<GqlUser>>::empty());
    while i < n
        invariant
            i <= n,
            n == all.len(),
            rest@ == all.skip(i as int),
            users@ == present_users(all.take(i as int)),
        decreases n - i,
    {
        let edge = rest.remove(0);
        assert(all.skip(i as int).drop_first() =~= all.skip(i + 1));
        assert(all.take(i + 1).drop_last() =~= all.take(i as int));
        assert(all.take(i + 1).last() == all[i as int]);
        match edge {
            Some(u) => {
                users.push(gql_user_to_user(u));
            },
            None => {},
        }
        i = i + 1;
    }
    assert(all.take(n as int) =~= all);
    Ok(
        SearchUsersResult {
            total_count: user_count,
            has_next: page_info.has_next_page,
            end_cursor: page_info.end_cursor,
            users,
            remaining,
            partial: false,
        },
    )
}

/// The users of a GraphQL page are the decodable nodes, never more than
/// the edges, and a page without errors and with search data always
/// yields results.
pub proof fn lemma_present_users_len(edges: Seq<Option<GqlUser>>)
    ensures
        present_users(edges).len() <= edges.len(),
        (forall|i: int| 0 <= i < edges.len() ==> #[trigger] edges[i] is Some) ==> present_users(
            edges,
        ).len() == edges.len(),
    decreases edges.len(),
{
    if edges.len() > 0 {
        let rest = edges.drop_last();
        lemma_present_users_len(rest);
        if forall|i: int| 0 <= i < edges.len() ==> #[trigger] edges[i] is Some {
            assert forall|i: int| 0 <= i < rest.len() implies #[trigger] rest[i] is Some by {
                assert(rest[i] == edges[i]);
            }
            assert(edges[edges.len() - 1] is Some);
        }
    }
}

/// Every user of a GraphQL page is the copy of one user node: each profile
/// field is that node's own field of the same meaning. Users keep the order
/// of their nodes, and there is one user per node that decoded.
pub proof fn lemma_present_users_copy_nodes(edges: Seq<Option<GqlUser>>)
    ensures
        forall|k: int|
            #![trigger present_users(edges)[k]]
            0 <= k < present_users(edges).len() ==> exists|i: int|
                0 <= i < edges.len() && (#[trigger] edges[i]) is Some && {
                    let g = edges[i].unwrap();
                    let u = present_users(edges)[k];
                    &&& u.login == g.login
                    &&& u.avatar_url == g.avatar_url
                    &&& u.html_url == g.url
                    &&& u.name == g.name
                    &&& u.bio == g.bio
                    &&& u.company == g.company
                    &&& u.location == g.location
                    &&& u.created_at == g.created_at
                    &&& (g.database_id matches Some(id) ==> u.id == id)
                    &&& (g.database_id is None ==> u.id == 0)
                    &&& (g.followers matches Some(c) ==> u.followers == c.total_count)
                    &&& (g.following matches Some(c) ==> u.following == c.total_count)
                },
        (forall|i: int| 0 <= i < edges.len() ==> #[trigger] edges[i] is Some) ==> present_users(
            edges,
        ).len() == edges.len(),
        (forall|i: int| 0 <= i < edges.len() ==> #[trigger] edges[i] is Some) ==> forall|k: int|
            0 <= k < edges.len() ==> {
                let u = #[trigger] present_users(edges)[k];
                let g = edges[k].unwrap();
                &&& u.login == g.login
                &&& u.bio == g.bio
                &&& u.company == g.company
                &&& u.name == g.name
                &&& u.location == g.location
                &&& u.created_at == g.created_at
                &&& u.avatar_url == g.avatar_url
                &&& u.html_url == g.url
            },
    decreases edges.len(),
{
    lemma_present_users_len(edges);
    if edges.len() > 0 {
        let rest = edges.drop_last();
        lemma_present_users_copy_nodes(rest);
        let prev = present_users(rest);
        assert forall|k: int|
            #![trigger present_users(edges)[k]]
            0 <= k < present_users(edges).len() implies exists|i: int|
            0 <= i < edges.len() && (#[trigger] edges[i]) is Some && {
                    let g = edges[i].unwrap();
                let u = present_users(edges)[k];
                &&& u.login == g.login
                &&& u.avatar_url == g.avatar_url
                &&& u.html_url == g.url
                &&& u.name == g.name
                &&& u.bio == g.bio
                &&& u.company == g.company
                &&& u.location == g.location
                &&& u.created_at == g.created_at
                &&& (g.database_id matches Some(id) ==> u.id == id)
                &&& (g.database_id is None ==> u.id == 0)
                &&& (g.followers matches Some(c) ==> u.followers == c.total_count)
                &&& (g.following matches Some(c) ==> u.following == c.total_count)
            } by {
            if k < prev.len() {
                assert(present_users(edges)[k] == prev[k]);
                let i = choose|i: int|
                    0 <= i < rest.len() && (#[trigger] rest[i]) is Some && {
                    let g = rest[i].unwrap();
                        let u = prev[k];
                        &&& u.login == g.login
                        &&& u.avatar_url == g.avatar_url
                        &&& u.html_url == g.url
                        &&& u.name == g.name
                        &&& u.bio == g.bio
                        &&& u.company == g.company
                        &&& u.location == g.location
                        &&& u.created_at == g.created_at
                        &&& (g.database_id matches Some(id) ==> u.id == id)
                        &&& (g.database_id is None ==> u.id == 0)
                        &&& (g.followers matches Some(c) ==> u.followers == c.total_count)
                        &&& (g.following matches Some(c) ==> u.following == c.total_count)
                    };
                assert(rest[i] == edges[i]);
            } else {
                let last = edges.len() - 1;
                assert(edges[last] == edges.last());
            }
        }
        if forall|i: int| 0 <= i < edges.len() ==> #[trigger] edges[i] is Some {
            assert forall|i: int| 0 <= i < rest.len() implies #[trigger] rest[i] is Some by {
                assert(rest[i] == edges[i]);
            }
            assert forall|k: int| 0 <= k < edges.len() implies {
                let u = #[trigger] present_users(edges)[k];
                let g = edges[k].unwrap();
                &&& u.login == g.login
                &&& u.bio == g.bio
                &&& u.company == g.company
                &&& u.name == g.name
                &&& u.location == g.location
                &&& u.created_at == g.created_at
                &&& u.avatar_url == g.avatar_url
                &&& u.html_url == g.url
            } by {
                if k < rest.len() {
                    assert(rest[k] == edges[k]);
                    assert(present_users(edges)[k] == prev[k]);
                } else {
                    assert(edges[k] == edges.last());
                }
            }
        }
    }
}

/// Every user node that decoded gives a user on the page, with that node's
/// own login, URL, name, bio, company and location: no decoded node is
/// dropped.
pub proof fn lemma_present_users_cover_nodes(edges: Seq<Option<GqlUser>>)
    ensures
        forall|i: int|
            0 <= i < edges.len() && (#[trigger] edges[i]) is Some ==> exists|k: int|
                #![trigger present_users(edges)[k]]
                0 <= k < present_users(edges).len() && {
                    let g = edges[i].unwrap();
                    let u = present_users(edges)[k];
                    &&& u.login == g.login
                    &&& u.html_url == g.url
                    &&& u.name == g.name
                    &&& u.bio == g.bio
                    &&& u.company == g.company
                    &&& u.location == g.location
                },
    decreases edges.len(),
{
    if edges.len() > 0 {
        let rest = edges.drop_last();
        let n = edges.len() - 1;
        let prev = present_users(rest);
        lemma_present_users_cover_nodes(rest);
        assert(edges[n] == edges.last());
        assert forall|i: int| 0 <= i < edges.len() && (#[trigger] edges[i]) is Some implies exists|k: int|
            #![trigger present_users(edges)[k]]
            0 <= k < present_users(edges).len() && {
                let g = edges[i].unwrap();
                let u = present_users(edges)[k];
                &&& u.login == g.login
                &&& u.html_url == g.url
                &&& u.name == g.name
                &&& u.bio == g.bio
                &&& u.company == g.company
                &&& u.location == g.location
            } by {
            if i < n {
                assert(rest[i] == edges[i]);
                let k = choose|k: int|
                    #![trigger prev[k]]
                    0 <= k < prev.len() && {
                        let g = rest[i].unwrap();
                        let u = prev[k];
                        &&& u.login == g.login
                        &&& u.html_url == g.url
                        &&& u.name == g.name
                        &&& u.bio == g.bio
                        &&& u.company == g.company
                        &&& u.location == g.location
                    };
                assert(present_users(edges)[k] == prev[k]);
            } else {
                assert(present_users(edges)[prev.len() as int] == gql_user_spec(edges[i].unwrap()));
            }
        }
    }
}

} // verus!
