use gitpersona::client::{
    after_graphql, graphql_page_size, search_delay_nanos, status_is_error, status_is_success, user_path,
    GitHubClient, RelationsPager, SearchRoute, SEARCH_MIN_INTERVAL_NANOS,
};
use gitpersona::filter::{apply_following_filter, finish_search, not_followed_back};
use gitpersona::graphql::{
    graphql_result, GqlCount, GqlData, GqlError, GqlPageInfo, GqlRepoNode, GqlRepos, GqlResponse,
    GqlSearch, GqlUser,
};
use gitpersona::model::{basic_user, SearchCriteria, SearchItem, SearchUsersResult, SimpleUser, User};
use gitpersona::profiles::{collect_profiles, profile_outcome, profile_skip, ProfileError, ProfileMap};
use gitpersona::query::build_query;
use gitpersona::search::{merge_rest_results, profile_budget};

fn empty_criteria() -> SearchCriteria {
    SearchCriteria {
        location: None,
        min_repos: None,
        max_repos: None,
        min_followers: None,
        max_followers: None,
        min_following: None,
        max_following: None,
        last_activity_after: None,
        per_page: None,
        page: None,
        cursor: None,
    }
}

fn user(login: &str, id: u64, following: u32) -> User {
    User {
        login: login.to_string(),
        id,
        avatar_url: format!("https://avatars/{login}"),
        html_url: format!("https://github.com/{login}"),
        name: Some(login.to_uppercase()),
        bio: None,
        location: None,
        public_repos: 3,
        followers: 7,
        following,
        pushed_at: None,
        created_at: None,
        company: None,
    }
}

fn simple(login: &str, id: u64) -> SimpleUser {
    SimpleUser {
        login: login.to_string(),
        id,
        avatar_url: String::new(),
        html_url: String::new(),
    }
}

fn item(login: &str) -> SearchItem {
    SearchItem {
        login: login.to_string(),
        avatar_url: format!("https://avatars/{login}"),
        html_url: format!("https://github.com/{login}"),
    }
}

fn logins(users: &[User]) -> Vec<String> {
    users.iter().map(|u| u.login.clone()).collect()
}

#[test]
fn query_with_every_filter() {
    let mut c = empty_criteria();
    c.location = Some("  Paris ".to_string());
    c.min_repos = Some(5);
    c.max_repos = Some(50);
    c.min_followers = Some(10);
    c.max_followers = Some(1000);
    c.min_following = Some(1);
    c.last_activity_after = Some(" 2024-01-01".to_string());
    assert_eq!(
        build_query(&c),
        "location:Paris repos:>=5 repos:<=50 followers:>=10 followers:<=1000 pushed:>2024-01-01 type:user"
    );
}

#[test]
fn query_without_filters_is_type_user() {
    assert_eq!(build_query(&empty_criteria()), "type:user");
}

#[test]
fn query_ignores_blank_location_and_date() {
    let mut c = empty_criteria();
    c.location = Some(" \t ".to_string());
    c.last_activity_after = Some(String::new());
    c.max_followers = Some(0);
    assert_eq!(build_query(&c), "followers:<=0 type:user");
}

#[test]
fn following_filter_keeps_users_in_range_in_order() {
    let users = vec![user("a", 1, 5), user("b", 2, 50), user("c", 3, 10), user("d", 4, 11)];
    let kept = apply_following_filter(users, Some(5), Some(10));
    assert_eq!(logins(&kept), vec!["a", "c"]);
}

#[test]
fn following_filter_without_bounds_keeps_everyone() {
    let users = vec![user("a", 1, 0), user("b", 2, u32::MAX)];
    let kept = apply_following_filter(users, None, None);
    assert_eq!(logins(&kept), vec!["a", "b"]);
    let kept = apply_following_filter(vec![user("a", 1, 0), user("b", 2, 9)], Some(9), None);
    assert_eq!(logins(&kept), vec!["b"]);
}

#[test]
fn not_followed_back_removes_followers() {
    let following = vec![simple("a", 1), simple("b", 2), simple("c", 3)];
    let followers = vec![simple("x", 9), simple("b", 2)];
    let rest = not_followed_back(following, &followers);
    let ids: Vec<u64> = rest.iter().map(|u| u.id).collect();
    assert_eq!(ids, vec![1, 3]);
    let all = not_followed_back(vec![simple("a", 1)], &vec![simple("a", 1)]);
    assert!(all.is_empty());
    let none = not_followed_back(vec![simple("a", 1)], &Vec::new());
    assert_eq!(none.len(), 1);
}

#[test]
fn rate_limit_messages() {
    let anon = GitHubClient::new(None);
    let auth = GitHubClient::new(Some("tok".to_string()));
    assert_eq!(
        anon.rate_limit_error(403, "erreur recherche"),
        "API GitHub saturée (rate limit). Mode anonyme actif (60 req/h) : attendez un peu ou définissez GITHUB_TOKEN."
    );
    assert_eq!(
        auth.rate_limit_error(429, "erreur recherche"),
        "API GitHub saturée (rate limit). Token actif : attendez un peu ou définissez GITHUB_TOKEN."
    );
    assert_eq!(auth.rate_limit_error(500, "erreur recherche"), "erreur recherche (HTTP 500)");
    assert_eq!(anon.rate_limit_error(404, "erreur profil"), "erreur profil (HTTP 404)");
}

#[test]
fn client_authentication_and_requests() {
    let mut client = GitHubClient::new(None);
    assert!(!client.is_authenticated());
    let get = client.auth_get("/user/followers");
    assert_eq!(get.url, "https://api.github.com/user/followers");
    assert_eq!(get.bearer, None);
    assert_eq!(
        client.graphql_request(&empty_criteria()).err(),
        Some("token requis pour GraphQL".to_string())
    );
    client.set_token(Some("secret".to_string()));
    assert!(client.is_authenticated());
    assert_eq!(client.auth_get("/user").bearer, Some("secret".to_string()));
    let mut c = empty_criteria();
    c.per_page = Some(250);
    c.cursor = Some("abc".to_string());
    let req = client.graphql_request(&c).ok().unwrap();
    assert_eq!(req.url, "https://api.github.com/graphql");
    assert_eq!(req.token, "secret");
    assert_eq!(req.query, "type:user");
    assert_eq!(req.first, 100);
    assert_eq!(req.after, Some("abc".to_string()));
    assert_eq!(user_path("octocat"), "/users/octocat");
}

#[test]
fn page_sizes() {
    assert_eq!(graphql_page_size(None), 30);
    assert_eq!(graphql_page_size(Some(0)), 1);
    assert_eq!(graphql_page_size(Some(500)), 100);
    assert_eq!(graphql_page_size(Some(42)), 42);
    let anon = GitHubClient::new(None);
    let auth = GitHubClient::new(Some("t".to_string()));
    assert_eq!(anon.rest_page_size(None), 10);
    assert_eq!(anon.rest_page_size(Some(7)), 7);
    assert_eq!(auth.rest_page_size(None), 30);
    assert_eq!(auth.rest_page_size(Some(1000)), 100);
    assert_eq!(anon.profile_concurrency(), 4);
    assert_eq!(auth.profile_concurrency(), 8);
}

#[test]
fn rest_search_request_fields() {
    let anon = GitHubClient::new(None);
    let mut c = empty_criteria();
    c.min_repos = Some(2);
    c.page = Some(3);
    let req = anon.rest_search_request(&c);
    assert_eq!(req.url, "https://api.github.com/search/users");
    assert_eq!(req.query, "repos:>=2 type:user");
    assert_eq!(req.per_page, 10);
    assert_eq!(req.page, 3);
    assert_eq!(req.per_page_text, "10");
    assert_eq!(req.page_text, "3");
    assert_eq!(anon.rest_search_request(&empty_criteria()).page, 1);
}

#[test]
fn status_classes() {
    assert!(status_is_success(200));
    assert!(status_is_success(204));
    assert!(!status_is_success(302));
    assert!(status_is_error(404));
    assert!(status_is_error(503));
    assert!(!status_is_error(304));
}

#[test]
fn search_pacing() {
    assert_eq!(search_delay_nanos(None), 0);
    assert_eq!(search_delay_nanos(Some(100)), SEARCH_MIN_INTERVAL_NANOS - 100);
    assert_eq!(search_delay_nanos(Some(2_100_000_000)), 0);
    assert_eq!(search_delay_nanos(Some(5_000_000_000)), 0);
    let e = 1_234_567u64;
    assert!(e + search_delay_nanos(Some(e)) >= SEARCH_MIN_INTERVAL_NANOS);
}

#[test]
fn relation_pages_continue_until_a_short_page() {
    let p = RelationsPager::new();
    assert_eq!(p.page(), 1);
    assert_eq!(p.query(), ("100".to_string(), "1".to_string()));
    let next = p.advance(100).unwrap();
    assert_eq!(next.page(), 2);
    assert!(next.advance(99).is_none());
    // 250 full pages then a short one: every page is requested.
    let mut pager = RelationsPager::new();
    let mut requests = 1;
    loop {
        let count = if pager.page() <= 250 { 100 } else { 7 };
        match pager.advance(count) {
            Some(n) => {
                pager = n;
                requests += 1;
            }
            None => break,
        }
    }
    assert_eq!(requests, 251);
    assert_eq!(pager.page(), 251);
    assert!(RelationsPager::new().advance(0).is_none());
}

#[test]
fn search_route_and_fallback() {
    assert!(matches!(GitHubClient::new(None).first_route(), SearchRoute::Rest));
    assert!(matches!(
        GitHubClient::new(Some("t".to_string())).first_route(),
        SearchRoute::Graphql
    ));
    assert!(after_graphql(Err("GraphQL: réponse vide".to_string())).is_none());
    let page = SearchUsersResult {
        total_count: 1,
        users: vec![user("a", 1, 0)],
        remaining: None,
        partial: false,
        end_cursor: Some("c".to_string()),
        has_next: false,
    };
    let kept = after_graphql(Ok(page)).unwrap();
    assert_eq!(logins(&kept.users), vec!["a"]);
    assert_eq!(kept.end_cursor, Some("c".to_string()));
}

#[test]
fn profile_budget_rules() {
    assert_eq!(profile_budget(None, 7), 7);
    assert_eq!(profile_budget(Some(0), 7), 0);
    assert_eq!(profile_budget(Some(1), 7), 0);
    assert_eq!(profile_budget(Some(4), 7), 3);
    assert_eq!(profile_budget(Some(5000), 7), 7);
}

#[test]
fn profile_map_later_insert_wins() {
    let mut m = ProfileMap::new();
    assert!(m.get(&"a".to_string()).is_none());
    m.insert("a".to_string(), user("a", 1, 0));
    m.insert("b".to_string(), user("b", 2, 0));
    m.insert("a".to_string(), user("a2", 3, 0));
    assert_eq!(m.get(&"a".to_string()).unwrap().id, 3);
    assert_eq!(m.get(&"b".to_string()).unwrap().id, 2);
    assert!(m.get(&"c".to_string()).is_none());
}

#[test]
fn profile_outcomes() {
    let ok = profile_outcome(Some(200), Some(user("a", 1, 0)));
    assert!(!ok.abort);
    assert_eq!(ok.result.ok().unwrap().id, 1);
    let bad_body = profile_outcome(Some(200), None);
    assert!(matches!(bad_body.result, Err(ProfileError::Other)));
    let limited = profile_outcome(Some(403), None);
    assert!(limited.abort);
    assert!(matches!(limited.result, Err(ProfileError::RateLimited)));
    let limited = profile_outcome(Some(429), None);
    assert!(limited.abort);
    let missing = profile_outcome(Some(404), None);
    assert!(!missing.abort);
    assert!(matches!(missing.result, Err(ProfileError::Other)));
    let network = profile_outcome(None, None);
    assert!(!network.abort);
    assert!(matches!(network.result, Err(ProfileError::Other)));
    assert!(matches!(profile_skip(true), Some(ProfileError::Skipped)));
    assert!(profile_skip(false).is_none());
}

#[test]
fn collect_profiles_keeps_successes() {
    let results = vec![
        ("a".to_string(), Ok(user("a", 1, 0))),
        ("b".to_string(), Err(ProfileError::RateLimited)),
        ("c".to_string(), Ok(user("c", 3, 0))),
        ("d".to_string(), Err(ProfileError::Skipped)),
    ];
    let m = collect_profiles(results);
    assert_eq!(m.get(&"a".to_string()).unwrap().id, 1);
    assert!(m.get(&"b".to_string()).is_none());
    assert_eq!(m.get(&"c".to_string()).unwrap().id, 3);
    assert!(m.get(&"d".to_string()).is_none());
}

#[test]
fn basic_user_is_placeholder() {
    let u = basic_user(&item("zed"));
    assert_eq!(u.login, "zed");
    assert_eq!(u.id, 0);
    assert_eq!(u.html_url, "https://github.com/zed");
    assert_eq!(u.followers, 0);
    assert!(u.name.is_none());
}

#[test]
fn merge_marks_partial_and_next_page() {
    let items = vec![item("a"), item("b"), item("c")];
    let mut fetched = ProfileMap::new();
    fetched.insert("a".to_string(), user("a", 11, 0));
    fetched.insert("c".to_string(), user("c", 33, 0));
    let r = merge_rest_results(&items, &fetched, 100, 1, 3, Some(9));
    let ids: Vec<u64> = r.users.iter().map(|u| u.id).collect();
    assert_eq!(ids, vec![11, 0, 33]);
    assert_eq!(r.users[1].login, "b");
    assert!(r.partial);
    assert!(r.has_next);
    assert_eq!(r.remaining, Some(9));
    assert_eq!(r.total_count, 100);
    assert!(r.end_cursor.is_none());
    fetched.insert("b".to_string(), user("b", 22, 0));
    let full = merge_rest_results(&items, &fetched, 6, 2, 3, None);
    assert!(!full.partial);
    assert!(!full.has_next);
    let empty = merge_rest_results(&Vec::new(), &fetched, 100, 1, 3, None);
    assert!(!empty.has_next);
    assert!(!empty.partial);
}

fn gql_user(login: &str, db: Option<u64>) -> GqlUser {
    GqlUser {
        login: login.to_string(),
        database_id: db,
        avatar_url: "av".to_string(),
        url: format!("https://github.com/{login}"),
        name: None,
        bio: Some("bio".to_string()),
        company: None,
        location: Some("Lyon".to_string()),
        created_at: Some("2020-01-01T00:00:00Z".to_string()),
        followers: Some(GqlCount { total_count: 12 }),
        following: None,
        repositories: Some(GqlRepos {
            total_count: 4,
            nodes: vec![GqlRepoNode { pushed_at: Some("2024-05-01T00:00:00Z".to_string()) }],
        }),
    }
}

#[test]
fn graphql_errors_without_data() {
    let p = GqlResponse {
        data: None,
        errors: Some(vec![
            GqlError { message: "bad query".to_string() },
            GqlError { message: "again".to_string() },
        ]),
    };
    assert_eq!(graphql_result(p, None).err(), Some("GraphQL: bad query; again".to_string()));
    let p = GqlResponse { data: None, errors: None };
    assert_eq!(graphql_result(p, None).err(), Some("GraphQL: réponse vide".to_string()));
    let p = GqlResponse { data: Some(GqlData { search: None }), errors: None };
    assert_eq!(graphql_result(p, None).err(), Some("GraphQL: champ search absent".to_string()));
    let p = GqlResponse { data: Some(GqlData { search: None }), errors: Some(vec![]) };
    assert_eq!(graphql_result(p, None).err(), Some("GraphQL: ".to_string()));
}

#[test]
fn graphql_page_of_users() {
    let p = GqlResponse {
        data: Some(GqlData {
            search: Some(GqlSearch {
                user_count: 42,
                page_info: GqlPageInfo { end_cursor: Some("cur".to_string()), has_next_page: true },
                edges: vec![Some(gql_user("a", Some(5))), None, Some(gql_user("b", None))],
            }),
        }),
        errors: Some(vec![GqlError { message: "partial".to_string() }]),
    };
    let r = graphql_result(p, Some(4999)).ok().unwrap();
    assert_eq!(r.total_count, 42);
    assert_eq!(r.remaining, Some(4999));
    assert!(!r.partial);
    assert!(r.has_next);
    assert_eq!(r.end_cursor, Some("cur".to_string()));
    assert_eq!(logins(&r.users), vec!["a", "b"]);
    assert_eq!(r.users[0].id, 5);
    assert_eq!(r.users[1].id, 0);
    assert_eq!(r.users[0].public_repos, 4);
    assert_eq!(r.users[0].followers, 12);
    assert_eq!(r.users[0].following, 0);
    assert_eq!(r.users[0].html_url, "https://github.com/a");
    assert_eq!(r.users[0].pushed_at, Some("2024-05-01T00:00:00Z".to_string()));
    assert_eq!(r.users[0].location, Some("Lyon".to_string()));
}

#[test]
fn finish_search_applies_following_bounds() {
    let result = SearchUsersResult {
        total_count: 3,
        users: vec![user("a", 1, 1), user("b", 2, 100)],
        remaining: Some(1),
        partial: true,
        end_cursor: None,
        has_next: true,
    };
    let mut c = empty_criteria();
    c.max_following = Some(10);
    let r = finish_search(result, &c);
    assert_eq!(logins(&r.users), vec!["a"]);
    assert!(r.partial);
    assert!(r.has_next);
    assert_eq!(r.total_count, 3);
}
