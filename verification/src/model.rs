//! The records that the library exchanges with its callers: search
//! criteria, user profiles, search results.
use vstd::prelude::*;

verus! {

/// A copy of an optional string.
pub fn clone_text(o: &Option<String>) -> (r: Option<String>)
    ensures
        r == *o,
{
    match o {
        Some(s) => Some(s.clone()),
        None => None,
    }
}

/// Filters of a user search. Every field is optional.
pub struct SearchCriteria {
    pub location: Option<String>,
    pub min_repos: Option<u32>,
    pub max_repos: Option<u32>,
    pub min_followers: Option<u32>,
    pub max_followers: Option<u32>,
    pub min_following: Option<u32>,
    pub max_following: Option<u32>,
    pub last_activity_after: Option<String>,
    pub per_page: Option<u32>,
    pub page: Option<u32>,
    pub cursor: Option<String>,
}

/// A GitHub user profile. A profile with `id == 0` is one whose details
/// could not be fetched: it carries only the login and the two URLs.
pub struct User {
    pub login: String,
    pub id: u64,
    pub avatar_url: String,
    pub html_url: String,
    pub name: Option<String>,
    pub bio: Option<String>,
    pub location: Option<String>,
    pub public_repos: u32,
    pub followers: u32,
    pub following: u32,
    pub pushed_at: Option<String>,
    pub created_at: Option<String>,
    pub company: Option<String>,
}

impl Clone for User {
    fn clone(&self) -> (r: Self)
        ensures
            r == *self,
    {
        User {
            login: self.login.clone(),
            id: self.id,
            avatar_url: self.avatar_url.clone(),
            html_url: self.html_url.clone(),
            name: clone_text(&self.name),
            bio: clone_text(&self.bio),
            location: clone_text(&self.location),
            public_repos: self.public_repos,
            followers: self.followers,
            following: self.following,
            pushed_at: clone_text(&self.pushed_at),
            created_at: clone_text(&self.created_at),
            company: clone_text(&self.company),
        }
    }
}

/// The short form of a user that the follower and following lists give.
pub struct SimpleUser {
    pub login: String,
    pub id: u64,
    pub avatar_url: String,
    pub html_url: String,
}

impl Clone for SimpleUser {
    fn clone(&self) -> (r: Self)
        ensures
            r == *self,
    {
        SimpleUser {
            login: self.login.clone(),
            id: self.id,
            avatar_url: self.avatar_url.clone(),
            html_url: self.html_url.clone(),
        }
    }
}

/// One hit of the REST user search: login and URLs only.
pub struct SearchItem {
    pub login: String,
    pub avatar_url: String,
    pub html_url: String,
}

/// One page of search results.
pub struct SearchUsersResult {
    pub total_count: u64,
    pub users: Vec<User>,
    pub remaining: Option<u32>,
    pub partial: bool,
    pub end_cursor: Option<String>,
    pub has_next: bool,
}

/// The placeholder profile of a search hit whose details were not fetched.
pub open spec fn basic_user_spec(item: SearchItem) -> User {
    User {
        login: item.login,
        id: 0,
        avatar_url: item.avatar_url,
        html_url: item.html_url,
        name: None,
        bio: None,
        location: None,
        public_repos: 0,
        followers: 0,
        following: 0,
        pushed_at: None,
        created_at: None,
        company: None,
    }
}

/// The placeholder profile of a search hit: its login and URLs, id 0,
/// no details and zero counts.
pub fn basic_user(item: &SearchItem) -> (r: User)
    ensures
        r == basic_user_spec(*item),
        r.id == 0,
        r.login == item.login,
        r.avatar_url == item.avatar_url,
        r.html_url == item.html_url,
        r.name is None && r.bio is None && r.location is None && r.company is None,
        r.pushed_at is None && r.created_at is None,
        r.public_repos == 0 && r.followers == 0 && r.following == 0,
{
    User {
        login: item.login.clone(),
        id: 0,
        avatar_url: item.avatar_url.clone(),
        html_url: item.html_url.clone(),
        name: None,
        bio: None,
        location: None,
        public_repos: 0,
        followers: 0,
        following: 0,
        pushed_at: None,
        created_at: None,
        company: None,
    }
}

} // verus!
