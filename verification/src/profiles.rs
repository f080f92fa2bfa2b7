//! Fetched profiles keyed by login, and the rules for fetching them: which
//! responses stop the fetch and what each fetch yields.
use vstd::prelude::*;

use crate::client::status_is_success;
use crate::model::User;

verus! {

/// Profiles keyed by login. Inserting a login that is already present
/// replaces its profile, as a hash map does.
pub struct ProfileMap {
    entries: Vec<(String, User)>,
}

/// The map that a list of entries denotes: later entries win.
pub open spec fn entries_map(entries: Seq<(String, User)>) -> Map<Seq<char>, User>
    decreases entries.len(),
{
    if entries.len() == 0 {
        Map::empty()
    } else {
        entries_map(entries.drop_last()).insert(entries.last().0@, entries.last().1)
    }
}

proof fn lemma_entries_map_lookup(entries: Seq<(String, User)>, k: Seq<char>, j: int)
    requires
        -1 <= j < entries.len(),
        forall|i: int| j < i < entries.len() ==> #[trigger] entries[i].0@ != k,
    ensures
        j >= 0 && entries[j].0@ == k ==> entries_map(entries).contains_key(k) && entries_map(
            entries,
        )[k] == entries[j].1,
        j == -1 ==> !entries_map(entries).contains_key(k),
    decreases entries.len(),
{
    if entries.len() > 0 {
        let rest = entries.drop_last();
        if j == entries.len() - 1 {
        } else {
            assert(entries[entries.len() - 1].0@ != k);
            assert forall|i: int| j < i < rest.len() implies #[trigger] rest[i].0@ != k by {
                assert(rest[i] == entries[i]);
            }
            lemma_entries_map_lookup(rest, k, j);
            if j >= 0 {
                assert(rest[j] == entries[j]);
            }
        }
    }
}

impl View for ProfileMap {
    type V = Map<Seq<char>, User>;

    closed spec fn view(&self) -> Map<Seq<char>, User> {
        entries_map(self.entries@)
    }
}

impl ProfileMap {
    /// An empty map.
    pub fn new() -> (r: Self)
        ensures
            r@ == Map::<Seq<char>, User>::empty(),
    {
        ProfileMap { entries: Vec::new() }
    }

    /// Records `user` as the profile of `login`, replacing any earlier one.
    pub fn insert(&mut self, login: String, user: User)
        ensures
            final(self)@ == old(self)@.insert(login@, user),
    {
        let ghost before = self.entries@;
        self.entries.push((login, user));
        assert(self.entries@.drop_last() =~= before);
    }

    /// The profile recorded for `login`, if any.
    pub fn get(&self, login: &String) -> (r: Option<&User>)
        ensures
            match r {
                Some(u) => self@.contains_key(login@) && *u == self@[login@],
                None => !self@.contains_key(login@),
            },
    {
        let mut j: usize = self.entries.len();
        while j > 0
            invariant
                j <= self.entries.len(),
                forall|i: int|
                    j <= i < self.entries@.len() ==> #[trigger] self.entries@[i].0@ != login@,
            decreases j,
        {
            if self.entries[j - 1].0 == *login {
                proof {
                    lemma_entries_map_lookup(self.entries@, login@, j - 1);
                }
                return Some(&self.entries[j - 1].1);
            }
            j = j - 1;
        }
        proof {
            lemma_entries_map_lookup(self.entries@, login@, -1);
        }
        None
    }
}

/// Why a profile was not fetched.
pub enum ProfileError {
    /// The fetch was not attempted because a rate limit had been hit.
    Skipped,
    /// GitHub refused the request with 403 or 429.
    RateLimited,
    /// Any other failure: network error, other status, unreadable body.
    Other,
}

/// What became of one profile fetch, and whether the remaining fetches
/// must stop.
pub struct ProfileOutcome {
    pub result: Result<User, ProfileError>,
    pub abort: bool,
}

/// The fetch of one profile is skipped once a rate limit has been hit.
pub fn profile_skip(aborted: bool) -> (r: Option<ProfileError>)
    ensures
        r matches Some(e) ==> e is Skipped,
        r is Some <==> aborted,
{
    if aborted {
        Some(ProfileError::Skipped)
    } else {
        None
    }
}

/// The outcome of one profile request. `status` is `None` when the request
/// could not be sent; `parsed` is the decoded body of a successful
/// response (`None` when it could not be decoded). A 403 or 429 stops the
/// remaining fetches.
pub fn profile_outcome(status: Option<u16>, parsed: Option<User>) -> (r: ProfileOutcome)
    ensures
        r.abort <==> (status == Some(403u16) || status == Some(429u16)),
        match status {
            None => r.result matches Err(e) && e is Other,
            Some(s) => if 200 <= s < 300 {
                match parsed {
                    Some(u) => r.result == Ok::<User, ProfileError>(u),
                    None => r.result matches Err(e) && e is Other,
                }
            } else if s == 403 || s == 429 {
                r.result matches Err(e) && e is RateLimited
            } else {
                r.result matches Err(e) && e is Other
            },
        },
{
    match status {
        None => ProfileOutcome { result: Err(ProfileError::Other), abort: false },
        Some(s) => {
            if status_is_success(s) {
                match parsed {
                    Some(u) => ProfileOutcome { result: Ok(u), abort: false },
                    None => ProfileOutcome { result: Err(ProfileError::Other), abort: false },
                }
            } else if s == 403 || s == 429 {
                ProfileOutcome { result: Err(ProfileError::RateLimited), abort: true }
            } else {
                ProfileOutcome { result: Err(ProfileError::Other), abort: false }
            }
        },
    }
}

/// The map that the fetched profiles make, results taken in order: each
/// successful fetch is recorded under its login.
pub open spec fn collected_spec(results: Seq<(String, Result<User, ProfileError>)>) -> Map<
    Seq<char>,
    User,
>
    decreases results.len(),
{
    if results.len() == 0 {
        Map::empty()
    } else {
        let prev = collected_spec(results.drop_last());
        match results.last().1 {
            Ok(u) => prev.insert(results.last().0@, u),
            Err(_) => prev,
        }
    }
}

/// Gathers the successful fetches into a map, in the order they finished.
pub fn collect_profiles(results: Vec<(String, Result<User, ProfileError>)>) -> (r: ProfileMap)
    ensures
        r@ == collected_spec(results@),
        forall|k: Seq<char>|
            #[trigger] r@.contains_key(k) <==> exists|i: int|
                0 <= i < results@.len() && (#[trigger] results@[i]).0@ == k && results@[i].1 is Ok,
        forall|i: int|
            0 <= i < results@.len() && (#[trigger] results@[i]).1 is Ok && (forall|j: int|
                i < j < results@.len() && results@[j].0@ == results@[i].0@ ==> results@[j].1 is Err)
                ==> r@[results@[i].0@] == results@[i].1->Ok_0,
{
    proof {
        lemma_collected_profiles(results@);
    }
    let mut map = ProfileMap::new();
    let mut rest = results;
    let ghost all = rest@;
    let n = rest.len();
    let mut i: usize = 0;
    assert(all.skip(0) =~= all);
    while i < n
        invariant
            i <= n,
            n == all.len(),
            rest@ == all.skip(i as int),
            map@ == collected_spec(all.take(i as int)),
        decreases n - i,
    {
        let (login, result) = rest.remove(0);
        assert(all.skip(i as int).drop_first() =~= all.skip(i + 1));
        assert(all.take(i + 1).drop_last() =~= all.take(i as int));
        assert(all.take(i + 1).last() == all[i as int]);
        match result {
            Ok(user) => {
                map.insert(login, user);
            },
            Err(_) => {},
        }
        i = i + 1;
    }
    assert(all.take(n as int) =~= all);
    map
}

/// A profile recorded last for a login is the one the map gives back.
pub proof fn lemma_profile_map_read_after_write(m: Map<Seq<char>, User>, login: Seq<char>, u: User)
    ensures
        m.insert(login, u).contains_key(login),
        m.insert(login, u)[login] == u,
        forall|other: Seq<char>|
            other != login ==> #[trigger] m.insert(login, u).contains_key(other) == m.contains_key(
                other,
            ),
{
}

proof fn lemma_collected_domain(results: Seq<(String, Result<User, ProfileError>)>, k: Seq<char>)
    ensures
        collected_spec(results).contains_key(k) <==> exists|i: int|
            0 <= i < results.len() && (#[trigger] results[i]).0@ == k && results[i].1 is Ok,
    decreases results.len(),
{
    if results.len() > 0 {
        let rest = results.drop_last();
        let n = results.len() - 1;
        lemma_collected_domain(rest, k);
        assert(results.last() == results[n]);
        if exists|i: int| 0 <= i < rest.len() && (#[trigger] rest[i]).0@ == k && rest[i].1 is Ok {
            let i = choose|i: int| 0 <= i < rest.len() && (#[trigger] rest[i]).0@ == k && rest[i].1 is Ok;
            assert(results[i] == rest[i]);
        }
        if exists|i: int| 0 <= i < results.len() && (#[trigger] results[i]).0@ == k && results[i].1 is Ok {
            let i = choose|i: int|
                0 <= i < results.len() && (#[trigger] results[i]).0@ == k && results[i].1 is Ok;
            if i < n {
                assert(rest[i] == results[i]);
            }
        }
    }
}

proof fn lemma_collected_value(results: Seq<(String, Result<User, ProfileError>)>, i: int)
    requires
        0 <= i < results.len(),
        results[i].1 is Ok,
        forall|j: int|
            i < j < results.len() && (#[trigger] results[j]).0@ == results[i].0@ ==> results[j].1 is Err,
    ensures
        collected_spec(results).contains_key(results[i].0@),
        collected_spec(results)[results[i].0@] == results[i].1->Ok_0,
    decreases results.len(),
{
    let rest = results.drop_last();
    let n = results.len() - 1;
    assert(results.last() == results[n]);
    if i < n {
        assert(rest[i] == results[i]);
        assert forall|j: int| i < j < rest.len() && (#[trigger] rest[j]).0@ == rest[i].0@ implies rest[j].1 is Err by {
            assert(rest[j] == results[j]);
        }
        lemma_collected_value(rest, i);
    }
}

/// Collecting fetch results keeps exactly the logins with at least one
/// successful fetch, each with the profile of its last successful fetch;
/// logins whose fetches all failed are absent.
pub proof fn lemma_collected_profiles(results: Seq<(String, Result<User, ProfileError>)>)
    ensures
        forall|k: Seq<char>|
            #[trigger] collected_spec(results).contains_key(k) <==> exists|i: int|
                0 <= i < results.len() && (#[trigger] results[i]).0@ == k && results[i].1 is Ok,
        forall|i: int|
            0 <= i < results.len() && (#[trigger] results[i]).1 is Ok && (forall|j: int|
                i < j < results.len() && results[j].0@ == results[i].0@ ==> results[j].1 is Err)
                ==> collected_spec(results)[results[i].0@] == results[i].1->Ok_0,
{
    assert forall|k: Seq<char>| #[trigger] collected_spec(results).contains_key(k) <==> exists|i: int|
        0 <= i < results.len() && (#[trigger] results[i]).0@ == k && results[i].1 is Ok by {
        lemma_collected_domain(results, k);
    }
    assert forall|i: int|
        0 <= i < results.len() && (#[trigger] results[i]).1 is Ok && (forall|j: int|
            i < j < results.len() && results[j].0@ == results[i].0@ ==> results[j].1 is Err)
            implies collected_spec(results)[results[i].0@] == results[i].1->Ok_0 by {
        lemma_collected_value(results, i);
    }
}

} // verus!
