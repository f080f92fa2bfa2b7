//! Assembling a page of REST search results from the search hits and the
//! profiles that could be fetched for them.
use vstd::prelude::*;

use crate::model::{basic_user, basic_user_spec, SearchItem, SearchUsersResult, User};
use crate::profiles::ProfileMap;

verus! {

/// How many hits get their profile fetched: one less than the remaining
/// core quota (never below zero), all hits when the quota is unknown, and
/// never more than there are hits.
pub open spec fn profile_budget_spec(core_remaining: Option<u32>, item_count: usize) -> usize {
    let b: int = match core_remaining {
        Some(r) => if r >= 1 {
            r - 1
        } else {
            0
        },
        None => item_count as int,
    };
    if b < item_count {
        b as usize
    } else {
        item_count
    }
}

/// The number of hits whose profile is fetched.
pub fn profile_budget(core_remaining: Option<u32>, item_count: usize) -> (r: usize)
    ensures
        r == profile_budget_spec(core_remaining, item_count),
        r <= item_count,
        core_remaining is None ==> r == item_count,
        core_remaining matches Some(x) ==> (x == 0 ==> r == 0) && (x >= 1 && x - 1 <= item_count
            ==> r == x - 1) && (x >= 1 && x - 1 > item_count ==> r == item_count),
{
    let b: usize = match core_remaining {
        Some(r) => r.saturating_sub(1) as usize,
        None => item_count,
    };
    if b < item_count {
        b
    } else {
        item_count
    }
}

/// The profile shown for a search hit: the fetched one when there is one,
/// the placeholder otherwise.
pub open spec fn merged_user(item: SearchItem, fetched: Map<Seq<char>, User>) -> User {
    if fetched.contains_key(item.login@) {
        fetched[item.login@]
    } else {
        basic_user_spec(item)
    }
}

/// Whether more results follow this page: the pages so far do not cover
/// the total and this page was not empty.
pub open spec fn rest_has_next_spec(page: u32, per_page: u32, total_count: u64, hits: nat) -> bool {
    (page as int) * (per_page as int) < total_count && hits > 0
}

/// A page of REST search results: one user per hit, in the order of the
/// hits; the page is partial when some user is a placeholder (id 0).
pub fn merge_rest_results(
    items: &Vec<SearchItem>,
    fetched: &ProfileMap,
    total_count: u64,
    page: u32,
    per_page: u32,
    remaining: Option<u32>,
) -> (r: SearchUsersResult)
    ensures
        r.users@ == Seq::new(items@.len(), |i: int| merged_user(items@[i], fetched@)),
        r.total_count == total_count,
        r.remaining == remaining,
        r.partial == exists|i: int| 0 <= i < r.users@.len() && #[trigger] r.users@[i].id == 0,
        r.end_cursor is None,
        r.has_next == rest_has_next_spec(page, per_page, total_count, items@.len()),
        r.has_next == ((page as int) * (per_page as int) < total_count && items@.len() > 0),
        r.users@.len() == items@.len(),
        forall|i: int|
            0 <= i < items@.len() && fetched@.contains_key(items@[i].login@) ==> #[trigger] r.users@[i]
                == fetched@[items@[i].login@],
        forall|i: int|
            0 <= i < items@.len() && !fetched@.contains_key(items@[i].login@) ==> {
                let u = #[trigger] r.users@[i];
                &&& u.id == 0
                &&& u.login == items@[i].login
                &&& u.avatar_url == items@[i].avatar_url
                &&& u.html_url == items@[i].html_url
                &&& u.name is None && u.bio is None && u.location is None && u.company is None
                &&& u.pushed_at is None && u.created_at is None
                &&& u.public_repos == 0 && u.followers == 0 && u.following == 0
            },
{
    let ghost expected = Seq::new(items@.len(), |i: int| merged_user(items@[i], fetched@));
    let mut users: Vec<User> = Vec::with_capacity(items.len());
    let mut partial = false;
    let mut i: usize = 0;
    while i < items.len()
        invariant
            i <= items.len(),
            expected == Seq::new(items@.len(), |i: int| merged_user(items@[i], fetched@)),
            users@ == expected.take(i as int),
            partial == exists|k: int| 0 <= k < users@.len() && #[trigger] users@[k].id == 0,
        decreases items.len() - i,
    {
        let item = &items[i];
        let u = match fetched.get(&item.login) {
            Some(found) => found.clone(),
            None => basic_user(item),
        };
        let placeholder = u.id == 0;
        let ghost before = users@;
        users.push(u);
        assert(users@ =~= expected.take(i + 1));
        proof {
            // The new last user is a placeholder exactly when `placeholder`
            // holds; earlier users are unchanged.
            assert(users@[i as int].id == 0 <==> placeholder);
            assert forall|k: int| 0 <= k < before.len() implies #[trigger] users@[k] == before[k] by {}
        }
        if placeholder {
            partial = true;
        }
        i = i + 1;
    }
    assert(expected.take(items.len() as int) =~= expected);
    assert((page as int) * (per_page as int) <= u32::MAX * u32::MAX) by (nonlinear_arith)
        requires
            page <= u32::MAX,
            per_page <= u32::MAX,
    ;
    let covered: u64 = page as u64 * per_page as u64;
    let has_next = covered < total_count && users.len() > 0;
    SearchUsersResult { total_count, users, remaining, partial, end_cursor: None, has_next }
}

/// A hit whose profile was not fetched makes the page partial, and a page
/// is partial only when some user on it has id 0.
pub proof fn lemma_unfetched_hit_makes_page_partial(
    items: Seq<SearchItem>,
    fetched: Map<Seq<char>, User>,
    i: int,
)
    requires
        0 <= i < items.len(),
        !fetched.contains_key(items[i].login@),
    ensures
        Seq::new(items.len(), |k: int| merged_user(items[k], fetched))[i].id == 0,
{
}

/// Fetched profiles are shown unchanged, and every hit keeps its login
/// when it is shown as a placeholder.
pub proof fn lemma_merged_user_sources(item: SearchItem, fetched: Map<Seq<char>, User>)
    ensures
        fetched.contains_key(item.login@) ==> merged_user(item, fetched) == fetched[item.login@],
        !fetched.contains_key(item.login@) ==> merged_user(item, fetched).login == item.login
            && merged_user(item, fetched).html_url == item.html_url,
{
}

/// The profile budget never exceeds the number of hits nor the remaining
/// core quota less one.
pub proof fn lemma_profile_budget_bounds(core_remaining: Option<u32>, item_count: usize)
    ensures
        profile_budget_spec(core_remaining, item_count) <= item_count,
        core_remaining matches Some(r) ==> profile_budget_spec(core_remaining, item_count) + 1
            <= r || profile_budget_spec(core_remaining, item_count) == 0,
        core_remaining is None ==> profile_budget_spec(core_remaining, item_count) == item_count,
{
}

/// Another page follows exactly when the pages up to this one cover fewer
/// results than the total and this page was not empty; in particular a
/// remainder smaller than a full page still counts as a next page.
pub proof fn lemma_rest_has_next(page: u32, per_page: u32, total_count: u64, hits: nat)
    ensures
        rest_has_next_spec(page, per_page, total_count, hits) <==> ((page as int) * (
        per_page as int) < total_count && hits > 0),
        (page as int) * (per_page as int) < total_count && total_count < (page as int) * (
        per_page as int) + per_page && hits > 0 ==> rest_has_next_spec(
            page,
            per_page,
            total_count,
            hits,
        ),
        total_count <= (page as int) * (per_page as int) ==> !rest_has_next_spec(
            page,
            per_page,
            total_count,
            hits,
        ),
        hits == 0 ==> !rest_has_next_spec(page, per_page, total_count, hits),
{
}

} // verus!
