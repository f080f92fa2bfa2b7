//! Filters over lists of users: the following-count range that the search
//! applies after the fact, and the "does not follow back" relation.
use std::collections::HashSet;
use vstd::prelude::*;

use crate::model::{SearchCriteria, SearchUsersResult, SimpleUser, User};

verus! {

broadcast use vstd::std_specs::hash::group_hash_axioms;

/// Whether a following count lies within the optional bounds (both
/// inclusive; an absent bound does not restrict).
pub open spec fn following_in_range(following: u32, min: Option<u32>, max: Option<u32>) -> bool {
    &&& (match min {
        Some(m) => following >= m,
        None => true,
    })
    &&& (match max {
        Some(m) => following <= m,
        None => true,
    })
}

/// The predicate that `apply_following_filter` keeps users by.
pub open spec fn following_filter(min: Option<u32>, max: Option<u32>) -> spec_fn(User) -> bool {
    |u: User| following_in_range(u.following, min, max)
}

/// Keeps the users whose following count lies within the bounds, in their
/// original order.
pub fn apply_following_filter(
    users: Vec<User>,
    min_following: Option<u32>,
    max_following: Option<u32>,
) -> (r: Vec<User>)
    ensures
        r@ == users@.filter(following_filter(min_following, max_following)),
        forall|i: int|
            0 <= i < r@.len() ==> {
                let u = #[trigger] r@[i];
                &&& (min_following is None || u.following >= min_following.unwrap())
                &&& (max_following is None || u.following <= max_following.unwrap())
                &&& users@.contains(u)
            },
        forall|i: int|
            0 <= i < users@.len() && (min_following is None || users@[i].following
                >= min_following.unwrap()) && (max_following is None || users@[i].following
                <= max_following.unwrap()) ==> #[trigger] r@.contains(users@[i]),
        forall|i: int|
            0 <= i < users@.len() && ((min_following is Some && users@[i].following
                < min_following.unwrap()) || (max_following is Some && users@[i].following
                > max_following.unwrap())) ==> !(#[trigger] r@.contains(users@[i])),
{
    proof {
        lemma_following_filter_exact(users@, min_following, max_following);
    }
    let ghost pred = following_filter(min_following, max_following);
    let mut kept: Vec<User> = Vec::new();
    let mut i: usize = 0;
    assert(users@.take(0) =~= Seq::<User>::empty());
    while i < users.len()
        invariant
            i <= users.len(),
            pred == following_filter(min_following, max_following),
            kept@ == users@.take(i as int).filter(pred),
        decreases users.len() - i,
    {
        let u = &users[i];
        let keep_min = match min_following {
            Some(m) => u.following >= m,
            None => true,
        };
        let keep_max = match max_following {
            Some(m) => u.following <= m,
            None => true,
        };
        proof {
            users@.take(i as int).lemma_filter_push(users@[i as int], pred);
            assert(users@.take(i as int).push(users@[i as int]) =~= users@.take(i + 1));
        }
        if keep_min && keep_max {
            kept.push(u.clone());
        }
        i = i + 1;
    }
    assert(users@.take(users.len() as int) =~= users@);
    kept
}

/// Without bounds, the following filter keeps every user.
pub proof fn lemma_following_filter_unbounded(users: Seq<User>)
    ensures
        users.filter(following_filter(None, None)) == users,
    decreases users.len(),
{
    reveal(Seq::filter);
    if users.len() > 0 {
        lemma_following_filter_unbounded(users.drop_last());
        assert(users.drop_last().push(users.last()) =~= users);
    }
}

/// The following filter keeps exactly the users of the input whose
/// following count is at least the minimum (when there is one) and at most
/// the maximum (when there is one); every kept user comes from the input.
pub proof fn lemma_following_filter_exact(users: Seq<User>, min: Option<u32>, max: Option<u32>)
    ensures
        forall|i: int|
            0 <= i < users.filter(following_filter(min, max)).len() ==> {
                let u = #[trigger] users.filter(following_filter(min, max))[i];
                &&& (min is None || u.following >= min.unwrap())
                &&& (max is None || u.following <= max.unwrap())
                &&& users.contains(u)
            },
        forall|i: int|
            0 <= i < users.len() && (min is None || users[i].following >= min.unwrap()) && (
            max is None || users[i].following <= max.unwrap())
                ==> #[trigger] users.filter(following_filter(min, max)).contains(users[i]),
        forall|i: int|
            0 <= i < users.len() && ((min is Some && users[i].following < min.unwrap()) || (
            max is Some && users[i].following > max.unwrap()))
                ==> !(#[trigger] users.filter(following_filter(min, max)).contains(users[i])),
{
    let pred = following_filter(min, max);
    broadcast use vstd::seq_lib::group_filter_ensures;

    assert forall|i: int| 0 <= i < users.filter(pred).len() implies {
        let u = #[trigger] users.filter(pred)[i];
        &&& (min is None || u.following >= min.unwrap())
        &&& (max is None || u.following <= max.unwrap())
        &&& users.contains(u)
    } by {
        users.lemma_filter_pred(pred, i);
        users.lemma_filter_contains_rev(pred, users.filter(pred)[i]);
    }
    assert forall|i: int|
        0 <= i < users.len() && (min is None || users[i].following >= min.unwrap()) && (max is None
            || users[i].following <= max.unwrap()) implies #[trigger] users.filter(pred).contains(
        users[i],
    ) by {
        users.lemma_filter_contains(pred, i);
    }
    assert forall|i: int|
        0 <= i < users.len() && ((min is Some && users[i].following < min.unwrap()) || (max is Some
            && users[i].following > max.unwrap())) implies !(#[trigger] users.filter(pred).contains(
        users[i],
    )) by {
        if users.filter(pred).contains(users[i]) {
            let k = choose|k: int| 0 <= k < users.filter(pred).len() && users.filter(pred)[k] == users[i];
            users.lemma_filter_pred(pred, k);
        }
    }
}

/// Whether some user of `followers` has the id `id`.
pub open spec fn is_follower_id(followers: Seq<SimpleUser>, id: u64) -> bool {
    exists|j: int| 0 <= j < followers.len() && followers[j].id == id
}

/// The predicate that `not_followed_back` keeps users by.
pub open spec fn not_following_back(followers: Seq<SimpleUser>) -> spec_fn(SimpleUser) -> bool {
    |u: SimpleUser| !is_follower_id(followers, u.id)
}

/// The users of `following` whose id is not the id of any of `followers`,
/// in the order of `following`.
pub fn not_followed_back(following: Vec<SimpleUser>, followers: &Vec<SimpleUser>) -> (r: Vec<
    SimpleUser,
>)
    ensures
        r@ == following@.filter(not_following_back(followers@)),
        forall|i: int, j: int|
            0 <= i < r@.len() && 0 <= j < followers@.len() ==> #[trigger] r@[i].id
                != #[trigger] followers@[j].id,
        forall|i: int| 0 <= i < r@.len() ==> following@.contains(#[trigger] r@[i]),
        forall|i: int|
            0 <= i < following@.len() && (forall|j: int|
                0 <= j < followers@.len() ==> followers@[j].id != following@[i].id)
                ==> #[trigger] r@.contains(following@[i]),
{
    proof {
        lemma_not_followed_back_exact(following@, followers@);
    }
    let mut ids: HashSet<u64> = HashSet::new();
    let mut j: usize = 0;
    while j < followers.len()
        invariant
            j <= followers.len(),
            forall|id: u64|
                #[trigger] ids@.contains(id) <==> exists|k: int|
                    0 <= k < j && followers@[k].id == id,
        decreases followers.len() - j,
    {
        ids.insert(followers[j].id);
        proof {
            assert forall|id: u64| #[trigger] ids@.contains(id) <==> exists|k: int|
                0 <= k < j + 1 && followers@[k].id == id by {
                if id == followers@[j as int].id {
                    assert(followers@[j as int].id == id);
                }
            }
        }
        j = j + 1;
    }
    let ghost pred = not_following_back(followers@);
    let mut kept: Vec<SimpleUser> = Vec::new();
    let mut i: usize = 0;
    assert(following@.take(0) =~= Seq::<SimpleUser>::empty());
    while i < following.len()
        invariant
            i <= following.len(),
            pred == not_following_back(followers@),
            forall|id: u64| #[trigger] ids@.contains(id) <==> is_follower_id(followers@, id),
            kept@ == following@.take(i as int).filter(pred),
        decreases following.len() - i,
    {
        let u = &following[i];
        let known = ids.contains(&u.id);
        proof {
            following@.take(i as int).lemma_filter_push(following@[i as int], pred);
            assert(following@.take(i as int).push(following@[i as int]) =~= following@.take(i + 1));
        }
        if !known {
            kept.push(u.clone());
        }
        i = i + 1;
    }
    assert(following@.take(following.len() as int) =~= following@);
    kept
}

/// No user that `not_followed_back` keeps shares an id with a follower,
/// every kept user is a followed user, and every followed user whose id no
/// follower has is kept.
pub proof fn lemma_not_followed_back_exact(following: Seq<SimpleUser>, followers: Seq<SimpleUser>)
    ensures
        forall|i: int, j: int|
            0 <= i < following.filter(not_following_back(followers)).len() && 0 <= j
                < followers.len() ==> #[trigger] following.filter(not_following_back(followers))[i].id
                != #[trigger] followers[j].id,
        forall|i: int|
            0 <= i < following.filter(not_following_back(followers)).len() ==> following.contains(
                #[trigger] following.filter(not_following_back(followers))[i],
            ),
        forall|i: int|
            0 <= i < following.len() && (forall|j: int|
                0 <= j < followers.len() ==> followers[j].id != following[i].id)
                ==> #[trigger] following.filter(not_following_back(followers)).contains(
                following[i],
            ),
{
    let pred = not_following_back(followers);
    assert forall|i: int, j: int|
        0 <= i < following.filter(pred).len() && 0 <= j < followers.len() implies #[trigger] following.filter(
        pred,
    )[i].id != #[trigger] followers[j].id by {
        following.lemma_filter_pred(pred, i);
    }
    assert forall|i: int| 0 <= i < following.filter(pred).len() implies following.contains(
        #[trigger] following.filter(pred)[i],
    ) by {
        following.lemma_filter_pred(pred, i);
        following.lemma_filter_contains_rev(pred, following.filter(pred)[i]);
    }
    assert forall|i: int|
        0 <= i < following.len() && (forall|j: int|
            0 <= j < followers.len() ==> followers[j].id != following[i].id) implies #[trigger] following.filter(
        pred,
    ).contains(following[i]) by {
        following.lemma_filter_contains(pred, i);
    }
}

/// When every followed user is also a follower, nobody is reported.
pub proof fn lemma_all_follow_back(following: Seq<SimpleUser>, followers: Seq<SimpleUser>)
    requires
        forall|i: int| 0 <= i < following.len() ==> is_follower_id(followers, #[trigger] following[i].id),
    ensures
        following.filter(not_following_back(followers)).len() == 0,
    decreases following.len(),
{
    reveal(Seq::filter);
    if following.len() > 0 {
        let rest = following.drop_last();
        assert forall|i: int| 0 <= i < rest.len() implies is_follower_id(
            followers,
            #[trigger] rest[i].id,
        ) by {
            assert(rest[i] == following[i]);
        }
        lemma_all_follow_back(rest, followers);
        assert(is_follower_id(followers, following[following.len() - 1].id));
    }
}

/// A search page with the following bounds of the criteria applied to its
/// users; every other field is kept.
pub fn finish_search(result: SearchUsersResult, criteria: &SearchCriteria) -> (r: SearchUsersResult)
    ensures
        r.users@ == result.users@.filter(
            following_filter(criteria.min_following, criteria.max_following),
        ),
        r.total_count == result.total_count,
        r.remaining == result.remaining,
        r.partial == result.partial,
        r.end_cursor == result.end_cursor,
        r.has_next == result.has_next,
{
    let SearchUsersResult { total_count, users, remaining, partial, end_cursor, has_next } = result;
    let users = apply_following_filter(users, criteria.min_following, criteria.max_following);
    SearchUsersResult { total_count, users, remaining, partial, end_cursor, has_next }
}

} // verus!
