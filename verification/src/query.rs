//! The GitHub search query string built from search criteria.
use vstd::prelude::*;
use vstd::string::*;

use crate::model::SearchCriteria;
use crate::text::{
    decimal_spec, decimal_string, join, join_spec, lemma_join_contains_part, occurs_in, string_views,
    trim, trim_spec,
};

verus! {

/// The `location:` qualifier, present when the location is not blank.
pub open spec fn location_part(location: Option<String>) -> Seq<Seq<char>> {
    match location {
        Some(loc) => if trim_spec(loc@).len() > 0 {
            seq!["location:"@ + trim_spec(loc@)]
        } else {
            seq![]
        },
        None => seq![],
    }
}

/// A numeric qualifier: `prefix` followed by the bound, when there is one.
pub open spec fn bound_part(prefix: Seq<char>, bound: Option<u32>) -> Seq<Seq<char>> {
    match bound {
        Some(n) => seq![prefix + decimal_spec(n as nat)],
        None => seq![],
    }
}

/// The `pushed:>` qualifier, present when the date is not blank.
pub open spec fn pushed_part(date: Option<String>) -> Seq<Seq<char>> {
    match date {
        Some(d) => if trim_spec(d@).len() > 0 {
            seq!["pushed:>"@ + trim_spec(d@)]
        } else {
            seq![]
        },
        None => seq![],
    }
}

/// The qualifiers of the search query, in order; the last is always
/// `type:user`.
pub open spec fn query_parts(c: SearchCriteria) -> Seq<Seq<char>> {
    location_part(c.location) + bound_part("repos:>="@, c.min_repos) + bound_part(
        "repos:<="@,
        c.max_repos,
    ) + bound_part("followers:>="@, c.min_followers) + bound_part(
        "followers:<="@,
        c.max_followers,
    ) + pushed_part(c.last_activity_after) + seq!["type:user"@]
}

/// The search query: the qualifiers separated by single spaces.
pub open spec fn query_spec(c: SearchCriteria) -> Seq<char> {
    join_spec(query_parts(c), " "@)
}

fn push_bound(parts: &mut Vec<String>, prefix: &str, bound: Option<u32>)
    ensures
        string_views(final(parts)@) == string_views(old(parts)@) + bound_part(prefix@, bound),
{
    if let Some(n) = bound {
        let mut part = String::from_str(prefix);
        part.append(decimal_string(n as u64).as_str());
        parts.push(part);
        assert(string_views(final(parts)@) =~= string_views(old(parts)@) + bound_part(prefix@, bound));
    } else {
        assert(string_views(final(parts)@) =~= string_views(old(parts)@) + bound_part(prefix@, bound));
    }
}

fn push_trimmed(parts: &mut Vec<String>, prefix: &str, value: &Option<String>)
    ensures
        string_views(final(parts)@) == string_views(old(parts)@) + (match *value {
            Some(v) => if trim_spec(v@).len() > 0 {
                seq![prefix@ + trim_spec(v@)]
            } else {
                seq![]
            },
            None => seq![],
        }),
{
    match value {
        Some(v) => {
            let t = trim(v.as_str());
            if t.unicode_len() > 0 {
                let mut part = String::from_str(prefix);
                part.append(t);
                parts.push(part);
            }
        },
        None => {},
    }
    assert(string_views(final(parts)@) =~= string_views(old(parts)@) + (match *value {
        Some(v) => if trim_spec(v@).len() > 0 {
            seq![prefix@ + trim_spec(v@)]
        } else {
            seq![]
        },
        None => seq![],
    }));
}

/// The search query for the criteria: location, repository and follower
/// bounds, last-activity date and `type:user`, separated by spaces.
/// Following bounds are not part of the query.
pub fn build_query(criteria: &SearchCriteria) -> (r: String)
    ensures
        r@ == query_spec(*criteria),
        criteria.location matches Some(loc) ==> (trim_spec(loc@).len() > 0 ==> occurs_in("location:"@ + trim_spec(loc@), r@)),
        criteria.min_repos matches Some(n) ==> occurs_in("repos:>="@ + decimal_spec(n as nat), r@),
        criteria.max_repos matches Some(n) ==> occurs_in("repos:<="@ + decimal_spec(n as nat), r@),
        criteria.min_followers matches Some(n) ==> occurs_in(
            "followers:>="@ + decimal_spec(n as nat),
            r@,
        ),
        criteria.max_followers matches Some(n) ==> occurs_in(
            "followers:<="@ + decimal_spec(n as nat),
            r@,
        ),
        criteria.last_activity_after matches Some(d) ==> (trim_spec(d@).len() > 0 ==> occurs_in("pushed:>"@ + trim_spec(d@), r@)),
        occurs_in("type:user"@, r@),
{
    proof {
        lemma_query_contains_qualifiers(*criteria);
    }
    let mut parts: Vec<String> = Vec::new();
    assert(string_views(parts@) =~= Seq::<Seq<char>>::empty());
    push_trimmed(&mut parts, "location:", &criteria.location);
    push_bound(&mut parts, "repos:>=", criteria.min_repos);
    push_bound(&mut parts, "repos:<=", criteria.max_repos);
    push_bound(&mut parts, "followers:>=", criteria.min_followers);
    push_bound(&mut parts, "followers:<=", criteria.max_followers);
    push_trimmed(&mut parts, "pushed:>", &criteria.last_activity_after);
    let ghost before = parts@;
    parts.push(String::from_str("type:user"));
    assert(string_views(parts@) =~= string_views(before) + seq!["type:user"@]);
    assert(string_views(parts@) =~= query_parts(*criteria));
    join(&parts, " ")
}

proof fn lemma_join_ends_with_last(parts: Seq<Seq<char>>, sep: Seq<char>)
    requires
        parts.len() > 0,
    ensures
        join_spec(parts, sep).len() >= parts.last().len(),
        join_spec(parts, sep).skip(join_spec(parts, sep).len() - parts.last().len())
            == parts.last(),
{
    let j = join_spec(parts, sep);
    if parts.len() == 1 {
        assert(j.skip(0) =~= j);
    } else {
        let front = join_spec(parts.drop_last(), sep) + sep;
        assert(j == front + parts.last());
        assert(j.skip(front.len() as int) =~= parts.last());
    }
}

/// Every search query ends with the qualifier `type:user`.
pub proof fn lemma_query_ends_with_type_user(c: SearchCriteria)
    ensures
        query_spec(c).len() >= "type:user"@.len(),
        query_spec(c).skip(query_spec(c).len() - "type:user"@.len()) == "type:user"@,
{
    let parts = query_parts(c);
    assert(parts.last() == "type:user"@);
    lemma_join_ends_with_last(parts, " "@);
}

/// Criteria without location, bounds or date give the query `type:user`.
pub proof fn lemma_query_without_filters(c: SearchCriteria)
    requires
        c.location is None,
        c.min_repos is None,
        c.max_repos is None,
        c.min_followers is None,
        c.max_followers is None,
        c.last_activity_after is None,
    ensures
        query_spec(c) == "type:user"@,
{
    assert(query_parts(c) =~= seq!["type:user"@]);
}

/// A blank location or date adds no qualifier: it gives the same query as
/// no location or date at all.
pub proof fn lemma_blank_location_ignored(c: SearchCriteria, loc: String)
    requires
        trim_spec(loc@).len() == 0,
    ensures
        query_spec(SearchCriteria { location: Some(loc), ..c }) == query_spec(
            SearchCriteria { location: None, ..c },
        ),
        query_spec(SearchCriteria { last_activity_after: Some(loc), ..c }) == query_spec(
            SearchCriteria { last_activity_after: None, ..c },
        ),
{
    assert(query_parts(SearchCriteria { location: Some(loc), ..c }) =~= query_parts(
        SearchCriteria { location: None, ..c },
    ));
    assert(query_parts(SearchCriteria { last_activity_after: Some(loc), ..c }) =~= query_parts(
        SearchCriteria { last_activity_after: None, ..c },
    ));
}

/// The following bounds, the page, the page size and the cursor do not
/// change the query: following bounds are applied to the results instead.
pub proof fn lemma_query_ignores_paging_and_following(c1: SearchCriteria, c2: SearchCriteria)
    requires
        c1.location == c2.location,
        c1.min_repos == c2.min_repos,
        c1.max_repos == c2.max_repos,
        c1.min_followers == c2.min_followers,
        c1.max_followers == c2.max_followers,
        c1.last_activity_after == c2.last_activity_after,
    ensures
        query_spec(c1) == query_spec(c2),
{
}

/// Every given filter appears in the query as its own qualifier, whatever
/// the other criteria are: a non-blank location as `location:` and the
/// trimmed text, each repository and follower bound as its comparison and
/// the decimal bound, a non-blank date as `pushed:>` and the trimmed date;
/// and `type:user` is always there.
pub proof fn lemma_query_contains_qualifiers(c: SearchCriteria)
    ensures
        c.location matches Some(loc) ==> (trim_spec(loc@).len() > 0 ==> occurs_in("location:"@ + trim_spec(loc@), query_spec(c))),
        c.min_repos matches Some(n) ==> occurs_in("repos:>="@ + decimal_spec(n as nat), query_spec(c)),
        c.max_repos matches Some(n) ==> occurs_in("repos:<="@ + decimal_spec(n as nat), query_spec(c)),
        c.min_followers matches Some(n) ==> occurs_in(
            "followers:>="@ + decimal_spec(n as nat),
            query_spec(c),
        ),
        c.max_followers matches Some(n) ==> occurs_in(
            "followers:<="@ + decimal_spec(n as nat),
            query_spec(c),
        ),
        c.last_activity_after matches Some(d) ==> (trim_spec(d@).len() > 0 ==> occurs_in("pushed:>"@ + trim_spec(d@), query_spec(c))),
        occurs_in("type:user"@, query_spec(c)),
{
    let parts = query_parts(c);
    let l = location_part(c.location).len() as int;
    let a = bound_part("repos:>="@, c.min_repos).len() as int;
    let b = bound_part("repos:<="@, c.max_repos).len() as int;
    let f1 = bound_part("followers:>="@, c.min_followers).len() as int;
    let f2 = bound_part("followers:<="@, c.max_followers).len() as int;
    let pd = pushed_part(c.last_activity_after).len() as int;
    if l == 1 {
        lemma_join_contains_part(parts, " "@, 0);
    }
    if a == 1 {
        lemma_join_contains_part(parts, " "@, l);
    }
    if b == 1 {
        lemma_join_contains_part(parts, " "@, l + a);
    }
    if f1 == 1 {
        lemma_join_contains_part(parts, " "@, l + a + b);
    }
    if f2 == 1 {
        lemma_join_contains_part(parts, " "@, l + a + b + f1);
    }
    if pd == 1 {
        lemma_join_contains_part(parts, " "@, l + a + b + f1 + f2);
    }
    lemma_join_contains_part(parts, " "@, l + a + b + f1 + f2 + pd);
}

} // verus!
