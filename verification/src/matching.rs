//! Reading capture groups out of regex results.
use vstd::prelude::*;
use crate::outside::groups_view;

verus! {

/// Group `k` of a match, when the match exists and the group took part in it.
pub open spec fn group_of(caps: Option<Seq<Option<Seq<char>>>>, k: int) -> Option<Seq<char>> {
    match caps {
        Some(g) => if 0 <= k < g.len() {
            g[k]
        } else {
            None
        },
        None => None,
    }
}

/// The view of an optional list of groups.
pub open spec fn caps_view(caps: Option<Vec<Option<String>>>) -> Option<Seq<Option<Seq<char>>>> {
    match caps {
        Some(g) => Some(groups_view(g@)),
        None => None,
    }
}

/// Group `k` of the groups `g`, when present.
pub fn group_in(g: &Vec<Option<String>>, k: usize) -> (res: Option<String>)
    ensures
        match res {
            Some(s) => k < g@.len() && groups_view(g@)[k as int] == Some(s@),
            None => k >= g@.len() || groups_view(g@)[k as int] is None,
        },
{
    if k < g.len() {
        match &g[k] {
            Some(s) => Some(s.clone()),
            None => None,
        }
    } else {
        None
    }
}

/// Group `k` of an optional match, when present.
pub fn capture_group(caps: &Option<Vec<Option<String>>>, k: usize) -> (res: Option<String>)
    ensures
        match res {
            Some(s) => group_of(caps_view(*caps), k as int) == Some(s@),
            None => group_of(caps_view(*caps), k as int) is None,
        },
{
    match caps {
        Some(g) => group_in(g, k),
        None => None,
    }
}

} // verus!
