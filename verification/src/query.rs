//! Pagination of queries.
use vstd::prelude::*;

verus! {

/// The page size used when a page is asked for without a limit.
pub const DEFAULT_PAGE_LIMIT: u32 = 10;

/// The limit a paginated query uses.
pub open spec fn effective_limit(limit: Option<u32>) -> nat {
    match limit {
        Some(l) => l as nat,
        None => DEFAULT_PAGE_LIMIT as nat,
    }
}

/// The first index of the page asked for.
pub open spec fn page_start(page: Option<u32>, limit: Option<u32>) -> nat {
    match page {
        Some(p) => (p as nat) * effective_limit(limit),
        None => 0,
    }
}

/// The bounds of a page: everything when neither page nor limit is given, otherwise `start = page * limit`
/// (page 0 when none is given) and `end = min(total_count, start + limit)`, and `None` when `start` is past the end.
pub open spec fn spec_page_bounds(total_count: nat, page: Option<u32>, limit: Option<u32>) -> Option<(nat, nat)> {
    if page is None && limit is None {
        Some((0, total_count))
    } else {
        let start = page_start(page, limit);
        let end = start + effective_limit(limit);
        if start >= total_count {
            None
        } else if end <= total_count {
            Some((start, end))
        } else {
            Some((start, total_count))
        }
    }
}

/// Determine the page bounds to be used in a paginated query.
/// Returns `Some((start, end))` or `None` if the proposed start is out of bounds.
/// If no `limit` is provided but a `page` is, the `DEFAULT_PAGE_LIMIT` is used.
pub fn page_bounds(total_count: u32, page: Option<u32>, limit: Option<u32>) -> (r: Option<(u32, u32)>)
    requires
        page_start(page, limit) <= u32::MAX,
        page_start(page, limit) < total_count ==> page_start(page, limit) + effective_limit(limit) <= u32::MAX,
    ensures
        match spec_page_bounds(total_count as nat, page, limit) {
            Some((start, end)) => r == Some((start as u32, end as u32)),
            None => r is None,
        },
{
    if page.is_none() && limit.is_none() {
        return Some((0, total_count));
    }
    let limit = match limit {
        Some(l) => l,
        None => DEFAULT_PAGE_LIMIT,
    };
    let start = match page {
        Some(p) => p * limit,
        None => 0,
    };
    // out of bounds
    if start >= total_count {
        return None;
    }
    let end = if start + limit <= total_count {
        start + limit
    } else {
        total_count
    };
    Some((start, end))
}

} // verus!
