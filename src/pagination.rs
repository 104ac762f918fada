//! Page windows over listed records.
use vstd::prelude::*;

verus! {

/// The page shown when none is asked for.
pub fn default_page() -> (r: u64)
    ensures
        r == 1,
{
    1
}

/// The page size used when none is asked for.
pub fn default_limit() -> (r: u64)
    ensures
        r == 20,
{
    20
}

/// The records of page `page` (counted from 1) of `limit` records each, out
/// of `total`: the half-open index range `[r.0, r.1)`, empty when the page
/// starts past the end.
pub fn page_range(total: usize, page: u64, limit: u64) -> (r: (usize, usize))
    requires
        page >= 1,
    ensures
        ({
            let start = (page - 1) * limit;
            if start >= total {
                r.0 == r.1
            } else {
                r.0 == start && r.1 == if start + limit <= total {
                    start + limit
                } else {
                    total as int
                }
            }
        }),
{
    let p: u128 = (page - 1) as u128;
    let l: u128 = limit as u128;
    assert(p * l <= 0xffff_ffff_ffff_ffff * 0xffff_ffff_ffff_ffff) by (nonlinear_arith)
        requires
            p <= 0xffff_ffff_ffff_ffff,
            l <= 0xffff_ffff_ffff_ffff,
    ;
    let start: u128 = p * l;
    if start >= total as u128 {
        return (total, total);
    }
    let end: u128 = start + limit as u128;
    if end <= total as u128 {
        (start as usize, end as usize)
    } else {
        (start as usize, total)
    }
}

} // verus!
