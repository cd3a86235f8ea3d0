//! Pagination calculator: page size and row counts to limits, offsets and
//! page counts, plus the slicing of a row sequence into one page.

use vstd::prelude::*;

use crate::error::Error;

verus! {

/// The slice of `rows` that page `page` shows when every page holds at
/// most `max_per_page` rows: rows `[max_per_page * page, max_per_page *
/// (page + 1))`, clamped to the sequence.
pub open spec fn page_slice<T>(rows: Seq<T>, max_per_page: u32, page: u32) -> Seq<T> {
    let start = if max_per_page * page <= rows.len() {
        max_per_page * page
    } else {
        rows.len() as int
    };
    let end = if max_per_page * page + max_per_page <= rows.len() {
        max_per_page * page + max_per_page
    } else {
        rows.len() as int
    };
    rows.subrange(start, end)
}

/// The offset of the first row of page `page`: `max_per_page * page`.
pub fn query_offset(max_per_page: u32, page: u32) -> (r: u64)
    ensures
        r == max_per_page * page,
{
    proof {
        lemma_page_bounds(max_per_page, page);
    }
    (max_per_page as u64) * (page as u64)
}

/// The offset of a page and the offset one past it both fit in 64 bits.
proof fn lemma_page_bounds(max_per_page: u32, page: u32)
    ensures
        max_per_page * page + max_per_page < u64::MAX,
{
    assert(max_per_page * page + max_per_page < u64::MAX) by (nonlinear_arith)
        requires
            max_per_page <= u32::MAX,
            page <= u32::MAX,
    ;
}

/// The total page count for `total_rows` rows at `max_per_page` rows per
/// page: `total_rows / max_per_page + 1`. The count is one more than an
/// exact division would need, so an exact multiple of `max_per_page`
/// yields a trailing empty page; this mirrors the behaviour callers
/// already rely on. A page size of zero is a caller error.
pub fn number_of_pages(total_rows: u64, max_per_page: u32) -> (r: Result<u64, Error>)
    requires
        total_rows < u64::MAX,
    ensures
        max_per_page == 0 ==> r == Result::<u64, Error>::Err(Error::InvalidPageSize),
        max_per_page > 0 ==> r == Result::<u64, Error>::Ok(
            (total_rows as int / max_per_page as int + 1) as u64,
        ),
{
    if max_per_page == 0 {
        Err(Error::InvalidPageSize)
    } else {
        Ok(total_rows / (max_per_page as u64) + 1)
    }
}

/// Keeps exactly the rows of page `page`, at most `max_per_page` of them,
/// skipping the `max_per_page * page` rows of the earlier pages.
pub fn apply_pagination<T>(rows: Vec<T>, max_per_page: u32, page: u32) -> (r: Vec<T>)
    ensures
        r@ == page_slice(rows@, max_per_page, page),
{
    let ghost orig = rows@;
    let mut rows = rows;
    proof {
        lemma_page_bounds(max_per_page, page);
    }
    let offset = (max_per_page as u64) * (page as u64);
    let len = rows.len() as u64;
    let start = if offset <= len {
        offset as usize
    } else {
        rows.len()
    };
    let end = if offset + (max_per_page as u64) <= len {
        (offset + max_per_page as u64) as usize
    } else {
        rows.len()
    };
    let mut out: Vec<T> = Vec::new();
    let mut taken: usize = 0;
    while taken < end - start
        invariant
            start <= end <= rows@.len() + taken,
            taken <= end - start,
            out@ =~= orig.subrange(start as int, start as int + taken as int),
            rows@ =~= orig.subrange(0, start as int) + orig.subrange(
                start as int + taken as int,
                orig.len() as int,
            ),
            end <= orig.len(),
        decreases end - start - taken,
    {
        let x = rows.remove(start);
        out.push(x);
        taken = taken + 1;
    }
    assert(out@ =~= page_slice(orig, max_per_page, page));
    out
}

} // verus!
