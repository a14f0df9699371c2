use vstd::prelude::*;

verus! {

/// Page size used when a listing request gives no limit.
pub const DEFAULT_PAGE_SIZE: usize = 50;

/// Largest page a listing request may ask for.
pub const MAX_PAGE_SIZE: usize = 200;

/// Paging metadata returned with every listing.
#[derive(Debug, Clone, PartialEq, Eq)]
pub struct PageInfo {
    pub limit: usize,
    pub offset: usize,
    pub returned: usize,
    pub total: Option<u64>,
    pub has_more: bool,
}

/// The limit a request ends up with: the default when absent, otherwise the
/// requested value clamped into `1..=MAX_PAGE_SIZE`.
pub open spec fn effective_limit(limit: Option<usize>) -> int {
    match limit {
        None => DEFAULT_PAGE_SIZE as int,
        Some(value) => if value < 1 {
            1
        } else if value > MAX_PAGE_SIZE {
            MAX_PAGE_SIZE as int
        } else {
            value as int
        },
    }
}

/// The offset a request ends up with: zero when absent.
pub open spec fn effective_offset(offset: Option<usize>) -> int {
    match offset {
        None => 0,
        Some(value) => value as int,
    }
}

/// Resolves the optional paging parameters of a listing request.
pub fn normalize_pagination(limit: Option<usize>, offset: Option<usize>) -> (res: (usize, usize))
    ensures
        res.0 == effective_limit(limit),
        res.1 == effective_offset(offset),
        1 <= res.0 <= MAX_PAGE_SIZE,
{
    let requested = match limit {
        Some(value) => value,
        None => DEFAULT_PAGE_SIZE,
    };
    let clamped = if requested < 1 {
        1
    } else if requested > MAX_PAGE_SIZE {
        MAX_PAGE_SIZE
    } else {
        requested
    };
    let start = match offset {
        Some(value) => value,
        None => 0,
    };
    (clamped, start)
}

/// Builds the paging metadata of one page: more items remain exactly when
/// the page ends before `total`.
pub fn build_page_info(limit: usize, offset: usize, total: u64, returned: usize) -> (info: PageInfo)
    requires
        offset + returned <= u64::MAX,
    ensures
        info.limit == limit,
        info.offset == offset,
        info.returned == returned,
        info.total == Some(total),
        info.has_more == (offset + returned < total),
{
    let end = (offset as u64) + (returned as u64);
    PageInfo { limit, offset, returned, total: Some(total), has_more: end < total }
}

} // verus!
