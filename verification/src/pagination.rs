//! Pagination arithmetic for the post listing.
//!
//! A listing page holds at most [`PAGE_LEN`] posts.  The number of pages the
//! listing spans is `total / PAGE_LEN + 1`, so it is at least 1 even for an
//! empty listing.  A requested page number of 0 is normalized to 1; any other
//! requested number, including a negative one, is kept as it is.  The "next"
//! page saturates at the last page number rather than becoming absent: this
//! repeats the client-visible behavior the service has always had.

use vstd::prelude::*;

verus! {

/// Fixed number of posts on one listing page.
pub const PAGE_LEN: i32 = 5;

/// Total number of pages the listing spans when `total` open posts exist.
pub open spec fn spec_page_count(total: int) -> int {
    total / 5 + 1
}

/// A requested page number of 0 means the first page.
pub open spec fn spec_normalize_page(page: int) -> int {
    if page == 0 {
        1
    } else {
        page
    }
}

/// The page served after `current`, saturating at the last page.
pub open spec fn spec_next_page(current: int, pages: int) -> int {
    if current == pages {
        pages
    } else {
        current + 1
    }
}

/// The page served before `current`.
pub open spec fn spec_prev_page(current: int) -> int {
    if current == 0 {
        0
    } else {
        current - 1
    }
}

/// However many open posts exist, the listing spans at least one page.
pub proof fn lemma_page_count_at_least_one(total: int)
    requires
        total >= 0,
    ensures
        spec_page_count(total) >= 1,
{
}

/// Number of pages needed to cover `total` open posts.
pub fn page_count(total: i32) -> (r: i32)
    requires
        0 <= total,
    ensures
        r == spec_page_count(total as int),
        r >= 1,
{
    total / PAGE_LEN + 1
}

/// Normalizes the caller's requested page number.
pub fn normalize_page(page: i32) -> (r: i32)
    ensures
        r == spec_normalize_page(page as int),
{
    if page == 0 {
        1
    } else {
        page
    }
}

/// Page number reported as "next" from `current` of `pages` total pages.
pub fn next_page(current: i32, pages: i32) -> (r: i32)
    requires
        current <= pages,
    ensures
        r == spec_next_page(current as int, pages as int),
{
    if current == pages {
        pages
    } else {
        current + 1
    }
}

/// Page number reported as "previous" from `current`.
pub fn prev_page(current: i32) -> (r: i32)
    requires
        i32::MIN < current,
    ensures
        r == spec_prev_page(current as int),
{
    if current == 0 {
        0
    } else {
        current - 1
    }
}

} // verus!
