//! The query operations of the service, verified over the post table.
//!
//! [`QueryRoot`] answers the three public operations.  `ping` is a fixed
//! health check.  `getPost` looks one row up by id, never consulting the
//! visibility flag.  `getPosts` serves one page of the newest-first listing:
//! it fails with [`BlogError::NotFoundPosts`] when no post is publicly
//! visible at all or when the requested page lies beyond the last one, and
//! otherwise returns the page together with the pagination numbers.  The
//! whole answer is pinned to the specification function [`spec_get_posts`].
//!
//! Connectivity failures ([`BlogError::ServerError`]) arise only where the
//! rows are fetched, outside this library; nothing here produces one.

use vstd::prelude::*;
use crate::model::{BlogError, Ping, Post, Posts, PostsView, PostView};
use crate::pagination::{
    normalize_page, next_page, page_count, prev_page, spec_next_page, spec_normalize_page,
    spec_page_count, spec_prev_page,
};
use crate::listing::{
    count_open_posts, find_post_by_id, lemma_select_page_shape, select_page, spec_count_open,
    spec_find_post, spec_select_page, spec_sorted_desc,
};

verus! {

/// The root of the query surface.
pub struct QueryRoot;

/// The full listing answer as a mathematical function of the table and the
/// request: `None` where the service answers "not found", otherwise the page
/// that is served.
pub open spec fn spec_get_posts(rows: Seq<PostView>, page: int, category: Seq<char>) -> Option<
    PostsView,
> {
    let total = spec_count_open(rows);
    let current = spec_normalize_page(page);
    let pages = spec_page_count(total);
    if total == 0 {
        None
    } else if current > pages {
        None
    } else {
        Some(
            PostsView {
                current: current,
                next: Some(spec_next_page(current, pages)),
                prev: Some(spec_prev_page(current)),
                category: category,
                page_size: pages,
                results: spec_select_page(rows, current, category),
            },
        )
    }
}

impl QueryRoot {
    /// Health check: always the same status record, whatever the state of
    /// the database.
    pub fn ping(&self) -> (r: Ping)
        ensures
            r.status@ == "ok"@,
            r.code == 200,
    {
        Ping { status: "ok".to_owned(), code: 200 }
    }

    /// Serves one post by id: the stored row, body untruncated, whether or
    /// not the post is publicly visible; "not found" exactly when no row
    /// has the id.
    #[allow(non_snake_case)]
    pub fn getPost(&self, rows: &Vec<Post>, id: i32) -> (r: Result<Post, BlogError>)
        ensures
            match r {
                Ok(p) => spec_find_post(rows.deep_view(), id as int) == Some(p.deep_view()),
                Err(e) => e is NotFoundPost && spec_find_post(
                    rows.deep_view(),
                    id as int,
                ) is None,
            },
    {
        match find_post_by_id(rows, id) {
            Some(p) => Ok(p),
            None => Err(BlogError::NotFoundPost),
        }
    }

    /// Serves one page of the listing, exactly as [`spec_get_posts`] says:
    /// "not found" when nothing is publicly visible or the requested page
    /// lies beyond the last one, the assembled page otherwise.
    #[allow(non_snake_case)]
    pub fn getPosts(&self, rows: &Vec<Post>, page: i32, category: String) -> (r: Result<
        Posts,
        BlogError,
    >)
        requires
            rows@.len() <= i32::MAX,
            i32::MIN < page,
        ensures
            match r {
                Ok(pp) => spec_get_posts(rows.deep_view(), page as int, category@) == Some(
                    pp.deep_view(),
                ),
                Err(e) => e is NotFoundPosts && spec_get_posts(
                    rows.deep_view(),
                    page as int,
                    category@,
                ) is None,
            },
    {
        let page = normalize_page(page);
        let total = count_open_posts(rows);
        if total == 0 {
            return Err(BlogError::NotFoundPosts);
        }
        let results = select_page(rows, page, &category);
        let page_size = page_count(total);
        if page > page_size {
            return Err(BlogError::NotFoundPosts);
        }
        let next = next_page(page, page_size);
        let prev = prev_page(page);
        Ok(
            Posts {
                current: page,
                next: Some(next),
                prev: Some(prev),
                category,
                page_size,
                results,
            },
        )
    }
}

/// With no publicly visible post at all, every listing request is answered
/// "not found", whatever page and category it asks for.
pub proof fn lemma_no_open_posts_not_found(rows: Seq<PostView>, page: int, category: Seq<char>)
    requires
        spec_count_open(rows) == 0,
    ensures
        spec_get_posts(rows, page, category) is None,
{
}

/// Requesting page 0 is the same as requesting page 1.
pub proof fn lemma_page_zero_is_page_one(rows: Seq<PostView>, category: Seq<char>)
    ensures
        spec_get_posts(rows, 0, category) == spec_get_posts(rows, 1, category),
{
}

/// Requesting a page beyond the last one is answered "not found".
pub proof fn lemma_page_beyond_last_not_found(rows: Seq<PostView>, page: int, category: Seq<char>)
    requires
        spec_normalize_page(page) > spec_page_count(spec_count_open(rows)),
    ensures
        spec_get_posts(rows, page, category) is None,
{
}

/// Every served listing page is newest-first, holds at most
/// [`crate::pagination::PAGE_LEN`] posts, and shows each body cut to the
/// preview length.
pub proof fn lemma_get_posts_results_shape(
    rows: Seq<PostView>,
    page: int,
    category: Seq<char>,
    pv: PostsView,
)
    requires
        spec_get_posts(rows, page, category) == Some(pv),
    ensures
        pv.results.len() <= 5,
        spec_sorted_desc(pv.results),
        forall|i: int|
            0 <= i < pv.results.len() ==> (#[trigger] pv.results[i].contents matches Some(c)
                ==> c.len() <= 200),
{
    lemma_select_page_shape(rows, spec_normalize_page(page), category);
}

} // verus!
