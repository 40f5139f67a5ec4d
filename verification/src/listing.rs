//! The listing query over the post table, verified end to end.
//!
//! The table arrives as a plain vector of joined rows.  The listing keeps the
//! publicly visible rows (optionally only those of one category), orders them
//! by publication date, newest first and stably, cuts out the requested page
//! of [`crate::pagination::PAGE_LEN`] rows, and truncates each body to its
//! first [`CONTENTS_PREVIEW_LEN`] characters.  Every step is pinned to a
//! recursive specification function, so the result of [`select_page`] is a
//! mathematical function of the rows and the request.

use vstd::prelude::*;
use vstd::string::StrSliceExecFns;
use crate::model::{Post, PostView};

verus! {

/// A listed body is cut to this many characters.
pub const CONTENTS_PREVIEW_LEN: usize = 200;

/// A post is publicly visible when its `open` flag is nonzero.
pub open spec fn spec_is_open(p: PostView) -> bool {
    p.open != 0
}

/// Number of publicly visible posts among `rows`.
pub open spec fn spec_count_open(rows: Seq<PostView>) -> int
    decreases rows.len(),
{
    if rows.len() == 0 {
        0
    } else {
        spec_count_open(rows.drop_last()) + (if spec_is_open(rows.last()) {
            1int
        } else {
            0int
        })
    }
}

/// A row stays in the listing when it is visible and, with a nonempty
/// filter, carries exactly that category name.
pub open spec fn spec_keeps(p: PostView, category: Seq<char>) -> bool {
    spec_is_open(p) && (category.len() == 0 || p.category == Some(category))
}

/// The rows of the listing, in table order.
pub open spec fn spec_filter_rows(rows: Seq<PostView>, category: Seq<char>) -> Seq<PostView>
    decreases rows.len(),
{
    if rows.len() == 0 {
        Seq::empty()
    } else {
        let prefix = spec_filter_rows(rows.drop_last(), category);
        if spec_keeps(rows.last(), category) {
            prefix.push(rows.last())
        } else {
            prefix
        }
    }
}

/// Insertion of `p` into a newest-first sequence: `p` goes behind every row
/// published no earlier than it, so rows with equal dates keep their order.
pub open spec fn spec_insert_desc(sorted: Seq<PostView>, p: PostView) -> Seq<PostView>
    decreases sorted.len(),
{
    if sorted.len() == 0 {
        seq![p]
    } else if sorted.first().pub_date >= p.pub_date {
        seq![sorted.first()] + spec_insert_desc(sorted.drop_first(), p)
    } else {
        seq![p] + sorted
    }
}

/// Stable sort of the rows by publication date, newest first.
pub open spec fn spec_sort_desc(rows: Seq<PostView>) -> Seq<PostView>
    decreases rows.len(),
{
    if rows.len() == 0 {
        Seq::empty()
    } else {
        spec_insert_desc(spec_sort_desc(rows.drop_last()), rows.last())
    }
}

/// Newest-first order: publication dates never increase along the sequence.
pub open spec fn spec_sorted_desc(s: Seq<PostView>) -> bool {
    forall|i: int, j: int| 0 <= i <= j < s.len() ==> s[i].pub_date >= s[j].pub_date
}

pub proof fn lemma_insert_desc_len(sorted: Seq<PostView>, p: PostView)
    ensures
        spec_insert_desc(sorted, p).len() == sorted.len() + 1,
    decreases sorted.len(),
{
    if sorted.len() > 0 && sorted.first().pub_date >= p.pub_date {
        lemma_insert_desc_len(sorted.drop_first(), p);
    }
}

/// Every row of an insertion result is the inserted row or one of the
/// original rows.
pub proof fn lemma_insert_desc_elements(sorted: Seq<PostView>, p: PostView, k: int)
    requires
        0 <= k < spec_insert_desc(sorted, p).len(),
    ensures
        spec_insert_desc(sorted, p)[k] == p || exists|m: int|
            0 <= m < sorted.len() && spec_insert_desc(sorted, p)[k] == sorted[m],
    decreases sorted.len(),
{
    lemma_insert_desc_len(sorted, p);
    if sorted.len() == 0 {
    } else if sorted.first().pub_date >= p.pub_date {
        if k == 0 {
            assert(spec_insert_desc(sorted, p)[0] == sorted[0]);
        } else {
            lemma_insert_desc_elements(sorted.drop_first(), p, k - 1);
            let r = spec_insert_desc(sorted, p);
            let tail = spec_insert_desc(sorted.drop_first(), p);
            assert(r[k] == tail[k - 1]);
            if tail[k - 1] != p {
                let m = choose|m: int|
                    0 <= m < sorted.drop_first().len() && tail[k - 1] == sorted.drop_first()[m];
                assert(sorted.drop_first()[m] == sorted[m + 1]);
                assert(r[k] == sorted[m + 1]);
            }
        }
    } else {
        if k > 0 {
            assert(spec_insert_desc(sorted, p)[k] == sorted[k - 1]);
        }
    }
}

/// Inserting into a newest-first sequence keeps it newest-first.
pub proof fn lemma_insert_desc_sorted(sorted: Seq<PostView>, p: PostView)
    requires
        spec_sorted_desc(sorted),
    ensures
        spec_sorted_desc(spec_insert_desc(sorted, p)),
    decreases sorted.len(),
{
    if sorted.len() == 0 {
    } else if sorted.first().pub_date >= p.pub_date {
        let rest = sorted.drop_first();
        assert(spec_sorted_desc(rest)) by {
            assert forall|i: int, j: int| 0 <= i <= j < rest.len() implies rest[i].pub_date
                >= rest[j].pub_date by {
                assert(rest[i] == sorted[i + 1]);
                assert(rest[j] == sorted[j + 1]);
            }
        }
        lemma_insert_desc_sorted(rest, p);
        lemma_insert_desc_len(rest, p);
        let tail = spec_insert_desc(rest, p);
        let r = spec_insert_desc(sorted, p);
        assert forall|i: int, j: int| 0 <= i <= j < r.len() implies r[i].pub_date
            >= r[j].pub_date by {
            if i == 0 {
                if j > 0 {
                    assert(r[j] == tail[j - 1]);
                    lemma_insert_desc_elements(rest, p, j - 1);
                    if tail[j - 1] != p {
                        let m = choose|m: int| 0 <= m < rest.len() && tail[j - 1] == rest[m];
                        assert(rest[m] == sorted[m + 1]);
                        assert(sorted[0].pub_date >= sorted[m + 1].pub_date);
                    }
                }
            } else {
                assert(r[i] == tail[i - 1]);
                assert(r[j] == tail[j - 1]);
            }
        }
    } else {
        let r = spec_insert_desc(sorted, p);
        assert forall|i: int, j: int| 0 <= i <= j < r.len() implies r[i].pub_date
            >= r[j].pub_date by {
            if i == 0 {
                if j > 0 {
                    assert(r[j] == sorted[j - 1]);
                    assert(sorted[0].pub_date >= sorted[j - 1].pub_date);
                }
            } else {
                assert(r[i] == sorted[i - 1]);
                assert(r[j] == sorted[j - 1]);
            }
        }
    }
}

/// The sorted listing is newest-first and keeps the number of rows.
pub proof fn lemma_sort_desc_sorted(rows: Seq<PostView>)
    ensures
        spec_sorted_desc(spec_sort_desc(rows)),
        spec_sort_desc(rows).len() == rows.len(),
    decreases rows.len(),
{
    if rows.len() > 0 {
        lemma_sort_desc_sorted(rows.drop_last());
        lemma_insert_desc_sorted(spec_sort_desc(rows.drop_last()), rows.last());
        lemma_insert_desc_len(spec_sort_desc(rows.drop_last()), rows.last());
    }
}

/// Offset of the first listed row for a requested page: pages are
/// [`crate::pagination::PAGE_LEN`] rows long, and a page of 0 or less
/// starts at the front.
pub open spec fn spec_offset(page: int) -> int {
    if page <= 0 {
        0
    } else {
        5 * (page - 1)
    }
}

/// A body shown inside a listing, cut to its first
/// [`CONTENTS_PREVIEW_LEN`] characters.
pub open spec fn spec_truncate_contents(c: Seq<char>) -> Seq<char> {
    if c.len() <= 200 {
        c
    } else {
        c.subrange(0, 200)
    }
}

/// A row as it appears inside a listing: unchanged but for the body preview.
pub open spec fn spec_truncate_post(p: PostView) -> PostView {
    PostView {
        id: p.id,
        title: p.title,
        category: p.category,
        contents: match p.contents {
            Some(c) => Some(spec_truncate_contents(c)),
            None => None,
        },
        pub_date: p.pub_date,
        open: p.open,
    }
}

/// Every row of a sequence, as a listing shows it.
pub open spec fn spec_truncate_all(s: Seq<PostView>) -> Seq<PostView> {
    s.map_values(|p: PostView| spec_truncate_post(p))
}

/// The page of the listing a request is answered with: the kept rows,
/// newest first, from the page's offset on, at most a page long, each with
/// its body preview.
pub open spec fn spec_select_page(rows: Seq<PostView>, page: int, category: Seq<char>) -> Seq<
    PostView,
> {
    let sorted = spec_sort_desc(spec_filter_rows(rows, category));
    let off = spec_offset(page);
    let start = if off > sorted.len() {
        sorted.len() as int
    } else {
        off
    };
    let end = if off + 5 > sorted.len() {
        sorted.len() as int
    } else {
        off + 5
    };
    spec_truncate_all(sorted.subrange(start, end))
}

/// A served page is newest-first, never longer than a page, and every body
/// on it is cut to the preview length.
pub proof fn lemma_select_page_shape(rows: Seq<PostView>, page: int, category: Seq<char>)
    ensures
        spec_select_page(rows, page, category).len() <= 5,
        spec_sorted_desc(spec_select_page(rows, page, category)),
        forall|i: int|
            0 <= i < spec_select_page(rows, page, category).len()
                ==> (#[trigger] spec_select_page(rows, page, category)[i].contents matches Some(c)
                ==> c.len() <= 200),
{
    let filtered = spec_filter_rows(rows, category);
    lemma_sort_desc_sorted(filtered);
    let r = spec_select_page(rows, page, category);
    let sorted = spec_sort_desc(filtered);
    let off = spec_offset(page);
    let start = if off > sorted.len() {
        sorted.len() as int
    } else {
        off
    };
    let end = if off + 5 > sorted.len() {
        sorted.len() as int
    } else {
        off + 5
    };
    let sliced = sorted.subrange(start, end);
    assert forall|i: int, j: int| 0 <= i <= j < r.len() implies r[i].pub_date
        >= r[j].pub_date by {
        assert(r[i] == spec_truncate_post(sliced[i]));
        assert(r[j] == spec_truncate_post(sliced[j]));
        assert(sliced[i] == sorted[start + i]);
        assert(sliced[j] == sorted[start + j]);
    }
    assert forall|i: int| 0 <= i < r.len() implies (#[trigger] r[i].contents matches Some(c)
        ==> c.len() <= 200) by {
        assert(r[i] == spec_truncate_post(sliced[i]));
    }
}

/// Counts the publicly visible posts among `rows`.
pub fn count_open_posts(rows: &Vec<Post>) -> (r: i32)
    requires
        rows@.len() <= i32::MAX,
    ensures
        r == spec_count_open(rows.deep_view()),
        0 <= r <= rows@.len(),
{
    let ghost dv = rows.deep_view();
    let mut c: i32 = 0;
    let mut i: usize = 0;
    while i < rows.len()
        invariant
            0 <= i <= rows@.len() <= i32::MAX,
            dv == rows.deep_view(),
            dv.len() == rows@.len(),
            c == spec_count_open(dv.subrange(0, i as int)),
            0 <= c <= i,
        decreases rows@.len() - i,
    {
        proof {
            assert(dv.subrange(0, i + 1).drop_last() =~= dv.subrange(0, i as int));
            assert(dv.subrange(0, i + 1).last() == dv[i as int]);
        }
        if rows[i].open != 0 {
            c = c + 1;
        }
        i = i + 1;
    }
    proof {
        assert(dv.subrange(0, dv.len() as int) =~= dv);
    }
    c
}

/// The first row with the given id, in table order.
pub open spec fn spec_find_post(rows: Seq<PostView>, id: int) -> Option<PostView>
    decreases rows.len(),
{
    if rows.len() == 0 {
        None
    } else if rows.first().id == id {
        Some(rows.first())
    } else {
        spec_find_post(rows.drop_first(), id)
    }
}

/// Looks a post up by id; visibility is not consulted.
pub fn find_post_by_id(rows: &Vec<Post>, id: i32) -> (r: Option<Post>)
    ensures
        r.deep_view() == spec_find_post(rows.deep_view(), id as int),
{
    let ghost dv = rows.deep_view();
    let n = rows.len();
    let mut i: usize = 0;
    proof {
        assert(dv.subrange(0, n as int) =~= dv);
    }
    while i < n
        invariant
            0 <= i <= n == rows@.len(),
            dv == rows.deep_view(),
            dv.len() == n,
            spec_find_post(dv, id as int) == spec_find_post(
                dv.subrange(i as int, n as int),
                id as int,
            ),
        decreases n - i,
    {
        proof {
            assert(dv.subrange(i as int, n as int).first() == dv[i as int]);
            assert(dv.subrange(i as int, n as int).drop_first() =~= dv.subrange(
                i + 1,
                n as int,
            ));
        }
        if rows[i].id == id {
            return Some(rows[i].clone());
        }
        i = i + 1;
    }
    proof {
        assert(dv.subrange(n as int, n as int) =~= Seq::<PostView>::empty());
    }
    None
}

/// Exact character-for-character equality of two strings.
fn string_eq(a: &String, b: &String) -> (r: bool)
    ensures
        r == (a@ == b@),
{
    a.eq(b)
}

/// Decides whether one row stays in the listing for the given filter.
fn post_keeps(p: &Post, category: &String) -> (r: bool)
    ensures
        r == spec_keeps(p.deep_view(), category@),
{
    if p.open == 0 {
        return false;
    }
    if category.as_str().unicode_len() == 0 {
        return true;
    }
    match &p.category {
        Some(c) => string_eq(c, category),
        None => false,
    }
}

/// Cuts a body to its first [`CONTENTS_PREVIEW_LEN`] characters.
fn truncate_contents(s: &str) -> (r: String)
    ensures
        r@ == spec_truncate_contents(s@),
{
    let n = s.unicode_len();
    if n <= CONTENTS_PREVIEW_LEN {
        s.to_owned()
    } else {
        s.substring_char(0, CONTENTS_PREVIEW_LEN).to_owned()
    }
}

/// A row as a listing shows it: the body cut to its preview length.
fn truncate_post(p: &Post) -> (t: Post)
    ensures
        t.deep_view() == spec_truncate_post(p.deep_view()),
{
    Post {
        id: p.id,
        title: p.title.clone(),
        category: match &p.category {
            Some(c) => Some(c.clone()),
            None => None,
        },
        contents: match &p.contents {
            Some(c) => Some(truncate_contents(c.as_str())),
            None => None,
        },
        pub_date: p.pub_date,
        open: p.open,
    }
}

/// Inserting at the first position whose date is older gives exactly the
/// specified stable insertion.
proof fn lemma_insert_desc_at(sorted: Seq<PostView>, p: PostView, k: int)
    requires
        0 <= k <= sorted.len(),
        forall|m: int| 0 <= m < k ==> sorted[m].pub_date >= p.pub_date,
        k < sorted.len() ==> sorted[k].pub_date < p.pub_date,
    ensures
        spec_insert_desc(sorted, p) == sorted.insert(k, p),
    decreases sorted.len(),
{
    if sorted.len() == 0 {
        assert(spec_insert_desc(sorted, p) =~= sorted.insert(0, p));
    } else if k == 0 {
        assert(sorted.first().pub_date < p.pub_date);
        assert(spec_insert_desc(sorted, p) =~= sorted.insert(0, p));
    } else {
        assert(sorted[0].pub_date >= p.pub_date);
        let rest = sorted.drop_first();
        assert forall|m: int| 0 <= m < k - 1 implies rest[m].pub_date >= p.pub_date by {
            assert(rest[m] == sorted[m + 1]);
        }
        if k - 1 < rest.len() {
            assert(rest[k - 1] == sorted[k]);
        }
        lemma_insert_desc_at(rest, p, k - 1);
        assert(seq![sorted.first()] + rest.insert(k - 1, p) =~= sorted.insert(k, p));
    }
}

/// Sorts rows by publication date, newest first; rows with equal dates keep
/// their order.
fn sort_posts_desc(v: Vec<Post>) -> (out: Vec<Post>)
    ensures
        out.deep_view() == spec_sort_desc(v.deep_view()),
{
    let ghost dv = v.deep_view();
    let mut sorted: Vec<Post> = Vec::new();
    let mut i: usize = 0;
    while i < v.len()
        invariant
            0 <= i <= v@.len(),
            dv == v.deep_view(),
            dv.len() == v@.len(),
            sorted.deep_view() == spec_sort_desc(dv.subrange(0, i as int)),
        decreases v@.len() - i,
    {
        let ghost pre = sorted.deep_view();
        let p = v[i].clone();
        let mut k: usize = 0;
        while k < sorted.len() && sorted[k].pub_date >= p.pub_date
            invariant
                0 <= k <= sorted@.len(),
                sorted.deep_view() == pre,
                pre.len() == sorted@.len(),
                p.deep_view() == dv[i as int],
                0 <= i < dv.len(),
                forall|m: int| 0 <= m < k ==> pre[m].pub_date >= p.deep_view().pub_date,
            decreases sorted@.len() - k,
        {
            proof {
                assert(pre[k as int] == sorted.deep_view()[k as int]);
            }
            k = k + 1;
        }
        proof {
            assert(k < sorted@.len() ==> pre[k as int].pub_date < p.deep_view().pub_date);
            lemma_insert_desc_at(pre, p.deep_view(), k as int);
        }
        sorted.insert(k, p);
        proof {
            assert(sorted.deep_view() =~= pre.insert(k as int, dv[i as int]));
            assert(dv.subrange(0, i + 1).drop_last() =~= dv.subrange(0, i as int));
            assert(dv.subrange(0, i + 1).last() == dv[i as int]);
        }
        i = i + 1;
    }
    proof {
        assert(dv.subrange(0, dv.len() as int) =~= dv);
    }
    sorted
}

/// Answers a listing request over the given rows: the requested page of the
/// newest-first listing of visible rows, optionally restricted to one
/// category, with each body cut to its preview.
pub fn select_page(rows: &Vec<Post>, page: i32, category: &String) -> (out: Vec<Post>)
    ensures
        out.deep_view() == spec_select_page(rows.deep_view(), page as int, category@),
{
    let ghost dv = rows.deep_view();
    let mut kept: Vec<Post> = Vec::new();
    let mut i: usize = 0;
    while i < rows.len()
        invariant
            0 <= i <= rows@.len(),
            dv == rows.deep_view(),
            dv.len() == rows@.len(),
            kept.deep_view() == spec_filter_rows(dv.subrange(0, i as int), category@),
        decreases rows@.len() - i,
    {
        proof {
            assert(dv.subrange(0, i + 1).drop_last() =~= dv.subrange(0, i as int));
            assert(dv.subrange(0, i + 1).last() == dv[i as int]);
        }
        if post_keeps(&rows[i], category) {
            let ghost pre = kept.deep_view();
            kept.push(rows[i].clone());
            proof {
                assert(kept.deep_view() =~= pre.push(dv[i as int]));
            }
        }
        i = i + 1;
    }
    proof {
        assert(dv.subrange(0, dv.len() as int) =~= dv);
    }
    let sorted = sort_posts_desc(kept);
    let ghost sdv = sorted.deep_view();
    let n = sorted.len();
    proof {
        lemma_sort_desc_sorted(spec_filter_rows(dv, category@));
        assert(sdv.len() == n);
    }
    let offset: u64 = if page <= 0 {
        0
    } else {
        5 * ((page - 1) as u64)
    };
    proof {
        assert(offset == spec_offset(page as int));
    }
    let start: usize = if offset > n as u64 {
        n
    } else {
        offset as usize
    };
    let end: usize = if offset + 5 > n as u64 {
        n
    } else {
        (offset + 5) as usize
    };
    let mut out: Vec<Post> = Vec::new();
    let mut j: usize = start;
    proof {
        assert(spec_truncate_all(sdv.subrange(start as int, start as int)) =~= out.deep_view());
    }
    while j < end
        invariant
            start <= j <= end <= n == sorted@.len(),
            sdv == sorted.deep_view(),
            sdv.len() == n,
            out.deep_view() == spec_truncate_all(sdv.subrange(start as int, j as int)),
        decreases end - j,
    {
        let t = truncate_post(&sorted[j]);
        let ghost pre = out.deep_view();
        out.push(t);
        proof {
            let sub1 = sdv.subrange(start as int, j as int);
            let sub2 = sdv.subrange(start as int, j + 1);
            assert(t.deep_view() == spec_truncate_post(sdv[j as int]));
            assert(spec_truncate_all(sub1).len() == sub1.len());
            assert(pre.len() == j - start);
            assert(out.deep_view().len() == pre.len() + 1);
            assert(spec_truncate_all(sub2).len() == sub2.len());
            assert forall|m: int| 0 <= m < j + 1 - start implies out.deep_view()[m]
                == spec_truncate_all(sub2)[m] by {
                assert(sub2[m] == sdv[start + m]);
                assert(spec_truncate_all(sub2)[m] == spec_truncate_post(sdv[start + m]));
                if m < j - start {
                    assert(sub1[m] == sdv[start + m]);
                    assert(pre[m] == spec_truncate_post(sdv[start + m]));
                    assert(out.deep_view()[m] == pre[m]);
                } else {
                    assert(out.deep_view()[m] == t.deep_view());
                }
            }
            assert(out.deep_view() =~= spec_truncate_all(sub2));
        }
        j = j + 1;
    }
    proof {
        assert(out.deep_view() =~= spec_select_page(dv, page as int, category@));
    }
    out
}

} // verus!
