use blog_api::listing::{count_open_posts, find_post_by_id, select_page};
use blog_api::model::{BlogError, Post, Posts};
use blog_api::pagination::{next_page, normalize_page, page_count, prev_page};
use blog_api::resolvers::QueryRoot;

fn post(id: i32, title: &str, category: Option<&str>, contents: Option<&str>, pub_date: i64, open: i8) -> Post {
    Post {
        id,
        title: title.to_string(),
        category: category.map(|c| c.to_string()),
        contents: contents.map(|c| c.to_string()),
        pub_date,
        open,
    }
}

/// Twelve open posts, three of them in category "tech", newest first by id.
fn twelve_posts() -> Vec<Post> {
    let mut rows = Vec::new();
    for i in 1..=12 {
        let cat = if i % 4 == 0 { "tech" } else { "life" };
        rows.push(post(i, "title", Some(cat), Some("body"), 1000 + i as i64, 1));
    }
    rows
}

fn posts_eq(a: &Posts, b: &Posts) -> bool {
    a.current == b.current
        && a.next == b.next
        && a.prev == b.prev
        && a.category == b.category
        && a.page_size == b.page_size
        && a.results.len() == b.results.len()
        && a.results.iter().zip(b.results.iter()).all(|(x, y)| {
            x.id == y.id
                && x.title == y.title
                && x.category == y.category
                && x.contents == y.contents
                && x.pub_date == y.pub_date
                && x.open == y.open
        })
}

#[test]
fn page_count_is_at_least_one() {
    assert_eq!(page_count(0), 1);
    assert_eq!(page_count(4), 1);
    assert_eq!(page_count(5), 2);
    assert_eq!(page_count(12), 3);
    assert_eq!(page_count(i32::MAX), i32::MAX / 5 + 1);
}

#[test]
fn pagination_helpers() {
    assert_eq!(normalize_page(0), 1);
    assert_eq!(normalize_page(1), 1);
    assert_eq!(normalize_page(-3), -3);
    assert_eq!(next_page(3, 3), 3);
    assert_eq!(next_page(1, 3), 2);
    assert_eq!(prev_page(1), 0);
    assert_eq!(prev_page(5), 4);
}

#[test]
fn empty_table_is_not_found() {
    let rows: Vec<Post> = Vec::new();
    let r = QueryRoot.getPosts(&rows, 1, String::new());
    assert!(matches!(r, Err(BlogError::NotFoundPosts)));
}

#[test]
fn all_closed_posts_is_not_found() {
    let rows = vec![
        post(1, "a", None, None, 10, 0),
        post(2, "b", Some("tech"), Some("x"), 20, 0),
    ];
    assert_eq!(count_open_posts(&rows), 0);
    let r = QueryRoot.getPosts(&rows, 1, String::new());
    assert!(matches!(r, Err(BlogError::NotFoundPosts)));
    let r2 = QueryRoot.getPosts(&rows, 7, "tech".to_string());
    assert!(matches!(r2, Err(BlogError::NotFoundPosts)));
}

#[test]
fn page_zero_equals_page_one() {
    let rows = twelve_posts();
    let a = QueryRoot.getPosts(&rows, 0, String::new()).unwrap();
    let b = QueryRoot.getPosts(&rows, 1, String::new()).unwrap();
    assert!(posts_eq(&a, &b));
    assert_eq!(a.current, 1);
}

#[test]
fn page_beyond_last_is_not_found() {
    let rows = twelve_posts();
    // twelve open posts span floor(12/5) + 1 = 3 pages
    let r = QueryRoot.getPosts(&rows, 4, String::new());
    assert!(matches!(r, Err(BlogError::NotFoundPosts)));
    let ok = QueryRoot.getPosts(&rows, 3, String::new());
    assert!(ok.is_ok());
}

#[test]
fn listing_is_newest_first_and_at_most_five() {
    let mut rows = Vec::new();
    // seven open posts with scrambled publication dates
    let dates = [40i64, 10, 70, 20, 60, 30, 50];
    for (i, d) in dates.iter().enumerate() {
        rows.push(post(i as i32 + 1, "t", None, None, *d, 1));
    }
    let first = select_page(&rows, 1, &String::new());
    assert_eq!(first.len(), 5);
    let got: Vec<i64> = first.iter().map(|p| p.pub_date).collect();
    assert_eq!(got, vec![70, 60, 50, 40, 30]);
    let second = select_page(&rows, 2, &String::new());
    let got2: Vec<i64> = second.iter().map(|p| p.pub_date).collect();
    assert_eq!(got2, vec![20, 10]);
}

#[test]
fn posts_with_equal_dates_keep_table_order() {
    let rows = vec![
        post(1, "a", None, None, 100, 1),
        post(2, "b", None, None, 100, 1),
        post(3, "c", None, None, 100, 1),
    ];
    let page = select_page(&rows, 1, &String::new());
    let ids: Vec<i32> = page.iter().map(|p| p.id).collect();
    assert_eq!(ids, vec![1, 2, 3]);
}

#[test]
fn closed_posts_never_listed_but_fetchable_by_id() {
    let rows = vec![
        post(1, "open", None, Some("x"), 10, 1),
        post(2, "closed", None, Some("y"), 20, 0),
    ];
    let page = select_page(&rows, 1, &String::new());
    assert_eq!(page.len(), 1);
    assert_eq!(page[0].id, 1);
    // lookup by id is not filtered by visibility
    let hidden = QueryRoot.getPost(&rows, 2).unwrap();
    assert_eq!(hidden.title, "closed");
}

#[test]
fn single_post_full_listing_truncated() {
    let long_body: String = std::iter::repeat('x').take(250).collect();
    let rows = vec![post(7, "long", Some("tech"), Some(&long_body), 10, 1)];
    let full = QueryRoot.getPost(&rows, 7).unwrap();
    assert_eq!(full.contents.as_deref().unwrap().chars().count(), 250);
    let listed = QueryRoot.getPosts(&rows, 1, String::new()).unwrap();
    assert_eq!(listed.results.len(), 1);
    assert_eq!(listed.results[0].contents.as_deref().unwrap().chars().count(), 200);
    assert_eq!(
        listed.results[0].contents.as_deref().unwrap(),
        &long_body[..200]
    );
}

#[test]
fn truncation_boundary_is_exact() {
    let exact: String = std::iter::repeat('a').take(200).collect();
    let rows = vec![post(1, "t", None, Some(&exact), 10, 1)];
    let listed = QueryRoot.getPosts(&rows, 1, String::new()).unwrap();
    assert_eq!(listed.results[0].contents.as_deref().unwrap(), exact);
    let over: String = std::iter::repeat('b').take(201).collect();
    let rows2 = vec![post(1, "t", None, Some(&over), 10, 1)];
    let listed2 = QueryRoot.getPosts(&rows2, 1, String::new()).unwrap();
    assert_eq!(listed2.results[0].contents.as_deref().unwrap(), &over[..200]);
}

#[test]
fn scenario_twelve_posts_three_tech() {
    let rows = twelve_posts();
    let r = QueryRoot.getPosts(&rows, 1, "tech".to_string()).unwrap();
    // three tech posts exist; all fit on the first page
    assert_eq!(r.results.len(), 3);
    assert!(r.results.iter().all(|p| p.category.as_deref() == Some("tech")));
    // the page count comes from the total open count, not the filtered one
    assert_eq!(r.page_size, 3);
    assert_eq!(r.current, 1);
    assert_eq!(r.next, Some(2));
    assert_eq!(r.prev, Some(0));
    assert_eq!(r.category, "tech");
}

#[test]
fn next_saturates_on_last_page() {
    let rows = twelve_posts();
    let r = QueryRoot.getPosts(&rows, 3, String::new()).unwrap();
    assert_eq!(r.current, 3);
    assert_eq!(r.next, Some(3));
    assert_eq!(r.prev, Some(2));
    assert_eq!(r.results.len(), 2);
}

#[test]
fn scenario_missing_id_and_ping() {
    let rows = twelve_posts();
    let r = QueryRoot.getPost(&rows, 999);
    assert!(matches!(r, Err(BlogError::NotFoundPost)));
    let p = QueryRoot.ping();
    assert_eq!(p.status, "ok");
    assert_eq!(p.code, 200);
    let empty: Vec<Post> = Vec::new();
    let p2 = QueryRoot.ping();
    assert_eq!(p2.status, "ok");
    assert_eq!(p2.code, 200);
    assert!(find_post_by_id(&empty, 999).is_none());
}

#[test]
fn get_post_returns_first_matching_row() {
    let rows = vec![
        post(5, "first", None, None, 10, 1),
        post(6, "other", None, None, 20, 1),
    ];
    let p = QueryRoot.getPost(&rows, 5).unwrap();
    assert_eq!(p.title, "first");
    assert_eq!(p.pub_date, 10);
}

#[test]
fn uncategorized_posts_listed_without_filter_only() {
    let rows = vec![
        post(1, "none", None, None, 30, 1),
        post(2, "tech", Some("tech"), None, 20, 1),
    ];
    let all = select_page(&rows, 1, &String::new());
    assert_eq!(all.len(), 2);
    let tech = select_page(&rows, 1, &"tech".to_string());
    assert_eq!(tech.len(), 1);
    assert_eq!(tech[0].id, 2);
    let other = select_page(&rows, 1, &"cooking".to_string());
    assert_eq!(other.len(), 0);
}

#[test]
fn error_messages_and_extensions() {
    let nf_post = BlogError::NotFoundPost;
    assert_eq!(nf_post.message(), "no such post");
    let (k, v) = nf_post.extension_entry();
    assert_eq!(k, "code");
    assert_eq!(v, "NOT_FOUND");

    let nf_posts = BlogError::NotFoundPosts;
    assert_eq!(nf_posts.message(), "no posts");
    let (k2, v2) = nf_posts.extension_entry();
    assert_eq!(k2, "code");
    assert_eq!(v2, "NOT_FOUND");

    let se = BlogError::ServerError("connection refused".to_string());
    assert_eq!(se.message(), "connection refused");
    let (k3, v3) = se.extension_entry();
    assert_eq!(k3, "reason");
    assert_eq!(v3, "connection refused");
}

#[test]
fn negative_page_starts_at_front() {
    let rows = twelve_posts();
    let r = QueryRoot.getPosts(&rows, -2, String::new()).unwrap();
    // a negative page is kept as the current page but lists from the front
    assert_eq!(r.current, -2);
    assert_eq!(r.next, Some(-1));
    assert_eq!(r.prev, Some(-3));
    let first = QueryRoot.getPosts(&rows, 1, String::new()).unwrap();
    assert_eq!(
        r.results.iter().map(|p| p.id).collect::<Vec<_>>(),
        first.results.iter().map(|p| p.id).collect::<Vec<_>>()
    );
}
