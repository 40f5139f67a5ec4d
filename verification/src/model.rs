//! Domain records of the blog query service and their mathematical views.
//!
//! A [`Post`] is one row of the already-joined post table: the post columns
//! plus the optional name of its category.  The publication timestamp is kept
//! as a plain count of seconds so the ordering logic can be stated over
//! integers.  A [`Posts`] value is the assembled response of one listing
//! request.  [`BlogError`] is the whole error taxonomy of the service.

use vstd::prelude::*;

verus! {

/// One blog entry, as a plain row of the joined post/category table.
pub struct Post {
    /// Unique identifier of the post.
    pub id: i32,
    /// Title of the post.
    pub title: String,
    /// Name of the post's category, if it has one.
    pub category: Option<String>,
    /// Body of the post, if any was written.
    pub contents: Option<String>,
    /// Publication instant, in seconds since the Unix epoch.
    pub pub_date: i64,
    /// Visibility flag: nonzero means the post is publicly listed.
    pub open: i8,
}

/// Mathematical view of a [`Post`].
pub ghost struct PostView {
    pub id: int,
    pub title: Seq<char>,
    pub category: Option<Seq<char>>,
    pub contents: Option<Seq<char>>,
    pub pub_date: int,
    pub open: int,
}

impl DeepView for Post {
    type V = PostView;

    open spec fn deep_view(&self) -> PostView {
        PostView {
            id: self.id as int,
            title: self.title@,
            category: self.category.deep_view(),
            contents: self.contents.deep_view(),
            pub_date: self.pub_date as int,
            open: self.open as int,
        }
    }
}

impl View for Post {
    type V = PostView;

    open spec fn view(&self) -> PostView {
        self.deep_view()
    }
}

impl Clone for Post {
    /// An exact copy: the clone equals the original.
    fn clone(&self) -> (res: Self)
        ensures
            res == *self,
    {
        Post {
            id: self.id,
            title: self.title.clone(),
            category: match &self.category {
                Some(c) => Some(c.clone()),
                None => None,
            },
            contents: match &self.contents {
                Some(c) => Some(c.clone()),
                None => None,
            },
            pub_date: self.pub_date,
            open: self.open,
        }
    }
}

/// One page of the post listing, assembled per request.
pub struct Posts {
    /// The page number served; 1 when the caller asked for page 0.
    pub current: i32,
    /// The following page number; saturates at the last page.
    pub next: Option<i32>,
    /// The preceding page number.
    pub prev: Option<i32>,
    /// The category filter the caller supplied; empty means no filter.
    pub category: String,
    /// Total number of pages the listing spans (historical field name).
    pub page_size: i32,
    /// The posts of this page, newest publication date first.
    pub results: Vec<Post>,
}

/// Mathematical view of a [`Posts`] page.
pub ghost struct PostsView {
    pub current: int,
    pub next: Option<int>,
    pub prev: Option<int>,
    pub category: Seq<char>,
    pub page_size: int,
    pub results: Seq<PostView>,
}

impl DeepView for Posts {
    type V = PostsView;

    open spec fn deep_view(&self) -> PostsView {
        PostsView {
            current: self.current as int,
            next: match self.next {
                Some(n) => Some(n as int),
                None => None,
            },
            prev: match self.prev {
                Some(p) => Some(p as int),
                None => None,
            },
            category: self.category@,
            page_size: self.page_size as int,
            results: self.results.deep_view(),
        }
    }
}

impl View for Posts {
    type V = PostsView;

    open spec fn view(&self) -> PostsView {
        self.deep_view()
    }
}

/// Health-check response of the service.
pub struct Ping {
    /// Fixed status text.
    pub status: String,
    /// Fixed status code.
    pub code: i32,
}

/// Everything that can go wrong while answering a query.
#[derive(Debug)]
pub enum BlogError {
    /// A single post was asked for and no row has that id.
    NotFoundPost,
    /// A listing was asked for and there is nothing to list, or the
    /// requested page lies beyond the last one.
    NotFoundPosts,
    /// Configuration or connectivity failure, with its detail text.
    ServerError(String),
}

impl BlogError {
    /// Message shown to the caller for this error.
    pub open spec fn spec_message(&self) -> Seq<char> {
        match self {
            BlogError::NotFoundPost => "no such post"@,
            BlogError::NotFoundPosts => "no posts"@,
            BlogError::ServerError(reason) => reason@,
        }
    }

    /// Returns the caller-visible message of this error.
    pub fn message(&self) -> (m: String)
        ensures
            m@ == self.spec_message(),
    {
        match self {
            BlogError::NotFoundPost => "no such post".to_owned(),
            BlogError::NotFoundPosts => "no posts".to_owned(),
            BlogError::ServerError(reason) => reason.clone(),
        }
    }

    /// Key of the structured field attached to the error payload.
    pub open spec fn spec_extension_key(&self) -> Seq<char> {
        match self {
            BlogError::ServerError(_) => "reason"@,
            _ => "code"@,
        }
    }

    /// Value of the structured field attached to the error payload.
    pub open spec fn spec_extension_value(&self) -> Seq<char> {
        match self {
            BlogError::ServerError(reason) => reason@,
            _ => "NOT_FOUND"@,
        }
    }

    /// Returns the structured `(key, value)` pair the transport layer
    /// attaches to the error payload: `code = NOT_FOUND` for the not-found
    /// errors, `reason = <detail>` for a server error.
    pub fn extension_entry(&self) -> (e: (String, String))
        ensures
            e.0@ == self.spec_extension_key(),
            e.1@ == self.spec_extension_value(),
    {
        match self {
            BlogError::NotFoundPost => ("code".to_owned(), "NOT_FOUND".to_owned()),
            BlogError::NotFoundPosts => ("code".to_owned(), "NOT_FOUND".to_owned()),
            BlogError::ServerError(reason) => ("reason".to_owned(), reason.clone()),
        }
    }
}

} // verus!
