//! The posts of the people a user follows, and the home page that shows
//! them.
//!
//! The page is a template in which one placeholder line stands for the
//! posts. Each post becomes one paragraph, its content before its author.

use vstd::prelude::*;
use vstd::string::*;
use crate::text::{to_chars, to_text};
use crate::text::search::{replace_all, replace_text};

verus! {

/// One post: who wrote it and what it says.
#[derive(Debug, PartialEq, Eq)]
pub struct Post {
    pub author: String,
    pub content: String,
}

/// A post as plain text.
pub struct PostView {
    pub author: Seq<char>,
    pub content: Seq<char>,
}

impl View for Post {
    type V = PostView;

    open spec fn view(&self) -> PostView {
        PostView { author: self.author@, content: self.content@ }
    }
}

/// The posts of a vector as plain text.
pub open spec fn post_views(posts: Seq<Post>) -> Seq<PostView> {
    posts.map_values(|p: Post| p@)
}

/// The line of a template that stands for the posts.
pub open spec fn placeholder() -> Seq<char> {
    "    <!--REPLACE-->\r\n"@
}

/// The paragraph that shows one post.
pub open spec fn entry(post: PostView) -> Seq<char> {
    "    <p>"@ + post.content + " - "@ + post.author + "</p>\r\n"@
}

/// The paragraphs of the posts, in order.
pub open spec fn entries(posts: Seq<PostView>) -> Seq<char>
    decreases posts.len(),
{
    if posts.len() == 0 {
        Seq::empty()
    } else {
        entries(posts.drop_last()) + entry(posts.last())
    }
}

/// The page: the template with the paragraphs of the posts in the place of
/// every placeholder line.
pub open spec fn page(template: Seq<char>, posts: Seq<PostView>) -> Seq<char> {
    replace_all(template, placeholder(), entries(posts))
}

/// The posts to show on a home page.
pub struct Posts {
    posts: Vec<Post>,
}

impl View for Posts {
    type V = Seq<PostView>;

    closed spec fn view(&self) -> Seq<PostView> {
        post_views(self.posts@)
    }
}

impl Posts {
    /// Takes the posts, in the order in which they are to be shown.
    pub fn new(posts: Vec<Post>) -> (r: Posts)
        ensures
            r@ == post_views(posts@),
    {
        Posts { posts }
    }

    /// The paragraphs of the posts.
    pub fn append_posts(&self) -> (r: String)
        ensures
            r@ == entries(self@),
    {
        let mut post_html = String::new();
        let mut i: usize = 0;
        while i < self.posts.len()
            invariant
                i <= self.posts.len(),
                post_html@ == entries(self@.take(i as int)),
            decreases self.posts.len() - i,
        {
            proof {
                assert(self@.take(i + 1).drop_last() == self@.take(i as int));
            }
            let post = &self.posts[i];
            post_html.append("    <p>");
            post_html.append(post.content.as_str());
            post_html.append(" - ");
            post_html.append(post.author.as_str());
            post_html.append("</p>\r\n");
            i += 1;
        }
        proof {
            assert(self@.take(self.posts.len() as int) == self@);
        }
        post_html
    }

    /// The home page made from `template`.
    pub fn html(self, template: &str) -> (r: String)
        ensures
            r@ == page(template@, self@),
    {
        let post_html = self.append_posts();
        let mark = to_chars("    <!--REPLACE-->\r\n");
        let text = to_chars(template);
        let with = to_chars(post_html.as_str());
        let html = replace_text(text.as_slice(), mark.as_slice(), with.as_slice());
        to_text(html.as_slice())
    }
}

/// The home page of a user: `template` with `posts` in it.
pub fn make_homepage(posts: Vec<Post>, template: &str) -> (r: String)
    ensures
        r@ == page(template@, post_views(posts@)),
{
    Posts::new(posts).html(template)
}

} // verus!
