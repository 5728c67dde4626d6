use twit_clone::posts::{make_homepage, Post, Posts};

fn post(author: &str, content: &str) -> Post {
    Post {
        author: author.to_string(),
        content: content.to_string(),
    }
}

#[test]
fn each_post_is_one_paragraph() {
    let posts = Posts::new(vec![
        post("test_author1", "This is the first post"),
        post("test_author2", "This is the second post"),
    ]);
    assert_eq!(
        posts.append_posts(),
        "    <p>This is the first post - test_author1</p>\r\n    <p>This is the second post - test_author2</p>\r\n"
    );
}

#[test]
fn no_posts_give_no_paragraph() {
    assert_eq!(Posts::new(vec![]).append_posts(), "");
}

#[test]
fn html_creation() {
    let template = "<!DOCTYPE html>\r
<html lang=\"en\">\r
  <head>\r
    <meta charset=\"utf-8\">\r
    <title>Twit Home</title>\r
  </head>\r
  <body>\r
    <h1>Home Page</h1>\r
    <p>This will be the twit clone home page, made with Rust!</p>\r
    <!--REPLACE-->\r
  </body>\r
</html>";
    let expected = "<!DOCTYPE html>\r
<html lang=\"en\">\r
  <head>\r
    <meta charset=\"utf-8\">\r
    <title>Twit Home</title>\r
  </head>\r
  <body>\r
    <h1>Home Page</h1>\r
    <p>This will be the twit clone home page, made with Rust!</p>\r
    <p>This is the first post - test_author1</p>\r
    <p>This is the second post - test_author2</p>\r
  </body>\r
</html>";
    let posts = vec![
        post("test_author1", "This is the first post"),
        post("test_author2", "This is the second post"),
    ];
    assert_eq!(make_homepage(posts, template), expected);
}

#[test]
fn template_without_placeholder_stays_as_it_is() {
    let posts = Posts::new(vec![post("a", "b")]);
    assert_eq!(posts.html("<p>nothing here</p>"), "<p>nothing here</p>");
}

#[test]
fn every_placeholder_is_replaced() {
    let posts = Posts::new(vec![post("a", "b")]);
    assert_eq!(
        posts.html("x\r\n    <!--REPLACE-->\r\n    <!--REPLACE-->\r\ny"),
        "x\r\n    <p>b - a</p>\r\n    <p>b - a</p>\r\ny"
    );
}
