use miniblog::article::Article;
use miniblog::comment::{Comment, CommentRequest};

#[test]
fn comment_from_request_keeps_the_fields() {
    let comment = Comment::from_request(CommentRequest {
        article: "article-id".to_string(),
        author: "someone".to_string(),
        content: "nice post".to_string(),
    });
    assert_eq!(comment.article, "article-id");
    assert_eq!(comment.author, "someone");
    assert_eq!(comment.content, "nice post");
    assert_eq!(comment.id.len(), 36);
}

#[test]
fn comment_published_renders_like_articles() {
    let comment = Comment {
        id: "x".to_string(),
        article: "a".to_string(),
        author: "b".to_string(),
        content: "c".to_string(),
        published: 1704067200,
    };
    assert_eq!(comment.published(), "01.01.2024 00:00");
}

#[test]
fn published_outside_the_renderable_range_is_empty() {
    let article = Article {
        id: "x".to_string(),
        title: "T".to_string(),
        content: "C".to_string(),
        published: -1,
    };
    assert_eq!(article.published(), "");
}
