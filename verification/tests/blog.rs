use miniblog::article::Article;
use miniblog::dispatch::handle_api_request;
use miniblog::feed::feed_item;
use miniblog::render::markdown;
use miniblog::request::{InnerRequest, Request, Response};
use miniblog::secret::SecretStore;
use miniblog::slug::to_url;
use miniblog::store::ArticleStore;

fn store_with(rows: &[(&str, i64, &str, &str)]) -> ArticleStore {
    let mut store = ArticleStore::new();
    for (id, published, title, content) in rows {
        let r = store.insert_with(
            id.to_string(),
            *published,
            title.to_string(),
            content.to_string(),
        );
        assert!(r.is_ok());
    }
    store
}

#[test]
fn slug_keeps_letters_digits_and_marks() {
    assert_eq!(to_url("abc-XYZ.09_~"), "abc-XYZ.09_~");
}

#[test]
fn slug_maps_whitespace_to_underscore() {
    assert_eq!(to_url("a\tb c\nd"), "a_b_c_d");
}

#[test]
fn slug_drops_punctuation() {
    assert_eq!(to_url("Hello, World!"), "Hello_World");
}

#[test]
fn slug_keeps_unicode_alphanumerics() {
    assert_eq!(to_url("héllo wörld"), "héllo_wörld");
}

#[test]
fn slug_is_deterministic_and_idempotent() {
    let once = to_url("Some Title: with punctuation?");
    assert_eq!(once, to_url("Some Title: with punctuation?"));
    assert_eq!(to_url(&once), once);
}

#[test]
fn slug_of_empty_title_is_empty() {
    assert_eq!(to_url(""), "");
}

#[test]
fn insert_then_get_by_id_round_trips() {
    let mut store = ArticleStore::new();
    let article = store
        .insert("A Title".to_string(), "Some content".to_string())
        .expect("fresh store accepts an insert");
    let got = store.get_by_id(&article.id).expect("row is present");
    assert_eq!(got.title, "A Title");
    assert_eq!(got.content, "Some content");
    assert_eq!(got.published, article.published);
    let again = store.get_by_id(&article.id).expect("row is still present");
    assert_eq!(again.title, got.title);
    assert_eq!(again.content, got.content);
    assert_eq!(again.published, got.published);
}

#[test]
fn insert_with_rejects_duplicate_identifier() {
    let mut store = store_with(&[("id-1", 10, "One", "first")]);
    let r = store.insert_with("id-1".to_string(), 20, "Two".to_string(), "second".to_string());
    assert!(r.is_err());
    let kept = store.get_by_id(&"id-1".to_string()).unwrap();
    assert_eq!(kept.title, "One");
}

#[test]
fn update_with_title_only_keeps_content_and_published() {
    let mut store = store_with(&[("id-1", 10, "Old title", "old content")]);
    store.update(&"id-1".to_string(), Some("New title".to_string()), None);
    let got = store.get_by_id(&"id-1".to_string()).unwrap();
    assert_eq!(got.title, "New title");
    assert_eq!(got.content, "old content");
    assert_eq!(got.published, 10);
}

#[test]
fn update_with_neither_field_is_a_noop() {
    let mut store = store_with(&[("id-1", 10, "Title", "content")]);
    store.update(&"id-1".to_string(), None, None);
    let got = store.get_by_id(&"id-1".to_string()).unwrap();
    assert_eq!(got.title, "Title");
    assert_eq!(got.content, "content");
    assert_eq!(got.published, 10);
}

#[test]
fn update_of_absent_identifier_succeeds_silently() {
    let mut store = store_with(&[("id-1", 10, "Title", "content")]);
    store.update(&"missing".to_string(), Some("X".to_string()), Some("Y".to_string()));
    let got = store.get_by_id(&"id-1".to_string()).unwrap();
    assert_eq!(got.title, "Title");
    assert_eq!(got.content, "content");
}

#[test]
fn delete_twice_succeeds_and_leaves_nothing() {
    let mut store = store_with(&[("id-1", 10, "Title", "content")]);
    store.delete(&"id-1".to_string());
    store.delete(&"id-1".to_string());
    assert!(store.get_by_id(&"id-1".to_string()).is_none());
}

#[test]
fn delete_of_absent_identifier_succeeds_silently() {
    let mut store = store_with(&[("id-1", 10, "Title", "content")]);
    store.delete(&"missing".to_string());
    assert!(store.get_by_id(&"id-1".to_string()).is_some());
}

#[test]
fn get_by_slug_returns_first_match_in_store_order() {
    let store = store_with(&[
        ("id-1", 10, "Same Title", "first"),
        ("id-2", 20, "Same Title", "second"),
        ("id-3", 30, "Other", "third"),
    ]);
    let got = store.get_by_slug(&"Same_Title".to_string()).unwrap();
    assert_eq!(got.id, "id-1");
    assert!(store.get_by_slug(&"No_Such_Slug".to_string()).is_none());
}

#[test]
fn listing_is_ordered_newest_first() {
    let store = store_with(&[
        ("id-1", 100, "Oldest", "a"),
        ("id-3", 300, "Newest", "c"),
        ("id-2", 200, "Middle", "b"),
    ]);
    let listed = store.list_all_ordered_by_published_desc();
    let ids: Vec<&str> = listed.iter().map(|a| a.id.as_str()).collect();
    assert_eq!(ids, vec!["id-3", "id-2", "id-1"]);
}

#[test]
fn list_metadata_projects_without_content() {
    let store = store_with(&[("id-1", 10, "Title", "content")]);
    let metadata = store.list_metadata();
    assert_eq!(metadata.len(), 1);
    assert_eq!(metadata[0].id, "id-1");
    assert_eq!(metadata[0].title, "Title");
    assert_eq!(metadata[0].published, 10);
}

#[test]
fn invalid_secret_is_rejected_without_mutation() {
    let mut articles = store_with(&[("id-1", 10, "Title", "content")]);
    let secrets = SecretStore::new();
    let response = handle_api_request(
        &mut articles,
        &secrets,
        Request {
            secret: "not a stored secret".to_string(),
            request: InnerRequest::CreateArticle {
                title: "New".to_string(),
                content: "new".to_string(),
            },
        },
    );
    match response {
        Response::Error(message) => assert_eq!(message, "Invalid secret"),
        _ => panic!("an invalid secret must be rejected"),
    }
    let metadata = articles.list_metadata();
    assert_eq!(metadata.len(), 1);
    assert_eq!(metadata[0].id, "id-1");
    assert_eq!(metadata[0].title, "Title");
    let kept = articles.get_by_id(&"id-1".to_string()).unwrap();
    assert_eq!(kept.content, "content");
}

#[test]
fn invalid_secret_is_rejected_for_every_operation() {
    let mut articles = store_with(&[("id-1", 10, "Title", "content")]);
    let secrets = SecretStore::new();
    let operations = vec![
        InnerRequest::YankArticle { id: "id-1".to_string() },
        InnerRequest::UpdateArticle {
            id: "id-1".to_string(),
            title: Some("X".to_string()),
            content: None,
        },
        InnerRequest::ListArticles,
        InnerRequest::GetArticle { url: "Title".to_string() },
    ];
    for operation in operations {
        let response = handle_api_request(
            &mut articles,
            &secrets,
            Request { secret: "nope".to_string(), request: operation },
        );
        assert!(matches!(response, Response::Error(m) if m == "Invalid secret"));
    }
    assert_eq!(articles.list_metadata().len(), 1);
    let kept = articles.get_by_id(&"id-1".to_string()).unwrap();
    assert_eq!(kept.title, "Title");
}

#[test]
fn scenario_create_fetch_revoke() {
    let mut articles = ArticleStore::new();
    let mut secrets = SecretStore::new();
    let token = secrets.create(Some("ci-bot".to_string()));
    assert_eq!(token.len(), 64);

    let response = handle_api_request(
        &mut articles,
        &secrets,
        Request {
            secret: token.clone(),
            request: InnerRequest::CreateArticle {
                title: "Hello, World!".to_string(),
                content: "the content".to_string(),
            },
        },
    );
    let id = match response {
        Response::ArticleId(id) => id,
        _ => panic!("creation with a valid secret must return the identifier"),
    };
    assert_eq!(to_url("Hello, World!"), "Hello_World");

    let response = handle_api_request(
        &mut articles,
        &secrets,
        Request {
            secret: token.clone(),
            request: InnerRequest::GetArticle { url: "Hello_World".to_string() },
        },
    );
    match response {
        Response::Article(article) => {
            assert_eq!(article.id, id);
            assert_eq!(article.content, "the content");
        }
        _ => panic!("the slug must resolve to the article"),
    }

    let listed = secrets.list();
    assert_eq!(listed.len(), 1);
    assert_eq!(listed[0].1.as_deref(), Some("ci-bot"));
    secrets.revoke(listed[0].0);

    let response = handle_api_request(
        &mut articles,
        &secrets,
        Request {
            secret: token,
            request: InnerRequest::CreateArticle {
                title: "Again".to_string(),
                content: "again".to_string(),
            },
        },
    );
    assert!(matches!(response, Response::Error(m) if m == "Invalid secret"));
}

#[test]
fn get_article_miss_reports_the_slug() {
    let mut articles = ArticleStore::new();
    let mut secrets = SecretStore::new();
    let token = secrets.create(None);
    let response = handle_api_request(
        &mut articles,
        &secrets,
        Request {
            secret: token,
            request: InnerRequest::GetArticle { url: "ghost".to_string() },
        },
    );
    assert!(matches!(response, Response::Error(m) if m == "No article with url ghost found"));
}

#[test]
fn dispatcher_routes_update_yank_and_list() {
    let mut articles = store_with(&[("id-1", 10, "Title", "content")]);
    let mut secrets = SecretStore::new();
    let token = secrets.create(None);

    let response = handle_api_request(
        &mut articles,
        &secrets,
        Request {
            secret: token.clone(),
            request: InnerRequest::UpdateArticle {
                id: "id-1".to_string(),
                title: None,
                content: Some("edited".to_string()),
            },
        },
    );
    assert!(matches!(response, Response::Accepted));
    assert_eq!(articles.get_by_id(&"id-1".to_string()).unwrap().content, "edited");

    let response = handle_api_request(
        &mut articles,
        &secrets,
        Request { secret: token.clone(), request: InnerRequest::ListArticles },
    );
    match response {
        Response::ArticleMetadata(rows) => {
            assert_eq!(rows.len(), 1);
            assert_eq!(rows[0].id, "id-1");
        }
        _ => panic!("listing must return the metadata projection"),
    }

    let response = handle_api_request(
        &mut articles,
        &secrets,
        Request {
            secret: token,
            request: InnerRequest::YankArticle { id: "id-1".to_string() },
        },
    );
    assert!(matches!(response, Response::Accepted));
    assert!(articles.get_by_id(&"id-1".to_string()).is_none());
}

#[test]
fn secret_store_revoke_is_idempotent_and_tokens_are_alphanumeric() {
    let mut secrets = SecretStore::new();
    let token = secrets.create(Some("first".to_string()));
    assert!(token.chars().all(|c| c.is_ascii_alphanumeric()));
    let other = secrets.create(None);
    assert!(secrets.is_valid(&token));
    assert!(secrets.is_valid(&other));
    let listed = secrets.list();
    assert_eq!(listed.len(), 2);
    assert_ne!(listed[0].0, listed[1].0);
    secrets.revoke(listed[0].0);
    secrets.revoke(listed[0].0);
    assert!(!secrets.is_valid(&token));
    assert!(secrets.is_valid(&other));
}

#[test]
fn secret_validity_is_case_sensitive_exact_match() {
    let mut secrets = SecretStore::new();
    let token = secrets.create(None);
    let lower = token.to_lowercase();
    if lower != token {
        assert!(!secrets.is_valid(&lower));
    }
    let upper = token.to_uppercase();
    if upper != token {
        assert!(!secrets.is_valid(&upper));
    }
    assert!(!secrets.is_valid(&"".to_string()));
}

#[test]
fn article_new_stamps_a_uuid() {
    let article = Article::new("T".to_string(), "C".to_string());
    assert_eq!(article.id.len(), 36);
    assert_eq!(article.title, "T");
    assert_eq!(article.content, "C");
}

#[test]
fn published_renders_day_month_year() {
    let article = Article {
        id: "x".to_string(),
        title: "T".to_string(),
        content: "C".to_string(),
        published: 1704067200,
    };
    assert_eq!(article.published(), "01.01.2024 00:00");
}

#[test]
fn teaser_takes_the_first_five_lines() {
    let article = Article {
        id: "x".to_string(),
        title: "T".to_string(),
        content: "1\n2\n3\n4\n5\n6\n7".to_string(),
        published: 0,
    };
    assert_eq!(article.teaser(), "1\n2\n3\n4\n5");
}

#[test]
fn teaser_normalises_line_endings_and_short_content() {
    let short = Article {
        id: "x".to_string(),
        title: "T".to_string(),
        content: "a\r\nb\n".to_string(),
        published: 0,
    };
    assert_eq!(short.teaser(), "a\nb");
}

#[test]
fn article_content_renders_markdown_to_html() {
    let article = Article {
        id: "x".to_string(),
        title: "T".to_string(),
        content: "# Heading".to_string(),
        published: 0,
    };
    let html = article.content();
    assert_ne!(html, "# Heading");
    assert!(html.contains("<h1"));
    assert!(html.contains("Heading"));
}

#[test]
fn markdown_filter_renders_html() {
    let html = markdown("some *emphasis* here");
    assert_ne!(html, "some *emphasis* here");
    assert!(html.contains("<em>emphasis</em>"));
}

#[test]
fn feed_item_carries_permalink_and_rfc2822_date() {
    let article = Article {
        id: "x".to_string(),
        title: "Hello, World!".to_string(),
        content: "body".to_string(),
        published: 0,
    };
    let item = feed_item(&article, "example.org", "An Author");
    assert_eq!(item.link, "https://example.org/article/Hello_World");
    assert_eq!(item.title, "Hello, World!");
    assert_eq!(item.author, "An Author");
    assert_eq!(item.pub_date, "Thu, 1 Jan 1970 00:00:00 +0000");
    assert!(item.content.contains("body"));
}

#[test]
fn article_url_is_the_slug_of_its_title() {
    let article = Article {
        id: "x".to_string(),
        title: "My First Post".to_string(),
        content: "c".to_string(),
        published: 0,
    };
    assert_eq!(article.url(), "My_First_Post");
}
