use admin_backend::clock::Timestamp;
use admin_backend::news::{
    create_news, delete_news, found_in, get_news, list_news, news_stats, update_news,
    ArticleStatus, ListParams, NewsStore, UpsertArticle,
};
use admin_backend::status::{Status, StoreError};

fn payload(title: &str, excerpt: &str, category: &str, status: ArticleStatus) -> UpsertArticle {
    UpsertArticle {
        title: title.to_string(),
        content: String::new(),
        markdown_content: String::new(),
        excerpt: excerpt.to_string(),
        author: "tester".to_string(),
        category: category.to_string(),
        status,
        tags: vec!["t1".to_string()],
        featured: false,
    }
}

fn no_filter() -> ListParams {
    ListParams { q: None, status: None, category: None, limit: None, offset: None }
}

fn at(secs: i64) -> Timestamp {
    Timestamp { secs, nanos: 0 }
}

fn store_of(n: usize) -> NewsStore {
    let mut store = NewsStore::new();
    for i in 0..n {
        let status = match i % 3 {
            0 => ArticleStatus::Draft,
            1 => ArticleStatus::Published,
            _ => ArticleStatus::Archived,
        };
        let category = if i % 2 == 0 { "even" } else { "odd" };
        store.create(i as u128 + 1, at(i as i64), payload(&format!("Title {}", i), "x", category, status));
    }
    store
}

#[test]
fn mock_news_has_two_sample_articles() {
    let store = NewsStore::new_with_mock();
    let all = store.snapshot();
    assert_eq!(all.len(), 2);
    assert_eq!(all[0].title, "Обновление системы безопасности");
    assert_eq!(all[0].views, 1250);
    assert_eq!(all[0].likes, 89);
    assert_eq!(all[0].comments, 23);
    assert_eq!(all[0].tags, vec!["безопасность".to_string(), "обновление".to_string()]);
    assert!(all[0].featured);
    assert_eq!(all[1].title, "Новые функции в API v2.0");
    assert_eq!(all[1].author, "Разработчик");
    assert_eq!(all[1].views, 890);
    assert!(!all[1].featured);
    assert_eq!(all[0].status, ArticleStatus::Published);
    assert_ne!(all[0].id, all[1].id);
}

#[test]
fn mock_news_ids_are_random_uuids() {
    let store = NewsStore::new_with_mock();
    for a in store.snapshot() {
        let u = uuid::Uuid::from_u128(a.id);
        assert_eq!(u.get_version_num(), 4);
        assert_eq!(a.id & 0xf000_c000_0000_0000_0000u128, 0x4000_8000_0000_0000_0000u128);
    }
}

#[test]
fn seeded_news_moves_a_repeated_identifier_on() {
    let store = NewsStore::seeded(7, at(1), 7, at(2));
    let all = store.snapshot();
    assert_eq!(all[0].id, 7);
    assert_eq!(all[1].id, 8);
    assert_eq!(all[0].publish_date, at(1));
    assert_eq!(all[1].publish_date, at(2));
    let store = NewsStore::seeded(7, at(1), 9, at(2));
    assert_eq!(store.snapshot()[1].id, 9);
    let store = NewsStore::seeded(u128::MAX, at(1), u128::MAX, at(2));
    assert_eq!(store.snapshot()[1].id, 0);
}

#[test]
fn create_derives_excerpt_from_markdown() {
    let markdown = "# Hello World, this is a test of excerpt derivation logic that exceeds one hundred twenty characters of length";
    let mut store = NewsStore::new_with_mock();
    let mut p = payload("T", "", "c", ArticleStatus::Draft);
    p.markdown_content = markdown.to_string();
    let (status, article) = create_news(&mut store, p);
    assert_eq!(status, Status::Created);
    let expected: String = markdown.chars().take(120).collect();
    assert_eq!(article.excerpt, expected);
    assert_eq!(article.markdown_content, markdown);
}

#[test]
fn create_cuts_long_markdown_at_120_characters() {
    let markdown: String = "я".repeat(200);
    let mut store = NewsStore::new();
    let mut p = payload("T", "", "c", ArticleStatus::Draft);
    p.markdown_content = markdown.clone();
    let article = store.create(1, at(0), p);
    assert_eq!(article.excerpt.chars().count(), 120);
    assert_eq!(article.excerpt, "я".repeat(120));
    let mut p = payload("T", "", "c", ArticleStatus::Draft);
    p.markdown_content = "a".repeat(120);
    assert_eq!(store.create(2, at(0), p).excerpt, "a".repeat(120));
    let mut p = payload("T", "", "c", ArticleStatus::Draft);
    p.markdown_content = "a".repeat(121);
    assert_eq!(store.create(3, at(0), p).excerpt, "a".repeat(120));
}

#[test]
fn create_keeps_a_given_excerpt_and_zeroes_counters() {
    let mut store = NewsStore::new();
    let mut p = payload("Title", "given", "cat", ArticleStatus::Published);
    p.markdown_content = "# markdown".to_string();
    p.content = "body".to_string();
    p.featured = true;
    let article = store.create(42, at(5), p);
    assert_eq!(article.id, 42);
    assert_eq!(article.excerpt, "given");
    assert_eq!(article.title, "Title");
    assert_eq!(article.content, "body");
    assert_eq!(article.author, "tester");
    assert_eq!(article.category, "cat");
    assert_eq!(article.status, ArticleStatus::Published);
    assert_eq!(article.publish_date, at(5));
    assert_eq!((article.views, article.likes, article.comments), (0, 0, 0));
    assert_eq!(article.tags, vec!["t1".to_string()]);
    assert!(article.featured);
}

#[test]
fn create_with_empty_excerpt_and_empty_markdown() {
    let mut store = NewsStore::new();
    let article = store.create(1, at(0), payload("T", "", "c", ArticleStatus::Draft));
    assert_eq!(article.excerpt, "");
}

#[test]
fn create_puts_newest_first() {
    let mut store = NewsStore::new_with_mock();
    let (_, a) = create_news(&mut store, payload("A", "x", "c", ArticleStatus::Draft));
    let (_, b) = create_news(&mut store, payload("B", "x", "c", ArticleStatus::Draft));
    let all = store.snapshot();
    assert_eq!(all.len(), 4);
    assert_eq!(all[0].id, b.id);
    assert_eq!(all[1].id, a.id);
    assert_eq!(all[2].title, "Обновление системы безопасности");
}

#[test]
fn created_identifiers_are_pairwise_distinct() {
    let mut store = NewsStore::new();
    let mut ids = Vec::new();
    for _ in 0..50 {
        ids.push(store.create(5, at(0), payload("T", "x", "c", ArticleStatus::Draft)).id);
    }
    for i in 0..ids.len() {
        for j in 0..i {
            assert_ne!(ids[i], ids[j]);
        }
    }
    assert_eq!(ids[0], 5);
    assert_eq!(ids[1], 6);
    assert_eq!(ids[49], 54);
}

#[test]
fn create_skips_over_taken_identifiers() {
    let mut store = NewsStore::new();
    store.create(10, at(0), payload("a", "x", "c", ArticleStatus::Draft));
    store.create(11, at(0), payload("b", "x", "c", ArticleStatus::Draft));
    store.create(13, at(0), payload("c", "x", "c", ArticleStatus::Draft));
    assert_eq!(store.create(10, at(0), payload("d", "x", "c", ArticleStatus::Draft)).id, 12);
    assert_eq!(store.create(10, at(0), payload("e", "x", "c", ArticleStatus::Draft)).id, 14);
    assert_eq!(store.create(9, at(0), payload("f", "x", "c", ArticleStatus::Draft)).id, 9);
}

#[test]
fn create_wraps_round_at_the_largest_identifier() {
    let mut store = NewsStore::new();
    store.create(u128::MAX, at(0), payload("a", "x", "c", ArticleStatus::Draft));
    assert_eq!(store.create(u128::MAX, at(0), payload("b", "x", "c", ArticleStatus::Draft)).id, 0);
    assert_eq!(store.create(u128::MAX, at(0), payload("c", "x", "c", ArticleStatus::Draft)).id, 1);
}

#[test]
fn create_then_get_round_trip() {
    let mut store = NewsStore::new_with_mock();
    let (_, created) = create_news(&mut store, payload("Round", "trip", "c", ArticleStatus::Archived));
    let fetched = get_news(&store, created.id).unwrap();
    assert_eq!(fetched.id, created.id);
    assert_eq!(fetched.title, "Round");
    assert_eq!(fetched.excerpt, "trip");
    assert_eq!(fetched.status, ArticleStatus::Archived);
    assert_eq!(fetched.publish_date, created.publish_date);
    assert_eq!(fetched.tags, created.tags);
}

#[test]
fn get_unknown_article_is_not_found() {
    let store = store_of(3);
    assert_eq!(get_news(&store, 999).err(), Some(StoreError::NotFound));
    assert_eq!(get_news(&NewsStore::new(), 1).err(), Some(StoreError::NotFound));
}

#[test]
fn update_replaces_editable_fields_only() {
    let mut store = NewsStore::new();
    let mut first = payload("Old", "old excerpt", "old", ArticleStatus::Draft);
    first.markdown_content = "# old".to_string();
    let created = store.create(3, at(77), first);
    store.create(4, at(78), payload("Other", "o", "c", ArticleStatus::Draft));
    let mut change = payload("New", "", "new", ArticleStatus::Published);
    change.markdown_content = "# new markdown".to_string();
    change.tags = vec!["a".to_string(), "b".to_string()];
    change.featured = true;
    let updated = update_news(&mut store, created.id, change).unwrap();
    assert_eq!(updated.id, 3);
    assert_eq!(updated.title, "New");
    assert_eq!(updated.excerpt, "");
    assert_eq!(updated.markdown_content, "# new markdown");
    assert_eq!(updated.category, "new");
    assert_eq!(updated.status, ArticleStatus::Published);
    assert_eq!(updated.tags, vec!["a".to_string(), "b".to_string()]);
    assert!(updated.featured);
    assert_eq!(updated.publish_date, at(77));
    assert_eq!((updated.views, updated.likes, updated.comments), (0, 0, 0));
    let all = store.snapshot();
    assert_eq!(all.len(), 2);
    assert_eq!(all[0].title, "Other");
    assert_eq!(all[1].title, "New");
    assert_eq!(get_news(&store, 3).unwrap().title, "New");
}

#[test]
fn update_keeps_counters_of_a_sample_article() {
    let mut store = NewsStore::seeded(1, at(1), 2, at(2));
    let updated = update_news(&mut store, 1, payload("N", "e", "c", ArticleStatus::Archived)).unwrap();
    assert_eq!((updated.views, updated.likes, updated.comments), (1250, 89, 23));
    assert_eq!(updated.publish_date, at(1));
}

#[test]
fn update_unknown_article_is_not_found_and_changes_nothing() {
    let mut store = store_of(3);
    let r = update_news(&mut store, 999, payload("N", "e", "c", ArticleStatus::Archived));
    assert_eq!(r.err(), Some(StoreError::NotFound));
    let titles: Vec<String> = store.snapshot().into_iter().map(|a| a.title).collect();
    assert_eq!(titles, vec!["Title 2", "Title 1", "Title 0"]);
}

#[test]
fn delete_removes_exactly_one_article() {
    let mut store = store_of(4);
    assert_eq!(delete_news(&mut store, 2), Status::NoContent);
    let ids: Vec<u128> = store.snapshot().into_iter().map(|a| a.id).collect();
    assert_eq!(ids, vec![4, 3, 1]);
    assert_eq!(get_news(&store, 2).err(), Some(StoreError::NotFound));
    assert_eq!(delete_news(&mut store, 2), Status::NotFound);
    assert_eq!(store.len(), 3);
}

#[test]
fn delete_of_absent_identifier_is_always_not_found() {
    let mut empty = NewsStore::new();
    assert_eq!(delete_news(&mut empty, 1), Status::NotFound);
    assert_eq!(empty.len(), 0);
    let mut store = store_of(5);
    for _ in 0..3 {
        assert_eq!(delete_news(&mut store, 1000), Status::NotFound);
        assert_eq!(store.len(), 5);
    }
    assert_eq!(delete_news(&mut store, 0), Status::NotFound);
}

#[test]
fn list_without_filters_returns_everything_in_order() {
    let store = store_of(5);
    let page = list_news(&store, &no_filter());
    let titles: Vec<String> = page.into_iter().map(|a| a.title).collect();
    assert_eq!(titles, vec!["Title 4", "Title 3", "Title 2", "Title 1", "Title 0"]);
}

#[test]
fn list_default_limit_is_100() {
    let store = store_of(150);
    let page = list_news(&store, &no_filter());
    assert_eq!(page.len(), 100);
    assert_eq!(page[0].title, "Title 149");
    assert_eq!(page[99].title, "Title 50");
}

#[test]
fn list_limit_is_capped_at_1000() {
    let store = store_of(1100);
    let mut params = no_filter();
    params.limit = Some(5000);
    assert_eq!(list_news(&store, &params).len(), 1000);
    params.limit = Some(1001);
    assert_eq!(list_news(&store, &params).len(), 1000);
    params.limit = Some(1000);
    assert_eq!(list_news(&store, &params).len(), 1000);
    params.limit = Some(usize::MAX);
    params.offset = Some(200);
    let page = list_news(&store, &params);
    assert_eq!(page.len(), 900);
    assert_eq!(page[0].title, "Title 899");
}

#[test]
fn list_offset_at_or_beyond_size_is_empty() {
    let store = store_of(5);
    let mut params = no_filter();
    params.offset = Some(5);
    assert!(list_news(&store, &params).is_empty());
    params.offset = Some(6);
    assert!(list_news(&store, &params).is_empty());
    params.offset = Some(usize::MAX);
    params.limit = Some(usize::MAX);
    assert!(list_news(&store, &params).is_empty());
    let empty = NewsStore::new();
    assert!(list_news(&empty, &no_filter()).is_empty());
}

#[test]
fn list_window_is_clipped_to_the_end() {
    let store = store_of(5);
    let mut params = no_filter();
    params.offset = Some(3);
    params.limit = Some(10);
    let titles: Vec<String> = list_news(&store, &params).into_iter().map(|a| a.title).collect();
    assert_eq!(titles, vec!["Title 1", "Title 0"]);
    params.offset = Some(1);
    params.limit = Some(2);
    let titles: Vec<String> = list_news(&store, &params).into_iter().map(|a| a.title).collect();
    assert_eq!(titles, vec!["Title 3", "Title 2"]);
    params.limit = Some(0);
    assert!(list_news(&store, &params).is_empty());
}

#[test]
fn list_text_filter_is_case_insensitive_on_title_and_excerpt() {
    let mut store = NewsStore::new();
    store.create(1, at(0), payload("Hello World", "nothing", "c", ArticleStatus::Draft));
    store.create(2, at(0), payload("Other", "say HELLO there", "c", ArticleStatus::Draft));
    store.create(3, at(0), payload("Unrelated", "nope", "c", ArticleStatus::Draft));
    let mut params = no_filter();
    params.q = Some("hELLo".to_string());
    let ids: Vec<u128> = list_news(&store, &params).into_iter().map(|a| a.id).collect();
    assert_eq!(ids, vec![2, 1]);
    params.q = Some("HELLO WORLD".to_string());
    let ids: Vec<u128> = list_news(&store, &params).into_iter().map(|a| a.id).collect();
    assert_eq!(ids, vec![1]);
    params.q = Some("".to_string());
    assert_eq!(list_news(&store, &params).len(), 3);
    params.q = Some("absent".to_string());
    assert!(list_news(&store, &params).is_empty());
}

#[test]
fn list_text_filter_lowercases_cyrillic() {
    let store = NewsStore::new_with_mock();
    let mut params = no_filter();
    params.q = Some("БЕЗОПАСНОСТИ".to_string());
    let page = list_news(&store, &params);
    assert_eq!(page.len(), 1);
    assert_eq!(page[0].title, "Обновление системы безопасности");
    params.q = Some("api".to_string());
    let page = list_news(&store, &params);
    assert_eq!(page.len(), 1);
    assert_eq!(page[0].title, "Новые функции в API v2.0");
}

#[test]
fn list_text_filter_does_not_search_content() {
    let mut store = NewsStore::new();
    let mut p = payload("Title", "excerpt", "c", ArticleStatus::Draft);
    p.content = "needle".to_string();
    p.markdown_content = "needle".to_string();
    store.create(1, at(0), p);
    let mut params = no_filter();
    params.q = Some("needle".to_string());
    assert!(list_news(&store, &params).is_empty());
}

#[test]
fn list_status_and_category_filters_are_exact() {
    let store = store_of(12);
    let mut params = no_filter();
    params.status = Some(ArticleStatus::Published);
    let ids: Vec<u128> = list_news(&store, &params).into_iter().map(|a| a.id).collect();
    assert_eq!(ids, vec![11, 8, 5, 2]);
    params.category = Some("odd".to_string());
    let ids: Vec<u128> = list_news(&store, &params).into_iter().map(|a| a.id).collect();
    assert_eq!(ids, vec![8, 2]);
    params.category = Some("ODD".to_string());
    assert!(list_news(&store, &params).is_empty());
    params.status = None;
    params.category = Some("even".to_string());
    assert_eq!(list_news(&store, &params).len(), 6);
}

#[test]
fn list_filters_compose_in_either_order() {
    let store = store_of(30);
    let mut text_only = no_filter();
    text_only.q = Some("title 1".to_string());
    let by_text: Vec<_> = list_news(&store, &text_only);
    let text_then_status: Vec<u128> = by_text
        .iter()
        .filter(|a| a.status == ArticleStatus::Draft)
        .map(|a| a.id)
        .collect();
    let mut status_only = no_filter();
    status_only.status = Some(ArticleStatus::Draft);
    let by_status = list_news(&store, &status_only);
    let status_then_text: Vec<u128> = by_status
        .iter()
        .filter(|a| a.title.to_lowercase().contains("title 1"))
        .map(|a| a.id)
        .collect();
    let mut both = no_filter();
    both.q = Some("title 1".to_string());
    both.status = Some(ArticleStatus::Draft);
    let together: Vec<u128> = list_news(&store, &both).into_iter().map(|a| a.id).collect();
    assert_eq!(text_then_status, status_then_text);
    assert_eq!(together, text_then_status);
    assert_eq!(together, vec![19, 16, 13]);
}

#[test]
fn list_applies_the_window_after_the_filters() {
    let store = store_of(12);
    let mut params = no_filter();
    params.status = Some(ArticleStatus::Draft);
    params.offset = Some(1);
    params.limit = Some(2);
    let ids: Vec<u128> = list_news(&store, &params).into_iter().map(|a| a.id).collect();
    assert_eq!(ids, vec![7, 4]);
    params.offset = Some(4);
    assert!(list_news(&store, &params).is_empty());
}

#[test]
fn found_in_looks_in_title_and_excerpt() {
    assert!(found_in("hello world", "", "lo wo"));
    assert!(found_in("", "hello world", "world"));
    assert!(found_in("abc", "def", ""));
    assert!(!found_in("abc", "def", "cd"));
    assert!(!found_in("abc", "def", "ABC"));
    assert!(!found_in("ab", "ab", "abc"));
}

#[test]
fn stats_count_each_status() {
    let store = store_of(10);
    let stats = news_stats(&store);
    assert_eq!(stats.total, 10);
    assert_eq!(stats.drafts, 4);
    assert_eq!(stats.published, 3);
    assert_eq!(stats.archived, 3);
    let stats = news_stats(&NewsStore::new());
    assert_eq!((stats.total, stats.drafts, stats.published, stats.archived), (0, 0, 0, 0));
    let stats = news_stats(&NewsStore::seeded(1, at(0), 2, at(0)));
    assert_eq!((stats.total, stats.drafts, stats.published, stats.archived), (2, 0, 2, 0));
}

#[test]
fn stats_follow_mutations() {
    let mut store = store_of(3);
    update_news(&mut store, 1, payload("x", "x", "c", ArticleStatus::Archived)).unwrap();
    delete_news(&mut store, 2);
    let stats = news_stats(&store);
    assert_eq!((stats.total, stats.drafts, stats.published, stats.archived), (2, 0, 0, 2));
}
