//! News articles: the records, the store, and its listing, lookup, creation,
//! update, removal and statistics.

use vstd::prelude::*;
use crate::clock::{read_clock, Timestamp};
use crate::collection::{
    distinct_keys, find, has_key, keys, law_insert_then_find, models, with_edit, with_front,
    without, Collection, Edit, Record,
};
use crate::ident::{first_free, is_random_uuid, random_uuid, second_id, second_of};
use crate::query::{
    both, count, effective_limit, effective_offset, law_filters_commute, lemma_count_next,
    lemma_filter_next, lemma_filter_same, lemma_filter_twice, limit_of, offset_of, window,
    window_bounds,
};
use crate::status::{Status, StoreError};
use crate::text::{
    contains_text, copy_texts, has_substring, leading, lowercase, opt_text, prefix, texts,
    to_lowercase,
};

verus! {

/// How many characters of the markdown text stand in for a missing excerpt.
pub const EXCERPT_CHARS: usize = 120;

/// Where an article stands in its life.
#[derive(Debug, Clone, Copy, PartialEq, Eq, Structural)]
pub enum ArticleStatus {
    Draft,
    Published,
    Archived,
}

/// A news article.
#[derive(Debug)]
pub struct NewsArticle {
    pub id: u128,
    pub title: String,
    pub content: String,
    pub markdown_content: String,
    pub excerpt: String,
    pub author: String,
    pub category: String,
    pub status: ArticleStatus,
    pub publish_date: Timestamp,
    pub views: u64,
    pub likes: u64,
    pub comments: u64,
    pub tags: Vec<String>,
    pub featured: bool,
}

/// What an article holds, as mathematical values.
pub struct NewsArticleView {
    pub id: u128,
    pub title: Seq<char>,
    pub content: Seq<char>,
    pub markdown_content: Seq<char>,
    pub excerpt: Seq<char>,
    pub author: Seq<char>,
    pub category: Seq<char>,
    pub status: ArticleStatus,
    pub publish_date: Timestamp,
    pub views: u64,
    pub likes: u64,
    pub comments: u64,
    pub tags: Seq<Seq<char>>,
    pub featured: bool,
}

impl View for NewsArticle {
    type V = NewsArticleView;

    open spec fn view(&self) -> NewsArticleView {
        NewsArticleView {
            id: self.id,
            title: self.title@,
            content: self.content@,
            markdown_content: self.markdown_content@,
            excerpt: self.excerpt@,
            author: self.author@,
            category: self.category@,
            status: self.status,
            publish_date: self.publish_date,
            views: self.views,
            likes: self.likes,
            comments: self.comments,
            tags: texts(self.tags@),
            featured: self.featured,
        }
    }
}

impl Clone for NewsArticle {
    fn clone(&self) -> (r: Self)
        ensures
            r@ == self@,
    {
        NewsArticle {
            id: self.id,
            title: self.title.clone(),
            content: self.content.clone(),
            markdown_content: self.markdown_content.clone(),
            excerpt: self.excerpt.clone(),
            author: self.author.clone(),
            category: self.category.clone(),
            status: self.status,
            publish_date: self.publish_date,
            views: self.views,
            likes: self.likes,
            comments: self.comments,
            tags: copy_texts(&self.tags),
            featured: self.featured,
        }
    }
}

impl Record for NewsArticle {
    open spec fn key_of(m: NewsArticleView) -> u128 {
        m.id
    }

    fn key(&self) -> (k: u128) {
        self.id
    }

    fn duplicate(&self) -> (r: Self) {
        self.clone()
    }
}

/// What a caller sends to create an article or to replace its editable
/// fields.
#[derive(Debug, Clone)]
pub struct UpsertArticle {
    pub title: String,
    pub content: String,
    pub markdown_content: String,
    pub excerpt: String,
    pub author: String,
    pub category: String,
    pub status: ArticleStatus,
    pub tags: Vec<String>,
    pub featured: bool,
}

/// The excerpt of a new article: the one sent, or the start of the markdown
/// text where none is sent.
pub open spec fn excerpt_of(excerpt: Seq<char>, markdown: Seq<char>) -> Seq<char> {
    if excerpt.len() == 0 {
        prefix(markdown, EXCERPT_CHARS as nat)
    } else {
        excerpt
    }
}

/// The article that a payload gives under an identifier at an instant: the
/// payload's fields, a derived excerpt where it sends none, and zeroed
/// counters.
pub open spec fn drafted(p: UpsertArticle, id: u128, at: Timestamp) -> NewsArticleView {
    NewsArticleView {
        id,
        title: p.title@,
        content: p.content@,
        markdown_content: p.markdown_content@,
        excerpt: excerpt_of(p.excerpt@, p.markdown_content@),
        author: p.author@,
        category: p.category@,
        status: p.status,
        publish_date: at,
        views: 0,
        likes: 0,
        comments: 0,
        tags: texts(p.tags@),
        featured: p.featured,
    }
}

impl Edit<NewsArticle> for UpsertArticle {
    /// Every editable field is replaced by the payload's, the excerpt as it
    /// is sent; identifier, publication date and counters stay.
    open spec fn edited(&self, m: NewsArticleView) -> NewsArticleView {
        NewsArticleView {
            id: m.id,
            title: self.title@,
            content: self.content@,
            markdown_content: self.markdown_content@,
            excerpt: self.excerpt@,
            author: self.author@,
            category: self.category@,
            status: self.status,
            publish_date: m.publish_date,
            views: m.views,
            likes: m.likes,
            comments: m.comments,
            tags: texts(self.tags@),
            featured: self.featured,
        }
    }

    fn apply(self, current: &NewsArticle) -> (r: NewsArticle) {
        NewsArticle {
            id: current.id,
            title: self.title,
            content: self.content,
            markdown_content: self.markdown_content,
            excerpt: self.excerpt,
            author: self.author,
            category: self.category,
            status: self.status,
            publish_date: current.publish_date,
            views: current.views,
            likes: current.likes,
            comments: current.comments,
            tags: self.tags,
            featured: self.featured,
        }
    }

    proof fn lemma_keeps_key(&self, m: NewsArticleView) {
    }
}

/// The articles, newest first.
pub struct NewsStore {
    inner: Collection<NewsArticle>,
}

impl View for NewsStore {
    type V = Seq<NewsArticleView>;

    closed spec fn view(&self) -> Seq<NewsArticleView> {
        self.inner@
    }
}

/// The first sample article, under an identifier and a publication date.
pub open spec fn sample_security(id: u128, at: Timestamp) -> NewsArticleView {
    NewsArticleView {
        id,
        title: "Обновление системы безопасности"@,
        content: "Подробное описание обновления системы безопасности..."@,
        markdown_content: "# Обновление системы безопасности"@,
        excerpt: "Важные улучшения в системе безопасности нашего проекта"@,
        author: "Администратор"@,
        category: "Безопасность"@,
        status: ArticleStatus::Published,
        publish_date: at,
        views: 1250,
        likes: 89,
        comments: 23,
        tags: seq!["безопасность"@, "обновление"@],
        featured: true,
    }
}

/// The second sample article, under an identifier and a publication date.
pub open spec fn sample_api(id: u128, at: Timestamp) -> NewsArticleView {
    NewsArticleView {
        id,
        title: "Новые функции в API v2.0"@,
        content: "Описание новых функций API..."@,
        markdown_content: "# API v2.0 - Новые возможности"@,
        excerpt: "Представляем новые возможности нашего API"@,
        author: "Разработчик"@,
        category: "Разработка"@,
        status: ArticleStatus::Published,
        publish_date: at,
        views: 890,
        likes: 67,
        comments: 15,
        tags: seq!["api"@, "разработка"@],
        featured: false,
    }
}

/// A list of two strings.
fn pair_of(a: &str, b: &str) -> (v: Vec<String>)
    ensures
        texts(v@) == seq![a@, b@],
{
    let mut v: Vec<String> = Vec::new();
    v.push(a.to_owned());
    v.push(b.to_owned());
    assert(texts(v@) =~= seq![a@, b@]);
    v
}

impl Default for NewsStore {
    /// A store without articles.
    fn default() -> (store: Self)
        ensures
            store@ == Seq::<NewsArticleView>::empty(),
    {
        Self::new()
    }
}

impl NewsStore {
    /// A store without articles.
    pub fn new() -> (store: Self)
        ensures
            store@ == Seq::<NewsArticleView>::empty(),
    {
        NewsStore { inner: Collection::new() }
    }

    /// The store with its two sample articles, the first under the
    /// identifier `first` and the second under `second`, or under the number
    /// after it where the two are the same.
    pub fn seeded(first: u128, first_at: Timestamp, second: u128, second_at: Timestamp) -> (store:
        Self)
        ensures
            store@ == seq![
                sample_security(first, first_at),
                sample_api(second_id(first, second), second_at),
            ],
            distinct_keys::<NewsArticle>(store@),
    {
        let second_key = second_of(first, second);
        let security = NewsArticle {
            id: first,
            title: "Обновление системы безопасности".to_owned(),
            content: "Подробное описание обновления системы безопасности...".to_owned(),
            markdown_content: "# Обновление системы безопасности".to_owned(),
            excerpt: "Важные улучшения в системе безопасности нашего проекта".to_owned(),
            author: "Администратор".to_owned(),
            category: "Безопасность".to_owned(),
            status: ArticleStatus::Published,
            publish_date: first_at,
            views: 1250,
            likes: 89,
            comments: 23,
            tags: pair_of("безопасность", "обновление"),
            featured: true,
        };
        let api = NewsArticle {
            id: second_key,
            title: "Новые функции в API v2.0".to_owned(),
            content: "Описание новых функций API...".to_owned(),
            markdown_content: "# API v2.0 - Новые возможности".to_owned(),
            excerpt: "Представляем новые возможности нашего API".to_owned(),
            author: "Разработчик".to_owned(),
            category: "Разработка".to_owned(),
            status: ArticleStatus::Published,
            publish_date: second_at,
            views: 890,
            likes: 67,
            comments: 15,
            tags: pair_of("api", "разработка"),
            featured: false,
        };
        let mut inner: Collection<NewsArticle> = Collection::new();
        let ghost api_model = api@;
        let ghost security_model = security@;
        let put_api = inner.insert(api);
        assert(put_api is Ok);
        assert(inner@ =~= seq![api_model]);
        assert(!has_key::<NewsArticle>(inner@, first)) by {
            if has_key::<NewsArticle>(inner@, first) {
                let i = choose|i: int|
                    0 <= i < inner@.len() && NewsArticle::key_of(#[trigger] inner@[i]) == first;
                assert(inner@[i] == api_model);
            }
        }
        let put_security = inner.insert(security);
        assert(put_security is Ok);
        assert(inner@ =~= seq![security_model, api_model]);
        NewsStore { inner }
    }

    /// The store with its two sample articles, under freshly drawn
    /// identifiers and dated by the clock.
    pub fn new_with_mock() -> (store: Self)
        ensures
            store@.len() == 2,
            store@[0] == sample_security(store@[0].id, store@[0].publish_date),
            store@[1] == sample_api(store@[1].id, store@[1].publish_date),
            store@[0].id != store@[1].id,
            is_random_uuid(store@[0].id),
            exists|draw: u128|
                is_random_uuid(draw) && store@[1].id == #[trigger] second_id(store@[0].id, draw),
    {
        let first = random_uuid();
        let first_at = read_clock().at;
        let second = random_uuid();
        let second_at = read_clock().at;
        let store = Self::seeded(first, first_at, second, second_at);
        assert(NewsArticle::key_of(store@[0]) != NewsArticle::key_of(store@[1]));
        store
    }

    /// The number of articles.
    pub fn len(&self) -> (n: usize)
        ensures
            n == self@.len(),
            distinct_keys::<NewsArticle>(self@),
    {
        self.inner.len()
    }

    /// A copy of all articles, newest first.
    pub fn snapshot(&self) -> (all: Vec<NewsArticle>)
        ensures
            models::<NewsArticle>(all@) == self@,
    {
        self.inner.snapshot()
    }

    /// Creates an article from a payload at the instant `at`, under the first
    /// unused identifier from `candidate` upwards, puts it in front and hands
    /// back a copy.
    pub fn create(&mut self, candidate: u128, at: Timestamp, payload: UpsertArticle) -> (article:
        NewsArticle)
        ensures
            first_free(keys::<NewsArticle>(old(self)@), candidate, article.id),
            !has_key::<NewsArticle>(old(self)@, article.id),
            article@ == drafted(payload, article.id, at),
            final(self)@ == with_front::<NewsArticle>(old(self)@, article@),
            find::<NewsArticle>(final(self)@, article.id) == Some(article@),
            keys::<NewsArticle>(final(self)@) == keys::<NewsArticle>(old(self)@).insert(article.id),
            distinct_keys::<NewsArticle>(final(self)@),
    {
        let id = self.inner.unused_key(candidate);
        let excerpt = if payload.excerpt.as_str().is_empty() {
            leading(payload.markdown_content.as_str(), EXCERPT_CHARS)
        } else {
            payload.excerpt
        };
        let article = NewsArticle {
            id,
            title: payload.title,
            content: payload.content,
            markdown_content: payload.markdown_content,
            excerpt,
            author: payload.author,
            category: payload.category,
            status: payload.status,
            publish_date: at,
            views: 0,
            likes: 0,
            comments: 0,
            tags: payload.tags,
            featured: payload.featured,
        };
        let copy = article.clone();
        let put = self.inner.insert(article);
        assert(put is Ok);
        proof {
            law_insert_then_find::<NewsArticle>(old(self)@, copy@, copy.id);
        }
        copy
    }
}

/// Creates an article under a freshly drawn identifier, dated by the clock,
/// and puts it in front of the others. The identifier is one that no article
/// had; the rest of the article is fixed by the payload.
pub fn create_news(store: &mut NewsStore, payload: UpsertArticle) -> (r: (Status, NewsArticle))
    ensures
        r.0 == Status::Created,
        exists|draw: u128|
            is_random_uuid(draw) && #[trigger] first_free(keys::<NewsArticle>(old(store)@), draw, r.1.id),
        !has_key::<NewsArticle>(old(store)@, r.1.id),
        r.1@ == drafted(payload, r.1.id, r.1.publish_date),
        final(store)@ == with_front::<NewsArticle>(old(store)@, r.1@),
        find::<NewsArticle>(final(store)@, r.1.id) == Some(r.1@),
        keys::<NewsArticle>(final(store)@) == keys::<NewsArticle>(old(store)@).insert(r.1.id),
        distinct_keys::<NewsArticle>(final(store)@),
{
    let candidate = random_uuid();
    let now = read_clock();
    let article = store.create(candidate, now.at, payload);
    (Status::Created, article)
}

/// The article with the identifier `id`, or `NotFound`.
pub fn get_news(store: &NewsStore, id: u128) -> (r: Result<NewsArticle, StoreError>)
    ensures
        match r {
            Ok(article) => find::<NewsArticle>(store@, id) == Some(article@),
            Err(e) => e == StoreError::NotFound && !has_key::<NewsArticle>(store@, id),
        },
{
    match store.inner.get(id) {
        Some(article) => Ok(article.clone()),
        None => Err(StoreError::NotFound),
    }
}

/// Replaces the editable fields of the article with the identifier `id` by
/// the payload's and hands back the changed article; without such an article
/// nothing changes and `NotFound` comes back.
pub fn update_news(store: &mut NewsStore, id: u128, payload: UpsertArticle) -> (r: Result<
    NewsArticle,
    StoreError,
>)
    ensures
        distinct_keys::<NewsArticle>(final(store)@),
        match r {
            Ok(article) => has_key::<NewsArticle>(old(store)@, id) && Some(article@)
                == find::<NewsArticle>(final(store)@, id) && article@ == payload.edited(
                find::<NewsArticle>(old(store)@, id).unwrap(),
            ) && final(store)@ == with_edit::<NewsArticle>(
                old(store)@,
                id,
                |m: NewsArticleView| payload.edited(m),
            ),
            Err(e) => e == StoreError::NotFound && !has_key::<NewsArticle>(old(store)@, id)
                && final(store)@ == old(store)@,
        },
{
    store.inner.update(id, payload)
}

/// Removes the article with the identifier `id`: `NoContent` where there was
/// one, `NotFound` and no change where there was none.
pub fn delete_news(store: &mut NewsStore, id: u128) -> (status: Status)
    ensures
        distinct_keys::<NewsArticle>(final(store)@),
        final(store)@ == without::<NewsArticle>(old(store)@, id),
        has_key::<NewsArticle>(old(store)@, id) ==> status == Status::NoContent,
        !has_key::<NewsArticle>(old(store)@, id) ==> status == Status::NotFound && final(store)@
            == old(store)@,
{
    match store.inner.delete(id) {
        Ok(_) => Status::NoContent,
        Err(_) => Status::NotFound,
    }
}

/// What a listing asks for: a text to search, a status, a category, and the
/// window to cut out. Each may be left out.
#[derive(Debug)]
pub struct ListParams {
    pub q: Option<String>,
    pub status: Option<ArticleStatus>,
    pub category: Option<String>,
    pub limit: Option<usize>,
    pub offset: Option<usize>,
}

/// True when the lowercase form of the searched text stands in the lowercase
/// form of the article's title or excerpt.
pub open spec fn text_matches(a: NewsArticleView, q: Seq<char>) -> bool {
    has_substring(lowercase(a.title), lowercase(q)) || has_substring(
        lowercase(a.excerpt),
        lowercase(q),
    )
}

/// The text filter: passes every article where no text is searched.
pub open spec fn by_text(q: Option<Seq<char>>) -> spec_fn(NewsArticleView) -> bool {
    |a: NewsArticleView|
        match q {
            Some(t) => text_matches(a, t),
            None => true,
        }
}

/// The status filter: passes every article where no status is asked for.
pub open spec fn by_status(status: Option<ArticleStatus>) -> spec_fn(NewsArticleView) -> bool {
    |a: NewsArticleView|
        match status {
            Some(st) => a.status == st,
            None => true,
        }
}

/// The category filter: passes every article where no category is asked for.
pub open spec fn by_category(category: Option<Seq<char>>) -> spec_fn(NewsArticleView) -> bool {
    |a: NewsArticleView|
        match category {
            Some(c) => a.category == c,
            None => true,
        }
}

/// The three filters together: an article passes when it passes each.
pub open spec fn selects(
    q: Option<Seq<char>>,
    status: Option<ArticleStatus>,
    category: Option<Seq<char>>,
) -> spec_fn(NewsArticleView) -> bool {
    |a: NewsArticleView| by_text(q)(a) && by_status(status)(a) && by_category(category)(a)
}

/// The articles that pass the three filters, in their order.
pub open spec fn selected(
    s: Seq<NewsArticleView>,
    q: Option<Seq<char>>,
    status: Option<ArticleStatus>,
    category: Option<Seq<char>>,
) -> Seq<NewsArticleView> {
    s.filter(selects(q, status, category))
}

/// The text filter and the status filter give the same articles whichever is
/// applied first, and so does each other pair of the three filters.
pub proof fn law_filter_order(
    s: Seq<NewsArticleView>,
    q: Option<Seq<char>>,
    status: Option<ArticleStatus>,
    category: Option<Seq<char>>,
)
    ensures
        s.filter(by_text(q)).filter(by_status(status)) == s.filter(by_status(status)).filter(
            by_text(q),
        ),
        s.filter(by_text(q)).filter(by_category(category)) == s.filter(
            by_category(category),
        ).filter(by_text(q)),
        s.filter(by_status(status)).filter(by_category(category)) == s.filter(
            by_category(category),
        ).filter(by_status(status)),
{
    law_filters_commute(s, by_text(q), by_status(status));
    law_filters_commute(s, by_text(q), by_category(category));
    law_filters_commute(s, by_status(status), by_category(category));
}

/// Applying the three filters one after the other gives the articles that
/// pass all three.
pub proof fn law_filters_compose(
    s: Seq<NewsArticleView>,
    q: Option<Seq<char>>,
    status: Option<ArticleStatus>,
    category: Option<Seq<char>>,
)
    ensures
        s.filter(by_text(q)).filter(by_status(status)).filter(by_category(category)) == selected(
            s,
            q,
            status,
            category,
        ),
{
    let text_and_status = both(by_text(q), by_status(status));
    lemma_filter_twice(s, by_text(q), by_status(status));
    lemma_filter_twice(s, text_and_status, by_category(category));
    lemma_filter_same(s, both(text_and_status, by_category(category)), selects(q, status, category));
}

/// True when the needle stands in the title or in the excerpt, all three
/// given in lowercase.
pub fn found_in(title_lower: &str, excerpt_lower: &str, needle_lower: &str) -> (hit: bool)
    ensures
        hit == (has_substring(title_lower@, needle_lower@) || has_substring(
            excerpt_lower@,
            needle_lower@,
        )),
{
    contains_text(title_lower, needle_lower) || contains_text(excerpt_lower, needle_lower)
}

/// True when an article passes the three filters; the searched text is given
/// in lowercase.
fn passes(
    article: &NewsArticle,
    needle_lower: &Option<String>,
    params: &ListParams,
) -> (pass: bool)
    requires
        opt_text(*needle_lower) == (match params.q {
            Some(q) => Some(lowercase(q@)),
            None => None,
        }),
    ensures
        pass == selects(opt_text(params.q), params.status, opt_text(params.category))(article@),
{
    let text_ok = match needle_lower {
        Some(needle) => {
            let title = to_lowercase(article.title.as_str());
            let excerpt = to_lowercase(article.excerpt.as_str());
            found_in(title.as_str(), excerpt.as_str(), needle.as_str())
        },
        None => true,
    };
    let status_ok = match &params.status {
        Some(st) => article.status == *st,
        None => true,
    };
    let category_ok = match &params.category {
        Some(c) => article.category == *c,
        None => true,
    };
    text_ok && status_ok && category_ok
}

/// The articles that pass the filters asked for, newest first, cut down to
/// the window that offset and limit give. An offset at or beyond the number
/// of passing articles gives an empty list, and a limit above the cap counts
/// as the cap.
pub fn list_news(store: &NewsStore, params: &ListParams) -> (page: Vec<NewsArticle>)
    ensures
        models::<NewsArticle>(page@) == window(
            selected(store@, opt_text(params.q), params.status, opt_text(params.category)),
            offset_of(params.offset),
            limit_of(params.limit),
        ),
        page@.len() <= crate::query::MAX_LIMIT,
        offset_of(params.offset) >= selected(
            store@,
            opt_text(params.q),
            params.status,
            opt_text(params.category),
        ).len() ==> page@.len() == 0,
{
    let items = store.inner.records();
    let needle = match &params.q {
        Some(q) => Some(to_lowercase(q.as_str())),
        None => None,
    };
    let ghost all = store@;
    let ghost test = selects(opt_text(params.q), params.status, opt_text(params.category));
    let mut kept: Vec<NewsArticle> = Vec::new();
    let mut i: usize = 0;
    assert(all.take(0).filter(test) =~= Seq::<NewsArticleView>::empty()) by {
        reveal(Seq::filter);
    }
    assert(models::<NewsArticle>(kept@) =~= Seq::<NewsArticleView>::empty());
    while i < items.len()
        invariant
            i <= items.len(),
            all == models::<NewsArticle>(items@),
            test == selects(opt_text(params.q), params.status, opt_text(params.category)),
            opt_text(needle) == (match params.q {
                Some(q) => Some(lowercase(q@)),
                None => None,
            }),
            models::<NewsArticle>(kept@) == all.take(i as int).filter(test),
        decreases items.len() - i,
    {
        proof {
            lemma_filter_next(all, test, i as int);
        }
        if passes(&items[i], &needle, params) {
            let ghost before = kept@;
            kept.push(items[i].clone());
            assert(models::<NewsArticle>(kept@) =~= models::<NewsArticle>(before).push(
                all[i as int],
            ));
        }
        i += 1;
    }
    assert(all.take(i as int) =~= all);
    let ghost hits = models::<NewsArticle>(kept@);
    let offset = effective_offset(params.offset);
    let limit = effective_limit(params.limit);
    let bounds = window_bounds(kept.len(), offset, limit);
    kept.truncate(bounds.1);
    let page = kept.split_off(bounds.0);
    assert(models::<NewsArticle>(page@) =~= window(hits, offset as nat, limit as nat));
    page
}

/// How many articles there are, and how many in each status.
#[derive(Debug, Clone, Copy, PartialEq, Eq, Structural)]
pub struct Stats {
    pub total: usize,
    pub drafts: usize,
    pub published: usize,
    pub archived: usize,
}

/// The test that an article has a given status.
pub open spec fn in_status(status: ArticleStatus) -> spec_fn(NewsArticleView) -> bool {
    |a: NewsArticleView| a.status == status
}

/// Counts the articles, and those in each status.
pub fn news_stats(store: &NewsStore) -> (stats: Stats)
    ensures
        stats.total == store@.len(),
        stats.drafts == count(store@, in_status(ArticleStatus::Draft)),
        stats.published == count(store@, in_status(ArticleStatus::Published)),
        stats.archived == count(store@, in_status(ArticleStatus::Archived)),
        stats.drafts + stats.published + stats.archived == stats.total,
{
    let items = store.inner.records();
    let ghost all = store@;
    let mut drafts: usize = 0;
    let mut published: usize = 0;
    let mut archived: usize = 0;
    let mut i: usize = 0;
    assert(all.take(0) =~= Seq::<NewsArticleView>::empty());
    assert(Seq::<NewsArticleView>::empty().filter(in_status(ArticleStatus::Draft)).len() == 0
        && Seq::<NewsArticleView>::empty().filter(in_status(ArticleStatus::Published)).len() == 0
        && Seq::<NewsArticleView>::empty().filter(in_status(ArticleStatus::Archived)).len() == 0)
        by {
        reveal(Seq::filter);
    }
    while i < items.len()
        invariant
            i <= items.len(),
            all == models::<NewsArticle>(items@),
            drafts == count(all.take(i as int), in_status(ArticleStatus::Draft)),
            published == count(all.take(i as int), in_status(ArticleStatus::Published)),
            archived == count(all.take(i as int), in_status(ArticleStatus::Archived)),
            drafts + published + archived == i,
        decreases items.len() - i,
    {
        proof {
            lemma_count_next(all, in_status(ArticleStatus::Draft), i as int);
            lemma_count_next(all, in_status(ArticleStatus::Published), i as int);
            lemma_count_next(all, in_status(ArticleStatus::Archived), i as int);
        }
        match items[i].status {
            ArticleStatus::Draft => {
                drafts += 1;
            },
            ArticleStatus::Published => {
                published += 1;
            },
            ArticleStatus::Archived => {
                archived += 1;
            },
        }
        i += 1;
    }
    assert(all.take(i as int) =~= all);
    Stats { total: items.len(), drafts, published, archived }
}

} // verus!
