use hn_summarizer::{
    format_message, post_url, recent_hits, search_url, targets, treatment, window_start, Hit,
    RawContent, Search, Source, Treatment,
};

fn hit(title: &str, url: Option<&str>, id: &str, author: &str, at: i64) -> Hit {
    Hit {
        title: title.to_string(),
        url: url.map(|u| u.to_string()),
        object_id: id.to_string(),
        author: author.to_string(),
        created_at_i: at,
    }
}

#[test]
fn window_is_lookback_before_now() {
    let t: u64 = 1_700_000_000;
    assert_eq!(window_start(t, 3600), t - 3600);
    assert_eq!(window_start(100, 3600), 0);
}

#[test]
fn query_uses_window_start() {
    let t: u64 = 1_700_000_000;
    let since = window_start(t, 3600);
    assert_eq!(
        search_url("rust", since),
        "https://hn.algolia.com/api/v1/search_by_date?tags=story&query=rust&numericFilters=created_at_i>1699996400"
    );
    assert!(search_url("x", 0).ends_with("created_at_i>0"));
    assert!(search_url("x", 9).ends_with("created_at_i>9"));
    assert!(search_url("x", 10).ends_with("created_at_i>10"));
}

#[test]
fn window_boundary_is_exclusive() {
    let t: u64 = 1_700_000_000;
    let since = window_start(t, 3600);
    let s = Search {
        hits: vec![
            hit("old", None, "1", "a", since as i64 - 1),
            hit("edge", None, "2", "b", since as i64),
            hit("new", None, "3", "c", since as i64 + 1),
            hit("newer", Some("http://x"), "4", "d", t as i64),
        ],
    };
    let r = recent_hits(&s, since);
    let ids: Vec<&str> = r.hits.iter().map(|h| h.object_id.as_str()).collect();
    assert_eq!(ids, vec!["3", "4"]);
    assert_eq!(r.hits[1].url.as_deref(), Some("http://x"));
}

#[test]
fn post_without_link_reads_discussion_page() {
    let h = hit("Y", None, "456", "eve", 0);
    let t = targets(&h, true);
    assert_eq!(t.len(), 1);
    assert_eq!(t[0].source, Source::PostPage);
    assert_eq!(t[0].url, "https://news.ycombinator.com/item?id=456");
    assert_eq!(post_url("456"), "https://news.ycombinator.com/item?id=456");
}

#[test]
fn linked_post_reads_article_then_falls_back() {
    let h = hit("X", Some("http://a"), "123", "bob", 0);
    let t = targets(&h, true);
    assert_eq!(t.len(), 2);
    assert_eq!(t[0].source, Source::External);
    assert_eq!(t[0].url, "http://a");
    assert_eq!(t[1].source, Source::PostPage);
    assert_eq!(t[1].url, "https://news.ycombinator.com/item?id=123");
    let t = targets(&h, false);
    assert_eq!(t.len(), 1);
    assert_eq!(t[0].url, "http://a");
}

#[test]
fn short_article_is_its_own_summary() {
    let h = hit("X", Some("http://a"), "123", "bob", 0);
    let page = (0..50).map(|i| format!("word{}", i)).collect::<Vec<_>>().join("  \n");
    let raw = RawContent::extracted(Source::External, &page);
    assert!(raw.ok);
    let expected = (0..50).map(|i| format!("word{}", i)).collect::<Vec<_>>().join(" ");
    assert_eq!(raw.text, expected);
    assert_eq!(treatment(&raw), Treatment::UseRaw);
    let msg = format_message(&h, &raw.text);
    assert_eq!(
        msg,
        format!("- *X*\n<https://news.ycombinator.com/item?id=123 | post>(<http://a|source>) by bob\n{}", expected)
    );
}

#[test]
fn message_without_link_has_no_source_part() {
    let h = hit("T", None, "9", "al", 0);
    assert_eq!(
        format_message(&h, "sum"),
        "- *T*\n<https://news.ycombinator.com/item?id=9 | post> by al\nsum"
    );
}

#[test]
fn treatment_thresholds() {
    assert_eq!(treatment(&RawContent::missing()), Treatment::Skip);
    assert_eq!(treatment(&RawContent::extracted(Source::PostPage, " \n ")), Treatment::Skip);
    assert!(!RawContent::extracted(Source::PostPage, " \n ").ok);
    let long = vec!["w"; 100].join(" ");
    assert_eq!(treatment(&RawContent::extracted(Source::External, &long)), Treatment::Summarize);
    let short = vec!["w"; 99].join(" ");
    assert_eq!(treatment(&RawContent::extracted(Source::External, &short)), Treatment::UseRaw);
}
