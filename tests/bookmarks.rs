use goto::bookmark::{Bookmark, Error};
use goto::tag::Tag;
use goto::tagset::TagSet;

fn bm(url: &str, tags: &str) -> Bookmark {
    Bookmark::new(url, None, Tag::new_set(tags)).unwrap()
}

fn has(s: &TagSet, text: &str) -> bool {
    s.contains(&Tag::new(text).unwrap())
}

#[test]
fn new_parses_and_serializes_the_url() {
    let b = Bookmark::new("HTTPS://Example.COM", Some("Ex".to_string()), TagSet::new()).unwrap();
    assert_eq!(b.url(), "https://example.com/");
    assert_eq!(b.title(), Some("Ex".to_string()));
    assert_eq!(b.domain(), Some("example.com".to_string()));
}

#[test]
fn new_rejects_a_relative_url() {
    assert_eq!(
        Bookmark::new("not a url", None, TagSet::new()).unwrap_err(),
        Error::InvalidUrl
    );
}

#[test]
fn domain_is_none_for_an_ip_host() {
    assert_eq!(bm("http://127.0.0.1/x", "").domain(), None);
}

#[test]
fn terms_add_the_second_to_last_label() {
    let t = bm("https://www.example.co.uk/a", "news").terms();
    assert_eq!(t.len(), 2);
    assert!(has(&t, "news"));
    assert!(has(&t, "co"));
    let t = bm("https://example.com/", "").terms();
    assert_eq!(t.len(), 1);
    assert!(has(&t, "example"));
    let t = bm("http://localhost/", "x").terms();
    assert_eq!(t.len(), 1);
}

#[test]
fn rel_path_is_domain_and_digest() {
    let b = bm("https://example.com/page", "news");
    assert_eq!(
        b.rel_path(),
        "example.com/3641c5f2274c5471278ab5bf1df6d1858d8aa392d85c51301abed2122a3c634f.yaml"
    );
}

#[test]
fn rel_path_without_domain_has_empty_shard() {
    let p = bm("http://127.0.0.1/", "").rel_path();
    assert!(p.starts_with('/'));
    assert_eq!(p.len(), 1 + 64 + 5);
}

#[test]
fn path_determinism() {
    let a = bm("https://example.com/page", "news");
    let b = Bookmark::new(
        "https://example.com/page",
        Some("Other".to_string()),
        Tag::new_set("x y"),
    )
    .unwrap();
    assert_eq!(a.rel_path(), b.rel_path());
    assert_ne!(a.rel_path(), bm("https://example.com/other", "news").rel_path());
}

#[test]
fn merge_with_itself_is_identity() {
    let a = bm("https://example.com/page", "news tech");
    let m = a.clone().merge(a.clone());
    assert!(m == a);
    assert_eq!(m.tags().len(), 2);
}

#[test]
fn merge_unions_tags_of_same_url() {
    let a = Bookmark::new("https://example.com/page", Some("A".to_string()), Tag::new_set("news")).unwrap();
    let b = Bookmark::new("https://example.com/page", Some("B".to_string()), Tag::new_set("tech")).unwrap();
    let m = a.merge(b);
    assert_eq!(m.title(), Some("A".to_string()));
    assert!(has(m.tags(), "news") && has(m.tags(), "tech"));
    assert_eq!(m.tags().len(), 2);
}

#[test]
fn merge_of_different_urls_keeps_first() {
    let a = bm("https://example.com/a", "news");
    let b = bm("https://example.com/b", "tech");
    let m = a.clone().merge(b);
    assert!(m == a);
    assert_eq!(m.tags().len(), 1);
}

#[test]
fn equality_ignores_title() {
    let a = Bookmark::new("https://example.com/", Some("A".to_string()), Tag::new_set("x")).unwrap();
    let b = Bookmark::new("https://example.com/", None, Tag::new_set("x")).unwrap();
    assert!(a == b);
    assert!(a != bm("https://example.com/", "y"));
}

#[test]
fn describe_lists_url_and_tags() {
    assert_eq!(bm("https://example.com/", "news").describe(), "https://example.com/ - news");
}
