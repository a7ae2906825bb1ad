use goto::tag::{Tag, TagError};
use goto::tagset::{TagHolder, TagSet};

fn set_of(texts: &[&str]) -> TagSet {
    let mut s = TagSet::new();
    for t in texts {
        s.insert(Tag::new(t).unwrap());
    }
    s
}

fn has(s: &TagSet, text: &str) -> bool {
    s.contains(&Tag::new(text).unwrap())
}

#[test]
fn normalize_strips_lowercases_and_trims() {
    assert_eq!(Tag::normalize(" News, \"Tech\"\\ "), "newstech");
    assert_eq!(Tag::normalize("RUST"), "rust");
    assert_eq!(Tag::normalize(""), "");
}

#[test]
fn normalize_is_idempotent_on_examples() {
    for s in ["  Hello, World ", "\"Quoted\"", "a\\b,c d", "ÀÉÎ", "MiXeD cAsE", ""] {
        let once = Tag::normalize(s);
        let twice = Tag::normalize(&once);
        assert_eq!(once, twice);
    }
}

#[test]
fn new_tag_is_normalized() {
    let t = Tag::new("  Science ").unwrap();
    assert_eq!(t.as_str(), "science");
}

#[test]
fn new_tag_rejects_empty_normal_form() {
    assert_eq!(Tag::new(" , \" \\ ").unwrap_err(), TagError::Empty);
    assert_eq!(Tag::new("").unwrap_err(), TagError::Empty);
    assert_eq!(
        TagError::Empty.message(),
        "Tag was empty or contained no valid characters"
    );
}

#[test]
fn stored_tag_is_taken_as_written() {
    assert_eq!(Tag::from_stored("News".to_string()).unwrap().as_str(), "News");
    assert!(Tag::from_stored(String::new()).is_none());
}

#[test]
fn new_set_splits_on_commas_and_spaces() {
    let s = Tag::new_set("news, Tech  science,,\"\" ,NEWS");
    assert_eq!(s.len(), 3);
    assert!(has(&s, "news"));
    assert!(has(&s, "tech"));
    assert!(has(&s, "science"));
}

#[test]
fn new_set_of_separators_is_empty() {
    assert!(Tag::new_set(" , ,\t\n").is_empty());
    assert!(Tag::new_set("").is_empty());
}

#[test]
fn tag_set_has_no_duplicates() {
    let mut s = TagSet::new();
    assert!(s.insert(Tag::new("a").unwrap()));
    assert!(!s.insert(Tag::new("A").unwrap()));
    assert_eq!(s.len(), 1);
}

#[test]
fn union_and_intersection() {
    let a = set_of(&["news", "tech"]);
    let b = set_of(&["tech", "science"]);
    let u = a.union(&b);
    assert_eq!(u.len(), 3);
    assert!(has(&u, "news") && has(&u, "tech") && has(&u, "science"));
    let i = a.intersection(&b);
    assert_eq!(i.len(), 1);
    assert!(has(&i, "tech"));
    assert!(a.same_members(&set_of(&["tech", "news"])));
    assert!(!a.same_members(&b));
}

#[test]
fn tag_holder_join_and_collect() {
    let v = vec![Tag::new("b").unwrap(), Tag::new("a").unwrap(), Tag::new("b").unwrap()];
    assert_eq!(TagHolder::join(&v), "b a b");
    let s = TagHolder::tags(v);
    assert_eq!(s.len(), 2);
    assert_eq!(TagHolder::join(&s), "b a");
}
