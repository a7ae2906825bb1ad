use goto::bookmark::Bookmark;
use goto::matcher::{filter, open_target, score, search_query, Ratio};
use goto::tag::Tag;
use goto::tagset::TagSet;

fn bm(url: &str, tags: &str) -> Bookmark {
    Bookmark::new(url, None, Tag::new_set(tags)).unwrap()
}

const MIN: Ratio = Ratio { num: 1, den: 20 };

#[test]
fn score_is_jaccard_index() {
    let s = score(&Tag::new_set("tech news"), &Tag::new_set("tech"));
    assert_eq!(s, Ratio { num: 1, den: 2 });
    let s = score(&Tag::new_set("a b c"), &Tag::new_set("c d"));
    assert_eq!(s, Ratio { num: 1, den: 4 });
}

#[test]
fn score_bounds() {
    let s = score(&Tag::new_set("a b"), &Tag::new_set("a b"));
    assert_eq!(s, Ratio { num: 2, den: 2 });
    let s = score(&Tag::new_set("a"), &Tag::new_set("b"));
    assert_eq!(s.num, 0);
    assert!(s.den > 0);
    let s = score(&TagSet::new(), &Tag::new_set("b"));
    assert_eq!(s, Ratio { num: 0, den: 1 });
}

#[test]
fn score_of_empty_query_is_zero() {
    assert_eq!(score(&Tag::new_set("a"), &TagSet::new()), Ratio { num: 0, den: 1 });
    assert_eq!(score(&TagSet::new(), &TagSet::new()), Ratio { num: 0, den: 1 });
}

#[test]
fn ratio_comparison() {
    assert!(Ratio { num: 1, den: 2 }.at_least(&Ratio { num: 2, den: 4 }));
    assert!(Ratio { num: 1, den: 2 }.at_least(&Ratio { num: 1, den: 20 }));
    assert!(!Ratio { num: 1, den: 3 }.at_least(&Ratio { num: 1, den: 2 }));
}

#[test]
fn search_of_empty_store_is_empty() {
    let r = filter(Vec::new(), &Tag::new_set("tech"), MIN);
    assert!(r.is_empty());
}

#[test]
fn search_returns_only_matching_bookmark_with_half_score() {
    let first = bm("http://localhost/one", "tech news");
    let second = bm("http://localhost/two", "science");
    let r = filter(vec![first.clone(), second], &Tag::new_set("tech"), MIN);
    assert_eq!(r.len(), 1);
    assert_eq!(r[0].0, Ratio { num: 1, den: 2 });
    assert!(r[0].1 == first);
}

#[test]
fn search_ranks_best_first_and_keeps_ties_in_order() {
    let a = bm("http://localhost/a", "x");
    let b = bm("http://localhost/b", "x y");
    let c = bm("http://localhost/c", "y x");
    let d = bm("http://localhost/d", "z");
    let r = filter(vec![a.clone(), b.clone(), c.clone(), d], &Tag::new_set("x y"), MIN);
    assert_eq!(r.len(), 3);
    assert!(r[0].1 == b);
    assert!(r[1].1 == c);
    assert!(r[2].1 == a);
    assert_eq!(r[2].0, Ratio { num: 1, den: 2 });
}

#[test]
fn empty_query_lists_everything() {
    let a = bm("http://localhost/a", "x");
    let b = bm("http://localhost/b", "");
    let r = filter(vec![a.clone(), b.clone()], &TagSet::new(), Ratio { num: 9, den: 10 });
    assert_eq!(r.len(), 2);
    assert!(r[0].1 == a);
    assert!(r[1].1 == b);
    assert_eq!(r[1].0, Ratio { num: 0, den: 1 });
}

#[test]
fn threshold_filters_low_scores() {
    let a = bm("http://localhost/a", "x q r s");
    let r = filter(vec![a], &Tag::new_set("x"), Ratio { num: 1, den: 2 });
    assert!(r.is_empty());
}

#[test]
fn search_query_joins_with_plus() {
    let terms = vec![Tag::new("rust").unwrap(), Tag::new("Verus").unwrap()];
    assert_eq!(search_query(&terms), "https://duckduckgo.com/?q=rust+verus");
    assert_eq!(search_query(&[]), "https://duckduckgo.com/?q=");
}

#[test]
fn open_target_prefers_best_match() {
    let a = bm("https://example.com/", "x");
    let ranked = filter(vec![a], &Tag::new_set("x"), MIN);
    let kw = vec![Tag::new("x").unwrap()];
    assert_eq!(open_target(&ranked, &kw), "https://example.com/");
    assert_eq!(open_target(&Vec::new(), &kw), "https://duckduckgo.com/?q=x");
}
