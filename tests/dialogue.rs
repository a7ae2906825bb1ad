use goto::bookmark::Bookmark;
use goto::interact::{action_at, action_labels, start, step, Action, Effect, Event, Stage};
use goto::matcher::Ratio;
use goto::tag::Tag;

fn bm(url: &str, title: Option<&str>, tags: &str) -> Bookmark {
    Bookmark::new(url, title.map(|t| t.to_string()), Tag::new_set(tags)).unwrap()
}

fn ranked(bs: Vec<Bookmark>) -> Vec<(Ratio, Bookmark)> {
    bs.into_iter().map(|b| (Ratio { num: 1, den: 1 }, b)).collect()
}

#[test]
fn menu_order() {
    assert_eq!(action_labels(), vec!["open", "edit title", "edit tags", "edit URL", "delete", "exit"]);
    assert_eq!(action_at(0), Some(Action::Open));
    assert_eq!(action_at(3), Some(Action::EditUrl));
    assert_eq!(action_at(5), Some(Action::Exit));
    assert_eq!(action_at(6), None);
}

#[test]
fn start_truncates_to_limit() {
    let r = ranked(vec![bm("https://a.io/", None, ""), bm("https://b.io/", None, ""), bm("https://c.io/", None, "")]);
    match start(&r, 2) {
        (Stage::Ranking(c), Effect::ShowCandidates) => {
            assert_eq!(c.len(), 2);
            assert_eq!(c[1].url(), "https://b.io/");
        }
        _ => panic!("candidates expected"),
    }
}

#[test]
fn start_with_nothing_ends() {
    assert!(matches!(start(&Vec::new(), 10), (Stage::Cancelled, Effect::NoMatches)));
    let r = ranked(vec![bm("https://a.io/", None, "")]);
    assert!(matches!(start(&r, 0), (Stage::Cancelled, Effect::NoMatches)));
}

#[test]
fn pick_then_open() {
    let c = vec![bm("https://a.io/", None, ""), bm("https://b.io/", None, "")];
    let (s, e) = step(Stage::Ranking(c), Event::Picked(Some(1)));
    assert!(matches!(e, Effect::ShowActions));
    let (s, e) = step(s, Event::ActionPicked(Some(0)));
    assert!(matches!(s, Stage::Applied));
    match e {
        Effect::Open(u) => assert_eq!(u, "https://b.io/"),
        _ => panic!("open expected"),
    }
}

#[test]
fn cancel_at_any_prompt_touches_nothing() {
    let c = vec![bm("https://a.io/", None, "")];
    assert!(matches!(step(Stage::Ranking(c.clone()), Event::Picked(None)), (Stage::Cancelled, Effect::Nothing)));
    assert!(matches!(step(Stage::Ranking(c), Event::Picked(Some(7))), (Stage::Cancelled, Effect::Nothing)));
    let b = bm("https://a.io/", Some("A"), "x");
    assert!(matches!(step(Stage::Selected(b.clone()), Event::ActionPicked(None)), (Stage::Cancelled, Effect::Nothing)));
    assert!(matches!(step(Stage::Selected(b.clone()), Event::ActionPicked(Some(5))), (Stage::Cancelled, Effect::Nothing)));
    assert!(matches!(step(Stage::EditingTitle(b.clone()), Event::TitleEntered(None)), (Stage::Cancelled, Effect::Nothing)));
    assert!(matches!(step(Stage::EditingTags(b.clone()), Event::TagsEntered(None)), (Stage::Cancelled, Effect::Nothing)));
    assert!(matches!(step(Stage::EditingUrl(b), Event::UrlEntered(None)), (Stage::Cancelled, Effect::Nothing)));
}

#[test]
fn unexpected_event_changes_nothing() {
    let b = bm("https://a.io/", None, "");
    assert!(matches!(step(Stage::Selected(b), Event::Picked(Some(0))), (Stage::Selected(_), Effect::Nothing)));
    assert!(matches!(step(Stage::Applied, Event::Picked(Some(0))), (Stage::Applied, Effect::Nothing)));
}

#[test]
fn edit_title_with_stored_title() {
    let b = bm("https://a.io/", Some("Old"), "x");
    let (s, e) = step(Stage::Selected(b), Event::ActionPicked(Some(1)));
    match e {
        Effect::AskTitle(Some(d)) => assert_eq!(d, "Old"),
        _ => panic!("title prompt expected"),
    }
    let (s, e) = step(s, Event::TitleEntered(Some("New".to_string())));
    assert!(matches!(s, Stage::Applied));
    match e {
        Effect::Save(n, merge) => {
            assert!(merge);
            assert_eq!(n.title(), Some("New".to_string()));
            assert_eq!(n.tags().len(), 1);
        }
        _ => panic!("save expected"),
    }
}

#[test]
fn edit_title_without_title_fetches_it() {
    let b = bm("https://a.io/", None, "x");
    let (s, e) = step(Stage::Selected(b), Event::ActionPicked(Some(1)));
    match e {
        Effect::FetchTitle(u) => assert_eq!(u, "https://a.io/"),
        _ => panic!("fetch expected"),
    }
    let (_, e) = step(s, Event::TitleFetched(Some("Fetched".to_string())));
    match e {
        Effect::AskTitle(Some(d)) => assert_eq!(d, "Fetched"),
        _ => panic!("title prompt expected"),
    }
}

#[test]
fn edit_tags_prefills_current_tags() {
    let b = bm("https://a.io/", None, "x");
    match step(Stage::Selected(b), Event::ActionPicked(Some(2))) {
        (Stage::EditingTags(_), Effect::AskTags(d)) => assert_eq!(d, "x"),
        _ => panic!("tag prompt expected"),
    }
}

#[test]
fn edit_url_replaces_record() {
    let b = bm("https://a.io/", Some("A"), "x");
    let (s, e) = step(Stage::Selected(b.clone()), Event::ActionPicked(Some(3)));
    assert!(matches!(e, Effect::AskUrl(_)));
    let (s, e) = step(s, Event::UrlEntered(Some("not a url".to_string())));
    assert!(matches!(e, Effect::AskUrl(_)));
    let (s, e) = step(s, Event::UrlEntered(Some("  https://B.io  ".to_string())));
    assert!(matches!(s, Stage::Applied));
    match e {
        Effect::Replace(n, o) => {
            assert_eq!(n.url(), "https://b.io/");
            assert_eq!(n.title(), None);
            assert!(o == b);
        }
        _ => panic!("replace expected"),
    }
}

#[test]
fn edit_url_to_same_url_does_nothing() {
    let b = bm("https://a.io/", None, "x");
    let (s, e) = step(Stage::EditingUrl(b), Event::UrlEntered(Some("https://a.io".to_string())));
    assert!(matches!((s, e), (Stage::Applied, Effect::Nothing)));
}

#[test]
fn delete_action() {
    let b = bm("https://a.io/", None, "x");
    match step(Stage::Selected(b.clone()), Event::ActionPicked(Some(4))) {
        (Stage::Applied, Effect::Delete(d)) => assert!(d == b),
        _ => panic!("delete expected"),
    }
}
