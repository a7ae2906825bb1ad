use goto::bookmark::Bookmark;
use goto::codec::{decode, encode, FileError};
use goto::interact::{step, Effect, Event, Stage};
use goto::store::{check_delete, needs_stored, to_write};
use goto::tag::Tag;

fn strings(v: &[&str]) -> Option<Vec<String>> {
    Some(v.iter().map(|s| s.to_string()).collect())
}

#[test]
fn add_to_empty_store_writes_one_record() {
    let b = Bookmark::new("https://example.com/page", None, Tag::new_set("news,tech")).unwrap();
    assert!(!needs_stored(true, false));
    let written = to_write(b, true, None);
    assert_eq!(
        written.rel_path(),
        "example.com/3641c5f2274c5471278ab5bf1df6d1858d8aa392d85c51301abed2122a3c634f.yaml"
    );
    assert_eq!(encode(&written).tags, strings(&["news", "tech"]));
}

#[test]
fn add_again_with_merge_unions_tags() {
    let first = Bookmark::new("https://example.com/page", None, Tag::new_set("news tech")).unwrap();
    let stored = decode(&encode(&first)).unwrap();
    let second = Bookmark::new("https://example.com/page", None, Tag::new_set("tech science")).unwrap();
    assert!(needs_stored(true, true));
    let written = to_write(second, true, Some(stored));
    assert_eq!(encode(&written).tags, strings(&["news", "science", "tech"]));
}

#[test]
fn save_without_merge_replaces_tags() {
    let stored = Bookmark::new("https://example.com/page", None, Tag::new_set("news tech")).unwrap();
    let new = Bookmark::new("https://example.com/page", None, Tag::new_set("x")).unwrap();
    assert!(!needs_stored(false, true));
    let written = to_write(new, false, Some(stored));
    assert_eq!(encode(&written).tags, strings(&["x"]));
}

#[test]
fn edit_tags_replaces_the_stored_set() {
    let b = Bookmark::new("https://example.com/page", Some("T".to_string()), Tag::new_set("news tech")).unwrap();
    let (stage, effect) = step(Stage::EditingTags(b.clone()), Event::TagsEntered(Some("x".to_string())));
    assert!(matches!(stage, Stage::Applied));
    match effect {
        Effect::Save(n, merge) => {
            assert!(!merge);
            let written = to_write(n, merge, Some(b));
            assert_eq!(encode(&written).tags, strings(&["x"]));
        }
        _ => panic!("edit-tags saves"),
    }
}

#[test]
fn delete_of_missing_record_is_not_found() {
    assert!(matches!(check_delete(false), Err(FileError::NotFound)));
    assert!(check_delete(true).is_ok());
}
