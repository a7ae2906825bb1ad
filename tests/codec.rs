use goto::bookmark::Bookmark;
use goto::codec::{check_record_path, decode, encode, Extension, FileError, Record};
use goto::tag::Tag;

#[test]
fn encode_sorts_tags() {
    let b = Bookmark::new("https://example.com/", Some("T".to_string()), Tag::new_set("tech news b")).unwrap();
    let r = encode(&b);
    assert_eq!(r.url, Some("https://example.com/".to_string()));
    assert_eq!(r.title, Some("T".to_string()));
    assert_eq!(r.tags, Some(vec!["b".to_string(), "news".to_string(), "tech".to_string()]));
}

#[test]
fn decode_of_encode_gives_the_bookmark_back() {
    let b = Bookmark::new("https://example.com/page", Some("Page".to_string()), Tag::new_set("news tech")).unwrap();
    let back = decode(&encode(&b)).unwrap();
    assert!(back == b);
    assert_eq!(back.title(), b.title());
    let b = Bookmark::new("https://example.com/", None, Tag::new_set("")).unwrap();
    let back = decode(&encode(&b)).unwrap();
    assert!(back == b);
    assert_eq!(back.title(), None);
}

#[test]
fn decode_without_url_is_malformed() {
    let r = Record { url: None, title: None, tags: Some(vec![]) };
    assert!(matches!(decode(&r), Err(FileError::Deserialize)));
}

#[test]
fn decode_without_tags_is_malformed() {
    let r = Record { url: Some("https://example.com/".to_string()), title: None, tags: None };
    assert!(matches!(decode(&r), Err(FileError::Deserialize)));
}

#[test]
fn decode_with_bad_url_is_invalid_url() {
    let r = Record { url: Some("nope".to_string()), title: None, tags: Some(vec![]) };
    assert!(matches!(decode(&r), Err(FileError::InvalidUrl)));
}

#[test]
fn decode_skips_empty_tags() {
    let r = Record {
        url: Some("https://example.com/".to_string()),
        title: None,
        tags: Some(vec!["".to_string(), "a".to_string(), "a".to_string()]),
    };
    assert_eq!(decode(&r).unwrap().tags().len(), 1);
}

#[test]
fn record_path_checks() {
    assert!(matches!(check_record_path(false, false, Some("yaml")), Err(FileError::NotFound)));
    assert!(matches!(check_record_path(true, false, Some("yaml")), Err(FileError::NotFile)));
    assert!(matches!(check_record_path(true, true, None), Err(FileError::UnknownExtension)));
    match check_record_path(true, true, Some("json")) {
        Err(FileError::UnsupportedExtension(e)) => assert_eq!(e, "json"),
        _ => panic!("json records are not read"),
    }
    assert!(check_record_path(true, true, Some("yaml")).is_ok());
}

#[test]
fn extension_names() {
    assert_eq!(Extension::Yaml.as_str(), "yaml");
    assert_eq!(Extension::from_name(Some("json")).unwrap(), Extension::Json);
    assert_eq!(Extension::from_name(Some("yaml")).unwrap(), Extension::Yaml);
    assert!(matches!(Extension::from_name(None), Err(FileError::UnknownExtension)));
    assert!(matches!(Extension::from_name(Some("txt")), Err(FileError::UnsupportedExtension(_))));
}

#[test]
fn error_messages() {
    assert_eq!(FileError::NotFound.message(), "File not found");
    assert_eq!(FileError::NotFile.message(), "Not a file");
    assert_eq!(FileError::UnknownExtension.message(), "Unknown extension");
    assert_eq!(FileError::UnsupportedExtension("txt".to_string()).message(), "Unsupported extension 'txt'");
    assert!(FileError::UnsupportedExtension("json".to_string()).message().contains("JSON is no longer supported."));
    assert_eq!(FileError::Deserialize.message(), "Unable to deserialize");
    assert_eq!(FileError::InvalidUrl.message(), "Invalid URL");
    assert_eq!(FileError::Serialize.message(), "Unable to serialize");
    assert_eq!(FileError::IO("disk".to_string()).message(), "IO error: disk");
}
