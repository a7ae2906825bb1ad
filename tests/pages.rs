use goto::config::{Config, Flag};
use goto::page::{page_title, title_text, with_scheme};

#[test]
fn title_is_read_from_html() {
    let body = "<html><head><title> Hello World </title></head></html>";
    assert_eq!(page_title(body), Some("Hello World".to_string()));
    assert_eq!(page_title("<TITLE>Upper</TITLE>"), Some("Upper".to_string()));
    assert_eq!(page_title("<html>no title</html>"), None);
}

#[test]
fn title_text_of_a_match() {
    assert_eq!(title_text("<title>abc</title>"), "abc");
    assert_eq!(title_text("<title>"), "");
    assert_eq!(title_text("<tit"), "");
}

#[test]
fn scheme_is_added_when_missing() {
    assert_eq!(with_scheme("example.com"), "https://example.com");
    assert_eq!(with_scheme("http://example.com"), "http://example.com");
    assert_eq!(with_scheme("https://example.com"), "https://example.com");
}

#[test]
fn flags_parse_in_any_case() {
    assert_eq!(Flag::parse("ON").unwrap(), Flag::True);
    assert_eq!(Flag::parse("true").unwrap(), Flag::True);
    assert_eq!(Flag::parse("Off").unwrap(), Flag::False);
    assert_eq!(Flag::parse("false").unwrap(), Flag::False);
    assert_eq!(Flag::parse("AUTO").unwrap(), Flag::Auto);
    assert_eq!(Flag::parse("maybe").unwrap_err(), "Unrecognized option maybe");
    assert_eq!("auto".parse::<Flag>().unwrap(), Flag::Auto);
}

#[test]
fn colors_follow_the_flag() {
    let c = Config { verbosity_level: 1, print_dbg: false, colors: Flag::False };
    assert!(!c.colorful());
    let c = Config { colors: Flag::Auto, ..c };
    assert!(c.colorful());
}
