//! Reading a page's title out of its HTML, and completing a URL typed
//! without a scheme.

use vstd::prelude::*;

use crate::address::opt_view;
use crate::text::{append, chars_of, string_of, trim_spec};

verus! {

/// The leftmost match of a regular expression in a text, as the `regex`
/// crate finds it; none when nothing matches or the pattern is invalid.
pub uninterp spec fn regex_match(pattern: Seq<char>, hay: Seq<char>) -> Option<Seq<char>>;

/// Relies on `regex::Regex::new` and `Regex::find`: the text of the
/// leftmost-first match, a function of the pattern and the text.
#[verifier::external_body]
fn find_match(pattern: &str, hay: &str) -> (r: Option<String>)
    ensures
        opt_view(r) == regex_match(pattern@, hay@),
{
    let re = regex::Regex::new(pattern).ok()?;
    re.find(hay).map(|m| m.as_str().to_string())
}

/// The element that holds a page's title, opening and closing tags included.
pub open spec fn title_pattern() -> Seq<char> {
    "<(title|TITLE)>\\s?.*\\s?</(title|TITLE)>"@
}

/// The characters of `s` before its first `<`.
pub open spec fn before_lt(s: Seq<char>) -> Seq<char>
    decreases s.len(),
{
    if s.len() == 0 {
        s
    } else if s[0] == '<' {
        Seq::empty()
    } else {
        seq![s[0]] + before_lt(s.drop_first())
    }
}

/// The title inside a matched title element: what follows the seven
/// characters of the opening tag, up to the next `<`, trimmed.
pub open spec fn title_text_spec(m: Seq<char>) -> Seq<char> {
    trim_spec(before_lt(if m.len() >= 7 { m.skip(7) } else { Seq::empty() }))
}

/// The title inside the matched title element `m`.
pub fn title_text(m: &str) -> (r: String)
    ensures
        r@ == title_text_spec(m@),
{
    let cs = chars_of(m);
    let start: usize = if cs.len() >= 7 {
        7
    } else {
        cs.len()
    };
    let ghost rest = if cs@.len() >= 7 {
        cs@.skip(7)
    } else {
        Seq::<char>::empty()
    };
    assert(rest == cs@.skip(start as int));
    let mut j: usize = start;
    while j < cs.len() && cs[j] != '<'
        invariant
            start <= j <= cs@.len(),
            before_lt(rest) == cs@.subrange(start as int, j as int) + before_lt(cs@.skip(j as int)),
        decreases cs@.len() - j,
    {
        assert(cs@.skip(j as int).drop_first() == cs@.skip(j + 1));
        assert(cs@.subrange(start as int, j + 1) == cs@.subrange(start as int, j as int) + seq![
            cs@[j as int],
        ]);
        j += 1;
    }
    assert(before_lt(cs@.skip(j as int)) == Seq::<char>::empty());
    assert(before_lt(rest) == cs@.subrange(start as int, j as int));
    let inner = string_of(&cs, start, j);
    inner.as_str().trim().to_owned()
}

/// The title of an HTML page: the text of its first title element, if it
/// has one.
pub fn page_title(body: &str) -> (r: Option<String>)
    ensures
        match regex_match(title_pattern(), body@) {
            Some(m) => r matches Some(t) && t@ == title_text_spec(m),
            None => r is None,
        },
{
    match find_match("<(title|TITLE)>\\s?.*\\s?</(title|TITLE)>", body) {
        Some(m) => Some(title_text(m.as_str())),
        None => None,
    }
}

/// `s` starts with `p`.
pub open spec fn has_prefix(s: Seq<char>, p: Seq<char>) -> bool {
    p.len() <= s.len() && s.subrange(0, p.len() as int) == p
}

fn starts_with(s: &Vec<char>, p: &str) -> (r: bool)
    ensures
        r == has_prefix(s@, p@),
{
    let pc = chars_of(p);
    if pc.len() > s.len() {
        return false;
    }
    let mut i: usize = 0;
    while i < pc.len()
        invariant
            pc@ == p@,
            pc@.len() <= s@.len(),
            i <= pc@.len(),
            forall|k: int| 0 <= k < i ==> s@[k] == pc@[k],
        decreases pc@.len() - i,
    {
        if s[i] != pc[i] {
            assert(s@.subrange(0, pc@.len() as int)[i as int] != pc@[i as int]);
            return false;
        }
        i += 1;
    }
    assert(s@.subrange(0, pc@.len() as int) =~= pc@);
    true
}

/// The URL as typed when it starts with `http://` or `https://`, else with
/// `https://` put in front.
pub fn with_scheme(url: &str) -> (r: String)
    ensures
        (has_prefix(url@, "http://"@) || has_prefix(url@, "https://"@)) ==> r@ == url@,
        !(has_prefix(url@, "http://"@) || has_prefix(url@, "https://"@)) ==> r@ == "https://"@
            + url@,
{
    let cs = chars_of(url);
    if starts_with(&cs, "http://") || starts_with(&cs, "https://") {
        url.to_owned()
    } else {
        let mut r = String::new();
        append(&mut r, "https://");
        append(&mut r, url);
        r
    }
}

} // verus!
