//! Absolute URLs, parsed by the `url` crate and kept as their serialization.

use vstd::prelude::*;

verus! {

#[verifier::external_type_specification]
#[verifier::external_body]
pub struct ExParseError(url::ParseError);

/// What `url::Url::parse` makes of a text: the serialization of the parsed
/// URL and its domain, or nothing when no absolute URL can be parsed.
pub uninterp spec fn parsed_url(s: Seq<char>) -> Option<(Seq<char>, Option<Seq<char>>)>;

/// The view of an optional string.
pub open spec fn opt_view(s: Option<String>) -> Option<Seq<char>> {
    match s {
        Some(t) => Some(t@),
        None => None,
    }
}

/// Relies on `url::Url::parse`, read back through `Url::as_str` (the
/// serialization) and `Url::domain`: the outcome depends on the text alone.
#[verifier::external_body]
pub(crate) fn parse_url(s: &str) -> (r: Result<(String, Option<String>), url::ParseError>)
    ensures
        match r {
            Ok((text, domain)) => parsed_url(s@) == Some((text@, opt_view(domain))),
            Err(_) => parsed_url(s@) is None,
        },
{
    url::Url::parse(s).map(|u| (u.as_str().to_string(), u.domain().map(|d| d.to_string())))
}

/// The serialization of the URL parsed from `s`, when it parses.
pub open spec fn serialization_of(s: Seq<char>) -> Seq<char> {
    match parsed_url(s) {
        Some((t, _)) => t,
        None => Seq::empty(),
    }
}

/// `u` is the serialization of an absolute URL that parses back to itself.
pub open spec fn canonical_url(u: Seq<char>) -> bool {
    parsed_url(u) is Some && serialization_of(u) == u
}

/// The domain of the URL whose serialization is `u`; none when `u` does not
/// parse or its host is not a domain.
pub open spec fn domain_of(u: Seq<char>) -> Option<Seq<char>> {
    match parsed_url(u) {
        Some((_, d)) => d,
        None => None,
    }
}

/// The domain of the URL written `u`.
pub fn domain(u: &str) -> (r: Option<String>)
    ensures
        opt_view(r) == domain_of(u@),
{
    match parse_url(u) {
        Ok((_, d)) => d,
        Err(_) => None,
    }
}

/// The position of the last `.` in `s[0..n]`, or -1.
pub open spec fn last_dot(s: Seq<char>, n: int) -> int
    decreases n,
{
    if n <= 0 {
        -1
    } else if s[n - 1] == '.' {
        n - 1
    } else {
        last_dot(s, n - 1)
    }
}

proof fn lemma_last_dot(s: Seq<char>, n: int)
    requires
        0 <= n <= s.len(),
    ensures
        -1 <= last_dot(s, n) < n,
        last_dot(s, n) >= 0 ==> s[last_dot(s, n)] == '.',
        forall|k: int| last_dot(s, n) < k < n ==> s[k] != '.',
    decreases n,
{
    if n > 0 && s[n - 1] != '.' {
        lemma_last_dot(s, n - 1);
    }
}

/// The second-to-last dot-separated label of a domain, if it has two or
/// more labels.
pub open spec fn root_domain_spec(d: Seq<char>) -> Option<Seq<char>> {
    let p = last_dot(d, d.len() as int);
    if p < 0 {
        None
    } else {
        Some(d.subrange(last_dot(d, p) + 1, p))
    }
}

fn find_last_dot(cs: &Vec<char>, n: usize) -> (r: Option<usize>)
    requires
        n <= cs@.len(),
    ensures
        match r {
            Some(k) => k == last_dot(cs@, n as int),
            None => last_dot(cs@, n as int) == -1,
        },
{
    let mut k: usize = n;
    while k > 0
        invariant
            k <= n <= cs@.len(),
            last_dot(cs@, n as int) == last_dot(cs@, k as int),
        decreases k,
    {
        if cs[k - 1] == '.' {
            return Some(k - 1);
        }
        k -= 1;
    }
    None
}

/// The second-to-last label of the domain `d`.
pub fn root_domain(d: &str) -> (r: Option<String>)
    ensures
        opt_view(r) == root_domain_spec(d@),
{
    let cs = crate::text::chars_of(d);
    match find_last_dot(&cs, cs.len()) {
        None => None,
        Some(p) => {
            proof {
                lemma_last_dot(cs@, cs@.len() as int);
            }
            let start = match find_last_dot(&cs, p) {
                Some(q) => {
                    proof {
                        lemma_last_dot(cs@, p as int);
                    }
                    q + 1
                },
                None => 0,
            };
            Some(crate::text::string_of(&cs, start, p))
        },
    }
}

} // verus!
