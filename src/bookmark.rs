//! Bookmarks: a URL, an optional title and a set of tags.

use vstd::prelude::*;

use crate::address::{
    domain_of, opt_view, parse_url, parsed_url, root_domain_spec, serialization_of,
};
use crate::codec::Extension;
use crate::digest::{hash, hex_spec, sha256_of};
use crate::tag::{normalize_spec, Tag};
use crate::tagset::TagSet;
use crate::text::{append, joined};

verus! {

/// Why a bookmark could not be made.
#[derive(Debug, PartialEq, Eq, Structural, Clone, Copy)]
pub enum Error {
    /// The text is not an absolute URL.
    InvalidUrl,
    /// The URL has no domain.
    NoDomain,
}

/// What a bookmark holds: the serialization of its URL, its title and the
/// texts of its tags.
pub struct BookmarkView {
    pub url: Seq<char>,
    pub title: Option<Seq<char>>,
    pub tags: Set<Seq<char>>,
}

/// A bookmark. Its URL is its identity; the title is auxiliary.
#[derive(Debug)]
pub struct Bookmark {
    url: String,
    title: Option<String>,
    tags: TagSet,
}

impl View for Bookmark {
    type V = BookmarkView;

    closed spec fn view(&self) -> BookmarkView {
        BookmarkView { url: self.url@, title: opt_view(self.title), tags: self.tags@ }
    }
}

/// The extra matching term that a URL contributes: the normal form of the
/// second-to-last label of its domain, when there is one and it is not
/// empty.
pub open spec fn root_term(u: Seq<char>) -> Option<Seq<char>> {
    match domain_of(u) {
        Some(d) => match root_domain_spec(d) {
            Some(r) => if normalize_spec(r).len() > 0 {
                Some(normalize_spec(r))
            } else {
                None
            },
            None => None,
        },
        None => None,
    }
}

/// The terms of a bookmark: its tags, and the term its URL contributes.
pub open spec fn terms_spec(b: BookmarkView) -> Set<Seq<char>> {
    match root_term(b.url) {
        Some(t) => b.tags.insert(t),
        None => b.tags,
    }
}

/// The relative path of the record file of the URL `u`:
/// `{domain}/{hex sha-256 of u}.yaml`, the domain being empty when there is
/// none.
pub open spec fn path_spec(u: Seq<char>) -> Seq<char> {
    let d = match domain_of(u) {
        Some(d) => d,
        None => Seq::empty(),
    };
    d + "/"@ + hex_spec(sha256_of(u)) + "."@ + "yaml"@
}

/// `a` merged with `b`: `a` when the URLs differ, else `a` with the tags of
/// both.
pub open spec fn merge_spec(a: BookmarkView, b: BookmarkView) -> BookmarkView {
    if a.url != b.url {
        a
    } else {
        BookmarkView { tags: a.tags.union(b.tags), ..a }
    }
}

/// Two bookmarks with the same URL have the same record path, whatever
/// their titles and tags.
pub proof fn lemma_path_determinism(a: BookmarkView, b: BookmarkView)
    requires
        a.url == b.url,
    ensures
        path_spec(a.url) == path_spec(b.url),
{
}

/// Merging a bookmark with itself gives it back; merging two bookmarks of
/// one URL keeps the tags of both; merging bookmarks of different URLs
/// gives the first unchanged.
pub proof fn lemma_merge_laws(a: BookmarkView, b: BookmarkView)
    ensures
        merge_spec(a, a) == a,
        a.url == b.url ==> a.tags.union(b.tags).subset_of(merge_spec(a, b).tags),
        a.url != b.url ==> merge_spec(a, b) == a,
{
    assert(a.tags.union(a.tags) =~= a.tags);
}

impl Bookmark {
    /// The tag texts in the order in which they are kept.
    pub closed spec fn tag_order(&self) -> Seq<Seq<char>> {
        self.tags.texts()
    }

    /// The kept order lists each tag once and nothing else.
    pub proof fn lemma_tag_order(&self)
        ensures
            self.tag_order().to_set() == self@.tags,
    {
        self.tags.lemma_texts();
    }

    /// The bookmark of the URL written `url`; `InvalidUrl` when `url` is
    /// not an absolute URL.
    pub fn new(url: &str, title: Option<String>, tags: TagSet) -> (r: Result<Bookmark, Error>)
        ensures
            r is Ok <==> parsed_url(url@) is Some,
            r matches Ok(b) ==> b@ == (BookmarkView {
                url: serialization_of(url@),
                title: opt_view(title),
                tags: tags@,
            }),
            r matches Err(e) ==> e == Error::InvalidUrl,
    {
        match parse_url(url) {
            Ok((text, _)) => Ok(Bookmark { url: text, title, tags }),
            Err(_) => Err(Error::InvalidUrl),
        }
    }

    /// A bookmark of the same URL with the given title and tags.
    pub fn with_parts(&self, title: Option<String>, tags: TagSet) -> (r: Bookmark)
        ensures
            r@ == (BookmarkView { url: self@.url, title: opt_view(title), tags: tags@ }),
    {
        Bookmark { url: self.url.clone(), title, tags }
    }

    /// The serialization of the URL.
    pub fn url(&self) -> (r: String)
        ensures
            r@ == self@.url,
    {
        self.url.clone()
    }

    /// The domain of the URL, if its host is a domain.
    pub fn domain(&self) -> (r: Option<String>)
        ensures
            opt_view(r) == domain_of(self@.url),
    {
        crate::address::domain(self.url.as_str())
    }

    fn root_domain(&self) -> (r: Option<String>)
        ensures
            opt_view(r) == match domain_of(self@.url) {
                Some(d) => root_domain_spec(d),
                None => None,
            },
    {
        match self.domain() {
            Some(d) => crate::address::root_domain(d.as_str()),
            None => None,
        }
    }

    /// The title.
    pub fn title(&self) -> (r: Option<String>)
        ensures
            opt_view(r) == self@.title,
    {
        self.title.clone()
    }

    /// The tags.
    pub fn tags(&self) -> (r: &TagSet)
        ensures
            r@ == self@.tags,
            r.texts() == self.tag_order(),
    {
        &self.tags
    }

    /// The terms the bookmark is matched by: its tags, and the second-to-last
    /// label of its domain as one more tag.
    pub fn terms(&self) -> (r: TagSet)
        ensures
            r@ == terms_spec(self@),
    {
        let mut terms = self.tags.clone();
        if let Some(d) = self.root_domain() {
            if let Ok(t) = Tag::new(d.as_str()) {
                terms.insert(t);
            }
        }
        terms
    }

    fn id(&self) -> (r: String)
        ensures
            r@ == hex_spec(sha256_of(self@.url)),
    {
        hash(self.url.as_str())
    }

    /// The path of the bookmark's record file, relative to the store's
    /// directory.
    pub fn rel_path(&self) -> (r: String)
        ensures
            r@ == path_spec(self@.url),
    {
        let mut path = match self.domain() {
            Some(d) => d,
            None => String::new(),
        };
        append(&mut path, "/");
        let id = self.id();
        append(&mut path, id.as_str());
        append(&mut path, ".");
        append(&mut path, Extension::Yaml.as_str());
        path
    }

    /// This bookmark with the tags of `other` added, when both have the same
    /// URL; this bookmark unchanged otherwise.
    pub fn merge(self, other: Bookmark) -> (r: Bookmark)
        ensures
            r@ == merge_spec(self@, other@),
    {
        if self.url != other.url {
            self
        } else {
            let tags = self.tags.union(&other.tags);
            Bookmark { tags, ..self }
        }
    }

    /// The URL followed by ` - ` and the tags separated by spaces.
    pub fn describe(&self) -> (r: String)
        ensures
            r@ == self@.url + " - "@ + joined(self.tag_order(), " "@),
    {
        let mut r = self.url.clone();
        append(&mut r, " - ");
        let tags = self.tags.join(" ");
        append(&mut r, tags.as_str());
        r
    }
}

impl Clone for Bookmark {
    fn clone(&self) -> (r: Self)
        ensures
            r@ == self@,
    {
        Bookmark { url: self.url.clone(), title: self.title.clone(), tags: self.tags.clone() }
    }
}

impl PartialEq for Bookmark {
    fn eq(&self, other: &Bookmark) -> (r: bool) {
        self.url == other.url && self.tags.same_members(&other.tags)
    }
}

impl vstd::std_specs::cmp::PartialEqSpecImpl for Bookmark {
    open spec fn obeys_eq_spec() -> bool {
        true
    }

    open spec fn eq_spec(&self, other: &Bookmark) -> bool {
        self@.url == other@.url && self@.tags == other@.tags
    }
}

impl Eq for Bookmark {
}

} // verus!
