//! Tags: normalized, non-empty tokens that classify bookmarks.

use vstd::prelude::*;

use crate::tagset::TagSet;
use crate::text::{
    chars_of, is_white_space, lemma_trim_idempotent, lower_of, string_of, trim_spec, white_space,
};

verus! {

/// A character that normalization removes: a comma, a double quote, a
/// backslash, or white space.
pub open spec fn discarded(c: char) -> bool {
    c == ',' || c == '"' || c == '\\' || white_space(c)
}

/// `s` without the characters that normalization removes.
pub open spec fn strip_spec(s: Seq<char>) -> Seq<char> {
    s.filter(|c: char| !discarded(c))
}

/// The normal form of a raw tag: stripped of discarded characters,
/// lower-cased, and trimmed.
pub open spec fn normalize_spec(s: Seq<char>) -> Seq<char> {
    trim_spec(lower_of(strip_spec(s)))
}

/// Removing discarded characters from a text that holds none changes
/// nothing.
proof fn lemma_strip_clean(s: Seq<char>)
    requires
        forall|k: int| 0 <= k < s.len() ==> !discarded(#[trigger] s[k]),
    ensures
        strip_spec(s) == s,
    decreases s.len(),
{
    reveal(Seq::filter);
    if s.len() > 0 {
        lemma_strip_clean(s.drop_last());
        assert(s.drop_last().push(s.last()) == s);
    }
}

/// Normalizing a normal form again gives it back, whenever lower-casing that
/// normal form changes nothing and it holds no discarded character. What
/// lower-casing does is taken from `str::to_lowercase` and is not stated
/// here, so these two facts stand as the hypotheses.
pub proof fn lemma_normalize_idempotent(s: Seq<char>)
    requires
        lower_of(normalize_spec(s)) == normalize_spec(s),
        forall|k: int|
            0 <= k < normalize_spec(s).len() ==> !discarded(#[trigger] normalize_spec(s)[k]),
    ensures
        normalize_spec(normalize_spec(s)) == normalize_spec(s),
{
    let t = normalize_spec(s);
    lemma_strip_clean(t);
    lemma_trim_idempotent(lower_of(strip_spec(s)));
}

/// A character that ends a word of a tag list: a comma or white space.
pub open spec fn separator(c: char) -> bool {
    c == ',' || white_space(c)
}

/// `s[i..j]` is a word of `s`: a maximal non-empty run of characters that
/// are not separators.
pub open spec fn is_word(s: Seq<char>, i: int, j: int) -> bool {
    &&& 0 <= i < j <= s.len()
    &&& (i == 0 || separator(s[i - 1]))
    &&& (j == s.len() || separator(s[j]))
    &&& forall|k: int| i <= k < j ==> !separator(#[trigger] s[k])
}

/// The tags that the words of `s` ending before position `n` give.
pub open spec fn tags_before(s: Seq<char>, n: int) -> Set<Seq<char>> {
    Set::new(
        |t: Seq<char>|
            t.len() > 0 && exists|i: int, j: int|
                is_word(s, i, j) && j < n && #[trigger] normalize_spec(s.subrange(i, j)) == t,
    )
}

/// The tags of a tag list: the non-empty normal forms of its words.
pub open spec fn tags_in(s: Seq<char>) -> Set<Seq<char>> {
    tags_before(s, s.len() as int + 1)
}

/// No word of `s` ends at a position that holds a non-separator.
proof fn lemma_no_word_ends(s: Seq<char>, n: int)
    requires
        0 <= n < s.len(),
        !separator(s[n]),
    ensures
        tags_before(s, n + 1) == tags_before(s, n),
{
    assert(tags_before(s, n + 1) =~= tags_before(s, n));
}

/// The one word that can end at `n` is the run that started at `start`.
proof fn lemma_word_ends(s: Seq<char>, start: int, n: int)
    requires
        0 <= start <= n <= s.len(),
        start == 0 || separator(s[start - 1]),
        forall|k: int| start <= k < n ==> !separator(#[trigger] s[k]),
        n == s.len() || separator(s[n]),
    ensures
        start < n && normalize_spec(s.subrange(start, n)).len() > 0 ==> tags_before(s, n + 1)
            == tags_before(s, n).insert(normalize_spec(s.subrange(start, n))),
        !(start < n && normalize_spec(s.subrange(start, n)).len() > 0) ==> tags_before(s, n + 1)
            == tags_before(s, n),
{
    assert forall|a: int| #[trigger] is_word(s, a, n) implies a == start by {
        if a < start {
            assert(!separator(s[start - 1]));
        } else if a > start {
            assert(!separator(s[a - 1]));
        }
    }
    if start < n {
        assert(is_word(s, start, n));
    }
    if start < n && normalize_spec(s.subrange(start, n)).len() > 0 {
        assert(tags_before(s, n + 1) =~= tags_before(s, n).insert(
            normalize_spec(s.subrange(start, n)),
        ));
    } else {
        assert(tags_before(s, n + 1) =~= tags_before(s, n));
    }
}

/// The reason a raw tag does not become a tag.
#[derive(Debug, PartialEq, Eq, Structural, Clone, Copy)]
pub enum TagError {
    /// Nothing was left after normalization.
    Empty,
}

impl TagError {
    /// A sentence that describes the error.
    pub fn message(&self) -> (r: &'static str)
        ensures
            r@ == "Tag was empty or contained no valid characters"@,
    {
        "Tag was empty or contained no valid characters"
    }
}

/// A tag: the non-empty normal form of some raw text.
#[derive(Debug, Hash)]
pub struct Tag {
    text: String,
}

impl View for Tag {
    type V = Seq<char>;

    closed spec fn view(&self) -> Seq<char> {
        self.text@
    }
}

impl Tag {
    #[verifier::type_invariant]
    spec fn non_empty(&self) -> bool {
        self.text@.len() > 0
    }

    /// The normal form of `input`: discarded characters removed, then
    /// lower-cased, then trimmed.
    pub fn normalize(input: &str) -> (r: String)
        ensures
            r@ == normalize_spec(input@),
    {
        let cs = chars_of(input);
        let mut kept = String::new();
        let mut i: usize = 0;
        while i < cs.len()
            invariant
                cs@ == input@,
                i <= cs@.len(),
                kept@ == cs@.take(i as int).filter(|c: char| !discarded(c)),
            decreases cs@.len() - i,
        {
            let c = cs[i];
            proof {
                reveal(Seq::filter);
                assert(cs@.take(i + 1).drop_last() == cs@.take(i as int));
            }
            if !(c == ',' || c == '"' || c == '\\' || is_white_space(c)) {
                kept.push(c);
            }
            i += 1;
        }
        assert(cs@.take(cs@.len() as int) == cs@);
        let lowered = kept.as_str().to_lowercase();
        lowered.as_str().trim().to_owned()
    }

    /// The tag whose text is the normal form of `tag`; `Empty` when that
    /// normal form is empty.
    pub fn new(tag: &str) -> (r: Result<Tag, TagError>)
        ensures
            r is Ok <==> normalize_spec(tag@).len() > 0,
            r matches Ok(t) ==> t@ == normalize_spec(tag@),
            r matches Err(e) ==> e == TagError::Empty,
    {
        let text = Self::normalize(tag);
        if text.as_str().is_empty() {
            Err(TagError::Empty)
        } else {
            Ok(Tag { text })
        }
    }

    /// The tags of a tag list: each word (a maximal run of characters other
    /// than commas and white space) gives the tag of its normal form; words
    /// whose normal form is empty give none.
    pub fn new_set(tags: &str) -> (r: TagSet)
        ensures
            r@ == tags_in(tags@),
    {
        let cs = chars_of(tags);
        let mut r = TagSet::new();
        let mut start: usize = 0;
        let mut i: usize = 0;
        assert(r@ =~= tags_before(cs@, 0));
        while i < cs.len()
            invariant
                cs@ == tags@,
                start <= i <= cs@.len(),
                start == 0 || separator(cs@[start - 1]),
                forall|k: int| start <= k < i ==> !separator(#[trigger] cs@[k]),
                r@ == tags_before(cs@, i as int),
            decreases cs@.len() - i,
        {
            let c = cs[i];
            if c == ',' || is_white_space(c) {
                proof {
                    lemma_word_ends(cs@, start as int, i as int);
                }
                if start < i {
                    let piece = string_of(&cs, start, i);
                    if let Ok(t) = Tag::new(piece.as_str()) {
                        r.insert(t);
                    }
                }
                start = i + 1;
            } else {
                proof {
                    lemma_no_word_ends(cs@, i as int);
                }
            }
            i += 1;
        }
        proof {
            lemma_word_ends(cs@, start as int, i as int);
        }
        if start < i {
            let piece = string_of(&cs, start, i);
            if let Ok(t) = Tag::new(piece.as_str()) {
                r.insert(t);
            }
        }
        r
    }

    /// The tag whose text is `text` as it stands, as when a tag is read back
    /// from a record; none when `text` is empty.
    pub fn from_stored(text: String) -> (r: Option<Tag>)
        ensures
            r is Some <==> text@.len() > 0,
            r matches Some(t) ==> t@ == text@,
    {
        if text.as_str().is_empty() {
            None
        } else {
            Some(Tag { text })
        }
    }

    /// The tag's text.
    pub fn as_str(&self) -> (r: &str)
        ensures
            r@ == self@,
    {
        self.text.as_str()
    }

    /// Whether the two tags have the same text.
    pub fn same(&self, other: &Tag) -> (r: bool)
        ensures
            r == (self@ == other@),
    {
        self.text == other.text
    }
}

impl Clone for Tag {
    fn clone(&self) -> (r: Self)
        ensures
            r@ == self@,
    {
        proof {
            use_type_invariant(self);
        }
        Tag { text: self.text.clone() }
    }
}

impl PartialEq for Tag {
    fn eq(&self, other: &Tag) -> (r: bool) {
        self.text == other.text
    }
}

impl vstd::std_specs::cmp::PartialEqSpecImpl for Tag {
    open spec fn obeys_eq_spec() -> bool {
        true
    }

    open spec fn eq_spec(&self, other: &Tag) -> bool {
        self@ == other@
    }
}

impl Eq for Tag {
}

} // verus!
