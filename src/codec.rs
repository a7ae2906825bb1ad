//! Record files: the fields of a bookmark as they are written to disk, and
//! the errors met when reading one back.

use vstd::prelude::*;

use crate::address::{canonical_url, opt_view, parsed_url, serialization_of};
use crate::bookmark::{Bookmark, BookmarkView};
use crate::tag::Tag;
use crate::tagset::TagSet;
use crate::text::{
    append, lemma_text_le_antisymmetric, lemma_text_le_connected, lemma_text_le_transitive,
    text_eq,
    text_le, text_le_exec,
};

verus! {

broadcast use vstd::seq::Seq::lemma_push_to_set_commute;

/// The encodings a record file may be named with.
#[derive(Debug, PartialEq, Eq, Structural, Clone, Copy)]
pub enum Extension {
    /// The legacy encoding, read only by migration.
    Json,
    /// The current encoding.
    Yaml,
}

/// The file-name extension of an encoding.
pub open spec fn extension_text(e: Extension) -> Seq<char> {
    match e {
        Extension::Json => "json"@,
        Extension::Yaml => "yaml"@,
    }
}

impl Extension {
    /// The file-name extension, without the dot.
    pub fn as_str(&self) -> (r: &'static str)
        ensures
            r@ == extension_text(*self),
    {
        match self {
            Extension::Json => "json",
            Extension::Yaml => "yaml",
        }
    }

    /// The encoding a file-name extension names: `UnknownExtension` when
    /// there is none, `UnsupportedExtension` when it names none of them.
    pub fn from_name(ext: Option<&str>) -> (r: Result<Extension, FileError>)
        ensures
            match ext {
                None => r matches Err(FileError::UnknownExtension),
                Some(x) => if x@ == "json"@ {
                    r == Ok::<Extension, FileError>(Extension::Json)
                } else if x@ == "yaml"@ {
                    r == Ok::<Extension, FileError>(Extension::Yaml)
                } else {
                    r matches Err(FileError::UnsupportedExtension(e)) && e@ == x@
                },
            },
    {
        match ext {
            None => Err(FileError::UnknownExtension),
            Some(x) => {
                if text_eq(x, "json") {
                    Ok(Extension::Json)
                } else if text_eq(x, "yaml") {
                    Ok(Extension::Yaml)
                } else {
                    Err(FileError::UnsupportedExtension(x.to_owned()))
                }
            },
        }
    }
}

/// What goes wrong when a record file is looked up, read or written.
#[derive(Debug, Clone)]
pub enum FileError {
    /// There is no file at the path.
    NotFound,
    /// The path names something other than a file.
    NotFile,
    /// The file name has no extension.
    UnknownExtension,
    /// The file name's extension is not that of the current encoding.
    UnsupportedExtension(String),
    /// The record is malformed: it does not parse, or lacks a field.
    Deserialize,
    /// The record's URL is not an absolute URL.
    InvalidUrl,
    /// The record could not be encoded.
    Serialize,
    /// The file system failed, with its message.
    IO(String),
}

/// The advice given for a legacy JSON record.
pub open spec fn json_advice() -> Seq<char> {
    "\n    JSON is no longer supported.\n    Run 'goto migrate' to migrate all bookmarks files from JSON to YAML.\n    See https://github.com/mantono/goto#deprecated-json-support for more information.\n"@
}

impl FileError {
    /// A sentence that describes the error.
    pub fn message(&self) -> (r: String)
        ensures
            match self {
                FileError::NotFound => r@ == "File not found"@,
                FileError::NotFile => r@ == "Not a file"@,
                FileError::UnknownExtension => r@ == "Unknown extension"@,
                FileError::UnsupportedExtension(e) => if e@ == "json"@ {
                    r@ == json_advice()
                } else {
                    r@ == "Unsupported extension '"@ + e@ + "'"@
                },
                FileError::Deserialize => r@ == "Unable to deserialize"@,
                FileError::InvalidUrl => r@ == "Invalid URL"@,
                FileError::Serialize => r@ == "Unable to serialize"@,
                FileError::IO(e) => r@ == "IO error: "@ + e@,
            },
    {
        let mut r = String::new();
        match self {
            FileError::NotFound => append(&mut r, "File not found"),
            FileError::NotFile => append(&mut r, "Not a file"),
            FileError::UnknownExtension => append(&mut r, "Unknown extension"),
            FileError::UnsupportedExtension(e) => {
                if text_eq(e.as_str(), "json") {
                    append(&mut r, "\n    JSON is no longer supported.\n    Run 'goto migrate' to migrate all bookmarks files from JSON to YAML.\n    See https://github.com/mantono/goto#deprecated-json-support for more information.\n");
                } else {
                    append(&mut r, "Unsupported extension '");
                    append(&mut r, e.as_str());
                    append(&mut r, "'");
                }
            },
            FileError::Deserialize => append(&mut r, "Unable to deserialize"),
            FileError::InvalidUrl => append(&mut r, "Invalid URL"),
            FileError::Serialize => append(&mut r, "Unable to serialize"),
            FileError::IO(e) => {
                append(&mut r, "IO error: ");
                append(&mut r, e.as_str());
            },
        }
        r
    }
}

/// The fields of a record file, as its encoding reads and writes them: the
/// URL (required), the title (optional) and the tags (required, may be
/// empty). A field the file lacks is `None`.
#[derive(Debug, Clone)]
pub struct Record {
    pub url: Option<String>,
    pub title: Option<String>,
    pub tags: Option<Vec<String>>,
}

/// The texts of a sequence of strings.
pub open spec fn strings_view(v: Seq<String>) -> Seq<Seq<char>> {
    v.map_values(|s: String| s@)
}

/// What a record holds.
pub struct RecordView {
    pub url: Option<Seq<char>>,
    pub title: Option<Seq<char>>,
    pub tags: Option<Seq<Seq<char>>>,
}

impl View for Record {
    type V = RecordView;

    open spec fn view(&self) -> RecordView {
        RecordView {
            url: opt_view(self.url),
            title: opt_view(self.title),
            tags: match self.tags {
                Some(v) => Some(strings_view(v@)),
                None => None,
            },
        }
    }
}

/// Each text comes strictly before the next in the order of `String`.
pub open spec fn strictly_sorted(ts: Seq<Seq<char>>) -> bool {
    forall|i: int, j: int| 0 <= i < j < ts.len() ==> text_le(ts[i], ts[j]) && ts[i] != ts[j]
}

/// `r` is the record of `b`: its URL, its title, and its tags in the order
/// of `String`.
pub open spec fn encodes(b: BookmarkView, r: RecordView) -> bool {
    &&& r.url == Some(b.url)
    &&& r.title == b.title
    &&& r.tags matches Some(ts) && strictly_sorted(ts) && ts.to_set() == b.tags
}

/// The bookmark a record holds: none when the URL or the tags are missing,
/// or the URL is not an absolute URL. Empty tags are left out.
pub open spec fn decode_spec(r: RecordView) -> Option<BookmarkView> {
    match (r.url, r.tags) {
        (Some(u), Some(ts)) => if parsed_url(u) is Some {
            Some(
                BookmarkView {
                    url: serialization_of(u),
                    title: r.title,
                    tags: ts.to_set().filter(|t: Seq<char>| t.len() > 0),
                },
            )
        } else {
            None
        },
        _ => None,
    }
}

/// The texts of `tags` in the order of `String`.
fn sorted_texts(tags: &TagSet) -> (r: Vec<String>)
    ensures
        strictly_sorted(strings_view(r@)),
        strings_view(r@).to_set() == tags@,
{
    let items = tags.to_vec();
    let ghost texts = crate::tagset::texts_of(items@);
    let mut out: Vec<String> = Vec::new();
    let mut i: usize = 0;
    proof {
        tags.lemma_texts();
        assert(strings_view(out@).to_set() =~= texts.take(0).to_set());
    }
    while i < items.len()
        invariant
            texts == crate::tagset::texts_of(items@),
            texts.no_duplicates(),
            texts.to_set() == tags@,
            i <= items@.len(),
            strictly_sorted(strings_view(out@)),
            strings_view(out@).to_set() == texts.take(i as int).to_set(),
        decreases items@.len() - i,
    {
        let t = items[i].as_str();
        let ghost tv = t@;
        let ghost before = strings_view(out@);
        assert(!before.contains(tv)) by {
            if before.contains(tv) {
                assert(before.to_set().contains(tv));
                let k = choose|k: int| 0 <= k < i && texts[k] == tv;
                assert(texts[k] == texts[i as int]);
            }
        }
        let mut j: usize = 0;
        while j < out.len()
            invariant
                0 <= j <= out@.len(),
                before == strings_view(out@),
                tv == t@,
                forall|k: int| 0 <= k < j ==> text_le(before[k], tv),
            ensures
                0 <= j <= out@.len(),
                forall|k: int| 0 <= k < j ==> text_le(before[k], tv),
                j == out@.len() || !text_le(before[j as int], tv),
            decreases out@.len() - j,
        {
            assert(before[j as int] == out@[j as int]@);
            if !text_le_exec(out[j].as_str(), t) {
                break;
            }
            j += 1;
        }
        out.insert(j, t.to_owned());
        proof {
            let after = strings_view(out@);
            assert(after =~= before.insert(j as int, tv));
            if j < before.len() {
                lemma_text_le_connected(before[j as int], tv);
            }
            assert forall|p: int, q: int| 0 <= p < q < after.len() implies text_le(after[p], after[q])
                && after[p] != after[q] by {
                if q < j {
                    assert(after[p] == before[p] && after[q] == before[q]);
                    assert(text_le(before[p], before[q]) && before[p] != before[q]);
                } else if q == j {
                    assert(after[p] == before[p] && after[q] == tv);
                    assert(before.contains(before[p]));
                    assert(text_le(before[p], tv));
                } else if p < j {
                    assert(after[p] == before[p] && after[q] == before[q - 1]);
                    assert(text_le(before[p], before[q - 1]) && before[p] != before[q - 1]);
                } else if p == j {
                    assert(after[p] == tv && after[q] == before[q - 1]);
                    assert(before.contains(before[q - 1]));
                    if q - 1 > j {
                        assert(text_le(before[j as int], before[q - 1]));
                        lemma_text_le_transitive(tv, before[j as int], before[q - 1]);
                    }
                    assert(text_le(tv, before[q - 1]));
                } else {
                    assert(after[p] == before[p - 1] && after[q] == before[q - 1]);
                    assert(text_le(before[p - 1], before[q - 1]) && before[p - 1] != before[q - 1]);
                }
            }
            assert(texts.take(i + 1) == texts.take(i as int).push(tv));
            assert forall|x: Seq<char>| #[trigger] after.contains(x) <==> before.contains(x) || x
                == tv by {
                if after.contains(x) {
                    let k = choose|k: int| 0 <= k < after.len() && after[k] == x;
                    if k < j {
                        assert(before[k] == x);
                    } else if k > j {
                        assert(before[k - 1] == x);
                    }
                }
                if before.contains(x) {
                    let k = choose|k: int| 0 <= k < before.len() && before[k] == x;
                    if k < j {
                        assert(after[k] == x);
                    } else {
                        assert(after[k + 1] == x);
                    }
                }
                if x == tv {
                    assert(after[j as int] == tv);
                }
            }
            assert(after.to_set() =~= before.to_set().insert(tv));
        }
        i += 1;
    }
    proof {
        assert(texts.take(items@.len() as int) == texts);
    }
    out
}

/// The record of a bookmark; its tags are sorted so that equal bookmarks
/// are written identically.
pub fn encode(b: &Bookmark) -> (r: Record)
    ensures
        encodes(b@, r@),
{
    let tags = sorted_texts(b.tags());
    Record { url: Some(b.url()), title: b.title(), tags: Some(tags) }
}

/// The bookmark a record holds. A missing URL or missing tags make it
/// malformed (`Deserialize`); a URL that does not parse is `InvalidUrl`.
pub fn decode(rec: &Record) -> (r: Result<Bookmark, FileError>)
    ensures
        (rec@.url is None || rec@.tags is None) <==> r matches Err(FileError::Deserialize),
        (rec@.url matches Some(u) && rec@.tags is Some && parsed_url(u) is None) <==> r matches Err(
            FileError::InvalidUrl,
        ),
        r is Ok <==> decode_spec(rec@) is Some,
        r matches Ok(b) ==> decode_spec(rec@) == Some(b@),
{
    let url = match &rec.url {
        Some(u) => u,
        None => return Err(FileError::Deserialize),
    };
    let texts = match &rec.tags {
        Some(v) => v,
        None => return Err(FileError::Deserialize),
    };
    let mut tags = TagSet::new();
    let mut i: usize = 0;
    let ghost ts = strings_view(texts@);
    while i < texts.len()
        invariant
            ts == strings_view(texts@),
            i <= texts@.len(),
            tags@ == ts.take(i as int).to_set().filter(|t: Seq<char>| t.len() > 0),
        decreases texts@.len() - i,
    {
        assert(ts.take(i + 1) == ts.take(i as int).push(texts@[i as int]@));
        if let Some(t) = Tag::from_stored(texts[i].clone()) {
            tags.insert(t);
        }
        assert(tags@ =~= ts.take(i + 1).to_set().filter(|t: Seq<char>| t.len() > 0));
        i += 1;
    }
    assert(ts.take(texts@.len() as int) == ts);
    match Bookmark::new(url.as_str(), rec.title.clone(), tags) {
        Ok(b) => Ok(b),
        Err(_) => Err(FileError::InvalidUrl),
    }
}

/// Reading back the record of a bookmark gives the bookmark again, when its
/// URL is canonical (it parses back to itself) and its tags are not empty,
/// as every tag is.
pub proof fn lemma_round_trip(b: BookmarkView, r: RecordView)
    requires
        canonical_url(b.url),
        forall|t: Seq<char>| b.tags.contains(t) ==> t.len() > 0,
        encodes(b, r),
    ensures
        decode_spec(r) == Some(b),
{
    let ts = r.tags->0;
    assert(ts.to_set().filter(|t: Seq<char>| t.len() > 0) =~= b.tags);
}

proof fn lemma_sorted_at(ts: Seq<Seq<char>>, i: int, j: int)
    requires
        strictly_sorted(ts),
        0 <= i < j < ts.len(),
    ensures
        text_le(ts[i], ts[j]),
        ts[i] != ts[j],
{
    assert(text_le(ts[i], ts[j]) && ts[i] != ts[j]);
}

/// Two strictly sorted sequences of the same texts are equal.
proof fn lemma_sorted_texts_unique(x: Seq<Seq<char>>, y: Seq<Seq<char>>)
    requires
        strictly_sorted(x),
        strictly_sorted(y),
        x.to_set() == y.to_set(),
    ensures
        x == y,
    decreases x.len(),
{
    if x.len() == 0 {
        if y.len() > 0 {
            assert(y.to_set().contains(y[0]));
        }
        assert(x =~= y);
    } else {
        assert(x.to_set().contains(x[0]));
        assert(y.len() > 0);
        assert(y.to_set().contains(y[0]));
        let k = choose|k: int| 0 <= k < y.len() && y[k] == x[0];
        let m = choose|m: int| 0 <= m < x.len() && x[m] == y[0];
        if m > 0 && k > 0 {
            assert(text_le(x[0], x[m]));
            assert(text_le(y[0], y[k]));
            lemma_text_le_antisymmetric(x[0], y[0]);
        }
        assert(x[0] == y[0]);
        let xs = x.drop_first();
        let ys = y.drop_first();
        assert forall|t: Seq<char>| xs.to_set().contains(t) <==> ys.to_set().contains(t) by {
            if xs.contains(t) {
                let i = choose|i: int| 0 <= i < xs.len() && xs[i] == t;
                assert(x[i + 1] == t);
                assert(0 < i + 1 < x.len());
                lemma_sorted_at(x, 0, i + 1);
                assert(x.to_set().contains(t));
                let j = choose|j: int| 0 <= j < y.len() && y[j] == t;
                assert(j != 0);
                assert(ys[j - 1] == t);
            }
            if ys.contains(t) {
                let i = choose|i: int| 0 <= i < ys.len() && ys[i] == t;
                assert(y[i + 1] == t);
                assert(0 < i + 1 < y.len());
                lemma_sorted_at(y, 0, i + 1);
                assert(y.to_set().contains(t));
                let j = choose|j: int| 0 <= j < x.len() && x[j] == t;
                assert(j != 0);
                assert(xs[j - 1] == t);
            }
        }
        assert(xs.to_set() =~= ys.to_set());
        lemma_sorted_texts_unique(xs, ys);
        assert(x =~= seq![x[0]] + xs);
        assert(y =~= seq![y[0]] + ys);
    }
}

/// A bookmark has one encoding: records that both encode it are equal, so
/// the same bookmark is always written identically.
pub proof fn lemma_encoding_unique(b: BookmarkView, r1: RecordView, r2: RecordView)
    requires
        encodes(b, r1),
        encodes(b, r2),
    ensures
        r1 == r2,
{
    lemma_sorted_texts_unique(r1.tags->0, r2.tags->0);
}

/// Whether a path may be read as a record file: it must exist, be a file,
/// and carry the extension of the current encoding.
pub fn check_record_path(exists: bool, is_file: bool, ext: Option<&str>) -> (r: Result<
    (),
    FileError,
>)
    ensures
        !exists ==> r matches Err(FileError::NotFound),
        exists && !is_file ==> r matches Err(FileError::NotFile),
        exists && is_file ==> match ext {
            None => r matches Err(FileError::UnknownExtension),
            Some(x) => if x@ == "yaml"@ {
                r is Ok
            } else {
                r matches Err(FileError::UnsupportedExtension(e)) && e@ == x@
            },
        },
{
    if !exists {
        return Err(FileError::NotFound);
    }
    if !is_file {
        return Err(FileError::NotFile);
    }
    match ext {
        None => Err(FileError::UnknownExtension),
        Some(x) => {
            if text_eq(x, "yaml") {
                Ok(())
            } else {
                Err(FileError::UnsupportedExtension(x.to_owned()))
            }
        },
    }
}

} // verus!
