//! Ranking bookmarks against a query by the Jaccard index of their terms.

use vstd::prelude::*;

use crate::bookmark::{terms_spec, Bookmark};
use crate::tag::Tag;
use crate::tagset::{join_tags, texts_of, TagSet};
use crate::text::{append, joined};

verus! {

/// A fraction `num / den`; scores and thresholds are kept exact.
#[derive(Debug, PartialEq, Eq, Structural, Clone, Copy)]
pub struct Ratio {
    pub num: usize,
    pub den: usize,
}

/// `a` is at least `b`, as fractions with positive denominators.
pub open spec fn ratio_ge(a: Ratio, b: Ratio) -> bool {
    a.num as int * b.den as int >= b.num as int * a.den as int
}

/// `ratio_ge` is transitive on fractions with positive denominators.
pub proof fn lemma_ratio_ge_transitive(a: Ratio, b: Ratio, c: Ratio)
    requires
        a.den > 0,
        b.den > 0,
        c.den > 0,
        ratio_ge(a, b),
        ratio_ge(b, c),
    ensures
        ratio_ge(a, c),
{
    let (an, ad, bn, bd, cn, cd) = (
        a.num as int,
        a.den as int,
        b.num as int,
        b.den as int,
        c.num as int,
        c.den as int,
    );
    assert(an * bd * cd >= bn * ad * cd) by (nonlinear_arith)
        requires
            an * bd >= bn * ad,
            cd > 0,
    ;
    assert(bn * cd * ad >= cn * bd * ad) by (nonlinear_arith)
        requires
            bn * cd >= cn * bd,
            ad > 0,
    ;
    assert(an * cd * bd >= cn * ad * bd) by (nonlinear_arith)
        requires
            an * bd * cd >= bn * ad * cd,
            bn * cd * ad >= cn * bd * ad,
    ;
    assert(an * cd >= cn * ad) by (nonlinear_arith)
        requires
            an * cd * bd >= cn * ad * bd,
            bd > 0,
    ;
}

impl Ratio {
    /// Whether `self` is at least `other`.
    pub fn at_least(&self, other: &Ratio) -> (r: bool)
        ensures
            r == ratio_ge(*self, *other),
    {
        let x = self.num as u128;
        let y = other.den as u128;
        let z = other.num as u128;
        let w = self.den as u128;
        assert(x * y <= u64::MAX as u128 * u64::MAX as u128) by (nonlinear_arith)
            requires
                x <= u64::MAX,
                y <= u64::MAX,
        ;
        assert(z * w <= u64::MAX as u128 * u64::MAX as u128) by (nonlinear_arith)
            requires
                z <= u64::MAX,
                w <= u64::MAX,
        ;
        x * y >= z * w
    }
}

/// The Jaccard score of a bookmark's terms against a query: zero for an
/// empty query, else the size of the intersection over the size of the
/// union.
pub open spec fn score_spec(terms: Set<Seq<char>>, query: Set<Seq<char>>) -> Ratio {
    if query.len() == 0 {
        Ratio { num: 0, den: 1 }
    } else {
        Ratio {
            num: terms.intersect(query).len() as usize,
            den: terms.union(query).len() as usize,
        }
    }
}

/// The score of the terms `terms` against `query`. It lies between zero and
/// one, and its denominator is never zero.
pub fn score(terms: &TagSet, query: &TagSet) -> (r: Ratio)
    ensures
        r == score_spec(terms@, query@),
        r.num <= r.den,
        r.den > 0,
{
    if query.is_empty() {
        return Ratio { num: 0, den: 1 };
    }
    let shared = terms.intersection(query).len();
    let all = terms.union(query).len();
    proof {
        terms.lemma_texts();
        query.lemma_texts();
        vstd::set_lib::lemma_len_union(terms@, query@);
        vstd::set_lib::lemma_len_subset(terms@.intersect(query@), terms@.union(query@));
        vstd::set_lib::lemma_len_subset(query@, terms@.union(query@));
    }
    Ratio { num: shared, den: all }
}

/// `order` lists, without repeats, the positions `k` of `scores` whose score
/// reaches `min`, from the highest score down; equal scores keep the order
/// of their positions.
pub open spec fn ranks(order: Seq<int>, scores: Seq<Ratio>, min: Ratio) -> bool {
    &&& order.no_duplicates()
    &&& forall|i: int| 0 <= i < order.len() ==> 0 <= #[trigger] order[i] < scores.len()
    &&& forall|k: int|
        0 <= k < scores.len() ==> (order.contains(k) <==> ratio_ge(#[trigger] scores[k], min))
    &&& forall|i: int, j: int|
        0 <= i < j < order.len() ==> ratio_ge(scores[order[i]], scores[order[j]])
    &&& forall|i: int, j: int|
        0 <= i < j < order.len() && ratio_ge(scores[order[j]], scores[order[i]]) ==> order[i]
            < order[j]
}

/// The positions of `v`, as integers.
pub open spec fn positions(v: Seq<usize>) -> Seq<int> {
    v.map_values(|k: usize| k as int)
}

/// The positions of the scores that reach `min`, best first, ties in the
/// order of their positions.
pub fn rank_positions(scores: &Vec<Ratio>, min: Ratio) -> (r: Vec<usize>)
    requires
        min.den > 0,
        forall|k: int| 0 <= k < scores@.len() ==> (#[trigger] scores@[k]).den > 0,
    ensures
        ranks(positions(r@), scores@, min),
{
    let mut out: Vec<usize> = Vec::new();
    let mut k: usize = 0;
    while k < scores.len()
        invariant
            k <= scores@.len(),
            min.den > 0,
            forall|m: int| 0 <= m < scores@.len() ==> (#[trigger] scores@[m]).den > 0,
            positions(out@).no_duplicates(),
            forall|i: int| 0 <= i < out@.len() ==> (#[trigger] out@[i]) < k,
            forall|m: int|
                0 <= m < k ==> (positions(out@).contains(m) <==> ratio_ge(
                    #[trigger] scores@[m],
                    min,
                )),
            forall|i: int, j: int|
                0 <= i < j < out@.len() ==> ratio_ge(
                    scores@[out@[i] as int],
                    scores@[out@[j] as int],
                ),
            forall|i: int, j: int|
                0 <= i < j < out@.len() && ratio_ge(
                    scores@[out@[j] as int],
                    scores@[out@[i] as int],
                ) ==> out@[i] < out@[j],
        decreases scores@.len() - k,
    {
        let s = scores[k];
        let ghost before = out@;
        if s.at_least(&min) {
            let mut pos: usize = 0;
            while pos < out.len()
                invariant
                    0 <= pos <= out@.len(),
                    out@ == before,
                    s == scores@[k as int],
                    k < scores@.len(),
                    forall|i: int| 0 <= i < out@.len() ==> (#[trigger] out@[i]) < scores@.len(),
                    forall|i: int| 0 <= i < pos ==> ratio_ge(scores@[out@[i] as int], s),
                ensures
                    0 <= pos <= out@.len(),
                    forall|i: int| 0 <= i < pos ==> ratio_ge(scores@[out@[i] as int], s),
                    pos == out@.len() || !ratio_ge(scores@[out@[pos as int] as int], s),
                decreases out@.len() - pos,
            {
                if !scores[out[pos]].at_least(&s) {
                    break;
                }
                pos += 1;
            }
            out.insert(pos, k);
            proof {
                lemma_insert_ranked(before, out@, pos as int, k, scores@);
            }
        } else {
            proof {
                assert(positions(out@) == positions(before));
                assert(!positions(out@).contains(k as int));
            }
        }
        k += 1;
    }
    out
}

/// Inserting position `k` where `rank_positions` does keeps its invariant.
proof fn lemma_insert_ranked(
    before: Seq<usize>,
    after: Seq<usize>,
    pos: int,
    k: usize,
    scores: Seq<Ratio>,
)
    requires
        0 <= pos <= before.len(),
        k < scores.len(),
        after == before.insert(pos, k),
        forall|m: int| 0 <= m < scores.len() ==> (#[trigger] scores[m]).den > 0,
        positions(before).no_duplicates(),
        forall|i: int| 0 <= i < before.len() ==> (#[trigger] before[i]) < k,
        forall|i: int, j: int|
            0 <= i < j < before.len() ==> ratio_ge(
                scores[before[i] as int],
                scores[before[j] as int],
            ),
        forall|i: int, j: int|
            0 <= i < j < before.len() && ratio_ge(
                scores[before[j] as int],
                scores[before[i] as int],
            ) ==> before[i] < before[j],
        forall|i: int| 0 <= i < pos ==> ratio_ge(scores[before[i] as int], scores[k as int]),
        pos == before.len() || !ratio_ge(scores[before[pos] as int], scores[k as int]),
    ensures
        positions(after).no_duplicates(),
        forall|i: int| 0 <= i < after.len() ==> (#[trigger] after[i]) < k + 1,
        forall|m: int| #[trigger]
            positions(after).contains(m) <==> positions(before).contains(m) || m == k,
        forall|i: int, j: int|
            0 <= i < j < after.len() ==> ratio_ge(scores[after[i] as int], scores[after[j] as int]),
        forall|i: int, j: int|
            0 <= i < j < after.len() && ratio_ge(scores[after[j] as int], scores[after[i] as int])
                ==> after[i] < after[j],
{
    assert(positions(after) =~= positions(before).insert(pos, k as int));
    assert forall|m: int| #[trigger]
        positions(after).contains(m) <==> positions(before).contains(m) || m == k by {
        let pa = positions(after);
        let pb = positions(before);
        if pa.contains(m) {
            let i = choose|i: int| 0 <= i < pa.len() && pa[i] == m;
            if i < pos {
                assert(pb[i] == m);
            } else if i > pos {
                assert(pb[i - 1] == m);
            }
        }
        if pb.contains(m) {
            let i = choose|i: int| 0 <= i < pb.len() && pb[i] == m;
            if i < pos {
                assert(pa[i] == m);
            } else {
                assert(pa[i + 1] == m);
            }
        }
        if m == k {
            assert(pa[pos] == m);
        }
    }
    assert forall|i: int| 0 <= i < after.len() implies (#[trigger] after[i]) < k + 1 by {
        if i < pos {
            assert(after[i] == before[i]);
        } else if i > pos {
            assert(after[i] == before[i - 1]);
        }
    }
    assert forall|i: int, j: int|
        0 <= i < j < positions(after).len() implies positions(after)[i] != positions(after)[j] by {
        assert(positions(after)[i] == after[i] as int);
        assert(positions(after)[j] == after[j] as int);
        if j < pos {
            assert(positions(before)[i] == before[i] as int);
            assert(positions(before)[j] == before[j] as int);
        } else if j == pos {
            assert(after[i] == before[i]);
        } else if i < pos {
            assert(positions(before)[i] == before[i] as int);
            assert(positions(before)[j - 1] == before[j - 1] as int);
        } else if i == pos {
            assert(after[j] == before[j - 1]);
        } else {
            assert(positions(before)[i - 1] == before[i - 1] as int);
            assert(positions(before)[j - 1] == before[j - 1] as int);
        }
    }
    let sk = scores[k as int];
    if pos < before.len() {
        let sp = scores[before[pos] as int];
        assert(sp.den > 0 && sk.den > 0);
        assert(ratio_ge(sk, sp)) by (nonlinear_arith)
            requires
                !ratio_ge(sp, sk),
        ;
    }
    assert forall|i: int, j: int| 0 <= i < j < after.len() implies ratio_ge(
        scores[after[i] as int],
        scores[after[j] as int],
    ) && (ratio_ge(scores[after[j] as int], scores[after[i] as int]) ==> after[i] < after[j]) by {
        if j < pos {
            assert(after[i] == before[i] && after[j] == before[j]);
        } else if j == pos {
            assert(after[i] == before[i] && after[j] == k);
        } else if i < pos {
            assert(after[i] == before[i] && after[j] == before[j - 1]);
        } else if i == pos {
            let sj = scores[before[j - 1] as int];
            let sp = scores[before[pos] as int];
            assert(after[i] == k && after[j] == before[j - 1]);
            assert(sj.den > 0 && sp.den > 0);
            if j - 1 > pos {
                assert(ratio_ge(sp, sj));
                lemma_ratio_ge_transitive(sk, sp, sj);
            }
            if ratio_ge(sj, sk) {
                lemma_ratio_ge_transitive(sp, sj, sk);
            }
        } else {
            assert(after[i] == before[i - 1] && after[j] == before[j - 1]);
        }
    }
}

/// The threshold a search applies: zero for an empty query, so that an
/// empty query lists every bookmark.
pub open spec fn effective_min(query: Set<Seq<char>>, min: Ratio) -> Ratio {
    if query.len() == 0 {
        Ratio { num: 0, den: 1 }
    } else {
        min
    }
}

/// The score of each bookmark against `query`.
pub open spec fn scores_of(bs: Seq<Bookmark>, query: Set<Seq<char>>) -> Seq<Ratio> {
    bs.map_values(|b: Bookmark| score_spec(terms_spec(b@), query))
}

/// `r` holds, with their scores, the bookmarks of `bs` whose score against
/// `query` reaches the threshold, best first, ties in the order of `bs`.
pub open spec fn ranked_as(
    r: Seq<(Ratio, Bookmark)>,
    bs: Seq<Bookmark>,
    query: Set<Seq<char>>,
    min: Ratio,
) -> bool {
    exists|order: Seq<int>|
        #[trigger] ranks(order, scores_of(bs, query), effective_min(query, min)) && r.len()
            == order.len()
            && forall|i: int|
            0 <= i < r.len() ==> (#[trigger] r[i]).0 == scores_of(bs, query)[order[i]]
                && r[i].1@ == bs[order[i]]@
}

/// The bookmarks whose score against `keywords` reaches `min_score`, with
/// their scores, best first; bookmarks of equal score keep their order. An
/// empty query lists every bookmark.
pub fn filter(bookmarks: Vec<Bookmark>, keywords: &TagSet, min_score: Ratio) -> (r: Vec<
    (Ratio, Bookmark),
>)
    requires
        min_score.den > 0,
    ensures
        ranked_as(r@, bookmarks@, keywords@, min_score),
{
    let min = if keywords.is_empty() {
        Ratio { num: 0, den: 1 }
    } else {
        min_score
    };
    let ghost expected = scores_of(bookmarks@, keywords@);
    let mut scores: Vec<Ratio> = Vec::new();
    let mut k: usize = 0;
    while k < bookmarks.len()
        invariant
            k <= bookmarks@.len(),
            expected == scores_of(bookmarks@, keywords@),
            scores@ == expected.take(k as int),
            forall|m: int| 0 <= m < scores@.len() ==> (#[trigger] scores@[m]).den > 0,
        decreases bookmarks@.len() - k,
    {
        let s = score(&bookmarks[k].terms(), keywords);
        scores.push(s);
        assert(scores@ =~= expected.take(k + 1));
        k += 1;
    }
    assert(scores@ =~= expected);
    let order = rank_positions(&scores, min);
    let mut out: Vec<(Ratio, Bookmark)> = Vec::new();
    let mut i: usize = 0;
    while i < order.len()
        invariant
            i <= order@.len(),
            scores@ == expected,
            expected == scores_of(bookmarks@, keywords@),
            ranks(positions(order@), scores@, min),
            out@.len() == i,
            forall|j: int|
                0 <= j < i ==> (#[trigger] out@[j]).0 == expected[order@[j] as int]
                    && out@[j].1@ == bookmarks@[order@[j] as int]@,
        decreases order@.len() - i,
    {
        let k = order[i];
        assert(positions(order@)[i as int] == k as int);
        out.push((scores[k], bookmarks[k].clone()));
        i += 1;
    }
    let ghost witness = positions(order@);
    assert(ranks(witness, scores_of(bookmarks@, keywords@), effective_min(keywords@, min_score)));
    assert(forall|j: int|
        0 <= j < out@.len() ==> (#[trigger] out@[j]).0 == scores_of(bookmarks@, keywords@)[witness[j]]
            && out@[j].1@ == bookmarks@[witness[j]]@);
    out
}

/// The web search for the given terms: a search-engine URL whose query is
/// the terms separated by `+`.
pub fn search_query(terms: &[Tag]) -> (r: String)
    ensures
        r@ == "https://duckduckgo.com/?q="@ + joined(texts_of(terms@), "+"@),
{
    let mut r = String::new();
    append(&mut r, "https://duckduckgo.com/?q=");
    let q = join_tags(terms, "+");
    append(&mut r, q.as_str());
    r
}

/// What to open for a search: the URL of the best match, or a web search
/// for the keywords when nothing matched.
pub fn open_target(ranked: &Vec<(Ratio, Bookmark)>, keywords: &[Tag]) -> (r: String)
    ensures
        ranked@.len() > 0 ==> r@ == ranked@[0].1@.url,
        ranked@.len() == 0 ==> r@ == "https://duckduckgo.com/?q="@ + joined(
            texts_of(keywords@),
            "+"@,
        ),
{
    if ranked.len() > 0 {
        ranked[0].1.url()
    } else {
        search_query(keywords)
    }
}

} // verus!
