//! Sets of tags, kept as a vector without repeated texts.

use vstd::prelude::*;

use crate::tag::Tag;
use crate::text::{append, joined};

verus! {

broadcast use vstd::seq::Seq::lemma_push_to_set_commute;

/// A finite set of tags; no two members have the same text.
#[derive(Debug)]
pub struct TagSet {
    items: Vec<Tag>,
}

/// The texts of `items`, in order.
pub open spec fn texts_of(items: Seq<Tag>) -> Seq<Seq<char>> {
    items.map_values(|t: Tag| t@)
}

impl View for TagSet {
    type V = Set<Seq<char>>;

    closed spec fn view(&self) -> Set<Seq<char>> {
        texts_of(self.items@).to_set()
    }
}

impl TagSet {
    #[verifier::type_invariant]
    spec fn distinct(&self) -> bool {
        texts_of(self.items@).no_duplicates()
    }

    /// The member texts in the order in which they are kept.
    pub closed spec fn texts(&self) -> Seq<Seq<char>> {
        texts_of(self.items@)
    }

    /// The kept order lists each member once and nothing else.
    pub proof fn lemma_texts(&self)
        ensures
            self.texts().to_set() == self@,
            self@.finite(),
            forall|x: Seq<char>| self@.contains(x) <==> self.texts().contains(x),
    {
        vstd::seq_lib::seq_to_set_is_finite(self.texts());
    }

    /// The empty set.
    pub fn new() -> (r: TagSet)
        ensures
            r@ == Set::<Seq<char>>::empty(),
    {
        let r = TagSet { items: Vec::new() };
        assert(r@ =~= Set::<Seq<char>>::empty());
        r
    }

    /// The number of members.
    pub fn len(&self) -> (r: usize)
        ensures
            r == self@.len(),
    {
        proof {
            use_type_invariant(self);
            self.texts().unique_seq_to_set();
        }
        self.items.len()
    }

    /// Whether there is no member.
    pub fn is_empty(&self) -> (r: bool)
        ensures
            r == (self@.len() == 0),
    {
        self.len() == 0
    }

    /// Whether a member has the text of `tag`.
    pub fn contains(&self, tag: &Tag) -> (r: bool)
        ensures
            r == self@.contains(tag@),
    {
        let mut i: usize = 0;
        while i < self.items.len()
            invariant
                i <= self.items@.len(),
                forall|k: int| 0 <= k < i ==> self.items@[k]@ != tag@,
            decreases self.items@.len() - i,
        {
            if self.items[i].same(tag) {
                assert(self.texts()[i as int] == tag@);
                return true;
            }
            i += 1;
        }
        assert(!self.texts().contains(tag@));
        false
    }

    /// Adds `tag`; returns whether it was new.
    pub fn insert(&mut self, tag: Tag) -> (r: bool)
        ensures
            final(self)@ == old(self)@.insert(tag@),
            r == !old(self)@.contains(tag@),
    {
        proof {
            use_type_invariant(&*self);
        }
        if self.contains(&tag) {
            proof {
                assert(self@.insert(tag@) =~= self@);
            }
            false
        } else {
            let ghost before = self.items@;
            let mut items = self.to_vec();
            items.push(tag);
            proof {
                assert(texts_of(items@) == texts_of(before).push(tag@));
                assert(!texts_of(before).contains(tag@));
            }
            *self = TagSet { items };
            proof {
                assert(texts_of(self.items@) == texts_of(before).push(tag@));
                assert(!texts_of(before).contains(tag@));
                assert(texts_of(self.items@).to_set() =~= texts_of(before).to_set().insert(tag@));
            }
            true
        }
    }

    /// The members, in the kept order.
    pub fn to_vec(&self) -> (r: Vec<Tag>)
        ensures
            texts_of(r@) == self.texts(),
            texts_of(r@).no_duplicates(),
    {
        proof {
            use_type_invariant(self);
        }
        let mut r: Vec<Tag> = Vec::new();
        let mut i: usize = 0;
        while i < self.items.len()
            invariant
                i <= self.items@.len(),
                texts_of(r@) == self.texts().take(i as int),
            decreases self.items@.len() - i,
        {
            r.push(self.items[i].clone());
            assert(self.texts().take(i + 1) == self.texts().take(i as int).push(self.items@[i as int]@));
            i += 1;
        }
        assert(self.texts().take(self.items@.len() as int) == self.texts());
        r
    }

    /// The set of the texts of `tags`.
    pub fn from_tags(tags: Vec<Tag>) -> (r: TagSet)
        ensures
            r@ == texts_of(tags@).to_set(),
    {
        let mut r = TagSet::new();
        let mut i: usize = 0;
        while i < tags.len()
            invariant
                i <= tags@.len(),
                r@ == texts_of(tags@).take(i as int).to_set(),
            decreases tags@.len() - i,
        {
            r.insert(tags[i].clone());
            assert(texts_of(tags@).take(i + 1) == texts_of(tags@).take(i as int).push(tags@[i as int]@));
            assert(texts_of(tags@).take(i + 1).to_set() =~= texts_of(tags@).take(i as int).to_set().insert(tags@[i as int]@));
            i += 1;
        }
        assert(texts_of(tags@).take(tags@.len() as int) == texts_of(tags@));
        r
    }

    /// The members of `self` or of `other`.
    pub fn union(&self, other: &TagSet) -> (r: TagSet)
        ensures
            r@ == self@.union(other@),
    {
        let mut r = self.clone();
        let mut i: usize = 0;
        while i < other.items.len()
            invariant
                i <= other.items@.len(),
                r@ == self@.union(other.texts().take(i as int).to_set()),
            decreases other.items@.len() - i,
        {
            r.insert(other.items[i].clone());
            assert(other.texts().take(i + 1) == other.texts().take(i as int).push(other.items@[i as int]@));
            assert(other.texts().take(i + 1).to_set() =~= other.texts().take(i as int).to_set().insert(other.items@[i as int]@));
            assert(self@.union(other.texts().take(i + 1).to_set()) =~= self@.union(other.texts().take(i as int).to_set()).insert(other.items@[i as int]@));
            i += 1;
        }
        assert(other.texts().take(other.items@.len() as int) == other.texts());
        r
    }

    /// The members of `self` that are also members of `other`.
    pub fn intersection(&self, other: &TagSet) -> (r: TagSet)
        ensures
            r@ == self@.intersect(other@),
    {
        let mut r = TagSet::new();
        let mut i: usize = 0;
        while i < self.items.len()
            invariant
                i <= self.items@.len(),
                r@ == self.texts().take(i as int).to_set().intersect(other@),
            decreases self.items@.len() - i,
        {
            let x = &self.items[i];
            assert(self.texts().take(i + 1) == self.texts().take(i as int).push(x@));
            assert(self.texts().take(i + 1).to_set() =~= self.texts().take(i as int).to_set().insert(x@));
            if other.contains(x) {
                r.insert(x.clone());
                assert(r@ =~= self.texts().take(i + 1).to_set().intersect(other@));
            } else {
                assert(r@ =~= self.texts().take(i + 1).to_set().intersect(other@));
            }
            i += 1;
        }
        assert(self.texts().take(self.items@.len() as int) == self.texts());
        r
    }

    /// The member texts in the kept order, separated by `sep`.
    pub fn join(&self, sep: &str) -> (r: String)
        ensures
            r@ == joined(self.texts(), sep@),
    {
        let v = self.to_vec();
        join_tags(v.as_slice(), sep)
    }

    /// Whether the two sets have the same members.
    pub fn same_members(&self, other: &TagSet) -> (r: bool)
        ensures
            r == (self@ == other@),
    {
        let both = self.intersection(other);
        let n = both.len();
        proof {
            self.lemma_texts();
            other.lemma_texts();
            vstd::set_lib::lemma_len_intersect(self@, other@);
            vstd::set_lib::lemma_len_intersect(other@, self@);
        }
        if n == self.len() && n == other.len() {
            proof {
                vstd::set_lib::lemma_subset_equality(self@.intersect(other@), self@);
                vstd::set_lib::lemma_subset_equality(self@.intersect(other@), other@);
                assert(self@.intersect(other@) =~= self@);
                assert(self@.intersect(other@) =~= other@);
            }
            true
        } else {
            proof {
                if self@ == other@ {
                    assert(self@.intersect(other@) =~= self@);
                }
            }
            false
        }
    }
}

/// A collection of tags that can be shown as one line and gathered into a
/// set.
pub trait TagHolder: Sized {
    /// The texts of the tags held, in the order they are shown.
    spec fn tag_texts(&self) -> Seq<Seq<char>>;

    /// The texts separated by single spaces.
    fn join(&self) -> (r: String)
        ensures
            r@ == joined(self.tag_texts(), " "@),
    ;

    /// The set of the tags held.
    fn tags(self) -> (r: TagSet)
        ensures
            r@ == self.tag_texts().to_set(),
    ;
}

impl TagHolder for TagSet {
    open spec fn tag_texts(&self) -> Seq<Seq<char>> {
        self.texts()
    }

    fn join(&self) -> (r: String) {
        TagSet::join(self, " ")
    }

    fn tags(self) -> (r: TagSet) {
        proof {
            self.lemma_texts();
        }
        self
    }
}

impl TagHolder for Vec<Tag> {
    open spec fn tag_texts(&self) -> Seq<Seq<char>> {
        texts_of(self@)
    }

    fn join(&self) -> (r: String) {
        join_tags(self.as_slice(), " ")
    }

    fn tags(self) -> (r: TagSet) {
        TagSet::from_tags(self)
    }
}

/// The texts of `tags` separated by `sep`.
pub fn join_tags(tags: &[Tag], sep: &str) -> (r: String)
    ensures
        r@ == joined(texts_of(tags@), sep@),
{
    let mut r = String::new();
    let mut i: usize = 0;
    while i < tags.len()
        invariant
            i <= tags@.len(),
            r@ == joined(texts_of(tags@).take(i as int), sep@),
        decreases tags@.len() - i,
    {
        if i > 0 {
            append(&mut r, sep);
        }
        append(&mut r, tags[i].as_str());
        assert(texts_of(tags@).take(i + 1).drop_last() == texts_of(tags@).take(i as int));
        i += 1;
    }
    assert(texts_of(tags@).take(tags@.len() as int) == texts_of(tags@));
    r
}

impl Clone for TagSet {
    fn clone(&self) -> (r: Self)
        ensures
            r@ == self@,
            r.texts() == self.texts(),
    {
        proof {
            use_type_invariant(self);
        }
        let items = self.to_vec();
        TagSet { items }
    }
}

} // verus!
