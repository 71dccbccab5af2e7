//! A set of strings that can be walked through.

use vstd::hash_set::StringHashSet;
use vstd::prelude::*;

verus! {

/// The texts that a sequence of strings holds, in the same order.
pub open spec fn texts(items: Seq<String>) -> Seq<Seq<char>> {
    items.map_values(|s: String| s@)
}

/// A finite set of strings that can be walked through: it keeps each string
/// once.
pub struct StringSet {
    items: Vec<String>,
    index: StringHashSet,
}

impl View for StringSet {
    type V = Set<Seq<char>>;

    closed spec fn view(&self) -> Set<Seq<char>> {
        texts(self.items@).to_set()
    }
}

impl StringSet {
    /// The set is in order: it holds no string twice, and finds every string
    /// that it holds.
    pub closed spec fn wf(&self) -> bool {
        &&& texts(self.items@).no_duplicates()
        &&& self.index@ == texts(self.items@).to_set()
    }

    /// The empty set.
    pub fn new() -> (set: StringSet)
        ensures
            set.wf(),
            set@ == Set::<Seq<char>>::empty(),
    {
        let set = StringSet { items: Vec::new(), index: StringHashSet::new() };
        assert(texts(set.items@) =~= Seq::<Seq<char>>::empty());
        assert(set@ =~= Set::<Seq<char>>::empty());
        set
    }

    /// How many strings the set holds.
    pub fn len(&self) -> (n: usize)
        requires
            self.wf(),
        ensures
            n == self@.len(),
            self@.finite(),
    {
        proof {
            texts(self.items@).unique_seq_to_set();
            vstd::seq_lib::seq_to_set_is_finite(texts(self.items@));
        }
        self.items.len()
    }

    /// Whether `text` is in the set.
    pub fn contains(&self, text: &str) -> (found: bool)
        requires
            self.wf(),
        ensures
            found == self@.contains(text@),
    {
        self.index.contains(text)
    }

    /// Puts `text` into the set, and says whether it was new to it.
    pub fn insert(&mut self, text: String) -> (fresh: bool)
        requires
            old(self).wf(),
        ensures
            final(self).wf(),
            final(self)@ == old(self)@.insert(text@),
            fresh == !old(self)@.contains(text@),
    {
        if self.index.contains(text.as_str()) {
            assert(self@.insert(text@) =~= self@);
            return false;
        }
        let ghost before = texts(self.items@);
        proof {
            before.lemma_push_to_set_commute(text@);
        }
        self.index.insert(text.clone());
        self.items.push(text);
        assert(texts(self.items@) =~= before.push(text@));
        true
    }

    /// The strings of the set, each of them once.
    pub fn items(&self) -> (items: &Vec<String>)
        requires
            self.wf(),
        ensures
            texts(items@).no_duplicates(),
            texts(items@).to_set() == self@,
    {
        &self.items
    }
}

} // verus!
