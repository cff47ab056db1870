//! A small set of strings compared by their characters.
use vstd::prelude::*;

verus! {

/// Characters of the strings in `v`, as a set.
pub open spec fn string_set(v: Seq<String>) -> Set<Seq<char>> {
    Set::new(|x: Seq<char>| exists|i: int| 0 <= i < v.len() && #[trigger] v[i]@ == x)
}

/// Pushing a string adds its characters to the set.
pub proof fn lemma_string_set_push(v: Seq<String>, s: String)
    ensures
        string_set(v.push(s)) == string_set(v).insert(s@),
{
    let a = string_set(v.push(s));
    let b = string_set(v).insert(s@);
    assert forall|x: Seq<char>| a.contains(x) implies b.contains(x) by {
        let i = choose|i: int| 0 <= i < v.push(s).len() && #[trigger] v.push(s)[i]@ == x;
        if i < v.len() {
            assert(v[i]@ == x);
        }
    }
    assert forall|x: Seq<char>| b.contains(x) implies a.contains(x) by {
        if x == s@ {
            assert(v.push(s)[v.len() as int]@ == x);
        } else {
            let i = choose|i: int| 0 <= i < v.len() && #[trigger] v[i]@ == x;
            assert(v.push(s)[i]@ == x);
        }
    }
    assert(a =~= b);
}

/// Set of strings, as used for duplicate and membership checks.
pub struct StrSet {
    items: Vec<String>,
}

impl View for StrSet {
    type V = Set<Seq<char>>;

    closed spec fn view(&self) -> Set<Seq<char>> {
        string_set(self.items@)
    }
}

impl StrSet {
    /// An empty set.
    pub fn new() -> (r: StrSet)
        ensures
            r@ == Set::<Seq<char>>::empty(),
    {
        let r = StrSet { items: Vec::new() };
        assert(r@ =~= Set::<Seq<char>>::empty());
        r
    }

    /// Whether `s` is in the set.
    pub fn contains(&self, s: &String) -> (b: bool)
        ensures
            b == self@.contains(s@),
    {
        let mut i: usize = 0;
        while i < self.items.len()
            invariant
                i <= self.items@.len(),
                forall|k: int| 0 <= k < i ==> self.items@[k]@ != s@,
            decreases self.items.len() - i,
        {
            if self.items[i] == *s {
                assert(self.items@[i as int]@ == s@);
                return true;
            }
            i += 1;
        }
        false
    }

    /// Inserts `s`; returns whether it was absent (`HashSet::insert`).
    pub fn insert(&mut self, s: &String) -> (fresh: bool)
        ensures
            fresh == !old(self)@.contains(s@),
            final(self)@ == old(self)@.insert(s@),
    {
        if self.contains(s) {
            assert(self@.insert(s@) =~= self@);
            false
        } else {
            let c = s.clone();
            proof {
                lemma_string_set_push(self.items@, c);
            }
            self.items.push(c);
            true
        }
    }
}

} // verus!
