//! The string table that the database uses to store repeated strings once.
//!
//! A table is an ordered list of distinct strings. Records elsewhere in the
//! stream name a string by its position in the table.

use vstd::hash_map::StringHashMap;
use vstd::prelude::*;
use vstd::seq_lib::*;

verus! {

/// The table that results from adding `s` to the table `t`: a string already
/// present leaves the table as it is, a new one goes to the end.
pub open spec fn table_add(t: Seq<Seq<char>>, s: Seq<char>) -> Seq<Seq<char>> {
    if t.contains(s) {
        t
    } else {
        t.push(s)
    }
}

/// The index that `table_add(t, s)` gives to `s`.
pub open spec fn table_slot(t: Seq<Seq<char>>, s: Seq<char>) -> int {
    if t.contains(s) {
        t.index_of(s)
    } else {
        t.len() as int
    }
}

/// The table that results from adding the strings of `items`, in order, to an
/// empty table.
pub open spec fn table_of(items: Seq<Seq<char>>) -> Seq<Seq<char>>
    decreases items.len(),
{
    if items.len() == 0 {
        Seq::empty()
    } else {
        table_add(table_of(items.drop_last()), items.last())
    }
}

/// A table of strings with a reverse index from each string to its position.
pub struct StringHash {
    index_to_string: Vec<String>,
    string_to_index: StringHashMap<usize>,
}

impl View for StringHash {
    type V = Seq<Seq<char>>;

    /// The strings of the table, in the order of their first insertion.
    closed spec fn view(&self) -> Seq<Seq<char>> {
        self.index_to_string.deep_view()
    }
}

impl DeepView for StringHash {
    type V = Seq<Seq<char>>;

    open spec fn deep_view(&self) -> Seq<Seq<char>> {
        self@
    }
}

impl StringHash {
    /// The reverse index and the list agree: the index maps exactly the
    /// strings of the list, each to its position.
    #[verifier::type_invariant]
    spec fn consistent(&self) -> bool {
        &&& forall|i: int|
            0 <= i < self.index_to_string@.len() ==> {
                &&& self.string_to_index@.contains_key(#[trigger] self.index_to_string@[i]@)
                &&& self.string_to_index@[self.index_to_string@[i]@] == i
            }
        &&& forall|k: Seq<char>| #[trigger]
            self.string_to_index@.contains_key(k) ==> {
                &&& self.string_to_index@[k] < self.index_to_string@.len()
                &&& self.index_to_string@[self.string_to_index@[k] as int]@ == k
            }
    }

    /// No string occurs twice in a table.
    proof fn lemma_distinct(&self)
        requires
            self.consistent(),
        ensures
            self@.no_duplicates(),
    {
        assert forall|i: int, j: int|
            0 <= i < self@.len() && 0 <= j < self@.len() && i != j implies self@[i] != self@[j] by {
            assert(self.string_to_index@[self.index_to_string@[i]@] == i);
            assert(self.string_to_index@[self.index_to_string@[j]@] == j);
        }
    }

    /// An empty table.
    pub fn new() -> (r: Self)
        ensures
            r@ == Seq::<Seq<char>>::empty(),
    {
        let r = StringHash { index_to_string: Vec::new(), string_to_index: StringHashMap::new() };
        assert(r@ =~= Seq::<Seq<char>>::empty());
        r
    }

    /// The position of `s` in the table, if it is there.
    pub fn get_index(&self, s: &str) -> (r: Option<usize>)
        ensures
            self@.no_duplicates(),
            match r {
                Some(i) => self@.contains(s@) && i == self@.index_of(s@),
                None => !self@.contains(s@),
            },
    {
        proof {
            use_type_invariant(self);
            self.lemma_distinct();
        }
        match self.string_to_index.get(s) {
            Some(i) => {
                proof {
                    assert(self@[*i as int] == s@);
                    self@.index_of_first_ensures(s@);
                }
                Some(*i)
            },
            None => {
                assert forall|i: int| 0 <= i < self@.len() implies self@[i] != s@ by {
                    assert(self.string_to_index@.contains_key(self.index_to_string@[i]@));
                }
                None
            },
        }
    }

    /// The string at position `index`, or nothing where the table is shorter.
    pub fn get_string(&self, index: usize) -> (r: Option<&str>)
        ensures
            match r {
                Some(s) => index < self@.len() && s@ == self@[index as int],
                None => index >= self@.len(),
            },
    {
        if index < self.index_to_string.len() {
            Some(self.index_to_string[index].as_str())
        } else {
            None
        }
    }

    /// Adds `s` unless the table has it, and returns its position either way.
    pub fn add(&mut self, s: String) -> (idx: usize)
        ensures
            final(self)@ == table_add(old(self)@, s@),
            final(self)@.no_duplicates(),
            idx == table_slot(old(self)@, s@),
            idx < final(self)@.len(),
            final(self)@[idx as int] == s@,
    {
        match self.get_index(s.as_str()) {
            Some(i) => {
                return i;
            },
            None => {},
        }
        proof {
            use_type_invariant(&*self);
        }
        // The list and the index change together: the table is taken apart
        // and put together again, so that it never exists with the two out
        // of step.
        let mut taken = StringHash::new();
        core::mem::swap(self, &mut taken);
        let StringHash { index_to_string: mut list, string_to_index: mut index } = taken;
        let ghost before = list@;
        let ghost known = index@;
        let idx = list.len();
        index.insert(s.clone(), idx);
        list.push(s);
        proof {
            assert forall|i: int| 0 <= i < list@.len() implies {
                &&& index@.contains_key(#[trigger] list@[i]@)
                &&& index@[list@[i]@] == i
            } by {
                if i < idx {
                    assert(old(self)@[i] == before[i]@);
                    assert(known.contains_key(before[i]@));
                }
            }
        }
        *self = StringHash { index_to_string: list, string_to_index: index };
        assert(final(self)@ =~= old(self)@.push(s@));
        idx
    }

    /// The number of strings in the table.
    pub fn len(&self) -> (n: usize)
        ensures
            n == self@.len(),
            self@.no_duplicates(),
    {
        proof {
            use_type_invariant(self);
            self.lemma_distinct();
        }
        self.index_to_string.len()
    }
}

impl Default for StringHash {
    /// An empty table.
    fn default() -> (r: Self)
        ensures
            r@ == Seq::<Seq<char>>::empty(),
    {
        StringHash::new()
    }
}

impl Clone for StringHash {
    /// A table with the same strings at the same positions.
    fn clone(&self) -> (r: Self)
        ensures
            r@ == self@,
    {
        proof {
            use_type_invariant(self);
        }
        let mut list: Vec<String> = Vec::new();
        let mut index: StringHashMap<usize> = StringHashMap::new();
        let mut i: usize = 0;
        while i < self.index_to_string.len()
            invariant
                i <= self.index_to_string@.len(),
                list@.len() == i,
                forall|j: int| 0 <= j < i ==> (#[trigger] list@[j])@ == self.index_to_string@[j]@,
                forall|k: Seq<char>| #[trigger]
                    index@.contains_key(k) ==> exists|j: int|
                        0 <= j < i && self.index_to_string@[j]@ == k && index@[k] == j,
                self.consistent(),
                forall|j: int|
                    0 <= j < i ==> {
                        &&& index@.contains_key(#[trigger] self.index_to_string@[j]@)
                        &&& index@[self.index_to_string@[j]@] == j
                    },
            decreases self.index_to_string@.len() - i,
        {
            let s = self.index_to_string[i].clone();
            proof {
                assert forall|j: int| 0 <= j < i implies self.index_to_string@[j]@
                    != self.index_to_string@[i as int]@ by {
                    assert(self.string_to_index@[self.index_to_string@[j]@] == j);
                    assert(self.string_to_index@[self.index_to_string@[i as int]@] == i);
                }
            }
            index.insert(s.clone(), i);
            list.push(s);
            i = i + 1;
        }
        let r = StringHash { index_to_string: list, string_to_index: index };
        assert(r@ =~= self@);
        r
    }
}

/// Adding a string a second time changes nothing and finds the same index.
pub proof fn lemma_add_twice(t: Seq<Seq<char>>, s: Seq<char>)
    requires
        t.no_duplicates(),
    ensures
        table_add(t, s).no_duplicates(),
        table_add(table_add(t, s), s) == table_add(t, s),
        table_slot(table_add(t, s), s) == table_slot(t, s),
        0 <= table_slot(t, s) < table_add(t, s).len(),
        table_add(t, s)[table_slot(t, s)] == s,
{
    let u = table_add(t, s);
    if t.contains(s) {
        t.index_of_first_ensures(s);
    } else {
        assert(u[t.len() as int] == s);
        assert(u.contains(s));
        u.index_of_first_ensures(s);
    }
}

/// A table built from a list of strings holds each distinct string of the
/// list once: its length is the number of distinct strings added.
pub proof fn lemma_table_of_distinct(items: Seq<Seq<char>>)
    ensures
        table_of(items).no_duplicates(),
        table_of(items).to_set() == items.to_set(),
        table_of(items).len() == items.to_set().len(),
    decreases items.len(),
{
    if items.len() == 0 {
        assert(table_of(items).to_set() =~= items.to_set());
        assert(items.to_set() =~= Set::<Seq<char>>::empty());
    } else {
        let init = items.drop_last();
        let t = table_of(init);
        lemma_table_of_distinct(init);
        lemma_add_twice(t, items.last());
        assert(table_of(items).to_set() =~= items.to_set()) by {
            assert forall|x: Seq<char>| table_of(items).to_set().contains(x)
                == items.to_set().contains(x) by {
                if items.contains(x) {
                    let i = choose|i: int| 0 <= i < items.len() && items[i] == x;
                    if i < init.len() {
                        assert(init[i] == x);
                        assert(init.to_set().contains(x));
                        assert(t.contains(x));
                        let j = choose|j: int| 0 <= j < t.len() && t[j] == x;
                        assert(table_of(items)[j] == x);
                    } else {
                        assert(table_of(items)[table_slot(t, x)] == x);
                    }
                }
                if table_of(items).contains(x) {
                    let j = choose|j: int| 0 <= j < table_of(items).len() && table_of(items)[j] == x;
                    if j < t.len() {
                        assert(t[j] == x);
                        assert(t.to_set().contains(x));
                        assert(init.contains(x));
                        let i = choose|i: int| 0 <= i < init.len() && init[i] == x;
                        assert(items[i] == x);
                    } else {
                        assert(x == items.last());
                        assert(items[items.len() - 1] == x);
                    }
                }
            }
        }
        table_of(items).unique_seq_to_set();
    }
}

} // verus!
