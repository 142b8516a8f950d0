use vstd::prelude::*;

verus! {

/// An insertion-ordered table of command aliases: each name maps to a
/// replacement phrase, names are unique, and new names are inserted at the
/// front so the most recently defined aliases display first.
#[derive(Debug, Clone)]
pub struct Aliases {
    keys: Vec<String>,
    vals: Vec<String>,
}

impl Aliases {
    /// The alias names, in display order.
    pub closed spec fn names(&self) -> Seq<Seq<char>> {
        self.keys.deep_view()
    }

    /// The replacement phrases, positionally matching `names`.
    pub closed spec fn phrases(&self) -> Seq<Seq<char>> {
        self.vals.deep_view()
    }

    /// Well-formed: one phrase per name, and names are unique.
    pub open spec fn wf(&self) -> bool {
        &&& self.names().len() == self.phrases().len()
        &&& forall|i: int, j: int|
            0 <= i < j < self.names().len() ==> self.names()[i] != self.names()[j]
    }

    pub open spec fn contains_name(&self, name: Seq<char>) -> bool {
        exists|i: int| 0 <= i < self.names().len() && self.names()[i] == name
    }

    /// The phrase stored for `name`; meaningful only when `contains_name` holds.
    pub open spec fn phrase_for(&self, name: Seq<char>) -> Seq<char> {
        let i = choose|i: int| 0 <= i < self.names().len() && self.names()[i] == name;
        self.phrases()[i]
    }

    /// What `get` returns, as a function of the table model.
    pub open spec fn spec_get(&self, name: Seq<char>) -> Option<Seq<char>> {
        if self.contains_name(name) {
            Some(self.phrase_for(name))
        } else {
            None
        }
    }

    pub fn new() -> (r: Self)
        ensures
            r.wf(),
            r.names() =~= Seq::<Seq<char>>::empty(),
            r.phrases() =~= Seq::<Seq<char>>::empty(),
    {
        Aliases { keys: Vec::new(), vals: Vec::new() }
    }

    /// Upsert: an existing name keeps its position and receives the new
    /// phrase; a new name is inserted at the front together with its phrase.
    /// Always succeeds, and every other entry is untouched.
    #[verifier::loop_isolation(false)]
    pub fn set(&mut self, key: String, val: String)
        requires
            old(self).wf(),
        ensures
            final(self).wf(),
            final(self).spec_get(key@) == Some(val@),
            forall|n: Seq<char>| n != key@ ==>
                final(self).spec_get(n) == old(self).spec_get(n),
            old(self).contains_name(key@) ==> {
                &&& final(self).names() == old(self).names()
                &&& exists|i: int|
                    0 <= i < old(self).names().len() && old(self).names()[i] == key@
                    && final(self).phrases() == old(self).phrases().update(i, val@)
            },
            !old(self).contains_name(key@) ==> {
                &&& final(self).names() == seq![key@] + old(self).names()
                &&& final(self).phrases() == seq![val@] + old(self).phrases()
            },
            final(self).names().len() == old(self).names().len()
                + (if old(self).contains_name(key@) { 0int } else { 1int }),
    {
        let ghost o = *old(self);
        let n = self.keys.len();
        for i in 0..n
            invariant
                n == self.keys.len(),
                *self == o,
                o.wf(),
                forall|j: int| 0 <= j < i ==> o.names()[j] != key@,
        {
            if self.keys[i] == key {
                self.vals.set(i, val);
                proof {
                    let ii = i as int;
                    assert(self.names() =~= o.names());
                    assert(self.phrases() =~= o.phrases().update(ii, val@));
                    assert(o.names()[ii] == key@);
                    lemma_set_existing(o, *self, ii, key@, val@);
                    assert(o.contains_name(key@));
                }
                return;
            }
        }

        self.keys.insert(0, key);
        self.vals.insert(0, val);
        proof {
            assert(self.names() =~= seq![key@] + o.names());
            assert(self.phrases() =~= seq![val@] + o.phrases());
            lemma_set_fresh(o, *self, key@, val@);
            assert(!o.contains_name(key@));
        }
    }

    /// Exact, case-sensitive lookup of an alias phrase.
    #[verifier::loop_isolation(false)]
    pub fn get(&self, key: String) -> (r: Option<String>)
        requires
            self.wf(),
        ensures
            (r is Some) == self.contains_name(key@),
            r matches Some(p) ==> self.spec_get(key@) == Some(p@),
    {
        let n = self.keys.len();
        for i in 0..n
            invariant
                n == self.keys.len(),
                self.wf(),
                forall|j: int| 0 <= j < i ==> self.names()[j] != key@,
        {
            if self.keys[i] == key {
                let p = self.vals[i].clone();
                proof {
                    let ii = i as int;
                    assert(self.names()[ii] == key@);
                    assert(self.contains_name(key@));
                    let w = choose|w: int|
                        0 <= w < self.names().len() && self.names()[w] == key@;
                    assert(w == ii) by {
                        if w < ii {
                            assert(self.names()[w] != self.names()[ii]);
                        } else if w > ii {
                            assert(self.names()[ii] != self.names()[w]);
                        }
                    }
                }
                return Some(p);
            }
        }
        proof {
            if self.contains_name(key@) {
                let w = choose|w: int|
                    0 <= w < self.names().len() && self.names()[w] == key@;
                assert(self.names()[w] != key@);
            }
        }
        None
    }

    /// Every (name, phrase) entry, in display order.
    #[verifier::loop_isolation(false)]
    pub fn pairs(&self) -> (r: Vec<(String, String)>)
        requires
            self.wf(),
        ensures
            r@.len() == self.names().len(),
            forall|i: int| 0 <= i < r@.len() ==>
                (#[trigger] r@[i]).0@ == self.names()[i] && r@[i].1@ == self.phrases()[i],
    {
        let n = self.keys.len();
        let mut out: Vec<(String, String)> = Vec::new();
        for i in 0..n
            invariant
                n == self.keys.len(),
                self.wf(),
                out@.len() == i,
                forall|j: int| 0 <= j < i ==>
                    (#[trigger] out@[j]).0@ == self.names()[j] && out@[j].1@ == self.phrases()[j],
        {
            out.push((self.keys[i].clone(), self.vals[i].clone()));
        }
        out
    }
}

/// After overwriting the phrase at the position of an existing name, the name
/// looks up to the new phrase and every other name is untouched.
proof fn lemma_set_existing(o: Aliases, t: Aliases, i: int, key: Seq<char>, val: Seq<char>)
    requires
        o.wf(),
        0 <= i < o.names().len(),
        o.names()[i] == key,
        t.names() == o.names(),
        t.phrases() == o.phrases().update(i, val),
    ensures
        t.wf(),
        t.spec_get(key) == Some(val),
        forall|n: Seq<char>| n != key ==> t.spec_get(n) == o.spec_get(n),
{
    assert(t.contains_name(key));
    let w = choose|w: int| 0 <= w < t.names().len() && t.names()[w] == key;
    assert(w == i) by {
        if w < i {
            assert(o.names()[w] != o.names()[i]);
        } else if w > i {
            assert(o.names()[i] != o.names()[w]);
        }
    }
    assert(t.phrase_for(key) == val);
    assert forall|n: Seq<char>| n != key implies t.spec_get(n) == o.spec_get(n) by {
        if t.contains_name(n) {
            let v = choose|v: int| 0 <= v < t.names().len() && t.names()[v] == n;
            assert(o.names()[v] == n);
            assert(o.contains_name(n));
            let v2 = choose|v2: int| 0 <= v2 < o.names().len() && o.names()[v2] == n;
            assert(v == v2) by {
                if v < v2 {
                    assert(o.names()[v] != o.names()[v2]);
                } else if v > v2 {
                    assert(o.names()[v2] != o.names()[v]);
                }
            }
            assert(v != i) by {
                if v == i {
                    assert(o.names()[i] == n);
                }
            }
            assert(t.phrases()[v] == o.phrases()[v2]);
        } else {
            if o.contains_name(n) {
                let v2 = choose|v2: int| 0 <= v2 < o.names().len() && o.names()[v2] == n;
                assert(t.names()[v2] == n);
                assert(t.contains_name(n));
            }
        }
    }
}

/// After inserting a fresh name and its phrase at the front, the fresh name
/// looks up to its phrase, every old name still looks up to its old phrase,
/// and the names stay unique.
proof fn lemma_set_fresh(o: Aliases, t: Aliases, key: Seq<char>, val: Seq<char>)
    requires
        o.wf(),
        forall|a: int| 0 <= a < o.names().len() ==> o.names()[a] != key,
        t.names() == seq![key] + o.names(),
        t.phrases() == seq![val] + o.phrases(),
    ensures
        t.wf(),
        t.spec_get(key) == Some(val),
        forall|n: Seq<char>| n != key ==> t.spec_get(n) == o.spec_get(n),
{
    assert forall|a: int, b: int| 0 <= a < b < t.names().len() implies t.names()[a]
        != t.names()[b] by {
        if a == 0 {
            assert(t.names()[b] == o.names()[b - 1]);
        } else {
            assert(t.names()[a] == o.names()[a - 1]);
            assert(t.names()[b] == o.names()[b - 1]);
        }
    }
    assert(t.names()[0] == key);
    assert(t.contains_name(key));
    let w = choose|w: int| 0 <= w < t.names().len() && t.names()[w] == key;
    assert(w == 0) by {
        if w > 0 {
            assert(t.names()[w] == o.names()[w - 1]);
        }
    }
    assert(t.phrase_for(key) == val);
    assert forall|n: Seq<char>| n != key implies t.spec_get(n) == o.spec_get(n) by {
        if t.contains_name(n) {
            let v = choose|v: int| 0 <= v < t.names().len() && t.names()[v] == n;
            assert(v > 0) by {
                if v == 0 {
                    assert(t.names()[0] == key);
                }
            }
            assert(o.names()[v - 1] == n);
            assert(o.contains_name(n));
            let v2 = choose|v2: int| 0 <= v2 < o.names().len() && o.names()[v2] == n;
            assert(v - 1 == v2) by {
                if v - 1 < v2 {
                    assert(o.names()[v - 1] != o.names()[v2]);
                } else if v - 1 > v2 {
                    assert(o.names()[v2] != o.names()[v - 1]);
                }
            }
            assert(t.phrases()[v] == o.phrases()[v2]);
        } else {
            if o.contains_name(n) {
                let v2 = choose|v2: int| 0 <= v2 < o.names().len() && o.names()[v2] == n;
                assert(t.names()[v2 + 1] == n);
                assert(t.contains_name(n));
            }
        }
    }
}

} // verus!
