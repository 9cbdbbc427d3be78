//! A table keyed by machine or interface name.
//!
//! The entries are kept in a vector in which no name occurs twice; the
//! table is seen as a finite map from names to values.

use vstd::prelude::*;

verus! {

/// The map that a list of entries with distinct names stands for.
pub open spec fn vue_entrees<V>(s: Seq<(String, V)>) -> Map<Seq<char>, V>
    decreases s.len(),
{
    if s.len() == 0 {
        Map::empty()
    } else {
        vue_entrees(s.drop_last()).insert(s.last().0@, s.last().1)
    }
}

/// No name occurs twice among the entries.
pub open spec fn noms_distincts<V>(s: Seq<(String, V)>) -> bool {
    forall|i: int, j: int| 0 <= i < j < s.len() ==> s[i].0@ != s[j].0@
}

proof fn lemme_present<V>(s: Seq<(String, V)>, i: int)
    requires
        noms_distincts(s),
        0 <= i < s.len(),
    ensures
        vue_entrees(s).contains_key(s[i].0@),
        vue_entrees(s)[s[i].0@] == s[i].1,
    decreases s.len(),
{
    if i < s.len() - 1 {
        let t = s.drop_last();
        assert(t[i] == s[i]);
        assert(noms_distincts(t));
        lemme_present(t, i);
        assert(s.last().0@ != s[i].0@);
    }
}

proof fn lemme_absent<V>(s: Seq<(String, V)>, k: Seq<char>)
    requires
        forall|i: int| 0 <= i < s.len() ==> s[i].0@ != k,
    ensures
        !vue_entrees(s).contains_key(k),
    decreases s.len(),
{
    if s.len() > 0 {
        let t = s.drop_last();
        assert forall|i: int| 0 <= i < t.len() implies t[i].0@ != k by {
            assert(t[i] == s[i]);
        }
        lemme_absent(t, k);
        assert(s[s.len() - 1].0@ != k);
    }
}

proof fn lemme_cle<V>(s: Seq<(String, V)>, k: Seq<char>)
    requires
        noms_distincts(s),
    ensures
        vue_entrees(s).contains_key(k) <==> exists|i: int| 0 <= i < s.len() && s[i].0@ == k,
        forall|i: int| 0 <= i < s.len() && s[i].0@ == k ==> vue_entrees(s)[k] == s[i].1,
{
    if exists|i: int| 0 <= i < s.len() && s[i].0@ == k {
        let i = choose|i: int| 0 <= i < s.len() && s[i].0@ == k;
        lemme_present(s, i);
    } else {
        lemme_absent(s, k);
    }
    assert forall|i: int| 0 <= i < s.len() && s[i].0@ == k implies vue_entrees(s)[k] == s[i].1 by {
        lemme_present(s, i);
    }
}

/// A table from names to values of type `V`.
pub struct TableNoms<V: Copy> {
    entrees: Vec<(String, V)>,
}

impl<V: Copy> View for TableNoms<V> {
    type V = Map<Seq<char>, V>;

    closed spec fn view(&self) -> Map<Seq<char>, V> {
        vue_entrees(self.entrees@)
    }
}

impl<V: Copy> TableNoms<V> {
    #[verifier::type_invariant]
    closed spec fn bien_formee(self) -> bool {
        noms_distincts(self.entrees@)
    }

    /// The empty table.
    pub fn nouvelle() -> (t: Self)
        ensures
            t@ == Map::<Seq<char>, V>::empty(),
    {
        TableNoms { entrees: Vec::new() }
    }

    fn position(&self, cle: &String) -> (r: Option<usize>)
        ensures
            match r {
                Some(i) => i < self.entrees@.len() && self.entrees@[i as int].0@ == cle@,
                None => forall|j: int| 0 <= j < self.entrees@.len() ==> self.entrees@[j].0@ != cle@,
            },
    {
        let n = self.entrees.len();
        let mut i: usize = 0;
        while i < n
            invariant
                n == self.entrees@.len(),
                i <= n,
                forall|j: int| 0 <= j < i ==> self.entrees@[j].0@ != cle@,
            decreases n - i,
        {
            if self.entrees[i].0 == *cle {
                return Some(i);
            }
            i = i + 1;
        }
        None
    }

    /// The value held under `cle`, if any.
    pub fn valeur(&self, cle: &String) -> (r: Option<V>)
        ensures
            r == (if self@.contains_key(cle@) { Some(self@[cle@]) } else { None::<V> }),
    {
        proof {
            use_type_invariant(self);
            lemme_cle(self.entrees@, cle@);
        }
        match self.position(cle) {
            Some(i) => Some(self.entrees[i].1),
            None => None,
        }
    }

    /// Sets the value under `cle`, replacing any earlier one.
    pub fn inserer(&mut self, cle: String, v: V)
        ensures
            final(self)@ == old(self)@.insert(cle@, v),
    {
        proof {
            use_type_invariant(&*self);
        }
        let ghost k = cle@;
        let ghost s = self.entrees@;
        match self.position(&cle) {
            Some(i) => {
                let mut e: Vec<(String, V)> = Vec::new();
                std::mem::swap(&mut e, &mut self.entrees);
                e.set(i, (cle, v));
                proof {
                    let t = e@;
                    assert(noms_distincts(t)) by {
                        assert forall|a: int, b: int| 0 <= a < b < t.len() implies t[a].0@ != t[b].0@ by {
                            assert(s[a].0@ != s[b].0@);
                        }
                    }
                    lemme_cle(s, k);
                    lemme_cle(t, k);
                    assert forall|k2: Seq<char>| k2 != k implies
                        (vue_entrees(t).contains_key(k2) == vue_entrees(s).contains_key(k2))
                        && (vue_entrees(t).contains_key(k2) ==> vue_entrees(t)[k2] == vue_entrees(s)[k2]) by {
                        lemme_cle(s, k2);
                        lemme_cle(t, k2);
                        if vue_entrees(s).contains_key(k2) {
                            let j = choose|j: int| 0 <= j < s.len() && s[j].0@ == k2;
                            assert(t[j] == s[j]);
                        }
                        if vue_entrees(t).contains_key(k2) {
                            let j = choose|j: int| 0 <= j < t.len() && t[j].0@ == k2;
                            assert(t[j] == s[j]);
                        }
                    }
                    assert(t[i as int].0@ == k && t[i as int].1 == v);
                    assert(vue_entrees(t).contains_key(k) && vue_entrees(t)[k] == v);
                    assert forall|k2: Seq<char>| #[trigger] vue_entrees(t).dom().contains(k2)
                        <==> vue_entrees(s).insert(k, v).dom().contains(k2) by {
                        if k2 != k {
                            lemme_cle(s, k2);
                            lemme_cle(t, k2);
                            if vue_entrees(s).contains_key(k2) {
                                let j = choose|j: int| 0 <= j < s.len() && s[j].0@ == k2;
                                assert(t[j] == s[j]);
                            }
                            if vue_entrees(t).contains_key(k2) {
                                let j = choose|j: int| 0 <= j < t.len() && t[j].0@ == k2;
                                assert(t[j] == s[j]);
                            }
                        }
                    }
                    assert(vue_entrees(t).dom() =~= vue_entrees(s).insert(k, v).dom());
                    assert(vue_entrees(t) =~= vue_entrees(s).insert(k, v));
                }
                self.entrees = e;
            },
            None => {
                let mut e: Vec<(String, V)> = Vec::new();
                std::mem::swap(&mut e, &mut self.entrees);
                e.push((cle, v));
                proof {
                    let t = e@;
                    assert(t.drop_last() =~= s);
                    assert(noms_distincts(t)) by {
                        assert forall|a: int, b: int| 0 <= a < b < t.len() implies t[a].0@ != t[b].0@ by {
                            if b < s.len() {
                                assert(s[a].0@ != s[b].0@);
                            }
                        }
                    }
                }
                self.entrees = e;
            },
        }
    }

    /// Removes the entry held under `cle`, if any.
    pub fn retirer(&mut self, cle: &String)
        ensures
            final(self)@ == old(self)@.remove(cle@),
    {
        proof {
            use_type_invariant(&*self);
        }
        let ghost k = cle@;
        let ghost s = self.entrees@;
        match self.position(cle) {
            Some(i) => {
                let mut e: Vec<(String, V)> = Vec::new();
                std::mem::swap(&mut e, &mut self.entrees);
                e.remove(i);
                proof {
                    let t = e@;
                    assert forall|j: int| 0 <= j < t.len() implies t[j] == (if j < i { s[j] } else { s[j + 1] }) by {}
                    assert(noms_distincts(t)) by {
                        assert forall|a: int, b: int| 0 <= a < b < t.len() implies t[a].0@ != t[b].0@ by {
                            if b < i {
                                assert(s[a].0@ != s[b].0@);
                            } else if a < i {
                                assert(s[a].0@ != s[b + 1].0@);
                            } else {
                                assert(s[a + 1].0@ != s[b + 1].0@);
                            }
                        }
                    }
                    lemme_cle(s, k);
                    lemme_cle(t, k);
                    assert(!vue_entrees(t).contains_key(k)) by {
                        if vue_entrees(t).contains_key(k) {
                            let j = choose|j: int| 0 <= j < t.len() && t[j].0@ == k;
                            if j < i {
                                assert(s[j].0@ != s[i as int].0@);
                            } else {
                                assert(s[i as int].0@ != s[j + 1].0@);
                            }
                        }
                    }
                    assert forall|k2: Seq<char>| k2 != k implies
                        (vue_entrees(t).contains_key(k2) == vue_entrees(s).contains_key(k2))
                        && (vue_entrees(t).contains_key(k2) ==> vue_entrees(t)[k2] == vue_entrees(s)[k2]) by {
                        lemme_cle(s, k2);
                        lemme_cle(t, k2);
                        if vue_entrees(s).contains_key(k2) {
                            let j = choose|j: int| 0 <= j < s.len() && s[j].0@ == k2;
                            assert(j != i);
                            if j < i {
                                assert(t[j] == s[j]);
                            } else {
                                assert(t[j - 1] == s[j]);
                            }
                        }
                        if vue_entrees(t).contains_key(k2) {
                            let j = choose|j: int| 0 <= j < t.len() && t[j].0@ == k2;
                            if j < i {
                                assert(t[j] == s[j]);
                            } else {
                                assert(t[j] == s[j + 1]);
                            }
                        }
                    }
                    assert forall|k2: Seq<char>| #[trigger] vue_entrees(t).dom().contains(k2)
                        <==> vue_entrees(s).remove(k).dom().contains(k2) by {
                        if k2 != k {
                            lemme_cle(s, k2);
                            lemme_cle(t, k2);
                            if vue_entrees(s).contains_key(k2) {
                                let j = choose|j: int| 0 <= j < s.len() && s[j].0@ == k2;
                                if j < i {
                                    assert(t[j] == s[j]);
                                } else {
                                    assert(t[j - 1] == s[j]);
                                }
                            }
                            if vue_entrees(t).contains_key(k2) {
                                let j = choose|j: int| 0 <= j < t.len() && t[j].0@ == k2;
                                if j < i {
                                    assert(t[j] == s[j]);
                                } else {
                                    assert(t[j] == s[j + 1]);
                                }
                            }
                        }
                    }
                    assert(vue_entrees(t).dom() =~= vue_entrees(s).remove(k).dom());
                    assert(vue_entrees(t) =~= vue_entrees(s).remove(k));
                }
                self.entrees = e;
            },
            None => {
                proof {
                    lemme_absent(s, k);
                    assert(vue_entrees(s) =~= vue_entrees(s).remove(k));
                }
            },
        }
    }
}

} // verus!
