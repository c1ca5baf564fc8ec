//! Name-keyed sets and maps: the symbol tables of the analyzer and the code
//! generator. Both keep insertion order, so walking them is deterministic.
use vstd::prelude::*;
use crate::text::{lex_less, lemma_lex_total, str_eq, str_less};

verus! {

/// The map a sequence of (name, value) entries denotes: a later entry for a
/// name overrides an earlier one.
pub open spec fn map_of<V>(s: Seq<(String, V)>) -> Map<Seq<char>, V>
    decreases s.len(),
{
    if s.len() == 0 {
        Map::empty()
    } else {
        map_of(s.drop_last()).insert(s.last().0@, s.last().1)
    }
}

/// No name occurs twice among the entries.
pub open spec fn distinct_keys<V>(s: Seq<(String, V)>) -> bool {
    forall|i: int, j: int| 0 <= i < j < s.len() ==> s[i].0@ != s[j].0@
}

/// The names of a sequence of strings, as character sequences.
pub open spec fn views_of(s: Seq<String>) -> Seq<Seq<char>> {
    s.map_values(|x: String| x@)
}

proof fn lemma_map_of_dom<V>(s: Seq<(String, V)>, k: Seq<char>)
    ensures
        map_of(s).dom().contains(k) <==> exists|i: int| 0 <= i < s.len() && s[i].0@ == k,
    decreases s.len(),
{
    if s.len() > 0 {
        lemma_map_of_dom(s.drop_last(), k);
        if map_of(s).dom().contains(k) && s.last().0@ != k {
            let i = choose|i: int| 0 <= i < s.len() - 1 && s.drop_last()[i].0@ == k;
            assert(s[i].0@ == k);
        }
        if exists|i: int| 0 <= i < s.len() && s[i].0@ == k {
            let i = choose|i: int| 0 <= i < s.len() && s[i].0@ == k;
            if i < s.len() - 1 {
                assert(s.drop_last()[i].0@ == k);
            }
        }
    }
}

proof fn lemma_map_of_at<V>(s: Seq<(String, V)>, i: int)
    requires
        distinct_keys(s),
        0 <= i < s.len(),
    ensures
        map_of(s).dom().contains(s[i].0@),
        map_of(s)[s[i].0@] == s[i].1,
    decreases s.len(),
{
    if i < s.len() - 1 {
        assert(s.drop_last()[i] == s[i]);
        lemma_map_of_at(s.drop_last(), i);
        assert(s.last().0@ != s[i].0@);
    }
}

proof fn lemma_map_of_update<V>(s: Seq<(String, V)>, i: int, k: String, v: V)
    requires
        distinct_keys(s),
        0 <= i < s.len(),
        s[i].0@ == k@,
    ensures
        map_of(s.update(i, (k, v))) == map_of(s).insert(k@, v),
        distinct_keys(s.update(i, (k, v))),
    decreases s.len(),
{
    let t = s.update(i, (k, v));
    if i == s.len() - 1 {
        assert(t.drop_last() == s.drop_last());
        assert(map_of(s.drop_last()).insert(k@, s[i].1).insert(k@, v) == map_of(
            s.drop_last(),
        ).insert(k@, v));
    } else {
        lemma_map_of_update(s.drop_last(), i, k, v);
        assert(t.drop_last() == s.drop_last().update(i, (k, v)));
        assert(s.last().0@ != k@);
        assert(map_of(s.drop_last()).insert(k@, v).insert(s.last().0@, s.last().1)
            == map_of(s.drop_last()).insert(s.last().0@, s.last().1).insert(k@, v));
    }
}

proof fn lemma_map_of_remove<V>(s: Seq<(String, V)>, i: int)
    requires
        distinct_keys(s),
        0 <= i < s.len(),
    ensures
        map_of(s.remove(i)) == map_of(s).remove(s[i].0@),
        distinct_keys(s.remove(i)),
    decreases s.len(),
{
    let k = s[i].0@;
    let t = s.remove(i);
    if i == s.len() - 1 {
        assert(t == s.drop_last());
        lemma_map_of_dom(s.drop_last(), k);
        assert(!map_of(s.drop_last()).dom().contains(k));
        assert(map_of(s.drop_last()) == map_of(s.drop_last()).insert(k, s[i].1).remove(k));
    } else {
        lemma_map_of_remove(s.drop_last(), i);
        assert(t.drop_last() == s.drop_last().remove(i));
        assert(t.last() == s.last());
        assert(s.last().0@ != k);
        assert(map_of(s.drop_last()).remove(k).insert(s.last().0@, s.last().1)
            == map_of(s.drop_last()).insert(s.last().0@, s.last().1).remove(k));
    }
}

pub proof fn lemma_views_take_step(ks: Seq<String>, i: int)
    requires
        0 <= i < ks.len(),
    ensures
        forall|k: Seq<char>|
            views_of(ks).take(i + 1).contains(k) <==> (views_of(ks).take(i).contains(k) || k
                == ks[i]@),
{
    let a = views_of(ks).take(i);
    let b = views_of(ks).take(i + 1);
    assert(b == a.push(ks[i]@));
    assert forall|k: Seq<char>| b.contains(k) <==> (a.contains(k) || k == ks[i]@) by {
        if b.contains(k) {
            let j = choose|j: int| 0 <= j < b.len() && b[j] == k;
            if j < i {
                assert(a[j] == k);
            }
        }
        if a.contains(k) {
            let j = choose|j: int| 0 <= j < a.len() && a[j] == k;
            assert(b[j] == k);
        }
        if k == ks[i]@ {
            assert(b[i] == k);
        }
    }
}

/// A map from names to values that remembers the order names were added in.
pub struct NameMap<V> {
    entries: Vec<(String, V)>,
}

impl<V> View for NameMap<V> {
    type V = Map<Seq<char>, V>;

    closed spec fn view(&self) -> Map<Seq<char>, V> {
        map_of(self.entries@)
    }
}

impl<V> NameMap<V> {
    #[verifier::type_invariant]
    closed spec fn inv(self) -> bool {
        distinct_keys(self.entries@)
    }

    /// The names in the order they were first added.
    pub closed spec fn key_order(&self) -> Seq<Seq<char>> {
        self.entries@.map_values(|e: (String, V)| e.0@)
    }

    pub fn new() -> (r: Self)
        ensures
            r@ == Map::<Seq<char>, V>::empty(),
            r.key_order() == Seq::<Seq<char>>::empty(),
    {
        NameMap { entries: Vec::new() }
    }

    fn find(&self, k: &str) -> (r: Option<usize>)
        ensures
            match r {
                Some(i) => i < self.entries@.len() && self.entries@[i as int].0@ == k@,
                None => forall|j: int| 0 <= j < self.entries@.len() ==> self.entries@[j].0@ != k@,
            },
    {
        let mut i: usize = 0;
        while i < self.entries.len()
            invariant
                i <= self.entries@.len(),
                forall|j: int| 0 <= j < i ==> self.entries@[j].0@ != k@,
            decreases self.entries@.len() - i,
        {
            if str_eq(self.entries[i].0.as_str(), k) {
                return Some(i);
            }
            i = i + 1;
        }
        None
    }

    pub fn get(&self, k: &str) -> (r: Option<&V>)
        ensures
            match r {
                Some(v) => self@.contains_key(k@) && *v == self@[k@],
                None => !self@.contains_key(k@),
            },
    {
        proof {
            use_type_invariant(self);
            lemma_map_of_dom(self.entries@, k@);
        }
        match self.find(k) {
            Some(i) => {
                proof {
                    lemma_map_of_at(self.entries@, i as int);
                }
                Some(&self.entries[i].1)
            },
            None => None,
        }
    }

    pub fn contains_key(&self, k: &str) -> (r: bool)
        ensures
            r == self@.contains_key(k@),
    {
        proof {
            lemma_map_of_dom(self.entries@, k@);
        }
        self.find(k).is_some()
    }

    pub fn insert(&mut self, k: String, v: V)
        ensures
            final(self)@ == old(self)@.insert(k@, v),
            old(self)@.contains_key(k@) ==> final(self).key_order() == old(self).key_order(),
            !old(self)@.contains_key(k@) ==> final(self).key_order() == old(self).key_order().push(
                k@,
            ),
    {
        proof {
            use_type_invariant(&*self);
            lemma_map_of_dom(self.entries@, k@);
        }
        match self.find(k.as_str()) {
            Some(i) => {
                proof {
                    lemma_map_of_update(self.entries@, i as int, k, v);
                }
                let ghost before = self.entries@;
                let mut entries: Vec<(String, V)> = Vec::new();
                std::mem::swap(&mut entries, &mut self.entries);
                entries.set(i, (k, v));
                assert(entries@.map_values(|e: (String, V)| e.0@) =~= before.map_values(
                    |e: (String, V)| e.0@,
                ));
                self.entries = entries;
            },
            None => {
                let ghost before = self.entries@;
                let mut entries: Vec<(String, V)> = Vec::new();
                std::mem::swap(&mut entries, &mut self.entries);
                entries.push((k, v));
                assert(entries@.drop_last() == before);
                assert(entries@.map_values(|e: (String, V)| e.0@) =~= before.map_values(
                    |e: (String, V)| e.0@,
                ).push(k@));
                proof {
                    assert forall|a: int, b: int| 0 <= a < b < entries@.len() implies entries@[a].0@
                        != entries@[b].0@ by {
                        if b == entries@.len() - 1 {
                            assert(entries@[a] == before[a]);
                        } else {
                            assert(entries@[a] == before[a] && entries@[b] == before[b]);
                        }
                    }
                }
                self.entries = entries;
            },
        }
    }

    pub fn remove(&mut self, k: &str)
        ensures
            final(self)@ == old(self)@.remove(k@),
    {
        proof {
            use_type_invariant(&*self);
            lemma_map_of_dom(self.entries@, k@);
        }
        match self.find(k) {
            Some(i) => {
                proof {
                    lemma_map_of_remove(self.entries@, i as int);
                }
                let mut entries: Vec<(String, V)> = Vec::new();
                std::mem::swap(&mut entries, &mut self.entries);
                entries.remove(i);
                self.entries = entries;
            },
            None => {
                assert(self@.remove(k@) == self@);
            },
        }
    }

    /// The names, in the order they were first added.
    pub fn keys(&self) -> (r: Vec<String>)
        ensures
            views_of(r@) == self.key_order(),
            forall|k: Seq<char>| self@.contains_key(k) <==> views_of(r@).contains(k),
            views_of(r@).no_duplicates(),
    {
        proof {
            use_type_invariant(self);
        }
        let mut r: Vec<String> = Vec::new();
        let mut i: usize = 0;
        while i < self.entries.len()
            invariant
                i <= self.entries@.len(),
                r@.len() == i,
                forall|j: int| 0 <= j < i ==> r@[j]@ == self.entries@[j].0@,
            decreases self.entries@.len() - i,
        {
            r.push(self.entries[i].0.clone());
            i = i + 1;
        }
        assert(views_of(r@) =~= self.key_order());
        assert(views_of(r@).no_duplicates()) by {
            assert forall|a: int, b: int| 0 <= a < views_of(r@).len() && 0 <= b < views_of(r@).len() && a != b implies views_of(
                r@,
            )[a] != views_of(r@)[b] by {
                if a < b {
                    assert(self.entries@[a].0@ != self.entries@[b].0@);
                } else {
                    assert(self.entries@[b].0@ != self.entries@[a].0@);
                }
            }
        }
        assert forall|k: Seq<char>| self@.contains_key(k) <==> views_of(r@).contains(k) by {
            lemma_map_of_dom(self.entries@, k);
            if views_of(r@).contains(k) {
                let j = choose|j: int| 0 <= j < views_of(r@).len() && views_of(r@)[j] == k;
                assert(self.entries@[j].0@ == k);
            }
            if self@.contains_key(k) {
                let j = choose|j: int| 0 <= j < self.entries@.len() && self.entries@[j].0@ == k;
                assert(views_of(r@)[j] == k);
            }
        }
        r
    }
}

/// A set of names that remembers the order names were added in.
pub struct NameSet {
    names: NameMap<()>,
}

impl View for NameSet {
    type V = Set<Seq<char>>;

    closed spec fn view(&self) -> Set<Seq<char>> {
        self.names@.dom()
    }
}

impl NameSet {
    pub fn new() -> (r: Self)
        ensures
            r@ == Set::<Seq<char>>::empty(),
    {
        NameSet { names: NameMap::new() }
    }

    pub fn contains(&self, k: &str) -> (r: bool)
        ensures
            r == self@.contains(k@),
    {
        self.names.contains_key(k)
    }

    pub fn insert(&mut self, k: String)
        ensures
            final(self)@ == old(self)@.insert(k@),
    {
        self.names.insert(k, ());
    }

    pub fn remove(&mut self, k: &str)
        ensures
            final(self)@ == old(self)@.remove(k@),
    {
        self.names.remove(k);
    }

    pub fn is_empty(&self) -> (r: bool)
        ensures
            r == (self@ == Set::<Seq<char>>::empty()),
    {
        let ks = self.names.keys();
        if ks.len() == 0 {
            assert forall|k: Seq<char>| !self@.contains(k) by {
                if self@.contains(k) {
                    assert(views_of(ks@).contains(k));
                }
            }
            assert(self@ =~= Set::<Seq<char>>::empty());
            true
        } else {
            assert(views_of(ks@)[0] == ks@[0]@);
            assert(views_of(ks@).contains(ks@[0]@));
            assert(self@.contains(ks@[0]@));
            false
        }
    }

    /// The names, in the order they were first added.
    pub fn to_vec(&self) -> (r: Vec<String>)
        ensures
            forall|k: Seq<char>| self@.contains(k) <==> views_of(r@).contains(k),
    {
        self.names.keys()
    }

    /// A set holding the same names.
    pub fn copy(&self) -> (r: NameSet)
        ensures
            r@ == self@,
    {
        let ks = self.to_vec();
        let mut r = NameSet::new();
        let mut i: usize = 0;
        while i < ks.len()
            invariant
                i <= ks@.len(),
                forall|k: Seq<char>| self@.contains(k) <==> views_of(ks@).contains(k),
                forall|k: Seq<char>| r@.contains(k) <==> views_of(ks@).take(i as int).contains(k),
            decreases ks@.len() - i,
        {
            let ghost before = r@;
            let name = ks[i].clone();
            assert(name@ == ks@[i as int]@);
            r.insert(name);
            assert(r@ == before.insert(ks@[i as int]@));
            proof {
                lemma_views_take_step(ks@, i as int);
            }
            assert forall|k: Seq<char>| r@.contains(k) <==> views_of(ks@).take(i + 1).contains(k) by {
                assert(before.contains(k) <==> views_of(ks@).take(i as int).contains(k));
            }
            i = i + 1;
        }
        assert(views_of(ks@).take(ks@.len() as int) == views_of(ks@));
        assert(r@ =~= self@);
        r
    }

    /// Add every name of `other`.
    pub fn extend(&mut self, other: &NameSet)
        ensures
            final(self)@ == old(self)@.union(other@),
    {
        let ks = other.to_vec();
        let mut i: usize = 0;
        while i < ks.len()
            invariant
                i <= ks@.len(),
                forall|k: Seq<char>| other@.contains(k) <==> views_of(ks@).contains(k),
                self@ == old(self)@.union(Set::new(|k: Seq<char>| views_of(ks@).take(i as int).contains(k))),
            decreases ks@.len() - i,
        {
            let ghost before = self@;
            let name = ks[i].clone();
            assert(name@ == ks@[i as int]@);
            self.insert(name);
            proof {
                lemma_views_take_step(ks@, i as int);
            }
            assert forall|k: Seq<char>| self@.contains(k) <==> old(self)@.union(Set::new(|k: Seq<char>| views_of(ks@).take(i + 1).contains(k))).contains(k) by {
                assert(before.contains(k) <==> old(self)@.union(Set::new(|k: Seq<char>| views_of(ks@).take(i as int).contains(k))).contains(k));
            }
            assert(self@ =~= old(self)@.union(Set::new(|k: Seq<char>| views_of(ks@).take(i + 1).contains(k))));
            i = i + 1;
        }
        assert(views_of(ks@).take(ks@.len() as int) == views_of(ks@));
        assert(self@ =~= old(self)@.union(other@));
    }

    /// Keep only the names `other` also holds.
    pub fn retain_in(&mut self, other: &NameSet)
        ensures
            final(self)@ == old(self)@.intersect(other@),
    {
        let ks = self.to_vec();
        let mut i: usize = 0;
        while i < ks.len()
            invariant
                i <= ks@.len(),
                forall|k: Seq<char>| old(self)@.contains(k) <==> views_of(ks@).contains(k),
                self@ == old(self)@.difference(Set::new(|k: Seq<char>| views_of(ks@).take(i as int).contains(k) && !other@.contains(k))),
            decreases ks@.len() - i,
        {
            if !other.contains(ks[i].as_str()) {
                self.remove(ks[i].as_str());
            }
            proof {
                lemma_views_take_step(ks@, i as int);
            }
            assert(self@ =~= old(self)@.difference(Set::new(|k: Seq<char>| views_of(ks@).take(i + 1).contains(k) && !other@.contains(k))));
            i = i + 1;
        }
        assert(views_of(ks@).take(ks@.len() as int) == views_of(ks@));
        assert(self@ =~= old(self)@.intersect(other@));
    }

    /// The names this set holds and `other` does not.
    pub fn difference(&self, other: &NameSet) -> (r: NameSet)
        ensures
            r@ == self@.difference(other@),
    {
        let ks = self.to_vec();
        let mut r = NameSet::new();
        let mut i: usize = 0;
        while i < ks.len()
            invariant
                i <= ks@.len(),
                forall|k: Seq<char>| self@.contains(k) <==> views_of(ks@).contains(k),
                r@ == Set::new(|k: Seq<char>| views_of(ks@).take(i as int).contains(k) && !other@.contains(k)),
            decreases ks@.len() - i,
        {
            let ghost before = r@;
            if !other.contains(ks[i].as_str()) {
                let name = ks[i].clone();
                assert(name@ == ks@[i as int]@);
                r.insert(name);
            }
            proof {
                lemma_views_take_step(ks@, i as int);
            }
            assert forall|k: Seq<char>| r@.contains(k) <==> (views_of(ks@).take(i + 1).contains(k) && !other@.contains(k)) by {
                assert(before.contains(k) <==> (views_of(ks@).take(i as int).contains(k) && !other@.contains(k)));
            }
            assert(r@ =~= Set::new(|k: Seq<char>| views_of(ks@).take(i + 1).contains(k) && !other@.contains(k)));
            i = i + 1;
        }
        assert(views_of(ks@).take(ks@.len() as int) == views_of(ks@));
        assert(r@ =~= self@.difference(other@));
        r
    }
}

/// Each name comes before the next in dictionary order, so no name occurs
/// twice.
pub open spec fn strictly_sorted(q: Seq<Seq<char>>) -> bool {
    forall|i: int, j: int| 0 <= i && j == i + 1 && j < q.len() ==> lex_less(#[trigger] q[i], #[trigger] q[j])
}

/// The names of `v`, each once, in dictionary order.
pub fn sorted_names(v: &Vec<String>) -> (r: Vec<String>)
    ensures
        strictly_sorted(views_of(r@)),
        forall|k: Seq<char>| views_of(v@).contains(k) <==> views_of(r@).contains(k),
{
    let mut r: Vec<String> = Vec::new();
    let mut i: usize = 0;
    while i < v.len()
        invariant
            i <= v@.len(),
            strictly_sorted(views_of(r@)),
            forall|k: Seq<char>| views_of(v@).take(i as int).contains(k) <==> views_of(r@).contains(k),
        decreases v@.len() - i,
    {
        let x = &v[i];
        let mut p: usize = 0;
        while p < r.len()
            invariant
                p <= r@.len(),
                forall|j: int| 0 <= j < p ==> lex_less(#[trigger] r@[j]@, x@),
            ensures
                p <= r@.len(),
                forall|j: int| 0 <= j < p ==> lex_less(#[trigger] r@[j]@, x@),
                p < r@.len() ==> !lex_less(r@[p as int]@, x@),
            decreases r@.len() - p,
        {
            if !str_less(r[p].as_str(), x.as_str()) {
                break;
            }
            p = p + 1;
        }
        let ghost old_r = views_of(r@);
        let ghost xv = x@;
        proof {
            assert(views_of(v@).take(i + 1) =~= views_of(v@).take(i as int).push(xv));
            assert(views_of(v@)[i as int] == xv);
        }
        if p < r.len() && str_eq(r[p].as_str(), x.as_str()) {
            proof {
                assert(old_r[p as int] == xv);
                assert forall|k: Seq<char>| views_of(v@).take(i + 1).contains(k) <==> views_of(r@).contains(k) by {
                    if k == xv {
                        assert(views_of(r@)[p as int] == k);
                        assert(views_of(v@).take(i + 1)[i as int] == k);
                    } else if views_of(v@).take(i + 1).contains(k) {
                        let j = choose|j: int| 0 <= j < views_of(v@).take(i + 1).len() && #[trigger] views_of(v@).take(
                            i + 1,
                        )[j] == k;
                        assert(views_of(v@).take(i as int)[j] == k);
                    } else if views_of(r@).contains(k) {
                        assert(views_of(v@).take(i as int).contains(k));
                        let j = choose|j: int| 0 <= j < views_of(v@).take(i as int).len() && #[trigger] views_of(
                            v@,
                        ).take(i as int)[j] == k;
                        assert(views_of(v@).take(i + 1)[j] == k);
                    }
                }
            }
        } else {
            proof {
                if p < r@.len() {
                    lemma_lex_total(old_r[p as int], xv);
                    assert(lex_less(xv, old_r[p as int]));
                }
            }
            r.insert(p, x.clone());
            proof {
                let nr = views_of(r@);
                assert(nr =~= old_r.insert(p as int, xv));
                assert forall|a: int, b: int| 0 <= a && b == a + 1 && b < nr.len() implies lex_less(
                    #[trigger] nr[a],
                    #[trigger] nr[b],
                ) by {
                    if b < p {
                        assert(nr[a] == old_r[a] && nr[b] == old_r[b]);
                    } else if b == p {
                        assert(nr[a] == old_r[a] && nr[b] == xv);
                        assert(lex_less(r@[a]@, xv));
                    } else if a == p {
                        assert(nr[a] == xv && nr[b] == old_r[a]);
                    } else {
                        assert(nr[a] == old_r[a - 1] && nr[b] == old_r[b - 1]);
                    }
                }
                assert forall|k: Seq<char>| views_of(v@).take(i + 1).contains(k) <==> nr.contains(k) by {
                    if k == xv {
                        assert(nr[p as int] == k);
                        assert(views_of(v@).take(i + 1)[i as int] == k);
                    } else {
                        if nr.contains(k) {
                            let j = choose|j: int| 0 <= j < nr.len() && #[trigger] nr[j] == k;
                            if j < p {
                                assert(old_r[j] == k);
                            } else {
                                assert(old_r[j - 1] == k);
                            }
                            assert(old_r.contains(k));
                            let jj = choose|jj: int| 0 <= jj < views_of(v@).take(i as int).len() && #[trigger] views_of(
                                v@,
                            ).take(i as int)[jj] == k;
                            assert(views_of(v@).take(i + 1)[jj] == k);
                        }
                        if views_of(v@).take(i + 1).contains(k) {
                            let j = choose|j: int| 0 <= j < views_of(v@).take(i + 1).len() && #[trigger] views_of(
                                v@,
                            ).take(i + 1)[j] == k;
                            assert(views_of(v@).take(i as int)[j] == k);
                            assert(old_r.contains(k));
                            let jj = choose|jj: int| 0 <= jj < old_r.len() && #[trigger] old_r[jj] == k;
                            if jj < p {
                                assert(nr[jj] == k);
                            } else {
                                assert(nr[jj + 1] == k);
                            }
                        }
                    }
                }
            }
        }
        i = i + 1;
    }
    proof {
        assert(views_of(v@).take(v@.len() as int) =~= views_of(v@));
    }
    r
}

} // verus!
