use vstd::prelude::*;
use crate::value::Dup;

verus! {

/// A string-keyed table kept as an ordered list of pairs.
///
/// The abstract content is the `Map` view; `pairs()` additionally exposes the
/// entry order, which the custom-line properties rely on (their first key
/// names the command).
pub struct StrMap<V> {
    entries: Vec<(String, V)>,
}

/// The map denoted by a pair sequence; on duplicate keys the later pair wins.
pub open spec fn map_of<V>(s: Seq<(String, V)>) -> Map<Seq<char>, V>
    decreases s.len(),
{
    if s.len() == 0 {
        Map::empty()
    } else {
        map_of(s.drop_last()).insert(s.last().0@, s.last().1)
    }
}

/// Keys occur at most once in a pair sequence.
pub open spec fn unique_keys<V>(s: Seq<(String, V)>) -> bool {
    forall|i: int, j: int| 0 <= i < j < s.len() ==> s[i].0@ != s[j].0@
}

impl<V> View for StrMap<V> {
    type V = Map<Seq<char>, V>;

    closed spec fn view(&self) -> Map<Seq<char>, V> {
        map_of(self.entries@)
    }
}

pub proof fn lemma_map_of_contains<V>(s: Seq<(String, V)>, k: Seq<char>)
    ensures
        map_of(s).contains_key(k) <==> exists|i: int| 0 <= i < s.len() && s[i].0@ == k,
    decreases s.len(),
{
    if s.len() == 0 {
    } else {
        lemma_map_of_contains(s.drop_last(), k);
        if s.last().0@ == k {
            assert(s[s.len() - 1].0@ == k);
        } else {
            if map_of(s).contains_key(k) {
                let i = choose|i: int| 0 <= i < s.drop_last().len() && s.drop_last()[i].0@ == k;
                assert(s[i].0@ == k);
            }
            if exists|i: int| 0 <= i < s.len() && s[i].0@ == k {
                let i = choose|i: int| 0 <= i < s.len() && s[i].0@ == k;
                assert(s.drop_last()[i].0@ == k);
            }
        }
    }
}

pub proof fn lemma_map_of_index<V>(s: Seq<(String, V)>, i: int)
    requires
        0 <= i < s.len(),
        forall|j: int| i < j < s.len() ==> s[j].0@ != s[i].0@,
    ensures
        map_of(s).contains_key(s[i].0@),
        map_of(s)[s[i].0@] == s[i].1,
    decreases s.len(),
{
    if i == s.len() - 1 {
    } else {
        assert(forall|j: int|
            i < j < s.drop_last().len() ==> s.drop_last()[j].0@ != s.drop_last()[i].0@);
        lemma_map_of_index(s.drop_last(), i);
    }
}

/// Removing the one entry that holds a key removes that key from the map.
proof fn lemma_map_of_remove<V>(s: Seq<(String, V)>, i: int)
    requires
        0 <= i < s.len(),
        unique_keys(s),
    ensures
        map_of(s.remove(i)) == map_of(s).remove(s[i].0@),
    decreases s.len(),
{
    s.remove_ensures(i);
    if i == s.len() - 1 {
        assert(s.remove(i) =~= s.drop_last());
        lemma_map_of_contains(s.drop_last(), s[i].0@);
        assert forall|j: int| 0 <= j < s.drop_last().len() implies s.drop_last()[j].0@ != s[i].0@
            by {
            assert(s.drop_last()[j] == s[j]);
        }
        assert(map_of(s.drop_last()).insert(s[i].0@, s[i].1).remove(s[i].0@) =~= map_of(
            s.drop_last(),
        ));
    } else {
        assert forall|j: int, l: int|
            0 <= j < l < s.drop_last().len() implies s.drop_last()[j].0@ != s.drop_last()[l].0@
            by {
            assert(s.drop_last()[j] == s[j]);
            assert(s.drop_last()[l] == s[l]);
        }
        lemma_map_of_remove(s.drop_last(), i);
        assert(s.remove(i).drop_last() =~= s.drop_last().remove(i));
        assert(s.remove(i).last() == s.last());
        assert(map_of(s.remove(i)) == map_of(s.drop_last().remove(i)).insert(
            s.last().0@,
            s.last().1,
        ));
        assert(map_of(s.drop_last()).remove(s[i].0@).insert(s.last().0@, s.last().1) =~= map_of(
            s.drop_last(),
        ).insert(s.last().0@, s.last().1).remove(s[i].0@));
    }
}

/// Uniqueness carries over to the sequence with one entry removed.
proof fn lemma_unique_remove<V>(s: Seq<(String, V)>, i: int)
    requires
        0 <= i < s.len(),
        unique_keys(s),
    ensures
        unique_keys(s.remove(i)),
{
    s.remove_ensures(i);
    let cur = s.remove(i);
    assert forall|j: int, l: int| 0 <= j < l < cur.len() implies cur[j].0@ != cur[l].0@ by {
        if j < i {
            assert(cur[j] == s[j]);
        } else {
            assert(cur[j] == s[j + 1]);
        }
        if l < i {
            assert(cur[l] == s[l]);
        } else {
            assert(cur[l] == s[l + 1]);
        }
    }
}

impl<V> StrMap<V> {
    /// The entries in order.
    pub closed spec fn pairs(&self) -> Seq<(String, V)> {
        self.entries@
    }

    /// Keys occur at most once.
    pub open spec fn wf(&self) -> bool {
        unique_keys(self.pairs())
    }

    pub fn new() -> (r: Self)
        ensures
            r.wf(),
            r@ == Map::<Seq<char>, V>::empty(),
            r.pairs() == Seq::<(String, V)>::empty(),
    {
        let r = StrMap { entries: Vec::new() };
        proof {
            assert(r.pairs() =~= Seq::<(String, V)>::empty());
        }
        r
    }

    pub fn len(&self) -> (n: usize)
        ensures
            n == self.pairs().len(),
    {
        self.entries.len()
    }

    pub fn get(&self, key: &String) -> (r: Option<&V>)
        requires
            self.wf(),
        ensures
            match r {
                Some(v) => self@.contains_key(key@) && *v == self@[key@],
                None => !self@.contains_key(key@),
            },
    {
        let n = self.entries.len();
        let mut i: usize = 0;
        while i < n
            invariant
                n == self.pairs().len(),
                0 <= i <= n,
                self.wf(),
                forall|j: int| 0 <= j < i ==> self.pairs()[j].0@ != key@,
            decreases n - i,
        {
            if self.entries[i].0.eq(key) {
                proof {
                    assert forall|j: int|
                        i < j < self.pairs().len() implies self.pairs()[j].0@ != self.pairs()[
                        i as int
                    ].0@ by {}
                    lemma_map_of_index(self.pairs(), i as int);
                }
                return Some(&self.entries[i].1);
            }
            i += 1;
        }
        proof {
            lemma_map_of_contains(self.pairs(), key@);
        }
        None
    }

    pub fn contains_key(&self, key: &String) -> (r: bool)
        requires
            self.wf(),
        ensures
            r == self@.contains_key(key@),
    {
        self.get(key).is_some()
    }

    /// Appends a pair whose key is fresh; keeps the entry order.
    pub fn push_pair(&mut self, key: String, value: V)
        requires
            old(self).wf(),
            !old(self)@.contains_key(key@),
        ensures
            final(self).wf(),
            final(self)@ == old(self)@.insert(key@, value),
            final(self).pairs() == old(self).pairs().push((key, value)),
    {
        proof {
            lemma_map_of_contains(self.pairs(), key@);
        }
        self.entries.push((key, value));
        proof {
            assert(self.pairs().drop_last() =~= old(self).pairs());
            assert(self.pairs().last().0@ == key@);
        }
    }

    /// Inserts or replaces; the entry order of an existing key is not kept.
    pub fn set_value(&mut self, key: String, value: V)
        requires
            old(self).wf(),
        ensures
            final(self).wf(),
            final(self)@ == old(self)@.insert(key@, value),
    {
        let ghost kview = key@;
        let n = self.entries.len();
        let mut i: usize = 0;
        while i < n
            invariant
                n == self.pairs().len(),
                0 <= i <= n,
                self.wf(),
                self.pairs() == old(self).pairs(),
                forall|j: int| 0 <= j < i ==> self.pairs()[j].0@ != kview,
                key@ == kview,
            decreases n - i,
        {
            if self.entries[i].0.eq(&key) {
                let ghost prev = self.pairs();
                let _ = self.entries.remove(i);
                self.entries.push((key, value));
                proof {
                    prev.remove_ensures(i as int);
                    let cur = self.pairs();
                    assert(cur.drop_last() =~= prev.remove(i as int));
                    lemma_map_of_remove(prev, i as int);
                    lemma_unique_remove(prev, i as int);
                    assert(map_of(cur) == map_of(prev).remove(kview).insert(kview, cur.last().1));
                    assert(map_of(prev).remove(kview).insert(kview, cur.last().1) =~= map_of(
                        prev,
                    ).insert(kview, cur.last().1));
                    let mid = prev.remove(i as int);
                    lemma_map_of_contains(mid, kview);
                    assert forall|j: int, l: int| 0 <= j < l < cur.len() implies cur[j].0@
                        != cur[l].0@ by {
                        if l < cur.len() - 1 {
                            assert(cur[j] == mid[j]);
                            assert(cur[l] == mid[l]);
                        } else {
                            assert(cur[j] == mid[j]);
                            assert(cur[l].0@ == kview);
                            assert(!map_of(mid).contains_key(kview));
                            lemma_map_of_index_exists(mid, j);
                        }
                    }
                }
                return ;
            }
            i += 1;
        }
        proof {
            lemma_map_of_contains(self.pairs(), kview);
        }
        self.entries.push((key, value));
        proof {
            assert(self.pairs().drop_last() =~= old(self).pairs());
            assert(self.pairs().last().0@ == kview);
        }
    }

    /// Removes a key if present.
    pub fn remove_key(&mut self, key: &String)
        requires
            old(self).wf(),
        ensures
            final(self).wf(),
            final(self)@ == old(self)@.remove(key@),
    {
        let n = self.entries.len();
        let mut i: usize = 0;
        while i < n
            invariant
                n == self.pairs().len(),
                0 <= i <= n,
                self.wf(),
                self.pairs() == old(self).pairs(),
                forall|j: int| 0 <= j < i ==> self.pairs()[j].0@ != key@,
            decreases n - i,
        {
            if self.entries[i].0.eq(key) {
                let ghost prev = self.pairs();
                let _ = self.entries.remove(i);
                proof {
                    lemma_map_of_remove(prev, i as int);
                    lemma_unique_remove(prev, i as int);
                }
                return ;
            }
            i += 1;
        }
        proof {
            lemma_map_of_contains(self.pairs(), key@);
            assert(self@.remove(key@) =~= self@);
        }
    }

    /// The first entry's key: for a custom line, the command it names.
    pub fn first_key(&self) -> (r: Option<&String>)
        ensures
            match r {
                Some(k) => self.pairs().len() > 0 && *k == self.pairs()[0].0,
                None => self.pairs().len() == 0,
            },
    {
        if self.entries.len() > 0 {
            Some(&self.entries[0].0)
        } else {
            None
        }
    }

    /// All keys, in entry order, as fresh strings.
    pub fn key_strings(&self) -> (r: Vec<String>)
        ensures
            r@.len() == self.pairs().len(),
            forall|i: int| 0 <= i < r@.len() ==> r@[i]@ == self.pairs()[i].0@,
    {
        let n = self.entries.len();
        let mut r: Vec<String> = Vec::new();
        let mut i: usize = 0;
        while i < n
            invariant
                n == self.pairs().len(),
                0 <= i <= n,
                r@.len() == i,
                forall|j: int| 0 <= j < i ==> r@[j]@ == self.pairs()[j].0@,
            decreases n - i,
        {
            r.push(self.entries[i].0.clone());
            i += 1;
        }
        r
    }

    /// Folds another table in; on a shared key the other table's value wins.
    pub fn extend_from(&mut self, other: StrMap<V>)
        requires
            old(self).wf(),
            other.wf(),
        ensures
            final(self).wf(),
            final(self)@ == old(self)@.union_prefer_right(other@),
    {
        let ghost goal = old(self)@.union_prefer_right(other@);
        let mut rest = other;
        while rest.entries.len() > 0
            invariant
                self.wf(),
                rest.wf(),
                goal == self@.union_prefer_right(map_of(rest.pairs())),
            decreases rest.pairs().len(),
        {
            let ghost prevrest = rest.pairs();
            let popped = rest.entries.pop();
            match popped {
                None => {
                    proof {
                        assert(false);
                    }
                },
                Some(p) => {
                    let ghost before = self@;
                    let ghost restmap = map_of(rest.pairs());
                    let ghost pk = p.0@;
                    let ghost pv = p.1;
                    proof {
                        assert(rest.pairs() =~= prevrest.drop_last());
                        lemma_map_of_contains(rest.pairs(), pk);
                        assert forall|j: int| 0 <= j < rest.pairs().len() implies rest.pairs()[
                            j
                        ].0@ != pk by {
                            assert(rest.pairs()[j] == prevrest[j]);
                            assert(prevrest[j].0@ != prevrest[prevrest.len() - 1].0@);
                        }
                        assert(!restmap.contains_key(pk));
                        assert forall|j: int, l: int|
                            0 <= j < l < rest.pairs().len() implies rest.pairs()[j].0@
                            != rest.pairs()[l].0@ by {
                            assert(rest.pairs()[j] == prevrest[j]);
                            assert(rest.pairs()[l] == prevrest[l]);
                        }
                    }
                    let (k, v) = p;
                    self.set_value(k, v);
                    proof {
                        assert(before.union_prefer_right(restmap.insert(pk, pv)) =~= before.insert(
                            pk,
                            pv,
                        ).union_prefer_right(restmap));
                        assert(map_of(prevrest) == restmap.insert(pk, pv));
                    }
                },
            }
        }
        proof {
            assert(rest.pairs().len() == 0);
            assert(map_of(rest.pairs()) =~= Map::<Seq<char>, V>::empty());
            assert(self@.union_prefer_right(Map::<Seq<char>, V>::empty()) =~= self@);
        }
    }
}

/// Every key of the denoted map occurs at some index.
proof fn lemma_map_of_index_exists<V>(s: Seq<(String, V)>, j: int)
    requires
        0 <= j < s.len(),
    ensures
        map_of(s).contains_key(s[j].0@),
    decreases s.len(),
{
    if j == s.len() - 1 {
    } else {
        lemma_map_of_index_exists(s.drop_last(), j);
        assert(s.drop_last()[j] == s[j]);
    }
}

impl<V: Dup> StrMap<V> {
    /// Deep copy; the entries and therefore the map view are proved equal.
    pub fn duplicate(&self) -> (r: Self)
        ensures
            r.pairs() == self.pairs(),
            r@ == self@,
    {
        let n = self.entries.len();
        let mut out: Vec<(String, V)> = Vec::new();
        let mut i: usize = 0;
        while i < n
            invariant
                n == self.pairs().len(),
                0 <= i <= n,
                out@.len() == i,
                forall|j: int| 0 <= j < i ==> out@[j] == self.pairs()[j],
            decreases n - i,
        {
            let k = self.entries[i].0.clone();
            let v = self.entries[i].1.dup();
            out.push((k, v));
            i += 1;
        }
        let r = StrMap { entries: out };
        proof {
            assert(r.pairs() =~= self.pairs());
        }
        r
    }
}

} // verus!
