use vstd::prelude::*;

verus! {

/// The map from column name to value that a sequence of pairs describes; a later pair for the
/// same column replaces an earlier one, as inserting the pairs one by one into a map does.
pub open spec fn pairs_map(s: Seq<(String, String)>) -> Map<Seq<char>, Seq<char>>
    decreases s.len(),
{
    if s.len() == 0 {
        Map::empty()
    } else {
        pairs_map(s.drop_last()).insert(s.last().0@, s.last().1@)
    }
}

/// The column names of a sequence of pairs, in order.
pub open spec fn pair_keys(s: Seq<(String, String)>) -> Seq<Seq<char>> {
    s.map_values(|p: (String, String)| p.0@)
}

/// No column name occurs twice.
pub open spec fn distinct_keys(s: Seq<(String, String)>) -> bool {
    forall|i: int, j: int| 0 <= i < j < s.len() ==> #[trigger] s[i].0@ != #[trigger] s[j].0@
}

/// The views of a list of strings, in order.
pub open spec fn string_views(s: Seq<String>) -> Seq<Seq<char>> {
    s.map_values(|x: String| x@)
}

/// Whether `v` is among `vs`.
pub fn contains_string(vs: &Vec<String>, v: &String) -> (b: bool)
    ensures
        b == string_views(vs@).contains(v@),
{
    let mut j: usize = 0;
    while j < vs.len()
        invariant
            j <= vs@.len(),
            forall|i: int| 0 <= i < j ==> #[trigger] vs@[i]@ != v@,
        decreases vs@.len() - j,
    {
        if vs[j] == *v {
            proof {
                assert(string_views(vs@)[j as int] == v@);
            }
            return true;
        }
        j = j + 1;
    }
    proof {
        if string_views(vs@).contains(v@) {
            let i: int = choose|i: int| 0 <= i < string_views(vs@).len() && string_views(vs@)[i] == v@;
            assert(vs@[i]@ == v@);
        }
    }
    false
}

/// A copy of a list of strings.
pub fn copy_strings(vs: &Vec<String>) -> (r: Vec<String>)
    ensures
        r@ == vs@,
{
    let mut r: Vec<String> = Vec::new();
    let mut j: usize = 0;
    while j < vs.len()
        invariant
            j <= vs@.len(),
            r@ =~= vs@.take(j as int),
        decreases vs@.len() - j,
    {
        r.push(vs[j].clone());
        j = j + 1;
        proof {
            assert(r@ =~= vs@.take(j as int));
        }
    }
    proof {
        assert(r@ =~= vs@);
    }
    r
}

/// One row of a CSV table: its values keyed by column name.
///
/// The columns are kept in the order in which they were first set; no column occurs twice.
pub struct Record {
    fields: Vec<(String, String)>,
}

impl View for Record {
    type V = Map<Seq<char>, Seq<char>>;

    closed spec fn view(&self) -> Map<Seq<char>, Seq<char>> {
        pairs_map(self.fields@)
    }
}

/// The column `k` is among the pairs.
pub open spec fn has_key(s: Seq<(String, String)>, k: Seq<char>) -> bool {
    exists|i: int| 0 <= i < s.len() && #[trigger] s[i].0@ == k
}

proof fn lemma_has_key_columns(s: Seq<(String, String)>)
    ensures
        forall|k: Seq<char>| has_key(s, k) <==> #[trigger] pair_keys(s).contains(k),
{
    assert forall|k: Seq<char>| has_key(s, k) <==> #[trigger] pair_keys(s).contains(k) by {
        if has_key(s, k) {
            let i: int = choose|i: int| 0 <= i < s.len() && #[trigger] s[i].0@ == k;
            assert(pair_keys(s)[i] == k);
        }
        if pair_keys(s).contains(k) {
            let i: int = choose|i: int| 0 <= i < pair_keys(s).len() && pair_keys(s)[i] == k;
            assert(s[i].0@ == k);
        }
    }
}

proof fn lemma_pairs_map(s: Seq<(String, String)>)
    requires
        distinct_keys(s),
    ensures
        forall|k: Seq<char>| #[trigger] pairs_map(s).contains_key(k) <==> has_key(s, k),
        forall|i: int| 0 <= i < s.len() ==> #[trigger] pairs_map(s)[s[i].0@] == s[i].1@,
        pairs_map(s).dom().finite(),
    decreases s.len(),
{
    if s.len() > 0 {
        let t = s.drop_last();
        assert forall|a: int, b: int| 0 <= a < b < t.len() implies #[trigger] t[a].0@ != #[trigger] t[b].0@ by {
            assert(t[a] == s[a] && t[b] == s[b]);
        }
        lemma_pairs_map(t);
        let lk = s.last().0@;
        assert forall|k: Seq<char>| #[trigger] pairs_map(s).contains_key(k) <==> has_key(s, k) by {
            if has_key(s, k) && k != lk {
                let i: int = choose|i: int| 0 <= i < s.len() && #[trigger] s[i].0@ == k;
                assert(i < t.len());
                assert(t[i] == s[i]);
                assert(has_key(t, k));
            }
            if pairs_map(s).contains_key(k) && k != lk {
                assert(pairs_map(t).contains_key(k));
                let i: int = choose|i: int| 0 <= i < t.len() && #[trigger] t[i].0@ == k;
                assert(t[i] == s[i]);
            }
            if k == lk {
                assert(s[s.len() - 1].0@ == k);
            }
        }
        assert forall|i: int| 0 <= i < s.len() implies #[trigger] pairs_map(s)[s[i].0@] == s[i].1@ by {
            if i < s.len() - 1 {
                assert(s[i] == t[i]);
                assert(s[i].0@ != s[s.len() - 1].0@);
            }
        }
    }
}

proof fn lemma_distinct_no_duplicates(s: Seq<(String, String)>)
    requires
        distinct_keys(s),
    ensures
        pair_keys(s).no_duplicates(),
{
    assert forall|i: int, j: int|
        0 <= i < pair_keys(s).len() && 0 <= j < pair_keys(s).len() && i != j implies
        pair_keys(s)[i] != pair_keys(s)[j] by {
        if i < j {
            assert(s[i].0@ != s[j].0@);
        } else {
            assert(s[j].0@ != s[i].0@);
        }
    }
}

proof fn lemma_update_same_key(s: Seq<(String, String)>, i: int, p: (String, String))
    requires
        distinct_keys(s),
        0 <= i < s.len(),
        p.0@ == s[i].0@,
    ensures
        distinct_keys(s.update(i, p)),
        pairs_map(s.update(i, p)) == pairs_map(s).insert(p.0@, p.1@),
        pair_keys(s.update(i, p)) == pair_keys(s),
{
    let u = s.update(i, p);
    assert forall|a: int, b: int| 0 <= a < b < u.len() implies #[trigger] u[a].0@ != #[trigger] u[b].0@ by {
        assert(s[a].0@ != s[b].0@);
    }
    assert(pair_keys(u) =~= pair_keys(s));
    lemma_pairs_map(s);
    lemma_pairs_map(u);
    let m = pairs_map(s).insert(p.0@, p.1@);
    assert forall|k: Seq<char>| #[trigger] pairs_map(u).contains_key(k) <==> m.contains_key(k) by {
        if has_key(u, k) {
            let j: int = choose|j: int| 0 <= j < u.len() && #[trigger] u[j].0@ == k;
            if j != i {
                assert(s[j].0@ == k);
            }
        }
        if has_key(s, k) {
            let j: int = choose|j: int| 0 <= j < s.len() && #[trigger] s[j].0@ == k;
            assert(u[j].0@ == k);
        }
        if k == p.0@ {
            assert(u[i].0@ == k);
        }
    }
    assert forall|k: Seq<char>| #[trigger] pairs_map(u).contains_key(k) implies pairs_map(u)[k]
        == m[k] by {
        let j: int = choose|j: int| 0 <= j < u.len() && #[trigger] u[j].0@ == k;
        assert(pairs_map(u)[u[j].0@] == u[j].1@);
        if j != i {
            assert(pairs_map(s)[s[j].0@] == s[j].1@);
        }
    }
    assert(pairs_map(u) =~= m);
}

proof fn lemma_remove_key(s: Seq<(String, String)>, i: int)
    requires
        distinct_keys(s),
        0 <= i < s.len(),
    ensures
        distinct_keys(s.remove(i)),
        pairs_map(s.remove(i)) == pairs_map(s).remove(s[i].0@),
{
    let u = s.remove(i);
    let k0 = s[i].0@;
    assert forall|a: int, b: int| 0 <= a < b < u.len() implies #[trigger] u[a].0@ != #[trigger] u[b].0@ by {
        let a2: int = if a < i { a } else { a + 1 };
        let b2: int = if b < i { b } else { b + 1 };
        assert(u[a] == s[a2]);
        assert(u[b] == s[b2]);
        assert(s[a2].0@ != s[b2].0@);
    }
    lemma_pairs_map(s);
    lemma_pairs_map(u);
    let m = pairs_map(s).remove(k0);
    assert forall|k: Seq<char>| #[trigger] pairs_map(u).contains_key(k) <==> m.contains_key(k) by {
        if has_key(u, k) {
            let j: int = choose|j: int| 0 <= j < u.len() && #[trigger] u[j].0@ == k;
            let j2: int = if j < i { j } else { j + 1 };
            assert(u[j] == s[j2]);
            assert(s[j2].0@ == k);
            if j2 < i {
                assert(s[j2].0@ != s[i].0@);
            } else {
                assert(s[i].0@ != s[j2].0@);
            }
        }
        if m.contains_key(k) {
            let j: int = choose|j: int| 0 <= j < s.len() && #[trigger] s[j].0@ == k;
            assert(j != i);
            let j2: int = if j < i { j } else { j - 1 };
            assert(u[j2] == s[j]);
            assert(u[j2].0@ == k);
        }
    }
    assert forall|k: Seq<char>| #[trigger] pairs_map(u).contains_key(k) implies pairs_map(u)[k]
        == m[k] by {
        let j: int = choose|j: int| 0 <= j < u.len() && #[trigger] u[j].0@ == k;
        let j2: int = if j < i { j } else { j + 1 };
        assert(u[j] == s[j2]);
        assert(pairs_map(u)[u[j].0@] == u[j].1@);
        assert(pairs_map(s)[s[j2].0@] == s[j2].1@);
    }
    assert(pairs_map(u) =~= m);
}

impl Record {
    #[verifier::type_invariant]
    spec fn keys_are_distinct(self) -> bool {
        distinct_keys(self.fields@)
    }

    /// The record's column names, in the order in which they were first set.
    pub closed spec fn columns(&self) -> Seq<Seq<char>> {
        pair_keys(self.fields@)
    }

    /// A record with no columns.
    pub fn new() -> (r: Record)
        ensures
            r@ == Map::<Seq<char>, Seq<char>>::empty(),
            r.columns() == Seq::<Seq<char>>::empty(),
    {
        let r = Record { fields: Vec::new() };
        assert(r.columns() =~= Seq::<Seq<char>>::empty());
        r
    }

    /// Where the column `key` stands among the pairs, if it is there.
    fn position(&self, key: &String) -> (r: Option<usize>)
        ensures
            match r {
                Some(i) => i < self.fields@.len() && self.fields@[i as int].0@ == key@,
                None => !has_key(self.fields@, key@),
            },
    {
        let mut i: usize = 0;
        while i < self.fields.len()
            invariant
                i <= self.fields@.len(),
                forall|j: int| 0 <= j < i ==> self.fields@[j].0@ != key@,
            decreases self.fields@.len() - i,
        {
            if self.fields[i].0 == *key {
                return Some(i);
            }
            i = i + 1;
        }
        None
    }

    /// The value of the column `key`, if the record has that column.
    pub fn get(&self, key: &String) -> (r: Option<&String>)
        ensures
            r is Some <==> self@.contains_key(key@),
            r matches Some(v) ==> v@ == self@[key@],
    {
        proof {
            use_type_invariant(self);
            lemma_pairs_map(self.fields@);
        }
        match self.position(key) {
            Some(i) => {
                proof {
                    assert(has_key(self.fields@, key@));
                }
                Some(&self.fields[i].1)
            },
            None => None,
        }
    }

    /// Sets the column `key` to `value`; a new column goes after the existing ones.
    pub fn insert(&mut self, key: String, value: String)
        ensures
            final(self)@ == old(self)@.insert(key@, value@),
            final(self).columns() == if old(self).columns().contains(key@) {
                old(self).columns()
            } else {
                old(self).columns().push(key@)
            },
    {
        proof {
            use_type_invariant(&*self);
        }
        let pos = self.position(&key);
        let mut fields: Vec<(String, String)> = Vec::new();
        std::mem::swap(&mut fields, &mut self.fields);
        let ghost before = fields@;
        match pos {
            Some(i) => {
                proof {
                    lemma_update_same_key(before, i as int, (key, value));
                    lemma_has_key_columns(before);
                    assert(has_key(before, key@));
                }
                fields.set(i, (key, value));
            },
            None => {
                proof {
                    assert forall|a: int, b: int|
                        0 <= a < b < before.len() + 1 implies #[trigger] before.push(
                        (key, value),
                    )[a].0@ != #[trigger] before.push((key, value))[b].0@ by {
                        if b == before.len() {
                            assert(before.push((key, value))[a] == before[a]);
                        }
                    }
                    lemma_has_key_columns(before);
                    assert(before.push((key, value)).drop_last() =~= before);
                    assert(pair_keys(before.push((key, value))) =~= pair_keys(before).push(key@));
                }
                fields.push((key, value));
            },
        }
        self.fields = fields;
    }

    /// Drops the column `key`, if the record has it; the other columns keep their order.
    pub fn remove(&mut self, key: &String)
        ensures
            final(self)@ == old(self)@.remove(key@),
            !old(self).columns().contains(key@) ==> final(self).columns() == old(self).columns(),
            old(self).columns().contains(key@) ==> exists|i: int|
                0 <= i < old(self).columns().len() && old(self).columns()[i] == key@ && final(self).columns()
                    == old(self).columns().remove(i),
    {
        proof {
            use_type_invariant(&*self);
            lemma_pairs_map(self.fields@);
        }
        match self.position(key) {
            Some(i) => {
                let mut fields: Vec<(String, String)> = Vec::new();
                std::mem::swap(&mut fields, &mut self.fields);
                let ghost before = fields@;
                proof {
                    lemma_remove_key(fields@, i as int);
                }
                fields.remove(i);
                proof {
                    assert(pair_keys(fields@) =~= pair_keys(before).remove(i as int));
                    assert(pair_keys(before)[i as int] == key@);
                }
                self.fields = fields;
            },
            None => {
                proof {
                    assert(self@.remove(key@) =~= self@);
                    lemma_has_key_columns(self.fields@);
                }
            },
        }
    }

    /// A copy of the record, with the same columns in the same order.
    pub fn duplicate(&self) -> (r: Record)
        ensures
            r@ == self@,
            r.columns() == self.columns(),
    {
        proof {
            use_type_invariant(self);
        }
        let mut fields: Vec<(String, String)> = Vec::new();
        let mut i: usize = 0;
        while i < self.fields.len()
            invariant
                i <= self.fields@.len(),
                fields@ =~= self.fields@.take(i as int),
            decreases self.fields@.len() - i,
        {
            let k = self.fields[i].0.clone();
            let v = self.fields[i].1.clone();
            fields.push((k, v));
            i = i + 1;
            proof {
                assert(fields@ =~= self.fields@.take(i as int));
            }
        }
        proof {
            assert(fields@ =~= self.fields@);
        }
        Record { fields }
    }

    /// The column names, in order.
    pub fn keys(&self) -> (ks: Vec<String>)
        ensures
            string_views(ks@) == self.columns(),
            self.columns().no_duplicates(),
            forall|k: Seq<char>| self@.contains_key(k) <==> self.columns().contains(k),
            self@.dom().finite(),
    {
        proof {
            use_type_invariant(self);
            lemma_pairs_map(self.fields@);
            lemma_distinct_no_duplicates(self.fields@);
        }
        let mut ks: Vec<String> = Vec::new();
        let mut i: usize = 0;
        while i < self.fields.len()
            invariant
                i <= self.fields@.len(),
                ks@.len() == i,
                forall|j: int| 0 <= j < i ==> #[trigger] ks@[j]@ == self.fields@[j].0@,
            decreases self.fields@.len() - i,
        {
            ks.push(self.fields[i].0.clone());
            i = i + 1;
        }
        proof {
            assert(string_views(ks@) =~= pair_keys(self.fields@));
            lemma_has_key_columns(self.fields@);
        }
        ks
    }
}

/// Setting a column and reading it back gives the value set; every other column reads as
/// before.
pub proof fn law_read_after_insert(before: Map<Seq<char>, Seq<char>>, k: Seq<char>, v: Seq<char>)
    ensures
        before.insert(k, v).contains_key(k),
        before.insert(k, v)[k] == v,
        forall|k2: Seq<char>| k2 != k ==> (#[trigger] before.insert(k, v).contains_key(k2) <==> before.contains_key(k2)),
        forall|k2: Seq<char>| k2 != k && before.contains_key(k2) ==> #[trigger] before.insert(k, v)[k2] == before[k2],
{
}

/// Dropping a column leaves nothing to read under it; every other column reads as before.
pub proof fn law_read_after_remove(before: Map<Seq<char>, Seq<char>>, k: Seq<char>)
    ensures
        !before.remove(k).contains_key(k),
        forall|k2: Seq<char>| k2 != k ==> (#[trigger] before.remove(k).contains_key(k2) <==> before.contains_key(k2)),
        forall|k2: Seq<char>| k2 != k && before.contains_key(k2) ==> #[trigger] before.remove(k)[k2] == before[k2],
{
}

} // verus!
