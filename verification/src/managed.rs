//! The key/value pairs of an env file's managed block, kept sorted by key
//! (code-point order, the order `String` sorts in) with no key twice.
use crate::text::chars_of;
use vstd::prelude::*;

verus! {

/// Lexicographic `<` on character sequences, by code point.
pub open spec fn seq_lt(a: Seq<char>, b: Seq<char>) -> bool
    decreases a.len(),
{
    if a.len() == 0 {
        b.len() > 0
    } else if b.len() == 0 {
        false
    } else if a[0] != b[0] {
        a[0] < b[0]
    } else {
        seq_lt(a.drop_first(), b.drop_first())
    }
}

pub proof fn lemma_lt_irreflexive(a: Seq<char>)
    ensures
        !seq_lt(a, a),
    decreases a.len(),
{
    if a.len() > 0 {
        lemma_lt_irreflexive(a.drop_first());
    }
}

pub proof fn lemma_lt_total(a: Seq<char>, b: Seq<char>)
    ensures
        a == b || seq_lt(a, b) || seq_lt(b, a),
        !(seq_lt(a, b) && seq_lt(b, a)),
    decreases a.len(),
{
    if a.len() > 0 && b.len() > 0 {
        if a[0] == b[0] {
            lemma_lt_total(a.drop_first(), b.drop_first());
            if a.drop_first() == b.drop_first() {
                assert(a =~= seq![a[0]] + a.drop_first());
                assert(b =~= seq![b[0]] + b.drop_first());
            }
        } else {
        }
    } else if a.len() == 0 && b.len() == 0 {
        assert(a =~= b);
    }
}

pub proof fn lemma_lt_transitive(a: Seq<char>, b: Seq<char>, c: Seq<char>)
    requires
        seq_lt(a, b),
        seq_lt(b, c),
    ensures
        seq_lt(a, c),
    decreases a.len(),
{
    if a.len() > 0 && b.len() > 0 && c.len() > 0 {
        if a[0] == b[0] && b[0] == c[0] {
            lemma_lt_transitive(a.drop_first(), b.drop_first(), c.drop_first());
        }
    }
}

/// Every key is smaller than every later key.
pub open spec fn sorted(e: Seq<(Seq<char>, Seq<char>)>) -> bool {
    forall|i: int, j: int| 0 <= i < j < e.len() ==> seq_lt(#[trigger] e[i].0, #[trigger] e[j].0)
}

/// The map that results from inserting the pairs in order (a later pair
/// for the same key wins, as with repeated `BTreeMap::insert`).
pub open spec fn pairs_map(e: Seq<(Seq<char>, Seq<char>)>) -> Map<Seq<char>, Seq<char>>
    decreases e.len(),
{
    if e.len() == 0 {
        Map::empty()
    } else {
        pairs_map(e.drop_last()).insert(e.last().0, e.last().1)
    }
}

/// In sorted pairs (so no key twice) each key maps to its own value.
pub proof fn lemma_pairs_map_sorted(e: Seq<(Seq<char>, Seq<char>)>)
    requires
        sorted(e),
    ensures
        forall|k: Seq<char>|
            pairs_map(e).contains_key(k) <==> exists|i: int| 0 <= i < e.len() && #[trigger] e[i].0
                == k,
        forall|i: int| 0 <= i < e.len() ==> pairs_map(e)[#[trigger] e[i].0] == e[i].1,
    decreases e.len(),
{
    if e.len() > 0 {
        let d = e.drop_last();
        assert(sorted(d));
        lemma_pairs_map_sorted(d);
        assert forall|k: Seq<char>|
            pairs_map(e).contains_key(k) <==> exists|i: int| 0 <= i < e.len() && #[trigger] e[i].0
                == k by {
            if pairs_map(d).contains_key(k) {
                let i = choose|i: int| 0 <= i < d.len() && #[trigger] d[i].0 == k;
                assert(e[i].0 == k);
            }
            if exists|i: int| 0 <= i < e.len() && #[trigger] e[i].0 == k {
                let i = choose|i: int| 0 <= i < e.len() && #[trigger] e[i].0 == k;
                if i < e.len() - 1 {
                    assert(d[i].0 == k);
                }
            }
        }
        assert forall|i: int| 0 <= i < e.len() implies pairs_map(e)[#[trigger] e[i].0]
            == e[i].1 by {
            if i < e.len() - 1 {
                assert(seq_lt(e[i].0, e[e.len() - 1].0));
                lemma_lt_irreflexive(e[i].0);
                assert(d[i].0 == e[i].0);
            }
        }
    }
}

/// Sorted pairs that make the same map are the same sequence.
pub proof fn lemma_sorted_unique(a: Seq<(Seq<char>, Seq<char>)>, b: Seq<(Seq<char>, Seq<char>)>)
    requires
        sorted(a),
        sorted(b),
        pairs_map(a) == pairs_map(b),
    ensures
        a == b,
    decreases a.len() + b.len(),
{
    lemma_pairs_map_sorted(a);
    lemma_pairs_map_sorted(b);
    if a.len() == 0 || b.len() == 0 {
        if a.len() > 0 {
            assert(pairs_map(a).contains_key(a[0].0));
        }
        if b.len() > 0 {
            assert(pairs_map(b).contains_key(b[0].0));
        }
        assert(a =~= b);
    } else {
        // the largest keys agree
        let ka = a.last().0;
        let kb = b.last().0;
        assert(pairs_map(a).contains_key(ka));
        assert(pairs_map(b).contains_key(kb));
        let ib = choose|i: int| 0 <= i < b.len() && #[trigger] b[i].0 == ka;
        let ia = choose|i: int| 0 <= i < a.len() && #[trigger] a[i].0 == kb;
        if ka != kb {
            lemma_lt_total(ka, kb);
            if seq_lt(ka, kb) {
                if ia < a.len() - 1 {
                    assert(seq_lt(a[ia].0, ka));
                    lemma_lt_total(kb, ka);
                }
                lemma_lt_irreflexive(ka);
            } else {
                if ib < b.len() - 1 {
                    assert(seq_lt(b[ib].0, kb));
                    lemma_lt_total(ka, kb);
                }
                lemma_lt_irreflexive(kb);
            }
        }
        assert(ka == kb);
        assert(a.last().1 == pairs_map(a)[ka]);
        assert(b.last().1 == pairs_map(b)[kb]);
        let da = a.drop_last();
        let db = b.drop_last();
        assert(sorted(da));
        assert(sorted(db));
        lemma_pairs_map_sorted(da);
        lemma_pairs_map_sorted(db);
        assert(!pairs_map(da).contains_key(ka)) by {
            if pairs_map(da).contains_key(ka) {
                let i = choose|i: int| 0 <= i < da.len() && #[trigger] da[i].0 == ka;
                assert(seq_lt(a[i].0, a[a.len() - 1].0));
                lemma_lt_irreflexive(ka);
            }
        }
        assert(!pairs_map(db).contains_key(kb)) by {
            if pairs_map(db).contains_key(kb) {
                let i = choose|i: int| 0 <= i < db.len() && #[trigger] db[i].0 == kb;
                assert(seq_lt(b[i].0, b[b.len() - 1].0));
                lemma_lt_irreflexive(kb);
            }
        }
        assert(pairs_map(da) =~= pairs_map(a).remove(ka));
        assert(pairs_map(db) =~= pairs_map(b).remove(kb));
        lemma_sorted_unique(da, db);
        assert(a =~= da.push(a.last()));
        assert(b =~= db.push(b.last()));
    }
}

/// Exec `<` on character vectors.
pub fn lt_chars(a: &Vec<char>, b: &Vec<char>) -> (r: bool)
    ensures
        r == seq_lt(a@, b@),
{
    let mut i: usize = 0;
    assert(a@.skip(0) =~= a@);
    assert(b@.skip(0) =~= b@);
    while i < a.len() && i < b.len() && a[i] == b[i]
        invariant
            i <= a.len(),
            i <= b.len(),
            a@.take(i as int) == b@.take(i as int),
            seq_lt(a@, b@) == seq_lt(a@.skip(i as int), b@.skip(i as int)),
        decreases a.len() - i,
    {
        let ghost sa = a@.skip(i as int);
        let ghost sb = b@.skip(i as int);
        assert(sa.drop_first() =~= a@.skip(i + 1));
        assert(sb.drop_first() =~= b@.skip(i + 1));
        i += 1;
        assert(a@.take(i as int) =~= a@.take(i - 1).push(a@[i - 1]));
        assert(b@.take(i as int) =~= b@.take(i - 1).push(b@[i - 1]));
    }
    let ghost sa = a@.skip(i as int);
    let ghost sb = b@.skip(i as int);
    if i == a.len() {
        i < b.len()
    } else if i == b.len() {
        false
    } else {
        assert(sa[0] == a@[i as int]);
        assert(sb[0] == b@[i as int]);
        a[i] < b[i]
    }
}

/// Sorted key/value pairs, the contents of a managed block.
#[derive(Debug)]
pub struct ManagedVars {
    entries: Vec<(String, String)>,
}

impl View for ManagedVars {
    type V = Seq<(Seq<char>, Seq<char>)>;

    closed spec fn view(&self) -> Seq<(Seq<char>, Seq<char>)> {
        Seq::new(self.entries.len() as nat, |i: int| (self.entries@[i].0@, self.entries@[i].1@))
    }
}

impl ManagedVars {
    /// Well-formed: sorted by key, so no key occurs twice.
    pub open spec fn wf(&self) -> bool {
        sorted(self@)
    }

    /// The pairs as a map.
    pub open spec fn map(&self) -> Map<Seq<char>, Seq<char>> {
        pairs_map(self@)
    }

    pub fn new() -> (r: ManagedVars)
        ensures
            r@ == Seq::<(Seq<char>, Seq<char>)>::empty(),
            r.wf(),
    {
        let r = ManagedVars { entries: Vec::new() };
        assert(r@ =~= Seq::<(Seq<char>, Seq<char>)>::empty());
        r
    }

    pub fn len(&self) -> (n: usize)
        ensures
            n == self@.len(),
    {
        self.entries.len()
    }

    pub fn is_empty(&self) -> (b: bool)
        ensures
            b == (self@.len() == 0),
    {
        self.entries.len() == 0
    }

    /// The `i`-th pair in key order.
    pub fn entry(&self, i: usize) -> (r: (&String, &String))
        requires
            i < self@.len(),
        ensures
            r.0@ == self@[i as int].0,
            r.1@ == self@[i as int].1,
    {
        let e = &self.entries[i];
        (&e.0, &e.1)
    }

    /// Position of `key`, or the position where it would be inserted.
    fn search(&self, key: &Vec<char>) -> (r: (usize, bool))
        requires
            self.wf(),
        ensures
            r.0 <= self@.len(),
            forall|j: int| 0 <= j < r.0 ==> seq_lt(#[trigger] self@[j].0, key@),
            r.1 ==> r.0 < self@.len() && self@[r.0 as int].0 == key@,
            !r.1 ==> forall|j: int| r.0 <= j < self@.len() ==> seq_lt(key@, #[trigger] self@[j].0),
    {
        let mut i: usize = 0;
        while i < self.entries.len()
            invariant
                self.wf(),
                i <= self@.len(),
                forall|j: int| 0 <= j < i ==> seq_lt(#[trigger] self@[j].0, key@),
            decreases self@.len() - i,
        {
            let k = chars_of(self.entries[i].0.as_str());
            assert(k@ == self@[i as int].0);
            if !lt_chars(&k, key) {
                proof {
                    lemma_lt_total(k@, key@);
                }
                if crate::text::seq_eq(&k, key) {
                    return (i, true);
                }
                assert forall|j: int| i <= j < self@.len() implies seq_lt(
                    key@,
                    #[trigger] self@[j].0,
                ) by {
                    if j > i {
                        assert(seq_lt(self@[i as int].0, self@[j].0));
                        lemma_lt_transitive(key@, self@[i as int].0, self@[j].0);
                    }
                }
                return (i, false);
            }
            i += 1;
        }
        (i, false)
    }

    /// `BTreeMap::get`.
    pub fn get(&self, key: &str) -> (r: Option<&String>)
        requires
            self.wf(),
        ensures
            match r {
                Some(v) => self.map().contains_key(key@) && self.map()[key@] == v@,
                None => !self.map().contains_key(key@),
            },
    {
        let k = chars_of(key);
        let (i, found) = self.search(&k);
        proof {
            lemma_pairs_map_sorted(self@);
        }
        if found {
            Some(&self.entries[i].1)
        } else {
            proof {
                if self.map().contains_key(key@) {
                    let j = choose|j: int| 0 <= j < self@.len() && #[trigger] self@[j].0 == key@;
                    lemma_lt_irreflexive(key@);
                }
            }
            None
        }
    }

    /// `BTreeMap::insert`: sets `key` to `value`.
    pub fn insert(&mut self, key: &str, value: &str)
        requires
            old(self).wf(),
        ensures
            final(self).wf(),
            final(self).map() == old(self).map().insert(key@, value@),
    {
        let k = chars_of(key);
        let (i, found) = self.search(&k);
        let ghost old_v = self@;
        proof {
            lemma_pairs_map_sorted(old_v);
        }
        if found {
            self.entries.set(i, (key.to_owned(), value.to_owned()));
            assert(self@ =~= old_v.update(i as int, (key@, value@)));
        } else {
            self.entries.insert(i, (key.to_owned(), value.to_owned()));
            assert(self@ =~= old_v.insert(i as int, (key@, value@)));
        }
        let ghost nv = self@;
        assert(sorted(nv)) by {
            assert forall|a: int, b: int| 0 <= a < b < nv.len() implies seq_lt(
                #[trigger] nv[a].0,
                #[trigger] nv[b].0,
            ) by {
                if found {
                    if a == i {
                        if b > i {
                        }
                    } else if b == i {
                    }
                } else {
                    if a < i && b > i {
                        assert(nv[b] == old_v[b - 1]);
                    } else if a > i {
                        assert(nv[a] == old_v[a - 1]);
                        assert(nv[b] == old_v[b - 1]);
                    } else if a == i {
                        assert(nv[b] == old_v[b - 1]);
                    }
                }
            }
        }
        proof {
            lemma_pairs_map_sorted(nv);
            assert forall|kk: Seq<char>| #[trigger]
                pairs_map(nv).contains_key(kk) == pairs_map(old_v).insert(key@, value@).contains_key(
                    kk,
                ) by {
                if exists|j: int| 0 <= j < nv.len() && #[trigger] nv[j].0 == kk {
                    let j = choose|j: int| 0 <= j < nv.len() && #[trigger] nv[j].0 == kk;
                    if kk != key@ {
                        if found {
                            assert(old_v[j].0 == kk);
                        } else if j < i {
                            assert(old_v[j].0 == kk);
                        } else {
                            assert(old_v[j - 1].0 == kk);
                        }
                    }
                }
                if pairs_map(old_v).contains_key(kk) && kk != key@ {
                    let j = choose|j: int| 0 <= j < old_v.len() && #[trigger] old_v[j].0 == kk;
                    if found {
                        assert(nv[j].0 == kk);
                    } else if j < i {
                        assert(nv[j].0 == kk);
                    } else {
                        assert(nv[j + 1].0 == kk);
                    }
                }
                if kk == key@ {
                    assert(nv[i as int].0 == kk);
                }
            }
            assert forall|kk: Seq<char>| #[trigger] pairs_map(nv).contains_key(kk) implies pairs_map(
                nv,
            )[kk] == pairs_map(old_v).insert(key@, value@)[kk] by {
                let j = choose|j: int| 0 <= j < nv.len() && #[trigger] nv[j].0 == kk;
                if kk != key@ {
                    if found {
                        assert(old_v[j].0 == kk);
                    } else if j < i {
                        assert(old_v[j].0 == kk);
                    } else {
                        assert(old_v[j - 1].0 == kk);
                    }
                } else {
                    if j != i {
                        if j < i {
                            assert(seq_lt(nv[j].0, nv[i as int].0));
                        } else {
                            assert(seq_lt(nv[i as int].0, nv[j].0));
                        }
                        lemma_lt_irreflexive(kk);
                    }
                }
            }
            assert(pairs_map(nv) =~= pairs_map(old_v).insert(key@, value@));
        }
    }

    /// `BTreeMap::remove`: returns whether `key` was present.
    pub fn remove(&mut self, key: &str) -> (r: bool)
        requires
            old(self).wf(),
        ensures
            final(self).wf(),
            r == old(self).map().contains_key(key@),
            final(self).map() == old(self).map().remove(key@),
    {
        let k = chars_of(key);
        let (i, found) = self.search(&k);
        let ghost old_v = self@;
        proof {
            lemma_pairs_map_sorted(old_v);
            if !found && pairs_map(old_v).contains_key(key@) {
                let j = choose|j: int| 0 <= j < old_v.len() && #[trigger] old_v[j].0 == key@;
                lemma_lt_irreflexive(key@);
            }
        }
        if !found {
            assert(pairs_map(old_v).remove(key@) =~= pairs_map(old_v));
            return false;
        }
        self.entries.remove(i);
        let ghost nv = self@;
        assert(nv =~= old_v.remove(i as int));
        assert(sorted(nv)) by {
            assert forall|a: int, b: int| 0 <= a < b < nv.len() implies seq_lt(
                #[trigger] nv[a].0,
                #[trigger] nv[b].0,
            ) by {
                if a >= i {
                    assert(nv[a] == old_v[a + 1]);
                }
                if b >= i {
                    assert(nv[b] == old_v[b + 1]);
                }
            }
        }
        proof {
            lemma_pairs_map_sorted(nv);
            assert forall|kk: Seq<char>| #[trigger]
                pairs_map(nv).contains_key(kk) == pairs_map(old_v).remove(key@).contains_key(kk) by {
                if exists|j: int| 0 <= j < nv.len() && #[trigger] nv[j].0 == kk {
                    let j = choose|j: int| 0 <= j < nv.len() && #[trigger] nv[j].0 == kk;
                    let oj = if j < i {
                        j
                    } else {
                        j + 1
                    };
                    assert(old_v[oj].0 == kk);
                    if kk == key@ {
                        if oj < i {
                            assert(seq_lt(old_v[oj].0, old_v[i as int].0));
                        } else {
                            assert(seq_lt(old_v[i as int].0, old_v[oj].0));
                        }
                        lemma_lt_irreflexive(kk);
                    }
                }
                if pairs_map(old_v).contains_key(kk) && kk != key@ {
                    let j = choose|j: int| 0 <= j < old_v.len() && #[trigger] old_v[j].0 == kk;
                    if j < i {
                        assert(nv[j].0 == kk);
                    } else {
                        assert(j != i);
                        assert(nv[j - 1].0 == kk);
                    }
                }
            }
            assert forall|kk: Seq<char>| #[trigger] pairs_map(nv).contains_key(kk) implies pairs_map(
                nv,
            )[kk] == pairs_map(old_v)[kk] by {
                let j = choose|j: int| 0 <= j < nv.len() && #[trigger] nv[j].0 == kk;
                if j < i {
                    assert(old_v[j].0 == kk);
                } else {
                    assert(old_v[j + 1].0 == kk);
                }
            }
            assert(pairs_map(nv) =~= pairs_map(old_v).remove(key@));
        }
        true
    }
}

} // verus!
