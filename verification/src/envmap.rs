//! A map from variable names to values whose entries are kept sorted by name.
use vstd::prelude::*;

use crate::text::{chars_of, compare_chars, lemma_lex_total, lemma_lex_transitive, lex_lt, Order};

verus! {

/// A name/value pair seen as character sequences.
pub type Pair = (Seq<char>, Seq<char>);

/// The character sequences of a list of string pairs.
pub open spec fn pairs_view(v: Seq<(String, String)>) -> Seq<Pair> {
    Seq::new(v.len(), |i: int| (v[i].0@, v[i].1@))
}

/// The names of `s` are strictly increasing in [`lex_lt`] order.
pub open spec fn keys_sorted(s: Seq<Pair>) -> bool {
    forall|i: int, j: int| 0 <= i < j < s.len() ==> lex_lt(#[trigger] s[i].0, #[trigger] s[j].0)
}

/// No name occurs twice in `s`.
pub open spec fn keys_unique(s: Seq<Pair>) -> bool {
    forall|i: int, j: int| 0 <= i < s.len() && 0 <= j < s.len() && i != j ==> #[trigger] s[i].0
        != #[trigger] s[j].0
}

/// The map that results from inserting the pairs of `s` in order into an
/// empty map: a later pair replaces an earlier one with the same name.
pub open spec fn map_of(s: Seq<Pair>) -> Map<Seq<char>, Seq<char>>
    decreases s.len(),
{
    if s.len() == 0 {
        Map::empty()
    } else {
        map_of(s.drop_last()).insert(s.last().0, s.last().1)
    }
}

/// A name is in `map_of(s)` exactly when some pair of `s` carries it.
pub proof fn lemma_map_of_dom(s: Seq<Pair>, k: Seq<char>)
    ensures
        map_of(s).contains_key(k) <==> exists|i: int| 0 <= i < s.len() && #[trigger] s[i].0 == k,
    decreases s.len(),
{
    if s.len() > 0 {
        lemma_map_of_dom(s.drop_last(), k);
        if map_of(s.drop_last()).contains_key(k) {
            let i = choose|i: int| 0 <= i < s.drop_last().len() && #[trigger] s.drop_last()[i].0 == k;
            assert(s[i].0 == k);
        }
        if exists|i: int| 0 <= i < s.len() && #[trigger] s[i].0 == k {
            let i = choose|i: int| 0 <= i < s.len() && #[trigger] s[i].0 == k;
            if i < s.len() - 1 {
                assert(s.drop_last()[i].0 == k);
            }
        }
    }
}

/// With unique names, the value of a name in `map_of(s)` is that of its pair.
pub proof fn lemma_map_of_value(s: Seq<Pair>, i: int)
    requires
        keys_unique(s),
        0 <= i < s.len(),
    ensures
        map_of(s).contains_key(s[i].0),
        map_of(s)[s[i].0] == s[i].1,
    decreases s.len(),
{
    if i < s.len() - 1 {
        let t = s.drop_last();
        assert(keys_unique(t)) by {
            assert forall|a: int, b: int|
                0 <= a < t.len() && 0 <= b < t.len() && a != b implies #[trigger] t[a].0
                != #[trigger] t[b].0 by {
                assert(t[a] == s[a] && t[b] == s[b]);
            }
        }
        lemma_map_of_value(t, i);
        assert(s.last().0 != s[i].0);
    }
}

/// Sorted names are unique.
pub proof fn lemma_sorted_unique(s: Seq<Pair>)
    requires
        keys_sorted(s),
    ensures
        keys_unique(s),
{
    assert forall|i: int, j: int|
        0 <= i < s.len() && 0 <= j < s.len() && i != j implies #[trigger] s[i].0
        != #[trigger] s[j].0 by {
        if i < j {
            lemma_lex_total(s[i].0, s[j].0);
        } else {
            lemma_lex_total(s[j].0, s[i].0);
        }
    }
}

/// Two sorted pair lists with the same map are the same list: the entries of
/// a map are determined by its contents.
pub proof fn lemma_sorted_determined(a: Seq<Pair>, b: Seq<Pair>)
    requires
        keys_sorted(a),
        keys_sorted(b),
        map_of(a) == map_of(b),
    ensures
        a == b,
    decreases a.len(),
{
    lemma_sorted_unique(a);
    lemma_sorted_unique(b);
    if a.len() == 0 {
        if b.len() > 0 {
            lemma_map_of_value(b, 0);
        }
        assert(a =~= b);
    } else if b.len() == 0 {
        lemma_map_of_value(a, 0);
    } else {
        // The first names agree: each is the least name of the common map.
        lemma_map_of_value(a, 0);
        lemma_map_of_value(b, 0);
        lemma_map_of_dom(b, a[0].0);
        lemma_map_of_dom(a, b[0].0);
        let ib = choose|i: int| 0 <= i < b.len() && #[trigger] b[i].0 == a[0].0;
        let ia = choose|i: int| 0 <= i < a.len() && #[trigger] a[i].0 == b[0].0;
        if a[0].0 != b[0].0 {
            assert(ib > 0 && ia > 0);
            assert(lex_lt(b[0].0, b[ib].0));
            assert(lex_lt(a[0].0, a[ia].0));
            lemma_lex_total(a[0].0, b[0].0);
        }
        assert(a[0] == b[0]);
        let ta = a.drop_first();
        let tb = b.drop_first();
        assert(keys_sorted(ta)) by {
            assert forall|i: int, j: int| 0 <= i < j < ta.len() implies lex_lt(
                #[trigger] ta[i].0,
                #[trigger] ta[j].0,
            ) by {
                assert(ta[i] == a[i + 1] && ta[j] == a[j + 1]);
            }
        }
        assert(keys_sorted(tb)) by {
            assert forall|i: int, j: int| 0 <= i < j < tb.len() implies lex_lt(
                #[trigger] tb[i].0,
                #[trigger] tb[j].0,
            ) by {
                assert(tb[i] == b[i + 1] && tb[j] == b[j + 1]);
            }
        }
        lemma_map_of_drop_first(a);
        lemma_map_of_drop_first(b);
        lemma_sorted_determined(ta, tb);
        assert(a =~= seq![a[0]] + ta);
        assert(b =~= seq![b[0]] + tb);
    }
}

/// Dropping the first pair of a list with unique names removes its name.
proof fn lemma_map_of_drop_first(s: Seq<Pair>)
    requires
        keys_unique(s),
        s.len() > 0,
    ensures
        map_of(s.drop_first()) == map_of(s).remove(s[0].0),
{
    let t = s.drop_first();
    assert(keys_unique(t)) by {
        assert forall|a: int, b: int|
            0 <= a < t.len() && 0 <= b < t.len() && a != b implies #[trigger] t[a].0
            != #[trigger] t[b].0 by {
            assert(t[a] == s[a + 1] && t[b] == s[b + 1]);
        }
    }
    assert forall|k: Seq<char>| #[trigger]
        map_of(t).contains_key(k) == map_of(s).remove(s[0].0).contains_key(k) by {
        lemma_map_of_dom(t, k);
        lemma_map_of_dom(s, k);
        if exists|i: int| 0 <= i < s.len() && #[trigger] s[i].0 == k {
            let i = choose|i: int| 0 <= i < s.len() && #[trigger] s[i].0 == k;
            if i > 0 {
                assert(t[i - 1].0 == k);
            }
        }
        if exists|i: int| 0 <= i < t.len() && #[trigger] t[i].0 == k {
            let i = choose|i: int| 0 <= i < t.len() && #[trigger] t[i].0 == k;
            assert(s[i + 1].0 == k);
        }
    }
    assert forall|k: Seq<char>| #[trigger] map_of(t).contains_key(k) implies map_of(t)[k]
        == map_of(s)[k] by {
        lemma_map_of_dom(t, k);
        let i = choose|i: int| 0 <= i < t.len() && #[trigger] t[i].0 == k;
        lemma_map_of_value(t, i);
        assert(t[i] == s[i + 1]);
        lemma_map_of_value(s, i + 1);
    }
    assert(map_of(t) =~= map_of(s).remove(s[0].0));
}

/// What `insert` promises is what `get` reads back: after `insert(key,
/// value)` turns `before` into `after`, `get(key)` finds `value`, and every
/// other name keeps its value.
pub proof fn lemma_get_after_insert(
    before: EnvMap,
    after: EnvMap,
    key: Seq<char>,
    value: Seq<char>,
    other: Seq<char>,
)
    requires
        after.to_map() == before.to_map().insert(key, value),
        other != key,
    ensures
        after.to_map().contains_key(key) && after.to_map()[key] == value,
        after.to_map().contains_key(other) == before.to_map().contains_key(other),
        before.to_map().contains_key(other) ==> after.to_map()[other] == before.to_map()[other],
{
}

/// After `remove(key)` turns `before` into `after`, `get(key)` finds nothing,
/// and every other name keeps its value.
pub proof fn lemma_get_after_remove(before: EnvMap, after: EnvMap, key: Seq<char>, other: Seq<char>)
    requires
        after.to_map() == before.to_map().remove(key),
        other != key,
    ensures
        !after.to_map().contains_key(key),
        after.to_map().contains_key(other) == before.to_map().contains_key(other),
        before.to_map().contains_key(other) ==> after.to_map()[other] == before.to_map()[other],
{
}

/// The variables of a vault: names mapped to values, kept sorted by name so
/// that they are listed in the order of their names.
#[derive(Debug, Clone, PartialEq, Eq)]
pub struct EnvMap {
    entries: Vec<(String, String)>,
}

impl View for EnvMap {
    type V = Seq<Pair>;

    /// The entries, in order.
    closed spec fn view(&self) -> Seq<Pair> {
        pairs_view(self.entries@)
    }
}

impl EnvMap {
    /// Well-formedness: the names are strictly increasing.
    pub open spec fn wf(&self) -> bool {
        keys_sorted(self@)
    }

    /// The contents as a map from names to values.
    pub open spec fn to_map(&self) -> Map<Seq<char>, Seq<char>> {
        map_of(self@)
    }

    /// An empty map.
    pub fn new() -> (m: EnvMap)
        ensures
            m.wf(),
            m@ == Seq::<Pair>::empty(),
    {
        let m = EnvMap { entries: Vec::new() };
        assert(m@ =~= Seq::<Pair>::empty());
        m
    }

    /// The number of variables.
    pub fn len(&self) -> (n: usize)
        ensures
            n == self@.len(),
    {
        self.entries.len()
    }

    /// Whether there are no variables.
    pub fn is_empty(&self) -> (b: bool)
        ensures
            b == (self@.len() == 0),
    {
        self.entries.len() == 0
    }

    /// The entries, sorted by name.
    pub fn entries(&self) -> (r: &Vec<(String, String)>)
        ensures
            pairs_view(r@) == self@,
    {
        &self.entries
    }

    /// Finds `key`: either its position, or the position where it would be inserted.
    fn find(&self, key: &[char]) -> (r: (bool, usize))
        requires
            self.wf(),
        ensures
            r.1 <= self@.len(),
            forall|i: int| 0 <= i < r.1 ==> lex_lt(#[trigger] self@[i].0, key@),
            r.0 ==> r.1 < self@.len() && self@[r.1 as int].0 == key@,
            !r.0 ==> forall|i: int| r.1 <= i < self@.len() ==> lex_lt(key@, #[trigger] self@[i].0),
    {
        let n = self.entries.len();
        let mut i: usize = 0;
        while i < n
            invariant
                n == self@.len(),
                self.wf(),
                i <= n,
                forall|j: int| 0 <= j < i ==> lex_lt(#[trigger] self@[j].0, key@),
            decreases n - i,
        {
            let name = chars_of(self.entries[i].0.as_str());
            assert(name@ == self@[i as int].0);
            match compare_chars(name.as_slice(), key) {
                Order::Before => {},
                Order::Same => {
                    return (true, i);
                },
                Order::After => {
                    assert forall|j: int| i <= j < self@.len() implies lex_lt(
                        key@,
                        #[trigger] self@[j].0,
                    ) by {
                        if j > i {
                            lemma_lex_transitive(key@, self@[i as int].0, self@[j].0);
                        }
                    }
                    return (false, i);
                },
            }
            i = i + 1;
        }
        (false, n)
    }

    /// Whether `key` has a value.
    pub fn contains_key(&self, key: &str) -> (b: bool)
        requires
            self.wf(),
        ensures
            b == self.to_map().contains_key(key@),
    {
        let k = chars_of(key);
        let (found, _pos) = self.find(k.as_slice());
        proof {
            self.lemma_absent_when_not_found(key@, found, _pos);
        }
        found
    }

    proof fn lemma_absent_when_not_found(&self, key: Seq<char>, found: bool, pos: usize)
        requires
            self.wf(),
            pos <= self@.len(),
            forall|i: int| 0 <= i < pos ==> lex_lt(#[trigger] self@[i].0, key),
            found ==> pos < self@.len() && self@[pos as int].0 == key,
            !found ==> forall|i: int| pos <= i < self@.len() ==> lex_lt(key, #[trigger] self@[i].0),
        ensures
            found == self.to_map().contains_key(key),
            found ==> self.to_map()[key] == self@[pos as int].1,
    {
        lemma_sorted_unique(self@);
        lemma_map_of_dom(self@, key);
        if found {
            lemma_map_of_value(self@, pos as int);
        } else {
            assert forall|i: int| 0 <= i < self@.len() implies #[trigger] self@[i].0 != key by {
                if i < pos {
                    lemma_lex_total(self@[i].0, key);
                } else {
                    lemma_lex_total(key, self@[i].0);
                }
            }
        }
    }

    /// The value of `key`, if it has one.
    pub fn get(&self, key: &str) -> (r: Option<&String>)
        requires
            self.wf(),
        ensures
            match r {
                Some(v) => self.to_map().contains_key(key@) && self.to_map()[key@] == v@,
                None => !self.to_map().contains_key(key@),
            },
    {
        let k = chars_of(key);
        let (found, pos) = self.find(k.as_slice());
        proof {
            self.lemma_absent_when_not_found(key@, found, pos);
        }
        if found {
            assert(self@[pos as int].1 == self.entries@[pos as int].1@);
            Some(&self.entries[pos].1)
        } else {
            None
        }
    }

    /// Sets the value of `key`, returning its previous value if it had one.
    pub fn insert(&mut self, key: String, value: String) -> (r: Option<String>)
        requires
            old(self).wf(),
        ensures
            final(self).wf(),
            final(self).to_map() == old(self).to_map().insert(key@, value@),
            match r {
                Some(v) => old(self).to_map().contains_key(key@) && old(self).to_map()[key@]
                    == v@,
                None => !old(self).to_map().contains_key(key@),
            },
            final(self)@.len() == old(self)@.len() + (if r is Some {
                0int
            } else {
                1int
            }),
    {
        let k = chars_of(key.as_str());
        let (found, pos) = self.find(k.as_slice());
        proof {
            self.lemma_absent_when_not_found(key@, found, pos);
            lemma_sorted_unique(self@);
        }
        let ghost s = self@;
        if found {
            let old_entry = self.entries.remove(pos);
            self.entries.insert(pos, (key, value));
            proof {
                assert(self@ =~= s.update(pos as int, (key@, value@)));
                self.lemma_update_map(s, pos as int, key@, value@);
            }
            Some(old_entry.1)
        } else {
            self.entries.insert(pos, (key, value));
            proof {
                assert(self@ =~= s.insert(pos as int, (key@, value@)));
                self.lemma_insert_map(s, pos as int, key@, value@);
            }
            None
        }
    }

    proof fn lemma_update_map(&self, s: Seq<Pair>, pos: int, k: Seq<char>, v: Seq<char>)
        requires
            keys_sorted(s),
            0 <= pos < s.len(),
            s[pos].0 == k,
            self@ == s.update(pos, (k, v)),
        ensures
            self.wf(),
            self.to_map() == map_of(s).insert(k, v),
    {
        let t = self@;
        assert(keys_sorted(t)) by {
            assert forall|i: int, j: int| 0 <= i < j < t.len() implies lex_lt(
                #[trigger] t[i].0,
                #[trigger] t[j].0,
            ) by {
                assert(t[i].0 == s[i].0 && t[j].0 == s[j].0);
            }
        }
        lemma_sorted_unique(s);
        lemma_sorted_unique(t);
        assert forall|x: Seq<char>| #[trigger]
            map_of(t).contains_key(x) == map_of(s).insert(k, v).contains_key(x) by {
            lemma_map_of_dom(t, x);
            lemma_map_of_dom(s, x);
            if exists|i: int| 0 <= i < s.len() && #[trigger] s[i].0 == x {
                let i = choose|i: int| 0 <= i < s.len() && #[trigger] s[i].0 == x;
                assert(t[i].0 == x);
            }
            if exists|i: int| 0 <= i < t.len() && #[trigger] t[i].0 == x {
                let i = choose|i: int| 0 <= i < t.len() && #[trigger] t[i].0 == x;
                assert(s[i].0 == x);
            }
            if x == k {
                assert(t[pos].0 == x);
            }
        }
        assert forall|x: Seq<char>| #[trigger] map_of(t).contains_key(x) implies map_of(t)[x]
            == map_of(s).insert(k, v)[x] by {
            lemma_map_of_dom(t, x);
            let i = choose|i: int| 0 <= i < t.len() && #[trigger] t[i].0 == x;
            lemma_map_of_value(t, i);
            if i != pos {
                lemma_map_of_value(s, i);
            }
        }
        assert(map_of(t) =~= map_of(s).insert(k, v));
    }

    proof fn lemma_insert_map(&self, s: Seq<Pair>, pos: int, k: Seq<char>, v: Seq<char>)
        requires
            keys_sorted(s),
            0 <= pos <= s.len(),
            forall|i: int| 0 <= i < pos ==> lex_lt(#[trigger] s[i].0, k),
            forall|i: int| pos <= i < s.len() ==> lex_lt(k, #[trigger] s[i].0),
            self@ == s.insert(pos, (k, v)),
        ensures
            self.wf(),
            self.to_map() == map_of(s).insert(k, v),
    {
        let t = self@;
        assert(keys_sorted(t)) by {
            assert forall|i: int, j: int| 0 <= i < j < t.len() implies lex_lt(
                #[trigger] t[i].0,
                #[trigger] t[j].0,
            ) by {
                if j < pos {
                    assert(t[i] == s[i] && t[j] == s[j]);
                } else if j == pos {
                    assert(t[i] == s[i]);
                } else if i < pos {
                    assert(t[i] == s[i] && t[j] == s[j - 1]);
                    lemma_lex_transitive(s[i].0, k, s[j - 1].0);
                } else if i == pos {
                    assert(t[j] == s[j - 1]);
                } else {
                    assert(t[i] == s[i - 1] && t[j] == s[j - 1]);
                }
            }
        }
        lemma_sorted_unique(s);
        lemma_sorted_unique(t);
        assert forall|x: Seq<char>| #[trigger]
            map_of(t).contains_key(x) == map_of(s).insert(k, v).contains_key(x) by {
            lemma_map_of_dom(t, x);
            lemma_map_of_dom(s, x);
            if exists|i: int| 0 <= i < s.len() && #[trigger] s[i].0 == x {
                let i = choose|i: int| 0 <= i < s.len() && #[trigger] s[i].0 == x;
                if i < pos {
                    assert(t[i].0 == x);
                } else {
                    assert(t[i + 1].0 == x);
                }
            }
            if exists|i: int| 0 <= i < t.len() && #[trigger] t[i].0 == x {
                let i = choose|i: int| 0 <= i < t.len() && #[trigger] t[i].0 == x;
                if i < pos {
                    assert(s[i].0 == x);
                } else if i > pos {
                    assert(s[i - 1].0 == x);
                }
            }
            if x == k {
                assert(t[pos].0 == x);
            }
        }
        assert forall|x: Seq<char>| #[trigger] map_of(t).contains_key(x) implies map_of(t)[x]
            == map_of(s).insert(k, v)[x] by {
            lemma_map_of_dom(t, x);
            let i = choose|i: int| 0 <= i < t.len() && #[trigger] t[i].0 == x;
            lemma_map_of_value(t, i);
            if i < pos {
                lemma_map_of_value(s, i);
                lemma_lex_total(s[i].0, k);
            } else if i > pos {
                lemma_map_of_value(s, i - 1);
                lemma_lex_total(k, s[i - 1].0);
            }
        }
        assert(map_of(t) =~= map_of(s).insert(k, v));
    }

    /// Removes `key`, returning its value if it had one.
    pub fn remove(&mut self, key: &str) -> (r: Option<String>)
        requires
            old(self).wf(),
        ensures
            final(self).wf(),
            final(self).to_map() == old(self).to_map().remove(key@),
            match r {
                Some(v) => old(self).to_map().contains_key(key@) && old(self).to_map()[key@]
                    == v@,
                None => !old(self).to_map().contains_key(key@),
            },
            final(self)@.len() == old(self)@.len() - (if r is Some {
                1int
            } else {
                0int
            }),
    {
        let k = chars_of(key);
        let (found, pos) = self.find(k.as_slice());
        proof {
            self.lemma_absent_when_not_found(key@, found, pos);
            lemma_sorted_unique(self@);
        }
        let ghost s = self@;
        if found {
            let old_entry = self.entries.remove(pos);
            proof {
                assert(self@ =~= s.remove(pos as int));
                self.lemma_remove_map(s, pos as int, key@);
            }
            Some(old_entry.1)
        } else {
            proof {
                assert(map_of(s).remove(key@) =~= map_of(s));
            }
            None
        }
    }

    proof fn lemma_remove_map(&self, s: Seq<Pair>, pos: int, k: Seq<char>)
        requires
            keys_sorted(s),
            0 <= pos < s.len(),
            s[pos].0 == k,
            self@ == s.remove(pos),
        ensures
            self.wf(),
            self.to_map() == map_of(s).remove(k),
    {
        let t = self@;
        assert(keys_sorted(t)) by {
            assert forall|i: int, j: int| 0 <= i < j < t.len() implies lex_lt(
                #[trigger] t[i].0,
                #[trigger] t[j].0,
            ) by {
                if j < pos {
                    assert(t[i] == s[i] && t[j] == s[j]);
                } else if i < pos {
                    assert(t[i] == s[i] && t[j] == s[j + 1]);
                } else {
                    assert(t[i] == s[i + 1] && t[j] == s[j + 1]);
                }
            }
        }
        lemma_sorted_unique(s);
        lemma_sorted_unique(t);
        assert forall|x: Seq<char>| #[trigger]
            map_of(t).contains_key(x) == map_of(s).remove(k).contains_key(x) by {
            lemma_map_of_dom(t, x);
            lemma_map_of_dom(s, x);
            if exists|i: int| 0 <= i < s.len() && #[trigger] s[i].0 == x {
                let i = choose|i: int| 0 <= i < s.len() && #[trigger] s[i].0 == x;
                if i < pos {
                    assert(t[i].0 == x);
                } else if i > pos {
                    assert(t[i - 1].0 == x);
                }
            }
            if exists|i: int| 0 <= i < t.len() && #[trigger] t[i].0 == x {
                let i = choose|i: int| 0 <= i < t.len() && #[trigger] t[i].0 == x;
                if i < pos {
                    assert(s[i].0 == x);
                } else {
                    assert(s[i + 1].0 == x);
                }
            }
        }
        assert forall|x: Seq<char>| #[trigger] map_of(t).contains_key(x) implies map_of(t)[x]
            == map_of(s).remove(k)[x] by {
            lemma_map_of_dom(t, x);
            let i = choose|i: int| 0 <= i < t.len() && #[trigger] t[i].0 == x;
            lemma_map_of_value(t, i);
            if i < pos {
                lemma_map_of_value(s, i);
            } else {
                lemma_map_of_value(s, i + 1);
            }
        }
        assert(map_of(t) =~= map_of(s).remove(k));
    }

    /// A map holding the given pairs inserted in order (a later pair replaces
    /// an earlier one with the same name).
    pub fn from_pairs(pairs: &Vec<(String, String)>) -> (m: EnvMap)
        ensures
            m.wf(),
            m.to_map() == map_of(pairs_view(pairs@)),
    {
        let mut m = EnvMap::new();
        let n = pairs.len();
        let mut i: usize = 0;
        while i < n
            invariant
                n == pairs@.len(),
                i <= n,
                m.wf(),
                m.to_map() == map_of(pairs_view(pairs@).take(i as int)),
            decreases n - i,
        {
            let k = pairs[i].0.clone();
            let v = pairs[i].1.clone();
            m.insert(k, v);
            assert(pairs_view(pairs@).take(i + 1).drop_last() =~= pairs_view(pairs@).take(
                i as int,
            ));
            i = i + 1;
        }
        assert(pairs_view(pairs@).take(n as int) =~= pairs_view(pairs@));
        m
    }
}

} // verus!
