//! Name-keyed entry lists: a `Vec` of `(name, item)` pairs whose names
//! are distinct, viewed as a map from name to the item's view. Both the
//! catalog and the row storage keep their tables this way: vstd's
//! specification of `HashMap` does not let Verus prove what a lookup by a
//! `String` key gives, while a list with distinct names it can.

use vstd::prelude::*;

verus! {

/// No name occurs twice.
pub open spec fn distinct_names<T>(s: Seq<(String, T)>) -> bool {
    forall|i: int, j: int| 0 <= i < j < s.len() ==> #[trigger] s[i].0@ != #[trigger] s[j].0@
}

/// The map that a list of named entries denotes, each item taken by `f`.
pub open spec fn entries_map<T, V>(s: Seq<(String, T)>, f: spec_fn(T) -> V) -> Map<Seq<char>, V>
    decreases s.len(),
{
    if s.len() == 0 {
        Map::empty()
    } else {
        entries_map(s.drop_last(), f).insert(s.last().0@, f(s.last().1))
    }
}

/// With distinct names, the map holds exactly the entries' names, each
/// with its own item.
pub proof fn lemma_entries_map<T, V>(s: Seq<(String, T)>, f: spec_fn(T) -> V)
    requires
        distinct_names(s),
    ensures
        forall|k: Seq<char>| #[trigger]
            entries_map(s, f).contains_key(k) <==> exists|i: int| 0 <= i < s.len() && s[i].0@ == k,
        forall|i: int| #![trigger s[i]] 0 <= i < s.len() ==> entries_map(s, f)[s[i].0@] == f(s[i].1),
    decreases s.len(),
{
    if s.len() > 0 {
        let t = s.drop_last();
        assert(distinct_names(t));
        lemma_entries_map(t, f);
        assert forall|k: Seq<char>| #[trigger]
            entries_map(s, f).contains_key(k) <==> exists|i: int| 0 <= i < s.len() && s[i].0@ == k by {
            if entries_map(s, f).contains_key(k) {
                if k != s.last().0@ {
                    assert(entries_map(t, f).contains_key(k));
                    let i = choose|i: int| 0 <= i < t.len() && t[i].0@ == k;
                    assert(s[i] == t[i]);
                } else {
                    assert(s[s.len() - 1].0@ == k);
                }
            }
            if exists|i: int| 0 <= i < s.len() && s[i].0@ == k {
                let i = choose|i: int| 0 <= i < s.len() && s[i].0@ == k;
                if i < s.len() - 1 {
                    assert(t[i] == s[i]);
                    assert(entries_map(t, f).contains_key(k));
                }
            }
        }
        assert forall|i: int| #![trigger s[i]] 0 <= i < s.len() implies entries_map(s, f)[s[i].0@]
            == f(s[i].1) by {
            if i < s.len() - 1 {
                assert(t[i] == s[i]);
                assert(s[i].0@ != s[s.len() - 1].0@);
            }
        }
    }
}

/// Replacing the item of the entry at `i` (keeping its name) replaces the
/// value at that name.
pub proof fn lemma_entries_map_update<T, V>(s: Seq<(String, T)>, f: spec_fn(T) -> V, i: int, e: (String, T))
    requires
        distinct_names(s),
        0 <= i < s.len(),
        e.0@ == s[i].0@,
    ensures
        distinct_names(s.update(i, e)),
        entries_map(s.update(i, e), f) == entries_map(s, f).insert(e.0@, f(e.1)),
{
    let u = s.update(i, e);
    assert forall|a: int, b: int| 0 <= a < b < u.len() implies #[trigger] u[a].0@ != #[trigger] u[b].0@ by {
        assert(s[a].0@ != s[b].0@);
    }
    lemma_entries_map(s, f);
    lemma_entries_map(u, f);
    let m1 = entries_map(u, f);
    let m2 = entries_map(s, f).insert(e.0@, f(e.1));
    assert forall|k: Seq<char>| m1.contains_key(k) <==> m2.contains_key(k) by {
        if m1.contains_key(k) {
            let j = choose|j: int| 0 <= j < u.len() && u[j].0@ == k;
            if j != i {
                assert(s[j] == u[j]);
            }
        }
        if m2.contains_key(k) && k != e.0@ {
            let j = choose|j: int| 0 <= j < s.len() && s[j].0@ == k;
            assert(u[j] == s[j]);
        }
        if k == e.0@ {
            assert(u[i] == e);
        }
    }
    assert forall|k: Seq<char>| m1.contains_key(k) implies m1[k] == m2[k] by {
        let j = choose|j: int| 0 <= j < u.len() && u[j].0@ == k;
        assert(u[j] == u[j]);
        if j != i {
            assert(s[j] == u[j]);
            assert(s[j].0@ != s[i].0@);
        }
    }
    assert(m1 =~= m2);
}

/// Appending an entry under a fresh name inserts it.
pub proof fn lemma_entries_map_push<T, V>(s: Seq<(String, T)>, f: spec_fn(T) -> V, e: (String, T))
    requires
        distinct_names(s),
        forall|i: int| 0 <= i < s.len() ==> #[trigger] s[i].0@ != e.0@,
    ensures
        distinct_names(s.push(e)),
        entries_map(s.push(e), f) == entries_map(s, f).insert(e.0@, f(e.1)),
{
    let u = s.push(e);
    assert(u.drop_last() =~= s);
    assert forall|a: int, b: int| 0 <= a < b < u.len() implies #[trigger] u[a].0@ != #[trigger] u[b].0@ by {
        assert(u[a] == s[a]);
        if b < s.len() {
            assert(u[b] == s[b]);
        }
    }
}

/// The position of the entry named `name`, if any.
pub fn find_entry<T>(entries: &Vec<(String, T)>, name: &str) -> (r: Option<usize>)
    ensures
        match r {
            Some(i) => i < entries@.len() && entries@[i as int].0@ == name@,
            None => forall|i: int| 0 <= i < entries@.len() ==> #[trigger] entries@[i].0@ != name@,
        },
{
    let key = name.to_owned();
    let mut i: usize = 0;
    while i < entries.len()
        invariant
            i <= entries@.len(),
            key@ == name@,
            forall|j: int| 0 <= j < i ==> #[trigger] entries@[j].0@ != name@,
        decreases entries.len() - i,
    {
        if entries[i].0 == key {
            return Some(i);
        }
        i = i + 1;
    }
    None
}

} // verus!
