//! Association lists keyed by text with each key at most once, and the maps
//! they denote.
use vstd::prelude::*;

verus! {

/// The map that a list of `(key, value)` pairs denotes; a later pair wins
/// over an earlier one with the same key.
pub open spec fn pairs_map<V>(s: Seq<(Seq<char>, V)>) -> Map<Seq<char>, V>
    decreases s.len(),
{
    if s.len() == 0 {
        Map::empty()
    } else {
        pairs_map(s.drop_last()).insert(s.last().0, s.last().1)
    }
}

/// Whether no key occurs twice in `s`.
pub open spec fn keys_distinct<V>(s: Seq<(Seq<char>, V)>) -> bool {
    forall|i: int, j: int| 0 <= i < s.len() && 0 <= j < s.len() && i != j ==> s[i].0 != s[j].0
}

pub proof fn lemma_pairs_map_dom<V>(s: Seq<(Seq<char>, V)>, k: Seq<char>)
    ensures
        pairs_map(s).dom().contains(k) <==> exists|i: int| 0 <= i < s.len() && s[i].0 == k,
    decreases s.len(),
{
    if s.len() > 0 {
        let t = s.drop_last();
        lemma_pairs_map_dom(t, k);
        if pairs_map(s).dom().contains(k) && s.last().0 != k {
            let i = choose|i: int| 0 <= i < t.len() && t[i].0 == k;
            assert(s[i] == t[i]);
        }
        if exists|i: int| 0 <= i < s.len() && s[i].0 == k {
            let i = choose|i: int| 0 <= i < s.len() && s[i].0 == k;
            if i < s.len() - 1 {
                assert(t[i] == s[i]);
            }
        }
    }
}

pub proof fn lemma_pairs_map_get<V>(s: Seq<(Seq<char>, V)>, i: int)
    requires
        keys_distinct(s),
        0 <= i < s.len(),
    ensures
        pairs_map(s).dom().contains(s[i].0),
        pairs_map(s)[s[i].0] == s[i].1,
    decreases s.len(),
{
    if i < s.len() - 1 {
        let t = s.drop_last();
        assert(t[i] == s[i]);
        assert(keys_distinct(t)) by {
            assert forall|a: int, b: int|
                0 <= a < t.len() && 0 <= b < t.len() && a != b implies t[a].0 != t[b].0 by {
                assert(t[a] == s[a] && t[b] == s[b]);
            }
        }
        lemma_pairs_map_get(t, i);
        assert(s.last() == s[s.len() - 1]);
    }
}

pub proof fn lemma_pairs_map_update<V>(s: Seq<(Seq<char>, V)>, i: int, v: V)
    requires
        keys_distinct(s),
        0 <= i < s.len(),
    ensures
        pairs_map(s.update(i, (s[i].0, v))) =~= pairs_map(s).insert(s[i].0, v),
        keys_distinct(s.update(i, (s[i].0, v))),
    decreases s.len(),
{
    let u = s.update(i, (s[i].0, v));
    let t = s.drop_last();
    assert(keys_distinct(u)) by {
        assert forall|a: int, b: int|
            0 <= a < u.len() && 0 <= b < u.len() && a != b implies u[a].0 != u[b].0 by {
            assert(u[a].0 == s[a].0 && u[b].0 == s[b].0);
        }
    }
    if i == s.len() - 1 {
        assert(u.drop_last() =~= t);
    } else {
        assert(keys_distinct(t)) by {
            assert forall|a: int, b: int|
                0 <= a < t.len() && 0 <= b < t.len() && a != b implies t[a].0 != t[b].0 by {
                assert(t[a] == s[a] && t[b] == s[b]);
            }
        }
        assert(t[i] == s[i]);
        lemma_pairs_map_update(t, i, v);
        assert(u.drop_last() =~= t.update(i, (t[i].0, v)));
        assert(u.last() == s.last());
        assert(s.last().0 != s[i].0);
    }
}

pub proof fn lemma_pairs_push_distinct<V>(s: Seq<(Seq<char>, V)>, k: Seq<char>, v: V)
    requires
        keys_distinct(s),
        !pairs_map(s).dom().contains(k),
    ensures
        keys_distinct(s.push((k, v))),
        pairs_map(s.push((k, v))) == pairs_map(s).insert(k, v),
{
    lemma_pairs_map_dom(s, k);
    let p = s.push((k, v));
    assert(p.drop_last() =~= s);
    assert forall|a: int, b: int|
        0 <= a < p.len() && 0 <= b < p.len() && a != b implies p[a].0 != p[b].0 by {
        if a < s.len() && b < s.len() {
            assert(p[a] == s[a] && p[b] == s[b]);
        } else if a < s.len() {
            assert(p[a] == s[a]);
        } else {
            assert(p[b] == s[b]);
        }
    }
}

pub proof fn lemma_pairs_map_insert<V>(s: Seq<(Seq<char>, V)>, pos: int, k: Seq<char>, v: V)
    requires
        keys_distinct(s),
        0 <= pos <= s.len(),
        forall|i: int| 0 <= i < s.len() ==> s[i].0 != k,
    ensures
        keys_distinct(s.insert(pos, (k, v))),
        pairs_map(s.insert(pos, (k, v))) =~= pairs_map(s).insert(k, v),
{
    let t = s.insert(pos, (k, v));
    assert forall|a: int, b: int|
        0 <= a < t.len() && 0 <= b < t.len() && a != b implies t[a].0 != t[b].0 by {
        let ia = if a < pos { a } else { a - 1 };
        let ib = if b < pos { b } else { b - 1 };
        if a != pos && b != pos {
            assert(t[a] == s[ia] && t[b] == s[ib]);
        } else if a == pos {
            assert(t[b] == s[ib]);
        } else {
            assert(t[a] == s[ia]);
        }
    }
    assert forall|key: Seq<char>| #[trigger] pairs_map(t).dom().contains(key) <==> pairs_map(s).insert(k, v).dom().contains(key) by {
        lemma_pairs_map_dom(t, key);
        lemma_pairs_map_dom(s, key);
        if pairs_map(t).dom().contains(key) && key != k {
            let i = choose|i: int| 0 <= i < t.len() && t[i].0 == key;
            if i < pos {
                assert(s[i] == t[i]);
            } else {
                assert(s[i - 1] == t[i]);
            }
        }
        if pairs_map(s).dom().contains(key) {
            let i = choose|i: int| 0 <= i < s.len() && s[i].0 == key;
            if i < pos {
                assert(t[i] == s[i]);
            } else {
                assert(t[i + 1] == s[i]);
            }
        }
        if key == k {
            assert(t[pos] == (k, v));
        }
    }
    assert forall|key: Seq<char>| #[trigger] pairs_map(t).dom().contains(key) implies pairs_map(t)[key] == pairs_map(s).insert(k, v)[key] by {
        if key == k {
            assert(t[pos] == (k, v));
            lemma_pairs_map_get(t, pos);
        } else {
            lemma_pairs_map_dom(s, key);
            let i = choose|i: int| 0 <= i < s.len() && s[i].0 == key;
            lemma_pairs_map_get(s, i);
            if i < pos {
                assert(t[i] == s[i]);
                lemma_pairs_map_get(t, i);
            } else {
                assert(t[i + 1] == s[i]);
                lemma_pairs_map_get(t, i + 1);
            }
        }
    }
}

pub proof fn lemma_pairs_map_remove<V>(s: Seq<(Seq<char>, V)>, pos: int)
    requires
        keys_distinct(s),
        0 <= pos < s.len(),
    ensures
        keys_distinct(s.remove(pos)),
        pairs_map(s.remove(pos)) =~= pairs_map(s).remove(s[pos].0),
{
    let t = s.remove(pos);
    let k = s[pos].0;
    assert forall|a: int, b: int|
        0 <= a < t.len() && 0 <= b < t.len() && a != b implies t[a].0 != t[b].0 by {
        let ia = if a < pos { a } else { a + 1 };
        let ib = if b < pos { b } else { b + 1 };
        assert(t[a] == s[ia] && t[b] == s[ib]);
    }
    assert forall|key: Seq<char>| #[trigger] pairs_map(t).dom().contains(key) <==> pairs_map(s).remove(k).dom().contains(key) by {
        lemma_pairs_map_dom(t, key);
        lemma_pairs_map_dom(s, key);
        if pairs_map(t).dom().contains(key) {
            let i = choose|i: int| 0 <= i < t.len() && t[i].0 == key;
            if i < pos {
                assert(s[i] == t[i]);
            } else {
                assert(s[i + 1] == t[i]);
            }
        }
        if pairs_map(s).dom().contains(key) && key != k {
            let i = choose|i: int| 0 <= i < s.len() && s[i].0 == key;
            if i < pos {
                assert(t[i] == s[i]);
            } else {
                assert(i != pos);
                assert(t[i - 1] == s[i]);
            }
        }
    }
    assert forall|key: Seq<char>| #[trigger] pairs_map(t).dom().contains(key) implies pairs_map(t)[key] == pairs_map(s).remove(k)[key] by {
        lemma_pairs_map_dom(t, key);
        let i = choose|i: int| 0 <= i < t.len() && t[i].0 == key;
        lemma_pairs_map_get(t, i);
        if i < pos {
            assert(s[i] == t[i]);
            lemma_pairs_map_get(s, i);
        } else {
            assert(s[i + 1] == t[i]);
            lemma_pairs_map_get(s, i + 1);
        }
    }
}


/// With no key twice, the map has as many keys as the list has pairs.
pub proof fn lemma_pairs_map_len<V>(s: Seq<(Seq<char>, V)>)
    requires
        keys_distinct(s),
    ensures
        pairs_map(s).dom().finite(),
        pairs_map(s).dom().len() == s.len(),
    decreases s.len(),
{
    if s.len() > 0 {
        let t = s.drop_last();
        assert(keys_distinct(t)) by {
            assert forall|a: int, b: int|
                0 <= a < t.len() && 0 <= b < t.len() && a != b implies t[a].0 != t[b].0 by {
                assert(t[a] == s[a] && t[b] == s[b]);
            }
        }
        lemma_pairs_map_len(t);
        lemma_pairs_map_dom(t, s.last().0);
        if pairs_map(t).dom().contains(s.last().0) {
            let i = choose|i: int| 0 <= i < t.len() && t[i].0 == s.last().0;
            assert(t[i] == s[i]);
            assert(s[s.len() - 1] == s.last());
        }
    } else {
        assert(pairs_map(s).dom() =~= Set::<Seq<char>>::empty());
    }
}

} // verus!
