//! A table of `--name value` options: an insertion log whose latest entry for
//! a name wins, so that it reads as a map from names to values.
use crate::text::{chars_of, str_eq};
use vstd::prelude::*;

verus! {

/// One option entry, as text.
pub type Entry = (Seq<char>, Seq<char>);

/// The text of each entry of a log.
pub open spec fn entries_view(v: Seq<(String, String)>) -> Seq<Entry> {
    v.map_values(|p: (String, String)| (p.0@, p.1@))
}

/// The map that an insertion log denotes: later entries overwrite earlier
/// ones with the same name.
pub open spec fn entries_map(s: Seq<Entry>) -> Map<Seq<char>, Seq<char>>
    decreases s.len(),
{
    if s.len() == 0 {
        Map::empty()
    } else {
        entries_map(s.drop_last()).insert(s.last().0, s.last().1)
    }
}

/// Index of the first occurrence of `c` in `s`, or `s.len()` when there is
/// none.
pub open spec fn first_index_of(s: Seq<char>, c: char) -> int
    decreases s.len(),
{
    if s.len() == 0 {
        0
    } else if s[0] == c {
        0
    } else {
        1 + first_index_of(s.drop_first(), c)
    }
}

pub proof fn lemma_first_index_of(s: Seq<char>, c: char, r: int)
    requires
        0 <= r <= s.len(),
        forall|j: int| 0 <= j < r ==> s[j] != c,
        r == s.len() || s[r] == c,
    ensures
        first_index_of(s, c) == r,
    decreases s.len(),
{
    if s.len() > 0 && s[0] != c {
        assert forall|j: int| 0 <= j < r - 1 implies s.drop_first()[j] != c by {
            assert(s.drop_first()[j] == s[j + 1]);
        }
        if r < s.len() {
            assert(s.drop_first()[r - 1] == s[r]);
        }
        lemma_first_index_of(s.drop_first(), c, r - 1);
    }
}

/// Finds the first `c` in `cs`; `cs.len()` when there is none.
pub fn find_char(cs: &[char], c: char) -> (r: usize)
    ensures
        r as int == first_index_of(cs@, c),
        r <= cs@.len(),
        forall|j: int| 0 <= j < r ==> cs@[j] != c,
        r < cs@.len() ==> cs@[r as int] == c,
{
    let mut i: usize = 0;
    while i < cs.len() && cs[i] != c
        invariant
            i <= cs@.len(),
            forall|j: int| 0 <= j < i ==> cs@[j] != c,
        decreases cs@.len() - i,
    {
        i = i + 1;
    }
    proof {
        lemma_first_index_of(cs@, c, i as int);
    }
    i
}

proof fn lemma_entries_map_unaffected(s: Seq<Entry>, i: int, k: Seq<char>)
    requires
        0 <= i <= s.len(),
        forall|j: int| i <= j < s.len() ==> s[j].0 != k,
    ensures
        entries_map(s).dom().contains(k) == entries_map(s.take(i)).dom().contains(k),
        entries_map(s).dom().contains(k) ==> entries_map(s)[k] == entries_map(s.take(i))[k],
    decreases s.len() - i,
{
    if s.len() == i {
        assert(s.take(i) =~= s);
    } else {
        let t = s.drop_last();
        assert(t.take(i) =~= s.take(i));
        lemma_entries_map_unaffected(t, i, k);
    }
}

/// A log of option entries, read as a map from names to values.
pub struct OptionTable {
    entries: Vec<(String, String)>,
}

impl View for OptionTable {
    type V = Map<Seq<char>, Seq<char>>;

    closed spec fn view(&self) -> Map<Seq<char>, Seq<char>> {
        entries_map(entries_view(self.entries@))
    }
}

impl OptionTable {
    /// The entries of the log, in insertion order.
    pub closed spec fn log(&self) -> Seq<Entry> {
        entries_view(self.entries@)
    }

    pub proof fn lemma_view_is_log_map(&self)
        ensures
            self@ == entries_map(self.log()),
    {
    }

    /// An empty table.
    pub fn new() -> (t: Self)
        ensures
            t.log() == Seq::<Entry>::empty(),
            t@ == Map::<Seq<char>, Seq<char>>::empty(),
    {
        let t = OptionTable { entries: Vec::new() };
        assert(t.log() =~= Seq::<Entry>::empty());
        t
    }

    /// Records `value` under `key`, replacing any earlier value.
    pub fn insert(&mut self, key: String, value: String)
        ensures
            final(self).log() == old(self).log().push((key@, value@)),
            final(self)@ == old(self)@.insert(key@, value@),
    {
        self.entries.push((key, value));
        assert(entries_view(self.entries@) =~= entries_view(old(self).entries@).push(
            (key@, value@),
        ));
        assert(entries_view(self.entries@).drop_last() =~= entries_view(old(self).entries@));
    }

    /// The entries in insertion order; read as a map, a later entry wins
    /// over an earlier one with the same key.
    pub fn to_pairs(&self) -> (pairs: Vec<(String, String)>)
        ensures
            entries_view(pairs@) == self.log(),
            entries_map(entries_view(pairs@)) == self@,
    {
        let mut pairs: Vec<(String, String)> = Vec::new();
        let mut i: usize = 0;
        while i < self.entries.len()
            invariant
                i <= self.entries@.len(),
                entries_view(pairs@) == entries_view(self.entries@).take(i as int),
            decreases self.entries@.len() - i,
        {
            let entry = &self.entries[i];
            let key = entry.0.clone();
            let value = entry.1.clone();
            let ghost before = pairs@;
            pairs.push((key, value));
            assert(pairs@ == before.push((key, value)));
            assert(entries_view(pairs@) =~= entries_view(self.entries@).take(i + 1)) by {
                assert(entries_view(self.entries@)[i as int] == (self.entries@[i as int].0@, self.entries@[i as int].1@));
                assert(key@ == self.entries@[i as int].0@);
                assert(value@ == self.entries@[i as int].1@);
                assert(entries_view(before.push((key, value))) =~= entries_view(before).push(
                    (key@, value@),
                ));
            }
            i = i + 1;
        }
        assert(entries_view(self.entries@).take(i as int) =~= entries_view(self.entries@));
        pairs
    }

    /// The value recorded under `key`, if any.
    pub fn get(&self, key: &str) -> (value: Option<&String>)
        ensures
            value is Some <==> self@.dom().contains(key@),
            value matches Some(v) ==> v@ == self@[key@],
    {
        let ghost s = entries_view(self.entries@);
        let mut j: usize = self.entries.len();
        while j > 0
            invariant
                j <= self.entries@.len(),
                s == entries_view(self.entries@),
                forall|m: int| j <= m < s.len() ==> s[m].0 != key@,
            decreases j,
        {
            let entry = &self.entries[j - 1];
            if str_eq(entry.0.as_str(), key) {
                proof {
                    lemma_entries_map_unaffected(s, j as int, key@);
                    assert(s.take(j as int).drop_last() =~= s.take(j - 1));
                    assert(s.take(j as int).last() == s[j - 1]);
                }
                return Some(&entry.1);
            }
            j = j - 1;
        }
        proof {
            lemma_entries_map_unaffected(s, 0, key@);
            assert(s.take(0) =~= Seq::<Entry>::empty());
        }
        None
    }
}

/// The texts of a sequence of strings.
pub open spec fn string_views(v: Seq<String>) -> Seq<Seq<char>> {
    v.map_values(|s: String| s@)
}

/// Splits `option` (the text after `--`) at its first `=`, if it has one.
pub fn split_once_eq(option: &str) -> (result: Option<(String, String)>)
    ensures
        0 <= first_index_of(option@, '=') <= option@.len(),
        first_index_of(option@, '=') == option@.len() ==> result is None,
        first_index_of(option@, '=') < option@.len() ==> (result matches Some(kv) && kv.0@
            == option@.take(first_index_of(option@, '=')) && kv.1@ == option@.skip(
            first_index_of(option@, '=') + 1,
        )),
{
    let cs = chars_of(option);
    let eq = find_char(cs.as_slice(), '=');
    if eq == cs.len() {
        return None;
    }
    let key = crate::text::string_from_chars(cs.as_slice(), 0, eq);
    let value = crate::text::string_from_chars(cs.as_slice(), eq + 1, cs.len());
    assert(key@ =~= option@.take(eq as int));
    assert(value@ =~= option@.skip(eq + 1));
    Some((key, value))
}

/// The text of `s` after its first two characters.
pub fn skip_two(s: &str) -> (out: String)
    requires
        s@.len() >= 2,
    ensures
        out@ == s@.skip(2),
{
    let cs = chars_of(s);
    let out = crate::text::string_from_chars(cs.as_slice(), 2, cs.len());
    assert(out@ =~= s@.skip(2));
    out
}

} // verus!
