//! Strictly ordered lists of strings, ordered as `String`'s `Ord` orders
//! them (lexicographically by character, which is the byte order of their
//! UTF-8 encodings).
use crate::text::{chars_of, owned, str_eq, views};
use vstd::prelude::*;

verus! {

/// `a` orders strictly before `b`.
pub open spec fn seq_lt(a: Seq<char>, b: Seq<char>) -> bool
    decreases a.len(),
{
    if b.len() == 0 {
        false
    } else if a.len() == 0 {
        true
    } else if a[0] != b[0] {
        a[0] < b[0]
    } else {
        seq_lt(a.drop_first(), b.drop_first())
    }
}

/// Each element orders strictly before every later one.
pub open spec fn strictly_sorted(s: Seq<Seq<char>>) -> bool {
    forall|i: int, j: int| 0 <= i < j < s.len() ==> seq_lt(s[i], s[j])
}

pub proof fn lemma_lt_irreflexive(a: Seq<char>)
    ensures
        !seq_lt(a, a),
    decreases a.len(),
{
    if a.len() > 0 {
        lemma_lt_irreflexive(a.drop_first());
    }
}

pub proof fn lemma_lt_transitive(a: Seq<char>, b: Seq<char>, c: Seq<char>)
    requires
        seq_lt(a, b),
        seq_lt(b, c),
    ensures
        seq_lt(a, c),
    decreases a.len(),
{
    if a.len() > 0 && b.len() > 0 && c.len() > 0 {
        if a[0] == b[0] && b[0] == c[0] {
            lemma_lt_transitive(a.drop_first(), b.drop_first(), c.drop_first());
        }
    }
}

pub proof fn lemma_lt_total(a: Seq<char>, b: Seq<char>)
    requires
        a != b,
    ensures
        seq_lt(a, b) || seq_lt(b, a),
    decreases a.len(),
{
    if a.len() > 0 && b.len() > 0 {
        if a[0] == b[0] {
            if a.drop_first() =~= b.drop_first() {
                assert(a =~= b) by {
                    assert forall|i: int| 0 <= i < a.len() implies a[i] == b[i] by {
                        if i > 0 {
                            assert(a[i] == a.drop_first()[i - 1]);
                            assert(b[i] == b.drop_first()[i - 1]);
                        }
                    }
                }
            }
            lemma_lt_total(a.drop_first(), b.drop_first());
        }
    } else if a.len() == 0 && b.len() == 0 {
        assert(a =~= b);
    }
}

pub proof fn lemma_lt_asymmetric(a: Seq<char>, b: Seq<char>)
    requires
        seq_lt(a, b),
    ensures
        !seq_lt(b, a),
{
    if seq_lt(b, a) {
        lemma_lt_transitive(a, b, a);
        lemma_lt_irreflexive(a);
    }
}

pub proof fn lemma_sorted_distinct(s: Seq<Seq<char>>)
    requires
        strictly_sorted(s),
    ensures
        s.no_duplicates(),
{
    assert forall|i: int, j: int| 0 <= i < s.len() && 0 <= j < s.len() && i != j implies s[i]
        != s[j] by {
        if i < j {
            lemma_lt_irreflexive(s[i]);
        } else {
            lemma_lt_irreflexive(s[j]);
        }
    }
}

/// Whether `a` orders strictly before `b`.
pub fn str_lt(a: &str, b: &str) -> (lt: bool)
    ensures
        lt == seq_lt(a@, b@),
{
    let ca = chars_of(a);
    let cb = chars_of(b);
    let mut i: usize = 0;
    assert(a@.skip(0) =~= a@);
    assert(b@.skip(0) =~= b@);
    while i < ca.len() && i < cb.len() && ca[i] == cb[i]
        invariant
            ca@ == a@,
            cb@ == b@,
            i <= ca@.len(),
            i <= cb@.len(),
            seq_lt(a@, b@) == seq_lt(a@.skip(i as int), b@.skip(i as int)),
        decreases ca@.len() - i,
    {
        assert(a@.skip(i as int).drop_first() =~= a@.skip(i + 1));
        assert(b@.skip(i as int).drop_first() =~= b@.skip(i + 1));
        i = i + 1;
    }
    if i == cb.len() {
        false
    } else if i == ca.len() {
        true
    } else {
        ca[i] < cb[i]
    }
}

/// The position at which `x` belongs in the strictly sorted `s`: every
/// element before it orders before `x`, and none after it does.
pub fn sorted_position(s: &Vec<String>, x: &str) -> (pos: usize)
    requires
        strictly_sorted(views(s@)),
    ensures
        pos <= s@.len(),
        forall|i: int| 0 <= i < pos ==> seq_lt(s@[i]@, x@),
        forall|i: int| pos <= i < s@.len() ==> !seq_lt(s@[i]@, x@),
{
    let mut pos: usize = 0;
    while pos < s.len() && str_lt(s[pos].as_str(), x)
        invariant
            pos <= s@.len(),
            strictly_sorted(views(s@)),
            forall|i: int| 0 <= i < pos ==> seq_lt(s@[i]@, x@),
        decreases s@.len() - pos,
    {
        pos = pos + 1;
    }
    assert forall|i: int| pos <= i < s@.len() implies !seq_lt(s@[i]@, x@) by {
        if i > pos && seq_lt(s@[i]@, x@) {
            assert(views(s@)[pos as int] == s@[pos as int]@);
            assert(views(s@)[i] == s@[i]@);
            lemma_lt_transitive(s@[pos as int]@, s@[i]@, x@);
        }
    }
    pos
}

/// Adds `x` to the strictly sorted `s` unless it is already there. Returns
/// whether it was added.
pub fn insert_sorted(s: &mut Vec<String>, x: String) -> (added: bool)
    requires
        strictly_sorted(views(old(s)@)),
    ensures
        strictly_sorted(views(final(s)@)),
        added == !views(old(s)@).contains(x@),
        views(final(s)@).to_set() == views(old(s)@).to_set().insert(x@),
        added ==> final(s)@.len() == old(s)@.len() + 1,
        !added ==> final(s)@ == old(s)@,
{
    let ghost old_v = views(s@);
    let pos = sorted_position(s, x.as_str());
    if pos < s.len() && crate::text::str_eq(s[pos].as_str(), x.as_str()) {
        proof {
            assert(old_v[pos as int] == x@);
            assert(old_v.contains(x@));
            assert(old_v.to_set().insert(x@) =~= old_v.to_set());
        }
        return false;
    }
    proof {
        assert(!old_v.contains(x@)) by {
            if old_v.contains(x@) {
                let k = choose|k: int| 0 <= k < old_v.len() && old_v[k] == x@;
                assert(old_v[k] == s@[k]@);
                lemma_lt_irreflexive(x@);
                if k > pos {
                    assert(views(s@)[pos as int] == s@[pos as int]@);
                    lemma_lt_transitive(s@[pos as int]@, x@, x@);
                }
            }
        }
        if pos < s@.len() {
            assert(s@[pos as int]@ != x@);
            lemma_lt_total(s@[pos as int]@, x@);
        }
    }
    s.insert(pos, x);
    let ghost new_v = views(s@);
    assert(new_v =~= old_v.insert(pos as int, x@));
    assert forall|i: int, j: int| 0 <= i < j < new_v.len() implies seq_lt(new_v[i], new_v[j]) by {
        if j < pos {
            assert(new_v[i] == old_v[i] && new_v[j] == old_v[j]);
        } else if j == pos {
            assert(new_v[i] == old_v[i]);
        } else if i < pos {
            assert(new_v[i] == old_v[i] && new_v[j] == old_v[j - 1]);
            assert(old_v[j - 1] == s@[j]@);
            if pos < old_v.len() {
                lemma_lt_transitive(old_v[i], x@, old_v[pos as int]);
                if j - 1 > pos {
                    lemma_lt_transitive(old_v[i], old_v[pos as int], old_v[j - 1]);
                }
            }
        } else if i == pos {
            assert(new_v[j] == old_v[j - 1]);
            if j - 1 > pos {
                lemma_lt_transitive(x@, old_v[pos as int], old_v[j - 1]);
            }
        } else {
            assert(new_v[i] == old_v[i - 1] && new_v[j] == old_v[j - 1]);
        }
    }
    assert(new_v.to_set() =~= old_v.to_set().insert(x@)) by {
        assert forall|y: Seq<char>| new_v.contains(y) implies old_v.to_set().insert(x@).contains(
            y,
        ) by {
            let k = choose|k: int| 0 <= k < new_v.len() && new_v[k] == y;
            if k < pos {
                assert(old_v[k] == y);
            } else if k > pos {
                assert(old_v[k - 1] == y);
            }
        }
        assert forall|y: Seq<char>| old_v.to_set().insert(x@).contains(y) implies new_v.contains(
            y,
        ) by {
            if y == x@ {
                assert(new_v[pos as int] == y);
            } else {
                let k = choose|k: int| 0 <= k < old_v.len() && old_v[k] == y;
                if k < pos {
                    assert(new_v[k] == y);
                } else {
                    assert(new_v[k + 1] == y);
                }
            }
        }
    }
    true
}


/// Putting `x` at a position where everything before orders before it and
/// the element after orders after it keeps the sequence strictly sorted.
pub proof fn lemma_sorted_insert(s: Seq<Seq<char>>, pos: int, x: Seq<char>)
    requires
        strictly_sorted(s),
        0 <= pos <= s.len(),
        forall|i: int| 0 <= i < pos ==> seq_lt(#[trigger] s[i], x),
        pos < s.len() ==> seq_lt(x, s[pos]),
    ensures
        strictly_sorted(s.insert(pos, x)),
{
    let t = s.insert(pos, x);
    assert forall|i: int, j: int| 0 <= i < j < t.len() implies seq_lt(t[i], t[j]) by {
        if j < pos {
            assert(t[i] == s[i] && t[j] == s[j]);
        } else if j == pos {
            assert(t[i] == s[i]);
        } else if i < pos {
            assert(t[i] == s[i] && t[j] == s[j - 1]);
            lemma_lt_transitive(s[i], x, s[pos]);
            if j - 1 > pos {
                lemma_lt_transitive(s[i], s[pos], s[j - 1]);
            }
        } else if i == pos {
            assert(t[j] == s[j - 1]);
            if j - 1 > pos {
                lemma_lt_transitive(x, s[pos], s[j - 1]);
            }
        } else {
            assert(t[i] == s[i - 1] && t[j] == s[j - 1]);
        }
    }
}

/// Taking an element out of a strictly sorted sequence leaves it sorted.
pub proof fn lemma_sorted_remove(s: Seq<Seq<char>>, pos: int)
    requires
        strictly_sorted(s),
        0 <= pos < s.len(),
    ensures
        strictly_sorted(s.remove(pos)),
{
    let t = s.remove(pos);
    assert forall|i: int, j: int| 0 <= i < j < t.len() implies seq_lt(t[i], t[j]) by {
        let a = if i < pos { i } else { i + 1 };
        let b = if j < pos { j } else { j + 1 };
        assert(t[i] == s[a] && t[j] == s[b]);
    }
}

/// What a search position tells about the element there: `x` is in `s`
/// exactly when it stands at `pos`, and otherwise it orders before the
/// element at `pos`.
pub proof fn lemma_position_facts(s: Seq<Seq<char>>, pos: int, x: Seq<char>)
    requires
        strictly_sorted(s),
        0 <= pos <= s.len(),
        forall|i: int| 0 <= i < pos ==> seq_lt(#[trigger] s[i], x),
        forall|i: int| pos <= i < s.len() ==> !seq_lt(#[trigger] s[i], x),
    ensures
        s.contains(x) <==> (pos < s.len() && s[pos] == x),
        pos < s.len() && s[pos] != x ==> seq_lt(x, s[pos]),
{
    if s.contains(x) {
        let k = choose|k: int| 0 <= k < s.len() && s[k] == x;
        lemma_lt_irreflexive(x);
        if k > pos {
            lemma_lt_transitive(s[pos], x, x);
        }
    }
    if pos < s.len() && s[pos] != x {
        lemma_lt_total(s[pos], x);
    }
}

/// A set of texts, kept in ascending order without repeats.
pub struct IdSet {
    items: Vec<String>,
}

impl View for IdSet {
    type V = Set<Seq<char>>;

    closed spec fn view(&self) -> Set<Seq<char>> {
        views(self.items@).to_set()
    }
}

impl IdSet {
    /// The members, in ascending order.
    pub closed spec fn ordered(&self) -> Seq<Seq<char>> {
        views(self.items@)
    }

    /// The members are kept in ascending order without repeats.
    pub closed spec fn wf(&self) -> bool {
        strictly_sorted(views(self.items@))
    }

    pub proof fn lemma_ordered(&self)
        requires
            self.wf(),
        ensures
            strictly_sorted(self.ordered()),
            self.ordered().no_duplicates(),
            self.ordered().to_set() == self@,
            self@.finite(),
            self@.len() == self.ordered().len(),
    {
        lemma_sorted_distinct(self.ordered());
        self.ordered().unique_seq_to_set();
        vstd::seq_lib::seq_to_set_is_finite(self.ordered());
    }

    /// The empty set.
    pub fn new() -> (set: Self)
        ensures
            set.wf(),
            set@ == Set::<Seq<char>>::empty(),
            set.ordered() == Seq::<Seq<char>>::empty(),
    {
        let set = IdSet { items: Vec::new() };
        assert(views(set.items@) =~= Seq::<Seq<char>>::empty());
        assert(set@ =~= Set::<Seq<char>>::empty());
        set
    }

    /// Whether `x` is a member.
    pub fn contains(&self, x: &str) -> (b: bool)
        requires
            self.wf(),
        ensures
            b == self@.contains(x@),
    {
        let pos = sorted_position(&self.items, x);
        proof {
            lemma_position_facts(views(self.items@), pos as int, x@);
        }
        if pos < self.items.len() {
            assert(views(self.items@)[pos as int] == self.items@[pos as int]@);
            str_eq(self.items[pos].as_str(), x)
        } else {
            false
        }
    }

    /// Adds `x`; returns whether it was not a member before.
    pub fn insert(&mut self, x: String) -> (added: bool)
        requires
            old(self).wf(),
        ensures
            final(self).wf(),
            final(self)@ == old(self)@.insert(x@),
            added == !old(self)@.contains(x@),
    {
        insert_sorted(&mut self.items, x)
    }

    /// The number of members.
    pub fn len(&self) -> (n: usize)
        requires
            self.wf(),
        ensures
            n == self@.len(),
    {
        proof {
            self.lemma_ordered();
        }
        self.items.len()
    }

    /// The members, in ascending order.
    pub fn to_vec(&self) -> (v: Vec<String>)
        requires
            self.wf(),
        ensures
            views(v@) == self.ordered(),
    {
        let mut v: Vec<String> = Vec::new();
        let mut i: usize = 0;
        while i < self.items.len()
            invariant
                i <= self.items@.len(),
                v@.len() == i,
                forall|j: int| 0 <= j < i ==> (#[trigger] v@[j])@ == self.items@[j]@,
            decreases self.items@.len() - i,
        {
            v.push(owned(self.items[i].as_str()));
            i = i + 1;
        }
        assert(views(v@) =~= views(self.items@));
        v
    }

    /// A set with the same members.
    pub fn duplicate(&self) -> (copy: Self)
        requires
            self.wf(),
        ensures
            copy.wf(),
            copy@ == self@,
            copy.ordered() == self.ordered(),
    {
        IdSet { items: self.to_vec() }
    }
}

} // verus!
