//! The trusted validator keyring: each validator id with its public key,
//! kept in ascending order of id.
use crate::node_error::NodeError;
use crate::sorted::{
    lemma_lt_transitive, lemma_position_facts, lemma_sorted_distinct,
    lemma_sorted_insert, lemma_sorted_remove, seq_lt, str_lt, strictly_sorted,
};
use crate::table::{
    keys_distinct, lemma_pairs_map_dom, lemma_pairs_map_get, lemma_pairs_map_insert,
    lemma_pairs_map_len, lemma_pairs_map_remove, lemma_pairs_map_update, pairs_map,
};
use crate::text::{owned, str_eq};
use vstd::prelude::*;

verus! {

/// A validator's id and the bytes of its public key.
#[derive(Debug)]
pub struct ValidatorPublicKey {
    pub validator_id: String,
    pub public_key: Vec<u8>,
}

impl View for ValidatorPublicKey {
    type V = (Seq<char>, Seq<u8>);

    open spec fn view(&self) -> (Seq<char>, Seq<u8>) {
        (self.validator_id@, self.public_key@)
    }
}

/// A copy of `bytes`.
pub fn copy_bytes(bytes: &Vec<u8>) -> (copy: Vec<u8>)
    ensures
        copy@ == bytes@,
{
    let mut copy: Vec<u8> = Vec::new();
    let mut i: usize = 0;
    while i < bytes.len()
        invariant
            i <= bytes@.len(),
            copy@ == bytes@.take(i as int),
        decreases bytes@.len() - i,
    {
        copy.push(bytes[i]);
        assert(copy@ =~= bytes@.take(i + 1));
        i = i + 1;
    }
    assert(bytes@.take(i as int) =~= bytes@);
    copy
}

impl ValidatorPublicKey {
    /// A copy of this key.
    pub fn duplicate(&self) -> (copy: Self)
        ensures
            copy@ == self@,
    {
        ValidatorPublicKey {
            validator_id: owned(self.validator_id.as_str()),
            public_key: copy_bytes(&self.public_key),
        }
    }
}

/// The `(id, key)` view of each key of a list.
pub open spec fn key_views(s: Seq<ValidatorPublicKey>) -> Seq<(Seq<char>, Seq<u8>)> {
    s.map_values(|k: ValidatorPublicKey| k@)
}

/// The ids of a list of keys.
pub open spec fn key_ids(s: Seq<ValidatorPublicKey>) -> Seq<Seq<char>> {
    s.map_values(|k: ValidatorPublicKey| k.validator_id@)
}

/// `j` is the first position of `s` whose element already occurred
/// before it.
pub open spec fn first_repeat(s: Seq<Seq<char>>, j: int) -> bool {
    &&& 0 <= j < s.len()
    &&& s.take(j).contains(s[j])
    &&& s.take(j).no_duplicates()
}

/// The trusted validators, each id with its public key.
pub struct ValidatorKeyring {
    entries: Vec<ValidatorPublicKey>,
}

impl View for ValidatorKeyring {
    type V = Map<Seq<char>, Seq<u8>>;

    /// Each trusted validator id with the bytes of its key.
    closed spec fn view(&self) -> Map<Seq<char>, Seq<u8>> {
        pairs_map(key_views(self.entries@))
    }
}

impl ValidatorKeyring {
    /// The keys in ascending order of validator id.
    pub closed spec fn ordered(&self) -> Seq<(Seq<char>, Seq<u8>)> {
        key_views(self.entries@)
    }

    /// The keys are kept in strictly ascending order of id.
    pub closed spec fn wf(&self) -> bool {
        strictly_sorted(key_ids(self.entries@))
    }

    proof fn lemma_distinct(&self)
        requires
            self.wf(),
        ensures
            keys_distinct(key_views(self.entries@)),
    {
        let ids = key_ids(self.entries@);
        let kv = key_views(self.entries@);
        lemma_sorted_distinct(ids);
        assert forall|a: int, b: int|
            0 <= a < kv.len() && 0 <= b < kv.len() && a != b implies kv[a].0 != kv[b].0 by {
            assert(kv[a].0 == ids[a] && kv[b].0 == ids[b]);
        }
    }

    /// What the ordered list says of the keyring.
    pub proof fn lemma_ordered(&self)
        requires
            self.wf(),
        ensures
            keys_distinct(self.ordered()),
            pairs_map(self.ordered()) == self@,
            self@.dom().finite(),
            self@.dom().len() == self.ordered().len(),
            strictly_sorted(self.ordered().map_values(|p: (Seq<char>, Seq<u8>)| p.0)),
    {
        self.lemma_distinct();
        lemma_pairs_map_len(key_views(self.entries@));
        assert(self.ordered().map_values(|p: (Seq<char>, Seq<u8>)| p.0) =~= key_ids(
            self.entries@,
        ));
    }

    /// The empty keyring.
    pub fn new() -> (keyring: Self)
        ensures
            keyring.wf(),
            keyring@ == Map::<Seq<char>, Seq<u8>>::empty(),
    {
        let keyring = ValidatorKeyring { entries: Vec::new() };
        assert(key_ids(keyring.entries@) =~= Seq::<Seq<char>>::empty());
        assert(key_views(keyring.entries@) =~= Seq::<(Seq<char>, Seq<u8>)>::empty());
        keyring
    }

    /// The place of `id` in the ordered entries.
    fn position(&self, id: &str) -> (pos: usize)
        requires
            self.wf(),
        ensures
            pos <= self.entries@.len(),
            forall|i: int| 0 <= i < pos ==> seq_lt(#[trigger] key_ids(self.entries@)[i], id@),
            forall|i: int|
                pos <= i < self.entries@.len() ==> !seq_lt(
                    #[trigger] key_ids(self.entries@)[i],
                    id@,
                ),
    {
        let ghost ids = key_ids(self.entries@);
        let mut pos: usize = 0;
        while pos < self.entries.len() && str_lt(self.entries[pos].validator_id.as_str(), id)
            invariant
                ids == key_ids(self.entries@),
                pos <= self.entries@.len(),
                strictly_sorted(ids),
                forall|i: int| 0 <= i < pos ==> seq_lt(#[trigger] ids[i], id@),
            decreases self.entries@.len() - pos,
        {
            pos = pos + 1;
        }
        assert forall|i: int| pos <= i < self.entries@.len() implies !seq_lt(
            #[trigger] ids[i],
            id@,
        ) by {
            if i > pos && seq_lt(ids[i], id@) {
                lemma_lt_transitive(ids[pos as int], ids[i], id@);
            }
        }
        pos
    }

    /// The index of `id` among the entries, if it is there.
    fn find(&self, id: &str) -> (found: Option<usize>)
        requires
            self.wf(),
        ensures
            found is None ==> !self@.dom().contains(id@),
            found matches Some(i) ==> i < self.entries@.len() && self.entries@[i as int].validator_id@
                == id@ && self@.dom().contains(id@) && self@[id@]
                == self.entries@[i as int].public_key@,
    {
        let pos = self.position(id);
        let ghost ids = key_ids(self.entries@);
        proof {
            lemma_position_facts(ids, pos as int, id@);
            self.lemma_distinct();
            lemma_pairs_map_dom(key_views(self.entries@), id@);
            if self@.dom().contains(id@) {
                let i = choose|i: int|
                    0 <= i < key_views(self.entries@).len() && key_views(self.entries@)[i].0
                        == id@;
                assert(ids[i] == id@);
            }
        }
        if pos < self.entries.len() && str_eq(self.entries[pos].validator_id.as_str(), id) {
            proof {
                assert(ids[pos as int] == id@);
                lemma_pairs_map_get(key_views(self.entries@), pos as int);
            }
            Some(pos)
        } else {
            None
        }
    }

    /// Whether `id` is trusted.
    pub fn contains(&self, id: &str) -> (b: bool)
        requires
            self.wf(),
        ensures
            b == self@.dom().contains(id@),
    {
        self.find(id).is_some()
    }

    /// The key of `id`, if it is trusted.
    pub fn get(&self, id: &str) -> (key: Option<&ValidatorPublicKey>)
        requires
            self.wf(),
        ensures
            key is None ==> !self@.dom().contains(id@),
            key matches Some(k) ==> self@.dom().contains(id@) && k.validator_id@ == id@
                && k.public_key@ == self@[id@],
    {
        match self.find(id) {
            Some(i) => Some(&self.entries[i]),
            None => None,
        }
    }

    /// The number of trusted validators.
    pub fn len(&self) -> (n: usize)
        requires
            self.wf(),
        ensures
            n == self@.dom().len(),
    {
        proof {
            self.lemma_ordered();
        }
        self.entries.len()
    }

    /// Trusts `key`, replacing any key of the same validator. Returns whether
    /// one was replaced.
    pub fn insert(&mut self, key: ValidatorPublicKey) -> (replaced: bool)
        requires
            old(self).wf(),
        ensures
            final(self).wf(),
            final(self)@ == old(self)@.insert(key.validator_id@, key.public_key@),
            replaced == old(self)@.dom().contains(key.validator_id@),
    {
        let pos = self.position(key.validator_id.as_str());
        let ghost ids = key_ids(self.entries@);
        let ghost kv = key_views(self.entries@);
        let ghost k = key@;
        proof {
            lemma_position_facts(ids, pos as int, k.0);
            self.lemma_distinct();
            lemma_pairs_map_dom(kv, k.0);
            if self@.dom().contains(k.0) {
                let i = choose|i: int| 0 <= i < kv.len() && kv[i].0 == k.0;
                assert(ids[i] == k.0);
            }
        }
        if pos < self.entries.len() && str_eq(
            self.entries[pos].validator_id.as_str(),
            key.validator_id.as_str(),
        ) {
            self.entries.set(pos, key);
            proof {
                assert(kv[pos as int].0 == k.0);
                lemma_pairs_map_update(kv, pos as int, k.1);
                assert(key_views(self.entries@) =~= kv.update(pos as int, (kv[pos as int].0, k.1)));
                assert(key_ids(self.entries@) =~= ids);
                lemma_pairs_map_dom(kv, k.0);
            }
            true
        } else {
            self.entries.insert(pos, key);
            proof {
                assert forall|i: int| 0 <= i < kv.len() implies kv[i].0 != k.0 by {
                    assert(kv[i].0 == ids[i]);
                }
                lemma_pairs_map_insert(kv, pos as int, k.0, k.1);
                assert(key_views(self.entries@) =~= kv.insert(pos as int, k));
                assert(key_ids(self.entries@) =~= ids.insert(pos as int, k.0));
                lemma_sorted_insert(ids, pos as int, k.0);
            }
            false
        }
    }

    /// Stops trusting `id`. Returns whether it was trusted.
    pub fn remove(&mut self, id: &str) -> (removed: bool)
        requires
            old(self).wf(),
        ensures
            final(self).wf(),
            final(self)@ == old(self)@.remove(id@),
            removed == old(self)@.dom().contains(id@),
    {
        let ghost ids = key_ids(self.entries@);
        let ghost kv = key_views(self.entries@);
        match self.find(id) {
            Some(i) => {
                proof {
                    self.lemma_distinct();
                    lemma_pairs_map_remove(kv, i as int);
                }
                self.entries.remove(i);
                proof {
                    assert(key_views(self.entries@) =~= kv.remove(i as int));
                    assert(key_ids(self.entries@) =~= ids.remove(i as int));
                    lemma_sorted_remove(ids, i as int);
                }
                true
            },
            None => {
                assert(self@.remove(id@) =~= self@);
                false
            },
        }
    }

    /// The trusted keys, in ascending order of validator id.
    pub fn validators(&self) -> (keys: Vec<ValidatorPublicKey>)
        requires
            self.wf(),
        ensures
            key_views(keys@) == self.ordered(),
    {
        let mut keys: Vec<ValidatorPublicKey> = Vec::new();
        let mut i: usize = 0;
        while i < self.entries.len()
            invariant
                i <= self.entries@.len(),
                keys@.len() == i,
                forall|j: int| 0 <= j < i ==> (#[trigger] keys@[j])@ == self.entries@[j]@,
            decreases self.entries@.len() - i,
        {
            keys.push(self.entries[i].duplicate());
            i = i + 1;
        }
        assert(key_views(keys@) =~= key_views(self.entries@));
        keys
    }

    /// A keyring that trusts the same keys.
    pub fn duplicate(&self) -> (copy: Self)
        requires
            self.wf(),
        ensures
            copy.wf(),
            copy@ == self@,
            copy.ordered() == self.ordered(),
    {
        let entries = self.validators();
        let copy = ValidatorKeyring { entries };
        assert(key_views(copy.entries@).len() == key_views(self.entries@).len());
        assert(key_ids(copy.entries@) =~= key_ids(self.entries@)) by {
            assert forall|j: int| 0 <= j < copy.entries@.len() implies key_ids(copy.entries@)[j]
                == key_ids(self.entries@)[j] by {
                assert(key_views(copy.entries@)[j] == key_views(self.entries@)[j]);
                assert(key_views(copy.entries@)[j].0 == key_ids(copy.entries@)[j]);
                assert(key_views(self.entries@)[j].0 == key_ids(self.entries@)[j]);
            }
        }
        copy
    }
}

/// The keyring that a list of validator keys describes. Fails with
/// `DuplicateValidatorKey` at the first id that occurs a second time.
pub fn keyring_from_metadata(validators: &Vec<ValidatorPublicKey>) -> (result: Result<
    ValidatorKeyring,
    NodeError,
>)
    ensures
        result is Ok <==> key_ids(validators@).no_duplicates(),
        result matches Ok(keyring) ==> keyring.wf() && keyring@ == pairs_map(
            key_views(validators@),
        ),
        result matches Err(e) ==> exists|j: int|
            first_repeat(key_ids(validators@), j) && (e matches NodeError::DuplicateValidatorKey(
                id,
            ) && id@ == #[trigger] key_ids(validators@)[j]),
{
    let ghost ids = key_ids(validators@);
    let ghost kv = key_views(validators@);
    let mut keyring = ValidatorKeyring::new();
    let mut i: usize = 0;
    assert(kv.take(0) =~= Seq::<(Seq<char>, Seq<u8>)>::empty());
    while i < validators.len()
        invariant
            ids == key_ids(validators@),
            kv == key_views(validators@),
            i <= validators@.len(),
            keyring.wf(),
            keyring@ == pairs_map(kv.take(i as int)),
            ids.take(i as int).no_duplicates(),
        decreases validators@.len() - i,
    {
        let key = validators[i].duplicate();
        let replaced = keyring.insert(key);
        proof {
            lemma_pairs_map_dom(kv.take(i as int), ids[i as int]);
        }
        if replaced {
            proof {
                let k = choose|k: int|
                    0 <= k < kv.take(i as int).len() && kv.take(i as int)[k].0 == ids[i as int];
                assert(ids.take(i as int)[k] == ids[i as int]);
                assert(first_repeat(ids, i as int));
                assert(!ids.no_duplicates()) by {
                    assert(ids[k] == ids[i as int]);
                }
            }
            return Err(NodeError::DuplicateValidatorKey(owned(validators[i].validator_id.as_str())));
        }
        proof {
            assert(kv.take(i + 1).drop_last() =~= kv.take(i as int));
            assert(kv.take(i + 1).last() == kv[i as int]);
            assert(!ids.take(i as int).contains(ids[i as int])) by {
                if ids.take(i as int).contains(ids[i as int]) {
                    let k = choose|k: int|
                        0 <= k < i && ids.take(i as int)[k] == ids[i as int];
                    assert(kv.take(i as int)[k].0 == ids[i as int]);
                }
            }
            assert(ids.take(i + 1) =~= ids.take(i as int).push(ids[i as int]));
        }
        i = i + 1;
    }
    assert(kv.take(i as int) =~= kv);
    assert(ids.take(i as int) =~= ids);
    Ok(keyring)
}

} // verus!
