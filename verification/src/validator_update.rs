//! Validator-set metadata updates: what one adds and removes, when it
//! expires, and the keyring it leads to.
use crate::keyring::{key_views, ValidatorKeyring, ValidatorPublicKey};
use crate::node_error::NodeError;
use crate::table::pairs_map;
use crate::text::{owned, str_eq, views};
use vstd::prelude::*;

verus! {

/// A proposed change of the validator set.
#[derive(Debug)]
pub struct ValidatorSetMetadataUpdate {
    pub update_id: String,
    pub add_validators: Vec<ValidatorPublicKey>,
    pub remove_validators: Vec<String>,
    pub expires_at_height: Option<u64>,
}

/// The content of an update.
pub struct UpdateView {
    pub update_id: Seq<char>,
    pub add_validators: Seq<(Seq<char>, Seq<u8>)>,
    pub remove_validators: Seq<Seq<char>>,
    pub expires_at_height: Option<u64>,
}

impl View for ValidatorSetMetadataUpdate {
    type V = UpdateView;

    open spec fn view(&self) -> UpdateView {
        UpdateView {
            update_id: self.update_id@,
            add_validators: key_views(self.add_validators@),
            remove_validators: views(self.remove_validators@),
            expires_at_height: self.expires_at_height,
        }
    }
}

/// Whether two byte strings are equal.
pub fn bytes_eq(a: &Vec<u8>, b: &Vec<u8>) -> (eq: bool)
    ensures
        eq == (a@ == b@),
{
    if a.len() != b.len() {
        return false;
    }
    let mut i: usize = 0;
    while i < a.len()
        invariant
            a@.len() == b@.len(),
            i <= a@.len(),
            forall|j: int| 0 <= j < i ==> a@[j] == b@[j],
        decreases a@.len() - i,
    {
        if a[i] != b[i] {
            return false;
        }
        i = i + 1;
    }
    assert(a@ =~= b@);
    true
}

/// Whether two lists of texts are equal.
pub fn strings_eq(a: &Vec<String>, b: &Vec<String>) -> (eq: bool)
    ensures
        eq == (views(a@) == views(b@)),
{
    if a.len() != b.len() {
        assert(views(a@).len() != views(b@).len());
        return false;
    }
    let mut i: usize = 0;
    while i < a.len()
        invariant
            a@.len() == b@.len(),
            i <= a@.len(),
            forall|j: int| 0 <= j < i ==> a@[j]@ == b@[j]@,
        decreases a@.len() - i,
    {
        if !str_eq(a[i].as_str(), b[i].as_str()) {
            assert(views(a@)[i as int] != views(b@)[i as int]);
            return false;
        }
        i = i + 1;
    }
    assert(views(a@) =~= views(b@));
    true
}

/// Whether two lists of keys are equal.
pub fn keys_eq(a: &Vec<ValidatorPublicKey>, b: &Vec<ValidatorPublicKey>) -> (eq: bool)
    ensures
        eq == (key_views(a@) == key_views(b@)),
{
    if a.len() != b.len() {
        assert(key_views(a@).len() != key_views(b@).len());
        return false;
    }
    let mut i: usize = 0;
    while i < a.len()
        invariant
            a@.len() == b@.len(),
            i <= a@.len(),
            forall|j: int| 0 <= j < i ==> a@[j]@ == b@[j]@,
        decreases a@.len() - i,
    {
        if !str_eq(a[i].validator_id.as_str(), b[i].validator_id.as_str()) || !bytes_eq(
            &a[i].public_key,
            &b[i].public_key,
        ) {
            assert(key_views(a@)[i as int] != key_views(b@)[i as int]);
            return false;
        }
        i = i + 1;
    }
    assert(key_views(a@) =~= key_views(b@));
    true
}

impl ValidatorSetMetadataUpdate {
    /// Whether `other` proposes exactly the same change.
    pub fn same_as(&self, other: &Self) -> (eq: bool)
        ensures
            eq == (self@ == other@),
    {
        let same_expiry = match (self.expires_at_height, other.expires_at_height) {
            (Some(a), Some(b)) => a == b,
            (None, None) => true,
            _ => false,
        };
        str_eq(self.update_id.as_str(), other.update_id.as_str()) && same_expiry && strings_eq(
            &self.remove_validators,
            &other.remove_validators,
        ) && keys_eq(&self.add_validators, &other.add_validators)
    }

    /// A copy of this update.
    pub fn duplicate(&self) -> (copy: Self)
        ensures
            copy@ == self@,
    {
        let mut adds: Vec<ValidatorPublicKey> = Vec::new();
        let mut i: usize = 0;
        while i < self.add_validators.len()
            invariant
                i <= self.add_validators@.len(),
                adds@.len() == i,
                forall|j: int| 0 <= j < i ==> (#[trigger] adds@[j])@ == self.add_validators@[j]@,
            decreases self.add_validators@.len() - i,
        {
            adds.push(self.add_validators[i].duplicate());
            i = i + 1;
        }
        let mut removes: Vec<String> = Vec::new();
        let mut k: usize = 0;
        while k < self.remove_validators.len()
            invariant
                k <= self.remove_validators@.len(),
                removes@.len() == k,
                forall|j: int|
                    0 <= j < k ==> (#[trigger] removes@[j])@ == self.remove_validators@[j]@,
            decreases self.remove_validators@.len() - k,
        {
            removes.push(owned(self.remove_validators[k].as_str()));
            k = k + 1;
        }
        let copy = ValidatorSetMetadataUpdate {
            update_id: owned(self.update_id.as_str()),
            add_validators: adds,
            remove_validators: removes,
            expires_at_height: self.expires_at_height,
        };
        assert(key_views(copy.add_validators@) =~= key_views(self.add_validators@));
        assert(views(copy.remove_validators@) =~= views(self.remove_validators@));
        copy
    }
}

/// An update has expired once the chain has reached its expiry height.
pub open spec fn update_expired(update: UpdateView, current_height: u64) -> bool {
    match update.expires_at_height {
        Some(h) => current_height >= h,
        None => false,
    }
}

/// Whether `update` has expired at `current_height`.
pub fn validator_set_metadata_update_expired(
    update: &ValidatorSetMetadataUpdate,
    current_height: u64,
) -> (expired: bool)
    ensures
        expired == update_expired(update@, current_height),
{
    match update.expires_at_height {
        Some(h) => current_height >= h,
        None => false,
    }
}

/// Refuses an update that has expired at `current_height`.
pub fn reject_expired_validator_set_metadata_update(
    update: &ValidatorSetMetadataUpdate,
    current_height: u64,
) -> (result: Result<(), NodeError>)
    ensures
        result is Ok <==> !update_expired(update@, current_height),
        result matches Err(e) ==> (e matches NodeError::ValidatorSetMetadataUpdateExpired {
            update_id,
            expires_at_height,
            current_height: h,
        } && update_id@ == update@.update_id && update@.expires_at_height == Some(
            expires_at_height,
        ) && h == current_height),
{
    if let Some(expires_at_height) = update.expires_at_height {
        if current_height >= expires_at_height {
            return Err(
                NodeError::ValidatorSetMetadataUpdateExpired {
                    update_id: owned(update.update_id.as_str()),
                    expires_at_height,
                    current_height,
                },
            );
        }
    }
    Ok(())
}

/// Removes each id of `ids` in turn; fails with the first id that is not
/// in the map at its turn.
pub open spec fn remove_all(
    keys: Map<Seq<char>, Seq<u8>>,
    ids: Seq<Seq<char>>,
) -> Result<Map<Seq<char>, Seq<u8>>, Seq<char>>
    decreases ids.len(),
{
    if ids.len() == 0 {
        Ok(keys)
    } else {
        match remove_all(keys, ids.drop_last()) {
            Ok(m) => if m.dom().contains(ids.last()) {
                Ok(m.remove(ids.last()))
            } else {
                Err(ids.last())
            },
            Err(e) => Err(e),
        }
    }
}

/// Adds each key of `added` in turn; fails with the first id that is
/// already in the map at its turn.
pub open spec fn add_all(
    keys: Map<Seq<char>, Seq<u8>>,
    added: Seq<(Seq<char>, Seq<u8>)>,
) -> Result<Map<Seq<char>, Seq<u8>>, Seq<char>>
    decreases added.len(),
{
    if added.len() == 0 {
        Ok(keys)
    } else {
        match add_all(keys, added.drop_last()) {
            Ok(m) => if m.dom().contains(added.last().0) {
                Err(added.last().0)
            } else {
                Ok(m.insert(added.last().0, added.last().1))
            },
            Err(e) => Err(e),
        }
    }
}

/// The keyring an update leads to: its removals, then its additions.
pub open spec fn updated_keys(
    keys: Map<Seq<char>, Seq<u8>>,
    update: UpdateView,
) -> Result<Map<Seq<char>, Seq<u8>>, KeyringFailure> {
    match remove_all(keys, update.remove_validators) {
        Err(id) => Err(KeyringFailure::KeyNotFound(id)),
        Ok(m) => match add_all(m, update.add_validators) {
            Err(id) => Err(KeyringFailure::Duplicate(id)),
            Ok(m2) => Ok(m2),
        },
    }
}

/// Which of its two errors applying an update to a keyring raises, and for
/// which id.
pub enum KeyringFailure {
    KeyNotFound(Seq<char>),
    Duplicate(Seq<char>),
}

/// Whether `e` is the error that `kind` names.
pub open spec fn is_keyring_error(e: NodeError, kind: KeyringFailure) -> bool {
    match kind {
        KeyringFailure::KeyNotFound(id) => e matches NodeError::ValidatorMetadataKeyNotFound(x)
            && x@ == id,
        KeyringFailure::Duplicate(id) => e matches NodeError::DuplicateValidatorKey(x) && x@ == id,
    }
}

/// The keyring that applying `update` to `keys` leads to: each removed
/// validator must be trusted at its turn and each added one must not be.
pub fn updated_keyring(keys: &ValidatorKeyring, update: &ValidatorSetMetadataUpdate) -> (result:
    Result<ValidatorKeyring, NodeError>)
    requires
        keys.wf(),
    ensures
        match updated_keys(keys@, update@) {
            Ok(m) => result matches Ok(next) && next.wf() && next@ == m,
            Err(kind) => result matches Err(e) && is_keyring_error(e, kind),
        },
{
    let mut next = keys.duplicate();
    let ghost removes = update@.remove_validators;
    let ghost adds = update@.add_validators;
    let mut i: usize = 0;
    while i < update.remove_validators.len()
        invariant
            removes == update@.remove_validators,
            i <= removes.len(),
            next.wf(),
            remove_all(keys@, removes.take(i as int)) == Ok::<Map<Seq<char>, Seq<u8>>, Seq<char>>(
                next@,
            ),
        decreases removes.len() - i,
    {
        assert(removes.take(i + 1).drop_last() =~= removes.take(i as int));
        assert(removes.take(i + 1).last() == removes[i as int]);
        assert(removes[i as int] == update.remove_validators@[i as int]@);
        if !next.remove(update.remove_validators[i].as_str()) {
            proof {
                lemma_remove_all_error_persists(keys@, removes, i + 1);
            }
            return Err(
                NodeError::ValidatorMetadataKeyNotFound(
                    owned(update.remove_validators[i].as_str()),
                ),
            );
        }
        i = i + 1;
    }
    assert(removes.take(i as int) =~= removes);
    let ghost removed = next@;
    let mut j: usize = 0;
    while j < update.add_validators.len()
        invariant
            adds == update@.add_validators,
            removes == update@.remove_validators,
            remove_all(keys@, removes) == Ok::<Map<Seq<char>, Seq<u8>>, Seq<char>>(removed),
            j <= adds.len(),
            next.wf(),
            add_all(removed, adds.take(j as int)) == Ok::<Map<Seq<char>, Seq<u8>>, Seq<char>>(
                next@,
            ),
        decreases adds.len() - j,
    {
        assert(adds.take(j + 1).drop_last() =~= adds.take(j as int));
        assert(adds.take(j + 1).last() == adds[j as int]);
        assert(adds[j as int] == update.add_validators@[j as int]@);
        if next.contains(update.add_validators[j].validator_id.as_str()) {
            proof {
                assert(adds[j as int].0 == update.add_validators@[j as int].validator_id@);
                assert(add_all(removed, adds.take(j + 1)) == Err::<Map<Seq<char>, Seq<u8>>, Seq<
                    char,
                >>(adds[j as int].0));
                lemma_add_all_error_persists(removed, adds, j + 1);
            }
            return Err(
                NodeError::DuplicateValidatorKey(owned(update.add_validators[j].validator_id.as_str())),
            );
        }
        next.insert(update.add_validators[j].duplicate());
        j = j + 1;
    }
    assert(adds.take(j as int) =~= adds);
    Ok(next)
}

/// Once an id fails, removing more ids still fails with it.
proof fn lemma_remove_all_error_persists(keys: Map<Seq<char>, Seq<u8>>, ids: Seq<Seq<char>>, n: int)
    requires
        0 <= n <= ids.len(),
        remove_all(keys, ids.take(n)) is Err,
    ensures
        remove_all(keys, ids) == remove_all(keys, ids.take(n)),
    decreases ids.len() - n,
{
    if n < ids.len() {
        assert(ids.take(n + 1).drop_last() =~= ids.take(n));
        lemma_remove_all_error_persists(keys, ids, n + 1);
    } else {
        assert(ids.take(n) =~= ids);
    }
}

/// Once an id fails, adding more keys still fails with it.
proof fn lemma_add_all_error_persists(
    keys: Map<Seq<char>, Seq<u8>>,
    added: Seq<(Seq<char>, Seq<u8>)>,
    n: int,
)
    requires
        0 <= n <= added.len(),
        add_all(keys, added.take(n)) is Err,
    ensures
        add_all(keys, added) == add_all(keys, added.take(n)),
    decreases added.len() - n,
{
    if n < added.len() {
        assert(added.take(n + 1).drop_last() =~= added.take(n));
        lemma_add_all_error_persists(keys, added, n + 1);
    } else {
        assert(added.take(n) =~= added);
    }
}

/// Removing ids one at a time succeeds exactly when they are distinct and
/// all present, and then takes exactly those keys away.
pub proof fn lemma_remove_all_effect(keys: Map<Seq<char>, Seq<u8>>, ids: Seq<Seq<char>>)
    ensures
        remove_all(keys, ids) is Ok <==> (ids.no_duplicates() && forall|i: int|
            0 <= i < ids.len() ==> keys.dom().contains(#[trigger] ids[i])),
        remove_all(keys, ids) is Ok ==> remove_all(keys, ids) == Ok::<
            Map<Seq<char>, Seq<u8>>,
            Seq<char>,
        >(keys.remove_keys(ids.to_set())),
    decreases ids.len(),
{
    if ids.len() > 0 {
        let t = ids.drop_last();
        let x = ids.last();
        lemma_remove_all_effect(keys, t);
        assert forall|i: int| 0 <= i < t.len() implies #[trigger] t[i] == ids[i] by {}
        if remove_all(keys, t) is Ok {
            let m = keys.remove_keys(t.to_set());
            if ids.no_duplicates() && forall|i: int|
                0 <= i < ids.len() ==> keys.dom().contains(#[trigger] ids[i]) {
                assert(t.no_duplicates());
                assert(keys.dom().contains(ids[ids.len() - 1]));
                assert(!t.to_set().contains(x)) by {
                    if t.to_set().contains(x) {
                        let k = choose|k: int| 0 <= k < t.len() && t[k] == x;
                        assert(ids[k] == ids[ids.len() - 1]);
                    }
                }
                assert(m.dom().contains(x));
                assert(m.remove(x) =~= keys.remove_keys(ids.to_set())) by {
                    assert(ids.to_set() =~= t.to_set().insert(x)) by {
                        assert forall|y: Seq<char>| ids.to_set().contains(y) implies t.to_set().insert(
                            x,
                        ).contains(y) by {
                            let k = choose|k: int| 0 <= k < ids.len() && ids[k] == y;
                            if k < ids.len() - 1 {
                                assert(t[k] == y);
                            }
                        }
                        assert forall|y: Seq<char>| t.to_set().insert(x).contains(y) implies ids.to_set().contains(
                            y,
                        ) by {
                            if y == x {
                                assert(ids[ids.len() - 1] == y);
                            } else {
                                let k = choose|k: int| 0 <= k < t.len() && t[k] == y;
                                assert(ids[k] == y);
                            }
                        }
                    }
                }
            } else {
                if remove_all(keys, ids) is Ok {
                    assert(m.dom().contains(x));
                    assert(keys.dom().contains(x) && !t.to_set().contains(x));
                    assert(!t.contains(x));
                    assert(ids.no_duplicates()) by {
                        assert forall|a: int, b: int|
                            0 <= a < ids.len() && 0 <= b < ids.len() && a != b implies ids[a]
                            != ids[b] by {
                            if a < ids.len() - 1 && b < ids.len() - 1 {
                                assert(t[a] == ids[a] && t[b] == ids[b]);
                            } else if a < ids.len() - 1 {
                                assert(t[a] == ids[a]);
                            } else {
                                assert(t[b] == ids[b]);
                            }
                        }
                    }
                    assert forall|i: int| 0 <= i < ids.len() implies keys.dom().contains(
                        #[trigger] ids[i],
                    ) by {
                        if i < ids.len() - 1 {
                            assert(t[i] == ids[i]);
                        }
                    }
                }
            }
        } else {
            if ids.no_duplicates() && forall|i: int|
                0 <= i < ids.len() ==> keys.dom().contains(#[trigger] ids[i]) {
                assert(t.no_duplicates());
                assert forall|i: int| 0 <= i < t.len() implies keys.dom().contains(
                    #[trigger] t[i],
                ) by {
                    assert(ids[i] == t[i]);
                }
            }
        }
    } else {
        assert(keys.remove_keys(ids.to_set()) =~= keys);
        assert(ids.no_duplicates());
    }
}

/// Adding keys one at a time succeeds exactly when their ids are distinct
/// and new, and then adds exactly those keys.
pub proof fn lemma_add_all_effect(keys: Map<Seq<char>, Seq<u8>>, added: Seq<(Seq<char>, Seq<u8>)>)
    ensures
        add_all(keys, added) is Ok <==> (added.map_values(|p: (Seq<char>, Seq<u8>)| p.0).no_duplicates()
            && forall|i: int| 0 <= i < added.len() ==> !keys.dom().contains(#[trigger] added[i].0)),
        add_all(keys, added) is Ok ==> add_all(keys, added) == Ok::<
            Map<Seq<char>, Seq<u8>>,
            Seq<char>,
        >(keys.union_prefer_right(pairs_map(added))),
    decreases added.len(),
{
    let ids = added.map_values(|p: (Seq<char>, Seq<u8>)| p.0);
    if added.len() > 0 {
        let t = added.drop_last();
        let x = added.last();
        let tids = t.map_values(|p: (Seq<char>, Seq<u8>)| p.0);
        lemma_add_all_effect(keys, t);
        assert forall|i: int| 0 <= i < t.len() implies #[trigger] t[i] == added[i] by {}
        assert forall|i: int| 0 <= i < t.len() implies #[trigger] tids[i] == ids[i] by {}
        assert(ids[ids.len() - 1] == x.0);
        crate::table::lemma_pairs_map_dom(t, x.0);
        if add_all(keys, t) is Ok {
            let m = keys.union_prefer_right(pairs_map(t));
            if ids.no_duplicates() && forall|i: int|
                0 <= i < added.len() ==> !keys.dom().contains(#[trigger] added[i].0) {
                assert(tids.no_duplicates());
                assert forall|i: int| 0 <= i < t.len() implies !keys.dom().contains(
                    #[trigger] t[i].0,
                ) by {
                    assert(t[i] == added[i]);
                }
                assert(!keys.dom().contains(added[added.len() - 1].0));
                assert(!pairs_map(t).dom().contains(x.0)) by {
                    if pairs_map(t).dom().contains(x.0) {
                        let k = choose|k: int| 0 <= k < t.len() && t[k].0 == x.0;
                        assert(ids[k] == ids[ids.len() - 1]);
                    }
                }
                assert(m.insert(x.0, x.1) =~= keys.union_prefer_right(pairs_map(added)));
            } else {
                if add_all(keys, added) is Ok {
                    assert(!m.dom().contains(x.0));
                    assert(ids.no_duplicates()) by {
                        assert forall|a: int, b: int|
                            0 <= a < ids.len() && 0 <= b < ids.len() && a != b implies ids[a]
                            != ids[b] by {
                            if a < ids.len() - 1 && b < ids.len() - 1 {
                                assert(tids[a] == ids[a] && tids[b] == ids[b]);
                            } else if a < ids.len() - 1 {
                                assert(tids[a] == ids[a]);
                                assert(t[a].0 == ids[a]);
                            } else {
                                assert(tids[b] == ids[b]);
                                assert(t[b].0 == ids[b]);
                            }
                        }
                    }
                    assert forall|i: int| 0 <= i < added.len() implies !keys.dom().contains(
                        #[trigger] added[i].0,
                    ) by {
                        if i < added.len() - 1 {
                            assert(t[i] == added[i]);
                        }
                    }
                }
            }
        } else {
            if ids.no_duplicates() && forall|i: int|
                0 <= i < added.len() ==> !keys.dom().contains(#[trigger] added[i].0) {
                assert(tids.no_duplicates());
                assert forall|i: int| 0 <= i < t.len() implies !keys.dom().contains(
                    #[trigger] t[i].0,
                ) by {
                    assert(t[i] == added[i]);
                }
            }
        }
    } else {
        assert(keys.union_prefer_right(pairs_map(added)) =~= keys);
        assert(ids.no_duplicates());
    }
}

} // verus!
