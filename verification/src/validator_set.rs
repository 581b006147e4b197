//! The validator set of a node and its pool of pending metadata-update
//! authorizations: which validators are trusted, which updates have been
//! applied, and which signers have authorized each pending update.
use crate::keyring::{
    first_repeat, key_ids, key_views, keyring_from_metadata, ValidatorKeyring, ValidatorPublicKey,
};
use crate::node_error::NodeError;
use crate::sorted::{
    lemma_lt_transitive, lemma_position_facts, lemma_sorted_distinct, lemma_sorted_insert,
    lemma_sorted_remove, seq_lt, str_lt, strictly_sorted, IdSet,
};
use crate::table::{
    keys_distinct, lemma_pairs_map_dom, lemma_pairs_map_get, lemma_pairs_map_insert,
    lemma_pairs_map_len, lemma_pairs_map_remove, lemma_pairs_map_update, pairs_map,
};
use crate::text::{owned, str_eq, views};
use crate::validator_update::{
    is_keyring_error, update_expired, updated_keyring, updated_keys, KeyringFailure,
    UpdateView, ValidatorSetMetadataUpdate,
};
use vstd::prelude::*;

verus! {

/// How many distinct updates may wait for authorizations by default.
pub const DEFAULT_MAX_PENDING_VALIDATOR_SET_METADATA_UPDATES: usize = 128;

/// How many pending updates one validator may have authorized by default.
pub const DEFAULT_MAX_PENDING_VALIDATOR_SET_METADATA_AUTHORIZATIONS_PER_VALIDATOR: usize = 32;

/// The authorizations gathered so far for one update.
pub struct PendingAuthorizations {
    update: ValidatorSetMetadataUpdate,
    signers: IdSet,
}

/// The content of a pending entry: the update and who has authorized it.
pub struct PendingView {
    pub update: UpdateView,
    pub signers: Set<Seq<char>>,
}

/// The model of a validator set.
#[verifier::ext_equal]
pub struct RegistryView {
    /// Each trusted validator id with its key.
    pub keys: Map<Seq<char>, Seq<u8>>,
    /// The ids of the updates applied so far.
    pub applied: Set<Seq<char>>,
    /// Each update waiting for authorizations.
    pub pending: Map<Seq<char>, PendingView>,
    pub max_pending_updates: usize,
    pub max_pending_authorizations_per_validator: usize,
}

spec fn entry_view(p: PendingAuthorizations) -> (Seq<char>, PendingView) {
    (p.update.update_id@, PendingView { update: p.update@, signers: p.signers@ })
}

spec fn pending_views(s: Seq<PendingAuthorizations>) -> Seq<(Seq<char>, PendingView)> {
    s.map_values(|p: PendingAuthorizations| entry_view(p))
}

spec fn pending_ids(s: Seq<PendingAuthorizations>) -> Seq<Seq<char>> {
    s.map_values(|p: PendingAuthorizations| p.update.update_id@)
}

/// The number of pending updates that `signer` has authorized.
pub open spec fn signer_load(pending: Map<Seq<char>, PendingView>, signer: Seq<char>) -> nat {
    pending.dom().filter(|id: Seq<char>| pending[id].signers.contains(signer)).len()
}

spec fn load_seq(s: Seq<(Seq<char>, PendingView)>, signer: Seq<char>) -> nat
    decreases s.len(),
{
    if s.len() == 0 {
        0
    } else {
        load_seq(s.drop_last(), signer) + if s.last().1.signers.contains(signer) {
            1nat
        } else {
            0nat
        }
    }
}

proof fn lemma_load_seq(s: Seq<(Seq<char>, PendingView)>, signer: Seq<char>)
    requires
        keys_distinct(s),
    ensures
        load_seq(s, signer) == signer_load(pairs_map(s), signer),
        pairs_map(s).dom().finite(),
    decreases s.len(),
{
    lemma_pairs_map_len(s);
    if s.len() == 0 {
        assert(pairs_map(s).dom().filter(
            |id: Seq<char>| pairs_map(s)[id].signers.contains(signer),
        ) =~= Set::<Seq<char>>::empty());
    } else {
        let t = s.drop_last();
        let (k, v) = s.last();
        assert(keys_distinct(t)) by {
            assert forall|a: int, b: int|
                0 <= a < t.len() && 0 <= b < t.len() && a != b implies t[a].0 != t[b].0 by {
                assert(t[a] == s[a] && t[b] == s[b]);
            }
        }
        lemma_load_seq(t, signer);
        lemma_pairs_map_dom(t, k);
        if pairs_map(t).dom().contains(k) {
            let i = choose|i: int| 0 <= i < t.len() && t[i].0 == k;
            assert(t[i] == s[i]);
            assert(s[s.len() - 1] == s.last());
        }
        let mt = pairs_map(t);
        let ms = pairs_map(s);
        let ft = mt.dom().filter(|id: Seq<char>| mt[id].signers.contains(signer));
        let fs = ms.dom().filter(|id: Seq<char>| ms[id].signers.contains(signer));
        mt.dom().lemma_len_filter(|id: Seq<char>| mt[id].signers.contains(signer));
        if v.signers.contains(signer) {
            assert(fs =~= ft.insert(k));
        } else {
            assert(fs =~= ft);
        }
    }
}

/// Of a pending entry in the ordered list: its key is its update's id.
spec fn entries_keyed_by_update(s: Seq<(Seq<char>, PendingView)>) -> bool {
    forall|i: int| 0 <= i < s.len() ==> (#[trigger] s[i]).1.update.update_id == s[i].0
}

/// The validator set of a node with its pool of pending authorizations.
pub struct ValidatorSetRegistry {
    keys: ValidatorKeyring,
    applied: IdSet,
    pending: Vec<PendingAuthorizations>,
    max_pending_updates: usize,
    max_pending_authorizations_per_validator: usize,
}

impl View for ValidatorSetRegistry {
    type V = RegistryView;

    closed spec fn view(&self) -> RegistryView {
        RegistryView {
            keys: self.keys@,
            applied: self.applied@,
            pending: pairs_map(pending_views(self.pending@)),
            max_pending_updates: self.max_pending_updates,
            max_pending_authorizations_per_validator: self.max_pending_authorizations_per_validator,
        }
    }
}

impl ValidatorSetRegistry {
    /// The trusted keys in ascending order of validator id.
    pub closed spec fn keys_ordered(&self) -> Seq<(Seq<char>, Seq<u8>)> {
        self.keys.ordered()
    }

    /// The applied update ids in ascending order.
    pub closed spec fn applied_ordered(&self) -> Seq<Seq<char>> {
        self.applied.ordered()
    }

    /// The pending entries in ascending order of update id.
    pub closed spec fn pending_ordered(&self) -> Seq<(Seq<char>, PendingView)> {
        pending_views(self.pending@)
    }

    /// Keys, applied ids and pending entries are each kept in ascending
    /// order without repeats, and every pending entry has a signer.
    pub closed spec fn wf(&self) -> bool {
        &&& self.keys.wf()
        &&& self.applied.wf()
        &&& strictly_sorted(pending_ids(self.pending@))
        &&& forall|i: int|
            0 <= i < self.pending@.len() ==> (#[trigger] self.pending@[i]).signers.wf()
                && self.pending@[i].signers@.len() > 0
    }

    proof fn lemma_pending_distinct(&self)
        requires
            strictly_sorted(pending_ids(self.pending@)),
        ensures
            keys_distinct(pending_views(self.pending@)),
            entries_keyed_by_update(pending_views(self.pending@)),
    {
        let ids = pending_ids(self.pending@);
        let pv = pending_views(self.pending@);
        lemma_sorted_distinct(ids);
        assert forall|a: int, b: int|
            0 <= a < pv.len() && 0 <= b < pv.len() && a != b implies pv[a].0 != pv[b].0 by {
            assert(pv[a].0 == ids[a] && pv[b].0 == ids[b]);
        }
    }

    /// What holds of the model of a well-formed registry.
    pub proof fn lemma_wf(&self)
        requires
            self.wf(),
        ensures
            keys_distinct(self.pending_ordered()),
            pairs_map(self.pending_ordered()) == self@.pending,
            self@.pending.dom().finite(),
            self@.pending.dom().len() == self.pending_ordered().len(),
            self@.keys.dom().finite(),
            self@.applied.finite(),
            pairs_map(self.keys_ordered()) == self@.keys,
            self.applied_ordered().to_set() == self@.applied,
            forall|id: Seq<char>| #[trigger]
                self@.pending.dom().contains(id) ==> self@.pending[id].update.update_id == id
                    && self@.pending[id].signers.finite() && self@.pending[id].signers.len() > 0,
    {
        self.lemma_pending_distinct();
        self.keys.lemma_ordered();
        self.applied.lemma_ordered();
        let pv = pending_views(self.pending@);
        lemma_pairs_map_len(pv);
        assert forall|id: Seq<char>| #[trigger]
            self@.pending.dom().contains(id) implies self@.pending[id].update.update_id == id
            && self@.pending[id].signers.finite() && self@.pending[id].signers.len() > 0 by {
            lemma_pairs_map_dom(pv, id);
            let i = choose|i: int| 0 <= i < pv.len() && pv[i].0 == id;
            lemma_pairs_map_get(pv, i);
            assert(self.pending@[i].signers.wf());
            self.pending@[i].signers.lemma_ordered();
        }
    }

    /// A registry that trusts no key, has applied nothing, has nothing
    /// pending and uses the default pool limits.
    pub fn new() -> (registry: Self)
        ensures
            registry.wf(),
            registry@.keys == Map::<Seq<char>, Seq<u8>>::empty(),
            registry@.applied == Set::<Seq<char>>::empty(),
            registry@.pending == Map::<Seq<char>, PendingView>::empty(),
            registry@.max_pending_updates == DEFAULT_MAX_PENDING_VALIDATOR_SET_METADATA_UPDATES,
            registry@.max_pending_authorizations_per_validator
                == DEFAULT_MAX_PENDING_VALIDATOR_SET_METADATA_AUTHORIZATIONS_PER_VALIDATOR,
    {
        Self::with_keyring(ValidatorKeyring::new(), IdSet::new())
    }

    /// How many updates are waiting for authorizations.
    pub fn pending_update_count(&self) -> (n: usize)
        requires
            self.wf(),
        ensures
            n == self@.pending.dom().len(),
    {
        proof {
            self.lemma_wf();
        }
        self.pending.len()
    }

    /// A registry that trusts `keys`, has applied `applied`, has nothing
    /// pending and uses the default pool limits.
    fn with_keyring(keys: ValidatorKeyring, applied: IdSet) -> (registry: Self)
        requires
            keys.wf(),
            applied.wf(),
        ensures
            registry.wf(),
            registry@.keys == keys@,
            registry@.applied == applied@,
            registry@.pending == Map::<Seq<char>, PendingView>::empty(),
            registry@.max_pending_updates == DEFAULT_MAX_PENDING_VALIDATOR_SET_METADATA_UPDATES,
            registry@.max_pending_authorizations_per_validator
                == DEFAULT_MAX_PENDING_VALIDATOR_SET_METADATA_AUTHORIZATIONS_PER_VALIDATOR,
    {
        let registry = ValidatorSetRegistry {
            keys,
            applied,
            pending: Vec::new(),
            max_pending_updates: DEFAULT_MAX_PENDING_VALIDATOR_SET_METADATA_UPDATES,
            max_pending_authorizations_per_validator:
                DEFAULT_MAX_PENDING_VALIDATOR_SET_METADATA_AUTHORIZATIONS_PER_VALIDATOR,
        };
        assert(pending_ids(registry.pending@) =~= Seq::<Seq<char>>::empty());
        assert(pending_views(registry.pending@) =~= Seq::<(Seq<char>, PendingView)>::empty());
        assert(registry@.pending =~= Map::<Seq<char>, PendingView>::empty());
        registry
    }

    /// The place of `id` among the pending entries.
    fn pending_position(&self, id: &str) -> (pos: usize)
        requires
            strictly_sorted(pending_ids(self.pending@)),
        ensures
            pos <= self.pending@.len(),
            forall|i: int| 0 <= i < pos ==> seq_lt(#[trigger] pending_ids(self.pending@)[i], id@),
            forall|i: int|
                pos <= i < self.pending@.len() ==> !seq_lt(
                    #[trigger] pending_ids(self.pending@)[i],
                    id@,
                ),
    {
        let ghost ids = pending_ids(self.pending@);
        let mut pos: usize = 0;
        while pos < self.pending.len() && str_lt(self.pending[pos].update.update_id.as_str(), id)
            invariant
                ids == pending_ids(self.pending@),
                pos <= self.pending@.len(),
                strictly_sorted(ids),
                forall|i: int| 0 <= i < pos ==> seq_lt(#[trigger] ids[i], id@),
            decreases self.pending@.len() - pos,
        {
            pos = pos + 1;
        }
        assert forall|i: int| pos <= i < self.pending@.len() implies !seq_lt(
            #[trigger] ids[i],
            id@,
        ) by {
            if i > pos && seq_lt(ids[i], id@) {
                lemma_lt_transitive(ids[pos as int], ids[i], id@);
            }
        }
        pos
    }

    /// The index of the pending entry of `id`, if there is one.
    fn find_pending(&self, id: &str) -> (found: Option<usize>)
        requires
            self.wf(),
        ensures
            found is None ==> !self@.pending.dom().contains(id@),
            found matches Some(i) ==> i < self.pending@.len() && self@.pending.dom().contains(id@)
                && self.pending_ordered()[i as int].0 == id@ && self@.pending[id@]
                == self.pending_ordered()[i as int].1,
    {
        let pos = self.pending_position(id);
        let ghost ids = pending_ids(self.pending@);
        let ghost pv = pending_views(self.pending@);
        proof {
            lemma_position_facts(ids, pos as int, id@);
            self.lemma_pending_distinct();
            lemma_pairs_map_dom(pv, id@);
            if self@.pending.dom().contains(id@) {
                let i = choose|i: int| 0 <= i < pv.len() && pv[i].0 == id@;
                assert(ids[i] == id@);
            }
        }
        if pos < self.pending.len() && str_eq(self.pending[pos].update.update_id.as_str(), id) {
            proof {
                assert(ids[pos as int] == id@);
                lemma_pairs_map_get(pv, pos as int);
            }
            Some(pos)
        } else {
            None
        }
    }

    /// The registry that validator-set metadata describes. Fails when the
    /// metadata belongs to another chain, or names a validator twice.
    pub fn from_metadata(expected_chain_id: &str, metadata: &ValidatorSetMetadata) -> (result:
        Result<Self, NodeError>)
        ensures
            metadata.chain_id@ != expected_chain_id@ ==> (result matches Err(
                NodeError::ValidatorSetChainMismatch { expected, actual },
            ) && expected@ == expected_chain_id@ && actual@ == metadata.chain_id@),
            metadata.chain_id@ == expected_chain_id@ ==> (result is Ok <==> key_ids(
                metadata.validators@,
            ).no_duplicates()),
            metadata.chain_id@ == expected_chain_id@ && result is Err ==> exists|j: int|
                first_repeat(key_ids(metadata.validators@), j) && (result matches Err(
                    NodeError::DuplicateValidatorKey(id),
                ) && id@ == #[trigger] key_ids(metadata.validators@)[j]),
            result matches Ok(registry) ==> registry.wf() && registry@.keys == pairs_map(
                key_views(metadata.validators@),
            ) && registry@.applied == views(metadata.applied_updates@).to_set()
                && registry@.pending == Map::<Seq<char>, PendingView>::empty()
                && registry@.max_pending_updates
                == DEFAULT_MAX_PENDING_VALIDATOR_SET_METADATA_UPDATES
                && registry@.max_pending_authorizations_per_validator
                == DEFAULT_MAX_PENDING_VALIDATOR_SET_METADATA_AUTHORIZATIONS_PER_VALIDATOR,
    {
        if !str_eq(metadata.chain_id.as_str(), expected_chain_id) {
            return Err(
                NodeError::ValidatorSetChainMismatch {
                    expected: owned(expected_chain_id),
                    actual: owned(metadata.chain_id.as_str()),
                },
            );
        }
        let keys = match keyring_from_metadata(&metadata.validators) {
            Ok(keys) => keys,
            Err(e) => {
                return Err(e);
            },
        };
        let mut applied = IdSet::new();
        let mut i: usize = 0;
        let ghost ids = views(metadata.applied_updates@);
        while i < metadata.applied_updates.len()
            invariant
                ids == views(metadata.applied_updates@),
                i <= ids.len(),
                applied.wf(),
                applied@ == ids.take(i as int).to_set(),
            decreases ids.len() - i,
        {
            applied.insert(owned(metadata.applied_updates[i].as_str()));
            assert(ids.take(i + 1) =~= ids.take(i as int).push(ids[i as int]));
            assert(ids.take(i + 1).to_set() =~= ids.take(i as int).to_set().insert(ids[i as int]))
                by {
                ids.take(i as int).lemma_push_to_set_commute(ids[i as int]);
            }
            i = i + 1;
        }
        assert(ids.take(i as int) =~= ids);
        Ok(Self::with_keyring(keys, applied))
    }

    /// The metadata that describes this registry's validator set, with the
    /// keys in ascending order of id and the applied ids in ascending order.
    pub fn metadata(&self, network_id: &str, chain_id: &str) -> (metadata: ValidatorSetMetadata)
        requires
            self.wf(),
        ensures
            metadata.network_id@ == network_id@,
            metadata.chain_id@ == chain_id@,
            key_views(metadata.validators@) == self.keys_ordered(),
            views(metadata.applied_updates@) == self.applied_ordered(),
    {
        ValidatorSetMetadata {
            network_id: owned(network_id),
            chain_id: owned(chain_id),
            validators: self.keys.validators(),
            applied_updates: self.applied.to_vec(),
        }
    }

    /// Trusts `public_key`, replacing any key of the same validator.
    pub fn trust_validator_key(&mut self, public_key: ValidatorPublicKey)
        requires
            old(self).wf(),
        ensures
            final(self).wf(),
            final(self)@ == (RegistryView {
                keys: old(self)@.keys.insert(public_key.validator_id@, public_key.public_key@),
                ..old(self)@
            }),
    {
        self.keys.insert(public_key);
        assert(self@ =~= (RegistryView {
            keys: old(self)@.keys.insert(public_key.validator_id@, public_key.public_key@),
            ..old(self)@
        }));
    }

    /// The number of trusted validators.
    pub fn validator_key_count(&self) -> (n: usize)
        requires
            self.wf(),
        ensures
            n == self@.keys.dom().len(),
    {
        self.keys.len()
    }

    /// The trusted key of `validator_id`, if any.
    pub fn trusted_validator_key(&self, validator_id: &str) -> (key: Option<&ValidatorPublicKey>)
        requires
            self.wf(),
        ensures
            key is None ==> !self@.keys.dom().contains(validator_id@),
            key matches Some(k) ==> self@.keys.dom().contains(validator_id@) && k.validator_id@
                == validator_id@ && k.public_key@ == self@.keys[validator_id@],
    {
        self.keys.get(validator_id)
    }

    /// Whether the update `update_id` has been applied.
    pub fn has_applied_validator_set_update(&self, update_id: &str) -> (applied: bool)
        requires
            self.wf(),
        ensures
            applied == self@.applied.contains(update_id@),
    {
        self.applied.contains(update_id)
    }

    /// Sets how many updates may be pending and how many pending updates
    /// one validator may have authorized.
    pub fn set_validator_set_metadata_authorization_limits(
        &mut self,
        max_pending_updates: usize,
        max_pending_authorizations_per_validator: usize,
    )
        requires
            old(self).wf(),
        ensures
            final(self).wf(),
            final(self)@ == (RegistryView {
                max_pending_updates,
                max_pending_authorizations_per_validator,
                ..old(self)@
            }),
    {
        self.max_pending_updates = max_pending_updates;
        self.max_pending_authorizations_per_validator = max_pending_authorizations_per_validator;
    }

    /// The number of validators that have authorized the pending update
    /// `update_id` (zero if it is not pending).
    pub fn pending_validator_set_metadata_authorization_count(&self, update_id: &str) -> (n:
        usize)
        requires
            self.wf(),
        ensures
            n == pending_count(self@, update_id@),
    {
        match self.find_pending(update_id) {
            Some(i) => {
                proof {
                    assert(self.pending@[i as int].signers.wf());
                }
                self.pending[i].signers.len()
            },
            None => 0,
        }
    }

    /// Whether `signer` has authorized the pending update `update_id`.
    pub fn has_pending_authorization(&self, update_id: &str, signer: &str) -> (found: bool)
        requires
            self.wf(),
        ensures
            found == (self@.pending.dom().contains(update_id@)
                && self@.pending[update_id@].signers.contains(signer@)),
    {
        match self.find_pending(update_id) {
            Some(i) => {
                proof {
                    assert(self.pending@[i as int].signers.wf());
                }
                self.pending[i].signers.contains(signer)
            },
            None => false,
        }
    }

    /// The state of the update `update_id`.
    pub fn validator_set_metadata_update_status(&self, update_id: &str, required_quorum: usize) -> (status:
        ValidatorSetMetadataUpdateStatus)
        requires
            self.wf(),
        ensures
            status.update_id@ == update_id@,
            status.pending_authorizations == pending_count(self@, update_id@),
            status.required_quorum == required_quorum,
            status.applied == self@.applied.contains(update_id@),
    {
        ValidatorSetMetadataUpdateStatus {
            update_id: owned(update_id),
            pending_authorizations: self.pending_validator_set_metadata_authorization_count(
                update_id,
            ),
            required_quorum,
            applied: self.has_applied_validator_set_update(update_id),
        }
    }
}

/// Why an authorization is refused, in the order the checks are made.
pub enum AuthorizationRefusal {
    Expired,
    AlreadyApplied,
    PoolFull,
    RateLimited,
    Mismatch,
}

/// Whether `signer`'s authorization of `update` is refused at
/// `current_height`, and why.
pub open spec fn authorization_refusal(
    v: RegistryView,
    signer: Seq<char>,
    update: UpdateView,
    current_height: u64,
) -> Option<AuthorizationRefusal> {
    let id = update.update_id;
    let existing = v.pending.dom().contains(id);
    if update_expired(update, current_height) {
        Some(AuthorizationRefusal::Expired)
    } else if v.applied.contains(id) {
        Some(AuthorizationRefusal::AlreadyApplied)
    } else if !existing && v.pending.dom().len() >= v.max_pending_updates {
        Some(AuthorizationRefusal::PoolFull)
    } else if !(existing && v.pending[id].signers.contains(signer)) && signer_load(
        v.pending,
        signer,
    ) >= v.max_pending_authorizations_per_validator {
        Some(AuthorizationRefusal::RateLimited)
    } else if existing && v.pending[id].update != update {
        Some(AuthorizationRefusal::Mismatch)
    } else {
        None
    }
}

/// Whether `e` is the error that reports refusal `r`.
pub open spec fn is_refusal_error(
    e: NodeError,
    r: AuthorizationRefusal,
    v: RegistryView,
    signer: Seq<char>,
    update: UpdateView,
    current_height: u64,
) -> bool {
    match r {
        AuthorizationRefusal::Expired => e matches NodeError::ValidatorSetMetadataUpdateExpired {
            update_id,
            expires_at_height,
            current_height: h,
        } && update_id@ == update.update_id && update.expires_at_height == Some(
            expires_at_height,
        ) && h == current_height,
        AuthorizationRefusal::AlreadyApplied => e matches NodeError::ValidatorSetMetadataUpdateAlreadyApplied(
            id,
        ) && id@ == update.update_id,
        AuthorizationRefusal::PoolFull => e matches NodeError::ValidatorSetMetadataAuthorizationPoolFull {
            pending_updates,
            max_pending_updates,
        } && pending_updates == v.pending.dom().len() && max_pending_updates
            == v.max_pending_updates,
        AuthorizationRefusal::RateLimited => e matches NodeError::ValidatorSetMetadataAuthorizationRateLimited {
            signer: s,
            pending_authorizations,
            max_pending_authorizations,
        } && s@ == signer && pending_authorizations == signer_load(v.pending, signer)
            && max_pending_authorizations == v.max_pending_authorizations_per_validator,
        AuthorizationRefusal::Mismatch => e matches NodeError::ValidatorSetMetadataUpdateMismatch,
    }
}

/// The registry once `signer`'s authorization of `update` is recorded.
pub open spec fn authorized(v: RegistryView, signer: Seq<char>, update: UpdateView) -> RegistryView {
    let id = update.update_id;
    let before = if v.pending.dom().contains(id) {
        v.pending[id].signers
    } else {
        Set::empty()
    };
    RegistryView {
        pending: v.pending.insert(id, PendingView { update, signers: before.insert(signer) }),
        ..v
    }
}

/// Recording an authorization changes no other signer's load, and raises
/// the signer's own by at most one, and not at all when it had already
/// authorized the update.
pub proof fn lemma_load_authorized(
    v: RegistryView,
    signer: Seq<char>,
    update: UpdateView,
    s: Seq<char>,
)
    requires
        v.pending.dom().finite(),
    ensures
        s != signer ==> signer_load(authorized(v, signer, update).pending, s) == signer_load(
            v.pending,
            s,
        ),
        signer_load(authorized(v, signer, update).pending, signer) <= signer_load(
            v.pending,
            signer,
        ) + 1,
        v.pending.dom().contains(update.update_id) && v.pending[update.update_id].signers.contains(
            signer,
        ) ==> signer_load(authorized(v, signer, update).pending, signer) == signer_load(
            v.pending,
            signer,
        ),
{
    lemma_load_authorized_one(v, signer, update, s);
    lemma_load_authorized_one(v, signer, update, signer);
}

proof fn lemma_load_authorized_one(v: RegistryView, signer: Seq<char>, update: UpdateView, s: Seq<char>)
    requires
        v.pending.dom().finite(),
    ensures
        s != signer ==> signer_load(authorized(v, signer, update).pending, s) == signer_load(
            v.pending,
            s,
        ),
        s == signer ==> signer_load(authorized(v, signer, update).pending, s) <= signer_load(
            v.pending,
            s,
        ) + 1,
        s == signer && v.pending.dom().contains(update.update_id)
            && v.pending[update.update_id].signers.contains(signer) ==> signer_load(
            authorized(v, signer, update).pending,
            s,
        ) == signer_load(v.pending, s),
{
    let id = update.update_id;
    let m = v.pending;
    let m2 = authorized(v, signer, update).pending;
    let f = m.dom().filter(|k: Seq<char>| m[k].signers.contains(s));
    let f2 = m2.dom().filter(|k: Seq<char>| m2[k].signers.contains(s));
    m.dom().lemma_len_filter(|k: Seq<char>| m[k].signers.contains(s));
    if s != signer {
        assert(f2 =~= f);
    } else {
        if m.dom().contains(id) && m[id].signers.contains(signer) {
            assert(f2 =~= f);
        } else {
            assert(f2 =~= f.insert(id));
        }
    }
}

impl ValidatorSetRegistry {
    /// The number of pending updates that `signer` has authorized.
    fn signer_load_of(&self, signer: &str) -> (n: usize)
        requires
            self.wf(),
        ensures
            n == signer_load(self@.pending, signer@),
    {
        let ghost pv = pending_views(self.pending@);
        let mut count: usize = 0;
        let mut i: usize = 0;
        assert(pv.take(0) =~= Seq::<(Seq<char>, PendingView)>::empty());
        while i < self.pending.len()
            invariant
                self.wf(),
                pv == pending_views(self.pending@),
                i <= self.pending@.len(),
                count <= i,
                count == load_seq(pv.take(i as int), signer@),
            decreases self.pending@.len() - i,
        {
            assert(self.pending@[i as int].signers.wf());
            let has = self.pending[i].signers.contains(signer);
            assert(pv.take(i + 1).drop_last() =~= pv.take(i as int));
            assert(pv.take(i + 1).last() == pv[i as int]);
            if has {
                count = count + 1;
            }
            i = i + 1;
        }
        assert(pv.take(i as int) =~= pv);
        proof {
            self.lemma_pending_distinct();
            lemma_load_seq(pv, signer@);
        }
        count
    }

    /// Records `signer`'s authorization of `update` at `current_height`,
    /// which the caller has verified. Refuses an update that has expired or
    /// been applied, a new update when the pool is full, a signer that has
    /// already authorized as many pending updates as it may, and an update
    /// that differs from the one already pending under its id. Returns the
    /// number of signers of the update.
    pub fn insert_pending_validator_set_metadata_authorization(
        &mut self,
        signer: String,
        update: ValidatorSetMetadataUpdate,
        current_height: u64,
    ) -> (result: Result<usize, NodeError>)
        requires
            old(self).wf(),
        ensures
            final(self).wf(),
            match authorization_refusal(old(self)@, signer@, update@, current_height) {
                Some(r) => result matches Err(e) && is_refusal_error(
                    e,
                    r,
                    old(self)@,
                    signer@,
                    update@,
                    current_height,
                ) && final(self)@ == old(self)@,
                None => result matches Ok(n) && final(self)@ == authorized(
                    old(self)@,
                    signer@,
                    update@,
                ) && n == final(self)@.pending[update@.update_id].signers.len(),
            },
            final(self)@.pending.dom().len() <= old(self)@.pending.dom().len()
                || final(self)@.pending.dom().len() <= final(self)@.max_pending_updates,
            forall|s: Seq<char>|
                signer_load(final(self)@.pending, s) <= signer_load(old(self)@.pending, s)
                    || signer_load(final(self)@.pending, s)
                    <= final(self)@.max_pending_authorizations_per_validator,
    {
        let ghost old_v = self@;
        let ghost u = update@;
        let ghost id = u.update_id;
        proof {
            self.lemma_wf();
        }
        if let Err(e) = crate::validator_update::reject_expired_validator_set_metadata_update(
            &update,
            current_height,
        ) {
            return Err(e);
        }
        if self.applied.contains(update.update_id.as_str()) {
            return Err(
                NodeError::ValidatorSetMetadataUpdateAlreadyApplied(
                    owned(update.update_id.as_str()),
                ),
            );
        }
        let found = self.find_pending(update.update_id.as_str());
        if found.is_none() && self.pending.len() >= self.max_pending_updates {
            return Err(
                NodeError::ValidatorSetMetadataAuthorizationPoolFull {
                    pending_updates: self.pending.len(),
                    max_pending_updates: self.max_pending_updates,
                },
            );
        }
        let replacing = match found {
            Some(i) => {
                assert(self.pending@[i as int].signers.wf());
                self.pending[i].signers.contains(signer.as_str())
            },
            None => false,
        };
        let load = self.signer_load_of(signer.as_str());
        if !replacing && load >= self.max_pending_authorizations_per_validator {
            return Err(
                NodeError::ValidatorSetMetadataAuthorizationRateLimited {
                    signer: owned(signer.as_str()),
                    pending_authorizations: load,
                    max_pending_authorizations: self.max_pending_authorizations_per_validator,
                },
            );
        }
        let ghost pv = pending_views(self.pending@);
        let ghost ids = pending_ids(self.pending@);
        let ghost sg = signer@;
        proof {
            self.lemma_pending_distinct();
        }
        let n;
        match found {
            Some(i) => {
                if !self.pending[i].update.same_as(&update) {
                    return Err(NodeError::ValidatorSetMetadataUpdateMismatch);
                }
                let mut entry = self.pending.remove(i);
                entry.signers.insert(signer);
                n = entry.signers.len();
                self.pending.insert(i, entry);
                proof {
                    let nv = PendingView { update: u, signers: pv[i as int].1.signers.insert(sg) };
                    assert(self.pending@ =~= old(self).pending@.update(i as int, entry));
                    assert(pending_views(self.pending@) =~= pv.update(i as int, (id, nv)));
                    assert(pending_ids(self.pending@) =~= ids);
                    lemma_pairs_map_update(pv, i as int, nv);
                    assert forall|k: int| 0 <= k < self.pending@.len() implies (#[trigger] self.pending@[k]).signers.wf()
                        && self.pending@[k].signers@.len() > 0 by {
                        if k != i {
                            assert(self.pending@[k] == old(self).pending@[k]);
                        } else {
                            entry.signers.lemma_ordered();
                        }
                    }
                }
            },
            None => {
                let pos = self.pending_position(update.update_id.as_str());
                let mut signers = IdSet::new();
                signers.insert(signer);
                n = signers.len();
                let entry = PendingAuthorizations { update, signers };
                self.pending.insert(pos, entry);
                proof {
                    let nv = PendingView { update: u, signers: Set::<Seq<char>>::empty().insert(sg) };
                    lemma_position_facts(ids, pos as int, id);
                    lemma_pairs_map_dom(pv, id);
                    assert forall|k: int| 0 <= k < pv.len() implies pv[k].0 != id by {
                        assert(pv[k].0 == ids[k]);
                    }
                    assert(pending_views(self.pending@) =~= pv.insert(pos as int, (id, nv)));
                    assert(pending_ids(self.pending@) =~= ids.insert(pos as int, id));
                    lemma_pairs_map_insert(pv, pos as int, id, nv);
                    if pos < ids.len() {
                        assert(pv[pos as int].0 == ids[pos as int]);
                    }
                    lemma_sorted_insert(ids, pos as int, id);
                    assert forall|k: int| 0 <= k < self.pending@.len() implies (#[trigger] self.pending@[k]).signers.wf()
                        && self.pending@[k].signers@.len() > 0 by {
                        if k < pos {
                            assert(self.pending@[k] == old(self).pending@[k]);
                        } else if k > pos {
                            assert(self.pending@[k] == old(self).pending@[k - 1]);
                        } else {
                            entry.signers.lemma_ordered();
                        }
                    }
                }
            },
        }
        proof {
            assert(self@ =~= authorized(old_v, sg, u));
            self.lemma_wf();
            assert forall|s: Seq<char>|
                signer_load(self@.pending, s) <= signer_load(old_v.pending, s) || signer_load(
                    self@.pending,
                    s,
                ) <= self@.max_pending_authorizations_per_validator by {
                lemma_load_authorized(old_v, sg, u, s);
            }
        }
        Ok(n)
    }
}

/// A signer's verified authorization of an update.
#[derive(Debug)]
pub struct ValidatorSetUpdateAuthorization {
    pub signer: String,
    pub update: ValidatorSetMetadataUpdate,
}

/// Why applying an update fails.
pub enum ApplyFailure {
    NotFound(Seq<char>),
    AlreadyApplied(Seq<char>),
    QuorumNotReached(nat, nat),
    Keyring(KeyringFailure),
}

/// Whether `e` is the error that reports failure `f`.
pub open spec fn is_apply_error(e: NodeError, f: ApplyFailure) -> bool {
    match f {
        ApplyFailure::NotFound(id) => e matches NodeError::ValidatorSetMetadataUpdateNotFound(x)
            && x@ == id,
        ApplyFailure::AlreadyApplied(id) => e matches NodeError::ValidatorSetMetadataUpdateAlreadyApplied(
            x,
        ) && x@ == id,
        ApplyFailure::QuorumNotReached(a, r) => e matches NodeError::QuorumNotReached {
            accepted,
            required,
        } && accepted == a && required == r,
        ApplyFailure::Keyring(k) => is_keyring_error(e, k),
    }
}

/// The registry once `update` is applied: its removals and additions made
/// to the keyring and its id recorded as applied. Fails on an update that
/// was applied before, and as `updated_keys` fails.
pub open spec fn applied_update(v: RegistryView, update: UpdateView) -> Result<
    RegistryView,
    ApplyFailure,
> {
    if v.applied.contains(update.update_id) {
        Err(ApplyFailure::AlreadyApplied(update.update_id))
    } else {
        match updated_keys(v.keys, update) {
            Err(k) => Err(ApplyFailure::Keyring(k)),
            Ok(m) => Ok(RegistryView { keys: m, applied: v.applied.insert(update.update_id), ..v }),
        }
    }
}

/// Whether the authorization at `j` stops a batch: it failed
/// verification, its update was applied before, or it differs from the
/// first one.
pub open spec fn blocks(
    items: Seq<Result<ValidatorSetUpdateAuthorization, NodeError>>,
    applied: Set<Seq<char>>,
    j: int,
) -> bool {
    match items[j] {
        Err(_) => true,
        Ok(a) => applied.contains(a.update@.update_id) || (items[0] matches Ok(first)
            && a.update@ != first.update@),
    }
}

/// `j` is the first authorization that stops a batch.
pub open spec fn first_block(
    items: Seq<Result<ValidatorSetUpdateAuthorization, NodeError>>,
    applied: Set<Seq<char>>,
    j: int,
) -> bool {
    &&& 0 <= j < items.len()
    &&& blocks(items, applied, j)
    &&& forall|k: int| 0 <= k < j ==> !blocks(items, applied, k)
}

/// The signer of each authorization (empty where verification failed).
pub open spec fn signer_views(items: Seq<Result<ValidatorSetUpdateAuthorization, NodeError>>) -> Seq<
    Seq<char>,
> {
    items.map_values(
        |r: Result<ValidatorSetUpdateAuthorization, NodeError>|
            match r {
                Ok(a) => a.signer@,
                Err(_) => Seq::<char>::empty(),
            },
    )
}

/// The authorization at `i` stops the batch and none before it does: it is
/// the first that stops it.
proof fn lemma_first_block_at(
    items: Seq<Result<ValidatorSetUpdateAuthorization, NodeError>>,
    applied: Set<Seq<char>>,
    i: int,
)
    requires
        0 <= i < items.len(),
        blocks(items, applied, i),
        forall|k: int| 0 <= k < i ==> !blocks(items, applied, k),
    ensures
        first_block(items, applied, i),
        forall|j: int| first_block(items, applied, j) ==> j == i,
        !(forall|j: int| 0 <= j < items.len() ==> !blocks(items, applied, j)),
{
    assert forall|j: int| first_block(items, applied, j) implies j == i by {
        if j > i {
            assert(!blocks(items, applied, i));
        }
    }
}

/// The registry once the pending update `id` is applied with `quorum`
/// signers needed, and its entry taken out of the pool.
pub open spec fn pending_application(v: RegistryView, id: Seq<char>, quorum: usize) -> Result<
    RegistryView,
    ApplyFailure,
> {
    if !v.pending.dom().contains(id) {
        Err(ApplyFailure::NotFound(id))
    } else if v.applied.contains(id) {
        Err(ApplyFailure::AlreadyApplied(id))
    } else if v.pending[id].signers.len() < quorum {
        Err(ApplyFailure::QuorumNotReached(v.pending[id].signers.len(), quorum as nat))
    } else {
        match applied_update(v, v.pending[id].update) {
            Err(f) => Err(f),
            Ok(w) => Ok(RegistryView { pending: v.pending.remove(id), ..w }),
        }
    }
}

impl ValidatorSetRegistry {
    /// Applies `update` to the keyring and records it as applied.
    fn apply_validator_set_metadata_update(&mut self, update: &ValidatorSetMetadataUpdate) -> (result:
        Result<(), NodeError>)
        requires
            old(self).wf(),
        ensures
            final(self).wf(),
            final(self).pending_ordered() == old(self).pending_ordered(),
            match applied_update(old(self)@, update@) {
                Ok(v) => result is Ok && final(self)@ == v,
                Err(f) => result matches Err(e) && is_apply_error(e, f) && final(self)@ == old(
                    self,
                )@,
            },
    {
        if self.applied.contains(update.update_id.as_str()) {
            return Err(
                NodeError::ValidatorSetMetadataUpdateAlreadyApplied(
                    owned(update.update_id.as_str()),
                ),
            );
        }
        let next = match updated_keyring(&self.keys, update) {
            Ok(next) => next,
            Err(e) => {
                return Err(e);
            },
        };
        self.keys = next;
        self.applied.insert(owned(update.update_id.as_str()));
        Ok(())
    }

    /// Applies the update that `authorizations` authorize, once at least
    /// `quorum` distinct validators have signed it. The batch is refused at
    /// its first authorization that failed verification, names an update
    /// applied before, or differs from the first.
    pub fn apply_quorum_authorized_validator_set_metadata_update_with_quorum(
        &mut self,
        authorizations: Vec<Result<ValidatorSetUpdateAuthorization, NodeError>>,
        quorum: usize,
    ) -> (result: Result<(), NodeError>)
        requires
            old(self).wf(),
        ensures
            final(self).wf(),
            final(self).pending_ordered() == old(self).pending_ordered(),
            forall|j: int|
                first_block(authorizations@, old(self)@.applied, j) ==> final(self)@ == old(
                    self,
                )@ && match authorizations@[j] {
                    Err(e0) => result == Err::<(), NodeError>(e0),
                    Ok(a) => if old(self)@.applied.contains(a.update@.update_id) {
                        result matches Err(NodeError::ValidatorSetMetadataUpdateAlreadyApplied(x))
                            && x@ == a.update@.update_id
                    } else {
                        result matches Err(NodeError::ValidatorSetMetadataUpdateMismatch)
                    },
                },
            (forall|j: int| 0 <= j < authorizations@.len() ==> !blocks(
                authorizations@,
                old(self)@.applied,
                j,
            )) ==> {
                let n = signer_views(authorizations@).to_set().len();
                if n < quorum {
                    result matches Err(NodeError::QuorumNotReached { accepted, required })
                        && accepted == n && required == quorum && final(self)@ == old(self)@
                } else if authorizations@.len() == 0 {
                    result matches Err(NodeError::QuorumNotReached { accepted, required })
                        && accepted == 0 && required == quorum && final(self)@ == old(self)@
                } else {
                    authorizations@[0] matches Ok(first) && match applied_update(
                        old(self)@,
                        first.update@,
                    ) {
                        Ok(v) => result is Ok && final(self)@ == v,
                        Err(f) => result matches Err(e) && is_apply_error(e, f) && final(self)@
                            == old(self)@,
                    }
                }
            },
    {
        let ghost items = authorizations@;
        let mut batch = authorizations;
        let ghost sv = signer_views(items);
        let mut authorizers = IdSet::new();
        let mut i: usize = 0;
        assert(sv.take(0).to_set() =~= Set::<Seq<char>>::empty());
        while i < batch.len()
            invariant
                self.wf(),
                self@ == old(self)@,
                self.pending@ == old(self).pending@,
                batch@ == items,
                authorizations@ == items,
                sv == signer_views(items),
                i <= items.len(),
                forall|k: int| 0 <= k < i ==> !blocks(items, old(self)@.applied, k),
                authorizers.wf(),
                authorizers@ == sv.take(i as int).to_set(),
            decreases items.len() - i,
        {
            if batch[i].is_err() {
                let item = batch.remove(i);
                match item {
                    Err(e) => {
                        proof {
                            lemma_first_block_at(items, old(self)@.applied, i as int);
                            assert(items[i as int] == Err::<ValidatorSetUpdateAuthorization, NodeError>(e));
                        }
                        return Err(e);
                    },
                    Ok(_) => {
                        proof {
                            assert(false);
                        }
                        return Err(NodeError::ValidatorSetMetadataUpdateMismatch);
                    },
                }
            }
            let same_as_first = match &batch[0] {
                Ok(first) => match &batch[i] {
                    Ok(a) => a.update.same_as(&first.update),
                    Err(_) => false,
                },
                Err(_) => false,
            };
            let applied = match &batch[i] {
                Ok(a) => self.applied.contains(a.update.update_id.as_str()),
                Err(_) => false,
            };
            if applied {
                proof {
                    lemma_first_block_at(items, old(self)@.applied, i as int);
                }
                match &batch[i] {
                    Ok(a) => {
                        return Err(
                            NodeError::ValidatorSetMetadataUpdateAlreadyApplied(
                                owned(a.update.update_id.as_str()),
                            ),
                        );
                    },
                    Err(_) => {
                        return Err(NodeError::ValidatorSetMetadataUpdateMismatch);
                    },
                }
            }
            if !same_as_first {
                if i > 0 {
                    assert(!blocks(items, old(self)@.applied, 0));
                }
                proof {
                    lemma_first_block_at(items, old(self)@.applied, i as int);
                }
                return Err(NodeError::ValidatorSetMetadataUpdateMismatch);
            }
            match &batch[i] {
                Ok(a) => {
                    authorizers.insert(owned(a.signer.as_str()));
                },
                Err(_) => {},
            }
            proof {
                assert(sv.take(i + 1) =~= sv.take(i as int).push(sv[i as int]));
                sv.take(i as int).lemma_push_to_set_commute(sv[i as int]);
                assert(!blocks(items, old(self)@.applied, i as int));
            }
            i = i + 1;
        }
        assert(sv.take(i as int) =~= sv);
        let n = authorizers.len();
        if n < quorum {
            return Err(NodeError::QuorumNotReached { accepted: n, required: quorum });
        }
        if batch.len() == 0 {
            return Err(NodeError::QuorumNotReached { accepted: 0, required: quorum });
        }
        match &batch[0] {
            Ok(first) => self.apply_validator_set_metadata_update(&first.update),
            Err(_) => {
                proof {
                    assert(blocks(items, old(self)@.applied, 0));
                }
                Err(NodeError::ValidatorSetMetadataUpdateMismatch)
            },
        }
    }

    /// Applies the pending update `update_id` once `quorum` validators have
    /// authorized it, and takes it out of the pool. Returns its signers in
    /// ascending order.
    pub fn apply_pending_validator_set_metadata_update(
        &mut self,
        update_id: &str,
        quorum: usize,
    ) -> (result: Result<Vec<String>, NodeError>)
        requires
            old(self).wf(),
        ensures
            final(self).wf(),
            match pending_application(old(self)@, update_id@, quorum) {
                Ok(v) => result matches Ok(signers) && final(self)@ == v && views(signers@).to_set()
                    == old(self)@.pending[update_id@].signers && strictly_sorted(views(signers@)),
                Err(f) => result matches Err(e) && is_apply_error(e, f) && final(self)@ == old(
                    self,
                )@,
            },
    {
        proof {
            self.lemma_wf();
        }
        let i = match self.find_pending(update_id) {
            Some(i) => i,
            None => {
                return Err(NodeError::ValidatorSetMetadataUpdateNotFound(owned(update_id)));
            },
        };
        let ghost pv = pending_views(self.pending@);
        let ghost p = pv[i as int].1;
        assert(self.pending@[i as int].signers.wf());
        let signers = self.pending[i].signers.to_vec();
        proof {
            self.pending@[i as int].signers.lemma_ordered();
        }
        let mut items: Vec<Result<ValidatorSetUpdateAuthorization, NodeError>> = Vec::new();
        let mut k: usize = 0;
        while k < signers.len()
            invariant
                k <= signers@.len(),
                items@.len() == k,
                forall|j: int|
                    0 <= j < k ==> ((#[trigger] items@[j]) matches Ok(a) && a.signer@
                        == signers@[j]@ && a.update@ == p.update),
                i < self.pending@.len(),
                self.pending@[i as int].update@ == p.update,
            decreases signers@.len() - k,
        {
            let update = self.pending[i].update.duplicate();
            items.push(
                Ok(ValidatorSetUpdateAuthorization { signer: owned(signers[k].as_str()), update }),
            );
            k = k + 1;
        }
        let ghost it = items@;
        proof {
            assert(signer_views(it) =~= views(signers@));
            assert(p.update.update_id == update_id@);
            assert forall|j: int| 0 <= j < it.len() implies (!blocks(it, self@.applied, j)
                <==> !self@.applied.contains(update_id@)) by {
                assert(it[j] matches Ok(a) && a.update@ == p.update);
                assert(it[0] matches Ok(a) && a.update@ == p.update);
            }
            if self@.applied.contains(update_id@) {
                assert(first_block(it, self@.applied, 0));
            }
        }
        match self.apply_quorum_authorized_validator_set_metadata_update_with_quorum(items, quorum) {
            Err(e) => {
                return Err(e);
            },
            Ok(()) => {},
        }
        let ghost mid = self.pending@;
        assert(pending_views(mid) == pv);
        assert(mid.len() == pv.len());
        self.pending.remove(i);
        proof {
            assert(self.pending@ =~= mid.remove(i as int));
            assert forall|j: int| 0 <= j < mid.len() implies pending_ids(mid)[j] == pv[j].0 by {
                assert(pending_views(mid)[j] == pv[j]);
            }
            assert(pending_views(self.pending@) =~= pv.remove(i as int));
            assert(pending_ids(self.pending@) =~= pending_ids(mid).remove(i as int));
            lemma_pairs_map_remove(pv, i as int);
            lemma_sorted_remove(pending_ids(mid), i as int);
            assert forall|j: int| 0 <= j < self.pending@.len() implies (#[trigger] self.pending@[j]).signers.wf()
                && self.pending@[j].signers@.len() > 0 by {
                if j < i {
                    assert(self.pending@[j] == mid[j]);
                } else {
                    assert(self.pending@[j] == mid[j + 1]);
                }
            }
        }
        Ok(signers)
    }
}

/// Why a pending update is pruned at `current_height`, if it is.
pub open spec fn prune_reason(
    id: Seq<char>,
    p: PendingView,
    applied: Set<Seq<char>>,
    current_height: u64,
) -> Option<Seq<char>> {
    if p.signers.len() == 0 {
        Some("empty_authorization_set"@)
    } else if applied.contains(id) {
        Some("already_applied"@)
    } else if update_expired(p.update, current_height) {
        Some("expired"@)
    } else {
        None
    }
}

/// The pending updates that pruning keeps.
pub open spec fn kept_pending(
    m: Map<Seq<char>, PendingView>,
    applied: Set<Seq<char>>,
    current_height: u64,
) -> Map<Seq<char>, PendingView> {
    m.restrict(
        m.dom().filter(|id: Seq<char>| prune_reason(id, m[id], applied, current_height) is None),
    )
}

/// What pruning reports of one update.
pub struct PrunedView {
    pub update_id: Seq<char>,
    pub signers: Set<Seq<char>>,
    pub reason: Seq<char>,
}

/// The updates that pruning removes from the ordered entries `s`, in
/// their order.
pub open spec fn pruned_list(
    s: Seq<(Seq<char>, PendingView)>,
    applied: Set<Seq<char>>,
    current_height: u64,
) -> Seq<PrunedView>
    decreases s.len(),
{
    if s.len() == 0 {
        Seq::empty()
    } else {
        let rest = pruned_list(s.drop_last(), applied, current_height);
        match prune_reason(s.last().0, s.last().1, applied, current_height) {
            Some(reason) => rest.push(
                PrunedView { update_id: s.last().0, signers: s.last().1.signers, reason },
            ),
            None => rest,
        }
    }
}

/// A pending update that pruning removed, with its signers in ascending
/// order and the reason.
#[derive(Debug)]
pub struct PrunedValidatorSetUpdate {
    pub update_id: String,
    pub signers: Vec<String>,
    pub reason: String,
}

/// What each removed update's report says.
pub open spec fn pruned_views(v: Seq<PrunedValidatorSetUpdate>) -> Seq<PrunedView> {
    v.map_values(
        |p: PrunedValidatorSetUpdate|
            PrunedView { update_id: p.update_id@, signers: views(p.signers@).to_set(), reason: p.reason@ },
    )
}

proof fn lemma_kept_insert(
    m: Map<Seq<char>, PendingView>,
    k: Seq<char>,
    v: PendingView,
    applied: Set<Seq<char>>,
    h: u64,
)
    requires
        !m.dom().contains(k),
    ensures
        kept_pending(m.insert(k, v), applied, h) == if prune_reason(k, v, applied, h) is None {
            kept_pending(m, applied, h).insert(k, v)
        } else {
            kept_pending(m, applied, h)
        },
{
    let m2 = m.insert(k, v);
    if prune_reason(k, v, applied, h) is None {
        assert(kept_pending(m2, applied, h) =~= kept_pending(m, applied, h).insert(k, v));
    } else {
        assert(kept_pending(m2, applied, h) =~= kept_pending(m, applied, h));
    }
}

impl ValidatorSetRegistry {
    /// Drops every pending update that has no signer, has been applied, or
    /// has expired at `current_height`, and reports each, in ascending order
    /// of update id.
    pub fn prune_validator_set_metadata_authorizations(&mut self, current_height: u64) -> (pruned:
        Vec<PrunedValidatorSetUpdate>)
        requires
            old(self).wf(),
        ensures
            final(self).wf(),
            final(self)@ == (RegistryView {
                pending: kept_pending(old(self)@.pending, old(self)@.applied, current_height),
                ..old(self)@
            }),
            pruned_views(pruned@) == pruned_list(
                old(self).pending_ordered(),
                old(self)@.applied,
                current_height,
            ),
            forall|k: int| 0 <= k < pruned@.len() ==> strictly_sorted(views(#[trigger] pruned@[k].signers@)),
            forall|id: Seq<char>| #[trigger]
                final(self)@.pending.dom().contains(id) ==> !final(self)@.applied.contains(id)
                    && !update_expired(final(self)@.pending[id].update, current_height),
    {
        proof {
            self.lemma_wf();
            self.lemma_pending_distinct();
        }
        let ghost orig = self.pending@;
        let ghost pv = pending_views(orig);
        let ghost ids = pending_ids(orig);
        let ghost applied = self@.applied;
        let n = self.pending.len();
        let mut source: Vec<PendingAuthorizations> = Vec::new();
        std::mem::swap(&mut source, &mut self.pending);
        let mut kept: Vec<PendingAuthorizations> = Vec::new();
        let mut pruned: Vec<PrunedValidatorSetUpdate> = Vec::new();
        let mut i: usize = 0;
        assert(pv.take(0) =~= Seq::<(Seq<char>, PendingView)>::empty());
        assert(pending_views(kept@) =~= Seq::<(Seq<char>, PendingView)>::empty());
        assert(pruned_views(pruned@) =~= Seq::<PrunedView>::empty());
        assert(kept_pending(pairs_map(pv.take(0)), applied, current_height) =~= Map::<
            Seq<char>,
            PendingView,
        >::empty());
        while source.len() > 0
            invariant
                self.keys.wf(),
                self.applied.wf(),
                self.applied@ == applied,
                self.keys@ == old(self)@.keys,
                self.max_pending_updates == old(self)@.max_pending_updates,
                self.max_pending_authorizations_per_validator
                    == old(self)@.max_pending_authorizations_per_validator,
                pv == pending_views(orig),
                ids == pending_ids(orig),
                strictly_sorted(ids),
                keys_distinct(pv),
                forall|k: int|
                    0 <= k < orig.len() ==> (#[trigger] orig[k]).signers.wf()
                        && orig[k].signers@.len() > 0,
                i <= orig.len(),
                orig.len() == n,
                source@ == orig.skip(i as int),
                strictly_sorted(pending_ids(kept@)),
                forall|a: int, k: int|
                    0 <= a < kept@.len() && i <= k < orig.len() ==> seq_lt(
                        #[trigger] pending_ids(kept@)[a],
                        #[trigger] ids[k],
                    ),
                forall|k: int|
                    0 <= k < kept@.len() ==> (#[trigger] kept@[k]).signers.wf()
                        && kept@[k].signers@.len() > 0,
                pairs_map(pending_views(kept@)) == kept_pending(
                    pairs_map(pv.take(i as int)),
                    applied,
                    current_height,
                ),
                pruned_views(pruned@) == pruned_list(pv.take(i as int), applied, current_height),
                forall|k: int| 0 <= k < pruned@.len() ==> strictly_sorted(views(#[trigger] pruned@[k].signers@)),
            decreases source@.len(),
        {
            let entry = source.remove(0);
            assert(entry == orig[i as int]);
            assert(source@ =~= orig.skip(i + 1));
            let ghost key = ids[i as int];
            let ghost val = pv[i as int].1;
            assert(pv[i as int].0 == key);
            assert(entry.signers.wf());
            let reason: Option<&str> = if entry.signers.len() == 0 {
                Some("empty_authorization_set")
            } else if self.applied.contains(entry.update.update_id.as_str()) {
                Some("already_applied")
            } else if crate::validator_update::validator_set_metadata_update_expired(
                &entry.update,
                current_height,
            ) {
                Some("expired")
            } else {
                None
            };
            assert(reason.is_some() == prune_reason(key, val, applied, current_height).is_some());
            proof {
                assert(pv.take(i + 1).drop_last() =~= pv.take(i as int));
                assert(pv.take(i + 1).last() == pv[i as int]);
                lemma_pairs_map_dom(pv.take(i as int), key);
                assert(!pairs_map(pv.take(i as int)).dom().contains(key)) by {
                    if pairs_map(pv.take(i as int)).dom().contains(key) {
                        let k = choose|k: int|
                            0 <= k < pv.take(i as int).len() && pv.take(i as int)[k].0 == key;
                        assert(pv[k].0 == key);
                    }
                }
                lemma_kept_insert(pairs_map(pv.take(i as int)), key, val, applied, current_height);
                entry.signers.lemma_ordered();
            }
            match reason {
                Some(r) => {
                    let ghost before = pruned@;
                    let signers = entry.signers.to_vec();
                    pruned.push(
                        PrunedValidatorSetUpdate {
                            update_id: owned(entry.update.update_id.as_str()),
                            signers,
                            reason: owned(r),
                        },
                    );
                    proof {
                        assert(pruned_views(pruned@) =~= pruned_views(before).push(
                            pruned_views(pruned@).last(),
                        ));
                        assert forall|k: int| 0 <= k < pruned@.len() implies strictly_sorted(
                            views(#[trigger] pruned@[k].signers@),
                        ) by {
                            if k < before.len() {
                                assert(pruned@[k] == before[k]);
                            }
                        }
                    }
                },
                None => {
                    let ghost before = kept@;
                    kept.push(entry);
                    proof {
                        assert(pending_views(kept@) =~= pending_views(before).push((key, val)));
                        assert(pending_views(kept@).drop_last() =~= pending_views(before));
                        assert(pending_ids(kept@) =~= pending_ids(before).push(key));
                        assert forall|a: int, b: int|
                            0 <= a < b < pending_ids(kept@).len() implies seq_lt(
                            pending_ids(kept@)[a],
                            pending_ids(kept@)[b],
                        ) by {
                            if b < before.len() {
                                assert(pending_ids(kept@)[a] == pending_ids(before)[a]);
                                assert(pending_ids(kept@)[b] == pending_ids(before)[b]);
                            } else {
                                assert(pending_ids(kept@)[a] == pending_ids(before)[a]);
                                assert(seq_lt(pending_ids(before)[a], ids[i as int]));
                            }
                        }
                        assert forall|a: int, k: int|
                            0 <= a < kept@.len() && i + 1 <= k < orig.len() implies seq_lt(
                            #[trigger] pending_ids(kept@)[a],
                            #[trigger] ids[k],
                        ) by {
                            if a < before.len() {
                                assert(pending_ids(kept@)[a] == pending_ids(before)[a]);
                            } else {
                                assert(pending_ids(kept@)[a] == key);
                            }
                        }
                        assert forall|k: int| 0 <= k < kept@.len() implies (#[trigger] kept@[k]).signers.wf()
                            && kept@[k].signers@.len() > 0 by {
                            if k < before.len() {
                                assert(kept@[k] == before[k]);
                            }
                        }
                    }
                },
            }
            i = i + 1;
        }
        assert(i == orig.len());
        assert(pv.take(i as int) =~= pv);
        self.pending = kept;
        proof {
            assert(self@ =~= (RegistryView {
                pending: kept_pending(old(self)@.pending, old(self)@.applied, current_height),
                ..old(self)@
            }));
        }
        pruned
    }
}

impl ValidatorSetRegistry {
    /// Records `signer`'s authorization of `update` and, once it has
    /// `quorum` signers, applies it. Returns whether it was applied. An
    /// authorization that was recorded stays recorded when the application
    /// fails.
    pub fn propose_validator_set_metadata_update_authorization(
        &mut self,
        signer: String,
        update: ValidatorSetMetadataUpdate,
        current_height: u64,
        quorum: usize,
    ) -> (result: Result<bool, NodeError>)
        requires
            old(self).wf(),
        ensures
            final(self).wf(),
            match authorization_refusal(old(self)@, signer@, update@, current_height) {
                Some(r) => result matches Err(e) && is_refusal_error(
                    e,
                    r,
                    old(self)@,
                    signer@,
                    update@,
                    current_height,
                ) && final(self)@ == old(self)@,
                None => {
                    let mid = authorized(old(self)@, signer@, update@);
                    if mid.pending[update@.update_id].signers.len() >= quorum {
                        match pending_application(mid, update@.update_id, quorum) {
                            Ok(v) => result == Ok::<bool, NodeError>(true) && final(self)@ == v,
                            Err(f) => result matches Err(e) && is_apply_error(e, f)
                                && final(self)@ == mid,
                        }
                    } else {
                        result == Ok::<bool, NodeError>(false) && final(self)@ == mid
                    }
                },
            },
    {
        let update_id = owned(update.update_id.as_str());
        let count = match self.insert_pending_validator_set_metadata_authorization(
            signer,
            update,
            current_height,
        ) {
            Ok(count) => count,
            Err(e) => {
                return Err(e);
            },
        };
        if count >= quorum {
            match self.apply_pending_validator_set_metadata_update(update_id.as_str(), quorum) {
                Ok(_) => Ok(true),
                Err(e) => Err(e),
            }
        } else {
            Ok(false)
        }
    }
}

/// Metadata written from a registry names each validator once, and reads
/// back as the same keyring and the same applied updates.
pub proof fn lemma_metadata_round_trip(registry: ValidatorSetRegistry, metadata: ValidatorSetMetadata)
    requires
        registry.wf(),
        key_views(metadata.validators@) == registry.keys_ordered(),
        views(metadata.applied_updates@) == registry.applied_ordered(),
    ensures
        key_ids(metadata.validators@).no_duplicates(),
        pairs_map(key_views(metadata.validators@)) == registry@.keys,
        views(metadata.applied_updates@).to_set() == registry@.applied,
{
    registry.lemma_wf();
    registry.keys.lemma_ordered();
    let ids = key_ids(metadata.validators@);
    assert(ids =~= registry.keys_ordered().map_values(|p: (Seq<char>, Seq<u8>)| p.0)) by {
        assert forall|i: int| 0 <= i < ids.len() implies ids[i]
            == registry.keys_ordered().map_values(|p: (Seq<char>, Seq<u8>)| p.0)[i] by {
            assert(key_views(metadata.validators@)[i] == registry.keys_ordered()[i]);
        }
    }
    lemma_sorted_distinct(ids);
}

/// Applying an update succeeds exactly when it has not been applied, each
/// validator it removes is trusted and named once, and each validator it
/// adds is named once and not trusted after the removals. The keyring is
/// then the old one without the removed validators and with the added
/// ones, and the update is recorded as applied.
pub proof fn lemma_applied_update_effect(v: RegistryView, update: UpdateView)
    ensures
        applied_update(v, update) is Ok <==> {
            &&& !v.applied.contains(update.update_id)
            &&& update.remove_validators.no_duplicates()
            &&& forall|i: int|
                0 <= i < update.remove_validators.len() ==> v.keys.dom().contains(
                    #[trigger] update.remove_validators[i],
                )
            &&& update.add_validators.map_values(|p: (Seq<char>, Seq<u8>)| p.0).no_duplicates()
            &&& forall|i: int|
                0 <= i < update.add_validators.len() ==> !v.keys.remove_keys(
                    update.remove_validators.to_set(),
                ).dom().contains(#[trigger] update.add_validators[i].0)
        },
        applied_update(v, update) matches Ok(w) ==> w == (RegistryView {
            keys: v.keys.remove_keys(update.remove_validators.to_set()).union_prefer_right(
                pairs_map(update.add_validators),
            ),
            applied: v.applied.insert(update.update_id),
            ..v
        }),
{
    crate::validator_update::lemma_remove_all_effect(v.keys, update.remove_validators);
    crate::validator_update::lemma_add_all_effect(
        v.keys.remove_keys(update.remove_validators.to_set()),
        update.add_validators,
    );
}

/// An update that has been applied is refused when applied again.
pub proof fn lemma_update_applies_once(v: RegistryView, update: UpdateView)
    ensures
        applied_update(v, update) matches Ok(w) ==> applied_update(w, update)
            == Err::<RegistryView, ApplyFailure>(ApplyFailure::AlreadyApplied(update.update_id)),
{
}

/// Once a pending update has been applied it is no longer pending, and any
/// further authorization of it is refused as already applied.
pub proof fn lemma_applied_pending_is_closed(
    v: RegistryView,
    id: Seq<char>,
    quorum: usize,
    signer: Seq<char>,
    update: UpdateView,
    current_height: u64,
)
    requires
        v.pending.dom().contains(id) ==> v.pending[id].update.update_id == id,
        update.update_id == id,
        !update_expired(update, current_height),
    ensures
        pending_application(v, id, quorum) matches Ok(w) ==> !w.pending.dom().contains(id)
            && authorization_refusal(w, signer, update, current_height) == Some(
            AuthorizationRefusal::AlreadyApplied,
        ),
{
}

/// The number of validators that have authorized the pending update `id`.
pub open spec fn pending_count(v: RegistryView, id: Seq<char>) -> nat {
    if v.pending.dom().contains(id) {
        v.pending[id].signers.len()
    } else {
        0
    }
}

/// A validator set as it is stored: the chain it belongs to, its keys and
/// the ids of the updates applied to it.
#[derive(Debug)]
pub struct ValidatorSetMetadata {
    pub network_id: String,
    pub chain_id: String,
    pub validators: Vec<ValidatorPublicKey>,
    pub applied_updates: Vec<String>,
}

/// Where an update stands: how many validators have authorized it, how
/// many must, and whether it has been applied.
#[derive(Debug)]
pub struct ValidatorSetMetadataUpdateStatus {
    pub update_id: String,
    pub pending_authorizations: usize,
    pub required_quorum: usize,
    pub applied: bool,
}

/// The quorum that validator-set updates need: the consensus quorum of
/// the trusted validators, and at least one.
pub fn validator_set_metadata_quorum(consensus_quorum: usize) -> (quorum: usize)
    ensures
        quorum == if consensus_quorum == 0 {
            1
        } else {
            consensus_quorum
        },
{
    if consensus_quorum == 0 {
        1
    } else {
        consensus_quorum
    }
}

} // verus!
