//! Reconciliation of the snapshot metadata roots a node persisted (possibly
//! imported with a snapshot) against the roots of its local records.
use crate::options::OptionTable;
use vstd::prelude::*;

verus! {

/// The persisted and local value of each snapshot metadata root. A local
/// root is absent when the node has no records of that kind; a persisted
/// root is absent when none was stored.
pub struct SnapshotMetadataRootInputs {
    pub persisted_validator_set_metadata_audit_root: Option<String>,
    pub local_validator_set_metadata_audit_root: String,
    pub persisted_snapshot_import_audit_config_root: Option<String>,
    pub local_snapshot_import_audit_config_root: Option<String>,
    pub persisted_snapshot_import_audit_root: Option<String>,
    pub local_snapshot_import_audit_root: Option<String>,
    pub persisted_required_snapshot_metadata_roots_root: Option<String>,
    pub local_required_snapshot_metadata_roots_root: Option<String>,
    pub persisted_snapshot_sync_client_metrics_root: Option<String>,
    pub local_snapshot_sync_client_metrics_root: Option<String>,
}

/// For each snapshot metadata root: the effective root, the local and the
/// persisted one, whether the effective root is an imported one, and
/// whether the persisted root matches the local one.
#[derive(Clone, Debug, PartialEq, Eq)]
pub struct SnapshotMetadataRootStatus {
    pub validator_set_metadata_audit_root: String,
    pub local_validator_set_metadata_audit_root: String,
    pub persisted_validator_set_metadata_audit_root: Option<String>,
    pub using_imported_validator_set_metadata_audit_root: bool,
    pub persisted_matches_local_validator_set_metadata_audit_root: bool,
    pub snapshot_import_audit_config_root: Option<String>,
    pub local_snapshot_import_audit_config_root: Option<String>,
    pub persisted_snapshot_import_audit_config_root: Option<String>,
    pub using_imported_snapshot_import_audit_config_root: bool,
    pub persisted_matches_local_snapshot_import_audit_config_root: bool,
    pub snapshot_import_audit_root: Option<String>,
    pub local_snapshot_import_audit_root: Option<String>,
    pub persisted_snapshot_import_audit_root: Option<String>,
    pub using_imported_snapshot_import_audit_root: bool,
    pub persisted_matches_local_snapshot_import_audit_root: bool,
    pub required_snapshot_metadata_roots_root: Option<String>,
    pub local_required_snapshot_metadata_roots_root: Option<String>,
    pub persisted_required_snapshot_metadata_roots_root: Option<String>,
    pub using_imported_required_snapshot_metadata_roots_root: bool,
    pub persisted_matches_local_required_snapshot_metadata_roots_root: bool,
    pub snapshot_sync_client_metrics_root: Option<String>,
    pub local_snapshot_sync_client_metrics_root: Option<String>,
    pub persisted_snapshot_sync_client_metrics_root: Option<String>,
    pub using_imported_snapshot_sync_client_metrics_root: bool,
    pub persisted_matches_local_snapshot_sync_client_metrics_root: bool,
}

/// The text of an optional root.
pub open spec fn root_view(root: Option<String>) -> Option<Seq<char>> {
    match root {
        Some(r) => Some(r@),
        None => None,
    }
}

/// A persisted root is present and equals the local one.
pub open spec fn matches_local(persisted: Option<Seq<char>>, local: Option<Seq<char>>) -> bool {
    persisted is Some && persisted == local
}

/// The local root where there is one, else the persisted one.
pub open spec fn local_or_persisted(persisted: Option<Seq<char>>, local: Option<Seq<char>>) -> Option<
    Seq<char>,
> {
    if local is Some {
        local
    } else {
        persisted
    }
}

/// Whether `status` reports the roots of `inputs` as the node derives them.
pub open spec fn status_of(inputs: SnapshotMetadataRootInputs, status: SnapshotMetadataRootStatus) -> bool {
    let pv = root_view(inputs.persisted_validator_set_metadata_audit_root);
    let lv = inputs.local_validator_set_metadata_audit_root@;
    let pc = root_view(inputs.persisted_snapshot_import_audit_config_root);
    let lc = root_view(inputs.local_snapshot_import_audit_config_root);
    let pa = root_view(inputs.persisted_snapshot_import_audit_root);
    let la = root_view(inputs.local_snapshot_import_audit_root);
    let pr = root_view(inputs.persisted_required_snapshot_metadata_roots_root);
    let lr = root_view(inputs.local_required_snapshot_metadata_roots_root);
    let pm = root_view(inputs.persisted_snapshot_sync_client_metrics_root);
    let lm = root_view(inputs.local_snapshot_sync_client_metrics_root);
    &&& status.validator_set_metadata_audit_root@ == match pv {
        Some(r) => r,
        None => lv,
    }
    &&& status.local_validator_set_metadata_audit_root@ == lv
    &&& root_view(status.persisted_validator_set_metadata_audit_root) == pv
    &&& status.using_imported_validator_set_metadata_audit_root == (pv is Some && pv != Some(lv))
    &&& status.persisted_matches_local_validator_set_metadata_audit_root == matches_local(
        pv,
        Some(lv),
    )
    &&& root_view(status.snapshot_import_audit_config_root) == local_or_persisted(pc, lc)
    &&& root_view(status.local_snapshot_import_audit_config_root) == lc
    &&& root_view(status.persisted_snapshot_import_audit_config_root) == pc
    &&& status.using_imported_snapshot_import_audit_config_root == (lc is None && pc is Some)
    &&& status.persisted_matches_local_snapshot_import_audit_config_root == matches_local(pc, lc)
    &&& root_view(status.snapshot_import_audit_root) == local_or_persisted(pa, la)
    &&& root_view(status.local_snapshot_import_audit_root) == la
    &&& root_view(status.persisted_snapshot_import_audit_root) == pa
    &&& status.using_imported_snapshot_import_audit_root == (pa is Some && la is None)
    &&& status.persisted_matches_local_snapshot_import_audit_root == matches_local(pa, la)
    &&& root_view(status.required_snapshot_metadata_roots_root) == local_or_persisted(pr, lr)
    &&& root_view(status.local_required_snapshot_metadata_roots_root) == lr
    &&& root_view(status.persisted_required_snapshot_metadata_roots_root) == pr
    &&& status.using_imported_required_snapshot_metadata_roots_root == (lr is None && pr is Some)
    &&& status.persisted_matches_local_required_snapshot_metadata_roots_root == matches_local(
        pr,
        lr,
    )
    &&& root_view(status.snapshot_sync_client_metrics_root) == local_or_persisted(pm, lm)
    &&& root_view(status.local_snapshot_sync_client_metrics_root) == lm
    &&& root_view(status.persisted_snapshot_sync_client_metrics_root) == pm
    &&& status.using_imported_snapshot_sync_client_metrics_root == (lm is None && pm is Some)
    &&& status.persisted_matches_local_snapshot_sync_client_metrics_root == matches_local(pm, lm)
}

fn clone_root(root: &Option<String>) -> (out: Option<String>)
    ensures
        root_view(out) == root_view(*root),
{
    match root {
        Some(r) => Some(r.clone()),
        None => None,
    }
}

fn roots_equal(a: &Option<String>, b: &Option<String>) -> (eq: bool)
    ensures
        eq == (root_view(*a) == root_view(*b)),
{
    match (a, b) {
        (Some(x), Some(y)) => crate::text::str_eq(x.as_str(), y.as_str()),
        (None, None) => true,
        _ => false,
    }
}

fn local_or(local: &Option<String>, persisted: &Option<String>) -> (out: Option<String>)
    ensures
        root_view(out) == local_or_persisted(root_view(*persisted), root_view(*local)),
{
    if local.is_some() {
        clone_root(local)
    } else {
        clone_root(persisted)
    }
}

/// Derives the status of each snapshot metadata root from its persisted and
/// local values.
pub fn snapshot_metadata_root_status(inputs: &SnapshotMetadataRootInputs) -> (status:
    SnapshotMetadataRootStatus)
    ensures
        status_of(*inputs, status),
{
    let local_validator = inputs.local_validator_set_metadata_audit_root.clone();
    let local_validator_opt = Some(inputs.local_validator_set_metadata_audit_root.clone());
    let validator_root = match &inputs.persisted_validator_set_metadata_audit_root {
        Some(r) => r.clone(),
        None => inputs.local_validator_set_metadata_audit_root.clone(),
    };
    let validator_matches = inputs.persisted_validator_set_metadata_audit_root.is_some()
        && roots_equal(&inputs.persisted_validator_set_metadata_audit_root, &local_validator_opt);
    let validator_imported = inputs.persisted_validator_set_metadata_audit_root.is_some()
        && !roots_equal(&inputs.persisted_validator_set_metadata_audit_root, &local_validator_opt);
    SnapshotMetadataRootStatus {
        validator_set_metadata_audit_root: validator_root,
        local_validator_set_metadata_audit_root: local_validator,
        persisted_validator_set_metadata_audit_root: clone_root(
            &inputs.persisted_validator_set_metadata_audit_root,
        ),
        using_imported_validator_set_metadata_audit_root: validator_imported,
        persisted_matches_local_validator_set_metadata_audit_root: validator_matches,
        snapshot_import_audit_config_root: local_or(
            &inputs.local_snapshot_import_audit_config_root,
            &inputs.persisted_snapshot_import_audit_config_root,
        ),
        local_snapshot_import_audit_config_root: clone_root(
            &inputs.local_snapshot_import_audit_config_root,
        ),
        persisted_snapshot_import_audit_config_root: clone_root(
            &inputs.persisted_snapshot_import_audit_config_root,
        ),
        using_imported_snapshot_import_audit_config_root: inputs.local_snapshot_import_audit_config_root.is_none()
            && inputs.persisted_snapshot_import_audit_config_root.is_some(),
        persisted_matches_local_snapshot_import_audit_config_root: inputs.persisted_snapshot_import_audit_config_root.is_some()
            && roots_equal(
            &inputs.persisted_snapshot_import_audit_config_root,
            &inputs.local_snapshot_import_audit_config_root,
        ),
        snapshot_import_audit_root: local_or(
            &inputs.local_snapshot_import_audit_root,
            &inputs.persisted_snapshot_import_audit_root,
        ),
        local_snapshot_import_audit_root: clone_root(&inputs.local_snapshot_import_audit_root),
        persisted_snapshot_import_audit_root: clone_root(
            &inputs.persisted_snapshot_import_audit_root,
        ),
        using_imported_snapshot_import_audit_root: inputs.persisted_snapshot_import_audit_root.is_some()
            && inputs.local_snapshot_import_audit_root.is_none(),
        persisted_matches_local_snapshot_import_audit_root: inputs.persisted_snapshot_import_audit_root.is_some()
            && roots_equal(
            &inputs.persisted_snapshot_import_audit_root,
            &inputs.local_snapshot_import_audit_root,
        ),
        required_snapshot_metadata_roots_root: local_or(
            &inputs.local_required_snapshot_metadata_roots_root,
            &inputs.persisted_required_snapshot_metadata_roots_root,
        ),
        local_required_snapshot_metadata_roots_root: clone_root(
            &inputs.local_required_snapshot_metadata_roots_root,
        ),
        persisted_required_snapshot_metadata_roots_root: clone_root(
            &inputs.persisted_required_snapshot_metadata_roots_root,
        ),
        using_imported_required_snapshot_metadata_roots_root: inputs.local_required_snapshot_metadata_roots_root.is_none()
            && inputs.persisted_required_snapshot_metadata_roots_root.is_some(),
        persisted_matches_local_required_snapshot_metadata_roots_root: inputs.persisted_required_snapshot_metadata_roots_root.is_some()
            && roots_equal(
            &inputs.persisted_required_snapshot_metadata_roots_root,
            &inputs.local_required_snapshot_metadata_roots_root,
        ),
        snapshot_sync_client_metrics_root: local_or(
            &inputs.local_snapshot_sync_client_metrics_root,
            &inputs.persisted_snapshot_sync_client_metrics_root,
        ),
        local_snapshot_sync_client_metrics_root: clone_root(
            &inputs.local_snapshot_sync_client_metrics_root,
        ),
        persisted_snapshot_sync_client_metrics_root: clone_root(
            &inputs.persisted_snapshot_sync_client_metrics_root,
        ),
        using_imported_snapshot_sync_client_metrics_root: inputs.local_snapshot_sync_client_metrics_root.is_none()
            && inputs.persisted_snapshot_sync_client_metrics_root.is_some(),
        persisted_matches_local_snapshot_sync_client_metrics_root: inputs.persisted_snapshot_sync_client_metrics_root.is_some()
            && roots_equal(
            &inputs.persisted_snapshot_sync_client_metrics_root,
            &inputs.local_snapshot_sync_client_metrics_root,
        ),
    }
}

/// Whether some persisted root is present and differs from its local root.
pub open spec fn root_mismatch_spec(status: SnapshotMetadataRootStatus) -> bool {
    ||| (status.persisted_validator_set_metadata_audit_root is Some
        && !status.persisted_matches_local_validator_set_metadata_audit_root)
    ||| (status.persisted_snapshot_import_audit_config_root is Some
        && !status.persisted_matches_local_snapshot_import_audit_config_root)
    ||| (status.persisted_snapshot_import_audit_root is Some
        && !status.persisted_matches_local_snapshot_import_audit_root)
    ||| (status.persisted_required_snapshot_metadata_roots_root is Some
        && !status.persisted_matches_local_required_snapshot_metadata_roots_root)
    ||| (status.persisted_snapshot_sync_client_metrics_root is Some
        && !status.persisted_matches_local_snapshot_sync_client_metrics_root)
}

/// Whether the status shows a persisted root that the local records do not
/// reproduce.
pub fn snapshot_root_mismatch(status: &SnapshotMetadataRootStatus) -> (mismatch: bool)
    ensures
        mismatch == root_mismatch_spec(*status),
{
    (status.persisted_validator_set_metadata_audit_root.is_some()
        && !status.persisted_matches_local_validator_set_metadata_audit_root) || (
    status.persisted_snapshot_import_audit_config_root.is_some()
        && !status.persisted_matches_local_snapshot_import_audit_config_root) || (
    status.persisted_snapshot_import_audit_root.is_some()
        && !status.persisted_matches_local_snapshot_import_audit_root) || (
    status.persisted_required_snapshot_metadata_roots_root.is_some()
        && !status.persisted_matches_local_required_snapshot_metadata_roots_root) || (
    status.persisted_snapshot_sync_client_metrics_root.is_some()
        && !status.persisted_matches_local_snapshot_sync_client_metrics_root)
}

/// A node reports no root mismatch exactly when every root it persisted
/// equals the root of its own records of that kind.
pub proof fn lemma_no_mismatch_iff_persisted_roots_match(
    inputs: SnapshotMetadataRootInputs,
    status: SnapshotMetadataRootStatus,
)
    requires
        status_of(inputs, status),
    ensures
        !root_mismatch_spec(status) <==> {
            &&& root_view(inputs.persisted_validator_set_metadata_audit_root) is Some ==> root_view(
                inputs.persisted_validator_set_metadata_audit_root,
            ) == Some(inputs.local_validator_set_metadata_audit_root@)
            &&& root_view(inputs.persisted_snapshot_import_audit_config_root) is Some ==> root_view(
                inputs.persisted_snapshot_import_audit_config_root,
            ) == root_view(inputs.local_snapshot_import_audit_config_root)
            &&& root_view(inputs.persisted_snapshot_import_audit_root) is Some ==> root_view(
                inputs.persisted_snapshot_import_audit_root,
            ) == root_view(inputs.local_snapshot_import_audit_root)
            &&& root_view(inputs.persisted_required_snapshot_metadata_roots_root) is Some
                ==> root_view(inputs.persisted_required_snapshot_metadata_roots_root) == root_view(
                inputs.local_required_snapshot_metadata_roots_root,
            )
            &&& root_view(inputs.persisted_snapshot_sync_client_metrics_root) is Some ==> root_view(
                inputs.persisted_snapshot_sync_client_metrics_root,
            ) == root_view(inputs.local_snapshot_sync_client_metrics_root)
        },
{
}

/// The effective validator-set audit root is the imported one exactly when
/// a persisted root differs from the local one; otherwise it is the local
/// root.
pub proof fn lemma_validator_audit_root_choice(
    inputs: SnapshotMetadataRootInputs,
    status: SnapshotMetadataRootStatus,
)
    requires
        status_of(inputs, status),
    ensures
        status.using_imported_validator_set_metadata_audit_root <==> (
        inputs.persisted_validator_set_metadata_audit_root is Some
            && !status.persisted_matches_local_validator_set_metadata_audit_root),
        !status.using_imported_validator_set_metadata_audit_root
            ==> status.validator_set_metadata_audit_root@
            == inputs.local_validator_set_metadata_audit_root@,
{
}

/// The keys under which each metadata root is recorded in a snapshot.
pub struct MetadataRootKeys {
    pub validator_set_audit: String,
    pub state_sync_client_metrics: String,
    pub required_metadata_roots: String,
    pub snapshot_import_audit: String,
    pub snapshot_import_audit_config: String,
}

/// The roots of the node's local records: the validator-set audit root is
/// always there; each other is absent when the node has no records of
/// that kind.
pub struct LocalMetadataRoots {
    pub validator_set_audit: String,
    pub state_sync_client_metrics: Option<String>,
    pub required_metadata_roots: Option<String>,
    pub snapshot_import_audit: Option<String>,
    pub snapshot_import_audit_config: Option<String>,
}

/// `m` with `value` recorded under `key` when there is a value.
pub open spec fn insert_some(
    m: Map<Seq<char>, Seq<char>>,
    key: Seq<char>,
    value: Option<String>,
) -> Map<Seq<char>, Seq<char>> {
    match value {
        Some(v) => m.insert(key, v@),
        None => m,
    }
}

/// The metadata roots a snapshot of the node carries: the stored ones,
/// with the local validator-set audit root where none is stored, and each
/// other local root that exists in place of the stored one.
pub open spec fn effective_roots_spec(
    stored: Map<Seq<char>, Seq<char>>,
    keys: MetadataRootKeys,
    local: LocalMetadataRoots,
) -> Map<Seq<char>, Seq<char>> {
    let with_audit = if stored.dom().contains(keys.validator_set_audit@) {
        stored
    } else {
        stored.insert(keys.validator_set_audit@, local.validator_set_audit@)
    };
    let with_metrics = insert_some(with_audit, keys.state_sync_client_metrics@, local.state_sync_client_metrics);
    let with_required = insert_some(with_metrics, keys.required_metadata_roots@, local.required_metadata_roots);
    let with_import = insert_some(with_required, keys.snapshot_import_audit@, local.snapshot_import_audit);
    insert_some(with_import, keys.snapshot_import_audit_config@, local.snapshot_import_audit_config)
}

/// Under `key` of `roots`: the local root `value` when there is one,
/// otherwise whatever `stored` holds there (or nothing).
pub open spec fn local_over_stored(
    roots: Map<Seq<char>, Seq<char>>,
    stored: Map<Seq<char>, Seq<char>>,
    key: Seq<char>,
    value: Option<String>,
) -> bool {
    match value {
        Some(r) => roots.dom().contains(key) && roots[key] == r@,
        None => (roots.dom().contains(key) <==> stored.dom().contains(key)) && (
        stored.dom().contains(key) ==> roots[key] == stored[key]),
    }
}

/// The five keys are pairwise different.
pub open spec fn root_keys_distinct(keys: MetadataRootKeys) -> bool {
    let k = seq![
        keys.validator_set_audit@,
        keys.state_sync_client_metrics@,
        keys.required_metadata_roots@,
        keys.snapshot_import_audit@,
        keys.snapshot_import_audit_config@,
    ];
    forall|i: int, j: int| 0 <= i < 5 && 0 <= j < 5 && i != j ==> k[i] != k[j]
}

/// How the effective snapshot metadata roots follow from the stored and
/// local ones, for five different keys: the validator-set audit root is the
/// stored one if any, else the local one; each other root is the local one
/// when the node has it, whatever is stored, else the stored one; every
/// other key keeps exactly what is stored.
pub proof fn effective_roots_law(
    stored: Map<Seq<char>, Seq<char>>,
    keys: MetadataRootKeys,
    local: LocalMetadataRoots,
)
    requires
        root_keys_distinct(keys),
    ensures
        ({
            let roots = effective_roots_spec(stored, keys, local);
            &&& roots.dom().contains(keys.validator_set_audit@)
            &&& roots[keys.validator_set_audit@] == if stored.dom().contains(
                keys.validator_set_audit@,
            ) {
                stored[keys.validator_set_audit@]
            } else {
                local.validator_set_audit@
            }
            &&& local_over_stored(
                roots,
                stored,
                keys.state_sync_client_metrics@,
                local.state_sync_client_metrics,
            )
            &&& local_over_stored(
                roots,
                stored,
                keys.required_metadata_roots@,
                local.required_metadata_roots,
            )
            &&& local_over_stored(
                roots,
                stored,
                keys.snapshot_import_audit@,
                local.snapshot_import_audit,
            )
            &&& local_over_stored(
                roots,
                stored,
                keys.snapshot_import_audit_config@,
                local.snapshot_import_audit_config,
            )
            &&& forall|k: Seq<char>|
                k != keys.validator_set_audit@ && k != keys.state_sync_client_metrics@ && k
                    != keys.required_metadata_roots@ && k != keys.snapshot_import_audit@ && k
                    != keys.snapshot_import_audit_config@ ==> (#[trigger] roots.dom().contains(k)
                    <==> stored.dom().contains(k)) && (stored.dom().contains(k) ==> roots[k]
                    == stored[k])
        }),
{
    let k = seq![
        keys.validator_set_audit@,
        keys.state_sync_client_metrics@,
        keys.required_metadata_roots@,
        keys.snapshot_import_audit@,
        keys.snapshot_import_audit_config@,
    ];
    assert(k[0] != k[1] && k[0] != k[2] && k[0] != k[3] && k[0] != k[4]);
    assert(k[1] != k[2] && k[1] != k[3] && k[1] != k[4]);
    assert(k[2] != k[3] && k[2] != k[4] && k[3] != k[4]);
}

fn insert_present(table: &mut OptionTable, key: &String, value: &Option<String>)
    ensures
        final(table)@ == insert_some(old(table)@, key@, *value),
{
    if let Some(v) = value {
        table.insert(key.clone(), v.clone());
    }
}

/// Completes the stored snapshot metadata roots with the local ones: the
/// validator-set audit root only where none is stored, every other local
/// root that exists over the stored one.
pub fn effective_snapshot_metadata_roots(
    stored: OptionTable,
    keys: &MetadataRootKeys,
    local: &LocalMetadataRoots,
) -> (roots: OptionTable)
    ensures
        roots@ == effective_roots_spec(stored@, *keys, *local),
{
    let mut roots = stored;
    if roots.get(keys.validator_set_audit.as_str()).is_none() {
        roots.insert(keys.validator_set_audit.clone(), local.validator_set_audit.clone());
    }
    insert_present(&mut roots, &keys.state_sync_client_metrics, &local.state_sync_client_metrics);
    insert_present(&mut roots, &keys.required_metadata_roots, &local.required_metadata_roots);
    insert_present(&mut roots, &keys.snapshot_import_audit, &local.snapshot_import_audit);
    insert_present(
        &mut roots,
        &keys.snapshot_import_audit_config,
        &local.snapshot_import_audit_config,
    );
    roots
}

} // verus!
