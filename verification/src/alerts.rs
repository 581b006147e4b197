//! Operator metrics summaries and the alerts an operator policy raises on
//! them.
use vstd::prelude::*;

verus! {

/// How urgent an alert is.
#[derive(Clone, Copy, Debug, PartialEq, Eq, Structural)]
pub enum OperatorAlertSeverity {
    Warning,
    Critical,
}

/// One raised alert: a stable code, a severity and a message.
#[derive(Clone, Debug, PartialEq, Eq)]
pub struct OperatorAlert {
    pub code: String,
    pub severity: OperatorAlertSeverity,
    pub message: String,
}

/// The thresholds above (or below) which an alert is raised.
#[derive(Clone, Copy, Debug, PartialEq, Eq, Structural)]
pub struct OperatorAlertPolicy {
    pub min_peer_count: usize,
    pub max_finality_lag: u64,
    pub max_latest_block_failure_ratio_per_mille: u16,
    pub max_storage_bytes: u64,
    pub max_rpc_error_count: u64,
    pub max_da_repair_lag_blocks: u64,
    pub max_mempool_size: usize,
}

/// The operator metrics that alerting reads.
#[derive(Clone, Copy, Debug, PartialEq, Eq, Structural)]
pub struct AlertMetrics {
    pub peer_count: Option<usize>,
    pub consensus_height: u64,
    pub finality_lag: Option<u64>,
    pub storage_bytes: Option<u64>,
    pub rpc_error_count: u64,
    pub da_missing_share_count: u64,
    pub da_repair_record_count: u64,
    pub da_custody_failure_count: u64,
    pub da_oldest_pending_repair_age_blocks: Option<u64>,
    pub da_challenge_evidence_count: u64,
    pub mempool_size: usize,
}

/// The node state, besides its metrics, that alerting reads.
#[derive(Clone, Copy, Debug, PartialEq, Eq, Structural)]
pub struct AlertState {
    pub root_mismatch: bool,
    pub slashing_record_count: usize,
    pub latest_block_failure_count: usize,
    pub latest_block_receipt_count: usize,
}

/// An alert as text: code, severity, message.
pub type AlertSpec = (Seq<char>, OperatorAlertSeverity, Seq<char>);

/// The text of an alert.
pub open spec fn alert_view(a: OperatorAlert) -> AlertSpec {
    (a.code@, a.severity, a.message@)
}

/// The text of a list of alerts.
pub open spec fn alerts_view(v: Seq<OperatorAlert>) -> Seq<AlertSpec> {
    v.map_values(|a: OperatorAlert| alert_view(a))
}

/// `alert` when `condition` holds, else nothing.
pub open spec fn when(condition: bool, alert: AlertSpec) -> Seq<AlertSpec> {
    if condition {
        seq![alert]
    } else {
        Seq::empty()
    }
}

/// The failure ratio of the latest block exceeds the policy, in failures
/// per thousand receipts (rounded down).
pub open spec fn excessive_reverts(policy: OperatorAlertPolicy, state: AlertState) -> bool {
    state.latest_block_receipt_count > 0 && (state.latest_block_failure_count * 1000)
        / (state.latest_block_receipt_count as int)
        > policy.max_latest_block_failure_ratio_per_mille
}

/// The alerts that `policy` raises on `metrics` and `state`, in the fixed
/// order in which they are checked.
pub open spec fn alerts_spec(
    policy: OperatorAlertPolicy,
    metrics: AlertMetrics,
    state: AlertState,
) -> Seq<AlertSpec> {
    when(
        metrics.peer_count matches Some(peers) && peers < policy.min_peer_count,
        (
            "operator.peer_isolation"@,
            OperatorAlertSeverity::Critical,
            "observed peer count is below policy minimum"@,
        ),
    ) + when(
        metrics.consensus_height > 0 && match metrics.finality_lag {
            Some(lag) => lag > policy.max_finality_lag,
            None => true,
        },
        (
            "operator.stalled_consensus"@,
            OperatorAlertSeverity::Critical,
            "finality lag exceeds policy threshold"@,
        ),
    ) + when(
        state.root_mismatch,
        (
            "operator.root_mismatch"@,
            OperatorAlertSeverity::Critical,
            "persisted metadata roots do not match local roots"@,
        ),
    ) + when(
        excessive_reverts(policy, state),
        (
            "operator.excessive_reverts"@,
            OperatorAlertSeverity::Warning,
            "latest block failure ratio exceeds policy threshold"@,
        ),
    ) + when(
        state.slashing_record_count > 0,
        (
            "operator.slashing_evidence"@,
            OperatorAlertSeverity::Critical,
            "durable slashing evidence is present"@,
        ),
    ) + when(
        metrics.storage_bytes matches Some(bytes) && bytes > policy.max_storage_bytes,
        (
            "operator.disk_pressure"@,
            OperatorAlertSeverity::Warning,
            "storage byte count exceeds policy threshold"@,
        ),
    ) + when(
        metrics.rpc_error_count > policy.max_rpc_error_count,
        (
            "operator.rpc_overload"@,
            OperatorAlertSeverity::Warning,
            "RPC error count exceeds policy threshold"@,
        ),
    ) + when(
        metrics.da_missing_share_count > 0,
        (
            "operator.da_missing_shares"@,
            OperatorAlertSeverity::Critical,
            "data availability store has missing shares"@,
        ),
    ) + when(
        metrics.da_repair_record_count > 0,
        (
            "operator.da_repair_pending"@,
            OperatorAlertSeverity::Warning,
            "data availability repair records are pending"@,
        ),
    ) + when(
        metrics.da_custody_failure_count > 0,
        (
            "operator.da_custody_failure"@,
            OperatorAlertSeverity::Critical,
            "data availability custody failure slashing evidence is present"@,
        ),
    ) + when(
        metrics.da_oldest_pending_repair_age_blocks matches Some(age) && age
            > policy.max_da_repair_lag_blocks,
        (
            "operator.da_repair_lag"@,
            OperatorAlertSeverity::Warning,
            "data availability repair lag exceeds policy threshold"@,
        ),
    ) + when(
        metrics.da_challenge_evidence_count > 0,
        (
            "operator.da_challenge_failure"@,
            OperatorAlertSeverity::Critical,
            "data availability challenge failure evidence is present"@,
        ),
    ) + when(
        metrics.mempool_size > policy.max_mempool_size,
        (
            "operator.mempool_saturation"@,
            OperatorAlertSeverity::Warning,
            "mempool size exceeds policy threshold"@,
        ),
    )
}

fn push_alert_if(
    alerts: &mut Vec<OperatorAlert>,
    condition: bool,
    code: &str,
    severity: OperatorAlertSeverity,
    message: &str,
)
    ensures
        alerts_view(final(alerts)@) == alerts_view(old(alerts)@) + when(
            condition,
            (code@, severity, message@),
        ),
{
    let ghost before = alerts_view(alerts@);
    if condition {
        alerts.push(
            OperatorAlert { code: code.to_owned(), severity, message: message.to_owned() },
        );
        assert(alerts_view(alerts@) =~= before + when(condition, (code@, severity, message@)));
    } else {
        assert(alerts_view(alerts@) =~= before + when(condition, (code@, severity, message@)));
    }
}

/// The alerts that `policy` raises on `metrics` and `state`.
pub fn operator_alerts_for_state(
    policy: &OperatorAlertPolicy,
    metrics: &AlertMetrics,
    state: &AlertState,
) -> (alerts: Vec<OperatorAlert>)
    requires
        state.latest_block_receipt_count > 0 ==> state.latest_block_failure_count * 1000
            <= usize::MAX,
    ensures
        alerts_view(alerts@) == alerts_spec(*policy, *metrics, *state),
{
    let mut alerts: Vec<OperatorAlert> = Vec::new();
    assert(alerts_view(alerts@) =~= Seq::<AlertSpec>::empty());
    let ghost s0 = alerts_view(alerts@);
    let peer_isolation = match metrics.peer_count {
        Some(peers) => peers < policy.min_peer_count,
        None => false,
    };
    push_alert_if(
        &mut alerts,
        peer_isolation,
        "operator.peer_isolation",
        OperatorAlertSeverity::Critical,
        "observed peer count is below policy minimum",
    );
    let stalled = metrics.consensus_height > 0 && match metrics.finality_lag {
        Some(lag) => lag > policy.max_finality_lag,
        None => true,
    };
    push_alert_if(
        &mut alerts,
        stalled,
        "operator.stalled_consensus",
        OperatorAlertSeverity::Critical,
        "finality lag exceeds policy threshold",
    );
    push_alert_if(
        &mut alerts,
        state.root_mismatch,
        "operator.root_mismatch",
        OperatorAlertSeverity::Critical,
        "persisted metadata roots do not match local roots",
    );
    let reverts = if state.latest_block_receipt_count > 0 {
        let failure_ratio = (state.latest_block_failure_count * 1000)
            / state.latest_block_receipt_count;
        failure_ratio > policy.max_latest_block_failure_ratio_per_mille as usize
    } else {
        false
    };
    push_alert_if(
        &mut alerts,
        reverts,
        "operator.excessive_reverts",
        OperatorAlertSeverity::Warning,
        "latest block failure ratio exceeds policy threshold",
    );
    push_alert_if(
        &mut alerts,
        state.slashing_record_count > 0,
        "operator.slashing_evidence",
        OperatorAlertSeverity::Critical,
        "durable slashing evidence is present",
    );
    let disk = match metrics.storage_bytes {
        Some(bytes) => bytes > policy.max_storage_bytes,
        None => false,
    };
    push_alert_if(
        &mut alerts,
        disk,
        "operator.disk_pressure",
        OperatorAlertSeverity::Warning,
        "storage byte count exceeds policy threshold",
    );
    push_alert_if(
        &mut alerts,
        metrics.rpc_error_count > policy.max_rpc_error_count,
        "operator.rpc_overload",
        OperatorAlertSeverity::Warning,
        "RPC error count exceeds policy threshold",
    );
    push_alert_if(
        &mut alerts,
        metrics.da_missing_share_count > 0,
        "operator.da_missing_shares",
        OperatorAlertSeverity::Critical,
        "data availability store has missing shares",
    );
    push_alert_if(
        &mut alerts,
        metrics.da_repair_record_count > 0,
        "operator.da_repair_pending",
        OperatorAlertSeverity::Warning,
        "data availability repair records are pending",
    );
    push_alert_if(
        &mut alerts,
        metrics.da_custody_failure_count > 0,
        "operator.da_custody_failure",
        OperatorAlertSeverity::Critical,
        "data availability custody failure slashing evidence is present",
    );
    let repair_lag = match metrics.da_oldest_pending_repair_age_blocks {
        Some(age) => age > policy.max_da_repair_lag_blocks,
        None => false,
    };
    push_alert_if(
        &mut alerts,
        repair_lag,
        "operator.da_repair_lag",
        OperatorAlertSeverity::Warning,
        "data availability repair lag exceeds policy threshold",
    );
    push_alert_if(
        &mut alerts,
        metrics.da_challenge_evidence_count > 0,
        "operator.da_challenge_failure",
        OperatorAlertSeverity::Critical,
        "data availability challenge failure evidence is present",
    );
    push_alert_if(
        &mut alerts,
        metrics.mempool_size > policy.max_mempool_size,
        "operator.mempool_saturation",
        OperatorAlertSeverity::Warning,
        "mempool size exceeds policy threshold",
    );
    assert(alerts_view(alerts@) =~= alerts_spec(*policy, *metrics, *state));
    alerts
}

/// How far the finalized height trails the consensus height (saturating at
/// zero), when some height is finalized.
pub fn finality_lag(height: u64, highest_finalized_height: Option<u64>) -> (lag: Option<u64>)
    ensures
        highest_finalized_height is None ==> lag is None,
        highest_finalized_height matches Some(f) ==> lag == Some(
            if height >= f {
                (height - f) as u64
            } else {
                0u64
            },
        ),
{
    match highest_finalized_height {
        Some(f) => Some(height.saturating_sub(f)),
        None => None,
    }
}

/// The age in blocks at `height` of a repair recorded at `recorded_at`
/// (saturating at zero).
pub open spec fn repair_age(height: u64, recorded_at: u64) -> u64 {
    if height >= recorded_at {
        (height - recorded_at) as u64
    } else {
        0
    }
}

/// The largest age at `height` among the pending repairs of `repairs`.
pub open spec fn oldest_pending_age(height: u64, repairs: Seq<(bool, u64)>) -> Option<u64>
    decreases repairs.len(),
{
    if repairs.len() == 0 {
        None
    } else {
        let rest = oldest_pending_age(height, repairs.drop_last());
        let r = repairs.last();
        if r.0 {
            rest
        } else {
            let age = repair_age(height, r.1);
            match rest {
                Some(a) => Some(if a >= age {
                    a
                } else {
                    age
                }),
                None => Some(age),
            }
        }
    }
}

/// The number of pending repairs.
pub open spec fn pending_count(repairs: Seq<(bool, u64)>) -> nat
    decreases repairs.len(),
{
    if repairs.len() == 0 {
        0
    } else {
        pending_count(repairs.drop_last()) + if repairs.last().0 {
            0nat
        } else {
            1nat
        }
    }
}

proof fn lemma_pending_count_bound(repairs: Seq<(bool, u64)>)
    ensures
        pending_count(repairs) <= repairs.len(),
    decreases repairs.len(),
{
    if repairs.len() > 0 {
        lemma_pending_count_bound(repairs.drop_last());
    }
}

/// The number of pending repairs among `repairs` and the age at `height` of
/// the oldest of them.
pub fn repair_backlog(height: u64, repairs: &[(bool, u64)]) -> (backlog: (u64, Option<u64>))
    requires
        repairs@.len() <= u64::MAX,
    ensures
        backlog.0 == pending_count(repairs@),
        backlog.1 == oldest_pending_age(height, repairs@),
{
    let mut count: u64 = 0;
    let mut oldest: Option<u64> = None;
    let mut i: usize = 0;
    while i < repairs.len()
        invariant
            i <= repairs@.len(),
            repairs@.len() <= u64::MAX,
            count == pending_count(repairs@.take(i as int)),
            oldest == oldest_pending_age(height, repairs@.take(i as int)),
        decreases repairs@.len() - i,
    {
        let (completed, recorded_at) = repairs[i];
        assert(repairs@.take(i + 1).drop_last() =~= repairs@.take(i as int));
        assert(repairs@.take(i + 1).last() == repairs@[i as int]);
        proof {
            lemma_pending_count_bound(repairs@.take(i as int));
        }
        if !completed {
            count = count + 1;
            let age = height.saturating_sub(recorded_at);
            oldest = match oldest {
                Some(a) => Some(if a >= age {
                    a
                } else {
                    age
                }),
                None => Some(age),
            };
        }
        i = i + 1;
    }
    assert(repairs@.take(repairs@.len() as int) =~= repairs@);
    (count, oldest)
}

/// The highest finalized height: `finalized[i]` tells whether height
/// `i + 1` has a finality certificate; none when no height has one.
pub open spec fn highest_finalized_spec(finalized: Seq<bool>) -> Option<u64>
    decreases finalized.len(),
{
    if finalized.len() == 0 {
        None
    } else if finalized.last() {
        Some(finalized.len() as u64)
    } else {
        highest_finalized_spec(finalized.drop_last())
    }
}

/// The highest finalized height is the greatest height that has a finality
/// certificate: it has one and no height above it does; there is none
/// exactly when no height has one.
pub proof fn highest_finalized_law(finalized: Seq<bool>)
    requires
        finalized.len() <= u64::MAX,
    ensures
        highest_finalized_spec(finalized) is None <==> forall|i: int|
            0 <= i < finalized.len() ==> !#[trigger] finalized[i],
        highest_finalized_spec(finalized) matches Some(h) ==> 1 <= h <= finalized.len()
            && finalized[h - 1] && forall|i: int| h <= i < finalized.len() ==> !#[trigger] finalized[i],
    decreases finalized.len(),
{
    if finalized.len() > 0 && !finalized.last() {
        let rest = finalized.drop_last();
        highest_finalized_law(rest);
        assert forall|i: int| 0 <= i < rest.len() implies #[trigger] rest[i] == finalized[i] by {}
        if highest_finalized_spec(rest) is None {
            assert forall|i: int| 0 <= i < finalized.len() implies !#[trigger] finalized[i] by {
                if i < rest.len() {
                    assert(!rest[i]);
                }
            }
        } else {
            let h = highest_finalized_spec(rest)->Some_0;
            assert(finalized[h - 1] == rest[h - 1]);
            assert forall|i: int| h <= i < finalized.len() implies !#[trigger] finalized[i] by {
                if i < rest.len() {
                    assert(!rest[i]);
                }
            }
        }
    } else if finalized.len() > 0 {
        assert(finalized[finalized.len() - 1] == finalized.last());
    }
}

/// The highest height with a finality certificate, searched from the top:
/// `finalized[i]` tells whether height `i + 1` has one.
pub fn highest_finalized_height(finalized: &[bool]) -> (highest: Option<u64>)
    requires
        finalized@.len() <= u64::MAX,
    ensures
        highest == highest_finalized_spec(finalized@),
        highest matches Some(h) ==> 1 <= h <= finalized@.len() && finalized@[h - 1],
{
    let mut i: usize = finalized.len();
    assert(finalized@.take(i as int) =~= finalized@);
    while i > 0
        invariant
            i <= finalized@.len(),
            finalized@.len() <= u64::MAX,
            highest_finalized_spec(finalized@) == highest_finalized_spec(finalized@.take(i as int)),
            forall|j: int| i <= j < finalized@.len() ==> !finalized@[j],
        decreases i,
    {
        assert(finalized@.take(i as int).drop_last() =~= finalized@.take(i - 1));
        assert(finalized@.take(i as int).last() == finalized@[i - 1]);
        if finalized[i - 1] {
            return Some(i as u64);
        }
        i = i - 1;
    }
    None
}

/// How many of `flags` are set, saturating at `u64::MAX`.
pub fn flag_count(flags: &[bool]) -> (count: u64)
    ensures
        count == vstd::math::min(flags@.filter(|f: bool| f).len() as int, u64::MAX as int),
{
    let mut count: u64 = 0;
    let mut i: usize = 0;
    assert(flags@.take(0).filter(|f: bool| f) =~= Seq::<bool>::empty());
    while i < flags.len()
        invariant
            i <= flags@.len(),
            count == vstd::math::min(flags@.take(i as int).filter(|f: bool| f).len() as int, u64::MAX as int),
        decreases flags@.len() - i,
    {
        assert(flags@.take(i + 1).drop_last() =~= flags@.take(i as int));
        proof {
            reveal(Seq::filter);
        }
        if flags[i] {
            count = count.saturating_add(1);
        }
        i = i + 1;
    }
    assert(flags@.take(i as int) =~= flags@);
    count
}

/// Whether a manifest needs repair: some share is missing or its payload
/// cannot be rebuilt.
pub fn repair_needed(missing_share_count: usize, payload_reconstructable: bool) -> (needed: bool)
    ensures
        needed == (missing_share_count > 0 || !payload_reconstructable),
{
    missing_share_count > 0 || !payload_reconstructable
}


/// Whether an alert with `code` is among `alerts`.
#[verifier::opaque]
pub open spec fn raises(alerts: Seq<AlertSpec>, code: Seq<char>) -> bool {
    exists|i: int| 0 <= i < alerts.len() && (#[trigger] alerts[i]).0 == code
}

/// Every alert with `code` among `alerts` has `severity` and `message`.
#[verifier::opaque]
pub open spec fn labelled(
    alerts: Seq<AlertSpec>,
    code: Seq<char>,
    severity: OperatorAlertSeverity,
    message: Seq<char>,
) -> bool {
    forall|i: int|
        0 <= i < alerts.len() && (#[trigger] alerts[i]).0 == code ==> alerts[i] == (
            code,
            severity,
            message,
        )
}

/// No code occurs twice among `alerts`.
#[verifier::opaque]
pub open spec fn codes_distinct(alerts: Seq<AlertSpec>) -> bool {
    forall|i: int, j: int|
        0 <= i < alerts.len() && 0 <= j < alerts.len() && i != j ==> (#[trigger] alerts[i]).0
            != (#[trigger] alerts[j]).0
}

proof fn lemma_raises_appended(x: Seq<AlertSpec>, c: bool, a: AlertSpec, code: Seq<char>)
    ensures
        raises(x + when(c, a), code) <==> raises(x, code) || (c && a.0 == code),
{
    reveal(raises);
    let y = x + when(c, a);
    if raises(y, code) {
        let i = choose|i: int| 0 <= i < y.len() && (#[trigger] y[i]).0 == code;
        if i < x.len() {
            assert(y[i] == x[i]);
        }
    }
    if raises(x, code) {
        let i = choose|i: int| 0 <= i < x.len() && (#[trigger] x[i]).0 == code;
        assert(y[i] == x[i]);
    }
    if c && a.0 == code {
        assert(y[x.len() as int] == a);
    }
}

proof fn lemma_labelled_appended(
    x: Seq<AlertSpec>,
    c: bool,
    a: AlertSpec,
    code: Seq<char>,
    severity: OperatorAlertSeverity,
    message: Seq<char>,
)
    ensures
        labelled(x + when(c, a), code, severity, message) <== labelled(x, code, severity, message)
            && (c && a.0 == code ==> a == (code, severity, message)),
{
    reveal(labelled);
    let y = x + when(c, a);
    if labelled(x, code, severity, message) && (c && a.0 == code ==> a == (
        code,
        severity,
        message,
    )) {
        assert forall|i: int| 0 <= i < y.len() && (#[trigger] y[i]).0 == code implies y[i] == (
            code,
            severity,
            message,
        ) by {
            if i < x.len() {
                assert(y[i] == x[i]);
            }
        }
    }
}

proof fn lemma_distinct_appended(x: Seq<AlertSpec>, c: bool, a: AlertSpec)
    ensures
        codes_distinct(x) && !(c && raises(x, a.0)) ==> codes_distinct(x + when(c, a)),
{
    reveal(codes_distinct);
    reveal(raises);
    let y = x + when(c, a);
    if codes_distinct(x) && !(c && raises(x, a.0)) {
        assert forall|i: int, j: int|
            0 <= i < y.len() && 0 <= j < y.len() && i != j implies (#[trigger] y[i]).0
            != (#[trigger] y[j]).0 by {
            if i < x.len() && j < x.len() {
                assert(y[i] == x[i] && y[j] == x[j]);
            } else if i < x.len() {
                assert(y[i] == x[i]);
            } else {
                assert(y[j] == x[j]);
            }
        }
    }
}

proof fn lemma_empty_alerts(code: Seq<char>, severity: OperatorAlertSeverity, message: Seq<char>)
    ensures
        !raises(Seq::<AlertSpec>::empty(), code),
        labelled(Seq::<AlertSpec>::empty(), code, severity, message),
        codes_distinct(Seq::<AlertSpec>::empty()),
{
    reveal(raises);
    reveal(labelled);
    reveal(codes_distinct);
}

/// The alert codes are pairwise different.
proof fn lemma_alert_codes_differ()
    ensures
        "operator.peer_isolation"@ != "operator.stalled_consensus"@,
        "operator.peer_isolation"@ != "operator.root_mismatch"@,
        "operator.peer_isolation"@ != "operator.excessive_reverts"@,
        "operator.peer_isolation"@ != "operator.slashing_evidence"@,
        "operator.peer_isolation"@ != "operator.disk_pressure"@,
        "operator.peer_isolation"@ != "operator.rpc_overload"@,
        "operator.peer_isolation"@ != "operator.da_missing_shares"@,
        "operator.peer_isolation"@ != "operator.da_repair_pending"@,
        "operator.peer_isolation"@ != "operator.da_custody_failure"@,
        "operator.peer_isolation"@ != "operator.da_repair_lag"@,
        "operator.peer_isolation"@ != "operator.da_challenge_failure"@,
        "operator.peer_isolation"@ != "operator.mempool_saturation"@,
        "operator.stalled_consensus"@ != "operator.root_mismatch"@,
        "operator.stalled_consensus"@ != "operator.excessive_reverts"@,
        "operator.stalled_consensus"@ != "operator.slashing_evidence"@,
        "operator.stalled_consensus"@ != "operator.disk_pressure"@,
        "operator.stalled_consensus"@ != "operator.rpc_overload"@,
        "operator.stalled_consensus"@ != "operator.da_missing_shares"@,
        "operator.stalled_consensus"@ != "operator.da_repair_pending"@,
        "operator.stalled_consensus"@ != "operator.da_custody_failure"@,
        "operator.stalled_consensus"@ != "operator.da_repair_lag"@,
        "operator.stalled_consensus"@ != "operator.da_challenge_failure"@,
        "operator.stalled_consensus"@ != "operator.mempool_saturation"@,
        "operator.root_mismatch"@ != "operator.excessive_reverts"@,
        "operator.root_mismatch"@ != "operator.slashing_evidence"@,
        "operator.root_mismatch"@ != "operator.disk_pressure"@,
        "operator.root_mismatch"@ != "operator.rpc_overload"@,
        "operator.root_mismatch"@ != "operator.da_missing_shares"@,
        "operator.root_mismatch"@ != "operator.da_repair_pending"@,
        "operator.root_mismatch"@ != "operator.da_custody_failure"@,
        "operator.root_mismatch"@ != "operator.da_repair_lag"@,
        "operator.root_mismatch"@ != "operator.da_challenge_failure"@,
        "operator.root_mismatch"@ != "operator.mempool_saturation"@,
        "operator.excessive_reverts"@ != "operator.slashing_evidence"@,
        "operator.excessive_reverts"@ != "operator.disk_pressure"@,
        "operator.excessive_reverts"@ != "operator.rpc_overload"@,
        "operator.excessive_reverts"@ != "operator.da_missing_shares"@,
        "operator.excessive_reverts"@ != "operator.da_repair_pending"@,
        "operator.excessive_reverts"@ != "operator.da_custody_failure"@,
        "operator.excessive_reverts"@ != "operator.da_repair_lag"@,
        "operator.excessive_reverts"@ != "operator.da_challenge_failure"@,
        "operator.excessive_reverts"@ != "operator.mempool_saturation"@,
        "operator.slashing_evidence"@ != "operator.disk_pressure"@,
        "operator.slashing_evidence"@ != "operator.rpc_overload"@,
        "operator.slashing_evidence"@ != "operator.da_missing_shares"@,
        "operator.slashing_evidence"@ != "operator.da_repair_pending"@,
        "operator.slashing_evidence"@ != "operator.da_custody_failure"@,
        "operator.slashing_evidence"@ != "operator.da_repair_lag"@,
        "operator.slashing_evidence"@ != "operator.da_challenge_failure"@,
        "operator.slashing_evidence"@ != "operator.mempool_saturation"@,
        "operator.disk_pressure"@ != "operator.rpc_overload"@,
        "operator.disk_pressure"@ != "operator.da_missing_shares"@,
        "operator.disk_pressure"@ != "operator.da_repair_pending"@,
        "operator.disk_pressure"@ != "operator.da_custody_failure"@,
        "operator.disk_pressure"@ != "operator.da_repair_lag"@,
        "operator.disk_pressure"@ != "operator.da_challenge_failure"@,
        "operator.disk_pressure"@ != "operator.mempool_saturation"@,
        "operator.rpc_overload"@ != "operator.da_missing_shares"@,
        "operator.rpc_overload"@ != "operator.da_repair_pending"@,
        "operator.rpc_overload"@ != "operator.da_custody_failure"@,
        "operator.rpc_overload"@ != "operator.da_repair_lag"@,
        "operator.rpc_overload"@ != "operator.da_challenge_failure"@,
        "operator.rpc_overload"@ != "operator.mempool_saturation"@,
        "operator.da_missing_shares"@ != "operator.da_repair_pending"@,
        "operator.da_missing_shares"@ != "operator.da_custody_failure"@,
        "operator.da_missing_shares"@ != "operator.da_repair_lag"@,
        "operator.da_missing_shares"@ != "operator.da_challenge_failure"@,
        "operator.da_missing_shares"@ != "operator.mempool_saturation"@,
        "operator.da_repair_pending"@ != "operator.da_custody_failure"@,
        "operator.da_repair_pending"@ != "operator.da_repair_lag"@,
        "operator.da_repair_pending"@ != "operator.da_challenge_failure"@,
        "operator.da_repair_pending"@ != "operator.mempool_saturation"@,
        "operator.da_custody_failure"@ != "operator.da_repair_lag"@,
        "operator.da_custody_failure"@ != "operator.da_challenge_failure"@,
        "operator.da_custody_failure"@ != "operator.mempool_saturation"@,
        "operator.da_repair_lag"@ != "operator.da_challenge_failure"@,
        "operator.da_repair_lag"@ != "operator.mempool_saturation"@,
        "operator.da_challenge_failure"@ != "operator.mempool_saturation"@,
{
    reveal_strlit("operator.peer_isolation");
    reveal_strlit("operator.stalled_consensus");
    reveal_strlit("operator.root_mismatch");
    reveal_strlit("operator.excessive_reverts");
    reveal_strlit("operator.slashing_evidence");
    reveal_strlit("operator.disk_pressure");
    reveal_strlit("operator.rpc_overload");
    reveal_strlit("operator.da_missing_shares");
    reveal_strlit("operator.da_repair_pending");
    reveal_strlit("operator.da_custody_failure");
    reveal_strlit("operator.da_repair_lag");
    reveal_strlit("operator.da_challenge_failure");
    reveal_strlit("operator.mempool_saturation");
    assert("operator.peer_isolation"@.len() != "operator.stalled_consensus"@.len());
    assert("operator.peer_isolation"@.len() != "operator.root_mismatch"@.len());
    assert("operator.peer_isolation"@.len() != "operator.excessive_reverts"@.len());
    assert("operator.peer_isolation"@.len() != "operator.slashing_evidence"@.len());
    assert("operator.peer_isolation"@.len() != "operator.disk_pressure"@.len());
    assert("operator.peer_isolation"@.len() != "operator.rpc_overload"@.len());
    assert("operator.peer_isolation"@.len() != "operator.da_missing_shares"@.len());
    assert("operator.peer_isolation"@.len() != "operator.da_repair_pending"@.len());
    assert("operator.peer_isolation"@.len() != "operator.da_custody_failure"@.len());
    assert("operator.peer_isolation"@.len() != "operator.da_repair_lag"@.len());
    assert("operator.peer_isolation"@.len() != "operator.da_challenge_failure"@.len());
    assert("operator.peer_isolation"@.len() != "operator.mempool_saturation"@.len());
    assert("operator.stalled_consensus"@.len() != "operator.root_mismatch"@.len());
    assert("operator.stalled_consensus"@[9] != "operator.excessive_reverts"@[9]);
    assert("operator.stalled_consensus"@[10] != "operator.slashing_evidence"@[10]);
    assert("operator.stalled_consensus"@.len() != "operator.disk_pressure"@.len());
    assert("operator.stalled_consensus"@.len() != "operator.rpc_overload"@.len());
    assert("operator.stalled_consensus"@[9] != "operator.da_missing_shares"@[9]);
    assert("operator.stalled_consensus"@[9] != "operator.da_repair_pending"@[9]);
    assert("operator.stalled_consensus"@.len() != "operator.da_custody_failure"@.len());
    assert("operator.stalled_consensus"@.len() != "operator.da_repair_lag"@.len());
    assert("operator.stalled_consensus"@.len() != "operator.da_challenge_failure"@.len());
    assert("operator.stalled_consensus"@.len() != "operator.mempool_saturation"@.len());
    assert("operator.root_mismatch"@.len() != "operator.excessive_reverts"@.len());
    assert("operator.root_mismatch"@.len() != "operator.slashing_evidence"@.len());
    assert("operator.root_mismatch"@[9] != "operator.disk_pressure"@[9]);
    assert("operator.root_mismatch"@.len() != "operator.rpc_overload"@.len());
    assert("operator.root_mismatch"@.len() != "operator.da_missing_shares"@.len());
    assert("operator.root_mismatch"@.len() != "operator.da_repair_pending"@.len());
    assert("operator.root_mismatch"@.len() != "operator.da_custody_failure"@.len());
    assert("operator.root_mismatch"@[9] != "operator.da_repair_lag"@[9]);
    assert("operator.root_mismatch"@.len() != "operator.da_challenge_failure"@.len());
    assert("operator.root_mismatch"@.len() != "operator.mempool_saturation"@.len());
    assert("operator.excessive_reverts"@[9] != "operator.slashing_evidence"@[9]);
    assert("operator.excessive_reverts"@.len() != "operator.disk_pressure"@.len());
    assert("operator.excessive_reverts"@.len() != "operator.rpc_overload"@.len());
    assert("operator.excessive_reverts"@[9] != "operator.da_missing_shares"@[9]);
    assert("operator.excessive_reverts"@[9] != "operator.da_repair_pending"@[9]);
    assert("operator.excessive_reverts"@.len() != "operator.da_custody_failure"@.len());
    assert("operator.excessive_reverts"@.len() != "operator.da_repair_lag"@.len());
    assert("operator.excessive_reverts"@.len() != "operator.da_challenge_failure"@.len());
    assert("operator.excessive_reverts"@.len() != "operator.mempool_saturation"@.len());
    assert("operator.slashing_evidence"@.len() != "operator.disk_pressure"@.len());
    assert("operator.slashing_evidence"@.len() != "operator.rpc_overload"@.len());
    assert("operator.slashing_evidence"@[9] != "operator.da_missing_shares"@[9]);
    assert("operator.slashing_evidence"@[9] != "operator.da_repair_pending"@[9]);
    assert("operator.slashing_evidence"@.len() != "operator.da_custody_failure"@.len());
    assert("operator.slashing_evidence"@.len() != "operator.da_repair_lag"@.len());
    assert("operator.slashing_evidence"@.len() != "operator.da_challenge_failure"@.len());
    assert("operator.slashing_evidence"@.len() != "operator.mempool_saturation"@.len());
    assert("operator.disk_pressure"@.len() != "operator.rpc_overload"@.len());
    assert("operator.disk_pressure"@.len() != "operator.da_missing_shares"@.len());
    assert("operator.disk_pressure"@.len() != "operator.da_repair_pending"@.len());
    assert("operator.disk_pressure"@.len() != "operator.da_custody_failure"@.len());
    assert("operator.disk_pressure"@[10] != "operator.da_repair_lag"@[10]);
    assert("operator.disk_pressure"@.len() != "operator.da_challenge_failure"@.len());
    assert("operator.disk_pressure"@.len() != "operator.mempool_saturation"@.len());
    assert("operator.rpc_overload"@.len() != "operator.da_missing_shares"@.len());
    assert("operator.rpc_overload"@.len() != "operator.da_repair_pending"@.len());
    assert("operator.rpc_overload"@.len() != "operator.da_custody_failure"@.len());
    assert("operator.rpc_overload"@.len() != "operator.da_repair_lag"@.len());
    assert("operator.rpc_overload"@.len() != "operator.da_challenge_failure"@.len());
    assert("operator.rpc_overload"@.len() != "operator.mempool_saturation"@.len());
    assert("operator.da_missing_shares"@[12] != "operator.da_repair_pending"@[12]);
    assert("operator.da_missing_shares"@.len() != "operator.da_custody_failure"@.len());
    assert("operator.da_missing_shares"@.len() != "operator.da_repair_lag"@.len());
    assert("operator.da_missing_shares"@.len() != "operator.da_challenge_failure"@.len());
    assert("operator.da_missing_shares"@.len() != "operator.mempool_saturation"@.len());
    assert("operator.da_repair_pending"@.len() != "operator.da_custody_failure"@.len());
    assert("operator.da_repair_pending"@.len() != "operator.da_repair_lag"@.len());
    assert("operator.da_repair_pending"@.len() != "operator.da_challenge_failure"@.len());
    assert("operator.da_repair_pending"@.len() != "operator.mempool_saturation"@.len());
    assert("operator.da_custody_failure"@.len() != "operator.da_repair_lag"@.len());
    assert("operator.da_custody_failure"@.len() != "operator.da_challenge_failure"@.len());
    assert("operator.da_custody_failure"@[9] != "operator.mempool_saturation"@[9]);
    assert("operator.da_repair_lag"@.len() != "operator.da_challenge_failure"@.len());
    assert("operator.da_repair_lag"@.len() != "operator.mempool_saturation"@.len());
    assert("operator.da_challenge_failure"@.len() != "operator.mempool_saturation"@.len());
}

/// Which alerts of the fixed list are raised with `code`, and the label
/// they carry.
proof fn lemma_alert_row(
    policy: OperatorAlertPolicy,
    metrics: AlertMetrics,
    state: AlertState,
    code: Seq<char>,
    severity: OperatorAlertSeverity,
    message: Seq<char>,
)
    ensures
        raises(alerts_spec(policy, metrics, state), code) <==> ({
            ||| (metrics.peer_count matches Some(peers) && peers < policy.min_peer_count) &&
                "operator.peer_isolation"@ == code
            ||| (metrics.consensus_height > 0 && match metrics.finality_lag { Some(lag) => lag >
                policy.max_finality_lag, None => true, }) && "operator.stalled_consensus"@ ==
                code
            ||| (state.root_mismatch) && "operator.root_mismatch"@ == code
            ||| (excessive_reverts(policy, state)) && "operator.excessive_reverts"@ == code
            ||| (state.slashing_record_count > 0) && "operator.slashing_evidence"@ == code
            ||| (metrics.storage_bytes matches Some(bytes) && bytes > policy.max_storage_bytes)
                && "operator.disk_pressure"@ == code
            ||| (metrics.rpc_error_count > policy.max_rpc_error_count) &&
                "operator.rpc_overload"@ == code
            ||| (metrics.da_missing_share_count > 0) && "operator.da_missing_shares"@ == code
            ||| (metrics.da_repair_record_count > 0) && "operator.da_repair_pending"@ == code
            ||| (metrics.da_custody_failure_count > 0) && "operator.da_custody_failure"@ == code
            ||| (metrics.da_oldest_pending_repair_age_blocks matches Some(age) && age >
                policy.max_da_repair_lag_blocks) && "operator.da_repair_lag"@ == code
            ||| (metrics.da_challenge_evidence_count > 0) && "operator.da_challenge_failure"@ ==
                code
            ||| (metrics.mempool_size > policy.max_mempool_size) &&
                "operator.mempool_saturation"@ == code
        }),
        labelled(alerts_spec(policy, metrics, state), code, severity, message) <== ({
            &&& (metrics.peer_count matches Some(peers) && peers < policy.min_peer_count) &&
                "operator.peer_isolation"@ == code ==> ("operator.peer_isolation"@,
                OperatorAlertSeverity::Critical, "observed peer count is below policy minimum"@)
                == (code, severity, message)
            &&& (metrics.consensus_height > 0 && match metrics.finality_lag { Some(lag) => lag >
                policy.max_finality_lag, None => true, }) && "operator.stalled_consensus"@ ==
                code ==> ("operator.stalled_consensus"@, OperatorAlertSeverity::Critical,
                "finality lag exceeds policy threshold"@) == (code, severity, message)
            &&& (state.root_mismatch) && "operator.root_mismatch"@ == code ==>
                ("operator.root_mismatch"@, OperatorAlertSeverity::Critical,
                "persisted metadata roots do not match local roots"@) == (code, severity,
                message)
            &&& (excessive_reverts(policy, state)) && "operator.excessive_reverts"@ == code ==>
                ("operator.excessive_reverts"@, OperatorAlertSeverity::Warning,
                "latest block failure ratio exceeds policy threshold"@) == (code, severity,
                message)
            &&& (state.slashing_record_count > 0) && "operator.slashing_evidence"@ == code ==>
                ("operator.slashing_evidence"@, OperatorAlertSeverity::Critical,
                "durable slashing evidence is present"@) == (code, severity, message)
            &&& (metrics.storage_bytes matches Some(bytes) && bytes > policy.max_storage_bytes)
                && "operator.disk_pressure"@ == code ==> ("operator.disk_pressure"@,
                OperatorAlertSeverity::Warning, "storage byte count exceeds policy threshold"@)
                == (code, severity, message)
            &&& (metrics.rpc_error_count > policy.max_rpc_error_count) &&
                "operator.rpc_overload"@ == code ==> ("operator.rpc_overload"@,
                OperatorAlertSeverity::Warning, "RPC error count exceeds policy threshold"@) ==
                (code, severity, message)
            &&& (metrics.da_missing_share_count > 0) && "operator.da_missing_shares"@ == code
                ==> ("operator.da_missing_shares"@, OperatorAlertSeverity::Critical,
                "data availability store has missing shares"@) == (code, severity, message)
            &&& (metrics.da_repair_record_count > 0) && "operator.da_repair_pending"@ == code
                ==> ("operator.da_repair_pending"@, OperatorAlertSeverity::Warning,
                "data availability repair records are pending"@) == (code, severity, message)
            &&& (metrics.da_custody_failure_count > 0) && "operator.da_custody_failure"@ == code
                ==> ("operator.da_custody_failure"@, OperatorAlertSeverity::Critical,
                "data availability custody failure slashing evidence is present"@) == (code,
                severity, message)
            &&& (metrics.da_oldest_pending_repair_age_blocks matches Some(age) && age >
                policy.max_da_repair_lag_blocks) && "operator.da_repair_lag"@ == code ==>
                ("operator.da_repair_lag"@, OperatorAlertSeverity::Warning,
                "data availability repair lag exceeds policy threshold"@) == (code, severity,
                message)
            &&& (metrics.da_challenge_evidence_count > 0) && "operator.da_challenge_failure"@ ==
                code ==> ("operator.da_challenge_failure"@, OperatorAlertSeverity::Critical,
                "data availability challenge failure evidence is present"@) == (code, severity,
                message)
            &&& (metrics.mempool_size > policy.max_mempool_size) &&
                "operator.mempool_saturation"@ == code ==> ("operator.mempool_saturation"@,
                OperatorAlertSeverity::Warning, "mempool size exceeds policy threshold"@) ==
                (code, severity, message)
        }),
{
    let c0 = metrics.peer_count matches Some(peers) && peers < policy.min_peer_count;
    let a0: AlertSpec = (
        "operator.peer_isolation"@,
        OperatorAlertSeverity::Critical,
        "observed peer count is below policy minimum"@,
    );
    let c1 = metrics.consensus_height > 0 && match metrics.finality_lag {
        Some(lag) => lag > policy.max_finality_lag,
        None => true,
    };
    let a1: AlertSpec = (
        "operator.stalled_consensus"@,
        OperatorAlertSeverity::Critical,
        "finality lag exceeds policy threshold"@,
    );
    let c2 = state.root_mismatch;
    let a2: AlertSpec = (
        "operator.root_mismatch"@,
        OperatorAlertSeverity::Critical,
        "persisted metadata roots do not match local roots"@,
    );
    let c3 = excessive_reverts(policy, state);
    let a3: AlertSpec = (
        "operator.excessive_reverts"@,
        OperatorAlertSeverity::Warning,
        "latest block failure ratio exceeds policy threshold"@,
    );
    let c4 = state.slashing_record_count > 0;
    let a4: AlertSpec = (
        "operator.slashing_evidence"@,
        OperatorAlertSeverity::Critical,
        "durable slashing evidence is present"@,
    );
    let c5 = metrics.storage_bytes matches Some(bytes) && bytes > policy.max_storage_bytes;
    let a5: AlertSpec = (
        "operator.disk_pressure"@,
        OperatorAlertSeverity::Warning,
        "storage byte count exceeds policy threshold"@,
    );
    let c6 = metrics.rpc_error_count > policy.max_rpc_error_count;
    let a6: AlertSpec = (
        "operator.rpc_overload"@,
        OperatorAlertSeverity::Warning,
        "RPC error count exceeds policy threshold"@,
    );
    let c7 = metrics.da_missing_share_count > 0;
    let a7: AlertSpec = (
        "operator.da_missing_shares"@,
        OperatorAlertSeverity::Critical,
        "data availability store has missing shares"@,
    );
    let c8 = metrics.da_repair_record_count > 0;
    let a8: AlertSpec = (
        "operator.da_repair_pending"@,
        OperatorAlertSeverity::Warning,
        "data availability repair records are pending"@,
    );
    let c9 = metrics.da_custody_failure_count > 0;
    let a9: AlertSpec = (
        "operator.da_custody_failure"@,
        OperatorAlertSeverity::Critical,
        "data availability custody failure slashing evidence is present"@,
    );
    let c10 = metrics.da_oldest_pending_repair_age_blocks matches Some(age) && age >
        policy.max_da_repair_lag_blocks;
    let a10: AlertSpec = (
        "operator.da_repair_lag"@,
        OperatorAlertSeverity::Warning,
        "data availability repair lag exceeds policy threshold"@,
    );
    let c11 = metrics.da_challenge_evidence_count > 0;
    let a11: AlertSpec = (
        "operator.da_challenge_failure"@,
        OperatorAlertSeverity::Critical,
        "data availability challenge failure evidence is present"@,
    );
    let c12 = metrics.mempool_size > policy.max_mempool_size;
    let a12: AlertSpec = (
        "operator.mempool_saturation"@,
        OperatorAlertSeverity::Warning,
        "mempool size exceeds policy threshold"@,
    );
    let e = Seq::<AlertSpec>::empty();
    lemma_empty_alerts(code, severity, message);
    lemma_raises_appended(e, c0, a0, code);
    lemma_labelled_appended(e, c0, a0, code, severity, message);
    assert(e + when(c0, a0) =~= when(c0, a0));
    let p0 = when(c0, a0);
    lemma_raises_appended(p0, c1, a1, code);
    lemma_labelled_appended(p0, c1, a1, code, severity, message);
    let p1 = p0 + when(c1, a1);
    lemma_raises_appended(p1, c2, a2, code);
    lemma_labelled_appended(p1, c2, a2, code, severity, message);
    let p2 = p1 + when(c2, a2);
    lemma_raises_appended(p2, c3, a3, code);
    lemma_labelled_appended(p2, c3, a3, code, severity, message);
    let p3 = p2 + when(c3, a3);
    lemma_raises_appended(p3, c4, a4, code);
    lemma_labelled_appended(p3, c4, a4, code, severity, message);
    let p4 = p3 + when(c4, a4);
    lemma_raises_appended(p4, c5, a5, code);
    lemma_labelled_appended(p4, c5, a5, code, severity, message);
    let p5 = p4 + when(c5, a5);
    lemma_raises_appended(p5, c6, a6, code);
    lemma_labelled_appended(p5, c6, a6, code, severity, message);
    let p6 = p5 + when(c6, a6);
    lemma_raises_appended(p6, c7, a7, code);
    lemma_labelled_appended(p6, c7, a7, code, severity, message);
    let p7 = p6 + when(c7, a7);
    lemma_raises_appended(p7, c8, a8, code);
    lemma_labelled_appended(p7, c8, a8, code, severity, message);
    let p8 = p7 + when(c8, a8);
    lemma_raises_appended(p8, c9, a9, code);
    lemma_labelled_appended(p8, c9, a9, code, severity, message);
    let p9 = p8 + when(c9, a9);
    lemma_raises_appended(p9, c10, a10, code);
    lemma_labelled_appended(p9, c10, a10, code, severity, message);
    let p10 = p9 + when(c10, a10);
    lemma_raises_appended(p10, c11, a11, code);
    lemma_labelled_appended(p10, c11, a11, code, severity, message);
    let p11 = p10 + when(c11, a11);
    lemma_raises_appended(p11, c12, a12, code);
    lemma_labelled_appended(p11, c12, a12, code, severity, message);
    let p12 = p11 + when(c12, a12);
}

/// The alerts of the fixed list have different codes, so none is raised
/// twice.
proof fn lemma_alerts_distinct(
    policy: OperatorAlertPolicy,
    metrics: AlertMetrics,
    state: AlertState,
)
    ensures
        codes_distinct(alerts_spec(policy, metrics, state)),
{
    let c0 = metrics.peer_count matches Some(peers) && peers < policy.min_peer_count;
    let a0: AlertSpec = (
        "operator.peer_isolation"@,
        OperatorAlertSeverity::Critical,
        "observed peer count is below policy minimum"@,
    );
    let c1 = metrics.consensus_height > 0 && match metrics.finality_lag {
        Some(lag) => lag > policy.max_finality_lag,
        None => true,
    };
    let a1: AlertSpec = (
        "operator.stalled_consensus"@,
        OperatorAlertSeverity::Critical,
        "finality lag exceeds policy threshold"@,
    );
    let c2 = state.root_mismatch;
    let a2: AlertSpec = (
        "operator.root_mismatch"@,
        OperatorAlertSeverity::Critical,
        "persisted metadata roots do not match local roots"@,
    );
    let c3 = excessive_reverts(policy, state);
    let a3: AlertSpec = (
        "operator.excessive_reverts"@,
        OperatorAlertSeverity::Warning,
        "latest block failure ratio exceeds policy threshold"@,
    );
    let c4 = state.slashing_record_count > 0;
    let a4: AlertSpec = (
        "operator.slashing_evidence"@,
        OperatorAlertSeverity::Critical,
        "durable slashing evidence is present"@,
    );
    let c5 = metrics.storage_bytes matches Some(bytes) && bytes > policy.max_storage_bytes;
    let a5: AlertSpec = (
        "operator.disk_pressure"@,
        OperatorAlertSeverity::Warning,
        "storage byte count exceeds policy threshold"@,
    );
    let c6 = metrics.rpc_error_count > policy.max_rpc_error_count;
    let a6: AlertSpec = (
        "operator.rpc_overload"@,
        OperatorAlertSeverity::Warning,
        "RPC error count exceeds policy threshold"@,
    );
    let c7 = metrics.da_missing_share_count > 0;
    let a7: AlertSpec = (
        "operator.da_missing_shares"@,
        OperatorAlertSeverity::Critical,
        "data availability store has missing shares"@,
    );
    let c8 = metrics.da_repair_record_count > 0;
    let a8: AlertSpec = (
        "operator.da_repair_pending"@,
        OperatorAlertSeverity::Warning,
        "data availability repair records are pending"@,
    );
    let c9 = metrics.da_custody_failure_count > 0;
    let a9: AlertSpec = (
        "operator.da_custody_failure"@,
        OperatorAlertSeverity::Critical,
        "data availability custody failure slashing evidence is present"@,
    );
    let c10 = metrics.da_oldest_pending_repair_age_blocks matches Some(age) && age >
        policy.max_da_repair_lag_blocks;
    let a10: AlertSpec = (
        "operator.da_repair_lag"@,
        OperatorAlertSeverity::Warning,
        "data availability repair lag exceeds policy threshold"@,
    );
    let c11 = metrics.da_challenge_evidence_count > 0;
    let a11: AlertSpec = (
        "operator.da_challenge_failure"@,
        OperatorAlertSeverity::Critical,
        "data availability challenge failure evidence is present"@,
    );
    let c12 = metrics.mempool_size > policy.max_mempool_size;
    let a12: AlertSpec = (
        "operator.mempool_saturation"@,
        OperatorAlertSeverity::Warning,
        "mempool size exceeds policy threshold"@,
    );
    lemma_alert_codes_differ();
    let e = Seq::<AlertSpec>::empty();
    lemma_empty_alerts(a0.0, a0.1, a0.2);
    lemma_distinct_appended(e, c0, a0);
    assert(e + when(c0, a0) =~= when(c0, a0));
    let p0 = when(c0, a0);
    lemma_empty_alerts(a1.0, a1.1, a1.2);
    lemma_raises_appended(e, c0, a0, a1.0);
    lemma_distinct_appended(p0, c1, a1);
    let p1 = p0 + when(c1, a1);
    lemma_empty_alerts(a2.0, a2.1, a2.2);
    lemma_raises_appended(e, c0, a0, a2.0);
    lemma_raises_appended(p0, c1, a1, a2.0);
    lemma_distinct_appended(p1, c2, a2);
    let p2 = p1 + when(c2, a2);
    lemma_empty_alerts(a3.0, a3.1, a3.2);
    lemma_raises_appended(e, c0, a0, a3.0);
    lemma_raises_appended(p0, c1, a1, a3.0);
    lemma_raises_appended(p1, c2, a2, a3.0);
    lemma_distinct_appended(p2, c3, a3);
    let p3 = p2 + when(c3, a3);
    lemma_empty_alerts(a4.0, a4.1, a4.2);
    lemma_raises_appended(e, c0, a0, a4.0);
    lemma_raises_appended(p0, c1, a1, a4.0);
    lemma_raises_appended(p1, c2, a2, a4.0);
    lemma_raises_appended(p2, c3, a3, a4.0);
    lemma_distinct_appended(p3, c4, a4);
    let p4 = p3 + when(c4, a4);
    lemma_empty_alerts(a5.0, a5.1, a5.2);
    lemma_raises_appended(e, c0, a0, a5.0);
    lemma_raises_appended(p0, c1, a1, a5.0);
    lemma_raises_appended(p1, c2, a2, a5.0);
    lemma_raises_appended(p2, c3, a3, a5.0);
    lemma_raises_appended(p3, c4, a4, a5.0);
    lemma_distinct_appended(p4, c5, a5);
    let p5 = p4 + when(c5, a5);
    lemma_empty_alerts(a6.0, a6.1, a6.2);
    lemma_raises_appended(e, c0, a0, a6.0);
    lemma_raises_appended(p0, c1, a1, a6.0);
    lemma_raises_appended(p1, c2, a2, a6.0);
    lemma_raises_appended(p2, c3, a3, a6.0);
    lemma_raises_appended(p3, c4, a4, a6.0);
    lemma_raises_appended(p4, c5, a5, a6.0);
    lemma_distinct_appended(p5, c6, a6);
    let p6 = p5 + when(c6, a6);
    lemma_empty_alerts(a7.0, a7.1, a7.2);
    lemma_raises_appended(e, c0, a0, a7.0);
    lemma_raises_appended(p0, c1, a1, a7.0);
    lemma_raises_appended(p1, c2, a2, a7.0);
    lemma_raises_appended(p2, c3, a3, a7.0);
    lemma_raises_appended(p3, c4, a4, a7.0);
    lemma_raises_appended(p4, c5, a5, a7.0);
    lemma_raises_appended(p5, c6, a6, a7.0);
    lemma_distinct_appended(p6, c7, a7);
    let p7 = p6 + when(c7, a7);
    lemma_empty_alerts(a8.0, a8.1, a8.2);
    lemma_raises_appended(e, c0, a0, a8.0);
    lemma_raises_appended(p0, c1, a1, a8.0);
    lemma_raises_appended(p1, c2, a2, a8.0);
    lemma_raises_appended(p2, c3, a3, a8.0);
    lemma_raises_appended(p3, c4, a4, a8.0);
    lemma_raises_appended(p4, c5, a5, a8.0);
    lemma_raises_appended(p5, c6, a6, a8.0);
    lemma_raises_appended(p6, c7, a7, a8.0);
    lemma_distinct_appended(p7, c8, a8);
    let p8 = p7 + when(c8, a8);
    lemma_empty_alerts(a9.0, a9.1, a9.2);
    lemma_raises_appended(e, c0, a0, a9.0);
    lemma_raises_appended(p0, c1, a1, a9.0);
    lemma_raises_appended(p1, c2, a2, a9.0);
    lemma_raises_appended(p2, c3, a3, a9.0);
    lemma_raises_appended(p3, c4, a4, a9.0);
    lemma_raises_appended(p4, c5, a5, a9.0);
    lemma_raises_appended(p5, c6, a6, a9.0);
    lemma_raises_appended(p6, c7, a7, a9.0);
    lemma_raises_appended(p7, c8, a8, a9.0);
    lemma_distinct_appended(p8, c9, a9);
    let p9 = p8 + when(c9, a9);
    lemma_empty_alerts(a10.0, a10.1, a10.2);
    lemma_raises_appended(e, c0, a0, a10.0);
    lemma_raises_appended(p0, c1, a1, a10.0);
    lemma_raises_appended(p1, c2, a2, a10.0);
    lemma_raises_appended(p2, c3, a3, a10.0);
    lemma_raises_appended(p3, c4, a4, a10.0);
    lemma_raises_appended(p4, c5, a5, a10.0);
    lemma_raises_appended(p5, c6, a6, a10.0);
    lemma_raises_appended(p6, c7, a7, a10.0);
    lemma_raises_appended(p7, c8, a8, a10.0);
    lemma_raises_appended(p8, c9, a9, a10.0);
    lemma_distinct_appended(p9, c10, a10);
    let p10 = p9 + when(c10, a10);
    lemma_empty_alerts(a11.0, a11.1, a11.2);
    lemma_raises_appended(e, c0, a0, a11.0);
    lemma_raises_appended(p0, c1, a1, a11.0);
    lemma_raises_appended(p1, c2, a2, a11.0);
    lemma_raises_appended(p2, c3, a3, a11.0);
    lemma_raises_appended(p3, c4, a4, a11.0);
    lemma_raises_appended(p4, c5, a5, a11.0);
    lemma_raises_appended(p5, c6, a6, a11.0);
    lemma_raises_appended(p6, c7, a7, a11.0);
    lemma_raises_appended(p7, c8, a8, a11.0);
    lemma_raises_appended(p8, c9, a9, a11.0);
    lemma_raises_appended(p9, c10, a10, a11.0);
    lemma_distinct_appended(p10, c11, a11);
    let p11 = p10 + when(c11, a11);
    lemma_empty_alerts(a12.0, a12.1, a12.2);
    lemma_raises_appended(e, c0, a0, a12.0);
    lemma_raises_appended(p0, c1, a1, a12.0);
    lemma_raises_appended(p1, c2, a2, a12.0);
    lemma_raises_appended(p2, c3, a3, a12.0);
    lemma_raises_appended(p3, c4, a4, a12.0);
    lemma_raises_appended(p4, c5, a5, a12.0);
    lemma_raises_appended(p5, c6, a6, a12.0);
    lemma_raises_appended(p6, c7, a7, a12.0);
    lemma_raises_appended(p7, c8, a8, a12.0);
    lemma_raises_appended(p8, c9, a9, a12.0);
    lemma_raises_appended(p9, c10, a10, a12.0);
    lemma_raises_appended(p10, c11, a11, a12.0);
    lemma_distinct_appended(p11, c12, a12);
    let p12 = p11 + when(c12, a12);
}

/// The place of an alert code in the fixed order in which alerts are
/// checked; thirteen for any other code.
pub open spec fn alert_rank(code: Seq<char>) -> int {
    if code == "operator.peer_isolation"@ {
        0
    } else if code == "operator.stalled_consensus"@ {
        1
    } else if code == "operator.root_mismatch"@ {
        2
    } else if code == "operator.excessive_reverts"@ {
        3
    } else if code == "operator.slashing_evidence"@ {
        4
    } else if code == "operator.disk_pressure"@ {
        5
    } else if code == "operator.rpc_overload"@ {
        6
    } else if code == "operator.da_missing_shares"@ {
        7
    } else if code == "operator.da_repair_pending"@ {
        8
    } else if code == "operator.da_custody_failure"@ {
        9
    } else if code == "operator.da_repair_lag"@ {
        10
    } else if code == "operator.da_challenge_failure"@ {
        11
    } else if code == "operator.mempool_saturation"@ {
        12
    } else {
        13
    }
}

/// The alerts come in the fixed order of their codes.
#[verifier::opaque]
pub open spec fn in_check_order(alerts: Seq<AlertSpec>) -> bool {
    forall|i: int, j: int|
        0 <= i < j < alerts.len() ==> alert_rank((#[trigger] alerts[i]).0) < alert_rank(
            (#[trigger] alerts[j]).0,
        )
}

/// Every alert's code comes before place `bound` of the fixed order.
#[verifier::opaque]
spec fn ranked_below(alerts: Seq<AlertSpec>, bound: int) -> bool {
    forall|i: int| 0 <= i < alerts.len() ==> alert_rank((#[trigger] alerts[i]).0) < bound
}

proof fn lemma_order_appended(x: Seq<AlertSpec>, c: bool, a: AlertSpec, bound: int)
    requires
        in_check_order(x),
        ranked_below(x, bound),
        alert_rank(a.0) == bound,
    ensures
        in_check_order(x + when(c, a)),
        ranked_below(x + when(c, a), bound + 1),
{
    reveal(in_check_order);
    reveal(ranked_below);
    let y = x + when(c, a);
    assert forall|i: int, j: int| 0 <= i < j < y.len() implies alert_rank(
        (#[trigger] y[i]).0,
    ) < alert_rank((#[trigger] y[j]).0) by {
        assert(y[i] == x[i]);
        if j < x.len() {
            assert(y[j] == x[j]);
        }
    }
    assert forall|i: int| 0 <= i < y.len() implies alert_rank((#[trigger] y[i]).0) < bound + 1 by {
        if i < x.len() {
            assert(y[i] == x[i]);
        }
    }
}

/// The alerts raised come in the fixed order in which they are checked.
proof fn lemma_alerts_ordered(policy: OperatorAlertPolicy, metrics: AlertMetrics, state: AlertState)
    ensures
        in_check_order(alerts_spec(policy, metrics, state)),
{
    let c0 = metrics.peer_count matches Some(peers) && peers < policy.min_peer_count;
    let a0: AlertSpec = (
        "operator.peer_isolation"@,
        OperatorAlertSeverity::Critical,
        "observed peer count is below policy minimum"@,
    );
    let c1 = metrics.consensus_height > 0 && match metrics.finality_lag {
        Some(lag) => lag > policy.max_finality_lag,
        None => true,
    };
    let a1: AlertSpec = (
        "operator.stalled_consensus"@,
        OperatorAlertSeverity::Critical,
        "finality lag exceeds policy threshold"@,
    );
    let c2 = state.root_mismatch;
    let a2: AlertSpec = (
        "operator.root_mismatch"@,
        OperatorAlertSeverity::Critical,
        "persisted metadata roots do not match local roots"@,
    );
    let c3 = excessive_reverts(policy, state);
    let a3: AlertSpec = (
        "operator.excessive_reverts"@,
        OperatorAlertSeverity::Warning,
        "latest block failure ratio exceeds policy threshold"@,
    );
    let c4 = state.slashing_record_count > 0;
    let a4: AlertSpec = (
        "operator.slashing_evidence"@,
        OperatorAlertSeverity::Critical,
        "durable slashing evidence is present"@,
    );
    let c5 = metrics.storage_bytes matches Some(bytes) && bytes > policy.max_storage_bytes;
    let a5: AlertSpec = (
        "operator.disk_pressure"@,
        OperatorAlertSeverity::Warning,
        "storage byte count exceeds policy threshold"@,
    );
    let c6 = metrics.rpc_error_count > policy.max_rpc_error_count;
    let a6: AlertSpec = (
        "operator.rpc_overload"@,
        OperatorAlertSeverity::Warning,
        "RPC error count exceeds policy threshold"@,
    );
    let c7 = metrics.da_missing_share_count > 0;
    let a7: AlertSpec = (
        "operator.da_missing_shares"@,
        OperatorAlertSeverity::Critical,
        "data availability store has missing shares"@,
    );
    let c8 = metrics.da_repair_record_count > 0;
    let a8: AlertSpec = (
        "operator.da_repair_pending"@,
        OperatorAlertSeverity::Warning,
        "data availability repair records are pending"@,
    );
    let c9 = metrics.da_custody_failure_count > 0;
    let a9: AlertSpec = (
        "operator.da_custody_failure"@,
        OperatorAlertSeverity::Critical,
        "data availability custody failure slashing evidence is present"@,
    );
    let c10 = metrics.da_oldest_pending_repair_age_blocks matches Some(age) && age >
        policy.max_da_repair_lag_blocks;
    let a10: AlertSpec = (
        "operator.da_repair_lag"@,
        OperatorAlertSeverity::Warning,
        "data availability repair lag exceeds policy threshold"@,
    );
    let c11 = metrics.da_challenge_evidence_count > 0;
    let a11: AlertSpec = (
        "operator.da_challenge_failure"@,
        OperatorAlertSeverity::Critical,
        "data availability challenge failure evidence is present"@,
    );
    let c12 = metrics.mempool_size > policy.max_mempool_size;
    let a12: AlertSpec = (
        "operator.mempool_saturation"@,
        OperatorAlertSeverity::Warning,
        "mempool size exceeds policy threshold"@,
    );
    lemma_alert_codes_differ();
    assert(alert_rank(a0.0) == 0);
    assert(alert_rank(a1.0) == 1);
    assert(alert_rank(a2.0) == 2);
    assert(alert_rank(a3.0) == 3);
    assert(alert_rank(a4.0) == 4);
    assert(alert_rank(a5.0) == 5);
    assert(alert_rank(a6.0) == 6);
    assert(alert_rank(a7.0) == 7);
    assert(alert_rank(a8.0) == 8);
    assert(alert_rank(a9.0) == 9);
    assert(alert_rank(a10.0) == 10);
    assert(alert_rank(a11.0) == 11);
    assert(alert_rank(a12.0) == 12);
    let e = Seq::<AlertSpec>::empty();
    assert(in_check_order(e) && ranked_below(e, 0)) by {
        reveal(in_check_order);
        reveal(ranked_below);
    }
    lemma_order_appended(e, c0, a0, 0);
    assert(e + when(c0, a0) =~= when(c0, a0));
    let p0 = when(c0, a0);
    lemma_order_appended(p0, c1, a1, 1);
    let p1 = p0 + when(c1, a1);
    lemma_order_appended(p1, c2, a2, 2);
    let p2 = p1 + when(c2, a2);
    lemma_order_appended(p2, c3, a3, 3);
    let p3 = p2 + when(c3, a3);
    lemma_order_appended(p3, c4, a4, 4);
    let p4 = p3 + when(c4, a4);
    lemma_order_appended(p4, c5, a5, 5);
    let p5 = p4 + when(c5, a5);
    lemma_order_appended(p5, c6, a6, 6);
    let p6 = p5 + when(c6, a6);
    lemma_order_appended(p6, c7, a7, 7);
    let p7 = p6 + when(c7, a7);
    lemma_order_appended(p7, c8, a8, 8);
    let p8 = p7 + when(c8, a8);
    lemma_order_appended(p8, c9, a9, 9);
    let p9 = p8 + when(c9, a9);
    lemma_order_appended(p9, c10, a10, 10);
    let p10 = p9 + when(c10, a10);
    lemma_order_appended(p10, c11, a11, 11);
    let p11 = p10 + when(c11, a11);
    lemma_order_appended(p11, c12, a12, 12);
    let p12 = p11 + when(c12, a12);
}

/// What the alerts raised on a node are, over every policy, metrics report
/// and node state: each alert is raised exactly when its own metric crosses
/// its own policy threshold, always with the same severity and message;
/// no alert is raised twice, and they come in the fixed order in which
/// they are checked.
pub proof fn alerts_law(policy: OperatorAlertPolicy, metrics: AlertMetrics, state: AlertState)
    ensures
        raises(alerts_spec(policy, metrics, state), "operator.peer_isolation"@) <==>
            (metrics.peer_count is Some && metrics.peer_count->Some_0 < policy.min_peer_count),
        raises(alerts_spec(policy, metrics, state), "operator.stalled_consensus"@) <==>
            (metrics.consensus_height > 0 && (metrics.finality_lag is None ||
            metrics.finality_lag->Some_0 > policy.max_finality_lag)),
        raises(alerts_spec(policy, metrics, state), "operator.root_mismatch"@) <==>
            (state.root_mismatch),
        raises(alerts_spec(policy, metrics, state), "operator.excessive_reverts"@) <==>
            (state.latest_block_receipt_count > 0 && (state.latest_block_failure_count * 1000) /
            (state.latest_block_receipt_count as int) >
            policy.max_latest_block_failure_ratio_per_mille),
        raises(alerts_spec(policy, metrics, state), "operator.slashing_evidence"@) <==>
            (state.slashing_record_count > 0),
        raises(alerts_spec(policy, metrics, state), "operator.disk_pressure"@) <==>
            (metrics.storage_bytes is Some && metrics.storage_bytes->Some_0 >
            policy.max_storage_bytes),
        raises(alerts_spec(policy, metrics, state), "operator.rpc_overload"@) <==>
            (metrics.rpc_error_count > policy.max_rpc_error_count),
        raises(alerts_spec(policy, metrics, state), "operator.da_missing_shares"@) <==>
            (metrics.da_missing_share_count > 0),
        raises(alerts_spec(policy, metrics, state), "operator.da_repair_pending"@) <==>
            (metrics.da_repair_record_count > 0),
        raises(alerts_spec(policy, metrics, state), "operator.da_custody_failure"@) <==>
            (metrics.da_custody_failure_count > 0),
        raises(alerts_spec(policy, metrics, state), "operator.da_repair_lag"@) <==>
            (metrics.da_oldest_pending_repair_age_blocks is Some &&
            metrics.da_oldest_pending_repair_age_blocks->Some_0 >
            policy.max_da_repair_lag_blocks),
        raises(alerts_spec(policy, metrics, state), "operator.da_challenge_failure"@) <==>
            (metrics.da_challenge_evidence_count > 0),
        raises(alerts_spec(policy, metrics, state), "operator.mempool_saturation"@) <==>
            (metrics.mempool_size > policy.max_mempool_size),
        labelled(alerts_spec(policy, metrics, state), "operator.peer_isolation"@,
            OperatorAlertSeverity::Critical, "observed peer count is below policy minimum"@),
        labelled(alerts_spec(policy, metrics, state), "operator.stalled_consensus"@,
            OperatorAlertSeverity::Critical, "finality lag exceeds policy threshold"@),
        labelled(alerts_spec(policy, metrics, state), "operator.root_mismatch"@,
            OperatorAlertSeverity::Critical,
            "persisted metadata roots do not match local roots"@),
        labelled(alerts_spec(policy, metrics, state), "operator.excessive_reverts"@,
            OperatorAlertSeverity::Warning,
            "latest block failure ratio exceeds policy threshold"@),
        labelled(alerts_spec(policy, metrics, state), "operator.slashing_evidence"@,
            OperatorAlertSeverity::Critical, "durable slashing evidence is present"@),
        labelled(alerts_spec(policy, metrics, state), "operator.disk_pressure"@,
            OperatorAlertSeverity::Warning, "storage byte count exceeds policy threshold"@),
        labelled(alerts_spec(policy, metrics, state), "operator.rpc_overload"@,
            OperatorAlertSeverity::Warning, "RPC error count exceeds policy threshold"@),
        labelled(alerts_spec(policy, metrics, state), "operator.da_missing_shares"@,
            OperatorAlertSeverity::Critical, "data availability store has missing shares"@),
        labelled(alerts_spec(policy, metrics, state), "operator.da_repair_pending"@,
            OperatorAlertSeverity::Warning, "data availability repair records are pending"@),
        labelled(alerts_spec(policy, metrics, state), "operator.da_custody_failure"@,
            OperatorAlertSeverity::Critical,
            "data availability custody failure slashing evidence is present"@),
        labelled(alerts_spec(policy, metrics, state), "operator.da_repair_lag"@,
            OperatorAlertSeverity::Warning,
            "data availability repair lag exceeds policy threshold"@),
        labelled(alerts_spec(policy, metrics, state), "operator.da_challenge_failure"@,
            OperatorAlertSeverity::Critical,
            "data availability challenge failure evidence is present"@),
        labelled(alerts_spec(policy, metrics, state), "operator.mempool_saturation"@,
            OperatorAlertSeverity::Warning, "mempool size exceeds policy threshold"@),
        codes_distinct(alerts_spec(policy, metrics, state)),
        in_check_order(alerts_spec(policy, metrics, state)),
{
    lemma_alert_codes_differ();
    lemma_alert_row(
        policy,
        metrics,
        state,
        "operator.peer_isolation"@,
        OperatorAlertSeverity::Critical,
        "observed peer count is below policy minimum"@,
    );
    lemma_alert_row(
        policy,
        metrics,
        state,
        "operator.stalled_consensus"@,
        OperatorAlertSeverity::Critical,
        "finality lag exceeds policy threshold"@,
    );
    lemma_alert_row(
        policy,
        metrics,
        state,
        "operator.root_mismatch"@,
        OperatorAlertSeverity::Critical,
        "persisted metadata roots do not match local roots"@,
    );
    lemma_alert_row(
        policy,
        metrics,
        state,
        "operator.excessive_reverts"@,
        OperatorAlertSeverity::Warning,
        "latest block failure ratio exceeds policy threshold"@,
    );
    lemma_alert_row(
        policy,
        metrics,
        state,
        "operator.slashing_evidence"@,
        OperatorAlertSeverity::Critical,
        "durable slashing evidence is present"@,
    );
    lemma_alert_row(
        policy,
        metrics,
        state,
        "operator.disk_pressure"@,
        OperatorAlertSeverity::Warning,
        "storage byte count exceeds policy threshold"@,
    );
    lemma_alert_row(
        policy,
        metrics,
        state,
        "operator.rpc_overload"@,
        OperatorAlertSeverity::Warning,
        "RPC error count exceeds policy threshold"@,
    );
    lemma_alert_row(
        policy,
        metrics,
        state,
        "operator.da_missing_shares"@,
        OperatorAlertSeverity::Critical,
        "data availability store has missing shares"@,
    );
    lemma_alert_row(
        policy,
        metrics,
        state,
        "operator.da_repair_pending"@,
        OperatorAlertSeverity::Warning,
        "data availability repair records are pending"@,
    );
    lemma_alert_row(
        policy,
        metrics,
        state,
        "operator.da_custody_failure"@,
        OperatorAlertSeverity::Critical,
        "data availability custody failure slashing evidence is present"@,
    );
    lemma_alert_row(
        policy,
        metrics,
        state,
        "operator.da_repair_lag"@,
        OperatorAlertSeverity::Warning,
        "data availability repair lag exceeds policy threshold"@,
    );
    lemma_alert_row(
        policy,
        metrics,
        state,
        "operator.da_challenge_failure"@,
        OperatorAlertSeverity::Critical,
        "data availability challenge failure evidence is present"@,
    );
    lemma_alert_row(
        policy,
        metrics,
        state,
        "operator.mempool_saturation"@,
        OperatorAlertSeverity::Warning,
        "mempool size exceeds policy threshold"@,
    );
    lemma_alerts_distinct(policy, metrics, state);
    lemma_alerts_ordered(policy, metrics, state);
}

} // verus!
