//! The layout of a block's data-availability payload: which namespace
//! sections it has, in which order, and which record of the block goes into
//! each.
use crate::node_error::NodeError;
use crate::rate_limit::DaError;
use crate::numeric::{decimal_spec, push_decimal};
use crate::text::{owned, str_eq};
use vstd::prelude::*;

verus! {

/// The methods whose committed transactions the payload carries as
/// evidence, and all others.
#[derive(Clone, Copy, Debug, PartialEq, Eq, Structural)]
pub enum TxMethodClass {
    SubmitAspectModule,
    BridgeMessage,
    Governance,
    SubmitPrice,
    Other,
}

/// What the layout reads of a call argument.
#[derive(Debug)]
pub enum ArgSummary {
    Text(String),
    Asset(String),
    Other,
}

/// What the layout reads of a transaction.
#[derive(Debug)]
pub struct TxSummary {
    pub tx_hash: String,
    pub target: String,
    pub method: TxMethodClass,
    pub args: Vec<ArgSummary>,
}

/// What the layout reads of a receipt.
#[derive(Debug)]
pub struct ReceiptSummary {
    pub tx_hash: String,
    pub committed: bool,
}

/// How an aspect module's artifact is rebuilt from its transaction: from
/// its source, or from the roots it lists.
#[derive(Clone, Copy, Debug, PartialEq, Eq, Structural)]
pub enum AspectShape {
    FromSource,
    FromRoots,
}

/// A record of the payload, by the block item it is made from.
#[derive(Debug)]
pub enum DaRecordRef {
    BlockHeader,
    SignedTransaction(usize),
    Receipt(usize),
    AspectArtifact { transaction: usize, shape: AspectShape },
    BridgeProof { transaction: usize, message_id: String },
    GovernancePayload { transaction: usize, proposal_id: String },
    OracleEvidence { transaction: usize, asset: String },
}

/// The content of a record reference.
pub enum RefView {
    BlockHeader,
    SignedTransaction(int),
    Receipt(int),
    AspectArtifact(int, AspectShape),
    BridgeProof(int, Seq<char>),
    GovernancePayload(int, Seq<char>),
    OracleEvidence(int, Seq<char>),
}

impl View for DaRecordRef {
    type V = RefView;

    open spec fn view(&self) -> RefView {
        match self {
            DaRecordRef::BlockHeader => RefView::BlockHeader,
            DaRecordRef::SignedTransaction(i) => RefView::SignedTransaction(*i as int),
            DaRecordRef::Receipt(i) => RefView::Receipt(*i as int),
            DaRecordRef::AspectArtifact { transaction, shape } => RefView::AspectArtifact(
                *transaction as int,
                *shape,
            ),
            DaRecordRef::BridgeProof { transaction, message_id } => RefView::BridgeProof(
                *transaction as int,
                message_id@,
            ),
            DaRecordRef::GovernancePayload { transaction, proposal_id } =>
                RefView::GovernancePayload(*transaction as int, proposal_id@),
            DaRecordRef::OracleEvidence { transaction, asset } => RefView::OracleEvidence(
                *transaction as int,
                asset@,
            ),
        }
    }
}

/// One namespace section of the payload.
#[derive(Debug)]
pub struct DaSectionPlan {
    pub namespace: String,
    pub records: Vec<DaRecordRef>,
}

/// The content of a section.
pub open spec fn section_view(s: DaSectionPlan) -> (Seq<char>, Seq<RefView>) {
    (s.namespace@, s.records@.map_values(|r: DaRecordRef| r@))
}

/// The content of a list of sections.
pub open spec fn sections_view(v: Seq<DaSectionPlan>) -> Seq<(Seq<char>, Seq<RefView>)> {
    v.map_values(|s: DaSectionPlan| section_view(s))
}

/// The transaction at `i` was committed: the receipt at `i` is its own and
/// reports it committed.
pub open spec fn committed(txs: Seq<TxSummary>, receipts: Seq<ReceiptSummary>, i: int) -> bool {
    &&& 0 <= i < txs.len()
    &&& i < receipts.len()
    &&& receipts[i].tx_hash@ == txs[i].tx_hash@
    &&& receipts[i].committed
}

/// The text argument at `i`, if that argument is a text.
pub open spec fn text_arg(t: TxSummary, i: int) -> Option<Seq<char>> {
    if 0 <= i < t.args.len() {
        match t.args[i] {
            ArgSummary::Text(s) => Some(s@),
            _ => None,
        }
    } else {
        None
    }
}

/// The asset argument at `i`, if that argument is an asset.
pub open spec fn asset_arg(t: TxSummary, i: int) -> Option<Seq<char>> {
    if 0 <= i < t.args.len() {
        match t.args[i] {
            ArgSummary::Asset(s) => Some(s@),
            _ => None,
        }
    } else {
        None
    }
}

/// The first of two options that is present, else `fallback`.
pub open spec fn first_of(a: Option<Seq<char>>, b: Option<Seq<char>>, fallback: Seq<char>) -> Seq<char> {
    match a {
        Some(x) => x,
        None => match b {
            Some(y) => y,
            None => fallback,
        },
    }
}

/// How an aspect transaction's artifact is rebuilt: two text arguments
/// give the source, nine give the roots; any other shape is refused.
pub open spec fn aspect_shape(t: TxSummary) -> Option<AspectShape> {
    let all_text = forall|k: int| 0 <= k < t.args.len() ==> (#[trigger] t.args[k]) is Text;
    if all_text && t.args.len() == 2 {
        Some(AspectShape::FromSource)
    } else if all_text && t.args.len() == 9 {
        Some(AspectShape::FromRoots)
    } else {
        None
    }
}

/// The evidence record of the committed transaction at `i` of class
/// `class`.
pub open spec fn evidence_ref(t: TxSummary, i: int, class: TxMethodClass) -> RefView {
    match class {
        TxMethodClass::BridgeMessage => RefView::BridgeProof(
            i,
            first_of(text_arg(t, 2), text_arg(t, 0), t.tx_hash@),
        ),
        TxMethodClass::Governance => RefView::GovernancePayload(
            i,
            first_of(text_arg(t, 0), None, t.tx_hash@),
        ),
        _ => RefView::OracleEvidence(i, first_of(asset_arg(t, 0), None, t.target@)),
    }
}

/// The evidence records of class `class` among the first `k`
/// transactions, in order: one for each committed transaction of that
/// class.
pub open spec fn evidence_refs(
    txs: Seq<TxSummary>,
    receipts: Seq<ReceiptSummary>,
    class: TxMethodClass,
    k: int,
) -> Seq<RefView>
    decreases k,
{
    if k <= 0 {
        Seq::empty()
    } else {
        let rest = evidence_refs(txs, receipts, class, k - 1);
        if committed(txs, receipts, k - 1) && txs[k - 1].method == class {
            rest.push(evidence_ref(txs[k - 1], k - 1, class))
        } else {
            rest
        }
    }
}

/// The evidence record of each class names its transaction and takes its
/// identifier from the arguments: a bridge proof's message id is text
/// argument 2, else text argument 0, else the transaction hash; a
/// governance payload's proposal id is text argument 0, else the
/// transaction hash; oracle evidence names asset argument 0, else the
/// transaction's target.
pub proof fn evidence_record_law(t: TxSummary, i: int)
    ensures
        evidence_ref(t, i, TxMethodClass::BridgeMessage) matches RefView::BridgeProof(j, m) && j == i
            && (2 < t.args.len() && t.args[2] is Text ==> m == t.args[2]->Text_0@) && (!(2 < t.args.len()
            && t.args[2] is Text) && 0 < t.args.len() && t.args[0] is Text ==> m == t.args[0]->Text_0@)
            && (!(2 < t.args.len() && t.args[2] is Text) && !(0 < t.args.len() && t.args[0] is Text)
            ==> m == t.tx_hash@),
        evidence_ref(t, i, TxMethodClass::Governance) matches RefView::GovernancePayload(j, p) && j
            == i && (0 < t.args.len() && t.args[0] is Text ==> p == t.args[0]->Text_0@) && (!(0
            < t.args.len() && t.args[0] is Text) ==> p == t.tx_hash@),
        evidence_ref(t, i, TxMethodClass::SubmitPrice) matches RefView::OracleEvidence(j, a) && j
            == i && (0 < t.args.len() && t.args[0] is Asset ==> a == t.args[0]->Asset_0@) && (!(0
            < t.args.len() && t.args[0] is Asset) ==> a == t.target@),
{
}

/// The transaction an evidence record names.
pub open spec fn ref_transaction(r: RefView) -> int {
    match r {
        RefView::BridgeProof(i, _) => i,
        RefView::GovernancePayload(i, _) => i,
        RefView::OracleEvidence(i, _) => i,
        RefView::AspectArtifact(i, _) => i,
        RefView::SignedTransaction(i) => i,
        RefView::Receipt(i) => i,
        RefView::BlockHeader => -1,
    }
}

/// The evidence records of a class among the first `n` transactions are
/// those of exactly its committed transactions, each the record of its
/// transaction, in the order of the transactions.
pub proof fn evidence_refs_law(
    txs: Seq<TxSummary>,
    receipts: Seq<ReceiptSummary>,
    class: TxMethodClass,
    n: int,
)
    requires
        0 <= n <= txs.len(),
        class != TxMethodClass::SubmitAspectModule,
        class != TxMethodClass::Other,
    ensures
        ({
            let r = evidence_refs(txs, receipts, class, n);
            &&& forall|j: int|
                0 <= j < r.len() ==> {
                    let i = ref_transaction(#[trigger] r[j]);
                    &&& 0 <= i < n
                    &&& committed(txs, receipts, i)
                    &&& txs[i].method == class
                    &&& r[j] == evidence_ref(txs[i], i, class)
                }
            &&& forall|j: int, k: int|
                0 <= j < k < r.len() ==> ref_transaction(#[trigger] r[j]) < ref_transaction(
                    #[trigger] r[k],
                )
            &&& forall|i: int|
                0 <= i < n && #[trigger] committed(txs, receipts, i) && txs[i].method == class
                    ==> exists|j: int| 0 <= j < r.len() && ref_transaction(#[trigger] r[j]) == i
        }),
    decreases n,
{
    if n > 0 {
        evidence_refs_law(txs, receipts, class, n - 1);
        let rest = evidence_refs(txs, receipts, class, n - 1);
        let r = evidence_refs(txs, receipts, class, n);
        if committed(txs, receipts, n - 1) && txs[n - 1].method == class {
            let e = evidence_ref(txs[n - 1], n - 1, class);
            evidence_record_law(txs[n - 1], n - 1);
            assert(ref_transaction(e) == n - 1);
            assert(r == rest.push(e));
            assert forall|j: int| 0 <= j < r.len() implies {
                let i = ref_transaction(#[trigger] r[j]);
                &&& 0 <= i < n
                &&& committed(txs, receipts, i)
                &&& txs[i].method == class
                &&& r[j] == evidence_ref(txs[i], i, class)
            } by {
                if j < rest.len() {
                    assert(r[j] == rest[j]);
                }
            }
            assert forall|j: int, k: int| 0 <= j < k < r.len() implies ref_transaction(
                #[trigger] r[j],
            ) < ref_transaction(#[trigger] r[k]) by {
                assert(r[j] == rest[j]);
                if k < rest.len() {
                    assert(r[k] == rest[k]);
                }
            }
            assert forall|i: int|
                0 <= i < n && #[trigger] committed(txs, receipts, i) && txs[i].method
                    == class implies exists|j: int| 0 <= j < r.len() && ref_transaction(
                #[trigger] r[j],
            ) == i by {
                if i == n - 1 {
                    assert(ref_transaction(r[rest.len() as int]) == i);
                } else {
                    let j = choose|j: int| 0 <= j < rest.len() && ref_transaction(#[trigger] rest[j]) == i;
                    assert(r[j] == rest[j]);
                }
            }
        } else {
            assert forall|i: int|
                0 <= i < n && #[trigger] committed(txs, receipts, i) && txs[i].method
                    == class implies exists|j: int| 0 <= j < r.len() && ref_transaction(
                #[trigger] r[j],
            ) == i by {
                assert(i != n - 1);
            }
        }
    }
}

/// The aspect records among the first `k` transactions, or the index of
/// the first committed aspect transaction whose arguments have no
/// supported shape.
pub open spec fn aspect_refs(txs: Seq<TxSummary>, receipts: Seq<ReceiptSummary>, k: int) -> Result<
    Seq<RefView>,
    int,
>
    decreases k,
{
    if k <= 0 {
        Ok(Seq::empty())
    } else {
        match aspect_refs(txs, receipts, k - 1) {
            Err(i) => Err(i),
            Ok(rest) => if committed(txs, receipts, k - 1) && txs[k - 1].method
                == TxMethodClass::SubmitAspectModule {
                match aspect_shape(txs[k - 1]) {
                    Some(shape) => Ok(rest.push(RefView::AspectArtifact(k - 1, shape))),
                    None => Err(k - 1),
                }
            } else {
                Ok(rest)
            },
        }
    }
}

/// An aspect transaction's artifact is rebuilt from its source when its
/// arguments are exactly two texts, from its roots when they are exactly
/// nine texts, and in no other case.
pub proof fn aspect_shape_law(t: TxSummary)
    ensures
        aspect_shape(t) == Some(AspectShape::FromSource) <==> t.args.len() == 2 && t.args[0] is Text
            && t.args[1] is Text,
        aspect_shape(t) == Some(AspectShape::FromRoots) <==> t.args.len() == 9 && forall|k: int|
            0 <= k < 9 ==> (#[trigger] t.args[k]) is Text,
        aspect_shape(t) is None <==> !(t.args.len() == 2 && t.args[0] is Text && t.args[1] is Text)
            && !(t.args.len() == 9 && forall|k: int| 0 <= k < 9 ==> (#[trigger] t.args[k]) is Text),
{
    if t.args.len() == 2 && t.args[0] is Text && t.args[1] is Text {
        assert forall|k: int| 0 <= k < t.args.len() implies (#[trigger] t.args[k]) is Text by {
            if k == 1 {
            }
        }
    }
}

/// A committed aspect transaction at `i` of the first `n`, whose arguments
/// have no supported shape.
pub open spec fn unshaped_aspect(
    txs: Seq<TxSummary>,
    receipts: Seq<ReceiptSummary>,
    i: int,
) -> bool {
    &&& committed(txs, receipts, i)
    &&& txs[i].method == TxMethodClass::SubmitAspectModule
    &&& aspect_shape(txs[i]) is None
}

/// The aspect records of the first `n` transactions fail exactly at the
/// first committed aspect transaction without a supported shape; otherwise
/// they are one artifact per committed aspect transaction, with its shape,
/// in the order of the transactions.
pub proof fn aspect_refs_law(txs: Seq<TxSummary>, receipts: Seq<ReceiptSummary>, n: int)
    requires
        0 <= n <= txs.len(),
    ensures
        aspect_refs(txs, receipts, n) matches Err(i) ==> 0 <= i < n && unshaped_aspect(txs, receipts, i)
            && forall|j: int| 0 <= j < i ==> !#[trigger] unshaped_aspect(txs, receipts, j),
        aspect_refs(txs, receipts, n) is Ok <==> forall|j: int|
            0 <= j < n ==> !#[trigger] unshaped_aspect(txs, receipts, j),
        aspect_refs(txs, receipts, n) matches Ok(r) ==> {
            &&& forall|j: int|
                0 <= j < r.len() ==> {
                    let i = ref_transaction(#[trigger] r[j]);
                    &&& 0 <= i < n
                    &&& committed(txs, receipts, i)
                    &&& txs[i].method == TxMethodClass::SubmitAspectModule
                    &&& aspect_shape(txs[i]) matches Some(shape)
                    &&& r[j] == RefView::AspectArtifact(i, shape)
                }
            &&& forall|j: int, k: int|
                0 <= j < k < r.len() ==> ref_transaction(#[trigger] r[j]) < ref_transaction(
                    #[trigger] r[k],
                )
            &&& forall|i: int|
                0 <= i < n && #[trigger] committed(txs, receipts, i) && txs[i].method
                    == TxMethodClass::SubmitAspectModule ==> exists|j: int|
                    0 <= j < r.len() && ref_transaction(#[trigger] r[j]) == i
        },
    decreases n,
{
    if n > 0 {
        aspect_refs_law(txs, receipts, n - 1);
        let prev = aspect_refs(txs, receipts, n - 1);
        let here = committed(txs, receipts, n - 1) && txs[n - 1].method
            == TxMethodClass::SubmitAspectModule;
        if prev is Ok {
            let rest = prev->Ok_0;
            if here && aspect_shape(txs[n - 1]) is Some {
                let r = rest.push(RefView::AspectArtifact(n - 1, aspect_shape(txs[n - 1])->Some_0));
                assert(aspect_refs(txs, receipts, n) == Ok::<Seq<RefView>, int>(r));
                assert forall|j: int| 0 <= j < r.len() implies {
                    let i = ref_transaction(#[trigger] r[j]);
                    &&& 0 <= i < n
                    &&& committed(txs, receipts, i)
                    &&& txs[i].method == TxMethodClass::SubmitAspectModule
                    &&& aspect_shape(txs[i]) matches Some(shape)
                    &&& r[j] == RefView::AspectArtifact(i, shape)
                } by {
                    if j < rest.len() {
                        assert(r[j] == rest[j]);
                    }
                }
                assert forall|j: int, k: int| 0 <= j < k < r.len() implies ref_transaction(
                    #[trigger] r[j],
                ) < ref_transaction(#[trigger] r[k]) by {
                    assert(r[j] == rest[j]);
                    if k < rest.len() {
                        assert(r[k] == rest[k]);
                    }
                }
                assert forall|i: int|
                    0 <= i < n && #[trigger] committed(txs, receipts, i) && txs[i].method
                        == TxMethodClass::SubmitAspectModule implies exists|j: int|
                    0 <= j < r.len() && ref_transaction(#[trigger] r[j]) == i by {
                    if i == n - 1 {
                        assert(ref_transaction(r[rest.len() as int]) == i);
                    } else {
                        let j = choose|j: int|
                            0 <= j < rest.len() && ref_transaction(#[trigger] rest[j]) == i;
                        assert(r[j] == rest[j]);
                    }
                }
                assert forall|j: int| 0 <= j < n implies !#[trigger] unshaped_aspect(
                    txs,
                    receipts,
                    j,
                ) by {
                    if j < n - 1 {
                        assert(!unshaped_aspect(txs, receipts, j));
                    }
                }
            } else if here {
                assert(unshaped_aspect(txs, receipts, n - 1));
            } else {
                assert(!unshaped_aspect(txs, receipts, n - 1));
                assert forall|i: int|
                    0 <= i < n && #[trigger] committed(txs, receipts, i) && txs[i].method
                        == TxMethodClass::SubmitAspectModule implies exists|j: int|
                    0 <= j < rest.len() && ref_transaction(#[trigger] rest[j]) == i by {
                    assert(i != n - 1);
                }
                assert forall|j: int| 0 <= j < n implies !#[trigger] unshaped_aspect(
                    txs,
                    receipts,
                    j,
                ) by {
                    if j < n - 1 {
                        assert(!unshaped_aspect(txs, receipts, j));
                    }
                }
            }
        } else {
            let i = prev->Err_0;
            assert(unshaped_aspect(txs, receipts, i));
        }
    }
}

/// A section of `records` under `namespace`, or none when there are no
/// records.
pub open spec fn optional_section(namespace: Seq<char>, records: Seq<RefView>) -> Seq<
    (Seq<char>, Seq<RefView>),
> {
    if records.len() == 0 {
        Seq::empty()
    } else {
        seq![(namespace, records)]
    }
}

/// The sections of the payload of a block with transactions `txs` and
/// receipts `receipts`: the header; the transactions and the receipts when
/// there are any; then the aspect, bridge, governance and oracle evidence
/// of the committed transactions, each when there is any.
pub open spec fn block_sections_spec(txs: Seq<TxSummary>, receipts: Seq<ReceiptSummary>) -> Result<
    Seq<(Seq<char>, Seq<RefView>)>,
    int,
> {
    match aspect_refs(txs, receipts, txs.len() as int) {
        Err(i) => Err(i),
        Ok(aspects) => Ok(
            seq![("detta.block"@, seq![RefView::BlockHeader])] + optional_section(
                "detta.tx"@,
                Seq::new(txs.len(), |i: int| RefView::SignedTransaction(i)),
            ) + optional_section(
                "detta.receipt"@,
                Seq::new(receipts.len(), |i: int| RefView::Receipt(i)),
            ) + optional_section("detta.aspect"@, aspects) + optional_section(
                "detta.bridge"@,
                evidence_refs(txs, receipts, TxMethodClass::BridgeMessage, txs.len() as int),
            ) + optional_section(
                "detta.governance"@,
                evidence_refs(txs, receipts, TxMethodClass::Governance, txs.len() as int),
            ) + optional_section(
                "detta.oracle"@,
                evidence_refs(txs, receipts, TxMethodClass::SubmitPrice, txs.len() as int),
            ),
        ),
    }
}

/// A section's content: a namespace and its records.
pub type SectionView = (Seq<char>, Seq<RefView>);

/// `sections` holds a section `namespace` with exactly `records`.
#[verifier::opaque]
pub open spec fn has_section(
    sections: Seq<SectionView>,
    namespace: Seq<char>,
    records: Seq<RefView>,
) -> bool {
    exists|j: int| 0 <= j < sections.len() && #[trigger] sections[j] == (namespace, records)
}

/// `sections` holds no section `namespace`.
#[verifier::opaque]
pub open spec fn lacks_section(sections: Seq<SectionView>, namespace: Seq<char>) -> bool {
    forall|j: int| 0 <= j < sections.len() ==> (#[trigger] sections[j]).0 != namespace
}

/// No namespace occurs twice in `sections`, and no section is empty.
#[verifier::opaque]
pub open spec fn sections_well_formed(sections: Seq<SectionView>) -> bool {
    &&& forall|j: int, k: int|
        0 <= j < sections.len() && 0 <= k < sections.len() && j != k ==> (
        #[trigger] sections[j]).0 != (#[trigger] sections[k]).0
    &&& forall|j: int| 0 <= j < sections.len() ==> (#[trigger] sections[j]).1.len() > 0
}

proof fn lemma_section_appended(
    x: Seq<SectionView>,
    namespace: Seq<char>,
    records: Seq<RefView>,
    target: Seq<char>,
    target_records: Seq<RefView>,
)
    ensures
        has_section(x, target, target_records) || (records.len() > 0 && namespace == target
            && records == target_records) ==> has_section(
            x + optional_section(namespace, records),
            target,
            target_records,
        ),
        lacks_section(x + optional_section(namespace, records), target) <==> lacks_section(
            x,
            target,
        ) && (records.len() > 0 ==> namespace != target),
        sections_well_formed(x) && (records.len() > 0 ==> lacks_section(x, namespace))
            ==> sections_well_formed(x + optional_section(namespace, records)),
        x.len() > 0 ==> (x + optional_section(namespace, records))[0] == x[0],
{
    reveal(has_section);
    reveal(lacks_section);
    reveal(sections_well_formed);
    let y = x + optional_section(namespace, records);
    if has_section(x, target, target_records) {
        let j = choose|j: int| 0 <= j < x.len() && #[trigger] x[j] == (target, target_records);
        assert(y[j] == x[j]);
    }
    if records.len() > 0 && namespace == target && records == target_records {
        assert(y[x.len() as int] == (target, target_records));
    }
    if lacks_section(y, target) {
        assert forall|j: int| 0 <= j < x.len() implies (#[trigger] x[j]).0 != target by {
            assert(y[j] == x[j]);
        }
        if records.len() > 0 {
            assert(y[x.len() as int].0 == namespace);
        }
    }
    if lacks_section(x, target) && (records.len() > 0 ==> namespace != target) {
        assert forall|j: int| 0 <= j < y.len() implies (#[trigger] y[j]).0 != target by {
            if j < x.len() {
                assert(y[j] == x[j]);
            }
        }
    }
    if sections_well_formed(x) && (records.len() > 0 ==> lacks_section(x, namespace)) {
        assert forall|j: int, k: int|
            0 <= j < y.len() && 0 <= k < y.len() && j != k implies (#[trigger] y[j]).0 != (
            #[trigger] y[k]).0 by {
            if j < x.len() && k < x.len() {
                assert(y[j] == x[j] && y[k] == x[k]);
            } else if j < x.len() {
                assert(y[j] == x[j]);
            } else {
                assert(y[k] == x[k]);
            }
        }
        assert forall|j: int| 0 <= j < y.len() implies (#[trigger] y[j]).1.len() > 0 by {
            if j < x.len() {
                assert(y[j] == x[j]);
            }
        }
    }
    if x.len() > 0 {
        assert(y[0] == x[0]);
    }
}

/// `base` followed by the sections `names[t]` with `parts[t]` for `t`
/// below `k`, each only when it has records.
pub open spec fn fold_sections(
    base: Seq<SectionView>,
    names: Seq<Seq<char>>,
    parts: Seq<Seq<RefView>>,
    k: int,
) -> Seq<SectionView>
    decreases k,
{
    if k <= 0 {
        base
    } else {
        fold_sections(base, names, parts, k - 1) + optional_section(names[k - 1], parts[k - 1])
    }
}

proof fn lemma_fold_sections(
    base: Seq<SectionView>,
    names: Seq<Seq<char>>,
    parts: Seq<Seq<RefView>>,
    k: int,
)
    requires
        0 <= k <= names.len(),
        names.len() == parts.len(),
        base.len() > 0,
        sections_well_formed(base),
        forall|a: int, b: int|
            0 <= a < names.len() && 0 <= b < names.len() && a != b ==> #[trigger] names[a]
                != #[trigger] names[b],
        forall|t: int| 0 <= t < names.len() ==> lacks_section(base, #[trigger] names[t]),
    ensures
        sections_well_formed(fold_sections(base, names, parts, k)),
        fold_sections(base, names, parts, k)[0] == base[0],
        fold_sections(base, names, parts, k).len() > 0,
        forall|t: int|
            0 <= t < k && parts[t].len() > 0 ==> has_section(
                fold_sections(base, names, parts, k),
                #[trigger] names[t],
                parts[t],
            ),
        forall|t: int|
            0 <= t < names.len() && (t >= k || parts[t].len() == 0) ==> lacks_section(
                fold_sections(base, names, parts, k),
                #[trigger] names[t],
            ),
    decreases k,
{
    if k > 0 {
        lemma_fold_sections(base, names, parts, k - 1);
        let prev = fold_sections(base, names, parts, k - 1);
        lemma_section_appended(prev, names[k - 1], parts[k - 1], names[0], parts[0]);
        assert forall|t: int|
            0 <= t < k && parts[t].len() > 0 implies has_section(
            fold_sections(base, names, parts, k),
            #[trigger] names[t],
            parts[t],
        ) by {
            lemma_section_appended(prev, names[k - 1], parts[k - 1], names[t], parts[t]);
        }
        assert forall|t: int|
            0 <= t < names.len() && (t >= k || parts[t].len() == 0) implies lacks_section(
            fold_sections(base, names, parts, k),
            #[trigger] names[t],
        ) by {
            lemma_section_appended(prev, names[k - 1], parts[k - 1], names[t], parts[t]);
        }
        lemma_section_appended(prev, names[k - 1], parts[k - 1], names[k - 1], parts[k - 1]);
    }
}

/// Some committed transaction among the first `n` is of class `class`.
pub open spec fn some_committed_of(
    txs: Seq<TxSummary>,
    receipts: Seq<ReceiptSummary>,
    class: TxMethodClass,
    n: int,
) -> bool {
    exists|i: int| 0 <= i < n && #[trigger] committed(txs, receipts, i) && txs[i].method == class
}

proof fn lemma_evidence_present(
    txs: Seq<TxSummary>,
    receipts: Seq<ReceiptSummary>,
    class: TxMethodClass,
)
    requires
        class != TxMethodClass::SubmitAspectModule,
        class != TxMethodClass::Other,
    ensures
        evidence_refs(txs, receipts, class, txs.len() as int).len() > 0 <==> some_committed_of(
            txs,
            receipts,
            class,
            txs.len() as int,
        ),
{
    evidence_refs_law(txs, receipts, class, txs.len() as int);
    let r = evidence_refs(txs, receipts, class, txs.len() as int);
    if r.len() > 0 {
        let i = ref_transaction(r[0]);
        assert(committed(txs, receipts, i) && txs[i].method == class);
    }
}

proof fn lemma_aspects_present(txs: Seq<TxSummary>, receipts: Seq<ReceiptSummary>)
    requires
        aspect_refs(txs, receipts, txs.len() as int) is Ok,
    ensures
        aspect_refs(txs, receipts, txs.len() as int)->Ok_0.len() > 0 <==> some_committed_of(
            txs,
            receipts,
            TxMethodClass::SubmitAspectModule,
            txs.len() as int,
        ),
{
    aspect_refs_law(txs, receipts, txs.len() as int);
    let r = aspect_refs(txs, receipts, txs.len() as int)->Ok_0;
    if r.len() > 0 {
        let i = ref_transaction(r[0]);
        assert(committed(txs, receipts, i) && txs[i].method == TxMethodClass::SubmitAspectModule);
    }
}

/// The payload layout of a block, over all transactions and receipts: it
/// fails exactly when a committed aspect transaction has no supported
/// shape. Otherwise it starts with the header section, no namespace occurs
/// twice and no section is empty; the transaction section lists every
/// transaction and the receipt section every receipt, each present exactly
/// when there is one; the aspect, bridge, governance and oracle sections
/// are present exactly when a committed transaction of their class is, and
/// hold the records of their class.
pub proof fn block_sections_law(txs: Seq<TxSummary>, receipts: Seq<ReceiptSummary>)
    ensures
        block_sections_spec(txs, receipts) is Err <==> exists|i: int|
            0 <= i < txs.len() && #[trigger] unshaped_aspect(txs, receipts, i),
        block_sections_spec(txs, receipts) matches Ok(sections) ==> {
            let n = txs.len() as int;
            &&& sections.len() > 0
            &&& sections[0] == ("detta.block"@, seq![RefView::BlockHeader])
            &&& sections_well_formed(sections)
            &&& n > 0 ==> has_section(
                sections,
                "detta.tx"@,
                Seq::new(txs.len(), |i: int| RefView::SignedTransaction(i)),
            )
            &&& n == 0 ==> lacks_section(sections, "detta.tx"@)
            &&& receipts.len() > 0 ==> has_section(
                sections,
                "detta.receipt"@,
                Seq::new(receipts.len(), |i: int| RefView::Receipt(i)),
            )
            &&& receipts.len() == 0 ==> lacks_section(sections, "detta.receipt"@)
            &&& some_committed_of(txs, receipts, TxMethodClass::SubmitAspectModule, n)
                ==> has_section(sections, "detta.aspect"@, aspect_refs(txs, receipts, n)->Ok_0)
            &&& !some_committed_of(txs, receipts, TxMethodClass::SubmitAspectModule, n)
                ==> lacks_section(sections, "detta.aspect"@)
            &&& some_committed_of(txs, receipts, TxMethodClass::BridgeMessage, n) ==> has_section(
                sections,
                "detta.bridge"@,
                evidence_refs(txs, receipts, TxMethodClass::BridgeMessage, n),
            )
            &&& !some_committed_of(txs, receipts, TxMethodClass::BridgeMessage, n)
                ==> lacks_section(sections, "detta.bridge"@)
            &&& some_committed_of(txs, receipts, TxMethodClass::Governance, n) ==> has_section(
                sections,
                "detta.governance"@,
                evidence_refs(txs, receipts, TxMethodClass::Governance, n),
            )
            &&& !some_committed_of(txs, receipts, TxMethodClass::Governance, n) ==> lacks_section(
                sections,
                "detta.governance"@,
            )
            &&& some_committed_of(txs, receipts, TxMethodClass::SubmitPrice, n) ==> has_section(
                sections,
                "detta.oracle"@,
                evidence_refs(txs, receipts, TxMethodClass::SubmitPrice, n),
            )
            &&& !some_committed_of(txs, receipts, TxMethodClass::SubmitPrice, n) ==> lacks_section(
                sections,
                "detta.oracle"@,
            )
        },
{
    let n = txs.len() as int;
    aspect_refs_law(txs, receipts, n);
    if aspect_refs(txs, receipts, n) is Err {
        let i = aspect_refs(txs, receipts, n)->Err_0;
        assert(unshaped_aspect(txs, receipts, i));
    } else {
        lemma_aspects_present(txs, receipts);
        lemma_evidence_present(txs, receipts, TxMethodClass::BridgeMessage);
        lemma_evidence_present(txs, receipts, TxMethodClass::Governance);
        lemma_evidence_present(txs, receipts, TxMethodClass::SubmitPrice);
        reveal_strlit("detta.block");
        reveal_strlit("detta.tx");
        reveal_strlit("detta.receipt");
        reveal_strlit("detta.aspect");
        reveal_strlit("detta.bridge");
        reveal_strlit("detta.governance");
        reveal_strlit("detta.oracle");
        let names = seq![
            "detta.tx"@,
            "detta.receipt"@,
            "detta.aspect"@,
            "detta.bridge"@,
            "detta.governance"@,
            "detta.oracle"@,
        ];
        let parts = seq![
            Seq::new(txs.len(), |i: int| RefView::SignedTransaction(i)),
            Seq::new(receipts.len(), |i: int| RefView::Receipt(i)),
            aspect_refs(txs, receipts, n)->Ok_0,
            evidence_refs(txs, receipts, TxMethodClass::BridgeMessage, n),
            evidence_refs(txs, receipts, TxMethodClass::Governance, n),
            evidence_refs(txs, receipts, TxMethodClass::SubmitPrice, n),
        ];
        assert(names[2][6] != names[3][6] && names[2][6] != names[5][6] && names[3][6]
            != names[5][6]);
        assert forall|a: int, b: int|
            0 <= a < names.len() && 0 <= b < names.len() && a != b implies #[trigger] names[a]
            != #[trigger] names[b] by {
            if (a == 2 || a == 3 || a == 5) && (b == 2 || b == 3 || b == 5) {
                assert(names[a][6] != names[b][6]);
            } else {
                assert(names[a].len() != names[b].len());
            }
        }
        let base: Seq<SectionView> = seq![("detta.block"@, seq![RefView::BlockHeader])];
        assert(sections_well_formed(base)) by {
            reveal(sections_well_formed);
        }
        assert forall|t: int| 0 <= t < names.len() implies lacks_section(base, #[trigger] names[t]) by {
            reveal(lacks_section);
            assert(names[t].len() != "detta.block"@.len());
        }
        lemma_fold_sections(base, names, parts, 6);
        reveal_with_fuel(fold_sections, 7);
        assert(block_sections_spec(txs, receipts) == Ok::<Seq<SectionView>, int>(
            fold_sections(base, names, parts, 6),
        ));
        assert(names[0] == "detta.tx"@ && parts[0] == Seq::new(
            txs.len(),
            |i: int| RefView::SignedTransaction(i),
        ));
        assert(names[1] == "detta.receipt"@);
        assert(names[2] == "detta.aspect"@);
        assert(names[3] == "detta.bridge"@);
        assert(names[4] == "detta.governance"@);
        assert(names[5] == "detta.oracle"@);
    }
}

fn committed_at(txs: &Vec<TxSummary>, receipts: &Vec<ReceiptSummary>, i: usize) -> (c: bool)
    requires
        i < txs@.len(),
    ensures
        c == committed(txs@, receipts@, i as int),
{
    i < receipts.len() && receipts[i].committed && str_eq(
        receipts[i].tx_hash.as_str(),
        txs[i].tx_hash.as_str(),
    )
}

fn text_at(t: &TxSummary, i: usize) -> (s: Option<String>)
    ensures
        match s {
            Some(x) => text_arg(*t, i as int) == Some(x@),
            None => text_arg(*t, i as int) is None,
        },
{
    if i < t.args.len() {
        match &t.args[i] {
            ArgSummary::Text(s) => Some(owned(s.as_str())),
            _ => None,
        }
    } else {
        None
    }
}

fn asset_at(t: &TxSummary, i: usize) -> (s: Option<String>)
    ensures
        match s {
            Some(x) => asset_arg(*t, i as int) == Some(x@),
            None => asset_arg(*t, i as int) is None,
        },
{
    if i < t.args.len() {
        match &t.args[i] {
            ArgSummary::Asset(s) => Some(owned(s.as_str())),
            _ => None,
        }
    } else {
        None
    }
}

fn shape_of(t: &TxSummary) -> (shape: Option<AspectShape>)
    ensures
        shape == aspect_shape(*t),
{
    let mut all_text = true;
    let mut k: usize = 0;
    while k < t.args.len()
        invariant
            k <= t.args@.len(),
            all_text == forall|j: int| 0 <= j < k ==> (#[trigger] t.args@[j]) is Text,
        decreases t.args@.len() - k,
    {
        match &t.args[k] {
            ArgSummary::Text(_) => {},
            _ => {
                all_text = false;
            },
        }
        k = k + 1;
    }
    if all_text && t.args.len() == 2 {
        Some(AspectShape::FromSource)
    } else if all_text && t.args.len() == 9 {
        Some(AspectShape::FromRoots)
    } else {
        None
    }
}

fn evidence_record(t: &TxSummary, i: usize, class: TxMethodClass) -> (r: DaRecordRef)
    ensures
        r@ == evidence_ref(*t, i as int, class),
{
    match class {
        TxMethodClass::BridgeMessage => {
            let message_id = match text_at(t, 2) {
                Some(x) => x,
                None => match text_at(t, 0) {
                    Some(y) => y,
                    None => owned(t.tx_hash.as_str()),
                },
            };
            DaRecordRef::BridgeProof { transaction: i, message_id }
        },
        TxMethodClass::Governance => {
            let proposal_id = match text_at(t, 0) {
                Some(x) => x,
                None => owned(t.tx_hash.as_str()),
            };
            DaRecordRef::GovernancePayload { transaction: i, proposal_id }
        },
        _ => {
            let asset = match asset_at(t, 0) {
                Some(x) => x,
                None => owned(t.target.as_str()),
            };
            DaRecordRef::OracleEvidence { transaction: i, asset }
        },
    }
}

fn evidence_records(txs: &Vec<TxSummary>, receipts: &Vec<ReceiptSummary>, class: TxMethodClass) -> (records:
    Vec<DaRecordRef>)
    requires
        class != TxMethodClass::SubmitAspectModule,
        class != TxMethodClass::Other,
    ensures
        records@.map_values(|r: DaRecordRef| r@) == evidence_refs(
            txs@,
            receipts@,
            class,
            txs@.len() as int,
        ),
{
    let mut records: Vec<DaRecordRef> = Vec::new();
    let mut i: usize = 0;
    assert(records@.map_values(|r: DaRecordRef| r@) =~= Seq::<RefView>::empty());
    while i < txs.len()
        invariant
            i <= txs@.len(),
            records@.map_values(|r: DaRecordRef| r@) == evidence_refs(
                txs@,
                receipts@,
                class,
                i as int,
            ),
        decreases txs@.len() - i,
    {
        if committed_at(txs, receipts, i) && txs[i].method == class {
            let ghost before = records@;
            records.push(evidence_record(&txs[i], i, class));
            assert(records@.map_values(|r: DaRecordRef| r@) =~= before.map_values(
                |r: DaRecordRef| r@,
            ).push(evidence_ref(txs@[i as int], i as int, class)));
        }
        i = i + 1;
    }
    records
}

fn push_section(sections: &mut Vec<DaSectionPlan>, namespace: &str, records: Vec<DaRecordRef>)
    ensures
        sections_view(final(sections)@) == sections_view(old(sections)@) + optional_section(
            namespace@,
            records@.map_values(|r: DaRecordRef| r@),
        ),
{
    let ghost before = sections@;
    if records.len() > 0 {
        sections.push(DaSectionPlan { namespace: owned(namespace), records });
        assert(sections_view(sections@) =~= sections_view(before) + optional_section(
            namespace@,
            sections@.last().records@.map_values(|r: DaRecordRef| r@),
        ));
    } else {
        assert(sections_view(sections@) =~= sections_view(before) + optional_section(
            namespace@,
            records@.map_values(|r: DaRecordRef| r@),
        ));
    }
}

/// The sections of the data-availability payload of a block with
/// transactions `txs` and receipts `receipts`. Fails on the first committed
/// aspect-module transaction whose arguments are neither a module id and
/// its source nor a module id, taxonomy version and seven roots.
pub fn block_da_sections(txs: &Vec<TxSummary>, receipts: &Vec<ReceiptSummary>) -> (result: Result<
    Vec<DaSectionPlan>,
    NodeError,
>)
    ensures
        match block_sections_spec(txs@, receipts@) {
            Ok(s) => result matches Ok(sections) && sections_view(sections@) == s,
            Err(_) => result matches Err(NodeError::DataAvailability(DaError::InvalidPayload(m)))
                && m@
                == "committed SubmitAspectModule transaction has unsupported DA argument shape"@,
        },
{
    let mut aspects: Vec<DaRecordRef> = Vec::new();
    let mut i: usize = 0;
    assert(aspects@.map_values(|r: DaRecordRef| r@) =~= Seq::<RefView>::empty());
    while i < txs.len()
        invariant
            i <= txs@.len(),
            aspect_refs(txs@, receipts@, i as int) == Ok::<Seq<RefView>, int>(
                aspects@.map_values(|r: DaRecordRef| r@),
            ),
        decreases txs@.len() - i,
    {
        if committed_at(txs, receipts, i) && txs[i].method == TxMethodClass::SubmitAspectModule {
            match shape_of(&txs[i]) {
                Some(shape) => {
                    let ghost before = aspects@;
                    aspects.push(DaRecordRef::AspectArtifact { transaction: i, shape });
                    assert(aspects@.map_values(|r: DaRecordRef| r@) =~= before.map_values(
                        |r: DaRecordRef| r@,
                    ).push(RefView::AspectArtifact(i as int, shape)));
                },
                None => {
                    proof {
                        lemma_aspect_error_persists(txs@, receipts@, i as int + 1);
                    }
                    return Err(
                        NodeError::DataAvailability(
                            DaError::InvalidPayload(
                                owned(
                                    "committed SubmitAspectModule transaction has unsupported DA argument shape",
                                ),
                            ),
                        ),
                    );
                },
            }
        }
        i = i + 1;
    }
    let mut sections: Vec<DaSectionPlan> = Vec::new();
    let mut header: Vec<DaRecordRef> = Vec::new();
    header.push(DaRecordRef::BlockHeader);
    assert(header@.map_values(|r: DaRecordRef| r@) =~= seq![RefView::BlockHeader]);
    let first = DaSectionPlan { namespace: owned("detta.block"), records: header };
    assert(section_view(first) == ("detta.block"@, seq![RefView::BlockHeader]));
    sections.push(first);
    assert(sections_view(sections@) =~= seq![("detta.block"@, seq![RefView::BlockHeader])]);
    let mut tx_records: Vec<DaRecordRef> = Vec::new();
    let mut k: usize = 0;
    while k < txs.len()
        invariant
            k <= txs@.len(),
            tx_records@.len() == k,
            forall|j: int| 0 <= j < k ==> (#[trigger] tx_records@[j])@ == RefView::SignedTransaction(j),
        decreases txs@.len() - k,
    {
        tx_records.push(DaRecordRef::SignedTransaction(k));
        k = k + 1;
    }
    assert(tx_records@.map_values(|r: DaRecordRef| r@) =~= Seq::new(
        txs@.len(),
        |i: int| RefView::SignedTransaction(i),
    ));
    push_section(&mut sections, "detta.tx", tx_records);
    let mut receipt_records: Vec<DaRecordRef> = Vec::new();
    let mut k: usize = 0;
    while k < receipts.len()
        invariant
            k <= receipts@.len(),
            receipt_records@.len() == k,
            forall|j: int| 0 <= j < k ==> (#[trigger] receipt_records@[j])@ == RefView::Receipt(j),
        decreases receipts@.len() - k,
    {
        receipt_records.push(DaRecordRef::Receipt(k));
        k = k + 1;
    }
    assert(receipt_records@.map_values(|r: DaRecordRef| r@) =~= Seq::new(
        receipts@.len(),
        |i: int| RefView::Receipt(i),
    ));
    push_section(&mut sections, "detta.receipt", receipt_records);
    push_section(&mut sections, "detta.aspect", aspects);
    push_section(
        &mut sections,
        "detta.bridge",
        evidence_records(txs, receipts, TxMethodClass::BridgeMessage),
    );
    push_section(
        &mut sections,
        "detta.governance",
        evidence_records(txs, receipts, TxMethodClass::Governance),
    );
    push_section(&mut sections, "detta.oracle", evidence_records(txs, receipts, TxMethodClass::SubmitPrice));
    Ok(sections)
}

proof fn lemma_aspect_error_persists(txs: Seq<TxSummary>, receipts: Seq<ReceiptSummary>, k: int)
    requires
        0 <= k <= txs.len(),
        aspect_refs(txs, receipts, k) is Err,
    ensures
        aspect_refs(txs, receipts, txs.len() as int) == aspect_refs(txs, receipts, k),
    decreases txs.len() - k,
{
    if k < txs.len() {
        lemma_aspect_error_persists(txs, receipts, k + 1);
    }
}


/// What reading a payload back needs of one record: its kind, and for
/// snapshot records the snapshot root (and chunk index) it names.
#[derive(Debug)]
pub enum PayloadRecordKind {
    BlockHeader,
    SignedTransaction,
    Receipt,
    SnapshotChunkManifest { snapshot_root: String },
    SnapshotChunk { chunk_index: u32, snapshot_root: String },
    Other,
}

/// A namespace section of a payload being read back.
#[derive(Debug)]
pub struct PayloadSectionSummary {
    pub namespace: String,
    pub records: Vec<PayloadRecordKind>,
}

/// Where the parts of a block stand in its payload: each by section and
/// record position.
#[derive(Debug)]
pub struct BlockRecordPlan {
    pub header: (usize, usize),
    pub transactions: Vec<(usize, usize)>,
    pub receipts: Vec<(usize, usize)>,
}

/// The parts of a block found so far while reading a payload.
pub struct BlockScan {
    pub header: Option<(int, int)>,
    pub transactions: Seq<(int, int)>,
    pub receipts: Seq<(int, int)>,
}

/// Reading record `r` of section `s`, of kind `kind` in namespace `ns`.
pub open spec fn block_step(
    st: Result<BlockScan, Seq<char>>,
    ns: Seq<char>,
    kind: PayloadRecordKind,
    s: int,
    r: int,
) -> Result<BlockScan, Seq<char>> {
    match st {
        Err(e) => Err(e),
        Ok(b) => if ns == "detta.block"@ {
            if !(kind is BlockHeader) {
                Err("DA block namespace contains a non-header record"@)
            } else if b.header is Some {
                Err("DA block payload contains multiple block headers"@)
            } else {
                Ok(BlockScan { header: Some((s, r)), ..b })
            }
        } else if ns == "detta.tx"@ {
            if !(kind is SignedTransaction) {
                Err("DA transaction namespace contains a non-transaction record"@)
            } else {
                Ok(BlockScan { transactions: b.transactions.push((s, r)), ..b })
            }
        } else if ns == "detta.receipt"@ {
            if !(kind is Receipt) {
                Err("DA receipt namespace contains a non-receipt record"@)
            } else {
                Ok(BlockScan { receipts: b.receipts.push((s, r)), ..b })
            }
        } else {
            Ok(b)
        },
    }
}

/// Reading the first `n` records of section `s`.
pub open spec fn block_scan_records(
    st: Result<BlockScan, Seq<char>>,
    section: PayloadSectionSummary,
    s: int,
    n: int,
) -> Result<BlockScan, Seq<char>>
    decreases n,
{
    if n <= 0 {
        st
    } else {
        block_step(
            block_scan_records(st, section, s, n - 1),
            section.namespace@,
            section.records@[n - 1],
            s,
            n - 1,
        )
    }
}

/// Reading the first `n` sections.
pub open spec fn block_scan(sections: Seq<PayloadSectionSummary>, n: int) -> Result<BlockScan, Seq<char>>
    decreases n,
{
    if n <= 0 {
        Ok(BlockScan { header: None, transactions: Seq::empty(), receipts: Seq::empty() })
    } else {
        block_scan_records(
            block_scan(sections, n - 1),
            sections[n - 1],
            n - 1,
            sections[n - 1].records@.len() as int,
        )
    }
}

/// Where the parts of a block stand in a payload with sections `sections`,
/// or why the payload holds no block.
pub open spec fn block_plan_spec(sections: Seq<PayloadSectionSummary>) -> Result<BlockScan, Seq<char>> {
    match block_scan(sections, sections.len() as int) {
        Err(e) => Err(e),
        Ok(b) => if b.header is None {
            Err("DA block payload has no block header"@)
        } else {
            Ok(b)
        },
    }
}

/// The position pairs as integers.
pub open spec fn positions_view(v: Seq<(usize, usize)>) -> Seq<(int, int)> {
    v.map_values(|p: (usize, usize)| (p.0 as int, p.1 as int))
}

/// Finds the header, transactions and receipts of a block in the sections
/// of its payload: exactly one header in `detta.block`, only transactions
/// in `detta.tx` and only receipts in `detta.receipt`; other namespaces are
/// skipped.
pub fn block_payload_plan(sections: &Vec<PayloadSectionSummary>) -> (result: Result<
    BlockRecordPlan,
    NodeError,
>)
    ensures
        match block_plan_spec(sections@) {
            Ok(b) => result matches Ok(plan) && b.header == Some(
                (plan.header.0 as int, plan.header.1 as int),
            ) && positions_view(plan.transactions@) == b.transactions && positions_view(
                plan.receipts@,
            ) == b.receipts,
            Err(m) => result matches Err(NodeError::DataAvailability(DaError::InvalidPayload(e)))
                && e@ == m,
        },
{
    let mut header: Option<(usize, usize)> = None;
    let mut transactions: Vec<(usize, usize)> = Vec::new();
    let mut receipts: Vec<(usize, usize)> = Vec::new();
    let mut s: usize = 0;
    assert(positions_view(transactions@) =~= Seq::<(int, int)>::empty());
    assert(positions_view(receipts@) =~= Seq::<(int, int)>::empty());
    while s < sections.len()
        invariant
            s <= sections@.len(),
            block_scan(sections@, s as int) == Ok::<BlockScan, Seq<char>>(
                BlockScan {
                    header: match header {
                        Some(h) => Some((h.0 as int, h.1 as int)),
                        None => None,
                    },
                    transactions: positions_view(transactions@),
                    receipts: positions_view(receipts@),
                },
            ),
        decreases sections@.len() - s,
    {
        let section = &sections[s];
        let is_block = str_eq(section.namespace.as_str(), "detta.block");
        let is_tx = str_eq(section.namespace.as_str(), "detta.tx");
        let is_receipt = str_eq(section.namespace.as_str(), "detta.receipt");
        let mut r: usize = 0;
        while r < section.records.len()
            invariant
                s < sections@.len(),
                section == &sections@[s as int],
                is_block == (section.namespace@ == "detta.block"@),
                is_tx == (section.namespace@ == "detta.tx"@),
                is_receipt == (section.namespace@ == "detta.receipt"@),
                r <= section.records@.len(),
                block_scan_records(block_scan(sections@, s as int), *section, s as int, r as int)
                    == Ok::<BlockScan, Seq<char>>(
                    BlockScan {
                        header: match header {
                            Some(h) => Some((h.0 as int, h.1 as int)),
                            None => None,
                        },
                        transactions: positions_view(transactions@),
                        receipts: positions_view(receipts@),
                    },
                ),
            decreases section.records@.len() - r,
        {
            let ghost before = block_scan_records(
                block_scan(sections@, s as int),
                *section,
                s as int,
                r as int,
            );
            let kind = &section.records[r];
            if is_block {
                match kind {
                    PayloadRecordKind::BlockHeader => {},
                    _ => {
                        proof {
                            lemma_block_error_persists(sections@, s as int, r as int + 1);
                        }
                        return Err(
                            NodeError::DataAvailability(
                                DaError::InvalidPayload(
                                    owned("DA block namespace contains a non-header record"),
                                ),
                            ),
                        );
                    },
                }
                if header.is_some() {
                    proof {
                        lemma_block_error_persists(sections@, s as int, r as int + 1);
                    }
                    return Err(
                        NodeError::DataAvailability(
                            DaError::InvalidPayload(
                                owned("DA block payload contains multiple block headers"),
                            ),
                        ),
                    );
                }
                header = Some((s, r));
            } else if is_tx {
                match kind {
                    PayloadRecordKind::SignedTransaction => {},
                    _ => {
                        proof {
                            lemma_block_error_persists(sections@, s as int, r as int + 1);
                        }
                        return Err(
                            NodeError::DataAvailability(
                                DaError::InvalidPayload(
                                    owned(
                                        "DA transaction namespace contains a non-transaction record",
                                    ),
                                ),
                            ),
                        );
                    },
                }
                let ghost prev = transactions@;
                transactions.push((s, r));
                assert(positions_view(transactions@) =~= positions_view(prev).push(
                    (s as int, r as int),
                ));
            } else if is_receipt {
                match kind {
                    PayloadRecordKind::Receipt => {},
                    _ => {
                        proof {
                            lemma_block_error_persists(sections@, s as int, r as int + 1);
                        }
                        return Err(
                            NodeError::DataAvailability(
                                DaError::InvalidPayload(
                                    owned("DA receipt namespace contains a non-receipt record"),
                                ),
                            ),
                        );
                    },
                }
                let ghost prev = receipts@;
                receipts.push((s, r));
                assert(positions_view(receipts@) =~= positions_view(prev).push(
                    (s as int, r as int),
                ));
            }
            r = r + 1;
        }
        s = s + 1;
    }
    match header {
        Some(h) => Ok(BlockRecordPlan { header: h, transactions, receipts }),
        None => Err(
            NodeError::DataAvailability(
                DaError::InvalidPayload(owned("DA block payload has no block header")),
            ),
        ),
    }
}

proof fn lemma_block_records_error_persists(
    st: Result<BlockScan, Seq<char>>,
    section: PayloadSectionSummary,
    s: int,
    n: int,
    m: int,
)
    requires
        0 <= n <= m,
        block_scan_records(st, section, s, n) is Err,
    ensures
        block_scan_records(st, section, s, m) == block_scan_records(st, section, s, n),
    decreases m - n,
{
    if n < m {
        lemma_block_records_error_persists(st, section, s, n, m - 1);
    }
}

proof fn lemma_block_records_of_error(
    st: Result<BlockScan, Seq<char>>,
    section: PayloadSectionSummary,
    s: int,
    n: int,
)
    requires
        st is Err,
        0 <= n,
    ensures
        block_scan_records(st, section, s, n) == st,
    decreases n,
{
    if n > 0 {
        lemma_block_records_of_error(st, section, s, n - 1);
    }
}

proof fn lemma_block_sections_error_persists(sections: Seq<PayloadSectionSummary>, n: int, m: int)
    requires
        0 <= n <= m <= sections.len(),
        block_scan(sections, n) is Err,
    ensures
        block_scan(sections, m) == block_scan(sections, n),
    decreases m - n,
{
    if n < m {
        lemma_block_sections_error_persists(sections, n, m - 1);
        lemma_block_records_of_error(
            block_scan(sections, m - 1),
            sections[m - 1],
            m - 1,
            sections[m - 1].records@.len() as int,
        );
    }
}

/// An error at record `r` of section `s` is the error of the whole scan.
proof fn lemma_block_error_persists(sections: Seq<PayloadSectionSummary>, s: int, r: int)
    requires
        0 <= s < sections.len(),
        0 < r <= sections[s].records@.len(),
        block_scan_records(block_scan(sections, s), sections[s], s, r) is Err,
    ensures
        block_scan(sections, sections.len() as int) == block_scan_records(
            block_scan(sections, s),
            sections[s],
            s,
            r,
        ),
{
    lemma_block_records_error_persists(
        block_scan(sections, s),
        sections[s],
        s,
        r,
        sections[s].records@.len() as int,
    );
    lemma_block_sections_error_persists(sections, s + 1, sections.len() as int);
}

/// Checks that a payload's chain id, height and previous block hash are
/// those of the block header it carries.
pub fn check_block_payload_metadata(
    payload_chain_id: &str,
    payload_height: u64,
    payload_previous_block_hash: &str,
    header_chain_id: &str,
    header_height: u64,
    header_previous_block_hash: &str,
) -> (result: Result<(), NodeError>)
    ensures
        (payload_chain_id@ == header_chain_id@ && payload_height == header_height
            && payload_previous_block_hash@ == header_previous_block_hash@) ==> result is Ok,
        !(payload_chain_id@ == header_chain_id@ && payload_height == header_height
            && payload_previous_block_hash@ == header_previous_block_hash@) ==> (result matches Err(
            NodeError::DataAvailability(DaError::InvalidPayload(m)),
        ) && m@ == "DA block payload metadata does not match block header"@),
{
    if !str_eq(payload_chain_id, header_chain_id) || payload_height != header_height || !str_eq(
        payload_previous_block_hash,
        header_previous_block_hash,
    ) {
        return Err(
            NodeError::DataAvailability(
                DaError::InvalidPayload(
                    owned("DA block payload metadata does not match block header"),
                ),
            ),
        );
    }
    Ok(())
}


/// Where the parts of a snapshot stand in its payload.
#[derive(Debug)]
pub struct SnapshotRecordPlan {
    pub manifest: (usize, usize),
    pub chunks: Vec<(usize, usize)>,
}

/// The parts of a snapshot found so far while reading a payload: the
/// manifest with its root, the chunks, and each chunk's index and root.
pub struct SnapshotScan {
    pub manifest: Option<(int, int, Seq<char>)>,
    pub chunks: Seq<(int, int)>,
    pub chunk_roots: Seq<(u32, Seq<char>)>,
}

/// Reading record `r` of section `s`, of kind `kind` in namespace `ns`.
pub open spec fn snapshot_step(
    st: Result<SnapshotScan, Seq<char>>,
    ns: Seq<char>,
    kind: PayloadRecordKind,
    s: int,
    r: int,
) -> Result<SnapshotScan, Seq<char>> {
    match st {
        Err(e) => Err(e),
        Ok(b) => if ns != "detta.snapshot"@ {
            Ok(b)
        } else {
            match kind {
                PayloadRecordKind::SnapshotChunkManifest { snapshot_root } => if b.manifest is Some {
                    Err("DA snapshot payload contains multiple manifests"@)
                } else {
                    Ok(SnapshotScan { manifest: Some((s, r, snapshot_root@)), ..b })
                },
                PayloadRecordKind::SnapshotChunk { chunk_index, snapshot_root } => Ok(
                    SnapshotScan {
                        chunks: b.chunks.push((s, r)),
                        chunk_roots: b.chunk_roots.push((chunk_index, snapshot_root@)),
                        ..b
                    },
                ),
                _ => Err("DA snapshot namespace contains a non-snapshot record"@),
            }
        },
    }
}

/// Reading the first `n` records of section `s`.
pub open spec fn snapshot_scan_records(
    st: Result<SnapshotScan, Seq<char>>,
    section: PayloadSectionSummary,
    s: int,
    n: int,
) -> Result<SnapshotScan, Seq<char>>
    decreases n,
{
    if n <= 0 {
        st
    } else {
        snapshot_step(
            snapshot_scan_records(st, section, s, n - 1),
            section.namespace@,
            section.records@[n - 1],
            s,
            n - 1,
        )
    }
}

/// Reading the first `n` sections.
pub open spec fn snapshot_scan(sections: Seq<PayloadSectionSummary>, n: int) -> Result<
    SnapshotScan,
    Seq<char>,
>
    decreases n,
{
    if n <= 0 {
        Ok(SnapshotScan { manifest: None, chunks: Seq::empty(), chunk_roots: Seq::empty() })
    } else {
        snapshot_scan_records(
            snapshot_scan(sections, n - 1),
            sections[n - 1],
            n - 1,
            sections[n - 1].records@.len() as int,
        )
    }
}

/// The root that the last chunk record of chunk `i` names differs from
/// `root`.
pub open spec fn chunk_root_mismatch(roots: Seq<(u32, Seq<char>)>, root: Seq<char>, i: u32) -> bool {
    exists|j: int|
        0 <= j < roots.len() && (#[trigger] roots[j]).0 == i && roots[j].1 != root && forall|k: int|
            j < k < roots.len() ==> (#[trigger] roots[k]).0 != i
}

/// Chunk `i` is the chunk of lowest index whose last record names a root
/// other than `root`.
pub open spec fn first_chunk_root_mismatch(roots: Seq<(u32, Seq<char>)>, root: Seq<char>, i: u32) -> bool {
    chunk_root_mismatch(roots, root, i) && forall|j: u32|
        chunk_root_mismatch(roots, root, j) ==> i <= j
}

/// Finds the manifest and the chunks of a snapshot in the sections of its
/// payload: exactly one manifest and only snapshot records in
/// `detta.snapshot` (other namespaces are skipped), and each chunk naming
/// the manifest's snapshot root (for a chunk given twice, the later
/// record counts; the chunk of lowest index that fails is reported).
pub fn snapshot_payload_plan(sections: &Vec<PayloadSectionSummary>) -> (result: Result<
    SnapshotRecordPlan,
    NodeError,
>)
    ensures
        match snapshot_scan(sections@, sections@.len() as int) {
            Err(m) => result matches Err(NodeError::DataAvailability(DaError::InvalidPayload(e)))
                && e@ == m,
            Ok(b) => match b.manifest {
                None => result matches Err(NodeError::DataAvailability(DaError::InvalidPayload(e)))
                    && e@ == "DA snapshot payload has no manifest"@,
                Some(m) => if exists|i: u32| chunk_root_mismatch(b.chunk_roots, m.2, i) {
                    result matches Err(NodeError::DataAvailability(DaError::InvalidPayload(e)))
                        && exists|i: u32|
                        #[trigger] first_chunk_root_mismatch(b.chunk_roots, m.2, i) && e@
                            == "DA snapshot chunk "@ + decimal_spec(i as nat)
                            + " root does not match manifest root"@
                } else {
                    result matches Ok(plan) && plan.manifest.0 == m.0 && plan.manifest.1 == m.1
                        && positions_view(plan.chunks@) == b.chunks
                },
            },
        },
{
    let mut manifest: Option<(usize, usize, String)> = None;
    let mut chunks: Vec<(usize, usize)> = Vec::new();
    let mut roots: Vec<(u32, String)> = Vec::new();
    let mut s: usize = 0;
    assert(positions_view(chunks@) =~= Seq::<(int, int)>::empty());
    assert(roots@.map_values(|p: (u32, String)| (p.0, p.1@)) =~= Seq::<(u32, Seq<char>)>::empty());
    while s < sections.len()
        invariant
            s <= sections@.len(),
            snapshot_scan(sections@, s as int) == Ok::<SnapshotScan, Seq<char>>(
                SnapshotScan {
                    manifest: match manifest {
                        Some(m) => Some((m.0 as int, m.1 as int, m.2@)),
                        None => None,
                    },
                    chunks: positions_view(chunks@),
                    chunk_roots: roots@.map_values(|p: (u32, String)| (p.0, p.1@)),
                },
            ),
        decreases sections@.len() - s,
    {
        let section = &sections[s];
        let is_snapshot = str_eq(section.namespace.as_str(), "detta.snapshot");
        let mut r: usize = 0;
        while r < section.records.len()
            invariant
                s < sections@.len(),
                section == &sections@[s as int],
                is_snapshot == (section.namespace@ == "detta.snapshot"@),
                r <= section.records@.len(),
                snapshot_scan_records(snapshot_scan(sections@, s as int), *section, s as int, r as int)
                    == Ok::<SnapshotScan, Seq<char>>(
                    SnapshotScan {
                        manifest: match manifest {
                            Some(m) => Some((m.0 as int, m.1 as int, m.2@)),
                            None => None,
                        },
                        chunks: positions_view(chunks@),
                        chunk_roots: roots@.map_values(|p: (u32, String)| (p.0, p.1@)),
                    },
                ),
            decreases section.records@.len() - r,
        {
            if is_snapshot {
                match &section.records[r] {
                    PayloadRecordKind::SnapshotChunkManifest { snapshot_root } => {
                        if manifest.is_some() {
                            proof {
                                lemma_snapshot_error_persists(sections@, s as int, r as int + 1);
                            }
                            return Err(
                                NodeError::DataAvailability(
                                    DaError::InvalidPayload(
                                        owned("DA snapshot payload contains multiple manifests"),
                                    ),
                                ),
                            );
                        }
                        manifest = Some((s, r, owned(snapshot_root.as_str())));
                    },
                    PayloadRecordKind::SnapshotChunk { chunk_index, snapshot_root } => {
                        let ghost prev_chunks = chunks@;
                        let ghost prev_roots = roots@;
                        chunks.push((s, r));
                        roots.push((*chunk_index, owned(snapshot_root.as_str())));
                        assert(positions_view(chunks@) =~= positions_view(prev_chunks).push(
                            (s as int, r as int),
                        ));
                        assert(roots@.map_values(|p: (u32, String)| (p.0, p.1@)) =~= prev_roots.map_values(
                            |p: (u32, String)| (p.0, p.1@),
                        ).push((*chunk_index, snapshot_root@)));
                    },
                    _ => {
                        proof {
                            lemma_snapshot_error_persists(sections@, s as int, r as int + 1);
                        }
                        return Err(
                            NodeError::DataAvailability(
                                DaError::InvalidPayload(
                                    owned("DA snapshot namespace contains a non-snapshot record"),
                                ),
                            ),
                        );
                    },
                }
            }
            r = r + 1;
        }
        s = s + 1;
    }
    let (ms, mr, manifest_root) = match manifest {
        Some(m) => m,
        None => {
            return Err(
                NodeError::DataAvailability(
                    DaError::InvalidPayload(owned("DA snapshot payload has no manifest")),
                ),
            );
        },
    };
    let ghost rv = roots@.map_values(|p: (u32, String)| (p.0, p.1@));
    let mut best: Option<u32> = None;
    let mut j: usize = 0;
    while j < roots.len()
        invariant
            rv == roots@.map_values(|p: (u32, String)| (p.0, p.1@)),
            j <= roots@.len(),
            match best {
                None => forall|k: int|
                    0 <= k < j ==> !(rv[k].1 != manifest_root@ && forall|l: int|
                        k < l < rv.len() ==> (#[trigger] rv[l]).0 != rv[k].0),
                Some(b) => chunk_root_mismatch(rv, manifest_root@, b) && forall|k: int|
                    0 <= k < j && rv[k].1 != manifest_root@ && (forall|l: int|
                        k < l < rv.len() ==> (#[trigger] rv[l]).0 != rv[k].0) ==> b <= rv[k].0,
            },
        decreases roots@.len() - j,
    {
        let index = roots[j].0;
        let mut last = true;
        let mut l: usize = j + 1;
        while l < roots.len()
            invariant
                rv == roots@.map_values(|p: (u32, String)| (p.0, p.1@)),
                j < l <= roots@.len(),
                index == rv[j as int].0,
                last == forall|q: int| j < q < l ==> (#[trigger] rv[q]).0 != index,
            decreases roots@.len() - l,
        {
            assert(rv[l as int].0 == roots@[l as int].0);
            if roots[l].0 == index {
                last = false;
            }
            l = l + 1;
        }
        if last && !str_eq(roots[j].1.as_str(), manifest_root.as_str()) {
            proof {
                assert(rv[j as int].0 == index && rv[j as int].1 != manifest_root@);
                assert(chunk_root_mismatch(rv, manifest_root@, index));
            }
            best = match best {
                Some(b) => if b <= index {
                    Some(b)
                } else {
                    Some(index)
                },
                None => Some(index),
            };
        }
        j = j + 1;
    }
    proof {
        assert forall|i: u32| chunk_root_mismatch(rv, manifest_root@, i) implies (best matches Some(
            b,
        ) && b <= i) by {
            let k = choose|k: int|
                0 <= k < rv.len() && (#[trigger] rv[k]).0 == i && rv[k].1 != manifest_root@
                    && forall|l: int| k < l < rv.len() ==> (#[trigger] rv[l]).0 != i;
            assert(rv[k].1 != manifest_root@ && forall|l: int|
                k < l < rv.len() ==> (#[trigger] rv[l]).0 != rv[k].0);
        }
    }
    match best {
        Some(b) => {
            let mut message = owned("DA snapshot chunk ");
            push_decimal(&mut message, b as u64);
            message.append(" root does not match manifest root");
            proof {
                assert(message@ == "DA snapshot chunk "@ + decimal_spec(b as nat)
                    + " root does not match manifest root"@);
            }
            proof {
                let scan = snapshot_scan(sections@, sections@.len() as int)->Ok_0;
                assert(scan.chunk_roots == rv);
                assert(scan.manifest->Some_0.2 == manifest_root@);
                assert(first_chunk_root_mismatch(scan.chunk_roots, scan.manifest->Some_0.2, b));
            }
            Err(NodeError::DataAvailability(DaError::InvalidPayload(message)))
        },
        None => Ok(SnapshotRecordPlan { manifest: (ms, mr), chunks }),
    }
}

proof fn lemma_snapshot_records_error_persists(
    st: Result<SnapshotScan, Seq<char>>,
    section: PayloadSectionSummary,
    s: int,
    n: int,
    m: int,
)
    requires
        0 <= n <= m,
        snapshot_scan_records(st, section, s, n) is Err,
    ensures
        snapshot_scan_records(st, section, s, m) == snapshot_scan_records(st, section, s, n),
    decreases m - n,
{
    if n < m {
        lemma_snapshot_records_error_persists(st, section, s, n, m - 1);
    }
}

proof fn lemma_snapshot_records_of_error(
    st: Result<SnapshotScan, Seq<char>>,
    section: PayloadSectionSummary,
    s: int,
    n: int,
)
    requires
        st is Err,
        0 <= n,
    ensures
        snapshot_scan_records(st, section, s, n) == st,
    decreases n,
{
    if n > 0 {
        lemma_snapshot_records_of_error(st, section, s, n - 1);
    }
}

proof fn lemma_snapshot_error_persists(sections: Seq<PayloadSectionSummary>, s: int, r: int)
    requires
        0 <= s < sections.len(),
        0 < r <= sections[s].records@.len(),
        snapshot_scan_records(snapshot_scan(sections, s), sections[s], s, r) is Err,
    ensures
        snapshot_scan(sections, sections.len() as int) == snapshot_scan_records(
            snapshot_scan(sections, s),
            sections[s],
            s,
            r,
        ),
{
    lemma_snapshot_records_error_persists(
        snapshot_scan(sections, s),
        sections[s],
        s,
        r,
        sections[s].records@.len() as int,
    );
    assert(snapshot_scan(sections, s + 1) is Err);
    lemma_snapshot_sections_error_persists(sections, s + 1, sections.len() as int);
}

proof fn lemma_snapshot_sections_error_persists(sections: Seq<PayloadSectionSummary>, n: int, m: int)
    requires
        0 <= n <= m <= sections.len(),
        snapshot_scan(sections, n) is Err,
    ensures
        snapshot_scan(sections, m) == snapshot_scan(sections, n),
    decreases m - n,
{
    if n < m {
        lemma_snapshot_sections_error_persists(sections, n, m - 1);
        lemma_snapshot_records_of_error(
            snapshot_scan(sections, m - 1),
            sections[m - 1],
            m - 1,
            sections[m - 1].records@.len() as int,
        );
    }
}


/// What a certificate and a share set each say about the data they cover.
pub struct AvailabilityClaim {
    pub chain_id: String,
    pub height: u64,
    pub block_hash: String,
    pub manifest_hash: String,
    pub share_root: String,
}

/// Checks that an availability certificate covers exactly the share set:
/// same chain, height, block hash, manifest hash and share root.
pub fn check_certificate_matches_share_set(certificate: &AvailabilityClaim, share_set: &AvailabilityClaim) -> (result:
    Result<(), NodeError>)
    ensures
        ({
            &&& certificate.chain_id@ == share_set.chain_id@
            &&& certificate.height == share_set.height
            &&& certificate.block_hash@ == share_set.block_hash@
            &&& certificate.manifest_hash@ == share_set.manifest_hash@
            &&& certificate.share_root@ == share_set.share_root@
        }) <==> result is Ok,
        result matches Err(e) ==> (e matches NodeError::DataAvailability(
            DaError::InvalidAvailabilityCertificate(m),
        ) && m@ == "certificate does not match DA share set"@),
{
    if !str_eq(certificate.chain_id.as_str(), share_set.chain_id.as_str())
        || certificate.height != share_set.height || !str_eq(
        certificate.block_hash.as_str(),
        share_set.block_hash.as_str(),
    ) || !str_eq(certificate.manifest_hash.as_str(), share_set.manifest_hash.as_str()) || !str_eq(
        certificate.share_root.as_str(),
        share_set.share_root.as_str(),
    ) {
        return Err(
            NodeError::DataAvailability(
                DaError::InvalidAvailabilityCertificate(
                    owned("certificate does not match DA share set"),
                ),
            ),
        );
    }
    Ok(())
}

/// Whether `share_count` shares reach a reconstruction threshold of
/// `threshold`, so that reconstruction is worth trying.
pub fn enough_shares_to_reconstruct(share_count: usize, threshold: u32) -> (enough: bool)
    ensures
        enough == (share_count >= threshold),
{
    share_count as u64 >= threshold as u64
}

/// What the verification of a candidate share set means for
/// reconstruction: verified, it can be used; short of shares, it cannot yet;
/// any other failure is an error.
pub fn reconstruction_outcome(verification: Result<(), DaError>) -> (result: Result<bool, NodeError>)
    ensures
        match verification {
            Ok(()) => result == Ok::<bool, NodeError>(true),
            Err(DaError::InsufficientShares { .. }) => result == Ok::<bool, NodeError>(false),
            Err(e) => result == Err::<bool, NodeError>(NodeError::DataAvailability(e)),
        },
{
    match verification {
        Ok(()) => Ok(true),
        Err(DaError::InsufficientShares { .. }) => Ok(false),
        Err(e) => Err(NodeError::DataAvailability(e)),
    }
}

/// What a block's data-availability commitment, or the share set stored
/// for it, says of the data: the manifest hash, the payload hash and the
/// share root.
pub struct CommitmentRoots {
    pub manifest_hash: String,
    pub payload_hash: String,
    pub share_root: String,
}

/// Which part of a stored share set contradicts a block's commitment, with
/// the committed value and the stored one.
#[derive(Debug, PartialEq, Eq)]
pub enum CommitmentMismatch {
    ManifestHash { expected: String, actual: String },
    PayloadHash { expected: String, actual: String },
    ShareRoot { expected: String, actual: String },
}

/// Checks, in this order, that the stored share set has the committed
/// manifest hash, payload hash and share root, and reports the first that
/// differs.
pub fn check_share_set_matches_commitment(committed: &CommitmentRoots, stored: &CommitmentRoots) -> (result:
    Result<(), CommitmentMismatch>)
    ensures
        committed.manifest_hash@ != stored.manifest_hash@ ==> (result matches Err(
            CommitmentMismatch::ManifestHash { expected, actual },
        ) && expected@ == committed.manifest_hash@ && actual@ == stored.manifest_hash@),
        committed.manifest_hash@ == stored.manifest_hash@ && committed.payload_hash@
            != stored.payload_hash@ ==> (result matches Err(
            CommitmentMismatch::PayloadHash { expected, actual },
        ) && expected@ == committed.payload_hash@ && actual@ == stored.payload_hash@),
        committed.manifest_hash@ == stored.manifest_hash@ && committed.payload_hash@
            == stored.payload_hash@ && committed.share_root@ != stored.share_root@ ==> (result matches Err(
            CommitmentMismatch::ShareRoot { expected, actual },
        ) && expected@ == committed.share_root@ && actual@ == stored.share_root@),
        committed.manifest_hash@ == stored.manifest_hash@ && committed.payload_hash@
            == stored.payload_hash@ && committed.share_root@ == stored.share_root@ ==> result is Ok,
{
    if !str_eq(committed.manifest_hash.as_str(), stored.manifest_hash.as_str()) {
        return Err(
            CommitmentMismatch::ManifestHash {
                expected: owned(committed.manifest_hash.as_str()),
                actual: owned(stored.manifest_hash.as_str()),
            },
        );
    }
    if !str_eq(committed.payload_hash.as_str(), stored.payload_hash.as_str()) {
        return Err(
            CommitmentMismatch::PayloadHash {
                expected: owned(committed.payload_hash.as_str()),
                actual: owned(stored.payload_hash.as_str()),
            },
        );
    }
    if !str_eq(committed.share_root.as_str(), stored.share_root.as_str()) {
        return Err(
            CommitmentMismatch::ShareRoot {
                expected: owned(committed.share_root.as_str()),
                actual: owned(stored.share_root.as_str()),
            },
        );
    }
    Ok(())
}

/// The certificate hash the first block committing to `manifest_hash`
/// records, among `commitments` from position `i` on; each entry is a
/// block's committed manifest hash and certificate hash (if any), in
/// storage order.
pub open spec fn committed_certificate_from(
    commitments: Seq<(Seq<char>, Option<Seq<char>>)>,
    manifest_hash: Seq<char>,
    i: int,
) -> Option<Seq<char>>
    decreases commitments.len() - i,
{
    if i < 0 || i >= commitments.len() {
        None
    } else if commitments[i].0 == manifest_hash && commitments[i].1 is Some {
        commitments[i].1
    } else {
        committed_certificate_from(commitments, manifest_hash, i + 1)
    }
}

/// The block commitments as plain values.
pub open spec fn commitments_view(v: Seq<(String, Option<String>)>) -> Seq<(Seq<char>, Option<Seq<char>>)> {
    v.map_values(
        |c: (String, Option<String>)|
            (
                c.0@,
                match c.1 {
                    Some(h) => Some(h@),
                    None => None,
                },
            ),
    )
}

/// The certificate hash known for a manifest: the one recorded by the
/// first stored block that commits to it with a certificate, otherwise the
/// first one the certificate index lists for it.
pub fn certificate_hash_for_manifest(
    commitments: &Vec<(String, Option<String>)>,
    manifest_hash: &str,
    first_indexed: Option<String>,
) -> (hash: Option<String>)
    ensures
        ({
            let found = committed_certificate_from(commitments_view(commitments@), manifest_hash@, 0);
            match found {
                Some(h) => hash matches Some(x) && x@ == h,
                None => hash == first_indexed,
            }
        }),
{
    let ghost cv = commitments_view(commitments@);
    let mut i: usize = 0;
    while i < commitments.len()
        invariant
            i <= commitments@.len(),
            cv == commitments_view(commitments@),
            committed_certificate_from(cv, manifest_hash@, 0) == committed_certificate_from(
                cv,
                manifest_hash@,
                i as int,
            ),
        decreases commitments@.len() - i,
    {
        let entry = &commitments[i];
        if str_eq(entry.0.as_str(), manifest_hash) {
            match &entry.1 {
                Some(h) => {
                    return Some(owned(h.as_str()));
                },
                None => {},
            }
        }
        i = i + 1;
    }
    first_indexed
}

/// Checks that the block rebuilt from a payload hashes to the block hash
/// its manifest names.
pub fn check_payload_block_hash(rebuilt_block_hash: &str, manifest_block_hash: &str) -> (result: Result<
    (),
    NodeError,
>)
    ensures
        rebuilt_block_hash@ == manifest_block_hash@ ==> result is Ok,
        rebuilt_block_hash@ != manifest_block_hash@ ==> (result matches Err(
            NodeError::DataAvailability(DaError::InvalidPayload(m)),
        ) && m@ == "DA block payload does not match manifest block hash"@),
{
    if str_eq(rebuilt_block_hash, manifest_block_hash) {
        Ok(())
    } else {
        Err(
            NodeError::DataAvailability(
                DaError::InvalidPayload(owned("DA block payload does not match manifest block hash")),
            ),
        )
    }
}

} // verus!
