//! Per-peer admission of data-availability share requests.
use crate::table::{keys_distinct, lemma_pairs_map_dom, lemma_pairs_map_get, lemma_pairs_map_update, lemma_pairs_push_distinct, pairs_map};
use crate::text::{concat_str, str_eq};
use vstd::prelude::*;

verus! {

/// Data-availability errors raised by this node's own checks.
#[derive(Clone, Debug, PartialEq, Eq)]
pub enum DaError {
    InvalidPayload(String),
    InvalidChunkSize,
    InsufficientShares { required: u32, actual: u32 },
    InvalidAvailabilityCertificate(String),
}

/// The most share requests a peer may make under the default limiter.
pub const DEFAULT_MAX_DA_SHARE_REQUESTS_PER_PEER: u32 = 64;

/// Counts the share requests of each peer and refuses a peer's requests once
/// it has made `max_requests_per_peer` of them.
#[derive(Debug)]
pub struct DaShareRequestRateLimiter {
    max_requests_per_peer: u32,
    requests_by_peer: Vec<(String, u32)>,
}

/// The text of each entry of a count list.
pub open spec fn counts_view(v: Seq<(String, u32)>) -> Seq<(Seq<char>, u32)> {
    v.map_values(|p: (String, u32)| (p.0@, p.1))
}

/// The count of `peer` in `counts` (zero if it has none).
pub open spec fn count_in(counts: Map<Seq<char>, u32>, peer: Seq<char>) -> u32 {
    if counts.dom().contains(peer) {
        counts[peer]
    } else {
        0
    }
}

/// Whether a request of `peer` is admitted under `counts` and the limit
/// `max`: its id is nonempty and it has made fewer than `max` requests.
pub open spec fn admits(counts: Map<Seq<char>, u32>, max: u32, peer: Seq<char>) -> bool {
    peer.len() > 0 && count_in(counts, peer) < max
}

/// The counts after one request of `peer`: one more for `peer` if the
/// request is admitted, unchanged otherwise.
pub open spec fn after_request(counts: Map<Seq<char>, u32>, max: u32, peer: Seq<char>) -> Map<
    Seq<char>,
    u32,
> {
    if admits(counts, max, peer) {
        counts.insert(peer, (count_in(counts, peer) + 1) as u32)
    } else {
        counts
    }
}

/// The counts after the requests of `peers`, in order.
pub open spec fn after_requests(
    counts: Map<Seq<char>, u32>,
    max: u32,
    peers: Seq<Seq<char>>,
) -> Map<Seq<char>, u32>
    decreases peers.len(),
{
    if peers.len() == 0 {
        counts
    } else {
        after_request(after_requests(counts, max, peers.drop_last()), max, peers.last())
    }
}

/// How many of the requests of `peers`, made in order from `counts`, are
/// requests of `peer` that were admitted.
pub open spec fn admitted_requests_of(
    counts: Map<Seq<char>, u32>,
    max: u32,
    peers: Seq<Seq<char>>,
    peer: Seq<char>,
) -> nat
    decreases peers.len(),
{
    if peers.len() == 0 {
        0
    } else {
        let before = after_requests(counts, max, peers.drop_last());
        admitted_requests_of(counts, max, peers.drop_last(), peer) + if peers.last() == peer
            && admits(before, max, peer) {
            1nat
        } else {
            0nat
        }
    }
}

/// Every count is at most `max`, and the empty id has none.
pub open spec fn counts_within(counts: Map<Seq<char>, u32>, max: u32) -> bool {
    &&& forall|p: Seq<char>| #[trigger] counts.dom().contains(p) ==> counts[p] <= max
    &&& !counts.dom().contains(Seq::<char>::empty())
}

/// After any sequence of requests, each peer's count is its count before
/// plus the number of its requests that were admitted; from a fresh
/// limiter, it is exactly the number of its admitted requests.
pub proof fn request_counts_follow_admissions(
    counts: Map<Seq<char>, u32>,
    max: u32,
    peers: Seq<Seq<char>>,
    peer: Seq<char>,
)
    ensures
        count_in(after_requests(counts, max, peers), peer) == count_in(counts, peer)
            + admitted_requests_of(counts, max, peers, peer),
        counts == Map::<Seq<char>, u32>::empty() ==> count_in(after_requests(counts, max, peers), peer)
            == admitted_requests_of(counts, max, peers, peer),
    decreases peers.len(),
{
    if peers.len() > 0 {
        request_counts_follow_admissions(counts, max, peers.drop_last(), peer);
    }
}

/// After any sequence of requests from counts within the limit (a fresh
/// limiter's among them), no peer's count exceeds the limit and the empty
/// id has no count.
pub proof fn request_counts_stay_within_limit(
    counts: Map<Seq<char>, u32>,
    max: u32,
    peers: Seq<Seq<char>>,
)
    requires
        counts_within(counts, max),
    ensures
        counts_within(after_requests(counts, max, peers), max),
        forall|p: Seq<char>| #[trigger] count_in(after_requests(counts, max, peers), p) <= max,
        count_in(after_requests(counts, max, peers), Seq::<char>::empty()) == 0,
    decreases peers.len(),
{
    if peers.len() > 0 {
        request_counts_stay_within_limit(counts, max, peers.drop_last());
    }
    let after = after_requests(counts, max, peers);
    assert forall|p: Seq<char>| #[trigger] count_in(after, p) <= max by {
        if after.dom().contains(p) {
            assert(after[p] <= max);
        }
    }
}

/// The counts of a fresh limiter are within any limit.
pub proof fn fresh_counts_within(max: u32)
    ensures
        counts_within(Map::<Seq<char>, u32>::empty(), max),
{
}

impl View for DaShareRequestRateLimiter {
    type V = Map<Seq<char>, u32>;

    /// The number of admitted requests of each peer that made any.
    closed spec fn view(&self) -> Map<Seq<char>, u32> {
        pairs_map(counts_view(self.requests_by_peer@))
    }
}

impl DaShareRequestRateLimiter {
    #[verifier::type_invariant]
    closed spec fn wf(self) -> bool {
        let s = counts_view(self.requests_by_peer@);
        &&& self.max_requests_per_peer > 0
        &&& keys_distinct(s)
        &&& forall|i: int| 0 <= i < s.len() ==> 1 <= #[trigger] s[i].1 <= self.max_requests_per_peer
    }

    /// The most requests any one peer may make.
    pub closed spec fn max_requests(&self) -> u32 {
        self.max_requests_per_peer
    }

    /// The number of admitted requests of `peer_id` (zero if none).
    pub open spec fn count_of(&self, peer_id: Seq<char>) -> u32 {
        count_in(self@, peer_id)
    }

    /// A limiter that admits `max_requests_per_peer` requests per peer.
    /// Fails when the limit is zero.
    pub fn new(max_requests_per_peer: u32) -> (result: Result<Self, DaError>)
        ensures
            max_requests_per_peer == 0 ==> (result matches Err(DaError::InvalidPayload(m)) && m@
                == "DA share request rate limit must be positive"@),
            max_requests_per_peer > 0 ==> (result matches Ok(limiter) && limiter@ == Map::<
                Seq<char>,
                u32,
            >::empty() && limiter.max_requests() == max_requests_per_peer),
    {
        if max_requests_per_peer == 0 {
            return Err(
                DaError::InvalidPayload("DA share request rate limit must be positive".to_owned()),
            );
        }
        let limiter = DaShareRequestRateLimiter {
            max_requests_per_peer,
            requests_by_peer: Vec::new(),
        };
        assert(counts_view(limiter.requests_by_peer@) =~= Seq::<(Seq<char>, u32)>::empty());
        Ok(limiter)
    }

    /// A limiter that admits `DEFAULT_MAX_DA_SHARE_REQUESTS_PER_PEER`
    /// requests per peer.
    pub fn default() -> (limiter: Self)
        ensures
            limiter@ == Map::<Seq<char>, u32>::empty(),
            limiter.max_requests() == DEFAULT_MAX_DA_SHARE_REQUESTS_PER_PEER,
    {
        let limiter = DaShareRequestRateLimiter {
            max_requests_per_peer: DEFAULT_MAX_DA_SHARE_REQUESTS_PER_PEER,
            requests_by_peer: Vec::new(),
        };
        assert(counts_view(limiter.requests_by_peer@) =~= Seq::<(Seq<char>, u32)>::empty());
        limiter
    }

    fn position(&self, peer_id: &str) -> (pos: Option<usize>)
        ensures
            pos is None ==> !self@.dom().contains(peer_id@),
            pos matches Some(i) ==> i < self.requests_by_peer@.len()
                && self.requests_by_peer@[i as int].0@ == peer_id@,
    {
        let ghost s = counts_view(self.requests_by_peer@);
        let mut i: usize = 0;
        while i < self.requests_by_peer.len()
            invariant
                s == counts_view(self.requests_by_peer@),
                i <= s.len(),
                forall|j: int| 0 <= j < i ==> s[j].0 != peer_id@,
            decreases s.len() - i,
        {
            if str_eq(self.requests_by_peer[i].0.as_str(), peer_id) {
                return Some(i);
            }
            i = i + 1;
        }
        proof {
            lemma_pairs_map_dom(s, peer_id@);
        }
        None
    }

    /// Admits one request of `peer_id`, or refuses it: an empty peer id is
    /// refused, and so is a peer that has already made the maximum number of
    /// requests. A refused request changes nothing.
    pub fn admit_request(&mut self, peer_id: &str) -> (result: Result<(), DaError>)
        ensures
            final(self).max_requests() == old(self).max_requests(),
            peer_id@.len() == 0 ==> (result matches Err(DaError::InvalidPayload(m)) && m@
                == "DA share request peer ID must be nonempty"@),
            peer_id@.len() > 0 && old(self).count_of(peer_id@) >= old(self).max_requests() ==> (
            result matches Err(DaError::InvalidPayload(m)) && m@
                == "DA share request rate limit exceeded for peer "@ + peer_id@),
            result is Err ==> final(self)@ == old(self)@,
            result is Ok <==> admits(old(self)@, old(self).max_requests(), peer_id@),
            final(self)@ == after_request(old(self)@, old(self).max_requests(), peer_id@),
            peer_id@.len() > 0 && old(self).count_of(peer_id@) < old(self).max_requests() ==> (
            result is Ok && final(self)@ == old(self)@.insert(
                peer_id@,
                (old(self).count_of(peer_id@) + 1) as u32,
            )),
    {
        proof {
            use_type_invariant(&*self);
        }
        if peer_id.is_empty() {
            return Err(
                DaError::InvalidPayload("DA share request peer ID must be nonempty".to_owned()),
            );
        }
        let ghost s = counts_view(self.requests_by_peer@);
        match self.position(peer_id) {
            Some(i) => {
                let count = self.requests_by_peer[i].1;
                proof {
                    lemma_pairs_map_get(s, i as int);
                }
                if count >= self.max_requests_per_peer {
                    return Err(
                        DaError::InvalidPayload(
                            concat_str("DA share request rate limit exceeded for peer ", peer_id),
                        ),
                    );
                }
                let key = self.requests_by_peer[i].0.clone();
                let mut entries: Vec<(String, u32)> = Vec::new();
                std::mem::swap(&mut entries, &mut self.requests_by_peer);
                entries.set(i, (key, count + 1));
                proof {
                    lemma_pairs_map_update(s, i as int, (count + 1) as u32);
                    assert(counts_view(entries@) =~= s.update(i as int, (s[i as int].0, (count + 1) as u32)));
                    let t = counts_view(entries@);
                    assert forall|j: int| 0 <= j < t.len() implies 1 <= #[trigger] t[j].1
                        <= self.max_requests_per_peer by {
                        if j != i {
                            assert(t[j] == s[j]);
                        }
                    }
                }
                self.requests_by_peer = entries;
                Ok(())
            },
            None => {
                let mut entries: Vec<(String, u32)> = Vec::new();
                std::mem::swap(&mut entries, &mut self.requests_by_peer);
                entries.push((peer_id.to_owned(), 1));
                proof {
                    lemma_pairs_push_distinct(s, peer_id@, 1u32);
                    assert(counts_view(entries@) =~= s.push((peer_id@, 1u32)));
                    let t = counts_view(entries@);
                    assert forall|j: int| 0 <= j < t.len() implies 1 <= #[trigger] t[j].1
                        <= self.max_requests_per_peer by {
                        if j < s.len() {
                            assert(t[j] == s[j]);
                        }
                    }
                }
                self.requests_by_peer = entries;
                Ok(())
            },
        }
    }

    /// The number of admitted requests of `peer_id`.
    pub fn request_count(&self, peer_id: &str) -> (count: u32)
        ensures
            count == self.count_of(peer_id@),
            count <= self.max_requests(),
    {
        proof {
            use_type_invariant(self);
        }
        match self.position(peer_id) {
            Some(i) => {
                proof {
                    lemma_pairs_map_get(counts_view(self.requests_by_peer@), i as int);
                    assert(counts_view(self.requests_by_peer@)[i as int].1 <= self.max_requests_per_peer);
                }
                self.requests_by_peer[i].1
            },
            None => 0,
        }
    }
}

impl Clone for DaShareRequestRateLimiter {
    fn clone(&self) -> (copy: Self)
        ensures
            copy@ == self@,
            copy.max_requests() == self.max_requests(),
    {
        proof {
            use_type_invariant(self);
        }
        let ghost s = counts_view(self.requests_by_peer@);
        let mut entries: Vec<(String, u32)> = Vec::new();
        let mut i: usize = 0;
        while i < self.requests_by_peer.len()
            invariant
                s == counts_view(self.requests_by_peer@),
                i <= s.len(),
                counts_view(entries@) == s.take(i as int),
            decreases s.len() - i,
        {
            let key = self.requests_by_peer[i].0.clone();
            let ghost before = counts_view(entries@);
            entries.push((key, self.requests_by_peer[i].1));
            assert(counts_view(entries@) =~= before.push(s[i as int]));
            assert(s.take(i + 1) =~= s.take(i as int).push(s[i as int]));
            i = i + 1;
        }
        assert(s.take(s.len() as int) =~= s);
        DaShareRequestRateLimiter {
            max_requests_per_peer: self.max_requests_per_peer,
            requests_by_peer: entries,
        }
    }
}

} // verus!
