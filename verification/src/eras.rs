//! Validator quorum coordination: the registry of recognized off-chain
//! validators, and per-era collection of signed (payers-root, payees-root)
//! votes until a quorum agrees on one exact pair and the era becomes ready
//! for payout.

use vstd::prelude::*;

use crate::arith::{percent_mul, percent_mul_spec};
use crate::primitives::{AccountId, ClusterId, DdcEra, EraActivity, EraValidationStatus};

verus! {

/// Errors of the era-validation calls.
#[derive(PartialEq, Eq, Structural, Clone, Copy, Debug)]
pub enum VerificationCallError {
    BadVerificationKey,
    BadRequest,
    Unauthorized,
    AlreadySignedEra,
    NotExpectedState,
    AlreadySignedPayoutBatch,
    NodeRetrievalError,
    NoValidatorExist,
    NotController,
    NotValidatorStash,
    DDCValidatorKeyNotRegistered,
    NoAvailableSigner,
    FailedToGenerateProof,
    FailedToVerifyMerkleProof,
    NoEraValidation,
    EraAlreadyPaid,
}

/// Decides membership of an account in a list.
pub fn contains_account(list: &Vec<AccountId>, who: AccountId) -> (r: bool)
    ensures
        r == list@.contains(who),
{
    let mut i: usize = 0;
    while i < list.len()
        invariant
            i <= list@.len(),
            forall|k: int| 0 <= k < i ==> list@[k] != who,
        decreases list@.len() - i,
    {
        if list[i] == who {
            return true;
        }
        i = i + 1;
    }
    false
}

/// Decides equality of two byte strings.
pub fn bytes_eq(a: &Vec<u8>, b: &Vec<u8>) -> (r: bool)
    ensures
        r == (a@ == b@),
{
    if a.len() != b.len() {
        proof {
            assert(a@.len() != b@.len());
        }
        return false;
    }
    let mut i: usize = 0;
    while i < a.len()
        invariant
            i <= a@.len(),
            a@.len() == b@.len(),
            forall|k: int| 0 <= k < i ==> a@[k] == b@[k],
        decreases a@.len() - i,
    {
        if a[i] != b[i] {
            return false;
        }
        i = i + 1;
    }
    proof {
        assert(a@ =~= b@);
    }
    true
}

/// The recognized off-chain validators and their registered stash keys.
pub struct ValidatorRegistry {
    /// The active validator set of the current session.
    pub validator_set: Vec<AccountId>,
    /// Verification keys with a registered stash, paired with that stash.
    pub stash_keys: Vec<(AccountId, AccountId)>,
}

impl ValidatorRegistry {
    /// Whether a verification key has a registered stash.
    pub open spec fn has_stash(self, who: AccountId) -> bool {
        exists|i: int|
            0 <= i < self.stash_keys@.len() && (#[trigger] self.stash_keys@[i]).0 == who
    }

    /// Whether the caller is a recognized off-chain-worker validator: in the
    /// active set and with a registered stash key.
    pub open spec fn is_ocw_validator_spec(self, who: AccountId) -> bool {
        self.has_stash(who) && self.validator_set@.contains(who)
    }

    /// A fresh registry with no validators.
    pub fn new() -> (r: ValidatorRegistry)
        ensures
            r.validator_set@.len() == 0,
            r.stash_keys@.len() == 0,
    {
        ValidatorRegistry { validator_set: Vec::new(), stash_keys: Vec::new() }
    }

    /// Decides whether the caller is a recognized off-chain-worker validator.
    pub fn is_ocw_validator(&self, who: AccountId) -> (r: bool)
        ensures
            r == self.is_ocw_validator_spec(who),
    {
        let mut i: usize = 0;
        let mut found: bool = false;
        while i < self.stash_keys.len() && !found
            invariant
                i <= self.stash_keys@.len(),
                found ==> self.has_stash(who),
                !found ==> forall|k: int| 0 <= k < i ==> (#[trigger] self.stash_keys@[k]).0 != who,
            decreases self.stash_keys@.len() - i + if found {
                0int
            } else {
                1int
            },
        {
            if self.stash_keys[i].0 == who {
                found = true;
            } else {
                i = i + 1;
            }
        }
        if !found {
            return false;
        }
        contains_account(&self.validator_set, who)
    }

    /// Registers the stash of a verification key. The key must be in the
    /// active validator set; the stash itself was resolved by the staking
    /// system before the call.
    pub fn set_validator_key(&mut self, stash: AccountId, ddc_validator_pub: AccountId) -> (r:
        Result<(), VerificationCallError>)
        ensures
            r is Err <==> !old(self).validator_set@.contains(ddc_validator_pub),
            r is Err ==> r->Err_0 == VerificationCallError::NotValidatorStash && *final(self)
                == *old(self),
            r is Ok ==> final(self).stash_keys@ == old(self).stash_keys@.push(
                (ddc_validator_pub, stash),
            ) && final(self).validator_set@ == old(self).validator_set@,
            r is Ok ==> final(self).is_ocw_validator_spec(ddc_validator_pub),
    {
        if !contains_account(&self.validator_set, ddc_validator_pub) {
            return Err(VerificationCallError::NotValidatorStash);
        }
        self.stash_keys.push((ddc_validator_pub, stash));
        proof {
            let n = self.stash_keys@.len() - 1;
            assert((self.stash_keys@[n]).0 == ddc_validator_pub);
        }
        Ok(())
    }

    /// Replaces the active validator set at a session boundary.
    pub fn on_new_session(&mut self, validators: Vec<AccountId>)
        ensures
            final(self).validator_set@ == validators@,
            final(self).stash_keys@ == old(self).stash_keys@,
    {
        self.validator_set = validators;
    }
}

/// The validators that signed one exact (payers-root, payees-root) pair.
#[verifier::ext_equal]
pub struct RootsVote {
    pub payers_merkle_root_hash: Vec<u8>,
    pub payees_merkle_root_hash: Vec<u8>,
    pub signers: Vec<AccountId>,
}

/// Validation record of one era of one cluster: signed root votes, the era
/// time bounds, the canonical roots once a quorum agreed, and the status.
#[verifier::ext_equal]
pub struct EraValidation {
    pub validators: Vec<RootsVote>,
    pub start_era: i64,
    pub end_era: i64,
    pub payers_merkle_root_hash: Vec<u8>,
    pub payees_merkle_root_hash: Vec<u8>,
    pub status: EraValidationStatus,
}

impl EraValidation {
    /// A fresh record awaiting validation data.
    pub fn new_validating() -> (r: EraValidation)
        ensures
            r.status == EraValidationStatus::ValidatingData,
            r.validators@.len() == 0,
            r.payers_merkle_root_hash@.len() == 0,
            r.payees_merkle_root_hash@.len() == 0,
            r.start_era == 0 && r.end_era == 0,
    {
        EraValidation {
            validators: Vec::new(),
            start_era: 0,
            end_era: 0,
            payers_merkle_root_hash: Vec::new(),
            payees_merkle_root_hash: Vec::new(),
            status: EraValidationStatus::ValidatingData,
        }
    }
}

/// Era validation records of all clusters, keyed by cluster and era.
pub struct EraValidationStore {
    pub entries: Vec<(ClusterId, DdcEra, EraValidation)>,
}

impl EraValidationStore {
    /// At most one record per cluster and era, and within each record at
    /// most one vote per exact pair of roots.
    pub open spec fn wf(self) -> bool {
        &&& forall|i: int, j: int|
            0 <= i < j < self.entries@.len() ==> ((#[trigger] self.entries@[i]).0, self.entries@[i].1)
                != ((#[trigger] self.entries@[j]).0, self.entries@[j].1)
        &&& forall|i: int|
            0 <= i < self.entries@.len() ==> votes_wf((#[trigger] self.entries@[i]).2.validators@)
    }

    /// Whether a record exists for the cluster and era.
    pub open spec fn has_record(self, cluster_id: ClusterId, era_id: DdcEra) -> bool {
        exists|i: int|
            0 <= i < self.entries@.len() && (#[trigger] self.entries@[i]).0 == cluster_id
                && self.entries@[i].1 == era_id
    }

    /// The index of the record for the cluster and era.
    pub open spec fn index_of(self, cluster_id: ClusterId, era_id: DdcEra) -> int {
        choose|i: int|
            0 <= i < self.entries@.len() && (#[trigger] self.entries@[i]).0 == cluster_id
                && self.entries@[i].1 == era_id
    }

    /// An empty store.
    pub fn new() -> (r: EraValidationStore)
        ensures
            r.entries@.len() == 0,
            r.wf(),
    {
        EraValidationStore { entries: Vec::new() }
    }

    /// Finds the position of the record for the cluster and era.
    fn find(&self, cluster_id: ClusterId, era_id: DdcEra) -> (r: Option<usize>)
        ensures
            r is Some <==> self.has_record(cluster_id, era_id),
            r is Some ==> 0 <= r->Some_0 < self.entries@.len() && (self.entries@[r->Some_0 as int]).0
                == cluster_id && (self.entries@[r->Some_0 as int]).1 == era_id,
    {
        let mut i: usize = 0;
        while i < self.entries.len()
            invariant
                i <= self.entries@.len(),
                forall|k: int|
                    0 <= k < i ==> ((#[trigger] self.entries@[k]).0 != cluster_id
                        || self.entries@[k].1 != era_id),
            decreases self.entries@.len() - i,
        {
            let hit = {
                let entry = &self.entries[i];
                entry.0 == cluster_id && entry.1 == era_id
            };
            if hit {
                return Some(i);
            }
            i = i + 1;
        }
        None
    }

    /// The smallest era of the cluster whose record has the given status,
    /// with its time bounds.
    pub fn get_era_for_payout(&self, cluster_id: ClusterId, status: EraValidationStatus) -> (r:
        Option<EraActivity>)
        ensures
            r is None ==> forall|i: int|
                0 <= i < self.entries@.len() ==> !((#[trigger] self.entries@[i]).0 == cluster_id
                    && self.entries@[i].2.status == status),
            r is Some ==> exists|i: int|
                0 <= i < self.entries@.len() && (#[trigger] self.entries@[i]).0 == cluster_id
                    && self.entries@[i].2.status == status && self.entries@[i].1 == r->Some_0.id
                    && self.entries@[i].2.start_era == r->Some_0.start && self.entries@[i].2.end_era
                    == r->Some_0.end,
            r is Some ==> forall|i: int|
                0 <= i < self.entries@.len() && (#[trigger] self.entries@[i]).0 == cluster_id
                    && self.entries@[i].2.status == status ==> r->Some_0.id <= self.entries@[i].1,
    {
        let mut best: Option<EraActivity> = None;
        let mut i: usize = 0;
        while i < self.entries.len()
            invariant
                i <= self.entries@.len(),
                best is None ==> forall|k: int|
                    0 <= k < i ==> !((#[trigger] self.entries@[k]).0 == cluster_id
                        && self.entries@[k].2.status == status),
                best is Some ==> exists|k: int|
                    0 <= k < i && (#[trigger] self.entries@[k]).0 == cluster_id
                        && self.entries@[k].2.status == status && self.entries@[k].1
                        == best->Some_0.id && self.entries@[k].2.start_era == best->Some_0.start
                        && self.entries@[k].2.end_era == best->Some_0.end,
                best is Some ==> forall|k: int|
                    0 <= k < i && (#[trigger] self.entries@[k]).0 == cluster_id
                        && self.entries@[k].2.status == status ==> best->Some_0.id
                        <= self.entries@[k].1,
            decreases self.entries@.len() - i,
        {
            let matches_here = {
                let entry = &self.entries[i];
                entry.0 == cluster_id && status_eq(entry.2.status, status)
            };
            if matches_here {
                let take_it = match &best {
                    None => true,
                    Some(b) => self.entries[i].1 < b.id,
                };
                if take_it {
                    let entry = &self.entries[i];
                    best = Some(
                        EraActivity { id: entry.1, start: entry.2.start_era, end: entry.2.end_era },
                    );
                }
            }
            i = i + 1;
        }
        best
    }

    /// The largest era of the cluster in which the given validator signed a
    /// root vote: the last era this validator has taken part in validating.
    pub fn get_last_paid_era(&self, cluster_id: ClusterId, validator: AccountId) -> (r: Option<
        DdcEra,
    >)
        ensures
            r is Some ==> exists|i: int|
                0 <= i < self.entries@.len() && (#[trigger] self.entries@[i]).0 == cluster_id
                    && self.entries@[i].1 == r->Some_0 && validator_signed_in(
                    self.entries@[i].2,
                    validator,
                ),
            r is Some ==> forall|i: int|
                0 <= i < self.entries@.len() && (#[trigger] self.entries@[i]).0 == cluster_id
                    && validator_signed_in(self.entries@[i].2, validator) ==> self.entries@[i].1
                    <= r->Some_0,
            r is None ==> forall|i: int|
                0 <= i < self.entries@.len() && (#[trigger] self.entries@[i]).0 == cluster_id
                    ==> !validator_signed_in(self.entries@[i].2, validator),
    {
        let mut best: Option<DdcEra> = None;
        let mut i: usize = 0;
        while i < self.entries.len()
            invariant
                i <= self.entries@.len(),
                best is Some ==> exists|k: int|
                    0 <= k < i && (#[trigger] self.entries@[k]).0 == cluster_id
                        && self.entries@[k].1 == best->Some_0 && validator_signed_in(
                        self.entries@[k].2,
                        validator,
                    ),
                best is Some ==> forall|k: int|
                    0 <= k < i && (#[trigger] self.entries@[k]).0 == cluster_id
                        && validator_signed_in(self.entries@[k].2, validator)
                        ==> self.entries@[k].1 <= best->Some_0,
                best is None ==> forall|k: int|
                    0 <= k < i && (#[trigger] self.entries@[k]).0 == cluster_id
                        ==> !validator_signed_in(self.entries@[k].2, validator),
            decreases self.entries@.len() - i,
        {
            let is_cluster = self.entries[i].0 == cluster_id;
            if is_cluster {
                let mut v: usize = 0;
                let mut voted: bool = false;
                let nvotes = self.entries[i].2.validators.len();
                while v < nvotes && !voted
                    invariant
                        v <= nvotes,
                        i < self.entries@.len(),
                        nvotes == self.entries@[i as int].2.validators@.len(),
                        voted ==> validator_signed_in(self.entries@[i as int].2, validator),
                        !voted ==> forall|v2: int, s: int|
                            0 <= v2 < v && 0 <= s
                                < self.entries@[i as int].2.validators@[v2].signers@.len()
                                ==> #[trigger] (
                            self.entries@[i as int].2.validators@[v2].signers@[s]) != validator,
                    decreases nvotes - v + if voted {
                        0int
                    } else {
                        1int
                    },
                {
                    if contains_account(&self.entries[i].2.validators[v].signers, validator) {
                        voted = true;
                        proof {
                            let vote = self.entries@[i as int].2.validators@[v as int];
                            let s = choose|s: int|
                                0 <= s < vote.signers@.len() && vote.signers@[s] == validator;
                            assert(0 <= v < nvotes);
                        }
                    } else {
                        v = v + 1;
                    }
                }
                proof {
                    if !voted {
                        assert(!validator_signed_in(self.entries@[i as int].2, validator)) by {
                            if validator_signed_in(self.entries@[i as int].2, validator) {
                                let (v2, s) = choose|v2: int, s: int|
                                    0 <= v2 < self.entries@[i as int].2.validators@.len() && 0 <= s
                                        < self.entries@[i as int].2.validators@[v2].signers@.len()
                                        && #[trigger] (
                                    self.entries@[i as int].2.validators@[v2].signers@[s])
                                        == validator;
                                assert(false);
                            }
                        }
                    }
                }
                if voted {
                    let era = self.entries[i].1;
                    let take_it = match &best {
                        None => true,
                        Some(b) => era > *b,
                    };
                    if take_it {
                        best = Some(era);
                    }
                }
            }
            i = i + 1;
        }
        best
    }
}

/// The reported era lists of all reachable aggregators, in one sequence.
pub open spec fn flat_eras(ss: Seq<Vec<EraActivity>>) -> Seq<EraActivity>
    decreases ss.len(),
{
    if ss.len() == 0 {
        Seq::empty()
    } else {
        flat_eras(ss.drop_last()) + ss.last()@
    }
}

/// The reported eras that are newer than both the validator's last
/// validated era and the cluster's last paid era, in report order.
pub open spec fn eligible_eras(
    all: Seq<EraActivity>,
    last_validated: DdcEra,
    last_paid: DdcEra,
) -> Seq<EraActivity>
    decreases all.len(),
{
    if all.len() == 0 {
        Seq::empty()
    } else {
        eligible_eras(all.drop_last(), last_validated, last_paid) + if all.last().id
            > last_validated && all.last().id > last_paid {
            seq![all.last()]
        } else {
            Seq::empty()
        }
    }
}

/// How many aggregators reported this exact era (identity and bounds).
pub open spec fn era_count(s: Seq<EraActivity>, e: EraActivity) -> nat
    decreases s.len(),
{
    if s.len() == 0 {
        0
    } else {
        era_count(s.drop_last(), e) + if s.last() == e {
            1nat
        } else {
            0nat
        }
    }
}

/// Counts how many aggregators reported this exact era.
fn count_era(s: &Vec<EraActivity>, e: EraActivity) -> (r: u64)
    requires
        s@.len() <= u64::MAX,
    ensures
        r == era_count(s@, e),
{
    let mut count: u64 = 0;
    let mut i: usize = 0;
    while i < s.len()
        invariant
            i <= s@.len(),
            s@.len() <= u64::MAX,
            count == era_count(s@.take(i as int), e),
            count <= i,
        decreases s@.len() - i,
    {
        proof {
            assert(s@.take(i + 1).drop_last() =~= s@.take(i as int));
            assert(s@.take(i + 1).last() == s@[i as int]);
        }
        if s[i] == e {
            count = count + 1;
        }
        i = i + 1;
    }
    proof {
        assert(s@.take(s@.len() as int) =~= s@);
    }
    count
}

impl EraValidationStore {
    /// Picks the era this validator should validate next: among the eras
    /// the aggregators report as processed, those newer than both the
    /// validator's own last validated era (see [`Self::get_last_paid_era`])
    /// and the cluster's last paid era are grouped by exact identity and
    /// bounds; of the groups reported by the quorum share of the reachable
    /// aggregators, the oldest is chosen.
    #[verifier::rlimit(30)]
    pub fn get_era_for_validation(
        &self,
        cluster_id: ClusterId,
        validator: AccountId,
        last_validated_era: DdcEra,
        last_paid_era_for_cluster: DdcEra,
        processed_eras: &Vec<Vec<EraActivity>>,
        quorum_parts: u8,
        dac_nodes_count: u64,
    ) -> (r: Option<EraActivity>)
        requires
            flat_eras(processed_eras@).len() <= u64::MAX,
        ensures
            ({
                let threshold = crate::arith::percent_mul_spec(
                    quorum_parts as int,
                    dac_nodes_count as int,
                );
                let cands = eligible_eras(
                    flat_eras(processed_eras@),
                    last_validated_era,
                    last_paid_era_for_cluster,
                );
                &&& (r is Some ==> cands.contains(r->Some_0) && era_count(cands, r->Some_0)
                    >= threshold && r->Some_0.id > last_paid_era_for_cluster)
                &&& (r is Some ==> forall|j: int|
                    0 <= j < cands.len() && era_count(cands, #[trigger] cands[j]) >= threshold
                        ==> r->Some_0.id <= cands[j].id)
                &&& (r is None ==> forall|j: int|
                    0 <= j < cands.len() ==> era_count(cands, #[trigger] cands[j]) < threshold)
            }),
    {
        let last_validated = last_validated_era;

        // flatten the per-aggregator era lists
        let mut all: Vec<EraActivity> = Vec::new();
        let mut k: usize = 0;
        while k < processed_eras.len()
            invariant
                k <= processed_eras@.len(),
                all@ == flat_eras(processed_eras@.take(k as int)),
            decreases processed_eras@.len() - k,
        {
            let inner = &processed_eras[k];
            let mut m: usize = 0;
            while m < inner.len()
                invariant
                    m <= inner@.len(),
                    k < processed_eras@.len(),
                    inner == &processed_eras@[k as int],
                    all@ == flat_eras(processed_eras@.take(k as int)) + inner@.take(m as int),
                decreases inner@.len() - m,
            {
                all.push(inner[m]);
                proof {
                    assert(inner@.take(m + 1) =~= inner@.take(m as int).push(inner@[m as int]));
                    assert(all@ =~= flat_eras(processed_eras@.take(k as int)) + inner@.take(m + 1));
                }
                m = m + 1;
            }
            proof {
                assert(processed_eras@.take(k + 1).drop_last() =~= processed_eras@.take(k as int));
                assert(processed_eras@.take(k + 1).last() == processed_eras@[k as int]);
                assert(inner@.take(inner@.len() as int) =~= inner@);
                assert(all@ =~= flat_eras(processed_eras@.take(k + 1)));
            }
            k = k + 1;
        }
        proof {
            assert(processed_eras@.take(processed_eras@.len() as int) =~= processed_eras@);
            lemma_eligible_len(all@, last_validated, last_paid_era_for_cluster);
        }

        // keep the eras newer than both markers
        let mut cands: Vec<EraActivity> = Vec::new();
        let mut i: usize = 0;
        while i < all.len()
            invariant
                i <= all@.len(),
                cands@ == eligible_eras(all@.take(i as int), last_validated, last_paid_era_for_cluster),
            decreases all@.len() - i,
        {
            proof {
                assert(all@.take(i + 1).drop_last() =~= all@.take(i as int));
                assert(all@.take(i + 1).last() == all@[i as int]);
            }
            let e = all[i];
            if e.id > last_validated && e.id > last_paid_era_for_cluster {
                cands.push(e);
            }
            i = i + 1;
        }
        proof {
            assert(all@.take(all@.len() as int) =~= all@);
            lemma_eligible_bounds(all@, last_validated, last_paid_era_for_cluster);
        }

        // of the groups meeting the quorum, take the oldest era
        let threshold = crate::arith::percent_mul(quorum_parts, dac_nodes_count);
        let mut best: Option<EraActivity> = None;
        let mut j: usize = 0;
        while j < cands.len()
            invariant
                j <= cands@.len(),
                cands@.len() <= u64::MAX,
                best is Some ==> cands@.contains(best->Some_0) && era_count(cands@, best->Some_0)
                    >= threshold && best->Some_0.id > last_paid_era_for_cluster,
                best is Some ==> forall|j2: int|
                    0 <= j2 < j && era_count(cands@, #[trigger] cands@[j2]) >= threshold
                        ==> best->Some_0.id <= cands@[j2].id,
                best is None ==> forall|j2: int|
                    0 <= j2 < j ==> era_count(cands@, #[trigger] cands@[j2]) < threshold,
                forall|j2: int|
                    0 <= j2 < cands@.len() ==> (#[trigger] cands@[j2]).id
                        > last_paid_era_for_cluster,
            decreases cands@.len() - j,
        {
            let e = cands[j];
            let count = count_era(&cands, e);
            if count >= threshold {
                let take_it = match &best {
                    None => true,
                    Some(b) => e.id < b.id,
                };
                if take_it {
                    best = Some(e);
                    proof {
                        assert(cands@[j as int] == e);
                        assert(cands@.contains(e));
                    }
                }
            }
            j = j + 1;
        }
        best
    }

}

/// Every era the filter keeps is newer than both markers.
proof fn lemma_eligible_bounds(all: Seq<EraActivity>, last_validated: DdcEra, last_paid: DdcEra)
    ensures
        forall|j: int|
            0 <= j < eligible_eras(all, last_validated, last_paid).len() ==> (
            #[trigger] eligible_eras(all, last_validated, last_paid)[j]).id > last_validated
                && eligible_eras(all, last_validated, last_paid)[j].id > last_paid,
    decreases all.len(),
{
    if all.len() > 0 {
        lemma_eligible_bounds(all.drop_last(), last_validated, last_paid);
        let prev = eligible_eras(all.drop_last(), last_validated, last_paid);
        let cur = eligible_eras(all, last_validated, last_paid);
        assert forall|j: int| 0 <= j < cur.len() implies (#[trigger] cur[j]).id > last_validated
            && cur[j].id > last_paid by {
            if j < prev.len() {
                assert(cur[j] == prev[j]);
            } else {
                assert(cur[j] == all.last());
            }
        }
    }
}

/// An eligible-era list is never longer than the list it filters.
proof fn lemma_eligible_len(all: Seq<EraActivity>, last_validated: DdcEra, last_paid: DdcEra)
    ensures
        eligible_eras(all, last_validated, last_paid).len() <= all.len(),
    decreases all.len(),
{
    if all.len() > 0 {
        lemma_eligible_len(all.drop_last(), last_validated, last_paid);
    }
}

/// Decides equality of two validation statuses.
pub fn status_eq(a: EraValidationStatus, b: EraValidationStatus) -> (r: bool)
    ensures
        r == (a == b),
{
    a == b
}

/// Whether a root is the defined zero hash, the commitment of an era with
/// no activity.
pub fn is_zero_root(root: &Vec<u8>) -> (r: bool)
    ensures
        r == (root@ == crate::merkle::zero_hash()),
{
    if root.len() != 32 {
        proof {
            assert(root@.len() != crate::merkle::zero_hash().len());
        }
        return false;
    }
    let mut i: usize = 0;
    while i < 32
        invariant
            i <= 32,
            root@.len() == 32,
            forall|k: int| 0 <= k < i ==> root@[k] == 0u8,
        decreases 32 - i,
    {
        if root[i] != 0 {
            return false;
        }
        i = i + 1;
    }
    proof {
        assert(root@ =~= crate::merkle::zero_hash());
    }
    true
}

/// Whether a vote stands for this exact pair of roots.
pub open spec fn vote_matches(v: RootsVote, payers: Seq<u8>, payees: Seq<u8>) -> bool {
    v.payers_merkle_root_hash@ == payers && v.payees_merkle_root_hash@ == payees
}

/// Whether some vote stands for this exact pair of roots.
pub open spec fn has_vote(votes: Seq<RootsVote>, payers: Seq<u8>, payees: Seq<u8>) -> bool {
    exists|i: int| 0 <= i < votes.len() && vote_matches(#[trigger] votes[i], payers, payees)
}

/// Whether a vote list holds at most one vote per exact pair of roots.
pub open spec fn votes_wf(votes: Seq<RootsVote>) -> bool {
    forall|i: int, j: int|
        0 <= i < j < votes.len() ==> !((#[trigger] votes[i]).payers_merkle_root_hash@ == (
        #[trigger] votes[j]).payers_merkle_root_hash@ && (votes[i]).payees_merkle_root_hash@ == (
        votes[j]).payees_merkle_root_hash@)
}

/// Whether the caller has already signed this exact pair of roots.
pub open spec fn has_signed(
    votes: Seq<RootsVote>,
    payers: Seq<u8>,
    payees: Seq<u8>,
    who: AccountId,
) -> bool {
    exists|i: int|
        0 <= i < votes.len() && vote_matches(#[trigger] votes[i], payers, payees)
            && votes[i].signers@.contains(who)
}

/// Whether the validator signed any root vote of this record.
pub open spec fn validator_signed_in(ev: EraValidation, who: AccountId) -> bool {
    exists|v: int, s: int|
        0 <= v < ev.validators@.len() && 0 <= s < ev.validators@[v].signers@.len() && #[trigger] (
        ev.validators@[v].signers@[s]) == who
}

impl EraValidationStore {
    /// Submits one validator's signed vote for an era's exact
    /// (payers-root, payees-root) pair. Votes are grouped by the exact pair;
    /// once any pair's signer count reaches the quorum share of the
    /// validator set, the pair becomes canonical, the era flips to ready
    /// for payout — or to skipped when both roots are the zero hash, which
    /// signals an era without activity — and no further votes are accepted.
    /// Returns whether this vote promoted the era.
    #[verifier::rlimit(30)]
    pub fn set_prepare_era_for_payout(
        &mut self,
        registry: &ValidatorRegistry,
        caller: AccountId,
        cluster_id: ClusterId,
        era_activity: EraActivity,
        payers_merkle_root_hash: Vec<u8>,
        payees_merkle_root_hash: Vec<u8>,
        validators_quorum: u8,
    ) -> (r: Result<bool, VerificationCallError>)
        requires
            old(self).wf(),
        ensures
            final(self).wf(),
            r is Err ==> final(self).entries@ == old(self).entries@,
            r == Result::<bool, VerificationCallError>::Err(VerificationCallError::Unauthorized)
                <==> !registry.is_ocw_validator_spec(caller),
            registry.is_ocw_validator_spec(caller) ==> ((r
                == Result::<bool, VerificationCallError>::Err(VerificationCallError::NotExpectedState))
                <==> (old(self).has_record(cluster_id, era_activity.id) && (old(self).entries@[old(
                self,
            ).index_of(cluster_id, era_activity.id)]).2.status
                != EraValidationStatus::ValidatingData)),
            registry.is_ocw_validator_spec(caller) && (old(self).has_record(
                cluster_id,
                era_activity.id,
            ) ==> (old(self).entries@[old(self).index_of(cluster_id, era_activity.id)]).2.status
                == EraValidationStatus::ValidatingData) ==> ({
                // a duplicate signature for this exact pair is the only
                // rejection left; otherwise the vote is recorded
                let signed = old(self).has_record(cluster_id, era_activity.id) && has_signed(
                    (old(self).entries@[old(self).index_of(cluster_id, era_activity.id)]).2.validators@,
                    payers_merkle_root_hash@,
                    payees_merkle_root_hash@,
                    caller,
                );
                &&& (r == Result::<bool, VerificationCallError>::Err(
                    VerificationCallError::AlreadySignedEra,
                ) <==> signed)
                &&& (!signed ==> r is Ok)
            }),
            r is Ok ==> final(self).has_record(cluster_id, era_activity.id) && has_signed(
                (final(self).entries@[final(self).index_of(cluster_id, era_activity.id)]).2.validators@,
                payers_merkle_root_hash@,
                payees_merkle_root_hash@,
                caller,
            ),
            r is Ok ==> ({
                let ev = (final(self).entries@[final(self).index_of(cluster_id, era_activity.id)]).2;
                &&& (r->Ok_0 ==> ev.status == (if payers_merkle_root_hash@
                    == crate::merkle::zero_hash() && payees_merkle_root_hash@
                    == crate::merkle::zero_hash() {
                    EraValidationStatus::PayoutSkipped
                } else {
                    EraValidationStatus::ReadyForPayout
                }) && ev.payers_merkle_root_hash@ == payers_merkle_root_hash@
                    && ev.payees_merkle_root_hash@ == payees_merkle_root_hash@ && ev.start_era
                    == era_activity.start && ev.end_era == era_activity.end)
                &&& (!r->Ok_0 ==> ev.status == EraValidationStatus::ValidatingData)
            }),
    {
        if !registry.is_ocw_validator(caller) {
            return Err(VerificationCallError::Unauthorized);
        }
        let found = self.find(cluster_id, era_activity.id);

        // gate on the record's status before touching anything
        if let Some(i) = found {
            if !status_eq(self.entries[i].2.status, EraValidationStatus::ValidatingData) {
                proof {
                    let j = self.index_of(cluster_id, era_activity.id);
                    assert(self.entries@[j].0 == cluster_id && self.entries@[j].1
                        == era_activity.id);
                    assert(j == i as int);
                }
                return Err(VerificationCallError::NotExpectedState);
            }
        }
        proof {
            if self.has_record(cluster_id, era_activity.id) {
                let j = self.index_of(cluster_id, era_activity.id);
                assert(self.entries@[j].0 == cluster_id && self.entries@[j].1 == era_activity.id);
                if found is Some {
                    assert(j == found->Some_0 as int);
                }
            }
        }

        // gate on a duplicate signature for this exact pair of roots
        let mut vote_found: bool = false;
        let mut v: usize = 0;
        if let Some(i) = found {
            let nvotes = self.entries[i].2.validators.len();
            while v < nvotes && !vote_found
                invariant
                    v <= nvotes,
                    i < self.entries@.len(),
                    nvotes == self.entries@[i as int].2.validators@.len(),
                    vote_found ==> v < nvotes && vote_matches(
                        self.entries@[i as int].2.validators@[v as int],
                        payers_merkle_root_hash@,
                        payees_merkle_root_hash@,
                    ),
                    !vote_found ==> forall|k: int|
                        0 <= k < v ==> !vote_matches(
                            #[trigger] self.entries@[i as int].2.validators@[k],
                            payers_merkle_root_hash@,
                            payees_merkle_root_hash@,
                        ),
                decreases nvotes - v + if vote_found {
                    0int
                } else {
                    1int
                },
            {
                let matches_here = bytes_eq(
                    &self.entries[i].2.validators[v].payers_merkle_root_hash,
                    &payers_merkle_root_hash,
                ) && bytes_eq(
                    &self.entries[i].2.validators[v].payees_merkle_root_hash,
                    &payees_merkle_root_hash,
                );
                if matches_here {
                    vote_found = true;
                } else {
                    v = v + 1;
                }
            }
            if vote_found {
                if contains_account(&self.entries[i].2.validators[v].signers, caller) {
                    proof {
                        assert(has_signed(
                            self.entries@[i as int].2.validators@,
                            payers_merkle_root_hash@,
                            payees_merkle_root_hash@,
                            caller,
                        ));
                    }
                    return Err(VerificationCallError::AlreadySignedEra);
                }
            }
            proof {
                // with at most one vote per pair, a signature can only sit
                // in the vote the scan found (or none at all)
                let votes = self.entries@[i as int].2.validators@;
                if has_signed(
                    votes,
                    payers_merkle_root_hash@,
                    payees_merkle_root_hash@,
                    caller,
                ) {
                    let w = choose|w: int|
                        0 <= w < votes.len() && vote_matches(
                            #[trigger] votes[w],
                            payers_merkle_root_hash@,
                            payees_merkle_root_hash@,
                        ) && votes[w].signers@.contains(caller);
                    assert(vote_found);
                    assert(w == v as int);
                    assert(false);
                }
            }
        }

        // all gates passed: take the record out, add the vote, put it back
        let (idx, mut era_validation): (usize, EraValidation) = match found {
            Some(i) => {
                let entry = self.entries.remove(i);
                proof {
                    assert(old(self).entries@[i as int] == entry);
                }
                (i, entry.2)
            },
            None => (self.entries.len(), EraValidation::new_validating()),
        };
        let mut vote: RootsVote = if vote_found {
            era_validation.validators.remove(v)
        } else {
            RootsVote {
                payers_merkle_root_hash: clone_bytes(&payers_merkle_root_hash),
                payees_merkle_root_hash: clone_bytes(&payees_merkle_root_hash),
                signers: Vec::new(),
            }
        };
        vote.signers.push(caller);
        let signer_count = vote.signers.len();
        proof {
            assert(vote.signers@.contains(caller)) by {
                assert(vote.signers@.last() == caller);
            }
            assert(vote_matches(vote, payers_merkle_root_hash@, payees_merkle_root_hash@));
        }
        era_validation.validators.insert(v, vote);

        let threshold = percent_mul(validators_quorum, self_len_u64(&registry.validator_set));
        let ready = threshold <= signer_count as u64;
        if ready {
            era_validation.payers_merkle_root_hash = clone_bytes(&payers_merkle_root_hash);
            era_validation.payees_merkle_root_hash = clone_bytes(&payees_merkle_root_hash);
            era_validation.start_era = era_activity.start;
            era_validation.end_era = era_activity.end;
            if is_zero_root(&payers_merkle_root_hash) && is_zero_root(&payees_merkle_root_hash) {
                era_validation.status = EraValidationStatus::PayoutSkipped;
            } else {
                era_validation.status = EraValidationStatus::ReadyForPayout;
            }
        }
        proof {
            assert(vote_matches(
                era_validation.validators@[v as int],
                payers_merkle_root_hash@,
                payees_merkle_root_hash@,
            ));
            assert(era_validation.validators@[v as int].signers@.contains(caller));
        }
        self.entries.insert(idx, (cluster_id, era_activity.id, era_validation));
        proof {
            assert(self.entries@[idx as int].0 == cluster_id && self.entries@[idx as int].1
                == era_activity.id);
            assert(self.has_record(cluster_id, era_activity.id));
            assert forall|i: int, j: int| 0 <= i < j < self.entries@.len() implies ((
            #[trigger] self.entries@[i]).0, self.entries@[i].1) != ((#[trigger] self.entries@[j]).0,
            self.entries@[j].1) by {
                if found is Some {
                    assert(self.entries@ =~= old(self).entries@.update(
                        idx as int,
                        self.entries@[idx as int],
                    ));
                } else {
                    assert(self.entries@ =~= old(self).entries@.push(self.entries@[idx as int]));
                    assert(!old(self).has_record(cluster_id, era_activity.id));
                }
            }
            let j = self.index_of(cluster_id, era_activity.id);
            assert(self.entries@[j].0 == cluster_id && self.entries@[j].1 == era_activity.id);
            assert(j == idx as int);
        }
        Ok(ready)
    }
}

/// The leaf that a batch of payers stands for under the payers-root
/// commitment: the Merkle root of the batch members' digests.
pub open spec fn customers_batch_leaf(
    payers: Seq<(AccountId, crate::primitives::BucketId, crate::primitives::BucketUsage)>,
) -> Seq<u8> {
    crate::merkle::merkle_root_spec(
        payers.map_values(
            |p: (AccountId, crate::primitives::BucketId, crate::primitives::BucketUsage)|
                crate::merkle::Hashable::hash_spec(
                    crate::payable::BucketPayableUsage { bucket_id: p.1, usage: p.2 },
                ),
        ),
    )
}

/// The leaf that a batch of payees stands for under the payees-root
/// commitment: the Merkle root of the batch members' digests.
pub open spec fn providers_batch_leaf(
    payees: Seq<(AccountId, crate::primitives::NodePubKey, crate::primitives::NodeUsage)>,
) -> Seq<u8> {
    crate::merkle::merkle_root_spec(
        payees.map_values(
            |p: (AccountId, crate::primitives::NodePubKey, crate::primitives::NodeUsage)|
                crate::merkle::Hashable::hash_spec(
                    crate::payable::NodePayableUsage { node_key: p.1, usage: p.2 },
                ),
        ),
    )
}

/// Whether a payers batch stands verified against the era's committed
/// payers root.
pub open spec fn customers_batch_valid_spec(
    store: EraValidationStore,
    cluster_id: ClusterId,
    era_id: DdcEra,
    batch_index: int,
    max_batch_index: int,
    payers: Seq<(AccountId, crate::primitives::BucketId, crate::primitives::BucketUsage)>,
    proof_items: Seq<Seq<u8>>,
) -> bool {
    store.has_record(cluster_id, era_id) && crate::merkle::mmr_verdict(
        (store.entries@[store.index_of(cluster_id, era_id)]).2.payers_merkle_root_hash@,
        crate::merkle::mmr_size_of(max_batch_index),
        crate::merkle::mmr_leaf_pos_of(batch_index),
        customers_batch_leaf(payers),
        proof_items,
    ) == Some(true)
}

/// Whether a payees batch stands verified against the era's committed
/// payees root.
pub open spec fn providers_batch_valid_spec(
    store: EraValidationStore,
    cluster_id: ClusterId,
    era_id: DdcEra,
    batch_index: int,
    max_batch_index: int,
    payees: Seq<(AccountId, crate::primitives::NodePubKey, crate::primitives::NodeUsage)>,
    proof_items: Seq<Seq<u8>>,
) -> bool {
    store.has_record(cluster_id, era_id) && crate::merkle::mmr_verdict(
        (store.entries@[store.index_of(cluster_id, era_id)]).2.payees_merkle_root_hash@,
        crate::merkle::mmr_size_of(max_batch_index),
        crate::merkle::mmr_leaf_pos_of(batch_index),
        providers_batch_leaf(payees),
        proof_items,
    ) == Some(true)
}

impl EraValidationStore {
    /// Marks an era's validation as skipped, if it has no record yet: a
    /// fresh record is written whose zero-roots vote carries the whole
    /// validator set. An existing record is left untouched.
    pub fn do_skip_era_validation(
        &mut self,
        validator_set: &Vec<AccountId>,
        cluster_id: ClusterId,
        era_id: DdcEra,
    )
        requires
            old(self).wf(),
        ensures
            final(self).wf(),
            final(self).has_record(cluster_id, era_id),
            old(self).has_record(cluster_id, era_id) ==> final(self).entries@ == old(
                self,
            ).entries@,
            !old(self).has_record(cluster_id, era_id) ==> final(self).entries@.len() == old(
                self,
            ).entries@.len() + 1 && (final(self).entries@.last()).2.status
                == EraValidationStatus::PayoutSkipped && (final(self).entries@.last()).0
                == cluster_id && (final(self).entries@.last()).1 == era_id && (final(self).entries@.last()).2.validators@.len() == 1
                && ((final(self).entries@.last()).2.validators@[0]).signers@ == validator_set@
                && vote_matches(
                (final(self).entries@.last()).2.validators@[0],
                crate::merkle::zero_hash(),
                crate::merkle::zero_hash(),
            ),
    {
        let found = self.find(cluster_id, era_id);
        if found.is_some() {
            return ;
        }
        let mut signers: Vec<AccountId> = Vec::new();
        let mut i: usize = 0;
        while i < validator_set.len()
            invariant
                i <= validator_set@.len(),
                signers@ =~= validator_set@.take(i as int),
            decreases validator_set@.len() - i,
        {
            signers.push(validator_set[i]);
            proof {
                assert(signers@ =~= validator_set@.take(i + 1));
            }
            i = i + 1;
        }
        let zero_vote = RootsVote {
            payers_merkle_root_hash: zero_root_bytes(),
            payees_merkle_root_hash: zero_root_bytes(),
            signers,
        };
        let mut votes: Vec<RootsVote> = Vec::new();
        votes.push(zero_vote);
        let era_validation = EraValidation {
            validators: votes,
            start_era: 0,
            end_era: 0,
            payers_merkle_root_hash: Vec::new(),
            payees_merkle_root_hash: Vec::new(),
            status: EraValidationStatus::PayoutSkipped,
        };
        self.entries.push((cluster_id, era_id, era_validation));
        proof {
            let n = self.entries@.len() - 1;
            assert(self.entries@[n].0 == cluster_id && self.entries@[n].1 == era_id);
        }
    }

    /// Checks a payers batch against the era's committed payers root: the
    /// batch members are hashed, rolled into the batch leaf, and the leaf's
    /// inclusion proof is verified at the batch's position.
    pub fn is_customers_batch_valid(
        &self,
        cluster_id: ClusterId,
        era_id: DdcEra,
        batch_index: u16,
        max_batch_index: u16,
        payers: &Vec<(AccountId, crate::primitives::BucketId, crate::primitives::BucketUsage)>,
        batch_proof: &crate::primitives::MMRProof,
    ) -> (r: bool)
        requires
            self.wf(),
        ensures
            r == customers_batch_valid_spec(
                *self,
                cluster_id,
                era_id,
                batch_index as int,
                max_batch_index as int,
                payers@,
                batch_proof.proof.deep_view(),
            ),
    {
        let found = self.find(cluster_id, era_id);
        let i = match found {
            Some(i) => i,
            None => {
                return false;
            },
        };
        proof {
            let j = self.index_of(cluster_id, era_id);
            assert(self.entries@[j].0 == cluster_id && self.entries@[j].1 == era_id);
            assert(j == i as int);
        }
        let mut hashes: Vec<Vec<u8>> = Vec::new();
        let mut k: usize = 0;
        while k < payers.len()
            invariant
                k <= payers@.len(),
                hashes@.len() == k,
                forall|m: int|
                    0 <= m < k ==> (#[trigger] hashes@[m])@ == crate::merkle::Hashable::hash_spec(
                        crate::payable::BucketPayableUsage {
                            bucket_id: (payers@[m]).1,
                            usage: (payers@[m]).2,
                        },
                    ) && (hashes@[m])@.len() == 32,
            decreases payers@.len() - k,
        {
            let p = &payers[k];
            let payable = crate::payable::BucketPayableUsage { bucket_id: p.1, usage: p.2 };
            hashes.push(crate::merkle::Hashable::hash(&payable));
            k = k + 1;
        }
        let leaf = crate::merkle::create_merkle_root(&hashes);
        proof {
            assert(hashes.deep_view() =~~= payers@.map_values(
                |p: (AccountId, crate::primitives::BucketId, crate::primitives::BucketUsage)|
                    crate::merkle::Hashable::hash_spec(
                        crate::payable::BucketPayableUsage { bucket_id: p.1, usage: p.2 },
                    ),
            ));
        }
        let pos = crate::merkle::leaf_index_to_pos(batch_index as u64);
        let size = crate::merkle::leaf_index_to_mmr_size(max_batch_index as u64);
        let verdict = crate::merkle::mmr_verify(
            &self.entries[i].2.payers_merkle_root_hash,
            size,
            pos,
            &leaf,
            &batch_proof.proof,
        );
        match verdict {
            Some(true) => true,
            _ => false,
        }
    }

    /// Checks a payees batch against the era's committed payees root, as
    /// [`Self::is_customers_batch_valid`] does for payers.
    pub fn is_providers_batch_valid(
        &self,
        cluster_id: ClusterId,
        era_id: DdcEra,
        batch_index: u16,
        max_batch_index: u16,
        payees: &Vec<(AccountId, crate::primitives::NodePubKey, crate::primitives::NodeUsage)>,
        batch_proof: &crate::primitives::MMRProof,
    ) -> (r: bool)
        requires
            self.wf(),
        ensures
            r == providers_batch_valid_spec(
                *self,
                cluster_id,
                era_id,
                batch_index as int,
                max_batch_index as int,
                payees@,
                batch_proof.proof.deep_view(),
            ),
    {
        let found = self.find(cluster_id, era_id);
        let i = match found {
            Some(i) => i,
            None => {
                return false;
            },
        };
        proof {
            let j = self.index_of(cluster_id, era_id);
            assert(self.entries@[j].0 == cluster_id && self.entries@[j].1 == era_id);
            assert(j == i as int);
        }
        let mut hashes: Vec<Vec<u8>> = Vec::new();
        let mut k: usize = 0;
        while k < payees.len()
            invariant
                k <= payees@.len(),
                hashes@.len() == k,
                forall|m: int|
                    0 <= m < k ==> (#[trigger] hashes@[m])@ == crate::merkle::Hashable::hash_spec(
                        crate::payable::NodePayableUsage {
                            node_key: (payees@[m]).1,
                            usage: (payees@[m]).2,
                        },
                    ) && (hashes@[m])@.len() == 32,
            decreases payees@.len() - k,
        {
            let p = &payees[k];
            let payable = crate::payable::NodePayableUsage { node_key: p.1, usage: p.2 };
            hashes.push(crate::merkle::Hashable::hash(&payable));
            k = k + 1;
        }
        let leaf = crate::merkle::create_merkle_root(&hashes);
        proof {
            assert(hashes.deep_view() =~~= payees@.map_values(
                |p: (AccountId, crate::primitives::NodePubKey, crate::primitives::NodeUsage)|
                    crate::merkle::Hashable::hash_spec(
                        crate::payable::NodePayableUsage { node_key: p.1, usage: p.2 },
                    ),
            ));
        }
        let pos = crate::merkle::leaf_index_to_pos(batch_index as u64);
        let size = crate::merkle::leaf_index_to_mmr_size(max_batch_index as u64);
        let verdict = crate::merkle::mmr_verify(
            &self.entries[i].2.payees_merkle_root_hash,
            size,
            pos,
            &leaf,
            &batch_proof.proof,
        );
        match verdict {
            Some(true) => true,
            _ => false,
        }
    }

    /// Moves an era's status forward, if it has a record; used when the
    /// payout of an era begins, ends, or fails.
    pub fn set_status(&mut self, cluster_id: ClusterId, era_id: DdcEra, status: EraValidationStatus)
        -> (r: Result<(), VerificationCallError>)
        requires
            old(self).wf(),
        ensures
            final(self).wf(),
            r is Err <==> !old(self).has_record(cluster_id, era_id),
            r is Err ==> r->Err_0 == VerificationCallError::NoEraValidation && final(self).entries@
                == old(self).entries@,
            r is Ok ==> final(self).entries@.len() == old(self).entries@.len()
                && final(self).has_record(cluster_id, era_id)
                && (final(self).entries@[final(self).index_of(cluster_id, era_id)]).2.status
                == status,
    {
        let found = self.find(cluster_id, era_id);
        let i = match found {
            Some(i) => i,
            None => {
                return Err(VerificationCallError::NoEraValidation);
            },
        };
        let entry = self.entries.remove(i);
        let mut era_validation = entry.2;
        era_validation.status = status;
        self.entries.insert(i, (entry.0, entry.1, era_validation));
        proof {
            assert(self.entries@ =~= old(self).entries@.update(i as int, self.entries@[i as int]));
            assert(self.entries@[i as int].0 == cluster_id && self.entries@[i as int].1 == era_id);
            let j = self.index_of(cluster_id, era_id);
            assert(self.entries@[j].0 == cluster_id && self.entries@[j].1 == era_id);
            assert(j == i as int);
        }
        Ok(())
    }
}

/// The zero hash as owned bytes.
pub fn zero_root_bytes() -> (r: Vec<u8>)
    ensures
        r@ == crate::merkle::zero_hash(),
{
    let mut zero: Vec<u8> = Vec::new();
    let mut i: usize = 0;
    while i < 32
        invariant
            i <= 32,
            zero@ =~= Seq::new(i as nat, |k: int| 0u8),
        decreases 32 - i,
    {
        zero.push(0u8);
        proof {
            assert(zero@ =~= Seq::new(i as nat + 1, |k: int| 0u8));
        }
        i = i + 1;
    }
    proof {
        assert(zero@ =~= crate::merkle::zero_hash());
    }
    zero
}

/// Length of an account list as a wide counter.
fn self_len_u64(list: &Vec<AccountId>) -> (r: u64)
    ensures
        r == list@.len(),
{
    list.len() as u64
}

/// Copies a byte string.
pub fn clone_bytes(bytes: &Vec<u8>) -> (r: Vec<u8>)
    ensures
        r@ == bytes@,
{
    let mut out: Vec<u8> = Vec::new();
    let mut i: usize = 0;
    while i < bytes.len()
        invariant
            i <= bytes@.len(),
            out@ =~= bytes@.take(i as int),
        decreases bytes@.len() - i,
    {
        out.push(bytes[i]);
        proof {
            assert(out@ =~= bytes@.take(i + 1));
        }
        i = i + 1;
    }
    proof {
        assert(bytes@.take(bytes@.len() as int) =~= bytes@);
    }
    out
}

} // verus!
