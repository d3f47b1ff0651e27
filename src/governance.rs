//! The governance state machine: signing a vote, admitting fetched votes into
//! the tally, and the height-fenced advance.
use vstd::prelude::*;
use crate::crypto::{
    derive_public_key, private_key_usable, public_key_of, sign_agenda, signature_of,
    signature_valid, verify_signature, Hash256, PrivateKey, PublicKey, Signature,
};
use crate::state::{lemma_same_entries, with_vote, AgendaVotes, GovernanceState};

verus! {

/// A voter's signed support for an agenda, as carried in a log message.
#[derive(Clone, Copy, Debug)]
pub struct VoteRecord {
    pub agenda_hash: Hash256,
    pub voter: PublicKey,
    pub signature: Signature,
}

/// The ways a governance operation fails.
#[derive(Clone, Copy, Debug, PartialEq, Eq, Structural)]
pub enum GovernanceError {
    /// The state could not be written or read.
    StorageError,
    /// No state has been stored.
    NotFoundError,
    /// The stored state is malformed.
    DeserializationError,
    /// A vote or its message could not be signed.
    SignatureError,
    /// The log would not take the message.
    PropagationError,
    /// The log could not fetch from its peers, or could not advance.
    NetworkError,
    /// The log is at `log_height`, not at the height the caller asserted.
    HeightMismatchError { log_height: u64, expected: u64 },
}

/// Whether a record's signature verifies against the voter it names.
pub open spec fn admissible(r: VoteRecord) -> bool {
    signature_valid(r.agenda_hash@, r.voter@, r.signature@)
}

/// The tally after one record is ingested: an admissible record adds its
/// voter to its agenda, any other record changes nothing.
pub open spec fn ingested(votes: Map<Seq<u8>, Set<Seq<u8>>>, r: VoteRecord) -> Map<Seq<u8>, Set<Seq<u8>>> {
    if admissible(r) {
        with_vote(votes, r.agenda_hash@, r.voter@)
    } else {
        votes
    }
}

/// The tally after the records are ingested in order.
pub open spec fn ingested_all(votes: Map<Seq<u8>, Set<Seq<u8>>>, rs: Seq<VoteRecord>) -> Map<Seq<u8>, Set<Seq<u8>>>
    decreases rs.len(),
{
    if rs.len() == 0 {
        votes
    } else {
        ingested(ingested_all(votes, rs.drop_last()), rs.last())
    }
}

/// Whether `voter` is recorded for `agenda` in a tally.
pub open spec fn tallied(votes: Map<Seq<u8>, Set<Seq<u8>>>, agenda: Seq<u8>, voter: Seq<u8>) -> bool {
    votes.contains_key(agenda) && votes[agenda].contains(voter)
}

/// The governance of one node: the state of its current height.
#[derive(Debug)]
pub struct Governance {
    pub state: GovernanceState,
}

impl Governance {
    pub open spec fn wf(&self) -> bool {
        self.state.wf()
    }

    /// The state to store for a fresh governance at `height`: no votes.
    pub fn create(height: u64) -> (r: GovernanceState)
        ensures
            r.wf(),
            r@.votes == Map::<Seq<u8>, Set<Seq<u8>>>::empty(),
            r@.height == height,
    {
        GovernanceState::new(height)
    }

    /// A governance over a state read back from storage.
    pub fn open(state: GovernanceState) -> (r: Governance)
        requires
            state.wf(),
        ensures
            r.wf(),
            r.state@ == state@,
    {
        Governance { state }
    }

    /// A copy of the current state.
    pub fn read(&self) -> (r: GovernanceState)
        requires
            self.wf(),
        ensures
            r.wf(),
            r@ == self.state@,
    {
        let mut votes: Vec<AgendaVotes> = Vec::new();
        let mut i: usize = 0;
        while i < self.state.votes.len()
            invariant
                i <= self.state.votes@.len(),
                votes@.len() == i,
                forall|k: int| 0 <= k < i ==> (#[trigger] votes@[k]).agenda_hash == self.state.votes@[k].agenda_hash
                    && votes@[k].voters@ == self.state.votes@[k].voters@,
            decreases self.state.votes@.len() - i,
        {
            let entry = &self.state.votes[i];
            let mut voters: Vec<PublicKey> = Vec::new();
            let mut j: usize = 0;
            while j < entry.voters.len()
                invariant
                    j <= entry.voters@.len(),
                    voters@ == entry.voters@.subrange(0, j as int),
                decreases entry.voters@.len() - j,
            {
                voters.push(entry.voters[j]);
                j = j + 1;
                assert(voters@ =~= entry.voters@.subrange(0, j as int));
            }
            assert(voters@ =~= entry.voters@);
            votes.push(AgendaVotes { agenda_hash: entry.agenda_hash, voters });
            i = i + 1;
        }
        let r = GovernanceState { votes, height: self.state.height };
        proof {
            lemma_same_entries(r.votes@, self.state.votes@);
        }
        r
    }

    /// Signs `agenda_hash` with `private_key`: the record to wrap in a log
    /// message and submit. The tally is not touched; the vote counts once it
    /// comes back through `fetch`.
    pub fn vote(&self, agenda_hash: Hash256, private_key: &PrivateKey) -> (r: Result<VoteRecord, GovernanceError>)
        ensures
            r is Ok <==> private_key_usable(private_key@),
            r matches Ok(rec) ==> rec.agenda_hash == agenda_hash && rec.voter@ == public_key_of(private_key@)
                && rec.signature@ == signature_of(agenda_hash@, private_key@),
            r matches Err(e) ==> e == GovernanceError::SignatureError,
    {
        match sign_agenda(&agenda_hash, private_key) {
            Some(signature) => {
                let voter = derive_public_key(private_key);
                Ok(VoteRecord { agenda_hash, voter, signature })
            },
            None => Err(GovernanceError::SignatureError),
        }
    }

    /// Admits one fetched record: its voter joins the agenda's set when the
    /// signature verifies; otherwise the record is dropped. Returns whether it
    /// was admitted.
    pub fn ingest(&mut self, record: &VoteRecord) -> (admitted: bool)
        requires
            old(self).wf(),
        ensures
            final(self).wf(),
            admitted == admissible(*record),
            final(self).state@.votes == ingested(old(self).state@.votes, *record),
            final(self).state@.height == old(self).state@.height,
    {
        if verify_signature(&record.agenda_hash, &record.voter, &record.signature) {
            self.state.add_vote(&record.agenda_hash, &record.voter);
            true
        } else {
            false
        }
    }

    /// Folds the records that the log fetched into the tally, in order. A
    /// record that does not verify is dropped without stopping the rest.
    pub fn fetch(&mut self, records: &Vec<VoteRecord>)
        requires
            old(self).wf(),
        ensures
            final(self).wf(),
            final(self).state@.votes == ingested_all(old(self).state@.votes, records@),
            final(self).state@.height == old(self).state@.height,
    {
        let ghost start = self.state@.votes;
        let mut i: usize = 0;
        while i < records.len()
            invariant
                i <= records@.len(),
                self.wf(),
                self.state@.votes == ingested_all(start, records@.subrange(0, i as int)),
                self.state@.height == old(self).state@.height,
            decreases records@.len() - i,
        {
            self.ingest(&records[i]);
            proof {
                let next = records@.subrange(0, i + 1);
                assert(next.drop_last() =~= records@.subrange(0, i as int));
                assert(next.last() == records@[i as int]);
            }
            i = i + 1;
        }
        assert(records@.subrange(0, records@.len() as int) =~= records@);
    }

    /// The fencing check of an advance: it may go on only when the log's
    /// height is the one the caller asserts. The state is not touched.
    pub fn advance(&self, log_height: u64, height_to_assert: u64) -> (r: Result<(), GovernanceError>)
        ensures
            r is Ok <==> log_height == height_to_assert,
            r is Err ==> r == Err::<(), GovernanceError>(
                GovernanceError::HeightMismatchError { log_height, expected: height_to_assert },
            ),
    {
        if log_height != height_to_assert {
            Err(GovernanceError::HeightMismatchError { log_height, expected: height_to_assert })
        } else {
            Ok(())
        }
    }

    /// Completes an advance once the log has answered. When the log advanced,
    /// the votes are discarded and the height moves up by one; when it did not,
    /// the state stays as it was and the log's error is returned.
    pub fn complete_advance(&mut self, log_advanced: Result<(), GovernanceError>) -> (r: Result<(), GovernanceError>)
        requires
            old(self).wf(),
            old(self).state.height < u64::MAX,
        ensures
            final(self).wf(),
            r == log_advanced,
            r is Ok ==> final(self).state@.votes == Map::<Seq<u8>, Set<Seq<u8>>>::empty()
                && final(self).state@.height == old(self).state@.height + 1,
            r is Err ==> final(self).state@ == old(self).state@,
    {
        match log_advanced {
            Ok(done) => {
                self.state = GovernanceState::new(self.state.height + 1);
                Ok(done)
            },
            Err(e) => Err(e),
        }
    }
}

/// Ingesting the same record a second time leaves the tally as the first
/// ingestion left it.
pub proof fn lemma_ingest_idempotent(votes: Map<Seq<u8>, Set<Seq<u8>>>, r: VoteRecord)
    ensures
        ingested(ingested(votes, r), r) == ingested(votes, r),
{
    if admissible(r) {
        let once = ingested(votes, r);
        let a = r.agenda_hash@;
        assert(once.contains_key(a) && once[a].contains(r.voter@));
        assert(once[a].insert(r.voter@) =~= once[a]);
        assert(ingested(once, r) =~= once);
    }
}

/// Records whose signature does not verify contribute nothing: ingesting a
/// sequence gives the tally that ingesting only its admissible records gives,
/// however often and wherever the others occur.
pub proof fn lemma_inadmissible_ignored(votes: Map<Seq<u8>, Set<Seq<u8>>>, rs: Seq<VoteRecord>)
    ensures
        ingested_all(votes, rs) == ingested_all(votes, rs.filter(|r: VoteRecord| admissible(r))),
    decreases rs.len(),
{
    let keep = |r: VoteRecord| admissible(r);
    reveal_with_fuel(Seq::filter, 2);
    if rs.len() > 0 {
        lemma_inadmissible_ignored(votes, rs.drop_last());
        let sub = rs.drop_last().filter(keep);
        if admissible(rs.last()) {
            assert(rs.filter(keep) == sub.push(rs.last()));
            assert(sub.push(rs.last()).drop_last() =~= sub);
        } else {
            assert(rs.filter(keep) == sub);
        }
    }
}

/// A voter is in an agenda's set after ingestion only if it was there before,
/// or some admissible record among those ingested names that voter and agenda.
/// A record whose signature does not verify therefore never puts its claimed
/// voter in the tally.
pub proof fn lemma_only_admitted_voters(
    votes: Map<Seq<u8>, Set<Seq<u8>>>,
    rs: Seq<VoteRecord>,
    agenda: Seq<u8>,
    voter: Seq<u8>,
)
    requires
        tallied(ingested_all(votes, rs), agenda, voter),
    ensures
        tallied(votes, agenda, voter) || exists|i: int|
            0 <= i < rs.len() && admissible(#[trigger] rs[i]) && rs[i].agenda_hash@ == agenda
                && rs[i].voter@ == voter,
    decreases rs.len(),
{
    if rs.len() > 0 {
        let prev = ingested_all(votes, rs.drop_last());
        let last = rs.last();
        if tallied(prev, agenda, voter) {
            lemma_only_admitted_voters(votes, rs.drop_last(), agenda, voter);
            if !tallied(votes, agenda, voter) {
                let i = choose|i: int|
                    0 <= i < rs.drop_last().len() && admissible(#[trigger] rs.drop_last()[i])
                        && rs.drop_last()[i].agenda_hash@ == agenda && rs.drop_last()[i].voter@ == voter;
                assert(rs[i] == rs.drop_last()[i]);
            }
        } else {
            assert(admissible(last) && last.agenda_hash@ == agenda && last.voter@ == voter);
            assert(rs[rs.len() - 1] == last);
        }
    }
}

} // verus!
