//! The per-height tally: which voters support which agenda.
use vstd::prelude::*;
use crate::crypto::{Hash256, PublicKey};

verus! {

/// The voters recorded for one agenda.
#[derive(Debug)]
pub struct AgendaVotes {
    pub agenda_hash: Hash256,
    pub voters: Vec<PublicKey>,
}

/// The governance state of one height: the tally and the height it belongs to.
#[derive(Debug)]
pub struct GovernanceState {
    /// Agenda hashes and their voters, one entry per agenda.
    pub votes: Vec<AgendaVotes>,
    pub height: u64,
}

/// What a governance state means: agenda digest to set of voter keys, and the height.
pub struct GovernanceStateView {
    pub votes: Map<Seq<u8>, Set<Seq<u8>>>,
    pub height: u64,
}

/// The tally that a list of entries describes.
pub open spec fn tally_of(entries: Seq<AgendaVotes>) -> Map<Seq<u8>, Set<Seq<u8>>> {
    Map::new(
        |a: Seq<u8>| exists|i: int| 0 <= i < entries.len() && #[trigger] entries[i].agenda_hash@ == a,
        |a: Seq<u8>|
            Set::new(
                |v: Seq<u8>|
                    exists|i: int, j: int|
                        0 <= i < entries.len() && #[trigger] entries[i].agenda_hash@ == a && 0 <= j
                            < entries[i].voters@.len() && #[trigger] entries[i].voters@[j]@ == v,
            ),
    )
}

/// The tally after `voter`'s admitted vote for `agenda`: the voter joins the
/// agenda's set, which is created if the agenda had none.
pub open spec fn with_vote(
    votes: Map<Seq<u8>, Set<Seq<u8>>>,
    agenda: Seq<u8>,
    voter: Seq<u8>,
) -> Map<Seq<u8>, Set<Seq<u8>>> {
    if votes.contains_key(agenda) {
        votes.insert(agenda, votes[agenda].insert(voter))
    } else {
        votes.insert(agenda, set![voter])
    }
}

/// No two entries of a list hold the same agenda, and no entry holds a voter twice.
pub open spec fn entries_wf(entries: Seq<AgendaVotes>) -> bool {
    &&& forall|i: int, k: int|
        0 <= i < entries.len() && 0 <= k < entries.len() && i != k ==> #[trigger] entries[i].agenda_hash@
            != #[trigger] entries[k].agenda_hash@
    &&& forall|i: int, j: int, k: int|
        0 <= i < entries.len() && 0 <= j < entries[i].voters@.len() && 0 <= k < entries[i].voters@.len()
            && j != k ==> #[trigger] entries[i].voters@[j]@ != #[trigger] entries[i].voters@[k]@
}

impl AgendaVotes {
    /// Whether `voter` is recorded in this entry.
    pub fn has_voter(&self, voter: &PublicKey) -> (r: bool)
        ensures
            r == exists|j: int| 0 <= j < self.voters@.len() && #[trigger] self.voters@[j]@ == voter@,
    {
        let mut j: usize = 0;
        while j < self.voters.len()
            invariant
                j <= self.voters@.len(),
                forall|k: int| 0 <= k < j ==> #[trigger] self.voters@[k]@ != voter@,
            decreases self.voters@.len() - j,
        {
            if self.voters[j].same_as(voter) {
                return true;
            }
            j = j + 1;
        }
        false
    }
}

/// Two lists whose entries agree in their agendas and voter lists describe
/// the same tally, and the first is well formed when the second is.
pub proof fn lemma_same_entries(s1: Seq<AgendaVotes>, s2: Seq<AgendaVotes>)
    requires
        s1.len() == s2.len(),
        forall|k: int| 0 <= k < s1.len() ==> (#[trigger] s1[k]).agenda_hash@ == s2[k].agenda_hash@
            && s1[k].voters@ == s2[k].voters@,
    ensures
        tally_of(s1) == tally_of(s2),
        entries_wf(s2) ==> entries_wf(s1),
{
    if entries_wf(s2) {
        assert forall|i: int, k: int|
            0 <= i < s1.len() && 0 <= k < s1.len() && i != k implies #[trigger] s1[i].agenda_hash@
                != #[trigger] s1[k].agenda_hash@ by {
            assert(s2[i].agenda_hash@ != s2[k].agenda_hash@);
        }
        assert forall|i: int, j: int, k: int|
            0 <= i < s1.len() && 0 <= j < s1[i].voters@.len() && 0 <= k < s1[i].voters@.len() && j != k
                implies #[trigger] s1[i].voters@[j]@ != #[trigger] s1[i].voters@[k]@ by {
            assert(s2[i].voters@[j]@ != s2[i].voters@[k]@);
        }
    }
    assert forall|a: Seq<u8>| #[trigger] tally_of(s1).contains_key(a) == tally_of(s2).contains_key(a) by {
        if tally_of(s1).contains_key(a) {
            let k = choose|k: int| 0 <= k < s1.len() && #[trigger] s1[k].agenda_hash@ == a;
            assert(s2[k].agenda_hash@ == a);
        }
        if tally_of(s2).contains_key(a) {
            let k = choose|k: int| 0 <= k < s2.len() && #[trigger] s2[k].agenda_hash@ == a;
            assert(s1[k].agenda_hash@ == a);
        }
    }
    assert forall|a: Seq<u8>| #[trigger] tally_of(s1).contains_key(a) implies tally_of(s1)[a] =~= tally_of(s2)[a] by {
        assert forall|v: Seq<u8>| tally_of(s1)[a].contains(v) == tally_of(s2)[a].contains(v) by {
            if tally_of(s1)[a].contains(v) {
                let (k, j) = choose|k: int, j: int|
                    0 <= k < s1.len() && #[trigger] s1[k].agenda_hash@ == a && 0 <= j < s1[k].voters@.len()
                        && #[trigger] s1[k].voters@[j]@ == v;
                assert(s2[k].agenda_hash@ == a && s2[k].voters@[j]@ == v);
            }
            if tally_of(s2)[a].contains(v) {
                let (k, j) = choose|k: int, j: int|
                    0 <= k < s2.len() && #[trigger] s2[k].agenda_hash@ == a && 0 <= j < s2[k].voters@.len()
                        && #[trigger] s2[k].voters@[j]@ == v;
                assert(s1[k].agenda_hash@ == a && s1[k].voters@[j]@ == v);
            }
        }
    }
    assert(tally_of(s1) =~= tally_of(s2));
}

impl View for GovernanceState {
    type V = GovernanceStateView;

    open spec fn view(&self) -> GovernanceStateView {
        GovernanceStateView { votes: tally_of(self.votes@), height: self.height }
    }
}

impl GovernanceState {
    pub open spec fn wf(&self) -> bool {
        entries_wf(self.votes@)
    }

    /// A state at `height` with no votes.
    pub fn new(height: u64) -> (r: GovernanceState)
        ensures
            r.wf(),
            r@.votes == Map::<Seq<u8>, Set<Seq<u8>>>::empty(),
            r@.height == height,
    {
        let r = GovernanceState { votes: Vec::new(), height };
        assert(r@.votes =~= Map::<Seq<u8>, Set<Seq<u8>>>::empty());
        r
    }

    /// The index of the entry for `agenda`, if there is one.
    pub fn find_agenda(&self, agenda: &Hash256) -> (r: Option<usize>)
        ensures
            r matches Some(i) ==> i < self.votes@.len() && self.votes@[i as int].agenda_hash@ == agenda@,
            r is None ==> forall|i: int| 0 <= i < self.votes@.len() ==> #[trigger] self.votes@[i].agenda_hash@ != agenda@,
    {
        let mut i: usize = 0;
        while i < self.votes.len()
            invariant
                i <= self.votes@.len(),
                forall|k: int| 0 <= k < i ==> #[trigger] self.votes@[k].agenda_hash@ != agenda@,
            decreases self.votes@.len() - i,
        {
            if self.votes[i].agenda_hash.same_as(agenda) {
                return Some(i);
            }
            i = i + 1;
        }
        None
    }

    /// Records `voter`'s support for `agenda`; a voter already recorded for it
    /// leaves the tally as it was.
    pub fn add_vote(&mut self, agenda: &Hash256, voter: &PublicKey)
        requires
            old(self).wf(),
        ensures
            final(self).wf(),
            final(self)@.votes == with_vote(old(self)@.votes, agenda@, voter@),
            final(self).height == old(self).height,
    {
        let ghost before = self.votes@;
        match self.find_agenda(agenda) {
            Some(i) => {
                assert(tally_of(before).contains_key(agenda@));
                if self.votes[i].has_voter(voter) {
                    assert(tally_of(before)[agenda@].contains(voter@));
                    assert(tally_of(before)[agenda@].insert(voter@) =~= tally_of(before)[agenda@]);
                    assert(self@.votes =~= with_vote(tally_of(before), agenda@, voter@));
                } else {
                    let mut entry = self.votes.remove(i);
                    entry.voters.push(*voter);
                    self.votes.insert(i, entry);
                    let ghost after = self.votes@;
                    assert(after =~= before.update(i as int, after[i as int]));
                    assert(after[i as int].agenda_hash@ == agenda@);
                    assert forall|a: Seq<u8>| a != agenda@ implies (tally_of(after).contains_key(a)
                        == tally_of(before).contains_key(a)) && (tally_of(before).contains_key(a)
                        ==> tally_of(after)[a] =~= tally_of(before)[a]) by {
                        if tally_of(after).contains_key(a) {
                            let k = choose|k: int| 0 <= k < after.len() && #[trigger] after[k].agenda_hash@ == a;
                            assert(before[k].agenda_hash@ == a);
                        }
                        if tally_of(before).contains_key(a) {
                            let k = choose|k: int| 0 <= k < before.len() && #[trigger] before[k].agenda_hash@ == a;
                            assert(after[k].agenda_hash@ == a);
                        }
                        if tally_of(before).contains_key(a) {
                            assert forall|v: Seq<u8>| tally_of(after)[a].contains(v) == tally_of(before)[a].contains(v) by {
                                if tally_of(after)[a].contains(v) {
                                    let (k, j) = choose|k: int, j: int|
                                        0 <= k < after.len() && #[trigger] after[k].agenda_hash@ == a && 0 <= j
                                            < after[k].voters@.len() && #[trigger] after[k].voters@[j]@ == v;
                                    assert(k != i);
                                    assert(before[k].voters@[j]@ == v);
                                }
                                if tally_of(before)[a].contains(v) {
                                    let (k, j) = choose|k: int, j: int|
                                        0 <= k < before.len() && #[trigger] before[k].agenda_hash@ == a && 0 <= j
                                            < before[k].voters@.len() && #[trigger] before[k].voters@[j]@ == v;
                                    assert(after[k].voters@[j]@ == v);
                                }
                            }
                        }
                    }
                    assert(tally_of(after).contains_key(agenda@));
                    assert forall|v: Seq<u8>| tally_of(after)[agenda@].contains(v)
                        == tally_of(before)[agenda@].insert(voter@).contains(v) by {
                        if tally_of(after)[agenda@].contains(v) {
                            let (k, j) = choose|k: int, j: int|
                                0 <= k < after.len() && #[trigger] after[k].agenda_hash@ == agenda@ && 0 <= j
                                    < after[k].voters@.len() && #[trigger] after[k].voters@[j]@ == v;
                            assert(k == i);
                            if j < before[k].voters@.len() {
                                assert(before[k].voters@[j]@ == v);
                            }
                        }
                        if tally_of(before)[agenda@].contains(v) {
                            let (k, j) = choose|k: int, j: int|
                                0 <= k < before.len() && #[trigger] before[k].agenda_hash@ == agenda@ && 0 <= j
                                    < before[k].voters@.len() && #[trigger] before[k].voters@[j]@ == v;
                            assert(after[k].voters@[j]@ == v);
                        }
                        if v == voter@ {
                            let ghost n = before[i as int].voters@.len() as int;
                            assert(after[i as int].voters@[n]@ == v);
                        }
                    }
                    assert(tally_of(after)[agenda@] =~= tally_of(before)[agenda@].insert(voter@));
                    let ghost m = with_vote(tally_of(before), agenda@, voter@);
                    assert forall|a: Seq<u8>| #[trigger] m.contains_key(a) implies tally_of(after).contains_key(a)
                        && tally_of(after)[a] == m[a] by {
                        if a != agenda@ {
                            assert(tally_of(before).contains_key(a));
                            assert(tally_of(after)[a] =~= tally_of(before)[a]);
                        }
                    }
                    assert forall|a: Seq<u8>| #[trigger] tally_of(after).contains_key(a) implies m.contains_key(a) by {
                        if a != agenda@ {
                            assert(tally_of(before).contains_key(a) || !tally_of(before).contains_key(a));
                        }
                    }
                    assert(tally_of(after) =~= with_vote(tally_of(before), agenda@, voter@));
                }
            },
            None => {
                assert(!tally_of(before).contains_key(agenda@));
                self.votes.push(AgendaVotes { agenda_hash: *agenda, voters: vec![*voter] });
                let ghost after = self.votes@;
                let ghost n = before.len() as int;
                assert(after[n].voters@[0]@ == voter@);
                assert(after[n].agenda_hash@ == agenda@);
                assert forall|a: Seq<u8>| #![auto] a != agenda@ && tally_of(before).contains_key(a)
                    implies tally_of(after).contains_key(a) && tally_of(after)[a] =~= tally_of(before)[a] by {
                    let k0 = choose|k: int| 0 <= k < before.len() && #[trigger] before[k].agenda_hash@ == a;
                    assert(after[k0].agenda_hash@ == a);
                    assert forall|v: Seq<u8>| tally_of(after)[a].contains(v) == tally_of(before)[a].contains(v) by {
                        if tally_of(after)[a].contains(v) {
                            let (k, j) = choose|k: int, j: int|
                                0 <= k < after.len() && #[trigger] after[k].agenda_hash@ == a && 0 <= j
                                    < after[k].voters@.len() && #[trigger] after[k].voters@[j]@ == v;
                            assert(k != n);
                            assert(before[k].voters@[j]@ == v);
                        }
                        if tally_of(before)[a].contains(v) {
                            let (k, j) = choose|k: int, j: int|
                                0 <= k < before.len() && #[trigger] before[k].agenda_hash@ == a && 0 <= j
                                    < before[k].voters@.len() && #[trigger] before[k].voters@[j]@ == v;
                            assert(after[k].voters@[j]@ == v);
                        }
                    }
                }
                assert forall|v: Seq<u8>| tally_of(after)[agenda@].contains(v) == (v == voter@) by {
                    if tally_of(after)[agenda@].contains(v) {
                        let (k, j) = choose|k: int, j: int|
                            0 <= k < after.len() && #[trigger] after[k].agenda_hash@ == agenda@ && 0 <= j
                                < after[k].voters@.len() && #[trigger] after[k].voters@[j]@ == v;
                        if k < n {
                            assert(after[k] == before[k]);
                        }
                        assert(k == n);
                    }
                }
                assert(tally_of(after)[agenda@] =~= set![voter@]);
                assert forall|a: Seq<u8>| tally_of(after).contains_key(a) implies a == agenda@
                    || tally_of(before).contains_key(a) by {
                    let k = choose|k: int| 0 <= k < after.len() && #[trigger] after[k].agenda_hash@ == a;
                    if k < n {
                        assert(before[k].agenda_hash@ == a);
                    }
                }
                let ghost m = with_vote(tally_of(before), agenda@, voter@);
                assert forall|a: Seq<u8>| #[trigger] m.contains_key(a) implies tally_of(after).contains_key(a)
                    && tally_of(after)[a] == m[a] by {
                    if a != agenda@ {
                        assert(tally_of(before).contains_key(a));
                        assert(tally_of(after)[a] =~= tally_of(before)[a]);
                    }
                }
                assert forall|a: Seq<u8>| #[trigger] tally_of(after).contains_key(a) implies m.contains_key(a) by {
                    if a != agenda@ {
                        assert(tally_of(before).contains_key(a) || !tally_of(before).contains_key(a));
                    }
                }
                assert(tally_of(after) =~= with_vote(tally_of(before), agenda@, voter@));
            },
        }
    }
}

} // verus!
