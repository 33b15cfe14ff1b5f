//! The contract state: the write-once height registry and, per subject, the
//! voters so far and the running tally.

use vstd::prelude::*;

use crate::tally::{
    classify_tally, lemma_sum_weights_bounded, lemma_sum_weights_push, sum_weights, weight_of,
    Confidence, VoteChoice, Votes,
};

verus! {

/// An account identifier.
pub type AccountId = String;

/// Why a call was refused. A refused call changes nothing.
#[derive(Clone, Copy, Debug, PartialEq, Eq, Structural)]
pub enum ContractError {
    /// The account has already registered its height.
    DuplicateRegistration,
    /// An account tried to vote on itself.
    SelfVoteForbidden,
    /// The subject has not registered a height.
    SubjectNotRegistered,
    /// The voter has already voted on this subject.
    DuplicateVote,
}

/// What the contract knows of one registered subject. `ballots` records each
/// choice cast, in the order of `voters`.
pub struct SubjectView {
    pub height_inches: u8,
    pub weighted_sum: int,
    pub vote_count: nat,
    pub voters: Seq<Seq<char>>,
    pub ballots: Seq<VoteChoice>,
}

/// The state of the contract, keyed by subject.
pub type ContractView = Map<Seq<char>, SubjectView>;

/// A freshly registered subject: no voters, a zero tally.
pub open spec fn fresh_subject(height_inches: u8) -> SubjectView {
    SubjectView {
        height_inches,
        weighted_sum: 0,
        vote_count: 0,
        voters: Seq::empty(),
        ballots: Seq::empty(),
    }
}

/// A subject after `voter` has cast `vote` on it.
pub open spec fn with_vote(s: SubjectView, voter: Seq<char>, vote: VoteChoice) -> SubjectView {
    SubjectView {
        height_inches: s.height_inches,
        weighted_sum: s.weighted_sum + weight_of(vote),
        vote_count: s.vote_count + 1,
        voters: s.voters.push(voter),
        ballots: s.ballots.push(vote),
    }
}

/// The tally of a subject agrees with its voters and the votes they cast, and
/// the subject is not among its own voters.
pub open spec fn subject_consistent(id: Seq<char>, s: SubjectView) -> bool {
    &&& s.vote_count == s.voters.len()
    &&& s.ballots.len() == s.voters.len()
    &&& s.weighted_sum == sum_weights(s.ballots)
    &&& s.voters.no_duplicates()
    &&& !s.voters.contains(id)
}

pub open spec fn tallies_consistent(m: ContractView) -> bool {
    forall|id: Seq<char>| #[trigger] m.contains_key(id) ==> subject_consistent(id, m[id])
}

/// The outcome of a registration by `id`.
pub open spec fn register_outcome(m: ContractView, id: Seq<char>) -> Result<(), ContractError> {
    if m.contains_key(id) {
        Err(ContractError::DuplicateRegistration)
    } else {
        Ok(())
    }
}

/// The state after a registration by `id`.
pub open spec fn register_step(m: ContractView, id: Seq<char>, height_inches: u8) -> ContractView {
    if m.contains_key(id) {
        m
    } else {
        m.insert(id, fresh_subject(height_inches))
    }
}

/// The outcome of a vote by `caller` on `subject`; the checks are made in
/// this order and the first that fails decides.
pub open spec fn vote_outcome(m: ContractView, caller: Seq<char>, subject: Seq<char>) -> Result<
    (),
    ContractError,
> {
    if caller == subject {
        Err(ContractError::SelfVoteForbidden)
    } else if !m.contains_key(subject) {
        Err(ContractError::SubjectNotRegistered)
    } else if m[subject].voters.contains(caller) {
        Err(ContractError::DuplicateVote)
    } else {
        Ok(())
    }
}

/// The state after a vote by `caller` on `subject`.
pub open spec fn vote_step(
    m: ContractView,
    caller: Seq<char>,
    subject: Seq<char>,
    vote: VoteChoice,
) -> ContractView {
    if vote_outcome(m, caller, subject) is Ok {
        m.insert(subject, with_vote(m[subject], caller, vote))
    } else {
        m
    }
}

/// The classification of a subject; `None` for one that has not registered.
pub open spec fn confidence_of(m: ContractView, id: Seq<char>) -> Option<Confidence> {
    if m.contains_key(id) {
        Some(classify_tally(m[id].weighted_sum, m[id].vote_count))
    } else {
        None
    }
}

/// The voters of a subject in the order they voted; empty for one that has
/// not registered.
pub open spec fn voters_of(m: ContractView, id: Seq<char>) -> Seq<Seq<char>> {
    if m.contains_key(id) {
        m[id].voters
    } else {
        Seq::empty()
    }
}

pub open spec fn height_of(m: ContractView, id: Seq<char>) -> Option<u8> {
    if m.contains_key(id) {
        Some(m[id].height_inches)
    } else {
        None
    }
}

/// The identifiers of a sequence of accounts.
pub open spec fn ids_of(v: Seq<AccountId>) -> Seq<Seq<char>> {
    v.map_values(|a: AccountId| a@)
}

struct Subject {
    account_id: AccountId,
    height_inches: u8,
    votes: Votes,
    voters: Vec<AccountId>,
}

/// A stored subject holds what the abstract state says of it.
spec fn represents(s: Subject, v: SubjectView) -> bool {
    &&& s.height_inches == v.height_inches
    &&& s.votes.sum() == v.weighted_sum
    &&& s.votes.count() == v.vote_count
    &&& ids_of(s.voters@) == v.voters
}

/// The height registry and the per-subject voters and tallies.
pub struct Contract {
    subjects: Vec<Subject>,
    model: Ghost<ContractView>,
}

impl View for Contract {
    type V = ContractView;

    closed spec fn view(&self) -> ContractView {
        self.model@
    }
}

impl Contract {
    /// Each subject is stored once, agrees with the abstract state, every
    /// subject of the abstract state is stored, and all tallies are
    /// consistent.
    pub closed spec fn wf(&self) -> bool {
        &&& forall|i: int, j: int|
            0 <= i < j < self.subjects@.len() ==> self.subjects@[i].account_id@
                != self.subjects@[j].account_id@
        &&& forall|i: int|
            0 <= i < self.subjects@.len() ==> {
                &&& self.model@.contains_key(#[trigger] self.subjects@[i].account_id@)
                &&& represents(self.subjects@[i], self.model@[self.subjects@[i].account_id@])
            }
        &&& forall|id: Seq<char>|
            #[trigger] self.model@.contains_key(id) ==> exists|i: int|
                0 <= i < self.subjects@.len() && self.subjects@[i].account_id@ == id
        &&& tallies_consistent(self.model@)
    }

    /// An empty contract: nobody has registered.
    pub fn new() -> (r: Contract)
        ensures
            r.wf(),
            r@ == ContractView::empty(),
    {
        Contract { subjects: Vec::new(), model: Ghost(Map::empty()) }
    }

    /// The index of the subject `account_id`, if it has registered.
    fn find(&self, account_id: &AccountId) -> (r: Option<usize>)
        requires
            self.wf(),
        ensures
            match r {
                Some(i) => {
                    &&& i < self.subjects@.len()
                    &&& self.subjects@[i as int].account_id@ == account_id@
                    &&& self@.contains_key(account_id@)
                },
                None => !self@.contains_key(account_id@),
            },
    {
        let mut i: usize = 0;
        while i < self.subjects.len()
            invariant
                self.wf(),
                i <= self.subjects@.len(),
                forall|j: int| 0 <= j < i ==> self.subjects@[j].account_id@ != account_id@,
            decreases self.subjects@.len() - i,
        {
            if self.subjects[i].account_id == *account_id {
                return Some(i);
            }
            i = i + 1;
        }
        None
    }

    /// The registered height of `account_id`, if any.
    pub fn get_height_inches(&self, account_id: AccountId) -> (r: Option<u8>)
        requires
            self.wf(),
        ensures
            r == height_of(self@, account_id@),
    {
        match self.find(&account_id) {
            Some(i) => Some(self.subjects[i].height_inches),
            None => None,
        }
    }

    /// The accounts that voted on `account_id`, in the order they voted;
    /// empty when it has not registered.
    pub fn get_who_voted_for(&self, account_id: AccountId) -> (r: Vec<AccountId>)
        requires
            self.wf(),
        ensures
            ids_of(r@) == voters_of(self@, account_id@),
    {
        let mut out: Vec<AccountId> = Vec::new();
        match self.find(&account_id) {
            Some(idx) => {
                let voters = &self.subjects[idx].voters;
                let mut i: usize = 0;
                while i < voters.len()
                    invariant
                        i <= voters@.len(),
                        ids_of(out@) =~= ids_of(voters@).take(i as int),
                    decreases voters@.len() - i,
                {
                    let voter = voters[i].clone();
                    let ghost prev = out@;
                    out.push(voter);
                    assert(out@ == prev.push(voter));
                    assert(ids_of(out@) =~= ids_of(prev).push(voter@));
                    assert(ids_of(out@) =~= ids_of(voters@).take(i + 1));
                    i = i + 1;
                }
                assert(ids_of(voters@).take(voters@.len() as int) =~= ids_of(voters@));
            },
            None => {
                assert(ids_of(out@) =~= Seq::<Seq<char>>::empty());
            },
        }
        out
    }

    /// The confidence level of `account_id`, recomputed from its tally;
    /// `None` when it has not registered.
    pub fn get_confidence(&self, account_id: AccountId) -> (r: Option<Confidence>)
        requires
            self.wf(),
        ensures
            r == confidence_of(self@, account_id@),
    {
        match self.find(&account_id) {
            Some(i) => {
                proof {
                    lemma_sum_weights_bounded(self@[account_id@].ballots);
                }
                Some(self.subjects[i].votes.confidence())
            },
            None => None,
        }
    }

    /// The tally of `account_id`, if it has registered.
    pub fn get_votes(&self, account_id: AccountId) -> (r: Option<Votes>)
        requires
            self.wf(),
        ensures
            match r {
                Some(v) => self@.contains_key(account_id@) && v.sum()
                    == self@[account_id@].weighted_sum && v.count()
                    == self@[account_id@].vote_count,
                None => !self@.contains_key(account_id@),
            },
    {
        match self.find(&account_id) {
            Some(i) => Some(self.subjects[i].votes),
            None => None,
        }
    }

    /// Whether `voter` is among `voters`.
    fn has_voter(voters: &Vec<AccountId>, voter: &AccountId) -> (r: bool)
        ensures
            r == ids_of(voters@).contains(voter@),
    {
        let mut i: usize = 0;
        while i < voters.len()
            invariant
                i <= voters@.len(),
                forall|j: int| 0 <= j < i ==> voters@[j]@ != voter@,
            decreases voters@.len() - i,
        {
            if voters[i] == *voter {
                assert(ids_of(voters@)[i as int] == voter@);
                return true;
            }
            i = i + 1;
        }
        assert forall|j: int| 0 <= j < ids_of(voters@).len() implies ids_of(voters@)[j] != voter@ by {}
        false
    }

    /// Registers the height of `account_id`, once: a second registration is
    /// refused whatever height it gives. A new subject starts with no voters
    /// and a zero tally.
    pub fn set_height_inches(&mut self, account_id: AccountId, height: u8) -> (r: Result<
        (),
        ContractError,
    >)
        requires
            old(self).wf(),
        ensures
            final(self).wf(),
            r == register_outcome(old(self)@, account_id@),
            final(self)@ == register_step(old(self)@, account_id@, height),
    {
        match self.find(&account_id) {
            Some(_) => Err(ContractError::DuplicateRegistration),
            None => {
                let ghost id = account_id@;
                let ghost old_subjects = self.subjects@;
                self.subjects.push(
                    Subject {
                        account_id,
                        height_inches: height,
                        votes: Votes::new(),
                        voters: Vec::new(),
                    },
                );
                self.model = Ghost(self.model@.insert(id, fresh_subject(height)));
                assert(ids_of(Seq::<AccountId>::empty()) =~= Seq::<Seq<char>>::empty());
                assert forall|k: Seq<char>| #[trigger] self.model@.contains_key(k) implies exists|i: int|
                    0 <= i < self.subjects@.len() && self.subjects@[i].account_id@ == k by {
                    if k == id {
                        assert(self.subjects@[old_subjects.len() as int].account_id@ == k);
                    } else {
                        let i = choose|i: int| 0 <= i < old_subjects.len() && old_subjects[i].account_id@ == k;
                        assert(self.subjects@[i].account_id@ == k);
                    }
                }
                Ok(())
            },
        }
    }

    /// `current_user` votes `vote` on `account_id`. Refused, in this order of
    /// checks, when the two are the same account, when `account_id` has not
    /// registered, and when `current_user` has already voted on it. Otherwise
    /// the voter joins the subject's voters and the tally takes the vote, in
    /// one step.
    pub fn vote(&mut self, current_user: AccountId, account_id: AccountId, vote: VoteChoice) -> (r:
        Result<(), ContractError>)
        requires
            old(self).wf(),
            old(self)@.contains_key(account_id@) ==> old(self)@[account_id@].vote_count
                < u32::MAX,
        ensures
            final(self).wf(),
            r == vote_outcome(old(self)@, current_user@, account_id@),
            final(self)@ == vote_step(old(self)@, current_user@, account_id@, vote),
    {
        if current_user == account_id {
            return Err(ContractError::SelfVoteForbidden);
        }
        let idx = match self.find(&account_id) {
            None => {
                return Err(ContractError::SubjectNotRegistered);
            },
            Some(i) => i,
        };
        if Self::has_voter(&self.subjects[idx].voters, &current_user) {
            return Err(ContractError::DuplicateVote);
        }
        let ghost id = account_id@;
        let ghost voter = current_user@;
        let ghost old_subjects = self.subjects@;
        let ghost before = self.model@[id];
        proof {
            lemma_sum_weights_bounded(before.ballots);
            lemma_sum_weights_push(before.ballots, vote);
        }
        let mut subject = self.subjects.remove(idx);
        subject.votes.record(vote);
        subject.voters.push(current_user);
        assert(ids_of(subject.voters@) =~= before.voters.push(voter));
        self.subjects.insert(idx, subject);
        assert(self.subjects@ =~= old_subjects.update(idx as int, subject));
        self.model = Ghost(self.model@.insert(id, with_vote(before, voter, vote)));
        assert(self.model@[id].voters.no_duplicates());
        assert forall|k: Seq<char>| #[trigger] self.model@.contains_key(k) implies exists|i: int|
            0 <= i < self.subjects@.len() && self.subjects@[i].account_id@ == k by {
            let i = choose|i: int| 0 <= i < old_subjects.len() && old_subjects[i].account_id@ == k;
            assert(self.subjects@[i].account_id@ == k);
        }
        Ok(())
    }
}

/// A registration between two reads of a subject's classification leaves it
/// as it was, unless it is that subject's own first registration (which
/// turns "absent" into a zero tally). Reads change nothing, so two reads in a
/// row agree.
pub proof fn lemma_register_keeps_confidence(
    m: ContractView,
    id: Seq<char>,
    registrant: Seq<char>,
    height_inches: u8,
)
    requires
        m.contains_key(id) || registrant != id,
    ensures
        confidence_of(register_step(m, registrant, height_inches), id) == confidence_of(m, id),
{
}

/// Registration is write-once: once `id` has registered, another
/// registration by it is refused whatever height it gives, and the state,
/// the stored height included, stays as the first registration left it.
pub proof fn lemma_register_write_once(m: ContractView, id: Seq<char>, first: u8, second: u8)
    ensures
        ({
            let m1 = register_step(m, id, first);
            &&& register_outcome(m1, id) == Err::<(), ContractError>(
                ContractError::DuplicateRegistration,
            )
            &&& register_step(m1, id, second) == m1
            &&& height_of(register_step(m1, id, second), id) == height_of(m1, id)
            &&& !m.contains_key(id) ==> height_of(m1, id) == Some(first)
        }),
{
}

/// Nobody can vote on themselves, whatever the choice and whether or not
/// they have registered; the refused vote changes nothing.
pub proof fn lemma_no_self_vote(m: ContractView, id: Seq<char>, vote: VoteChoice)
    ensures
        vote_outcome(m, id, id) == Err::<(), ContractError>(ContractError::SelfVoteForbidden),
        vote_step(m, id, id, vote) == m,
{
}

/// After a vote of `voter` on `subject` went through, every later vote of
/// the same voter on the same subject is refused and leaves the tally as it
/// was.
pub proof fn lemma_one_vote_per_voter(
    m: ContractView,
    voter: Seq<char>,
    subject: Seq<char>,
    first: VoteChoice,
    second: VoteChoice,
)
    requires
        vote_outcome(m, voter, subject) is Ok,
    ensures
        ({
            let m1 = vote_step(m, voter, subject, first);
            &&& vote_outcome(m1, voter, subject) == Err::<(), ContractError>(
                ContractError::DuplicateVote,
            )
            &&& vote_step(m1, voter, subject, second) == m1
        }),
{
    let m1 = vote_step(m, voter, subject, first);
    assert(m1[subject].voters.last() == voter);
}

/// Registrations and votes keep every subject's tally in agreement with its
/// voters: the count is the number of voters and the sum is the sum of the
/// weights they cast.
pub proof fn lemma_steps_keep_tallies_consistent(
    m: ContractView,
    caller: Seq<char>,
    subject: Seq<char>,
    height_inches: u8,
    vote: VoteChoice,
)
    requires
        tallies_consistent(m),
    ensures
        tallies_consistent(register_step(m, caller, height_inches)),
        tallies_consistent(vote_step(m, caller, subject, vote)),
{
    let r = register_step(m, caller, height_inches);
    assert forall|id: Seq<char>| #[trigger] r.contains_key(id) implies subject_consistent(id, r[id]) by {
        if id == caller && !m.contains_key(caller) {
            assert(fresh_subject(height_inches).voters.len() == 0);
        }
    }
    if vote_outcome(m, caller, subject) is Ok {
        let before = m[subject];
        let after = with_vote(before, caller, vote);
        lemma_sum_weights_push(before.ballots, vote);
        assert(after.voters.no_duplicates());
        assert(!after.voters.contains(subject)) by {
            if after.voters.contains(subject) {
                let k = choose|k: int| 0 <= k < after.voters.len() && after.voters[k] == subject;
                if k < before.voters.len() {
                    assert(before.voters.contains(subject));
                }
            }
        }
        assert(subject_consistent(subject, after));
    }
}

/// In every state a contract can reach, each subject's tally agrees with its
/// voters and the weights of the votes they cast.
pub proof fn lemma_contract_tallies_consistent(c: &Contract)
    requires
        c.wf(),
    ensures
        tallies_consistent(c@),
{
}

} // verus!
