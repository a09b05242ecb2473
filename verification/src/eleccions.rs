//! Time-boxed election with a census of eligible electors.
//!
//! The owner fixes a voting window at creation and manages a census of
//! eligible electors and an append-only list of candidacies. Within the
//! window (`start <= now <= end`, both bounds included) an elector in the
//! census casts exactly one vote for a candidacy by index: the chosen
//! candidacy's count grows by one, the elector leaves the census and enters
//! the register of those who have voted, so no second vote is ever accepted.
//! The number of votes over all candidacies always equals the number of
//! electors that have voted.

use vstd::prelude::*;

verus! {

/// Phase of the election, derived from the clock alone.
#[derive(Clone, Copy, PartialEq, Eq, Structural, Debug)]
pub enum ElectionStatus {
    NotStarted,
    Voting,
    Closed,
}

/// Why an election action was rejected. Creation errors reject the whole
/// configuration; the others reject a single action and leave the state
/// unchanged.
#[derive(Clone, Copy, PartialEq, Eq, Structural, Debug)]
pub enum ElectionError {
    /// The start of the window cannot be before the current time.
    StartInPast,
    /// The end of the window must come after its start.
    EndBeforeStart,
    /// Only the owner may perform this action.
    NotOwner,
    /// The elector is already registered in the census.
    ElectorAlreadyRegistered,
    /// The elector is not in the census.
    ElectorNotInCensus,
    /// The caller is not in the census of electors, so it cannot vote.
    NotInCensus,
    /// The caller has already voted.
    AlreadyVoted,
    /// The voting period has not started yet.
    VotingNotStarted,
    /// The voting period has already finished.
    VotingFinished,
    /// The candidacy index is out of range.
    CandidacyOutOfRange,
}

/// A candidacy: a name and the number of votes it has received.
pub struct Candidatura {
    pub nom: String,
    pub vots: u64,
}

/// The sum of the vote counts over all candidacies.
pub open spec fn sum_vots(s: Seq<Candidatura>) -> int
    decreases s.len(),
{
    if s.len() == 0 {
        0
    } else {
        sum_vots(s.drop_last()) + s.last().vots
    }
}

/// No address occurs twice.
pub open spec fn addrs_unique(s: Seq<u64>) -> bool {
    forall|i: int, j: int| 0 <= i < j < s.len() ==> s[i] != s[j]
}

pub proof fn lemma_sum_vots_nonneg(s: Seq<Candidatura>)
    ensures
        sum_vots(s) >= 0,
    decreases s.len(),
{
    if s.len() > 0 {
        lemma_sum_vots_nonneg(s.drop_last());
    }
}

/// No single vote count exceeds the sum over all candidacies.
pub proof fn lemma_vots_le_sum(s: Seq<Candidatura>, i: int)
    requires
        0 <= i < s.len(),
    ensures
        s[i].vots <= sum_vots(s),
    decreases s.len(),
{
    lemma_sum_vots_nonneg(s.drop_last());
    if i < s.len() - 1 {
        lemma_vots_le_sum(s.drop_last(), i);
        assert(s.drop_last()[i] == s[i]);
    }
}

/// Replacing the candidacy at index `i` shifts the sum by the difference of
/// the vote counts.
pub proof fn lemma_sum_vots_update(s: Seq<Candidatura>, i: int, c: Candidatura)
    requires
        0 <= i < s.len(),
    ensures
        sum_vots(s.update(i, c)) == sum_vots(s) - s[i].vots + c.vots,
    decreases s.len(),
{
    let t = s.update(i, c);
    if i == s.len() - 1 {
        assert(t.last() == c);
        assert(t.drop_last() =~= s.drop_last());
    } else {
        assert(t.last() == s.last());
        assert(t.drop_last() =~= s.drop_last().update(i, c));
        assert(s.drop_last()[i] == s[i]);
        lemma_sum_vots_update(s.drop_last(), i, c);
    }
}

/// Appending a candidacy adds its vote count to the sum.
pub proof fn lemma_sum_vots_push(s: Seq<Candidatura>, c: Candidatura)
    ensures
        sum_vots(s.push(c)) == sum_vots(s) + c.vots,
{
    assert(s.push(c).drop_last() =~= s);
    assert(s.push(c).last() == c);
}

/// Appending a fresh address keeps the addresses unique, and membership
/// afterwards is membership before or equality with the new address.
pub proof fn lemma_addr_push(s: Seq<u64>, x: u64)
    requires
        addrs_unique(s),
        !s.contains(x),
    ensures
        addrs_unique(s.push(x)),
        forall|a: u64| #[trigger] s.push(x).contains(a) <==> s.contains(a) || a == x,
{
    let t = s.push(x);
    assert(forall|p: int| 0 <= p < s.len() ==> t[p] == s[p]);
    assert(t[s.len() as int] == x);
    assert forall|a: u64| #[trigger] t.contains(a) <==> s.contains(a) || a == x by {
        if t.contains(a) {
            let j = choose|j: int| 0 <= j < t.len() && t[j] == a;
            if j < s.len() {
                assert(s[j] == a);
            }
        }
        if s.contains(a) {
            let j = choose|j: int| 0 <= j < s.len() && s[j] == a;
            assert(t[j] == a);
        }
        if a == x {
            assert(t[s.len() as int] == a);
        }
    }
}

/// What `Vec::swap_remove` leaves of a duplicate-free address list: the
/// addresses stay unique, and membership afterwards is membership before
/// minus the removed address.
pub proof fn lemma_addr_swap_remove(s: Seq<u64>, i: int)
    requires
        addrs_unique(s),
        0 <= i < s.len(),
    ensures
        addrs_unique(s.update(i, s.last()).drop_last()),
        forall|a: u64| #[trigger] s.update(i, s.last()).drop_last().contains(a)
            <==> s.contains(a) && a != s[i],
{
    let t = s.update(i, s.last()).drop_last();
    assert(t.len() == s.len() - 1);
    assert(forall|p: int| 0 <= p < t.len() ==> t[p] == (if p == i { s[s.len() - 1] } else { s[p] }));
    assert forall|a: u64| #[trigger] t.contains(a) <==> s.contains(a) && a != s[i] by {
        if t.contains(a) {
            let j = choose|j: int| 0 <= j < t.len() && t[j] == a;
            if j == i {
                assert(s[s.len() - 1] == a);
            } else {
                assert(s[j] == a);
            }
        }
        if s.contains(a) && a != s[i] {
            let j = choose|j: int| 0 <= j < s.len() && s[j] == a;
            if j == s.len() - 1 {
                if i < s.len() - 1 {
                    assert(t[i] == a);
                }
            } else {
                assert(t[j] == a);
            }
        }
    }
}

/// The election: immutable voting window, census of eligible electors,
/// register of electors that have voted, and the list of candidacies.
pub struct EleccionsADelegat {
    /// Address of the account that created the election.
    pub owner: u64,
    /// First instant at which votes are accepted.
    pub data_hora_inici: u64,
    /// Last instant at which votes are accepted.
    pub data_hora_fi: u64,
    /// Census: the addresses currently eligible to vote.
    pub cens_electors: Vec<u64>,
    /// Register of the addresses that have voted.
    pub registre_votants: Vec<u64>,
    /// Candidacies, append-only; indices are stable vote targets.
    pub candidatures: Vec<Candidatura>,
}

impl EleccionsADelegat {
    /// Structural invariant: a window that ends after it starts, a census and
    /// a register without duplicates, and vote counts that account exactly
    /// for the electors that have voted.
    pub open spec fn well_formed(self) -> bool {
        &&& self.data_hora_fi > self.data_hora_inici
        &&& addrs_unique(self.cens_electors@)
        &&& addrs_unique(self.registre_votants@)
        &&& sum_vots(self.candidatures@) == self.registre_votants@.len()
    }

    /// The configuration fields no handler ever touches.
    pub open spec fn same_config(self, other: EleccionsADelegat) -> bool {
        &&& self.owner == other.owner
        &&& self.data_hora_inici == other.data_hora_inici
        &&& self.data_hora_fi == other.data_hora_fi
    }

    /// The phase, derived from the clock alone; both window bounds admit
    /// votes.
    pub open spec fn spec_status(self, now: u64) -> ElectionStatus {
        if now < self.data_hora_inici {
            ElectionStatus::NotStarted
        } else if now <= self.data_hora_fi {
            ElectionStatus::Voting
        } else {
            ElectionStatus::Closed
        }
    }

    /// The first configuration rule the given window breaks, if any.
    pub open spec fn init_error(data_hora_inici: u64, data_hora_fi: u64, now: u64) -> Option<ElectionError> {
        if data_hora_inici <= now {
            Some(ElectionError::StartInPast)
        } else if data_hora_fi <= data_hora_inici {
            Some(ElectionError::EndBeforeStart)
        } else {
            None
        }
    }

    /// Creates an election after validating the voting window exactly once.
    /// `now` is the host's current time; the window must lie strictly in the
    /// future and end after it starts.
    pub fn init(owner: u64, data_hora_inici: u64, data_hora_fi: u64, now: u64) -> (r: Result<
        EleccionsADelegat,
        ElectionError,
    >)
        ensures
            match Self::init_error(data_hora_inici, data_hora_fi, now) {
                Some(e) => r == Err::<EleccionsADelegat, ElectionError>(e),
                None => r matches Ok(el) && {
                    &&& el.well_formed()
                    &&& el.owner == owner
                    &&& el.data_hora_inici == data_hora_inici
                    &&& el.data_hora_fi == data_hora_fi
                    &&& el.cens_electors@.len() == 0
                    &&& el.registre_votants@.len() == 0
                    &&& el.candidatures@.len() == 0
                },
            },
    {
        if data_hora_inici <= now {
            return Err(ElectionError::StartInPast);
        }
        if data_hora_fi <= data_hora_inici {
            return Err(ElectionError::EndBeforeStart);
        }
        Ok(EleccionsADelegat {
            owner,
            data_hora_inici,
            data_hora_fi,
            cens_electors: Vec::new(),
            registre_votants: Vec::new(),
            candidatures: Vec::new(),
        })
    }

    /// Derives the phase from the given current time; nothing is cached.
    pub fn status(&self, now: u64) -> (r: ElectionStatus)
        ensures
            r == self.spec_status(now),
    {
        if now < self.data_hora_inici {
            ElectionStatus::NotStarted
        } else if now <= self.data_hora_fi {
            ElectionStatus::Voting
        } else {
            ElectionStatus::Closed
        }
    }

    /// Registers an elector in the census; owner-only, and the elector must
    /// not be registered already.
    pub fn add_elector(&mut self, caller: u64, adreca: u64) -> (r: Result<(), ElectionError>)
        requires
            old(self).well_formed(),
        ensures
            final(self).well_formed(),
            if caller != old(self).owner {
                r == Err::<(), ElectionError>(ElectionError::NotOwner) && *final(self) == *old(self)
            } else if old(self).cens_electors@.contains(adreca) {
                r == Err::<(), ElectionError>(ElectionError::ElectorAlreadyRegistered)
                    && *final(self) == *old(self)
            } else {
                &&& r is Ok
                &&& old(self).same_config(*final(self))
                &&& final(self).registre_votants@ == old(self).registre_votants@
                &&& final(self).candidatures@ == old(self).candidatures@
                &&& forall|a: u64| #[trigger] final(self).cens_electors@.contains(a)
                    <==> old(self).cens_electors@.contains(a) || a == adreca
            },
    {
        if caller != self.owner {
            return Err(ElectionError::NotOwner);
        }
        match find_addr(&self.cens_electors, adreca) {
            Some(_) => Err(ElectionError::ElectorAlreadyRegistered),
            None => {
                proof {
                    lemma_addr_push(self.cens_electors@, adreca);
                }
                self.cens_electors.push(adreca);
                Ok(())
            },
        }
    }

    /// Removes an elector from the census; owner-only, and the elector must
    /// be registered.
    pub fn remove_elector(&mut self, caller: u64, adreca: u64) -> (r: Result<(), ElectionError>)
        requires
            old(self).well_formed(),
        ensures
            final(self).well_formed(),
            if caller != old(self).owner {
                r == Err::<(), ElectionError>(ElectionError::NotOwner) && *final(self) == *old(self)
            } else if !old(self).cens_electors@.contains(adreca) {
                r == Err::<(), ElectionError>(ElectionError::ElectorNotInCensus)
                    && *final(self) == *old(self)
            } else {
                &&& r is Ok
                &&& old(self).same_config(*final(self))
                &&& final(self).registre_votants@ == old(self).registre_votants@
                &&& final(self).candidatures@ == old(self).candidatures@
                &&& forall|a: u64| #[trigger] final(self).cens_electors@.contains(a)
                    <==> old(self).cens_electors@.contains(a) && a != adreca
            },
    {
        if caller != self.owner {
            return Err(ElectionError::NotOwner);
        }
        match find_addr(&self.cens_electors, adreca) {
            Some(i) => {
                proof {
                    lemma_addr_swap_remove(self.cens_electors@, i as int);
                }
                self.cens_electors.swap_remove(i);
                Ok(())
            },
            None => Err(ElectionError::ElectorNotInCensus),
        }
    }

    /// Appends a candidacy with zero votes; owner-only. Duplicate names are
    /// permitted: votes target an index, never a name.
    pub fn add_candidatura(&mut self, caller: u64, nova_candidatura: String) -> (r: Result<
        (),
        ElectionError,
    >)
        requires
            old(self).well_formed(),
        ensures
            final(self).well_formed(),
            if caller != old(self).owner {
                r == Err::<(), ElectionError>(ElectionError::NotOwner) && *final(self) == *old(self)
            } else {
                &&& r is Ok
                &&& old(self).same_config(*final(self))
                &&& final(self).cens_electors@ == old(self).cens_electors@
                &&& final(self).registre_votants@ == old(self).registre_votants@
                &&& final(self).candidatures@ == old(self).candidatures@.push(
                    Candidatura { nom: nova_candidatura, vots: 0 },
                )
            },
    {
        if caller != self.owner {
            return Err(ElectionError::NotOwner);
        }
        proof {
            lemma_sum_vots_push(
                self.candidatures@,
                Candidatura { nom: nova_candidatura, vots: 0 },
            );
        }
        self.candidatures.push(Candidatura { nom: nova_candidatura, vots: 0 });
        Ok(())
    }

    /// The first guard a vote breaks, if any, checked in the order `votar`
    /// checks them: the caller is in the census, has not voted, the time is
    /// within the window, and the candidacy index is in range.
    pub open spec fn votar_error(self, caller: u64, num_candidatura: usize, now: u64) -> Option<
        ElectionError,
    > {
        if !self.cens_electors@.contains(caller) {
            Some(ElectionError::NotInCensus)
        } else if self.registre_votants@.contains(caller) {
            Some(ElectionError::AlreadyVoted)
        } else if now < self.data_hora_inici {
            Some(ElectionError::VotingNotStarted)
        } else if now > self.data_hora_fi {
            Some(ElectionError::VotingFinished)
        } else if num_candidatura >= self.candidatures@.len() {
            Some(ElectionError::CandidacyOutOfRange)
        } else {
            None
        }
    }

    /// Casts `caller`'s vote for the candidacy at `num_candidatura` at time
    /// `now`: its count grows by exactly one, the caller leaves the census
    /// and enters the register of votants, so a later vote by the same caller
    /// is rejected. Rejected votes leave the state untouched.
    pub fn votar(&mut self, caller: u64, num_candidatura: usize, now: u64) -> (r: Result<
        (),
        ElectionError,
    >)
        requires
            old(self).well_formed(),
        ensures
            final(self).well_formed(),
            match old(self).votar_error(caller, num_candidatura, now) {
                Some(e) => r == Err::<(), ElectionError>(e) && *final(self) == *old(self),
                None => {
                    &&& r is Ok
                    &&& old(self).same_config(*final(self))
                    &&& final(self).candidatures@.len() == old(self).candidatures@.len()
                    &&& final(self).candidatures@[num_candidatura as int].nom
                        == old(self).candidatures@[num_candidatura as int].nom
                    &&& final(self).candidatures@[num_candidatura as int].vots
                        == old(self).candidatures@[num_candidatura as int].vots + 1
                    &&& forall|k: int| 0 <= k < old(self).candidatures@.len() && k != num_candidatura
                        ==> final(self).candidatures@[k] == old(self).candidatures@[k]
                    &&& forall|a: u64| #[trigger] final(self).cens_electors@.contains(a)
                        <==> old(self).cens_electors@.contains(a) && a != caller
                    &&& forall|a: u64| #[trigger] final(self).registre_votants@.contains(a)
                        <==> old(self).registre_votants@.contains(a) || a == caller
                },
            },
    {
        let cens_idx = match find_addr(&self.cens_electors, caller) {
            Some(i) => i,
            None => {
                return Err(ElectionError::NotInCensus);
            },
        };
        if let Some(_) = find_addr(&self.registre_votants, caller) {
            return Err(ElectionError::AlreadyVoted);
        }
        if now < self.data_hora_inici {
            return Err(ElectionError::VotingNotStarted);
        }
        if now > self.data_hora_fi {
            return Err(ElectionError::VotingFinished);
        }
        if num_candidatura >= self.candidatures.len() {
            return Err(ElectionError::CandidacyOutOfRange);
        }
        proof {
            lemma_addr_swap_remove(self.cens_electors@, cens_idx as int);
            lemma_addr_push(self.registre_votants@, caller);
            lemma_vots_le_sum(self.candidatures@, num_candidatura as int);
        }
        self.cens_electors.swap_remove(cens_idx);
        self.registre_votants.push(caller);
        // The register's length is a usize even after the push, so the chosen
        // candidacy's count, bounded by the length before the push, stays
        // below the largest u64 and the increment cannot overflow.
        let register_len = self.registre_votants.len();
        assert(self.candidatures@[num_candidatura as int].vots < register_len);
        assert(self.candidatures@[num_candidatura as int].vots < u64::MAX);
        let nom_actual = self.candidatures[num_candidatura].nom.clone();
        let vots_actuals = self.candidatures[num_candidatura].vots;
        proof {
            lemma_sum_vots_update(
                self.candidatures@,
                num_candidatura as int,
                Candidatura { nom: nom_actual, vots: (vots_actuals + 1) as u64 },
            );
        }
        self.candidatures.set(
            num_candidatura,
            Candidatura { nom: nom_actual, vots: vots_actuals + 1 },
        );
        Ok(())
    }

    /// The names of all candidacies, in the order they were added.
    pub fn get_candidatures_public(&self) -> (r: Vec<String>)
        ensures
            r@.len() == self.candidatures@.len(),
            forall|i: int| 0 <= i < r@.len() ==> r@[i] == self.candidatures@[i].nom,
    {
        let mut llista_noms: Vec<String> = Vec::new();
        let mut i: usize = 0;
        while i < self.candidatures.len()
            invariant
                i <= self.candidatures@.len(),
                llista_noms@.len() == i,
                forall|j: int| 0 <= j < i ==> llista_noms@[j] == self.candidatures@[j].nom,
            decreases self.candidatures@.len() - i,
        {
            llista_noms.push(self.candidatures[i].nom.clone());
            i = i + 1;
        }
        llista_noms
    }
}

/// Finds the position of an address in a list, if it occurs.
fn find_addr(addrs: &Vec<u64>, a: u64) -> (r: Option<usize>)
    ensures
        match r {
            Some(i) => i < addrs@.len() && addrs@[i as int] == a && addrs@.contains(a),
            None => !addrs@.contains(a),
        },
{
    let mut idx: usize = 0;
    while idx < addrs.len()
        invariant
            idx <= addrs@.len(),
            forall|j: int| 0 <= j < idx ==> addrs@[j] != a,
        decreases addrs@.len() - idx,
    {
        if addrs[idx] == a {
            return Some(idx);
        }
        idx = idx + 1;
    }
    None
}

/// Law: before the window opens the election has not started, and within the
/// window it is voting, whatever the census, register and candidacies hold.
pub proof fn lemma_status_of_the_clock(el: EleccionsADelegat, now: u64)
    requires
        el.data_hora_fi > el.data_hora_inici,
    ensures
        now < el.data_hora_inici ==> el.spec_status(now) == ElectionStatus::NotStarted,
        el.data_hora_inici <= now <= el.data_hora_fi ==> el.spec_status(now)
            == ElectionStatus::Voting,
        now > el.data_hora_fi ==> el.spec_status(now) == ElectionStatus::Closed,
{
}

/// Law: a vote is admitted only while the election's status is `Voting`.
pub proof fn lemma_vote_only_while_voting(el: EleccionsADelegat, caller: u64, num: usize, now: u64)
    requires
        el.votar_error(caller, num, now) is None,
    ensures
        el.spec_status(now) == ElectionStatus::Voting,
{
}

/// Law: an elector that has voted can never vote again: every later vote by
/// it is rejected, as not in the census or as already voted.
pub proof fn lemma_no_second_vote(el: EleccionsADelegat, caller: u64, num: usize, now: u64)
    requires
        el.registre_votants@.contains(caller),
    ensures
        el.votar_error(caller, num, now) == Some(ElectionError::NotInCensus)
            || el.votar_error(caller, num, now) == Some(ElectionError::AlreadyVoted),
{
}

/// Law: in a well-formed election the vote counts over all candidacies add
/// up to exactly the number of electors that have voted.
pub proof fn lemma_votes_match_votants(el: EleccionsADelegat)
    requires
        el.well_formed(),
    ensures
        sum_vots(el.candidatures@) == el.registre_votants@.len(),
{
}

} // verus!
