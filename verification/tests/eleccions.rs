use eleccions_a_delegat::eleccions::{EleccionsADelegat, ElectionError, ElectionStatus};

const OWNER: u64 = 7;
const X: u64 = 1;
const Y: u64 = 2;
const T1: u64 = 100;
const T2: u64 = 200;

fn election() -> EleccionsADelegat {
    let mut el = EleccionsADelegat::init(OWNER, T1, T2, 50).unwrap();
    el.add_elector(OWNER, X).unwrap();
    el.add_elector(OWNER, Y).unwrap();
    el.add_candidatura(OWNER, String::from("Alt")).unwrap();
    el.add_candidatura(OWNER, String::from("Baix")).unwrap();
    el
}

#[test]
fn init_validates_the_window() {
    assert!(matches!(
        EleccionsADelegat::init(OWNER, 50, T2, 50),
        Err(ElectionError::StartInPast)
    ));
    assert!(matches!(
        EleccionsADelegat::init(OWNER, T1, T1, 50),
        Err(ElectionError::EndBeforeStart)
    ));
    assert!(EleccionsADelegat::init(OWNER, T1, T2, 50).is_ok());
}

#[test]
fn scenario_x_votes_once() {
    // census={X,Y}, candidacies=["Alt","Baix"], window=[100,200].
    let mut el = election();
    assert_eq!(el.votar(X, 0, T1 + 1), Ok(()));
    assert_eq!(el.candidatures[0].vots, 1);
    assert_eq!(el.candidatures[1].vots, 0);
    // X left the census when it voted, so a second vote is rejected.
    assert_eq!(el.votar(X, 0, T1 + 2), Err(ElectionError::NotInCensus));
    assert_eq!(el.candidatures[0].vots, 1);
}

#[test]
fn a_readded_elector_is_still_marked_as_voted() {
    let mut el = election();
    assert_eq!(el.votar(X, 1, T1 + 1), Ok(()));
    // Even if the owner puts X back into the census, the register of votants
    // remembers that X has voted.
    assert_eq!(el.add_elector(OWNER, X), Ok(()));
    assert_eq!(el.votar(X, 1, T1 + 2), Err(ElectionError::AlreadyVoted));
    assert_eq!(el.candidatures[1].vots, 1);
}

#[test]
fn administration_is_owner_only() {
    let mut el = election();
    assert_eq!(el.add_elector(X, 3), Err(ElectionError::NotOwner));
    assert_eq!(el.remove_elector(X, Y), Err(ElectionError::NotOwner));
    assert_eq!(
        el.add_candidatura(X, String::from("Mig")),
        Err(ElectionError::NotOwner)
    );
}

#[test]
fn census_membership_is_checked() {
    let mut el = election();
    assert_eq!(el.add_elector(OWNER, X), Err(ElectionError::ElectorAlreadyRegistered));
    assert_eq!(el.remove_elector(OWNER, 99), Err(ElectionError::ElectorNotInCensus));
    assert_eq!(el.remove_elector(OWNER, X), Ok(()));
    // Once removed, X cannot vote.
    assert_eq!(el.votar(X, 0, T1 + 1), Err(ElectionError::NotInCensus));
    // Y is unaffected.
    assert_eq!(el.votar(Y, 0, T1 + 1), Ok(()));
}

#[test]
fn votes_are_accepted_on_both_window_bounds() {
    let mut el = election();
    assert_eq!(el.votar(X, 0, T1 - 1), Err(ElectionError::VotingNotStarted));
    assert_eq!(el.votar(X, 0, T1), Ok(()));
    assert_eq!(el.votar(Y, 0, T2), Ok(()));
    assert_eq!(el.candidatures[0].vots, 2);
}

#[test]
fn votes_outside_the_window_are_rejected() {
    let mut el = election();
    assert_eq!(el.votar(X, 0, T1 - 1), Err(ElectionError::VotingNotStarted));
    assert_eq!(el.votar(X, 0, T2 + 1), Err(ElectionError::VotingFinished));
    assert_eq!(el.candidatures[0].vots, 0);
}

#[test]
fn a_candidacy_index_out_of_range_is_an_error() {
    let mut el = election();
    assert_eq!(el.votar(X, 2, T1 + 1), Err(ElectionError::CandidacyOutOfRange));
    // The failed vote left X eligible.
    assert_eq!(el.votar(X, 1, T1 + 1), Ok(()));
}

#[test]
fn status_follows_the_clock_alone() {
    let el = election();
    assert_eq!(el.status(T1 - 1), ElectionStatus::NotStarted);
    assert_eq!(el.status(T1), ElectionStatus::Voting);
    assert_eq!(el.status(T2), ElectionStatus::Voting);
    assert_eq!(el.status(T2 + 1), ElectionStatus::Closed);
}

#[test]
fn candidacy_names_keep_their_order() {
    let mut el = election();
    // Duplicate names are permitted: votes target indices, not names.
    assert_eq!(el.add_candidatura(OWNER, String::from("Alt")), Ok(()));
    let noms = el.get_candidatures_public();
    assert_eq!(noms, vec![String::from("Alt"), String::from("Baix"), String::from("Alt")]);
}

#[test]
fn total_votes_match_the_votants() {
    let mut el = election();
    assert_eq!(el.votar(X, 0, T1 + 1), Ok(()));
    assert_eq!(el.votar(Y, 1, T1 + 2), Ok(()));
    let total: u64 = el.candidatures.iter().map(|c| c.vots).sum();
    assert_eq!(total, el.registre_votants.len() as u64);
    assert_eq!(total, 2);
}
