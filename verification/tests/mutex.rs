use mystd::mutex::advance;
use mystd::mutex::Observed;
use mystd::mutex::Phase;

#[test]
fn free_lock_is_taken_at_once() {
    assert_eq!(advance(Phase::Claiming, Observed::Won), Phase::Holding);
}

#[test]
fn contended_lock_is_watched_until_free() {
    let mut phase = Phase::Claiming;
    let seen = [
        Observed::Lost,
        Observed::Held,
        Observed::Held,
        Observed::Free,
        Observed::Lost,
        Observed::Free,
        Observed::Won,
    ];
    let expected = [
        Phase::Watching,
        Phase::Watching,
        Phase::Watching,
        Phase::Claiming,
        Phase::Watching,
        Phase::Claiming,
        Phase::Holding,
    ];
    for (observed, after) in seen.into_iter().zip(expected) {
        phase = advance(phase, observed);
        assert_eq!(phase, after);
    }
}

#[test]
fn what_cannot_be_observed_changes_nothing() {
    assert_eq!(advance(Phase::Claiming, Observed::Free), Phase::Claiming);
    assert_eq!(advance(Phase::Claiming, Observed::Held), Phase::Claiming);
    assert_eq!(advance(Phase::Watching, Observed::Won), Phase::Watching);
    assert_eq!(advance(Phase::Watching, Observed::Lost), Phase::Watching);
    for observed in [Observed::Won, Observed::Lost, Observed::Held, Observed::Free] {
        assert_eq!(advance(Phase::Holding, observed), Phase::Holding);
    }
}
