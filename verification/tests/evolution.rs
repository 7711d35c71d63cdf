//! Tests of the tournament engine: round-robin counts, selection,
//! replacement, accrual, standings and configuration errors.

use dilemma::premades::Strategy;
use dilemma::rules::GameParameters;
use dilemma::tournament::{
    accrue_generation, compute_standings, run_generation, select_worst, tournament,
    TournamentError,
};

fn three_players() -> Vec<Strategy> {
    vec![
        Strategy::AlwaysDefect,
        Strategy::AlwaysCooperate,
        Strategy::TitForTat,
    ]
}

#[test]
fn one_generation_plays_every_unordered_pair_once() {
    let players = three_players();
    let mut population: Vec<usize> = vec![0, 1, 2, 0, 1];
    let mut accrued: Vec<u64> = vec![0; players.len()];
    let parameters = GameParameters::default();
    let mut rng = fastrand::Rng::with_seed(4);
    let outcome = run_generation(&parameters, &mut population, &players, &mut accrued, &mut rng);
    // N = 5 slots: 5 * 4 / 2 = 10 matches.
    assert_eq!(outcome.matches_played, 10);
    assert_eq!(outcome.slot_utilities.len(), 5);
}

#[test]
fn replacement_changes_at_most_one_slot() {
    let players = three_players();
    let parameters = GameParameters::default();
    for seed in 0..10 {
        let before: Vec<usize> = vec![0, 1, 2, 2, 1, 0];
        let mut population = before.clone();
        let mut accrued: Vec<u64> = vec![0; players.len()];
        let mut rng = fastrand::Rng::with_seed(seed);
        let outcome =
            run_generation(&parameters, &mut population, &players, &mut accrued, &mut rng);
        assert_eq!(population.len(), before.len());
        let changed: Vec<usize> = (0..before.len()).filter(|&i| population[i] != before[i]).collect();
        if before[outcome.worst_slot] == before[outcome.source_slot] {
            assert!(changed.is_empty());
        } else {
            assert_eq!(changed, vec![outcome.worst_slot]);
            assert_eq!(population[outcome.worst_slot], before[outcome.source_slot]);
        }
    }
}

#[test]
fn accrued_utility_never_decreases_across_generations() {
    let players = three_players();
    let mut population: Vec<usize> = vec![0, 1, 2, 0, 1, 2];
    let mut accrued: Vec<u64> = vec![0; players.len()];
    let parameters = GameParameters::default();
    let mut rng = fastrand::Rng::with_seed(13);
    let mut previous = accrued.clone();
    for _ in 0..5 {
        run_generation(&parameters, &mut population, &players, &mut accrued, &mut rng);
        for id in 0..accrued.len() {
            assert!(accrued[id] >= previous[id]);
        }
        previous = accrued.clone();
    }
}

#[test]
fn accrual_adds_each_slots_utility_to_its_identifier() {
    let population: Vec<usize> = vec![0, 1, 0, 2];
    let slot_utilities: Vec<u64> = vec![10, 20, 30, 40];
    let mut accrued: Vec<u64> = vec![100, 200, 300];
    accrue_generation(&mut accrued, &population, &slot_utilities);
    assert_eq!(accrued, vec![140, 220, 340]);
}

#[test]
fn worst_slot_ties_resolve_to_the_lowest_index() {
    assert_eq!(select_worst(&vec![5, 3, 3, 7]), 1);
    assert_eq!(select_worst(&vec![4]), 0);
    assert_eq!(select_worst(&vec![2, 2, 2]), 0);
    assert_eq!(select_worst(&vec![9, 8, 1, 1]), 2);
}

#[test]
fn standings_tally_counts_and_totals_in_descending_order() {
    let population: Vec<usize> = vec![0, 0, 1];
    let slot_utilities: Vec<u64> = vec![2, 3, 4];
    let standings = compute_standings(&population, &slot_utilities, 3);
    assert_eq!(standings.len(), 2);
    assert_eq!(standings[0].id, 0);
    assert_eq!(standings[0].count, 2);
    assert_eq!(standings[0].total_utility, 5);
    assert_eq!(standings[0].mean_utility(), 2);
    assert_eq!(standings[1].id, 1);
    assert_eq!(standings[1].count, 1);
    assert_eq!(standings[1].total_utility, 4);
    assert_eq!(standings[1].mean_utility(), 4);
}

#[test]
fn empty_population_is_a_configuration_error() {
    let players = three_players();
    let mut rng = fastrand::Rng::with_seed(1);
    let r = tournament(1, &vec![], &players, &mut rng);
    assert_eq!(r, Err(TournamentError::EmptyPopulation));
}

#[test]
fn unknown_identifier_is_a_configuration_error() {
    let players = three_players();
    let mut rng = fastrand::Rng::with_seed(1);
    let r = tournament(1, &vec![0, 3], &players, &mut rng);
    assert_eq!(r, Err(TournamentError::UnknownIdentifier));
}

#[test]
fn tournament_returns_one_total_per_identifier() {
    let players = three_players();
    let mut rng = fastrand::Rng::with_seed(17);
    let r = tournament(2, &vec![0, 1, 2, 0], &players, &mut rng);
    let accrued = r.expect("a valid configuration runs");
    assert_eq!(accrued.len(), players.len());
    // Every identifier occupies a slot, so with the default table every
    // identifier earns something over two generations.
    assert!(accrued.iter().any(|&u| u > 0));
}

#[test]
fn zero_generations_accrue_nothing() {
    let players = three_players();
    let mut rng = fastrand::Rng::with_seed(3);
    let r = tournament(0, &vec![0, 1], &players, &mut rng);
    assert_eq!(r, Ok(vec![0, 0, 0]));
}

#[test]
fn match_log_holds_each_pair_exactly_once() {
    let players = three_players();
    let mut population: Vec<usize> = vec![0, 1, 2, 1];
    let mut accrued: Vec<u64> = vec![0; players.len()];
    let parameters = GameParameters::default();
    let mut rng = fastrand::Rng::with_seed(8);
    let outcome = run_generation(&parameters, &mut population, &players, &mut accrued, &mut rng);
    let n = 4;
    assert_eq!(outcome.match_log.len(), n * (n - 1) / 2);
    for i in 0..n {
        for j in (i + 1)..n {
            let met: Vec<_> = outcome
                .match_log
                .iter()
                .filter(|e| e.slot_one == i && e.slot_two == j)
                .collect();
            assert_eq!(met.len(), 1, "pair ({i}, {j}) should meet exactly once");
        }
    }
    // Each slot's generation-local utility is the sum of its match utilities.
    for s in 0..n {
        let total: u64 = outcome
            .match_log
            .iter()
            .map(|e| {
                if e.slot_one == s {
                    e.utility_one
                } else if e.slot_two == s {
                    e.utility_two
                } else {
                    0
                }
            })
            .sum();
        assert_eq!(outcome.slot_utilities[s], total);
    }
}
