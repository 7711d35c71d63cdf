//! Tests of the action model, the payoff table, and the match engine.

use dilemma::premades::{AlwaysCooperate, AlwaysDefect, GrimTrigger, SimpleGuesser, Strategy, TitForTat};
use dilemma::rules::{
    run_match, Choice, GameParameters, Player, RoundsPolicy, one_on_one_match, run_encounter,
};

fn classic_table(rounds: RoundsPolicy, steadiness_millis: u64) -> GameParameters {
    GameParameters {
        rounds,
        steadiness_millis,
        cc_payoff: 3,
        cd_payoff: 0,
        dc_payoff: 5,
        dd_payoff: 1,
    }
}

#[test]
fn flip_is_involutive() {
    assert_eq!(Choice::Cooperate.flip().flip(), Choice::Cooperate);
    assert_eq!(Choice::Defect.flip().flip(), Choice::Defect);
}

#[test]
fn flip_swaps_the_two_actions() {
    assert_eq!(Choice::Cooperate.flip(), Choice::Defect);
    assert_eq!(Choice::Defect.flip(), Choice::Cooperate);
}

#[test]
fn default_parameters_match_the_classic_table() {
    let p = GameParameters::default();
    assert_eq!(p.rounds, RoundsPolicy::Geometric(150));
    assert_eq!(p.steadiness_millis, 1000);
    assert_eq!(p.cc_payoff, 3);
    assert_eq!(p.cd_payoff, 0);
    assert_eq!(p.dc_payoff, 5);
    assert_eq!(p.dd_payoff, 1);
}

#[test]
fn mutual_defection_scores_one_point_per_round() {
    // Two always-defect strategies, five rounds, no noise: both end at 5.
    let p = classic_table(RoundsPolicy::Fixed(5), 1000);
    let mut rng = fastrand::Rng::with_seed(7);
    let (u1, u2) = one_on_one_match(&p, &AlwaysDefect, &AlwaysDefect, &mut rng);
    assert_eq!(u1, 5);
    assert_eq!(u2, 5);
}

#[test]
fn defector_exploits_cooperator() {
    // Cooperator against defector, three rounds, no noise: 0 versus 15.
    let p = classic_table(RoundsPolicy::Fixed(3), 1000);
    let mut rng = fastrand::Rng::with_seed(7);
    let (u1, u2) = one_on_one_match(&p, &AlwaysCooperate, &AlwaysDefect, &mut rng);
    assert_eq!(u1, 0);
    assert_eq!(u2, 15);
}

#[test]
fn tit_for_tat_loses_only_the_first_round_to_a_defector() {
    let p = classic_table(RoundsPolicy::Fixed(3), 1000);
    let mut rng = fastrand::Rng::with_seed(1);
    let m = run_match(&p, 3, &TitForTat, &AlwaysDefect, &mut rng);
    assert_eq!(
        m.history_one,
        vec![Choice::Cooperate, Choice::Defect, Choice::Defect]
    );
    assert_eq!(m.history_two, vec![Choice::Defect; 3]);
    assert_eq!(m.utility_one, 2);
    assert_eq!(m.utility_two, 7);
}

#[test]
fn noiseless_deterministic_matches_are_reproducible() {
    // With steadiness 1000 and deterministic strategies the transcript is a
    // pure function of the round count, whatever the generator seed.
    let p = classic_table(RoundsPolicy::Fixed(10), 1000);
    let mut rng_a = fastrand::Rng::with_seed(1);
    let mut rng_b = fastrand::Rng::with_seed(999);
    let a = run_match(&p, 10, &GrimTrigger, &TitForTat, &mut rng_a);
    let b = run_match(&p, 10, &GrimTrigger, &TitForTat, &mut rng_b);
    assert_eq!(a.history_one, b.history_one);
    assert_eq!(a.history_two, b.history_two);
    assert_eq!(a.utility_one, b.utility_one);
    assert_eq!(a.utility_two, b.utility_two);
}

#[test]
fn zero_steadiness_negates_every_action() {
    // Two always-cooperate strategies under total noise defect every round.
    let p = classic_table(RoundsPolicy::Fixed(4), 0);
    let mut rng = fastrand::Rng::with_seed(21);
    let m = run_match(&p, 4, &AlwaysCooperate, &AlwaysCooperate, &mut rng);
    assert_eq!(m.history_one, vec![Choice::Defect; 4]);
    assert_eq!(m.history_two, vec![Choice::Defect; 4]);
    assert_eq!(m.utility_one, 4);
    assert_eq!(m.utility_two, 4);
}

#[test]
fn zero_steadiness_swaps_asymmetric_payoffs() {
    let p = classic_table(RoundsPolicy::Fixed(2), 0);
    let mut rng = fastrand::Rng::with_seed(3);
    let (u1, u2) = one_on_one_match(&p, &AlwaysCooperate, &AlwaysDefect, &mut rng);
    // The cooperator really defects and the defector really cooperates.
    assert_eq!(u1, 10);
    assert_eq!(u2, 0);
}

#[test]
fn zero_rounds_is_a_legal_degenerate_match() {
    let p = classic_table(RoundsPolicy::Fixed(0), 1000);
    let mut rng = fastrand::Rng::with_seed(5);
    let (u1, u2) = one_on_one_match(&p, &AlwaysDefect, &AlwaysCooperate, &mut rng);
    assert_eq!(u1, 0);
    assert_eq!(u2, 0);
}

#[test]
fn uniform_rounds_stay_in_the_range() {
    // Mutual defection pays 1 per round, so the utility reveals the count.
    let p = classic_table(RoundsPolicy::Uniform(2, 4), 1000);
    for seed in 0..20 {
        let mut rng = fastrand::Rng::with_seed(seed);
        let (u1, u2) = one_on_one_match(&p, &AlwaysDefect, &AlwaysDefect, &mut rng);
        assert_eq!(u1, u2);
        assert!((2..=4).contains(&u1), "round count {u1} out of range");
    }
}

#[test]
fn geometric_rounds_give_both_sides_the_same_count() {
    let p = classic_table(RoundsPolicy::Geometric(3), 1000);
    let mut rng = fastrand::Rng::with_seed(11);
    for _ in 0..10 {
        let (u1, u2) = one_on_one_match(&p, &AlwaysDefect, &AlwaysDefect, &mut rng);
        assert_eq!(u1, u2);
    }
}

#[test]
fn encounter_pays_swapped_perspectives() {
    let p = classic_table(RoundsPolicy::Fixed(1), 1000);
    let mut rng = fastrand::Rng::with_seed(2);
    let r = run_encounter(&p, &vec![], &vec![], &AlwaysCooperate, &AlwaysDefect, &mut rng);
    assert_eq!(r.one_choice, Choice::Cooperate);
    assert_eq!(r.two_choice, Choice::Defect);
    assert_eq!(r.one_payoff, 0);
    assert_eq!(r.two_payoff, 5);
}

#[test]
fn strategy_enum_delegates_to_the_premades() {
    let p = classic_table(RoundsPolicy::Fixed(3), 1000);
    let mut rng = fastrand::Rng::with_seed(9);
    let (u1, u2) = one_on_one_match(
        &p,
        &Strategy::AlwaysCooperate,
        &Strategy::AlwaysDefect,
        &mut rng,
    );
    assert_eq!(u1, 0);
    assert_eq!(u2, 15);
}

#[test]
fn grim_trigger_never_forgives() {
    let mut rng = fastrand::Rng::with_seed(1);
    let mine = vec![Choice::Cooperate, Choice::Cooperate, Choice::Cooperate];
    let theirs = vec![Choice::Defect, Choice::Cooperate, Choice::Cooperate];
    assert_eq!(GrimTrigger.decide(&mine, &theirs, &mut rng), Choice::Defect);
    let peaceful = vec![Choice::Cooperate; 3];
    assert_eq!(GrimTrigger.decide(&mine, &peaceful, &mut rng), Choice::Cooperate);
}

#[test]
fn simple_guesser_opens_like_tit_for_tat() {
    let mut rng = fastrand::Rng::with_seed(1);
    assert_eq!(
        SimpleGuesser.decide(&vec![], &vec![], &mut rng),
        Choice::Cooperate
    );
    assert_eq!(
        SimpleGuesser.decide(&vec![Choice::Cooperate], &vec![Choice::Defect], &mut rng),
        Choice::Defect
    );
}

#[test]
fn simple_guesser_mirrors_a_constant_opponent() {
    // Against a history of pure defection after every circumstance, the
    // estimated defection probability is 1, so the guess is always defect.
    let mut rng = fastrand::Rng::with_seed(1);
    let mine = vec![Choice::Defect; 4];
    let theirs = vec![Choice::Defect; 4];
    assert_eq!(SimpleGuesser.decide(&mine, &theirs, &mut rng), Choice::Defect);
}
