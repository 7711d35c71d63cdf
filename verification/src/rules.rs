//! The action type, the 2x2 payoff model, and the match engine: one noisy
//! encounter per round for a stochastically chosen number of rounds.

use vstd::prelude::*;

use crate::rng::rng_u64_inclusive;

verus! {

/// One of the two moves a player can make in an encounter.
#[derive(Copy, Clone, Debug, PartialEq, Eq, Structural)]
pub enum Choice {
    Cooperate,
    Defect,
}

impl Choice {
    /// The opposite action.
    pub open spec fn spec_flip(self) -> Choice {
        match self {
            Choice::Cooperate => Choice::Defect,
            Choice::Defect => Choice::Cooperate,
        }
    }

    /// Maps each action to the other one.
    pub fn flip(self) -> (r: Choice)
        ensures
            r == self.spec_flip(),
    {
        match self {
            Choice::Cooperate => Choice::Defect,
            Choice::Defect => Choice::Cooperate,
        }
    }
}

/// Flipping an action twice gives the action back: `flip` is its own inverse.
pub proof fn lemma_flip_involutive(c: Choice)
    ensures
        c.spec_flip().spec_flip() == c,
{
}

/// How the number of rounds of a match is chosen.
///
/// `Geometric(mean)` keeps the horizon unknown to the players: after every
/// round the match ends with probability `1 / (mean + 1)`, so the round count
/// is geometrically distributed with mean `mean` and no strategy can exploit
/// a known final round.
#[derive(Copy, Clone, Debug, PartialEq, Eq, Structural)]
pub enum RoundsPolicy {
    /// Always exactly this many rounds.
    Fixed(u64),
    /// Uniformly drawn from an inclusive range.
    Uniform(u64, u64),
    /// Geometrically distributed with this mean.
    Geometric(u64),
}

impl RoundsPolicy {
    /// A policy is well formed when a draw from it cannot fail.
    pub open spec fn valid(self) -> bool {
        match self {
            RoundsPolicy::Fixed(_) => true,
            RoundsPolicy::Uniform(lo, hi) => lo <= hi,
            RoundsPolicy::Geometric(_) => true,
        }
    }
}

/// Immutable configuration of one match: the round-count policy, the chance
/// that an action is carried out as intended, and the four payoff values.
#[derive(Copy, Clone, Debug, PartialEq, Eq, Structural)]
pub struct GameParameters {
    /// How the number of rounds is drawn.
    pub rounds: RoundsPolicy,
    /// Probability out of 1000 that an action is *not* flipped by noise.
    pub steadiness_millis: u64,
    /// Payoff when both sides cooperate.
    pub cc_payoff: u64,
    /// Payoff for cooperating while the other side defects.
    pub cd_payoff: u64,
    /// Payoff for defecting while the other side cooperates.
    pub dc_payoff: u64,
    /// Payoff when both sides defect.
    pub dd_payoff: u64,
}

impl GameParameters {
    /// Well-formedness: steadiness is a probability out of 1000 and the
    /// round policy can always produce a round count.
    pub open spec fn valid(self) -> bool {
        self.steadiness_millis <= 1000 && self.rounds.valid()
    }
}

impl Default for GameParameters {
    /// A geometric horizon with mean 150 rounds, no noise, and the classic
    /// payoff table (3, 0, 5, 1).
    fn default() -> (r: Self)
        ensures
            r == (GameParameters {
                rounds: RoundsPolicy::Geometric(150),
                steadiness_millis: 1000,
                cc_payoff: 3,
                cd_payoff: 0,
                dc_payoff: 5,
                dd_payoff: 1,
            }),
            r.valid(),
    {
        GameParameters {
            rounds: RoundsPolicy::Geometric(150),
            steadiness_millis: 1000,
            cc_payoff: 3,
            cd_payoff: 0,
            dc_payoff: 5,
            dd_payoff: 1,
        }
    }
}

/// The payoff the side that played `mine` receives when the other side
/// played `theirs`.
pub open spec fn spec_payoff(p: GameParameters, mine: Choice, theirs: Choice) -> u64 {
    match (mine, theirs) {
        (Choice::Cooperate, Choice::Cooperate) => p.cc_payoff,
        (Choice::Cooperate, Choice::Defect) => p.cd_payoff,
        (Choice::Defect, Choice::Cooperate) => p.dc_payoff,
        (Choice::Defect, Choice::Defect) => p.dd_payoff,
    }
}

/// Looks one side's payoff up in the 2x2 table.
pub fn payoff(parameters: &GameParameters, mine: Choice, theirs: Choice) -> (r: u64)
    ensures
        r == spec_payoff(*parameters, mine, theirs),
{
    match (mine, theirs) {
        (Choice::Cooperate, Choice::Cooperate) => parameters.cc_payoff,
        (Choice::Cooperate, Choice::Defect) => parameters.cd_payoff,
        (Choice::Defect, Choice::Cooperate) => parameters.dc_payoff,
        (Choice::Defect, Choice::Defect) => parameters.dd_payoff,
    }
}

/// Addition that sticks at `u64::MAX` instead of wrapping.
pub open spec fn spec_sat_add(a: u64, b: u64) -> u64 {
    if a + b > u64::MAX {
        u64::MAX
    } else {
        (a + b) as u64
    }
}

/// Saturating addition never loses utility that was already accrued.
pub proof fn lemma_sat_add_monotone(a: u64, b: u64)
    ensures
        spec_sat_add(a, b) >= a,
        spec_sat_add(a, b) >= b,
{
}

/// Saturating addition is associative, so a total accrued over many matches
/// does not depend on how the additions are grouped.
pub proof fn lemma_sat_add_assoc(a: u64, b: u64, c: u64)
    ensures
        spec_sat_add(spec_sat_add(a, b), c) == spec_sat_add(a, spec_sat_add(b, c)),
{
}

/// Adds two utilities, saturating at `u64::MAX`.
pub fn sat_add(a: u64, b: u64) -> (r: u64)
    ensures
        r == spec_sat_add(a, b),
{
    if a > u64::MAX - b {
        u64::MAX
    } else {
        a + b
    }
}

/// The contract every strategy satisfies: given both sides' realized
/// histories of equal length, produce the next action.  A strategy whose
/// `deterministic` spec holds commits to the action `det_choice` names.
pub trait Player {
    /// Whether `decide` is a pure function of the two histories; claims
    /// nothing unless an implementation says otherwise.
    open spec fn deterministic(&self) -> bool {
        false
    }

    /// The action a deterministic strategy takes; meaningless when
    /// `deterministic` does not hold.
    open spec fn det_choice(&self, your_history: Seq<Choice>, their_history: Seq<Choice>) -> Choice {
        Choice::Cooperate
    }

    /// Picks the next action from the two histories accumulated so far.
    fn decide(
        &self,
        your_history: &Vec<Choice>,
        their_history: &Vec<Choice>,
        rng: &mut fastrand::Rng,
    ) -> (c: Choice)
        requires
            your_history@.len() == their_history@.len(),
        ensures
            self.deterministic() ==> c == self.det_choice(your_history@, their_history@),
    ;
}

/// Keeps an intended action with probability `steadiness_millis / 1000` and
/// flips it otherwise, modelling a trembling hand.
pub fn apply_noise(
    parameters: &GameParameters,
    intended: Choice,
    rng: &mut fastrand::Rng,
) -> (r: Choice)
    requires
        parameters.valid(),
    ensures
        r == intended || r == intended.spec_flip(),
        parameters.steadiness_millis == 1000 ==> r == intended,
        parameters.steadiness_millis == 0 ==> r == intended.spec_flip(),
{
    let draw = rng_u64_inclusive(rng, 1, 1000);
    if draw > parameters.steadiness_millis {
        intended.flip()
    } else {
        intended
    }
}

/// The two realized actions of one round and the two payoffs they earned.
#[derive(Copy, Clone, Debug, PartialEq, Eq, Structural)]
pub struct Results {
    /// Player one's realized (possibly noise-flipped) action.
    pub one_choice: Choice,
    /// Player two's realized action.
    pub two_choice: Choice,
    /// Player one's payoff for this round.
    pub one_payoff: u64,
    /// Player two's payoff for this round.
    pub two_payoff: u64,
}

/// Plays one simultaneous round: both sides choose from the histories so
/// far, independent noise is applied to each action, and the payoffs are
/// looked up from the table with swapped perspectives.
pub fn run_encounter<A: Player, B: Player>(
    parameters: &GameParameters,
    p1_history: &Vec<Choice>,
    p2_history: &Vec<Choice>,
    player_one: &A,
    player_two: &B,
    rng: &mut fastrand::Rng,
) -> (r: Results)
    requires
        parameters.valid(),
        p1_history@.len() == p2_history@.len(),
    ensures
        r.one_payoff == spec_payoff(*parameters, r.one_choice, r.two_choice),
        r.two_payoff == spec_payoff(*parameters, r.two_choice, r.one_choice),
        parameters.steadiness_millis == 1000 && player_one.deterministic() ==> r.one_choice
            == player_one.det_choice(p1_history@, p2_history@),
        parameters.steadiness_millis == 1000 && player_two.deterministic() ==> r.two_choice
            == player_two.det_choice(p2_history@, p1_history@),
        parameters.steadiness_millis == 0 && player_one.deterministic() ==> r.one_choice
            == player_one.det_choice(p1_history@, p2_history@).spec_flip(),
        parameters.steadiness_millis == 0 && player_two.deterministic() ==> r.two_choice
            == player_two.det_choice(p2_history@, p1_history@).spec_flip(),
{
    let one_intended = player_one.decide(p1_history, p2_history, rng);
    let two_intended = player_two.decide(p2_history, p1_history, rng);
    let one_choice = apply_noise(parameters, one_intended, rng);
    let two_choice = apply_noise(parameters, two_intended, rng);
    let one_payoff = payoff(parameters, one_choice, two_choice);
    let two_payoff = payoff(parameters, two_choice, one_choice);
    Results { one_choice, two_choice, one_payoff, two_payoff }
}

/// The saturating sum of one side's payoffs over a whole match, given both
/// sides' realized actions round by round.
pub open spec fn spec_match_utility(p: GameParameters, mine: Seq<Choice>, theirs: Seq<Choice>) -> u64
    recommends
        mine.len() == theirs.len(),
    decreases mine.len(),
{
    if mine.len() == 0 {
        0u64
    } else {
        spec_sat_add(
            spec_match_utility(p, mine.drop_last(), theirs.drop_last()),
            spec_payoff(p, mine.last(), theirs.last()),
        )
    }
}

/// The realized histories of an `n`-round match between two deterministic
/// strategies when no noise is applied: each round both sides answer the
/// histories accumulated so far.
pub open spec fn spec_histories<A: Player, B: Player>(
    player_one: &A,
    player_two: &B,
    n: nat,
) -> (Seq<Choice>, Seq<Choice>)
    decreases n,
{
    if n == 0 {
        (Seq::empty(), Seq::empty())
    } else {
        let prev = spec_histories(player_one, player_two, (n - 1) as nat);
        (
            prev.0.push(player_one.det_choice(prev.0, prev.1)),
            prev.1.push(player_two.det_choice(prev.1, prev.0)),
        )
    }
}

/// Everything one match produced: both realized histories and both
/// accumulated utilities.
pub struct MatchOutcome {
    /// Player one's realized actions, in round order.
    pub history_one: Vec<Choice>,
    /// Player two's realized actions, in round order.
    pub history_two: Vec<Choice>,
    /// Player one's total utility.
    pub utility_one: u64,
    /// Player two's total utility.
    pub utility_two: u64,
}

/// Runs a match of exactly `rounds` rounds.  The utilities are always the
/// payoff sums over the realized histories; without noise, deterministic
/// strategies make the whole transcript a pure function of the round count.
pub fn run_match<A: Player, B: Player>(
    parameters: &GameParameters,
    rounds: u64,
    player_one: &A,
    player_two: &B,
    rng: &mut fastrand::Rng,
) -> (m: MatchOutcome)
    requires
        parameters.valid(),
    ensures
        m.history_one@.len() == rounds,
        m.history_two@.len() == rounds,
        m.utility_one == spec_match_utility(*parameters, m.history_one@, m.history_two@),
        m.utility_two == spec_match_utility(*parameters, m.history_two@, m.history_one@),
        parameters.steadiness_millis == 1000 && player_one.deterministic()
            && player_two.deterministic() ==> (m.history_one@, m.history_two@) == spec_histories(
            player_one,
            player_two,
            rounds as nat,
        ),
{
    let mut p1_history: Vec<Choice> = Vec::new();
    let mut p2_history: Vec<Choice> = Vec::new();
    let mut utility_one: u64 = 0;
    let mut utility_two: u64 = 0;
    let mut i: u64 = 0;
    while i < rounds
        invariant
            i <= rounds,
            parameters.valid(),
            p1_history@.len() == i,
            p2_history@.len() == i,
            utility_one == spec_match_utility(*parameters, p1_history@, p2_history@),
            utility_two == spec_match_utility(*parameters, p2_history@, p1_history@),
            parameters.steadiness_millis == 1000 && player_one.deterministic()
                && player_two.deterministic() ==> (p1_history@, p2_history@) == spec_histories(
                player_one,
                player_two,
                i as nat,
            ),
        decreases rounds - i,
    {
        let ghost h1_prev = p1_history@;
        let ghost h2_prev = p2_history@;
        let result = run_encounter(parameters, &p1_history, &p2_history, player_one, player_two, rng);
        p1_history.push(result.one_choice);
        p2_history.push(result.two_choice);
        utility_one = sat_add(utility_one, result.one_payoff);
        utility_two = sat_add(utility_two, result.two_payoff);
        i = i + 1;
        proof {
            assert(p1_history@.drop_last() =~= h1_prev);
            assert(p2_history@.drop_last() =~= h2_prev);
        }
    }
    MatchOutcome { history_one: p1_history, history_two: p2_history, utility_one, utility_two }
}

/// The largest round count a geometric draw can produce; far beyond any
/// practical match, it only bounds the drawing loop.
pub const GEOMETRIC_ROUND_CAP: u64 = 4294967295;

/// Draws the number of rounds a match will last, per the configured policy.
pub fn draw_rounds(parameters: &GameParameters, rng: &mut fastrand::Rng) -> (r: u64)
    requires
        parameters.valid(),
    ensures
        parameters.rounds matches RoundsPolicy::Fixed(n) ==> r == n,
        parameters.rounds matches RoundsPolicy::Uniform(lo, hi) ==> lo <= r <= hi,
        parameters.rounds matches RoundsPolicy::Geometric(_) ==> r <= GEOMETRIC_ROUND_CAP,
{
    match parameters.rounds {
        RoundsPolicy::Fixed(n) => n,
        RoundsPolicy::Uniform(lo, hi) => rng_u64_inclusive(rng, lo, hi),
        RoundsPolicy::Geometric(mean) => {
            let mut count: u64 = 0;
            while count < GEOMETRIC_ROUND_CAP
                invariant_except_break
                    count <= GEOMETRIC_ROUND_CAP,
                ensures
                    count <= GEOMETRIC_ROUND_CAP,
                decreases GEOMETRIC_ROUND_CAP - count,
            {
                let draw = rng_u64_inclusive(rng, 0, mean);
                if draw == 0 {
                    break ;
                }
                count = count + 1;
            }
            count
        },
    }
}

/// The two no-noise utilities of an `n`-round match between deterministic
/// strategies, as a pure function of the strategies and `n`.
pub open spec fn spec_fixed_match_utilities<A: Player, B: Player>(
    p: GameParameters,
    player_one: &A,
    player_two: &B,
    n: nat,
) -> (u64, u64) {
    let hs = spec_histories(player_one, player_two, n);
    (spec_match_utility(p, hs.0, hs.1), spec_match_utility(p, hs.1, hs.0))
}

/// Runs one full pairing: draws the round count, plays that many noisy
/// encounters, and returns both sides' accumulated utilities.
pub fn one_on_one_match<A: Player, B: Player>(
    parameters: &GameParameters,
    player_one: &A,
    player_two: &B,
    rng: &mut fastrand::Rng,
) -> (utilities: (u64, u64))
    requires
        parameters.valid(),
    ensures
        exists|h1: Seq<Choice>, h2: Seq<Choice>|
            h1.len() == h2.len() && utilities.0 == #[trigger] spec_match_utility(*parameters, h1, h2)
                && utilities.1 == #[trigger] spec_match_utility(*parameters, h2, h1),
        parameters.rounds matches RoundsPolicy::Fixed(n) ==> (parameters.steadiness_millis == 1000
            && player_one.deterministic() && player_two.deterministic() ==> utilities
            == spec_fixed_match_utilities(*parameters, player_one, player_two, n as nat)),
{
    let rounds = draw_rounds(parameters, rng);
    let m = run_match(parameters, rounds, player_one, player_two, rng);
    proof {
        assert(m.history_one@.len() == m.history_two@.len() && m.utility_one
            == spec_match_utility(*parameters, m.history_one@, m.history_two@) && m.utility_two
            == spec_match_utility(*parameters, m.history_two@, m.history_one@));
    }
    (m.utility_one, m.utility_two)
}

} // verus!
