//! The built-in strategies, and a closed sum of them for populations.

use vstd::prelude::*;

use crate::rng::{rng_bool, rng_u64_inclusive, rng_usize_below};
use crate::rules::{Choice, Player};

verus! {

/// Defects no matter what.
pub struct AlwaysDefect;

impl Player for AlwaysDefect {
    open spec fn deterministic(&self) -> bool {
        true
    }

    open spec fn det_choice(&self, your_history: Seq<Choice>, their_history: Seq<Choice>) -> Choice {
        Choice::Defect
    }

    fn decide(
        &self,
        your_history: &Vec<Choice>,
        their_history: &Vec<Choice>,
        rng: &mut fastrand::Rng,
    ) -> Choice {
        Choice::Defect
    }
}

/// Cooperates no matter what.
pub struct AlwaysCooperate;

impl Player for AlwaysCooperate {
    open spec fn deterministic(&self) -> bool {
        true
    }

    open spec fn det_choice(&self, your_history: Seq<Choice>, their_history: Seq<Choice>) -> Choice {
        Choice::Cooperate
    }

    fn decide(
        &self,
        your_history: &Vec<Choice>,
        their_history: &Vec<Choice>,
        rng: &mut fastrand::Rng,
    ) -> Choice {
        Choice::Cooperate
    }
}

/// Cooperates until the opponent defects, then defects forever.
#[derive(Default)]
pub struct GrimTrigger;

impl Player for GrimTrigger {
    open spec fn deterministic(&self) -> bool {
        true
    }

    open spec fn det_choice(&self, your_history: Seq<Choice>, their_history: Seq<Choice>) -> Choice {
        if their_history.contains(Choice::Defect) {
            Choice::Defect
        } else {
            Choice::Cooperate
        }
    }

    fn decide(
        &self,
        your_history: &Vec<Choice>,
        their_history: &Vec<Choice>,
        rng: &mut fastrand::Rng,
    ) -> Choice {
        let mut idx: usize = 0;
        while idx < their_history.len()
            invariant
                idx <= their_history@.len(),
                forall|k: int| 0 <= k < idx ==> their_history@[k] != Choice::Defect,
            decreases their_history@.len() - idx,
        {
            if their_history[idx] == Choice::Defect {
                proof {
                    assert(their_history@.contains(Choice::Defect));
                }
                return Choice::Defect;
            }
            idx = idx + 1;
        }
        proof {
            assert(!their_history@.contains(Choice::Defect));
        }
        Choice::Cooperate
    }
}

/// Does whatever the opponent just did; cooperates on the first turn.
pub struct TitForTat;

impl Player for TitForTat {
    open spec fn deterministic(&self) -> bool {
        true
    }

    open spec fn det_choice(&self, your_history: Seq<Choice>, their_history: Seq<Choice>) -> Choice {
        if their_history.len() == 0 {
            Choice::Cooperate
        } else {
            their_history.last()
        }
    }

    fn decide(
        &self,
        your_history: &Vec<Choice>,
        their_history: &Vec<Choice>,
        rng: &mut fastrand::Rng,
    ) -> Choice {
        if their_history.len() == 0 {
            Choice::Cooperate
        } else {
            their_history[their_history.len() - 1]
        }
    }
}

/// Plays tit-for-tat, but each turn it may forgive a defection and
/// cooperate anyway, with probability `forgivingness_millis / 1000`.
pub struct ForgivingTitForTat {
    /// Probability out of 1000 of forgiving unconditionally.
    pub forgivingness_millis: u64,
}

impl Default for ForgivingTitForTat {
    /// Forgives five percent of the time.
    fn default() -> (r: Self)
        ensures
            r.forgivingness_millis == 50,
    {
        ForgivingTitForTat { forgivingness_millis: 50 }
    }
}

impl Player for ForgivingTitForTat {
    open spec fn deterministic(&self) -> bool {
        false
    }

    open spec fn det_choice(&self, your_history: Seq<Choice>, their_history: Seq<Choice>) -> Choice {
        Choice::Cooperate
    }

    fn decide(
        &self,
        your_history: &Vec<Choice>,
        their_history: &Vec<Choice>,
        rng: &mut fastrand::Rng,
    ) -> (c: Choice)
        ensures
            c == Choice::Cooperate || (their_history@.len() > 0 && c == their_history@.last()),
    {
        if their_history.len() == 0 {
            return Choice::Cooperate;
        }
        let most_recent = their_history[their_history.len() - 1];
        let draw = rng_u64_inclusive(rng, 1, 1000);
        // a draw at or below the threshold forgives unconditionally
        if draw > self.forgivingness_millis {
            most_recent
        } else {
            Choice::Cooperate
        }
    }
}

/// Cooperates unless the opponent defected on both of the last two turns.
pub struct TitForTwoTats;

impl Player for TitForTwoTats {
    open spec fn deterministic(&self) -> bool {
        true
    }

    open spec fn det_choice(&self, your_history: Seq<Choice>, their_history: Seq<Choice>) -> Choice {
        if their_history.len() < 2 {
            Choice::Cooperate
        } else if their_history[their_history.len() - 1] == Choice::Defect
            && their_history[their_history.len() - 2] == Choice::Defect {
            Choice::Defect
        } else {
            Choice::Cooperate
        }
    }

    fn decide(
        &self,
        your_history: &Vec<Choice>,
        their_history: &Vec<Choice>,
        rng: &mut fastrand::Rng,
    ) -> Choice {
        if their_history.len() < 2 {
            return Choice::Cooperate;
        }
        let one_ago = their_history[their_history.len() - 1];
        let two_ago = their_history[their_history.len() - 2];
        if one_ago == Choice::Defect && two_ago == Choice::Defect {
            Choice::Defect
        } else {
            Choice::Cooperate
        }
    }
}

/// Cooperates or defects by a fair coin toss.
pub struct Random;

impl Player for Random {
    open spec fn deterministic(&self) -> bool {
        false
    }

    open spec fn det_choice(&self, your_history: Seq<Choice>, their_history: Seq<Choice>) -> Choice {
        Choice::Cooperate
    }

    fn decide(
        &self,
        your_history: &Vec<Choice>,
        their_history: &Vec<Choice>,
        rng: &mut fastrand::Rng,
    ) -> Choice {
        if rng_bool(rng) {
            Choice::Cooperate
        } else {
            Choice::Defect
        }
    }
}

/// Estimates, from the transitions seen so far, how likely the opponent is
/// to defect after the current circumstance, and defects with that
/// probability.  Acts like tit-for-tat for the first two turns.
pub struct SimpleGuesser;

impl Player for SimpleGuesser {
    open spec fn deterministic(&self) -> bool {
        false
    }

    open spec fn det_choice(&self, your_history: Seq<Choice>, their_history: Seq<Choice>) -> Choice {
        Choice::Cooperate
    }

    fn decide(
        &self,
        your_history: &Vec<Choice>,
        their_history: &Vec<Choice>,
        rng: &mut fastrand::Rng,
    ) -> (c: Choice)
        ensures
            your_history@.len() < 2 ==> c == (if their_history@.len() == 0 {
                Choice::Cooperate
            } else {
                their_history@.last()
            }),
    {
        let n = your_history.len();
        if n < 2 {
            if their_history.len() == 0 {
                return Choice::Cooperate;
            }
            return their_history[their_history.len() - 1];
        }
        // Count how often the current (own action, their action) circumstance
        // was followed by a defection of theirs.
        let cur_mine = your_history[n - 1];
        let cur_theirs = their_history[n - 1];
        let mut defections: usize = 0;
        let mut i: usize = 0;
        while i < n - 1
            invariant
                2 <= n == your_history@.len() == their_history@.len(),
                i <= n - 1,
                defections <= i,
            decreases n - 1 - i,
        {
            if your_history[i] == cur_mine && their_history[i] == cur_theirs && their_history[i + 1]
                == Choice::Defect {
                defections = defections + 1;
            }
            i = i + 1;
        }
        // Defect with probability `defections / (n - 1)`.
        let draw = rng_usize_below(rng, n - 1);
        if draw < defections {
            Choice::Defect
        } else {
            Choice::Cooperate
        }
    }
}

/// One of the built-in strategies, as a value a population slot can hold.
pub enum Strategy {
    /// See [`AlwaysDefect`].
    AlwaysDefect,
    /// See [`AlwaysCooperate`].
    AlwaysCooperate,
    /// See [`GrimTrigger`].
    GrimTrigger,
    /// See [`TitForTat`].
    TitForTat,
    /// See [`ForgivingTitForTat`]; the value is the forgivingness out of 1000.
    ForgivingTitForTat(u64),
    /// See [`TitForTwoTats`].
    TitForTwoTats,
    /// See [`Random`].
    Random,
    /// See [`SimpleGuesser`].
    SimpleGuesser,
}

impl Player for Strategy {
    open spec fn deterministic(&self) -> bool {
        match *self {
            Strategy::AlwaysDefect => true,
            Strategy::AlwaysCooperate => true,
            Strategy::GrimTrigger => true,
            Strategy::TitForTat => true,
            Strategy::ForgivingTitForTat(_) => false,
            Strategy::TitForTwoTats => true,
            Strategy::Random => false,
            Strategy::SimpleGuesser => false,
        }
    }

    open spec fn det_choice(&self, your_history: Seq<Choice>, their_history: Seq<Choice>) -> Choice {
        match *self {
            Strategy::AlwaysDefect => AlwaysDefect.det_choice(your_history, their_history),
            Strategy::AlwaysCooperate => AlwaysCooperate.det_choice(your_history, their_history),
            Strategy::GrimTrigger => GrimTrigger.det_choice(your_history, their_history),
            Strategy::TitForTat => TitForTat.det_choice(your_history, their_history),
            Strategy::ForgivingTitForTat(_) => Choice::Cooperate,
            Strategy::TitForTwoTats => TitForTwoTats.det_choice(your_history, their_history),
            Strategy::Random => Choice::Cooperate,
            Strategy::SimpleGuesser => Choice::Cooperate,
        }
    }

    fn decide(
        &self,
        your_history: &Vec<Choice>,
        their_history: &Vec<Choice>,
        rng: &mut fastrand::Rng,
    ) -> Choice {
        match *self {
            Strategy::AlwaysDefect => AlwaysDefect.decide(your_history, their_history, rng),
            Strategy::AlwaysCooperate => AlwaysCooperate.decide(your_history, their_history, rng),
            Strategy::GrimTrigger => GrimTrigger.decide(your_history, their_history, rng),
            Strategy::TitForTat => TitForTat.decide(your_history, their_history, rng),
            Strategy::ForgivingTitForTat(forgivingness_millis) => (ForgivingTitForTat {
                forgivingness_millis,
            }).decide(your_history, their_history, rng),
            Strategy::TitForTwoTats => TitForTwoTats.decide(your_history, their_history, rng),
            Strategy::Random => Random.decide(your_history, their_history, rng),
            Strategy::SimpleGuesser => SimpleGuesser.decide(your_history, their_history, rng),
        }
    }
}

} // verus!
