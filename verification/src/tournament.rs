//! The tournament engine: all-pairs round-robin matches over a population,
//! utility accrual, and the cull-the-worst / clone-a-random-survivor
//! selection step.

use vstd::prelude::*;

use crate::rng::rng_usize_below;
use crate::rules::{
    lemma_sat_add_assoc, one_on_one_match, sat_add, spec_sat_add, GameParameters, Player,
};
use vstd::pervasive::VecAdditionalExecFns;

verus! {

/// Every slot of the population names a strategy the lookup table holds.
pub open spec fn valid_population(pop: Seq<usize>, n_players: nat) -> bool {
    forall|i: int| 0 <= i < pop.len() ==> (#[trigger] pop[i]) < n_players
}

/// The number of unordered pairs of distinct slots among `k` slots.
pub open spec fn spec_pair_count(k: int) -> int {
    k * (k - 1) / 2
}

proof fn lemma_pair_count_step(k: int)
    requires
        k >= 1,
    ensures
        spec_pair_count(k) == (k - 1) + spec_pair_count(k - 1),
{
    assert(k * (k - 1) / 2 == (k - 1) + (k - 1) * (k - 2) / 2) by (nonlinear_arith)
        requires
            k >= 1,
    ;
}

proof fn lemma_pair_count_bounds(k: int)
    requires
        0 <= k <= 0xFFFF_FFFF,
    ensures
        0 <= spec_pair_count(k) < 0x8000_0000_0000_0000,
{
    assert(0 <= k * (k - 1) / 2 < 0x8000_0000_0000_0000) by (nonlinear_arith)
        requires
            0 <= k <= 0xFFFF_FFFF,
    ;
}

/// The saturating sum of the generation-local utilities of every slot that
/// holds `id`.
pub open spec fn spec_id_total(pop: Seq<usize>, slot_utilities: Seq<u64>, id: usize) -> u64
    recommends
        pop.len() == slot_utilities.len(),
    decreases pop.len(),
{
    if pop.len() == 0 {
        0u64
    } else {
        let rest = spec_id_total(pop.drop_last(), slot_utilities.drop_last(), id);
        if pop.last() == id {
            spec_sat_add(rest, slot_utilities.last())
        } else {
            rest
        }
    }
}

/// How many slots of the population hold `id`.
pub open spec fn spec_id_count(pop: Seq<usize>, id: usize) -> nat
    decreases pop.len(),
{
    if pop.len() == 0 {
        0nat
    } else {
        spec_id_count(pop.drop_last(), id) + if pop.last() == id {
            1nat
        } else {
            0nat
        }
    }
}

/// Adds each slot's generation-local utility to its identifier's accrued
/// total.  Every identifier's accrued utility grows by exactly the sum of
/// the utilities of the slots that hold it, and never decreases.
pub fn accrue_generation(
    accrued: &mut Vec<u64>,
    population: &Vec<usize>,
    slot_utilities: &Vec<u64>,
)
    requires
        population@.len() == slot_utilities@.len(),
        valid_population(population@, old(accrued)@.len()),
    ensures
        final(accrued)@.len() == old(accrued)@.len(),
        forall|id: usize| id < final(accrued)@.len() ==> final(accrued)@[id as int] == spec_sat_add(
            old(accrued)@[id as int],
            spec_id_total(population@, slot_utilities@, id),
        ),
        forall|id: usize| id < final(accrued)@.len() ==> final(accrued)@[id as int] >= old(
            accrued,
        )@[id as int],
{
    let n = population.len();
    let mut s: usize = 0;
    while s < n
        invariant
            s <= n,
            n == population@.len() == slot_utilities@.len(),
            valid_population(population@, old(accrued)@.len()),
            accrued@.len() == old(accrued)@.len(),
            forall|id: usize| id < accrued@.len() ==> accrued@[id as int] == spec_sat_add(
                old(accrued)@[id as int],
                spec_id_total(population@.take(s as int), slot_utilities@.take(s as int), id),
            ),
        decreases n - s,
    {
        let ghost pop_pre = population@.take(s as int);
        let ghost slots_pre = slot_utilities@.take(s as int);
        let id = population[s];
        let cur = accrued[id];
        let add = slot_utilities[s];
        accrued.set(id, sat_add(cur, add));
        s = s + 1;
        proof {
            let pop_now = population@.take(s as int);
            let slots_now = slot_utilities@.take(s as int);
            assert(pop_now.drop_last() =~= pop_pre);
            assert(slots_now.drop_last() =~= slots_pre);
            assert(pop_now.last() == id);
            assert(slots_now.last() == add);
            assert forall|other: usize| other < accrued@.len() implies accrued@[other as int]
                == spec_sat_add(
                old(accrued)@[other as int],
                spec_id_total(pop_now, slots_now, other),
            ) by {
                if other == id {
                    lemma_sat_add_assoc(
                        old(accrued)@[other as int],
                        spec_id_total(pop_pre, slots_pre, other),
                        add,
                    );
                } else {
                    assert(spec_id_total(pop_now, slots_now, other) == spec_id_total(
                        pop_pre,
                        slots_pre,
                        other,
                    ));
                }
            }
        }
    }
    proof {
        assert(population@.take(s as int) =~= population@);
        assert(slot_utilities@.take(s as int) =~= slot_utilities@);
        assert forall|id: usize| id < accrued@.len() implies accrued@[id as int] >= old(
            accrued,
        )@[id as int] by {
            assert(accrued@[id as int] == spec_sat_add(
                old(accrued)@[id as int],
                spec_id_total(population@.take(s as int), slot_utilities@.take(s as int), id),
            ));
        }
    }
}

/// The slot with the strictly lowest utility; ties go to the lowest index.
pub fn select_worst(utilities: &Vec<u64>) -> (w: usize)
    requires
        utilities@.len() > 0,
    ensures
        w < utilities@.len(),
        forall|i: int| 0 <= i < utilities@.len() ==> utilities@[w as int] <= #[trigger] utilities@[i],
        forall|i: int| 0 <= i < w ==> #[trigger] utilities@[i] > utilities@[w as int],
{
    let mut worst: usize = 0;
    let mut worst_utility: u64 = utilities[0];
    let mut i: usize = 1;
    while i < utilities.len()
        invariant
            1 <= i <= utilities@.len(),
            worst < i,
            worst_utility == utilities@[worst as int],
            forall|k: int| 0 <= k < i ==> worst_utility <= #[trigger] utilities@[k],
            forall|k: int| 0 <= k < worst ==> #[trigger] utilities@[k] > worst_utility,
        decreases utilities@.len() - i,
    {
        if utilities[i] < worst_utility {
            worst = i;
            worst_utility = utilities[i];
        }
        i = i + 1;
    }
    worst
}

/// One line of a generation report: an identifier, how many slots hold it,
/// and the total generation-local utility of those slots.
#[derive(Copy, Clone, Debug, PartialEq, Eq, Structural)]
pub struct StandingEntry {
    /// The strategy identifier.
    pub id: usize,
    /// How many population slots hold this identifier.
    pub count: u64,
    /// The saturating sum of those slots' generation-local utilities.
    pub total_utility: u64,
}

impl StandingEntry {
    /// The mean generation-local utility per slot holding this identifier,
    /// rounded down.
    pub fn mean_utility(&self) -> (r: u64)
        requires
            self.count > 0,
        ensures
            r == self.total_utility / self.count,
    {
        self.total_utility / self.count
    }
}

/// What a well-formed generation report says of a population: every entry
/// tallies one identifier that occupies at least one slot, every occupied
/// identifier appears exactly once, and entries come in descending order of
/// slot count.
pub open spec fn standings_correct(
    standings: Seq<StandingEntry>,
    pop: Seq<usize>,
    slots: Seq<u64>,
    n_players: nat,
) -> bool {
    &&& forall|k: int|
        0 <= k < standings.len() ==> (#[trigger] standings[k]).id < n_players
            && standings[k].count == spec_id_count(pop, standings[k].id) && standings[k].count > 0
            && standings[k].total_utility == spec_id_total(pop, slots, standings[k].id)
    &&& forall|k: int, l: int|
        #![trigger standings[k], standings[l]]
        0 <= k < l < standings.len() ==> standings[k].count >= standings[l].count
    &&& forall|k: int, l: int|
        #![trigger standings[k], standings[l]]
        0 <= k < l < standings.len() ==> standings[k].id != standings[l].id
    &&& forall|id: usize|
        id < n_players && #[trigger] spec_id_count(pop, id) > 0 ==> exists|k: int|
            0 <= k < standings.len() && (#[trigger] standings[k]).id == id
}

/// Counts the slots holding `id` and sums their generation-local utilities.
fn tally_id(population: &Vec<usize>, slot_utilities: &Vec<u64>, id: usize) -> (r: (u64, u64))
    requires
        population@.len() == slot_utilities@.len(),
        population@.len() <= 0xFFFF_FFFF,
    ensures
        r.0 == spec_id_count(population@, id),
        r.1 == spec_id_total(population@, slot_utilities@, id),
{
    let n = population.len();
    let mut count: u64 = 0;
    let mut total: u64 = 0;
    let mut s: usize = 0;
    while s < n
        invariant
            s <= n,
            n == population@.len() == slot_utilities@.len() <= 0xFFFF_FFFF,
            count == spec_id_count(population@.take(s as int), id),
            total == spec_id_total(population@.take(s as int), slot_utilities@.take(s as int), id),
            count <= s,
        decreases n - s,
    {
        let ghost pop_pre = population@.take(s as int);
        let ghost slots_pre = slot_utilities@.take(s as int);
        if population[s] == id {
            count = count + 1;
            total = sat_add(total, slot_utilities[s]);
        }
        s = s + 1;
        proof {
            assert(population@.take(s as int).drop_last() =~= pop_pre);
            assert(slot_utilities@.take(s as int).drop_last() =~= slots_pre);
        }
    }
    proof {
        assert(population@.take(s as int) =~= population@);
        assert(slot_utilities@.take(s as int) =~= slot_utilities@);
    }
    (count, total)
}

/// Tallies, for every identifier that occupies at least one slot, its slot
/// count and total generation-local utility, in descending order of count.
pub fn compute_standings(
    population: &Vec<usize>,
    slot_utilities: &Vec<u64>,
    n_players: usize,
) -> (r: Vec<StandingEntry>)
    requires
        population@.len() == slot_utilities@.len(),
        population@.len() <= 0xFFFF_FFFF,
    ensures
        standings_correct(r@, population@, slot_utilities@, n_players as nat),
{
    let mut standings: Vec<StandingEntry> = Vec::new();
    let mut id: usize = 0;
    while id < n_players
        invariant
            id <= n_players,
            population@.len() == slot_utilities@.len() <= 0xFFFF_FFFF,
            forall|k: int|
                0 <= k < standings@.len() ==> (#[trigger] standings@[k]).id < id
                    && standings@[k].count == spec_id_count(population@, standings@[k].id)
                    && standings@[k].count > 0 && standings@[k].total_utility == spec_id_total(
                    population@,
                    slot_utilities@,
                    standings@[k].id,
                ),
            forall|k: int, l: int|
                #![trigger standings@[k], standings@[l]]
                0 <= k < l < standings@.len() ==> standings@[k].count >= standings@[l].count,
            forall|k: int, l: int|
                #![trigger standings@[k], standings@[l]]
                0 <= k < l < standings@.len() ==> standings@[k].id != standings@[l].id,
            forall|prev: usize|
                prev < id && #[trigger] spec_id_count(population@, prev) > 0 ==> exists|k: int|
                    0 <= k < standings@.len() && (#[trigger] standings@[k]).id == prev,
        decreases n_players - id,
    {
        let (count, total) = tally_id(population, slot_utilities, id);
        if count > 0 {
            let ghost before = standings@;
            let mut pos: usize = 0;
            while pos < standings.len() && standings[pos].count >= count
                invariant
                    pos <= standings@.len(),
                    standings@ == before,
                    forall|k: int| 0 <= k < pos ==> (#[trigger] standings@[k]).count >= count,
                decreases standings@.len() - pos,
            {
                pos = pos + 1;
            }
            proof {
                assert(pos == standings@.len() || standings@[pos as int].count < count);
                assert forall|k: int| pos <= k < standings@.len() implies (
                #[trigger] standings@[k]).count < count by {
                    if k > pos {
                        assert(standings@[pos as int].count >= standings@[k].count);
                    }
                }
            }
            let entry = StandingEntry { id, count, total_utility: total };
            standings.insert(pos, entry);
            proof {
                let after = standings@;
                assert(after.len() == before.len() + 1);
                assert forall|k: int| 0 <= k < after.len() implies (#[trigger] after[k]).id <= id
                    && after[k].count == spec_id_count(population@, after[k].id) && after[k].count
                    > 0 && after[k].total_utility == spec_id_total(
                    population@,
                    slot_utilities@,
                    after[k].id,
                ) by {
                    if k < pos {
                        assert(after[k] == before[k]);
                    } else if k == pos {
                        assert(after[k] == entry);
                    } else {
                        assert(after[k] == before[k - 1]);
                    }
                }
                assert forall|prev: usize|
                    prev <= id && #[trigger] spec_id_count(population@, prev) > 0 implies exists|
                    k: int,
                |
                    0 <= k < after.len() && (#[trigger] after[k]).id == prev by {
                    if prev == id {
                        assert(after[pos as int].id == prev);
                    } else {
                        let k0 = choose|k0: int|
                            0 <= k0 < before.len() && (#[trigger] before[k0]).id == prev;
                        if k0 < pos {
                            assert(after[k0] == before[k0]);
                            assert(after[k0].id == prev);
                        } else {
                            assert(after[k0 + 1] == before[k0]);
                            assert(after[k0 + 1].id == prev);
                        }
                    }
                }
            }
        }
        id = id + 1;
    }
    standings
}

/// One logged round-robin match: which two slots met and what each earned.
#[derive(Copy, Clone, Debug, PartialEq, Eq, Structural)]
pub struct MatchRecord {
    /// The lower-indexed slot of the pair.
    pub slot_one: usize,
    /// The higher-indexed slot of the pair.
    pub slot_two: usize,
    /// What `slot_one` earned in this match.
    pub utility_one: u64,
    /// What `slot_two` earned in this match.
    pub utility_two: u64,
}

/// The saturating sum of everything `slot` earned over the logged matches.
pub open spec fn spec_slot_total(log: Seq<MatchRecord>, slot: usize) -> u64
    decreases log.len(),
{
    if log.len() == 0 {
        0u64
    } else {
        let rest = spec_slot_total(log.drop_last(), slot);
        let e = log.last();
        if e.slot_one == slot {
            spec_sat_add(rest, e.utility_one)
        } else if e.slot_two == slot {
            spec_sat_add(rest, e.utility_two)
        } else {
            rest
        }
    }
}

/// Whether the log holds a match between slots `i` and `j`, `i` first.
pub open spec fn pair_in_log(log: Seq<MatchRecord>, i: int, j: int) -> bool {
    exists|m: int|
        0 <= m < log.len() && (#[trigger] log[m]).slot_one == i && log[m].slot_two == j
}

/// What a well-formed round-robin log says: every entry pairs two distinct
/// slots in index order, every unordered pair of distinct slots appears,
/// and no pair appears twice.
pub open spec fn round_robin_log_correct(log: Seq<MatchRecord>, n: nat) -> bool {
    &&& forall|m: int|
        0 <= m < log.len() ==> (#[trigger] log[m]).slot_one < log[m].slot_two < n
    &&& forall|i: int, j: int| 0 <= i < j < n ==> #[trigger] pair_in_log(log, i, j)
    &&& forall|m1: int, m2: int|
        #![trigger log[m1], log[m2]]
        0 <= m1 < m2 < log.len() ==> !(log[m1].slot_one == log[m2].slot_one && log[m1].slot_two
            == log[m2].slot_two)
}

/// Plays one match for every unordered pair of distinct slots.  Returns
/// each slot's generation-local utility total, the number of matches
/// played -- always `N * (N - 1) / 2` -- and a log showing that each pair
/// met exactly once and that each slot's total is exactly the saturating
/// sum of its per-match utilities.
pub fn round_robin<P: Player>(
    parameters: &GameParameters,
    population: &Vec<usize>,
    players: &Vec<P>,
    rng: &mut fastrand::Rng,
) -> (r: (Vec<u64>, u64, Vec<MatchRecord>))
    requires
        parameters.valid(),
        valid_population(population@, players@.len()),
        population@.len() <= 0xFFFF_FFFF,
    ensures
        r.0@.len() == population@.len(),
        r.1 == spec_pair_count(population@.len() as int),
        r.2@.len() == r.1,
        round_robin_log_correct(r.2@, population@.len()),
        forall|s: usize| s < population@.len() ==> r.0@[s as int] == spec_slot_total(r.2@, s),
{
    let n = population.len();
    let ghost total = spec_pair_count(n as int);
    proof {
        lemma_pair_count_bounds(n as int);
    }
    let mut utilities: Vec<u64> = Vec::new();
    let mut s: usize = 0;
    while s < n
        invariant
            s <= n,
            utilities@.len() == s,
            forall|k: int| 0 <= k < s ==> utilities@[k] == 0,
        decreases n - s,
    {
        utilities.push(0);
        s = s + 1;
    }
    let mut log: Vec<MatchRecord> = Vec::new();
    proof {
        assert(log@.len() == 0);
        assert forall|t: usize| t < n implies utilities@[t as int] == spec_slot_total(log@, t) by {
            assert(spec_slot_total(log@, t) == 0);
        }
    }
    let mut matches_played: u64 = 0;
    let mut p1dex: usize = 0;
    while p1dex < n
        invariant
            p1dex <= n,
            n == population@.len() <= 0xFFFF_FFFF,
            valid_population(population@, players@.len()),
            parameters.valid(),
            utilities@.len() == n,
            total == spec_pair_count(n as int),
            0 <= spec_pair_count((n - p1dex) as int) <= total < 0x8000_0000_0000_0000,
            matches_played == total - spec_pair_count((n - p1dex) as int),
            log@.len() == matches_played,
            forall|m: int|
                0 <= m < log@.len() ==> (#[trigger] log@[m]).slot_one < log@[m].slot_two < n,
            forall|m: int| 0 <= m < log@.len() ==> (#[trigger] log@[m]).slot_one < p1dex,
            forall|i: int, j: int|
                0 <= i < j < n && i < p1dex ==> #[trigger] pair_in_log(log@, i, j),
            forall|m1: int, m2: int|
                #![trigger log@[m1], log@[m2]]
                0 <= m1 < m2 < log@.len() ==> !(log@[m1].slot_one == log@[m2].slot_one
                    && log@[m1].slot_two == log@[m2].slot_two),
            forall|s: usize| s < n ==> utilities@[s as int] == spec_slot_total(log@, s),
        decreases n - p1dex,
    {
        let mut p2dex: usize = p1dex + 1;
        proof {
            lemma_pair_count_step((n - p1dex) as int);
            lemma_pair_count_bounds((n - p1dex - 1) as int);
        }
        while p2dex < n
            invariant
                p1dex < p2dex <= n,
                n == population@.len() <= 0xFFFF_FFFF,
                valid_population(population@, players@.len()),
                parameters.valid(),
                utilities@.len() == n,
                total == spec_pair_count(n as int),
                spec_pair_count((n - p1dex) as int) == (n - p1dex - 1) + spec_pair_count(
                    (n - p1dex - 1) as int,
                ),
                0 <= spec_pair_count((n - p1dex) as int) <= total < 0x8000_0000_0000_0000,
                matches_played == total - spec_pair_count((n - p1dex) as int) + (p2dex - p1dex - 1),
                log@.len() == matches_played,
                forall|m: int|
                    0 <= m < log@.len() ==> (#[trigger] log@[m]).slot_one < log@[m].slot_two < n,
                forall|m: int|
                    0 <= m < log@.len() ==> (#[trigger] log@[m]).slot_one < p1dex || (log@[m].slot_one
                        == p1dex && log@[m].slot_two < p2dex),
                forall|i: int, j: int|
                    0 <= i < j < n && i < p1dex ==> #[trigger] pair_in_log(log@, i, j),
                forall|j: int| p1dex < j < p2dex ==> #[trigger] pair_in_log(log@, p1dex as int, j),
                forall|m1: int, m2: int|
                    #![trigger log@[m1], log@[m2]]
                    0 <= m1 < m2 < log@.len() ==> !(log@[m1].slot_one == log@[m2].slot_one
                        && log@[m1].slot_two == log@[m2].slot_two),
                forall|s: usize| s < n ==> utilities@[s as int] == spec_slot_total(log@, s),
            decreases n - p2dex,
        {
            let ghost log_pre = log@;
            let player_one = &players[population[p1dex]];
            let player_two = &players[population[p2dex]];
            let (p1_utility, p2_utility) = one_on_one_match(parameters, player_one, player_two, rng);
            let record = MatchRecord {
                slot_one: p1dex,
                slot_two: p2dex,
                utility_one: p1_utility,
                utility_two: p2_utility,
            };
            log.push(record);
            let cur_one = utilities[p1dex];
            utilities.set(p1dex, sat_add(cur_one, p1_utility));
            let cur_two = utilities[p2dex];
            utilities.set(p2dex, sat_add(cur_two, p2_utility));
            matches_played = matches_played + 1;
            p2dex = p2dex + 1;
            proof {
                assert(log@.drop_last() =~= log_pre);
                assert(log@.last() == record);
                assert forall|i: int, j: int|
                    0 <= i < j < n && i < p1dex implies #[trigger] pair_in_log(log@, i, j) by {
                    assert(pair_in_log(log_pre, i, j));
                    let m = choose|m: int|
                        0 <= m < log_pre.len() && (#[trigger] log_pre[m]).slot_one == i
                            && log_pre[m].slot_two == j;
                    assert(log@[m].slot_one == i && log@[m].slot_two == j);
                }
                assert forall|j: int|
                    p1dex < j < p2dex implies #[trigger] pair_in_log(log@, p1dex as int, j) by {
                    if pair_in_log(log_pre, p1dex as int, j) {
                        let m = choose|m: int|
                            0 <= m < log_pre.len() && (#[trigger] log_pre[m]).slot_one
                                == p1dex as int && log_pre[m].slot_two == j;
                        assert(log@[m].slot_one == p1dex as int && log@[m].slot_two == j);
                    } else {
                        assert(j == p2dex - 1);
                        assert(log@[log@.len() - 1].slot_one == p1dex as int && log@[log@.len()
                            - 1].slot_two == j);
                    }
                }
                assert forall|s: usize| s < n implies utilities@[s as int] == spec_slot_total(
                    log@,
                    s,
                ) by {
                    assert(spec_slot_total(log@, s) == if record.slot_one == s {
                        spec_sat_add(spec_slot_total(log_pre, s), record.utility_one)
                    } else if record.slot_two == s {
                        spec_sat_add(spec_slot_total(log_pre, s), record.utility_two)
                    } else {
                        spec_slot_total(log_pre, s)
                    });
                }
            }
        }
        p1dex = p1dex + 1;
    }
    proof {
        assert(p1dex == n);
        assert(spec_pair_count(0int) == 0) by (nonlinear_arith);
        assert(matches_played == total);
    }
    (utilities, matches_played, log)
}

/// Everything one generation produced: the report over the post-replacement
/// population, each slot's generation-local utility, which slot was culled,
/// which slot it was re-seeded from, and how many matches were played.
pub struct GenerationOutcome {
    /// Per-identifier standings of the post-replacement population, in
    /// descending order of slot count.
    pub standings: Vec<StandingEntry>,
    /// Each slot's utility total over this generation's matches.
    pub slot_utilities: Vec<u64>,
    /// The culled slot: lowest utility, ties to the lowest index.
    pub worst_slot: usize,
    /// The slot whose identifier was copied over the culled one.
    pub source_slot: usize,
    /// The number of matches played: one per unordered pair of slots.
    pub matches_played: u64,
    /// One record per match: which slots met and what each earned.
    pub match_log: Vec<MatchRecord>,
}

/// Runs one generation: a full round-robin over the population, accrual of
/// every identifier's utility, then the cull-and-clone replacement step.
/// Exactly one slot's identifier is overwritten (with the identifier of a
/// uniformly chosen slot, so the population may also come out unchanged).
pub fn run_generation<P: Player>(
    parameters: &GameParameters,
    population: &mut Vec<usize>,
    players: &Vec<P>,
    accrued: &mut Vec<u64>,
    rng: &mut fastrand::Rng,
) -> (outcome: GenerationOutcome)
    requires
        parameters.valid(),
        old(population)@.len() > 0,
        old(population)@.len() <= 0xFFFF_FFFF,
        valid_population(old(population)@, players@.len()),
        old(accrued)@.len() == players@.len(),
    ensures
        final(population)@.len() == old(population)@.len(),
        outcome.worst_slot < old(population)@.len(),
        outcome.source_slot < old(population)@.len(),
        final(population)@ == old(population)@.update(
            outcome.worst_slot as int,
            old(population)@[outcome.source_slot as int],
        ),
        valid_population(final(population)@, players@.len()),
        outcome.matches_played == spec_pair_count(old(population)@.len() as int),
        outcome.slot_utilities@.len() == old(population)@.len(),
        forall|i: int|
            0 <= i < outcome.slot_utilities@.len() ==> outcome.slot_utilities@[outcome.worst_slot as int]
                <= #[trigger] outcome.slot_utilities@[i],
        forall|i: int|
            0 <= i < outcome.worst_slot ==> #[trigger] outcome.slot_utilities@[i]
                > outcome.slot_utilities@[outcome.worst_slot as int],
        final(accrued)@.len() == old(accrued)@.len(),
        forall|id: usize|
            id < final(accrued)@.len() ==> final(accrued)@[id as int] == spec_sat_add(
                old(accrued)@[id as int],
                spec_id_total(old(population)@, outcome.slot_utilities@, id),
            ),
        forall|id: usize|
            id < final(accrued)@.len() ==> final(accrued)@[id as int] >= old(accrued)@[id as int],
        outcome.match_log@.len() == outcome.matches_played,
        round_robin_log_correct(outcome.match_log@, old(population)@.len()),
        forall|s: usize|
            s < old(population)@.len() ==> outcome.slot_utilities@[s as int] == spec_slot_total(
                outcome.match_log@,
                s,
            ),
        standings_correct(
            outcome.standings@,
            final(population)@,
            outcome.slot_utilities@,
            players@.len(),
        ),
{
    let n = population.len();
    let (slot_utilities, matches_played, match_log) = round_robin(
        parameters,
        population,
        players,
        rng,
    );
    accrue_generation(accrued, population, &slot_utilities);
    let worst_slot = select_worst(&slot_utilities);
    let source_slot = rng_usize_below(rng, n);
    let replacement = population[source_slot];
    population.set(worst_slot, replacement);
    let standings = compute_standings(population, &slot_utilities, players.len());
    GenerationOutcome {
        standings,
        slot_utilities,
        worst_slot,
        source_slot,
        matches_played,
        match_log,
    }
}

/// The replacement step changes at most one slot: every slot but the culled
/// one keeps its identifier, and when the randomly chosen source slot held
/// the same identifier as the culled slot, no slot changes at all.
pub proof fn lemma_replacement_changes_at_most_one(pop: Seq<usize>, w: int, s: int)
    requires
        0 <= w < pop.len(),
        0 <= s < pop.len(),
    ensures
        pop.update(w, pop[s]).len() == pop.len(),
        forall|i: int| 0 <= i < pop.len() && i != w ==> pop.update(w, pop[s])[i] == pop[i],
        pop.update(w, pop[s])[w] == pop[s],
        pop[w] == pop[s] ==> pop.update(w, pop[s]) == pop,
{
    if pop[w] == pop[s] {
        assert(pop.update(w, pop[s]) =~= pop);
    }
}

/// Why a tournament configuration is rejected before any match is played.
#[derive(Copy, Clone, Debug, PartialEq, Eq, Structural)]
pub enum TournamentError {
    /// The initial population holds no slot at all.
    EmptyPopulation,
    /// The initial population holds more slots than the engine supports.
    PopulationTooLarge,
    /// Some slot names a strategy the lookup table does not hold.
    UnknownIdentifier,
}

/// Runs `generations` generations over a copy of `initial_population` and
/// returns every identifier's accrued utility over the whole run.  The
/// configuration is validated before any match is played: the population
/// must be non-empty, not oversized, and every slot must resolve to a
/// strategy in `players`.
pub fn tournament<P: Player>(
    generations: usize,
    initial_population: &Vec<usize>,
    players: &Vec<P>,
    rng: &mut fastrand::Rng,
) -> (r: Result<Vec<u64>, TournamentError>)
    ensures
        r matches Err(TournamentError::EmptyPopulation) <==> initial_population@.len() == 0,
        r matches Err(TournamentError::PopulationTooLarge) <==> initial_population@.len()
            > 0xFFFF_FFFF,
        r matches Err(TournamentError::UnknownIdentifier) <==> (0 < initial_population@.len()
            <= 0xFFFF_FFFF && !valid_population(initial_population@, players@.len())),
        r matches Ok(acc) ==> acc@.len() == players@.len(),
        r matches Ok(acc) ==> (generations == 0 ==> forall|id: int|
            0 <= id < acc@.len() ==> acc@[id] == 0),
        r is Ok <==> (0 < initial_population@.len() <= 0xFFFF_FFFF && valid_population(
            initial_population@,
            players@.len(),
        )),
{
    if initial_population.len() == 0 {
        return Err(TournamentError::EmptyPopulation);
    }
    if initial_population.len() > 0xFFFF_FFFF {
        return Err(TournamentError::PopulationTooLarge);
    }
    let n = initial_population.len();
    let mut i: usize = 0;
    while i < n
        invariant
            i <= n,
            0 < n <= 0xFFFF_FFFF,
            n == initial_population@.len(),
            forall|k: int| 0 <= k < i ==> (#[trigger] initial_population@[k]) < players@.len(),
        decreases n - i,
    {
        if initial_population[i] >= players.len() {
            proof {
                assert(initial_population@[i as int] >= players@.len());
            }
            return Err(TournamentError::UnknownIdentifier);
        }
        i = i + 1;
    }
    let mut population: Vec<usize> = Vec::new();
    let mut s: usize = 0;
    while s < n
        invariant
            s <= n,
            n == initial_population@.len(),
            population@ =~= initial_population@.take(s as int),
        decreases n - s,
    {
        population.push(initial_population[s]);
        s = s + 1;
    }
    proof {
        assert(population@ =~= initial_population@);
    }
    let mut accrued: Vec<u64> = Vec::new();
    let mut a: usize = 0;
    while a < players.len()
        invariant
            a <= players@.len(),
            accrued@.len() == a,
            forall|k: int| 0 <= k < a ==> accrued@[k] == 0,
        decreases players@.len() - a,
    {
        accrued.push(0);
        a = a + 1;
    }
    let parameters = GameParameters::default();
    let mut g: usize = 0;
    while g < generations
        invariant
            population@.len() == n,
            n == initial_population@.len(),
            0 < n <= 0xFFFF_FFFF,
            valid_population(population@, players@.len()),
            accrued@.len() == players@.len(),
            parameters.valid(),
            generations == 0 ==> forall|k: int| 0 <= k < accrued@.len() ==> accrued@[k] == 0,
        decreases generations - g,
    {
        let _outcome = run_generation(&parameters, &mut population, players, &mut accrued, rng);
        g = g + 1;
    }
    Ok(accrued)
}

} // verus!
