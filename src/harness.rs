//! Round termination and the aggregation of many seeded rounds.
use vstd::prelude::*;

verus! {

/// Tick cap of a round: a round still running at this tick is a draw.
pub const MAX_TICKS: u32 = 10000;

/// Outcome of a round so far.
#[derive(Clone, Copy, Debug, PartialEq, Eq, Structural)]
pub enum Status {
    Running,
    Victory { team: i32 },
    Draw,
}

impl Status {
    pub open spec fn is_terminal(self) -> bool {
        !(self is Running)
    }

    /// A status that a two-team round can end in.
    pub open spec fn two_team(self) -> bool {
        match self {
            Status::Victory { team } => team == 0 || team == 1,
            _ => true,
        }
    }
}

/// What a round's driver does next.
#[derive(Clone, Copy, Debug, PartialEq, Eq, Structural)]
pub enum RoundAction {
    /// Advance the world by one tick.
    Step,
    /// The round is over with this terminal status.
    Finish(Status),
}

/// A round that is still running when it stops counts as a draw.
pub open spec fn resolved(s: Status) -> Status {
    if s is Running {
        Status::Draw
    } else {
        s
    }
}

pub open spec fn next_action_spec(status: Status, tick: u32) -> RoundAction {
    if (status is Running) && tick < MAX_TICKS {
        RoundAction::Step
    } else {
        RoundAction::Finish(resolved(status))
    }
}

/// Decides whether a round advances another tick or ends, and with what outcome.
pub fn next_action(status: Status, tick: u32) -> (r: RoundAction)
    ensures
        r == next_action_spec(status, tick),
        r matches RoundAction::Finish(s) ==> s.is_terminal(),
{
    match status {
        Status::Running => {
            if tick < MAX_TICKS {
                RoundAction::Step
            } else {
                RoundAction::Finish(Status::Draw)
            }
        },
        _ => RoundAction::Finish(status),
    }
}

/// Outcome and final tick of a round from state `(status, tick)` on, where
/// `reports[t]` is the status the world reports after stepping from tick `t`.
pub open spec fn outcome_from(reports: Seq<Status>, status: Status, tick: int) -> (Status, int)
    decreases MAX_TICKS - tick,
{
    if (status is Running) && 0 <= tick < MAX_TICKS {
        outcome_from(reports, reports[tick], tick + 1)
    } else {
        (resolved(status), tick)
    }
}

/// Outcome and tick count of a round whose world reports `reports`.
pub open spec fn round_outcome(reports: Seq<Status>) -> (Status, int) {
    outcome_from(reports, Status::Running, 0)
}

/// Drives a round over the statuses its world reports tick by tick, as long
/// as `next_action` says to step; returns the outcome and the tick it ended at.
pub fn run_round(reports: &Vec<Status>) -> (r: (Status, u32))
    requires
        reports@.len() >= MAX_TICKS,
    ensures
        (r.0, r.1 as int) == round_outcome(reports@),
        r.0.is_terminal(),
        r.1 <= MAX_TICKS,
{
    let mut status = Status::Running;
    let mut tick: u32 = 0;
    loop
        invariant
            reports@.len() >= MAX_TICKS,
            tick <= MAX_TICKS,
            outcome_from(reports@, status, tick as int) == round_outcome(reports@),
        decreases MAX_TICKS - tick,
    {
        match next_action(status, tick) {
            RoundAction::Step => {
                status = reports[tick as usize];
                tick += 1;
            },
            RoundAction::Finish(s) => {
                return (s, tick);
            },
        }
    }
}

/// A round is a function of what its world reports: two worlds that report
/// the same statuses over the tick cap give the same outcome at the same tick.
pub proof fn lemma_round_deterministic(r1: Seq<Status>, r2: Seq<Status>, status: Status, tick: int)
    requires
        r1.len() >= MAX_TICKS,
        r2.len() >= MAX_TICKS,
        forall|t: int| 0 <= t < MAX_TICKS ==> r1[t] == r2[t],
    ensures
        outcome_from(r1, status, tick) == outcome_from(r2, status, tick),
        tick == 0 && (status is Running) ==> round_outcome(r1) == round_outcome(r2),
    decreases MAX_TICKS - tick,
{
    if (status is Running) && 0 <= tick < MAX_TICKS {
        lemma_round_deterministic(r1, r2, r1[tick], tick + 1);
    }
}

/// The status a round holds after the world reports `reported`: a terminal
/// status is never left.
pub open spec fn advance_status_spec(current: Status, reported: Status) -> Status {
    if current.is_terminal() {
        current
    } else {
        reported
    }
}

pub fn advance_status(current: Status, reported: Status) -> (r: Status)
    ensures
        r == advance_status_spec(current, reported),
{
    match current {
        Status::Running => reported,
        _ => current,
    }
}

/// Once a round's status is terminal, no sequence of reports changes it.
pub proof fn lemma_status_monotonic(current: Status, reports: Seq<Status>)
    requires
        current.is_terminal(),
    ensures
        reports.fold_left(current, |s: Status, r: Status| advance_status_spec(s, r)) == current,
    decreases reports.len(),
{
    if reports.len() > 0 {
        lemma_status_monotonic(current, reports.drop_last());
    }
}

/// Bucket of a round's final status: 0 and 1 for a victory of that team, 2 for a draw.
pub open spec fn bucket(s: Status) -> int {
    match resolved(s) {
        Status::Victory { team } => if team == 0 {
            0
        } else {
            1
        },
        _ => 2,
    }
}

/// The seeds, in increasing order, whose round (seed = index) fell in bucket `b`.
pub open spec fn seeds_in(statuses: Seq<Status>, b: int) -> Seq<u32>
    decreases statuses.len(),
{
    if statuses.len() == 0 {
        Seq::empty()
    } else {
        let prev = seeds_in(statuses.drop_last(), b);
        if bucket(statuses.last()) == b {
            prev.push((statuses.len() - 1) as u32)
        } else {
            prev
        }
    }
}

/// Seeds of a batch, split by outcome.
#[derive(Clone, Debug, PartialEq, Eq)]
pub struct Results {
    pub team0_wins: Vec<u32>,
    pub team1_wins: Vec<u32>,
    pub draws: Vec<u32>,
}

impl Results {
    pub fn new() -> (r: Results)
        ensures
            r.team0_wins@.len() == 0,
            r.team1_wins@.len() == 0,
            r.draws@.len() == 0,
    {
        Results { team0_wins: Vec::new(), team1_wins: Vec::new(), draws: Vec::new() }
    }
}

/// Splits the final statuses of a batch (the round with seed `i` at index `i`)
/// into the seeds won by team 0, won by team 1 and drawn, each by increasing seed.
/// A round still running counts as a draw.
pub fn collect_results(statuses: &Vec<Status>) -> (r: Results)
    requires
        statuses@.len() <= u32::MAX + 1,
        forall|i: int| 0 <= i < statuses@.len() ==> (#[trigger] statuses@[i]).two_team(),
    ensures
        r.team0_wins@ == seeds_in(statuses@, 0),
        r.team1_wins@ == seeds_in(statuses@, 1),
        r.draws@ == seeds_in(statuses@, 2),
{
    let mut r = Results::new();
    let mut i: usize = 0;
    while i < statuses.len()
        invariant
            i <= statuses@.len(),
            statuses@.len() <= u32::MAX + 1,
            r.team0_wins@ == seeds_in(statuses@.take(i as int), 0),
            r.team1_wins@ == seeds_in(statuses@.take(i as int), 1),
            r.draws@ == seeds_in(statuses@.take(i as int), 2),
        decreases statuses@.len() - i,
    {
        let seed = i as u32;
        proof {
            assert(statuses@.take(i + 1).drop_last() == statuses@.take(i as int));
        }
        match statuses[i] {
            Status::Victory { team } => {
                if team == 0 {
                    r.team0_wins.push(seed);
                } else {
                    r.team1_wins.push(seed);
                }
            },
            _ => r.draws.push(seed),
        }
        i += 1;
    }
    assert(statuses@.take(statuses@.len() as int) == statuses@);
    r
}

/// Every seed of `seeds_in(statuses, b)` is a round of bucket `b`, they increase
/// strictly, and every round of bucket `b` is among them.
pub proof fn lemma_seeds_in(statuses: Seq<Status>, b: int)
    requires
        statuses.len() <= u32::MAX + 1,
    ensures
        forall|j: int|
            0 <= j < seeds_in(statuses, b).len() ==> {
                let s = #[trigger] seeds_in(statuses, b)[j];
                s < statuses.len() && bucket(statuses[s as int]) == b
            },
        forall|j: int, k: int|
            0 <= j < k < seeds_in(statuses, b).len() ==> seeds_in(statuses, b)[j]
                < seeds_in(statuses, b)[k],
        forall|s: int|
            0 <= s < statuses.len() && bucket(statuses[s]) == b ==> seeds_in(
                statuses,
                b,
            ).contains(s as u32),
    decreases statuses.len(),
{
    if statuses.len() > 0 {
        let prev = statuses.drop_last();
        lemma_seeds_in(prev, b);
        let n = statuses.len() - 1;
        assert forall|s: int|
            0 <= s < statuses.len() && bucket(statuses[s]) == b implies seeds_in(
                statuses,
                b,
            ).contains(s as u32) by {
            if s < n {
                assert(prev[s] == statuses[s]);
                let j = choose|j: int| 0 <= j < seeds_in(prev, b).len() && seeds_in(prev, b)[j] == s as u32;
                assert(seeds_in(statuses, b)[j] == s as u32);
            } else {
                assert(seeds_in(statuses, b).last() == s as u32);
            }
        }
    }
}

/// The three buckets of a batch of `n` rounds partition the seeds `0..n`: their
/// sizes add up to `n`, each seed below `n` is in exactly one of them, and no
/// other value is in any.
pub proof fn lemma_partition(statuses: Seq<Status>)
    requires
        statuses.len() <= u32::MAX + 1,
    ensures
        seeds_in(statuses, 0).len() + seeds_in(statuses, 1).len() + seeds_in(statuses, 2).len()
            == statuses.len(),
        forall|s: u32|
            (s < statuses.len()) <==> (seeds_in(statuses, 0).contains(s) || seeds_in(
                statuses,
                1,
            ).contains(s) || seeds_in(statuses, 2).contains(s)),
        forall|s: u32|
            !(seeds_in(statuses, 0).contains(s) && seeds_in(statuses, 1).contains(s)) && !(
            seeds_in(statuses, 0).contains(s) && seeds_in(statuses, 2).contains(s)) && !(
            seeds_in(statuses, 1).contains(s) && seeds_in(statuses, 2).contains(s)),
    decreases statuses.len(),
{
    lemma_seeds_in(statuses, 0);
    lemma_seeds_in(statuses, 1);
    lemma_seeds_in(statuses, 2);
    if statuses.len() > 0 {
        lemma_partition(statuses.drop_last());
    }
    assert forall|s: u32| (s < statuses.len()) implies (seeds_in(statuses, 0).contains(s)
        || seeds_in(statuses, 1).contains(s) || seeds_in(statuses, 2).contains(s)) by {
        let b = bucket(statuses[s as int]);
        assert(0 <= b <= 2);
    }
}

/// Some pair names seed `s`.
pub open spec fn seed_listed(pairs: Seq<(u32, Status)>, s: u32) -> bool {
    exists|i: int| 0 <= i < pairs.len() && (#[trigger] pairs[i]).0 == s
}

/// The pairs name each seed below `rounds` exactly once.
pub open spec fn seeds_exactly_once(pairs: Seq<(u32, Status)>, rounds: u32) -> bool {
    &&& forall|i: int| 0 <= i < pairs.len() ==> (#[trigger] pairs[i]).0 < rounds
    &&& forall|i: int, j: int|
        0 <= i < j < pairs.len() ==> (#[trigger] pairs[i]).0 != (#[trigger] pairs[j]).0
    &&& forall|s: u32| s < rounds ==> #[trigger] seed_listed(pairs, s)
}

/// Puts the statuses of a batch in seed order, whatever order the rounds
/// finished in. `None` unless each seed below `rounds` comes exactly once.
pub fn order_by_seed(pairs: &Vec<(u32, Status)>, rounds: u32) -> (r: Option<Vec<Status>>)
    ensures
        r is Some <==> seeds_exactly_once(pairs@, rounds),
        r matches Some(v) ==> v@.len() == rounds && forall|i: int|
            0 <= i < pairs@.len() ==> v@[(#[trigger] pairs@[i]).0 as int] == pairs@[i].1,
{
    let mut slots: Vec<Option<Status>> = Vec::new();
    let mut k: u32 = 0;
    while k < rounds
        invariant
            k <= rounds,
            slots@.len() == k,
            forall|s: int| 0 <= s < k ==> slots@[s] is None,
        decreases rounds - k,
    {
        slots.push(None);
        k += 1;
    }
    let mut i: usize = 0;
    while i < pairs.len()
        invariant
            i <= pairs@.len(),
            slots@.len() == rounds,
            forall|j: int| 0 <= j < i ==> (#[trigger] pairs@[j]).0 < rounds,
            forall|a: int, b: int|
                0 <= a < b < i ==> (#[trigger] pairs@[a]).0 != (#[trigger] pairs@[b]).0,
            forall|j: int| 0 <= j < i ==> slots@[(#[trigger] pairs@[j]).0 as int] == Some(pairs@[j].1),
            forall|s: int|
                0 <= s < rounds ==> (slots@[s] is Some <==> exists|j: int|
                    0 <= j < i && (#[trigger] pairs@[j]).0 == s),
        decreases pairs@.len() - i,
    {
        let (seed, status) = pairs[i];
        if seed >= rounds {
            return None;
        }
        if slots[seed as usize].is_some() {
            proof {
                let j = choose|j: int| 0 <= j < i && (#[trigger] pairs@[j]).0 == seed;
                assert(pairs@[j].0 == pairs@[i as int].0);
            }
            return None;
        }
        slots.set(seed as usize, Some(status));
        proof {
            assert forall|s: int|
                0 <= s < rounds implies (slots@[s] is Some <==> exists|j: int|
                    0 <= j < i + 1 && (#[trigger] pairs@[j]).0 == s) by {
                if s == seed {
                    assert(pairs@[i as int].0 == s);
                } else {
                    if slots@[s] is Some {
                        let j = choose|j: int| 0 <= j < i && (#[trigger] pairs@[j]).0 == s;
                        assert(0 <= j < i + 1 && pairs@[j].0 == s);
                    }
                    if exists|j: int| 0 <= j < i + 1 && (#[trigger] pairs@[j]).0 == s {
                        let j = choose|j: int| 0 <= j < i + 1 && (#[trigger] pairs@[j]).0 == s;
                        assert(j != i);
                    }
                }
            }
            assert forall|a: int, b: int| 0 <= a < b < i + 1 implies (#[trigger] pairs@[a]).0
                != (#[trigger] pairs@[b]).0 by {
                if b == i {
                    assert(slots@[pairs@[a].0 as int] is Some || a >= i);
                }
            }
        }
        i += 1;
    }
    let mut out: Vec<Status> = Vec::new();
    let mut s: usize = 0;
    while s < slots.len()
        invariant
            s <= slots@.len(),
            slots@.len() == rounds,
            out@.len() == s,
            forall|t: int| 0 <= t < s ==> slots@[t] == Some(#[trigger] out@[t]),
            forall|j: int| 0 <= j < pairs@.len() ==> (#[trigger] pairs@[j]).0 < rounds,
            forall|a: int, b: int|
                0 <= a < b < pairs@.len() ==> (#[trigger] pairs@[a]).0 != (#[trigger] pairs@[b]).0,
            forall|j: int|
                0 <= j < pairs@.len() ==> slots@[(#[trigger] pairs@[j]).0 as int] == Some(pairs@[j].1),
            forall|t: int|
                0 <= t < rounds ==> (slots@[t] is Some <==> exists|j: int|
                    0 <= j < pairs@.len() && (#[trigger] pairs@[j]).0 == t),
        decreases slots@.len() - s,
    {
        match slots[s] {
            Some(st) => out.push(st),
            None => {
                proof {
                    if seeds_exactly_once(pairs@, rounds) {
                        assert(seed_listed(pairs@, s as u32));
                        let j = choose|j: int| 0 <= j < pairs@.len() && (#[trigger] pairs@[j]).0 == s as u32;
                        assert(slots@[s as int] is Some);
                    }
                }
                return None;
            },
        }
        s += 1;
    }
    proof {
        assert forall|t: u32| t < rounds implies #[trigger] seed_listed(pairs@, t) by {
            assert(slots@[t as int] == Some(out@[t as int]));
        }
    }
    Some(out)
}

/// Results of a batch from its `(seed, status)` pairs in any order; `None`
/// unless each seed below `rounds` comes exactly once.
pub fn results_from_pairs(pairs: &Vec<(u32, Status)>, rounds: u32) -> (r: Option<Results>)
    requires
        forall|i: int| 0 <= i < pairs@.len() ==> (#[trigger] pairs@[i]).1.two_team(),
    ensures
        r is Some <==> seeds_exactly_once(pairs@, rounds),
        r matches Some(res) ==> exists|v: Seq<Status>|
            v.len() == rounds && (forall|i: int|
                0 <= i < pairs@.len() ==> v[(#[trigger] pairs@[i]).0 as int] == pairs@[i].1)
                && res.team0_wins@ == seeds_in(v, 0) && res.team1_wins@ == seeds_in(v, 1)
                && res.draws@ == seeds_in(v, 2),
{
    match order_by_seed(pairs, rounds) {
        Some(v) => {
            proof {
                assert forall|s: int| 0 <= s < v@.len() implies (#[trigger] v@[s]).two_team() by {
                    assert(seed_listed(pairs@, s as u32));
                    let j = choose|j: int| 0 <= j < pairs@.len() && (#[trigger] pairs@[j]).0 == s as u32;
                    assert(v@[pairs@[j].0 as int] == pairs@[j].1);
                }
            }
            let res = collect_results(&v);
            Some(res)
        },
        None => None,
    }
}

/// However the rounds of a batch finished, seed order gives one and the same
/// sequence of statuses, hence the same buckets: two listings of the same
/// `(seed, status)` pairs, each naming every seed below `rounds` once, put
/// in seed order agree.
pub proof fn lemma_completion_order_irrelevant(
    p1: Seq<(u32, Status)>,
    p2: Seq<(u32, Status)>,
    rounds: u32,
    v1: Seq<Status>,
    v2: Seq<Status>,
)
    requires
        seeds_exactly_once(p1, rounds),
        forall|x: (u32, Status)| p1.contains(x) <==> p2.contains(x),
        v1.len() == rounds,
        v2.len() == rounds,
        forall|i: int| 0 <= i < p1.len() ==> v1[(#[trigger] p1[i]).0 as int] == p1[i].1,
        forall|i: int| 0 <= i < p2.len() ==> v2[(#[trigger] p2[i]).0 as int] == p2[i].1,
    ensures
        v1 == v2,
        seeds_in(v1, 0) == seeds_in(v2, 0),
        seeds_in(v1, 1) == seeds_in(v2, 1),
        seeds_in(v1, 2) == seeds_in(v2, 2),
{
    assert forall|t: int| 0 <= t < rounds implies v1[t] == v2[t] by {
        assert(seed_listed(p1, t as u32));
        let j = choose|j: int| 0 <= j < p1.len() && (#[trigger] p1[j]).0 == t as u32;
        assert(p1.contains(p1[j]));
        assert(p2.contains(p1[j]));
        let k = choose|k: int| 0 <= k < p2.len() && p2[k] == p1[j];
        assert(v2[p2[k].0 as int] == p2[k].1);
    }
    assert(v1 =~= v2);
}

/// Counts of a batch and the first seeds of each bucket, for display.
#[derive(Clone, Debug, PartialEq, Eq)]
pub struct Summary {
    pub wins: usize,
    pub losses: usize,
    pub draws: usize,
    pub win_sample: Vec<u32>,
    pub loss_sample: Vec<u32>,
    pub draw_sample: Vec<u32>,
}

pub open spec fn prefix(s: Seq<u32>, n: usize) -> Seq<u32> {
    if n < s.len() {
        s.take(n as int)
    } else {
        s
    }
}

/// The first `n` seeds, or all of them if there are fewer.
pub fn first_n(seeds: &Vec<u32>, n: usize) -> (r: Vec<u32>)
    ensures
        r@ == prefix(seeds@, n),
{
    let mut r: Vec<u32> = Vec::new();
    let mut i: usize = 0;
    while i < seeds.len() && i < n
        invariant
            i <= seeds@.len(),
            i <= n,
            r@ == seeds@.take(i as int),
        decreases seeds@.len() - i,
    {
        r.push(seeds[i]);
        i += 1;
        assert(r@ =~= seeds@.take(i as int));
    }
    assert(seeds@.take(seeds@.len() as int) =~= seeds@);
    r
}

/// Wins, losses and draws of team 0, with the first `n` seeds of each.
pub fn summarize(results: &Results, n: usize) -> (r: Summary)
    ensures
        r.wins == results.team0_wins@.len(),
        r.losses == results.team1_wins@.len(),
        r.draws == results.draws@.len(),
        r.win_sample@ == prefix(results.team0_wins@, n),
        r.loss_sample@ == prefix(results.team1_wins@, n),
        r.draw_sample@ == prefix(results.draws@, n),
{
    Summary {
        wins: results.team0_wins.len(),
        losses: results.team1_wins.len(),
        draws: results.draws.len(),
        win_sample: first_n(&results.team0_wins, n),
        loss_sample: first_n(&results.team1_wins, n),
        draw_sample: first_n(&results.draws, n),
    }
}

} // verus!
