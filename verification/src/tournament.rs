//! The tournament driver: repeated independent trials of one agent
//! pairing, and the row-major round-robin sweep over every ordered pair
//! that accumulates the win-count matrix.

use crate::agents::{always_attacks, always_counters, Agent};
use crate::engine::run_match;
use crate::game::{GameOutcome, Payoffs};
use rand_chacha::ChaCha12Rng;
use vstd::prelude::*;

verus! {

/// Runs `trials` independent matches between fresh copies of the two
/// agents, each from identical starting states, and counts how many each
/// side won and how many tied. Every trial is recorded exactly once:
/// wins, ties and losses over a pairing always sum to the trial count.
pub fn run_pairing(
    agent_one: &Agent,
    agent_two: &Agent,
    trials: u64,
    initial_hp: i64,
    turn_cap: u64,
    payoffs: Payoffs,
    rng: &mut ChaCha12Rng,
) -> (r: (u64, u64, u64))
    requires
        1 <= initial_hp,
        agent_one.wf(),
        agent_two.wf(),
        agent_one.turn_headroom(turn_cap as int),
        agent_two.turn_headroom(turn_cap as int),
    ensures
        r.0 + r.1 + r.2 == trials,
        always_attacks(*agent_one) && always_attacks(*agent_two) ==> r.0 == 0 && r.1 == 0,
        *agent_one is Mirror && always_attacks(*agent_two) ==> r.0 == 0 && r.1 == 0,
        always_attacks(*agent_one) && *agent_two is Mirror ==> r.0 == 0 && r.1 == 0,
        always_counters(*agent_one) && always_attacks(*agent_two)
            && payoffs.countered_attack_damage >= 1 && turn_cap >= initial_hp ==> r.0 == trials
            && r.1 == 0 && r.2 == 0,
        always_attacks(*agent_one) && always_counters(*agent_two)
            && payoffs.countered_attack_damage >= 1 && turn_cap >= initial_hp ==> r.1 == trials
            && r.0 == 0 && r.2 == 0,
{
    let mut wins_one: u64 = 0;
    let mut wins_two: u64 = 0;
    let mut ties: u64 = 0;
    let mut t: u64 = 0;
    while t < trials
        invariant
            t <= trials,
            wins_one + wins_two + ties == t,
            1 <= initial_hp,
            agent_one.wf(),
            agent_two.wf(),
            agent_one.turn_headroom(turn_cap as int),
            agent_two.turn_headroom(turn_cap as int),
            always_attacks(*agent_one) && always_attacks(*agent_two) ==> wins_one == 0 && wins_two
                == 0,
            *agent_one is Mirror && always_attacks(*agent_two) ==> wins_one == 0 && wins_two == 0,
            always_attacks(*agent_one) && *agent_two is Mirror ==> wins_one == 0 && wins_two == 0,
            always_counters(*agent_one) && always_attacks(*agent_two)
                && payoffs.countered_attack_damage >= 1 && turn_cap >= initial_hp ==> wins_one == t
                && wins_two == 0 && ties == 0,
            always_attacks(*agent_one) && always_counters(*agent_two)
                && payoffs.countered_attack_damage >= 1 && turn_cap >= initial_hp ==> wins_two == t
                && wins_one == 0 && ties == 0,
        decreases trials - t,
    {
        let fresh_one = agent_one.copy_self_to_anom();
        let fresh_two = agent_two.copy_self_to_anom();
        let (outcome, _turns) = run_match(
            &fresh_one,
            &fresh_two,
            initial_hp,
            turn_cap,
            payoffs,
            rng,
        );
        match outcome {
            GameOutcome::WIN(id) => {
                if id == 1 {
                    wins_one = wins_one + 1;
                } else {
                    wins_two = wins_two + 1;
                }
            },
            GameOutcome::TIE => {
                ties = ties + 1;
            },
            _ => {
                proof {
                    assert(false);
                }
            },
        }
        t = t + 1;
    }
    (wins_one, wins_two, ties)
}

/// An ordered pairing `(x, y)` has already been run when the row-major
/// sweep stands before pairing `(i, j)`.
pub open spec fn pairing_done(x: int, y: int, i: int, j: int) -> bool {
    x < i || (x == i && y < j)
}

/// The recorded outcomes that cell `(a, b)` and its transpose have been
/// paid when the sweep stands before pairing `(i, j)`: `trials` for each
/// completed ordered pairing of the two indices.
pub open spec fn paid_pairings(a: int, b: int, i: int, j: int, trials: int) -> int {
    (if pairing_done(a, b, i, j) {
        trials
    } else {
        0
    }) + (if pairing_done(b, a, i, j) {
        trials
    } else {
        0
    })
}

/// The sweep's books for the distinct roster indices `a` and `b` when it
/// stands before pairing `(i, j)`: each completed ordered pairing of the
/// two has recorded exactly `trials` outcomes, split between the two win
/// cells it writes and its own tie cell, and a tie cell no pairing has
/// run yet is zero.
pub open spec fn pair_books(
    wins: Seq<Vec<u64>>,
    ties: Seq<Vec<u64>>,
    a: int,
    b: int,
    i: int,
    j: int,
    trials: int,
) -> bool {
    &&& wins[a]@[b] + wins[b]@[a] + ties[a]@[b] + ties[b]@[a] == paid_pairings(
        a,
        b,
        i,
        j,
        trials,
    )
    &&& (!pairing_done(a, b, i, j) ==> ties[a]@[b] == 0)
    &&& (!pairing_done(b, a, i, j) ==> ties[b]@[a] == 0)
}

/// The books for a diagonal cell: the self-pairing of index `a` records
/// its `trials` outcomes as wins into `wins[a][a]` (either side's) and
/// ties into `ties[a][a]`, and nothing before it runs.
pub open spec fn diagonal_books(
    wins: Seq<Vec<u64>>,
    ties: Seq<Vec<u64>>,
    a: int,
    i: int,
    j: int,
    trials: int,
) -> bool {
    wins[a]@[a] + ties[a]@[a] == (if pairing_done(a, a, i, j) {
        trials
    } else {
        0
    })
}

/// A pairing that provably records no win at all, in either seat: two
/// always-attackers, or the mirror against an always-attacker.
pub open spec fn winless_pair(x: Agent, y: Agent) -> bool {
    ||| (always_attacks(x) && always_attacks(y))
    ||| (x is Mirror && always_attacks(y))
    ||| (always_attacks(x) && y is Mirror)
}

/// A pairing whose every trial is provably won by the committed counter
/// `x` against the always-attacker `y`, under a ruleset that punishes a
/// countered attack and a cap that lets every match finish.
pub open spec fn counter_beats_attacker(
    x: Agent,
    y: Agent,
    payoffs: Payoffs,
    initial_hp: i64,
    turn_cap: u64,
) -> bool {
    &&& always_counters(x)
    &&& always_attacks(y)
    &&& payoffs.countered_attack_damage >= 1
    &&& turn_cap >= initial_hp
}

/// Runs the full round-robin tournament: for every ordered pair of roster
/// indices `(i, j)`, in row-major order, `trials` independent matches; a
/// win for the pairing's player one bumps `wins[i][j]`, a win for its
/// player two bumps `wins[j][i]`, and a tie bumps `ties[i][j]`. Every
/// trial of every pairing is recorded exactly once, so for distinct
/// indices the two win cells and the two tie cells of a pair sum to the
/// trials of its two ordered pairings, and a diagonal cell's wins and
/// ties sum to the trials of its one self-pairing. Pairings whose outcome
/// is decided — no winner between attackers or against the mirror, every
/// trial to a committed counter over an attacker — are pinned cell by
/// cell.
pub fn run_tournament(
    agents: &Vec<Agent>,
    trials: u64,
    initial_hp: i64,
    turn_cap: u64,
    payoffs: Payoffs,
    rng: &mut ChaCha12Rng,
) -> (r: (Vec<Vec<u64>>, Vec<Vec<u64>>))
    requires
        1 <= initial_hp,
        trials <= 0x7fff_ffff_ffff_ffff,
        forall|k: int| 0 <= k < agents@.len() ==> (#[trigger] agents@[k]).wf(),
        forall|k: int| 0 <= k < agents@.len() ==> (#[trigger] agents@[k]).turn_headroom(
            turn_cap as int,
        ),
    ensures
        r.0@.len() == agents@.len(),
        r.1@.len() == agents@.len(),
        forall|a: int| 0 <= a < agents@.len() ==> (#[trigger] r.0@[a])@.len() == agents@.len(),
        forall|a: int| 0 <= a < agents@.len() ==> (#[trigger] r.1@[a])@.len() == agents@.len(),
        forall|a: int, b: int|
            0 <= a < agents@.len() && 0 <= b < agents@.len() && a != b ==> #[trigger] r.0@[a]@[b]
                + r.0@[b]@[a] + r.1@[a]@[b] + r.1@[b]@[a] == 2 * trials,
        forall|a: int|
            0 <= a < agents@.len() ==> #[trigger] r.0@[a]@[a] + r.1@[a]@[a] == trials,
        forall|a: int, b: int|
            0 <= a < agents@.len() && 0 <= b < agents@.len() ==> #[trigger] r.0@[a]@[b] <= 2
                * trials,
        forall|a: int| 0 <= a < agents@.len() ==> #[trigger] r.0@[a]@[a] <= trials,
        forall|a: int, b: int|
            0 <= a < agents@.len() && 0 <= b < agents@.len() && winless_pair(
                agents@[a],
                agents@[b],
            ) ==> #[trigger] r.0@[a]@[b] == 0,
        forall|a: int, b: int|
            0 <= a < agents@.len() && 0 <= b < agents@.len() && a != b && counter_beats_attacker(
                agents@[a],
                agents@[b],
                payoffs,
                initial_hp,
                turn_cap,
            ) ==> #[trigger] r.0@[a]@[b] == 2 * trials && r.0@[b]@[a] == 0,
{
    let n = agents.len();
    let mut wins: Vec<Vec<u64>> = Vec::new();
    let mut ties: Vec<Vec<u64>> = Vec::new();
    let mut r: usize = 0;
    while r < n
        invariant
            r <= n,
            wins@.len() == r,
            ties@.len() == r,
            forall|a: int| 0 <= a < r ==> (#[trigger] wins@[a])@.len() == n,
            forall|a: int| 0 <= a < r ==> (#[trigger] ties@[a])@.len() == n,
            forall|a: int, b: int| 0 <= a < r && 0 <= b < n ==> #[trigger] wins@[a]@[b] == 0,
            forall|a: int, b: int| 0 <= a < r && 0 <= b < n ==> #[trigger] ties@[a]@[b] == 0,
        decreases n - r,
    {
        let win_row: Vec<u64> = vec![0u64; n];
        wins.push(win_row);
        let tie_row: Vec<u64> = vec![0u64; n];
        ties.push(tie_row);
        r = r + 1;
    }

    let mut i: usize = 0;
    while i < n
        invariant
            i <= n,
            n == agents@.len(),
            wins@.len() == n,
            ties@.len() == n,
            1 <= initial_hp,
            trials <= 0x7fff_ffff_ffff_ffff,
            forall|k: int| 0 <= k < n ==> (#[trigger] agents@[k]).wf(),
            forall|k: int| 0 <= k < n ==> (#[trigger] agents@[k]).turn_headroom(turn_cap as int),
            forall|a: int| 0 <= a < n ==> (#[trigger] wins@[a])@.len() == n,
            forall|a: int| 0 <= a < n ==> (#[trigger] ties@[a])@.len() == n,
            forall|a: int, b: int|
                0 <= a < n && 0 <= b < n && a != b ==> pair_books(
                    wins@,
                    ties@,
                    a,
                    b,
                    i as int,
                    0,
                    trials as int,
                ),
            forall|a: int| 0 <= a < n ==> diagonal_books(wins@, ties@, a, i as int, 0, trials as int),
            forall|a: int, b: int|
                0 <= a < n && 0 <= b < n && winless_pair(agents@[a], agents@[b])
                    ==> #[trigger] wins@[a]@[b] == 0,
            forall|a: int, b: int|
                0 <= a < n && 0 <= b < n && a != b && counter_beats_attacker(
                    agents@[a],
                    agents@[b],
                    payoffs,
                    initial_hp,
                    turn_cap,
                ) ==> #[trigger] wins@[a]@[b] == paid_pairings(a, b, i as int, 0, trials as int)
                    && wins@[b]@[a] == 0,
        decreases n - i,
    {
        let mut j: usize = 0;
        while j < n
            invariant
                i < n,
                j <= n,
                n == agents@.len(),
                wins@.len() == n,
                ties@.len() == n,
                1 <= initial_hp,
                trials <= 0x7fff_ffff_ffff_ffff,
                forall|k: int| 0 <= k < n ==> (#[trigger] agents@[k]).wf(),
                forall|k: int| 0 <= k < n ==> (#[trigger] agents@[k]).turn_headroom(
                    turn_cap as int,
                ),
                forall|a: int| 0 <= a < n ==> (#[trigger] wins@[a])@.len() == n,
                forall|a: int| 0 <= a < n ==> (#[trigger] ties@[a])@.len() == n,
                forall|a: int, b: int|
                    0 <= a < n && 0 <= b < n && a != b ==> pair_books(
                        wins@,
                        ties@,
                        a,
                        b,
                        i as int,
                        j as int,
                        trials as int,
                    ),
                forall|a: int|
                    0 <= a < n ==> diagonal_books(wins@, ties@, a, i as int, j as int, trials as int),
                forall|a: int, b: int|
                    0 <= a < n && 0 <= b < n && winless_pair(agents@[a], agents@[b])
                        ==> #[trigger] wins@[a]@[b] == 0,
                forall|a: int, b: int|
                    0 <= a < n && 0 <= b < n && a != b && counter_beats_attacker(
                        agents@[a],
                        agents@[b],
                        payoffs,
                        initial_hp,
                        turn_cap,
                    ) ==> #[trigger] wins@[a]@[b] == paid_pairings(
                        a,
                        b,
                        i as int,
                        j as int,
                        trials as int,
                    ) && wins@[b]@[a] == 0,
            decreases n - j,
        {
            let (w1, w2, t_count) = run_pairing(
                &agents[i],
                &agents[j],
                trials,
                initial_hp,
                turn_cap,
                payoffs,
                rng,
            );
            proof {
                if i != j {
                    assert(pair_books(
                        wins@,
                        ties@,
                        i as int,
                        j as int,
                        i as int,
                        j as int,
                        trials as int,
                    ));
                } else {
                    assert(diagonal_books(wins@, ties@, i as int, i as int, j as int, trials as int));
                }
            }
            let ghost before_w = wins@;
            let ghost before_t = ties@;
            let cur_one = wins[i][j];
            wins[i][j] = cur_one + w1;
            let ghost mid_w = wins@;
            let cur_two = wins[j][i];
            wins[j][i] = cur_two + w2;
            let cur_ties = ties[i][j];
            ties[i][j] = cur_ties + t_count;
            proof {
                lemma_books_after_pairing(
                    before_w,
                    mid_w,
                    wins@,
                    before_t,
                    ties@,
                    n as int,
                    i as int,
                    j as int,
                    j as int + 1,
                    trials as int,
                    w1 as int,
                    w2 as int,
                    t_count as int,
                );
                assert forall|a: int, b: int|
                    0 <= a < n && 0 <= b < n && winless_pair(agents@[a], agents@[b])
                        implies #[trigger] wins@[a]@[b] == 0 by {
                    if (a == i && b == j) || (a == j && b == i) {
                        assert(w1 == 0 && w2 == 0);
                    } else {
                        if a == i {
                            assert(mid_w[a]@[b] == before_w[a]@[b]);
                        }
                        if a == j {
                            assert(wins@[a]@[b] == mid_w[a]@[b]);
                        }
                        assert(wins@[a]@[b] == before_w[a]@[b]);
                    }
                }
                assert forall|a: int, b: int|
                    0 <= a < n && 0 <= b < n && a != b && counter_beats_attacker(
                        agents@[a],
                        agents@[b],
                        payoffs,
                        initial_hp,
                        turn_cap,
                    ) implies #[trigger] wins@[a]@[b] == paid_pairings(
                        a,
                        b,
                        i as int,
                        j as int + 1,
                        trials as int,
                    ) && wins@[b]@[a] == 0 by {
                    if a == i && b == j {
                        assert(w1 == trials && w2 == 0);
                        assert(wins@[b]@[a] == mid_w[b]@[a] + w2);
                    } else if a == j && b == i {
                        assert(w2 == trials && w1 == 0);
                        assert(wins@[a]@[b] == mid_w[a]@[b] + w2);
                        assert(mid_w[b]@[a] == before_w[b]@[a] + w1);
                    } else {
                        if a == i {
                            assert(mid_w[a]@[b] == before_w[a]@[b]);
                        }
                        if a == j {
                            assert(wins@[a]@[b] == mid_w[a]@[b]);
                        }
                        if b == i {
                            assert(mid_w[b]@[a] == before_w[b]@[a]);
                        }
                        if b == j {
                            assert(wins@[b]@[a] == mid_w[b]@[a]);
                        }
                        assert(wins@[a]@[b] == before_w[a]@[b]);
                        assert(wins@[b]@[a] == before_w[b]@[a]);
                    }
                }
            }
            j = j + 1;
        }
        proof {
            let i_next: int = i as int + 1;
            assert forall|a: int, b: int| 0 <= a < n && 0 <= b < n && a != b implies pair_books(
                wins@,
                ties@,
                a,
                b,
                i_next,
                0,
                trials as int,
            ) by {
                assert(pair_books(wins@, ties@, a, b, i as int, n as int, trials as int));
            }
            assert forall|a: int| 0 <= a < n implies diagonal_books(
                wins@,
                ties@,
                a,
                i_next,
                0,
                trials as int,
            ) by {
                assert(diagonal_books(wins@, ties@, a, i as int, n as int, trials as int));
            }
            assert forall|a: int, b: int|
                0 <= a < n && 0 <= b < n && a != b && counter_beats_attacker(
                    agents@[a],
                    agents@[b],
                    payoffs,
                    initial_hp,
                    turn_cap,
                ) implies #[trigger] wins@[a]@[b] == paid_pairings(a, b, i_next, 0, trials as int)
                    && wins@[b]@[a] == 0 by {
                assert(wins@[a]@[b] == paid_pairings(a, b, i as int, n as int, trials as int));
            }
        }
        i = i + 1;
    }
    proof {
        assert forall|a: int, b: int| 0 <= a < n && 0 <= b < n implies #[trigger] wins@[a]@[b] <= 2
            * trials by {
            if a != b {
                assert(pair_books(wins@, ties@, a, b, n as int, 0, trials as int));
            } else {
                assert(diagonal_books(wins@, ties@, a, n as int, 0, trials as int));
            }
        }
        assert forall|a: int, b: int| 0 <= a < n && 0 <= b < n && a != b implies #[trigger] wins@[a]@[b]
            + wins@[b]@[a] + ties@[a]@[b] + ties@[b]@[a] == 2 * trials by {
            assert(pair_books(wins@, ties@, a, b, n as int, 0, trials as int));
        }
        assert forall|a: int| 0 <= a < n implies #[trigger] wins@[a]@[a] + ties@[a]@[a] == trials by {
            assert(diagonal_books(wins@, ties@, a, n as int, 0, trials as int));
        }
    }
    (wins, ties)
}

/// After pairing `(i, j)` records `w1` wins into cell `(i, j)`, `w2` wins
/// into cell `(j, i)` and `t_count` ties into tie cell `(i, j)` — one and
/// the same win cell twice when `i == j` — every pair's books balance for
/// the next pairing of the sweep.
proof fn lemma_books_after_pairing(
    before_w: Seq<Vec<u64>>,
    mid_w: Seq<Vec<u64>>,
    after_w: Seq<Vec<u64>>,
    before_t: Seq<Vec<u64>>,
    after_t: Seq<Vec<u64>>,
    n: int,
    i: int,
    j: int,
    jn: int,
    trials: int,
    w1: int,
    w2: int,
    t_count: int,
)
    requires
        jn == j + 1,
        0 <= i < n,
        0 <= j < n,
        0 <= trials,
        0 <= w1,
        0 <= w2,
        0 <= t_count,
        w1 + w2 + t_count == trials,
        before_w.len() == n,
        mid_w.len() == n,
        after_w.len() == n,
        before_t.len() == n,
        after_t.len() == n,
        forall|a: int| 0 <= a < n ==> (#[trigger] before_w[a])@.len() == n,
        forall|a: int| 0 <= a < n ==> (#[trigger] before_t[a])@.len() == n,
        forall|a: int, b: int|
            0 <= a < n && 0 <= b < n && a != b ==> pair_books(
                before_w,
                before_t,
                a,
                b,
                i,
                j,
                trials,
            ),
        forall|a: int| 0 <= a < n ==> diagonal_books(before_w, before_t, a, i, j, trials),
        before_w[i]@[j] + w1 <= u64::MAX,
        mid_w[i]@ == before_w[i]@.update(j, (before_w[i]@[j] + w1) as u64),
        forall|a: int| 0 <= a < n && a != i ==> #[trigger] mid_w[a] == before_w[a],
        mid_w[j]@[i] + w2 <= u64::MAX,
        after_w[j]@ == mid_w[j]@.update(i, (mid_w[j]@[i] + w2) as u64),
        forall|a: int| 0 <= a < n && a != j ==> #[trigger] after_w[a] == mid_w[a],
        before_t[i]@[j] + t_count <= u64::MAX,
        after_t[i]@ == before_t[i]@.update(j, (before_t[i]@[j] + t_count) as u64),
        forall|a: int| 0 <= a < n && a != i ==> #[trigger] after_t[a] == before_t[a],
    ensures
        forall|a: int| 0 <= a < n ==> (#[trigger] after_w[a])@.len() == n,
        forall|a: int| 0 <= a < n ==> (#[trigger] after_t[a])@.len() == n,
        forall|a: int, b: int|
            0 <= a < n && 0 <= b < n && a != b ==> pair_books(
                after_w,
                after_t,
                a,
                b,
                i,
                jn,
                trials,
            ),
        forall|a: int| 0 <= a < n ==> diagonal_books(after_w, after_t, a, i, jn, trials),
{
    assert forall|a: int, b: int| 0 <= a < n && 0 <= b < n && a != b implies pair_books(
        after_w,
        after_t,
        a,
        b,
        i,
        jn,
        trials,
    ) by {
        assert(pair_books(before_w, before_t, a, b, i, j, trials));
        if a == i && b == j {
            assert(after_w[a]@[b] == before_w[a]@[b] + w1);
            assert(after_w[b]@[a] == before_w[b]@[a] + w2);
            assert(after_t[a]@[b] == before_t[a]@[b] + t_count);
            assert(after_t[b]@[a] == before_t[b]@[a]);
        } else if a == j && b == i {
            assert(after_w[b]@[a] == before_w[b]@[a] + w1);
            assert(after_w[a]@[b] == before_w[a]@[b] + w2);
            assert(after_t[b]@[a] == before_t[b]@[a] + t_count);
            assert(after_t[a]@[b] == before_t[a]@[b]);
        } else {
            if a == i {
                assert(mid_w[a]@[b] == before_w[a]@[b]);
            }
            if a == j {
                assert(after_w[a]@[b] == mid_w[a]@[b]);
            }
            if b == i {
                assert(mid_w[b]@[a] == before_w[b]@[a]);
            }
            if b == j {
                assert(after_w[b]@[a] == mid_w[b]@[a]);
            }
            assert(after_w[a]@[b] == before_w[a]@[b]);
            assert(after_w[b]@[a] == before_w[b]@[a]);
            assert(after_t[a]@[b] == before_t[a]@[b]);
            assert(after_t[b]@[a] == before_t[b]@[a]);
        }
    }
    assert forall|a: int| 0 <= a < n implies diagonal_books(after_w, after_t, a, i, jn, trials) by {
        assert(diagonal_books(before_w, before_t, a, i, j, trials));
        if a == i && a == j {
            assert(mid_w[a]@[a] == before_w[a]@[a] + w1);
            assert(after_w[a]@[a] == mid_w[a]@[a] + w2);
            assert(after_t[a]@[a] == before_t[a]@[a] + t_count);
        } else {
            if a == i {
                assert(mid_w[a]@[a] == before_w[a]@[a]);
            }
            if a == j {
                assert(after_w[a]@[a] == mid_w[a]@[a]);
            }
            assert(after_w[a]@[a] == before_w[a]@[a]);
            assert(after_t[a]@[a] == before_t[a]@[a]);
        }
    }
}

} // verus!
