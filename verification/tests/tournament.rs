use rand::SeedableRng;
use rand_chacha::ChaCha12Rng;
use the_duel::agents::{
    Agent, AttackAgent, MarkovRandomAgent, MirrorAgent, OneStepDecisionProcessAgent, RandomAgent,
    Ratio,
};
use the_duel::game::{Action, Payoffs};
use the_duel::tournament::{run_pairing, run_tournament};

fn roster() -> Vec<Agent> {
    vec![
        Agent::Random(RandomAgent { probability_of_attack: Ratio::new(1, 10) }),
        Agent::Random(RandomAgent { probability_of_attack: Ratio::new(1, 2) }),
        Agent::Attack(AttackAgent {}),
        Agent::Markov(MarkovRandomAgent {
            change_to_attack_prob: Ratio::new(1, 2),
            change_to_finch_prob: Ratio::new(1, 10),
            current_strategy: Action::ATTACK,
        }),
        Agent::Mirror(MirrorAgent {}),
        Agent::Estimator(OneStepDecisionProcessAgent {
            cost_losing_hp: -3,
            cost_not_losing_hp: -1,
            cost_equivalent_exchange: -3,
            num_turns: 0,
            num_attacks: 0,
        }),
    ]
}

#[test]
fn pairing_results_sum_to_the_trial_count() {
    let mut rng = ChaCha12Rng::seed_from_u64(106);
    let one = Agent::Random(RandomAgent { probability_of_attack: Ratio::new(7, 10) });
    let two = Agent::Markov(MarkovRandomAgent {
        change_to_attack_prob: Ratio::new(1, 2),
        change_to_finch_prob: Ratio::new(1, 2),
        current_strategy: Action::ATTACK,
    });
    let (wins_one, wins_two, ties) =
        run_pairing(&one, &two, 200, 12, 10_000, Payoffs::chip_damage(), &mut rng);
    assert_eq!(wins_one + wins_two + ties, 200);
}

#[test]
fn attack_versus_attack_pairing_is_all_ties() {
    let mut rng = ChaCha12Rng::seed_from_u64(1);
    let one = Agent::Attack(AttackAgent {});
    let two = Agent::Random(RandomAgent { probability_of_attack: Ratio::new(4, 4) });
    let (wins_one, wins_two, ties) =
        run_pairing(&one, &two, 50, 9, 10_000, Payoffs::chip_damage(), &mut rng);
    assert_eq!(wins_one, 0);
    assert_eq!(wins_two, 0);
    assert_eq!(ties, 50);
}

#[test]
fn mirror_versus_attack_pairing_is_all_ties() {
    let mut rng = ChaCha12Rng::seed_from_u64(2);
    let (wins_one, wins_two, ties) = run_pairing(
        &Agent::Mirror(MirrorAgent {}),
        &Agent::Attack(AttackAgent {}),
        30,
        15,
        10_000,
        Payoffs::chip_damage(),
        &mut rng,
    );
    assert_eq!(wins_one, 0);
    assert_eq!(wins_two, 0);
    assert_eq!(ties, 30);
}

#[test]
fn tournament_matrices_are_square_with_bounded_cells() {
    let agents = roster();
    let mut rng = ChaCha12Rng::seed_from_u64(106);
    let trials = 20;
    let (wins, ties) =
        run_tournament(&agents, trials, 10, 10_000, Payoffs::chip_damage(), &mut rng);
    assert_eq!(wins.len(), agents.len());
    assert_eq!(ties.len(), agents.len());
    for (i, row) in wins.iter().enumerate() {
        assert_eq!(row.len(), agents.len());
        assert_eq!(ties[i].len(), agents.len());
        for (j, &cell) in row.iter().enumerate() {
            assert!(cell <= 2 * trials);
            if i == j {
                assert!(cell <= trials);
            }
        }
    }
}

#[test]
fn tournament_conserves_every_trial_of_every_pairing() {
    let agents = roster();
    let mut rng = ChaCha12Rng::seed_from_u64(106);
    let trials = 15;
    let (wins, ties) =
        run_tournament(&agents, trials, 9, 10_000, Payoffs::chip_damage(), &mut rng);
    for i in 0..agents.len() {
        assert_eq!(wins[i][i] + ties[i][i], trials);
        for j in 0..agents.len() {
            if i != j {
                assert_eq!(wins[i][j] + wins[j][i] + ties[i][j] + ties[j][i], 2 * trials);
            }
        }
    }
}

#[test]
fn tournament_pins_counter_versus_attacker_cells() {
    let agents = vec![
        Agent::Random(RandomAgent { probability_of_attack: Ratio::new(0, 1) }),
        Agent::Attack(AttackAgent {}),
    ];
    let mut rng = ChaCha12Rng::seed_from_u64(5);
    let trials = 8;
    let (wins, ties) =
        run_tournament(&agents, trials, 6, 10_000, Payoffs::chip_damage(), &mut rng);
    // The committed counter wins every trial of both ordered pairings.
    assert_eq!(wins[0][1], 2 * trials);
    assert_eq!(wins[1][0], 0);
    assert_eq!(ties[0][1], 0);
    assert_eq!(ties[1][0], 0);
}

#[test]
fn tournament_with_identical_seed_reproduces_the_matrix() {
    let agents = roster();
    let mut first_rng = ChaCha12Rng::seed_from_u64(106);
    let first = run_tournament(&agents, 10, 8, 10_000, Payoffs::chip_damage(), &mut first_rng);
    let mut second_rng = ChaCha12Rng::seed_from_u64(106);
    let second = run_tournament(&agents, 10, 8, 10_000, Payoffs::chip_damage(), &mut second_rng);
    assert_eq!(first.0, second.0);
    assert_eq!(first.1, second.1);
}

#[test]
fn tournament_of_attackers_only_records_no_wins() {
    let agents = vec![
        Agent::Attack(AttackAgent {}),
        Agent::Random(RandomAgent { probability_of_attack: Ratio::new(3, 3) }),
    ];
    let mut rng = ChaCha12Rng::seed_from_u64(11);
    let trials = 12;
    let (wins, ties) = run_tournament(&agents, trials, 6, 10_000, Payoffs::chip_damage(), &mut rng);
    for row in &wins {
        for &cell in row {
            assert_eq!(cell, 0);
        }
    }
    // With no winner anywhere, every trial of every pairing was a tie.
    assert_eq!(ties[0][0], trials);
    assert_eq!(ties[1][1], trials);
    assert_eq!(ties[0][1] + ties[1][0], 2 * trials);
}

#[test]
fn counter_versus_attacker_pairing_is_all_wins_for_the_counter() {
    let mut rng = ChaCha12Rng::seed_from_u64(3);
    let counter = Agent::Random(RandomAgent { probability_of_attack: Ratio::new(0, 1) });
    let attacker = Agent::Attack(AttackAgent {});
    let (wins_one, wins_two, ties) =
        run_pairing(&counter, &attacker, 40, 7, 10_000, Payoffs::chip_damage(), &mut rng);
    assert_eq!(wins_one, 40);
    assert_eq!(wins_two, 0);
    assert_eq!(ties, 0);
}
