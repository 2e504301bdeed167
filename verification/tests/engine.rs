use rand::SeedableRng;
use rand_chacha::ChaCha12Rng;
use the_duel::agents::{
    Agent, AttackAgent, MarkovRandomAgent, MirrorAgent, OneStepDecisionProcessAgent, Ratio,
};
use the_duel::engine::{run_match, Game};
use the_duel::game::{Action, GameOutcome, GameState, Payoffs, PlayerState};

fn chip() -> Payoffs {
    Payoffs::chip_damage()
}

fn committed_counter_agent() -> Agent {
    // A Markov agent pinned to counter: it never switches to attack and
    // starts committed to counter.
    Agent::Markov(MarkovRandomAgent {
        change_to_attack_prob: Ratio::new(0, 1),
        change_to_finch_prob: Ratio::new(1, 1),
        current_strategy: Action::FINCH,
    })
}

#[test]
fn both_attack_each_lose_mutual_attack_damage() {
    let mut rng = ChaCha12Rng::seed_from_u64(1);
    let mut game = Game {
        player_one_agent: Agent::Attack(AttackAgent {}),
        player_two_agent: Agent::Attack(AttackAgent {}),
        payoffs: chip(),
    };
    let mut state = GameState::fresh(10);
    game.step_game(&mut state, &mut rng);
    assert_eq!(state.player_one_state.current_hit_points, 9);
    assert_eq!(state.player_two_state.current_hit_points, 9);
    assert_eq!(state.player_one_action, Some(Action::ATTACK));
    assert_eq!(state.player_two_action, Some(Action::ATTACK));
    assert_eq!(state.player_one_state.max_hit_points, 10);
}

#[test]
fn attack_into_counter_hurts_only_the_attacker() {
    let mut rng = ChaCha12Rng::seed_from_u64(1);
    let payoffs = Payoffs {
        mutual_attack_damage: 1,
        countered_attack_damage: 2,
        mutual_counter_damage: 0,
    };
    let mut game = Game {
        player_one_agent: Agent::Attack(AttackAgent {}),
        player_two_agent: committed_counter_agent(),
        payoffs,
    };
    let mut state = GameState::fresh(10);
    game.step_game(&mut state, &mut rng);
    assert_eq!(state.player_one_state.current_hit_points, 8);
    assert_eq!(state.player_two_state.current_hit_points, 10);
    assert_eq!(state.player_one_action, Some(Action::ATTACK));
    assert_eq!(state.player_two_action, Some(Action::FINCH));
}

#[test]
fn counter_into_attack_hurts_only_the_opposing_attacker() {
    let mut rng = ChaCha12Rng::seed_from_u64(1);
    let payoffs = Payoffs {
        mutual_attack_damage: 1,
        countered_attack_damage: 2,
        mutual_counter_damage: 0,
    };
    let mut game = Game {
        player_one_agent: committed_counter_agent(),
        player_two_agent: Agent::Attack(AttackAgent {}),
        payoffs,
    };
    let mut state = GameState::fresh(10);
    game.step_game(&mut state, &mut rng);
    assert_eq!(state.player_one_state.current_hit_points, 10);
    assert_eq!(state.player_two_state.current_hit_points, 8);
}

#[test]
fn mutual_counter_deals_the_configured_chip_damage() {
    let mut rng = ChaCha12Rng::seed_from_u64(1);
    let mut game = Game {
        player_one_agent: committed_counter_agent(),
        player_two_agent: committed_counter_agent(),
        payoffs: chip(),
    };
    let mut state = GameState::fresh(10);
    game.step_game(&mut state, &mut rng);
    assert_eq!(state.player_one_state.current_hit_points, 9);
    assert_eq!(state.player_two_state.current_hit_points, 9);
}

#[test]
fn mirror_echoes_the_recorded_action() {
    let mut rng = ChaCha12Rng::seed_from_u64(1);
    let mut game = Game {
        player_one_agent: Agent::Mirror(MirrorAgent {}),
        player_two_agent: committed_counter_agent(),
        payoffs: chip(),
    };
    let mut state = GameState::fresh(10);
    // First turn: nothing observed yet, so the mirror attacks.
    game.step_game(&mut state, &mut rng);
    assert_eq!(state.player_one_action, Some(Action::ATTACK));
    assert_eq!(state.player_two_action, Some(Action::FINCH));
    // Second turn: the mirror echoes the opponent's recorded counter.
    game.step_game(&mut state, &mut rng);
    assert_eq!(state.player_one_action, Some(Action::FINCH));
}

#[test]
fn terminal_rule_prefers_tie_then_names_the_survivor() {
    let game = Game {
        player_one_agent: Agent::Attack(AttackAgent {}),
        player_two_agent: Agent::Attack(AttackAgent {}),
        payoffs: chip(),
    };
    let both_down = GameState {
        player_one_state: PlayerState { max_hit_points: 5, current_hit_points: 0 },
        player_two_state: PlayerState { max_hit_points: 5, current_hit_points: -1 },
        player_one_action: None,
        player_two_action: None,
    };
    assert_eq!(game.check_end_condition(&both_down), GameOutcome::TIE);

    let one_down = GameState {
        player_one_state: PlayerState { max_hit_points: 5, current_hit_points: 0 },
        player_two_state: PlayerState { max_hit_points: 5, current_hit_points: 3 },
        player_one_action: None,
        player_two_action: None,
    };
    assert_eq!(game.check_end_condition(&one_down), GameOutcome::WIN(2));

    let two_down = GameState {
        player_one_state: PlayerState { max_hit_points: 5, current_hit_points: 3 },
        player_two_state: PlayerState { max_hit_points: 5, current_hit_points: -2 },
        player_one_action: None,
        player_two_action: None,
    };
    assert_eq!(game.check_end_condition(&two_down), GameOutcome::WIN(1));

    let alive = GameState {
        player_one_state: PlayerState { max_hit_points: 5, current_hit_points: 1 },
        player_two_state: PlayerState { max_hit_points: 5, current_hit_points: 1 },
        player_one_action: None,
        player_two_action: None,
    };
    assert_eq!(game.check_end_condition(&alive), GameOutcome::CONTINUE);
}

#[test]
fn attack_versus_attack_always_ties() {
    let mut rng = ChaCha12Rng::seed_from_u64(7);
    let (outcome, turns) = run_match(
        &Agent::Attack(AttackAgent {}),
        &Agent::Attack(AttackAgent {}),
        25,
        10_000,
        chip(),
        &mut rng,
    );
    assert_eq!(outcome, GameOutcome::TIE);
    assert_eq!(turns, 25);
}

#[test]
fn mirror_versus_attack_always_ties() {
    let mut rng = ChaCha12Rng::seed_from_u64(7);
    let (outcome, _) = run_match(
        &Agent::Mirror(MirrorAgent {}),
        &Agent::Attack(AttackAgent {}),
        40,
        10_000,
        chip(),
        &mut rng,
    );
    assert_eq!(outcome, GameOutcome::TIE);
    let (outcome_swapped, _) = run_match(
        &Agent::Attack(AttackAgent {}),
        &Agent::Mirror(MirrorAgent {}),
        40,
        10_000,
        chip(),
        &mut rng,
    );
    assert_eq!(outcome_swapped, GameOutcome::TIE);
}

#[test]
fn matches_end_within_total_starting_hit_points_turns() {
    let mut rng = ChaCha12Rng::seed_from_u64(106);
    let estimator = Agent::Estimator(OneStepDecisionProcessAgent {
        cost_losing_hp: -3,
        cost_not_losing_hp: -1,
        cost_equivalent_exchange: -3,
        num_turns: 0,
        num_attacks: 0,
    });
    let markov = Agent::Markov(MarkovRandomAgent {
        change_to_attack_prob: Ratio::new(3, 10),
        change_to_finch_prob: Ratio::new(6, 10),
        current_strategy: Action::FINCH,
    });
    let (outcome, turns) = run_match(&estimator, &markov, 30, 10_000, chip(), &mut rng);
    assert!(matches!(outcome, GameOutcome::WIN(1) | GameOutcome::WIN(2) | GameOutcome::TIE));
    assert!(turns <= 60);
}

#[test]
fn zero_damage_counter_standoff_is_capped_and_tied() {
    let mut rng = ChaCha12Rng::seed_from_u64(9);
    let payoffs = Payoffs {
        mutual_attack_damage: 1,
        countered_attack_damage: 2,
        mutual_counter_damage: 0,
    };
    let (outcome, turns) = run_match(
        &committed_counter_agent(),
        &committed_counter_agent(),
        5,
        77,
        payoffs,
        &mut rng,
    );
    assert_eq!(outcome, GameOutcome::TIE);
    assert_eq!(turns, 77);
}

#[test]
fn zero_turn_cap_records_an_immediate_tie() {
    let mut rng = ChaCha12Rng::seed_from_u64(9);
    let (outcome, turns) = run_match(
        &Agent::Attack(AttackAgent {}),
        &Agent::Attack(AttackAgent {}),
        5,
        0,
        chip(),
        &mut rng,
    );
    assert_eq!(outcome, GameOutcome::TIE);
    assert_eq!(turns, 0);
}

#[test]
fn committed_counter_beats_the_constant_attacker() {
    let mut rng = ChaCha12Rng::seed_from_u64(8);
    let (outcome, turns) = run_match(
        &committed_counter_agent(),
        &Agent::Attack(AttackAgent {}),
        12,
        10_000,
        chip(),
        &mut rng,
    );
    assert_eq!(outcome, GameOutcome::WIN(1));
    assert_eq!(turns, 12);
    let (outcome_swapped, _) = run_match(
        &Agent::Attack(AttackAgent {}),
        &committed_counter_agent(),
        12,
        10_000,
        chip(),
        &mut rng,
    );
    assert_eq!(outcome_swapped, GameOutcome::WIN(2));
}
