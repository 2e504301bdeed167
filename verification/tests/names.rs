use the_duel::agents::{
    Agent, AttackAgent, MarkovRandomAgent, MirrorAgent, OneStepDecisionProcessAgent, RandomAgent,
    Ratio,
};
use the_duel::game::Action;
use the_duel::text::u32_decimal;

#[test]
fn decimal_rendering_is_exact() {
    assert_eq!(u32_decimal(0), "0");
    assert_eq!(u32_decimal(7), "7");
    assert_eq!(u32_decimal(10), "10");
    assert_eq!(u32_decimal(105), "105");
    assert_eq!(u32_decimal(4_294_967_295), "4294967295");
}

#[test]
fn strategy_names_are_exact() {
    assert_eq!(AttackAgent {}.strategy_name(), "Always Attack");
    assert_eq!(
        MirrorAgent {}.strategy_name(),
        "Always Mirror the opposing action"
    );
    assert_eq!(
        RandomAgent { probability_of_attack: Ratio::new(1, 2) }.strategy_name(),
        "Attack with probability 1/2"
    );
    assert_eq!(
        MarkovRandomAgent {
            change_to_attack_prob: Ratio::new(1, 10),
            change_to_finch_prob: Ratio::new(9, 10),
            current_strategy: Action::ATTACK,
        }
        .strategy_name(),
        "Markov Chain with probabilities 1/10, 9/10"
    );
    assert_eq!(
        OneStepDecisionProcessAgent {
            cost_losing_hp: -3,
            cost_not_losing_hp: -1,
            cost_equivalent_exchange: -3,
            num_turns: 0,
            num_attacks: 0,
        }
        .strategy_name(),
        "Estimate Probability of Attack, and design optimal one-step decision."
    );
    assert_eq!(
        Agent::Attack(AttackAgent {}).strategy_name(),
        "Always Attack"
    );
}
