//! The match engine: resolving one turn of a duel, checking its terminal
//! condition, and running one full match to its recorded outcome.

use crate::agents::{
    always_attacks, always_counters, decide_rel, lemma_always_attacks_step,
    lemma_always_counters_step, Agent,
};
use crate::game::{outcome_of, stepped, Action, GameOutcome, GameState, Payoffs};
use rand_chacha::ChaCha12Rng;
use vstd::prelude::*;

verus! {

/// One match in flight: the two strategies playing it and the payoff
/// table it is resolved under.
pub struct Game {
    pub player_one_agent: Agent,
    pub player_two_agent: Agent,
    pub payoffs: Payoffs,
}

/// Everything one call of `step_game` does: both agents decide — player
/// one observing player two's previously recorded action and vice versa —
/// each within `decide_rel`, and the state is resolved under the payoff
/// table with both committed actions recorded.
pub open spec fn step_post(pre_g: Game, pre_s: GameState, post_g: Game, post_s: GameState) -> bool {
    &&& post_g.payoffs == pre_g.payoffs
    &&& post_s.player_one_action is Some
    &&& post_s.player_two_action is Some
    &&& decide_rel(
        pre_g.player_one_agent,
        pre_s.player_two_action,
        post_g.player_one_agent,
        post_s.player_one_action->0,
    )
    &&& decide_rel(
        pre_g.player_two_agent,
        pre_s.player_one_action,
        post_g.player_two_agent,
        post_s.player_two_action->0,
    )
    &&& post_s == stepped(
        pre_g.payoffs,
        pre_s,
        post_s.player_one_action->0,
        post_s.player_two_action->0,
    )
}

impl Game {
    /// Plays one turn: asks both agents for their actions against the
    /// state as it stood, applies the payoff table, and records the
    /// committed actions in the state.
    pub fn step_game(&mut self, state: &mut GameState, rng: &mut ChaCha12Rng)
        requires
            old(self).player_one_agent.wf(),
            old(self).player_two_agent.wf(),
            old(self).player_one_agent.turn_headroom(1),
            old(self).player_two_agent.turn_headroom(1),
            old(state).player_one_state.current_hit_points >= i64::MIN + 0x1_0000_0000,
            old(state).player_two_state.current_hit_points >= i64::MIN + 0x1_0000_0000,
        ensures
            step_post(*old(self), *old(state), *final(self), *final(state)),
            final(self).player_one_agent.wf(),
            final(self).player_two_agent.wf(),
    {
        let player_one_action = self.player_one_agent.decide_action(
            &state.player_one_state,
            &state.player_two_action,
            &None,
            rng,
        );
        let player_two_action = self.player_two_agent.decide_action(
            &state.player_two_state,
            &state.player_one_action,
            &None,
            rng,
        );

        match (player_one_action, player_two_action) {
            (Action::ATTACK, Action::ATTACK) => {
                state.player_one_state.current_hit_points = state.player_one_state.current_hit_points
                    - (self.payoffs.mutual_attack_damage as i64);
                state.player_two_state.current_hit_points = state.player_two_state.current_hit_points
                    - (self.payoffs.mutual_attack_damage as i64);
            },
            (Action::ATTACK, Action::FINCH) => {
                state.player_one_state.current_hit_points = state.player_one_state.current_hit_points
                    - (self.payoffs.countered_attack_damage as i64);
            },
            (Action::FINCH, Action::ATTACK) => {
                state.player_two_state.current_hit_points = state.player_two_state.current_hit_points
                    - (self.payoffs.countered_attack_damage as i64);
            },
            (Action::FINCH, Action::FINCH) => {
                state.player_one_state.current_hit_points = state.player_one_state.current_hit_points
                    - (self.payoffs.mutual_counter_damage as i64);
                state.player_two_state.current_hit_points = state.player_two_state.current_hit_points
                    - (self.payoffs.mutual_counter_damage as i64);
            },
        }
        state.player_one_action = Some(player_one_action);
        state.player_two_action = Some(player_two_action);
    }

    /// Evaluates the terminal rule on the given state, exactly as
    /// `outcome_of` states it; it never returns the `INTERRUPTED`
    /// sentinel.
    pub fn check_end_condition(&self, state: &GameState) -> (r: GameOutcome)
        ensures
            r == outcome_of(*state),
    {
        if state.player_one_state.current_hit_points <= 0
            && state.player_two_state.current_hit_points <= 0 {
            return GameOutcome::TIE;
        }
        if state.player_one_state.current_hit_points <= 0 {
            return GameOutcome::WIN(2);
        }
        if state.player_two_state.current_hit_points <= 0 {
            return GameOutcome::WIN(1);
        }
        GameOutcome::CONTINUE
    }
}

/// One attack-against-attack turn is symmetric: when both agents always
/// attack and the two players stand at equal hit points, the turn lowers
/// both by exactly the configured mutual-attack damage — simultaneous,
/// equal damage each turn — so they remain equal. This is the per-turn
/// step behind the attack-versus-attack tie.
pub proof fn lemma_mutual_attack_turn_symmetric(
    pre_g: Game,
    pre_s: GameState,
    post_g: Game,
    post_s: GameState,
)
    requires
        always_attacks(pre_g.player_one_agent),
        always_attacks(pre_g.player_two_agent),
        step_post(pre_g, pre_s, post_g, post_s),
        pre_s.player_one_state.current_hit_points == pre_s.player_two_state.current_hit_points,
        pre_s.player_one_state.current_hit_points >= i64::MIN + 0x1_0000_0000,
    ensures
        post_s.player_one_state.current_hit_points == pre_s.player_one_state.current_hit_points
            - pre_g.payoffs.mutual_attack_damage,
        post_s.player_two_state.current_hit_points == pre_s.player_two_state.current_hit_points
            - pre_g.payoffs.mutual_attack_damage,
        post_s.player_one_state.current_hit_points == post_s.player_two_state.current_hit_points,
{
    lemma_always_attacks_step(
        pre_g.player_one_agent,
        pre_s.player_two_action,
        post_g.player_one_agent,
        post_s.player_one_action->0,
    );
    lemma_always_attacks_step(
        pre_g.player_two_agent,
        pre_s.player_one_action,
        post_g.player_two_agent,
        post_s.player_two_action->0,
    );
}

/// Runs one match between independent copies of the two agents, both
/// players starting at `initial_hp`, until the terminal rule fires or the
/// turn cap is reached (a capped match is recorded as a tie, the fallback
/// for rulesets whose all-counter steady state deals no damage). Returns
/// the outcome and the number of turns played.
pub fn run_match(
    agent_one: &Agent,
    agent_two: &Agent,
    initial_hp: i64,
    turn_cap: u64,
    payoffs: Payoffs,
    rng: &mut ChaCha12Rng,
) -> (r: (GameOutcome, u64))
    requires
        1 <= initial_hp,
        agent_one.wf(),
        agent_two.wf(),
        agent_one.turn_headroom(turn_cap as int),
        agent_two.turn_headroom(turn_cap as int),
    ensures
        r.0 == GameOutcome::TIE || r.0 == GameOutcome::WIN(1) || r.0 == GameOutcome::WIN(2),
        r.1 <= turn_cap,
        payoffs.always_damages() ==> r.1 <= 2 * initial_hp,
        always_attacks(*agent_one) && always_attacks(*agent_two) ==> r.0 == GameOutcome::TIE,
        *agent_one is Mirror && always_attacks(*agent_two) ==> r.0 == GameOutcome::TIE,
        always_attacks(*agent_one) && *agent_two is Mirror ==> r.0 == GameOutcome::TIE,
        always_counters(*agent_one) && always_attacks(*agent_two)
            && payoffs.countered_attack_damage >= 1 && turn_cap >= initial_hp ==> r.0
            == GameOutcome::WIN(1),
        always_attacks(*agent_one) && always_counters(*agent_two)
            && payoffs.countered_attack_damage >= 1 && turn_cap >= initial_hp ==> r.0
            == GameOutcome::WIN(2),
{
    let mut game = Game {
        player_one_agent: agent_one.copy_self_to_anom(),
        player_two_agent: agent_two.copy_self_to_anom(),
        payoffs,
    };
    let mut state = GameState::fresh(initial_hp);
    let mut turns: u64 = 0;
    loop
        invariant
            1 <= initial_hp,
            turns <= turn_cap,
            game.payoffs == payoffs,
            game.player_one_agent.wf(),
            game.player_two_agent.wf(),
            game.player_one_agent.turn_headroom(turn_cap - turns),
            game.player_two_agent.turn_headroom(turn_cap - turns),
            outcome_of(state) == GameOutcome::CONTINUE,
            payoffs.always_damages() ==> state.player_one_state.current_hit_points
                + state.player_two_state.current_hit_points <= 2 * initial_hp - turns,
            always_attacks(*agent_one) && always_attacks(*agent_two) ==> {
                &&& always_attacks(game.player_one_agent)
                &&& always_attacks(game.player_two_agent)
                &&& state.player_one_state.current_hit_points
                    == state.player_two_state.current_hit_points
            },
            *agent_one is Mirror && always_attacks(*agent_two) ==> {
                &&& game.player_one_agent is Mirror
                &&& always_attacks(game.player_two_agent)
                &&& (state.player_two_action == Option::<Action>::None || state.player_two_action
                    == Some(Action::ATTACK))
                &&& state.player_one_state.current_hit_points
                    == state.player_two_state.current_hit_points
            },
            always_attacks(*agent_one) && *agent_two is Mirror ==> {
                &&& game.player_two_agent is Mirror
                &&& always_attacks(game.player_one_agent)
                &&& (state.player_one_action == Option::<Action>::None || state.player_one_action
                    == Some(Action::ATTACK))
                &&& state.player_one_state.current_hit_points
                    == state.player_two_state.current_hit_points
            },
            always_counters(*agent_one) && always_attacks(*agent_two) ==> {
                &&& always_counters(game.player_one_agent)
                &&& always_attacks(game.player_two_agent)
                &&& state.player_one_state.current_hit_points == initial_hp
                &&& (payoffs.countered_attack_damage >= 1
                    ==> state.player_two_state.current_hit_points <= initial_hp - turns)
            },
            always_attacks(*agent_one) && always_counters(*agent_two) ==> {
                &&& always_attacks(game.player_one_agent)
                &&& always_counters(game.player_two_agent)
                &&& state.player_two_state.current_hit_points == initial_hp
                &&& (payoffs.countered_attack_damage >= 1
                    ==> state.player_one_state.current_hit_points <= initial_hp - turns)
            },
        decreases turn_cap - turns,
    {
        if turns >= turn_cap {
            return (GameOutcome::TIE, turns);
        }
        let ghost pre_game = game;
        let ghost pre_state = state;
        game.step_game(&mut state, rng);
        turns = turns + 1;
        proof {
            let act1 = state.player_one_action->0;
            let act2 = state.player_two_action->0;
            if always_attacks(pre_game.player_one_agent) {
                lemma_always_attacks_step(
                    pre_game.player_one_agent,
                    pre_state.player_two_action,
                    game.player_one_agent,
                    act1,
                );
            }
            if always_attacks(pre_game.player_two_agent) {
                lemma_always_attacks_step(
                    pre_game.player_two_agent,
                    pre_state.player_one_action,
                    game.player_two_agent,
                    act2,
                );
            }
            if always_counters(pre_game.player_one_agent) {
                lemma_always_counters_step(
                    pre_game.player_one_agent,
                    pre_state.player_two_action,
                    game.player_one_agent,
                    act1,
                );
            }
            if always_counters(pre_game.player_two_agent) {
                lemma_always_counters_step(
                    pre_game.player_two_agent,
                    pre_state.player_one_action,
                    game.player_two_agent,
                    act2,
                );
            }
        }
        let outcome = game.check_end_condition(&state);
        match outcome {
            GameOutcome::WIN(_) => {
                return (outcome, turns);
            },
            GameOutcome::TIE => {
                return (GameOutcome::TIE, turns);
            },
            _ => {},
        }
    }
}

} // verus!
