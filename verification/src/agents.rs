//! The agent strategies. Each agent observes the opponent's most recent
//! action and commits to one of the two moves; agents that draw from the
//! shared random source do so through the trusted `rng` boundary, and the
//! contract `decide_rel` pins exactly as much of the behaviour as is
//! determined: everything, for the deterministic agents, and the
//! certain-outcome edges of the probability range for the random ones.

use crate::game::{Action, PlayerState};
use crate::rng::draw_ratio;
use crate::text::{decimal_digits, u32_decimal};
use rand_chacha::ChaCha12Rng;
use vstd::prelude::*;

verus! {

/// An exact probability `num/den`, kept as a pair of integers so that a
/// chance is plain configuration rather than floating point.
#[derive(Clone, Copy, PartialEq, Eq, Structural, Debug)]
pub struct Ratio {
    pub num: u32,
    pub den: u32,
}

impl Ratio {
    /// A probability lies in `[0, 1]`: positive denominator, numerator no
    /// larger than it.
    pub open spec fn wf(self) -> bool {
        1 <= self.den && self.num <= self.den
    }

    pub fn new(num: u32, den: u32) -> (r: Ratio)
        requires
            1 <= den,
            num <= den,
        ensures
            r == (Ratio { num, den }),
    {
        Ratio { num, den }
    }
}

/// The constant strategy: attack every turn, no state.
#[derive(Clone, Copy, PartialEq, Eq, Structural, Debug)]
pub struct AttackAgent;

/// Echo the opponent's most recent action; attack on the first turn,
/// before anything has been observed.
#[derive(Clone, Copy, PartialEq, Eq, Structural, Debug)]
pub struct MirrorAgent;

/// Attack with a fixed probability each turn, independently across turns,
/// drawing from the shared random source.
#[derive(Clone, Copy, PartialEq, Eq, Structural, Debug)]
pub struct RandomAgent {
    pub probability_of_attack: Ratio,
}

/// A two-state Markov chain over the two actions: each turn the current
/// committed strategy switches to the other action with the configured
/// probability, and the (possibly just-updated) strategy is played.
#[derive(Clone, Copy, PartialEq, Eq, Structural, Debug)]
pub struct MarkovRandomAgent {
    pub change_to_attack_prob: Ratio,
    pub change_to_finch_prob: Ratio,
    pub current_strategy: Action,
}

/// Estimate the opponent's attack probability from the observed history
/// and play whichever action has the strictly greater one-step expected
/// reward, with ties resolved in favour of countering.
///
/// The three costs are integer-valued rewards. Rather than weighing them
/// by the empirical frequency `num_attacks / num_turns` itself, the agent
/// compares the two expectations scaled by the (positive) number of
/// observed turns, which preserves the strict comparison exactly and
/// needs no division: before anything is observed the estimate is zero.
#[derive(Clone, Copy, PartialEq, Eq, Structural, Debug)]
pub struct OneStepDecisionProcessAgent {
    /// Reward for attacking into a counter (the attacker is hurt).
    pub cost_losing_hp: i32,
    /// Reward for countering an attack (the opponent is hurt).
    pub cost_not_losing_hp: i32,
    /// Reward for a mutual exchange, attack-attack or counter-counter.
    pub cost_equivalent_exchange: i32,
    pub num_turns: i64,
    pub num_attacks: i64,
}

impl OneStepDecisionProcessAgent {
    /// The tally of observed attacks never exceeds the tally of turns.
    pub open spec fn wf(self) -> bool {
        0 <= self.num_attacks <= self.num_turns
    }
}

/// What the mirror strategy plays after having observed `observed`.
pub open spec fn mirror_choice(observed: Option<Action>) -> Action {
    match observed {
        Some(a) => a,
        None => Action::ATTACK,
    }
}

/// The estimator's tallies after observing one more opponent action.
pub open spec fn estimator_stepped(
    e: OneStepDecisionProcessAgent,
    observed: Option<Action>,
) -> OneStepDecisionProcessAgent {
    OneStepDecisionProcessAgent {
        num_attacks: (e.num_attacks + if observed == Some(Action::ATTACK) {
            1int
        } else {
            0int
        }) as i64,
        num_turns: (e.num_turns + 1) as i64,
        ..e
    }
}

/// The estimator's expected reward for attacking, scaled by its number of
/// observed turns: with probability `1 - p_hat` the opponent counters and
/// the attacker is hurt; with probability `p_hat` the exchange is mutual.
pub open spec fn attack_reward(e: OneStepDecisionProcessAgent) -> int {
    e.cost_losing_hp * (e.num_turns - e.num_attacks) + e.cost_equivalent_exchange * e.num_attacks
}

/// The estimator's expected reward for countering, scaled the same way:
/// with probability `p_hat` the opponent attacks into the counter; with
/// probability `1 - p_hat` the exchange is mutual.
pub open spec fn finch_reward(e: OneStepDecisionProcessAgent) -> int {
    e.cost_not_losing_hp * e.num_attacks + e.cost_equivalent_exchange * (e.num_turns
        - e.num_attacks)
}

/// The estimator attacks exactly when attacking has the strictly greater
/// expected reward.
pub open spec fn estimator_choice(e: OneStepDecisionProcessAgent) -> Action {
    if attack_reward(e) > finch_reward(e) {
        Action::ATTACK
    } else {
        Action::FINCH
    }
}

/// How a Markov agent may move from `m` to `m2` while playing `act`: the
/// transition probabilities are kept, the action played is the updated
/// strategy, and wherever the configured switch probability is zero or
/// one the outcome of the draw — and with it the new strategy — is pinned.
pub open spec fn markov_rel(m: MarkovRandomAgent, m2: MarkovRandomAgent, act: Action) -> bool {
    &&& m2.change_to_attack_prob == m.change_to_attack_prob
    &&& m2.change_to_finch_prob == m.change_to_finch_prob
    &&& act == m2.current_strategy
    &&& (m.current_strategy == Action::ATTACK ==> {
        &&& (m.change_to_finch_prob.num == 0 ==> m2.current_strategy == Action::ATTACK)
        &&& (m.change_to_finch_prob.num == m.change_to_finch_prob.den ==> m2.current_strategy
            == Action::FINCH)
    })
    &&& (m.current_strategy == Action::FINCH ==> {
        &&& (m.change_to_attack_prob.num == 0 ==> m2.current_strategy == Action::FINCH)
        &&& (m.change_to_attack_prob.num == m.change_to_attack_prob.den ==> m2.current_strategy
            == Action::ATTACK)
    })
}

/// Everything one decision call may do: how the agent `pre`, having
/// observed the opponent's last action `observed`, may become `post`
/// while playing `act`. Deterministic agents are pinned completely;
/// random agents are pinned at the certain edges of their probability
/// range and left free elsewhere.
pub open spec fn decide_rel(pre: Agent, observed: Option<Action>, post: Agent, act: Action) -> bool {
    match pre {
        Agent::Attack(_) => post == pre && act == Action::ATTACK,
        Agent::Mirror(_) => post == pre && act == mirror_choice(observed),
        Agent::Random(r) => {
            &&& post == pre
            &&& (r.probability_of_attack.num == 0 ==> act == Action::FINCH)
            &&& (r.probability_of_attack.num == r.probability_of_attack.den ==> act
                == Action::ATTACK)
        },
        Agent::Markov(m) => {
            &&& post matches Agent::Markov(m2)
            &&& markov_rel(m, post->Markov_0, act)
        },
        Agent::Estimator(e) => {
            &&& post == Agent::Estimator(estimator_stepped(e, observed))
            &&& act == estimator_choice(estimator_stepped(e, observed))
        },
    }
}

/// An agent that provably plays attack on every turn, whatever it has
/// observed: the constant attacker, the fixed-probability agent at
/// probability one, and a Markov agent committed to attack with no chance
/// of ever leaving it.
pub open spec fn always_attacks(a: Agent) -> bool {
    ||| a is Attack
    ||| (a matches Agent::Random(r) && r.probability_of_attack.num == r.probability_of_attack.den)
    ||| (a matches Agent::Markov(m) && m.current_strategy == Action::ATTACK
        && m.change_to_finch_prob.num == 0)
}

/// A decision by an always-attacking agent plays attack, and leaves the
/// agent always-attacking.
pub proof fn lemma_always_attacks_step(
    pre: Agent,
    observed: Option<Action>,
    post: Agent,
    act: Action,
)
    requires
        always_attacks(pre),
        decide_rel(pre, observed, post, act),
    ensures
        act == Action::ATTACK,
        always_attacks(post),
{
}

/// An agent that provably plays counter on every turn, whatever it has
/// observed: the fixed-probability agent at probability zero, and a
/// Markov agent committed to counter with no chance of ever leaving it.
pub open spec fn always_counters(a: Agent) -> bool {
    ||| (a matches Agent::Random(r) && r.probability_of_attack.num == 0)
    ||| (a matches Agent::Markov(m) && m.current_strategy == Action::FINCH
        && m.change_to_attack_prob.num == 0)
}

/// A decision by an always-countering agent plays counter, and leaves the
/// agent always-countering.
pub proof fn lemma_always_counters_step(
    pre: Agent,
    observed: Option<Action>,
    post: Agent,
    act: Action,
)
    requires
        always_counters(pre),
        decide_rel(pre, observed, post, act),
    ensures
        act == Action::FINCH,
        always_counters(post),
{
}

/// A recorded history of decisions: entry `k` was produced by one
/// decision of the agent as it stood after entry `k - 1` (after `start`,
/// for the first entry), having observed `observed[k]`.
pub open spec fn decide_trace(
    start: Agent,
    observed: Seq<Option<Action>>,
    posts: Seq<Agent>,
    acts: Seq<Action>,
) -> bool {
    &&& posts.len() == observed.len()
    &&& acts.len() == observed.len()
    &&& forall|k: int|
        0 <= k < observed.len() ==> decide_rel(
            if k == 0 {
                start
            } else {
                posts[k - 1]
            },
            observed[k],
            #[trigger] posts[k],
            acts[k],
        )
}

/// One decision of a Markov agent that never switches to attack and
/// always switches to counter commits it to counter: whatever strategy it
/// held, it plays counter and holds counter afterwards.
pub proof fn lemma_markov_absorbing_step(
    m: MarkovRandomAgent,
    observed: Option<Action>,
    post: Agent,
    act: Action,
)
    requires
        m.change_to_attack_prob.wf(),
        m.change_to_finch_prob.wf(),
        m.change_to_attack_prob.num == 0,
        m.change_to_finch_prob.num == m.change_to_finch_prob.den,
        decide_rel(Agent::Markov(m), observed, post, act),
    ensures
        act == Action::FINCH,
        post matches Agent::Markov(m2) && m2.current_strategy == Action::FINCH
            && m2.change_to_attack_prob == m.change_to_attack_prob && m2.change_to_finch_prob
            == m.change_to_finch_prob,
{
}

/// The counter strategy is absorbing for such an agent: over any recorded
/// history, however long and whatever was observed, every action played
/// is counter — from the very first turn — and the agent holds the
/// counter strategy after every turn.
pub proof fn lemma_markov_absorbing_trace(
    m: MarkovRandomAgent,
    observed: Seq<Option<Action>>,
    posts: Seq<Agent>,
    acts: Seq<Action>,
)
    requires
        m.change_to_attack_prob.wf(),
        m.change_to_finch_prob.wf(),
        m.change_to_attack_prob.num == 0,
        m.change_to_finch_prob.num == m.change_to_finch_prob.den,
        decide_trace(Agent::Markov(m), observed, posts, acts),
    ensures
        forall|k: int| 0 <= k < acts.len() ==> #[trigger] acts[k] == Action::FINCH,
        forall|k: int|
            0 <= k < posts.len() ==> ((#[trigger] posts[k]) matches Agent::Markov(m2)
                && m2.current_strategy == Action::FINCH && m2.change_to_attack_prob
                == m.change_to_attack_prob && m2.change_to_finch_prob == m.change_to_finch_prob),
    decreases observed.len(),
{
    if observed.len() > 0 {
        let l = observed.len() - 1;
        assert(decide_trace(
            Agent::Markov(m),
            observed.take(l),
            posts.take(l),
            acts.take(l),
        )) by {
            assert forall|k: int| 0 <= k < l implies decide_rel(
                if k == 0 {
                    Agent::Markov(m)
                } else {
                    posts.take(l)[k - 1]
                },
                observed.take(l)[k],
                #[trigger] posts.take(l)[k],
                acts.take(l)[k],
            ) by {
                assert(posts[k] == posts.take(l)[k]);
            }
        }
        lemma_markov_absorbing_trace(m, observed.take(l), posts.take(l), acts.take(l));
        let pre = if l == 0 {
            Agent::Markov(m)
        } else {
            posts[l - 1]
        };
        if l > 0 {
            assert(posts.take(l)[l - 1] == posts[l - 1]);
        }
        lemma_markov_absorbing_step(pre->Markov_0, observed[l], posts[l], acts[l]);
        assert forall|k: int| 0 <= k < posts.len() implies ((#[trigger] posts[k]) matches
            Agent::Markov(m2) && m2.current_strategy == Action::FINCH && m2.change_to_attack_prob
            == m.change_to_attack_prob && m2.change_to_finch_prob == m.change_to_finch_prob) by {
            if k < l {
                assert(posts.take(l)[k] == posts[k]);
            }
        }
        assert forall|k: int| 0 <= k < acts.len() implies #[trigger] acts[k] == Action::FINCH by {
            if k < l {
                assert(acts.take(l)[k] == acts[k]);
            }
        }
    }
}

/// A fixed-probability agent whose attack probability is one permits
/// exactly the behaviour that the constant attacker permits — play attack
/// and stay unchanged — whatever it has observed, so across any number of
/// turns or trials the two strategies are interchangeable.
pub proof fn lemma_full_probability_is_always_attack(r: RandomAgent, observed: Option<Action>)
    requires
        r.probability_of_attack.wf(),
        r.probability_of_attack.num == r.probability_of_attack.den,
    ensures
        forall|post: Agent, act: Action|
            #[trigger] decide_rel(Agent::Random(r), observed, post, act) <==> (post
                == Agent::Random(r) && act == Action::ATTACK),
        forall|post: Agent, act: Action|
            #[trigger] decide_rel(Agent::Attack(AttackAgent {  }), observed, post, act) <==> (post
                == Agent::Attack(AttackAgent {  }) && act == Action::ATTACK),
{
}

impl AttackAgent {
    pub fn decide_action(
        &mut self,
        own_player_state: &PlayerState,
        opposing_player_actions: &Option<Action>,
        opposing_player_state: &Option<PlayerState>,
    ) -> (act: Action)
        ensures
            *final(self) == *old(self),
            act == Action::ATTACK,
    {
        Action::ATTACK
    }

    pub fn strategy_name(&self) -> (r: String)
        ensures
            r@ == spec_strategy_name(Agent::Attack(*self)),
    {
        String::from_str("Always Attack")
    }

    pub fn copy_self_to_anom(&self) -> (r: AttackAgent)
        ensures
            r == *self,
    {
        AttackAgent {  }
    }
}

impl MirrorAgent {
    pub fn decide_action(
        &mut self,
        own_player_state: &PlayerState,
        opposing_player_actions: &Option<Action>,
        opposing_player_state: &Option<PlayerState>,
    ) -> (act: Action)
        ensures
            *final(self) == *old(self),
            act == mirror_choice(*opposing_player_actions),
    {
        match *opposing_player_actions {
            Some(action) => action,
            None => Action::ATTACK,
        }
    }

    pub fn strategy_name(&self) -> (r: String)
        ensures
            r@ == spec_strategy_name(Agent::Mirror(*self)),
    {
        String::from_str("Always Mirror the opposing action")
    }

    pub fn copy_self_to_anom(&self) -> (r: MirrorAgent)
        ensures
            r == *self,
    {
        MirrorAgent {  }
    }
}

impl RandomAgent {
    pub fn decide_action(
        &mut self,
        own_player_state: &PlayerState,
        opposing_player_actions: &Option<Action>,
        opposing_player_state: &Option<PlayerState>,
        rng: &mut ChaCha12Rng,
    ) -> (act: Action)
        requires
            old(self).probability_of_attack.wf(),
        ensures
            *final(self) == *old(self),
            old(self).probability_of_attack.num == 0 ==> act == Action::FINCH,
            old(self).probability_of_attack.num == old(self).probability_of_attack.den ==> act
                == Action::ATTACK,
    {
        let decision = draw_ratio(
            rng,
            self.probability_of_attack.num,
            self.probability_of_attack.den,
        );
        if decision {
            Action::ATTACK
        } else {
            Action::FINCH
        }
    }

    pub fn strategy_name(&self) -> (r: String)
        ensures
            r@ == spec_strategy_name(Agent::Random(*self)),
    {
        let mut s = String::from_str("Attack with probability ");
        let num_text = u32_decimal(self.probability_of_attack.num);
        s.append(num_text.as_str());
        s.append("/");
        let den_text = u32_decimal(self.probability_of_attack.den);
        s.append(den_text.as_str());
        proof {
            assert(s@ =~= spec_strategy_name(Agent::Random(*self)));
        }
        s
    }

    pub fn copy_self_to_anom(&self) -> (r: RandomAgent)
        ensures
            r == *self,
    {
        RandomAgent { probability_of_attack: self.probability_of_attack }
    }
}

impl MarkovRandomAgent {
    pub fn decide_action(
        &mut self,
        own_player_state: &PlayerState,
        opposing_player_actions: &Option<Action>,
        opposing_player_state: &Option<PlayerState>,
        rng: &mut ChaCha12Rng,
    ) -> (act: Action)
        requires
            old(self).change_to_attack_prob.wf(),
            old(self).change_to_finch_prob.wf(),
        ensures
            markov_rel(*old(self), *final(self), act),
    {
        match self.current_strategy {
            Action::ATTACK => {
                let decision = draw_ratio(
                    rng,
                    self.change_to_finch_prob.num,
                    self.change_to_finch_prob.den,
                );
                if decision {
                    self.current_strategy = Action::FINCH;
                }
            },
            Action::FINCH => {
                let decision = draw_ratio(
                    rng,
                    self.change_to_attack_prob.num,
                    self.change_to_attack_prob.den,
                );
                if decision {
                    self.current_strategy = Action::ATTACK;
                }
            },
        }
        self.current_strategy
    }

    pub fn strategy_name(&self) -> (r: String)
        ensures
            r@ == spec_strategy_name(Agent::Markov(*self)),
    {
        let mut s = String::from_str("Markov Chain with probabilities ");
        let attack_num = u32_decimal(self.change_to_attack_prob.num);
        s.append(attack_num.as_str());
        s.append("/");
        let attack_den = u32_decimal(self.change_to_attack_prob.den);
        s.append(attack_den.as_str());
        s.append(", ");
        let finch_num = u32_decimal(self.change_to_finch_prob.num);
        s.append(finch_num.as_str());
        s.append("/");
        let finch_den = u32_decimal(self.change_to_finch_prob.den);
        s.append(finch_den.as_str());
        proof {
            assert(s@ =~= spec_strategy_name(Agent::Markov(*self)));
        }
        s
    }

    pub fn copy_self_to_anom(&self) -> (r: MarkovRandomAgent)
        ensures
            r == *self,
    {
        MarkovRandomAgent {
            change_to_attack_prob: self.change_to_attack_prob,
            change_to_finch_prob: self.change_to_finch_prob,
            current_strategy: self.current_strategy,
        }
    }
}

impl OneStepDecisionProcessAgent {
    pub fn decide_action(
        &mut self,
        own_player_state: &PlayerState,
        opposing_player_actions: &Option<Action>,
        opposing_player_state: &Option<PlayerState>,
    ) -> (act: Action)
        requires
            old(self).wf(),
            old(self).num_turns < i64::MAX,
        ensures
            *final(self) == estimator_stepped(*old(self), *opposing_player_actions),
            final(self).wf(),
            act == estimator_choice(*final(self)),
    {
        match *opposing_player_actions {
            Some(Action::ATTACK) => {
                self.num_attacks = self.num_attacks + 1;
            },
            _ => {},
        }
        self.num_turns = self.num_turns + 1;

        let turns = self.num_turns;
        let attacks = self.num_attacks;
        let non_attacks = turns - attacks;
        proof {
            lemma_scaled_reward_bounds(self.cost_losing_hp as int, non_attacks as int);
            lemma_scaled_reward_bounds(self.cost_equivalent_exchange as int, attacks as int);
            lemma_scaled_reward_bounds(self.cost_not_losing_hp as int, attacks as int);
            lemma_scaled_reward_bounds(self.cost_equivalent_exchange as int, non_attacks as int);
        }
        let attack_reward_scaled: i128 = (self.cost_losing_hp as i128) * (non_attacks as i128) + (
        self.cost_equivalent_exchange as i128) * (attacks as i128);
        let finch_reward_scaled: i128 = (self.cost_not_losing_hp as i128) * (attacks as i128) + (
        self.cost_equivalent_exchange as i128) * (non_attacks as i128);
        if attack_reward_scaled > finch_reward_scaled {
            Action::ATTACK
        } else {
            Action::FINCH
        }
    }

    pub fn strategy_name(&self) -> (r: String)
        ensures
            r@ == spec_strategy_name(Agent::Estimator(*self)),
    {
        String::from_str("Estimate Probability of Attack, and design optimal one-step decision.")
    }

    pub fn copy_self_to_anom(&self) -> (r: OneStepDecisionProcessAgent)
        ensures
            r == *self,
    {
        OneStepDecisionProcessAgent {
            cost_losing_hp: self.cost_losing_hp,
            cost_not_losing_hp: self.cost_not_losing_hp,
            cost_equivalent_exchange: self.cost_equivalent_exchange,
            num_turns: self.num_turns,
            num_attacks: self.num_attacks,
        }
    }
}

/// A product of a cost (an `i32`) and a turn tally (a nonnegative `i64`)
/// stays far inside the `i128` range.
proof fn lemma_scaled_reward_bounds(c: int, t: int)
    requires
        i32::MIN <= c <= i32::MAX,
        0 <= t <= i64::MAX,
    ensures
        -(0x1_0000_0000_0000_0000_0000_0000int) <= c * t <= 0x1_0000_0000_0000_0000_0000_0000int,
{
    assert(-(0x1_0000_0000_0000_0000_0000_0000int) <= c * t
        <= 0x1_0000_0000_0000_0000_0000_0000int) by (nonlinear_arith)
        requires
            i32::MIN <= c <= i32::MAX,
            0 <= t <= i64::MAX,
    ;
}

/// The display name of each strategy, pinned to its exact characters:
/// agents configured with a probability carry it in the name as an exact
/// `num/den` numeral.
pub open spec fn spec_strategy_name(a: Agent) -> Seq<char> {
    match a {
        Agent::Attack(_) => "Always Attack"@,
        Agent::Mirror(_) => "Always Mirror the opposing action"@,
        Agent::Random(r) => "Attack with probability "@ + decimal_digits(
            r.probability_of_attack.num as int,
        ) + "/"@ + decimal_digits(r.probability_of_attack.den as int),
        Agent::Markov(m) => "Markov Chain with probabilities "@ + decimal_digits(
            m.change_to_attack_prob.num as int,
        ) + "/"@ + decimal_digits(m.change_to_attack_prob.den as int) + ", "@ + decimal_digits(
            m.change_to_finch_prob.num as int,
        ) + "/"@ + decimal_digits(m.change_to_finch_prob.den as int),
        Agent::Estimator(_) => "Estimate Probability of Attack, and design optimal one-step decision."@,
    }
}

/// One of the five strategies, as a closed sum so that a roster of mixed
/// agents is a plain value.
#[derive(Clone, Copy, PartialEq, Eq, Structural, Debug)]
pub enum Agent {
    Attack(AttackAgent),
    Mirror(MirrorAgent),
    Random(RandomAgent),
    Markov(MarkovRandomAgent),
    Estimator(OneStepDecisionProcessAgent),
}

impl Agent {
    /// The agent's configuration is valid: probabilities lie in `[0, 1]`
    /// and tallies are consistent.
    pub open spec fn wf(self) -> bool {
        match self {
            Agent::Attack(_) => true,
            Agent::Mirror(_) => true,
            Agent::Random(r) => r.probability_of_attack.wf(),
            Agent::Markov(m) => m.change_to_attack_prob.wf() && m.change_to_finch_prob.wf(),
            Agent::Estimator(e) => e.wf(),
        }
    }

    /// `k` more decisions can still be recorded without the estimator's
    /// turn tally leaving the `i64` range.
    pub open spec fn turn_headroom(self, k: int) -> bool {
        self matches Agent::Estimator(e) ==> e.num_turns + k <= i64::MAX
    }

    /// Asks the strategy for its move this turn, handing the random
    /// agents the shared random source.
    pub fn decide_action(
        &mut self,
        own_player_state: &PlayerState,
        opposing_player_actions: &Option<Action>,
        opposing_player_state: &Option<PlayerState>,
        rng: &mut ChaCha12Rng,
    ) -> (act: Action)
        requires
            old(self).wf(),
            old(self).turn_headroom(1),
        ensures
            decide_rel(*old(self), *opposing_player_actions, *final(self), act),
            final(self).wf(),
            final(self).turn_headroom(0),
    {
        match self {
            Agent::Attack(a) => a.decide_action(
                own_player_state,
                opposing_player_actions,
                opposing_player_state,
            ),
            Agent::Mirror(a) => a.decide_action(
                own_player_state,
                opposing_player_actions,
                opposing_player_state,
            ),
            Agent::Random(a) => a.decide_action(
                own_player_state,
                opposing_player_actions,
                opposing_player_state,
                rng,
            ),
            Agent::Markov(a) => a.decide_action(
                own_player_state,
                opposing_player_actions,
                opposing_player_state,
                rng,
            ),
            Agent::Estimator(a) => a.decide_action(
                own_player_state,
                opposing_player_actions,
                opposing_player_state,
            ),
        }
    }

    /// The strategy's display name.
    pub fn strategy_name(&self) -> (r: String)
        ensures
            r@ == spec_strategy_name(*self),
    {
        match self {
            Agent::Attack(a) => a.strategy_name(),
            Agent::Mirror(a) => a.strategy_name(),
            Agent::Random(a) => a.strategy_name(),
            Agent::Markov(a) => a.strategy_name(),
            Agent::Estimator(a) => a.strategy_name(),
        }
    }

    /// A deep, independent copy with identical parameters and tallies, as
    /// handed to each side of each fresh trial.
    pub fn copy_self_to_anom(&self) -> (r: Agent)
        ensures
            r == *self,
    {
        match self {
            Agent::Attack(a) => Agent::Attack(a.copy_self_to_anom()),
            Agent::Mirror(a) => Agent::Mirror(a.copy_self_to_anom()),
            Agent::Random(a) => Agent::Random(a.copy_self_to_anom()),
            Agent::Markov(a) => Agent::Markov(a.copy_self_to_anom()),
            Agent::Estimator(a) => Agent::Estimator(a.copy_self_to_anom()),
        }
    }
}

} // verus!
