//! Core data of one duel: the two actions, the players' hit points, the
//! per-turn game state, the configurable payoff table, and the terminal
//! outcome of a match.

use vstd::prelude::*;

verus! {

/// One of the two moves a player can commit to in a turn: attack, or
/// counter (a defend/riposte move).
#[allow(non_camel_case_types)]
#[derive(Clone, Copy, PartialEq, Eq, Structural, Debug)]
pub enum Action {
    ATTACK,
    FINCH,
}

/// The result of inspecting a game state: a win for one player (by the
/// player's number, 1 or 2), a tie, an instruction to keep playing, or a
/// sentinel for a state the engine's invariants rule out.
#[allow(non_camel_case_types)]
#[derive(Clone, Copy, PartialEq, Eq, Structural, Debug)]
pub enum GameOutcome {
    WIN(u64),
    TIE,
    CONTINUE,
    INTERRUPTED,
}

/// The hit points of one player. A player is defeated once
/// `current_hit_points` reaches zero or below.
#[derive(Clone, Copy, PartialEq, Eq, Structural, Debug)]
pub struct PlayerState {
    pub max_hit_points: i64,
    pub current_hit_points: i64,
}

impl PlayerState {
    /// A fresh player never holds more than its maximum hit points.
    pub open spec fn wf(self) -> bool {
        self.current_hit_points <= self.max_hit_points
    }
}

/// The full state of one match between two players: both players' hit
/// points and the most recently committed action of each side (`None`
/// before the first turn).
#[derive(Clone, Copy, PartialEq, Eq, Structural, Debug)]
pub struct GameState {
    pub player_one_state: PlayerState,
    pub player_two_state: PlayerState,
    pub player_one_action: Option<Action>,
    pub player_two_action: Option<Action>,
}

impl GameState {
    pub open spec fn wf(self) -> bool {
        self.player_one_state.wf() && self.player_two_state.wf()
    }

    /// A fresh state for a match where both players start at `hp`.
    pub open spec fn spec_fresh(hp: i64) -> GameState {
        GameState {
            player_one_state: PlayerState { max_hit_points: hp, current_hit_points: hp },
            player_two_state: PlayerState { max_hit_points: hp, current_hit_points: hp },
            player_one_action: None,
            player_two_action: None,
        }
    }

    /// Builds the starting state of a match where both players begin at
    /// `hp` hit points and no action has been observed yet.
    pub fn fresh(hp: i64) -> (s: GameState)
        ensures
            s == GameState::spec_fresh(hp),
    {
        GameState {
            player_one_state: PlayerState { max_hit_points: hp, current_hit_points: hp },
            player_two_state: PlayerState { max_hit_points: hp, current_hit_points: hp },
            player_one_action: None,
            player_two_action: None,
        }
    }
}

/// The payoff table of the duel, as explicit configuration: how many hit
/// points each side loses for each pair of committed actions.
///
/// | player one | player two | player one loses       | player two loses       |
/// |------------|------------|------------------------|------------------------|
/// | attack     | attack     | `mutual_attack_damage` | `mutual_attack_damage` |
/// | attack     | counter    | `countered_attack_damage` | nothing             |
/// | counter    | attack     | nothing                | `countered_attack_damage` |
/// | counter    | counter    | `mutual_counter_damage` | `mutual_counter_damage` |
#[derive(Clone, Copy, PartialEq, Eq, Structural, Debug)]
pub struct Payoffs {
    pub mutual_attack_damage: u32,
    pub countered_attack_damage: u32,
    pub mutual_counter_damage: u32,
}

impl Payoffs {
    /// The duel's stock ruleset: every action pair costs each
    /// non-countering side one hit point.
    pub fn chip_damage() -> (p: Payoffs)
        ensures
            p == (Payoffs {
                mutual_attack_damage: 1u32,
                countered_attack_damage: 1u32,
                mutual_counter_damage: 1u32,
            }),
    {
        Payoffs { mutual_attack_damage: 1, countered_attack_damage: 1, mutual_counter_damage: 1 }
    }

    /// Every action pair deals at least one point of damage to somebody,
    /// so total hit points strictly decrease each turn.
    pub open spec fn always_damages(self) -> bool {
        self.mutual_attack_damage >= 1 && self.countered_attack_damage >= 1
            && self.mutual_counter_damage >= 1
    }
}

/// The hit points player one loses when player one commits `a1` and
/// player two commits `a2`.
pub open spec fn damage_to_one(p: Payoffs, a1: Action, a2: Action) -> int {
    match (a1, a2) {
        (Action::ATTACK, Action::ATTACK) => p.mutual_attack_damage as int,
        (Action::ATTACK, Action::FINCH) => p.countered_attack_damage as int,
        (Action::FINCH, Action::ATTACK) => 0,
        (Action::FINCH, Action::FINCH) => p.mutual_counter_damage as int,
    }
}

/// The hit points player two loses for the same action pair; the table is
/// symmetric, so this is the damage to one with the roles swapped.
pub open spec fn damage_to_two(p: Payoffs, a1: Action, a2: Action) -> int {
    damage_to_one(p, a2, a1)
}

/// The state after resolving one turn in which player one committed `a1`
/// and player two committed `a2`: both sides' hit points drop by the
/// payoff table's amounts and both committed actions are recorded.
pub open spec fn stepped(p: Payoffs, s: GameState, a1: Action, a2: Action) -> GameState {
    GameState {
        player_one_state: PlayerState {
            max_hit_points: s.player_one_state.max_hit_points,
            current_hit_points: (s.player_one_state.current_hit_points - damage_to_one(
                p,
                a1,
                a2,
            )) as i64,
        },
        player_two_state: PlayerState {
            max_hit_points: s.player_two_state.max_hit_points,
            current_hit_points: (s.player_two_state.current_hit_points - damage_to_two(
                p,
                a1,
                a2,
            )) as i64,
        },
        player_one_action: Some(a1),
        player_two_action: Some(a2),
    }
}

/// The terminal rule: a simultaneous knockout is a tie (checked first), a
/// single knockout is a win for the surviving side, and otherwise the
/// match continues. The `INTERRUPTED` sentinel is never produced.
pub open spec fn outcome_of(s: GameState) -> GameOutcome {
    if s.player_one_state.current_hit_points <= 0 && s.player_two_state.current_hit_points <= 0 {
        GameOutcome::TIE
    } else if s.player_one_state.current_hit_points <= 0 {
        GameOutcome::WIN(2)
    } else if s.player_two_state.current_hit_points <= 0 {
        GameOutcome::WIN(1)
    } else {
        GameOutcome::CONTINUE
    }
}

/// `INTERRUPTED` is a defensive sentinel only: the terminal rule cannot
/// produce it, so observing it would mean the engine disagrees with its
/// own invariants.
pub proof fn lemma_outcome_never_interrupted(s: GameState)
    ensures
        outcome_of(s) != GameOutcome::INTERRUPTED,
{
}

} // verus!
