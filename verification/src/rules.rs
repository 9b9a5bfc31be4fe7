//! The game's rules: success chances, milestone rewards and the outcome of each action.
use vstd::prelude::*;

use crate::model::{
    lucky_config, lucky_table, max_int, min_int, resources_in_range, Action, GameState, BOOST_CAP,
    SHIELD_CAP,
};

verus! {

/// The meter at which a round is won.
pub const TARGET_POS: i32 = 200;

/// The chance, in hundredths, that a move started at `pos` succeeds; `None` off the
/// meter marks the table knows.
pub open spec fn success_chance(pos: int) -> Option<nat> {
    if pos == 0 { Some(100) }
    else if pos == 10 { Some(96) }
    else if pos == 20 { Some(92) }
    else if pos == 30 { Some(88) }
    else if pos == 40 { Some(84) }
    else if pos == 50 { Some(80) }
    else if pos == 60 { Some(75) }
    else if pos == 70 { Some(70) }
    else if pos == 80 { Some(65) }
    else if pos == 90 { Some(60) }
    else if pos == 100 { Some(75) }
    else if pos == 110 { Some(69) }
    else if pos == 120 { Some(63) }
    else if pos == 130 { Some(56) }
    else if pos == 140 { Some(50) }
    else if pos == 150 { Some(70) }
    else if pos == 160 { Some(64) }
    else if pos == 170 { Some(58) }
    else if pos == 180 { Some(51) }
    else if pos == 190 { Some(45) }
    else { None }
}

/// Returns the success chance of a move started at `pos`, in hundredths.
pub fn probability(pos: i32) -> (p: Option<u32>)
    ensures
        p matches Some(v) ==> success_chance(pos as int) == Some(v as nat),
        p is None ==> success_chance(pos as int) is None,
{
    match pos {
        0 => Some(100),
        10 => Some(96),
        20 => Some(92),
        30 => Some(88),
        40 => Some(84),
        50 => Some(80),
        60 => Some(75),
        70 => Some(70),
        80 => Some(65),
        90 => Some(60),
        100 => Some(75),
        110 => Some(69),
        120 => Some(63),
        130 => Some(56),
        140 => Some(50),
        150 => Some(70),
        160 => Some(64),
        170 => Some(58),
        180 => Some(51),
        190 => Some(45),
        _ => None,
    }
}

/// The move from `before` to `after` passes the milestone at `meter`.
pub open spec fn crosses(before: int, after: int, meter: int) -> bool {
    before < meter && after >= meter
}

/// How many of the 100m and 200m supply milestones a move grants.
pub open spec fn supplies_granted(s: GameState, before: int, after: int) -> int {
    (if crosses(before, after, 100) && !s.got100 { 1int } else { 0int })
        + (if crosses(before, after, 200) && !s.got200 { 1int } else { 0int })
}

/// The move grants the lucky refill of the level.
pub open spec fn lucky_refill_granted(s: GameState, before: int, after: int, level: int) -> bool {
    let refill = lucky_table(level).refill_meter as int;
    refill > 0 && crosses(before, after, refill) && !s.got_lucky_refill
}

/// The state after the meter moved from `before` to `after`: each supply milestone
/// (100m, 200m) not yet granted adds two shields and one boost, within the caps,
/// and the level's refill meter adds one lucky move, within the level's cap.
pub open spec fn progress(s: GameState, before: int, after: int, level: int) -> GameState {
    let k = supplies_granted(s, before, after);
    let lucky_refill = lucky_refill_granted(s, before, after, level);
    GameState {
        pos: after as i32,
        shield: if k == 0 { s.shield } else { min_int(s.shield + 2 * k, SHIELD_CAP as int) as i32 },
        boost: if k == 0 { s.boost } else { min_int(s.boost + k, BOOST_CAP as int) as i32 },
        lucky: if lucky_refill { min_int(s.lucky + 1, lucky_table(level).max as int) as i32 } else { s.lucky },
        got100: s.got100 || crosses(before, after, 100),
        got200: s.got200 || crosses(before, after, 200),
        got_lucky_refill: s.got_lucky_refill || lucky_refill,
    }
}

/// The resources are far enough from the top of `i32` that no supply can overflow.
pub open spec fn has_headroom(s: GameState) -> bool {
    &&& s.shield <= i32::MAX - 2
    &&& s.boost <= i32::MAX - 1
    &&& s.lucky <= i32::MAX - 1
}

/// The supplies the move from `before` to `after` grants can be added in `i32`: two
/// shields and one boost when a supply milestone is passed, one lucky move when the
/// refill meter is.
pub open spec fn progress_fits(s: GameState, before: int, after: int, level: int) -> bool {
    &&& supplies_granted(s, before, after) > 0 ==> s.shield <= i32::MAX - 2 && s.boost <= i32::MAX - 1
    &&& lucky_refill_granted(s, before, after, level) ==> s.lucky <= i32::MAX - 1
}

/// Returns whether the supplies of the move from `before` to `after` can be added.
pub fn can_apply_progress(state: GameState, before: i32, after: i32, lucky_level: i32) -> (r: bool)
    ensures
        r == progress_fits(state, before as int, after as int, lucky_level as int),
{
    let supply = (before < 100 && after >= 100 && !state.got100) || (before < 200 && after >= 200 && !state.got200);
    let lucky = lucky_config(lucky_level);
    let refill = lucky.refill_meter > 0 && before < lucky.refill_meter && after >= lucky.refill_meter
        && !state.got_lucky_refill;
    (!supply || (state.shield <= i32::MAX - 2 && state.boost <= i32::MAX - 1))
        && (!refill || state.lucky <= i32::MAX - 1)
}

/// Moves the state's meter from `before` to `after` and grants the milestones passed.
pub fn apply_progress(state: GameState, before: i32, after: i32, lucky_level: i32) -> (r: GameState)
    requires
        progress_fits(state, before as int, after as int, lucky_level as int),
    ensures
        r == progress(state, before as int, after as int, lucky_level as int),
{
    let mut state = state;
    let ghost s0 = state;
    state.pos = after;
    if before < 100 && after >= 100 && !state.got100 {
        state.shield = if state.shield + 2 < SHIELD_CAP { state.shield + 2 } else { SHIELD_CAP };
        state.boost = if state.boost + 1 < BOOST_CAP { state.boost + 1 } else { BOOST_CAP };
        state.got100 = true;
    }
    let lucky = lucky_config(lucky_level);
    if lucky.refill_meter > 0 && before < lucky.refill_meter && after >= lucky.refill_meter
        && !state.got_lucky_refill {
        state.lucky = if state.lucky + 1 < lucky.max { state.lucky + 1 } else { lucky.max };
        state.got_lucky_refill = true;
    }
    if before < 200 && after >= 200 && !state.got200 {
        state.shield = if state.shield + 2 < SHIELD_CAP { state.shield + 2 } else { SHIELD_CAP };
        state.boost = if state.boost + 1 < BOOST_CAP { state.boost + 1 } else { BOOST_CAP };
        state.got200 = true;
    }
    assert(state == progress(s0, before as int, after as int, lucky_level as int));
    state
}

/// What one action can lead to: the chance of success in hundredths, the state after a
/// success (`None` when the success wins the round), the state after a failure that
/// leaves the round going (`None` when a failure ends it), the meter a success
/// reaches, and the reward points a success earns on the way.
#[derive(Debug, Clone, Copy, PartialEq, Eq, Structural)]
pub struct Transition {
    pub probability: u32,
    pub success: Option<GameState>,
    pub failure: Option<GameState>,
    pub success_pos: i32,
    pub immediate_reward: i32,
}

/// The reward points of a move from `before` to `after`: three for passing 100m, four
/// for passing 200m.
pub open spec fn move_reward(before: int, after: int) -> int {
    (if crosses(before, after, 100) { 3int } else { 0int })
        + (if crosses(before, after, 200) { 4int } else { 0int })
}

/// The outcome of a move from `s` to `success_pos` with chance `p`, where `used` is
/// `s` after paying for the move.
pub open spec fn outcome(
    s: GameState,
    used: GameState,
    success_pos: int,
    p: nat,
    failure: Option<GameState>,
    level: int,
) -> Transition {
    Transition {
        probability: p as u32,
        success: if success_pos >= TARGET_POS { None } else {
            Some(progress(used, s.pos as int, success_pos, level))
        },
        failure: failure,
        success_pos: success_pos as i32,
        immediate_reward: move_reward(s.pos as int, success_pos) as i32,
    }
}

/// What an action does from a state, or `None` where the action cannot be taken: the
/// round is over, the resource is spent, skills wait for the first 10m, or the meter
/// is one the chance table does not know. A normal run moves 10m; a shield moves 10m
/// and on failure keeps the position at the cost of the shield; a boost moves 30m with
/// the chance of the mark 10m behind; a lucky move moves 30m and always succeeds.
pub open spec fn transition_spec(s: GameState, a: Action, level: int) -> Option<Transition> {
    if s.pos >= TARGET_POS {
        None
    } else {
        match a {
            Action::Normal => match success_chance(s.pos as int) {
                Some(p) => Some(outcome(s, s, s.pos + 10, p, None, level)),
                None => None,
            },
            Action::Shield => if s.pos > 0 && s.shield > 0 {
                let used = GameState { shield: (s.shield - 1) as i32, ..s };
                match success_chance(s.pos as int) {
                    Some(p) => Some(outcome(s, used, s.pos + 10, p, Some(used), level)),
                    None => None,
                }
            } else {
                None
            },
            Action::Boost => if s.pos > 0 && s.boost > 0 {
                let used = GameState { boost: (s.boost - 1) as i32, ..s };
                match success_chance(max_int(s.pos - 10, 0)) {
                    Some(p) => Some(outcome(s, used, s.pos + 30, p, None, level)),
                    None => None,
                }
            } else {
                None
            },
            Action::Lucky => if s.pos > 0 && s.lucky > 0 {
                let used = GameState { lucky: (s.lucky - 1) as i32, ..s };
                Some(outcome(s, used, s.pos + 30, 100, None, level))
            } else {
                None
            },
        }
    }
}

/// The success of `a` from `s` can be settled in `i32`: where the action can be taken
/// and its success leaves the round going, the supplies of that move fit.
pub open spec fn transition_fits(s: GameState, a: Action, level: int) -> bool {
    s.pos < TARGET_POS ==> match a {
        Action::Normal => success_chance(s.pos as int) is Some && s.pos + 10 < TARGET_POS
            ==> progress_fits(s, s.pos as int, s.pos + 10, level),
        Action::Shield => s.pos > 0 && s.shield > 0 && success_chance(s.pos as int) is Some
            && s.pos + 10 < TARGET_POS
            ==> progress_fits(GameState { shield: (s.shield - 1) as i32, ..s }, s.pos as int, s.pos + 10, level),
        Action::Boost => s.pos > 0 && s.boost > 0 && success_chance(max_int(s.pos - 10, 0)) is Some
            && s.pos + 30 < TARGET_POS
            ==> progress_fits(GameState { boost: (s.boost - 1) as i32, ..s }, s.pos as int, s.pos + 30, level),
        Action::Lucky => s.pos > 0 && s.lucky > 0 && s.pos + 30 < TARGET_POS
            ==> progress_fits(GameState { lucky: (s.lucky - 1) as i32, ..s }, s.pos as int, s.pos + 30, level),
    }
}

/// Returns whether the success of `action` from `state` can be settled.
pub fn can_transition(state: GameState, action: Action, lucky_level: i32) -> (r: bool)
    ensures
        r == transition_fits(state, action, lucky_level as int),
{
    if state.pos >= TARGET_POS {
        return true;
    }
    match action {
        Action::Normal => {
            probability(state.pos).is_none() || state.pos + 10 >= TARGET_POS
                || can_apply_progress(state, state.pos, state.pos + 10, lucky_level)
        },
        Action::Shield => {
            if !(state.pos > 0 && state.shield > 0) || probability(state.pos).is_none()
                || state.pos + 10 >= TARGET_POS {
                return true;
            }
            let mut used = state;
            used.shield = state.shield - 1;
            can_apply_progress(used, state.pos, state.pos + 10, lucky_level)
        },
        Action::Boost => {
            if !(state.pos > 0 && state.boost > 0) || state.pos + 30 >= TARGET_POS {
                return true;
            }
            let back = if state.pos - 10 > 0 { state.pos - 10 } else { 0 };
            if probability(back).is_none() {
                return true;
            }
            let mut used = state;
            used.boost = state.boost - 1;
            can_apply_progress(used, state.pos, state.pos + 30, lucky_level)
        },
        Action::Lucky => {
            if !(state.pos > 0 && state.lucky > 0) || state.pos + 30 >= TARGET_POS {
                return true;
            }
            let mut used = state;
            used.lucky = state.lucky - 1;
            can_apply_progress(used, state.pos, state.pos + 30, lucky_level)
        },
    }
}

/// Returns what `action` does from `state`, or `None` where it cannot be taken.
pub fn transition(state: GameState, action: Action, lucky_level: i32) -> (r: Option<Transition>)
    requires
        transition_fits(state, action, lucky_level as int),
    ensures
        r == transition_spec(state, action, lucky_level as int),
{
    if state.pos >= TARGET_POS {
        return None;
    }
    let (success_pos, p, used) = match action {
        Action::Normal => {
            let p = match probability(state.pos) {
                Some(p) => p,
                None => return None,
            };
            (state.pos + 10, p, state)
        },
        Action::Shield => {
            if !(state.pos > 0 && state.shield > 0) {
                return None;
            }
            let mut s = state;
            s.shield = s.shield - 1;
            let p = match probability(state.pos) {
                Some(p) => p,
                None => return None,
            };
            (state.pos + 10, p, s)
        },
        Action::Boost => {
            if !(state.pos > 0 && state.boost > 0) {
                return None;
            }
            let mut s = state;
            s.boost = s.boost - 1;
            let back = if state.pos - 10 > 0 { state.pos - 10 } else { 0 };
            let p = match probability(back) {
                Some(p) => p,
                None => return None,
            };
            (state.pos + 30, p, s)
        },
        Action::Lucky => {
            if !(state.pos > 0 && state.lucky > 0) {
                return None;
            }
            let mut s = state;
            s.lucky = s.lucky - 1;
            (state.pos + 30, 100u32, s)
        },
    };
    let reward = (if state.pos < 100 && success_pos >= 100 { 3i32 } else { 0i32 })
        + (if state.pos < 200 && success_pos >= 200 { 4i32 } else { 0i32 });
    let success = if success_pos >= TARGET_POS {
        None
    } else {
        Some(apply_progress(used, state.pos, success_pos, lucky_level))
    };
    let failure = match action {
        Action::Shield => Some(used),
        _ => None,
    };
    Some(Transition { probability: p, success, failure, success_pos, immediate_reward: reward })
}

// ---------------------------------------------------------------------------------
// Laws of the rules.

/// Each milestone reward is granted once: settling the same move twice gives the state
/// that settling it once gave.
pub proof fn lemma_progress_idempotent(s: GameState, before: int, after: int, level: int)
    requires
        i32::MIN <= after <= i32::MAX,
    ensures
        progress(progress(s, before, after, level), before, after, level) == progress(
            s,
            before,
            after,
            level,
        ),
{
}

/// Progress may be settled in steps: moving from `before` to `mid` and then on to
/// `after` gives the state of the single move from `before` to `after`.
pub proof fn lemma_progress_composes(s: GameState, before: int, mid: int, after: int, level: int)
    requires
        before <= mid <= after,
        i32::MIN <= mid <= i32::MAX,
        i32::MIN <= after <= i32::MAX,
    ensures
        progress(progress(s, before, mid, level), mid, after, level) == progress(
            s,
            before,
            after,
            level,
        ),
{
}

/// A state with headroom can take every move: its supplies always fit.
pub proof fn lemma_headroom_fits(s: GameState, before: int, after: int, level: int, a: Action)
    requires
        has_headroom(s),
    ensures
        progress_fits(s, before, after, level),
        transition_fits(s, a, level),
{
}

/// Progress never lifts a resource above its cap nor takes one away, and a granted
/// milestone stays granted.
pub proof fn lemma_progress_keeps_range(s: GameState, before: int, after: int, level: int)
    requires
        resources_in_range(s, level),
    ensures
        resources_in_range(progress(s, before, after, level), level),
        progress(s, before, after, level).shield >= s.shield,
        progress(s, before, after, level).boost >= s.boost,
        progress(s, before, after, level).lucky >= s.lucky,
        s.got100 ==> progress(s, before, after, level).got100,
        s.got200 ==> progress(s, before, after, level).got200,
        s.got_lucky_refill ==> progress(s, before, after, level).got_lucky_refill,
{
}

/// The shape of every possible move from a state whose resources lie in range: a
/// finished round has no moves; a success moves the meter forward by 10m or 30m, earns
/// the milestone points passed, and leaves the resources in range; only a shield has a
/// failure that keeps the round going, and it keeps the position at the cost of one
/// shield; a lucky move always succeeds.
pub proof fn lemma_transition_shape(s: GameState, a: Action, level: int)
    requires
        resources_in_range(s, level),
    ensures
        s.pos >= TARGET_POS ==> transition_spec(s, a, level) is None,
        transition_spec(s, a, level) matches Some(t) ==> {
            &&& t.probability <= 100
            &&& t.success_pos == s.pos + (if a == Action::Normal || a == Action::Shield { 10int } else { 30int })
            &&& t.immediate_reward == move_reward(s.pos as int, t.success_pos as int)
            &&& (t.success is None <==> t.success_pos >= TARGET_POS)
            &&& (t.success matches Some(n) ==> n.pos == t.success_pos && resources_in_range(n, level))
            &&& (t.failure is Some <==> a == Action::Shield)
            &&& (t.failure matches Some(f) ==> f == GameState { shield: (s.shield - 1) as i32, ..s } && resources_in_range(f, level))
            &&& (a == Action::Lucky ==> t.probability == 100)
        },
{
    let sp = s.pos as int + (if a == Action::Normal || a == Action::Shield { 10int } else { 30int });
    if s.pos < TARGET_POS {
        match a {
            Action::Normal => lemma_progress_keeps_range(s, s.pos as int, sp, level),
            Action::Shield => if s.shield > 0 {
                lemma_progress_keeps_range(GameState { shield: (s.shield - 1) as i32, ..s }, s.pos as int, sp, level);
            },
            Action::Boost => if s.boost > 0 {
                lemma_progress_keeps_range(GameState { boost: (s.boost - 1) as i32, ..s }, s.pos as int, sp, level);
            },
            Action::Lucky => if s.lucky > 0 {
                lemma_progress_keeps_range(GameState { lucky: (s.lucky - 1) as i32, ..s }, s.pos as int, sp, level);
            },
        }
    }
}


/// Skills wait for the first 10m and need their resource: at or below 0m only a normal
/// run can be taken, a shield, boost or lucky move only while the state holds one, and
/// nothing from 200m on. Wherever a move can be taken it is offered: a normal run on
/// every 10m mark below 200m, a skill on every such mark above 0m, a lucky move
/// anywhere above 0m.
pub proof fn lemma_who_can_move(s: GameState, a: Action, level: int)
    ensures
        s.pos <= 0 && a != Action::Normal ==> transition_spec(s, a, level) is None,
        s.pos >= 200 ==> transition_spec(s, a, level) is None,
        a == Action::Shield && s.shield <= 0 ==> transition_spec(s, a, level) is None,
        a == Action::Boost && s.boost <= 0 ==> transition_spec(s, a, level) is None,
        a == Action::Lucky && s.lucky <= 0 ==> transition_spec(s, a, level) is None,
        a == Action::Normal && 0 <= s.pos < 200 && s.pos % 10 == 0 ==> transition_spec(s, a, level) is Some,
        a == Action::Shield && 0 < s.pos < 200 && s.pos % 10 == 0 && s.shield > 0 ==> transition_spec(s, a, level) is Some,
        a == Action::Boost && 0 < s.pos < 200 && s.pos % 10 == 0 && s.boost > 0 ==> transition_spec(s, a, level) is Some,
        a == Action::Lucky && 0 < s.pos < 200 && s.lucky > 0 ==> transition_spec(s, a, level) is Some,
{
}

/// A successful move costs exactly the resource it spends: where the move passes no
/// supply milestone and no refill meter, the state after success holds one shield,
/// boost or lucky move fewer for the skill used and the same of everything else, at
/// the meter reached.
pub proof fn lemma_transition_pays(s: GameState, a: Action, level: int)
    ensures
        transition_spec(s, a, level) matches Some(t) ==> (t.success matches Some(n) ==> {
            &&& n.pos == t.success_pos
            &&& (!(s.pos < 100 && n.pos >= 100) && !(s.pos < 200 && n.pos >= 200)) ==> {
                &&& n.shield == s.shield - (if a == Action::Shield { 1int } else { 0int })
                &&& n.boost == s.boost - (if a == Action::Boost { 1int } else { 0int })
            }
            &&& !(s.pos < lucky_table(level).refill_meter && n.pos >= lucky_table(level).refill_meter)
                ==> n.lucky == s.lucky - (if a == Action::Lucky { 1int } else { 0int })
        }),
{
}

} // verus!
