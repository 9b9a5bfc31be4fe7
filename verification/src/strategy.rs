//! The 200m-first fixed route: a plan of ten presses that the runner follows, shifts
//! when a shield is missing or fails, and realigns when the meter jumps.
use vstd::prelude::*;

use crate::model::{action_display, Action, GameState};
use crate::text::{decimal, decimal_string};

verus! {

/// How many presses the fixed route has.
pub const ROUTE_LEN: usize = 10;

/// The fixed route, press by press: run, run, boost, shield, shield, lucky, shield,
/// boost, lucky, lucky.
pub open spec fn route_step(i: int) -> Option<Action> {
    if i == 0 { Some(Action::Normal) }
    else if i == 1 { Some(Action::Normal) }
    else if i == 2 { Some(Action::Boost) }
    else if i == 3 { Some(Action::Shield) }
    else if i == 4 { Some(Action::Shield) }
    else if i == 5 { Some(Action::Lucky) }
    else if i == 6 { Some(Action::Shield) }
    else if i == 7 { Some(Action::Boost) }
    else if i == 8 { Some(Action::Lucky) }
    else if i == 9 { Some(Action::Lucky) }
    else { None }
}

/// The meter each press of the route is planned to start from.
pub open spec fn nominal_pos(i: int) -> int {
    if i == 0 { 0 }
    else if i == 1 { 10 }
    else if i == 2 { 20 }
    else if i == 3 { 50 }
    else if i == 4 { 60 }
    else if i == 5 { 70 }
    else if i == 6 { 100 }
    else if i == 7 { 110 }
    else if i == 8 { 140 }
    else { 170 }
}

/// Returns the route's press at `i`, or `None` past its end.
pub fn route_action(i: usize) -> (a: Option<Action>)
    ensures
        a == route_step(i as int),
{
    match i {
        0 => Some(Action::Normal),
        1 => Some(Action::Normal),
        2 => Some(Action::Boost),
        3 => Some(Action::Shield),
        4 => Some(Action::Shield),
        5 => Some(Action::Lucky),
        6 => Some(Action::Shield),
        7 => Some(Action::Boost),
        8 => Some(Action::Lucky),
        9 => Some(Action::Lucky),
        _ => None,
    }
}

fn nominal_position(i: usize) -> (p: i32)
    requires
        i < ROUTE_LEN,
    ensures
        p == nominal_pos(i as int),
{
    match i {
        0 => 0,
        1 => 10,
        2 => 20,
        3 => 50,
        4 => 60,
        5 => 70,
        6 => 100,
        7 => 110,
        8 => 140,
        _ => 170,
    }
}

/// The last of the first `k` presses whose planned meter `pos` has reached, or 0 when
/// none has.
pub open spec fn last_reached(pos: int, k: nat) -> nat
    decreases k,
{
    if k == 0 {
        0
    } else if pos >= nominal_pos(k - 1) {
        (k - 1) as nat
    } else {
        last_reached(pos, (k - 1) as nat)
    }
}

/// Where the plan stands: the next press of the route, the meter a detour of normal
/// runs is heading for, whether the last suggestion was part of that detour, how many
/// boosts of the route have succeeded, and whether the plan has been shifted off its
/// nominal meters.
#[derive(Debug, Clone, Copy, PartialEq, Eq, Structural)]
pub struct FixedPlan {
    pub index: usize,
    pub delay_until: Option<i32>,
    pub delaying: bool,
    pub boosts: usize,
    pub shifted: bool,
}

/// The fixed-route strategy of the runner.
#[derive(Debug, Clone, Copy)]
pub struct Fixed200Strategy {
    route_index: usize,
    delay_until_pos: Option<i32>,
    last_action_is_delay: bool,
    boost_success_count: usize,
    shifted: bool,
}

impl View for Fixed200Strategy {
    type V = FixedPlan;

    closed spec fn view(&self) -> FixedPlan {
        FixedPlan {
            index: self.route_index,
            delay_until: self.delay_until_pos,
            delaying: self.last_action_is_delay,
            boosts: self.boost_success_count,
            shifted: self.shifted,
        }
    }
}

/// A plan the strategy can be in: the route position is at most its end, no more
/// boosts have succeeded than presses were passed, and a detour's target is set
/// exactly while the suggestions are part of that detour.
pub open spec fn plan_ok(p: FixedPlan) -> bool {
    &&& p.index <= ROUTE_LEN
    &&& p.boosts <= p.index
    &&& (p.delaying <==> p.delay_until is Some)
}

/// The plan of a round whose meter stands at `pos`: the last press whose planned meter
/// is reached, with the early boost counted as done from 50m on.
pub open spec fn plan_from_pos(pos: int) -> FixedPlan {
    FixedPlan {
        index: last_reached(pos, ROUTE_LEN as nat) as usize,
        delay_until: None,
        delaying: false,
        boosts: if pos >= 50 { 1 } else { 0 },
        shifted: false,
    }
}

/// Why a shield press was skipped.
#[derive(Debug, Clone, Copy, PartialEq, Eq, Structural)]
pub enum SkipReason {
    /// The player has no shield left.
    NoShieldLeft,
    /// A shield of the 50m/60m part failed; those are tried once.
    EarlyShieldFailed,
    /// A shield failed and none is left.
    ShieldsSpent,
}

/// What the strategy reports of a change to its plan.
#[derive(Debug, Clone, Copy, PartialEq, Eq, Structural)]
pub enum StrategyNote {
    /// A shield press was skipped; normal runs lead to `resume_at`, then the route goes
    /// on at `next_step`.
    ShieldSkipped { reason: SkipReason, skipped_step: usize, resume_at: i32, next_step: usize },
    /// A detour run reached its target; the route goes on at `next_step`.
    DelayDone { before: i32, after: i32, target: i32, next_step: usize },
    /// A detour run moved the meter without reaching the target yet.
    Delaying { before: i32, after: i32 },
    /// The press `done` of the route succeeded; `next_step` is next.
    RouteAdvanced { done: Action, next_step: usize },
    /// The meter reached the detour's target; the route goes on at `next_step`.
    DelayDoneAtMeter { pos: i32, next_step: usize },
    /// The meter was found ahead of the plan, which moved on to `next_step`.
    MeterSynced { pos: i32, next_step: usize },
    /// A shield of the 100m part failed with shields left: it is tried again in place.
    ShieldRetry { before: i32, step: usize, shield_left: i32 },
}

/// How a step of the route is named in messages.
pub open spec fn step_text(i: int) -> Seq<char> {
    match route_step(i) {
        Some(a) => "第"@ + decimal(i + 1) + "步 "@ + action_display(a),
        None => "固定路线已执行完"@,
    }
}

/// The text of a skip reason, for the skipped step `step`.
pub open spec fn reason_text(r: SkipReason, step: int) -> Seq<char> {
    match r {
        SkipReason::NoShieldLeft => "当前保护次数为0"@,
        SkipReason::EarlyShieldFailed => step_text(step) + " 防护失败，50/60m 前段保护位只尝试一次"@,
        SkipReason::ShieldsSpent => step_text(step) + " 防护失败且保护已用完"@,
    }
}

/// The message a note is logged with.
pub open spec fn note_text(n: StrategyNote) -> Seq<char> {
    match n {
        StrategyNote::ShieldSkipped { reason, skipped_step, resume_at, next_step } =>
            "200米优先："@ + reason_text(reason, skipped_step as int) + "，跳过保护位（"@
                + step_text(skipped_step as int) + "），普通跑到 "@ + decimal(resume_at as int)
                + "m 后继续 "@ + step_text(next_step as int),
        StrategyNote::DelayDone { before, after, target, next_step } =>
            "200米优先补位完成："@ + decimal(before as int) + "m -> "@ + decimal(after as int)
                + "m，达到 "@ + decimal(target as int) + "m，继续 "@ + step_text(next_step as int),
        StrategyNote::Delaying { before, after } =>
            "200米优先补位中："@ + decimal(before as int) + "m -> "@ + decimal(after as int) + "m"@,
        StrategyNote::RouteAdvanced { done, next_step } =>
            "200米优先路线推进：完成 "@ + action_display(done) + "，下一步 "@ + step_text(next_step as int),
        StrategyNote::DelayDoneAtMeter { pos, next_step } =>
            "200米优先补位完成：当前 "@ + decimal(pos as int) + "m，继续 "@ + step_text(next_step as int),
        StrategyNote::MeterSynced { pos, next_step } =>
            "200米优先米数同步：当前 "@ + decimal(pos as int) + "m，对齐到 "@ + step_text(next_step as int),
        StrategyNote::ShieldRetry { before, step, shield_left } =>
            "200米优先："@ + decimal(before as int) + "m "@ + step_text(step as int) + " 防护失败，剩余保护="@
                + decimal(shield_left as int) + "，100m 后段保护位原地重试"@,
    }
}

fn step_string(i: usize) -> (s: String)
    ensures
        s@ == step_text(i as int),
{
    match route_action(i) {
        Some(a) => {
            let mut s = String::from_str("第");
            let num = decimal_string(i as i64 + 1);
            s.append(num.as_str());
            s.append("步 ");
            s.append(a.display());
            s
        },
        None => String::from_str("固定路线已执行完"),
    }
}

fn reason_string(r: SkipReason, step: usize) -> (s: String)
    ensures
        s@ == reason_text(r, step as int),
{
    match r {
        SkipReason::NoShieldLeft => String::from_str("当前保护次数为0"),
        SkipReason::EarlyShieldFailed => {
            let mut s = step_string(step);
            s.append(" 防护失败，50/60m 前段保护位只尝试一次");
            s
        },
        SkipReason::ShieldsSpent => {
            let mut s = step_string(step);
            s.append(" 防护失败且保护已用完");
            s
        },
    }
}

fn append_decimal(s: &mut String, n: i32)
    ensures
        final(s)@ == old(s)@ + decimal(n as int),
{
    let d = decimal_string(n as i64);
    s.append(d.as_str());
}

fn append_step(s: &mut String, i: usize)
    ensures
        final(s)@ == old(s)@ + step_text(i as int),
{
    let d = step_string(i);
    s.append(d.as_str());
}

impl StrategyNote {
    /// The message this note is logged with.
    pub fn text(&self) -> (s: String)
        ensures
            s@ == note_text(*self),
    {
        match *self {
            StrategyNote::ShieldSkipped { reason, skipped_step, resume_at, next_step } => {
                let mut s = String::from_str("200米优先：");
                let r = reason_string(reason, skipped_step);
                s.append(r.as_str());
                s.append("，跳过保护位（");
                append_step(&mut s, skipped_step);
                s.append("），普通跑到 ");
                append_decimal(&mut s, resume_at);
                s.append("m 后继续 ");
                append_step(&mut s, next_step);
                s
            },
            StrategyNote::DelayDone { before, after, target, next_step } => {
                let mut s = String::from_str("200米优先补位完成：");
                append_decimal(&mut s, before);
                s.append("m -> ");
                append_decimal(&mut s, after);
                s.append("m，达到 ");
                append_decimal(&mut s, target);
                s.append("m，继续 ");
                append_step(&mut s, next_step);
                s
            },
            StrategyNote::Delaying { before, after } => {
                let mut s = String::from_str("200米优先补位中：");
                append_decimal(&mut s, before);
                s.append("m -> ");
                append_decimal(&mut s, after);
                s.append("m");
                s
            },
            StrategyNote::RouteAdvanced { done, next_step } => {
                let mut s = String::from_str("200米优先路线推进：完成 ");
                s.append(done.display());
                s.append("，下一步 ");
                append_step(&mut s, next_step);
                s
            },
            StrategyNote::DelayDoneAtMeter { pos, next_step } => {
                let mut s = String::from_str("200米优先补位完成：当前 ");
                append_decimal(&mut s, pos);
                s.append("m，继续 ");
                append_step(&mut s, next_step);
                s
            },
            StrategyNote::MeterSynced { pos, next_step } => {
                let mut s = String::from_str("200米优先米数同步：当前 ");
                append_decimal(&mut s, pos);
                s.append("m，对齐到 ");
                append_step(&mut s, next_step);
                s
            },
            StrategyNote::ShieldRetry { before, step, shield_left } => {
                let mut s = String::from_str("200米优先：");
                append_decimal(&mut s, before);
                s.append("m ");
                append_step(&mut s, step);
                s.append(" 防护失败，剩余保护=");
                append_decimal(&mut s, shield_left);
                s.append("，100m 后段保护位原地重试");
                s
            },
        }
    }
}


/// The plan after skipping a shield press at meter `pos`: when the press due is a
/// shield the route moves past it, and normal runs lead to `pos + 10` first.
pub open spec fn skip_plan(p: FixedPlan, pos: int) -> FixedPlan {
    FixedPlan {
        index: if route_step(p.index as int) == Some(Action::Shield) { (p.index + 1) as usize } else { p.index },
        delay_until: Some((pos + 10) as i32),
        delaying: true,
        shifted: true,
        ..p
    }
}

/// The note of skipping a shield press at meter `pos`.
pub open spec fn skip_note(p: FixedPlan, pos: int, reason: SkipReason) -> StrategyNote {
    StrategyNote::ShieldSkipped {
        reason,
        skipped_step: p.index,
        resume_at: (pos + 10) as i32,
        next_step: skip_plan(p, pos).index,
    }
}

/// What the plan suggests in state `st`, and the plan after the suggestion: nothing
/// from 200m on; a normal run while a detour is under way; once the route is done,
/// lucky, else boost, else a normal run; a due shield with none left is skipped and
/// replaced by a normal run; otherwise the press the route has due.
pub open spec fn suggest(p: FixedPlan, st: GameState) -> (FixedPlan, Option<Action>) {
    if st.pos >= 200 {
        (p, None)
    } else if p.delay_until matches Some(t) && st.pos < t {
        (FixedPlan { delaying: true, ..p }, Some(Action::Normal))
    } else {
        let q = if p.delay_until is Some { FixedPlan { delay_until: None, delaying: false, ..p } } else { p };
        if q.index >= ROUTE_LEN {
            (q, Some(if st.lucky > 0 { Action::Lucky } else if st.boost > 0 { Action::Boost } else { Action::Normal }))
        } else if route_step(q.index as int) == Some(Action::Shield) && st.shield <= 0 {
            (skip_plan(q, st.pos as int), Some(Action::Normal))
        } else {
            (FixedPlan { delaying: false, ..q }, route_step(q.index as int))
        }
    }
}

/// The plan after `action` took the meter from `before` to `after`, and its note: a
/// detour run finishes the detour once the target is reached; a success of the press
/// due moves the route on.
pub open spec fn after_success(p: FixedPlan, action: Action, before: int, after: int) -> (FixedPlan, Option<StrategyNote>) {
    if p.delaying {
        match p.delay_until {
            Some(t) if after >= t => (
                FixedPlan { delay_until: None, delaying: false, ..p },
                Some(StrategyNote::DelayDone { before: before as i32, after: after as i32, target: t, next_step: p.index }),
            ),
            _ => (p, Some(StrategyNote::Delaying { before: before as i32, after: after as i32 })),
        }
    } else if route_step(p.index as int) == Some(action) {
        let q = FixedPlan {
            index: (p.index + 1) as usize,
            boosts: if action == Action::Boost { (p.boosts + 1) as usize } else { p.boosts },
            ..p
        };
        (q, Some(StrategyNote::RouteAdvanced { done: action, next_step: q.index }))
    } else {
        (p, None)
    }
}

/// The plan after the meter was read as `pos`, and its note: a detour ends once its
/// target is reached; an unshifted plan moves forward to the last press whose planned
/// meter is reached, looking no further than the early boost until a boost succeeded.
pub open spec fn after_meter(p: FixedPlan, pos: int) -> (FixedPlan, Option<StrategyNote>) {
    if p.delay_until is Some {
        if pos >= p.delay_until->0 {
            (
                FixedPlan { delay_until: None, delaying: false, ..p },
                Some(StrategyNote::DelayDoneAtMeter { pos: pos as i32, next_step: p.index }),
            )
        } else {
            (p, None)
        }
    } else if p.shifted {
        (p, None)
    } else {
        let reach = last_reached(pos, if p.boosts == 0 { 3 } else { ROUTE_LEN as nat });
        if reach > p.index {
            let q = FixedPlan { index: reach as usize, ..p };
            (q, Some(StrategyNote::MeterSynced { pos: pos as i32, next_step: q.index }))
        } else {
            (p, None)
        }
    }
}

/// The plan after a shield pressed at `before` failed with `shield_left` shields left,
/// and its note: a 50m/60m shield is skipped; a 100m shield is retried in place while
/// shields are left; any other is skipped.
pub open spec fn after_shield_failure(p: FixedPlan, before: int, shield_left: int) -> (FixedPlan, StrategyNote) {
    if p.index == 3 || p.index == 4 {
        (skip_plan(p, before), skip_note(p, before, SkipReason::EarlyShieldFailed))
    } else if p.index == 6 && shield_left > 0 {
        (
            FixedPlan { shifted: true, delay_until: None, delaying: false, ..p },
            StrategyNote::ShieldRetry { before: before as i32, step: p.index, shield_left: shield_left as i32 },
        )
    } else {
        (skip_plan(p, before), skip_note(p, before, SkipReason::ShieldsSpent))
    }
}

fn last_reached_exec(pos: i32, k: usize) -> (r: usize)
    requires
        k <= ROUTE_LEN,
    ensures
        r == last_reached(pos as int, k as nat),
        r < ROUTE_LEN,
{
    let mut index: usize = 0;
    let mut i: usize = 0;
    while i < k
        invariant
            i <= k <= ROUTE_LEN,
            index == last_reached(pos as int, i as nat),
            index < ROUTE_LEN,
        decreases k - i,
    {
        if pos >= nominal_position(i) {
            index = i;
        }
        i += 1;
    }
    index
}

impl Fixed200Strategy {
    #[verifier::type_invariant]
    spec fn inv(self) -> bool {
        &&& self.route_index <= ROUTE_LEN
        &&& self.boost_success_count <= self.route_index
        &&& (self.last_action_is_delay <==> self.delay_until_pos is Some)
    }

    /// The plan of a round whose meter stands at `pos`.
    pub fn from_pos(pos: i32) -> (s: Self)
        ensures
            s@ == plan_from_pos(pos as int),
            plan_ok(s@),
    {
        let index = last_reached_exec(pos, ROUTE_LEN);
        proof {
            if pos >= 50 {
                assert(last_reached(pos as int, 4) == 3);
                lemma_last_reached_grows(pos as int, 4, ROUTE_LEN as nat);
            }
        }
        Fixed200Strategy {
            route_index: index,
            delay_until_pos: None,
            last_action_is_delay: false,
            boost_success_count: if pos >= 50 { 1 } else { 0 },
            shifted: false,
        }
    }

    fn skip_shield_and_delay(&mut self, pos: i32, reason: SkipReason) -> (n: StrategyNote)
        requires
            pos <= i32::MAX - 10,
        ensures
            final(self)@ == skip_plan(old(self)@, pos as int),
            n == skip_note(old(self)@, pos as int, reason),
    {
        proof {
            use_type_invariant(&*self);
        }
        let old_step = self.route_index;
        let next = if route_action(self.route_index) == Some(Action::Shield) {
            self.route_index + 1
        } else {
            self.route_index
        };
        *self = Fixed200Strategy {
            route_index: next,
            delay_until_pos: Some(pos + 10),
            last_action_is_delay: true,
            shifted: true,
            ..*self
        };
        StrategyNote::ShieldSkipped {
            reason,
            skipped_step: old_step,
            resume_at: pos + 10,
            next_step: self.route_index,
        }
    }

    /// Where the plan stands.
    pub fn plan(&self) -> (p: FixedPlan)
        ensures
            p == self@,
            plan_ok(p),
    {
        proof {
            use_type_invariant(self);
        }
        FixedPlan {
            index: self.route_index,
            delay_until: self.delay_until_pos,
            delaying: self.last_action_is_delay,
            boosts: self.boost_success_count,
            shifted: self.shifted,
        }
    }

    /// Suggests the next press for state `state`.
    pub fn get_action(&mut self, state: GameState) -> (a: Option<Action>)
        ensures
            (final(self)@, a) == suggest(old(self)@, state),
            plan_ok(final(self)@),
    {
        proof {
            use_type_invariant(&*self);
        }
        if state.pos >= 200 {
            return None;
        }
        if let Some(target) = self.delay_until_pos {
            if state.pos < target {
                self.last_action_is_delay = true;
                return Some(Action::Normal);
            }
            *self = Fixed200Strategy { delay_until_pos: None, last_action_is_delay: false, ..*self };
        }
        if self.route_index >= ROUTE_LEN {
            return Some(
                if state.lucky > 0 {
                    Action::Lucky
                } else if state.boost > 0 {
                    Action::Boost
                } else {
                    Action::Normal
                },
            );
        }
        let action = route_action(self.route_index);
        if action == Some(Action::Shield) && state.shield <= 0 {
            let _ = self.skip_shield_and_delay(state.pos, SkipReason::NoShieldLeft);
            return Some(Action::Normal);
        }
        self.last_action_is_delay = false;
        action
    }

    /// Takes note that `action` moved the meter from `before` to `after`.
    pub fn on_success(&mut self, action: Action, before: i32, after: i32) -> (n: Option<StrategyNote>)
        ensures
            (final(self)@, n) == after_success(old(self)@, action, before as int, after as int),
            plan_ok(final(self)@),
    {
        proof {
            use_type_invariant(&*self);
        }
        if self.last_action_is_delay {
            if let Some(target) = self.delay_until_pos {
                if after >= target {
                    *self = Fixed200Strategy { delay_until_pos: None, last_action_is_delay: false, ..*self };
                    return Some(StrategyNote::DelayDone { before, after, target, next_step: self.route_index });
                }
            }
            return Some(StrategyNote::Delaying { before, after });
        }
        if route_action(self.route_index) == Some(action) {
            self.route_index = self.route_index + 1;
            if action == Action::Boost {
                self.boost_success_count = self.boost_success_count + 1;
            }
            return Some(StrategyNote::RouteAdvanced { done: action, next_step: self.route_index });
        }
        None
    }

    /// Takes note that the meter was read as `pos`.
    pub fn on_meter_sync(&mut self, pos: i32) -> (n: Option<StrategyNote>)
        ensures
            (final(self)@, n) == after_meter(old(self)@, pos as int),
            plan_ok(final(self)@),
    {
        proof {
            use_type_invariant(&*self);
        }
        if let Some(target) = self.delay_until_pos {
            if pos >= target {
                *self = Fixed200Strategy { delay_until_pos: None, last_action_is_delay: false, ..*self };
                return Some(StrategyNote::DelayDoneAtMeter { pos, next_step: self.route_index });
            }
            return None;
        }
        if self.shifted {
            return None;
        }
        let limit: usize = if self.boost_success_count == 0 { 3 } else { ROUTE_LEN };
        let reach = last_reached_exec(pos, limit);
        if reach > self.route_index {
            self.route_index = reach;
            return Some(StrategyNote::MeterSynced { pos, next_step: self.route_index });
        }
        None
    }

    /// Takes note that the shield pressed at `before` failed, leaving `shield_left`.
    pub fn on_shield_failure(&mut self, before: i32, shield_left: i32) -> (n: StrategyNote)
        requires
            !(old(self)@.index == 6 && shield_left > 0) ==> before <= i32::MAX - 10,
        ensures
            (final(self)@, n) == after_shield_failure(old(self)@, before as int, shield_left as int),
            plan_ok(final(self)@),
    {
        proof {
            use_type_invariant(&*self);
        }
        let index = self.route_index;
        if index == 3 || index == 4 {
            return self.skip_shield_and_delay(before, SkipReason::EarlyShieldFailed);
        }
        if index == 6 && shield_left > 0 {
            *self = Fixed200Strategy { shifted: true, delay_until_pos: None, last_action_is_delay: false, ..*self };
            return StrategyNote::ShieldRetry { before, step: index, shield_left };
        }
        self.skip_shield_and_delay(before, SkipReason::ShieldsSpent)
    }
}

/// Looking at more presses never finds an earlier one reached.
proof fn lemma_last_reached_grows(pos: int, j: nat, k: nat)
    requires
        j <= k,
    ensures
        last_reached(pos, k) >= last_reached(pos, j),
    decreases k,
{
    if k > j {
        lemma_last_reached_grows(pos, j, (k - 1) as nat);
    }
}

/// The last press reached among the first `k` is one of them.
pub proof fn lemma_last_reached_below(pos: int, k: nat)
    requires
        k >= 1,
    ensures
        last_reached(pos, k) < k,
    decreases k,
{
    if k > 1 {
        lemma_last_reached_below(pos, (k - 1) as nat);
    } else {
        assert(last_reached(pos, 0) == 0);
    }
}

/// The route never goes back: every change of plan keeps or advances the press due,
/// and keeps the plan one the strategy can be in.
pub proof fn lemma_route_never_goes_back(
    p: FixedPlan,
    st: GameState,
    action: Action,
    before: int,
    after: int,
    pos: int,
    shield_left: int,
)
    requires
        plan_ok(p),
    ensures
        plan_ok(suggest(p, st).0) && suggest(p, st).0.index >= p.index,
        plan_ok(after_success(p, action, before, after).0) && after_success(p, action, before, after).0.index >= p.index,
        plan_ok(after_meter(p, pos).0) && after_meter(p, pos).0.index >= p.index,
        plan_ok(after_shield_failure(p, before, shield_left).0) && after_shield_failure(p, before, shield_left).0.index >= p.index,
{
    lemma_last_reached_below(pos, 3);
    lemma_last_reached_below(pos, ROUTE_LEN as nat);
}

/// The plan never asks for a shield when none is left, asks for nothing from 200m on,
/// always asks for something before, runs normally while a detour is under way, and
/// past the end of the route asks only for what the state holds.
pub proof fn lemma_suggestion_shape(p: FixedPlan, st: GameState)
    ensures
        suggest(p, st).1 is None <==> st.pos >= 200,
        suggest(p, st).1 == Some(Action::Shield) ==> st.shield > 0,
        st.pos < 200 && (p.delay_until matches Some(t) && st.pos < t) ==> suggest(p, st).1 == Some(Action::Normal),
        st.pos < 200 && p.index >= ROUTE_LEN && p.delay_until is None ==> (match suggest(p, st).1 {
            Some(Action::Lucky) => st.lucky > 0,
            Some(Action::Boost) => st.boost > 0,
            Some(Action::Shield) => false,
            _ => true,
        }),
{
}

/// A plan shifted off its nominal meters is never realigned by the meter; only the end
/// of a detour is noted.
pub proof fn lemma_shifted_plan_keeps_route(p: FixedPlan, pos: int)
    requires
        p.shifted,
    ensures
        after_meter(p, pos).0.index == p.index,
        p.delay_until is None ==> after_meter(p, pos) == (p, None::<StrategyNote>),
{
}

/// One call a runner makes on the strategy: a suggestion for a state, a success of a
/// press, a meter reading, or a failed shield.
#[derive(Debug, Clone, Copy, PartialEq, Eq, Structural)]
pub enum PlanCall {
    Suggest { state: GameState },
    Success { action: Action, before: i32, after: i32 },
    Meter { pos: i32 },
    ShieldFailure { before: i32, shield_left: i32 },
}

/// The plan after one call.
pub open spec fn apply_call(p: FixedPlan, c: PlanCall) -> FixedPlan {
    match c {
        PlanCall::Suggest { state } => suggest(p, state).0,
        PlanCall::Success { action, before, after } => after_success(p, action, before as int, after as int).0,
        PlanCall::Meter { pos } => after_meter(p, pos as int).0,
        PlanCall::ShieldFailure { before, shield_left } => after_shield_failure(p, before as int, shield_left as int).0,
    }
}

/// The plan after the calls `calls`, made in turn.
pub open spec fn run_calls(p: FixedPlan, calls: Seq<PlanCall>) -> FixedPlan
    decreases calls.len(),
{
    if calls.len() == 0 {
        p
    } else {
        apply_call(run_calls(p, calls.drop_last()), calls.last())
    }
}

/// Whatever calls a runner makes, in whatever order, the plan stays one the strategy
/// can be in (the route position within the route, a detour's target set exactly while
/// its runs are suggested), and no call ever moves the route back.
pub proof fn lemma_calls_keep_plan(p: FixedPlan, calls: Seq<PlanCall>)
    requires
        plan_ok(p),
    ensures
        plan_ok(run_calls(p, calls)),
        run_calls(p, calls).index >= p.index,
        forall|k: int| 0 <= k < calls.len() ==> {
            &&& plan_ok(#[trigger] run_calls(p, calls.take(k)))
            &&& run_calls(p, calls.take(k + 1)).index >= run_calls(p, calls.take(k)).index
        },
    decreases calls.len(),
{
    if calls.len() > 0 {
        let init = calls.drop_last();
        lemma_calls_keep_plan(p, init);
        let c = calls.last();
        if let PlanCall::Meter { pos } = c {
            lemma_last_reached_below(pos as int, 3);
            lemma_last_reached_below(pos as int, ROUTE_LEN as nat);
        }
        assert forall|k: int| 0 <= k < calls.len() implies {
            &&& plan_ok(#[trigger] run_calls(p, calls.take(k)))
            &&& run_calls(p, calls.take(k + 1)).index >= run_calls(p, calls.take(k)).index
        } by {
            if k < calls.len() - 1 {
                assert(calls.take(k) =~= init.take(k));
                assert(calls.take(k + 1) =~= init.take(k + 1));
            } else {
                assert(calls.take(k) =~= init);
                assert(calls.take(k + 1) =~= calls);
            }
        }
    }
}

/// The plan after `rounds` rounds of the route followed without a hitch: in each round
/// the plan is asked for a press in the round's state and that press succeeds, taking
/// the meter to the round's second member.
pub open spec fn follow_route(p: FixedPlan, rounds: Seq<(GameState, i32)>) -> FixedPlan
    decreases rounds.len(),
{
    if rounds.len() == 0 {
        p
    } else {
        let prev = follow_route(p, rounds.drop_last());
        let st = rounds.last().0;
        let asked = suggest(prev, st);
        after_success(asked.0, asked.1->0, st.pos as int, rounds.last().1 as int).0
    }
}

/// The press the plan asks for once the route is done: lucky, else boost, else a normal
/// run.
pub open spec fn after_route_press(st: GameState) -> Action {
    if st.lucky > 0 {
        Action::Lucky
    } else if st.boost > 0 {
        Action::Boost
    } else {
        Action::Normal
    }
}

/// A round played from 0m follows the route run, run, boost, shield, shield, lucky,
/// shield, boost, lucky, lucky: while every press is asked below 200m with a shield in
/// hand and succeeds, the `k`th suggestion is the route's `k`th press, and after the
/// tenth the plan asks for lucky, else boost, else a normal run. The plan never makes a
/// detour on the way.
pub proof fn lemma_route_followed(rounds: Seq<(GameState, i32)>, st: GameState)
    requires
        forall|i: int| 0 <= i < rounds.len() ==> (#[trigger] rounds[i]).0.pos < 200 && rounds[i].0.shield > 0,
        st.pos < 200,
        st.shield > 0,
    ensures
        follow_route(plan_from_pos(0), rounds).index == (if rounds.len() < ROUTE_LEN { rounds.len() } else { ROUTE_LEN as nat }),
        follow_route(plan_from_pos(0), rounds).delay_until is None,
        !follow_route(plan_from_pos(0), rounds).delaying,
        !follow_route(plan_from_pos(0), rounds).shifted,
        suggest(follow_route(plan_from_pos(0), rounds), st).1 == (if rounds.len() < ROUTE_LEN {
            route_step(rounds.len() as int)
        } else {
            Some(after_route_press(st))
        }),
    decreases rounds.len(),
{
    if rounds.len() == 0 {
        assert(last_reached(0, ROUTE_LEN as nat) == 0) by {
            reveal_with_fuel(last_reached, 11);
        }
    } else {
        let init = rounds.drop_last();
        let last = rounds.last();
        assert forall|i: int| 0 <= i < init.len() implies (#[trigger] init[i]).0.pos < 200 && init[i].0.shield > 0 by {
            assert(init[i] == rounds[i]);
        }
        assert(last == rounds[rounds.len() - 1]);
        lemma_route_followed(init, last.0);
    }
}


/// The 50m/60m shields are tried once: whatever shields are left, a failure there moves
/// the route past the shield and sends the runner on a detour of normal runs to 10m
/// further. The 100m shield is retried in place while shields are left, with no
/// detour; with none left it is skipped the same way.
pub proof fn lemma_shield_failure_handling(p: FixedPlan, before: int, shield_left: int)
    requires
        i32::MIN <= before + 10 <= i32::MAX,
    ensures
        (p.index == 3 || p.index == 4) ==> {
            &&& after_shield_failure(p, before, shield_left).0.index == p.index + 1
            &&& after_shield_failure(p, before, shield_left).0.delay_until == Some((before + 10) as i32)
            &&& after_shield_failure(p, before, shield_left).0.delaying
            &&& after_shield_failure(p, before, shield_left).0.shifted
            &&& after_shield_failure(p, before, shield_left).1 == (StrategyNote::ShieldSkipped {
                reason: SkipReason::EarlyShieldFailed,
                skipped_step: p.index,
                resume_at: (before + 10) as i32,
                next_step: (p.index + 1) as usize,
            })
        },
        p.index == 6 && shield_left > 0 ==> {
            &&& after_shield_failure(p, before, shield_left).0.index == 6
            &&& after_shield_failure(p, before, shield_left).0.delay_until is None
            &&& !after_shield_failure(p, before, shield_left).0.delaying
            &&& after_shield_failure(p, before, shield_left).0.shifted
            &&& after_shield_failure(p, before, shield_left).1 is ShieldRetry
        },
        p.index == 6 && shield_left <= 0 ==> {
            &&& after_shield_failure(p, before, shield_left).0.index == 7
            &&& after_shield_failure(p, before, shield_left).0.delay_until == Some((before + 10) as i32)
            &&& after_shield_failure(p, before, shield_left).1 matches StrategyNote::ShieldSkipped { reason: SkipReason::ShieldsSpent, .. }
        },
{
}

} // verus!
