//! The decisions of a running round: what a meter reading means for the press the
//! runner is waiting on, which press to make next, and what a press that could not be
//! confirmed tells about the resources. The runner's loop captures the screen, taps
//! and waits; it hands each reading to a `RoundMachine` and performs what comes back.
use vstd::prelude::*;

use crate::model::{lucky_table, lucky_config, max_int, resources_in_range, Action, GameState, SHIELD_CAP};
use crate::rules::{apply_progress, can_apply_progress, has_headroom, progress, progress_fits, TARGET_POS};

verus! {

/// What the runner was started for.
#[derive(Debug, Clone, Copy, PartialEq, Eq, Structural)]
pub enum RunnerMode {
    /// Read the screen once and report what was recognised.
    RecognitionTest,
    /// Play rounds from 0m.
    StartZero,
    /// Take over a round in progress from the state entered by hand, then play on.
    TakeoverManual,
}

/// How a press of a skill button ended: confirmed selected, not confirmed but worth a
/// retry, or never selectable.
#[derive(Debug, Clone, Copy, PartialEq, Eq, Structural)]
pub enum TapOutcome {
    Confirmed,
    Retry,
    Unavailable,
}

/// The lucky level assumed when the level cannot be read.
pub const DEFAULT_LUCKY_LEVEL: i32 = 5;

/// Returns the recognised lucky level, or LV5 when none was recognised.
pub fn level_or_default(read: Option<i32>) -> (level: i32)
    ensures
        level == (match read {
            Some(v) => v,
            None => DEFAULT_LUCKY_LEVEL,
        }),
{
    match read {
        Some(v) => v,
        None => DEFAULT_LUCKY_LEVEL,
    }
}

/// The state a round played from 0m starts in: the shields read from the screen, one
/// boost, and the level's starting lucky moves.
pub open spec fn fresh_round(shield: int, level: int) -> GameState {
    GameState {
        pos: 0,
        shield: shield as i32,
        boost: 1,
        lucky: lucky_table(level).start,
        got100: false,
        got200: false,
        got_lucky_refill: false,
    }
}

/// Returns the state a round played from 0m starts in.
pub fn round_start_state(shield: i32, lucky_level: i32) -> (s: GameState)
    ensures
        s == fresh_round(shield as int, lucky_level as int),
        0 <= shield <= SHIELD_CAP ==> resources_in_range(s, lucky_level as int),
{
    let lucky = lucky_config(lucky_level);
    GameState {
        pos: 0,
        shield,
        boost: 1,
        lucky: lucky.start,
        got100: false,
        got200: false,
        got_lucky_refill: false,
    }
}

/// The state holds what `action` spends.
pub open spec fn affordable(s: GameState, action: Action) -> bool {
    match action {
        Action::Shield => s.shield > 0,
        Action::Boost => s.boost > 0,
        Action::Lucky => s.lucky > 0,
        Action::Normal => true,
    }
}

/// Returns whether the state holds what `action` spends.
pub fn has_resource(state: GameState, action: Action) -> (r: bool)
    ensures
        r == affordable(state, action),
{
    match action {
        Action::Shield => state.shield > 0,
        Action::Boost => state.boost > 0,
        Action::Lucky => state.lucky > 0,
        Action::Normal => true,
    }
}

/// `s` after paying for `action`, never below zero.
pub open spec fn pay(s: GameState, action: Action) -> GameState {
    match action {
        Action::Shield => GameState { shield: if s.shield > 1 { (s.shield - 1) as i32 } else { 0 }, ..s },
        Action::Boost => GameState { boost: if s.boost > 1 { (s.boost - 1) as i32 } else { 0 }, ..s },
        Action::Lucky => GameState { lucky: if s.lucky > 1 { (s.lucky - 1) as i32 } else { 0 }, ..s },
        Action::Normal => s,
    }
}

/// The state after `action`, pressed in `before`, was seen to bring the meter to
/// `detected`: the action is paid for and the progress settled.
pub open spec fn settled(before: GameState, action: Action, detected: int, level: int) -> GameState {
    progress(pay(before, action), before.pos as int, detected, level)
}

/// Returns the state after `action`, pressed in `before`, brought the meter to
/// `detected_pos`.
pub fn settle_success(before: GameState, action: Action, detected_pos: i32, lucky_level: i32) -> (s: GameState)
    requires
        progress_fits(pay(before, action), before.pos as int, detected_pos as int, lucky_level as int),
    ensures
        s == settled(before, action, detected_pos as int, lucky_level as int),
{
    let mut paid = before;
    match action {
        Action::Shield => paid.shield = if before.shield > 1 { before.shield - 1 } else { 0 },
        Action::Boost => paid.boost = if before.boost > 1 { before.boost - 1 } else { 0 },
        Action::Lucky => paid.lucky = if before.lucky > 1 { before.lucky - 1 } else { 0 },
        Action::Normal => {},
    }
    apply_progress(paid, before.pos, detected_pos, lucky_level)
}

/// The press made when the strategy has no suggestion: lucky, else boost, else a
/// normal run.
pub open spec fn fallback_action(s: GameState) -> Action {
    if s.lucky > 0 {
        Action::Lucky
    } else if s.boost > 0 {
        Action::Boost
    } else {
        Action::Normal
    }
}

/// The press made for a suggestion in state `s`, and whether the suggestion had to be
/// replaced by a normal run for want of the resource.
pub open spec fn chosen_action(suggestion: Option<Action>, s: GameState) -> (Action, bool) {
    let a = match suggestion {
        Some(a) => a,
        None => fallback_action(s),
    };
    if affordable(s, a) {
        (a, false)
    } else {
        (Action::Normal, true)
    }
}

/// `s` with the resource of `action` set to zero, as after a skill button that could
/// not be selected.
pub open spec fn drained(s: GameState, action: Action) -> GameState {
    match action {
        Action::Shield => GameState { shield: 0, ..s },
        Action::Boost => GameState { boost: 0, ..s },
        Action::Lucky => GameState { lucky: 0, ..s },
        Action::Normal => s,
    }
}

/// `s` after the meter was read as `current` with no press pending: the progress is
/// settled and a shield count read from the screen replaces the one kept.
pub open spec fn synced(s: GameState, current: int, shield_read: Option<i32>, level: int) -> GameState {
    if current != s.pos {
        let p = progress(s, s.pos as int, current, level);
        match shield_read {
            Some(v) => GameState { shield: v, ..p },
            None => p,
        }
    } else {
        s
    }
}

/// The first press after 200m: one boost when one is left, normal runs after that.
pub open spec fn post200_press(first: bool, s: GameState) -> Action {
    if first && s.boost > 0 {
        Action::Boost
    } else {
        Action::Normal
    }
}

/// Returns the press to make after 200m.
pub fn post200_action(first: bool, state: GameState) -> (a: Action)
    ensures
        a == post200_press(first, state),
{
    if first && state.boost > 0 {
        Action::Boost
    } else {
        Action::Normal
    }
}

/// The first-press flag and the state after a press after 200m ended with `outcome`
/// (`None` where no skill was pressed): only the first press may be a boost, and a
/// confirmed boost costs one.
pub open spec fn post200_next(first: bool, s: GameState, outcome: Option<TapOutcome>) -> (bool, GameState) {
    if post200_press(first, s) == Action::Boost && outcome == Some(TapOutcome::Confirmed) {
        (false, GameState { boost: (s.boost - 1) as i32, ..s })
    } else {
        (false, s)
    }
}

/// Returns the first-press flag and the state after a press after 200m ended with
/// `outcome`.
pub fn post200_step(first: bool, state: GameState, outcome: Option<TapOutcome>) -> (r: (bool, GameState))
    ensures
        r == post200_next(first, state, outcome),
{
    let mut s = state;
    if first && state.boost > 0 {
        if let Some(TapOutcome::Confirmed) = outcome {
            s.boost = state.boost - 1;
        }
    }
    (false, s)
}

/// The presses made after 200m when the presses end with `outcomes` in turn.
pub open spec fn post200_presses(first: bool, s: GameState, outcomes: Seq<Option<TapOutcome>>) -> Seq<Action>
    decreases outcomes.len(),
{
    if outcomes.len() == 0 {
        Seq::empty()
    } else {
        let next = post200_next(first, s, outcomes[0]);
        seq![post200_press(first, s)] + post200_presses(next.0, next.1, outcomes.drop_first())
    }
}

/// A press the runner waits to see settled: the action and the state it was made in.
#[derive(Debug, Clone, Copy, PartialEq, Eq, Structural)]
pub struct PendingAction {
    pub action: Action,
    pub before: GameState,
}

/// What the runner does with one meter reading.
#[derive(Debug, Clone, Copy, PartialEq, Eq, Structural)]
pub enum RoundStep {
    /// The meter could not be read; this is the `retries`th time in a row.
    MeterUnread { retries: usize },
    /// The meter fell back to 0m after `action`: the round is over.
    RoundOver { action: Action },
    /// The shield pressed in `before` failed; `shield_left` remain.
    ShieldFailed { before: GameState, shield_left: i32 },
    /// `action` took the meter from `before_pos` to `after_pos`; `finished` tells
    /// whether that reaches 200m, after which the meter is not read any more.
    Settled { action: Action, before_pos: i32, after_pos: i32, finished: bool },
    /// The meter shows the step back a boost animates first; the boost is still waited on.
    BoostRollback { before_pos: i32, current_pos: i32 },
    /// The meter has not moved yet after `action`; it is still waited on.
    AwaitingSameMeter { action: Action },
    /// The meter shows something else; the press is still waited on.
    Awaiting,
    /// No press is waited on (any more): `timed_out` names one given up on, `synced_from`
    /// the meter the state was moved from, and `finished` whether 200m is reached.
    Proceed { timed_out: Option<Action>, synced_from: Option<i32>, finished: bool },
}

/// What the round machine knows: the state, the lucky level, the press waited on, and
/// how many readings in a row brought nothing.
#[derive(Debug, Clone, Copy, PartialEq, Eq, Structural)]
pub struct RoundView {
    pub state: GameState,
    pub lucky_level: i32,
    pub pending: Option<PendingAction>,
    pub no_change: usize,
}

/// One more in the count of readings that brought nothing, held at its top.
pub open spec fn bump(n: usize) -> usize {
    if n < usize::MAX {
        (n + 1) as usize
    } else {
        n
    }
}

/// The state after no press is waited on any more, and the step taken.
pub open spec fn proceed(m: RoundView, current: int, shield_read: Option<i32>, timed_out: Option<Action>) -> (RoundView, RoundStep) {
    let s = synced(m.state, current, shield_read, m.lucky_level as int);
    (
        RoundView { state: s, ..m },
        RoundStep::Proceed {
            timed_out,
            synced_from: if current != m.state.pos { Some(m.state.pos) } else { None },
            finished: s.pos >= TARGET_POS,
        },
    )
}

/// The meter a boost pressed at `pos` first steps back to: 10m behind, never below 0m.
pub open spec fn rollback_pos(pos: int) -> int {
    if pos > 10 {
        pos - 10
    } else {
        0
    }
}

/// What a meter reading means. Unread: one more retry. With a press waited on: a
/// boost that shows its step back 10m (to 0m from 10m or less), a meter not above the
/// one it was pressed at, stays waited on; otherwise a
/// fall to 0m ends the round; a failed shield shows as the same meter with one shield
/// fewer; any gain settles the press; within the wait the press stays waited on, and
/// once the wait is over it is given up. With no press waited on (any more) the state
/// follows the meter.
pub open spec fn frame(m: RoundView, meter: Option<i32>, shield_read: Option<i32>, timed_out: bool) -> (RoundView, RoundStep) {
    match meter {
        None => (RoundView { no_change: bump(m.no_change), ..m }, RoundStep::MeterUnread { retries: bump(m.no_change) }),
        Some(cur) => match m.pending {
            None => proceed(m, cur as int, shield_read, None),
            Some(p) => {
                let b = p.before;
                if p.action == Action::Boost && cur <= b.pos && cur == rollback_pos(b.pos as int) {
                    (m, RoundStep::BoostRollback { before_pos: b.pos, current_pos: cur })
                } else if b.pos > 0 && cur == 0 {
                    (m, RoundStep::RoundOver { action: p.action })
                } else if p.action == Action::Shield && cur == b.pos
                    && shield_read == Some(pay(b, Action::Shield).shield) {
                    let s = pay(b, Action::Shield);
                    (RoundView { state: s, pending: None, ..m }, RoundStep::ShieldFailed { before: b, shield_left: s.shield })
                } else if cur > b.pos {
                    (
                        RoundView { state: settled(b, p.action, cur as int, m.lucky_level as int), pending: None, no_change: 0, ..m },
                        RoundStep::Settled { action: p.action, before_pos: b.pos, after_pos: cur, finished: cur >= TARGET_POS },
                    )
                } else if !timed_out {
                    (m, if cur == b.pos { RoundStep::AwaitingSameMeter { action: p.action } } else { RoundStep::Awaiting })
                } else {
                    proceed(RoundView { pending: None, ..m }, cur as int, shield_read, Some(p.action))
                }
            },
        },
    }
}

/// Moving the state to the meter `current` adds supplies that fit in `i32`.
pub open spec fn sync_fits(m: RoundView, current: int) -> bool {
    current != m.state.pos ==> progress_fits(m.state, m.state.pos as int, current, m.lucky_level as int)
}

/// The supplies a reading settles can be added in `i32`: those of the press settled,
/// or those of the meter the state is moved to.
pub open spec fn frame_fits(m: RoundView, meter: Option<i32>, shield_read: Option<i32>, timed_out: bool) -> bool {
    match meter {
        None => true,
        Some(cur) => match m.pending {
            None => sync_fits(m, cur as int),
            Some(p) => {
                let b = p.before;
                if p.action == Action::Boost && cur <= b.pos && cur == rollback_pos(b.pos as int) {
                    true
                } else if b.pos > 0 && cur == 0 {
                    true
                } else if p.action == Action::Shield && cur == b.pos
                    && shield_read == Some(pay(b, Action::Shield).shield) {
                    true
                } else if cur > b.pos {
                    progress_fits(pay(b, p.action), b.pos as int, cur as int, m.lucky_level as int)
                } else if !timed_out {
                    true
                } else {
                    sync_fits(m, cur as int)
                }
            },
        },
    }
}

/// The machine after a press of `action` ended with `outcome`: a confirmed press is
/// waited on; an unavailable skill is counted as spent; a retry counts as a reading
/// that brought nothing.
pub open spec fn after_tap(m: RoundView, action: Action, outcome: TapOutcome) -> RoundView {
    match outcome {
        TapOutcome::Confirmed => RoundView { pending: Some(PendingAction { action, before: m.state }), no_change: 0, ..m },
        TapOutcome::Unavailable => RoundView { state: drained(m.state, action), ..m },
        TapOutcome::Retry => RoundView { no_change: bump(m.no_change), ..m },
    }
}

/// The decisions of one round before 200m.
pub struct RoundMachine {
    state: GameState,
    lucky_level: i32,
    pending: Option<PendingAction>,
    no_change: usize,
}

impl View for RoundMachine {
    type V = RoundView;

    closed spec fn view(&self) -> RoundView {
        RoundView {
            state: self.state,
            lucky_level: self.lucky_level,
            pending: self.pending,
            no_change: self.no_change,
        }
    }
}

fn bump_exec(n: usize) -> (r: usize)
    ensures
        r == bump(n),
{
    if n < usize::MAX {
        n + 1
    } else {
        n
    }
}

impl RoundMachine {
    /// Starts a round in `state` at lucky level `lucky_level`.
    pub fn new(state: GameState, lucky_level: i32) -> (m: Self)
        ensures
            m@ == (RoundView { state, lucky_level, pending: None, no_change: 0 }),
    {
        RoundMachine { state, lucky_level, pending: None, no_change: 0 }
    }

    /// The current state.
    pub fn state(&self) -> (s: GameState)
        ensures
            s == self@.state,
    {
        self.state
    }

    /// The lucky level of the round.
    pub fn lucky_level(&self) -> (l: i32)
        ensures
            l == self@.lucky_level,
    {
        self.lucky_level
    }

    /// The press waited on, if any.
    pub fn pending(&self) -> (p: Option<PendingAction>)
        ensures
            p == self@.pending,
    {
        self.pending
    }

    /// How many readings in a row brought nothing.
    pub fn no_change(&self) -> (n: usize)
        ensures
            n == self@.no_change,
    {
        self.no_change
    }

    fn sync_ok(&self, current: i32) -> (r: bool)
        ensures
            r == sync_fits(self@, current as int),
    {
        current == self.state.pos || can_apply_progress(self.state, self.state.pos, current, self.lucky_level)
    }

    /// Returns whether the supplies the reading would settle can be added in `i32`.
    pub fn can_take_frame(&self, meter: Option<i32>, shield_read: Option<i32>, timed_out: bool) -> (r: bool)
        ensures
            r == frame_fits(self@, meter, shield_read, timed_out),
    {
        let cur = match meter {
            None => return true,
            Some(cur) => cur,
        };
        match self.pending {
            None => self.sync_ok(cur),
            Some(p) => {
                let b = p.before;
                let paid_shield = if b.shield > 1 { b.shield - 1 } else { 0 };
                if p.action == Action::Boost && cur <= b.pos && cur == (if b.pos > 10 { b.pos - 10 } else { 0 }) {
                    true
                } else if b.pos > 0 && cur == 0 {
                    true
                } else if p.action == Action::Shield && cur == b.pos && shield_read == Some(paid_shield) {
                    true
                } else if cur > b.pos {
                    let mut paid = b;
                    match p.action {
                        Action::Shield => paid.shield = paid_shield,
                        Action::Boost => paid.boost = if b.boost > 1 { b.boost - 1 } else { 0 },
                        Action::Lucky => paid.lucky = if b.lucky > 1 { b.lucky - 1 } else { 0 },
                        Action::Normal => {},
                    }
                    can_apply_progress(paid, b.pos, cur, self.lucky_level)
                } else if !timed_out {
                    true
                } else {
                    self.sync_ok(cur)
                }
            },
        }
    }

    fn sync(&mut self, current: i32, shield_read: Option<i32>)
        requires
            sync_fits(old(self)@, current as int),
        ensures
            final(self)@ == (RoundView { state: synced(old(self)@.state, current as int, shield_read, old(self)@.lucky_level as int), ..old(self)@ }),
    {
        if current != self.state.pos {
            let before = self.state.pos;
            let mut s = apply_progress(self.state, before, current, self.lucky_level);
            if let Some(v) = shield_read {
                s.shield = v;
            }
            self.state = s;
        }
    }

    fn proceed_with(&mut self, current: i32, shield_read: Option<i32>, timed_out: Option<Action>) -> (step: RoundStep)
        requires
            sync_fits(old(self)@, current as int),
        ensures
            (final(self)@, step) == proceed(old(self)@, current as int, shield_read, timed_out),
    {
        let before = self.state.pos;
        self.sync(current, shield_read);
        RoundStep::Proceed {
            timed_out,
            synced_from: if current != before { Some(before) } else { None },
            finished: self.state.pos >= TARGET_POS,
        }
    }

    /// Takes one meter reading (`None` when unread) with the shield count read beside
    /// it; `timed_out` tells whether the wait for the pending press is over.
    pub fn on_frame(&mut self, meter: Option<i32>, shield_read: Option<i32>, timed_out: bool) -> (step: RoundStep)
        requires
            frame_fits(old(self)@, meter, shield_read, timed_out),
        ensures
            (final(self)@, step) == frame(old(self)@, meter, shield_read, timed_out),
    {
        let cur = match meter {
            None => {
                self.no_change = bump_exec(self.no_change);
                return RoundStep::MeterUnread { retries: self.no_change };
            },
            Some(cur) => cur,
        };
        match self.pending {
            None => self.proceed_with(cur, shield_read, None),
            Some(p) => {
                let b = p.before;
                let paid_shield = if b.shield > 1 { b.shield - 1 } else { 0 };
                if p.action == Action::Boost && cur <= b.pos && cur == (if b.pos > 10 { b.pos - 10 } else { 0 }) {
                    RoundStep::BoostRollback { before_pos: b.pos, current_pos: cur }
                } else if b.pos > 0 && cur == 0 {
                    RoundStep::RoundOver { action: p.action }
                } else if p.action == Action::Shield && cur == b.pos && shield_read == Some(paid_shield) {
                    let mut s = b;
                    s.shield = paid_shield;
                    self.state = s;
                    self.pending = None;
                    RoundStep::ShieldFailed { before: b, shield_left: paid_shield }
                } else if cur > b.pos {
                    let s = settle_success(b, p.action, cur, self.lucky_level);
                    self.pending = None;
                    self.state = s;
                    self.no_change = 0;
                    RoundStep::Settled { action: p.action, before_pos: b.pos, after_pos: cur, finished: cur >= TARGET_POS }
                } else if !timed_out {
                    if cur == b.pos {
                        RoundStep::AwaitingSameMeter { action: p.action }
                    } else {
                        RoundStep::Awaiting
                    }
                } else {
                    self.pending = None;
                    self.proceed_with(cur, shield_read, Some(p.action))
                }
            },
        }
    }

    /// The press to make for the strategy's suggestion, and whether it had to be
    /// replaced by a normal run for want of the resource.
    pub fn pick_action(&self, suggestion: Option<Action>) -> (r: (Action, bool))
        ensures
            r == chosen_action(suggestion, self@.state),
    {
        let s = self.state;
        let a = match suggestion {
            Some(a) => a,
            None => if s.lucky > 0 {
                Action::Lucky
            } else if s.boost > 0 {
                Action::Boost
            } else {
                Action::Normal
            },
        };
        if has_resource(s, a) {
            (a, false)
        } else {
            (Action::Normal, true)
        }
    }

    /// Takes note of how a press of `action` ended.
    pub fn on_tap(&mut self, action: Action, outcome: TapOutcome)
        ensures
            final(self)@ == after_tap(old(self)@, action, outcome),
    {
        match outcome {
            TapOutcome::Confirmed => {
                self.pending = Some(PendingAction { action, before: self.state });
                self.no_change = 0;
            },
            TapOutcome::Unavailable => {
                let mut s = self.state;
                match action {
                    Action::Shield => s.shield = 0,
                    Action::Boost => s.boost = 0,
                    Action::Lucky => s.lucky = 0,
                    Action::Normal => {},
                }
                self.state = s;
            },
            TapOutcome::Retry => {
                self.no_change = bump_exec(self.no_change);
            },
        }
    }
}


/// The press made is always one the state can pay for, and a suggestion the state can
/// pay for is made as it is.
pub proof fn lemma_pick_is_affordable(suggestion: Option<Action>, s: GameState)
    ensures
        affordable(s, chosen_action(suggestion, s).0),
        suggestion matches Some(a) ==> (affordable(s, a) ==> chosen_action(suggestion, s) == (a, false)),
{
}

/// Paying for a press keeps the resources in range.
pub proof fn lemma_pay_keeps_range(s: GameState, a: Action, level: int)
    requires
        resources_in_range(s, level),
    ensures
        resources_in_range(pay(s, a), level),
        pay(s, a).pos == s.pos,
{
}

/// A round keeps its resources within the game's caps: from a state in range, with
/// shield counts read from the screen in range, every reading and every press leaves
/// the state, and the state a pending press was made in, in range.
pub proof fn lemma_round_keeps_range(
    m: RoundView,
    meter: Option<i32>,
    shield_read: Option<i32>,
    timed_out: bool,
    action: Action,
    outcome: TapOutcome,
)
    requires
        resources_in_range(m.state, m.lucky_level as int),
        m.pending matches Some(p) ==> resources_in_range(p.before, m.lucky_level as int),
        shield_read matches Some(v) ==> 0 <= v <= SHIELD_CAP,
    ensures
        resources_in_range(frame(m, meter, shield_read, timed_out).0.state, m.lucky_level as int),
        frame(m, meter, shield_read, timed_out).0.lucky_level == m.lucky_level,
        frame(m, meter, shield_read, timed_out).0.pending matches Some(p) ==> resources_in_range(p.before, m.lucky_level as int),
        resources_in_range(after_tap(m, action, outcome).state, m.lucky_level as int),
        after_tap(m, action, outcome).pending matches Some(p) ==> resources_in_range(p.before, m.lucky_level as int),
{
    let level = m.lucky_level as int;
    crate::rules::lemma_progress_keeps_range(m.state, m.state.pos as int, 0, level);
    if let Some(cur) = meter {
        crate::rules::lemma_progress_keeps_range(m.state, m.state.pos as int, cur as int, level);
        if let Some(p) = m.pending {
            lemma_pay_keeps_range(p.before, p.action, level);
            crate::rules::lemma_progress_keeps_range(pay(p.before, p.action), p.before.pos as int, cur as int, level);
        }
    }
}

/// Any gain settles the press waited on; a failed shield keeps the meter where it was
/// and costs exactly that shield; a settled press leaves the state at the meter seen;
/// while a press is still waited on (a boost's step back included) nothing changes,
/// and the end of a round changes nothing either.
pub proof fn lemma_frame_outcomes(m: RoundView, meter: Option<i32>, shield_read: Option<i32>, timed_out: bool)
    ensures
        m.pending is Some && m.pending->0.action == Action::Boost && meter is Some
            && meter->0 <= m.pending->0.before.pos
            && meter->0 == rollback_pos(m.pending->0.before.pos as int)
            ==> frame(m, meter, shield_read, timed_out) == (m, RoundStep::BoostRollback {
                before_pos: m.pending->0.before.pos,
                current_pos: meter->0,
            }),
        m.pending is Some && meter is Some && meter->0 > m.pending->0.before.pos
            ==> frame(m, meter, shield_read, timed_out).1 is Settled
                && frame(m, meter, shield_read, timed_out).0.pending is None,
        frame(m, meter, shield_read, timed_out).1 matches RoundStep::ShieldFailed { before, shield_left } ==> {
            &&& frame(m, meter, shield_read, timed_out).0.state.pos == before.pos
            &&& shield_left == (if before.shield > 1 { before.shield - 1 } else { 0 })
            &&& frame(m, meter, shield_read, timed_out).0.state.shield == shield_left
            &&& frame(m, meter, shield_read, timed_out).0.pending is None
        },
        frame(m, meter, shield_read, timed_out).1 matches RoundStep::Settled { action, after_pos, before_pos, finished } ==> {
            &&& m.pending is Some && action == m.pending->0.action && before_pos == m.pending->0.before.pos
            &&& meter == Some(after_pos)
            &&& frame(m, meter, shield_read, timed_out).0.state == settled(m.pending->0.before, action, after_pos as int, m.lucky_level as int)
            &&& frame(m, meter, shield_read, timed_out).0.state.pos == after_pos
            &&& after_pos > before_pos
            &&& (finished <==> after_pos >= TARGET_POS)
            &&& frame(m, meter, shield_read, timed_out).0.pending is None
        },
        (frame(m, meter, shield_read, timed_out).1 matches RoundStep::BoostRollback { .. }
            || frame(m, meter, shield_read, timed_out).1 matches RoundStep::AwaitingSameMeter { .. }
            || frame(m, meter, shield_read, timed_out).1 is Awaiting
            || frame(m, meter, shield_read, timed_out).1 matches RoundStep::RoundOver { .. })
            ==> frame(m, meter, shield_read, timed_out).0 == m && m.pending is Some,
        frame(m, meter, shield_read, timed_out).1 matches RoundStep::Proceed { .. } ==> (meter matches Some(cur)
            && frame(m, meter, shield_read, timed_out).0.state.pos == cur
            && frame(m, meter, shield_read, timed_out).0.pending is None),
{
}

/// A round whose states keep headroom never meets a reading whose supplies cannot be
/// added.
pub proof fn lemma_headroom_frame_fits(m: RoundView, meter: Option<i32>, shield_read: Option<i32>, timed_out: bool)
    requires
        has_headroom(m.state),
        m.pending matches Some(p) ==> has_headroom(p.before),
    ensures
        frame_fits(m, meter, shield_read, timed_out),
{
}

/// After 200m a boost is pressed at most once: whatever the presses end with, every
/// press after the first is a normal run, and there is one press per outcome.
pub proof fn lemma_post200_boost_once(first: bool, s: GameState, outcomes: Seq<Option<TapOutcome>>)
    ensures
        post200_presses(first, s, outcomes).len() == outcomes.len(),
        forall|i: int| 1 <= i < outcomes.len() ==> #[trigger] post200_presses(first, s, outcomes)[i] == Action::Normal,
    decreases outcomes.len(),
{
    if outcomes.len() > 0 {
        let next = post200_next(first, s, outcomes[0]);
        lemma_post200_normal_after_first(next.1, outcomes.drop_first());
        lemma_post200_boost_once(next.0, next.1, outcomes.drop_first());
        assert forall|i: int| 1 <= i < outcomes.len() implies #[trigger] post200_presses(first, s, outcomes)[i] == Action::Normal by {
            assert(post200_presses(first, s, outcomes)[i] == post200_presses(next.0, next.1, outcomes.drop_first())[i - 1]);
        }
    }
}

/// Once the first press after 200m is made, every press is a normal run.
proof fn lemma_post200_normal_after_first(s: GameState, outcomes: Seq<Option<TapOutcome>>)
    ensures
        post200_presses(false, s, outcomes).len() == outcomes.len(),
        forall|i: int| 0 <= i < outcomes.len() ==> #[trigger] post200_presses(false, s, outcomes)[i] == Action::Normal,
    decreases outcomes.len(),
{
    if outcomes.len() > 0 {
        let next = post200_next(false, s, outcomes[0]);
        lemma_post200_normal_after_first(next.1, outcomes.drop_first());
        assert forall|i: int| 0 <= i < outcomes.len() implies #[trigger] post200_presses(false, s, outcomes)[i] == Action::Normal by {
            if i > 0 {
                assert(post200_presses(false, s, outcomes)[i] == post200_presses(next.0, next.1, outcomes.drop_first())[i - 1]);
            }
        }
    }
}


/// A round from 0m starts with the shields read, one boost and the level's starting
/// lucky moves (not its cap), at 0m with no milestone granted.
pub proof fn lemma_round_start(shield: i32, level: int)
    ensures
        fresh_round(shield as int, level).pos == 0,
        fresh_round(shield as int, level).shield == shield,
        fresh_round(shield as int, level).boost == 1,
        fresh_round(shield as int, level).lucky == lucky_table(level).start,
        !fresh_round(shield as int, level).got100,
        !fresh_round(shield as int, level).got200,
        !fresh_round(shield as int, level).got_lucky_refill,
{
}

/// A settled press costs exactly what it spends: one of its resource, never going
/// below zero, and nothing of the others; on top of that only the supplies passed are
/// added. The state stands at the meter seen, and a milestone counts as granted once
/// the move has passed it. A lucky move spent on the way over the refill meter is given
/// back by the refill.
pub proof fn lemma_settle_pays(b: GameState, a: Action, d: int, level: int)
    requires
        i32::MIN <= d <= i32::MAX,
    ensures
        settled(b, a, d, level).pos == d,
        !(b.pos < 100 && d >= 100 && !b.got100) && !(b.pos < 200 && d >= 200 && !b.got200) ==> {
            &&& settled(b, a, d, level).shield == (if a == Action::Shield { max_int(b.shield - 1, 0) } else { b.shield as int })
            &&& settled(b, a, d, level).boost == (if a == Action::Boost { max_int(b.boost - 1, 0) } else { b.boost as int })
        },
        !(lucky_table(level).refill_meter > 0 && b.pos < lucky_table(level).refill_meter
            && d >= lucky_table(level).refill_meter && !b.got_lucky_refill)
            ==> settled(b, a, d, level).lucky == (if a == Action::Lucky { max_int(b.lucky - 1, 0) } else { b.lucky as int }),
        a == Action::Lucky && 1 <= b.lucky <= lucky_table(level).max
            && lucky_table(level).refill_meter > 0 && b.pos < lucky_table(level).refill_meter
            && d >= lucky_table(level).refill_meter && !b.got_lucky_refill
            ==> settled(b, a, d, level).lucky == b.lucky,
        settled(b, a, d, level).got100 <==> (b.got100 || (b.pos < 100 && d >= 100)),
        settled(b, a, d, level).got200 <==> (b.got200 || (b.pos < 200 && d >= 200)),
{
}

} // verus!
