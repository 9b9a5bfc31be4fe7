use lucky_sprint::config::StrategyMode;
use lucky_sprint::events::{LogEntry, RuntimeStatus};
use lucky_sprint::model::{Action, GameState};
use lucky_sprint::runner::{
    has_resource, level_or_default, post200_action, post200_step, round_start_state, settle_success,
    PendingAction, RoundMachine, RoundStep, TapOutcome,
};

fn state(pos: i32, shield: i32, boost: i32, lucky: i32) -> GameState {
    GameState { pos, shield, boost, lucky, got100: false, got200: false, got_lucky_refill: false }
}

#[test]
fn round_start_and_level_default() {
    assert_eq!(level_or_default(None), 5);
    assert_eq!(level_or_default(Some(2)), 2);
    assert_eq!(round_start_state(3, 5), state(0, 3, 1, 2));
    assert_eq!(round_start_state(0, 0), state(0, 0, 1, 0));
}

#[test]
fn resources_and_settlement() {
    assert!(has_resource(state(0, 0, 0, 0), Action::Normal));
    assert!(!has_resource(state(0, 0, 1, 1), Action::Shield));
    assert!(has_resource(state(0, 1, 0, 0), Action::Shield));
    let s = settle_success(state(90, 2, 1, 1), Action::Boost, 120, 5);
    assert_eq!(s, GameState { pos: 120, shield: 4, boost: 1, lucky: 1, got100: true, got200: false, got_lucky_refill: false });
    let s = settle_success(state(10, 0, 0, 0), Action::Shield, 20, 5);
    assert_eq!(s.shield, 0);
    assert_eq!(post200_action(true, state(200, 0, 1, 0)), Action::Boost);
    assert_eq!(post200_action(true, state(200, 0, 0, 0)), Action::Normal);
    assert_eq!(post200_action(false, state(200, 0, 1, 0)), Action::Normal);
}

#[test]
fn a_confirmed_press_is_settled_by_the_meter() {
    let mut m = RoundMachine::new(state(0, 2, 1, 2), 5);
    assert_eq!(m.on_frame(Some(0), Some(2), false), RoundStep::Proceed { timed_out: None, synced_from: None, finished: false });
    let (a, downgraded) = m.pick_action(Some(Action::Normal));
    assert_eq!((a, downgraded), (Action::Normal, false));
    m.on_tap(a, TapOutcome::Confirmed);
    assert_eq!(m.pending(), Some(PendingAction { action: Action::Normal, before: state(0, 2, 1, 2) }));
    assert_eq!(m.on_frame(Some(0), Some(2), false), RoundStep::AwaitingSameMeter { action: Action::Normal });
    assert_eq!(m.on_frame(Some(10), Some(2), false), RoundStep::Settled { action: Action::Normal, before_pos: 0, after_pos: 10, finished: false });
    assert_eq!(m.state().pos, 10);
    assert_eq!(m.pending(), None);
}

#[test]
fn a_failed_shield_costs_the_shield_and_keeps_the_meter() {
    let mut m = RoundMachine::new(state(50, 2, 1, 2), 5);
    m.on_tap(Action::Shield, TapOutcome::Confirmed);
    let step = m.on_frame(Some(50), Some(1), false);
    assert_eq!(step, RoundStep::ShieldFailed { before: state(50, 2, 1, 2), shield_left: 1 });
    assert_eq!(m.state(), state(50, 1, 1, 2));
    assert_eq!(m.pending(), None);
}

#[test]
fn boost_rollback_zero_and_timeout() {
    let mut m = RoundMachine::new(state(50, 2, 1, 2), 5);
    m.on_tap(Action::Boost, TapOutcome::Confirmed);
    assert_eq!(m.on_frame(Some(40), None, false), RoundStep::BoostRollback { before_pos: 50, current_pos: 40 });
    assert_eq!(m.on_frame(Some(30), None, false), RoundStep::Awaiting);
    assert_eq!(m.on_frame(Some(0), None, false), RoundStep::RoundOver { action: Action::Boost });
    let step = m.on_frame(Some(30), Some(3), true);
    assert_eq!(step, RoundStep::Proceed { timed_out: Some(Action::Boost), synced_from: Some(50), finished: false });
    assert_eq!(m.state().pos, 30);
    assert_eq!(m.state().shield, 3);

    // A boost pressed at 10m steps back to 0m; that is the animation, not the end of
    // the round.
    let mut m = RoundMachine::new(state(10, 2, 1, 2), 5);
    m.on_tap(Action::Boost, TapOutcome::Confirmed);
    assert_eq!(m.on_frame(Some(0), None, false), RoundStep::BoostRollback { before_pos: 10, current_pos: 0 });
    assert_eq!(m.pending(), Some(PendingAction { action: Action::Boost, before: state(10, 2, 1, 2) }));
    assert_eq!(
        m.on_frame(Some(40), None, false),
        RoundStep::Settled { action: Action::Boost, before_pos: 10, after_pos: 40, finished: false }
    );
    assert_eq!(m.state(), state(40, 2, 0, 2));

    // A boost pressed below 0m and read at 0m has gained: it is settled.
    let mut m = RoundMachine::new(state(-10, 2, 1, 2), 5);
    m.on_tap(Action::Boost, TapOutcome::Confirmed);
    assert_eq!(
        m.on_frame(Some(0), None, false),
        RoundStep::Settled { action: Action::Boost, before_pos: -10, after_pos: 0, finished: false }
    );
    assert_eq!(m.pending(), None);

    // Any other press that falls back to 0m ends the round.
    let mut m = RoundMachine::new(state(10, 2, 1, 2), 5);
    m.on_tap(Action::Normal, TapOutcome::Confirmed);
    assert_eq!(m.on_frame(Some(0), None, false), RoundStep::RoundOver { action: Action::Normal });
}

#[test]
fn a_settlement_at_200m_finishes_the_round() {
    let mut m = RoundMachine::new(state(170, 1, 0, 1), 5);
    m.on_tap(Action::Lucky, TapOutcome::Confirmed);
    let step = m.on_frame(Some(200), Some(1), false);
    assert_eq!(step, RoundStep::Settled { action: Action::Lucky, before_pos: 170, after_pos: 200, finished: true });
    assert_eq!(m.state().pos, 200);
    assert!(m.state().got200);
    assert_eq!(m.state().shield, 3);
    assert_eq!(m.state().boost, 1);
}

#[test]
fn readings_whose_supplies_overflow_are_refused_beforehand() {
    let m = RoundMachine::new(state(90, i32::MAX - 1, 0, 0), 5);
    assert!(!m.can_take_frame(Some(100), None, false));
    assert!(m.can_take_frame(Some(90), None, false));
    assert!(m.can_take_frame(Some(95), None, false));
    assert!(m.can_take_frame(None, None, false));
    let mut m = RoundMachine::new(state(90, 2, 1, 2), 5);
    assert!(m.can_take_frame(Some(100), None, false));
    m.on_tap(Action::Normal, TapOutcome::Confirmed);
    assert!(m.can_take_frame(Some(100), None, false));
}

#[test]
fn after_200m_the_boost_is_tried_once() {
    let s = state(200, 0, 2, 0);
    assert_eq!(post200_step(true, s, Some(TapOutcome::Confirmed)), (false, state(200, 0, 1, 0)));
    assert_eq!(post200_step(true, s, Some(TapOutcome::Retry)), (false, s));
    assert_eq!(post200_step(true, s, Some(TapOutcome::Unavailable)), (false, s));
    assert_eq!(post200_step(true, state(200, 0, 0, 0), None), (false, state(200, 0, 0, 0)));
    assert_eq!(post200_step(false, s, Some(TapOutcome::Confirmed)), (false, s));
    let (first, after) = post200_step(true, s, Some(TapOutcome::Confirmed));
    assert_eq!(post200_action(first, after), Action::Normal);
}

#[test]
fn unread_meter_unavailable_skill_and_finish() {
    let mut m = RoundMachine::new(state(190, 0, 1, 0), 5);
    assert_eq!(m.on_frame(None, None, false), RoundStep::MeterUnread { retries: 1 });
    assert_eq!(m.on_frame(None, None, false), RoundStep::MeterUnread { retries: 2 });
    assert_eq!(m.pick_action(Some(Action::Lucky)), (Action::Normal, true));
    assert_eq!(m.pick_action(None), (Action::Boost, false));
    m.on_tap(Action::Boost, TapOutcome::Unavailable);
    assert_eq!(m.state().boost, 0);
    m.on_tap(Action::Normal, TapOutcome::Retry);
    assert_eq!(m.no_change(), 3);
    let step = m.on_frame(Some(200), Some(2), false);
    assert_eq!(step, RoundStep::Proceed { timed_out: None, synced_from: Some(190), finished: true });
    assert_eq!(m.state().shield, 2);
    assert!(m.state().got200);
}

#[test]
fn status_shows_the_round() {
    let mut s = RuntimeStatus::default();
    assert!(!s.running);
    assert_eq!(s.phase, "就绪");
    assert_eq!(s.strategy, StrategyMode::EquipmentScore);
    s.show_game(&state(30, 1, 1, 2), 4, "200m前决策", StrategyMode::Reward32Fixed);
    assert!(s.running);
    assert_eq!(s.pos, Some(30));
    assert_eq!(s.lucky_level, Some(4));
    assert_eq!(s.phase, "200m前决策");
    s.set_phase("200m后收尾");
    assert_eq!(s.phase, "200m后收尾");
    assert_eq!(s.strategy, StrategyMode::Reward32Fixed);
}

#[test]
fn log_entries_carry_the_level_in_upper_case() {
    let e = LogEntry::new("12:00:00.000".to_string(), "warn", "meter", "米数识别失败".to_string());
    assert_eq!(e.level, "WARN");
    assert_eq!(e.timestamp, "12:00:00.000");
    assert_eq!(e.scope, "meter");
    assert_eq!(e.message, "米数识别失败");
}
