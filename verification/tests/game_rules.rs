use lucky_sprint::model::{lucky_config, Action, GameState, LuckyLevelConfig};
use lucky_sprint::rules::{
    apply_progress, can_apply_progress, can_transition, probability, transition, TARGET_POS,
};

fn state(pos: i32, shield: i32, boost: i32, lucky: i32) -> GameState {
    GameState { pos, shield, boost, lucky, got100: false, got200: false, got_lucky_refill: false }
}

#[test]
fn lucky_levels_follow_the_table() {
    assert_eq!(lucky_config(0), LuckyLevelConfig { start: 0, max: 0, refill_meter: 0 });
    assert_eq!(lucky_config(1), LuckyLevelConfig { start: 1, max: 1, refill_meter: 200 });
    assert_eq!(lucky_config(2), LuckyLevelConfig { start: 1, max: 1, refill_meter: 180 });
    assert_eq!(lucky_config(3), LuckyLevelConfig { start: 1, max: 2, refill_meter: 180 });
    assert_eq!(lucky_config(4), LuckyLevelConfig { start: 1, max: 2, refill_meter: 150 });
    assert_eq!(lucky_config(5), LuckyLevelConfig { start: 2, max: 2, refill_meter: 150 });
    assert_eq!(lucky_config(9), lucky_config(5));
    assert_eq!(lucky_config(-1), lucky_config(5));
}

#[test]
fn manual_state_is_clamped_and_marks_passed_milestones() {
    let s = GameState::manual(160, 9, -3, 7, 3);
    assert_eq!(s, GameState { pos: 160, shield: 4, boost: 0, lucky: 2, got100: true, got200: false, got_lucky_refill: false });
    let s = GameState::manual(190, 2, 1, 1, 4);
    assert!(s.got_lucky_refill);
    let s = GameState::manual(50, 1, 1, 5, 0);
    assert_eq!(s.lucky, 0);
    assert!(!s.got_lucky_refill);
}

#[test]
fn action_names_and_costs() {
    assert_eq!(Action::Normal.key(), "normal");
    assert_eq!(Action::Shield.key(), "shield");
    assert_eq!(Action::Boost.key(), "boost");
    assert_eq!(Action::Lucky.key(), "lucky");
    assert_eq!(Action::Normal.display(), "普通奔跑");
    assert_eq!(Action::Shield.display(), "防护");
    assert_eq!(Action::Boost.display(), "助跑");
    assert_eq!(Action::Lucky.display(), "超级幸运");
    assert_eq!(Action::Lucky.cost(), 3);
    assert_eq!(Action::Boost.cost(), 1);
}

#[test]
fn chance_table() {
    assert_eq!(probability(0), Some(100));
    assert_eq!(probability(90), Some(60));
    assert_eq!(probability(100), Some(75));
    assert_eq!(probability(190), Some(45));
    assert_eq!(probability(200), None);
    assert_eq!(probability(15), None);
    assert_eq!(probability(-10), None);
}

#[test]
fn progress_grants_milestones_once() {
    let s = state(90, 3, 2, 0);
    let a = apply_progress(s, 90, 100, 5);
    assert_eq!(a, GameState { pos: 100, shield: 4, boost: 2, lucky: 0, got100: true, got200: false, got_lucky_refill: false });
    let b = apply_progress(a, 90, 100, 5);
    assert_eq!(b, a);
    let c = apply_progress(state(140, 0, 0, 1), 140, 170, 5);
    assert_eq!(c.lucky, 2);
    assert!(c.got_lucky_refill);
    let d = apply_progress(state(190, 0, 0, 0), 190, 220, 1);
    assert_eq!(d, GameState { pos: 220, shield: 2, boost: 1, lucky: 1, got100: false, got200: true, got_lucky_refill: true });
}

#[test]
fn progress_in_steps_equals_progress_at_once() {
    let s = state(80, 1, 0, 0);
    let once = apply_progress(s, 80, 210, 3);
    let mid = apply_progress(s, 80, 150, 3);
    let twice = apply_progress(mid, 150, 210, 3);
    assert_eq!(once, twice);
    assert_eq!(once.shield, 4);
    assert_eq!(once.boost, 2);
}

#[test]
fn transitions() {
    assert_eq!(transition(state(200, 1, 1, 1), Action::Normal, 5), None);
    assert_eq!(TARGET_POS, 200);
    let t = transition(state(90, 1, 1, 1), Action::Normal, 5).unwrap();
    assert_eq!(t.probability, 60);
    assert_eq!(t.success_pos, 100);
    assert_eq!(t.immediate_reward, 3);
    assert_eq!(t.success.unwrap().shield, 3);
    assert_eq!(t.failure, None);

    let t = transition(state(50, 2, 1, 1), Action::Shield, 5).unwrap();
    assert_eq!(t.failure, Some(state(50, 1, 1, 1)));
    assert_eq!(t.success.unwrap().pos, 60);
    assert_eq!(transition(state(0, 2, 1, 1), Action::Shield, 5), None);
    assert_eq!(transition(state(50, 0, 1, 1), Action::Shield, 5), None);

    let t = transition(state(20, 2, 1, 1), Action::Boost, 5).unwrap();
    assert_eq!(t.probability, 96);
    assert_eq!(t.success_pos, 50);
    assert_eq!(t.success.unwrap().boost, 0);

    let t = transition(state(180, 0, 0, 1), Action::Lucky, 5).unwrap();
    assert_eq!(t.probability, 100);
    assert_eq!(t.success, None);
    assert_eq!(t.success_pos, 210);
    assert_eq!(t.immediate_reward, 4);
    assert_eq!(transition(state(15, 1, 1, 1), Action::Normal, 5), None);
}

#[test]
fn supplies_are_checked_against_the_i32_limit() {
    // A move that passes no milestone never adds, whatever the counts.
    assert!(can_apply_progress(state(20, i32::MAX, i32::MAX, i32::MAX), 20, 30, 5));
    assert_eq!(apply_progress(state(20, i32::MAX, i32::MAX, i32::MAX), 20, 30, 5).shield, i32::MAX);
    // Passing 100m adds two shields and one boost.
    assert!(!can_apply_progress(state(90, i32::MAX - 1, 0, 0), 90, 100, 5));
    assert!(can_apply_progress(state(90, i32::MAX - 2, 0, 0), 90, 100, 5));
    assert!(!can_apply_progress(state(90, 0, i32::MAX, 0), 90, 100, 5));
    // The refill meter adds one lucky move.
    assert!(!can_apply_progress(state(140, 0, 0, i32::MAX), 140, 150, 5));
    assert!(can_apply_progress(state(140, 0, 0, i32::MAX), 140, 150, 0));
    // A transition settles its success only below 200m.
    assert!(can_transition(state(180, 0, 0, i32::MAX), Action::Lucky, 5));
    assert!(!can_transition(state(90, i32::MAX, 0, 0), Action::Normal, 5));
    assert!(!can_transition(state(90, i32::MAX, 0, 0), Action::Shield, 5));
    assert!(can_transition(state(80, i32::MAX, 0, 0), Action::Normal, 5));
    assert!(can_transition(state(200, i32::MAX, i32::MAX, i32::MAX), Action::Normal, 5));
}
