use lucky_sprint::model::{Action, GameState};
use lucky_sprint::strategy::{Fixed200Strategy, FixedPlan, SkipReason, StrategyNote};

fn state(pos: i32, shield: i32, boost: i32, lucky: i32) -> GameState {
    GameState { pos, shield, boost, lucky, got100: pos >= 100, got200: false, got_lucky_refill: false }
}

#[test]
fn route_from_zero_is_run_run_boost_shield_shield_lucky_shield_boost_lucky_lucky() {
    let mut f = Fixed200Strategy::from_pos(0);
    let positions = [0, 10, 20, 50, 60, 70, 100, 110, 140, 170];
    let mut taken = Vec::new();
    for (i, pos) in positions.iter().enumerate() {
        let a = f.get_action(state(*pos, 2, 1, 2)).unwrap();
        taken.push(a);
        let after = if i + 1 < positions.len() { positions[i + 1] } else { 200 };
        assert!(f.on_success(a, *pos, after).is_some());
    }
    assert_eq!(
        taken,
        vec![
            Action::Normal,
            Action::Normal,
            Action::Boost,
            Action::Shield,
            Action::Shield,
            Action::Lucky,
            Action::Shield,
            Action::Boost,
            Action::Lucky,
            Action::Lucky
        ]
    );
    assert_eq!(f.get_action(state(200, 0, 0, 0)), None);
}

#[test]
fn from_pos_aligns_to_the_last_reached_step() {
    assert_eq!(Fixed200Strategy::from_pos(0).plan().index, 0);
    assert_eq!(Fixed200Strategy::from_pos(55).plan(), FixedPlan { index: 3, delay_until: None, delaying: false, boosts: 1, shifted: false });
    assert_eq!(Fixed200Strategy::from_pos(120).plan().index, 7);
    assert_eq!(Fixed200Strategy::from_pos(300).plan().index, 9);
}

#[test]
fn missing_shield_is_skipped_with_a_detour() {
    let mut f = Fixed200Strategy::from_pos(50);
    assert_eq!(f.get_action(state(50, 0, 1, 2)), Some(Action::Normal));
    let p = f.plan();
    assert_eq!(p.index, 4);
    assert_eq!(p.delay_until, Some(60));
    assert!(p.shifted);
    let note = f.on_success(Action::Normal, 50, 60).unwrap();
    assert_eq!(note, StrategyNote::DelayDone { before: 50, after: 60, target: 60, next_step: 4 });
    assert_eq!(note.text(), "200米优先补位完成：50m -> 60m，达到 60m，继续 第5步 防护");
}

#[test]
fn detour_keeps_running_normally() {
    let mut f = Fixed200Strategy::from_pos(50);
    let n = f.on_shield_failure(50, 1);
    assert_eq!(n, StrategyNote::ShieldSkipped { reason: SkipReason::EarlyShieldFailed, skipped_step: 3, resume_at: 60, next_step: 4 });
    assert_eq!(n.text(), "200米优先：第4步 防护 防护失败，50/60m 前段保护位只尝试一次，跳过保护位（第4步 防护），普通跑到 60m 后继续 第5步 防护");
    assert_eq!(f.get_action(state(50, 1, 1, 2)), Some(Action::Normal));
    let n = f.on_success(Action::Normal, 50, 55).unwrap();
    assert_eq!(n.text(), "200米优先补位中：50m -> 55m");
}

#[test]
fn late_shield_failure_retries_in_place() {
    let mut f = Fixed200Strategy::from_pos(100);
    let n = f.on_shield_failure(100, 2);
    assert_eq!(n, StrategyNote::ShieldRetry { before: 100, step: 6, shield_left: 2 });
    assert_eq!(n.text(), "200米优先：100m 第7步 防护 防护失败，剩余保护=2，100m 后段保护位原地重试");
    assert_eq!(f.get_action(state(100, 2, 1, 1)), Some(Action::Shield));
    let n = f.on_shield_failure(100, 0);
    assert!(matches!(n, StrategyNote::ShieldSkipped { reason: SkipReason::ShieldsSpent, skipped_step: 6, resume_at: 110, next_step: 7 }));
}

#[test]
fn meter_sync_moves_forward_only_until_shifted() {
    let mut f = Fixed200Strategy::from_pos(0);
    let n = f.on_meter_sync(60).unwrap();
    assert_eq!(n, StrategyNote::MeterSynced { pos: 60, next_step: 2 });
    assert_eq!(n.text(), "200米优先米数同步：当前 60m，对齐到 第3步 助跑");
    assert_eq!(f.on_meter_sync(10), None);
    f.on_success(Action::Boost, 20, 50);
    assert_eq!(f.on_meter_sync(110).unwrap(), StrategyNote::MeterSynced { pos: 110, next_step: 7 });
    f.on_shield_failure(110, 0);
    assert_eq!(f.on_meter_sync(115), None);
    assert_eq!(f.on_meter_sync(120).unwrap().text(), "200米优先补位完成：当前 120m，继续 第8步 助跑");
    assert_eq!(f.on_meter_sync(170), None);
}

#[test]
fn past_the_route_uses_what_is_left() {
    let mut f = Fixed200Strategy::from_pos(170);
    f.on_success(Action::Lucky, 170, 200);
    assert_eq!(f.get_action(state(190, 0, 1, 1)), Some(Action::Lucky));
    assert_eq!(f.get_action(state(190, 0, 1, 0)), Some(Action::Boost));
    assert_eq!(f.get_action(state(190, 0, 0, 0)), Some(Action::Normal));
    let n = StrategyNote::RouteAdvanced { done: Action::Lucky, next_step: 10 };
    assert_eq!(n.text(), "200米优先路线推进：完成 超级幸运，下一步 固定路线已执行完");
}

#[test]
fn the_route_is_followed_at_off_nominal_meters_too() {
    // The plan follows presses, not meters: successes at odd meters still walk the route.
    let mut f = Fixed200Strategy::from_pos(0);
    let mut pos = 0;
    let mut taken = Vec::new();
    for _ in 0..12 {
        let a = f.get_action(state(pos, 1, 1, 1)).unwrap();
        taken.push(a);
        let p = f.plan();
        assert_eq!(p.delay_until, None);
        assert!(!p.delaying && !p.shifted);
        f.on_success(a, pos, pos + 5);
        pos += 5;
    }
    assert_eq!(
        taken,
        vec![
            Action::Normal, Action::Normal, Action::Boost, Action::Shield, Action::Shield, Action::Lucky,
            Action::Shield, Action::Boost, Action::Lucky, Action::Lucky, Action::Lucky, Action::Lucky,
        ]
    );
    assert_eq!(f.plan().index, 10);
    assert_eq!(f.get_action(state(pos, 1, 0, 0)), Some(Action::Normal));
    assert_eq!(f.get_action(state(pos, 1, 1, 0)), Some(Action::Boost));
}

#[test]
fn a_detour_target_is_set_exactly_while_detouring() {
    let mut f = Fixed200Strategy::from_pos(50);
    let mut index = f.plan().index;
    let check = |p: FixedPlan, index: &mut usize| {
        assert_eq!(p.delaying, p.delay_until.is_some());
        assert!(p.index >= *index && p.index <= 10);
        *index = p.index;
    };
    f.get_action(state(50, 0, 1, 2));
    check(f.plan(), &mut index);
    f.on_meter_sync(55);
    check(f.plan(), &mut index);
    f.on_success(Action::Normal, 50, 60);
    check(f.plan(), &mut index);
    f.on_shield_failure(60, 0);
    check(f.plan(), &mut index);
    f.on_meter_sync(80);
    check(f.plan(), &mut index);
    f.get_action(state(80, 1, 1, 2));
    check(f.plan(), &mut index);
    assert_eq!(f.plan().index, 5);
}
