use rust_lt::injector::{
    build_at_once_schedule,
    build_constant_schedule,
    build_heaviside_schedule,
    build_ramp_up_schedule,
    InjectionSchedule,
    UserInjector,
};

#[test]
fn test_at_once_schedule() {
    let schedule = build_at_once_schedule(10);
    assert_eq!(schedule.total_users(), 10);
    assert!(schedule.injection_times.iter().all(|&t| t == 0));
    assert_eq!(schedule.duration, None);
}

#[test]
fn test_ramp_up_schedule() {
    let schedule = build_ramp_up_schedule(5, 10);
    assert_eq!(schedule.total_users(), 5);
    assert_eq!(schedule.duration, Some(10));
    assert_eq!(schedule.injection_times[0], 0);
    assert_eq!(schedule.injection_times[4], 10000);
}

#[test]
fn test_heaviside_schedule() {
    let schedule = build_heaviside_schedule(10, 5, 15);
    assert_eq!(schedule.total_users(), 10);
    assert_eq!(schedule.duration, Some(20));
    assert!(schedule.injection_times.iter().all(|&t| t <= 5000));
}

#[test]
fn test_constant_with_duration() {
    let schedule = build_constant_schedule(10, Some(20));
    assert_eq!(schedule.total_users(), 10);
    assert_eq!(schedule.duration, Some(20));
    assert_eq!(schedule.injection_times[0], 0);
    assert!(schedule.injection_times[9] >= 19998 && schedule.injection_times[9] <= 20000);
}

#[test]
fn test_constant_without_duration() {
    let schedule = build_constant_schedule(10, None);
    assert_eq!(schedule.total_users(), 10);
    assert_eq!(schedule.duration, None);
    assert!(schedule.injection_times.iter().all(|&t| t == 0));
}

#[test]
fn ramp_up_spreads_users_evenly() {
    let schedule = build_ramp_up_schedule(4, 3);
    assert_eq!(schedule.injection_times, vec![0, 1000, 2000, 3000]);
}

#[test]
fn ramp_up_single_user_starts_at_once() {
    let schedule = build_ramp_up_schedule(1, 30);
    assert_eq!(schedule.injection_times, vec![0]);
    assert_eq!(schedule.duration, Some(30));
}

#[test]
fn zero_users_give_empty_schedules() {
    assert_eq!(build_ramp_up_schedule(0, 10).total_users(), 0);
    assert_eq!(build_constant_schedule(0, Some(10)).total_users(), 0);
    assert_eq!(build_at_once_schedule(0).total_users(), 0);
}

#[test]
fn constant_schedule_rounds_interval_down() {
    let schedule = build_constant_schedule(4, Some(1));
    assert_eq!(schedule.injection_times, vec![0, 333, 666, 999]);
}

#[test]
fn schedule_sort_orders_times() {
    let mut schedule = InjectionSchedule::new();
    schedule.add(300);
    schedule.add(100);
    schedule.add(200);
    schedule.add(100);
    schedule.sort();
    assert_eq!(schedule.injection_times, vec![100, 100, 200, 300]);
    assert_eq!(schedule.total_users(), 4);
}

#[test]
fn injector_plans_waits_from_start_time() {
    let mut schedule = InjectionSchedule::new();
    schedule.add(0);
    schedule.add(100);
    schedule.add(200);
    let mut injector = UserInjector::new(schedule);
    // Before the start there is nothing to wait for.
    assert_eq!(injector.plan_at(1, 0).unwrap().delay_ms, 0);
    injector.start();

    let first = injector.plan_at(0, 0).unwrap();
    assert_eq!(first.user_id, 1);
    assert_eq!(first.delay_ms, 0);

    let second = injector.plan_at(1, 40).unwrap();
    assert_eq!(second.user_id, 2);
    assert_eq!(second.injection_time_ms, 100);
    assert_eq!(second.delay_ms, 60);

    let late = injector.plan_at(2, 500).unwrap();
    assert_eq!(late.delay_ms, 0);

    assert!(injector.plan_at(3, 500).is_none());
    assert_eq!(injector.total_users(), 3);
}

#[test]
fn started_injector_hands_out_every_user() {
    let mut schedule = InjectionSchedule::new();
    schedule.add(0);
    schedule.add(0);
    let mut injector = UserInjector::new(schedule);
    injector.start();
    assert!(injector.start_time.is_some());
    let n = injector.next_user(0).unwrap();
    assert_eq!(n.user_id, 1);
    assert_eq!(n.delay_ms, 0);
    assert!(injector.next_user(2).is_none());

    // Later users wait on the monotonic clock until their time.
    let mut spaced = InjectionSchedule::new();
    spaced.add(0);
    spaced.add(60_000);
    let mut later = UserInjector::new(spaced);
    later.start();
    let second = later.next_user(1).unwrap();
    assert!(second.delay_ms > 50_000 && second.delay_ms <= 60_000);
}
