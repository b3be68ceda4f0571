use time_driver::command::{load_command, TimerCommand};
use time_driver::driver::{Exhausted, TimeDriver, ALARM_COUNT, SENTINEL};

fn load(upper: u32, lower: u32, hart: usize) -> TimerCommand {
    TimerCommand::Load { upper, lower, hart }
}

#[test]
fn allocation_hands_out_ids_in_order_then_fails() {
    let mut d: TimeDriver<u32> = TimeDriver::new(ALARM_COUNT, 10);
    assert_eq!(d.allocate_alarm(0), Ok(0));
    assert_eq!(d.allocate_alarm(1), Ok(1));
    assert_eq!(d.allocate_alarm(2), Ok(2));
    assert_eq!(d.allocate_alarm(3), Ok(3));
    assert_eq!(d.allocate_alarm(0), Err(Exhausted));
    assert_eq!(d.allocate_alarm(1), Err(Exhausted));
}

#[test]
fn allocation_records_the_owning_core() {
    let mut d: TimeDriver<u32> = TimeDriver::new(2, 10);
    assert_eq!(d.allocate_alarm(3), Ok(0));
    assert_eq!(d.allocate_alarm(1), Ok(1));
    assert_eq!(d.owner(0), 3);
    assert_eq!(d.owner(1), 1);
}

#[test]
fn allocation_from_an_empty_table_fails() {
    let mut d: TimeDriver<u32> = TimeDriver::new(0, 10);
    assert_eq!(d.allocate_alarm(0), Err(Exhausted));
}

#[test]
fn fresh_slots_are_inactive() {
    let d: TimeDriver<u32> = TimeDriver::new(ALARM_COUNT, 10);
    for a in 0..ALARM_COUNT {
        assert_eq!(d.deadline(a), SENTINEL);
    }
    assert_eq!(d.armed_alarm(), None);
}

#[test]
fn past_deadline_is_refused_and_retired() {
    let mut d: TimeDriver<u32> = TimeDriver::new(ALARM_COUNT, 10);
    d.allocate_alarm(0).unwrap();
    assert_eq!(d.set_alarm(0, 40, 40), (false, TimerCommand::Keep));
    assert_eq!(d.deadline(0), SENTINEL);
    assert_eq!(d.set_alarm(0, 10, 40), (false, TimerCommand::Keep));
    assert_eq!(d.deadline(0), SENTINEL);
    assert_eq!(d.armed_alarm(), None);
}

#[test]
fn future_deadline_with_nothing_armed_loads_scaled_interval() {
    let mut d: TimeDriver<u32> = TimeDriver::new(ALARM_COUNT, 1000);
    d.allocate_alarm(2).unwrap();
    // 5_000_000 ticks * 1000 = 0x1_2A05_F200 countdown units
    assert_eq!(d.set_alarm(0, 5_000_100, 100), (true, load(1, 0x2A05_F200, 2)));
    assert_eq!(d.deadline(0), 5_000_100);
    assert_eq!(d.armed_alarm(), Some(0));
}

#[test]
fn later_deadline_than_armed_leaves_timer_alone() {
    let mut d: TimeDriver<u32> = TimeDriver::new(ALARM_COUNT, 10);
    d.allocate_alarm(0).unwrap();
    d.allocate_alarm(0).unwrap();
    assert_eq!(d.set_alarm(0, 100, 0), (true, load(0, 1000, 0)));
    assert_eq!(d.set_alarm(1, 300, 0), (true, TimerCommand::Keep));
    assert_eq!(d.deadline(1), 300);
    assert_eq!(d.armed_alarm(), Some(0));
}

#[test]
fn sentinel_deadline_is_stored_without_programming() {
    let mut d: TimeDriver<u32> = TimeDriver::new(ALARM_COUNT, 10);
    d.allocate_alarm(0).unwrap();
    assert_eq!(d.set_alarm(0, SENTINEL, 0), (true, TimerCommand::Keep));
    assert_eq!(d.armed_alarm(), None);
}

#[test]
fn trigger_runs_the_fired_callback_once_and_retires_the_slot() {
    let mut d: TimeDriver<u32> = TimeDriver::new(ALARM_COUNT, 10);
    d.allocate_alarm(0).unwrap();
    d.set_alarm_callback(0, 11);
    d.set_alarm_callback(0, 42);
    d.set_alarm(0, 50, 0);
    let out = d.trigger_alarm(50);
    assert_eq!(out.fired, Some(42));
    assert_eq!(d.deadline(0), SENTINEL);
    let again = d.trigger_alarm(60);
    assert_eq!(again.fired, None);
}

#[test]
fn trigger_without_callback_fires_nothing() {
    let mut d: TimeDriver<u32> = TimeDriver::new(ALARM_COUNT, 10);
    d.allocate_alarm(0).unwrap();
    d.set_alarm(0, 50, 0);
    let out = d.trigger_alarm(50);
    assert_eq!(out.fired, None);
    assert!(!out.pending);
}

#[test]
fn trigger_rearms_for_earliest_and_lowest_id_on_tie() {
    let mut d: TimeDriver<u32> = TimeDriver::new(ALARM_COUNT, 10);
    for h in 0..4usize {
        d.allocate_alarm(h).unwrap();
    }
    assert_eq!(d.set_alarm(0, 100, 0), (true, load(0, 1000, 0)));
    assert_eq!(d.set_alarm(3, 300, 0), (true, TimerCommand::Keep));
    assert_eq!(d.set_alarm(1, 300, 0), (true, TimerCommand::Keep));
    assert_eq!(d.set_alarm(2, 400, 0), (true, TimerCommand::Keep));
    let out = d.trigger_alarm(100);
    assert!(out.pending);
    assert_eq!(out.command, load(0, 2000, 1));
    assert_eq!(d.armed_alarm(), Some(1));
    let out = d.trigger_alarm(300);
    assert_eq!(out.command, load(0, 0, 3));
    assert_eq!(d.armed_alarm(), Some(3));
    let out = d.trigger_alarm(300);
    assert_eq!(out.command, load(0, 1000, 2));
    assert_eq!(d.armed_alarm(), Some(2));
}

#[test]
fn overdue_deadline_rearms_with_zero_interval() {
    let mut d: TimeDriver<u32> = TimeDriver::new(ALARM_COUNT, 10);
    d.allocate_alarm(0).unwrap();
    d.allocate_alarm(1).unwrap();
    d.set_alarm(0, 100, 0);
    d.set_alarm(1, 120, 0);
    let out = d.trigger_alarm(150);
    assert!(out.pending);
    assert_eq!(out.command, load(0, 0, 1));
}

#[test]
fn nothing_pending_stops_and_spurious_interrupt_arms_nothing() {
    let mut d: TimeDriver<u32> = TimeDriver::new(ALARM_COUNT, 10);
    d.allocate_alarm(0).unwrap();
    d.set_alarm_callback(0, 5);
    d.set_alarm(0, 100, 0);
    let out = d.trigger_alarm(100);
    assert_eq!(out.fired, Some(5));
    assert!(!out.pending);
    assert_eq!(out.command, TimerCommand::Stop);
    assert_eq!(d.armed_alarm(), None);
    let spurious = d.trigger_alarm(200);
    assert_eq!(spurious.fired, None);
    assert!(!spurious.pending);
    assert_eq!(spurious.command, TimerCommand::Stop);
    assert_eq!(d.armed_alarm(), None);
}

#[test]
fn single_alarm_fires_once_and_stops_the_timer() {
    let mut d: TimeDriver<u32> = TimeDriver::new(4, 10);
    assert_eq!(d.allocate_alarm(1), Ok(0));
    d.set_alarm_callback(0, 7);
    // diff = 60, load = 600
    assert_eq!(d.set_alarm(0, 100, 40), (true, load(0, 600, 1)));
    let out = d.trigger_alarm(100);
    assert_eq!(out.fired, Some(7));
    assert!(!out.pending);
    assert_eq!(out.command, TimerCommand::Stop);
}

#[test]
fn nearer_alarm_takes_over_then_earlier_one_is_rearmed() {
    let mut d: TimeDriver<u32> = TimeDriver::new(4, 10);
    assert_eq!(d.allocate_alarm(0), Ok(0));
    assert_eq!(d.allocate_alarm(1), Ok(1));
    d.set_alarm_callback(0, 100);
    d.set_alarm_callback(1, 200);
    assert_eq!(d.set_alarm(0, 500, 0), (true, load(0, 5000, 0)));
    assert_eq!(d.armed_alarm(), Some(0));
    assert_eq!(d.set_alarm(1, 200, 50), (true, load(0, 1500, 1)));
    assert_eq!(d.armed_alarm(), Some(1));
    let out = d.trigger_alarm(200);
    assert_eq!(out.fired, Some(200));
    assert!(out.pending);
    assert_eq!(out.command, load(0, 3000, 0));
    assert_eq!(d.armed_alarm(), Some(0));
    let out = d.trigger_alarm(500);
    assert_eq!(out.fired, Some(100));
    assert!(!out.pending);
}

#[test]
fn load_command_splits_halves_and_saturates() {
    assert_eq!(load_command(60, 10, 2), load(0, 600, 2));
    assert_eq!(load_command(1 << 32, 1, 0), load(1, 0, 0));
    assert_eq!(load_command(u64::MAX, 2, 3), load(u32::MAX, u32::MAX, 3));
    assert_eq!(load_command(0, 10, 0), load(0, 0, 0));
}

#[test]
fn moving_the_armed_alarm_later_rearms_for_the_earliest_pending() {
    let mut d: TimeDriver<u32> = TimeDriver::new(4, 10);
    d.allocate_alarm(0).unwrap();
    d.allocate_alarm(1).unwrap();
    assert_eq!(d.set_alarm(0, 100, 0), (true, load(0, 1000, 0)));
    assert_eq!(d.set_alarm(1, 200, 0), (true, TimerCommand::Keep));
    assert_eq!(d.set_alarm(0, 500, 0), (true, load(0, 2000, 1)));
    assert_eq!(d.armed_alarm(), Some(1));
    assert_eq!(d.deadline(0), 500);
}

#[test]
fn expired_armed_alarm_is_not_fired_again() {
    let mut d: TimeDriver<u32> = TimeDriver::new(4, 10);
    d.allocate_alarm(0).unwrap();
    d.set_alarm_callback(0, 9);
    assert_eq!(d.set_alarm(0, 100, 0), (true, load(0, 1000, 0)));
    assert_eq!(d.set_alarm(0, 10, 50), (false, TimerCommand::Stop));
    assert_eq!(d.deadline(0), SENTINEL);
    assert_eq!(d.armed_alarm(), None);
    let out = d.trigger_alarm(100);
    assert_eq!(out.fired, None);
    assert!(!out.pending);
}

#[test]
fn cancelling_the_armed_alarm_rearms_for_the_next() {
    let mut d: TimeDriver<u32> = TimeDriver::new(4, 10);
    d.allocate_alarm(0).unwrap();
    d.allocate_alarm(3).unwrap();
    d.set_alarm(0, 100, 0);
    d.set_alarm(1, 200, 0);
    assert_eq!(d.set_alarm(0, SENTINEL, 20), (true, load(0, 1800, 3)));
    assert_eq!(d.armed_alarm(), Some(1));
    assert_eq!(d.set_alarm(1, SENTINEL, 20), (true, TimerCommand::Stop));
    assert_eq!(d.armed_alarm(), None);
}

#[test]
fn expired_armed_alarm_hands_the_timer_to_the_next() {
    let mut d: TimeDriver<u32> = TimeDriver::new(4, 10);
    d.allocate_alarm(0).unwrap();
    d.allocate_alarm(1).unwrap();
    d.set_alarm(0, 100, 0);
    d.set_alarm(1, 200, 0);
    assert_eq!(d.set_alarm(0, 120, 150), (false, load(0, 500, 1)));
    assert_eq!(d.deadline(0), SENTINEL);
    assert_eq!(d.armed_alarm(), Some(1));
}

#[test]
fn armed_alarm_moved_behind_an_overdue_one_stays_pending() {
    let mut d: TimeDriver<u32> = TimeDriver::new(4, 10);
    d.allocate_alarm(0).unwrap();
    d.allocate_alarm(1).unwrap();
    d.set_alarm(0, 100, 0);
    d.set_alarm(1, 200, 0);
    assert_eq!(d.set_alarm(0, 300, 250), (true, load(0, 0, 1)));
    assert_eq!(d.deadline(0), 300);
    assert_eq!(d.armed_alarm(), Some(1));
}

#[test]
fn deadline_equal_to_the_armed_one_takes_the_timer() {
    let mut d: TimeDriver<u32> = TimeDriver::new(4, 10);
    d.allocate_alarm(0).unwrap();
    d.allocate_alarm(1).unwrap();
    d.allocate_alarm(2).unwrap();
    assert_eq!(d.set_alarm(1, 100, 0), (true, load(0, 1000, 1)));
    assert_eq!(d.set_alarm(2, 100, 0), (true, load(0, 1000, 2)));
    assert_eq!(d.armed_alarm(), Some(2));
    assert_eq!(d.set_alarm(0, 100, 40), (true, load(0, 600, 0)));
    assert_eq!(d.armed_alarm(), Some(0));
}

#[test]
fn past_deadline_equal_to_the_armed_one_is_refused() {
    let mut d: TimeDriver<u32> = TimeDriver::new(4, 10);
    d.allocate_alarm(0).unwrap();
    d.allocate_alarm(1).unwrap();
    assert_eq!(d.set_alarm(0, 100, 0), (true, load(0, 1000, 0)));
    assert_eq!(d.set_alarm(1, 100, 150), (false, TimerCommand::Keep));
    assert_eq!(d.deadline(1), SENTINEL);
    assert_eq!(d.deadline(0), 100);
    assert_eq!(d.armed_alarm(), Some(0));
}

#[test]
fn armed_alarm_moved_to_a_past_deadline_behind_another_is_refused() {
    let mut d: TimeDriver<u32> = TimeDriver::new(4, 10);
    d.allocate_alarm(0).unwrap();
    d.allocate_alarm(1).unwrap();
    d.set_alarm(0, 100, 0);
    d.set_alarm(1, 200, 0);
    assert_eq!(d.set_alarm(0, 240, 250), (false, load(0, 0, 1)));
    assert_eq!(d.deadline(0), SENTINEL);
    assert_eq!(d.armed_alarm(), Some(1));
}
