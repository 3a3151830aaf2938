use rbm::daemon::{schedule_all, schedule_monitoring, start, tick, Channel, Scheduler,
    MILLIS_PER_MINUTE, TICK_MILLIS};
use rbm::dispatch::{evaluate, record, ProbeReply};
use rbm::types::{Monitor, MonitorType};

fn monitor(id: u64, frequency_min: u16) -> Monitor {
    Monitor {
        id,
        type_: MonitorType::Http,
        frequency_min,
        endpoint: format!("http://host-{}.example", id),
        max_latency_ms: None,
        expected_ip: None,
        minimum_expiration_time_d: None,
    }
}

fn ids(monitors: &[Monitor]) -> Vec<u64> {
    monitors.iter().map(|m| m.id).collect()
}

fn last_runs(scheduler: &Scheduler) -> Vec<u64> {
    (0..scheduler.len()).map(|i| scheduler.job(i).last_run).collect()
}

#[test]
fn a_new_scheduler_is_empty() {
    let mut scheduler = Scheduler::new();
    assert_eq!(scheduler.len(), 0);
    assert!(scheduler.run_pending(1_000_000).is_empty());
    assert!(scheduler.pending_order(1_000_000).is_empty());
}

#[test]
fn start_seeds_one_job_per_monitor() {
    let scheduler = start(vec![monitor(1, 5), monitor(2, 1), monitor(3, 10)], 1_000);
    assert_eq!(scheduler.len(), 3);
    assert_eq!(scheduler.job(0).monitor.id, 1);
    assert_eq!(scheduler.job(1).monitor.id, 2);
    assert_eq!(scheduler.job(2).monitor.id, 3);
    assert_eq!(last_runs(&scheduler), vec![1_000, 1_000, 1_000]);
}

#[test]
fn a_job_is_due_after_its_interval() {
    let scheduler = start(vec![monitor(1, 5)], 1_000);
    let job = scheduler.job(0);
    assert_eq!(job.due_at(), 301_000);
    assert!(!job.is_pending(1_000));
    assert!(!job.is_pending(300_999));
    assert!(job.is_pending(301_000));
    assert!(job.is_pending(u64::MAX));
}

#[test]
fn a_due_moment_beyond_the_clock_is_never_reached() {
    let scheduler = start(vec![monitor(1, 1)], u64::MAX);
    let job = scheduler.job(0);
    assert_eq!(job.due_at(), u64::MAX as u128 + 60_000);
    assert!(!job.is_pending(u64::MAX));
}

#[test]
fn the_first_check_waits_a_full_interval() {
    let mut scheduler = Scheduler::new();
    schedule_monitoring(monitor(1, 5), &mut scheduler, 10_000);
    assert!(scheduler.run_pending(10_000).is_empty());
    assert!(scheduler.run_pending(10_000 + 5 * MILLIS_PER_MINUTE - 1).is_empty());
    assert_eq!(last_runs(&scheduler), vec![10_000]);
    let due = scheduler.run_pending(10_000 + 5 * MILLIS_PER_MINUTE);
    assert_eq!(ids(&due), vec![1]);
    assert_eq!(last_runs(&scheduler), vec![310_000]);
}

#[test]
fn a_job_runs_again_one_interval_after_it_ran() {
    let mut scheduler = start(vec![monitor(1, 1)], 0);
    assert_eq!(ids(&scheduler.run_pending(60_000)), vec![1]);
    assert!(scheduler.run_pending(60_001).is_empty());
    assert!(scheduler.run_pending(119_999).is_empty());
    assert_eq!(ids(&scheduler.run_pending(120_000)), vec![1]);
}

#[test]
fn a_late_tick_lets_drift_accumulate() {
    let mut scheduler = start(vec![monitor(1, 1)], 0);
    assert_eq!(ids(&scheduler.run_pending(75_000)), vec![1]);
    assert!(scheduler.run_pending(120_000).is_empty());
    assert!(scheduler.run_pending(134_999).is_empty());
    assert_eq!(ids(&scheduler.run_pending(135_000)), vec![1]);
}

#[test]
fn due_jobs_run_in_the_order_they_became_due() {
    let mut scheduler = Scheduler::new();
    schedule_monitoring(monitor(1, 3), &mut scheduler, 0);
    schedule_monitoring(monitor(2, 1), &mut scheduler, 30_000);
    schedule_monitoring(monitor(3, 2), &mut scheduler, 0);
    schedule_monitoring(monitor(4, 10), &mut scheduler, 0);
    schedule_monitoring(monitor(5, 1), &mut scheduler, 60_000);
    assert_eq!(scheduler.pending_order(180_000), vec![1, 2, 4, 0]);
    let due = scheduler.run_pending(180_000);
    assert_eq!(ids(&due), vec![2, 3, 5, 1]);
    assert_eq!(last_runs(&scheduler), vec![180_000, 180_000, 180_000, 0, 180_000]);
}

#[test]
fn jobs_that_became_due_together_run_in_the_order_they_were_scheduled() {
    let mut scheduler = start(vec![monitor(1, 2), monitor(2, 1), monitor(3, 2), monitor(4, 1)], 0);
    assert_eq!(ids(&scheduler.run_pending(120_000)), vec![2, 4, 1, 3]);
    schedule_monitoring(monitor(5, 1), &mut scheduler, 120_000);
    assert_eq!(ids(&scheduler.run_pending(180_000)), vec![2, 4, 5]);
}

#[test]
fn a_zero_interval_is_due_at_every_tick() {
    let mut scheduler = start(vec![monitor(1, 0)], 500);
    assert_eq!(ids(&scheduler.run_pending(500)), vec![1]);
    assert_eq!(ids(&scheduler.run_pending(501)), vec![1]);
    assert!(scheduler.run_pending(400).is_empty());
}

#[test]
fn a_tick_schedules_arrivals_after_the_due_jobs_ran() {
    let mut scheduler = start(vec![monitor(1, 1)], 0);
    let due = tick(&mut scheduler, 60_000, vec![monitor(2, 0), monitor(3, 1)]);
    assert_eq!(ids(&due), vec![1]);
    assert_eq!(scheduler.len(), 3);
    assert_eq!(scheduler.job(1).monitor.id, 2);
    assert_eq!(scheduler.job(2).monitor.id, 3);
    assert_eq!(last_runs(&scheduler), vec![60_000, 60_000, 60_000]);
    let due = tick(&mut scheduler, 61_000, Vec::new());
    assert_eq!(ids(&due), vec![2]);
    let due = tick(&mut scheduler, 120_000, Vec::new());
    assert_eq!(ids(&due), vec![2, 1, 3]);
}

#[test]
fn schedule_all_keeps_the_order_of_arrival() {
    let mut scheduler = start(vec![monitor(9, 1)], 0);
    schedule_all(vec![monitor(3, 1), monitor(1, 1), monitor(2, 1)], &mut scheduler, 5);
    let order: Vec<u64> = (0..scheduler.len()).map(|i| scheduler.job(i).monitor.id).collect();
    assert_eq!(order, vec![9, 3, 1, 2]);
    assert_eq!(last_runs(&scheduler), vec![0, 5, 5, 5]);
}

#[test]
fn the_channel_hands_over_arrivals_in_order() {
    let mut channel = Channel::new();
    assert!(channel.drain().is_empty());
    channel.send(monitor(1, 1));
    channel.send(monitor(2, 1));
    assert_eq!(ids(&channel.drain()), vec![1, 2]);
    assert!(channel.drain().is_empty());
    channel.send(monitor(3, 1));
    assert_eq!(ids(&channel.drain()), vec![3]);
}

#[test]
fn a_failed_check_leaves_the_job_scheduled() {
    let mut scheduler = start(vec![monitor(1, 1)], 0);
    let due = scheduler.run_pending(60_000);
    let outcome = evaluate(&due[0], &ProbeReply::Http(Err(String::from("timed out"))));
    assert!(!outcome.succeed);
    let status = record(due[0].id, outcome, 30_000);
    assert_eq!(status.result, "Could not reach endpoint: timed out");
    assert_eq!(status.monitor_id, 1);
    assert_eq!(scheduler.len(), 1);
    assert_eq!(ids(&scheduler.run_pending(120_000)), vec![1]);
}

#[test]
fn a_registered_monitor_is_first_checked_at_the_tick_after_its_interval() {
    let mut scheduler = Scheduler::new();
    let mut channel = Channel::new();
    channel.send(monitor(1, 1));
    let mut now = 0;
    let mut first = None;
    while first.is_none() && now <= 2 * MILLIS_PER_MINUTE {
        let due = tick(&mut scheduler, now, channel.drain());
        if !due.is_empty() {
            first = Some(now);
        }
        now += TICK_MILLIS;
    }
    assert_eq!(TICK_MILLIS, 1_000);
    assert_eq!(first, Some(60_000));
}
