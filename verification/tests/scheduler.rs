use dead_split::scheduler::{PluginScheduler, SchedulerPhase, TickDecision, TickSchedule};

#[test]
fn on_time_ticks_are_spaced_by_the_interval() {
    let mut s = TickSchedule::new(1_000, 250);
    // Each update completes instantly at its wake-up time.
    let mut wake = 1_000u64;
    for _ in 0..5 {
        let sleep = s.advance(wake);
        assert_eq!(sleep, 250);
        let next = s.next_tick;
        assert_eq!(next, wake + 250);
        wake = next;
    }
}

#[test]
fn slow_but_on_time_update_keeps_spacing() {
    let mut s = TickSchedule::new(0, 100);
    // The update takes 60 ms: still before the deadline, so the next tick
    // fires exactly one interval after the previous one.
    let sleep = s.advance(60);
    assert_eq!(sleep, 40);
    assert_eq!(s.next_tick, 100);
}

#[test]
fn clock_jump_fires_immediately_once_then_recovers() {
    let mut s = TickSchedule::new(0, 100);
    // Tick at 0; the machine then sleeps through 500 ms (a suspend).  The
    // deadline 100 is long gone: the next tick fires immediately at 500,
    // with no catch-up burst.
    let sleep = s.advance(500);
    assert_eq!(sleep, 0);
    assert_eq!(s.next_tick, 500);
    // Back on time afterwards: spacing returns to one interval.
    let sleep = s.advance(500);
    assert_eq!(sleep, 100);
    assert_eq!(s.next_tick, 600);
}

#[test]
fn interrupt_stops_the_loop_without_further_updates() {
    let mut sched = PluginScheduler::start(0, 100);
    assert_eq!(sched.phase, SchedulerPhase::Running);
    assert_eq!(sched.poll(), TickDecision::RunUpdate);
    let sleep = sched.after_update(0);
    assert_eq!(sleep, 100);
    sched.interrupt();
    assert_eq!(sched.phase, SchedulerPhase::Interrupted);
    // The very next poll observes the request and exits; no update runs.
    assert_eq!(sched.poll(), TickDecision::Exit);
    assert_eq!(sched.phase, SchedulerPhase::Stopped);
    // Further polls keep exiting.
    assert_eq!(sched.poll(), TickDecision::Exit);
    assert_eq!(sched.phase, SchedulerPhase::Stopped);
}

#[test]
fn hundred_ms_interval_gives_about_nine_updates_in_950_ms() {
    // A plugin with a 100 ms interval, instant updates, no clock trouble.
    let mut sched = PluginScheduler::start(0, 100);
    let mut now = 0u64;
    let mut updates = 0u64;
    loop {
        if now > 950 {
            break;
        }
        match sched.poll() {
            TickDecision::RunUpdate => updates += 1,
            TickDecision::Exit => break,
        }
        let sleep = sched.after_update(now);
        now += sleep;
    }
    // Ticks at 0, 100, ..., 900: within one of nine updates.
    assert!(updates >= 9 && updates <= 10, "got {updates} updates");
}
