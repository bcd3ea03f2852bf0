use caribou::batch::Batch;
use caribou::dispatch::{DelayedTask, Dispatcher, Job, ScheduleFlow, Scheduler};
use caribou::window::{BackendMessage, DispatchMessage, Handshake};

fn run(job: Option<(Job<&'static str>, bool)>) -> (Option<&'static str>, bool) {
    match job {
        Some((Job::Run(task), more)) => (Some(task), more),
        Some((Job::Idle, more)) => (None, more),
        None => panic!("nothing queued"),
    }
}

#[test]
fn jobs_leave_in_the_order_they_came() {
    let mut d: Dispatcher<&'static str> = Dispatcher::launch(2);
    assert_eq!(d.workers(), 2);
    assert!(d.is_running(0));
    assert!(d.is_running(1));
    assert!(!d.is_running(2));
    assert!(d.pop().is_none());
    assert!(d.push("a"));
    assert!(d.push("b"));
    assert!(d.push("c"));
    assert_eq!(run(d.pop()), (Some("a"), true));
    assert_eq!(run(d.pop()), (Some("b"), true));
    assert_eq!(run(d.pop()), (Some("c"), false));
    assert!(d.pop().is_none());
}

#[test]
fn shutdown_stops_every_worker_and_wakes_each_once() {
    let mut d: Dispatcher<&'static str> = Dispatcher::launch(3);
    d.push("last");
    d.shutdown();
    assert!(!d.is_running(0));
    assert!(!d.is_running(1));
    assert!(!d.is_running(2));
    assert_eq!(run(d.pop()), (Some("last"), true));
    assert_eq!(run(d.pop()), (None, true));
    assert_eq!(run(d.pop()), (None, true));
    assert_eq!(run(d.pop()), (None, false));
    assert!(d.pop().is_none());
}

#[test]
fn a_dispatcher_without_workers() {
    let mut d: Dispatcher<u8> = Dispatcher::launch(0);
    assert_eq!(d.workers(), 0);
    d.shutdown();
    assert!(d.pop().is_none());
}

#[test]
fn a_delayed_task_is_ready_once_its_delay_has_passed() {
    let t = DelayedTask::new("t", 10, 100);
    assert_eq!(t.task, "t");
    assert_eq!(t.deploy_instant, 100);
    assert_eq!(t.delay, 10);
    assert!(!t.is_ready(100));
    assert!(!t.is_ready(109));
    assert!(t.is_ready(110));
    assert!(t.is_ready(u64::MAX));
    // A clock that reads earlier than the deployment counts as no time passed.
    assert!(!t.is_ready(5));
    assert!(DelayedTask::new("now", 0, 100).is_ready(100));
    assert!(DelayedTask::new("now", 0, 100).is_ready(5));
}

#[test]
fn the_scheduler_promotes_what_is_due_in_deployment_order() {
    let mut d: Dispatcher<&'static str> = Dispatcher::launch(1);
    let mut s: Scheduler<&'static str> = Scheduler::launch();
    assert!(s.is_running());
    d.push("queued");
    s.deploy("slow", 50, 0);
    s.deploy("fast", 5, 0);
    s.deploy("medium", 20, 0);
    s.deploy("instant", 0, 0);
    assert_eq!(s.promote(0, &mut d), 1);
    assert_eq!(s.promote(4, &mut d), 0);
    assert_eq!(s.promote(20, &mut d), 2);
    assert_eq!(s.promote(49, &mut d), 0);
    assert_eq!(s.promote(1000, &mut d), 1);
    assert_eq!(s.promote(1000, &mut d), 0);
    let mut order = Vec::new();
    while let Some((job, _)) = d.pop() {
        match job {
            Job::Run(task) => order.push(task),
            Job::Idle => order.push("idle"),
        }
    }
    assert_eq!(order, vec!["queued", "instant", "fast", "medium", "slow"]);
}

#[test]
fn shutdown_leaves_the_tasks_of_the_scheduler() {
    let mut d: Dispatcher<u8> = Dispatcher::launch(1);
    let mut s: Scheduler<u8> = Scheduler::launch();
    s.deploy(1, 0, 0);
    s.shutdown();
    assert!(!s.is_running());
    assert_eq!(s.promote(0, &mut d), 1);
}

#[test]
fn a_dynamic_task_runs_again_while_it_asks_to() {
    let mut d: Dispatcher<&'static str> = Dispatcher::launch(1);
    let mut s: Scheduler<&'static str> = Scheduler::launch();
    assert!(s.deploy_dynamic("tick", ScheduleFlow::Continue(7), 100));
    assert_eq!(s.promote(106, &mut d), 0);
    assert_eq!(s.promote(107, &mut d), 1);
    assert!(!s.deploy_dynamic("tick", ScheduleFlow::Break, 107));
    assert_eq!(s.promote(u64::MAX, &mut d), 0);
}

#[test]
fn a_repeating_task_counts_down_to_one() {
    let mut d: Dispatcher<&'static str> = Dispatcher::launch(1);
    let mut s: Scheduler<&'static str> = Scheduler::launch();
    assert_eq!(s.deploy_repeat(3, 10, "beat", 0), Some(2));
    assert_eq!(s.deploy_repeat(2, 10, "beat", 10), Some(1));
    assert_eq!(s.deploy_repeat(1, 10, "beat", 20), None);
    assert_eq!(s.deploy_repeat(0, 10, "beat", 20), None);
    assert_eq!(s.promote(9, &mut d), 0);
    assert_eq!(s.promote(10, &mut d), 1);
    assert_eq!(s.promote(20, &mut d), 1);
    assert_eq!(s.promote(30, &mut d), 0);
}

#[test]
fn the_handshake_keeps_two_mailboxes() {
    let mut h = Handshake::create();
    assert_eq!(h.next_for_dispatch(), None);
    assert!(h.next_for_backend().is_none());
    h.notify_dispatch(DispatchMessage::BackendInitialized);
    h.notify_dispatch(DispatchMessage::RequestRedraw);
    h.notify_backend(BackendMessage::PerformRedraw(Batch::new()));
    assert_eq!(h.next_for_dispatch(), Some(DispatchMessage::BackendInitialized));
    assert_eq!(h.next_for_dispatch(), Some(DispatchMessage::RequestRedraw));
    assert_eq!(h.next_for_dispatch(), None);
    match h.next_for_backend() {
        Some(BackendMessage::PerformRedraw(batch)) => assert_eq!(batch.data().len(), 0),
        None => panic!("no message"),
    }
    assert!(h.next_for_backend().is_none());
}
