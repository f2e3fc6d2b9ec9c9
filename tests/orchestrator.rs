use cpuload::load::{Load, LoadSpec};
use cpuload::orchestrator::{Action, Event, Orchestrator, Phase};
use cpuload::progress::Progress;

/// Drives one request with every worker starting and finishing, and returns
/// the burn durations handed out and the updates streamed.
fn drive(load: Load) -> (Vec<u64>, Vec<Progress>) {
    let mut o = Orchestrator::new(load);
    let mut started = Vec::new();
    let mut running = 0;
    loop {
        match o.next_action() {
            Action::StartWorker { duration_seconds } => {
                started.push(duration_seconds);
                running += 1;
                o.on_event(Event::WorkerStarted);
            }
            Action::AwaitWorker => {
                assert!(running > 0);
                running -= 1;
                o.on_event(Event::WorkerFinished);
            }
            Action::StreamProgress { .. } => break,
            Action::Abort => panic!("unexpected abort"),
        }
    }
    assert_eq!(running, 0);
    let mut e = o.progress_emitter().unwrap();
    let mut updates = Vec::new();
    while let Some(p) = e.next_update() {
        updates.push(p);
    }
    (started, updates)
}

#[test]
fn three_cpus_seven_seconds() {
    let (started, updates) = drive(Load { cpus: 3, time_seconds: 7 });
    assert_eq!(started, vec![7, 7, 7]);
    assert_eq!(
        updates,
        vec![
            Progress { spent_seconds: 5, total_seconds: 7 },
            Progress { spent_seconds: 7, total_seconds: 7 }
        ]
    );
}

#[test]
fn zero_request_runs_one_second_on_one_cpu() {
    let o = Orchestrator::new(Load { cpus: 0, time_seconds: 0 });
    assert_eq!(o.load_spec(), LoadSpec { cpu_count: 1, duration_seconds: 1 });
    let (started, updates) = drive(Load { cpus: 0, time_seconds: 0 });
    assert_eq!(started, vec![1]);
    assert_eq!(updates, vec![Progress { spent_seconds: 1, total_seconds: 1 }]);
}

#[test]
fn no_reporting_before_every_worker_finished() {
    let mut o = Orchestrator::new(Load { cpus: 2, time_seconds: 5 });
    assert_eq!(o.phase(), Phase::Launching);
    assert!(o.progress_emitter().is_none());
    o.on_event(Event::WorkerStarted);
    assert_eq!(o.next_action(), Action::StartWorker { duration_seconds: 5 });
    o.on_event(Event::WorkerFinished);
    assert_eq!(o.workers_finished(), 0);
    o.on_event(Event::WorkerStarted);
    assert_eq!(o.phase(), Phase::Burning);
    assert_eq!(o.workers_started(), 2);
    assert_eq!(o.next_action(), Action::AwaitWorker);
    o.on_event(Event::WorkerStarted);
    assert_eq!(o.workers_started(), 2);
    o.on_event(Event::WorkerFinished);
    assert_eq!(o.next_action(), Action::AwaitWorker);
    assert!(o.progress_emitter().is_none());
    o.on_event(Event::WorkerFinished);
    assert_eq!(o.phase(), Phase::Reporting);
    assert_eq!(o.next_action(), Action::StreamProgress { total_seconds: 5 });
    assert!(o.progress_emitter().is_some());
}

#[test]
fn failure_to_start_aborts_the_call() {
    let mut o = Orchestrator::new(Load { cpus: 4, time_seconds: 9 });
    o.on_event(Event::WorkerStarted);
    o.on_event(Event::WorkerFailedToStart);
    assert_eq!(o.phase(), Phase::Failed);
    assert_eq!(o.next_action(), Action::Abort);
    assert!(o.progress_emitter().is_none());
    o.on_event(Event::WorkerStarted);
    assert_eq!(o.next_action(), Action::Abort);
}

#[test]
fn concurrent_requests_do_not_interfere() {
    let mut a = Orchestrator::new(Load { cpus: 2, time_seconds: 5 });
    let mut b = Orchestrator::new(Load { cpus: 1, time_seconds: 10 });
    a.on_event(Event::WorkerStarted);
    b.on_event(Event::WorkerStarted);
    a.on_event(Event::WorkerStarted);
    b.on_event(Event::WorkerFinished);
    assert_eq!(b.phase(), Phase::Reporting);
    assert_eq!(a.phase(), Phase::Burning);
    let mut eb = b.progress_emitter().unwrap();
    assert_eq!(eb.next_update(), Some(Progress { spent_seconds: 5, total_seconds: 10 }));
    a.on_event(Event::WorkerFinished);
    a.on_event(Event::WorkerFinished);
    let mut ea = a.progress_emitter().unwrap();
    assert_eq!(ea.next_update(), Some(Progress { spent_seconds: 5, total_seconds: 5 }));
    assert_eq!(eb.next_update(), Some(Progress { spent_seconds: 10, total_seconds: 10 }));
    assert_eq!(ea.next_update(), None);
    assert_eq!(eb.next_update(), None);
}
