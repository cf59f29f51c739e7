use diagnostics::history::{History, HISTORY_LEN};
use diagnostics::metrics::{AgentCounts, MemorySample, PressureBand};
use diagnostics::plugin::Thresholds;
use diagnostics::worker::{
    sample_counts, Action, CountsStep, Event, Reading, StorageEvent, Worker, REFRESH_SECS,
};
use serde_json::Value;

fn thresholds() -> Thresholds {
    Thresholds { warn: Value::from(0.7), critical: Value::from(0.9) }
}

fn reading(fraction: f64) -> Reading {
    Reading {
        memory: MemorySample {
            total_bytes: 1000,
            used_bytes: (fraction * 1000.0) as u64,
            used_percent: (fraction * 100.0).round() as u32,
            band: PressureBand::Normal,
        },
        fraction: Value::from(fraction),
    }
}

fn started() -> Worker<u8> {
    let (worker, action) = Worker::start("main".to_string(), thresholds());
    assert!(matches!(action, Action::SampleMemory));
    worker
}

fn line_of(action: Option<Action>) -> Value {
    match action {
        Some(Action::Write(line)) => serde_json::from_str(&line).unwrap(),
        _ => panic!("no line"),
    }
}

/// One tick on a worker that has its storage open.
fn tick(worker: Worker<u8>, fraction: f64, loaded: Option<AgentCounts>) -> (Worker<u8>, Value) {
    let (worker, action) = worker.step(Event::Sampled(reading(fraction)));
    assert!(matches!(action, Some(Action::LoadSessions)));
    let (worker, action) = worker.step(Event::Loaded(loaded));
    let line = line_of(action);
    let (worker, action) = worker.step(Event::Written(true));
    assert!(matches!(action, Some(Action::Rest(REFRESH_SECS))));
    let (worker, action) = worker.step(Event::Rested);
    assert!(matches!(action, Some(Action::SampleMemory)));
    (worker, line)
}

/// The first tick, which opens the storage.
fn opened() -> (Worker<u8>, Value) {
    let (worker, action) = started().step(Event::Sampled(reading(0.25)));
    assert!(matches!(action, Some(Action::OpenStorage(profile)) if profile == "main"));
    let (worker, action) = worker.step(Event::Opened(Some(7)));
    assert!(matches!(action, Some(Action::LoadSessions)));
    assert_eq!(worker.storage(), Some(&7));
    let (worker, action) = worker.step(Event::Loaded(Some(AgentCounts { agents: 2, procs: 9 })));
    let line = line_of(action);
    let (worker, _) = worker.step(Event::Written(true));
    let (worker, _) = worker.step(Event::Rested);
    (worker, line)
}

#[test]
fn worker_emits_home_pane_sparkline() {
    let (_, msg) = opened();
    assert_eq!(msg["method"], "ui.state.set");
    assert_eq!(msg["params"]["slot"], "home-pane");
    assert_eq!(msg["params"]["id"], "memory");
    let blocks = msg["params"]["payload"]["blocks"].as_array().expect("payload carries blocks");
    assert_eq!(blocks[0]["kind"], "sparkline");
    assert_eq!(blocks[0]["values"], Value::from(vec![0.25]));
    assert!(blocks.iter().any(|b| b["label"] == "agents" && b["value"] == "2"));
    assert!(blocks.iter().any(|b| b["label"] == "processes" && b["value"] == "9"));
}

#[test]
fn storage_is_opened_once_and_loaded_each_tick() {
    let (mut worker, _) = opened();
    for _ in 0..3 {
        let (next, line) = tick(worker, 0.5, Some(AgentCounts { agents: 1, procs: 4 }));
        assert_eq!(line["params"]["payload"]["blocks"][1]["value"], "1");
        assert_eq!(next.storage(), Some(&7));
        worker = next;
    }
}

#[test]
fn storage_that_cannot_be_opened_is_tried_again() {
    let mut worker = started();
    for _ in 0..2 {
        let (next, action) = worker.step(Event::Sampled(reading(0.5)));
        assert!(matches!(action, Some(Action::OpenStorage(_))));
        let (next, action) = next.step(Event::Opened(None));
        let line = line_of(action);
        assert_eq!(line["params"]["payload"]["blocks"][1]["value"], "0");
        assert_eq!(line["params"]["payload"]["blocks"][2]["value"], "0");
        assert_eq!(next.storage(), None);
        let (next, _) = next.step(Event::Written(true));
        let (next, _) = next.step(Event::Rested);
        worker = next;
    }
}

#[test]
fn sessions_that_cannot_be_loaded_count_as_none() {
    let (worker, _) = opened();
    let (_, line) = tick(worker, 0.5, None);
    assert_eq!(line["params"]["payload"]["blocks"][1]["value"], "0");
    assert_eq!(line["params"]["payload"]["blocks"][2]["value"], "0");
}

#[test]
fn plot_keeps_the_newest_samples() {
    let (mut worker, _) = opened();
    for i in 0..HISTORY_LEN + 5 {
        let (next, line) = tick(worker, i as f64 / 1000.0, None);
        let values = line["params"]["payload"]["blocks"][0]["values"].as_array().unwrap().clone();
        // The first tick's sample stands before these while there is room.
        assert_eq!(values.len(), (i + 2).min(HISTORY_LEN));
        assert_eq!(values[values.len() - 1], i as f64 / 1000.0);
        if i + 1 >= HISTORY_LEN {
            assert_eq!(values[0], (i + 1 - HISTORY_LEN) as f64 / 1000.0);
        }
        worker = next;
    }
}

#[test]
fn closed_pipe_ends_the_worker() {
    let (worker, action) = started().step(Event::Sampled(reading(0.5)));
    assert!(matches!(action, Some(Action::OpenStorage(_))));
    let (worker, action) = worker.step(Event::Opened(None));
    assert!(matches!(action, Some(Action::Write(_))));
    let (worker, action) = worker.step(Event::Written(false));
    assert!(matches!(action, Some(Action::Exit)));
    let (worker, action) = worker.step(Event::Rested);
    assert!(action.is_none());
    let (_, action) = worker.step(Event::Sampled(reading(0.5)));
    assert!(action.is_none());
}

#[test]
fn event_of_another_action_changes_nothing() {
    let (worker, action) = started().step(Event::Written(true));
    assert!(action.is_none());
    let (worker, action) = worker.step(Event::Loaded(None));
    assert!(action.is_none());
    let (worker, action) = worker.step(Event::Opened(Some(3)));
    assert!(action.is_none());
    assert_eq!(worker.storage(), None);
    let (worker, action) = worker.step(Event::Sampled(reading(0.5)));
    assert!(matches!(action, Some(Action::OpenStorage(_))));
    let (_, action) = worker.step(Event::Sampled(reading(0.6)));
    assert!(action.is_none());
}

#[test]
fn counting_steps() {
    let mut storage: Option<u8> = None;
    assert!(matches!(sample_counts(&mut storage, "p", StorageEvent::Due), CountsStep::Open(p) if p == "p"));
    assert!(matches!(
        sample_counts(&mut storage, "p", StorageEvent::Opened(None)),
        CountsStep::Counted(AgentCounts { agents: 0, procs: 0 })
    ));
    assert_eq!(storage, None);
    assert!(matches!(
        sample_counts(&mut storage, "p", StorageEvent::Loaded(Some(AgentCounts { agents: 1, procs: 1 }))),
        CountsStep::Counted(AgentCounts { agents: 0, procs: 0 })
    ));
    assert!(matches!(sample_counts(&mut storage, "p", StorageEvent::Opened(Some(1))), CountsStep::Load));
    assert_eq!(storage, Some(1));
    assert!(matches!(sample_counts(&mut storage, "p", StorageEvent::Opened(Some(2))), CountsStep::Load));
    assert_eq!(storage, Some(1));
    assert!(matches!(sample_counts(&mut storage, "p", StorageEvent::Due), CountsStep::Load));
    assert!(matches!(
        sample_counts(&mut storage, "p", StorageEvent::Loaded(Some(AgentCounts { agents: 3, procs: 24 }))),
        CountsStep::Counted(AgentCounts { agents: 3, procs: 24 })
    ));
    assert!(matches!(
        sample_counts(&mut storage, "p", StorageEvent::Loaded(None)),
        CountsStep::Counted(AgentCounts { agents: 0, procs: 0 })
    ));
}

#[test]
fn window_slides() {
    let mut history: History<usize> = History::new();
    assert!(history.samples().is_empty());
    for i in 0..3 * HISTORY_LEN {
        history.record(i);
        let shown = history.samples();
        assert_eq!(shown.len(), (i + 1).min(HISTORY_LEN));
        let first = i + 1 - shown.len();
        for (k, sample) in shown.iter().enumerate() {
            assert_eq!(*sample, first + k);
        }
    }
}
