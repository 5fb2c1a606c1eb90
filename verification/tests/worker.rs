use batch_convert::task::{Action, ConversionOutcome, FailureKind, Settings, StepOutcome};
use batch_convert::walk::SourceEntry;
use batch_convert::worker::Worker;

const OK: StepOutcome = StepOutcome::Succeeded;
const FAILED: StepOutcome = StepOutcome::Failed;

fn settings(delete_original: bool, fail_fast: bool) -> Settings {
    Settings { target: "png".to_string(), dest_dir: None, delete_original, fail_fast }
}

fn chunk(paths: &[&str]) -> Vec<SourceEntry> {
    paths.iter().map(|p| SourceEntry::new(p.to_string()).unwrap()).collect()
}

fn success(source: &str, destination: &str, original_removed: bool) -> ConversionOutcome {
    ConversionOutcome::Success {
        source: source.to_string(),
        destination: destination.to_string(),
        original_removed,
    }
}

fn failure(kind: FailureKind, path: &str) -> ConversionOutcome {
    ConversionOutcome::Failure { kind, path: path.to_string() }
}

/// Runs a worker to its end; `answer` says how each action ends.
fn run<'a>(
    mut worker: Worker<'a>,
    mut answer: impl FnMut(&Action) -> StepOutcome,
) -> (Worker<'a>, Vec<Action>) {
    let mut asked = Vec::new();
    while let Some(action) = worker.next_action() {
        let outcome = answer(&action);
        asked.push(action);
        worker = worker.on_result(outcome);
    }
    (worker, asked)
}

#[test]
fn a_worker_without_entries_has_stopped_at_once() {
    let settings = settings(false, false);
    let worker = Worker::new(Vec::new(), &settings);
    assert_eq!(worker.next_action(), None);
    assert!(worker.is_finished());
    assert!(!worker.is_halted());
    assert!(worker.progress().is_finished());
    assert_eq!(worker.progress().label(), "0/0 Done!");
    assert!(worker.outcomes().is_empty());
    let worker = worker.on_result(OK);
    assert!(worker.is_finished());
    assert!(worker.join().unwrap().is_empty());
}

#[test]
fn a_worker_takes_its_entries_in_their_order() {
    let settings = settings(false, false);
    let worker = Worker::new(chunk(&["in/c.jpg", "in/a.jpg", "in/b.jpg"]), &settings);
    assert_eq!(worker.entries().len(), 3);
    let (worker, asked) = run(worker, |_| OK);
    assert_eq!(
        asked,
        vec![
            Action::Open { path: "in/c.jpg".to_string() },
            Action::Decode,
            Action::Save { path: "in/c.png".to_string() },
            Action::Open { path: "in/a.jpg".to_string() },
            Action::Decode,
            Action::Save { path: "in/a.png".to_string() },
            Action::Open { path: "in/b.jpg".to_string() },
            Action::Decode,
            Action::Save { path: "in/b.png".to_string() },
        ]
    );
    assert!(worker.is_finished());
    assert!(!worker.is_halted());
    assert_eq!(
        worker.join().unwrap(),
        vec![
            success("in/c.jpg", "in/c.png", false),
            success("in/a.jpg", "in/a.png", false),
            success("in/b.jpg", "in/b.png", false),
        ]
    );
}

#[test]
fn a_worker_counts_each_entry_when_it_is_done_with_it() {
    let settings = settings(false, false);
    let mut worker = Worker::new(chunk(&["in/a.jpg", "in/b.jpg"]), &settings);
    assert_eq!(worker.progress().label(), "0/2 ");
    worker = worker.on_result(OK);
    worker = worker.on_result(OK);
    assert_eq!(worker.progress().completed_count(), 0);
    assert!(worker.outcomes().is_empty());
    worker = worker.on_result(OK);
    assert_eq!(worker.progress().label(), "1/2 a.jpg");
    assert_eq!(worker.outcomes().len(), 1);
    assert!(!worker.is_finished());
    worker = worker.on_result(OK);
    worker = worker.on_result(OK);
    assert_eq!(worker.progress().label(), "1/2 a.jpg");
    worker = worker.on_result(OK);
    assert_eq!(worker.progress().completed_count(), 2);
    assert_eq!(worker.progress().total_count(), 2);
    assert!(worker.progress().is_finished());
    assert_eq!(worker.progress().last_message(), "Done!");
    assert!(worker.is_finished());
}

#[test]
fn a_worker_deletes_a_source_right_after_its_copy_is_saved() {
    let settings = settings(true, false);
    let worker = Worker::new(chunk(&["in/a.jpg", "in/b.jpg"]), &settings);
    let (worker, asked) = run(worker, |_| OK);
    assert_eq!(
        asked,
        vec![
            Action::Open { path: "in/a.jpg".to_string() },
            Action::Decode,
            Action::Save { path: "in/a.png".to_string() },
            Action::Delete { path: "in/a.jpg".to_string() },
            Action::Open { path: "in/b.jpg".to_string() },
            Action::Decode,
            Action::Save { path: "in/b.png".to_string() },
            Action::Delete { path: "in/b.jpg".to_string() },
        ]
    );
    assert_eq!(
        worker.join().unwrap(),
        vec![success("in/a.jpg", "in/a.png", true), success("in/b.jpg", "in/b.png", true)]
    );
}

#[test]
fn a_worker_never_deletes_a_source_whose_copy_was_not_saved() {
    let paths = ["in/a.jpg", "in/b.jpg", "in/c.jpg"];
    for pattern in 0u32..4096 {
        for fail_fast in [false, true] {
            let settings = settings(true, fail_fast);
            let worker = Worker::new(chunk(&paths), &settings);
            let mut round = 0;
            let mut saved: Vec<String> = Vec::new();
            let mut last_saved = false;
            let (_, asked) = run(worker, |action| {
                let outcome = if pattern >> round & 1 == 1 { OK } else { FAILED };
                round += 1;
                match action {
                    Action::Save { path } if outcome == OK => {
                        saved.push(path.clone());
                        last_saved = true;
                    }
                    Action::Delete { path } => {
                        assert!(last_saved);
                        assert_eq!(saved.last().unwrap(), &path.replace(".jpg", ".png"));
                        last_saved = false;
                    }
                    _ => last_saved = false,
                }
                outcome
            });
            assert!(asked.len() <= 12);
        }
    }
}

#[test]
fn a_failure_stops_only_its_own_entry() {
    let settings = settings(false, false);
    let worker = Worker::new(chunk(&["in/a.jpg", "in/bad.jpg", "in/c.jpg"]), &settings);
    let mut opened = String::new();
    let (worker, asked) = run(worker, |action| match action {
        Action::Open { path } => {
            opened = path.clone();
            OK
        }
        Action::Decode if opened == "in/bad.jpg" => FAILED,
        _ => OK,
    });
    assert_eq!(asked.len(), 3 + 2 + 3);
    assert!(worker.is_finished());
    assert!(!worker.is_halted());
    assert_eq!(worker.progress().completed_count(), 3);
    assert_eq!(worker.progress().failed_count(), 1);
    assert_eq!(
        worker.join().unwrap(),
        vec![
            success("in/a.jpg", "in/a.png", false),
            failure(FailureKind::Decode, "in/bad.jpg"),
            success("in/c.jpg", "in/c.png", false),
        ]
    );
}

#[test]
fn a_failure_ends_the_work_where_that_is_asked_for() {
    let settings = settings(false, true);
    let worker = Worker::new(chunk(&["in/a.jpg", "in/bad.jpg", "in/c.jpg"]), &settings);
    let (worker, asked) = run(worker, |action| match action {
        Action::Open { path } if path == "in/bad.jpg" => FAILED,
        _ => OK,
    });
    assert_eq!(asked.len(), 3 + 1);
    assert!(worker.is_finished());
    assert!(worker.is_halted());
    assert_eq!(worker.progress().completed_count(), 2);
    assert_eq!(worker.progress().failed_count(), 1);
    assert_eq!(worker.progress().total_count(), 3);
    assert!(worker.progress().is_finished());
    assert_eq!(
        worker.join().unwrap(),
        vec![success("in/a.jpg", "in/a.png", false), failure(FailureKind::Open, "in/bad.jpg")]
    );
}

#[test]
fn a_failure_at_the_last_entry_does_not_count_as_an_early_end() {
    let settings = settings(true, true);
    let worker = Worker::new(chunk(&["in/a.jpg"]), &settings);
    let (worker, _) = run(worker, |action| match action {
        Action::Delete { .. } => FAILED,
        _ => OK,
    });
    assert!(worker.is_finished());
    assert!(!worker.is_halted());
    assert_eq!(worker.join().unwrap(), vec![failure(FailureKind::Delete, "in/a.jpg")]);
}

#[test]
fn the_lane_of_a_worker_never_runs_backwards() {
    for pattern in 0u32..1024 {
        let settings = settings(pattern & 1 == 1, pattern & 2 == 2);
        let mut worker = Worker::new(chunk(&["a.jpg", "b.jpg", "c.jpg"]), &settings);
        let mut before = 0;
        for round in 2..14 {
            let outcome = if pattern >> round & 1 == 1 { OK } else { FAILED };
            worker = worker.on_result(outcome);
            let lane = worker.progress();
            assert!(lane.completed_count() >= before);
            assert!(lane.completed_count() <= lane.total_count());
            assert_eq!(lane.total_count(), 3);
            assert_eq!(lane.completed_count(), worker.outcomes().len());
            assert_eq!(lane.is_finished(), worker.is_finished());
            before = lane.completed_count();
        }
    }
}

#[test]
fn copies_go_under_the_directory_of_the_settings() {
    let settings = Settings {
        target: "webp".to_string(),
        dest_dir: Some("out".to_string()),
        delete_original: false,
        fail_fast: false,
    };
    let worker = Worker::new(chunk(&["in/sub/a.JPG"]), &settings);
    let (worker, asked) = run(worker, |_| OK);
    assert_eq!(asked[2], Action::Save { path: "out/a.webp".to_string() });
    assert_eq!(worker.join().unwrap(), vec![success("in/sub/a.JPG", "out/a.webp", false)]);
}

#[test]
fn a_worker_called_off_between_two_entries_stops_at_once() {
    let settings = settings(false, false);
    let mut worker = Worker::new(chunk(&["in/a.jpg", "in/b.jpg", "in/c.jpg"]), &settings);
    for _ in 0..3 {
        worker = worker.on_result(OK);
    }
    assert_eq!(worker.next_action(), Some(Action::Open { path: "in/b.jpg".to_string() }));
    assert!(!worker.is_called_off());
    worker = worker.stop();
    assert!(worker.is_called_off());
    assert!(worker.is_finished());
    assert!(worker.is_halted());
    assert_eq!(worker.next_action(), None);
    assert_eq!(worker.progress().label(), "1/3 Done!");
    assert_eq!(worker.join().unwrap(), vec![success("in/a.jpg", "in/a.png", false)]);
}

#[test]
fn a_worker_called_off_before_its_first_entry_does_nothing() {
    let settings = settings(true, false);
    let worker = Worker::new(chunk(&["in/a.jpg"]), &settings).stop();
    assert!(worker.is_called_off());
    assert!(worker.is_halted());
    assert_eq!(worker.next_action(), None);
    assert!(worker.progress().is_finished());
    assert!(worker.join().unwrap().is_empty());
}

#[test]
fn a_worker_called_off_in_the_middle_of_an_entry_goes_on() {
    let settings = settings(true, false);
    let mut worker = Worker::new(chunk(&["in/a.jpg", "in/b.jpg"]), &settings);
    worker = worker.on_result(OK);
    worker = worker.stop();
    assert!(!worker.is_called_off());
    assert_eq!(worker.next_action(), Some(Action::Decode));
    worker = worker.on_result(OK);
    worker = worker.on_result(OK);
    worker = worker.stop();
    assert_eq!(worker.next_action(), Some(Action::Delete { path: "in/a.jpg".to_string() }));
    worker = worker.on_result(OK);
    assert_eq!(worker.next_action(), Some(Action::Open { path: "in/b.jpg".to_string() }));
    worker = worker.stop();
    assert!(worker.is_called_off());
    assert_eq!(worker.next_action(), None);
    assert_eq!(worker.join().unwrap(), vec![success("in/a.jpg", "in/a.png", true)]);
}

#[test]
fn a_worker_that_has_stopped_cannot_be_called_off() {
    let settings = settings(false, false);
    let (worker, _) = run(Worker::new(chunk(&["in/a.jpg"]), &settings), |_| OK);
    let worker = worker.stop();
    assert!(!worker.is_called_off());
    assert!(!worker.is_halted());
    assert!(worker.is_finished());
    let empty = Worker::new(Vec::new(), &settings).stop();
    assert!(!empty.is_called_off());
    assert!(!empty.is_halted());
}

#[test]
fn only_a_worker_that_has_stopped_hands_out_its_outcomes() {
    let settings = settings(false, false);
    let mut worker = Worker::new(chunk(&["in/a.jpg", "in/b.jpg"]), &settings);
    for round in 0..6 {
        worker = match worker.join() {
            Ok(_) => panic!("joined in round {round}"),
            Err(worker) => worker,
        };
        assert_eq!(worker.outcomes().len(), round / 3);
        worker = worker.on_result(OK);
    }
    assert_eq!(
        worker.join().unwrap(),
        vec![success("in/a.jpg", "in/a.png", false), success("in/b.jpg", "in/b.png", false)]
    );
}
