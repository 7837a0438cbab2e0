use shanti::jobs::{
    panicked, Completion, Job, JobId, JobKind, JobResult, Queued, Worker, WORKER_THREADS,
};

fn a_job(path: &str) -> Job {
    Job::SpaceStatus {
        path: path.to_string(),
    }
}

fn no_spaces(path: &str) -> Completion {
    Completion::Spaces {
        path: path.to_string(),
        spaces: Vec::new(),
    }
}

/// What a thread hands back for the job it took, if anyone still wants it.
fn deliver(
    worker: &mut Worker,
    task: Queued,
    outcome: Result<Completion, String>,
) -> Option<JobResult> {
    let result = JobResult {
        id: task.id,
        kind: task.job.kind(),
        outcome,
    };
    if worker.finish(task.id) {
        Some(result)
    } else {
        None
    }
}

#[test]
fn a_result_carries_the_id_of_its_submission() {
    let mut worker = Worker::with_threads(1);
    let first = worker.submit(a_job("/a"));
    let second = worker.submit(a_job("/b"));
    assert_ne!(first, second, "ids are never reused");

    let mut ids = Vec::new();
    for _ in 0..2 {
        let task = worker.next_job().expect("a job waits");
        let result = deliver(&mut worker, task, Ok(no_spaces("/a"))).expect("it is wanted");
        ids.push(result.id);
    }
    assert_eq!(ids, vec![first, second]);
    assert!(worker.next_job().is_none());
}

/// Far more jobs than threads, and never more than `threads` of them running at
/// once.
#[test]
fn no_more_jobs_run_at_once_than_the_pool_has_threads() {
    let mut worker = Worker::with_threads(2);
    for n in 0..50 {
        worker.submit(a_job(&format!("/{n}")));
    }

    let mut running: Vec<Queued> = Vec::new();
    let mut peak = 0;
    let mut done = 0;
    while done < 50 {
        while let Some(task) = worker.next_job() {
            running.push(task);
        }
        peak = peak.max(running.len());
        let task = running.remove(0);
        assert!(deliver(&mut worker, task, Ok(no_spaces("/"))).is_some());
        done += 1;
    }
    assert_eq!(peak, 2, "the pool grew past 2");
    assert_eq!(worker.pending(), 0);
}

/// A queued job that is cancelled never runs at all.
#[test]
fn cancelling_a_queued_job_stops_it_from_running() {
    let mut worker = Worker::with_threads(1);
    let stuck = worker.submit(a_job("/stuck"));
    let running = worker.next_job().expect("the first job started");
    assert_eq!(running.id, stuck);

    let queued = worker.submit(a_job("/queued"));
    worker.cancel(queued);

    assert!(deliver(&mut worker, running, Ok(no_spaces("/stuck"))).is_some());
    assert!(worker.next_job().is_none(), "a cancelled job ran");
}

/// A job already running cannot be interrupted, but its result never arrives.
#[test]
fn cancelling_a_running_job_suppresses_its_result() {
    let mut worker = Worker::with_threads(1);
    let id = worker.submit(a_job("/a"));
    let task = worker.next_job().expect("the job started");
    worker.cancel(id);
    assert!(
        deliver(&mut worker, task, Ok(no_spaces("/a"))).is_none(),
        "the result of a cancelled job was delivered"
    );
    // The thread is free again.
    worker.submit(a_job("/b"));
    assert!(worker.next_job().is_some());
}

/// Cancelling what is not there, or is done, changes nothing.
#[test]
fn cancelling_a_finished_job_is_harmless() {
    let mut worker = Worker::with_threads(1);
    let id = worker.submit(a_job("/a"));
    let task = worker.next_job().expect("the job started");
    assert!(deliver(&mut worker, task, Ok(no_spaces("/a"))).is_some());
    worker.cancel(id);
    worker.cancel(JobId { number: 99 });
    assert_eq!(worker.pending(), 0);
    assert!(worker.cancelled.is_empty());
}

/// A failing job is a message, not a crash.
#[test]
fn a_failing_job_comes_back_as_an_error_result() {
    let mut worker = Worker::with_threads(1);
    worker.submit(a_job("/a"));
    let task = worker.next_job().expect("the job started");
    let result = deliver(&mut worker, task, Err("no such remote".to_string())).expect("wanted");
    let error = result.outcome.expect_err("the job failed");
    assert!(error.contains("no such remote"));
}

/// A panic in a job is the same thing as a failure, and costs neither the
/// thread nor the jobs queued behind it.
#[test]
fn a_panicking_job_becomes_an_error_and_leaves_the_pool_usable() {
    let mut worker = Worker::with_threads(1);
    let id = worker.submit(a_job("/a"));
    worker.submit(a_job("/b"));

    let task = worker.next_job().expect("the job started");
    let broken = panicked(task.id, task.job.kind());
    assert!(worker.finish(task.id));
    assert_eq!(broken.id, id);
    assert_eq!(broken.outcome, Err("the status job panicked".to_string()));

    let task = worker.next_job().expect("the pool died with the panicking job");
    let result = deliver(&mut worker, task, Ok(no_spaces("/b"))).expect("wanted");
    assert!(result.outcome.is_ok());
}

/// A pool told to stop hands out nothing more.
#[test]
fn dropping_the_worker_stops_its_threads() {
    let mut worker = Worker::with_threads(4);
    worker.submit(a_job("/a"));
    worker.stop();
    assert!(worker.next_job().is_none());
    worker.submit(a_job("/b"));
    assert!(worker.next_job().is_none());
    assert_eq!(worker.pending(), 0);
}

/// And what a stuck job brings back afterwards is not wanted.
#[test]
fn dropping_the_worker_does_not_wait_for_a_stuck_job() {
    let mut worker = Worker::with_threads(1);
    worker.submit(a_job("/a"));
    let task = worker.next_job().expect("the job started");
    worker.stop();
    assert!(deliver(&mut worker, task, Ok(no_spaces("/a"))).is_none());
}

#[test]
fn ids_start_over_after_the_last() {
    let mut worker = Worker::with_threads(1);
    worker.next_id = u64::MAX;
    assert!(!worker.started_over);
    assert_eq!(worker.submit(a_job("/a")), JobId { number: u64::MAX });
    assert!(worker.started_over);
    assert_eq!(worker.submit(a_job("/b")), JobId { number: 0 });
}

#[test]
fn a_pool_has_the_default_number_of_threads() {
    assert_eq!(Worker::new().threads, WORKER_THREADS);
}

#[test]
fn a_completion_names_itself_in_a_few_words() {
    assert_eq!(no_spaces("/a").text(), "Spaces(0)");
    assert_eq!(Completion::Repositories(Vec::new()).text(), "Repositories(0)");
    let fetched = Completion::Fetched {
        path: "/a".to_string(),
    };
    assert_eq!(fetched.text(), "Fetched(/a)");
    let cloned = Completion::Cloned {
        path: "/b".to_string(),
        opened: Err("no".to_string()),
    };
    assert_eq!(cloned.text(), "Cloned(/b)");
}

#[test]
fn a_job_has_the_kind_of_its_work() {
    let clone = Job::CloneRepository {
        owner: "acme".to_string(),
        repo: "widget".to_string(),
        repos_dir: "/src".to_string(),
    };
    assert_eq!(clone.kind(), JobKind::CloneRepository);
    assert_eq!(clone.kind().name(), "clone");
    assert_eq!(a_job("/a").kind().name(), "status");
}
