use shanti::jobs::background::Background;
use shanti::jobs::in_flight::{InFlight, Kind, TrackedJob};
use shanti::jobs::{Job, JobId, Worker};

fn ids(n: u64) -> Vec<JobId> {
    (0..n).map(|number| JobId { number }).collect()
}

#[test]
fn finishing_a_job_forgets_it_once() {
    let id = ids(1)[0];
    let mut flight = InFlight::new();
    flight.track(id, TrackedJob::Scan);

    assert_eq!(flight.finish(id), Some(TrackedJob::Scan));
    assert_eq!(flight.count(Kind::Scan), 0);
    assert!(flight.is_empty(), "no set was left holding it");
}

#[test]
fn an_abandoned_job_reports_no_category() {
    let id = ids(1)[0];
    let mut flight = InFlight::new();
    flight.track(id, TrackedJob::Refresh);

    assert!(flight.forget(id), "it was still wanted");
    assert!(!flight.forget(id), "and only once");
    assert_eq!(flight.finish(id), None, "its answer is no longer wanted");
}

#[test]
fn categories_are_counted_apart() {
    let id = ids(4);
    let mut flight = InFlight::new();
    flight.track(id[0], TrackedJob::Scan);
    flight.track(id[1], TrackedJob::Refresh);
    flight.track(id[2], TrackedJob::Refresh);
    flight.track(id[3], TrackedJob::Hooks);

    assert_eq!(flight.count(Kind::Scan), 1);
    assert_eq!(flight.count(Kind::Refresh), 2);
    assert_eq!(flight.count(Kind::Hooks), 1);
    assert_eq!(flight.count(Kind::Fetch), 0);
    assert!(!flight.any(Kind::Fetch));
    assert_eq!(flight.len(), 4);
}

#[test]
fn a_round_can_be_taken_without_disturbing_the_others() {
    let id = ids(3);
    let mut flight = InFlight::new();
    flight.track(id[0], TrackedJob::Refresh);
    flight.track(id[1], TrackedJob::Refresh);
    flight.track(id[2], TrackedJob::Fetch("/repos/a".to_string()));

    let mut round = flight.ids(Kind::Refresh);
    round.sort();
    assert_eq!(round, vec![id[0], id[1]]);

    for id in round {
        flight.forget(id);
    }
    assert_eq!(flight.count(Kind::Refresh), 0);
    assert_eq!(flight.count(Kind::Fetch), 1, "the fetch was left alone");
}

#[test]
fn a_repository_already_being_fetched_is_recognised() {
    let id = ids(1)[0];
    let mut flight = InFlight::new();
    flight.track(id, TrackedJob::Fetch("/repos/a".to_string()));

    assert!(flight.is_fetching("/repos/a"));
    assert!(!flight.is_fetching("/repos/b"));

    flight.finish(id);
    assert!(!flight.is_fetching("/repos/a"), "it finished");
}

#[test]
fn without_a_pool_nothing_is_submitted() {
    let mut work = Background::new();
    let id = work.submit(
        Job::FetchRemotes {
            path: "/repos/a".to_string(),
        },
        TrackedJob::Fetch("/repos/a".to_string()),
    );
    assert_eq!(id, None);
    assert!(work.in_flight.is_empty());
    assert_eq!(work.next_job(), None);
}

#[test]
fn giving_up_a_round_leaves_the_other_jobs_queued() {
    let mut work = Background::new();
    work.worker = Some(Worker::with_threads(1));
    for path in ["/repos/a", "/repos/b"] {
        work.submit(
            Job::SpaceStatus {
                path: path.to_string(),
            },
            TrackedJob::Refresh,
        );
    }
    let fetch = work
        .submit(
            Job::FetchRemotes {
                path: "/repos/a".to_string(),
            },
            TrackedJob::Fetch("/repos/a".to_string()),
        )
        .expect("a pool is there");

    work.abandon_all(Kind::Refresh);

    assert_eq!(work.in_flight.len(), 1);
    assert!(work.in_flight.contains(fetch));
    let task = work.next_job().expect("the fetch is still queued");
    assert_eq!(task.id, fetch);
    assert_eq!(work.next_job(), None);
    assert!(work.finish(fetch));
}
