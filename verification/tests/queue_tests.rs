use encodeck::config::{Config, Installed};
use encodeck::queue::{enqueue, stopped, Worker, EnqueueError, JobStatus, Queue, PROGRESS_COMPLETE};

fn strings(v: &[&str]) -> Vec<String> {
    v.iter().map(|s| s.to_string()).collect()
}

fn config() -> Config {
    Config {
        active: "7.1".into(),
        versions: vec![Installed {
            id: "7.1".into(),
            name: "7.1".into(),
            path: "/opt/ffmpeg/7.1/ffmpeg".into(),
            managed: true,
            checksum: "abc".into(),
        }],
        presets: vec![],
    }
}

fn plan(out: &str) -> Vec<Vec<String>> {
    vec![strings(&["-i", "in.mp4", out])]
}

fn add(q: &mut Queue, c: &Config, out: &str) -> Result<String, EnqueueError> {
    enqueue(q, c, plan(out), out.to_string(), &[], 2.5f64.to_bits(), 1_700_000_000)
}

fn status_name(s: &JobStatus) -> &'static str {
    match s {
        JobStatus::Queued => "queued",
        JobStatus::Running => "running",
        JobStatus::Completed => "completed",
        JobStatus::Failed => "failed",
        JobStatus::Cancelled => "cancelled",
        JobStatus::Interrupted => "interrupted",
        JobStatus::Other(_) => "other",
    }
}

#[test]
fn enqueue_records_a_waiting_job_with_the_active_engine() {
    let mut q = Queue::new();
    let id = add(&mut q, &config(), "out.mp4").unwrap();
    assert_eq!(id.len(), 36);
    let c: Vec<char> = id.chars().collect();
    assert!(c[8] == '-' && c[13] == '-' && c[18] == '-' && c[23] == '-');
    assert_eq!(c[14], '4');
    assert!(matches!(c[19], '8' | '9' | 'a' | 'b'));
    assert!(c.iter().all(|x| *x == '-' || x.is_ascii_digit() || ('a'..='f').contains(x)));
    assert_eq!(q.jobs.len(), 1);
    let j = &q.jobs[0];
    assert_eq!(j.id, id);
    assert_eq!(j.binary, "/opt/ffmpeg/7.1/ffmpeg");
    assert_eq!(status_name(&j.status), "queued");
    assert_eq!(j.pass, 1);
    assert_eq!(j.progress_bits, 0);
    assert_eq!(f64::from_bits(j.duration_bits), 2.5);
    assert!(j.logs.is_empty());
    assert!(!j.cancel);
}

#[test]
fn enqueue_refuses_invalid_plans_and_missing_engine() {
    let mut q = Queue::new();
    let e = enqueue(&mut q, &config(), vec![], "out".into(), &[], 0, 0).unwrap_err();
    assert_eq!(e.message(), "Une ou deux passes sont nécessaires.");
    let mut c = config();
    c.active = "other".into();
    let e = add(&mut q, &c, "out.mp4").unwrap_err();
    assert!(matches!(e, EnqueueError::NoEngine));
    assert_eq!(e.message(), "Installez ou importez FFmpeg dans Versions.");
    assert!(q.jobs.is_empty());
}

#[test]
fn enqueue_refuses_a_busy_output() {
    let mut q = Queue::new();
    let c = config();
    add(&mut q, &c, "out.mp4").unwrap();
    let e = add(&mut q, &c, "out.mp4").unwrap_err();
    assert!(matches!(e, EnqueueError::OutputBusy));
    assert_eq!(e.message(), "Une tâche utilise déjà cette sortie.");
    let id = q.jobs[0].id.clone();
    q.cancel(&id).unwrap();
    assert!(add(&mut q, &c, "out.mp4").is_ok());
}

#[test]
fn enqueue_refuses_a_fifty_first_waiting_job() {
    let mut q = Queue::new();
    let c = config();
    for k in 0..50 {
        add(&mut q, &c, &format!("out{k}.mp4")).unwrap();
    }
    let e = add(&mut q, &c, "last.mp4").unwrap_err();
    assert!(matches!(e, EnqueueError::QueueFull));
    assert_eq!(e.message(), "File d’attente pleine (50 tâches).");
    assert_eq!(q.active_count(), 50);
}

#[test]
fn history_is_cut_back_to_one_hundred_jobs_oldest_ended_first() {
    let mut q = Queue::new();
    let c = config();
    for k in 0..100 {
        let id = add(&mut q, &c, &format!("o{k}.mp4")).unwrap();
        q.cancel(&id).unwrap();
    }
    assert_eq!(q.jobs.len(), 100);
    let first_id = q.jobs[0].id.clone();
    let second_id = q.jobs[1].id.clone();
    let id = add(&mut q, &c, "new.mp4").unwrap();
    assert_eq!(q.jobs.len(), 100);
    assert_eq!(q.jobs[99].id, id);
    assert_ne!(q.jobs[0].id, first_id);
    assert_eq!(q.jobs[0].id, second_id);
}

#[test]
fn waiting_jobs_are_never_dropped_from_history() {
    let mut q = Queue::new();
    let c = config();
    for k in 0..50 {
        add(&mut q, &c, &format!("w{k}.mp4")).unwrap();
    }
    // Fifty more ended jobs, then one more waiting job after a slot frees up.
    let first = q.jobs[0].id.clone();
    q.cancel(&first).unwrap();
    for k in 0..55 {
        let id = add(&mut q, &c, &format!("e{k}.mp4")).unwrap();
        q.cancel(&id).unwrap();
    }
    assert!(q.jobs.len() <= 100);
    assert_eq!(q.active_count(), 49);
}

#[test]
fn worker_claims_jobs_in_order_and_records_their_end() {
    let mut q = Queue::new();
    let c = config();
    let a = add(&mut q, &c, "a.mp4").unwrap();
    let b = add(&mut q, &c, "b.mp4").unwrap();
    assert_eq!(q.claim_next(), Some(0));
    assert_eq!(status_name(&q.jobs[0].status), "running");
    q.set_pass(&a, 2);
    assert_eq!(q.jobs[0].pass, 2);
    q.set_progress(&a, 42.0f64.to_bits());
    assert_eq!(f64::from_bits(q.jobs[0].progress_bits), 42.0);
    q.finish(&a, false, Ok(()));
    assert_eq!(status_name(&q.jobs[0].status), "completed");
    assert_eq!(q.jobs[0].progress_bits, PROGRESS_COMPLETE);
    assert_eq!(f64::from_bits(PROGRESS_COMPLETE), 100.0);
    assert_eq!(q.claim_next(), Some(1));
    q.finish(&b, false, Err("boom".into()));
    assert_eq!(status_name(&q.jobs[1].status), "failed");
    assert_eq!(q.jobs[1].logs.last().unwrap(), "boom");
    assert_eq!(q.claim_next(), None);
}

#[test]
fn cancelling_waiting_and_running_jobs() {
    let mut q = Queue::new();
    let c = config();
    let a = add(&mut q, &c, "a.mp4").unwrap();
    let b = add(&mut q, &c, "b.mp4").unwrap();
    q.claim_next();
    assert!(!q.stop_requested(&a));
    q.cancel(&a).unwrap();
    assert!(q.stop_requested(&a));
    assert_eq!(status_name(&q.jobs[0].status), "running");
    q.cancel(&b).unwrap();
    assert_eq!(status_name(&q.jobs[1].status), "cancelled");
    q.finish(&a, false, Ok(()));
    assert_eq!(status_name(&q.jobs[0].status), "cancelled");
    let e = q.cancel("nope").unwrap_err();
    assert_eq!(e.message(), "Tâche inconnue");
}

#[test]
fn shutdown_cancels_a_running_job() {
    let mut q = Queue::new();
    let a = add(&mut q, &config(), "a.mp4").unwrap();
    q.claim_next();
    q.finish(&a, true, Err("stopped".into()));
    assert_eq!(status_name(&q.jobs[0].status), "cancelled");
    assert_eq!(q.jobs[0].logs, vec!["stopped".to_string()]);
}

#[test]
fn logs_keep_the_last_250_lines() {
    let mut q = Queue::new();
    let a = add(&mut q, &config(), "a.mp4").unwrap();
    for k in 0..300 {
        q.log(&a, format!("line {k}"));
    }
    assert_eq!(q.jobs[0].logs.len(), 250);
    assert_eq!(q.jobs[0].logs[0], "line 50");
    assert_eq!(q.jobs[0].logs[249], "line 299");
}

#[test]
fn interrupted_jobs_do_not_start_again() {
    let mut q = Queue::new();
    let c = config();
    let a = add(&mut q, &c, "a.mp4").unwrap();
    add(&mut q, &c, "b.mp4").unwrap();
    let done = add(&mut q, &c, "c.mp4").unwrap();
    q.claim_next();
    q.cancel(&done).unwrap();
    q.mark_interrupted();
    assert_eq!(status_name(&q.jobs[0].status), "interrupted");
    assert_eq!(status_name(&q.jobs[1].status), "interrupted");
    assert_eq!(status_name(&q.jobs[2].status), "cancelled");
    assert!(q.jobs[2].logs.is_empty());
    assert_eq!(
        q.jobs[0].logs.last().unwrap(),
        "Application interrompue : relancez explicitement cette tâche."
    );
    assert_eq!(q.claim_next(), None);
    assert_eq!(q.active_count(), 0);
    assert!(q.find(&a).is_some());
}

#[test]
fn engine_in_use_only_for_active_jobs() {
    let mut q = Queue::new();
    let a = add(&mut q, &config(), "a.mp4").unwrap();
    assert!(q.engine_in_use("/opt/ffmpeg/7.1/ffmpeg"));
    assert!(q.output_in_use("a.mp4"));
    q.cancel(&a).unwrap();
    assert!(!q.engine_in_use("/opt/ffmpeg/7.1/ffmpeg"));
    assert!(!q.output_in_use("a.mp4"));
}

#[test]
fn runs_stop_on_shutdown_or_cancellation() {
    let mut q = Queue::new();
    let a = add(&mut q, &config(), "a.mp4").unwrap();
    assert!(!stopped(&q, false, &a));
    assert!(stopped(&q, true, &a));
    q.claim_next();
    q.cancel(&a).unwrap();
    assert!(stopped(&q, false, &a));
    assert!(!stopped(&q, false, "unknown"));
}

#[test]
fn worker_takes_nothing_during_shutdown_and_never_reruns_ended_jobs() {
    let mut q = Queue::new();
    let mut w = Worker::new();
    let a = add(&mut q, &config(), "a.mp4").unwrap();
    let b = add(&mut q, &config(), "b.mp4").unwrap();
    assert_eq!(w.claim(&mut q, true), None);
    assert_eq!(status_name(&q.jobs[0].status), "queued");
    q.cancel(&a).unwrap();
    assert_eq!(w.claim(&mut q, false), Some(1));
    assert_eq!(q.jobs[1].id, b);
    w.finish(&mut q, false, Ok(()));
    assert_eq!(status_name(&q.jobs[1].status), "completed");
    assert_eq!(w.claim(&mut q, false), None);
    assert_eq!(status_name(&q.jobs[0].status), "cancelled");
}

#[test]
fn worker_runs_one_job_at_a_time() {
    let mut q = Queue::new();
    let mut w = Worker::new();
    let a = add(&mut q, &config(), "a.mp4").unwrap();
    let b = add(&mut q, &config(), "b.mp4").unwrap();
    assert_eq!(w.claim(&mut q, false), Some(0));
    assert_eq!(w.claim(&mut q, false), None);
    assert_eq!(status_name(&q.jobs[1].status), "queued");
    w.finish(&mut q, false, Err("boom".into()));
    assert_eq!(q.jobs[0].id, a);
    assert_eq!(status_name(&q.jobs[0].status), "failed");
    assert_eq!(q.jobs[0].logs, vec!["boom".to_string()]);
    assert_eq!(w.claim(&mut q, false), Some(1));
    assert_eq!(q.jobs[1].id, b);
    assert_eq!(status_name(&q.jobs[1].status), "running");
}
