use encodeck::engine::{
    ffmpeg_args, overwrite_refused, probe_args, probe_outcome, probe_step, progress_field, run_step, validate,
    ProbeError, RunAction, RunEvent, ProbeStep, RunError, ValidateError, PROBE_TIMEOUT_NANOS,
};

/// None of the paths in these tests exists, so no argument resolves to the output.
const NO_LINKS: &[Vec<bool>] = &[];

fn strings(v: &[&str]) -> Vec<String> {
    v.iter().map(|s| s.to_string()).collect()
}

#[test]
fn refuses_same_io() {
    assert!(validate(&[vec!["-i".into(), "a.mp4".into(), "a.mp4".into()]], "a.mp4", NO_LINKS).is_err());
}

#[test]
fn accepts_literal_shell_characters() {
    assert!(validate(
        &[vec!["-i".into(), "C:/a & b.mp4".into(), "C:/out.mp4".into()]],
        "C:/out.mp4", NO_LINKS
    )
    .is_ok());
}

#[test]
fn rejects_mismatched_output() {
    assert!(validate(&[vec!["-i".into(), "in".into(), "out".into()]], "other", NO_LINKS).is_err());
}

#[test]
fn validate_refuses_zero_or_three_passes() {
    assert!(matches!(validate(&[], "out", NO_LINKS), Err(ValidateError::PassCount)));
    let p = strings(&["-i", "in", "out"]);
    assert!(matches!(
        validate(&[p.clone(), p.clone(), p], "out", NO_LINKS),
        Err(ValidateError::PassCount)
    ));
}

#[test]
fn validate_refuses_blank_output() {
    let p = strings(&["-i", "in", " \t"]);
    assert!(matches!(validate(&[p], " \t", NO_LINKS), Err(ValidateError::NoOutput)));
}

#[test]
fn validate_refuses_malformed_arguments() {
    assert!(matches!(validate(&[vec![]], "out", NO_LINKS), Err(ValidateError::InvalidArguments)));
    let mut long = strings(&["-i", "in"]);
    while long.len() < 513 {
        long.push("x".into());
    }
    assert!(matches!(validate(&[long], "x", NO_LINKS), Err(ValidateError::InvalidArguments)));
    let nul = strings(&["-i", "in\0", "out"]);
    assert!(matches!(validate(&[nul], "out", NO_LINKS), Err(ValidateError::InvalidArguments)));
}

#[test]
fn validate_needs_an_input() {
    let p = strings(&["-f", "lavfi", "out"]);
    assert!(matches!(validate(&[p], "out", NO_LINKS), Err(ValidateError::MissingInput)));
}

#[test]
fn validate_checks_plans_in_order() {
    let first = strings(&["-i", "in", "-f", "null", "-"]);
    let second = strings(&["-c", "copy", "out"]);
    assert!(matches!(
        validate(&[first.clone(), second], "out", NO_LINKS),
        Err(ValidateError::MissingInput)
    ));
    let good = strings(&["-i", "in", "out"]);
    assert!(validate(&[first, good], "out", NO_LINKS).is_ok());
}

#[test]
fn validate_mismatch_message() {
    let e = validate(&[strings(&["-i", "in", "out"])], "other", NO_LINKS).unwrap_err();
    assert!(matches!(e, ValidateError::OutputMismatch));
    assert_eq!(e.message(), "La sortie ne correspond pas à la commande.");
    let e = validate(&[strings(&["-i", "a.mp4", "a.mp4"])], "a.mp4", NO_LINKS).unwrap_err();
    assert_eq!(e.message(), "La sortie doit être différente de l’entrée.");
}

#[test]
fn validate_refuses_an_input_that_resolves_to_the_output() {
    let p = strings(&["-i", "./out.mp4", "out.mp4"]);
    assert!(validate(&[p.clone()], "out.mp4", NO_LINKS).is_ok());
    let linked = vec![vec![false, true, false]];
    assert!(matches!(
        validate(&[p], "out.mp4", &linked),
        Err(ValidateError::OutputIsInput)
    ));
}

#[test]
fn ffmpeg_args_protect_existing_files() {
    let plan = strings(&["-i", "in.mp4", "out.mp4"]);
    assert_eq!(
        ffmpeg_args(&plan),
        strings(&["-nostdin", "-progress", "pipe:1", "-nostats", "-n", "-i", "in.mp4", "out.mp4"])
    );
    let plan = strings(&["-y", "-i", "in.mp4", "out.mp4"]);
    assert_eq!(
        ffmpeg_args(&plan),
        strings(&["-nostdin", "-progress", "pipe:1", "-nostats", "-y", "-i", "in.mp4", "out.mp4"])
    );
    let plan = strings(&["-n", "-i", "in.mp4", "out.mp4"]);
    assert_eq!(ffmpeg_args(&plan).iter().filter(|a| *a == "-n").count(), 1);
}

#[test]
fn overwrite_needs_explicit_y_on_last_pass() {
    let plain = strings(&["-i", "in", "out"]);
    let forced = strings(&["-y", "-i", "in", "out"]);
    assert!(!overwrite_refused(false, &[plain.clone()]));
    assert!(overwrite_refused(true, &[plain.clone()]));
    assert!(!overwrite_refused(true, &[forced.clone()]));
    assert!(overwrite_refused(true, &[forced, plain]));
    assert!(overwrite_refused(true, &[]));
}

#[test]
fn progress_lines_are_recognised() {
    assert_eq!(progress_field("out_time_us=1500000"), Some("1500000".to_string()));
    assert_eq!(progress_field("frame=12"), None);
}

#[test]
fn run_error_messages() {
    assert_eq!(
        RunError::Exited { code: Some(-3) }.message(),
        "FFmpeg s’est arrêté avec le code Some(-3)."
    );
    assert_eq!(
        RunError::Exited { code: Some(187) }.message(),
        "FFmpeg s’est arrêté avec le code Some(187)."
    );
    assert_eq!(
        RunError::Exited { code: None }.message(),
        "FFmpeg s’est arrêté avec le code None."
    );
    assert_eq!(
        RunError::Cancelled.message(),
        "Encodage annulé. La sortie partielle peut être supprimée manuellement."
    );
    assert!(RunError::OutputExists.message().starts_with("Le fichier de sortie existe déjà."));
}

#[test]
fn probe_waits_then_times_out() {
    assert!(matches!(probe_step(true, PROBE_TIMEOUT_NANOS + 1), ProbeStep::Finished));
    assert!(matches!(probe_step(false, 0), ProbeStep::Wait));
    assert!(matches!(probe_step(false, 25_000_000_000), ProbeStep::Wait));
    assert!(matches!(probe_step(false, 25_000_000_001), ProbeStep::TimedOut));
    assert_eq!(ProbeError::TimedOut.message(), "L’analyse du média a dépassé 25 secondes.");
    assert_eq!(ProbeError::ReadInterrupted.message(), "Lecture interrompue");
}

#[test]
fn probe_outcome_reports_error_output_or_reads_json() {
    let v = probe_outcome(true, b"{\"format\":{\"duration\":\"2.5\"}}", b"ignored").unwrap();
    assert_eq!(v["format"]["duration"].as_str(), Some("2.5"));
    let e = probe_outcome(false, b"{}", b"in.mp4: No such file").unwrap_err();
    assert_eq!(e.message(), "in.mp4: No such file");
    let e = probe_outcome(false, b"", b"bad \xff byte").unwrap_err();
    assert_eq!(e.message(), "bad \u{FFFD} byte");
    let e = probe_outcome(true, b"", b"").unwrap_err();
    assert!(matches!(e, ProbeError::Unreadable(_)));
    assert_eq!(e.message(), "EOF while parsing a value at line 1 column 0");
}

/// Drives `run_step` over a run whose pass `k` is preceded by stop request `stops[k]`
/// and exits as `exits[k]`; gives the outcome and the passes started.
fn drive(stops: &[bool], exits: &[(bool, Option<i32>)]) -> (Result<(), RunError>, Vec<usize>) {
    let passes = exits.len();
    let mut done = 0;
    let mut started = vec![];
    let mut exited = None;
    loop {
        let event = match exited.take() {
            None => RunEvent::PassDue { stop: done < passes && stops[done] },
            Some((success, code)) => RunEvent::PassExited { success, code },
        };
        match run_step(passes, done, event) {
            RunAction::Finish(r) => return (r, started),
            RunAction::Continue(next) => done = next,
            RunAction::StartPass(k) => {
                started.push(k);
                exited = Some(exits[k]);
            }
        }
    }
}

#[test]
fn run_passes_in_order_until_the_first_failure() {
    let (r, started) = drive(&[false, false], &[(true, Some(0)), (true, Some(0))]);
    assert!(r.is_ok());
    assert_eq!(started, vec![0, 1]);
    let (r, started) = drive(&[false, false], &[(false, Some(1)), (true, Some(0))]);
    assert_eq!(r.unwrap_err().message(), "FFmpeg s’est arrêté avec le code Some(1).");
    assert_eq!(started, vec![0]);
    let (r, started) = drive(&[false, false], &[(true, Some(0)), (false, None)]);
    assert_eq!(r.unwrap_err().message(), "FFmpeg s’est arrêté avec le code None.");
    assert_eq!(started, vec![0, 1]);
}

#[test]
fn run_stops_before_a_pass_when_asked() {
    let (r, started) = drive(&[true, false], &[(true, Some(0)), (true, Some(0))]);
    assert!(matches!(r, Err(RunError::Cancelled)));
    assert!(started.is_empty());
    let (r, started) = drive(&[false, true], &[(true, Some(0)), (true, Some(0))]);
    assert!(matches!(r, Err(RunError::Cancelled)));
    assert_eq!(started, vec![0]);
    assert!(matches!(run_step(1, 1, RunEvent::PassDue { stop: true }), RunAction::Finish(Ok(()))));
}

#[test]
fn probe_asks_for_json_format_and_streams() {
    assert_eq!(
        probe_args("C:/in & out.mp4"),
        strings(&["-v", "error", "-show_format", "-show_streams", "-of", "json", "C:/in & out.mp4"])
    );
}
