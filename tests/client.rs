use beeg::client::{
    cell_text, classify_step, pick_ok, pick_usable, Aggregator, NodeWorker, Outcome, ProgressEvent, RunPhase,
    PROBE_STEPS,
};
use beeg::shell::{rand_suffix, wrap_timeout};
use beeg::transport::ExecOutput;

fn out(s: &str) -> Result<ExecOutput, String> {
    Ok(ExecOutput { stdout: s.to_string(), stderr: String::new() })
}

fn fail(e: &str) -> Result<ExecOutput, String> {
    Err(e.to_string())
}

fn is_passed(o: &Outcome) -> bool {
    matches!(o, Outcome::Passed)
}

fn is_failed(o: &Outcome) -> bool {
    matches!(o, Outcome::Failed | Outcome::FailedWith(_))
}

fn outcome_of(ev: &ProgressEvent) -> &Outcome {
    match ev {
        ProgressEvent::Step { outcome, .. } => outcome,
        ProgressEvent::Done { .. } => panic!("expected a step event"),
    }
}

#[test]
fn sentinel_classification() {
    assert!(is_passed(&pick_ok(out("OK"))));
    assert!(is_passed(&pick_ok(out("  OK \n"))));
    assert!(matches!(pick_ok(out("ERR")), Outcome::Failed));
    assert!(matches!(pick_ok(out("MISSING\n")), Outcome::Failed));
    assert!(matches!(pick_ok(out("")), Outcome::Failed));
    assert!(matches!(pick_ok(fail("connection refused")), Outcome::Failed));
}

#[test]
fn usable_classification() {
    assert!(is_passed(&pick_usable(out("/dev/sda 1G 0 1G 0% /mnt/fs\n"))));
    assert!(matches!(pick_usable(out(" \n")), Outcome::Failed));
    match pick_usable(fail("timed out")) {
        Outcome::FailedWith(e) => assert_eq!(e, "timed out"),
        _ => panic!("expected a failure with its description"),
    }
    assert!(is_passed(&classify_step(2, out("anything"))));
    assert!(matches!(classify_step(3, out("anything")), Outcome::Failed));
}

#[test]
fn cell_texts() {
    assert_eq!(cell_text(&Outcome::Pending), "...");
    assert_eq!(cell_text(&Outcome::Passed), "OK");
    assert_eq!(cell_text(&Outcome::Failed), "ERR");
    assert_eq!(cell_text(&Outcome::FailedWith("boom".to_string())), "ERR:boom");
}

#[test]
fn timeout_wrapping_quotes_the_command() {
    assert_eq!(wrap_timeout("echo hi", 10), "timeout 10s sh -lc 'echo hi'");
    assert_eq!(wrap_timeout("uptime", 7), "timeout 7s sh -lc uptime");
    assert_eq!(wrap_timeout("echo 'a'!", 0), "timeout 0s sh -lc 'echo '\\''a'\\'''\\!''");
}

#[test]
fn random_suffix_is_eight_hex_digits() {
    let s = rand_suffix().expect("the OS entropy source works here");
    assert_eq!(s.len(), 8);
    assert!(s.chars().all(|c| c.is_ascii_hexdigit() && !c.is_ascii_uppercase()));
}

#[test]
fn worker_commands() {
    let w = NodeWorker::new(0, "/mnt/my fs", 10, &Ok("abcd0123".to_string()));
    assert_eq!(w.commands.len(), PROBE_STEPS);
    assert_eq!(
        w.commands[3],
        "timeout 10s sh -lc 'ls -la '\\''/mnt/my fs'\\'' >/dev/null 2>&1 && echo OK || echo ERR'"
    );
    let w = NodeWorker::new(0, "/mnt/fs", 5, &Ok("abcd0123".to_string()));
    assert_eq!(w.commands[2], "timeout 5s sh -lc 'df -h /mnt/fs 2>&1 | tail -n +2 || true'");
    assert_eq!(
        w.commands[4],
        "timeout 5s sh -lc 'dd if=/dev/urandom of=/mnt/fs/.beeg_check_abcd0123 bs=4K count=1 status=none && rm -f /mnt/fs/.beeg_check_abcd0123 && echo OK || echo ERR'"
    );
}

#[test]
fn worker_events_in_step_order() {
    let mut w = NodeWorker::new(4, "/mnt/fs", 10, &Ok("00000000".to_string()));
    let mut steps = Vec::new();
    while w.next_command().is_some() {
        match w.record(out("OK")) {
            ProgressEvent::Step { node, step, .. } => {
                assert_eq!(node, 4);
                steps.push(step);
            }
            ProgressEvent::Done { .. } => panic!("done before the last step"),
        }
    }
    assert_eq!(steps, vec![0, 1, 2, 3, 4]);
    assert!(matches!(w.finish(), ProgressEvent::Done { node: 4 }));
}

/// Runs one node's worker with the given answer for the listing probe and
/// `OK` for every other probe.
fn run_node(node: usize, readable: Result<ExecOutput, String>) -> Vec<ProgressEvent> {
    let mut w = NodeWorker::new(node, "/mnt/fs", 10, &Ok("0badcafe".to_string()));
    let mut evs = Vec::new();
    let mut readable = Some(readable);
    while w.next_command().is_some() {
        let answer = if w.next == 3 { readable.take().unwrap() } else { out("OK\n") };
        evs.push(w.record(answer));
    }
    evs.push(w.finish());
    evs
}

#[test]
fn three_nodes_reach_done() {
    let mut agg = Aggregator::new(3);
    let runs = vec![run_node(0, out("OK")), run_node(1, out("ERR")), run_node(2, fail("ssh: connect refused"))];
    // interleave the three nodes' events
    let mut iters: Vec<_> = runs.into_iter().map(|v| v.into_iter()).collect();
    loop {
        let mut any = false;
        for it in iters.iter_mut() {
            if let Some(ev) = it.next() {
                agg.apply(ev);
                any = true;
            }
        }
        if !any {
            break;
        }
    }
    assert_eq!(agg.completed, 3);
    assert!(matches!(agg.tick(None, 'q'), RunPhase::Done));
    assert!(is_passed(&agg.cells[0 * PROBE_STEPS + 3]));
    assert!(is_failed(&agg.cells[1 * PROBE_STEPS + 3]));
    assert!(is_failed(&agg.cells[2 * PROBE_STEPS + 3]));
    assert!(agg.cells.iter().all(|c| !matches!(c, Outcome::Pending)));
    assert_eq!(agg.row_texts(1)[3], "ERR");
    assert_eq!(agg.footer(), "Completed: 3/3");
}

#[test]
fn quit_after_one_node_cancels() {
    let mut agg = Aggregator::new(3);
    for ev in run_node(1, out("OK")) {
        agg.apply(ev);
    }
    let partial = run_node(0, out("OK"));
    agg.apply(ProgressEvent::Step { node: 0, step: 0, outcome: Outcome::Passed });
    assert!(is_passed(outcome_of(&partial[0])));
    assert!(matches!(agg.tick(None, 'q'), RunPhase::Running));
    assert!(matches!(agg.tick(Some('q'), 'q'), RunPhase::Cancelled));
    assert_eq!(agg.completed, 1);
    assert!(!agg.is_running());
    assert_eq!(agg.footer(), "Completed: 1/3");
    assert_eq!(agg.row_texts(2), vec!["..."; 5]);
}

#[test]
fn early_or_repeated_done_is_not_counted() {
    let mut agg = Aggregator::new(2);
    agg.apply(ProgressEvent::Done { node: 0 });
    assert_eq!(agg.completed, 0);
    for ev in run_node(0, out("OK")) {
        agg.apply(ev);
    }
    agg.apply(ProgressEvent::Done { node: 0 });
    agg.apply(ProgressEvent::Done { node: 7 });
    agg.apply(ProgressEvent::Step { node: 9, step: 0, outcome: Outcome::Passed });
    agg.apply(ProgressEvent::Step { node: 1, step: 0, outcome: Outcome::Pending });
    assert_eq!(agg.completed, 1);
    assert!(matches!(agg.tick(None, 'q'), RunPhase::Running));
}

#[test]
fn no_nodes_is_done_at_once() {
    let mut agg = Aggregator::new(0);
    assert!(matches!(agg.tick(None, 'q'), RunPhase::Done));
    assert_eq!(agg.footer(), "Completed: 0/0");
}

#[test]
fn write_probe_skipped_without_scratch_name() {
    let mut w = NodeWorker::new(1, "/mnt/fs", 10, &Err("entropy source unavailable".to_string()));
    let mut evs = Vec::new();
    while w.next < PROBE_STEPS {
        match w.next_command() {
            Some(_) => evs.push(w.record(out("OK"))),
            None => {
                assert_eq!(w.next, 4);
                evs.push(w.skip_write());
            }
        }
    }
    assert_eq!(evs.len(), 5);
    assert!(is_passed(outcome_of(&evs[3])));
    assert!(matches!(outcome_of(&evs[4]), Outcome::Failed));
    assert!(matches!(w.finish(), ProgressEvent::Done { node: 1 }));
}
