use sidecar_launcher::launcher::{LaunchAction, Launcher, ProcessHandle, SpawnOutcome};
use sidecar_launcher::log::LogEntry;
use sidecar_launcher::strategy::{default_strategies, LaunchStrategy, Program};

fn path(p: &str) -> LaunchStrategy {
    LaunchStrategy::new(Program::Path { path: p.to_string() }, Vec::new())
}

fn failed(reason: &str) -> SpawnOutcome {
    SpawnOutcome::Failed { reason: reason.to_string() }
}

fn expect_spawn(l: &Launcher) -> usize {
    match l.next_action() {
        LaunchAction::Spawn { index } => index,
        other => panic!("expected a spawn, got {:?}", other),
    }
}

#[test]
fn fallback_reaches_third_strategy() {
    let strategies = vec![path("missing-a"), path("missing-b"), path("worker")];
    let mut l = Launcher::new(strategies);
    let mut log: Vec<LogEntry> = Vec::new();

    assert_eq!(expect_spawn(&l), 0);
    log.push(l.record(failed("not found")));
    assert_eq!(expect_spawn(&l), 1);
    log.push(l.record(failed("not found")));
    assert_eq!(expect_spawn(&l), 2);
    assert_eq!(l.strategy(2).args, vec!["--no-browser".to_string()]);
    log.push(l.record(SpawnOutcome::Spawned { pid: 4242 }));

    match l.next_action() {
        LaunchAction::Finished { result: Ok(h) } => {
            assert_eq!(h, ProcessHandle { strategy: 2, pid: 4242 })
        }
        other => panic!("expected success, got {:?}", other),
    }
    let failures = log.iter().filter(|e| matches!(e, LogEntry::SpawnFailed { .. })).count();
    assert_eq!(failures, 2);
    assert_eq!(log[0].render(), "missing-a failed to start: not found");
    assert_eq!(log[1].render(), "missing-b failed to start: not found");
    assert_eq!(log[2].render(), "worker spawned with PID: 4242");
}

#[test]
fn first_success_stops_the_search() {
    let strategies = vec![path("a"), path("b"), path("c"), path("d")];
    let mut l = Launcher::new(strategies);
    let mut tried = Vec::new();
    let world = [false, true, false, false];
    loop {
        match l.next_action() {
            LaunchAction::Spawn { index } => {
                tried.push(index);
                let outcome = if world[index] {
                    SpawnOutcome::Spawned { pid: 7 }
                } else {
                    failed("denied")
                };
                l.record(outcome);
            }
            LaunchAction::Finished { result } => {
                assert_eq!(result.unwrap(), ProcessHandle { strategy: 1, pid: 7 });
                break;
            }
        }
    }
    assert_eq!(tried, vec![0, 1]);
}

#[test]
fn preferred_strategy_succeeds_at_once() {
    let mut l = Launcher::new(vec![path("only")]);
    assert_eq!(expect_spawn(&l), 0);
    l.record(SpawnOutcome::Spawned { pid: 1 });
    match l.next_action() {
        LaunchAction::Finished { result: Ok(h) } => assert_eq!(h.strategy, 0),
        other => panic!("expected success, got {:?}", other),
    }
}

#[test]
fn all_failures_report_first_reason_and_count() {
    let mut l = Launcher::new(vec![path("a"), path("b"), path("c")]);
    let reasons = ["first reason", "second reason", "third reason"];
    for (i, r) in reasons.iter().enumerate() {
        assert_eq!(expect_spawn(&l), i);
        l.record(failed(r));
    }
    match l.next_action() {
        LaunchAction::Finished { result: Err(e) } => {
            assert_eq!(e.first_reason, "first reason");
            assert_eq!(e.attempts, 3);
        }
        other => panic!("expected exhaustion, got {:?}", other),
    }
}

#[test]
fn finished_search_names_no_more_strategies() {
    let mut l = Launcher::new(vec![path("a"), path("b")]);
    l.record(SpawnOutcome::Spawned { pid: 9 });
    for _ in 0..3 {
        assert!(matches!(l.next_action(), LaunchAction::Finished { result: Ok(_) }));
    }
}

#[test]
fn sidecar_failure_names_the_sidecar() {
    let s = LaunchStrategy::new(Program::Sidecar { name: "desktop_main".to_string() }, Vec::new());
    let mut l = Launcher::new(vec![s]);
    let entry = l.record(failed("no such file"));
    assert_eq!(entry.render(), "sidecar desktop_main failed to start: no such file");
}

#[test]
fn default_strategies_in_priority_order() {
    let s = default_strategies();
    let described: Vec<String> = s.iter().map(|x| x.describe()).collect();
    assert_eq!(
        described,
        vec![
            "sidecar desktop_main",
            "desktop_main.exe",
            "../dist/desktop_main.exe",
            "dist/desktop_main.exe",
            "../desktop_main.exe",
            "..\\.venv\\Scripts\\python.exe",
        ]
    );
    for x in &s {
        assert_eq!(x.args.last().map(|a| a.as_str()), Some("--no-browser"));
        assert!(x.working_dir.is_none());
    }
    assert_eq!(s[5].args, vec!["main.py".to_string(), "--no-browser".to_string()]);
}

#[test]
fn strategy_appends_headless_flag() {
    let s = LaunchStrategy::new(
        Program::Path { path: "python".to_string() },
        vec!["main.py".to_string(), "-u".to_string()],
    );
    assert_eq!(s.args, vec!["main.py", "-u", "--no-browser"]);
    let s = s.with_working_dir("/srv/worker".to_string());
    assert_eq!(s.working_dir.as_deref(), Some("/srv/worker"));
    assert_eq!(s.describe(), "python");
}
