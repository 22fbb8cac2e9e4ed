use web_automator::config::{ConfigYaml, DomainConfig, LoopConfig};
use web_automator::executor::{Command, Event, Lookup};
use web_automator::models::{By, ExecutionError, Instruction};
use web_automator::session::{DomainRun, RunCommand, RunEvent, RunOutcome, SkipReason};

fn config(instructions: &str, skip: Option<Vec<&str>>, loops: Option<Vec<LoopConfig>>) -> ConfigYaml {
    ConfigYaml {
        domains: vec![(
            "example.com".to_string(),
            DomainConfig {
                instructions: instructions.to_string(),
                skip_elements: skip.map(|v| v.into_iter().map(|s| s.to_string()).collect()),
                loop_config: loops,
                cookie_file: None,
            },
        )],
    }
}

/// Starts a run whose instruction file exists; returns the command after
/// the file check.
fn begin(run: &mut DomainRun) -> RunCommand {
    assert_eq!(run.step(RunEvent::Begin), RunCommand::CheckFile("/srv/steps.yaml".to_string()));
    run.step(RunEvent::FileChecked(true))
}

fn click() -> Instruction {
    Instruction::Click {
        selector: "#go".to_string(),
        by: None,
        timeout: None,
        delay_ms: None,
        delay_stdev_ms: None,
        ignore_errors: None,
    }
}

#[test]
fn critical_navigation_failure_aborts_before_click() {
    let cfg = config("/srv/steps.yaml", None, None);
    let mut run = DomainRun::new(&cfg, "/srv", "https://example.com/".to_string(), None);
    assert_eq!(begin(&mut run), RunCommand::Navigate("https://example.com/".to_string()));
    assert_eq!(
        run.step(RunEvent::Navigated(true)),
        RunCommand::LoadInstructions("/srv/steps.yaml".to_string())
    );
    let instructions = vec![
        Instruction::Navigate { url: "https://bad".to_string(), critical: Some(true) },
        click(),
    ];
    assert_eq!(
        run.step(RunEvent::Loaded(Some(instructions))),
        RunCommand::Action(Command::Navigate("https://bad".to_string()))
    );
    assert_eq!(
        run.step(RunEvent::Action(Event::Navigated(false))),
        RunCommand::Finish(RunOutcome::Aborted(ExecutionError::CriticalNavigationFailed))
    );
    assert_eq!(
        run.outcome(),
        Some(RunOutcome::Aborted(ExecutionError::CriticalNavigationFailed))
    );
}

#[test]
fn skip_selector_present_skips_the_target() {
    let cfg = config("/srv/steps.yaml", Some(vec!["div.banned"]), None);
    let mut run = DomainRun::new(&cfg, "/srv", "https://example.com/page".to_string(), None);
    assert_eq!(begin(&mut run), RunCommand::Probe("div.banned".to_string()));
    assert_eq!(
        run.step(RunEvent::Probed(true)),
        RunCommand::Finish(RunOutcome::Skipped(SkipReason::PreconditionBlocked))
    );
}

#[test]
fn gate_probes_in_order_until_first_present() {
    let cfg = config("/srv/steps.yaml", Some(vec!["S1", "S2", "S3"]), None);
    let mut run = DomainRun::new(&cfg, "/srv", "https://example.com/".to_string(), None);
    assert_eq!(begin(&mut run), RunCommand::Probe("S1".to_string()));
    assert_eq!(run.step(RunEvent::Probed(false)), RunCommand::Probe("S2".to_string()));
    assert_eq!(
        run.step(RunEvent::Probed(true)),
        RunCommand::Finish(RunOutcome::Skipped(SkipReason::PreconditionBlocked))
    );
    assert_eq!(run.gate.next, 2);
}

#[test]
fn gate_with_no_selector_present_goes_on() {
    let cfg = config("/srv/steps.yaml", Some(vec!["S1", "S2"]), None);
    let mut run = DomainRun::new(&cfg, "/srv", "https://example.com/".to_string(), None);
    begin(&mut run);
    run.step(RunEvent::Probed(false));
    assert_eq!(
        run.step(RunEvent::Probed(false)),
        RunCommand::Navigate("https://example.com/".to_string())
    );
    assert_eq!(run.gate.verdict, Some(false));
}

#[test]
fn unknown_domain_is_skipped() {
    let cfg = config("/srv/steps.yaml", None, None);
    let mut run = DomainRun::new(&cfg, "/srv", "https://other.org/".to_string(), None);
    assert_eq!(
        run.step(RunEvent::Begin),
        RunCommand::Finish(RunOutcome::Skipped(SkipReason::ConfigurationMissing))
    );
}

#[test]
fn missing_absolute_instruction_file_is_skipped() {
    let cfg = config("/srv/steps.yaml", None, None);
    let mut run = DomainRun::new(&cfg, "/etc", "https://example.com/".to_string(), None);
    assert_eq!(run.step(RunEvent::Begin), RunCommand::CheckFile("/srv/steps.yaml".to_string()));
    assert_eq!(
        run.step(RunEvent::FileChecked(false)),
        RunCommand::Finish(RunOutcome::Skipped(SkipReason::ConfigurationMissing))
    );
}

#[test]
fn relative_instruction_file_must_exist() {
    let cfg = config("steps.yaml", None, None);
    let mut run = DomainRun::new(&cfg, "/srv/conf", "https://example.com/".to_string(), None);
    assert_eq!(
        run.step(RunEvent::Begin),
        RunCommand::CheckFile("/srv/conf/steps.yaml".to_string())
    );
    assert_eq!(
        run.step(RunEvent::FileChecked(false)),
        RunCommand::Finish(RunOutcome::Skipped(SkipReason::ConfigurationMissing))
    );
}

#[test]
fn cookies_are_synced_before_loading() {
    let cfg = config("/srv/steps.yaml", None, None);
    let mut run = DomainRun::new(
        &cfg,
        "/srv",
        "https://example.com/".to_string(),
        Some("cookies.json".to_string()),
    );
    begin(&mut run);
    assert_eq!(
        run.step(RunEvent::Navigated(true)),
        RunCommand::SyncCookies {
            url: "https://example.com/".to_string(),
            cookie_file: "cookies.json".to_string()
        }
    );
    assert_eq!(
        run.step(RunEvent::CookiesSynced(false)),
        RunCommand::Finish(RunOutcome::Aborted(ExecutionError::CookieSyncFailed))
    );
}

#[test]
fn looped_instructions_run_in_planned_order() {
    let loops = vec![LoopConfig { times: 2, from_action_num: 0, to_action_num: 0 }];
    let cfg = config("/srv/steps.yaml", None, Some(loops));
    let mut run = DomainRun::new(&cfg, "/srv", "https://example.com/".to_string(), None);
    begin(&mut run);
    run.step(RunEvent::Navigated(true));
    let instructions = vec![Instruction::Scroll { amount: Some(40) }, click()];
    assert_eq!(
        run.step(RunEvent::Loaded(Some(instructions))),
        RunCommand::Action(Command::Scroll(40))
    );
    run.step(RunEvent::Action(Event::ScriptRan(true)));
    assert_eq!(
        run.step(RunEvent::Action(Event::Slept)),
        RunCommand::Action(Command::Scroll(40))
    );
    run.step(RunEvent::Action(Event::ScriptRan(true)));
    assert_eq!(
        run.step(RunEvent::Action(Event::Slept)),
        RunCommand::Action(Command::FindOne {
            by: By::Css,
            selector: "#go".to_string(),
            timeout_secs: 10
        })
    );
    assert_eq!(
        run.step(RunEvent::Action(Event::FoundOne(Lookup::Found))),
        RunCommand::Action(Command::ClickFound)
    );
    run.step(RunEvent::Action(Event::ScriptRan(true)));
    assert_eq!(
        run.step(RunEvent::Action(Event::Slept)),
        RunCommand::Finish(RunOutcome::Completed)
    );
}

#[test]
fn unreadable_instructions_and_bad_ranges_abort() {
    let cfg = config("/srv/steps.yaml", None, None);
    let mut run = DomainRun::new(&cfg, "/srv", "https://example.com/".to_string(), None);
    begin(&mut run);
    run.step(RunEvent::Navigated(true));
    assert_eq!(
        run.step(RunEvent::Loaded(None)),
        RunCommand::Finish(RunOutcome::Aborted(ExecutionError::InstructionsUnreadable))
    );

    let loops = vec![LoopConfig { times: 1, from_action_num: 2, to_action_num: 1 }];
    let cfg = config("/srv/steps.yaml", None, Some(loops));
    let mut run = DomainRun::new(&cfg, "/srv", "https://example.com/".to_string(), None);
    begin(&mut run);
    run.step(RunEvent::Navigated(true));
    assert_eq!(
        run.step(RunEvent::Loaded(Some(vec![click(), click(), click()]))),
        RunCommand::Finish(RunOutcome::Aborted(ExecutionError::InvalidLoopRange))
    );
}

#[test]
fn navigation_failure_of_target_aborts() {
    let cfg = config("/srv/steps.yaml", None, None);
    let mut run = DomainRun::new(&cfg, "/srv", "https://example.com/".to_string(), None);
    begin(&mut run);
    assert_eq!(
        run.step(RunEvent::Navigated(false)),
        RunCommand::Finish(RunOutcome::Aborted(ExecutionError::NavigationFailed))
    );
}

#[test]
fn empty_instruction_list_completes() {
    let cfg = config("/srv/steps.yaml", None, None);
    let mut run = DomainRun::new(&cfg, "/srv", "https://example.com/".to_string(), None);
    begin(&mut run);
    run.step(RunEvent::Navigated(true));
    assert_eq!(
        run.step(RunEvent::Loaded(Some(vec![]))),
        RunCommand::Finish(RunOutcome::Completed)
    );
}
