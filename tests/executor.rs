use web_automator::executor::{ActionRun, Command, Event, Lookup, LookupAll, Stage};
use web_automator::models::{By, ExecutionError, Instruction};

fn click(by: Option<&str>, ignore: Option<bool>, delay: Option<u64>, stdev: Option<i64>) -> Instruction {
    Instruction::Click {
        selector: "button.ok".to_string(),
        by: by.map(|s| s.to_string()),
        timeout: None,
        delay_ms: delay,
        delay_stdev_ms: stdev,
        ignore_errors: ignore,
    }
}

fn random_click(exhaustive: Option<bool>, exclude: Option<Vec<&str>>) -> Instruction {
    Instruction::RandomClick {
        selector: "a.item".to_string(),
        by: None,
        exclude_text: exclude.map(|v| v.into_iter().map(|s| s.to_string()).collect()),
        timeout: Some(3),
        exhaustive,
        delay_ms: None,
        delay_stdev_ms: None,
    }
}

#[test]
fn click_uses_locator_and_default_timeout() {
    let mut run = ActionRun::new(click(Some("xpath"), None, None, None));
    assert_eq!(
        run.step(Event::Begin),
        Command::FindOne { by: By::XPath, selector: "button.ok".to_string(), timeout_secs: 10 }
    );
    assert_eq!(run.step(Event::FoundOne(Lookup::Found)), Command::ClickFound);
    assert_eq!(run.step(Event::ScriptRan(true)), Command::Sleep(500));
    assert_eq!(run.step(Event::Slept), Command::Finish(None));
    assert_eq!(run.outcome(), Some(None));
}

#[test]
fn click_by_id_and_unknown_kind_default_to_css() {
    let mut run = ActionRun::new(click(Some("id"), None, None, None));
    assert!(matches!(run.step(Event::Begin), Command::FindOne { by: By::Id, .. }));
    let mut run = ActionRun::new(click(Some("name"), None, None, None));
    assert!(matches!(run.step(Event::Begin), Command::FindOne { by: By::Css, .. }));
}

#[test]
fn click_lookup_errors_fail_unless_ignored() {
    let mut run = ActionRun::new(click(None, None, None, None));
    run.step(Event::Begin);
    assert_eq!(
        run.step(Event::FoundOne(Lookup::TimedOut)),
        Command::Finish(Some(ExecutionError::ElementLookupTimedOut))
    );
    let mut run = ActionRun::new(click(None, Some(false), None, None));
    run.step(Event::Begin);
    assert_eq!(
        run.step(Event::FoundOne(Lookup::Failed)),
        Command::Finish(Some(ExecutionError::ElementLookupFailed))
    );
    let mut run = ActionRun::new(click(None, Some(true), None, None));
    run.step(Event::Begin);
    assert_eq!(run.step(Event::FoundOne(Lookup::Failed)), Command::Sleep(500));
    assert_eq!(run.step(Event::Slept), Command::Finish(None));
}

#[test]
fn click_script_failure_is_reported() {
    let mut run = ActionRun::new(click(None, Some(true), None, None));
    run.step(Event::Begin);
    run.step(Event::FoundOne(Lookup::Found));
    assert_eq!(
        run.step(Event::ScriptRan(false)),
        Command::Finish(Some(ExecutionError::ScriptExecutionFailed))
    );
}

#[test]
fn click_delay_fixed_and_jittered() {
    let mut run = ActionRun::new(click(None, None, Some(1200), None));
    run.step(Event::Begin);
    run.step(Event::FoundOne(Lookup::Found));
    assert_eq!(run.step(Event::ScriptRan(true)), Command::Sleep(1200));
    assert_eq!(run.step(Event::Slept), Command::Sleep(500));

    let mut run = ActionRun::new(click(None, None, Some(1200), Some(300)));
    run.step(Event::Begin);
    run.step(Event::FoundOne(Lookup::Found));
    assert_eq!(
        run.step(Event::ScriptRan(true)),
        Command::SampleNormal { mean_ms: 1200, stdev_ms: 300 }
    );
    assert_eq!(run.step(Event::Sampled(1375)), Command::Sleep(1375));
}

#[test]
fn wait_fixed_jittered_and_invalid() {
    let mut run = ActionRun::new(Instruction::Wait { millis: 2000, stdev_ms: None });
    assert_eq!(run.step(Event::Begin), Command::Sleep(2000));
    assert_eq!(run.step(Event::Slept), Command::Sleep(500));
    assert_eq!(run.step(Event::Slept), Command::Finish(None));

    let mut run = ActionRun::new(Instruction::Wait { millis: 2000, stdev_ms: Some(500) });
    assert_eq!(run.step(Event::Begin), Command::SampleNormal { mean_ms: 2000, stdev_ms: 500 });
    assert_eq!(run.step(Event::Sampled(-40)), Command::Sleep(0));

    let mut run = ActionRun::new(Instruction::Wait { millis: 2000, stdev_ms: Some(-1) });
    assert_eq!(
        run.step(Event::Begin),
        Command::Finish(Some(ExecutionError::InvalidDistributionParameters))
    );
}

#[test]
fn scroll_amount_and_default() {
    let mut run = ActionRun::new(Instruction::Scroll { amount: None });
    assert_eq!(run.step(Event::Begin), Command::Scroll(100));
    let mut run = ActionRun::new(Instruction::Scroll { amount: Some(-250) });
    assert_eq!(run.step(Event::Begin), Command::Scroll(-250));
    assert_eq!(
        run.step(Event::ScriptRan(false)),
        Command::Finish(Some(ExecutionError::ScriptExecutionFailed))
    );
}

#[test]
fn navigate_failures_critical_and_not() {
    let nav = |critical| Instruction::Navigate { url: "https://bad".to_string(), critical };
    let mut run = ActionRun::new(nav(Some(true)));
    assert_eq!(run.step(Event::Begin), Command::Navigate("https://bad".to_string()));
    assert_eq!(
        run.step(Event::Navigated(false)),
        Command::Finish(Some(ExecutionError::CriticalNavigationFailed))
    );
    let mut run = ActionRun::new(nav(None));
    run.step(Event::Begin);
    assert_eq!(
        run.step(Event::Navigated(false)),
        Command::Finish(Some(ExecutionError::NavigationFailed))
    );
}

#[test]
fn exhaustive_random_click_clicks_every_element() {
    let mut run = ActionRun::new(random_click(Some(true), None));
    let find = Command::FindAll { by: By::Css, selector: "a.item".to_string(), timeout_secs: 3 };
    assert_eq!(run.step(Event::Begin), find);
    let mut clicks = 0;
    let mut remaining = 3usize;
    loop {
        match run.step(Event::FoundAll(LookupAll::Found(remaining))) {
            Command::ClickCandidate(i) => {
                assert!(i < remaining);
                clicks += 1;
                remaining -= 1;
                assert_eq!(run.step(Event::ScriptRan(true)), find);
            }
            Command::Sleep(ms) => {
                assert_eq!(ms, 500);
                break;
            }
            other => panic!("unexpected {:?}", other),
        }
    }
    assert_eq!(clicks, 3);
    assert_eq!(run.step(Event::Slept), Command::Finish(None));
}

#[test]
fn single_random_click_stops_after_one() {
    let mut run = ActionRun::new(random_click(None, None));
    run.step(Event::Begin);
    assert!(matches!(run.step(Event::FoundAll(LookupAll::Found(4))), Command::ClickCandidate(i) if i < 4));
    assert_eq!(run.step(Event::ScriptRan(true)), Command::Sleep(500));
}

#[test]
fn random_click_lookup_failure_ends_quietly() {
    let mut run = ActionRun::new(random_click(Some(true), None));
    run.step(Event::Begin);
    assert_eq!(run.step(Event::FoundAll(LookupAll::TimedOut)), Command::Sleep(500));
    assert_eq!(run.step(Event::Slept), Command::Finish(None));
}

#[test]
fn random_click_excludes_by_text_and_keeps_unreadable() {
    let mut run = ActionRun::new(random_click(None, Some(vec!["skip", "ad"])));
    run.step(Event::Begin);
    assert_eq!(run.step(Event::FoundAll(LookupAll::Found(4))), Command::ReadTexts);
    let texts = vec![
        Some("skip intro".to_string()),
        None,
        Some("Buy now".to_string()),
        Some("an ad".to_string()),
    ];
    assert_eq!(run.advance(Event::Texts(texts)), Command::Choose(2));
    assert!(matches!(run.stage, Stage::Choosing { count: 4, .. }));
    assert_eq!(run.advance(Event::Chosen(1)), Command::ClickCandidate(2));
}

#[test]
fn random_click_with_every_candidate_excluded_settles() {
    let mut run = ActionRun::new(random_click(Some(true), Some(vec!["x"])));
    run.step(Event::Begin);
    run.step(Event::FoundAll(LookupAll::Found(2)));
    let texts = vec![Some("x1".to_string()), Some("2x".to_string())];
    assert_eq!(run.step(Event::Texts(texts)), Command::Sleep(500));
}

#[test]
fn mismatched_event_is_an_error() {
    let mut run = ActionRun::new(Instruction::Scroll { amount: None });
    assert_eq!(run.step(Event::Slept), Command::Finish(Some(ExecutionError::UnexpectedEvent)));
    assert_eq!(run.step(Event::Begin), Command::Finish(Some(ExecutionError::UnexpectedEvent)));
}
