use vstd::prelude::*;

use crate::models::{By, ExecutionError, Instruction};
use crate::planner::range_seq;
use crate::text::{contains_seq, contains_str, same_text};
use crate::timing::{jittered, jittered_wait};

verus! {

/// Pause after every action before the next one is dispatched.
pub const SETTLE_MS: u64 = 500;

/// Lookup timeout when an action sets none.
pub const DEFAULT_TIMEOUT_SECS: u64 = 10;

/// Scroll distance when a scroll sets none.
pub const DEFAULT_SCROLL: i64 = 100;

/// How a lookup of one element ended.
#[derive(Debug, Clone, Copy, PartialEq, Eq, Structural)]
pub enum Lookup {
    Found,
    TimedOut,
    Failed,
}

/// How a lookup of all matching elements ended; `Found` carries how many.
#[derive(Debug, Clone, Copy, PartialEq, Eq, Structural)]
pub enum LookupAll {
    Found(usize),
    TimedOut,
    Failed,
}

/// What the driver reports back after performing a command.
#[derive(Debug, Clone)]
pub enum Event {
    /// Start the action.
    Begin,
    /// A navigation ended; `true` on success.
    Navigated(bool),
    FoundOne(Lookup),
    FoundAll(LookupAll),
    /// The text of each element of the last `FindAll`, `None` where it
    /// could not be read.
    Texts(Vec<Option<String>>),
    /// An index drawn uniformly below the bound of a `Choose`.
    Chosen(usize),
    /// A click or scroll script ran; `true` on success.
    ScriptRan(bool),
    /// One draw of a normal distribution, in milliseconds.
    Sampled(i64),
    /// A `Sleep` is over.
    Slept,
}

/// What the driver is to do next.
#[derive(Debug, Clone, PartialEq, Eq)]
pub enum Command {
    Navigate(String),
    FindOne { by: By, selector: String, timeout_secs: u64 },
    FindAll { by: By, selector: String, timeout_secs: u64 },
    /// Read the text of every element of the last `FindAll`.
    ReadTexts,
    /// Draw an index uniformly below the bound.
    Choose(usize),
    /// Click, by script, the element of the last `FindOne`.
    ClickFound,
    /// Click, by script, the element at this index of the last `FindAll`.
    ClickCandidate(usize),
    /// Scroll down, by script, by this many pixels.
    Scroll(i64),
    /// Draw from a normal distribution with this mean and deviation.
    SampleNormal { mean_ms: u64, stdev_ms: i64 },
    Sleep(u64),
    /// The action is over: completed (`None`) or stopped by this error.
    Finish(Option<ExecutionError>),
}

/// Where an action stands between two events.
#[derive(Debug, Clone)]
pub enum Stage {
    Ready,
    Navigating,
    Finding,
    Clicking,
    Scrolling,
    Sampling,
    Delaying,
    Settling,
    Collecting,
    Reading(usize),
    /// Waiting for a draw among the candidates of `count` found elements,
    /// filtered by these texts when the action excludes some.
    Choosing { count: usize, texts: Option<Vec<Option<String>>> },
    ClickingCandidate,
    Done(Option<ExecutionError>),
}

/// One instruction on its way through the remote session.
#[derive(Debug, Clone)]
pub struct ActionRun {
    pub instruction: Instruction,
    pub stage: Stage,
}

pub open spec fn locator_of(by: Option<String>) -> By {
    match by {
        Some(s) => if s@ == "id"@ {
            By::Id
        } else if s@ == "xpath"@ {
            By::XPath
        } else {
            By::Css
        },
        None => By::Css,
    }
}

pub open spec fn timeout_of(t: Option<u64>) -> u64 {
    match t {
        Some(v) => v,
        None => DEFAULT_TIMEOUT_SECS,
    }
}

pub open spec fn find_all_of(i: Instruction) -> Command {
    match i {
        Instruction::RandomClick { selector, by, timeout, .. } => Command::FindAll {
            by: locator_of(by),
            selector,
            timeout_secs: timeout_of(timeout),
        },
        _ => Command::Finish(Some(ExecutionError::UnexpectedEvent)),
    }
}

pub open spec fn settle() -> (Stage, Command) {
    (Stage::Settling, Command::Sleep(SETTLE_MS))
}

pub open spec fn fail(e: ExecutionError) -> (Stage, Command) {
    (Stage::Done(Some(e)), Command::Finish(Some(e)))
}

/// A pause of `delay` milliseconds, jittered when `stdev` is set, then `next`.
pub open spec fn pause(delay: Option<u64>, stdev: Option<i64>, next: (Stage, Command)) -> (
    Stage,
    Command,
) {
    match delay {
        None => next,
        Some(d) => match stdev {
            None => (Stage::Delaying, Command::Sleep(d)),
            Some(s) => if s < 0 {
                fail(ExecutionError::InvalidDistributionParameters)
            } else {
                (Stage::Sampling, Command::SampleNormal { mean_ms: d, stdev_ms: s })
            },
        },
    }
}

pub open spec fn is_exhaustive(i: Instruction) -> bool {
    match i {
        Instruction::RandomClick { exhaustive, .. } => exhaustive == Some(true),
        _ => false,
    }
}

/// What follows a pause: another round of an exhaustive random click, else
/// the settle pause.
pub open spec fn after_pause(i: Instruction) -> (Stage, Command) {
    if is_exhaustive(i) {
        (Stage::Collecting, find_all_of(i))
    } else {
        settle()
    }
}

/// What follows a successful click.
pub open spec fn after_click(i: Instruction) -> (Stage, Command) {
    match i {
        Instruction::Click { delay_ms, delay_stdev_ms, .. } => pause(
            delay_ms,
            delay_stdev_ms,
            settle(),
        ),
        Instruction::RandomClick { delay_ms, delay_stdev_ms, .. } => if is_exhaustive(i) {
            pause(delay_ms, delay_stdev_ms, after_pause(i))
        } else {
            settle()
        },
        _ => settle(),
    }
}

pub open spec fn start(i: Instruction) -> (Stage, Command) {
    match i {
        Instruction::Navigate { url, .. } => (Stage::Navigating, Command::Navigate(url)),
        Instruction::Click { selector, by, timeout, .. } => (
            Stage::Finding,
            Command::FindOne { by: locator_of(by), selector, timeout_secs: timeout_of(timeout) },
        ),
        Instruction::Wait { millis, stdev_ms } => pause(Some(millis), stdev_ms, settle()),
        Instruction::Scroll { amount } => (
            Stage::Scrolling,
            Command::Scroll(
                match amount {
                    Some(a) => a,
                    None => DEFAULT_SCROLL,
                },
            ),
        ),
        Instruction::RandomClick { .. } => (Stage::Collecting, find_all_of(i)),
    }
}

pub open spec fn stdev_of(i: Instruction) -> int {
    match i {
        Instruction::Click { delay_stdev_ms: Some(s), .. } => s as int,
        Instruction::Wait { stdev_ms: Some(s), .. } => s as int,
        Instruction::RandomClick { delay_stdev_ms: Some(s), .. } => s as int,
        _ => 0,
    }
}

pub open spec fn excluded_of(i: Instruction) -> Option<Seq<String>> {
    match i {
        Instruction::RandomClick { exclude_text: Some(ex), .. } => Some(ex@),
        _ => None,
    }
}

/// An element stays a candidate unless its text, when it could be read,
/// holds one of the excluded strings.
pub open spec fn kept(text: Option<String>, ex: Seq<String>) -> bool {
    match text {
        None => true,
        Some(t) => forall|k: int| 0 <= k < ex.len() ==> !contains_seq(t@, #[trigger] ex[k]@),
    }
}

/// The indices below `upto` of the elements that stay candidates.
pub open spec fn candidates(texts: Seq<Option<String>>, ex: Seq<String>, upto: int) -> Seq<usize>
    decreases upto,
{
    if upto <= 0 {
        Seq::empty()
    } else {
        let before = candidates(texts, ex, upto - 1);
        if kept(texts[upto - 1], ex) {
            before.push((upto - 1) as usize)
        } else {
            before
        }
    }
}

/// The candidates while the action waits for a draw.
pub open spec fn choice_set(count: usize, texts: Option<Vec<Option<String>>>, i: Instruction) -> Seq<
    usize,
> {
    match texts {
        None => range_seq(0, count as int),
        Some(ts) => match excluded_of(i) {
            Some(ex) => if count <= ts@.len() {
                candidates(ts@, ex, count as int)
            } else {
                Seq::empty()
            },
            None => range_seq(0, count as int),
        },
    }
}

/// Offer a draw among `n` candidates, or settle when there are none.
pub open spec fn choose_among(count: usize, texts: Option<Vec<Option<String>>>, n: int) -> (
    Stage,
    Command,
) {
    if n == 0 {
        settle()
    } else {
        (Stage::Choosing { count, texts }, Command::Choose(n as usize))
    }
}

/// One transition of an action: from the instruction, the stage and the
/// driver's event to the next stage and command.
pub open spec fn action_step(i: Instruction, s: Stage, e: Event) -> (Stage, Command) {
    match (s, e) {
        (Stage::Ready, Event::Begin) => start(i),
        (Stage::Navigating, Event::Navigated(ok)) => if ok {
            settle()
        } else if i matches Instruction::Navigate { critical: Some(true), .. } {
            fail(ExecutionError::CriticalNavigationFailed)
        } else {
            fail(ExecutionError::NavigationFailed)
        },
        (Stage::Finding, Event::FoundOne(l)) => {
            let ignore = i matches Instruction::Click { ignore_errors: Some(true), .. };
            match l {
                Lookup::Found => (Stage::Clicking, Command::ClickFound),
                Lookup::TimedOut => if ignore {
                    settle()
                } else {
                    fail(ExecutionError::ElementLookupTimedOut)
                },
                Lookup::Failed => if ignore {
                    settle()
                } else {
                    fail(ExecutionError::ElementLookupFailed)
                },
            }
        },
        (Stage::Clicking, Event::ScriptRan(ok)) => if ok {
            after_click(i)
        } else {
            fail(ExecutionError::ScriptExecutionFailed)
        },
        (Stage::ClickingCandidate, Event::ScriptRan(ok)) => if ok {
            after_click(i)
        } else {
            fail(ExecutionError::ScriptExecutionFailed)
        },
        (Stage::Scrolling, Event::ScriptRan(ok)) => if ok {
            settle()
        } else {
            fail(ExecutionError::ScriptExecutionFailed)
        },
        (Stage::Sampling, Event::Sampled(d)) => match jittered(stdev_of(i), d as int) {
            Ok(ms) => (Stage::Delaying, Command::Sleep(ms)),
            Err(err) => fail(err),
        },
        (Stage::Delaying, Event::Slept) => after_pause(i),
        (Stage::Settling, Event::Slept) => (Stage::Done(None), Command::Finish(None)),
        (Stage::Collecting, Event::FoundAll(l)) => match l {
            LookupAll::Found(c) => if c == 0 {
                settle()
            } else if excluded_of(i) is Some {
                (Stage::Reading(c), Command::ReadTexts)
            } else {
                choose_among(c, None, c as int)
            },
            _ => settle(),
        },
        (Stage::Reading(c), Event::Texts(ts)) => match excluded_of(i) {
            Some(ex) => if ts@.len() != c {
                fail(ExecutionError::UnexpectedEvent)
            } else {
                choose_among(c, Some(ts), candidates(ts@, ex, c as int).len() as int)
            },
            None => fail(ExecutionError::UnexpectedEvent),
        },
        (Stage::Choosing { count, texts }, Event::Chosen(r)) => {
            let cs = choice_set(count, texts, i);
            if r < cs.len() {
                (Stage::ClickingCandidate, Command::ClickCandidate(cs[r as int]))
            } else {
                fail(ExecutionError::UnexpectedEvent)
            }
        },
        (Stage::Done(r), _) => (Stage::Done(r), Command::Finish(r)),
        _ => fail(ExecutionError::UnexpectedEvent),
    }
}

/// Relies on rand's `Rng::gen_range` on `0..n` with the thread-local
/// generator: a value inside the range, which must not be empty (it panics
/// on an empty one).
#[verifier::external_body]
pub(crate) fn random_index(n: usize) -> (r: usize)
    requires
        n > 0,
    ensures
        r < n,
{
    rand::Rng::gen_range(&mut rand::thread_rng(), 0..n)
}

/// There are never more candidates than elements.
pub proof fn lemma_candidates_len(texts: Seq<Option<String>>, ex: Seq<String>, upto: int)
    ensures
        candidates(texts, ex, upto).len() <= if upto < 0 { 0 } else { upto },
    decreases upto,
{
    if upto > 0 {
        lemma_candidates_len(texts, ex, upto - 1);
    }
}

/// A draw is only ever asked for among at least one candidate, while the
/// action waits for it, never as an action starts, and never right after
/// one was made.
pub proof fn lemma_choose_positive(i: Instruction, s: Stage, e: Event)
    ensures
        action_step(i, s, e).1 matches Command::Choose(n) ==> n > 0 && action_step(
            i,
            s,
            e,
        ).0 is Choosing,
        (s is Ready || e is Chosen) ==> !(action_step(i, s, e).1 is Choose),
{
    if let (Stage::Reading(c), Event::Texts(ts)) = (s, e) {
        if let Some(ex) = excluded_of(i) {
            lemma_candidates_len(ts@, ex, c as int);
        }
    }
}

fn locator(by: &Option<String>) -> (r: By)
    ensures
        r == locator_of(*by),
{
    match by {
        Some(s) => if same_text(s.as_str(), "id") {
            By::Id
        } else if same_text(s.as_str(), "xpath") {
            By::XPath
        } else {
            By::Css
        },
        None => By::Css,
    }
}

fn timeout_or_default(t: Option<u64>) -> (r: u64)
    ensures
        r == timeout_of(t),
{
    match t {
        Some(v) => v,
        None => DEFAULT_TIMEOUT_SECS,
    }
}

fn settle_now() -> (r: (Stage, Command))
    ensures
        r == settle(),
{
    (Stage::Settling, Command::Sleep(SETTLE_MS))
}

fn fail_with(e: ExecutionError) -> (r: (Stage, Command))
    ensures
        r == fail(e),
{
    (Stage::Done(Some(e)), Command::Finish(Some(e)))
}

fn find_all_command(i: &Instruction) -> (c: Command)
    ensures
        c == find_all_of(*i),
{
    match i {
        Instruction::RandomClick { selector, by, timeout, .. } => Command::FindAll {
            by: locator(by),
            selector: selector.clone(),
            timeout_secs: timeout_or_default(*timeout),
        },
        _ => Command::Finish(Some(ExecutionError::UnexpectedEvent)),
    }
}

fn pause_then(delay: Option<u64>, stdev: Option<i64>, next: (Stage, Command)) -> (r: (
    Stage,
    Command,
))
    ensures
        r == pause(delay, stdev, next),
{
    match delay {
        None => next,
        Some(d) => match stdev {
            None => (Stage::Delaying, Command::Sleep(d)),
            Some(s) => if s < 0 {
                fail_with(ExecutionError::InvalidDistributionParameters)
            } else {
                (Stage::Sampling, Command::SampleNormal { mean_ms: d, stdev_ms: s })
            },
        },
    }
}

fn exhaustive_of(i: &Instruction) -> (r: bool)
    ensures
        r == is_exhaustive(*i),
{
    match i {
        Instruction::RandomClick { exhaustive, .. } => match exhaustive {
            Some(true) => true,
            _ => false,
        },
        _ => false,
    }
}

fn next_after_pause(i: &Instruction) -> (r: (Stage, Command))
    ensures
        r == after_pause(*i),
{
    if exhaustive_of(i) {
        (Stage::Collecting, find_all_command(i))
    } else {
        settle_now()
    }
}

fn next_after_click(i: &Instruction) -> (r: (Stage, Command))
    ensures
        r == after_click(*i),
{
    match i {
        Instruction::Click { delay_ms, delay_stdev_ms, .. } => pause_then(
            *delay_ms,
            *delay_stdev_ms,
            settle_now(),
        ),
        Instruction::RandomClick { delay_ms, delay_stdev_ms, .. } => if exhaustive_of(i) {
            pause_then(*delay_ms, *delay_stdev_ms, next_after_pause(i))
        } else {
            settle_now()
        },
        _ => settle_now(),
    }
}

fn first_step(i: &Instruction) -> (r: (Stage, Command))
    ensures
        r == start(*i),
{
    match i {
        Instruction::Navigate { url, .. } => (Stage::Navigating, Command::Navigate(url.clone())),
        Instruction::Click { selector, by, timeout, .. } => (
            Stage::Finding,
            Command::FindOne {
                by: locator(by),
                selector: selector.clone(),
                timeout_secs: timeout_or_default(*timeout),
            },
        ),
        Instruction::Wait { millis, stdev_ms } => pause_then(Some(*millis), *stdev_ms, settle_now()),
        Instruction::Scroll { amount } => (
            Stage::Scrolling,
            Command::Scroll(
                match amount {
                    Some(a) => *a,
                    None => DEFAULT_SCROLL,
                },
            ),
        ),
        Instruction::RandomClick { .. } => (Stage::Collecting, find_all_command(i)),
    }
}

fn stdev_in(i: &Instruction) -> (r: i64)
    ensures
        r == stdev_of(*i),
{
    match i {
        Instruction::Click { delay_stdev_ms: Some(s), .. } => *s,
        Instruction::Wait { stdev_ms: Some(s), .. } => *s,
        Instruction::RandomClick { delay_stdev_ms: Some(s), .. } => *s,
        _ => 0,
    }
}

/// Whether an element with this text stays a candidate.
pub fn is_kept(text: &Option<String>, ex: &Vec<String>) -> (r: bool)
    ensures
        r == kept(*text, ex@),
{
    match text {
        None => true,
        Some(t) => {
            let mut k: usize = 0;
            while k < ex.len()
                invariant
                    *text == Some(*t),
                    k <= ex@.len(),
                    forall|j: int| 0 <= j < k ==> !contains_seq(t@, #[trigger] ex@[j]@),
                decreases ex@.len() - k,
            {
                if contains_str(t.as_str(), ex[k].as_str()) {
                    assert(contains_seq(t@, ex@[k as int]@));
                    assert(!kept(*text, ex@));
                    return false;
                }
                k = k + 1;
            }
            true
        },
    }
}

/// The indices, below `count`, of the elements that stay candidates.
pub fn candidate_indices(texts: &Vec<Option<String>>, ex: &Vec<String>, count: usize) -> (r: Vec<
    usize,
>)
    requires
        count <= texts@.len(),
    ensures
        r@ == candidates(texts@, ex@, count as int),
{
    let mut r: Vec<usize> = Vec::new();
    let mut j: usize = 0;
    while j < count
        invariant
            j <= count <= texts@.len(),
            r@ == candidates(texts@, ex@, j as int),
        decreases count - j,
    {
        if is_kept(&texts[j], ex) {
            r.push(j);
        }
        j = j + 1;
    }
    r
}

fn offer_choice(count: usize, texts: Option<Vec<Option<String>>>, n: usize) -> (r: (
    Stage,
    Command,
))
    ensures
        r == choose_among(count, texts, n as int),
{
    if n == 0 {
        settle_now()
    } else {
        (Stage::Choosing { count, texts }, Command::Choose(n))
    }
}

/// One transition of an action, as `action_step` states it.
pub fn action_transition(i: &Instruction, stage: &Stage, event: Event) -> (r: (Stage, Command))
    ensures
        r == action_step(*i, *stage, event),
{
    match event {
        Event::Begin => match stage {
            Stage::Ready => first_step(i),
            Stage::Done(o) => (Stage::Done(*o), Command::Finish(*o)),
            _ => fail_with(ExecutionError::UnexpectedEvent),
        },
        Event::Navigated(ok) => match stage {
            Stage::Navigating => if ok {
                settle_now()
            } else {
                match i {
                    Instruction::Navigate { critical: Some(true), .. } => fail_with(
                        ExecutionError::CriticalNavigationFailed,
                    ),
                    _ => fail_with(ExecutionError::NavigationFailed),
                }
            },
            Stage::Done(o) => (Stage::Done(*o), Command::Finish(*o)),
            _ => fail_with(ExecutionError::UnexpectedEvent),
        },
        Event::FoundOne(l) => match stage {
            Stage::Finding => {
                let ignore = match i {
                    Instruction::Click { ignore_errors: Some(true), .. } => true,
                    _ => false,
                };
                match l {
                    Lookup::Found => (Stage::Clicking, Command::ClickFound),
                    Lookup::TimedOut => if ignore {
                        settle_now()
                    } else {
                        fail_with(ExecutionError::ElementLookupTimedOut)
                    },
                    Lookup::Failed => if ignore {
                        settle_now()
                    } else {
                        fail_with(ExecutionError::ElementLookupFailed)
                    },
                }
            },
            Stage::Done(o) => (Stage::Done(*o), Command::Finish(*o)),
            _ => fail_with(ExecutionError::UnexpectedEvent),
        },
        Event::ScriptRan(ok) => match stage {
            Stage::Clicking | Stage::ClickingCandidate => if ok {
                next_after_click(i)
            } else {
                fail_with(ExecutionError::ScriptExecutionFailed)
            },
            Stage::Scrolling => if ok {
                settle_now()
            } else {
                fail_with(ExecutionError::ScriptExecutionFailed)
            },
            Stage::Done(o) => (Stage::Done(*o), Command::Finish(*o)),
            _ => fail_with(ExecutionError::UnexpectedEvent),
        },
        Event::Sampled(d) => match stage {
            Stage::Sampling => match jittered_wait(stdev_in(i), d) {
                Ok(ms) => (Stage::Delaying, Command::Sleep(ms)),
                Err(err) => fail_with(err),
            },
            Stage::Done(o) => (Stage::Done(*o), Command::Finish(*o)),
            _ => fail_with(ExecutionError::UnexpectedEvent),
        },
        Event::Slept => match stage {
            Stage::Delaying => next_after_pause(i),
            Stage::Settling => (Stage::Done(None), Command::Finish(None)),
            Stage::Done(o) => (Stage::Done(*o), Command::Finish(*o)),
            _ => fail_with(ExecutionError::UnexpectedEvent),
        },
        Event::FoundAll(l) => match stage {
            Stage::Collecting => match l {
                LookupAll::Found(c) => if c == 0 {
                    settle_now()
                } else {
                    match i {
                        Instruction::RandomClick { exclude_text: Some(_), .. } => (
                            Stage::Reading(c),
                            Command::ReadTexts,
                        ),
                        _ => offer_choice(c, None, c),
                    }
                },
                _ => settle_now(),
            },
            Stage::Done(o) => (Stage::Done(*o), Command::Finish(*o)),
            _ => fail_with(ExecutionError::UnexpectedEvent),
        },
        Event::Texts(ts) => match stage {
            Stage::Reading(c) => match i {
                Instruction::RandomClick { exclude_text: Some(ex), .. } => if ts.len() != *c {
                    fail_with(ExecutionError::UnexpectedEvent)
                } else {
                    let n = candidate_indices(&ts, ex, *c).len();
                    offer_choice(*c, Some(ts), n)
                },
                _ => fail_with(ExecutionError::UnexpectedEvent),
            },
            Stage::Done(o) => (Stage::Done(*o), Command::Finish(*o)),
            _ => fail_with(ExecutionError::UnexpectedEvent),
        },
        Event::Chosen(r) => match stage {
            Stage::Choosing { count, texts } => {
                let count = *count;
                let picked: Option<usize> = match texts {
                    Some(ts) => match i {
                        Instruction::RandomClick { exclude_text: Some(ex), .. } => {
                            if count <= ts.len() {
                                let cs = candidate_indices(ts, ex, count);
                                if r < cs.len() {
                                    Some(cs[r])
                                } else {
                                    None
                                }
                            } else {
                                None
                            }
                        },
                        _ => if r < count {
                            Some(r)
                        } else {
                            None
                        },
                    },
                    None => if r < count {
                        Some(r)
                    } else {
                        None
                    },
                };
                match picked {
                    Some(p) => (Stage::ClickingCandidate, Command::ClickCandidate(p)),
                    None => fail_with(ExecutionError::UnexpectedEvent),
                }
            },
            Stage::Done(o) => (Stage::Done(*o), Command::Finish(*o)),
            _ => fail_with(ExecutionError::UnexpectedEvent),
        },
    }
}


impl ActionRun {
    pub fn new(instruction: Instruction) -> (r: Self)
        ensures
            r.instruction == instruction,
            r.stage == Stage::Ready,
    {
        ActionRun { instruction, stage: Stage::Ready }
    }

    /// The outcome, once the action is over.
    pub fn outcome(&self) -> (r: Option<Option<ExecutionError>>)
        ensures
            r == (match self.stage {
                Stage::Done(o) => Some(o),
                _ => None,
            }),
    {
        match &self.stage {
            Stage::Done(o) => Some(*o),
            _ => None,
        }
    }

    /// Applies one event and returns the next command, exactly as
    /// `action_step` says.
    pub fn advance(&mut self, event: Event) -> (cmd: Command)
        ensures
            final(self).instruction == old(self).instruction,
            (final(self).stage, cmd) == action_step(old(self).instruction, old(self).stage, event),
    {
        let (stage, cmd) = action_transition(&self.instruction, &self.stage, event);
        self.stage = stage;
        cmd
    }

    /// Applies one event; where the machine asks for a draw among `n`
    /// candidates, draws one uniformly and applies it too, so that the
    /// command returned is never a `Choose`.
    pub fn step(&mut self, event: Event) -> (cmd: Command)
        ensures
            final(self).instruction == old(self).instruction,
            !(cmd is Choose),
            ({
                let (s1, c1) = action_step(old(self).instruction, old(self).stage, event);
                match c1 {
                    Command::Choose(n) => exists|r: usize|
                        r < n && (final(self).stage, cmd) == action_step(
                            old(self).instruction,
                            s1,
                            Event::Chosen(r),
                        ),
                    _ => (final(self).stage, cmd) == (s1, c1),
                }
            }),
    {
        let cmd = self.advance(event);
        match cmd {
            Command::Choose(n) => {
                proof {
                    lemma_choose_positive(old(self).instruction, old(self).stage, event);
                }
                let r = random_index(n);
                self.advance(Event::Chosen(r))
            },
            _ => cmd,
        }
    }
}

} // verus!
