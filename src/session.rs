use vstd::prelude::*;

use crate::config::{
    clone_strings_opt, find_instruction_file_for_domain, get_domain_from_url, same_strings_opt,
    url_domain_of, ConfigYaml, InstructionLocation, LoopConfig,
};
use crate::executor::{
    action_step, action_transition, lemma_choose_positive, random_index, Command, Event, Stage,
};
use crate::gate::PreconditionGate;
use crate::models::{ExecutionError, Instruction};
use crate::planner::{loops_well_formed, plan, plan_execution};

verus! {

/// Why a target was left alone without an error.
#[derive(Debug, Clone, Copy, PartialEq, Eq, Structural)]
pub enum SkipReason {
    /// No configuration for the domain, or no instruction file.
    ConfigurationMissing,
    /// A skip selector was present on the page.
    PreconditionBlocked,
}

/// How the run of one target ended.
#[derive(Debug, Clone, Copy, PartialEq, Eq, Structural)]
pub enum RunOutcome {
    Completed,
    Skipped(SkipReason),
    Aborted(ExecutionError),
}

/// What the driver reports back to a domain run.
#[derive(Debug, Clone)]
pub enum RunEvent {
    Begin,
    /// Whether the instruction file exists.
    FileChecked(bool),
    /// Whether the probed selector is present.
    Probed(bool),
    /// Whether the navigation to the target succeeded.
    Navigated(bool),
    /// Whether the cookie synchronisation succeeded.
    CookiesSynced(bool),
    /// The instructions read, or `None` when the file could not be read or
    /// parsed.
    Loaded(Option<Vec<Instruction>>),
    /// An event of the running action.
    Action(Event),
}

/// What the driver is to do next for a domain run.
#[derive(Debug, Clone, PartialEq, Eq)]
pub enum RunCommand {
    CheckFile(String),
    /// Look for one element matching this CSS selector.
    Probe(String),
    Navigate(String),
    SyncCookies { url: String, cookie_file: String },
    LoadInstructions(String),
    Action(Command),
    Finish(RunOutcome),
}

/// Where a domain run stands between two events.
#[derive(Debug)]
pub enum Phase {
    Start,
    CheckingFile,
    Gating,
    Navigating,
    SyncingCookies,
    Loading,
    Executing { instructions: Vec<Instruction>, order: Vec<usize>, pos: usize, stage: Stage },
    Finished(RunOutcome),
}

/// The run of one target URL through its domain's configuration.
pub struct DomainRun {
    pub url: String,
    pub location: Option<InstructionLocation>,
    pub loops: Vec<LoopConfig>,
    pub cookie_file: Option<String>,
    pub gate: PreconditionGate,
    pub phase: Phase,
}

pub open spec fn finish(o: RunOutcome) -> (Phase, RunCommand) {
    (Phase::Finished(o), RunCommand::Finish(o))
}

/// Look for the next skip selector, or go to the target once no skip selector is left.
pub open spec fn gate_or_navigate(g: PreconditionGate, url: String) -> (Phase, RunCommand) {
    match g.verdict {
        None => (Phase::Gating, RunCommand::Probe(g.selectors@[g.next as int])),
        Some(true) => finish(RunOutcome::Skipped(SkipReason::PreconditionBlocked)),
        Some(false) => (Phase::Navigating, RunCommand::Navigate(url)),
    }
}

pub open spec fn load(location: Option<InstructionLocation>) -> (Phase, RunCommand) {
    match location {
        Some(loc) => (Phase::Loading, RunCommand::LoadInstructions(loc.path)),
        None => finish(RunOutcome::Aborted(ExecutionError::UnexpectedEvent)),
    }
}

/// Start the action at position `p` of the order, or complete the run past
/// its end. An action that fails as it starts ends the run.
pub open spec fn enter(instructions: Vec<Instruction>, order: Vec<usize>, p: int) -> (
    Phase,
    RunCommand,
) {
    if p >= order@.len() {
        finish(RunOutcome::Completed)
    } else if order@[p] >= instructions@.len() {
        finish(RunOutcome::Aborted(ExecutionError::UnexpectedEvent))
    } else {
        let (st, c) = action_step(instructions@[order@[p] as int], Stage::Ready, Event::Begin);
        match c {
            Command::Finish(Some(e)) => finish(RunOutcome::Aborted(e)),
            Command::Finish(None) => finish(RunOutcome::Aborted(ExecutionError::UnexpectedEvent)),
            _ => (
                Phase::Executing { instructions, order, pos: p as usize, stage: st },
                RunCommand::Action(c),
            ),
        }
    }
}

/// The phase and command after `e`, for every case but the end of loading
/// and the skip-selector lookups (see `run_next`).
pub open spec fn run_step(r: DomainRun, e: RunEvent) -> (Phase, RunCommand) {
    match (r.phase, e) {
        (Phase::Start, RunEvent::Begin) => match r.location {
            None => finish(RunOutcome::Skipped(SkipReason::ConfigurationMissing)),
            Some(loc) => (Phase::CheckingFile, RunCommand::CheckFile(loc.path)),
        },
        (Phase::CheckingFile, RunEvent::FileChecked(ok)) => if ok {
            gate_or_navigate(r.gate, r.url)
        } else {
            finish(RunOutcome::Skipped(SkipReason::ConfigurationMissing))
        },
        (Phase::Navigating, RunEvent::Navigated(ok)) => if ok {
            match r.cookie_file {
                Some(f) => (
                    Phase::SyncingCookies,
                    RunCommand::SyncCookies { url: r.url, cookie_file: f },
                ),
                None => load(r.location),
            }
        } else {
            finish(RunOutcome::Aborted(ExecutionError::NavigationFailed))
        },
        (Phase::SyncingCookies, RunEvent::CookiesSynced(ok)) => if ok {
            load(r.location)
        } else {
            finish(RunOutcome::Aborted(ExecutionError::CookieSyncFailed))
        },
        (Phase::Executing { instructions, order, pos, stage }, RunEvent::Action(ev)) => if pos
            < order@.len() && order@[pos as int] < instructions@.len() {
            let (st2, c) = action_step(instructions@[order@[pos as int] as int], stage, ev);
            match c {
                Command::Finish(Some(err)) => finish(RunOutcome::Aborted(err)),
                Command::Finish(None) => enter(instructions, order, pos + 1),
                _ => (
                    Phase::Executing { instructions, order, pos, stage: st2 },
                    RunCommand::Action(c),
                ),
            }
        } else {
            finish(RunOutcome::Aborted(ExecutionError::UnexpectedEvent))
        },
        (Phase::Finished(o), _) => finish(o),
        _ => finish(RunOutcome::Aborted(ExecutionError::UnexpectedEvent)),
    }
}

/// One transition of a domain run: the target, its configuration and its
/// loop ranges stay; the skip-selector gate takes in the answer to a lookup; a loaded
/// instruction list is planned and its first action started.
pub open spec fn run_next(r: DomainRun, e: RunEvent, n: DomainRun, cmd: RunCommand) -> bool {
    &&& n.url == r.url
    &&& n.location == r.location
    &&& n.loops == r.loops
    &&& n.cookie_file == r.cookie_file
    &&& match (r.phase, e) {
        (Phase::Gating, RunEvent::Probed(found)) => if r.gate.verdict is None {
            &&& n.gate == r.gate.observed(found)
            &&& (n.phase, cmd) == gate_or_navigate(n.gate, r.url)
        } else {
            &&& n.gate == r.gate
            &&& (n.phase, cmd) == finish(RunOutcome::Aborted(ExecutionError::UnexpectedEvent))
        },
        (Phase::Loading, RunEvent::Loaded(loaded)) => {
            &&& n.gate == r.gate
            &&& match loaded {
                None => (n.phase, cmd) == finish(
                    RunOutcome::Aborted(ExecutionError::InstructionsUnreadable),
                ),
                Some(instructions) => if loops_well_formed(r.loops@) {
                    exists|order: Vec<usize>|
                        order@ == plan(instructions@.len() as int, r.loops@) && (n.phase, cmd)
                            == enter(instructions, order, 0)
                } else {
                    (n.phase, cmd) == finish(RunOutcome::Aborted(ExecutionError::InvalidLoopRange))
                },
            }
        },
        _ => {
            &&& n.gate == r.gate
            &&& (n.phase, cmd) == run_step(r, e)
        },
    }
}

/// A run asks for a draw only from a running action that waits for one,
/// among at least one candidate, and the answer to it never asks again.
pub proof fn lemma_run_choose(r: DomainRun, e: RunEvent, n: DomainRun, cmd: RunCommand)
    requires
        run_next(r, e, n, cmd),
    ensures
        cmd matches RunCommand::Action(Command::Choose(k)) ==> k > 0 && forall|
            c: usize,
            fin: DomainRun,
            cmd2: RunCommand,
        |
            #![trigger run_next(n, RunEvent::Action(Event::Chosen(c)), fin, cmd2)]
            run_next(n, RunEvent::Action(Event::Chosen(c)), fin, cmd2) ==> !(
            cmd2 matches RunCommand::Action(Command::Choose(_))),
{
    if let RunCommand::Action(Command::Choose(k)) = cmd {
        if let (Phase::Executing { instructions, order, pos, stage }, RunEvent::Action(ev)) = (
            r.phase,
            e,
        ) {
            let i = instructions@[order@[pos as int] as int];
            lemma_choose_positive(i, stage, ev);
            let (st2, c) = action_step(i, stage, ev);
            if c is Finish {
                if pos + 1 < order@.len() && order@[pos + 1] < instructions@.len() {
                    lemma_choose_positive(
                        instructions@[order@[pos + 1] as int],
                        Stage::Ready,
                        Event::Begin,
                    );
                }
            } else {
                assert forall|c: usize, fin: DomainRun, cmd2: RunCommand|
                    #![trigger run_next(n, RunEvent::Action(Event::Chosen(c)), fin, cmd2)]
                    run_next(n, RunEvent::Action(Event::Chosen(c)), fin, cmd2) implies !(
                    cmd2 matches RunCommand::Action(Command::Choose(_))) by {
                    lemma_choose_positive(i, st2, Event::Chosen(c));
                }
            }
        } else if let (Phase::Loading, RunEvent::Loaded(Some(instructions))) = (r.phase, e) {
            let order = choose|order: Vec<usize>|
                order@ == plan(instructions@.len() as int, r.loops@) && (n.phase, cmd) == enter(
                    instructions,
                    order,
                    0,
                );
            if order@.len() > 0 && order@[0] < instructions@.len() {
                lemma_choose_positive(instructions@[order@[0] as int], Stage::Ready, Event::Begin);
            }
        }
    }
}

fn finish_with(o: RunOutcome) -> (r: (Phase, RunCommand))
    ensures
        r == finish(o),
{
    (Phase::Finished(o), RunCommand::Finish(o))
}

fn loops_valid(loops: &Vec<LoopConfig>) -> (r: bool)
    ensures
        r == loops_well_formed(loops@),
{
    let mut i: usize = 0;
    while i < loops.len()
        invariant
            i <= loops@.len(),
            forall|j: int| 0 <= j < i ==> #[trigger] loops@[j].well_formed(),
        decreases loops@.len() - i,
    {
        if loops[i].from_action_num > loops[i].to_action_num {
            assert(!loops@[i as int].well_formed());
            return false;
        }
        i = i + 1;
    }
    true
}

fn enter_at(instructions: Vec<Instruction>, order: Vec<usize>, p: usize) -> (r: (
    Phase,
    RunCommand,
))
    ensures
        r == enter(instructions, order, p as int),
{
    if p >= order.len() {
        finish_with(RunOutcome::Completed)
    } else if order[p] >= instructions.len() {
        finish_with(RunOutcome::Aborted(ExecutionError::UnexpectedEvent))
    } else {
        let (st, c) = action_transition(&instructions[order[p]], &Stage::Ready, Event::Begin);
        match c {
            Command::Finish(Some(e)) => finish_with(RunOutcome::Aborted(e)),
            Command::Finish(None) => finish_with(
                RunOutcome::Aborted(ExecutionError::UnexpectedEvent),
            ),
            _ => (Phase::Executing { instructions, order, pos: p, stage: st }, RunCommand::Action(c)),
        }
    }
}

/// A copy of a list of loop ranges.
fn copy_loops(v: &Vec<LoopConfig>) -> (r: Vec<LoopConfig>)
    ensures
        r@ == v@,
{
    let mut r: Vec<LoopConfig> = Vec::new();
    let mut i: usize = 0;
    while i < v.len()
        invariant
            i <= v@.len(),
            r@ == v@.subrange(0, i as int),
        decreases v@.len() - i,
    {
        r.push(v[i]);
        assert(r@ =~= v@.subrange(0, i + 1));
        i = i + 1;
    }
    assert(v@.subrange(0, i as int) =~= v@);
    r
}

/// What a run for a URL holds once its domain's settings are read: the loop
/// ranges (none when unset), the cookie file (the domain's own, else the
/// default) and the skip selectors (none when unset).
pub open spec fn configured(
    config: ConfigYaml,
    url: Seq<char>,
    default_cookie_file: Option<String>,
    r: DomainRun,
) -> bool {
    match url_domain_of(url) {
        None => r.location is None && r.gate.selectors@.len() == 0,
        Some(d) => {
            &&& r.location is None <==> forall|j: int|
                0 <= j < config.domains@.len() ==> #[trigger] config.domains@[j].0@ != d
            &&& r.location is None ==> r.gate.selectors@.len() == 0
            &&& r.location is Some ==> exists|j: int|
                0 <= j < config.domains@.len() && #[trigger] config.domains@[j].0@ == d && {
                    let dc = config.domains@[j].1;
                    &&& same_strings_opt(dc.skip_elements, r.location->Some_0.skip_elements)
                    &&& r.gate.selectors@ == match dc.skip_elements {
                        Some(v) => v@,
                        None => Seq::empty(),
                    }
                    &&& r.loops@ == match dc.loop_config {
                        Some(v) => v@,
                        None => Seq::empty(),
                    }
                    &&& r.cookie_file == match dc.cookie_file {
                        Some(f) => Some(f),
                        None => default_cookie_file,
                    }
                }
        },
    }
}

impl DomainRun {
    pub open spec fn wf(&self) -> bool {
        self.gate.wf()
    }

    /// Prepares the run of `url`: resolves its domain and looks up the
    /// domain's settings in `config`, whose relative paths are resolved
    /// against `config_dir`.
    pub fn new(config: &ConfigYaml, config_dir: &str, url: String, default_cookie_file: Option<
        String,
    >) -> (r: DomainRun)
        requires
            config.wf(),
        ensures
            r.wf(),
            r.url == url,
            r.phase == Phase::Start,
            r.gate.seen@ == Seq::<bool>::empty(),
            configured(*config, url@, default_cookie_file, r),
    {
        let (location, loops, cookie_file) = match get_domain_from_url(url.as_str()) {
            Err(_) => (None, Vec::new(), default_cookie_file),
            Ok(domain) => match find_instruction_file_for_domain(config, config_dir, domain.as_str()) {
                Err(_) => (None, Vec::new(), default_cookie_file),
                Ok(loc) => {
                    let dc = config.get_domain_config(domain.as_str());
                    match dc {
                        Some(dc) => {
                            proof {
                                let j1 = choose|j: int|
                                    0 <= j < config.domains@.len()
                                        && #[trigger] config.domains@[j].0@ == domain@
                                        && same_strings_opt(
                                        config.domains@[j].1.skip_elements,
                                        loc.skip_elements,
                                    );
                                let j2 = choose|j: int|
                                    0 <= j < config.domains@.len()
                                        && #[trigger] config.domains@[j].0@ == domain@
                                        && config.domains@[j].1 == *dc;
                                if j1 != j2 {
                                    if j1 < j2 {
                                        assert(config.domains@[j1].0@ != config.domains@[j2].0@);
                                    } else {
                                        assert(config.domains@[j2].0@ != config.domains@[j1].0@);
                                    }
                                }
                            }
                            let loops = match &dc.loop_config {
                                Some(v) => copy_loops(v),
                                None => Vec::new(),
                            };
                            let cookie_file = match &dc.cookie_file {
                                Some(f) => Some(f.clone()),
                                None => default_cookie_file,
                            };
                            (Some(loc), loops, cookie_file)
                        },
                        None => (None, Vec::new(), default_cookie_file),
                    }
                },
            },
        };
        let selectors = match &location {
            Some(loc) => match clone_strings_opt(&loc.skip_elements) {
                Some(v) => v,
                None => Vec::new(),
            },
            None => Vec::new(),
        };
        let gate = PreconditionGate::new(selectors);
        DomainRun { url, location, loops, cookie_file, gate, phase: Phase::Start }
    }

    /// How the run ended, once it has.
    pub fn outcome(&self) -> (r: Option<RunOutcome>)
        ensures
            r == (match self.phase {
                Phase::Finished(o) => Some(o),
                _ => None,
            }),
    {
        match &self.phase {
            Phase::Finished(o) => Some(*o),
            _ => None,
        }
    }

    /// Applies one event; where the running action asks for a draw among
    /// `n` candidates, draws one uniformly and applies it too, so that the
    /// command returned never asks for a draw.
    pub fn step(&mut self, event: RunEvent) -> (cmd: RunCommand)
        requires
            old(self).wf(),
        ensures
            final(self).wf(),
            !(cmd matches RunCommand::Action(Command::Choose(_))),
            exists|mid: DomainRun, c1: RunCommand|
                run_next(*old(self), event, mid, c1) && match c1 {
                    RunCommand::Action(Command::Choose(n)) => exists|r: usize|
                        r < n && run_next(mid, RunEvent::Action(Event::Chosen(r)), *final(self), cmd),
                    _ => *final(self) == mid && cmd == c1,
                },
    {
        let c1 = self.advance(event);
        let ghost mid = *self;
        match c1 {
            RunCommand::Action(Command::Choose(n)) => {
                proof {
                    lemma_run_choose(*old(self), event, mid, c1);
                }
                let r = random_index(n);
                self.advance(RunEvent::Action(Event::Chosen(r)))
            },
            _ => c1,
        }
    }

    fn gate_next(&self) -> (r: (Phase, RunCommand))
        requires
            self.gate.wf(),
        ensures
            r == gate_or_navigate(self.gate, self.url),
    {
        match self.gate.verdict {
            None => (Phase::Gating, RunCommand::Probe(self.gate.selectors[self.gate.next].clone())),
            Some(true) => finish_with(RunOutcome::Skipped(SkipReason::PreconditionBlocked)),
            Some(false) => (Phase::Navigating, RunCommand::Navigate(self.url.clone())),
        }
    }

    fn load_next(&self) -> (r: (Phase, RunCommand))
        ensures
            r == load(self.location),
    {
        match &self.location {
            Some(loc) => (Phase::Loading, RunCommand::LoadInstructions(loc.path.clone())),
            None => finish_with(RunOutcome::Aborted(ExecutionError::UnexpectedEvent)),
        }
    }

    /// Applies one event and returns the next command, as `run_next` says.
    pub fn advance(&mut self, event: RunEvent) -> (cmd: RunCommand)
        requires
            old(self).wf(),
        ensures
            final(self).wf(),
            run_next(*old(self), event, *final(self), cmd),
    {
        let mut phase = Phase::Start;
        std::mem::swap(&mut self.phase, &mut phase);
        let ghost before = *old(self);
        assert(before.phase == phase);
        let (next, cmd) = match phase {
            Phase::Start => match event {
                RunEvent::Begin => match &self.location {
                    None => finish_with(RunOutcome::Skipped(SkipReason::ConfigurationMissing)),
                    Some(loc) => (Phase::CheckingFile, RunCommand::CheckFile(loc.path.clone())),
                },
                _ => finish_with(RunOutcome::Aborted(ExecutionError::UnexpectedEvent)),
            },
            Phase::CheckingFile => match event {
                RunEvent::FileChecked(ok) => if ok {
                    self.gate_next()
                } else {
                    finish_with(RunOutcome::Skipped(SkipReason::ConfigurationMissing))
                },
                _ => finish_with(RunOutcome::Aborted(ExecutionError::UnexpectedEvent)),
            },
            Phase::Gating => match event {
                RunEvent::Probed(found) => if self.gate.verdict.is_none() {
                    self.gate.observe(found);
                    self.gate_next()
                } else {
                    finish_with(RunOutcome::Aborted(ExecutionError::UnexpectedEvent))
                },
                _ => finish_with(RunOutcome::Aborted(ExecutionError::UnexpectedEvent)),
            },
            Phase::Navigating => match event {
                RunEvent::Navigated(ok) => if ok {
                    match &self.cookie_file {
                        Some(f) => (
                            Phase::SyncingCookies,
                            RunCommand::SyncCookies { url: self.url.clone(), cookie_file: f.clone() },
                        ),
                        None => self.load_next(),
                    }
                } else {
                    finish_with(RunOutcome::Aborted(ExecutionError::NavigationFailed))
                },
                _ => finish_with(RunOutcome::Aborted(ExecutionError::UnexpectedEvent)),
            },
            Phase::SyncingCookies => match event {
                RunEvent::CookiesSynced(ok) => if ok {
                    self.load_next()
                } else {
                    finish_with(RunOutcome::Aborted(ExecutionError::CookieSyncFailed))
                },
                _ => finish_with(RunOutcome::Aborted(ExecutionError::UnexpectedEvent)),
            },
            Phase::Loading => match event {
                RunEvent::Loaded(loaded) => match loaded {
                    None => finish_with(RunOutcome::Aborted(ExecutionError::InstructionsUnreadable)),
                    Some(instructions) => if loops_valid(&self.loops) {
                        let order = plan_execution(instructions.len(), &self.loops);
                        let ghost o = order;
                        let ghost is = instructions;
                        let r = enter_at(instructions, order, 0);
                        assert(o@ == plan(is@.len() as int, self.loops@) && r == enter(is, o, 0));
                        r
                    } else {
                        finish_with(RunOutcome::Aborted(ExecutionError::InvalidLoopRange))
                    },
                },
                _ => finish_with(RunOutcome::Aborted(ExecutionError::UnexpectedEvent)),
            },
            Phase::Executing { instructions, order, pos, stage } => match event {
                RunEvent::Action(ev) => if pos < order.len() && order[pos] < instructions.len() {
                    let (st2, c) = action_transition(&instructions[order[pos]], &stage, ev);
                    match c {
                        Command::Finish(Some(err)) => finish_with(RunOutcome::Aborted(err)),
                        Command::Finish(None) => enter_at(instructions, order, pos + 1),
                        _ => (
                            Phase::Executing { instructions, order, pos, stage: st2 },
                            RunCommand::Action(c),
                        ),
                    }
                } else {
                    finish_with(RunOutcome::Aborted(ExecutionError::UnexpectedEvent))
                },
                _ => finish_with(RunOutcome::Aborted(ExecutionError::UnexpectedEvent)),
            },
            Phase::Finished(o) => finish_with(o),
        };
        self.phase = next;
        cmd
    }
}

} // verus!
