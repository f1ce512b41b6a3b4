//! What running a manifest does, decided before anything runs: which tasks run, with
//! which arguments, in which directory, which directories are announced, and how each
//! task's exit code ends or continues the run.
use std::collections::HashMap;
use vstd::prelude::*;

use crate::cfg::{Config, ConfigView};
use crate::error::{Error, ErrorView, RetCode};
use crate::file::{
    cmd_views as cmd_views_of, directory_spec, enabled_spec, map_code_spec, ClassicFile, Cmd,
    CmdView, FileView,
};
use crate::text::{
    clone_opt, clone_texts, opt_text, same_text, texts,
};
use crate::error::result_view;
use crate::path::{manifest_dir, manifest_directory, same_dir, same_place};

verus! {

broadcast use vstd::std_specs::hash::group_hash_axioms;

/// `d` joined onto the directory `base`: an absolute `d` (one that starts with `/`)
/// replaces `base`; otherwise `d` follows `base` after one separator.
pub open spec fn join_dir(base: Seq<char>, d: Seq<char>) -> Seq<char> {
    if d.len() > 0 && d[0] == '/' {
        d
    } else if base.len() == 0 || base.last() == '/' {
        base + d
    } else {
        base + seq!['/'] + d
    }
}

/// The directory a task runs in, from the manifest's directory `main` (none: the current
/// one) and the directory the task asks for.
pub open spec fn run_dir_spec(main: Option<Seq<char>>, cmd_dir: Option<Seq<char>>) -> Option<Seq<char>> {
    match cmd_dir {
        Some(d) => match main {
            Some(m) => Some(join_dir(m, d)),
            None => Some(d),
        },
        None => main,
    }
}

/// The first element of a task's command line is replaced when `argv0` is given.
pub open spec fn with_argv0(args: Seq<Seq<char>>, argv0: Option<Seq<char>>) -> Seq<Seq<char>> {
    match argv0 {
        Some(a) => if args.len() > 0 {
            seq![a] + args.subrange(1, args.len() as int)
        } else {
            seq![a]
        },
        None => args,
    }
}

/// `s` from position `i` on, without its first `--`.
pub open spec fn drop_separator_from(s: Seq<Seq<char>>, i: int) -> Seq<Seq<char>>
    decreases s.len() - i,
{
    if i < 0 || i >= s.len() {
        Seq::empty()
    } else if s[i] == "--"@ {
        s.subrange(i + 1, s.len() as int)
    } else {
        seq![s[i]] + drop_separator_from(s, i + 1)
    }
}

/// `s` from position `i` on, up to its first `--`.
pub open spec fn before_separator_from(s: Seq<Seq<char>>, i: int) -> Seq<Seq<char>>
    decreases s.len() - i,
{
    if i < 0 || i >= s.len() {
        Seq::empty()
    } else if s[i] == "--"@ {
        Seq::empty()
    } else {
        seq![s[i]] + before_separator_from(s, i + 1)
    }
}

/// The command line a task runs with: without passthrough arguments its own line less the
/// first `--`; with them, its line up to the first `--`, then the passthrough arguments.
pub open spec fn resolve_args(
    args: Seq<Seq<char>>,
    provided: Seq<Seq<char>>,
    argv0: Option<Seq<char>>,
) -> Seq<Seq<char>> {
    let base = with_argv0(args, argv0);
    if provided.len() == 0 {
        drop_separator_from(base, 0)
    } else {
        before_separator_from(base, 0) + provided
    }
}

/// The directory named in an entering notice: the run directory, or `.` for the current one.
pub open spec fn shown_dir(d: Option<Seq<char>>) -> Seq<char> {
    match d {
        Some(x) => x,
        None => "."@,
    }
}

/// What a run reads from the configuration and the call.
pub struct RunContext {
    pub main: Option<Seq<char>>,
    pub select: Set<Seq<char>>,
    pub reject: Set<Seq<char>>,
    pub argv0: Seq<char>,
    pub provided: Seq<Seq<char>>,
}

/// One task to run, resolved.
pub struct StepView {
    pub args: Seq<Seq<char>>,
    pub mkdir: Option<Seq<char>>,
    pub dir: Option<Seq<char>>,
    pub enter: Option<Seq<char>>,
    pub outfile: Option<Seq<char>>,
    pub retmap: Map<RetCode, RetCode>,
}

/// The resolved form of task `c`, run after a task that ran in `last`.
pub open spec fn step_spec(c: CmdView, ctx: RunContext, last: Option<Seq<char>>) -> StepView {
    let dir = run_dir_spec(ctx.main, directory_spec(c));
    StepView {
        args: resolve_args(
            c.args,
            ctx.provided,
            if c.recurse {
                Some(ctx.argv0)
            } else {
                None
            },
        ),
        mkdir: match c.mkdir {
            Some(m) => run_dir_spec(ctx.main, Some(m)),
            None => None,
        },
        dir,
        enter: if !same_dir(dir, last) {
            Some(shown_dir(dir))
        } else {
            None
        },
        outfile: c.outfile,
        retmap: c.retmap,
    }
}

/// The tasks from position `i` on that run, resolved in order; `last` is the directory
/// last announced.
pub open spec fn steps_from(
    cmds: Seq<CmdView>,
    i: int,
    last: Option<Seq<char>>,
    ctx: RunContext,
) -> Seq<StepView>
    decreases cmds.len() - i,
{
    if i < 0 || i >= cmds.len() {
        Seq::empty()
    } else if !enabled_spec(cmds[i], ctx.select, ctx.reject) {
        steps_from(cmds, i + 1, last, ctx)
    } else {
        let st = step_spec(cmds[i], ctx, last);
        seq![st] + steps_from(cmds, i + 1, st.dir, ctx)
    }
}

/// A run of a manifest, decided.
pub struct PlanView {
    pub default_env: bool,
    pub env_files: Seq<Seq<char>>,
    pub enter: Option<Seq<char>>,
    pub steps: Seq<StepView>,
}

/// The context of a run of a manifest found at `path`.
pub open spec fn run_context(path: Seq<char>, cfg: ConfigView, provided: Seq<Seq<char>>) -> RunContext {
    RunContext {
        main: manifest_dir(path),
        select: cfg.select,
        reject: cfg.reject,
        argv0: cfg.argv0,
        provided,
    }
}

/// What a run of the manifest `file`, found at `path`, does: it loads the default
/// environment file (its absence tolerated) when the header names none and the
/// environment is not skipped, else the header's files; it announces the manifest's
/// directory when that is not the current one; then it runs the selected tasks.
pub open spec fn plan_spec(
    path: Seq<char>,
    file: FileView,
    cfg: ConfigView,
    provided: Seq<Seq<char>>,
) -> PlanView {
    let ctx = run_context(path, cfg, provided);
    PlanView {
        default_env: !cfg.skip_env && file.header.len() == 0,
        env_files: file.header,
        enter: ctx.main,
        steps: steps_from(file.commands, 0, ctx.main, ctx),
    }
}

/// The outcome of a task that exited with `raw` under the map `m`: success when the
/// mapped code is 0, else the end of the run with the mapped code.
pub open spec fn outcome_spec(m: Map<RetCode, RetCode>, raw: RetCode) -> Result<(), ErrorView> {
    if map_code_spec(m, raw) == 0 {
        Ok(())
    } else {
        Err(ErrorView::ExitWithExitCode(map_code_spec(m, raw)))
    }
}

/// One task to run, resolved.
#[derive(Debug)]
pub struct Step {
    args: Vec<String>,
    mkdir: Option<String>,
    dir: Option<String>,
    enter: Option<String>,
    outfile: Option<String>,
    retmap: HashMap<RetCode, RetCode>,
}

impl View for Step {
    type V = StepView;

    closed spec fn view(&self) -> StepView {
        StepView {
            args: texts(self.args@),
            mkdir: opt_text(self.mkdir),
            dir: opt_text(self.dir),
            enter: opt_text(self.enter),
            outfile: opt_text(self.outfile),
            retmap: self.retmap@,
        }
    }
}

/// A run of a manifest, decided.
#[derive(Debug)]
pub struct Plan {
    default_env: bool,
    env_files: Vec<String>,
    enter: Option<String>,
    steps: Vec<Step>,
}

/// The views of a list of steps.
pub open spec fn step_views(v: Seq<Step>) -> Seq<StepView> {
    v.map_values(|s: Step| s@)
}

impl View for Plan {
    type V = PlanView;

    closed spec fn view(&self) -> PlanView {
        PlanView {
            default_env: self.default_env,
            env_files: texts(self.env_files@),
            enter: opt_text(self.enter),
            steps: step_views(self.steps@),
        }
    }
}

/// The directory before the announced one in a list of steps: `first` for the first step.
pub open spec fn prev_dir(s: Seq<StepView>, k: int, first: Option<Seq<char>>) -> Option<Seq<char>> {
    if k == 0 {
        first
    } else {
        s[k - 1].dir
    }
}

/// The notice a step owes: its directory when that is not the same place as the one
/// before.
pub open spec fn notice_for(dir: Option<Seq<char>>, before: Option<Seq<char>>) -> Option<Seq<char>> {
    if !same_dir(dir, before) {
        Some(shown_dir(dir))
    } else {
        None
    }
}

proof fn lemma_steps_notices(cmds: Seq<CmdView>, i: int, last: Option<Seq<char>>, ctx: RunContext)
    ensures
        forall|k: int|
            0 <= k < steps_from(cmds, i, last, ctx).len() ==> (#[trigger] steps_from(
                cmds,
                i,
                last,
                ctx,
            )[k]).enter == notice_for(
                steps_from(cmds, i, last, ctx)[k].dir,
                prev_dir(steps_from(cmds, i, last, ctx), k, last),
            ),
    decreases cmds.len() - i,
{
    if 0 <= i < cmds.len() {
        if !enabled_spec(cmds[i], ctx.select, ctx.reject) {
            lemma_steps_notices(cmds, i + 1, last, ctx);
        } else {
            let st = step_spec(cmds[i], ctx, last);
            let rest = steps_from(cmds, i + 1, st.dir, ctx);
            lemma_steps_notices(cmds, i + 1, st.dir, ctx);
            let s = steps_from(cmds, i, last, ctx);
            assert(s == seq![st] + rest);
            assert forall|k: int| 0 <= k < s.len() implies (#[trigger] s[k]).enter == notice_for(
                s[k].dir,
                prev_dir(s, k, last),
            ) by {
                if k > 0 {
                    assert(s[k] == rest[k - 1]);
                    if k > 1 {
                        assert(s[k - 1] == rest[k - 2]);
                    }
                }
            }
        }
    }
}

/// Entering notices: a run announces the manifest's directory first when that is not the
/// current one; after that each task that runs announces its directory exactly when it
/// differs from the directory of the task that ran before it (the manifest's directory for
/// the first), so a repeated directory is announced once.
pub proof fn law_entering_notices(
    path: Seq<char>,
    file: FileView,
    cfg: ConfigView,
    provided: Seq<Seq<char>>,
)
    ensures
        plan_spec(path, file, cfg, provided).enter == manifest_dir(path),
        forall|k: int|
            0 <= k < plan_spec(path, file, cfg, provided).steps.len() ==> (#[trigger] plan_spec(
                path,
                file,
                cfg,
                provided,
            ).steps[k]).enter == notice_for(
                plan_spec(path, file, cfg, provided).steps[k].dir,
                prev_dir(plan_spec(path, file, cfg, provided).steps, k, manifest_dir(path)),
            ),
{
    let ctx = run_context(path, cfg, provided);
    lemma_steps_notices(file.commands, 0, ctx.main, ctx);
}

/// An absolute task directory: whatever the manifest's directory, a task whose directory
/// starts with `/` runs in exactly that directory.
pub proof fn law_absolute_dir_replaces_base(main: Option<Seq<char>>, d: Seq<char>)
    requires
        d.len() > 0 && d[0] == '/',
    ensures
        run_dir_spec(main, Some(d)) == Some(d),
{
}

fn join_dir_exec(base: &str, d: &str) -> (r: String)
    ensures
        r@ == join_dir(base@, d@),
{
    if d.unicode_len() > 0 && d.get_char(0) == '/' {
        return d.to_string();
    }
    let n = base.unicode_len();
    let mut r = base.to_string();
    if !(n == 0 || base.get_char(n - 1) == '/') {
        r.append("/");
        proof {
            reveal_strlit("/");
        }
    }
    r.append(d);
    r
}

/// Where a task stands while it is carried out.
#[derive(Debug, Clone, Copy)]
pub enum StepStage {
    Start,
    MakingDir,
    Reported,
    Announced,
    Running,
    Showing,
    Over,
}

/// How the last action of a task went.
#[derive(Debug)]
pub enum StepEvent {
    /// It succeeded (or there was none yet).
    Done,
    /// The task's process exited with this raw code.
    Exited(RetCode),
    /// It failed with this error.
    Failed(Error),
}

/// What to do next for a task.
#[derive(Debug)]
pub enum StepAction {
    /// Create this directory.
    MakeDir(String),
    /// Report that this directory could not be created, then go on.
    ReportMkdir(String, Error),
    /// Announce entering this directory.
    Announce(String),
    /// Run this command line in this directory.
    Run(Vec<String>, Option<String>),
    /// Show this file.
    ShowOutput(String),
    /// The task is done; go on to the next one.
    Next,
    /// The run ends with this error.
    Stop(Error),
}

/// A [`StepEvent`] as plain values.
pub enum EventView {
    Done,
    Exited(RetCode),
    Failed(ErrorView),
}

/// A [`StepAction`] as plain values.
pub enum ActionView {
    MakeDir(Seq<char>),
    ReportMkdir(Seq<char>, ErrorView),
    Announce(Seq<char>),
    Run(Seq<Seq<char>>, Option<Seq<char>>),
    ShowOutput(Seq<char>),
    Next,
    Stop(ErrorView),
}

impl View for StepEvent {
    type V = EventView;

    open spec fn view(&self) -> EventView {
        match self {
            StepEvent::Done => EventView::Done,
            StepEvent::Exited(c) => EventView::Exited(*c),
            StepEvent::Failed(e) => EventView::Failed(e@),
        }
    }
}

impl View for StepAction {
    type V = ActionView;

    open spec fn view(&self) -> ActionView {
        match self {
            StepAction::MakeDir(d) => ActionView::MakeDir(d@),
            StepAction::ReportMkdir(d, e) => ActionView::ReportMkdir(d@, e@),
            StepAction::Announce(d) => ActionView::Announce(d@),
            StepAction::Run(a, d) => ActionView::Run(texts(a@), opt_text(*d)),
            StepAction::ShowOutput(f) => ActionView::ShowOutput(f@),
            StepAction::Next => ActionView::Next,
            StepAction::Stop(e) => ActionView::Stop(e@),
        }
    }
}

/// How far a task has come.
pub open spec fn stage_rank(st: StepStage) -> int {
    match st {
        StepStage::Start => 0,
        StepStage::MakingDir => 1,
        StepStage::Reported => 2,
        StepStage::Announced => 3,
        StepStage::Running => 4,
        StepStage::Showing => 5,
        StepStage::Over => 6,
    }
}

/// Running the task's command line.
pub open spec fn launch(s: StepView) -> (StepStage, ActionView) {
    (StepStage::Running, ActionView::Run(s.args, s.dir))
}

/// Announcing the task's directory when it owes a notice, else running it.
pub open spec fn enter_or_launch(s: StepView) -> (StepStage, ActionView) {
    match s.enter {
        Some(d) => (StepStage::Announced, ActionView::Announce(d)),
        None => launch(s),
    }
}

/// What follows the raw exit code `c`: the end of the run when it maps to a failure, else
/// showing the task's output file, if it has one.
pub open spec fn after_code(s: StepView, c: RetCode) -> (StepStage, ActionView) {
    match outcome_spec(s.retmap, c) {
        Err(e) => (StepStage::Over, ActionView::Stop(e)),
        Ok(_) => match s.outfile {
            Some(f) => (StepStage::Showing, ActionView::ShowOutput(f)),
            None => (StepStage::Over, ActionView::Next),
        },
    }
}

/// The directory a task creates (empty when it creates none).
pub open spec fn mkdir_of(s: StepView) -> Seq<char> {
    match s.mkdir {
        Some(d) => d,
        None => Seq::empty(),
    }
}

/// A task carried out: create its directory, if any (a failure is reported and the task
/// goes on); announce its directory, if it owes a notice; run it; end the run if it
/// failed to start or its mapped code is not 0; show its output file, if any (a failure
/// there ends the run); then go on.
pub open spec fn step_next(s: StepView, stage: StepStage, ev: EventView) -> (StepStage, ActionView) {
    match stage {
        StepStage::Start => match s.mkdir {
            Some(d) => (StepStage::MakingDir, ActionView::MakeDir(d)),
            None => enter_or_launch(s),
        },
        StepStage::MakingDir => match ev {
            EventView::Failed(e) => (StepStage::Reported, ActionView::ReportMkdir(mkdir_of(s), e)),
            _ => enter_or_launch(s),
        },
        StepStage::Reported => enter_or_launch(s),
        StepStage::Announced => launch(s),
        StepStage::Running => match ev {
            EventView::Failed(e) => (StepStage::Over, ActionView::Stop(e)),
            EventView::Exited(c) => after_code(s, c),
            EventView::Done => after_code(s, 0),
        },
        StepStage::Showing => match ev {
            EventView::Failed(e) => (StepStage::Over, ActionView::Stop(e)),
            _ => (StepStage::Over, ActionView::Next),
        },
        StepStage::Over => (StepStage::Over, ActionView::Next),
    }
}

/// A directory that cannot be created does not stop a task: the failure is reported, and
/// the task goes on to its notice or its run.
pub proof fn law_mkdir_failure_goes_on(s: StepView, e: ErrorView, ev: EventView)
    ensures
        step_next(s, StepStage::MakingDir, EventView::Failed(e)) == (
            StepStage::Reported,
            ActionView::ReportMkdir(mkdir_of(s), e),
        ),
        step_next(s, StepStage::Reported, ev).1 is Announce || step_next(
            s,
            StepStage::Reported,
            ev,
        ).1 is Run,
{
}

/// A task's output file is shown only after the task ran and its mapped exit code is 0.
pub proof fn law_output_only_after_success(s: StepView, stage: StepStage, ev: EventView)
    ensures
        step_next(s, stage, ev).1 is ShowOutput ==> (stage is Running && !(ev is Failed)
            && outcome_spec(
            s.retmap,
            match ev {
                EventView::Exited(c) => c,
                _ => 0,
            },
        ) is Ok),
{
}

/// A failure to start a task, or to show its output, ends the run with that error.
pub proof fn law_failure_stops(s: StepView, stage: StepStage, e: ErrorView)
    requires
        stage is Running || stage is Showing,
    ensures
        step_next(s, stage, EventView::Failed(e)) == (StepStage::Over, ActionView::Stop(e)),
{
}

/// A task announces its directory exactly when its step owes a notice, and names the
/// directory the notice names; it does so before it runs. Together with
/// [`law_entering_notices`] this fixes every notice of a run.
pub proof fn law_task_announces_its_notice(s: StepView, ev: EventView)
    ensures
        s.mkdir is None ==> match s.enter {
            Some(d) => step_next(s, StepStage::Start, ev) == (
                StepStage::Announced,
                ActionView::Announce(d),
            ),
            None => step_next(s, StepStage::Start, ev) == launch(s),
        },
        s.mkdir is Some ==> match s.enter {
            Some(d) => step_next(s, StepStage::Reported, ev) == (
                StepStage::Announced,
                ActionView::Announce(d),
            ) && (!(ev is Failed) ==> step_next(s, StepStage::MakingDir, ev) == (
                StepStage::Announced,
                ActionView::Announce(d),
            )),
            None => step_next(s, StepStage::Reported, ev) == launch(s),
        },
        step_next(s, StepStage::Announced, ev) == launch(s),
{
}

impl Step {
    /// What to do next for the task, at `stage` and after `ev`; `stage` moves on.
    pub fn next(&self, stage: &mut StepStage, ev: StepEvent) -> (r: StepAction)
        ensures
            (*final(stage), r@) == step_next(self@, *old(stage), ev@),
            r is Next || r is Stop || stage_rank(*final(stage)) > stage_rank(*old(stage)),
    {
        let s = *stage;
        match s {
            StepStage::Start => match &self.mkdir {
                Some(d) => {
                    *stage = StepStage::MakingDir;
                    StepAction::MakeDir(d.clone())
                },
                None => self.enter_or_launch(stage),
            },
            StepStage::MakingDir => match ev {
                StepEvent::Failed(e) => {
                    *stage = StepStage::Reported;
                    let d = match &self.mkdir {
                        Some(d) => d.clone(),
                        None => String::new(),
                    };
                    StepAction::ReportMkdir(d, e)
                },
                _ => self.enter_or_launch(stage),
            },
            StepStage::Reported => self.enter_or_launch(stage),
            StepStage::Announced => self.launch(stage),
            StepStage::Running => match ev {
                StepEvent::Failed(e) => {
                    *stage = StepStage::Over;
                    StepAction::Stop(e)
                },
                StepEvent::Exited(c) => self.after_code(stage, c),
                StepEvent::Done => self.after_code(stage, 0),
            },
            StepStage::Showing => match ev {
                StepEvent::Failed(e) => {
                    *stage = StepStage::Over;
                    StepAction::Stop(e)
                },
                _ => {
                    *stage = StepStage::Over;
                    StepAction::Next
                },
            },
            StepStage::Over => StepAction::Next,
        }
    }

    fn launch(&self, stage: &mut StepStage) -> (r: StepAction)
        ensures
            (*final(stage), r@) == launch(self@),
    {
        *stage = StepStage::Running;
        StepAction::Run(clone_texts(self.args.as_slice()), clone_opt(&self.dir))
    }

    fn enter_or_launch(&self, stage: &mut StepStage) -> (r: StepAction)
        ensures
            (*final(stage), r@) == enter_or_launch(self@),
    {
        match &self.enter {
            Some(d) => {
                *stage = StepStage::Announced;
                StepAction::Announce(d.clone())
            },
            None => self.launch(stage),
        }
    }

    fn after_code(&self, stage: &mut StepStage, c: RetCode) -> (r: StepAction)
        ensures
            (*final(stage), r@) == after_code(self@, c),
    {
        match self.outcome(c) {
            Err(e) => {
                *stage = StepStage::Over;
                StepAction::Stop(e)
            },
            Ok(()) => match &self.outfile {
                Some(f) => {
                    *stage = StepStage::Showing;
                    StepAction::ShowOutput(f.clone())
                },
                None => {
                    *stage = StepStage::Over;
                    StepAction::Next
                },
            },
        }
    }

    /// The command line to run.
    pub fn args(&self) -> (r: &[String])
        ensures
            texts(r@) == self@.args,
    {
        self.args.as_slice()
    }

    /// The directory to create first, if any.
    pub fn mk_dir(&self) -> (r: &Option<String>)
        ensures
            opt_text(*r) == self@.mkdir,
    {
        &self.mkdir
    }

    /// The directory to run in (none: the current one).
    pub fn dir(&self) -> (r: &Option<String>)
        ensures
            opt_text(*r) == self@.dir,
    {
        &self.dir
    }

    /// The directory to announce before the task runs, if any.
    pub fn entering(&self) -> (r: &Option<String>)
        ensures
            opt_text(*r) == self@.enter,
    {
        &self.enter
    }

    /// The file to show once the task has succeeded, if any.
    pub fn out_file(&self) -> (r: &Option<String>)
        ensures
            opt_text(*r) == self@.outfile,
    {
        &self.outfile
    }

    /// What the task's raw exit code means for the run: success when it maps to 0, else
    /// the end of the run with the mapped code.
    pub fn outcome(&self, raw: RetCode) -> (r: Result<(), Error>)
        ensures
            result_view(r) == outcome_spec(self@.retmap, raw),
    {
        let c = match self.retmap.get(&raw) {
            Some(m) => *m,
            None => raw,
        };
        if c != 0 {
            return Err(Error::ExitWithExitCode(c));
        }
        Ok(())
    }
}

impl Plan {
    /// Whether the default environment file is loaded, its absence tolerated.
    pub fn default_env(&self) -> (r: bool)
        ensures
            r == self@.default_env,
    {
        self.default_env
    }

    /// The environment files to load, each of which must load.
    pub fn env_files(&self) -> (r: &[String])
        ensures
            texts(r@) == self@.env_files,
    {
        self.env_files.as_slice()
    }

    /// The directory to announce before the first task, if any.
    pub fn entering(&self) -> (r: &Option<String>)
        ensures
            opt_text(*r) == self@.enter,
    {
        &self.enter
    }

    /// The tasks to run, in order.
    pub fn steps(&self) -> (r: &[Step])
        ensures
            step_views(r@) == self@.steps,
    {
        self.steps.as_slice()
    }
}

/// The context that a run's variables stand for.
pub open spec fn context_of(
    main: Option<String>,
    cfg: ConfigView,
    provided: Seq<Seq<char>>,
) -> RunContext {
    RunContext {
        main: opt_text(main),
        select: cfg.select,
        reject: cfg.reject,
        argv0: cfg.argv0,
        provided,
    }
}

/// The notice shown on entering a directory.
pub open spec fn entering_text(dir: Seq<char>) -> Seq<char> {
    "upbuild: Entering directory `"@ + dir + "'"@
}

/// The notice shown on entering the directory `dir`.
pub fn entering_message(dir: &str) -> (r: String)
    ensures
        r@ == entering_text(dir@),
{
    let mut r = "upbuild: Entering directory `".to_string();
    r.append(dir);
    r.append("'");
    r
}

/// The name of the environment file loaded when a manifest's header names none.
pub const DEFAULT_ENV_FILE: &'static str = ".upbuild.env";

/// Whether a failure to load an environment file is no error: only when the file may be
/// missing (the default one) and the failure is that it could not be read.
pub fn env_failure_tolerated(allow_missing: bool, unreadable: bool) -> (r: bool)
    ensures
        r == (allow_missing && unreadable),
{
    allow_missing && unreadable
}

/// What a run needs from outside: it starts processes, creates directories, shows files
/// and messages, and loads environment files. Its results are taken as they come.
pub trait Runner {
    /// Runs the command line `cmd` in the directory `cd` (none: the current one) and
    /// returns the exit code.
    fn run(&self, cmd: Vec<String>, cd: &Option<String>) -> Result<RetCode, Error>;

    /// Creates the directory `d` if it does not exist.
    fn check_mkdir(&self, d: &str) -> Result<(), Error>;

    /// Reports that the directory `d` could not be created; the run goes on.
    fn mkdir_failed(&self, d: &str, e: Error);

    /// Shows the contents of the file `file`.
    fn display_output(&self, file: &str) -> Result<(), Error>;

    /// Shows a message.
    fn display(&self, s: &str);

    /// Announces that the run enters the directory `dir`.
    fn on_enter_dir(&self, dir: &str) {
        let m = entering_message(dir);
        self.display(m.as_str());
    }

    /// Loads the environment file `name`; when `allow_missing`, a file that cannot be read
    /// is no error.
    fn load_global_dotenv_(&self, name: &str, allow_missing: bool) -> Result<(), Error>;

    /// Loads the environment file `name`, which must be there.
    fn load_global_dotenv(&self, name: &str) -> Result<(), Error> {
        self.load_global_dotenv_(name, false)
    }

    /// Loads the default environment file, if it is there.
    fn load_default_dotenv(&self) -> Result<(), Error> {
        self.load_global_dotenv_(DEFAULT_ENV_FILE, true)
    }
}

/// Plans runs of a manifest and drives them through a [`Runner`].
pub struct Exec {
    runner: Box<dyn Runner>,
}

impl Exec {
    /// An executor that works through `runner`.
    pub fn new(runner: Box<dyn Runner>) -> Exec {
        Exec { runner }
    }

    /// Loads the environment files that `plan` names; the first that fails ends the run.
    fn apply_header(&self, plan: &Plan) -> (r: Result<(), Error>)
        ensures
            !plan@.default_env && plan@.env_files.len() == 0 ==> r is Ok,
    {
        if plan.default_env() {
            return self.runner.load_default_dotenv();
        }
        let files = plan.env_files();
        let mut i: usize = 0;
        while i < files.len()
            invariant
                i <= files@.len(),
                texts(files@) == plan@.env_files,
            decreases files@.len() - i,
        {
            self.runner.load_global_dotenv(files[i].as_str())?;
            i = i + 1;
        }
        Ok(())
    }

    /// Announces the directory `working_dir`, if there is one to announce.
    fn show_entering(&self, working_dir: &Option<String>) {
        if let Some(d) = working_dir {
            self.runner.on_enter_dir(d.as_str());
        }
    }

    /// Runs the manifest `file`, found at `path`, under the options `cfg` and with the
    /// passthrough arguments `provided_args`, as [`Exec::plan`] decides: it stops at the
    /// first error of the runner, and at the first task whose mapped exit code is not 0.
    pub fn run(&self, path: &str, file: &ClassicFile, cfg: &Config, provided_args: &[String]) -> (r:
        Result<(), Error>)
        ensures
            ({
                let p = plan_spec(path@, file@, cfg@, texts(provided_args@));
                !p.default_env && p.env_files.len() == 0 && p.steps.len() == 0 ==> r is Ok
            }),
    {
        let plan = Self::plan(path, file, cfg, provided_args);
        self.apply_header(&plan)?;
        self.show_entering(plan.entering());
        let steps = plan.steps();
        let mut i: usize = 0;
        while i < steps.len()
            invariant
                i <= steps@.len(),
                plan@ == plan_spec(path@, file@, cfg@, texts(provided_args@)),
                step_views(steps@) == plan@.steps,
            decreases steps@.len() - i,
        {
            let step = &steps[i];
            let mut stage = StepStage::Start;
            let mut ev = StepEvent::Done;
            loop
                invariant
                    i < steps@.len(),
                    plan@ == plan_spec(path@, file@, cfg@, texts(provided_args@)),
                    step_views(steps@) == plan@.steps,
                decreases 6 - stage_rank(stage),
            {
                match step.next(&mut stage, ev) {
                    StepAction::MakeDir(d) => {
                        ev = match self.runner.check_mkdir(d.as_str()) {
                            Ok(()) => StepEvent::Done,
                            Err(e) => StepEvent::Failed(e),
                        };
                    },
                    StepAction::ReportMkdir(d, e) => {
                        self.runner.mkdir_failed(d.as_str(), e);
                        ev = StepEvent::Done;
                    },
                    StepAction::Announce(d) => {
                        self.runner.on_enter_dir(d.as_str());
                        ev = StepEvent::Done;
                    },
                    StepAction::Run(a, d) => {
                        ev = match self.runner.run(a, &d) {
                            Ok(c) => StepEvent::Exited(c),
                            Err(e) => StepEvent::Failed(e),
                        };
                    },
                    StepAction::ShowOutput(f) => {
                        ev = match self.runner.display_output(f.as_str()) {
                            Ok(()) => StepEvent::Done,
                            Err(e) => StepEvent::Failed(e),
                        };
                    },
                    StepAction::Next => {
                        break;
                    },
                    StepAction::Stop(e) => {
                        return Err(e);
                    },
                }
            }
            i = i + 1;
        }
        Ok(())
    }

    /// The directory of a manifest found at `path`, when it is not the current one.
    pub fn relative_dir(path: &str) -> (r: Option<String>)
        ensures
            opt_text(r) == manifest_dir(path@),
    {
        manifest_directory(path)
    }

    /// The directory a task runs in: the directory it asks for joined onto the manifest's
    /// directory (an absolute one replaces it), else the manifest's directory.
    pub fn run_dir(main_working_dir: &Option<String>, cmd_dir: Option<String>) -> (r: Option<String>)
        ensures
            opt_text(r) == run_dir_spec(opt_text(*main_working_dir), opt_text(cmd_dir)),
    {
        match cmd_dir {
            Some(d) => match main_working_dir {
                Some(m) => Some(join_dir_exec(m.as_str(), d.as_str())),
                None => Some(d),
            },
            None => clone_opt(main_working_dir),
        }
    }

    /// The command line a task runs with, its first element replaced by `argv0` when given,
    /// and the passthrough arguments `provided_args` put in place of what follows its
    /// first `--`.
    pub fn with_args(args: &[String], provided_args: &[String], argv0: Option<&String>) -> (r: Vec<
        String,
    >)
        ensures
            texts(r@) == resolve_args(
                texts(args@),
                texts(provided_args@),
                match argv0 {
                    Some(a) => Some(a@),
                    None => None,
                },
            ),
    {
        let ghost a = texts(args@);
        let ghost av = match argv0 {
            Some(x) => Some(x@),
            None => None::<Seq<char>>,
        };
        let mut base: Vec<String> = Vec::new();
        let skip: usize = match argv0 {
            Some(x) => {
                base.push(x.clone());
                1
            },
            None => 0,
        };
        let start: usize = if skip <= args.len() { skip } else { args.len() };
        let ghost head = texts(base@);
        let mut i = start;
        assert(a.subrange(start as int, start as int) =~= Seq::<Seq<char>>::empty());
        assert(head + a.subrange(start as int, start as int) =~= head);
        while i < args.len()
            invariant
                start <= i <= args@.len(),
                a == texts(args@),
                texts(base@) == head + a.subrange(start as int, i as int),
            decreases args@.len() - i,
        {
            let ghost before = texts(base@);
            base.push(args[i].clone());
            assert(texts(base@) =~= before.push(args@[i as int]@));
            assert(a.subrange(start as int, i + 1) =~= a.subrange(start as int, i as int).push(
                a[i as int],
            ));
            i = i + 1;
        }
        assert(texts(base@) =~= with_argv0(a, av));
        let ghost b = texts(base@);
        let mut out: Vec<String> = Vec::new();
        let mut j: usize = 0;
        assert(texts(out@) + Seq::<Seq<char>>::empty() =~= texts(out@));
        if provided_args.len() == 0 {
            let mut found = false;
            while j < base.len()
                invariant
                    j <= base@.len(),
                    b == texts(base@),
                    !found ==> texts(out@) + drop_separator_from(b, j as int) == drop_separator_from(
                        b,
                        0,
                    ),
                    found ==> texts(out@) + b.subrange(j as int, b.len() as int)
                        == drop_separator_from(b, 0),
                decreases base@.len() - j,
            {
                let ghost before = texts(out@);
                assert(b[j as int] == base@[j as int]@);
                if !found && same_text(base[j].as_str(), "--") {
                    found = true;
                } else {
                    out.push(base[j].clone());
                    assert(texts(out@) =~= before.push(b[j as int]));
                    if found {
                        assert(b.subrange(j as int, b.len() as int) =~= seq![b[j as int]]
                            + b.subrange(j + 1, b.len() as int));
                    }
                }
                if !found {
                    assert(before.push(b[j as int]) + drop_separator_from(b, j + 1) =~= before
                        + drop_separator_from(b, j as int));
                }
                j = j + 1;
            }
            if found {
                assert(b.subrange(j as int, b.len() as int) =~= Seq::<Seq<char>>::empty());
            }
            assert(texts(out@) + Seq::<Seq<char>>::empty() =~= texts(out@));
            assert(texts(out@) == drop_separator_from(b, 0));
            assert(texts(out@) == resolve_args(a, texts(provided_args@), av));
        } else {
            while j < base.len()
                invariant
                    j <= base@.len(),
                    b == texts(base@),
                    texts(out@) + before_separator_from(b, j as int) == before_separator_from(
                        b,
                        0,
                    ),
                    texts(out@) + Seq::<Seq<char>>::empty() == texts(out@),
                ensures
                    texts(out@) == before_separator_from(b, 0),
                decreases base@.len() - j,
            {
                let ghost before = texts(out@);
                assert(b[j as int] == base@[j as int]@);
                if same_text(base[j].as_str(), "--") {
                    assert(texts(out@) + Seq::<Seq<char>>::empty() =~= texts(out@));
                    break;
                }
                out.push(base[j].clone());
                assert(texts(out@) =~= before.push(b[j as int]));
                assert(before.push(b[j as int]) + before_separator_from(b, j + 1) =~= before
                    + before_separator_from(b, j as int));
                j = j + 1;
                assert(texts(out@) + Seq::<Seq<char>>::empty() =~= texts(out@));
            }
            let ghost kept = texts(out@);
            let mut k: usize = 0;
            while k < provided_args.len()
                invariant
                    k <= provided_args@.len(),
                    texts(out@) == kept + texts(provided_args@).subrange(0, k as int),
                decreases provided_args@.len() - k,
            {
                let ghost before = texts(out@);
                out.push(provided_args[k].clone());
                assert(texts(out@) =~= before.push(provided_args@[k as int]@));
                assert(texts(provided_args@).subrange(0, k + 1) =~= texts(provided_args@).subrange(
                    0,
                    k as int,
                ).push(provided_args@[k as int]@));
                k = k + 1;
            }
            assert(texts(provided_args@).subrange(0, provided_args@.len() as int) =~= texts(
                provided_args@,
            ));
            assert(texts(out@) == before_separator_from(b, 0) + texts(provided_args@));
            assert(texts(out@) == resolve_args(a, texts(provided_args@), av));
        }
        out
    }

    fn resolve_step(
        cmd: &Cmd,
        main: &Option<String>,
        cfg: &Config,
        provided_args: &[String],
        last: &Option<String>,
    ) -> (r: Step)
        ensures
            r@ == step_spec(cmd@, context_of(*main, cfg@, texts(provided_args@)), opt_text(*last)),
    {
        let args = Self::with_args(
            cmd.args(),
            provided_args,
            if cmd.recurse() {
                Some(cfg.argv0())
            } else {
                None
            },
        );
        let mkdir = match cmd.mk_dir() {
            Some(m) => Self::run_dir(main, Some(m)),
            None => None,
        };
        let dir = Self::run_dir(main, cmd.directory());
        let enter = if same_place(&dir, last) {
            None
        } else {
            match &dir {
                Some(d) => Some(d.clone()),
                None => Some(".".to_string()),
            }
        };
        Step { args, mkdir, dir, enter, outfile: cmd.out_file(), retmap: cmd.retmap().clone() }
    }

    /// Decides a run of the manifest `file`, found at `path`, under the options `cfg` and
    /// with the passthrough arguments `provided_args`.
    pub fn plan(path: &str, file: &ClassicFile, cfg: &Config, provided_args: &[String]) -> (r: Plan)
        ensures
            r@ == plan_spec(path@, file@, cfg@, texts(provided_args@)),
    {
        let ghost ctx = run_context(path@, cfg@, texts(provided_args@));
        let cmds = file.commands();
        let ghost cv = cmd_views_of(cmds@);
        let main = Self::relative_dir(path);
        assert(context_of(main, cfg@, texts(provided_args@)) == ctx);
        let mut last = clone_opt(&main);
        let mut steps: Vec<Step> = Vec::new();
        let mut i: usize = 0;
        assert(step_views(steps@) =~= Seq::<StepView>::empty());
        assert(Seq::<StepView>::empty() + steps_from(cv, 0, ctx.main, ctx) =~= steps_from(
            cv,
            0,
            ctx.main,
            ctx,
        ));
        while i < cmds.len()
            invariant
                i <= cmds@.len(),
                cv == cmd_views_of(cmds@),
                cv == file@.commands,
                context_of(main, cfg@, texts(provided_args@)) == ctx,
                step_views(steps@) + steps_from(cv, i as int, opt_text(last), ctx) == steps_from(
                    cv,
                    0,
                    ctx.main,
                    ctx,
                ),
            decreases cmds@.len() - i,
        {
            let cmd = &cmds[i];
            assert(cv[i as int] == cmd@);
            if cmd.enabled_with_reject(cfg.select(), cfg.reject()) {
                let st = Self::resolve_step(cmd, &main, cfg, provided_args, &last);
                let ghost sv = st@;
                let ghost before = step_views(steps@);
                last = clone_opt(&st.dir);
                steps.push(st);
                assert(step_views(steps@) =~= before.push(sv));
                assert(before.push(sv) + steps_from(cv, i + 1, opt_text(last), ctx) =~= before + (
                seq![sv] + steps_from(cv, i + 1, opt_text(last), ctx)));
            }
            i = i + 1;
        }
        assert(step_views(steps@) =~= step_views(steps@) + Seq::<StepView>::empty());
        let header = file.header().dotenv();
        Plan {
            default_env: !cfg.skip_env() && header.len() == 0,
            env_files: clone_texts(header),
            enter: main,
            steps,
        }
    }
}

} // verus!
