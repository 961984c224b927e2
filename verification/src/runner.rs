//! One coding session on one task: how it is started, watched and judged.

use crate::client::{move_step, Client, MoveStep};
use crate::decimal::{dec, dec_u64};
use crate::links::{group, group_of};
use crate::model::{ApiError, Placement, Task};
use crate::outside::{
    captures, group_texts, lowercase, match_texts, regex_matches, to_lowercase, EFFORT_PATTERN,
    FREE_PATTERN, LIMIT_PATTERN, MODEL_PATTERN,
};
use crate::paths::{join, path_in};
use crate::registry::{DaemonStatus, GlobalConfig, ProjectEntry};
use crate::settings::Settings;
use crate::text::{
    ends_with, opt_text, stands_at, starts_with, tail_lines, tail_of, text_eq, texts,
};
use vstd::prelude::*;
use vstd::string::*;

verus! {

/// How a session ended.
#[derive(Debug, Clone, Copy, PartialEq, Eq, Structural)]
pub enum Outcome {
    Success,
    Error,
    Limit,
    Stopped,
}

/// The text of group `i` of the first match.
pub open spec fn first_group(matches: Seq<Seq<Option<Seq<char>>>>, i: int) -> Option<Seq<char>> {
    if matches.len() == 0 {
        None
    } else {
        group(matches[0], i)
    }
}

/// What a directive names, else what the free form names, else the default; in lower case.
pub open spec fn picked(
    named: Option<Seq<char>>,
    free: Option<Seq<char>>,
    default: Seq<char>,
) -> Seq<char> {
    match named {
        Some(x) => lowercase(x),
        None => match free {
            Some(x) => lowercase(x),
            None => default,
        },
    }
}

/// The model that a text asks for.
pub open spec fn model_in(text: Seq<char>) -> Seq<char> {
    picked(
        first_group(regex_matches(MODEL_PATTERN@, true, text), 1),
        first_group(regex_matches(FREE_PATTERN@, true, text), 1),
        "opus"@,
    )
}

/// The effort that a text asks for, `-` where it asks for none.
pub open spec fn effort_in(text: Seq<char>) -> Seq<char> {
    picked(
        first_group(regex_matches(EFFORT_PATTERN@, true, text), 1),
        first_group(regex_matches(FREE_PATTERN@, true, text), 2),
        "-"@,
    )
}

fn first_group_of(matches: &Vec<Vec<Option<String>>>, i: usize) -> (r: Option<&String>)
    ensures
        first_group(match_texts(matches@), i as int) == (match r {
            Some(g) => Some(g@),
            None => None,
        }),
{
    if matches.len() == 0 {
        None
    } else {
        assert(match_texts(matches@)[0] == group_texts(matches@[0]@));
        group_of(&matches[0], i)
    }
}

fn pick(named: Option<&String>, free: Option<&String>, default: &str) -> (r: String)
    ensures
        r@ == picked(
            match named {
                Some(x) => Some(x@),
                None => None,
            },
            match free {
                Some(x) => Some(x@),
                None => None,
            },
            default@,
        ),
{
    match named {
        Some(x) => to_lowercase(x.as_str()),
        None => match free {
            Some(x) => to_lowercase(x.as_str()),
            None => default.to_owned(),
        },
    }
}

/// The model and the effort, from the matches of the directive for the model, of the one for the
/// effort and of the free form.
pub fn model_and_effort(
    model: &Vec<Vec<Option<String>>>,
    effort: &Vec<Vec<Option<String>>>,
    free: &Vec<Vec<Option<String>>>,
) -> (r: (String, String))
    ensures
        r.0@ == picked(
            first_group(match_texts(model@), 1),
            first_group(match_texts(free@), 1),
            "opus"@,
        ),
        r.1@ == picked(
            first_group(match_texts(effort@), 1),
            first_group(match_texts(free@), 2),
            "-"@,
        ),
{
    let m = pick(first_group_of(model, 1), first_group_of(free, 1), "opus");
    let e = pick(first_group_of(effort, 1), first_group_of(free, 2), "-");
    (m, e)
}

/// The model and the effort that a text asks for: by directives such as `model: sonnet` and
/// `effort: medium`, else in the free form `Sonnet, medium effort`.
pub fn extract_model_and_effort(text: &str) -> (r: (String, String))
    ensures
        r.0@ == model_in(text@),
        r.1@ == effort_in(text@),
{
    let model = captures(MODEL_PATTERN, true, text);
    let effort = captures(EFFORT_PATTERN, true, text);
    let free = captures(FREE_PATTERN, true, text);
    model_and_effort(&model, &effort, &free)
}

/// The role under which a task is worked on.
pub open spec fn role_or_todo(p: Placement) -> Seq<char> {
    match p.role {
        Some(role) => role@,
        None => "todo"@,
    }
}

pub fn session_role(p: &Placement) -> (r: String)
    ensures
        r@ == role_or_todo(*p),
{
    match &p.role {
        Some(role) => role.clone(),
        None => "todo".to_owned(),
    }
}

/// How the task gets into `in_progress`; `None` where it is there already.
pub fn enter_progress(client: &Client, task: &Task, p: &Placement) -> (r: Option<MoveStep>)
    ensures
        r is None <==> role_or_todo(*p) == "in_progress"@,
        r matches Some(step) ==> step@ == move_step(
            task.gid@,
            client.section_step(p.project_gid@, "in_progress"@),
        ),
{
    let role = session_role(p);
    if text_eq(role.as_str(), "in_progress") {
        None
    } else {
        Some(client.move_task_to_role(task.gid.as_str(), p.project_gid.as_str(), "in_progress"))
    }
}

/// What a session has to pass, in this order.
#[derive(Debug, Clone, Copy, PartialEq, Eq, Structural)]
pub enum Stage {
    /// The description of the task is put together.
    Context,
    /// The description is written to `current-task.md`.
    Save,
    /// The prompt is read.
    Prompt,
    /// The log of the session is created.
    LogFile,
    /// The session is started.
    Spawn,
    /// The session is watched.
    Watch,
    /// There was a failure, and nothing was run.
    Over(Outcome),
}

impl Stage {
    /// The stage that follows. A failure ends the session.
    pub open spec fn after(self, ok: bool) -> Stage {
        if self is Watch || self is Over {
            self
        } else if !ok {
            Stage::Over(Outcome::Error)
        } else {
            match self {
                Stage::Context => Stage::Save,
                Stage::Save => Stage::Prompt,
                Stage::Prompt => Stage::LogFile,
                Stage::LogFile => Stage::Spawn,
                _ => Stage::Watch,
            }
        }
    }

    /// Goes on to the next stage.
    pub fn advance(self, ok: bool) -> (r: Stage)
        ensures
            r == self.after(ok),
    {
        match self {
            Stage::Watch => Stage::Watch,
            Stage::Over(outcome) => Stage::Over(outcome),
            _ => if !ok {
                Stage::Over(Outcome::Error)
            } else {
                match self {
                    Stage::Context => Stage::Save,
                    Stage::Save => Stage::Prompt,
                    Stage::Prompt => Stage::LogFile,
                    Stage::LogFile => Stage::Spawn,
                    _ => Stage::Watch,
                }
            },
        }
    }
}

/// The stage that is reached when the stages go as told.
pub open spec fn reached(stage: Stage, oks: Seq<bool>) -> Stage
    decreases oks.len(),
{
    if oks.len() == 0 {
        stage
    } else {
        reached(stage, oks.drop_last()).after(oks.last())
    }
}

/// A session is watched once all of its five preparations have succeeded; after the first failure
/// nothing is run, and the outcome is an error.
pub proof fn law_session_needs_every_preparation(oks: Seq<bool>)
    requires
        oks.len() >= 5,
    ensures
        (forall|i: int| 0 <= i < 5 ==> oks[i]) ==> reached(Stage::Context, oks) == Stage::Watch,
        (exists|i: int| 0 <= i < 5 && !oks[i]) ==> reached(Stage::Context, oks) == Stage::Over(
            Outcome::Error,
        ),
    decreases oks.len(),
{
    let head = oks.drop_last();
    if oks.len() == 5 {
        let o4 = head;
        let o3 = o4.drop_last();
        let o2 = o3.drop_last();
        let o1 = o2.drop_last();
        let o0 = o1.drop_last();
        assert(o0.len() == 0);
        assert(reached(Stage::Context, o0) == Stage::Context);
        assert(reached(Stage::Context, o1) == Stage::Context.after(oks[0]));
        assert(reached(Stage::Context, o2) == reached(Stage::Context, o1).after(oks[1]));
        assert(reached(Stage::Context, o3) == reached(Stage::Context, o2).after(oks[2]));
        assert(reached(Stage::Context, o4) == reached(Stage::Context, o3).after(oks[3]));
        assert(reached(Stage::Context, oks) == reached(Stage::Context, o4).after(oks[4]));
    } else {
        law_session_needs_every_preparation(head);
        assert(forall|i: int| 0 <= i < 5 ==> head[i] == oks[i]);
        if exists|i: int| 0 <= i < 5 && !oks[i] {
            let i = choose|i: int| 0 <= i < 5 && !oks[i];
            assert(!head[i]);
        }
    }
}

/// The stage that is reached when the stages go as told, and the move that is due on the way goes
/// as told too: `None` where none is made, else whether it succeeded.
pub open spec fn reached_with_moves(stage: Stage, steps: Seq<(bool, Option<bool>)>) -> Stage
    decreases steps.len(),
{
    if steps.len() == 0 {
        stage
    } else {
        stage_after(
            reached_with_moves(stage, steps.drop_last()),
            steps.last().0,
            steps.last().1,
        )
    }
}

/// The stage that follows, given how the stage went and how the move went that was due in it.
pub open spec fn stage_after(stage: Stage, ok: bool, moved: Option<bool>) -> Stage {
    stage.after(ok)
}

/// How a move went.
pub open spec fn move_outcome(moved: Option<Result<(), ApiError>>) -> Option<bool> {
    match moved {
        Some(r) => Some(r is Ok),
        None => None,
    }
}

impl Stage {
    /// Goes on to the next stage, given how the stage went and how the move went that was due in
    /// it. Where the move failed, the session goes on all the same.
    pub fn proceed(self, ok: bool, moved: &Option<Result<(), ApiError>>) -> (r: Stage)
        ensures
            r == stage_after(self, ok, move_outcome(*moved)),
    {
        self.advance(ok)
    }
}

/// The move into `in_progress` that is due in a stage: once the description is saved, before the
/// prompt is read, and only where the task is not there already.
pub fn move_due(stage: Stage, client: &Client, task: &Task, p: &Placement) -> (r: Option<MoveStep>)
    ensures
        r is Some <==> stage == Stage::Prompt && role_or_todo(*p) != "in_progress"@,
        r matches Some(step) ==> step@ == move_step(
            task.gid@,
            client.section_step(p.project_gid@, "in_progress"@),
        ),
{
    match stage {
        Stage::Prompt => enter_progress(client, task, p),
        _ => None,
    }
}

/// The successes of stages, without the moves.
pub open spec fn successes(steps: Seq<(bool, Option<bool>)>) -> Seq<bool> {
    steps.map_values(|x: (bool, Option<bool>)| x.0)
}

/// How the move into `in_progress` goes, or whether it is made at all, changes no stage.
pub proof fn law_move_changes_no_stage(stage: Stage, steps: Seq<(bool, Option<bool>)>)
    ensures
        reached_with_moves(stage, steps) == reached(stage, successes(steps)),
    decreases steps.len(),
{
    if steps.len() > 0 {
        law_move_changes_no_stage(stage, steps.drop_last());
        assert(successes(steps).drop_last() =~= successes(steps.drop_last()));
        assert(successes(steps).last() == steps.last().0);
    }
}

/// The stage in which the move is due is reached exactly when the description was put together and
/// was saved, and nothing else was done yet.
pub proof fn law_move_comes_after_the_save(oks: Seq<bool>)
    ensures
        reached(Stage::Context, oks) == Stage::Prompt <==> oks.len() == 2 && oks[0] && oks[1],
    decreases oks.len(),
{
    if oks.len() > 0 {
        let head = oks.drop_last();
        law_move_comes_after_the_save(head);
        lemma_first_stages(head);
    }
}

proof fn lemma_first_stages(oks: Seq<bool>)
    ensures
        reached(Stage::Context, oks) == Stage::Context <==> oks.len() == 0,
        reached(Stage::Context, oks) == Stage::Save <==> oks.len() == 1 && oks[0],
    decreases oks.len(),
{
    if oks.len() > 0 {
        lemma_first_stages(oks.drop_last());
    }
}

/// Where the description cannot be put together, the outcome is an error: the task is not moved
/// and no session is started.
pub proof fn law_failed_description_ends_the_session(oks: Seq<bool>)
    requires
        oks.len() > 0,
        !oks[0],
    ensures
        reached(Stage::Context, oks) == Stage::Over(Outcome::Error),
    decreases oks.len(),
{
    let head = oks.drop_last();
    if oks.len() > 1 {
        assert(head[0] == oks[0]);
        law_failed_description_ends_the_session(head);
    } else {
        assert(reached(Stage::Context, head) == Stage::Context);
    }
}

/// The file that holds the description of the task.
pub fn current_task_file(project: &ProjectEntry) -> (r: String)
    ensures
        r@ == path_in(path_in(project.autopilot_path(), "state"@), "current-task.md"@),
{
    join(project.state_dir().as_str(), "current-task.md")
}

/// The file that holds the prompt.
pub fn prompt_path(project: &ProjectEntry, s: &Settings) -> (r: String)
    ensures
        r@ == path_in(project.autopilot_path(), s.prompt_file@),
{
    join(project.autopilot_dir().as_str(), s.prompt_file.as_str())
}

/// The log of a session that starts at the given time.
pub fn session_log_path(project: &ProjectEntry, stamp: &str) -> (r: String)
    ensures
        r@ == path_in(project.logs_path(), "session-"@ + stamp@ + ".log"@),
{
    let mut name = "session-".to_owned();
    name.append(stamp);
    name.append(".log");
    join(project.logs_dir().as_str(), name.as_str())
}

/// The model and the effort of a session, by the notes of its task: the model is the one that is
/// forced, else the one that the notes ask for. Subtasks, comments and linked tasks have no say.
pub fn session_model(notes: &str, model_override: Option<&str>) -> (r: (String, String))
    ensures
        r.0@ == (match model_override {
            Some(m) => m@,
            None => model_in(notes@),
        }),
        r.1@ == effort_in(notes@),
{
    let (model, effort) = extract_model_and_effort(notes);
    match model_override {
        Some(m) => (m.to_owned(), effort),
        None => (model, effort),
    }
}

/// A process to be started: its arguments, its directory and its additions to the environment.
#[derive(Debug)]
pub struct SessionPlan {
    pub args: Vec<String>,
    pub dir: String,
    pub env: Vec<(String, String)>,
}

/// The texts of a list of pairs.
pub open spec fn pairs(v: Seq<(String, String)>) -> Seq<(Seq<char>, Seq<char>)> {
    v.map_values(|p: (String, String)| (p.0@, p.1@))
}

/// The arguments of a session. The fallback model is named where it is another one.
pub open spec fn session_args(prompt: Seq<char>, model: Seq<char>, fallback: Seq<char>) -> Seq<
    Seq<char>,
> {
    let base = seq!["-p"@, prompt, "--model"@, model, "--dangerously-skip-permissions"@];
    if model != fallback {
        base + seq!["--fallback-model"@, fallback]
    } else {
        base
    }
}

/// How many tokens a session may think, by its effort.
pub open spec fn thinking_tokens(effort: Seq<char>) -> Option<Seq<char>> {
    if effort == "low"@ {
        Some("2048"@)
    } else if effort == "medium"@ {
        Some("10000"@)
    } else if effort == "high"@ {
        Some("31999"@)
    } else {
        None
    }
}

/// The additions to the environment of a session.
pub open spec fn session_env(apdir: Seq<char>, effort: Seq<char>) -> Seq<(Seq<char>, Seq<char>)> {
    let base = seq![("AUTOPILOT_DIR"@, apdir)];
    match thinking_tokens(effort) {
        Some(n) => base.push(("MAX_THINKING_TOKENS"@, n)),
        None => base,
    }
}

/// How a session is started.
pub fn session_plan(
    project: &ProjectEntry,
    gcfg: &GlobalConfig,
    prompt: &str,
    model: &str,
    effort: &str,
) -> (r: SessionPlan)
    ensures
        texts(r.args@) == session_args(prompt@, model@, gcfg.daemon.fallback_model@),
        r.dir@ == project.dir@,
        pairs(r.env@) == session_env(project.autopilot_path(), effort@),
{
    let mut args: Vec<String> = Vec::new();
    args.push("-p".to_owned());
    args.push(prompt.to_owned());
    args.push("--model".to_owned());
    args.push(model.to_owned());
    args.push("--dangerously-skip-permissions".to_owned());
    let fallback = gcfg.daemon.fallback_model.as_str();
    if !text_eq(model, fallback) {
        args.push("--fallback-model".to_owned());
        args.push(fallback.to_owned());
    }
    assert(texts(args@) =~= session_args(prompt@, model@, fallback@));
    let mut env: Vec<(String, String)> = Vec::new();
    env.push(("AUTOPILOT_DIR".to_owned(), project.autopilot_dir()));
    if text_eq(effort, "low") {
        env.push(("MAX_THINKING_TOKENS".to_owned(), "2048".to_owned()));
    } else if text_eq(effort, "medium") {
        env.push(("MAX_THINKING_TOKENS".to_owned(), "10000".to_owned()));
    } else if text_eq(effort, "high") {
        env.push(("MAX_THINKING_TOKENS".to_owned(), "31999".to_owned()));
    }
    assert(pairs(env@) =~= session_env(project.autopilot_path(), effort@));
    SessionPlan { args, dir: project.dir.clone(), env }
}

/// What a session on a task is: its model, and how it is started. The directives stand in the
/// notes of the task itself.
pub fn run_session(
    project: &ProjectEntry,
    gcfg: &GlobalConfig,
    task: &Task,
    prompt: &str,
    model_override: Option<&str>,
) -> (r: (String, SessionPlan))
    ensures
        r.0@ == (match model_override {
            Some(m) => m@,
            None => model_in(task.notes@),
        }),
        texts(r.1.args@) == session_args(prompt@, r.0@, gcfg.daemon.fallback_model@),
        r.1.dir@ == project.dir@,
        pairs(r.1.env@) == session_env(project.autopilot_path(), effort_in(task.notes@)),
{
    let (model, effort) = session_model(task.notes.as_str(), model_override);
    let plan = session_plan(project, gcfg, prompt, model.as_str(), effort.as_str());
    (model, plan)
}

/// What the daemon tells of a session.
pub fn session_status(
    project: &ProjectEntry,
    task: &Task,
    model: &str,
    log_path: &str,
    updated_at: &str,
) -> (r: DaemonStatus)
    ensures
        r.state@ == "session"@,
        opt_text(r.project) == Some(project.name@),
        opt_text(r.task_gid) == Some(task.gid@),
        opt_text(r.task_name) == Some(task.name@),
        opt_text(r.model) == Some(model@),
        opt_text(r.session_log) == Some(log_path@),
        r.updated_at@ == updated_at@,
{
    DaemonStatus {
        state: "session".to_owned(),
        project: Some(project.name.clone()),
        task_gid: Some(task.gid.clone()),
        task_name: Some(task.name.clone()),
        model: Some(model.to_owned()),
        session_log: Some(log_path.to_owned()),
        updated_at: updated_at.to_owned(),
    }
}

/// What was seen of a process.
#[derive(Debug, Clone, Copy)]
pub enum Poll {
    /// It ended, with a code unless a signal ended it.
    Exited(Option<i32>),
    Running,
    /// It could not be looked at.
    Failed,
}

/// What to do with a process.
#[derive(Debug, Clone, Copy)]
pub enum Watch {
    /// It is over, and counts as ended with this code.
    Exit(i32),
    /// It took too long: it is killed, and counts as ended with the code -1.
    Kill,
    /// Look again after so many seconds.
    Wait(u64),
}

/// What follows from a look at a session.
pub fn watch(poll: Poll, past_deadline: bool) -> (r: Watch)
    ensures
        match poll {
            Poll::Exited(Some(code)) => r == Watch::Exit(code),
            Poll::Exited(None) => r matches Watch::Exit(code) && code == -1,
            Poll::Failed => r matches Watch::Exit(code) && code == -1,
            Poll::Running => r == if past_deadline {
                Watch::Kill
            } else {
                Watch::Wait(5)
            },
        },
{
    match poll {
        Poll::Exited(Some(code)) => Watch::Exit(code),
        Poll::Exited(None) => Watch::Exit(-1),
        Poll::Failed => Watch::Exit(-1),
        Poll::Running => if past_deadline {
            Watch::Kill
        } else {
            Watch::Wait(5)
        },
    }
}

/// The line that is put behind the log of a session that was killed.
pub fn watchdog_line(timeout: u64) -> (r: String)
    ensures
        r@ == "\n== WATCHDOG: сессия превысила "@ + dec(timeout as int) + "с, убита =="@,
{
    let mut out = "\n== WATCHDOG: сессия превысила ".to_owned();
    out.append(dec_u64(timeout).as_str());
    out.append("с, убита ==");
    out
}

/// How a session went.
#[derive(Debug, Clone, Copy, PartialEq, Eq, Structural)]
pub enum Finish {
    /// It succeeded; a rest of 10 seconds follows.
    Done,
    /// The account is at its limit.
    Limit,
    /// It failed; a sleep of 300 seconds follows, which a stop can end.
    Failed,
}

/// The last lines of the log of a session, by which it is judged.
pub open spec fn session_tail(log: Seq<char>) -> Seq<char> {
    tail_of(log, 10)
}

/// Whether a text speaks of a limit.
pub open spec fn speaks_of_limit(text: Seq<char>) -> bool {
    regex_matches(LIMIT_PATTERN@, true, text).len() > 0
}

/// How a session went that ended with a code: a success by its code alone, else by whether its
/// last lines speak of a limit.
pub open spec fn finish_of(exit_code: i32, at_limit: bool) -> Finish {
    if exit_code == 0 {
        Finish::Done
    } else if at_limit {
        Finish::Limit
    } else {
        Finish::Failed
    }
}

/// How a session went that ended with a code, given whether its last lines speak of a limit.
pub fn finish(exit_code: i32, at_limit: bool) -> (r: Finish)
    ensures
        r == finish_of(exit_code, at_limit),
{
    if exit_code == 0 {
        Finish::Done
    } else if at_limit {
        Finish::Limit
    } else {
        Finish::Failed
    }
}

/// How a session went, by its code and its log. The last lines come with it, to be printed.
pub fn judge_session(exit_code: i32, log: &str) -> (r: (Finish, String))
    ensures
        r.0 == finish_of(exit_code, speaks_of_limit(session_tail(log@))),
        r.1@ == session_tail(log@),
{
    let tail = tail_lines(log, 10);
    let found = captures(LIMIT_PATTERN, true, tail.as_str());
    assert(found@.len() == match_texts(found@).len());
    (finish(exit_code, found.len() > 0), tail)
}

/// The outcome of a session; a stop during the sleep that follows a failure is told.
pub open spec fn outcome_of(f: Finish, stopped: bool) -> Outcome {
    match f {
        Finish::Done => Outcome::Success,
        Finish::Limit => Outcome::Limit,
        Finish::Failed => if stopped {
            Outcome::Stopped
        } else {
            Outcome::Error
        },
    }
}

/// The outcome of a session, given whether a stop was asked for during the sleep that follows a
/// failure.
pub fn outcome(f: Finish, stopped: bool) -> (r: Outcome)
    ensures
        r == outcome_of(f, stopped),
{
    match f {
        Finish::Done => Outcome::Success,
        Finish::Limit => Outcome::Limit,
        Finish::Failed => if stopped {
            Outcome::Stopped
        } else {
            Outcome::Error
        },
    }
}

/// What to do during a sleep that a stop can end.
#[derive(Debug, Clone, Copy)]
pub enum SleepStep {
    /// The sleep is over; whether a stop was asked for.
    Over(bool),
    /// Look again after so many seconds.
    Wait(u64),
}

/// One look during a sleep: a stop ends it at once, the deadline ends it too.
pub fn sleep_checking_stop(past_deadline: bool, stop: bool) -> (r: SleepStep)
    ensures
        r == (if stop {
            SleepStep::Over(true)
        } else if past_deadline {
            SleepStep::Over(false)
        } else {
            SleepStep::Wait(5)
        }),
{
    if !past_deadline {
        if stop {
            SleepStep::Over(true)
        } else {
            SleepStep::Wait(5)
        }
    } else {
        SleepStep::Over(stop)
    }
}

/// A file among the logs of a project, with the time of its last change.
#[derive(Debug)]
pub struct LogFile {
    pub name: String,
    /// Nanoseconds since the epoch.
    pub modified: i128,
}

/// Whether a file is the log of a session.
pub open spec fn session_log_name(name: Seq<char>) -> bool {
    stands_at(name, "session-"@, 0) && stands_at(name, ".log"@, name.len() - ".log"@.len())
}

/// The place of the log of a session that was changed last; of several the last in the list.
pub fn latest_session_log(files: &Vec<LogFile>) -> (r: Option<usize>)
    ensures
        match r {
            Some(k) => {
                &&& k < files@.len()
                &&& session_log_name(files@[k as int].name@)
                &&& forall|j: int|
                    0 <= j < files@.len() && session_log_name((#[trigger] files@[j]).name@)
                        ==> files@[j].modified <= files@[k as int].modified && (j > k
                        ==> files@[j].modified < files@[k as int].modified)
            },
            None => forall|j: int|
                0 <= j < files@.len() ==> !session_log_name((#[trigger] files@[j]).name@),
        },
{
    let mut last: Option<usize> = None;
    let mut i: usize = 0;
    while i < files.len()
        invariant
            i <= files@.len(),
            match last {
                Some(k) => {
                    &&& k < i
                    &&& session_log_name(files@[k as int].name@)
                    &&& forall|j: int|
                        0 <= j < i && session_log_name((#[trigger] files@[j]).name@)
                            ==> files@[j].modified <= files@[k as int].modified && (j > k
                            ==> files@[j].modified < files@[k as int].modified)
                },
                None => forall|j: int|
                    0 <= j < i ==> !session_log_name((#[trigger] files@[j]).name@),
            },
        decreases files@.len() - i,
    {
        let name = files[i].name.as_str();
        if starts_with(name, "session-") && ends_with(name, ".log") {
            match last {
                Some(k) => {
                    if files[k].modified <= files[i].modified {
                        last = Some(i);
                    }
                },
                None => {
                    last = Some(i);
                },
            }
        }
        i += 1;
    }
    last
}

/// The last `n` lines of a file.
pub fn tail_file(content: &str, n: usize) -> (r: String)
    ensures
        r@ == tail_of(content@, n as nat),
{
    tail_lines(content, n)
}

/// A session that ends well is a success whatever its log says; one that does not never is.
pub proof fn law_success_is_exit_code_zero(exit_code: i32, at_limit: bool, stopped: bool)
    ensures
        outcome_of(finish_of(exit_code, at_limit), stopped) == Outcome::Success <==> exit_code
            == 0,
{
}

/// The model is the one that the directive names, else the one that the free form names, else
/// `opus`; the effort alike, else none. Of several matches the first counts, in any case of letters.
pub proof fn law_directives_before_the_free_form(text: Seq<char>)
    ensures
        ({
            let m = regex_matches("(?:модель|model):\\s*(opus|sonnet|haiku|fable)"@, true, text);
            let e = regex_matches("(?:эффорт|effort):\\s*(low|medium|high)"@, true, text);
            let f = regex_matches(
                "\\b(opus|sonnet|haiku|fable)\\b[\\s,]+(low|medium|high)\\s+effort"@,
                true,
                text,
            );
            &&& m.len() > 0 && m[0].len() > 1 && m[0][1] is Some ==> model_in(text) == lowercase(
                m[0][1]->0,
            )
            &&& m.len() == 0 && f.len() > 0 && f[0].len() > 2 && f[0][1] is Some ==> model_in(text)
                == lowercase(f[0][1]->0)
            &&& m.len() == 0 && f.len() == 0 ==> model_in(text) == "opus"@
            &&& e.len() > 0 && e[0].len() > 1 && e[0][1] is Some ==> effort_in(text) == lowercase(
                e[0][1]->0,
            )
            &&& e.len() == 0 && f.len() > 0 && f[0].len() > 2 && f[0][2] is Some ==> effort_in(text)
                == lowercase(f[0][2]->0)
            &&& e.len() == 0 && f.len() == 0 ==> effort_in(text) == "-"@
        }),
{
}

/// What is picked: the named one, else the free one, each in lower case, else the default as it is;
/// a group is looked up in the first match alone.
pub proof fn law_named_before_free_before_default(
    x: Seq<char>,
    y: Option<Seq<char>>,
    default: Seq<char>,
    matches: Seq<Seq<Option<Seq<char>>>>,
    i: int,
)
    ensures
        picked(Some(x), y, default) == lowercase(x),
        picked(None, Some(x), default) == lowercase(x),
        picked(None, None, default) == default,
        matches.len() == 0 ==> first_group(matches, i) is None,
        matches.len() > 0 && 0 <= i < matches[0].len() ==> first_group(matches, i) == matches[0][i],
        matches.len() > 0 && !(0 <= i < matches[0].len()) ==> first_group(matches, i) is None,
{
}

/// A session gets the prompt and the model; the fallback model is named exactly where it is another
/// one.
pub proof fn law_session_gets_prompt_and_model(
    prompt: Seq<char>,
    model: Seq<char>,
    fallback: Seq<char>,
)
    ensures
        ({
            let args = session_args(prompt, model, fallback);
            &&& args.len() >= 5
            &&& args[0] == "-p"@ && args[1] == prompt
            &&& args[2] == "--model"@ && args[3] == model
            &&& args[4] == "--dangerously-skip-permissions"@
            &&& model == fallback ==> args.len() == 5
            &&& model != fallback ==> args.len() == 7 && args[5] == "--fallback-model"@ && args[6]
                == fallback
        }),
{
}

/// A session is told the directory of the settings, and how many tokens it may think exactly where
/// its effort is low, medium or high: the more the higher.
pub proof fn law_session_environment(apdir: Seq<char>, effort: Seq<char>)
    ensures
        ({
            let env = session_env(apdir, effort);
            &&& env.len() >= 1 && env[0] == ("AUTOPILOT_DIR"@, apdir)
            &&& effort == "low"@ ==> env.len() == 2 && env[1] == ("MAX_THINKING_TOKENS"@, "2048"@)
            &&& effort == "medium"@ ==> env.len() == 2 && env[1] == (
                "MAX_THINKING_TOKENS"@,
                "10000"@,
            )
            &&& effort == "high"@ ==> env.len() == 2 && env[1] == ("MAX_THINKING_TOKENS"@, "31999"@)
            &&& effort != "low"@ && effort != "medium"@ && effort != "high"@ ==> env.len() == 1
        }),
{
    reveal_strlit("low");
    reveal_strlit("medium");
    reveal_strlit("high");
    assert("low"@.len() == 3 && "medium"@.len() == 6 && "high"@.len() == 4);
}

/// A session that did not end well met a limit exactly where one of the last ten lines of its log,
/// taken together, speaks of one; else it failed, and a stop during the sleep after that is told.
pub proof fn law_outcome_by_code_and_last_lines(exit_code: i32, log: Seq<char>, stopped: bool)
    ensures
        session_tail(log) == tail_of(log, 10),
        ({
            let limit = regex_matches(
                "usage limit|limit reached|rate.?limit|session limit|hit your|out of usage credits|usage credits|out of credits|credit balance"@,
                true,
                tail_of(log, 10),
            ).len() > 0;
            let r = outcome_of(finish_of(exit_code, speaks_of_limit(session_tail(log))), stopped);
            &&& exit_code == 0 ==> r == Outcome::Success
            &&& exit_code != 0 && limit ==> r == Outcome::Limit
            &&& exit_code != 0 && !limit && stopped ==> r == Outcome::Stopped
            &&& exit_code != 0 && !limit && !stopped ==> r == Outcome::Error
        }),
{
}

/// The preparations of a session come in this order, and each follows only where the one before it
/// succeeded; a session that is watched or over stays so.
pub proof fn law_preparations_in_order(ok: bool, o: Outcome)
    ensures
        Stage::Context.after(true) == Stage::Save,
        Stage::Save.after(true) == Stage::Prompt,
        Stage::Prompt.after(true) == Stage::LogFile,
        Stage::LogFile.after(true) == Stage::Spawn,
        Stage::Spawn.after(true) == Stage::Watch,
        Stage::Context.after(false) == Stage::Over(Outcome::Error),
        Stage::Save.after(false) == Stage::Over(Outcome::Error),
        Stage::Prompt.after(false) == Stage::Over(Outcome::Error),
        Stage::LogFile.after(false) == Stage::Over(Outcome::Error),
        Stage::Spawn.after(false) == Stage::Over(Outcome::Error),
        Stage::Watch.after(ok) == Stage::Watch,
        Stage::Over(o).after(ok) == Stage::Over(o),
{
}

/// A task is worked on under the role of its section, and under `todo` where that has none.
pub proof fn law_role_of_a_session(p: Placement)
    ensures
        p.role matches Some(role) ==> role_or_todo(p) == role@,
        p.role is None ==> role_or_todo(p) == "todo"@,
{
}

/// The log of a session is found by its name: whatever stands between `session-` and `.log`.
pub proof fn law_session_logs_are_found_by_name(stamp: Seq<char>, name: Seq<char>)
    ensures
        session_log_name("session-"@ + stamp + ".log"@),
        session_log_name(name) ==> name.len() >= 8 && name.subrange(0, 8) == "session-"@
            && name.subrange(name.len() - 4, name.len() as int) == ".log"@,
{
    reveal_strlit("session-");
    reveal_strlit(".log");
    let whole = "session-"@ + stamp + ".log"@;
    assert(whole.subrange(0, 8) =~= "session-"@);
    assert(whole.subrange(whole.len() - 4, whole.len() as int) =~= ".log"@);
    assert("session-"@.len() == 8 && ".log"@.len() == 4);
}

/// A list of pairs stands for the texts of each pair, in their order.
pub proof fn law_views_of_pairs(v: Seq<(String, String)>, i: int)
    ensures
        pairs(v).len() == v.len(),
        0 <= i < v.len() ==> pairs(v)[i] == (v[i].0@, v[i].1@),
{
}

} // verus!
