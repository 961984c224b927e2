//! The daemon: its status in words, and the loop over all projects.
//!
//! The registry is read anew in each round, so changes to it take effect without a restart. The
//! projects are looked at by falling priority. The first task that is found starts a session, and
//! after the session a new round begins: a project of high priority always gets the next session
//! first.

use crate::decimal::{dec, dec_i64, dec_u64};
use crate::order::law_sorted_same_items;
use crate::registry::{
    active, entries, scan_order, scanned, DaemonStatus, GlobalConfig, ProjectEntry, Registry,
};
use crate::runner::Outcome;
use crate::text::{opt_text, text_eq};
use vstd::prelude::*;
use vstd::string::*;

verus! {

/// A text that may be missing, `?` where it is.
pub open spec fn or_question(o: Option<String>) -> Seq<char> {
    match o {
        Some(s) => s@,
        None => "?"@,
    }
}

fn or_question_of(o: &Option<String>) -> (r: &str)
    ensures
        r@ == or_question(*o),
{
    match o {
        Some(s) => s.as_str(),
        None => "?",
    }
}

/// What the daemon is doing, in one line; nothing for a state that is not told.
pub open spec fn activity(st: DaemonStatus) -> Seq<char> {
    if st.state@ == "session"@ {
        "Сейчас: сессия «"@ + or_question(st.task_name) + "» ["@ + or_question(st.project)
            + "] (модель "@ + or_question(st.model) + ", с "@ + st.updated_at@ + ")\n"@
    } else if st.state@ == "limit_sleep"@ {
        "Сейчас: пауза из-за лимита (с "@ + st.updated_at@ + ")\n"@
    } else if st.state@ == "idle"@ {
        "Сейчас: простой, задач нет (проверка "@ + st.updated_at@ + ")\n"@
    } else {
        ""@
    }
}

fn activity_of(st: &DaemonStatus) -> (r: String)
    ensures
        r@ == activity(*st),
{
    let state = st.state.as_str();
    if text_eq(state, "session") {
        let mut out = "Сейчас: сессия «".to_owned();
        out.append(or_question_of(&st.task_name));
        out.append("» [");
        out.append(or_question_of(&st.project));
        out.append("] (модель ");
        out.append(or_question_of(&st.model));
        out.append(", с ");
        out.append(st.updated_at.as_str());
        out.append(")\n");
        out
    } else if text_eq(state, "limit_sleep") {
        let mut out = "Сейчас: пауза из-за лимита (с ".to_owned();
        out.append(st.updated_at.as_str());
        out.append(")\n");
        out
    } else if text_eq(state, "idle") {
        let mut out = "Сейчас: простой, задач нет (проверка ".to_owned();
        out.append(st.updated_at.as_str());
        out.append(")\n");
        out
    } else {
        "".to_owned()
    }
}

/// The first lines: whether the daemon runs and what it is doing.
pub open spec fn daemon_lines(pid: Option<u32>, st: DaemonStatus) -> Seq<char> {
    match pid {
        Some(n) => "Демон: РАБОТАЕТ (pid "@ + dec(n as int) + ")\n"@ + activity(st),
        None => "Демон: остановлен\n"@,
    }
}

/// Two lines on a project.
pub open spec fn project_lines(p: ProjectEntry) -> Seq<char> {
    let state = if p.paused {
        "⏸ пауза"@
    } else {
        "▶️ активен"@
    };
    "  "@ + p.name@ + " — "@ + state + " (приоритет "@ + dec(p.priority as int) + ")\n"@
        + "      "@ + p.dir@ + "\n"@
}

fn project_lines_of(p: &ProjectEntry) -> (r: String)
    ensures
        r@ == project_lines(*p),
{
    let mut out = "  ".to_owned();
    out.append(p.name.as_str());
    out.append(" — ");
    if p.paused {
        out.append("⏸ пауза");
    } else {
        out.append("▶️ активен");
    }
    out.append(" (приоритет ");
    out.append(dec_i64(p.priority).as_str());
    out.append(")\n");
    out.append("      ");
    out.append(p.dir.as_str());
    out.append("\n");
    out
}

/// The lines on the first `n` projects.
pub open spec fn all_project_lines(s: Seq<ProjectEntry>, n: int) -> Seq<char>
    decreases n,
{
    if n <= 0 {
        Seq::empty()
    } else {
        all_project_lines(s, n - 1) + project_lines(s[n - 1])
    }
}

/// The status in words.
pub open spec fn status(projects: Seq<ProjectEntry>, st: DaemonStatus, pid: Option<u32>) -> Seq<
    char,
> {
    let list = if projects.len() == 0 {
        "  (нет — добавь: autopilot add <dir>)\n"@
    } else {
        all_project_lines(scanned(projects), projects.len() as int)
    };
    daemon_lines(pid, st) + "\nПроекты:\n"@ + list
}

/// The status in words: the daemon, then all projects in the order in which they are looked at.
pub fn status_text(reg: &Registry, st: &DaemonStatus, pid: Option<u32>) -> (r: String)
    ensures
        r@ == status(reg.projects@, *st, pid),
{
    let mut out = match pid {
        Some(n) => {
            let mut head = "Демон: РАБОТАЕТ (pid ".to_owned();
            head.append(dec_u64(n as u64).as_str());
            head.append(")\n");
            head.append(activity_of(st).as_str());
            head
        },
        None => "Демон: остановлен\n".to_owned(),
    };
    out.append("\nПроекты:\n");
    if reg.projects.len() == 0 {
        out.append("  (нет — добавь: autopilot add <dir>)\n");
        return out;
    }
    let all = reg.sorted_all();
    let ghost found = scanned(reg.projects@);
    proof {
        law_sorted_same_items(reg.projects@, scan_order());
        assert(entries(all@).len() == all@.len());
    }
    let mut list = String::new();
    let mut i: usize = 0;
    while i < all.len()
        invariant
            i <= all@.len(),
            entries(all@) == found,
            list@ == all_project_lines(found, i as int),
        decreases all@.len() - i,
    {
        assert(*all@[i as int] == entries(all@)[i as int]);
        list.append(project_lines_of(all[i]).as_str());
        i += 1;
    }
    out.append(list.as_str());
    out
}

/// What the daemon waits for.
#[derive(Debug, Clone, Copy, PartialEq, Eq, Structural)]
pub enum Phase {
    /// Whether a stop is asked for, at the start of a round.
    Round,
    /// The registry.
    Registry,
    /// Whether a stop is asked for, before the project at a place among so many.
    Project(usize, usize),
    /// The settings of that project.
    Settings(usize, usize),
    /// A task of that project.
    Task(usize, usize),
    /// The end of a session for that project.
    Session(usize, usize),
    /// The end of a sleep.
    Sleep,
    /// Nothing: the daemon is over.
    Over,
}

/// What the daemon is told.
#[derive(Debug, Clone, Copy, PartialEq, Eq, Structural)]
pub enum Event {
    /// Whether a stop is asked for.
    Stop(bool),
    /// The number of projects that are not paused; `None` where the registry cannot be read.
    Registry(Option<usize>),
    /// Whether the settings were loaded.
    Settings(bool),
    /// Whether there is a task to be taken.
    Task(bool),
    /// How a session ended.
    Session(Outcome),
}

/// What the daemon does next.
#[derive(Debug, Clone, Copy, PartialEq, Eq, Structural)]
pub enum Action {
    /// Look whether a stop is asked for.
    LookForStop,
    /// Read the registry and the configuration.
    ReadRegistry,
    /// Load the settings of the project at this place.
    LoadSettings(usize),
    /// Choose a task of the project at this place.
    SelectTask(usize),
    /// Run a session for the project at this place.
    RunSession(usize),
    /// Sleep 60 seconds: the registry cannot be read.
    SleepBroken,
    /// Sleep as long as the configuration says for a limit.
    SleepLimit,
    /// Sleep as long as the configuration says for no tasks.
    SleepIdle,
    /// Clean up and end.
    Quit,
}

/// The state of the daemon.
#[derive(Debug)]
pub struct Daemon {
    pub phase: Phase,
    /// The model that is forced on sessions after a limit was reached.
    pub model_override: Option<String>,
}

/// Whether the daemon waits for such an event.
pub open spec fn awaited(phase: Phase, event: Event) -> bool {
    match phase {
        Phase::Round => event is Stop,
        Phase::Registry => event is Registry,
        Phase::Project(i, n) => i < n && event is Stop,
        Phase::Settings(i, n) => i < n && event is Settings,
        Phase::Task(i, n) => i < n && event is Task,
        Phase::Session(i, n) => i < n && event is Session,
        Phase::Sleep => event is Stop,
        Phase::Over => false,
    }
}

/// The project behind place `i` of `n`, or a sleep behind the last one.
pub open spec fn behind(i: usize, n: usize) -> (Phase, Action) {
    if i + 1 < n {
        (Phase::Project((i + 1) as usize, n), Action::LookForStop)
    } else {
        (Phase::Sleep, Action::SleepIdle)
    }
}

/// Whether a limit was reached on the fallback model itself.
pub open spec fn limit_on_fallback(model: Option<Seq<char>>, fallback: Seq<char>) -> bool {
    model == Some(fallback)
}

/// The next phase and action.
pub open spec fn transition(
    phase: Phase,
    model: Option<Seq<char>>,
    event: Event,
    fallback: Seq<char>,
) -> (Phase, Action) {
    match (phase, event) {
        (_, Event::Stop(true)) => (Phase::Over, Action::Quit),
        (Phase::Round, Event::Stop(false)) => (Phase::Registry, Action::ReadRegistry),
        (Phase::Registry, Event::Registry(None)) => (Phase::Sleep, Action::SleepBroken),
        (Phase::Registry, Event::Registry(Some(n))) => if n > 0 {
            (Phase::Project(0, n), Action::LookForStop)
        } else {
            (Phase::Sleep, Action::SleepIdle)
        },
        (Phase::Project(i, n), Event::Stop(false)) => (
            Phase::Settings(i, n),
            Action::LoadSettings(i),
        ),
        (Phase::Settings(i, n), Event::Settings(true)) => (
            Phase::Task(i, n),
            Action::SelectTask(i),
        ),
        (Phase::Settings(i, n), Event::Settings(false)) => behind(i, n),
        (Phase::Task(i, n), Event::Task(true)) => (Phase::Session(i, n), Action::RunSession(i)),
        (Phase::Task(i, n), Event::Task(false)) => behind(i, n),
        (Phase::Session(_, _), Event::Session(outcome)) => match outcome {
            Outcome::Stopped => (Phase::Over, Action::Quit),
            Outcome::Limit => if limit_on_fallback(model, fallback) {
                (Phase::Sleep, Action::SleepLimit)
            } else {
                (Phase::Round, Action::LookForStop)
            },
            Outcome::Success | Outcome::Error => (Phase::Round, Action::LookForStop),
        },
        (Phase::Sleep, Event::Stop(false)) => (Phase::Round, Action::LookForStop),
        _ => (phase, Action::Quit),
    }
}

/// The model that is forced after an event: the fallback model after a limit, none after another
/// end of a session.
pub open spec fn forced(model: Option<Seq<char>>, event: Event, fallback: Seq<char>) -> Option<
    Seq<char>,
> {
    match event {
        Event::Session(Outcome::Limit) => Some(fallback),
        Event::Session(Outcome::Success) => None,
        Event::Session(Outcome::Error) => None,
        _ => model,
    }
}

impl Daemon {
    /// The daemon at its start, which looks for a stop.
    pub fn new() -> (r: Daemon)
        ensures
            r.phase == Phase::Round,
            r.model_override is None,
    {
        Daemon { phase: Phase::Round, model_override: None }
    }

    fn pass(&mut self, i: usize, n: usize) -> (r: Action)
        requires
            i < n,
        ensures
            (final(self).phase, r) == behind(i, n),
            final(self).model_override == old(self).model_override,
    {
        if i + 1 < n {
            self.phase = Phase::Project(i + 1, n);
            Action::LookForStop
        } else {
            self.phase = Phase::Sleep;
            Action::SleepIdle
        }
    }

    /// What to do after an event. `fallback` is the fallback model of the configuration.
    pub fn run(&mut self, event: Event, fallback: &str) -> (r: Action)
        requires
            awaited(old(self).phase, event),
        ensures
            (final(self).phase, r) == transition(
                old(self).phase,
                opt_text(old(self).model_override),
                event,
                fallback@,
            ),
            opt_text(final(self).model_override) == forced(
                opt_text(old(self).model_override),
                event,
                fallback@,
            ),
    {
        match (self.phase, event) {
            (_, Event::Stop(true)) => {
                self.phase = Phase::Over;
                Action::Quit
            },
            (Phase::Round, Event::Stop(false)) => {
                self.phase = Phase::Registry;
                Action::ReadRegistry
            },
            (Phase::Registry, Event::Registry(None)) => {
                self.phase = Phase::Sleep;
                Action::SleepBroken
            },
            (Phase::Registry, Event::Registry(Some(n))) => {
                if n > 0 {
                    self.phase = Phase::Project(0, n);
                    Action::LookForStop
                } else {
                    self.phase = Phase::Sleep;
                    Action::SleepIdle
                }
            },
            (Phase::Project(i, n), Event::Stop(false)) => {
                self.phase = Phase::Settings(i, n);
                Action::LoadSettings(i)
            },
            (Phase::Settings(i, n), Event::Settings(ok)) => {
                if ok {
                    self.phase = Phase::Task(i, n);
                    Action::SelectTask(i)
                } else {
                    self.pass(i, n)
                }
            },
            (Phase::Task(i, n), Event::Task(found)) => {
                if found {
                    self.phase = Phase::Session(i, n);
                    Action::RunSession(i)
                } else {
                    self.pass(i, n)
                }
            },
            (Phase::Session(_, _), Event::Session(outcome)) => {
                match outcome {
                    Outcome::Stopped => {
                        self.phase = Phase::Over;
                        Action::Quit
                    },
                    Outcome::Limit => {
                        let same = match &self.model_override {
                            Some(m) => text_eq(m.as_str(), fallback),
                            None => false,
                        };
                        if same {
                            self.phase = Phase::Sleep;
                            Action::SleepLimit
                        } else {
                            self.model_override = Some(fallback.to_owned());
                            self.phase = Phase::Round;
                            Action::LookForStop
                        }
                    },
                    Outcome::Success | Outcome::Error => {
                        self.model_override = None;
                        self.phase = Phase::Round;
                        Action::LookForStop
                    },
                }
            },
            (Phase::Sleep, Event::Stop(false)) => {
                self.phase = Phase::Round;
                Action::LookForStop
            },
            _ => Action::Quit,
        }
    }
}

/// A stop that is asked for ends the daemon wherever it looks for one.
pub proof fn law_stop_ends_the_daemon(
    phase: Phase,
    model: Option<Seq<char>>,
    fallback: Seq<char>,
)
    ensures
        transition(phase, model, Event::Stop(true), fallback) == (Phase::Over, Action::Quit),
{
}

/// After a session the projects are looked at from the first one again, unless a stop ends the
/// daemon: no project behind it is looked at in the same round.
pub proof fn law_session_ends_the_round(
    i: usize,
    n: usize,
    model: Option<Seq<char>>,
    outcome: Outcome,
    fallback: Seq<char>,
)
    ensures
        ({
            let (phase, action) = transition(
                Phase::Session(i, n),
                model,
                Event::Session(outcome),
                fallback,
            );
            &&& phase == Phase::Round || phase == Phase::Sleep || phase == Phase::Over
            &&& phase == Phase::Over <==> outcome == Outcome::Stopped
            &&& phase == Phase::Sleep <==> action == Action::SleepLimit
        }),
{
}

/// The daemon sleeps for want of tasks only behind the last project of a round, where none of the
/// projects had a session.
pub proof fn law_idle_only_behind_the_last_project(
    phase: Phase,
    model: Option<Seq<char>>,
    event: Event,
    fallback: Seq<char>,
)
    requires
        awaited(phase, event),
        transition(phase, model, event, fallback).1 == Action::SleepIdle,
    ensures
        ({
            ||| phase == Phase::Registry && event == Event::Registry(Some(0))
            ||| phase matches Phase::Settings(i, n) && i + 1 == n && event == Event::Settings(false)
            ||| phase matches Phase::Task(i, n) && i + 1 == n && event == Event::Task(false)
        }),
{
}

/// A first limit forces the fallback model at once; only a limit on the fallback model itself
/// makes the daemon sleep, and the model stays forced through that sleep.
pub proof fn law_limit_falls_back_before_it_sleeps(
    i: usize,
    n: usize,
    model: Option<Seq<char>>,
    fallback: Seq<char>,
)
    ensures
        ({
            let event = Event::Session(Outcome::Limit);
            let (phase, action) = transition(Phase::Session(i, n), model, event, fallback);
            &&& action == Action::SleepLimit <==> model == Some(fallback)
            &&& model != Some(fallback) ==> phase == Phase::Round
            &&& forced(model, event, fallback) == Some(fallback)
        }),
{
}

/// A forced model is forced no longer once a session has ended otherwise than by a limit, and
/// nothing but the end of a session changes it.
pub proof fn law_forced_model_lasts_until_a_session_ends(
    model: Option<Seq<char>>,
    event: Event,
    fallback: Seq<char>,
)
    ensures
        event == Event::Session(Outcome::Success) || event == Event::Session(Outcome::Error)
            ==> forced(model, event, fallback) is None,
        !(event is Session) ==> forced(model, event, fallback) == model,
{
}

/// Each project of a round is looked at in turn: behind a project without a session comes the next
/// one.
pub proof fn law_round_goes_project_by_project(
    i: usize,
    n: usize,
    model: Option<Seq<char>>,
    fallback: Seq<char>,
)
    requires
        i + 1 < n,
    ensures
        transition(Phase::Settings(i, n), model, Event::Settings(false), fallback).0
            == Phase::Project((i + 1) as usize, n),
        transition(Phase::Task(i, n), model, Event::Task(false), fallback).0 == Phase::Project(
            (i + 1) as usize,
            n,
        ),
{
}

/// A round begins with the registry as it is at that time: the first project is looked at only
/// right after the registry was read, and the number of projects stays the same within the round.
pub proof fn law_round_begins_with_the_registry(
    phase: Phase,
    model: Option<Seq<char>>,
    event: Event,
    fallback: Seq<char>,
)
    requires
        awaited(phase, event),
        transition(phase, model, event, fallback).0 is Project,
    ensures
        ({
            let next = transition(phase, model, event, fallback).0;
            &&& next matches Phase::Project(j, m)
            &&& j == 0 ==> phase == Phase::Registry && event == Event::Registry(Some(m))
            &&& j > 0 ==> (phase == Phase::Settings((j - 1) as usize, m) || phase == Phase::Task(
                (j - 1) as usize,
                m,
            ))
        }),
{
}

/// What goes with an action: how long to sleep, which state to tell, and whether the file with the
/// process number is removed.
#[derive(Debug, Clone, Copy)]
pub struct Effect {
    pub seconds: Option<u64>,
    pub state: Option<&'static str>,
    pub remove_pid_file: bool,
}

/// How long an action sleeps.
pub open spec fn seconds_of(action: Action, gcfg: GlobalConfig) -> Option<u64> {
    match action {
        Action::SleepBroken => Some(60),
        Action::SleepLimit => Some(gcfg.daemon.limit_sleep),
        Action::SleepIdle => Some(gcfg.daemon.no_task_sleep),
        _ => None,
    }
}

/// The state that an action tells, before it sleeps or ends.
pub open spec fn state_of(action: Action) -> Option<Seq<char>> {
    match action {
        Action::SleepLimit => Some("limit_sleep"@),
        Action::SleepIdle => Some("idle"@),
        Action::Quit => Some("stopped"@),
        _ => None,
    }
}

/// Whether an action removes the file with the process number.
pub open spec fn removes_pid_file(action: Action) -> bool {
    action == Action::Quit
}

/// What goes with an action.
pub fn effect(action: Action, gcfg: &GlobalConfig) -> (r: Effect)
    ensures
        r.seconds == seconds_of(action, *gcfg),
        state_of(action) == (match r.state {
            Some(state) => Some(state@),
            None => None,
        }),
        r.remove_pid_file == removes_pid_file(action),
{
    match action {
        Action::SleepBroken => Effect { seconds: Some(60), state: None, remove_pid_file: false },
        Action::SleepLimit => Effect {
            seconds: Some(gcfg.daemon.limit_sleep),
            state: Some("limit_sleep"),
            remove_pid_file: false,
        },
        Action::SleepIdle => Effect {
            seconds: Some(gcfg.daemon.no_task_sleep),
            state: Some("idle"),
            remove_pid_file: false,
        },
        Action::Quit => Effect { seconds: None, state: Some("stopped"), remove_pid_file: true },
        _ => Effect { seconds: None, state: None, remove_pid_file: false },
    }
}

/// What a round meets: the registry as it is when the round begins, which projects have settings
/// that can be loaded, which have a task to be taken, how a session ends, and the fallback model.
pub struct World {
    pub registry: Seq<ProjectEntry>,
    pub loads: spec_fn(ProjectEntry) -> bool,
    pub has_task: spec_fn(ProjectEntry) -> bool,
    pub outcome: Outcome,
    pub fallback: Seq<char>,
}

impl World {
    /// The projects of a round, in the order of `sorted_active`.
    pub open spec fn projects(self) -> Seq<ProjectEntry> {
        scanned(active(self.registry))
    }

    /// Whether a session is run for the project at place `i`, once it is looked at.
    pub open spec fn takes(self, i: int) -> bool {
        (self.loads)(self.projects()[i]) && (self.has_task)(self.projects()[i])
    }

    /// What the daemon is told after an action, where no stop is asked for.
    pub open spec fn reply(self, action: Action) -> Event {
        match action {
            Action::ReadRegistry => Event::Registry(Some(self.projects().len() as usize)),
            Action::LoadSettings(i) => Event::Settings((self.loads)(self.projects()[i as int])),
            Action::SelectTask(i) => Event::Task((self.has_task)(self.projects()[i as int])),
            Action::RunSession(_) => Event::Session(self.outcome),
            _ => Event::Stop(false),
        }
    }
}

/// The daemon on its way: what it waits for, the model that is forced, and the action it performs.
pub struct Way {
    pub phase: Phase,
    pub model: Option<Seq<char>>,
    pub action: Action,
}

/// The daemon after its action.
pub open spec fn next(v: Way, w: World) -> Way {
    let event = w.reply(v.action);
    let (phase, action) = transition(v.phase, v.model, event, w.fallback);
    Way { phase, model: forced(v.model, event, w.fallback), action }
}

/// The next `n` actions.
pub open spec fn actions(v: Way, w: World, n: nat) -> Seq<Action>
    decreases n,
{
    if n == 0 {
        Seq::empty()
    } else {
        seq![v.action] + actions(next(v, w), w, (n - 1) as nat)
    }
}

/// The daemon after `n` actions.
pub open spec fn later(v: Way, w: World, n: nat) -> Way
    decreases n,
{
    if n == 0 {
        v
    } else {
        later(next(v, w), w, (n - 1) as nat)
    }
}

/// The daemon at the start of a round.
pub open spec fn round_start(model: Option<Seq<char>>) -> Way {
    Way { phase: Phase::Round, model, action: Action::LookForStop }
}

/// What is done with the projects from place `i` on: a look for a stop, the settings, and where
/// these load the choice of a task; a session for the first project with a task ends it, a sleep
/// follows where there is none.
pub open spec fn visits(w: World, i: int) -> Seq<Action>
    decreases w.projects().len() - i,
{
    let n = w.projects().len();
    if i < 0 || i >= n {
        seq![Action::SleepIdle]
    } else {
        let looked = seq![Action::LookForStop, Action::LoadSettings(i as usize)];
        if !(w.loads)(w.projects()[i]) {
            looked + visits(w, i + 1)
        } else if (w.has_task)(w.projects()[i]) {
            looked.push(Action::SelectTask(i as usize)).push(Action::RunSession(i as usize))
        } else {
            looked.push(Action::SelectTask(i as usize)) + visits(w, i + 1)
        }
    }
}

/// All that is done in a round.
pub open spec fn round(w: World) -> Seq<Action> {
    seq![Action::LookForStop, Action::ReadRegistry] + visits(w, 0)
}

/// The place, from `i` on, of the first project that has a session.
pub open spec fn first_taken(w: World, i: int) -> Option<int>
    decreases w.projects().len() - i,
{
    if i < 0 || i >= w.projects().len() {
        None
    } else if w.takes(i) {
        Some(i)
    } else {
        first_taken(w, i + 1)
    }
}

/// The daemon where it looks at the project at place `i`, or sleeps behind the last one.
pub open spec fn at_project(w: World, model: Option<Seq<char>>, i: int) -> Way {
    let n = w.projects().len();
    if 0 <= i < n {
        Way { phase: Phase::Project(i as usize, n as usize), model, action: Action::LookForStop }
    } else {
        Way { phase: Phase::Sleep, model, action: Action::SleepIdle }
    }
}

/// The daemon where it has run a session for the project at place `k`.
pub open spec fn after_session(w: World, model: Option<Seq<char>>, k: int) -> Way {
    next(
        Way {
            phase: Phase::Session(k as usize, w.projects().len() as usize),
            model,
            action: Action::RunSession(k as usize),
        },
        w,
    )
}

/// The daemon at the end of a round: behind a session, else behind the sleep for want of tasks.
pub open spec fn round_end(w: World, model: Option<Seq<char>>) -> Way {
    match first_taken(w, 0) {
        Some(k) => after_session(w, model, k),
        None => round_start(model),
    }
}

proof fn lemma_append(v: Way, w: World, a: nat, b: nat)
    ensures
        actions(v, w, a + b) == actions(v, w, a) + actions(later(v, w, a), w, b),
        later(v, w, a + b) == later(later(v, w, a), w, b),
        actions(v, w, a).len() == a,
    decreases a,
{
    if a > 0 {
        lemma_append(next(v, w), w, (a - 1) as nat, b);
        assert((a + b - 1) as nat == (a - 1) as nat + b);
        assert(actions(v, w, a + b) =~= actions(v, w, a) + actions(later(v, w, a), w, b));
    } else {
        assert(actions(v, w, a + b) =~= actions(v, w, a) + actions(later(v, w, a), w, b));
    }
}

proof fn lemma_steps(v: Way, w: World)
    ensures
        actions(v, w, 1) == seq![v.action],
        later(v, w, 1) == next(v, w),
        actions(v, w, 2) == seq![v.action, next(v, w).action],
        later(v, w, 2) == next(next(v, w), w),
        actions(v, w, 3) == seq![v.action, next(v, w).action, next(next(v, w), w).action],
        later(v, w, 3) == next(next(next(v, w), w), w),
        actions(v, w, 4) == seq![
            v.action,
            next(v, w).action,
            next(next(v, w), w).action,
            next(next(next(v, w), w), w).action,
        ],
        later(v, w, 4) == next(next(next(next(v, w), w), w), w),
{
    reveal_with_fuel(actions, 5);
    reveal_with_fuel(later, 5);
    assert(actions(v, w, 1) =~= seq![v.action]);
    assert(actions(v, w, 2) =~= seq![v.action, next(v, w).action]);
    assert(actions(v, w, 3) =~= seq![v.action, next(v, w).action, next(next(v, w), w).action]);
    assert(actions(v, w, 4) =~= seq![
        v.action,
        next(v, w).action,
        next(next(v, w), w).action,
        next(next(next(v, w), w), w).action,
    ]);
}

proof fn lemma_visits(w: World, model: Option<Seq<char>>, i: int)
    requires
        0 <= i <= w.projects().len() <= usize::MAX,
    ensures
        visits(w, i).len() > 0,
        actions(at_project(w, model, i), w, visits(w, i).len()) == visits(w, i),
        later(at_project(w, model, i), w, visits(w, i).len()) == (match first_taken(w, i) {
            Some(k) => after_session(w, model, k),
            None => round_start(model),
        }),
    decreases w.projects().len() - i,
{
    let n = w.projects().len();
    let v = at_project(w, model, i);
    lemma_steps(v, w);
    if i < n {
        let settings = next(v, w);
        assert(settings == Way {
            phase: Phase::Settings(i as usize, n as usize),
            model,
            action: Action::LoadSettings(i as usize),
        });
        let looked = seq![Action::LookForStop, Action::LoadSettings(i as usize)];
        if !(w.loads)(w.projects()[i]) {
            lemma_visits(w, model, i + 1);
            assert(next(settings, w) == at_project(w, model, i + 1));
            lemma_append(v, w, 2, visits(w, i + 1).len());
            assert(visits(w, i) == looked + visits(w, i + 1));
            assert(visits(w, i).len() == 2 + visits(w, i + 1).len());
        } else {
            let choice = next(settings, w);
            assert(choice == Way {
                phase: Phase::Task(i as usize, n as usize),
                model,
                action: Action::SelectTask(i as usize),
            });
            if (w.has_task)(w.projects()[i]) {
                assert(visits(w, i) =~= seq![
                    Action::LookForStop,
                    Action::LoadSettings(i as usize),
                    Action::SelectTask(i as usize),
                    Action::RunSession(i as usize),
                ]);
            } else {
                lemma_visits(w, model, i + 1);
                assert(next(choice, w) == at_project(w, model, i + 1));
                lemma_append(v, w, 3, visits(w, i + 1).len());
                assert(visits(w, i) == looked.push(Action::SelectTask(i as usize)) + visits(
                    w,
                    i + 1,
                ));
                assert(looked.push(Action::SelectTask(i as usize)) =~= seq![
                    Action::LookForStop,
                    Action::LoadSettings(i as usize),
                    Action::SelectTask(i as usize),
                ]);
                assert(visits(w, i).len() == 3 + visits(w, i + 1).len());
            }
        }
    }
}

/// What is done in a round in which no stop is asked for: the registry is read, and the projects
/// are looked at one by one in the order of `sorted_active`, up to the first with a task, for which
/// one session is run. Then the next round begins, unless the session ended the daemon or made it
/// sleep. Where no project has a task, the daemon sleeps for want of tasks instead.
pub proof fn law_whole_round(w: World, model: Option<Seq<char>>)
    requires
        w.registry.len() <= usize::MAX,
    ensures
        actions(round_start(model), w, round(w).len()) == round(w),
        later(round_start(model), w, round(w).len()) == round_end(w, model),
{
    let n = w.projects().len();
    law_sorted_same_items(active(w.registry), scan_order());
    w.registry.lemma_filter_len(|p: ProjectEntry| !p.paused);
    let v = round_start(model);
    lemma_steps(v, w);
    lemma_visits(w, model, 0);
    assert(next(next(v, w), w) == at_project(w, model, 0));
    lemma_append(v, w, 2, visits(w, 0).len());
    assert(seq![v.action, next(v, w).action] =~= seq![
        Action::LookForStop,
        Action::ReadRegistry,
    ]);
    assert(round(w).len() == 2 + visits(w, 0).len());
}

proof fn lemma_visits_hold(w: World, i: int, x: Action)
    requires
        0 <= i <= w.projects().len() <= usize::MAX,
    ensures
        visits(w, i).contains(x) <==> ({
            ||| x == Action::SleepIdle && first_taken(w, i) is None
            ||| x == Action::LookForStop && i < w.projects().len()
            ||| exists|j: int| #[trigger] looked_at(w, i, j) && does(w, j, x)
        }),
        first_taken(w, i) matches Some(k) ==> i <= k < w.projects().len() && w.takes(k),
    decreases w.projects().len() - i,
{
    let n = w.projects().len();
    if i < n {
        lemma_visits_hold(w, i + 1, x);
        let here = if (w.loads)(w.projects()[i]) {
            seq![
                Action::LookForStop,
                Action::LoadSettings(i as usize),
                Action::SelectTask(i as usize),
            ]
        } else {
            seq![Action::LookForStop, Action::LoadSettings(i as usize)]
        };
        let rest = if w.takes(i) {
            seq![Action::RunSession(i as usize)]
        } else {
            visits(w, i + 1)
        };
        assert(visits(w, i) =~= here + rest);
        lemma_concat_contains(here, rest, x);
        assert(looked_at(w, i, i));
        assert(here.contains(x) <==> x == Action::LookForStop || x == Action::LoadSettings(
            i as usize,
        ) || ((w.loads)(w.projects()[i]) && x == Action::SelectTask(i as usize))) by {
            assert(here[0] == Action::LookForStop);
            assert(here[1] == Action::LoadSettings(i as usize));
            if (w.loads)(w.projects()[i]) {
                assert(here[2] == Action::SelectTask(i as usize));
            }
        }
        assert forall|j: int| looked_at(w, i, j) <==> j == i || (!w.takes(i) && looked_at(
            w,
            i + 1,
            j,
        )) by {
            assert(first_taken(w, i) == if w.takes(i) {
                Some(i)
            } else {
                first_taken(w, i + 1)
            });
        }
        if w.takes(i) {
            assert(rest[0] == Action::RunSession(i as usize));
            if exists|j: int| #[trigger] looked_at(w, i, j) && does(w, j, x) {
                let j = choose|j: int| #[trigger] looked_at(w, i, j) && does(w, j, x);
                assert(j == i);
            }
        } else {
            if exists|j: int| #[trigger] looked_at(w, i, j) && does(w, j, x) {
                let j = choose|j: int| #[trigger] looked_at(w, i, j) && does(w, j, x);
                if j != i {
                    assert(looked_at(w, i + 1, j));
                }
            }
            if exists|j: int| #[trigger] looked_at(w, i + 1, j) && does(w, j, x) {
                let j = choose|j: int| #[trigger] looked_at(w, i + 1, j) && does(w, j, x);
                assert(looked_at(w, i, j));
            }
        }
        if here.contains(x) && x != Action::LookForStop {
            assert(does(w, i, x));
        }
    } else {
        assert(visits(w, i) =~= seq![Action::SleepIdle]);
        assert(visits(w, i)[0] == Action::SleepIdle);
    }
}

proof fn lemma_concat_contains<T>(a: Seq<T>, b: Seq<T>, x: T)
    ensures
        (a + b).contains(x) <==> a.contains(x) || b.contains(x),
{
    if a.contains(x) {
        let k = a.index_of(x);
        assert((a + b)[k] == x);
    }
    if b.contains(x) {
        let k = b.index_of(x);
        assert((a + b)[a.len() + k] == x);
    }
    if (a + b).contains(x) {
        let k = (a + b).index_of(x);
        assert((a + b)[k] == x);
        if k < a.len() {
            assert(a[k] == x);
        } else {
            assert(b[k - a.len()] == x);
        }
    }
}

/// Whether the project at place `j` is looked at in a round that goes on from place `i`: no
/// project before it has a session.
pub open spec fn looked_at(w: World, i: int, j: int) -> bool {
    &&& i <= j < w.projects().len()
    &&& match first_taken(w, i) {
        Some(k) => j <= k,
        None => true,
    }
}

/// Whether an action is one that is done for the project at place `j` when it is looked at: its
/// settings are loaded, a task is chosen where they load, and a session is run where there is one.
pub open spec fn does(w: World, j: int, x: Action) -> bool {
    ||| x == Action::LoadSettings(j as usize)
    ||| (w.loads)(w.projects()[j]) && x == Action::SelectTask(j as usize)
    ||| w.takes(j) && x == Action::RunSession(j as usize)
}

/// In a round a task is chosen for exactly the projects whose settings load, up to the first with a
/// task; a session is run for that one and for no other; and the daemon sleeps for want of tasks,
/// telling that it is idle, exactly where there is none.
pub proof fn law_round_takes_the_first_task(w: World, gcfg: GlobalConfig, j: int)
    requires
        w.registry.len() <= usize::MAX,
        0 <= j < w.projects().len(),
    ensures
        round(w).contains(Action::SelectTask(j as usize)) <==> looked_at(w, 0, j) && (w.loads)(
            w.projects()[j],
        ),
        round(w).contains(Action::RunSession(j as usize)) <==> first_taken(w, 0) == Some(j),
        round(w).contains(Action::SleepIdle) <==> first_taken(w, 0) is None,
        seconds_of(Action::SleepIdle, gcfg) == Some(gcfg.daemon.no_task_sleep),
        state_of(Action::SleepIdle) == Some("idle"@),
{
    law_sorted_same_items(active(w.registry), scan_order());
    w.registry.lemma_filter_len(|p: ProjectEntry| !p.paused);
    let head = seq![Action::LookForStop, Action::ReadRegistry];
    let select = Action::SelectTask(j as usize);
    let run = Action::RunSession(j as usize);
    lemma_concat_contains(head, visits(w, 0), select);
    lemma_concat_contains(head, visits(w, 0), run);
    lemma_concat_contains(head, visits(w, 0), Action::SleepIdle);
    lemma_visits_hold(w, 0, select);
    lemma_visits_hold(w, 0, run);
    lemma_visits_hold(w, 0, Action::SleepIdle);
    lemma_first_taken(w, 0);
    if exists|i: int| #[trigger] looked_at(w, 0, i) && does(w, i, select) {
        let i = choose|i: int| #[trigger] looked_at(w, 0, i) && does(w, i, select);
        assert(i as usize == j as usize);
        assert(i == j);
    }
    if exists|i: int| #[trigger] looked_at(w, 0, i) && does(w, i, run) {
        let i = choose|i: int| #[trigger] looked_at(w, 0, i) && does(w, i, run);
        assert(i as usize == j as usize);
        assert(i == j);
        assert(w.takes(j));
    }
    if looked_at(w, 0, j) && (w.loads)(w.projects()[j]) {
        assert(does(w, j, select));
    }
    if first_taken(w, 0) == Some(j) {
        assert(looked_at(w, 0, j) && does(w, j, run));
    }
}

proof fn lemma_first_taken(w: World, i: int)
    requires
        0 <= i <= w.projects().len(),
    ensures
        match first_taken(w, i) {
            Some(k) => {
                &&& i <= k < w.projects().len()
                &&& w.takes(k)
                &&& forall|j: int| i <= j < k ==> !#[trigger] w.takes(j)
            },
            None => forall|j: int| i <= j < w.projects().len() ==> !#[trigger] w.takes(j),
        },
    decreases w.projects().len() - i,
{
    if i < w.projects().len() && !w.takes(i) {
        lemma_first_taken(w, i + 1);
    }
}

/// The model that is forced after events, each with the fallback model of its time.
pub open spec fn forced_by(model: Option<Seq<char>>, events: Seq<(Event, Seq<char>)>) -> Option<
    Seq<char>,
>
    decreases events.len(),
{
    if events.len() == 0 {
        model
    } else {
        forced(forced_by(model, events.drop_last()), events.last().0, events.last().1)
    }
}

/// Whether no session ended in these events.
pub open spec fn no_session(events: Seq<(Event, Seq<char>)>) -> bool {
    forall|i: int| 0 <= i < events.len() ==> !((#[trigger] events[i]).0 is Session)
}

proof fn lemma_forced_between(model: Option<Seq<char>>, events: Seq<(Event, Seq<char>)>)
    requires
        no_session(events),
    ensures
        forced_by(model, events) == model,
    decreases events.len(),
{
    if events.len() > 0 {
        let head = events.drop_last();
        assert forall|i: int| 0 <= i < head.len() implies !((#[trigger] head[i]).0 is Session) by {
            assert(head[i] == events[i]);
        }
        lemma_forced_between(model, head);
        assert(!(events[events.len() - 1].0 is Session));
    }
}

/// The first session of the daemon is run with no forced model.
pub proof fn law_first_session_is_not_forced(events: Seq<(Event, Seq<char>)>)
    requires
        no_session(events),
    ensures
        forced_by(None, events) is None,
{
    lemma_forced_between(None, events);
}

/// What follows from one session to the next: after a limit the next session is forced to the
/// fallback model of the time of the limit, after a success or an error it is not forced, whatever
/// else happens in between. The daemon sleeps for a limit, telling so, exactly where the session
/// that met it was forced to the fallback model already. A stop ends the daemon, and only then it
/// tells so and removes the file with its process number.
pub proof fn law_from_session_to_session(
    i: usize,
    n: usize,
    model: Option<Seq<char>>,
    outcome: Outcome,
    fallback: Seq<char>,
    between: Seq<(Event, Seq<char>)>,
    gcfg: GlobalConfig,
)
    requires
        no_session(between),
    ensures
        ({
            let ended = Event::Session(outcome);
            let (phase, action) = transition(Phase::Session(i, n), model, ended, fallback);
            let following = forced_by(forced(model, ended, fallback), between);
            &&& outcome == Outcome::Limit ==> following == Some(fallback)
            &&& outcome == Outcome::Success || outcome == Outcome::Error ==> following is None
            &&& action == Action::SleepLimit <==> outcome == Outcome::Limit && model == Some(
                fallback,
            )
            &&& action == Action::SleepLimit ==> seconds_of(action, gcfg) == Some(
                gcfg.daemon.limit_sleep,
            ) && state_of(action) == Some("limit_sleep"@)
            &&& action == Action::Quit <==> outcome == Outcome::Stopped
            &&& action == Action::Quit ==> phase == Phase::Over
            &&& state_of(action) == Some("stopped"@) <==> action == Action::Quit
            &&& removes_pid_file(action) <==> action == Action::Quit
        }),
{
    lemma_forced_between(forced(model, Event::Session(outcome), fallback), between);
    reveal_strlit("stopped");
    reveal_strlit("limit_sleep");
    reveal_strlit("idle");
    assert("stopped"@.len() == 7 && "limit_sleep"@.len() == 11 && "idle"@.len() == 4);
}

/// Whether an action goes with what the daemon waits for.
pub open spec fn goes_with(phase: Phase, action: Action) -> bool {
    match phase {
        Phase::Round => action == Action::LookForStop,
        Phase::Registry => action == Action::ReadRegistry,
        Phase::Project(i, n) => i < n && action == Action::LookForStop,
        Phase::Settings(i, n) => i < n && action == Action::LoadSettings(i),
        Phase::Task(i, n) => i < n && action == Action::SelectTask(i),
        Phase::Session(i, n) => i < n && action == Action::RunSession(i),
        Phase::Sleep => action == Action::SleepBroken || action == Action::SleepLimit || action
            == Action::SleepIdle,
        Phase::Over => action == Action::Quit,
    }
}

/// Whether an event tells what came of an action.
pub open spec fn tells_of(event: Event, action: Action) -> bool {
    match action {
        Action::LookForStop => event is Stop,
        Action::ReadRegistry => event is Registry,
        Action::LoadSettings(_) => event is Settings,
        Action::SelectTask(_) => event is Task,
        Action::RunSession(_) => event is Session,
        Action::SleepBroken => event is Stop,
        Action::SleepLimit => event is Stop,
        Action::SleepIdle => event is Stop,
        Action::Quit => false,
    }
}

/// Told what came of each action, the daemon is never told what it does not wait for: from its
/// start, where it looks for a stop, to its end.
pub proof fn law_told_of_its_action_the_daemon_goes_on(
    phase: Phase,
    action: Action,
    model: Option<Seq<char>>,
    event: Event,
    fallback: Seq<char>,
)
    requires
        goes_with(phase, action),
        tells_of(event, action),
    ensures
        goes_with(Phase::Round, Action::LookForStop),
        awaited(phase, event),
        ({
            let (following, does) = transition(phase, model, event, fallback);
            goes_with(following, does)
        }),
{
}

/// The first lines of the status tell whether the daemon runs and, where it does, what it is doing.
pub proof fn law_status_tells_the_daemon(st: DaemonStatus, n: u32)
    ensures
        daemon_lines(None, st) == "Демон: остановлен\n"@,
        daemon_lines(Some(n), st) == "Демон: РАБОТАЕТ (pid "@ + dec(n as int) + ")\n"@ + activity(
            st,
        ),
        st.state@ == "session"@ ==> activity(st) == "Сейчас: сессия «"@ + (if st.task_name is Some {
            st.task_name->0@
        } else {
            "?"@
        }) + "» ["@ + (if st.project is Some {
            st.project->0@
        } else {
            "?"@
        }) + "] (модель "@ + (if st.model is Some {
            st.model->0@
        } else {
            "?"@
        }) + ", с "@ + st.updated_at@ + ")\n"@,
        st.state@ == "limit_sleep"@ ==> activity(st) == "Сейчас: пауза из-за лимита (с "@
            + st.updated_at@ + ")\n"@,
        st.state@ == "idle"@ ==> activity(st) == "Сейчас: простой, задач нет (проверка "@
            + st.updated_at@ + ")\n"@,
        st.state@ != "session"@ && st.state@ != "limit_sleep"@ && st.state@ != "idle"@ ==> activity(
            st,
        ) == Seq::<char>::empty(),
{
    reveal_strlit("");
    assert(""@ =~= Seq::<char>::empty());
    reveal_strlit("session");
    reveal_strlit("limit_sleep");
    reveal_strlit("idle");
    assert("session"@.len() == 7 && "limit_sleep"@.len() == 11 && "idle"@.len() == 4);
}

/// The list of projects does not depend on the daemon: whether it runs or not, and whatever it is
/// doing, the same text follows its lines. For a registry that is not empty that text is the heading
/// and the lines of all projects in the order of `sorted_all`; the hint to add one stands there only
/// where the registry is empty. The text is returned.
pub proof fn law_projects_are_listed_whatever_the_daemon_does(
    projects: Seq<ProjectEntry>,
    st: DaemonStatus,
    pid: Option<u32>,
    other: DaemonStatus,
    other_pid: Option<u32>,
) -> (list: Seq<char>)
    ensures
        status(projects, st, pid) == daemon_lines(pid, st) + list,
        status(projects, other, other_pid) == daemon_lines(other_pid, other) + list,
        projects.len() == 0 ==> list == "\nПроекты:\n"@
            + "  (нет — добавь: autopilot add <dir>)\n"@,
        projects.len() > 0 ==> list == "\nПроекты:\n"@ + all_project_lines(
            scanned(projects),
            scanned(projects).len() as int,
        ),
{
    law_sorted_same_items(projects, scan_order());
    let told = if projects.len() == 0 {
        "  (нет — добавь: autopilot add <dir>)\n"@
    } else {
        all_project_lines(scanned(projects), projects.len() as int)
    };
    let list = "\nПроекты:\n"@ + told;
    assert(status(projects, st, pid) =~= daemon_lines(pid, st) + list);
    assert(status(projects, other, other_pid) =~= daemon_lines(other_pid, other) + list);
    list
}

proof fn lemma_lines_by_front(a: Seq<ProjectEntry>, b: Seq<ProjectEntry>, n: int)
    requires
        0 <= n <= a.len(),
        n <= b.len(),
        forall|i: int| 0 <= i < n ==> a[i] == b[i],
    ensures
        all_project_lines(a, n) == all_project_lines(b, n),
    decreases n,
{
    if n > 0 {
        lemma_lines_by_front(a, b, n - 1);
    }
}

/// The projects are listed one by one: the name, whether the project is paused, its priority, and
/// its directory in a line of its own.
pub proof fn law_projects_are_listed_one_by_one(s: Seq<ProjectEntry>, p: ProjectEntry)
    ensures
        all_project_lines(s, 0) == Seq::<char>::empty(),
        all_project_lines(s.push(p), s.len() as int + 1) == all_project_lines(s, s.len() as int)
            + project_lines(p),
        p.paused ==> project_lines(p) == "  "@ + p.name@ + " — "@ + "⏸ пауза"@ + " (приоритет "@
            + dec(p.priority as int) + ")\n"@ + "      "@ + p.dir@ + "\n"@,
        !p.paused ==> project_lines(p) == "  "@ + p.name@ + " — "@ + "▶️ активен"@
            + " (приоритет "@ + dec(p.priority as int) + ")\n"@ + "      "@ + p.dir@ + "\n"@,
{
    lemma_lines_by_front(s.push(p), s, s.len() as int);
}

proof fn lemma_lines_held(s: Seq<ProjectEntry>, i: int, n: int) -> (r: (Seq<char>, Seq<char>))
    requires
        0 <= i < n <= s.len(),
    ensures
        all_project_lines(s, n) == r.0 + project_lines(s[i]) + r.1,
    decreases n,
{
    if i == n - 1 {
        let a = all_project_lines(s, n - 1);
        assert(a + project_lines(s[i]) =~= a + project_lines(s[i]) + Seq::<char>::empty());
        (a, Seq::empty())
    } else {
        let (a, b) = lemma_lines_held(s, i, n - 1);
        let e = project_lines(s[n - 1]);
        assert(a + project_lines(s[i]) + b + e =~= a + project_lines(s[i]) + (b + e));
        (a, b + e)
    }
}

/// Every registered project stands in the status with its two lines, whether or not the daemon
/// runs. What stands before and behind them is returned.
pub proof fn law_status_holds_every_project(
    projects: Seq<ProjectEntry>,
    k: int,
    st: DaemonStatus,
    pid: Option<u32>,
) -> (r: (Seq<char>, Seq<char>))
    requires
        0 <= k < projects.len(),
    ensures
        status(projects, st, pid) == r.0 + project_lines(projects[k]) + r.1,
{
    let s = scanned(projects);
    law_sorted_same_items(projects, scan_order());
    projects.to_multiset_ensures();
    s.to_multiset_ensures();
    let p = projects[k];
    assert(projects.contains(p));
    assert(projects.to_multiset().count(p) > 0);
    assert(s.contains(p));
    let i = s.index_of(p);
    assert(s[i] == p);
    let (a, b) = lemma_lines_held(s, i, s.len() as int);
    let front = daemon_lines(pid, st) + "\nПроекты:\n"@;
    assert(front + (a + project_lines(p) + b) =~= (front + a) + project_lines(p) + b);
    (front + a, b)
}

/// A registry that cannot be read costs a sleep of a minute, after which a new round begins; so
/// does every other sleep, for as long as the configuration says.
pub proof fn law_sleeps_end_in_a_new_round(
    model: Option<Seq<char>>,
    fallback: Seq<char>,
    gcfg: GlobalConfig,
    i: usize,
)
    ensures
        transition(Phase::Registry, model, Event::Registry(None), fallback) == (
            Phase::Sleep,
            Action::SleepBroken,
        ),
        transition(Phase::Sleep, model, Event::Stop(false), fallback) == (
            Phase::Round,
            Action::LookForStop,
        ),
        seconds_of(Action::SleepBroken, gcfg) == Some(60u64),
        seconds_of(Action::SleepLimit, gcfg) == Some(gcfg.daemon.limit_sleep),
        seconds_of(Action::SleepIdle, gcfg) == Some(gcfg.daemon.no_task_sleep),
        seconds_of(Action::RunSession(i), gcfg) is None,
        seconds_of(Action::LookForStop, gcfg) is None,
        seconds_of(Action::Quit, gcfg) is None,
        state_of(Action::SleepBroken) is None,
        state_of(Action::SleepLimit) == Some("limit_sleep"@),
        state_of(Action::SleepIdle) == Some("idle"@),
        state_of(Action::Quit) == Some("stopped"@),
        state_of(Action::RunSession(i)) is None,
        state_of(Action::LookForStop) is None,
        removes_pid_file(Action::Quit),
        !removes_pid_file(Action::SleepIdle) && !removes_pid_file(Action::SleepLimit)
            && !removes_pid_file(Action::SleepBroken),
{
}

} // verus!
