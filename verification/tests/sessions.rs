use autopilot_core::assistant::Assistant;
use autopilot_core::client::{Client, MoveStep};
use autopilot_core::daemon::{effect, Action, Daemon, Event, Phase};
use autopilot_core::initproj::{
    claude_memory_dir, ensure_files, fill, init_log_path, refine_prompt_with_claude, update_index,
    watch_init, write_memory, InitStep,
};
use autopilot_core::model::{ApiError, Placement, Ref, Task};
use autopilot_core::registry::{AgentCfg, GlobalConfig, PersonCfg, ProjectEntry};
use autopilot_core::runner::{
    current_task_file, enter_progress, extract_model_and_effort, finish, judge_session,
    latest_session_log, model_and_effort, move_due, outcome, prompt_path, run_session, session_log_path,
    session_model, session_plan, session_role, session_status, sleep_checking_stop, tail_file,
    watch, watchdog_line, Finish, LogFile, Outcome, Poll, SleepStep, Stage, Watch,
};
use autopilot_core::settings::Settings;

fn s(t: &str) -> String {
    t.to_string()
}

fn project() -> ProjectEntry {
    ProjectEntry { name: s("proj"), dir: s("/w/proj"), priority: 0, paused: false }
}

fn helper() -> Assistant {
    Assistant { program: s("helper"), name: s("Helper"), title: s("Helper Code") }
}

fn settings() -> Settings {
    Settings {
        token: s("t"),
        workspace: s("w"),
        operator_gid: s("op"),
        operator_label: s("operator"),
        agent_gid: s("ag"),
        agent_name: s("Agent"),
        agent_label: s("agent"),
        sections: vec![(s("in_progress"), vec![s("doing")])],
        approved: Vec::new(),
        manual_keywords: Vec::new(),
        comment_language: s("en"),
        prompt_file: s("prompt.md"),
        mismatch_comment: None,
    }
}

fn pair(a: &str, b: &str) -> (String, String) {
    (s(a), s(b))
}

#[test]
fn models_and_efforts_are_found() {
    let f = |t: &str| extract_model_and_effort(t);
    assert_eq!(f("ничего"), pair("opus", "-"));
    assert_eq!(f("Model: Sonnet\neffort: HIGH"), pair("sonnet", "high"));
    assert_eq!(f("МОДЕЛЬ:haiku, эффорт:  low"), pair("haiku", "low"));
    assert_eq!(f("возьми Fable, medium effort"), pair("fable", "medium"));
    assert_eq!(f("model: opus и Sonnet low effort"), pair("opus", "low"));
    assert_eq!(f("model: haiku model: sonnet"), pair("haiku", "-"));
    let one = |g: &[&str]| vec![g.iter().map(|x| Some(s(x))).collect::<Vec<_>>()];
    assert_eq!(
        model_and_effort(&one(&["m", "A"]), &Vec::new(), &one(&["f", "B", "C"])),
        pair("a", "c")
    );
    assert_eq!(session_model("model: haiku", Some("x")), pair("x", "-"));
    assert_eq!(session_model("model: haiku", None), pair("haiku", "-"));
}

#[test]
fn sessions_are_planned() {
    let g = GlobalConfig::default();
    let plan = session_plan(&project(), &g, "PROMPT", "sonnet", "medium");
    assert_eq!(
        plan.args,
        vec![s("-p"), s("PROMPT"), s("--model"), s("sonnet"), s("--dangerously-skip-permissions"), s("--fallback-model"), s("opus")]
    );
    assert_eq!(plan.dir, "/w/proj");
    assert_eq!(
        plan.env,
        vec![pair("AUTOPILOT_DIR", "/w/proj/autopilot"), pair("MAX_THINKING_TOKENS", "10000")]
    );
    let noted = |notes: &str| Task { notes: s(notes), ..Default::default() };
    let (model, plan) = run_session(&project(), &g, &noted("effort: high"), "P", None);
    assert_eq!(model, "opus");
    assert_eq!(plan.args.len(), 5);
    assert_eq!(plan.env[1], pair("MAX_THINKING_TOKENS", "31999"));
    let (_, plan) = run_session(&project(), &g, &noted("effort: low"), "P", Some("x"));
    assert_eq!(plan.args[3], "x");
    assert_eq!(plan.env[1], pair("MAX_THINKING_TOKENS", "2048"));
    let (_, plan) = run_session(&project(), &g, &noted(""), "P", None);
    assert_eq!(plan.env.len(), 1);
    assert_eq!(current_task_file(&project()), "/w/proj/autopilot/state/current-task.md");
    assert_eq!(prompt_path(&project(), &settings()), "/w/proj/autopilot/prompt.md");
    assert_eq!(session_log_path(&project(), "20260101"), "/w/proj/autopilot/logs/session-20260101.log");
    let st = session_status(&project(), &Task { gid: s("1"), name: s("N"), ..Default::default() }, "m", "l", "T");
    assert_eq!(st.state, "session");
    assert_eq!(st.project.as_deref(), Some("proj"));
    assert_eq!(st.task_gid.as_deref(), Some("1"));
    assert_eq!(st.task_name.as_deref(), Some("N"));
    assert_eq!(st.model.as_deref(), Some("m"));
    assert_eq!(st.session_log.as_deref(), Some("l"));
    assert_eq!(st.updated_at, "T");
}

#[test]
fn tasks_enter_progress() {
    let mut c = Client::new(settings());
    c.store_sections("p", vec![Ref { gid: s("9"), name: s("Doing") }]);
    let mut p = Placement { project_gid: s("p"), project_name: s("P"), section_name: s("x"), role: None };
    let t = Task { gid: s("1"), ..Default::default() };
    assert_eq!(session_role(&p), "todo");
    match enter_progress(&c, &t, &p) {
        Some(MoveStep::Send(r)) => assert!(r.url.ends_with("/sections/9/addTask")),
        other => panic!("{:?}", other),
    }
    for stage in [Stage::Context, Stage::Save, Stage::LogFile, Stage::Spawn, Stage::Watch] {
        assert!(move_due(stage, &c, &t, &p).is_none());
    }
    assert!(matches!(move_due(Stage::Prompt, &c, &t, &p), Some(MoveStep::Send(_))));
    p.role = Some(s("in_progress"));
    assert!(enter_progress(&c, &t, &p).is_none());
    assert!(move_due(Stage::Prompt, &c, &t, &p).is_none());
}

#[test]
fn a_failed_move_stops_nothing() {
    let failed = Some(Err(ApiError(s("no such section"))));
    assert_eq!(Stage::Prompt.proceed(true, &failed), Stage::LogFile);
    assert_eq!(Stage::Prompt.proceed(true, &Some(Ok(()))), Stage::LogFile);
    assert_eq!(Stage::Prompt.proceed(true, &None), Stage::LogFile);
    assert_eq!(Stage::Prompt.proceed(false, &Some(Ok(()))), Stage::Over(Outcome::Error));
    assert_eq!(Stage::Context.proceed(false, &None), Stage::Over(Outcome::Error));
}

#[test]
fn the_model_comes_from_the_task_alone() {
    let task = Task { gid: s("1"), notes: s("см. app.asana.com/0/9/2"), ..Default::default() };
    let linked = Task { gid: s("2"), notes: s("model: haiku, effort: low"), ..Default::default() };
    let context = Client::new(settings())
        .build_task_context(
            &helper(),
            &task,
            "todo",
            Ok(Vec::new()),
            Ok(Vec::new()),
            None,
            &vec![(s("2"), Some(linked))],
        )
        .unwrap();
    assert!(context.contains("model: haiku"));
    let (model, plan) = run_session(&project(), &GlobalConfig::default(), &task, "P", None);
    assert_eq!(model, "opus");
    assert_eq!(plan.env.len(), 1);
}

#[test]
fn actions_have_their_effects() {
    let mut g = GlobalConfig::default();
    g.daemon.limit_sleep = 7;
    g.daemon.no_task_sleep = 8;
    let told = |a: Action| {
        let e = effect(a, &g);
        (e.seconds, e.state, e.remove_pid_file)
    };
    assert_eq!(told(Action::SleepBroken), (Some(60), None, false));
    assert_eq!(told(Action::SleepLimit), (Some(7), Some("limit_sleep"), false));
    assert_eq!(told(Action::SleepIdle), (Some(8), Some("idle"), false));
    assert_eq!(told(Action::Quit), (None, Some("stopped"), true));
    assert_eq!(told(Action::LookForStop), (None, None, false));
    assert_eq!(told(Action::RunSession(0)), (None, None, false));
}

#[test]
fn a_round_ends_with_its_first_session() {
    let mut d = Daemon::new();
    let mut seen = Vec::new();
    let mut action = Action::LookForStop;
    for _ in 0..9 {
        seen.push(action);
        let event = match action {
            Action::LookForStop => Event::Stop(false),
            Action::ReadRegistry => Event::Registry(Some(3)),
            Action::LoadSettings(i) => Event::Settings(i != 0),
            Action::SelectTask(i) => Event::Task(i == 1),
            Action::RunSession(_) => Event::Session(Outcome::Limit),
            other => panic!("{:?}", other),
        };
        action = d.run(event, "f");
    }
    assert_eq!(
        seen,
        vec![
            Action::LookForStop,
            Action::ReadRegistry,
            Action::LookForStop,
            Action::LoadSettings(0),
            Action::LookForStop,
            Action::LoadSettings(1),
            Action::SelectTask(1),
            Action::RunSession(1),
            Action::LookForStop,
        ]
    );
    assert_eq!(action, Action::ReadRegistry);
    assert_eq!(d.model_override.as_deref(), Some("f"));
}

#[test]
fn preparations_come_in_order() {
    let mut stage = Stage::Context;
    for want in [Stage::Save, Stage::Prompt, Stage::LogFile, Stage::Spawn, Stage::Watch] {
        assert_eq!(stage.advance(false), Stage::Over(Outcome::Error));
        stage = stage.advance(true);
        assert_eq!(stage, want);
    }
    assert_eq!(stage.advance(false), Stage::Watch);
    assert_eq!(Stage::Over(Outcome::Error).advance(true), Stage::Over(Outcome::Error));
}

#[test]
fn sessions_are_watched_and_judged() {
    assert!(matches!(watch(Poll::Exited(Some(3)), false), Watch::Exit(3)));
    assert!(matches!(watch(Poll::Exited(None), false), Watch::Exit(-1)));
    assert!(matches!(watch(Poll::Failed, false), Watch::Exit(-1)));
    assert!(matches!(watch(Poll::Running, false), Watch::Wait(5)));
    assert!(matches!(watch(Poll::Running, true), Watch::Kill));
    assert_eq!(watchdog_line(60), "\n== WATCHDOG: сессия превысила 60с, убита ==");
    assert_eq!(judge_session(0, "usage limit").0, Finish::Done);
    assert_eq!(judge_session(1, "You HIT YOUR limit").0, Finish::Limit);
    for text in ["usage limit", "limit reached", "rate-limit", "ratelimit", "session limit", "out of usage credits", "out of credits", "credit balance"] {
        assert_eq!(judge_session(1, text).0, Finish::Limit, "{}", text);
    }
    let long = format!("usage limit{}", "\nx".repeat(10));
    let (f, tail) = judge_session(2, &long);
    assert_eq!(f, Finish::Failed);
    assert_eq!(tail, "x\nx\nx\nx\nx\nx\nx\nx\nx\nx");
    assert_eq!(finish(0, true), Finish::Done);
    assert_eq!(outcome(Finish::Done, true), Outcome::Success);
    assert_eq!(outcome(Finish::Limit, true), Outcome::Limit);
    assert_eq!(outcome(Finish::Failed, true), Outcome::Stopped);
    assert_eq!(outcome(Finish::Failed, false), Outcome::Error);
    assert!(matches!(sleep_checking_stop(false, true), SleepStep::Over(true)));
    assert!(matches!(sleep_checking_stop(false, false), SleepStep::Wait(5)));
    assert!(matches!(sleep_checking_stop(true, false), SleepStep::Over(false)));
    assert!(matches!(sleep_checking_stop(true, true), SleepStep::Over(true)));
}

#[test]
fn the_latest_log_is_chosen() {
    let f = |n: &str, m: i128| LogFile { name: s(n), modified: m };
    let files = vec![f("session-a.log", 5), f("init-x.log", 9), f("session-b.log", 7), f("session-c.log", 7), f("session-d.txt", 8)];
    assert_eq!(latest_session_log(&files), Some(3));
    assert_eq!(latest_session_log(&vec![f("x", 1)]), None);
    assert_eq!(tail_file("a\nb\nc", 2), "b\nc");
}

#[test]
fn the_daemon_goes_round_by_round() {
    let mut d = Daemon::new();
    assert_eq!(d.run(Event::Stop(false), "opus"), Action::ReadRegistry);
    assert_eq!(d.run(Event::Registry(Some(2)), "opus"), Action::LookForStop);
    assert_eq!(d.run(Event::Stop(false), "opus"), Action::LoadSettings(0));
    assert_eq!(d.run(Event::Settings(false), "opus"), Action::LookForStop);
    assert_eq!(d.run(Event::Stop(false), "opus"), Action::LoadSettings(1));
    assert_eq!(d.run(Event::Settings(true), "opus"), Action::SelectTask(1));
    assert_eq!(d.run(Event::Task(true), "opus"), Action::RunSession(1));
    assert_eq!(d.run(Event::Session(Outcome::Limit), "opus"), Action::LookForStop);
    assert_eq!(d.model_override.as_deref(), Some("opus"));
    assert_eq!(d.phase, Phase::Round);
    d.phase = Phase::Session(0, 1);
    assert_eq!(d.run(Event::Session(Outcome::Limit), "opus"), Action::SleepLimit);
    assert_eq!(d.run(Event::Stop(false), "opus"), Action::LookForStop);
    d.phase = Phase::Session(0, 1);
    assert_eq!(d.run(Event::Session(Outcome::Success), "opus"), Action::LookForStop);
    assert_eq!(d.model_override, None);
    assert_eq!(d.run(Event::Stop(false), "opus"), Action::ReadRegistry);
    assert_eq!(d.run(Event::Registry(None), "opus"), Action::SleepBroken);
    assert_eq!(d.run(Event::Stop(false), "opus"), Action::LookForStop);
    assert_eq!(d.run(Event::Stop(false), "opus"), Action::ReadRegistry);
    assert_eq!(d.run(Event::Registry(Some(1)), "opus"), Action::LookForStop);
    assert_eq!(d.run(Event::Stop(false), "opus"), Action::LoadSettings(0));
    assert_eq!(d.run(Event::Settings(true), "opus"), Action::SelectTask(0));
    assert_eq!(d.run(Event::Task(false), "opus"), Action::SleepIdle);
    assert_eq!(d.run(Event::Stop(true), "opus"), Action::Quit);
    assert_eq!(d.phase, Phase::Over);
    let mut d = Daemon::new();
    d.phase = Phase::Session(0, 3);
    assert_eq!(d.run(Event::Session(Outcome::Stopped), "opus"), Action::Quit);
    let mut d = Daemon::new();
    d.run(Event::Stop(false), "opus");
    assert_eq!(d.run(Event::Registry(Some(0)), "opus"), Action::SleepIdle);
}

#[test]
fn templates_are_filled_in_turn() {
    assert_eq!(fill("a {{X}} {{Y}}", &vec![pair("X", "{{Y}}"), pair("Y", "2")]), "a 2 2");
    assert_eq!(fill("{{Z}}", &Vec::new()), "{{Z}}");
}

#[test]
fn files_are_made_only_where_they_lack() {
    let mut g = GlobalConfig::default();
    let t = "{{PROJECT_NAME}} {{TOKEN_ENV}} {{WORKSPACE}} {{OPERATOR_GID}} {{OPERATOR_LABEL}} {{AGENT_GID}} {{AGENT_NAME}} {{AGENT_LABEL}}";
    let plan = ensure_files(&helper(), &project(), &g, None, false, false, t, "P {{PROJECT_NAME}}");
    let f = plan.settings.unwrap();
    assert_eq!(f.path, "/w/proj/autopilot/autopilot.yaml");
    assert_eq!(f.content, "proj ASANA_ACCESS_TOKEN FILL_ME FILL_ME operator FILL_ME Helper Code agent");
    let f = plan.prompt.unwrap();
    assert_eq!(f.path, "/w/proj/autopilot/prompt.md");
    assert_eq!(f.content, "P proj");
    g.defaults.operator = Some(PersonCfg { gid: s("1"), label: s("gleb") });
    g.defaults.agent = Some(AgentCfg { gid: s("2"), name: s("Bot"), label: s("") });
    let plan = ensure_files(&helper(), &project(), &g, Some("77"), false, true, t, "");
    assert_eq!(plan.settings.unwrap().content, "proj ASANA_ACCESS_TOKEN 77 1 gleb 2 Bot agent");
    assert!(plan.prompt.is_none());
    let plan = ensure_files(&helper(), &project(), &g, None, true, true, t, "");
    assert!(plan.settings.is_none() && plan.prompt.is_none());
}

#[test]
fn the_memory_is_noted_once() {
    assert_eq!(
        claude_memory_dir(&helper(), "/home/u", "/w/my.proj"),
        "/home/u/.helper/projects/-w-my-proj/memory"
    );
    let f = write_memory(&helper(), &project(), "/home/u", "{{PROJECT_NAME}} in {{PROJECT_DIR}}");
    assert_eq!(f.path, "/home/u/.helper/projects/-w-proj/memory/asana-autopilot.md");
    assert_eq!(f.content, "proj in /w/proj");
    let line = "- [Asana autopilot](asana-autopilot.md) — проект под контролем глобального демона autopilot; конфиг в ./autopilot/, CLI `asana`\n";
    let new = update_index("").unwrap();
    assert_eq!(new, format!("# Memory Index\n\n{}", line));
    assert!(update_index(&new).is_none());
    assert_eq!(update_index("x").unwrap(), format!("x\n{}", line));
    assert_eq!(update_index("x\n").unwrap(), format!("x\n{}", line));
}

#[test]
fn the_prompt_is_refined() {
    let plan = refine_prompt_with_claude(&project(), "look at {{PROJECT_DIR}}");
    assert_eq!(
        plan.args,
        vec![s("-p"), s("look at /w/proj"), s("--model"), s("sonnet"), s("--dangerously-skip-permissions")]
    );
    assert_eq!(plan.env, vec![pair("MAX_THINKING_TOKENS", "10000")]);
    assert_eq!(init_log_path(&project(), "1"), "/w/proj/autopilot/logs/init-1.log");
    let a = helper();
    assert!(matches!(watch_init(&a, Poll::Exited(Some(0)), false, "l", ""), InitStep::Done));
    match watch_init(&a, Poll::Exited(Some(2)), false, "l", "") {
        InitStep::Failed(e) => assert_eq!(e.0, "helper завершился с ошибкой (код Some(2)), см. l"),
        other => panic!("{:?}", other),
    }
    match watch_init(&a, Poll::Exited(None), false, "l", "") {
        InitStep::Failed(e) => assert_eq!(e.0, "helper завершился с ошибкой (код None), см. l"),
        other => panic!("{:?}", other),
    }
    assert!(matches!(watch_init(&a, Poll::Running, false, "l", ""), InitStep::Wait(3)));
    match watch_init(&a, Poll::Running, true, "l", "") {
        InitStep::Kill(e) => {
            assert_eq!(e.0, "инициализация превысила 15 минут и была прервана, см. l")
        }
        other => panic!("{:?}", other),
    }
    match watch_init(&a, Poll::Failed, false, "l", "why") {
        InitStep::Failed(e) => assert_eq!(e.0, "try_wait: why"),
        other => panic!("{:?}", other),
    }
}
