use autopilot_core::asana::{
    assignee_of, from_stdin, parse_request, project_of, read_text, resolve_assignee, subtask_flags,
    subtask_notes, wants_help, Handover, HandoverStep, Request,
};
use autopilot_core::cli::{
    kill_target, last_session_text, list_text, parse_add, parse_invocation, parse_logs,
    project_name, refines, stop_step,
    Invocation, StopStep,
};
use autopilot_core::client::Client;
use autopilot_core::model::{Membership, Ref, Task};
use autopilot_core::registry::{ProjectEntry, Registry};
use autopilot_core::settings::Settings;

fn s(t: &str) -> String {
    t.to_string()
}

fn args(t: &[&str]) -> Vec<String> {
    t.iter().map(|x| x.to_string()).collect()
}

fn settings() -> Settings {
    Settings {
        token: s("t"),
        workspace: s("w"),
        operator_gid: s("op"),
        operator_label: s("Глеб"),
        agent_gid: s("ag"),
        agent_name: s("Agent"),
        agent_label: s("Bot"),
        sections: Vec::new(),
        approved: Vec::new(),
        manual_keywords: Vec::new(),
        comment_language: s("en"),
        prompt_file: s("prompt.md"),
        mismatch_comment: None,
    }
}

#[test]
fn add_is_told() {
    let a = parse_add(&args(&["add", "dir", "--name", "n", "--priority", "-2", "--workspace", "7", "--no-init"]), 1).unwrap();
    assert_eq!(a.dir.as_deref(), Some("dir"));
    assert_eq!(a.name.as_deref(), Some("n"));
    assert_eq!(a.priority, -2);
    assert_eq!(a.workspace.as_deref(), Some("7"));
    assert!(a.no_init);
    let e = |t: &[&str]| parse_add(&args(t), 0).unwrap_err();
    assert_eq!(e(&["--name"]), "--name требует значение");
    assert_eq!(e(&["--priority"]), "--priority требует число");
    assert_eq!(e(&["--priority", "x"]), "--priority требует число");
    assert_eq!(e(&["--workspace"]), "--workspace требует gid");
    assert_eq!(e(&["a", "b"]), "неизвестный аргумент b");
    assert_eq!(e(&["--what"]), "неизвестный аргумент --what");
    assert_eq!(
        e(&["--no-init"]),
        "usage: autopilot add <dir> [--name N] [--priority P] [--workspace GID] [--no-init]"
    );
    let a = parse_add(&args(&["--name", "--priority", "-x"]), 0).unwrap();
    assert_eq!(a.name.as_deref(), Some("--priority"));
    assert_eq!(a.dir.as_deref(), Some("-x"));
}

#[test]
fn logs_is_told() {
    let l = parse_logs(&args(&[]), 0).unwrap();
    assert_eq!((l.name, l.n), (None, 40));
    let l = parse_logs(&args(&["p", "-n", "3"]), 0).unwrap();
    assert_eq!((l.name.as_deref(), l.n), (Some("p"), 3));
    let e = |t: &[&str]| parse_logs(&args(t), 0).unwrap_err();
    assert_eq!(e(&["-n"]), "-n требует число");
    assert_eq!(e(&["-n", "-1"]), "-n требует число");
    assert_eq!(e(&["a", "b"]), "неизвестный аргумент b");
    assert_eq!(e(&["-x"]), "неизвестный аргумент -x");
}

#[test]
fn the_command_line_of_the_daemon_is_understood() {
    let f = |t: &[&str]| parse_invocation(&args(t));
    for t in [&[][..], &["help"], &["--help"], &["-h"], &[""]] {
        assert!(matches!(f(t), Invocation::Help));
    }
    assert!(matches!(f(&["__daemon"]), Invocation::Daemon));
    assert!(matches!(f(&["add", "d"]), Invocation::Add(_)));
    assert!(matches!(f(&["add"]), Invocation::Wrong(e) if e.starts_with("usage: autopilot add")));
    assert!(matches!(f(&["remove", "x"]), Invocation::Remove(n) if n == "x"));
    assert!(matches!(f(&["rm"]), Invocation::Wrong(e) if e == "usage: autopilot remove <name>"));
    assert!(matches!(f(&["ls"]), Invocation::List));
    assert!(matches!(f(&["list"]), Invocation::List));
    assert!(matches!(f(&["pause", "x"]), Invocation::Pause(n, true) if n == "x"));
    assert!(matches!(f(&["pause"]), Invocation::Wrong(e) if e == "usage: autopilot pause <name>"));
    assert!(matches!(f(&["resume", "x"]), Invocation::Pause(n, false) if n == "x"));
    assert!(matches!(f(&["resume"]), Invocation::Wrong(e) if e == "usage: autopilot resume <name>"));
    assert!(matches!(f(&["priority", "x", "4"]), Invocation::Priority(n, 4) if n == "x"));
    assert!(matches!(f(&["priority", "x", "y"]), Invocation::Wrong(e) if e == "приоритет должен быть числом"));
    assert!(matches!(f(&["priority"]), Invocation::Wrong(e) if e == "usage: autopilot priority <name> <P>"));
    assert!(matches!(f(&["status"]), Invocation::Status));
    assert!(matches!(f(&["logs", "x"]), Invocation::Logs(l) if l.name.as_deref() == Some("x")));
    assert!(matches!(f(&["logs", "-n"]), Invocation::Wrong(_)));
    assert!(matches!(f(&["start"]), Invocation::Start));
    assert!(matches!(f(&["stop"]), Invocation::Stop));
    assert!(matches!(f(&["restart"]), Invocation::Restart));
    assert!(matches!(f(&["run"]), Invocation::Run));
    assert!(matches!(f(&["zzz"]), Invocation::Unknown(c) if c == "zzz"));
}

#[test]
fn projects_are_listed_in_columns() {
    assert_eq!(list_text(&Registry::default()), "Реестр пуст. Добавь проект: autopilot add <dir>\n");
    let reg = Registry {
        projects: vec![
            ProjectEntry { name: s("a"), dir: s("/a"), priority: -1, paused: true },
            ProjectEntry { name: s("очень-длинное-имя-проекта"), dir: s("/b"), priority: 5, paused: false },
        ],
    };
    let mut want = format!("{:<16} {:>9}  {:<10} КАТАЛОГ\n", "ИМЯ", "ПРИОРИТЕТ", "СОСТОЯНИЕ");
    want.push_str(&format!("{:<16} {:>9}  {:<10} {}\n", "очень-длинное-имя-проекта", 5, "активен", "/b"));
    want.push_str(&format!("{:<16} {:>9}  {:<10} {}\n", "a", -1, "пауза", "/a"));
    assert_eq!(list_text(&reg), want);
}

#[test]
fn the_last_session_is_shown() {
    assert_eq!(
        last_session_text("p", "session-1.log", "1\n2\n3\n4\n"),
        "\n[p] последняя сессия: session-1.log\n    | 2\n    | 3\n    | 4\n"
    );
    assert_eq!(last_session_text("p", "f", ""), "\n[p] последняя сессия: f\n");
}

#[test]
fn the_daemon_is_stopped() {
    assert_eq!(kill_target(42, Some(42)), "-42");
    assert_eq!(kill_target(42, Some(41)), "42");
    assert_eq!(kill_target(42, None), "42");
    assert_eq!(stop_step(0, false), StopStep::Gone);
    assert_eq!(stop_step(4, true), StopStep::Wait);
    assert_eq!(stop_step(5, true), StopStep::Kill);
}

#[test]
fn assignees_go_by_word_or_label() {
    let st = settings();
    assert_eq!(resolve_assignee(&st, "NONE"), Some(None));
    assert_eq!(resolve_assignee(&st, "Operator"), Some(Some(s("op"))));
    assert_eq!(resolve_assignee(&st, "ГЛЕБ"), Some(Some(s("op"))));
    assert_eq!(resolve_assignee(&st, "agent"), Some(Some(s("ag"))));
    assert_eq!(resolve_assignee(&st, "bOT"), Some(Some(s("ag"))));
    assert_eq!(resolve_assignee(&st, "who"), None);
    assert_eq!(assignee_of(&st, "x", "x", "y"), Some(Some(s("op"))));
}

#[test]
fn texts_come_from_the_standard_input() {
    assert!(from_stdin("-"));
    assert!(!from_stdin("x"));
    assert_eq!(read_text("-", " in \n"), "in");
    assert_eq!(read_text(" x ", "in"), " x ");
    assert_eq!(subtask_notes(&Vec::new(), "in"), "");
    assert_eq!(subtask_notes(&args(&["-"]), " in "), "in");
    assert_eq!(subtask_notes(&args(&["-", "x"]), "in"), "x");
    assert_eq!(subtask_notes(&args(&["-", "-"]), "in"), "");
}

#[test]
fn tasks_belong_to_a_project() {
    let c = Client::new(settings());
    let mut t = Task::default();
    assert_eq!(project_of(&c, &t, "5").unwrap_err().0, "задача 5 не состоит ни в одном проекте");
    t.memberships = vec![Membership { project: Some(Ref { gid: s("p"), name: s("") }), section: None }];
    assert_eq!(project_of(&c, &t, "5").unwrap(), "p");
}

#[test]
fn flags_of_a_subtask_are_read() {
    let st = settings();
    let f = subtask_flags(&st, &args(&["--notes", "a", "--assignee", "agent", "--notes", "-"]), 0).unwrap();
    assert_eq!(f.notes, args(&["a", "-"]));
    assert_eq!(f.assignee.as_deref(), Some("ag"));
    let e = |t: &[&str]| subtask_flags(&st, &args(t), 0).unwrap_err();
    assert_eq!(e(&["--notes"]), "--notes needs a value");
    assert_eq!(e(&["--assignee"]), "--assignee needs a value");
    assert_eq!(e(&["--assignee", "none"]), "assignee must be operator|agent (или метка из конфига)");
    assert_eq!(e(&["--assignee", "who"]), "assignee must be operator|agent (или метка из конфига)");
    assert_eq!(e(&["-x"]), "unknown flag -x");
}

#[test]
fn handovers_have_steps() {
    assert_eq!(Handover::Qa.role(), "qa");
    assert_eq!(Handover::Done.role(), "done");
    assert_eq!(Handover::Block.role(), "blocked");
    assert_eq!(Handover::Qa.steps(), vec![HandoverStep::Comment, HandoverStep::Move, HandoverStep::Assign]);
    assert_eq!(Handover::Block.steps(), vec![HandoverStep::Comment, HandoverStep::Assign, HandoverStep::Move]);
}

#[test]
fn the_command_line_for_asana_is_understood() {
    let st = settings();
    let f = |t: &[&str]| parse_request(&st, &args(t));
    assert!(wants_help(&args(&[])) && wants_help(&args(&["help"])) && wants_help(&args(&["--help", "x"])));
    assert!(!wants_help(&args(&["task"])));
    assert!(matches!(f(&[]), Request::Help));
    assert!(matches!(f(&["task", "1"]), Request::Task(g) if g == "1"));
    assert!(matches!(f(&["task"]), Request::Wrong(e) if e == "usage: asana task <gid>"));
    assert!(matches!(f(&["comment", "1", "-"]), Request::Comment(g, t) if g == "1" && t == "-"));
    assert!(matches!(f(&["comment"]), Request::Wrong(e) if e == "usage: asana comment <gid> <text|->"));
    assert!(matches!(f(&["comment", "1"]), Request::Wrong(e) if e == "comment text required"));
    assert!(matches!(f(&["move", "1", "qa"]), Request::Move(g, r) if g == "1" && r == "qa"));
    assert!(matches!(f(&["move"]), Request::Wrong(e) if e == "usage: asana move <gid> <role>"));
    assert!(matches!(f(&["move", "1"]), Request::Wrong(e) if e == "role required"));
    assert!(matches!(f(&["assign", "1", "bot"]), Request::Assign(_, Some(to), who) if to == "ag" && who == "bot"));
    assert!(matches!(f(&["assign", "1", "none"]), Request::Assign(_, None, _)));
    assert!(matches!(f(&["assign"]), Request::Wrong(e) if e == "usage: asana assign <gid> <operator|agent|none>"));
    assert!(matches!(f(&["assign", "1"]), Request::Wrong(e) if e == "assignee required"));
    assert!(matches!(f(&["assign", "1", "x"]), Request::Wrong(e) if e == "assignee must be operator|agent|none (или метка из конфига)"));
    assert!(matches!(f(&["complete", "1"]), Request::Complete(g) if g == "1"));
    assert!(matches!(f(&["complete"]), Request::Wrong(e) if e == "usage: asana complete <gid>"));
    assert!(matches!(f(&["subtask", "1", "n", "--notes", "x"]), Request::Subtask(p, n, fl) if p == "1" && n == "n" && fl.notes.len() == 1));
    assert!(matches!(f(&["subtask"]), Request::Wrong(e) if e.starts_with("usage: asana subtask <parent_gid>")));
    assert!(matches!(f(&["subtask", "1"]), Request::Wrong(e) if e == "subtask name required"));
    assert!(matches!(f(&["subtask", "1", "n", "--x"]), Request::Wrong(e) if e == "unknown flag --x"));
    assert!(matches!(f(&["download", "1"]), Request::Download(_, d) if d == "."));
    assert!(matches!(f(&["download", "1", "d"]), Request::Download(_, d) if d == "d"));
    assert!(matches!(f(&["download"]), Request::Wrong(e) if e == "usage: asana download <attachment_gid> [dir]"));
    assert!(matches!(f(&["qa", "1", "t"]), Request::HandOver(Handover::Qa, _, _)));
    assert!(matches!(f(&["done", "1", "t"]), Request::HandOver(Handover::Done, _, _)));
    assert!(matches!(f(&["block", "1", "t"]), Request::HandOver(Handover::Block, _, _)));
    assert!(matches!(f(&["qa"]), Request::Wrong(e) if e == "usage: asana qa <gid> <comment|->"));
    assert!(matches!(f(&["done", "1"]), Request::Wrong(e) if e == "comment required"));
    assert!(matches!(f(&["block"]), Request::Wrong(e) if e == "usage: asana block <gid> <comment|->"));
    assert!(matches!(f(&["zzz"]), Request::Unknown(c) if c == "zzz"));
}

#[test]
fn the_prompt_is_refined_only_where_it_is_new_and_wanted() {
    assert!(refines(true, false));
    assert!(!refines(true, true));
    assert!(!refines(false, false));
    assert!(!refines(false, true));
}

#[test]
fn to_add_again_without_init_starts_nothing() {
    let told = parse_add(&args(&["/new", "--name", "n", "--no-init"]), 0).unwrap();
    assert!(!refines(true, told.no_init));
    let mut reg = Registry {
        projects: vec![
            ProjectEntry { name: s("m"), dir: s("/m"), priority: 1, paused: false },
            ProjectEntry { name: s("n"), dir: s("/old"), priority: 5, paused: true },
        ],
    };
    let name = project_name(&told, "/new").unwrap();
    assert!(reg.register(&name, "/new", told.priority).unwrap());
    let all: Vec<(&str, &str, i64, bool)> = reg
        .projects
        .iter()
        .map(|p| (p.name.as_str(), p.dir.as_str(), p.priority, p.paused))
        .collect();
    assert_eq!(all, vec![("m", "/m", 1, false), ("n", "/new", 0, true)]);
}

#[test]
fn a_project_is_called_after_its_directory() {
    let told = parse_add(&args(&["x"]), 0).unwrap();
    assert_eq!(project_name(&told, "/w/proj").unwrap(), "proj");
    assert_eq!(
        project_name(&told, "/").unwrap_err(),
        "не могу вывести имя из пути, задай --name"
    );
}
