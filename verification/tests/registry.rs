use autopilot_core::daemon::status_text;
use autopilot_core::registry::{
    config_file, d_limit_sleep, d_no_task_sleep, d_session_timeout, daemon_log_file, daemon_pid,
    global_dir, pgid_of, pid_file, projects_file, read_pid, status_file, stop_file,
    tg_offset_file, DaemonStatus, GlobalConfig, ProjectEntry, Registry, TelegramCfg,
};

fn s(t: &str) -> String {
    t.to_string()
}

fn entry(name: &str, dir: &str, priority: i64, paused: bool) -> ProjectEntry {
    ProjectEntry { name: s(name), dir: s(dir), priority, paused }
}

fn sample() -> Registry {
    Registry {
        projects: vec![
            entry("b", "/b", 1, false),
            entry("c", "/c", 5, true),
            entry("a", "/a", 1, false),
            entry("d", "/d", -2, false),
        ],
    }
}

#[test]
fn files_of_the_daemon_lie_in_the_global_directory() {
    assert_eq!(global_dir(None, "/home/u"), "/home/u/.autopilot");
    assert_eq!(global_dir(Some(s("/x")), "/home/u"), "/x");
    assert_eq!(projects_file("/g"), "/g/projects.yaml");
    assert_eq!(config_file("/g"), "/g/config.yaml");
    assert_eq!(pid_file("/g"), "/g/daemon.pid");
    assert_eq!(stop_file("/g"), "/g/STOP");
    assert_eq!(status_file("/g"), "/g/status.json");
    assert_eq!(daemon_log_file("/g"), "/g/daemon.log");
    assert_eq!(tg_offset_file("/g"), "/g/telegram.offset");
    let p = entry("a", "/a", 0, false);
    assert_eq!(p.autopilot_dir(), "/a/autopilot");
    assert_eq!(p.logs_dir(), "/a/autopilot/logs");
    assert_eq!(p.state_dir(), "/a/autopilot/state");
}

#[test]
fn projects_are_scanned_by_priority_then_name() {
    let r = sample();
    let active: Vec<&str> = r.sorted_active().iter().map(|p| p.name.as_str()).collect();
    assert_eq!(active, vec!["a", "b", "d"]);
    assert_eq!(r.names(), vec![s("c"), s("a"), s("b"), s("d")]);
    assert_eq!(r.sorted_all().len(), 4);
    let kept: Vec<&str> =
        r.sorted_all().iter().filter(|p| !p.paused).map(|p| p.name.as_str()).collect();
    assert_eq!(kept, active);
    assert_eq!(r.known_names(), "c, a, b, d");
    assert_eq!(Registry::default().known_names(), "(реестр пуст)");
}

#[test]
fn projects_are_found_by_name() {
    let mut r = sample();
    assert_eq!(r.find("c").unwrap().dir, "/c");
    assert!(r.find("x").is_none());
    r.find_mut("c").unwrap().priority = 9;
    assert_eq!(r.find("c").unwrap().priority, 9);
    assert!(r.find_mut("x").is_none());
    assert_eq!(r.require_project("a").unwrap().dir, "/a");
    assert_eq!(r.require_project("x").unwrap_err().0, "проект «x» не найден; есть: c, a, b, d");
}

#[test]
fn projects_are_paused_and_resumed() {
    let mut r = sample();
    r.set_paused("a", true).unwrap();
    assert!(r.find("a").unwrap().paused);
    assert!(!r.find("b").unwrap().paused);
    assert_eq!(r.set_paused("x", true).unwrap_err().0, "проект «x» не найден");
    assert_eq!(r.toggle_paused("b").unwrap(), true);
    assert_eq!(r.toggle_paused("b").unwrap(), false);
    assert!(!r.find("b").unwrap().paused);
    assert_eq!(r.toggle_paused("x").unwrap_err().0, "проект «x» не найден");
}

#[test]
fn priorities_are_set_and_bumped() {
    let mut r = sample();
    r.set_priority("a", 7).unwrap();
    assert!(r.can_bump("a", -1));
    assert_eq!(r.bump_priority("a", -1).unwrap(), 6);
    assert_eq!(r.find("a").unwrap().priority, 6);
    assert_eq!(r.set_priority("x", 1).unwrap_err().0, "проект «x» не найден");
    assert_eq!(r.bump_priority("x", 1).unwrap_err().0, "проект «x» не найден");
    r.set_priority("a", i64::MAX).unwrap();
    assert!(!r.can_bump("a", 1));
    assert!(r.can_bump("a", -1));
    r.set_priority("a", i64::MIN).unwrap();
    assert!(!r.can_bump("a", -1));
}

#[test]
fn projects_are_registered_once() {
    let mut r = sample();
    assert_eq!(r.register("e", "/e", 3).unwrap(), false);
    let e = r.find("e").unwrap();
    assert_eq!((e.dir.as_str(), e.priority, e.paused), ("/e", 3, false));
    assert_eq!(r.register("c", "/c2", 0).unwrap(), true);
    let c = r.find("c").unwrap();
    assert_eq!((c.dir.as_str(), c.priority, c.paused), ("/c2", 0, true));
    assert_eq!(
        r.register("f", "/b/", 0).unwrap_err().0,
        "каталог уже зарегистрирован под именем «b»"
    );
    assert!(r.find("f").is_none());
}

#[test]
fn projects_are_removed() {
    let mut r = sample();
    r.remove("c").unwrap();
    assert!(r.find("c").is_none());
    assert_eq!(r.names(), vec![s("a"), s("b"), s("d")]);
    assert_eq!(r.remove("c").unwrap_err().0, "проект «c» не найден; есть: a, b, d");
}

#[test]
fn the_configuration_has_defaults() {
    let g = GlobalConfig::default();
    assert_eq!(g.defaults.token_env, "ASANA_ACCESS_TOKEN");
    assert!(g.defaults.operator.is_none() && g.defaults.agent.is_none());
    assert_eq!(g.daemon.session_timeout, d_session_timeout());
    assert_eq!((d_session_timeout(), d_limit_sleep(), d_no_task_sleep()), (10800, 1200, 600));
    assert_eq!(g.daemon.fallback_model, "opus");
    assert_eq!(g.telegram.token_env, "AUTOPILOT_TG_TOKEN");
}

#[test]
fn the_token_of_the_bot_is_resolved() {
    let mut t = TelegramCfg::default();
    assert_eq!(t.resolve_token(None), None);
    assert_eq!(t.resolve_token(Some(s("  "))), None);
    assert_eq!(t.resolve_token(Some(s(" e "))), Some(s(" e ")));
    t.token = Some(s(" x "));
    assert_eq!(t.resolve_token(Some(s("e"))), Some(s("x")));
    t.token = Some(s(" "));
    assert_eq!(t.resolve_token(Some(s("e"))), Some(s("e")));
}

#[test]
fn process_numbers_are_read() {
    assert_eq!(read_pid(Some(" 123\n")), Some(123));
    assert_eq!(read_pid(Some("x")), None);
    assert_eq!(read_pid(None), None);
    assert_eq!(daemon_pid(Some(1), true), Some(1));
    assert_eq!(daemon_pid(Some(1), false), None);
    assert_eq!(pgid_of("  77\n"), Some(77));
    assert_eq!(pgid_of(""), None);
}

#[test]
fn the_status_is_told() {
    let st = DaemonStatus::set("idle", "2026-01-01 00:00:00");
    assert!(st.project.is_none() && st.model.is_none());
    assert_eq!(
        status_text(&Registry::default(), &st, None),
        "Демон: остановлен\n\nПроекты:\n  (нет — добавь: autopilot add <dir>)\n"
    );
    let r = Registry { projects: vec![entry("a", "/a", 1, false), entry("b", "/b", 2, true)] };
    assert_eq!(
        status_text(&r, &st, Some(42)),
        "Демон: РАБОТАЕТ (pid 42)\nСейчас: простой, задач нет (проверка 2026-01-01 00:00:00)\n\
         \nПроекты:\n  b — ⏸ пауза (приоритет 2)\n      /b\n  a — ▶️ активен (приоритет 1)\n      /a\n"
    );
    let mut st = DaemonStatus::set("session", "T");
    st.task_name = Some(s("task"));
    st.project = Some(s("a"));
    assert!(status_text(&r, &st, Some(1)).contains("Сейчас: сессия «task» [a] (модель ?, с T)\n"));
    let st = DaemonStatus::set("limit_sleep", "T");
    assert!(status_text(&r, &st, Some(1)).contains("Сейчас: пауза из-за лимита (с T)\n"));
    assert!(!status_text(&r, &DaemonStatus::default(), Some(1)).contains("Сейчас"));
}
