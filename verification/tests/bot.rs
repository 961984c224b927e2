use autopilot_core::assistant::Assistant;
use autopilot_core::claudecli::{
    auth_status, code_line, login_finish, login_start, usage, usage_of, AuthStatus, LoginRead,
    LoginStep,
};
use autopilot_core::model::ApiError;
use autopilot_core::registry::{ProjectEntry, Registry, TelegramCfg};
use autopilot_core::telegram::{
    account_text, acknowledge, allowed, answer_body, apply_button, apply_command, base_url,
    button_changes_registry, can_apply, changes_registry, checking_text, redraws, replacement,
    reply_is_json, confirm_keyboard, confirm_text,
    edit_body, error_text, handle_callback, handle_command, handle_message, handle_press,
    handle_update, help_text, keyboard, login_finished_text, login_started_text, logs_text,
    main_menu, next_offset, paused_text, poll_body, priority_text, read_update,
    register_commands, send_body, stored_offset, take_pending_login_for, toggled_text,
    update_count, usage_message, Button, Callback, Claim, Command, LogLookup, Message,
    PendingLogin, Press, Reaction, LOGIN_TTL,
};

fn s(t: &str) -> String {
    t.to_string()
}

fn helper() -> Assistant {
    Assistant { program: s("helper"), name: s("Helper"), title: s("Helper Code") }
}

fn cfg() -> TelegramCfg {
    TelegramCfg { token: None, token_env: s("X"), allowed_chats: vec![5, -7] }
}

fn json(t: &str) -> serde_json::Value {
    serde_json::from_str(t).unwrap()
}

#[test]
fn calls_are_built_exactly() {
    assert_eq!(base_url("T"), "https://api.telegram.org/botT");
    assert_eq!(send_body(-5, "a\"b", None), "{\"chat_id\":-5,\"text\":\"a\\\"b\"}");
    assert_eq!(
        send_body(5, "x", Some("{}")),
        "{\"chat_id\":5,\"reply_markup\":{},\"text\":\"x\"}"
    );
    assert_eq!(
        edit_body(5, 9, "x", Some("{}")),
        "{\"chat_id\":5,\"message_id\":9,\"reply_markup\":{},\"text\":\"x\"}"
    );
    assert_eq!(edit_body(5, 9, "x", None), "{\"chat_id\":5,\"message_id\":9,\"text\":\"x\"}");
    assert_eq!(answer_body("q", "t"), "{\"callback_query_id\":\"q\",\"text\":\"t\"}");
    assert_eq!(
        poll_body(3),
        "{\"allowed_updates\":[\"message\",\"callback_query\"],\"offset\":3,\"timeout\":50}"
    );
    assert_eq!(stored_offset(Some(" 12\n")), 12);
    assert_eq!(stored_offset(Some("x")), 0);
    assert_eq!(stored_offset(None), 0);
    assert_eq!(next_offset(12), 13);
}

#[test]
fn updates_are_read() {
    let reply = "{\"result\":[{\"update_id\":7,\"message\":{\"chat\":{\"id\":5},\"text\":\" /status \"}},\
                 {\"update_id\":8,\"message\":null,\"callback_query\":{\"id\":\"q\",\"data\":\"t|a\",\
                 \"message\":{\"message_id\":3,\"chat\":{\"id\":5}}}},{\"message\":{}}]}"
        .as_bytes();
    assert_eq!(update_count(reply), 3);
    assert_eq!(update_count(b"{\"result\":{}}"), 0);
    assert_eq!(update_count(b"nonsense"), 0);
    let u = read_update(reply, 0);
    assert_eq!(u.update_id, Some(7));
    let m = u.message.unwrap();
    assert_eq!((m.chat_id, m.text.as_str()), (5, "/status"));
    assert!(u.callback.is_none());
    let u = read_update(reply, 1);
    assert!(u.message.is_none());
    let c = u.callback.unwrap();
    assert_eq!((c.id.as_str(), c.chat_id, c.message_id, c.data.as_str()), ("q", 5, 3, "t|a"));
    let u = read_update(reply, 2);
    assert_eq!(u.update_id, None);
    let m = u.message.unwrap();
    assert_eq!((m.chat_id, m.text.as_str()), (0, ""));
    let u = read_update(reply, 3);
    assert!(u.message.is_none() && u.callback.is_none() && u.update_id.is_none());
}

#[test]
fn commands_are_understood() {
    let f = handle_command;
    for t in ["/start", "/help", "/menu", "/menu@Bot x"] {
        assert!(matches!(f(t), Command::Help), "{}", t);
    }
    assert!(matches!(f("/status"), Command::Status));
    assert!(matches!(f("/whoami"), Command::Account));
    assert!(matches!(f("/account"), Command::Account));
    assert!(matches!(f("/usage"), Command::Usage));
    assert!(matches!(f("/login"), Command::Login));
    assert!(matches!(f("/cancel"), Command::Cancel));
    assert!(matches!(f("/logs a b"), Command::Logs(n) if n == "a"));
    assert!(matches!(f("/logs"), Command::Say(t) if t == "Использование: /logs <проект>"));
    assert!(matches!(f("/pause a"), Command::SetPaused(n, true) if n == "a"));
    assert!(matches!(f("/resume a"), Command::SetPaused(n, false) if n == "a"));
    assert!(matches!(f("/resume@Bot"), Command::Say(t) if t == "Использование: /resume <проект>"));
    assert!(matches!(f("/priority a -3"), Command::SetPriority(n, -3) if n == "a"));
    assert!(matches!(f("/priority a x"), Command::Say(t) if t == "Приоритет должен быть числом"));
    assert!(matches!(f("/priority a"), Command::Say(t) if t == "Использование: /priority <проект> <число>"));
    assert!(matches!(f("hello"), Command::Say(t) if t == "Не понял. /help — список команд."));
}

#[test]
fn only_named_chats_control_the_bot() {
    assert!(allowed(&cfg(), -7));
    assert!(!allowed(&cfg(), 6));
    let m = |chat_id: i64, text: &str| Message { chat_id, text: s(text) };
    match handle_message(&cfg(), &m(6, "/pause a"), None) {
        Reaction::Refuse(t) => assert_eq!(
            t,
            "⛔ Не авторизован. Ваш chat id: 6\nДобавьте его в ~/.autopilot/config.yaml → telegram.allowed_chats и перезапустите демон (autopilot restart)."
        ),
        other => panic!("{:?}", other),
    }
    assert!(matches!(handle_message(&cfg(), &m(0, "/status"), None), Reaction::Nothing));
    assert!(matches!(handle_message(&cfg(), &m(5, ""), None), Reaction::Nothing));
    assert!(matches!(handle_message(&cfg(), &m(5, "/status"), None), Reaction::Obey(Command::Status, false)));
    let c = |chat_id: i64, data: &str| Callback { id: s("q"), chat_id, message_id: 1, data: s(data) };
    assert!(matches!(handle_press(&cfg(), &c(6, "t|a")), Press::Refuse(t) if t == "Не авторизован"));
    assert!(matches!(handle_press(&cfg(), &c(5, "t|a")), Press::Obey(Button::Toggle(n)) if n == "a"));
    let u = autopilot_core::telegram::Update {
        update_id: None,
        message: Some(m(6, "x")),
        callback: Some(c(5, "r|")),
    };
    let (first, second) = handle_update(&cfg(), &u, None);
    assert!(matches!(first, Some(Reaction::Refuse(_))));
    assert!(second.is_none());
    let u = autopilot_core::telegram::Update { update_id: None, message: None, callback: Some(c(5, "r|")) };
    let (first, second) = handle_update(&cfg(), &u, None);
    assert!(first.is_none());
    assert!(matches!(second, Some(Press::Obey(Button::Redraw(_)))));
}

#[test]
fn codes_come_from_the_chat_that_asked_and_in_time() {
    let p = |chat_id: i64, elapsed: u128| Some(PendingLogin { chat_id, elapsed });
    assert_eq!(take_pending_login_for(p(5, LOGIN_TTL), 5), Claim::Take);
    assert_eq!(take_pending_login_for(p(5, LOGIN_TTL + 1), 5), Claim::Abort);
    assert_eq!(take_pending_login_for(p(-7, 0), 5), Claim::Leave);
    assert_eq!(take_pending_login_for(None, 5), Claim::Leave);
    let m = |text: &str| Message { chat_id: 5, text: s(text) };
    assert!(matches!(handle_message(&cfg(), &m("code"), p(5, 0)), Reaction::Code));
    assert!(matches!(handle_message(&cfg(), &m("/cancel"), p(5, 0)), Reaction::Obey(Command::Cancel, false)));
    assert!(matches!(handle_message(&cfg(), &m("code"), p(5, LOGIN_TTL + 1)), Reaction::Obey(Command::Say(_), true)));
    assert!(matches!(handle_message(&cfg(), &m("code"), p(-7, 0)), Reaction::Obey(Command::Say(_), false)));
}

#[test]
fn buttons_are_understood() {
    let f = handle_callback;
    assert!(matches!(f("m_status"), Button::Status));
    assert!(matches!(f("m_account"), Button::Account));
    assert!(matches!(f("m_usage"), Button::Usage));
    assert!(matches!(f("m_login"), Button::Login));
    assert!(matches!(f("login_go"), Button::LoginGo));
    assert!(matches!(f("login_cancel"), Button::LoginCancel));
    assert!(matches!(f("t|a|b"), Button::Toggle(n) if n == "a|b"));
    assert!(matches!(f("u|a"), Button::Bump(n, 1) if n == "a"));
    assert!(matches!(f("d|a"), Button::Bump(n, -1) if n == "a"));
    assert!(matches!(f("l|a"), Button::Logs(n) if n == "a"));
    assert!(matches!(f("r|"), Button::Redraw(t) if t == "Обновлено"));
    assert!(matches!(f("zzz"), Button::Redraw(t) if t == "Неизвестная кнопка"));
    assert_eq!(acknowledge(&f("m_status")).unwrap(), "Статус");
    assert_eq!(acknowledge(&f("m_account")).unwrap(), "Аккаунт");
    assert_eq!(acknowledge(&f("m_usage")).unwrap(), "Usage…");
    assert_eq!(acknowledge(&f("m_login")).unwrap(), "Вход");
    assert_eq!(acknowledge(&f("login_go")).unwrap(), "Запускаю…");
    assert_eq!(acknowledge(&f("login_cancel")).unwrap(), "Отменено");
    assert_eq!(acknowledge(&f("l|a")).unwrap(), "Логи…");
    assert_eq!(acknowledge(&f("r|")).unwrap(), "Обновлено");
    assert_eq!(acknowledge(&f("t|a")), None);
}

#[test]
fn keyboards_are_json() {
    let reg = Registry {
        projects: vec![
            ProjectEntry { name: s("a\"b"), dir: s("/a"), priority: 0, paused: false },
            ProjectEntry { name: s("c"), dir: s("/c"), priority: 1, paused: true },
        ],
    };
    let v = json(&keyboard(&reg));
    let rows = v["inline_keyboard"].as_array().unwrap();
    assert_eq!(rows.len(), 3);
    assert_eq!(rows[0][0]["text"], "▶️ c");
    assert_eq!(rows[0][0]["callback_data"], "t|c");
    assert_eq!(rows[1][0]["text"], "⏸ a\"b");
    assert_eq!(rows[1][1]["callback_data"], "u|a\"b");
    assert_eq!(rows[1][2]["text"], "🔽");
    assert_eq!(rows[1][3]["callback_data"], "l|a\"b");
    assert_eq!(rows[2][0]["callback_data"], "r|");
    assert_eq!(
        keyboard(&Registry::default()),
        "{\"inline_keyboard\":[[{\"callback_data\":\"r|\",\"text\":\"🔄 Обновить\"}]]}"
    );
    let v = json(&main_menu());
    assert_eq!(v["inline_keyboard"][0][1]["callback_data"], "m_account");
    assert_eq!(v["inline_keyboard"][1][1]["text"], "🔐 Войти");
    let v = json(&confirm_keyboard());
    assert_eq!(v["inline_keyboard"][0][0]["callback_data"], "login_go");
    assert_eq!(v["inline_keyboard"][0][1]["text"], "Отмена");
    let v = json(&register_commands(&helper()));
    assert_eq!(v["commands"].as_array().unwrap().len(), 9);
    assert_eq!(v["commands"][2]["description"], "Аккаунт Helper Code");
    assert_eq!(v["commands"][3]["description"], "Лимиты Helper (%)");
    assert_eq!(v["commands"][8]["command"], "priority");
}

#[test]
fn the_bot_answers() {
    let a = helper();
    assert!(help_text(&a).contains("/account — аккаунт Helper Code (кто залогинен, подписка)\n/usage — лимиты Helper в процентах\n"));
    assert!(confirm_text(&a).starts_with("⚠️ Это перелогинит аккаунт Helper, которым"));
    assert_eq!(paused_text("a", true), "⏸ Приостановлен a");
    assert_eq!(paused_text("a", false), "▶️ Возобновлён a");
    assert_eq!(toggled_text("a", true), "⏸ a на паузе");
    assert_eq!(toggled_text("a", false), "▶️ a возобновлён");
    assert_eq!(priority_text("a", -3), "Приоритет a = -3");
    assert_eq!(error_text(&ApiError(s("x"))), "Ошибка: x");
    assert_eq!(logs_text("a", &LogLookup::NoProject), "Проект «a» не найден");
    assert_eq!(logs_text("a", &LogLookup::NoLog), "У «a» ещё нет логов сессий");
    assert_eq!(
        logs_text("a", &LogLookup::Found(s("f.log"), s("1\n2\n"))),
        "📜 a — f.log:\n\n1\n2"
    );
    let long = "я".repeat(4000);
    assert_eq!(
        logs_text("a", &LogLookup::Found(s("f"), long.clone())).chars().count(),
        "📜 a — f:\n\n".chars().count() + 3500
    );
    assert_eq!(
        usage_message(&a, &Ok(long)).chars().count(),
        "📈 Лимиты Helper\n\n".chars().count() + 3800
    );
    assert_eq!(usage_message(&a, &Err(s("e"))), "Не удалось получить usage: e");
    assert_eq!(
        login_started_text(&Ok(s("U"))),
        "🔗 Открой ссылку, авторизуйся и пришли мне код ответным сообщением (или /cancel):\n\nU"
    );
    assert_eq!(login_started_text(&Err(s("e"))), "Не удалось начать вход: e");
    let st = |logged_in: bool| {
        Ok::<AuthStatus, String>(AuthStatus { logged_in, email: Some(s("m@x")), ..Default::default() })
    };
    assert_eq!(
        account_text(&a, &st(true)),
        "👤 Аккаунт Helper Code\nEmail: m@x\nОрганизация: —\nПодписка: —\nМетод входа: —"
    );
    assert_eq!(account_text(&a, &st(false)), "❌ Не залогинен. Нажми «🔐 Войти» или пришли /login.");
    assert_eq!(account_text(&a, &Err(s("e"))), "Ошибка `helper auth status`: e");
    assert_eq!(
        login_finished_text(&Ok(s("rest")), &st(true)),
        "✅ Вход выполнен.\nТеперь залогинен как: m@x\n\nrest"
    );
    assert_eq!(login_finished_text(&Ok(s("")), &st(false)), "✅ Вход выполнен.");
    assert_eq!(login_finished_text(&Err(s("e")), &st(true)), "❌ Вход не удался: e");
}

#[test]
fn the_account_is_read() {
    let a = helper();
    let out = b"{\"loggedIn\":true,\"email\":\"m@x\",\"orgName\":\"O\",\"subscriptionType\":\"max\",\"authMethod\":\"oauth\"}";
    let st = auth_status(&a, out).unwrap();
    assert!(st.logged_in);
    assert_eq!(st.email.as_deref(), Some("m@x"));
    assert_eq!(st.org_name.as_deref(), Some("O"));
    assert_eq!(st.subscription.as_deref(), Some("max"));
    assert_eq!(st.auth_method.as_deref(), Some("oauth"));
    let st = auth_status(&a, b"[]").unwrap();
    assert!(!st.logged_in && st.email.is_none());
    assert_eq!(
        auth_status(&a, b"").unwrap_err(),
        "не удалось разобрать вывод `helper auth status`: EOF while parsing a value at line 1 column 0"
    );
}

#[test]
fn the_limits_are_read() {
    let a = helper();
    assert_eq!(usage(&a, b"{\"result\":\" 5%\\n\"}").unwrap(), "5%");
    assert_eq!(usage(&a, b"{\"result\":\"  \"}").unwrap_err(), "пустой вывод /usage");
    assert_eq!(usage(&a, b"{}").unwrap_err(), "пустой вывод /usage");
    assert_eq!(
        usage(&a, b"{\"is_error\":true,\"result\":\"bad\"}").unwrap_err(),
        "helper вернул ошибку: bad"
    );
    assert_eq!(usage(&a, b"{\"is_error\":true}").unwrap_err(), "helper вернул ошибку: ?");
    assert!(usage(&a, b"x").unwrap_err().starts_with("не удалось разобрать вывод `/usage`: "));
    assert_eq!(usage_of(&a, false, Some(s("t"))).unwrap(), "t");
}

#[test]
fn logins_go_through() {
    let a = helper();
    match login_start(&a, 0, LoginRead::Line(s("Open https://x.y/z \n"))) {
        LoginStep::Url(u) => assert_eq!(u, "https://x.y/z"),
        other => panic!("{:?}", other),
    }
    assert!(matches!(login_start(&a, 8, LoginRead::Line(s("no"))), LoginStep::More));
    let none = "не удалось получить ссылку авторизации из вывода helper";
    assert!(matches!(login_start(&a, 9, LoginRead::Line(s("no"))), LoginStep::Failed(e) if e == none));
    assert!(matches!(login_start(&a, 0, LoginRead::End), LoginStep::Failed(e) if e == none));
    assert!(matches!(login_start(&a, 0, LoginRead::Fault(s("w"))), LoginStep::Broken(e) if e == "чтение вывода helper: w"));
    assert_eq!(code_line(" c \n"), "c\n");
    let lines = vec![s(" a "), s(""), s("b")];
    assert_eq!(login_finish(&a, &lines, Some(0)).unwrap(), "a\n\nb");
    assert_eq!(
        login_finish(&a, &lines, Some(1)).unwrap_err(),
        "`helper auth login` завершился с ошибкой (код Some(1)). Вывод:\na\n\nb"
    );
    assert_eq!(
        login_finish(&a, &Vec::new(), None).unwrap_err(),
        "`helper auth login` завершился с ошибкой (код None). Вывод:\n—"
    );
}

fn two() -> Registry {
    Registry {
        projects: vec![
            ProjectEntry { name: s("a"), dir: s("/a"), priority: 4, paused: false },
            ProjectEntry { name: s("b"), dir: s("/b"), priority: i64::MAX, paused: true },
        ],
    }
}

fn state(reg: &Registry) -> Vec<(i64, bool)> {
    reg.projects.iter().map(|p| (p.priority, p.paused)).collect()
}

#[test]
fn buttons_change_the_registry_and_are_answered() {
    let mut reg = two();
    let mut tell = |b: Button| {
        assert!(can_apply(&reg, &b));
        let told = apply_button(&mut reg, &b).map(|a| (a.text, a.save));
        (told, state(&reg))
    };
    let top = i64::MAX;
    assert_eq!(
        tell(Button::Toggle(s("a"))),
        (Some((s("⏸ a на паузе"), true)), vec![(4, true), (top, true)])
    );
    assert_eq!(
        tell(Button::Toggle(s("b"))),
        (Some((s("▶️ b возобновлён"), true)), vec![(4, true), (top, false)])
    );
    assert_eq!(
        tell(Button::Bump(s("a"), 1)),
        (Some((s("Приоритет a = 5"), true)), vec![(5, true), (top, false)])
    );
    assert_eq!(
        tell(Button::Bump(s("a"), -1)),
        (Some((s("Приоритет a = 4"), true)), vec![(4, true), (top, false)])
    );
    let same = vec![(4, true), (top, false)];
    let lacking = s("Ошибка: проект «x» не найден");
    assert_eq!(tell(Button::Toggle(s("x"))), (Some((lacking.clone(), false)), same.clone()));
    assert_eq!(tell(Button::Bump(s("x"), 1)), (Some((lacking, false)), same.clone()));
    assert_eq!(tell(Button::Status), (None, same.clone()));
    assert_eq!(tell(Button::Redraw(s("r"))), (None, same));
    assert!(!can_apply(&two(), &Button::Bump(s("b"), 1)));
}

#[test]
fn every_press_is_answered_once() {
    for data in [
        "m_status", "m_account", "m_usage", "m_login", "login_go", "login_cancel", "t|a", "u|a",
        "d|a", "l|a", "r|", "zzz",
    ] {
        let b = handle_callback(data);
        let changed = apply_button(&mut two(), &b);
        assert!(acknowledge(&b).is_some() != changed.is_some(), "{}", data);
        assert_eq!(button_changes_registry(&b), changed.is_some());
        assert_eq!(redraws(&b), matches!(data, "t|a" | "u|a" | "d|a" | "r|" | "zzz"), "{}", data);
    }
    assert_eq!(replacement(&Button::LoginGo).as_deref(), Some("🔐 Запускаю вход…"));
    assert_eq!(replacement(&Button::LoginCancel).as_deref(), Some("Вход отменён."));
    assert_eq!(replacement(&Button::Status), None);
}

#[test]
fn commands_change_the_registry_and_are_answered() {
    let mut reg = two();
    let mut tell = |text: &str, waiting: bool| {
        let c = handle_command(text);
        let stored = changes_registry(&c);
        let told = apply_command(&mut reg, &c, waiting).map(|a| (a.text, a.save));
        (told, stored, state(&reg))
    };
    let top = i64::MAX;
    assert_eq!(
        tell("/pause a", false),
        (Some((s("⏸ Приостановлен a"), true)), true, vec![(4, true), (top, true)])
    );
    assert_eq!(
        tell("/resume a", false),
        (Some((s("▶️ Возобновлён a"), true)), true, vec![(4, false), (top, true)])
    );
    assert_eq!(
        tell("/priority b -3", false),
        (Some((s("Приоритет b = -3"), true)), true, vec![(4, false), (-3, true)])
    );
    let same = vec![(4, false), (-3, true)];
    let lacking = s("Ошибка: проект «x» не найден");
    assert_eq!(tell("/pause x", false), (Some((lacking.clone(), false)), true, same.clone()));
    assert_eq!(tell("/priority x 1", false), (Some((lacking, false)), true, same.clone()));
    assert_eq!(
        tell("/cancel", true),
        (Some((s("Вход отменён."), false)), false, same.clone())
    );
    assert_eq!(
        tell("/cancel", false),
        (Some((s("Отменять нечего."), false)), false, same.clone())
    );
    assert_eq!(
        tell("/priority a x", false),
        (Some((s("Приоритет должен быть числом"), false)), false, same.clone())
    );
    assert_eq!(tell("/status", false), (None, false, same));
    assert_eq!(checking_text(), "⏳ Проверяю код…");
}

#[test]
fn replies_that_are_not_json_are_told_apart() {
    assert!(reply_is_json(b"{\"ok\": true}"));
    assert!(reply_is_json(b"null"));
    assert!(!reply_is_json(b"<html>"));
    assert!(!reply_is_json(b""));
}
