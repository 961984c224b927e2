use autopilot_core::client::{Client, MoveStep, Reply, RequestStep, SectionStep, SectionsStep};
use autopilot_core::model::{Membership, Ref, Story, Task, User};
use autopilot_core::settings::{
    default_agent_label, default_language, default_operator_label, default_prompt_file,
    default_token_env, DirProbe, RawAgent, RawAsana, RawHeuristics, RawNames, RawOperator,
    RawRoles, RawSettings, Settings,
};

fn s(t: &str) -> String {
    t.to_string()
}

fn raw(language: &str) -> RawSettings {
    RawSettings {
        asana: RawAsana { token_env: default_token_env(), workspace: s("77") },
        roles: RawRoles {
            operator: RawOperator { gid: s("op"), label: default_operator_label() },
            agent: RawAgent { gid: s("ag"), name: s("Agent"), label: default_agent_label() },
        },
        sections: vec![
            (s("todo"), RawNames::Many(vec![s(" To Do "), s("К выполнению")])),
            (s("in_progress"), RawNames::One(s("In Progress"))),
            (s("qa"), RawNames::One(s("QA"))),
        ],
        approved: vec![s("todo"), s("in_progress")],
        heuristics: RawHeuristics {
            manual_keywords: vec![s("ОПЛАТА")],
            comment_language: s(language),
        },
        prompt_file: default_prompt_file(),
        mismatch_comment: None,
    }
}

fn settings(language: &str) -> Settings {
    Settings::load_from(raw(language), Some(s("tok"))).unwrap()
}

fn at(project: &str, section: &str) -> Membership {
    Membership {
        project: Some(Ref { gid: s(project), name: s("Board") }),
        section: Some(Ref { gid: s("x"), name: s(section) }),
    }
}

fn secs() -> Vec<Ref> {
    vec![
        Ref { gid: s("s1"), name: s("к ВЫПОЛНЕНИЮ ") },
        Ref { gid: s("s2"), name: s("TO DO") },
        Ref { gid: s("s3"), name: s("Other") },
    ]
}

#[test]
fn settings_keep_names_in_lower_case() {
    let st = settings("en");
    assert_eq!(st.token, "tok");
    assert_eq!(st.sections[0].1, vec![s("to do"), s("к выполнению")]);
    assert_eq!(st.manual_keywords, vec![s("оплата")]);
    assert_eq!(st.prompt_file, "prompt.md");
    assert_eq!(default_language(), "en");
}

#[test]
fn settings_need_the_token() {
    let e = Settings::load_from(raw("en"), None).unwrap_err();
    assert_eq!(e.0, "переменная окружения ASANA_ACCESS_TOKEN не задана (Asana-токен)");
}

#[test]
fn settings_are_found_upwards() {
    let probes = vec![
        DirProbe { dir: s("/a/b"), nested: false, flat: false },
        DirProbe { dir: s("/a"), nested: true, flat: true },
    ];
    assert_eq!(Settings::find_dir(None, &probes).unwrap(), "/a/autopilot");
    assert_eq!(Settings::find_dir(Some(s("/env")), &probes).unwrap(), "/env");
    let flat = vec![DirProbe { dir: s("/a"), nested: false, flat: true }];
    assert_eq!(Settings::find_dir(None, &flat).unwrap(), "/a");
    let e = Settings::find_dir(None, &Vec::new()).unwrap_err();
    assert!(e.0.starts_with("autopilot.yaml не найден"));
}

#[test]
fn sections_have_roles_by_name_in_any_case() {
    let st = settings("en");
    assert_eq!(st.role_of_section_name("  TO do"), Some("todo"));
    assert_eq!(st.role_of_section_name("К ВЫПОЛНЕНИЮ"), Some("todo"));
    assert_eq!(st.role_of_section_name("Elsewhere"), None);
    assert!(st.is_approved("todo"));
    assert!(!st.is_approved("qa"));
}

#[test]
fn messages_follow_the_language() {
    let ru = settings("RU");
    let en = settings("en");
    assert!(ru.is_russian());
    assert!(!en.is_russian());
    assert!(ru.msg_manual().contains(ru.manual_marker()));
    assert!(en.msg_manual().contains(en.manual_marker()));
    assert_eq!(
        en.msg_not_approved("QA"),
        "I do not take tasks from the QA section, please move it to a working section."
    );
    assert_eq!(
        ru.msg_not_approved("QA"),
        "Не беру задачи из секции QA, переместите её в одну из рабочих секций."
    );
    assert_eq!(
        en.msg_mismatch(),
        "The sections in this project do not match the process; the task cannot be handled."
    );
    assert_eq!(
        ru.msg_mismatch(),
        "Секции в текущем проекте не соответствуют процессу, задача не может быть выполнена."
    );
    let mut own = settings("ru");
    own.mismatch_comment = Some(s("нет"));
    assert_eq!(own.msg_mismatch(), "нет");
}

#[test]
fn requests_are_built_exactly() {
    let c = Client::new(settings("en"));
    assert_eq!(c.authorization(), "Bearer tok");
    let r = Client::add_comment("5", "a\"b\\\n\u{1}я");
    assert_eq!(r.method, "POST");
    assert_eq!(r.url, "https://app.asana.com/api/1.0/tasks/5/stories");
    assert_eq!(r.body.unwrap(), "{\"data\":{\"text\":\"a\\\"b\\\\\\n\\u0001я\"}}");
    let r = Client::set_assignee("5", None);
    assert_eq!(r.method, "PUT");
    assert_eq!(r.body.unwrap(), "{\"data\":{\"assignee\":null}}");
    let r = Client::set_assignee("5", Some("9"));
    assert_eq!(r.body.unwrap(), "{\"data\":{\"assignee\":\"9\"}}");
    let r = Client::set_completed("5", true);
    assert_eq!(r.url, "https://app.asana.com/api/1.0/tasks/5");
    assert_eq!(r.body.unwrap(), "{\"data\":{\"completed\":true}}");
    assert_eq!(Client::set_completed("5", false).body.unwrap(), "{\"data\":{\"completed\":false}}");
    let r = Client::move_to_section("5", "s");
    assert_eq!(r.url, "https://app.asana.com/api/1.0/sections/s/addTask");
    assert_eq!(r.body.unwrap(), "{\"data\":{\"task\":\"5\"}}");
    let r = Client::create_subtask("1", "n", "t", Some("a"));
    assert_eq!(r.url, "https://app.asana.com/api/1.0/tasks/1/subtasks");
    assert_eq!(
        r.body.unwrap(),
        "{\"data\":{\"assignee\":\"a\",\"name\":\"n\",\"notes\":\"t\"}}"
    );
    let r = Client::create_subtask("1", "n", "", None);
    assert_eq!(r.body.unwrap(), "{\"data\":{\"name\":\"n\",\"notes\":\"\"}}");
    let r = c.get_assigned_tasks();
    assert_eq!(r.method, "GET");
    assert!(r.body.is_none());
    assert!(r.url.starts_with("https://app.asana.com/api/1.0/tasks?assignee=ag&workspace=77&completed_since=now&limit=100&opt_fields=name,"));
    assert!(Client::get_task("5").url.starts_with("https://app.asana.com/api/1.0/tasks/5?opt_fields=name,notes,"));
    assert!(Client::get_subtasks("5").url.contains("/tasks/5/subtasks?limit=100&"));
    assert!(Client::get_stories("5").url.contains("/tasks/5/stories?limit=100&"));
    assert!(Client::get_attachments("5").url.ends_with("/tasks/5/attachments?opt_fields=name,size,resource_subtype"));
    assert!(Client::attachment_download_url("6").url.ends_with("/attachments/6?opt_fields=name,download_url"));
}

#[test]
fn bodies_are_json_that_reads_back() {
    let text = "кавычка \" и \\ и \u{7} и \t";
    let body = Client::add_comment("5", text).body.unwrap();
    let v: serde_json::Value = serde_json::from_str(&body).unwrap();
    assert_eq!(v["data"]["text"].as_str(), Some(text));
}

#[test]
fn replies_are_read() {
    let page = b"{\"data\":[],\"next_page\":{\"uri\":\"https://next\"}}";
    assert_eq!(Client::next_page(page).unwrap().url, "https://next");
    assert!(Client::next_page(b"{\"data\":[],\"next_page\":null}").is_none());
    assert_eq!(Client::created_gid(b"{\"data\":{\"gid\":\"12\"}}"), "12");
    assert_eq!(Client::created_gid(b"{\"data\":{}}"), "");
    let (name, url) =
        Client::attachment_source(b"{\"data\":{\"name\":\"a.png\",\"download_url\":\"u\"}}", "6").unwrap();
    assert_eq!((name.as_str(), url.as_str()), ("a.png", "u"));
    let (name, _) = Client::attachment_source(b"{\"data\":{\"download_url\":\"u\"}}", "6").unwrap();
    assert_eq!(name, "attachment");
    let e = Client::attachment_source(b"{\"data\":{\"name\":\"a\"}}", "6").unwrap_err();
    assert_eq!(e.0, "attachment 6 has no download_url");
    assert_eq!(Client::download_attachment("6", "a.png", "dir"), "dir/6-a.png");
}

#[test]
fn requests_are_tried_again_only_where_it_helps() {
    let net = || Reply::Network(s("down"));
    assert!(matches!(Client::request(0, "u", net()), RequestStep::Retry(5)));
    assert!(matches!(Client::request(1, "u", net()), RequestStep::Retry(10)));
    match Client::request(2, "u", net()) {
        RequestStep::Failed(e) => assert_eq!(e.0, "network error for u: down"),
        other => panic!("{:?}", other),
    }
    assert!(matches!(Client::request(0, "u", Reply::Status(429, s(""))), RequestStep::Retry(5)));
    assert!(matches!(Client::request(0, "u", Reply::Status(503, s(""))), RequestStep::Retry(5)));
    match Client::request(0, "u", Reply::Status(404, s("nope"))) {
        RequestStep::Failed(e) => assert_eq!(e.0, "HTTP 404 from u: nope"),
        other => panic!("{:?}", other),
    }
    match Client::request(0, "u", Reply::Success(b"{\"a\":1}".to_vec())) {
        RequestStep::Done(b) => assert_eq!(b, b"{\"a\":1}".to_vec()),
        other => panic!("{:?}", other),
    }
    match Client::request(0, "u", Reply::Success(b"<html>".to_vec())) {
        RequestStep::Failed(e) => assert_eq!(
            e.0,
            "bad json from u: Failed to read JSON: expected value at line 1 column 1"
        ),
        other => panic!("{:?}", other),
    }
    match Client::request(0, "u", Reply::Success(b"{\"a\":1e999}".to_vec())) {
        RequestStep::Failed(e) => assert_eq!(
            e.0,
            "bad json from u: Failed to read JSON: number out of range at line 1 column 11"
        ),
        other => panic!("{:?}", other),
    }
}

#[test]
fn sections_are_resolved_from_the_store() {
    let mut c = Client::new(settings("en"));
    match c.resolve_section_gid("p", "todo") {
        SectionStep::Fetch(r) => assert_eq!(
            r.url,
            "https://app.asana.com/api/1.0/projects/p/sections?opt_fields=name&limit=100"
        ),
        other => panic!("{:?}", other),
    }
    c.store_sections("p", secs());
    assert!(matches!(c.project_sections("p"), SectionsStep::Known(v) if v.len() == 3));
    assert!(matches!(c.project_sections("q"), SectionsStep::Fetch(_)));
    // The first name of the role counts, not the first section.
    match c.resolve_section_gid("p", "todo") {
        SectionStep::Found(g) => assert_eq!(g, "s2"),
        other => panic!("{:?}", other),
    }
    match c.resolve_section_gid("p", "qa") {
        SectionStep::Failed(e) => assert_eq!(
            e.0,
            "в проекте p нет секции для роли 'qa' (искал имена: [\"qa\"])"
        ),
        other => panic!("{:?}", other),
    }
    match c.resolve_section_gid("p", "nope") {
        SectionStep::Failed(e) => {
            assert_eq!(e.0, "роль 'nope' не описана в autopilot.yaml (sections)")
        }
        other => panic!("{:?}", other),
    }
    match c.move_task_to_role("5", "p", "todo") {
        MoveStep::Send(r) => {
            assert_eq!(r.url, "https://app.asana.com/api/1.0/sections/s2/addTask");
            assert_eq!(r.body.unwrap(), "{\"data\":{\"task\":\"5\"}}");
        }
        other => panic!("{:?}", other),
    }
    assert!(matches!(c.move_task_to_role("5", "q", "todo"), MoveStep::Fetch(_)));
    assert!(matches!(c.move_task_to_role("5", "p", "qa"), MoveStep::Failed(_)));
}

#[test]
fn the_governing_place_has_a_role_where_there_is_one() {
    let c = Client::new(settings("en"));
    let mut t = Task { memberships: vec![at("p1", "Elsewhere"), at("p2", "QA"), at("p3", "to do")], ..Default::default() };
    let p = c.placement(&t).unwrap();
    assert_eq!((p.project_gid.as_str(), p.role.as_deref()), ("p2", Some("qa")));
    let p = c.approved_placement(&t).unwrap();
    assert_eq!((p.project_gid.as_str(), p.role.as_deref()), ("p3", Some("todo")));
    assert_eq!(c.task_section_label(&t), "qa");
    t.memberships = vec![at("p1", "Elsewhere")];
    let p = c.placement(&t).unwrap();
    assert_eq!((p.project_gid.as_str(), p.role), ("p1", None));
    assert!(c.approved_placement(&t).is_none());
    assert_eq!(c.task_section_label(&t), "Elsewhere");
    t.memberships = vec![Membership { project: Some(Ref::default()), section: None }];
    assert_eq!(c.task_section_label(&t), "?");
    t.memberships = vec![Membership { project: None, section: Some(Ref { gid: s("x"), name: s("QA") }) }];
    assert!(c.placement(&t).is_none());
    assert_eq!(c.task_section_label(&t), "?");
}

#[test]
fn stories_have_authors_and_dates() {
    let mut st = Story { created_at: s("2026-07-21T22:54:03.000Z"), ..Default::default() };
    assert_eq!(st.short_date(), "2026-07-21 22:54");
    assert_eq!(st.author(), "Unknown");
    st.created_by = Some(User { gid: s("1"), name: s("") });
    assert_eq!(st.author(), "Unknown");
    st.created_by = Some(User { gid: s("1"), name: s("Gleb") });
    assert_eq!(st.author(), "Gleb");
    assert!(!st.is_comment());
    st.resource_subtype = s("comment_added");
    assert!(st.is_comment());
}

#[test]
fn tasks_have_assignees_and_parents() {
    let mut t = Task::default();
    assert_eq!(t.assignee_gid(), None);
    assert!(!t.is_subtask());
    t.assignee = Some(User { gid: s("ag"), name: s("") });
    t.parent = Some(Ref::default());
    assert_eq!(t.assignee_gid(), Some("ag"));
    assert!(t.is_assigned_to("ag"));
    assert!(t.is_subtask());
}
