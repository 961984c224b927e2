use autopilot_core::client::{Client, MoveStep};
use autopilot_core::model::{Membership, Ref, Story, Task, User};
use autopilot_core::selection::{
    block_move, block_writes, handback, handbacks, judge, mentions_manual, needs_manual, queue, select_task,
    was_manually_cleared, AnswerStep, SelectStep, Verdict, Write,
};
use autopilot_core::settings::Settings;

fn s(t: &str) -> String {
    t.to_string()
}

fn settings() -> Settings {
    let section = |r: &str| (s(r), vec![s(r)]);
    Settings {
        token: s("t"),
        workspace: s("w"),
        operator_gid: s("op"),
        operator_label: s("operator"),
        agent_gid: s("ag"),
        agent_name: s("Agent"),
        agent_label: s("agent"),
        sections: vec![
            section("todo"),
            section("in_progress"),
            section("reopen"),
            section("qa"),
            section("done"),
            section("blocked"),
        ],
        approved: vec![s("todo"), s("in_progress"), s("reopen")],
        manual_keywords: vec![s("оплата")],
        comment_language: s("en"),
        prompt_file: s("prompt.md"),
        mismatch_comment: None,
    }
}

fn task(gid: &str, section: &str, due: Option<&str>) -> Task {
    Task {
        gid: s(gid),
        name: s(gid),
        assignee: Some(User { gid: s("ag"), name: s("Agent") }),
        due_on: due.map(s),
        memberships: vec![Membership {
            project: Some(Ref { gid: s("p"), name: s("P") }),
            section: Some(Ref { gid: s("x"), name: s(section) }),
        }],
        ..Default::default()
    }
}

fn story(kind: &str, author: &str, at: &str, text: &str) -> Story {
    Story {
        resource_subtype: s(kind),
        text: s(text),
        created_at: s(at),
        created_by: Some(User { gid: s("1"), name: s(author) }),
    }
}

#[test]
fn tasks_are_judged() {
    let c = Client::new(settings());
    assert!(matches!(judge(&c, &task("1", "TODO", None)), Verdict::Run(p) if p.role.as_deref() == Some("todo")));
    assert!(matches!(judge(&c, &task("1", "qa", None)), Verdict::NotApproved(_)));
    assert!(matches!(judge(&c, &task("1", "done", None)), Verdict::Skip));
    assert!(matches!(judge(&c, &task("1", "other", None)), Verdict::Mismatch(_)));
    let mut t = task("1", "todo", None);
    t.completed = true;
    assert!(matches!(judge(&c, &t), Verdict::Skip));
    let mut t = task("1", "todo", None);
    t.assignee = None;
    assert!(matches!(judge(&c, &t), Verdict::Skip));
    let mut t = task("1", "todo", None);
    t.parent = Some(Ref::default());
    assert!(matches!(judge(&c, &t), Verdict::Skip));
    let mut t = task("1", "todo", None);
    t.memberships = Vec::new();
    assert!(matches!(judge(&c, &t), Verdict::Skip));
}

#[test]
fn tasks_go_back_to_the_operator() {
    let c = Client::new(settings());
    let t = task("5", "qa", None);
    let h = handback(&c.settings, &t, &judge(&c, &t)).unwrap();
    assert_eq!(h.len(), 2);
    assert_eq!(h[0].url, "https://app.asana.com/api/1.0/tasks/5/stories");
    assert_eq!(
        h[0].body.as_deref().unwrap(),
        "{\"data\":{\"text\":\"I do not take tasks from the qa section, please move it to a working section.\"}}"
    );
    assert_eq!(h[1].url, "https://app.asana.com/api/1.0/tasks/5");
    assert_eq!(h[1].body.as_deref().unwrap(), "{\"data\":{\"assignee\":\"op\"}}");
    let t = task("5", "other", None);
    let h = handback(&c.settings, &t, &judge(&c, &t)).unwrap();
    assert!(h[0].body.as_deref().unwrap().contains("do not match the process"));
    let t = task("5", "todo", None);
    assert!(handback(&c.settings, &t, &judge(&c, &t)).is_none());
    let all = vec![task("1", "todo", None), task("2", "qa", None), task("3", "done", None), task("4", "x", None)];
    let places: Vec<usize> = handbacks(&c, &all).iter().map(|h| h.0).collect();
    assert_eq!(places, vec![1, 3]);
}

#[test]
fn the_queue_goes_by_urgency() {
    let c = Client::new(settings());
    let tasks = vec![
        task("0", "todo", None),
        task("1", "reopen", None),
        task("2", "todo", Some("2026-03-01")),
        task("3", "todo", Some("2026-01-01")),
        task("4", "in_progress", None),
        task("5", "todo", Some("2027-01-01")),
        task("6", "qa", None),
        task("7", "todo", Some("2026-01-01")),
        task("3", "todo", None),
        task("8", "todo", Some("2026-03-02")),
    ];
    assert_eq!(queue(&c, &tasks, "2026-03-01"), vec![4, 3, 7, 2, 1, 0, 5, 9]);
    assert_eq!(queue(&c, &Vec::new(), "2026-03-01"), Vec::<usize>::new());
}

#[test]
fn manual_work_is_noticed() {
    let st = settings();
    let mut t = task("1", "todo", None);
    assert!(!needs_manual(&st, &t));
    t.notes = s("Нужна ОПЛАТА счёта");
    assert!(needs_manual(&st, &t));
    assert!(mentions_manual(&vec![s("b")], "abc"));
    assert!(!mentions_manual(&Vec::new(), "abc"));
}

#[test]
fn blocks_are_cleared_by_somebody_else_later() {
    let st = settings();
    let block = story("comment_added", "Agent", "2026-01-02", st.msg_manual());
    assert!(!was_manually_cleared(&st, None));
    assert!(!was_manually_cleared(&st, Some(&vec![])));
    assert!(!was_manually_cleared(&st, Some(&vec![block.clone()])));
    let early = story("comment_added", "Gleb", "2026-01-01", "x");
    assert!(!was_manually_cleared(&st, Some(&vec![early.clone(), block.clone()])));
    let later = story("assigned", "Gleb", "2026-01-03", "x");
    assert!(was_manually_cleared(&st, Some(&vec![block.clone(), later.clone()])));
    let own = story("comment_added", "Agent", "2026-01-03", "x");
    assert!(!was_manually_cleared(&st, Some(&vec![block.clone(), own])));
    let again = story("comment_added", "Agent", "2026-01-04", st.msg_manual());
    assert!(!was_manually_cleared(&st, Some(&vec![again, block, later.clone()])));
    assert!(!was_manually_cleared(&st, Some(&vec![later])));
}

#[test]
fn the_first_free_task_is_taken() {
    let c = Client::new(settings());
    let mut manual = task("1", "in_progress", None);
    manual.notes = s("оплата");
    let tasks = vec![task("2", "todo", None), manual];
    let mut sel = select_task(&c, tasks.clone(), "2026-01-01");
    match sel.next(&c) {
        SelectStep::Ask(i, r) => {
            assert_eq!(i, 1);
            assert!(r.url.contains("/tasks/1/stories?"));
        }
        other => panic!("{:?}", other),
    }
    match sel.answer(&c, None) {
        AnswerStep::Block(i, w, p) => {
            assert_eq!(i, 1);
            assert_eq!(w.len(), 3);
            assert_eq!(p.project_gid, "p");
        }
        other => panic!("{:?}", other),
    }
    assert!(matches!(sel.next(&c), SelectStep::Take(0, _)));

    let mut sel = select_task(&c, tasks, "2026-01-01");
    let history = vec![
        story("comment_added", "Agent", "2026-01-02", c.settings.msg_manual()),
        story("comment_added", "Gleb", "2026-01-03", "done"),
    ];
    assert!(matches!(sel.answer(&c, Some(&history)), AnswerStep::Take(1, _)));
    let empty = select_task(&c, Vec::new(), "2026-01-01");
    assert!(matches!(empty.next(&c), SelectStep::Nothing));
}

#[test]
fn a_task_is_blocked_by_three_writes_in_order() {
    let mut c = Client::new(settings());
    let t = task("7", "todo", None);
    let p = c.approved_placement(&t).unwrap();
    match block_move(&c, &t, &p) {
        MoveStep::Fetch(r) => assert!(r.url.contains("/projects/p/sections?")),
        other => panic!("{:?}", other),
    }
    let section = |gid: &str, name: &str| Ref { gid: s(gid), name: s(name) };
    c.store_sections("p", vec![section("30", "todo"), section("31", " Blocked ")]);
    let w = block_writes(&c, &t, &p);
    assert_eq!(w.len(), 3);
    match (&w[0], &w[1], &w[2]) {
        (Write::Send(comment), Write::Send(assign), Write::Move(MoveStep::Send(into))) => {
            assert_eq!(comment.url, "https://app.asana.com/api/1.0/tasks/7/stories");
            assert!(comment.body.as_deref().unwrap().contains("mentions manual actions"));
            assert_eq!(assign.url, "https://app.asana.com/api/1.0/tasks/7");
            assert_eq!(assign.body.as_deref(), Some("{\"data\":{\"assignee\":\"op\"}}"));
            assert_eq!(into.url, "https://app.asana.com/api/1.0/sections/31/addTask");
            assert_eq!(into.body.as_deref(), Some("{\"data\":{\"task\":\"7\"}}"));
        }
        other => panic!("{:?}", other),
    }
    let mut lacking = settings();
    lacking.sections.retain(|x| x.0 != "blocked");
    match block_move(&Client::new(lacking), &t, &p) {
        MoveStep::Failed(e) => {
            assert_eq!(e.0, "роль 'blocked' не описана в autopilot.yaml (sections)")
        }
        other => panic!("{:?}", other),
    }
}

#[test]
fn only_what_is_passed_over_is_blocked() {
    let c = Client::new(settings());
    let hard = |gid: &str, section: &str| Task { notes: s("Оплата"), ..task(gid, section, None) };
    let tasks = vec![hard("1", "todo"), task("2", "reopen", None), hard("3", "in_progress")];
    let mut sel = select_task(&c, tasks, "2026-01-01");
    let mut blocked = Vec::new();
    let taken = loop {
        match sel.next(&c) {
            SelectStep::Nothing => panic!("nothing"),
            SelectStep::Take(i, _) => break i,
            SelectStep::Ask(_, _) => match sel.answer(&c, None) {
                AnswerStep::Take(i, _) => break i,
                AnswerStep::Block(i, _, _) => blocked.push(i),
            },
        }
    };
    assert_eq!(taken, 1);
    assert_eq!(blocked, vec![2]);
}

#[test]
fn tasks_of_one_kind_keep_their_order() {
    let c = Client::new(settings());
    let d = Some("2026-01-01");
    let tasks = vec![
        task("1", "todo", None),
        task("2", "todo", d),
        task("3", "reopen", None),
        task("4", "todo", d),
        task("5", "reopen", None),
        task("6", "todo", None),
    ];
    assert_eq!(queue(&c, &tasks, "2026-03-01"), vec![1, 3, 2, 4, 0, 5]);
}
