use autopilot_core::assistant::Assistant;
use autopilot_core::client::Client;
use autopilot_core::links::extract_linked_gids;
use autopilot_core::model::{ApiError, Attachment, Story, Task, User};
use autopilot_core::settings::Settings;

fn s(t: &str) -> String {
    t.to_string()
}

fn client() -> Client {
    Client::new(Settings {
        token: s("t"),
        workspace: s("w"),
        operator_gid: s("op"),
        operator_label: s("operator"),
        agent_gid: s("ag"),
        agent_name: s("Agent"),
        agent_label: s("agent"),
        sections: Vec::new(),
        approved: Vec::new(),
        manual_keywords: Vec::new(),
        comment_language: s("en"),
        prompt_file: s("prompt.md"),
        mismatch_comment: None,
    })
}

fn helper() -> Assistant {
    Assistant { program: s("helper"), name: s("Helper"), title: s("Helper Code") }
}

fn story(kind: &str, text: &str) -> Story {
    Story {
        resource_subtype: s(kind),
        text: s(text),
        created_at: s("2026-01-02T03:04:05Z"),
        created_by: Some(User { gid: s("1"), name: s("Gleb") }),
    }
}

#[test]
fn links_are_found_in_both_forms_and_once() {
    let text = "https://app.asana.com/0/11/22 и https://app.asana.com/1/5/project/6/task/33?x \
                и https://app.asana.com/1/5/task/44, снова app.asana.com/0/99/22, app.asana.com/0/1";
    assert_eq!(extract_linked_gids(text), vec![s("22"), s("33"), s("44")]);
    assert!(extract_linked_gids("ничего").is_empty());
}

#[test]
fn related_tasks_leave_out_the_task_and_its_subtasks() {
    let task = Task {
        gid: s("1"),
        notes: s("app.asana.com/0/9/1 app.asana.com/0/9/2"),
        ..Default::default()
    };
    let subtasks = vec![Task { gid: s("2"), ..Default::default() }];
    let stories = vec![
        story("comment_added", "app.asana.com/0/9/3"),
        story("assigned", "app.asana.com/0/9/4"),
    ];
    assert_eq!(Client::related_gids(&task, &subtasks, &stories), vec![s("3")]);
}

#[test]
fn an_empty_task_is_described() {
    let task = Task { gid: s("1"), name: s("N"), ..Default::default() };
    let text = client().build_task_context(
        &helper(), &task, "todo", Ok(Vec::new()), Ok(Vec::new()), Some(Vec::new()), &Vec::new(),
    );
    assert_eq!(
        text.unwrap(),
        "# Текущая задача\n**Название:** N\n**GID:** 1\n**Ссылка:** -\n**Секция:** todo\n\
         \n## Описание\nНет описания\n\
         \n## Сабтаски\nНет сабтасков.\n\
         \n## Комментарии (в хронологическом порядке)\nКомментариев нет.\n\
         \n## История (системные события Asana, НЕ комментарии)\n"
    );
}

#[test]
fn a_full_task_is_described() {
    let task = Task {
        gid: s("1"),
        name: s("N"),
        notes: s("D"),
        permalink_url: Some(s("http://x")),
        ..Default::default()
    };
    let subtasks = vec![
        Task {
            gid: s("2"),
            name: s("A"),
            notes: s("one\ntwo"),
            assignee: Some(User { gid: s("ag"), name: s("other name") }),
            ..Default::default()
        },
        Task {
            gid: s("3"),
            name: s("B"),
            completed: true,
            assignee: Some(User { gid: s("7"), name: s("Gleb") }),
            ..Default::default()
        },
        Task { gid: s("4"), name: s("C"), ..Default::default() },
    ];
    let stories = vec![
        story("comment_added", "app.asana.com/0/9/50 app.asana.com/0/9/51"),
        story("moved", "moved it"),
        story("moved", ""),
    ];
    let attachments = vec![Attachment { gid: s("8"), name: s("a.png"), size: 12 }];
    let found = vec![
        (s("51"), None),
        (s("52"), Some(Task { name: s("not asked for"), ..Default::default() })),
        (s("50"), Some(Task { gid: s("x"), name: s("L"), notes: s("LN"), ..Default::default() })),
    ];
    let text = client().build_task_context(
        &helper(), &task, "reopen", Ok(subtasks), Ok(stories), Some(attachments), &found,
    );
    assert_eq!(
        text.unwrap(),
        "# Текущая задача\n**Название:** N\n**GID:** 1\n**Ссылка:** http://x\n**Секция:** reopen\n\
         \n⚠️ **ЗАДАЧА ПЕРЕОТКРЫТА.** Причину ищи в НЕЗАКРЫТЫХ САБТАСКАХ и в комментариях, \
         оставленных ПОСЛЕ последнего перемещения в reopen (см. историю ниже). \
         Не выдумывай причину из связанных задач.\n\
         \n## Описание\nD\n\
         \n## Сабтаски\n\
         - [ ] 2 — «A» (исполнитель: Agent) ⚠️ ОТКРЫТА И НАЗНАЧЕНА НА ТЕБЯ — ОБЯЗАТЕЛЬНА К ВЫПОЛНЕНИЮ\n\
         \x20   one\n    two\n\
         - [x] 3 — «B» (исполнитель: Gleb)\n\
         - [ ] 4 — «C» (исполнитель: никто)\n\
         \n**ВНИМАНИЕ: 1 незакрытых сабтасков назначено на тебя. \
         Задача НЕ считается выполненной, пока они не сделаны и не закрыты \
         (`asana complete <gid>`).**\n\
         \n## Вложения\n- 8 — a.png (12 байт)\n\
         Скачать: `asana download <gid> [dir]` — затем открой файл инструментом Read \
         (картинки Helper Code видит). Ссылки вида `get_asset?asset_id=NNN` в тексте: NNN — это тот же gid, \
         качается той же командой.\n\
         \n## Комментарии (в хронологическом порядке)\n**Gleb (2026-01-02 03:04)**: app.asana.com/0/9/50 app.asana.com/0/9/51\n\n\
         \n## История (системные события Asana, НЕ комментарии)\n- 2026-01-02 03:04 Gleb: moved it\n\
         \n## Связанные задачи (ТОЛЬКО справочный контекст — это НЕ твоя задача и НЕ причина переоткрытия)\n\
         ### L (GID: 50)\nLN\n\n"
    );
}

#[test]
fn what_cannot_be_fetched_counts_only_where_it_matters() {
    let task = Task { gid: s("1"), name: s("N"), ..Default::default() };
    let why = |t: &str| ApiError(s(t));
    let tell = |subtasks, stories, attachments| {
        client().build_task_context(
            &helper(), &task, "todo", subtasks, stories, attachments, &Vec::new(),
        )
    };
    let r = tell(Err(why("a")), Err(why("b")), None);
    assert_eq!(r.map_err(|e| e.0), Err(s("a")));
    let r = tell(Ok(Vec::new()), Err(why("b")), None);
    assert_eq!(r.map_err(|e| e.0), Err(s("b")));
    let r = tell(Err(why("a")), Ok(Vec::new()), Some(Vec::new()));
    assert_eq!(r.map_err(|e| e.0), Err(s("a")));
    let lacking = tell(Ok(Vec::new()), Ok(Vec::new()), None).unwrap();
    let empty = tell(Ok(Vec::new()), Ok(Vec::new()), Some(Vec::new())).unwrap();
    assert_eq!(lacking, empty);
    assert!(!empty.contains("## Вложения"));
}

#[test]
fn a_linked_task_that_is_not_found_is_left_out() {
    let task = Task {
        gid: s("1"),
        notes: s("app.asana.com/0/9/50 app.asana.com/0/9/51"),
        ..Default::default()
    };
    let tell = |found: Vec<(String, Option<Task>)>| {
        client()
            .build_task_context(
                &helper(), &task, "todo", Ok(Vec::new()), Ok(Vec::new()), None, &found,
            )
            .unwrap()
    };
    let one = Task { name: s("L"), notes: s("LN"), ..Default::default() };
    let text = tell(vec![(s("50"), None), (s("51"), Some(one))]);
    assert!(text.ends_with("### L (GID: 51)\nLN\n\n"));
    assert!(!text.contains("GID: 50"));
}
