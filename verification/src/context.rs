//! The description of a task that a coding session is given.

use crate::assistant::Assistant;
use crate::client::Client;
use crate::decimal::{dec, dec_u64};
use crate::links::{extract_linked_gids, law_gids_distinct_and_complete, linked_gids};
use crate::model::{short_stamp, ApiError, Attachment, Story, Task};
use crate::outside::{regex_matches, LINK_PATTERN};
use crate::settings::Settings;
use crate::text::{joined, lines, lines_of, text_eq, texts};
use vstd::prelude::*;
use vstd::string::*;

verus! {

pub const REOPENED: &'static str =
    "\n⚠️ **ЗАДАЧА ПЕРЕОТКРЫТА.** Причину ищи в НЕЗАКРЫТЫХ САБТАСКАХ и в комментариях, оставленных ПОСЛЕ последнего перемещения в reopen (см. историю ниже). Не выдумывай причину из связанных задач.\n";

pub const MANDATORY: &'static str =
    " ⚠️ ОТКРЫТА И НАЗНАЧЕНА НА ТЕБЯ — ОБЯЗАТЕЛЬНА К ВЫПОЛНЕНИЮ";

pub const OPEN_SUBTASKS: &'static str =
    " незакрытых сабтасков назначено на тебя. Задача НЕ считается выполненной, пока они не сделаны и не закрыты (`asana complete <gid>`).**\n";

pub const HOW_TO_DOWNLOAD: &'static str =
    "Скачать: `asana download <gid> [dir]` — затем открой файл инструментом Read (картинки ";

pub const WHAT_LINKS_MEAN: &'static str =
    " видит). Ссылки вида `get_asset?asset_id=NNN` в тексте: NNN — это тот же gid, качается той же командой.\n";

pub const LINKED_HEADING: &'static str =
    "\n## Связанные задачи (ТОЛЬКО справочный контекст — это НЕ твоя задача и НЕ причина переоткрытия)\n";

/// The heading: name, gid, link and section; a warning where the task was reopened.
pub open spec fn heading(task: Task, section: Seq<char>) -> Seq<char> {
    let link = match task.permalink_url {
        Some(url) => url@,
        None => "-"@,
    };
    let head = "# Текущая задача\n**Название:** "@ + task.name@ + "\n**GID:** "@ + task.gid@
        + "\n**Ссылка:** "@ + link + "\n**Секция:** "@ + section + "\n"@;
    if section == "reopen"@ {
        head + REOPENED@
    } else {
        head
    }
}

fn heading_of(task: &Task, section: &str) -> (r: String)
    ensures
        r@ == heading(*task, section@),
{
    let mut out = "# Текущая задача\n**Название:** ".to_owned();
    out.append(task.name.as_str());
    out.append("\n**GID:** ");
    out.append(task.gid.as_str());
    out.append("\n**Ссылка:** ");
    match &task.permalink_url {
        Some(url) => {
            out.append(url.as_str());
        },
        None => {
            out.append("-");
        },
    }
    out.append("\n**Секция:** ");
    out.append(section);
    out.append("\n");
    if text_eq(section, "reopen") {
        out.append(REOPENED);
    }
    out
}

/// The description of the task.
pub open spec fn notes_part(task: Task) -> Seq<char> {
    let notes = if task.notes@.len() == 0 {
        "Нет описания"@
    } else {
        task.notes@
    };
    "\n## Описание\n"@ + notes + "\n"@
}

fn notes_part_of(task: &Task) -> (r: String)
    ensures
        r@ == notes_part(*task),
{
    let mut out = "\n## Описание\n".to_owned();
    if task.notes.as_str().is_empty() {
        out.append("Нет описания");
    } else {
        out.append(task.notes.as_str());
    }
    out.append("\n");
    out
}

/// Whether a subtask is open and assigned to the agent.
pub open spec fn waits_for(agent: Seq<char>, st: Task) -> bool {
    !st.completed && st.assignee_text() == Some(agent)
}

/// How many of the first `n` subtasks wait for the agent.
pub open spec fn waiting(agent: Seq<char>, subtasks: Seq<Task>, n: int) -> nat
    decreases n,
{
    if n <= 0 {
        0
    } else {
        waiting(agent, subtasks, n - 1) + if waits_for(agent, subtasks[n - 1]) {
            1nat
        } else {
            0nat
        }
    }
}

/// The first `n` lines, each indented.
pub open spec fn indented(lines: Seq<Seq<char>>, n: int) -> Seq<char>
    decreases n,
{
    if n <= 0 {
        Seq::empty()
    } else {
        indented(lines, n - 1) + ("    "@ + lines[n - 1] + "\n"@)
    }
}

/// The executor of a subtask by name; the agent by the name that the settings give.
pub open spec fn executor(s: Settings, st: Task) -> Seq<char> {
    match st.assignee {
        Some(a) => if a.gid@ == s.agent_gid@ {
            s.agent_name@
        } else {
            a.name@
        },
        None => "никто"@,
    }
}

/// A subtask: a line of its own, then its description.
pub open spec fn subtask_entry(s: Settings, st: Task) -> Seq<char> {
    let mark = if st.completed {
        "x"@
    } else {
        " "@
    };
    let flag = if waits_for(s.agent_gid@, st) {
        MANDATORY@
    } else {
        ""@
    };
    "- ["@ + mark + "] "@ + st.gid@ + " — «"@ + st.name@ + "» (исполнитель: "@ + executor(s, st)
        + ")"@ + flag + "\n"@ + indented(lines_of(st.notes@), lines_of(st.notes@).len() as int)
}

fn subtask_entry_of(s: &Settings, st: &Task) -> (r: String)
    ensures
        r@ == subtask_entry(*s, *st),
{
    let mut out = "- [".to_owned();
    if st.completed {
        out.append("x");
    } else {
        out.append(" ");
    }
    out.append("] ");
    out.append(st.gid.as_str());
    out.append(" — «");
    out.append(st.name.as_str());
    out.append("» (исполнитель: ");
    match &st.assignee {
        Some(a) => {
            if text_eq(a.gid.as_str(), s.agent_gid.as_str()) {
                out.append(s.agent_name.as_str());
            } else {
                out.append(a.name.as_str());
            }
        },
        None => {
            out.append("никто");
        },
    }
    out.append(")");
    if !st.completed && st.is_assigned_to(s.agent_gid.as_str()) {
        out.append(MANDATORY);
    } else {
        out.append("");
    }
    out.append("\n");
    let notes = lines(st.notes.as_str());
    let ghost found = lines_of(st.notes@);
    let mut body = String::new();
    let mut i: usize = 0;
    while i < notes.len()
        invariant
            i <= notes@.len(),
            texts(notes@) == found,
            body@ == indented(found, i as int),
        decreases notes@.len() - i,
    {
        let mut line = "    ".to_owned();
        line.append(notes[i].as_str());
        line.append("\n");
        assert(notes@[i as int]@ == found[i as int]);
        body.append(line.as_str());
        i += 1;
    }
    out.append(body.as_str());
    out
}

/// The first `n` subtasks.
pub open spec fn subtask_entries(s: Settings, subtasks: Seq<Task>, n: int) -> Seq<char>
    decreases n,
{
    if n <= 0 {
        Seq::empty()
    } else {
        subtask_entries(s, subtasks, n - 1) + subtask_entry(s, subtasks[n - 1])
    }
}

/// The subtasks, and a warning where some of them wait for the agent.
pub open spec fn subtasks_part(s: Settings, subtasks: Seq<Task>) -> Seq<char> {
    let n = subtasks.len() as int;
    let open = waiting(s.agent_gid@, subtasks, n);
    let warning = if open > 0 {
        "\n**ВНИМАНИЕ: "@ + dec(open as int) + OPEN_SUBTASKS@
    } else {
        ""@
    };
    if n == 0 {
        "\n## Сабтаски\n"@ + "Нет сабтасков.\n"@
    } else {
        "\n## Сабтаски\n"@ + subtask_entries(s, subtasks, n) + warning
    }
}

fn subtasks_part_of(s: &Settings, subtasks: &Vec<Task>) -> (r: String)
    ensures
        r@ == subtasks_part(*s, subtasks@),
{
    let mut out = "\n## Сабтаски\n".to_owned();
    if subtasks.len() == 0 {
        out.append("Нет сабтасков.\n");
        return out;
    }
    let mut open: usize = 0;
    let mut body = String::new();
    let mut i: usize = 0;
    while i < subtasks.len()
        invariant
            i <= subtasks@.len(),
            open <= i,
            open == waiting(s.agent_gid@, subtasks@, i as int),
            body@ == subtask_entries(*s, subtasks@, i as int),
        decreases subtasks@.len() - i,
    {
        let st = &subtasks[i];
        body.append(subtask_entry_of(s, st).as_str());
        if !st.completed && st.is_assigned_to(s.agent_gid.as_str()) {
            open += 1;
        }
        i += 1;
    }
    out.append(body.as_str());
    if open > 0 {
        let mut warning = "\n**ВНИМАНИЕ: ".to_owned();
        warning.append(dec_u64(open as u64).as_str());
        warning.append(OPEN_SUBTASKS);
        out.append(warning.as_str());
    } else {
        out.append("");
    }
    out
}

/// The first `n` attachments, a line each.
pub open spec fn attachment_lines(attachments: Seq<Attachment>, n: int) -> Seq<char>
    decreases n,
{
    if n <= 0 {
        Seq::empty()
    } else {
        let a = attachments[n - 1];
        attachment_lines(attachments, n - 1) + ("- "@ + a.gid@ + " — "@ + a.name@ + " ("@ + dec(
            a.size as int,
        ) + " байт)\n"@)
    }
}

/// The attachments and how to fetch them.
pub open spec fn attachments_part(a: Assistant, attachments: Seq<Attachment>) -> Seq<char> {
    if attachments.len() == 0 {
        ""@
    } else {
        "\n## Вложения\n"@ + attachment_lines(attachments, attachments.len() as int)
            + HOW_TO_DOWNLOAD@ + a.title@ + WHAT_LINKS_MEAN@
    }
}

fn attachments_part_of(a: &Assistant, attachments: &Vec<Attachment>) -> (r: String)
    ensures
        r@ == attachments_part(*a, attachments@),
{
    if attachments.len() == 0 {
        return "".to_owned();
    }
    let mut body = String::new();
    let mut i: usize = 0;
    while i < attachments.len()
        invariant
            i <= attachments@.len(),
            body@ == attachment_lines(attachments@, i as int),
        decreases attachments@.len() - i,
    {
        let item = &attachments[i];
        let mut line = "- ".to_owned();
        line.append(item.gid.as_str());
        line.append(" — ");
        line.append(item.name.as_str());
        line.append(" (");
        line.append(dec_u64(item.size).as_str());
        line.append(" байт)\n");
        body.append(line.as_str());
        i += 1;
    }
    let mut out = "\n## Вложения\n".to_owned();
    out.append(body.as_str());
    out.append(HOW_TO_DOWNLOAD);
    out.append(a.title.as_str());
    out.append(WHAT_LINKS_MEAN);
    out
}

/// The comments among the first `n` stories.
pub open spec fn comment_entries(stories: Seq<Story>, n: int) -> Seq<char>
    decreases n,
{
    if n <= 0 {
        Seq::empty()
    } else {
        let s = stories[n - 1];
        if s.comment() {
            comment_entries(stories, n - 1) + ("**"@ + s.author_text() + " ("@ + short_stamp(
                s.created_at@,
            ) + ")**: "@ + s.text@ + "\n\n"@)
        } else {
            comment_entries(stories, n - 1)
        }
    }
}

/// Whether there is a comment among the stories.
pub open spec fn has_comment(stories: Seq<Story>) -> bool {
    exists|i: int| 0 <= i < stories.len() && (#[trigger] stories[i]).comment()
}

/// The comments, in the order of the stories.
pub open spec fn comments_part(stories: Seq<Story>) -> Seq<char> {
    "\n## Комментарии (в хронологическом порядке)\n"@ + if has_comment(stories) {
        comment_entries(stories, stories.len() as int)
    } else {
        "Комментариев нет.\n"@
    }
}

fn comments_part_of(stories: &Vec<Story>) -> (r: String)
    ensures
        r@ == comments_part(stories@),
{
    let mut any = false;
    let mut body = String::new();
    let mut i: usize = 0;
    while i < stories.len()
        invariant
            i <= stories@.len(),
            any == (exists|k: int| 0 <= k < i && (#[trigger] stories@[k]).comment()),
            body@ == comment_entries(stories@, i as int),
        decreases stories@.len() - i,
    {
        let s = &stories[i];
        if s.is_comment() {
            any = true;
            let mut entry = "**".to_owned();
            entry.append(s.author());
            entry.append(" (");
            entry.append(s.short_date().as_str());
            entry.append(")**: ");
            entry.append(s.text.as_str());
            entry.append("\n\n");
            body.append(entry.as_str());
            assert(stories@[i as int].comment());
        }
        i += 1;
    }
    let mut out = "\n## Комментарии (в хронологическом порядке)\n".to_owned();
    if any {
        out.append(body.as_str());
    } else {
        out.append("Комментариев нет.\n");
    }
    out
}

/// The events with a text among the first `n` stories, a line each.
pub open spec fn event_lines(stories: Seq<Story>, n: int) -> Seq<char>
    decreases n,
{
    if n <= 0 {
        Seq::empty()
    } else {
        let s = stories[n - 1];
        if !s.comment() && s.text@.len() > 0 {
            event_lines(stories, n - 1) + ("- "@ + short_stamp(s.created_at@) + " "@
                + s.author_text() + ": "@ + s.text@ + "\n"@)
        } else {
            event_lines(stories, n - 1)
        }
    }
}

/// The events of the system.
pub open spec fn history_part(stories: Seq<Story>) -> Seq<char> {
    "\n## История (системные события Asana, НЕ комментарии)\n"@ + event_lines(
        stories,
        stories.len() as int,
    )
}

fn history_part_of(stories: &Vec<Story>) -> (r: String)
    ensures
        r@ == history_part(stories@),
{
    let mut body = String::new();
    let mut i: usize = 0;
    while i < stories.len()
        invariant
            i <= stories@.len(),
            body@ == event_lines(stories@, i as int),
        decreases stories@.len() - i,
    {
        let s = &stories[i];
        if !s.is_comment() && !s.text.as_str().is_empty() {
            let mut line = "- ".to_owned();
            line.append(s.short_date().as_str());
            line.append(" ");
            line.append(s.author());
            line.append(": ");
            line.append(s.text.as_str());
            line.append("\n");
            body.append(line.as_str());
        }
        i += 1;
    }
    let mut out = "\n## История (системные события Asana, НЕ комментарии)\n".to_owned();
    out.append(body.as_str());
    out
}

/// The description of a task followed by the comments among the first `n` stories, a line each:
/// the text in which links are looked for.
pub open spec fn searched(notes: Seq<char>, stories: Seq<Story>, n: int) -> Seq<char>
    decreases n,
{
    if n <= 0 {
        notes
    } else if stories[n - 1].comment() {
        searched(notes, stories, n - 1) + "\n"@ + stories[n - 1].text@
    } else {
        searched(notes, stories, n - 1)
    }
}

/// Whether `gid` is the gid of a subtask.
pub open spec fn subtask_gid(subtasks: Seq<Task>, gid: Seq<char>) -> bool {
    exists|i: int| 0 <= i < subtasks.len() && (#[trigger] subtasks[i]).gid@ == gid
}

/// The first `n` of the gids, without the task itself and its subtasks.
pub open spec fn foreign(task: Task, subtasks: Seq<Task>, gids: Seq<Seq<char>>, n: int) -> Seq<
    Seq<char>,
>
    decreases n,
{
    if n <= 0 {
        Seq::empty()
    } else if gids[n - 1] == task.gid@ || subtask_gid(subtasks, gids[n - 1]) {
        foreign(task, subtasks, gids, n - 1)
    } else {
        foreign(task, subtasks, gids, n - 1).push(gids[n - 1])
    }
}

/// The gids of the tasks to which a task links: those in its description and its comments,
/// without the task itself and its subtasks.
pub open spec fn related(task: Task, subtasks: Seq<Task>, stories: Seq<Story>) -> Seq<Seq<char>> {
    let gids = linked_gids(searched(task.notes@, stories, stories.len() as int));
    foreign(task, subtasks, gids, gids.len() as int)
}

/// The first `n` linked tasks; one that could not be had is left out.
pub open spec fn linked_entries(linked: Seq<(Seq<char>, Option<Task>)>, n: int) -> Seq<char>
    decreases n,
{
    if n <= 0 {
        Seq::empty()
    } else {
        match linked[n - 1].1 {
            Some(lt) => linked_entries(linked, n - 1) + ("### "@ + lt.name@ + " (GID: "@
                + linked[n - 1].0 + ")\n"@ + lt.notes@ + "\n\n"@),
            None => linked_entries(linked, n - 1),
        }
    }
}

/// The linked tasks.
pub open spec fn linked_part(linked: Seq<(Seq<char>, Option<Task>)>) -> Seq<char> {
    if linked.len() == 0 {
        ""@
    } else {
        LINKED_HEADING@ + linked_entries(linked, linked.len() as int)
    }
}

/// What came of the requests for linked tasks, with the gids as texts.
pub open spec fn linked_texts(found: Seq<(String, Option<Task>)>) -> Seq<
    (Seq<char>, Option<Task>),
> {
    found.map_values(|x: (String, Option<Task>)| (x.0@, x.1))
}

/// What came of the first request, from `i` on, for the task with a gid; `None` where there was
/// none.
pub open spec fn came_of(
    found: Seq<(Seq<char>, Option<Task>)>,
    gid: Seq<char>,
    i: int,
) -> Option<Task>
    decreases found.len() - i,
{
    if i < 0 || i >= found.len() {
        None
    } else if found[i].0 == gid {
        found[i].1
    } else {
        came_of(found, gid, i + 1)
    }
}

/// Each gid with what came of the request for its task.
pub open spec fn listed(gids: Seq<Seq<char>>, found: Seq<(Seq<char>, Option<Task>)>) -> Seq<
    (Seq<char>, Option<Task>),
> {
    gids.map_values(|g: Seq<char>| (g, came_of(found, g, 0)))
}

fn find_linked<'a>(found: &'a Vec<(String, Option<Task>)>, gid: &str) -> (r: Option<&'a Task>)
    ensures
        came_of(linked_texts(found@), gid@, 0) == (match r {
            Some(t) => Some(*t),
            None => None,
        }),
{
    let ghost all = linked_texts(found@);
    let mut i: usize = 0;
    while i < found.len()
        invariant
            i <= found@.len(),
            all == linked_texts(found@),
            came_of(all, gid@, 0) == came_of(all, gid@, i as int),
        decreases found@.len() - i,
    {
        assert(all[i as int] == (found@[i as int].0@, found@[i as int].1));
        if text_eq(found[i].0.as_str(), gid) {
            return found[i].1.as_ref();
        }
        i += 1;
    }
    None
}

fn linked_part_of(gids: &Vec<String>, found: &Vec<(String, Option<Task>)>) -> (r: String)
    ensures
        r@ == linked_part(listed(texts(gids@), linked_texts(found@))),
{
    let ghost all = listed(texts(gids@), linked_texts(found@));
    assert(all.len() == gids@.len());
    if gids.len() == 0 {
        return "".to_owned();
    }
    let mut body = String::new();
    let mut i: usize = 0;
    while i < gids.len()
        invariant
            i <= gids@.len(),
            all == listed(texts(gids@), linked_texts(found@)),
            body@ == linked_entries(all, i as int),
        decreases gids@.len() - i,
    {
        let gid = gids[i].as_str();
        assert(all[i as int] == (gid@, came_of(linked_texts(found@), gid@, 0)));
        if let Some(lt) = find_linked(found, gid) {
            let mut entry = "### ".to_owned();
            entry.append(lt.name.as_str());
            entry.append(" (GID: ");
            entry.append(gid);
            entry.append(")\n");
            entry.append(lt.notes.as_str());
            entry.append("\n\n");
            body.append(entry.as_str());
        }
        i += 1;
    }
    let mut out = LINKED_HEADING.to_owned();
    out.append(body.as_str());
    out
}

/// The whole description.
pub open spec fn task_context(
    a: Assistant,
    s: Settings,
    task: Task,
    section: Seq<char>,
    subtasks: Seq<Task>,
    stories: Seq<Story>,
    attachments: Seq<Attachment>,
    linked: Seq<(Seq<char>, Option<Task>)>,
) -> Seq<char> {
    heading(task, section) + notes_part(task) + subtasks_part(s, subtasks) + attachments_part(
        a,
        attachments,
    ) + comments_part(stories) + history_part(stories) + linked_part(linked)
}

impl Client {
    /// The gids of the tasks to which a task links in its description and its comments.
    pub fn related_gids(task: &Task, subtasks: &Vec<Task>, stories: &Vec<Story>) -> (r: Vec<String>)
        ensures
            texts(r@) == related(*task, subtasks@, stories@),
    {
        let mut text = task.notes.clone();
        let mut i: usize = 0;
        while i < stories.len()
            invariant
                i <= stories@.len(),
                text@ == searched(task.notes@, stories@, i as int),
            decreases stories@.len() - i,
        {
            if stories[i].is_comment() {
                text.append("\n");
                text.append(stories[i].text.as_str());
            }
            i += 1;
        }
        let gids = extract_linked_gids(text.as_str());
        let ghost found = linked_gids(text@);
        let mut out: Vec<String> = Vec::new();
        let mut j: usize = 0;
        while j < gids.len()
            invariant
                j <= gids@.len(),
                texts(gids@) == found,
                texts(out@) == foreign(*task, subtasks@, found, j as int),
            decreases gids@.len() - j,
        {
            let gid = &gids[j];
            assert(gid@ == found[j as int]);
            let mut own = text_eq(gid.as_str(), task.gid.as_str());
            let ghost same = gid@ == task.gid@;
            let mut k: usize = 0;
            while k < subtasks.len()
                invariant
                    k <= subtasks@.len(),
                    own == (same || exists|m: int|
                        0 <= m < k && (#[trigger] subtasks@[m]).gid@ == gid@),
                decreases subtasks@.len() - k,
            {
                if text_eq(subtasks[k].gid.as_str(), gid.as_str()) {
                    own = true;
                    assert(subtasks@[k as int].gid@ == gid@);
                }
                k += 1;
            }
            if !own {
                let ghost before = out@;
                out.push(gid.clone());
                assert(texts(out@) =~= texts(before).push(gid@));
            }
            j += 1;
        }
        out
    }

    /// The description of a task: its notes, subtasks, attachments, comments, history and linked
    /// tasks, from what came of the requests for them. Without the subtasks or the stories there is
    /// none, and their error is told; attachments that could not be had count as none. The linked
    /// tasks are those of `related_gids`, and one for which `found` holds no task is left out.
    pub fn build_task_context(
        &self,
        a: &Assistant,
        task: &Task,
        section_name: &str,
        subtasks: Result<Vec<Task>, ApiError>,
        stories: Result<Vec<Story>, ApiError>,
        attachments: Option<Vec<Attachment>>,
        found: &Vec<(String, Option<Task>)>,
    ) -> (r: Result<String, ApiError>)
        ensures
            match (subtasks, stories) {
                (Err(e), _) => r == Err::<String, ApiError>(e),
                (Ok(_), Err(e)) => r == Err::<String, ApiError>(e),
                (Ok(subs), Ok(history)) => r matches Ok(text) && text@ == task_context(
                    *a,
                    self.settings,
                    *task,
                    section_name@,
                    subs@,
                    history@,
                    had(attachments),
                    listed(related(*task, subs@, history@), linked_texts(found@)),
                ),
            },
    {
        let subtasks = match subtasks {
            Ok(v) => v,
            Err(e) => {
                return Err(e);
            },
        };
        let stories = match stories {
            Ok(v) => v,
            Err(e) => {
                return Err(e);
            },
        };
        let attachments = match attachments {
            Some(v) => v,
            None => Vec::new(),
        };
        let gids = Self::related_gids(task, &subtasks, &stories);
        let mut out = heading_of(task, section_name);
        out.append(notes_part_of(task).as_str());
        out.append(subtasks_part_of(&self.settings, &subtasks).as_str());
        out.append(attachments_part_of(a, &attachments).as_str());
        out.append(comments_part_of(&stories).as_str());
        out.append(history_part_of(&stories).as_str());
        out.append(linked_part_of(&gids, found).as_str());
        Ok(out)
    }
}

/// The attachments, none where they could not be had.
pub open spec fn had(attachments: Option<Vec<Attachment>>) -> Seq<Attachment> {
    match attachments {
        Some(v) => v@,
        None => Seq::empty(),
    }
}

/// No task stands among the linked tasks twice.
pub proof fn law_related_without_repeats(task: Task, subtasks: Seq<Task>, stories: Seq<Story>)
    ensures
        related(task, subtasks, stories).no_duplicates(),
{
    let text = searched(task.notes@, stories, stories.len() as int);
    let matches = regex_matches(LINK_PATTERN@, false, text);
    law_gids_distinct_and_complete(matches, matches.len() as int);
    lemma_foreign_distinct(task, subtasks, linked_gids(text), linked_gids(text).len() as int);
}

proof fn lemma_foreign_distinct(task: Task, subtasks: Seq<Task>, gids: Seq<Seq<char>>, n: int)
    requires
        0 <= n <= gids.len(),
        gids.no_duplicates(),
    ensures
        foreign(task, subtasks, gids, n).no_duplicates(),
    decreases n,
{
    if n > 0 {
        lemma_foreign_distinct(task, subtasks, gids, n - 1);
        lemma_foreign(task, subtasks, gids, n - 1, gids[n - 1]);
        let earlier = foreign(task, subtasks, gids, n - 1);
        if earlier.contains(gids[n - 1]) {
            let k = gids.take(n - 1).index_of(gids[n - 1]);
            assert(gids.take(n - 1)[k] == gids[n - 1]);
            assert(gids[k] == gids[n - 1]);
        }
    }
}

/// Where the requests were made for the linked tasks, each once and in their order, the
/// description holds what came of them, one by one.
pub proof fn law_linked_tasks_as_requested(
    gids: Seq<Seq<char>>,
    found: Seq<(Seq<char>, Option<Task>)>,
)
    requires
        gids.no_duplicates(),
        found.len() == gids.len(),
        forall|i: int| 0 <= i < found.len() ==> (#[trigger] found[i]).0 == gids[i],
    ensures
        listed(gids, found) == found,
{
    assert forall|i: int| 0 <= i < gids.len() implies listed(gids, found)[i] == found[i] by {
        lemma_came_of(gids, found, i, 0);
        assert(found[i].0 == gids[i]);
    }
    assert(listed(gids, found) =~= found);
}

proof fn lemma_came_of(
    gids: Seq<Seq<char>>,
    found: Seq<(Seq<char>, Option<Task>)>,
    k: int,
    i: int,
)
    requires
        gids.no_duplicates(),
        found.len() == gids.len(),
        forall|j: int| 0 <= j < found.len() ==> (#[trigger] found[j]).0 == gids[j],
        0 <= i <= k < gids.len(),
    ensures
        came_of(found, gids[k], i) == found[k].1,
    decreases k - i,
{
    assert(found[i].0 == gids[i]);
    if i < k {
        lemma_came_of(gids, found, k, i + 1);
    }
}

/// A linked task that could not be had leaves the rest of the description as it is: only its own
/// block is missing.
pub proof fn law_missing_linked_task_leaves_out_its_block(
    linked: Seq<(Seq<char>, Option<Task>)>,
    k: int,
    n: int,
)
    requires
        0 <= k < n <= linked.len(),
        linked[k].1 is None,
    ensures
        linked_entries(linked, n) == linked_entries(linked.remove(k), n - 1),
    decreases n,
{
    let rest = linked.remove(k);
    if n - 1 == k {
        lemma_entries_by_front(linked, rest, k);
    } else {
        law_missing_linked_task_leaves_out_its_block(linked, k, n - 1);
        assert(rest[n - 2] == linked[n - 1]);
    }
}

proof fn lemma_entries_by_front(
    a: Seq<(Seq<char>, Option<Task>)>,
    b: Seq<(Seq<char>, Option<Task>)>,
    n: int,
)
    requires
        0 <= n <= a.len(),
        n <= b.len(),
        forall|i: int| 0 <= i < n ==> a[i] == b[i],
    ensures
        linked_entries(a, n) == linked_entries(b, n),
    decreases n,
{
    if n > 0 {
        lemma_entries_by_front(a, b, n - 1);
    }
}

/// Neither the task itself nor one of its subtasks is listed among the linked tasks, and every
/// other task to which its description or its comments link is listed.
pub proof fn law_related_are_other_tasks(
    task: Task,
    subtasks: Seq<Task>,
    stories: Seq<Story>,
    gid: Seq<char>,
)
    ensures
        related(task, subtasks, stories).contains(gid) <==> gid != task.gid@ && !subtask_gid(
            subtasks,
            gid,
        ) && linked_gids(searched(task.notes@, stories, stories.len() as int)).contains(gid),
{
    let gids = linked_gids(searched(task.notes@, stories, stories.len() as int));
    lemma_foreign(task, subtasks, gids, gids.len() as int, gid);
    assert(gids.take(gids.len() as int) =~= gids);
}

proof fn lemma_foreign(
    task: Task,
    subtasks: Seq<Task>,
    gids: Seq<Seq<char>>,
    n: int,
    gid: Seq<char>,
)
    requires
        0 <= n <= gids.len(),
    ensures
        foreign(task, subtasks, gids, n).contains(gid) <==> gid != task.gid@ && !subtask_gid(
            subtasks,
            gid,
        ) && gids.take(n).contains(gid),
    decreases n,
{
    if n > 0 {
        lemma_foreign(task, subtasks, gids, n - 1, gid);
        let earlier = foreign(task, subtasks, gids, n - 1);
        let g = gids[n - 1];
        assert(gids.take(n) =~= gids.take(n - 1).push(g));
        lemma_push_contains(gids.take(n - 1), g, gid);
        lemma_push_contains(earlier, g, gid);
    }
}

proof fn lemma_push_contains<T>(s: Seq<T>, x: T, y: T)
    ensures
        s.push(x).contains(y) <==> s.contains(y) || x == y,
{
    if s.contains(y) {
        let i = s.index_of(y);
        assert(s.push(x)[i] == y);
    }
    if x == y {
        assert(s.push(x)[s.len() as int] == y);
    }
    if s.push(x).contains(y) {
        let i = s.push(x).index_of(y);
        assert(s.push(x)[i] == y);
        if i < s.len() {
            assert(s[i] == y);
        }
    }
}

/// The description warns of open subtasks exactly where some subtask is open and assigned to the
/// agent.
pub proof fn law_warning_iff_subtask_waits(agent: Seq<char>, subtasks: Seq<Task>, n: int)
    requires
        0 <= n <= subtasks.len(),
    ensures
        waiting(agent, subtasks, n) > 0 <==> exists|i: int|
            0 <= i < n && waits_for(agent, #[trigger] subtasks[i]),
    decreases n,
{
    if n > 0 {
        law_warning_iff_subtask_waits(agent, subtasks, n - 1);
        if waits_for(agent, subtasks[n - 1]) {
            assert(waits_for(agent, subtasks[n - 1]));
        }
    }
}

/// The description begins with the name, the gid, the link and the section of the task, and only
/// a task from `reopen` gets the warning that it was reopened.
pub proof fn law_heading_tells_the_task(task: Task, section: Seq<char>)
    ensures
        ({
            let link = if task.permalink_url is Some {
                task.permalink_url->0@
            } else {
                "-"@
            };
            let head = "# Текущая задача\n**Название:** "@ + task.name@ + "\n**GID:** "@
                + task.gid@ + "\n**Ссылка:** "@ + link + "\n**Секция:** "@ + section + "\n"@;
            &&& section != "reopen"@ ==> heading(task, section) == head
            &&& section == "reopen"@ ==> heading(task, section) == head + REOPENED@
        }),
        task.notes@.len() > 0 ==> notes_part(task) == "\n## Описание\n"@ + task.notes@ + "\n"@,
        task.notes@.len() == 0 ==> notes_part(task) == "\n## Описание\n"@ + "Нет описания"@
            + "\n"@,
{
}

/// A subtask is shown with whether it is closed, its gid, its name and who executes it; it is
/// marked as mandatory exactly where it is open and the agent's.
pub proof fn law_subtask_line_tells_the_subtask(s: Settings, st: Task)
    ensures
        ({
            let agents = st.assignee is Some && st.assignee->0.gid@ == s.agent_gid@;
            let who = if agents {
                s.agent_name@
            } else if st.assignee is Some {
                st.assignee->0.name@
            } else {
                "никто"@
            };
            let told = "] "@ + st.gid@ + " — «"@ + st.name@ + "» (исполнитель: "@ + who + ")"@;
            let notes = indented(lines_of(st.notes@), lines_of(st.notes@).len() as int);
            &&& st.completed ==> subtask_entry(s, st) == "- [x"@ + told + "\n"@ + notes
            &&& !st.completed && agents ==> subtask_entry(s, st) == "- [ "@ + told + MANDATORY@
                + "\n"@ + notes
            &&& !st.completed && !agents ==> subtask_entry(s, st) == "- [ "@ + told + "\n"@
                + notes
        }),
{
    reveal_strlit("- [");
    reveal_strlit("x");
    reveal_strlit(" ");
    reveal_strlit("");
    reveal_strlit("- [x");
    reveal_strlit("- [ ");
    assert("- ["@ + "x"@ =~= "- [x"@);
    assert("- ["@ + " "@ =~= "- [ "@);
    let agents = st.assignee is Some && st.assignee->0.gid@ == s.agent_gid@;
    let who = executor(s, st);
    let told = "] "@ + st.gid@ + " — «"@ + st.name@ + "» (исполнитель: "@ + who + ")"@;
    let notes = indented(lines_of(st.notes@), lines_of(st.notes@).len() as int);
    if st.completed {
        assert(subtask_entry(s, st) =~= "- [x"@ + told + "\n"@ + notes);
    } else if agents {
        assert(subtask_entry(s, st) =~= "- [ "@ + told + MANDATORY@ + "\n"@ + notes);
    } else {
        assert(subtask_entry(s, st) =~= "- [ "@ + told + "\n"@ + notes);
    }
}

proof fn lemma_indented_by_front(a: Seq<Seq<char>>, b: Seq<Seq<char>>, n: int)
    requires
        0 <= n <= a.len(),
        n <= b.len(),
        forall|i: int| 0 <= i < n ==> a[i] == b[i],
    ensures
        indented(a, n) == indented(b, n),
    decreases n,
{
    if n > 0 {
        lemma_indented_by_front(a, b, n - 1);
    }
}

/// The description of a subtask stands under it line by line, each indented alike.
pub proof fn law_lines_are_indented_one_by_one(lines: Seq<Seq<char>>, line: Seq<char>)
    ensures
        indented(Seq::empty(), 0) == Seq::<char>::empty(),
        indented(lines.push(line), lines.len() as int + 1) == indented(lines, lines.len() as int) + (
        "    "@ + line + "\n"@),
{
    lemma_indented_by_front(lines.push(line), lines, lines.len() as int);
}

proof fn lemma_subtasks_by_front(s: Settings, a: Seq<Task>, b: Seq<Task>, n: int)
    requires
        0 <= n <= a.len(),
        n <= b.len(),
        forall|i: int| 0 <= i < n ==> a[i] == b[i],
    ensures
        subtask_entries(s, a, n) == subtask_entries(s, b, n),
        waiting(s.agent_gid@, a, n) == waiting(s.agent_gid@, b, n),
    decreases n,
{
    if n > 0 {
        lemma_subtasks_by_front(s, a, b, n - 1);
    }
}

/// The subtasks are listed one by one in their order, and counted where they are open and the
/// agent's; the warning gives that count, and stands there only where it is not zero.
pub proof fn law_subtasks_one_by_one(s: Settings, subtasks: Seq<Task>, st: Task)
    ensures
        subtasks_part(s, Seq::empty()) == "\n## Сабтаски\n"@ + "Нет сабтасков.\n"@,
        ({
            let n = subtasks.len() as int;
            let more = subtasks.push(st);
            let open = waiting(s.agent_gid@, more, n + 1);
            let agents = !st.completed && st.assignee is Some && st.assignee->0.gid@
                == s.agent_gid@;
            let listed = "\n## Сабтаски\n"@ + (subtask_entries(s, subtasks, n) + subtask_entry(
                s,
                st,
            ));
            &&& subtask_entries(s, subtasks, 0) == Seq::<char>::empty()
            &&& waiting(s.agent_gid@, subtasks, 0) == 0
            &&& subtask_entries(s, more, n + 1) == subtask_entries(s, subtasks, n) + subtask_entry(
                s,
                st,
            )
            &&& open == waiting(s.agent_gid@, subtasks, n) + if agents {
                1int
            } else {
                0
            }
            &&& open == 0 ==> subtasks_part(s, more) == listed
            &&& open > 0 ==> subtasks_part(s, more) == listed + ("\n**ВНИМАНИЕ: "@ + dec(
                open as int,
            ) + OPEN_SUBTASKS@)
        }),
{
    let n = subtasks.len() as int;
    lemma_subtasks_by_front(s, subtasks.push(st), subtasks, n);
    assert(subtasks.push(st)[n] == st);
    reveal_strlit("");
    let listed = "\n## Сабтаски\n"@ + (subtask_entries(s, subtasks, n) + subtask_entry(s, st));
    assert(listed + ""@ =~= listed);
}

proof fn lemma_attachments_by_front(a: Seq<Attachment>, b: Seq<Attachment>, n: int)
    requires
        0 <= n <= a.len(),
        n <= b.len(),
        forall|i: int| 0 <= i < n ==> a[i] == b[i],
    ensures
        attachment_lines(a, n) == attachment_lines(b, n),
    decreases n,
{
    if n > 0 {
        lemma_attachments_by_front(a, b, n - 1);
    }
}

/// The attachments are listed one by one in their order, each with its gid, its name and its size;
/// where there is none, nothing is said of them.
pub proof fn law_attachments_one_by_one(a: Assistant, attachments: Seq<Attachment>, x: Attachment)
    ensures
        attachments_part(a, Seq::empty()) == Seq::<char>::empty(),
        attachment_lines(attachments, 0) == Seq::<char>::empty(),
        ({
            let n = attachments.len() as int;
            let more = attachments.push(x);
            let line = "- "@ + x.gid@ + " — "@ + x.name@ + " ("@ + dec(x.size as int)
                + " байт)\n"@;
            &&& attachment_lines(more, n + 1) == attachment_lines(attachments, n) + line
            &&& attachments_part(a, more) == "\n## Вложения\n"@ + (attachment_lines(attachments, n)
                + line) + HOW_TO_DOWNLOAD@ + a.title@ + WHAT_LINKS_MEAN@
        }),
{
    lemma_attachments_by_front(attachments.push(x), attachments, attachments.len() as int);
    reveal_strlit("");
    assert(""@ =~= Seq::<char>::empty());
}

proof fn lemma_stories_by_front(notes: Seq<char>, a: Seq<Story>, b: Seq<Story>, n: int)
    requires
        0 <= n <= a.len(),
        n <= b.len(),
        forall|i: int| 0 <= i < n ==> a[i] == b[i],
    ensures
        comment_entries(a, n) == comment_entries(b, n),
        event_lines(a, n) == event_lines(b, n),
        searched(notes, a, n) == searched(notes, b, n),
    decreases n,
{
    if n > 0 {
        lemma_stories_by_front(notes, a, b, n - 1);
    }
}

proof fn lemma_no_comment(stories: Seq<Story>, n: int)
    requires
        0 <= n <= stories.len(),
        forall|i: int|
            0 <= i < n ==> (#[trigger] stories[i]).resource_subtype@ != "comment_added"@,
    ensures
        comment_entries(stories, n) == Seq::<char>::empty(),
    decreases n,
{
    if n > 0 {
        lemma_no_comment(stories, n - 1);
        assert(stories[n - 1].resource_subtype@ != "comment_added"@);
    }
}

/// The entry of a comment: its author, the date in short form and its text.
pub open spec fn comment_entry(c: Story) -> Seq<char> {
    "**"@ + c.author_text() + " ("@ + short_stamp(c.created_at@) + ")**: "@ + c.text@ + "\n\n"@
}

/// The comments stand in the description one by one in the order of the stories: one more comment
/// adds its entry behind all others and takes none away, and what is no comment adds nothing.
pub proof fn law_comments_one_by_one(stories: Seq<Story>, c: Story)
    ensures
        comments_part(Seq::empty()) == "\n## Комментарии (в хронологическом порядке)\n"@
            + "Комментариев нет.\n"@,
        ({
            let entry = "**"@ + c.author_text() + " ("@ + short_stamp(c.created_at@) + ")**: "@
                + c.text@ + "\n\n"@;
            let before = exists|i: int|
                0 <= i < stories.len() && (#[trigger] stories[i]).resource_subtype@
                    == "comment_added"@;
            &&& c.resource_subtype@ != "comment_added"@ ==> comments_part(stories.push(c))
                == comments_part(stories)
            &&& c.resource_subtype@ == "comment_added"@ && before ==> comments_part(
                stories.push(c),
            ) == comments_part(stories) + entry
            &&& c.resource_subtype@ == "comment_added"@ && !before ==> comments_part(
                stories.push(c),
            ) == "\n## Комментарии (в хронологическом порядке)\n"@ + entry
        }),
{
    let n = stories.len() as int;
    let more = stories.push(c);
    lemma_stories_by_front(Seq::empty(), more, stories, n);
    assert(more[n] == c);
    assert(!has_comment(Seq::empty()));
    let entry = "**"@ + c.author_text() + " ("@ + short_stamp(c.created_at@) + ")**: "@ + c.text@
        + "\n\n"@;
    let head = "\n## Комментарии (в хронологическом порядке)\n"@;
    if c.comment() {
        assert(has_comment(more));
        if has_comment(stories) {
            let i = choose|i: int| 0 <= i < stories.len() && (#[trigger] stories[i]).comment();
            assert(stories[i].resource_subtype@ == "comment_added"@);
            assert(head + (comment_entries(stories, n) + entry) =~= head + comment_entries(
                stories,
                n,
            ) + entry);
        } else {
            assert forall|i: int| 0 <= i < n implies (#[trigger] stories[i]).resource_subtype@
                != "comment_added"@ by {
                assert(!stories[i].comment());
            }
            lemma_no_comment(stories, n);
            assert(Seq::<char>::empty() + entry =~= entry);
        }
    } else {
        assert(has_comment(more) == has_comment(stories)) by {
            if has_comment(stories) {
                let i = choose|i: int| 0 <= i < stories.len() && (#[trigger] stories[i]).comment();
                assert(more[i].comment());
            }
            if has_comment(more) {
                let i = choose|i: int| 0 <= i < more.len() && (#[trigger] more[i]).comment();
                assert(stories[i].comment());
            }
        }
    }
}

/// The places of two pieces in a text, one behind the other.
pub open spec fn follows(s: Seq<char>, x: Seq<char>, y: Seq<char>) -> bool {
    exists|a: Seq<char>, b: Seq<char>, c: Seq<char>| s == #[trigger] (a + x + b + y + c)
}

proof fn lemma_entry_held(stories: Seq<Story>, i: int, n: int) -> (r: (Seq<char>, Seq<char>))
    requires
        0 <= i < n <= stories.len(),
        stories[i].resource_subtype@ == "comment_added"@,
    ensures
        comment_entries(stories, n) == r.0 + comment_entry(stories[i]) + r.1,
    decreases n,
{
    if i == n - 1 {
        let a = comment_entries(stories, n - 1);
        assert(a + comment_entry(stories[i]) =~= a + comment_entry(stories[i])
            + Seq::<char>::empty());
        (a, Seq::empty())
    } else {
        let (a, b) = lemma_entry_held(stories, i, n - 1);
        if stories[n - 1].comment() {
            let e = comment_entry(stories[n - 1]);
            assert(a + comment_entry(stories[i]) + b + e =~= a + comment_entry(stories[i]) + (b
                + e));
            (a, b + e)
        } else {
            (a, b)
        }
    }
}

proof fn lemma_entries_follow(stories: Seq<Story>, i: int, j: int, n: int) -> (r: (
    Seq<char>,
    Seq<char>,
    Seq<char>,
))
    requires
        0 <= i < j < n <= stories.len(),
        stories[i].resource_subtype@ == "comment_added"@,
        stories[j].resource_subtype@ == "comment_added"@,
    ensures
        comment_entries(stories, n) == r.0 + comment_entry(stories[i]) + r.1 + comment_entry(
            stories[j],
        ) + r.2,
    decreases n,
{
    if j == n - 1 {
        let (a, b) = lemma_entry_held(stories, i, n - 1);
        let whole = a + comment_entry(stories[i]) + b + comment_entry(stories[j]);
        assert(whole =~= whole + Seq::<char>::empty());
        (a, b, Seq::empty())
    } else {
        let (a, b, c) = lemma_entries_follow(stories, i, j, n - 1);
        if stories[n - 1].comment() {
            let e = comment_entry(stories[n - 1]);
            let front = a + comment_entry(stories[i]) + b + comment_entry(stories[j]);
            assert(front + c + e =~= front + (c + e));
            (a, b, c + e)
        } else {
            (a, b, c)
        }
    }
}

/// Of two comments each stands in the whole description, the earlier one of the stories first.
pub proof fn law_every_comment_is_told_in_order(
    a: Assistant,
    s: Settings,
    task: Task,
    section: Seq<char>,
    subtasks: Seq<Task>,
    stories: Seq<Story>,
    attachments: Seq<Attachment>,
    linked: Seq<(Seq<char>, Option<Task>)>,
    i: int,
    j: int,
)
    requires
        0 <= i < j < stories.len(),
        stories[i].resource_subtype@ == "comment_added"@,
        stories[j].resource_subtype@ == "comment_added"@,
    ensures
        follows(
            task_context(a, s, task, section, subtasks, stories, attachments, linked),
            "**"@ + stories[i].author_text() + " ("@ + short_stamp(stories[i].created_at@)
                + ")**: "@ + stories[i].text@ + "\n\n"@,
            "**"@ + stories[j].author_text() + " ("@ + short_stamp(stories[j].created_at@)
                + ")**: "@ + stories[j].text@ + "\n\n"@,
        ),
{
    let (x, y, z) = lemma_entries_follow(stories, i, j, stories.len() as int);
    assert(stories[i].comment());
    assert(has_comment(stories));
    let head = "\n## Комментарии (в хронологическом порядке)\n"@;
    let front = heading(task, section) + notes_part(task) + subtasks_part(s, subtasks)
        + attachments_part(a, attachments);
    let rest = history_part(stories) + linked_part(linked);
    let ei = comment_entry(stories[i]);
    let ej = comment_entry(stories[j]);
    let whole = task_context(a, s, task, section, subtasks, stories, attachments, linked);
    assert(whole =~= (front + head + x) + ei + y + ej + (z + rest));
}

/// The events of the system are told one by one in the order of the stories, those without a text
/// left out; a comment is none of them.
pub proof fn law_events_one_by_one(stories: Seq<Story>, e: Story)
    ensures
        history_part(Seq::empty()) == "\n## История (системные события Asana, НЕ комментарии)\n"@,
        e.resource_subtype@ != "comment_added"@ && e.text@.len() > 0 ==> history_part(
            stories.push(e),
        ) == history_part(stories) + ("- "@ + short_stamp(e.created_at@) + " "@ + e.author_text()
            + ": "@ + e.text@ + "\n"@),
        e.resource_subtype@ == "comment_added"@ || e.text@.len() == 0 ==> history_part(
            stories.push(e),
        ) == history_part(stories),
{
    let n = stories.len() as int;
    lemma_stories_by_front(Seq::empty(), stories.push(e), stories, n);
    let head = "\n## История (системные события Asana, НЕ комментарии)\n"@;
    assert(head + Seq::<char>::empty() =~= head);
    let line = "- "@ + short_stamp(e.created_at@) + " "@ + e.author_text() + ": "@ + e.text@
        + "\n"@;
    assert(head + (event_lines(stories, n) + line) =~= head + event_lines(stories, n) + line);
}

/// Links are looked for in the description of the task and in each of its comments.
pub proof fn law_links_are_sought_in_every_comment(notes: Seq<char>, stories: Seq<Story>, c: Story)
    ensures
        searched(notes, stories, 0) == notes,
        c.resource_subtype@ == "comment_added"@ ==> searched(
            notes,
            stories.push(c),
            stories.len() as int + 1,
        ) == searched(notes, stories, stories.len() as int) + "\n"@ + c.text@,
        c.resource_subtype@ != "comment_added"@ ==> searched(
            notes,
            stories.push(c),
            stories.len() as int + 1,
        ) == searched(notes, stories, stories.len() as int),
{
    lemma_stories_by_front(notes, stories.push(c), stories, stories.len() as int);
}

proof fn lemma_foreign_by_front(
    task: Task,
    subtasks: Seq<Task>,
    a: Seq<Seq<char>>,
    b: Seq<Seq<char>>,
    n: int,
)
    requires
        0 <= n <= a.len(),
        n <= b.len(),
        forall|i: int| 0 <= i < n ==> a[i] == b[i],
    ensures
        foreign(task, subtasks, a, n) == foreign(task, subtasks, b, n),
    decreases n,
{
    if n > 0 {
        lemma_foreign_by_front(task, subtasks, a, b, n - 1);
    }
}

/// The linked tasks come in the order in which the links occur; only the task itself and its own
/// subtasks are left out.
pub proof fn law_related_in_order_of_links(
    task: Task,
    subtasks: Seq<Task>,
    gids: Seq<Seq<char>>,
    g: Seq<char>,
)
    ensures
        foreign(task, subtasks, gids, 0) == Seq::<Seq<char>>::empty(),
        ({
            let n = gids.len() as int;
            let own = g == task.gid@ || exists|i: int|
                0 <= i < subtasks.len() && (#[trigger] subtasks[i]).gid@ == g;
            let earlier = foreign(task, subtasks, gids, n);
            foreign(task, subtasks, gids.push(g), n + 1) == if own {
                earlier
            } else {
                earlier.push(g)
            }
        }),
{
    lemma_foreign_by_front(task, subtasks, gids.push(g), gids, gids.len() as int);
}

/// The linked tasks are told one by one in their order, each with its name, its gid and its
/// description; where nothing is linked, nothing is said of it.
pub proof fn law_linked_tasks_one_by_one(
    linked: Seq<(Seq<char>, Option<Task>)>,
    gid: Seq<char>,
    t: Task,
)
    ensures
        linked_part(Seq::empty()) == Seq::<char>::empty(),
        linked_entries(linked, 0) == Seq::<char>::empty(),
        ({
            let n = linked.len() as int;
            let told = linked_entries(linked, n);
            let entry = "### "@ + t.name@ + " (GID: "@ + gid + ")\n"@ + t.notes@ + "\n\n"@;
            &&& linked_entries(linked.push((gid, Some(t))), n + 1) == told + entry
            &&& linked_entries(linked.push((gid, None)), n + 1) == told
            &&& linked_part(linked.push((gid, Some(t)))) == LINKED_HEADING@ + (told + entry)
            &&& linked_part(linked.push((gid, None))) == LINKED_HEADING@ + told
        }),
{
    lemma_entries_by_front(linked.push((gid, Some(t))), linked, linked.len() as int);
    lemma_entries_by_front(linked.push((gid, None)), linked, linked.len() as int);
    reveal_strlit("");
    assert(""@ =~= Seq::<char>::empty());
}

/// A linked task is the one that came of the first request for its gid; without a request there is
/// none.
pub proof fn law_linked_task_is_found_by_gid(
    found: Seq<(Seq<char>, Option<Task>)>,
    gid: Seq<char>,
    i: int,
    k: int,
)
    requires
        0 <= i <= k <= found.len(),
        forall|j: int| i <= j < k ==> (#[trigger] found[j]).0 != gid,
    ensures
        k == found.len() ==> came_of(found, gid, i) is None,
        k < found.len() && found[k].0 == gid ==> came_of(found, gid, i) == found[k].1,
    decreases k - i,
{
    if i < k {
        assert(found[i].0 != gid);
        law_linked_task_is_found_by_gid(found, gid, i + 1, k);
    }
}

/// The description holds, in this order: the heading, the notes, the subtasks, the attachments, the
/// comments, the history and the linked tasks, and nothing else.
pub proof fn law_description_has_its_parts_in_order(
    a: Assistant,
    s: Settings,
    task: Task,
    section: Seq<char>,
    subtasks: Seq<Task>,
    stories: Seq<Story>,
    attachments: Seq<Attachment>,
    linked: Seq<(Seq<char>, Option<Task>)>,
)
    ensures
        ({
            let parts = seq![
                heading(task, section),
                notes_part(task),
                subtasks_part(s, subtasks),
                attachments_part(a, attachments),
                comments_part(stories),
                history_part(stories),
                linked_part(linked),
            ];
            task_context(a, s, task, section, subtasks, stories, attachments, linked) == joined(
                parts,
                Seq::empty(),
            )
        }),
{
    let parts = seq![
        heading(task, section),
        notes_part(task),
        subtasks_part(s, subtasks),
        attachments_part(a, attachments),
        comments_part(stories),
        history_part(stories),
        linked_part(linked),
    ];
    let none = Seq::<char>::empty();
    reveal_with_fuel(joined, 8);
    assert(parts.drop_last() =~= parts.take(6));
    assert(parts.take(6).drop_last() =~= parts.take(5));
    assert(parts.take(5).drop_last() =~= parts.take(4));
    assert(parts.take(4).drop_last() =~= parts.take(3));
    assert(parts.take(3).drop_last() =~= parts.take(2));
    assert(parts.take(2).drop_last() =~= parts.take(1));
    assert(task_context(a, s, task, section, subtasks, stories, attachments, linked) =~= joined(
        parts,
        none,
    ));
}

/// Attachments that could not be had count as none.
pub proof fn law_missing_attachments_are_none(v: Vec<Attachment>)
    ensures
        had(None) == Seq::<Attachment>::empty(),
        had(Some(v)) == v@,
{
}

} // verus!
