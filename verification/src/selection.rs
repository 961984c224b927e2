//! Which of the agent's tasks is worked on next.
//!
//! A task in a section that the settings approve can be taken. One in another section that has a
//! role goes back to the operator, but for the section `done`. One whose section has no role goes
//! back too: the board does not follow the process. Subtasks and tasks without a project are left
//! alone. What can be taken is taken in this order: `in_progress`, `todo` that is due, `reopen`,
//! the rest of `todo`.

use crate::client::{
    address, data_body, first_approved_place, governing_place,
    law_first_approved_section_is_worked_in, law_first_role_governs, law_requests_as_they_are_sent,
    move_step, place, sending, working_place, ApiRequest, ApiRequestView, Client, MoveStep,
    MoveStepView,
};
use crate::model::{Membership, Placement, PlacementView, Story, Task};
use crate::order::{
    comes_before, law_sorted_in_order, law_sorted_same_items, lemma_before_irreflexive,
    lemma_before_total, lemma_before_transitive, lemma_passed, lemma_placed_inserts, passed, placed,
    stable_sorted, strict_weak, text_before,
};
use crate::outside::{json_text, lowercase, to_lowercase};
use crate::settings::{law_manual_comment_is_marked, Settings};
use crate::text::{
    contains, has_text, law_has_text_is_a_middle_part, stands_at, text_eq, texts,
};
use vstd::prelude::*;
use vstd::string::*;

verus! {

/// What becomes of a task that was assigned to the agent.
#[derive(Debug)]
pub enum Verdict {
    /// It is left alone.
    Skip,
    /// It can be taken.
    Run(Placement),
    /// It lies in a section from which nothing is taken, and goes back to the operator.
    NotApproved(Placement),
    /// Its section has no role, and it goes back to the operator.
    Mismatch(Placement),
}

/// A verdict with the place as texts.
pub enum VerdictView {
    Skip,
    Run(PlacementView),
    NotApproved(PlacementView),
    Mismatch(PlacementView),
}

impl View for Verdict {
    type V = VerdictView;

    open spec fn view(&self) -> VerdictView {
        match self {
            Verdict::Skip => VerdictView::Skip,
            Verdict::Run(p) => VerdictView::Run(p@),
            Verdict::NotApproved(p) => VerdictView::NotApproved(p@),
            Verdict::Mismatch(p) => VerdictView::Mismatch(p@),
        }
    }
}

/// Whether a task is the agent's own: open, assigned to the agent and no subtask.
pub open spec fn own(s: Settings, task: Task) -> bool {
    &&& !task.completed
    &&& task.assignee_text() == Some(s.agent_gid@)
    &&& task.parent is None
}

/// What becomes of a task.
pub open spec fn verdict(s: Settings, task: Task) -> VerdictView {
    if !own(s, task) {
        VerdictView::Skip
    } else {
        match working_place(s, task) {
            Some(p) => VerdictView::Run(p),
            None => match governing_place(s, task) {
                None => VerdictView::Skip,
                Some(p) => match p.role {
                    Some(role) => if role == "done"@ {
                        VerdictView::Skip
                    } else {
                        VerdictView::NotApproved(p)
                    },
                    None => VerdictView::Mismatch(p),
                },
            },
        }
    }
}

/// Whether a task can be taken.
pub open spec fn runnable(s: Settings, task: Task) -> bool {
    own(s, task) && working_place(s, task) is Some
}

/// The role of the section from which a task is taken.
pub open spec fn working_role(s: Settings, task: Task) -> Option<Seq<char>> {
    match working_place(s, task) {
        Some(p) => p.role,
        None => None,
    }
}

/// Whether a task can be taken from a section with the given role.
pub open spec fn runs_in(s: Settings, task: Task, role: Seq<char>) -> bool {
    runnable(s, task) && working_role(s, task) == Some(role)
}

/// The places, among the first `n`, of the tasks that can be taken from sections with a role.
pub open spec fn in_role(s: Settings, tasks: Seq<Task>, role: Seq<char>, n: int) -> Seq<int>
    decreases n,
{
    if n <= 0 {
        Seq::empty()
    } else if runs_in(s, tasks[n - 1], role) {
        in_role(s, tasks, role, n - 1).push(n - 1)
    } else {
        in_role(s, tasks, role, n - 1)
    }
}

/// The day on which a task is due; empty where it has none.
pub open spec fn due_day(task: Task) -> Seq<char> {
    match task.due_on {
        Some(d) => d@,
        None => Seq::empty(),
    }
}

/// Whether a task is due today or was due earlier.
pub open spec fn is_due(task: Task, today: Seq<char>) -> bool {
    task.due_on is Some && !text_before(today, due_day(task))
}

/// The places, among the first `n`, of the tasks in `todo` that are due.
pub open spec fn due_places(s: Settings, tasks: Seq<Task>, today: Seq<char>, n: int) -> Seq<int>
    decreases n,
{
    if n <= 0 {
        Seq::empty()
    } else if runs_in(s, tasks[n - 1], "todo"@) && is_due(tasks[n - 1], today) {
        due_places(s, tasks, today, n - 1).push(n - 1)
    } else {
        due_places(s, tasks, today, n - 1)
    }
}

/// The order of places by the day on which the tasks are due.
pub open spec fn due_order(tasks: Seq<Task>) -> spec_fn(int, int) -> bool {
    |a: int, b: int| text_before(due_day(tasks[a]), due_day(tasks[b]))
}

/// The tasks in `todo` that are due, the earliest day first.
pub open spec fn due_queue(s: Settings, tasks: Seq<Task>, today: Seq<char>) -> Seq<int> {
    stable_sorted(due_places(s, tasks, today, tasks.len() as int), due_order(tasks))
}

/// Whether the task with the given gid is among those that are due.
pub open spec fn gid_due(s: Settings, tasks: Seq<Task>, today: Seq<char>, gid: Seq<char>) -> bool {
    exists|i: int|
        0 <= i < tasks.len() && runs_in(s, #[trigger] tasks[i], "todo"@) && is_due(
            tasks[i],
            today,
        ) && tasks[i].gid@ == gid
}

/// The places, among the first `n`, of the other tasks in `todo`.
pub open spec fn later_places(s: Settings, tasks: Seq<Task>, today: Seq<char>, n: int) -> Seq<int>
    decreases n,
{
    if n <= 0 {
        Seq::empty()
    } else if runs_in(s, tasks[n - 1], "todo"@) && !gid_due(s, tasks, today, tasks[n - 1].gid@) {
        later_places(s, tasks, today, n - 1).push(n - 1)
    } else {
        later_places(s, tasks, today, n - 1)
    }
}

/// The places of the tasks that can be taken, in the order in which they are looked at.
pub open spec fn queue_of(s: Settings, tasks: Seq<Task>, today: Seq<char>) -> Seq<int> {
    let n = tasks.len() as int;
    in_role(s, tasks, "in_progress"@, n) + due_queue(s, tasks, today) + in_role(
        s,
        tasks,
        "reopen"@,
        n,
    ) + later_places(s, tasks, today, n)
}

/// The places behind a list of indices.
pub open spec fn places(v: Seq<usize>) -> Seq<int> {
    v.map_values(|i: usize| i as int)
}

/// What becomes of a task that was assigned to the agent.
pub fn judge(client: &Client, task: &Task) -> (r: Verdict)
    ensures
        r@ == verdict(client.settings, *task),
{
    let s = &client.settings;
    if task.completed || !task.is_assigned_to(s.agent_gid.as_str()) || task.is_subtask() {
        return Verdict::Skip;
    }
    if let Some(p) = client.approved_placement(task) {
        return Verdict::Run(p);
    }
    match client.placement(task) {
        None => Verdict::Skip,
        Some(p) => {
            let done = match &p.role {
                Some(role) => Some(text_eq(role.as_str(), "done")),
                None => None,
            };
            match done {
                Some(true) => Verdict::Skip,
                Some(false) => Verdict::NotApproved(p),
                None => Verdict::Mismatch(p),
            }
        },
    }
}

/// The request that puts a comment under a task.
pub open spec fn comment_request(gid: Seq<char>, text: Seq<char>) -> ApiRequestView {
    sending("POST"@, address("/tasks/"@, gid, "/stories"@), data_body("text"@, json_text(text)))
}

/// The request that assigns a task to the operator.
pub open spec fn operator_request(s: Settings, gid: Seq<char>) -> ApiRequestView {
    sending(
        "PUT"@,
        address("/tasks/"@, gid, ""@),
        data_body("assignee"@, json_text(s.operator_gid@)),
    )
}

/// The requests behind a list.
pub open spec fn requests(v: Seq<ApiRequest>) -> Seq<ApiRequestView> {
    v.map_values(|r: ApiRequest| r@)
}

/// The requests by which a task goes back to the operator, in their order: the comment, then the
/// assignment.
pub open spec fn handback_requests(s: Settings, gid: Seq<char>, text: Seq<char>) -> Seq<
    ApiRequestView,
> {
    seq![comment_request(gid, text), operator_request(s, gid)]
}

/// The comment with which a task goes back to the operator; `None` where it does not.
pub open spec fn handback_text(s: Settings, v: VerdictView) -> Option<Seq<char>> {
    match v {
        VerdictView::NotApproved(p) => Some(s.not_approved_text(p.section_name)),
        VerdictView::Mismatch(_) => Some(s.mismatch_text()),
        _ => None,
    }
}

fn handback_with(s: &Settings, gid: &str, text: &str) -> (r: Vec<ApiRequest>)
    ensures
        requests(r@) == handback_requests(*s, gid@, text@),
{
    let mut out: Vec<ApiRequest> = Vec::new();
    out.push(Client::add_comment(gid, text));
    out.push(Client::set_assignee(gid, Some(s.operator_gid.as_str())));
    assert(requests(out@) =~= handback_requests(*s, gid@, text@));
    out
}

/// The requests, in their order, by which a task goes back to the operator, where the verdict asks
/// for it.
pub fn handback(s: &Settings, task: &Task, v: &Verdict) -> (r: Option<Vec<ApiRequest>>)
    ensures
        match (r, handback_text(*s, v@)) {
            (Some(h), Some(text)) => requests(h@) == handback_requests(*s, task.gid@, text),
            (None, None) => true,
            _ => false,
        },
{
    match v {
        Verdict::NotApproved(p) => {
            let text = s.msg_not_approved(p.section_name.as_str());
            Some(handback_with(s, task.gid.as_str(), text.as_str()))
        },
        Verdict::Mismatch(_) => {
            let text = s.msg_mismatch();
            Some(handback_with(s, task.gid.as_str(), text.as_str()))
        },
        _ => None,
    }
}

/// The places, among the first `n`, of the tasks that go back to the operator.
pub open spec fn returned(s: Settings, tasks: Seq<Task>, n: int) -> Seq<int>
    decreases n,
{
    if n <= 0 {
        Seq::empty()
    } else if handback_text(s, verdict(s, tasks[n - 1])) is Some {
        returned(s, tasks, n - 1).push(n - 1)
    } else {
        returned(s, tasks, n - 1)
    }
}

/// Whether requests send a task back with the comment that its verdict asks for.
pub open spec fn sends_back(s: Settings, task: Task, h: Vec<ApiRequest>) -> bool {
    &&& handback_text(s, verdict(s, task)) is Some
    &&& requests(h@) == handback_requests(
        s,
        task.gid@,
        handback_text(s, verdict(s, task))->0,
    )
}

/// The places in a list of handbacks.
pub open spec fn handback_places(v: Seq<(usize, Vec<ApiRequest>)>) -> Seq<int> {
    v.map_values(|x: (usize, Vec<ApiRequest>)| x.0 as int)
}

/// The tasks that go back to the operator, in their order, each with its place and how.
pub fn handbacks(client: &Client, tasks: &Vec<Task>) -> (r: Vec<(usize, Vec<ApiRequest>)>)
    ensures
        handback_places(r@) == returned(client.settings, tasks@, tasks@.len() as int),
        forall|k: int|
            0 <= k < r@.len() ==> (#[trigger] r@[k]).0 < tasks@.len() && sends_back(
                client.settings,
                tasks@[r@[k].0 as int],
                r@[k].1,
            ),
{
    let mut out: Vec<(usize, Vec<ApiRequest>)> = Vec::new();
    let mut i: usize = 0;
    assert(handback_places(out@) =~= Seq::empty());
    while i < tasks.len()
        invariant
            i <= tasks@.len(),
            handback_places(out@) == returned(client.settings, tasks@, i as int),
            forall|k: int|
                0 <= k < out@.len() ==> (#[trigger] out@[k]).0 < tasks@.len() && sends_back(
                    client.settings,
                    tasks@[out@[k].0 as int],
                    out@[k].1,
                ),
        decreases tasks@.len() - i,
    {
        let v = judge(client, &tasks[i]);
        if let Some(h) = handback(&client.settings, &tasks[i], &v) {
            let ghost before = out@;
            out.push((i, h));
            assert(handback_places(out@) =~= handback_places(before).push(i as int));
        }
        i += 1;
    }
    out
}

fn takes_from(client: &Client, task: &Task, role: &str) -> (r: bool)
    ensures
        r == runs_in(client.settings, *task, role@),
{
    if task.completed || !task.is_assigned_to(client.settings.agent_gid.as_str())
        || task.is_subtask() {
        return false;
    }
    match client.approved_placement(task) {
        Some(p) => match &p.role {
            Some(found) => text_eq(found.as_str(), role),
            None => false,
        },
        None => false,
    }
}

fn due_today(task: &Task, today: &str) -> (r: bool)
    ensures
        r == is_due(*task, today@),
{
    match &task.due_on {
        Some(d) => !comes_before(today, d.as_str()),
        None => false,
    }
}

fn list_role(client: &Client, tasks: &Vec<Task>, role: &str) -> (r: Vec<usize>)
    ensures
        places(r@) == in_role(client.settings, tasks@, role@, tasks@.len() as int),
        forall|k: int| 0 <= k < r@.len() ==> #[trigger] r@[k] < tasks@.len(),
{
    let mut out: Vec<usize> = Vec::new();
    let mut i: usize = 0;
    assert(places(out@) =~= Seq::empty());
    while i < tasks.len()
        invariant
            i <= tasks@.len(),
            places(out@) == in_role(client.settings, tasks@, role@, i as int),
            forall|k: int| 0 <= k < out@.len() ==> #[trigger] out@[k] < tasks@.len(),
        decreases tasks@.len() - i,
    {
        if takes_from(client, &tasks[i], role) {
            let ghost before = out@;
            out.push(i);
            assert(places(out@) =~= places(before).push(i as int));
        }
        i += 1;
    }
    out
}

fn due_before(a: &Task, b: &Task) -> (r: bool)
    ensures
        r == text_before(due_day(*a), due_day(*b)),
{
    match (&a.due_on, &b.due_on) {
        (Some(x), Some(y)) => comes_before(x.as_str(), y.as_str()),
        (None, Some(y)) => !y.as_str().is_empty(),
        (_, None) => false,
    }
}

fn place_due(tasks: &Vec<Task>, v: &mut Vec<usize>, x: usize)
    requires
        x < tasks@.len(),
        forall|k: int| 0 <= k < old(v)@.len() ==> #[trigger] old(v)@[k] < tasks@.len(),
    ensures
        places(final(v)@) == placed(places(old(v)@), x as int, due_order(tasks@)),
        forall|k: int| 0 <= k < final(v)@.len() ==> #[trigger] final(v)@[k] < tasks@.len(),
{
    let n: usize = v.len();
    let mut k: usize = n;
    let ghost all = places(v@);
    let ghost lt = due_order(tasks@);
    assert(all.take(n as int) =~= all);
    proof {
        lemma_placed_inserts(all, x as int, lt);
    }
    while k > 0
        invariant
            k <= n,
            n == v@.len(),
            x < tasks@.len(),
            all == places(v@),
            lt == due_order(tasks@),
            forall|j: int| 0 <= j < v@.len() ==> #[trigger] v@[j] < tasks@.len(),
            n - k + passed(all.take(k as int), x as int, lt) == passed(all, x as int, lt),
        ensures
            k == n - passed(all, x as int, lt),
        decreases k,
    {
        let q: usize = v[k - 1];
        assert(all.take(k as int).last() == q as int);
        if !due_before(&tasks[x], &tasks[q]) {
            assert(passed(all.take(k as int), x as int, lt) == 0);
            break;
        }
        assert(all.take(k as int).drop_last() =~= all.take(k - 1));
        k -= 1;
    }
    v.insert(k, x);
    assert(places(v@) =~= all.insert(k as int, x as int));
}

fn list_due(client: &Client, tasks: &Vec<Task>, today: &str) -> (r: Vec<usize>)
    ensures
        places(r@) == due_queue(client.settings, tasks@, today@),
        forall|k: int| 0 <= k < r@.len() ==> #[trigger] r@[k] < tasks@.len(),
{
    let mut out: Vec<usize> = Vec::new();
    let mut i: usize = 0;
    let ghost s = client.settings;
    let ghost lt = due_order(tasks@);
    assert(places(out@) =~= stable_sorted(Seq::empty(), lt));
    while i < tasks.len()
        invariant
            i <= tasks@.len(),
            s == client.settings,
            lt == due_order(tasks@),
            places(out@) == stable_sorted(due_places(s, tasks@, today@, i as int), lt),
            forall|k: int| 0 <= k < out@.len() ==> #[trigger] out@[k] < tasks@.len(),
        decreases tasks@.len() - i,
    {
        if takes_from(client, &tasks[i], "todo") && due_today(&tasks[i], today) {
            let ghost earlier = due_places(s, tasks@, today@, i as int);
            assert(earlier.push(i as int).drop_last() =~= earlier);
            place_due(tasks, &mut out, i);
        }
        i += 1;
    }
    out
}

fn gid_is_due(client: &Client, tasks: &Vec<Task>, today: &str, gid: &str) -> (r: bool)
    ensures
        r == gid_due(client.settings, tasks@, today@, gid@),
{
    let mut i: usize = 0;
    let ghost s = client.settings;
    while i < tasks.len()
        invariant
            i <= tasks@.len(),
            s == client.settings,
            forall|j: int|
                0 <= j < i && runs_in(s, #[trigger] tasks@[j], "todo"@) && is_due(
                    tasks@[j],
                    today@,
                ) ==> tasks@[j].gid@ != gid@,
        decreases tasks@.len() - i,
    {
        if text_eq(tasks[i].gid.as_str(), gid) && takes_from(client, &tasks[i], "todo")
            && due_today(&tasks[i], today) {
            assert(runs_in(s, tasks@[i as int], "todo"@));
            return true;
        }
        i += 1;
    }
    false
}

fn list_later(client: &Client, tasks: &Vec<Task>, today: &str) -> (r: Vec<usize>)
    ensures
        places(r@) == later_places(client.settings, tasks@, today@, tasks@.len() as int),
        forall|k: int| 0 <= k < r@.len() ==> #[trigger] r@[k] < tasks@.len(),
{
    let mut out: Vec<usize> = Vec::new();
    let mut i: usize = 0;
    assert(places(out@) =~= Seq::empty());
    while i < tasks.len()
        invariant
            i <= tasks@.len(),
            places(out@) == later_places(client.settings, tasks@, today@, i as int),
            forall|k: int| 0 <= k < out@.len() ==> #[trigger] out@[k] < tasks@.len(),
        decreases tasks@.len() - i,
    {
        if takes_from(client, &tasks[i], "todo") && !gid_is_due(
            client,
            tasks,
            today,
            tasks[i].gid.as_str(),
        ) {
            let ghost before = out@;
            out.push(i);
            assert(places(out@) =~= places(before).push(i as int));
        }
        i += 1;
    }
    out
}

/// The places of the tasks that can be taken, in the order in which they are looked at.
pub fn queue(client: &Client, tasks: &Vec<Task>, today: &str) -> (r: Vec<usize>)
    ensures
        places(r@) == queue_of(client.settings, tasks@, today@),
        forall|k: int| 0 <= k < r@.len() ==> #[trigger] r@[k] < tasks@.len(),
{
    let mut out = list_role(client, tasks, "in_progress");
    let mut due = list_due(client, tasks, today);
    let mut reopened = list_role(client, tasks, "reopen");
    let mut later = list_later(client, tasks, today);
    let ghost a = out@;
    let ghost b = due@;
    let ghost c = reopened@;
    let ghost d = later@;
    out.append(&mut due);
    out.append(&mut reopened);
    out.append(&mut later);
    assert(out@ =~= a + b + c + d);
    assert(places(out@) =~= places(a) + places(b) + places(c) + places(d));
    out
}

/// Whether a text in lower case mentions one of the words that stand for manual work.
pub open spec fn mentions(keywords: Seq<Seq<char>>, lowered: Seq<char>) -> bool {
    exists|i: int| 0 <= i < keywords.len() && has_text(lowered, #[trigger] keywords[i])
}

/// Whether the description of a task asks for manual work.
pub open spec fn manual(s: Settings, task: Task) -> bool {
    mentions(texts(s.manual_keywords@), lowercase(task.notes@))
}

pub fn mentions_manual(keywords: &Vec<String>, lowered: &str) -> (r: bool)
    ensures
        r == mentions(texts(keywords@), lowered@),
        forall|i: int| 0 <= i < keywords@.len() && has_text(lowered@, #[trigger] keywords@[i]@) ==> r,
        r ==> exists|i: int| 0 <= i < keywords@.len() && has_text(lowered@, #[trigger] keywords@[i]@),
{
    let ghost words = texts(keywords@);
    let mut i: usize = 0;
    while i < keywords.len()
        invariant
            i <= keywords@.len(),
            words == texts(keywords@),
            forall|j: int| 0 <= j < i ==> !has_text(lowered@, #[trigger] words[j]),
            forall|j: int| 0 <= j < i ==> !has_text(lowered@, #[trigger] keywords@[j]@),
        decreases keywords@.len() - i,
    {
        assert(words[i as int] == keywords@[i as int]@);
        if contains(lowered, keywords[i].as_str()) {
            return true;
        }
        i += 1;
    }
    false
}

/// Whether the description of a task asks for manual work.
pub fn needs_manual(s: &Settings, task: &Task) -> (r: bool)
    ensures
        r == manual(*s, *task),
{
    let lowered = to_lowercase(task.notes.as_str());
    mentions_manual(&s.manual_keywords, lowered.as_str())
}

/// Whether a story is the agent's comment that a task needs manual work.
pub open spec fn blocking(s: Settings, story: Story) -> bool {
    story.comment() && story.author_text() == s.agent_name@ && has_text(
        story.text@,
        s.marker_text(),
    )
}

/// Whether a story comes later than every blocking comment, and not from the agent.
pub open spec fn clearing(s: Settings, stories: Seq<Story>, story: Story) -> bool {
    &&& story.author_text() != s.agent_name@
    &&& forall|i: int|
        0 <= i < stories.len() && blocking(s, #[trigger] stories[i]) ==> text_before(
            stories[i].created_at@,
            story.created_at@,
        )
}

/// Whether somebody dealt with a task after it was blocked.
pub open spec fn cleared(s: Settings, stories: Seq<Story>) -> bool {
    &&& exists|i: int| 0 <= i < stories.len() && blocking(s, #[trigger] stories[i])
    &&& exists|i: int| 0 <= i < stories.len() && clearing(s, stories, #[trigger] stories[i])
}

fn is_blocking(s: &Settings, story: &Story) -> (r: bool)
    ensures
        r == blocking(*s, *story),
{
    story.is_comment() && text_eq(story.author(), s.agent_name.as_str()) && contains(
        story.text.as_str(),
        s.manual_marker(),
    )
}

/// Whether somebody dealt with a task after it was blocked: the history holds the agent's comment
/// that the task needs manual work and, later than the last such comment, a story of another
/// author. A history that could not be had counts as no.
pub fn was_manually_cleared(s: &Settings, stories: Option<&Vec<Story>>) -> (r: bool)
    ensures
        r == (match stories {
            Some(v) => cleared(*s, v@),
            None => false,
        }),
{
    let v = match stories {
        Some(v) => v,
        None => {
            return false;
        },
    };
    let mut last: Option<usize> = None;
    let mut i: usize = 0;
    while i < v.len()
        invariant
            i <= v@.len(),
            match last {
                Some(k) => {
                    &&& k < i
                    &&& blocking(*s, v@[k as int])
                    &&& forall|j: int|
                        0 <= j < i && blocking(*s, #[trigger] v@[j]) ==> !text_before(
                            v@[k as int].created_at@,
                            v@[j].created_at@,
                        )
                },
                None => forall|j: int| 0 <= j < i ==> !blocking(*s, #[trigger] v@[j]),
            },
        decreases v@.len() - i,
    {
        if is_blocking(s, &v[i]) {
            let newer = match last {
                Some(k) => comes_before(v[k].created_at.as_str(), v[i].created_at.as_str()),
                None => true,
            };
            if newer {
                proof {
                    lemma_before_irreflexive(v@[i as int].created_at@);
                    if last is Some {
                        let k = last->0 as int;
                        assert forall|j: int|
                            0 <= j <= i && blocking(*s, #[trigger] v@[j]) implies !text_before(
                            v@[i as int].created_at@,
                            v@[j].created_at@,
                        ) by {
                            if j < i && text_before(
                                v@[i as int].created_at@,
                                v@[j].created_at@,
                            ) {
                                lemma_before_transitive(
                                    v@[k].created_at@,
                                    v@[i as int].created_at@,
                                    v@[j].created_at@,
                                );
                            }
                        }
                    }
                }
                last = Some(i);
            }
        }
        i += 1;
    }
    let k: usize = match last {
        Some(k) => k,
        None => {
            return false;
        },
    };
    assert(blocking(*s, v@[k as int]));
    let mut n: usize = 0;
    while n < v.len()
        invariant
            n <= v@.len(),
            k < v@.len(),
            blocking(*s, v@[k as int]),
            forall|j: int|
                0 <= j < v@.len() && blocking(*s, #[trigger] v@[j]) ==> !text_before(
                    v@[k as int].created_at@,
                    v@[j].created_at@,
                ),
            forall|j: int| 0 <= j < n ==> !clearing(*s, v@, #[trigger] v@[j]),
            stories == Some(v),
        decreases v@.len() - n,
    {
        if comes_before(v[k].created_at.as_str(), v[n].created_at.as_str()) && !text_eq(
            v[n].author(),
            s.agent_name.as_str(),
        ) {
            proof {
                assert forall|j: int|
                    0 <= j < v@.len() && blocking(*s, #[trigger] v@[j]) implies text_before(
                    v@[j].created_at@,
                    v@[n as int].created_at@,
                ) by {
                    lemma_before_total(v@[k as int].created_at@, v@[j].created_at@);
                    if text_before(v@[j].created_at@, v@[k as int].created_at@) {
                        lemma_before_transitive(
                            v@[j].created_at@,
                            v@[k as int].created_at@,
                            v@[n as int].created_at@,
                        );
                    }
                }
                assert(clearing(*s, v@, v@[n as int]));
            }
            return true;
        }
        n += 1;
    }
    false
}

/// The choice of a task under way: the tasks, the places of those that can be taken, and how many
/// of these were blocked so far.
#[derive(Debug)]
pub struct Selection {
    pub tasks: Vec<Task>,
    pub queue: Vec<usize>,
    pub at: usize,
}

impl Selection {
    /// Whether the queue holds places of tasks that can be taken.
    pub open spec fn fits(&self, s: Settings) -> bool {
        &&& self.at <= self.queue@.len()
        &&& forall|k: int|
            0 <= k < self.queue@.len() ==> #[trigger] self.queue@[k] < self.tasks@.len()
                && runnable(s, self.tasks@[self.queue@[k] as int])
    }

    /// The place of the task that is taken in the end, given the histories of the tasks by place.
    pub open spec fn choice(
        &self,
        s: Settings,
        histories: spec_fn(int) -> Option<Seq<Story>>,
    ) -> Option<int> {
        taken(s, self.tasks@, places(self.queue@), histories, self.at as int)
    }

    /// The places of the tasks that are still blocked before the search ends, in their order.
    pub open spec fn blocked(
        &self,
        s: Settings,
        histories: spec_fn(int) -> Option<Seq<Story>>,
    ) -> Seq<int> {
        passed_over(s, self.tasks@, places(self.queue@), histories, self.at as int)
    }

    /// The task that is looked at.
    pub open spec fn current(&self) -> Task {
        self.tasks@[self.queue@[self.at as int] as int]
    }
}

/// A history as a sequence.
pub open spec fn stories_text(stories: Option<&Vec<Story>>) -> Option<Seq<Story>> {
    match stories {
        Some(v) => Some(v@),
        None => None,
    }
}

/// What to do for the choice of a task.
#[derive(Debug)]
pub enum SelectStep {
    /// There is no task to be taken.
    Nothing,
    /// The task at this place is taken.
    Take(usize, Placement),
    /// The history of the task at this place is needed, and goes to `answer`.
    Ask(usize, ApiRequest),
}

/// What follows from the history of a task.
#[derive(Debug)]
pub enum AnswerStep {
    /// The task at this place is taken.
    Take(usize, Placement),
    /// The task at this place is blocked, by these writes in this order.
    Block(usize, Vec<Write>, Placement),
}

/// What is written to Asana.
#[derive(Debug)]
pub enum Write {
    Send(ApiRequest),
    /// The task goes into another section.
    Move(MoveStep),
}

/// What is written to Asana, as texts.
pub enum WriteView {
    Send(ApiRequestView),
    Move(MoveStepView),
}

impl View for Write {
    type V = WriteView;

    open spec fn view(&self) -> WriteView {
        match self {
            Write::Send(request) => WriteView::Send(request@),
            Write::Move(step) => WriteView::Move(step@),
        }
    }
}

/// The writes behind a list.
pub open spec fn writes(v: Seq<Write>) -> Seq<WriteView> {
    v.map_values(|w: Write| w@)
}

/// How a task gets into the section of a project for the role `blocked`.
pub open spec fn blocking_move(client: Client, gid: Seq<char>, project: Seq<char>) -> MoveStepView {
    move_step(gid, client.section_step(project, "blocked"@))
}

/// The writes by which a task that needs manual work is blocked, in their order: the comment, the
/// assignment to the operator, and the move into the section of its own project for `blocked`.
pub open spec fn blocking_writes(client: Client, gid: Seq<char>, project: Seq<char>) -> Seq<
    WriteView,
> {
    seq![
        WriteView::Send(comment_request(gid, client.settings.manual_text())),
        WriteView::Send(operator_request(client.settings, gid)),
        WriteView::Move(blocking_move(client, gid, project)),
    ]
}

/// How a task that needs manual work gets into the section of its own project for `blocked`.
pub fn block_move(client: &Client, task: &Task, p: &Placement) -> (step: MoveStep)
    ensures
        step@ == move_step(task.gid@, client.section_step(p.project_gid@, "blocked"@)),
{
    client.move_task_to_role(task.gid.as_str(), p.project_gid.as_str(), BLOCKED)
}

/// The writes by which a task that needs manual work is blocked, in their order.
pub fn block_writes(client: &Client, task: &Task, p: &Placement) -> (r: Vec<Write>)
    ensures
        writes(r@) == blocking_writes(*client, task.gid@, p.project_gid@),
{
    let s = &client.settings;
    let gid = task.gid.as_str();
    let mut out: Vec<Write> = Vec::new();
    out.push(Write::Send(Client::add_comment(gid, s.msg_manual())));
    out.push(Write::Send(Client::set_assignee(gid, Some(s.operator_gid.as_str()))));
    out.push(Write::Move(block_move(client, task, p)));
    assert(writes(out@) =~= blocking_writes(*client, task.gid@, p.project_gid@));
    out
}

/// The role into which a task goes that needs manual work.
pub const BLOCKED: &'static str = "blocked";

/// The request for the history of a task.
pub open spec fn stories_request(gid: Seq<char>) -> ApiRequestView {
    crate::client::fetching(
        address(
            "/tasks/"@,
            gid,
            "/stories?limit=100&opt_fields=resource_subtype,text,created_at,created_by.name"@,
        ),
    )
}

/// Begins the choice among the tasks that are assigned to the agent.
pub fn select_task(client: &Client, tasks: Vec<Task>, today: &str) -> (r: Selection)
    ensures
        r.tasks == tasks,
        places(r.queue@) == queue_of(client.settings, tasks@, today@),
        r.at == 0,
        r.fits(client.settings),
{
    let queue = queue(client, &tasks, today);
    proof {
        assert forall|k: int| 0 <= k < queue@.len() implies #[trigger] queue@[k] < tasks@.len()
            && runnable(client.settings, tasks@[queue@[k] as int]) by {
            assert(places(queue@)[k] == queue@[k] as int);
            law_queue_holds_runnable_tasks(client.settings, tasks@, today@, k);
        }
    }
    Selection { tasks, queue, at: 0 }
}

impl Selection {
    /// The next step of the choice.
    pub fn next(&self, client: &Client) -> (r: SelectStep)
        requires
            self.fits(client.settings),
        ensures
            forall|histories: spec_fn(int) -> Option<Seq<Story>>|
                match r {
                    SelectStep::Nothing => {
                        &&& #[trigger] self.choice(client.settings, histories) is None
                        &&& self.blocked(client.settings, histories) == Seq::<int>::empty()
                    },
                    SelectStep::Take(i, _) => {
                        &&& self.choice(client.settings, histories) == Some(i as int)
                        &&& self.blocked(client.settings, histories) == Seq::<int>::empty()
                    },
                    SelectStep::Ask(_, _) => true,
                },
            if self.at == self.queue@.len() {
                r is Nothing
            } else if manual(client.settings, self.current()) {
                r matches SelectStep::Ask(i, request) && i == self.queue@[self.at as int]
                    && request@ == stories_request(self.current().gid@)
            } else {
                r matches SelectStep::Take(i, p) && i == self.queue@[self.at as int] && Some(p@)
                    == working_place(client.settings, self.current())
            },
    {
        if self.at == self.queue.len() {
            return SelectStep::Nothing;
        }
        let i: usize = self.queue[self.at];
        let task = &self.tasks[i];
        if needs_manual(&client.settings, task) {
            return SelectStep::Ask(i, Client::get_stories(task.gid.as_str()));
        }
        SelectStep::Take(i, client.approved_placement(task).unwrap())
    }

    /// Goes on with the history of the task that `next` asked for, `None` where it could not be
    /// had. A task that was dealt with since it was blocked is taken; another one is blocked.
    pub fn answer(&mut self, client: &Client, stories: Option<&Vec<Story>>) -> (r: AnswerStep)
        requires
            old(self).fits(client.settings),
            old(self).at < old(self).queue@.len(),
        ensures
            final(self).fits(client.settings),
            final(self).tasks == old(self).tasks,
            final(self).queue == old(self).queue,
            forall|histories: spec_fn(int) -> Option<Seq<Story>>|
                manual(client.settings, old(self).current()) && histories(
                    old(self).queue@[old(self).at as int] as int,
                ) == stories_text(stories) ==> match r {
                    AnswerStep::Take(i, _) => {
                        &&& #[trigger] old(self).choice(client.settings, histories) == Some(
                            i as int,
                        )
                        &&& old(self).blocked(client.settings, histories) == Seq::<int>::empty()
                    },
                    AnswerStep::Block(i, _, _) => {
                        &&& old(self).choice(client.settings, histories) == final(self).choice(
                            client.settings,
                            histories,
                        )
                        &&& old(self).blocked(client.settings, histories) == seq![i as int]
                            + final(self).blocked(client.settings, histories)
                    },
                },
            if stories is Some && cleared(client.settings, stories->0@) {
                &&& r matches AnswerStep::Take(i, p)
                &&& i == old(self).queue@[old(self).at as int]
                &&& Some(p@) == working_place(client.settings, old(self).current())
                &&& final(self).at == old(self).at
            } else {
                &&& r matches AnswerStep::Block(i, w, p)
                &&& i == old(self).queue@[old(self).at as int]
                &&& writes(w@) == blocking_writes(
                    *client,
                    old(self).current().gid@,
                    p.project_gid@,
                )
                &&& Some(p@) == working_place(client.settings, old(self).current())
                &&& final(self).at == old(self).at + 1
            },
    {
        let n: usize = self.queue.len();
        assert(self.at < n);
        let i: usize = self.queue[self.at];
        let task = &self.tasks[i];
        let p = client.approved_placement(task).unwrap();
        if was_manually_cleared(&client.settings, stories) {
            return AnswerStep::Take(i, p);
        }
        let w = block_writes(client, task, &p);
        self.at = self.at + 1;
        AnswerStep::Block(i, w, p)
    }
}

proof fn lemma_in_role(s: Settings, tasks: Seq<Task>, role: Seq<char>, n: int)
    requires
        0 <= n <= tasks.len(),
    ensures
        forall|k: int|
            0 <= k < in_role(s, tasks, role, n).len() ==> 0 <= #[trigger] in_role(
                s,
                tasks,
                role,
                n,
            )[k] < n && runs_in(s, tasks[in_role(s, tasks, role, n)[k]], role),
        forall|i: int|
            0 <= i < n && runs_in(s, #[trigger] tasks[i], role) ==> in_role(
                s,
                tasks,
                role,
                n,
            ).contains(i),
        in_role(s, tasks, role, n).no_duplicates(),
    decreases n,
{
    if n > 0 {
        lemma_in_role(s, tasks, role, n - 1);
        let prior = in_role(s, tasks, role, n - 1);
        let now = in_role(s, tasks, role, n);
        if runs_in(s, tasks[n - 1], role) {
            assert(now == prior.push(n - 1));
            assert(now[prior.len() as int] == n - 1);
            assert forall|i: int|
                0 <= i < n && runs_in(s, #[trigger] tasks[i], role) implies now.contains(i) by {
                if i < n - 1 {
                    let k = prior.index_of(i);
                    assert(now[k] == i);
                }
            }
        }
    }
}

proof fn lemma_due_places(s: Settings, tasks: Seq<Task>, today: Seq<char>, n: int)
    requires
        0 <= n <= tasks.len(),
    ensures
        forall|k: int|
            0 <= k < due_places(s, tasks, today, n).len() ==> 0 <= #[trigger] due_places(
                s,
                tasks,
                today,
                n,
            )[k] < n && runs_in(s, tasks[due_places(s, tasks, today, n)[k]], "todo"@) && is_due(
                tasks[due_places(s, tasks, today, n)[k]],
                today,
            ),
        forall|i: int|
            0 <= i < n && runs_in(s, #[trigger] tasks[i], "todo"@) && is_due(tasks[i], today)
                ==> due_places(s, tasks, today, n).contains(i),
        due_places(s, tasks, today, n).no_duplicates(),
    decreases n,
{
    if n > 0 {
        lemma_due_places(s, tasks, today, n - 1);
        let prior = due_places(s, tasks, today, n - 1);
        let now = due_places(s, tasks, today, n);
        if runs_in(s, tasks[n - 1], "todo"@) && is_due(tasks[n - 1], today) {
            assert(now == prior.push(n - 1));
            assert(now[prior.len() as int] == n - 1);
            assert forall|i: int|
                0 <= i < n && runs_in(s, #[trigger] tasks[i], "todo"@) && is_due(
                    tasks[i],
                    today,
                ) implies now.contains(i) by {
                if i < n - 1 {
                    let k = prior.index_of(i);
                    assert(now[k] == i);
                }
            }
        }
    }
}

proof fn lemma_later_places(s: Settings, tasks: Seq<Task>, today: Seq<char>, n: int)
    requires
        0 <= n <= tasks.len(),
    ensures
        forall|k: int|
            0 <= k < later_places(s, tasks, today, n).len() ==> 0 <= #[trigger] later_places(
                s,
                tasks,
                today,
                n,
            )[k] < n && runs_in(s, tasks[later_places(s, tasks, today, n)[k]], "todo"@)
                && !gid_due(s, tasks, today, tasks[later_places(s, tasks, today, n)[k]].gid@),
        forall|i: int|
            0 <= i < n && runs_in(s, #[trigger] tasks[i], "todo"@) && !gid_due(
                s,
                tasks,
                today,
                tasks[i].gid@,
            ) ==> later_places(s, tasks, today, n).contains(i),
        later_places(s, tasks, today, n).no_duplicates(),
    decreases n,
{
    if n > 0 {
        lemma_later_places(s, tasks, today, n - 1);
        let prior = later_places(s, tasks, today, n - 1);
        let now = later_places(s, tasks, today, n);
        if runs_in(s, tasks[n - 1], "todo"@) && !gid_due(s, tasks, today, tasks[n - 1].gid@) {
            assert(now == prior.push(n - 1));
            assert(now[prior.len() as int] == n - 1);
            assert forall|i: int|
                0 <= i < n && runs_in(s, #[trigger] tasks[i], "todo"@) && !gid_due(
                    s,
                    tasks,
                    today,
                    tasks[i].gid@,
                ) implies now.contains(i) by {
                if i < n - 1 {
                    let k = prior.index_of(i);
                    assert(now[k] == i);
                }
            }
        }
    }
}

proof fn lemma_sorted_same_places(v: Seq<int>, lt: spec_fn(int, int) -> bool)
    ensures
        forall|i: int| stable_sorted(v, lt).contains(i) <==> v.contains(i),
        stable_sorted(v, lt).len() == v.len(),
        v.no_duplicates() ==> stable_sorted(v, lt).no_duplicates(),
{
    law_sorted_same_items(v, lt);
    let w = stable_sorted(v, lt);
    v.to_multiset_ensures();
    w.to_multiset_ensures();
    assert forall|i: int| w.contains(i) <==> v.contains(i) by {
        assert(w.contains(i) <==> w.to_multiset().count(i) > 0);
        assert(v.contains(i) <==> v.to_multiset().count(i) > 0);
    }
    if v.no_duplicates() {
        v.lemma_multiset_has_no_duplicates();
        assert forall|x: int| w.to_multiset().contains(x) implies w.to_multiset().count(x) == 1 by {
            assert(v.to_multiset().contains(x));
        }
        w.lemma_multiset_has_no_duplicates_conv();
    }
}

/// The queue holds places of tasks that can be taken: tasks of the agent that are open, no
/// subtasks, and lie in an approved section with the role `in_progress`, `todo` or `reopen`.
pub proof fn law_queue_holds_runnable_tasks(s: Settings, tasks: Seq<Task>, today: Seq<char>, k: int)
    requires
        0 <= k < queue_of(s, tasks, today).len(),
    ensures
        ({
            let i = queue_of(s, tasks, today)[k];
            &&& 0 <= i < tasks.len()
            &&& runnable(s, tasks[i])
            &&& runs_in(s, tasks[i], "in_progress"@) || runs_in(s, tasks[i], "todo"@) || runs_in(
                s,
                tasks[i],
                "reopen"@,
            )
        }),
{
    let n = tasks.len() as int;
    let a = in_role(s, tasks, "in_progress"@, n);
    let d = due_places(s, tasks, today, n);
    let b = due_queue(s, tasks, today);
    let c = in_role(s, tasks, "reopen"@, n);
    let e = later_places(s, tasks, today, n);
    lemma_in_role(s, tasks, "in_progress"@, n);
    lemma_in_role(s, tasks, "reopen"@, n);
    lemma_due_places(s, tasks, today, n);
    lemma_later_places(s, tasks, today, n);
    lemma_sorted_same_places(d, due_order(tasks));
    let q = a + b + c + e;
    let i = q[k];
    if k < a.len() {
        assert(i == a[k]);
    } else if k < a.len() + b.len() {
        assert(i == b[k - a.len()]);
        assert(b.contains(i));
        assert(d.contains(i));
        assert(i == d[d.index_of(i)]);
    } else if k < a.len() + b.len() + c.len() {
        assert(i == c[k - a.len() - b.len()]);
    } else {
        assert(i == e[k - a.len() - b.len() - c.len()]);
    }
}

/// No task stands in the queue twice.
pub proof fn law_queue_without_repeats(s: Settings, tasks: Seq<Task>, today: Seq<char>)
    ensures
        queue_of(s, tasks, today).no_duplicates(),
{
    let n = tasks.len() as int;
    let a = in_role(s, tasks, "in_progress"@, n);
    let d = due_places(s, tasks, today, n);
    let b = due_queue(s, tasks, today);
    let c = in_role(s, tasks, "reopen"@, n);
    let e = later_places(s, tasks, today, n);
    lemma_in_role(s, tasks, "in_progress"@, n);
    lemma_in_role(s, tasks, "reopen"@, n);
    lemma_due_places(s, tasks, today, n);
    lemma_later_places(s, tasks, today, n);
    lemma_sorted_same_places(d, due_order(tasks));
    lemma_roles_differ();
    let q = a + b + c + e;
    assert forall|x: int, y: int| 0 <= x < y < q.len() implies q[x] != q[y] by {
        lemma_queue_rank(s, tasks, today, x);
        lemma_queue_rank(s, tasks, today, y);
        let i = q[x];
        if i == q[y] {
            if y < a.len() {
                assert(a[x] == a[y]);
            } else if x < a.len() {
            } else if y < a.len() + b.len() {
                assert(b[x - a.len()] == b[y - a.len()]);
            } else if x < a.len() + b.len() {
                if y >= a.len() + b.len() + c.len() {
                    assert(gid_due(s, tasks, today, tasks[i].gid@));
                }
            } else if y < a.len() + b.len() + c.len() {
                assert(c[x - a.len() - b.len()] == c[y - a.len() - b.len()]);
            } else if x < a.len() + b.len() + c.len() {
            } else {
                assert(e[x - a.len() - b.len() - c.len()] == e[y - a.len() - b.len() - c.len()]);
            }
        }
    }
}

proof fn lemma_roles_differ()
    ensures
        "in_progress"@ != "todo"@,
        "in_progress"@ != "reopen"@,
        "todo"@ != "reopen"@,
{
    reveal_strlit("in_progress");
    reveal_strlit("todo");
    reveal_strlit("reopen");
    assert("in_progress"@.len() != "todo"@.len());
    assert("in_progress"@.len() != "reopen"@.len());
    assert("todo"@.len() != "reopen"@.len());
}

/// Which part of the queue a task belongs to: 0 for `in_progress`, 1 for `todo` that is due, 2 for
/// `reopen`, 3 for the rest of `todo`.
pub open spec fn rank(s: Settings, task: Task, today: Seq<char>) -> int {
    if runs_in(s, task, "in_progress"@) {
        0
    } else if runs_in(s, task, "reopen"@) {
        2
    } else if is_due(task, today) {
        1
    } else {
        3
    }
}

proof fn lemma_queue_rank(s: Settings, tasks: Seq<Task>, today: Seq<char>, k: int)
    requires
        0 <= k < queue_of(s, tasks, today).len(),
    ensures
        ({
            let n = tasks.len() as int;
            let a = in_role(s, tasks, "in_progress"@, n).len();
            let b = due_queue(s, tasks, today).len();
            let c = in_role(s, tasks, "reopen"@, n).len();
            let i = queue_of(s, tasks, today)[k];
            &&& 0 <= i < tasks.len()
            &&& k < a <==> rank(s, tasks[i], today) == 0
            &&& a <= k < a + b <==> rank(s, tasks[i], today) == 1
            &&& a + b <= k < a + b + c <==> rank(s, tasks[i], today) == 2
            &&& a + b + c <= k <==> rank(s, tasks[i], today) == 3
            &&& rank(s, tasks[i], today) == 1 ==> runs_in(s, tasks[i], "todo"@)
            &&& rank(s, tasks[i], today) == 3 ==> runs_in(s, tasks[i], "todo"@) && !gid_due(
                s,
                tasks,
                today,
                tasks[i].gid@,
            )
        }),
{
    let n = tasks.len() as int;
    let a = in_role(s, tasks, "in_progress"@, n);
    let d = due_places(s, tasks, today, n);
    let b = due_queue(s, tasks, today);
    let c = in_role(s, tasks, "reopen"@, n);
    let e = later_places(s, tasks, today, n);
    lemma_in_role(s, tasks, "in_progress"@, n);
    lemma_in_role(s, tasks, "reopen"@, n);
    lemma_due_places(s, tasks, today, n);
    lemma_later_places(s, tasks, today, n);
    lemma_sorted_same_places(d, due_order(tasks));
    lemma_roles_differ();
    let q = a + b + c + e;
    let i = q[k];
    if k < a.len() {
        assert(i == a[k]);
    } else if k < a.len() + b.len() {
        assert(i == b[k - a.len()]);
        assert(b.contains(i));
        assert(d.contains(i));
        assert(i == d[d.index_of(i)]);
    } else if k < a.len() + b.len() + c.len() {
        assert(i == c[k - a.len() - b.len()]);
    } else {
        assert(i == e[k - a.len() - b.len() - c.len()]);
        if is_due(tasks[i], today) {
            assert(gid_due(s, tasks, today, tasks[i].gid@));
        }
    }
}

proof fn lemma_due_order(tasks: Seq<Task>)
    ensures
        strict_weak(due_order(tasks)),
{
    let lt = due_order(tasks);
    assert forall|a: int| !#[trigger] lt(a, a) by {
        lemma_before_irreflexive(due_day(tasks[a]));
    }
    assert forall|a: int, b: int, c: int| #[trigger] lt(a, b) && #[trigger] lt(b, c) implies lt(
        a,
        c,
    ) by {
        lemma_before_transitive(due_day(tasks[a]), due_day(tasks[b]), due_day(tasks[c]));
    }
    assert forall|a: int, b: int, c: int|
        !(#[trigger] lt(a, b)) && !(#[trigger] lt(b, c)) implies !lt(a, c) by {
        let (x, y, z) = (due_day(tasks[a]), due_day(tasks[b]), due_day(tasks[c]));
        if text_before(x, z) {
            lemma_before_total(x, y);
            lemma_before_total(y, z);
            if text_before(z, y) && text_before(y, x) {
                lemma_before_transitive(z, y, x);
                lemma_before_transitive(x, z, x);
                lemma_before_irreflexive(x);
            } else if text_before(z, y) {
                lemma_before_transitive(x, z, x);
                lemma_before_irreflexive(x);
            } else if text_before(y, x) {
                lemma_before_transitive(x, z, x);
                lemma_before_irreflexive(x);
            } else {
                lemma_before_irreflexive(x);
            }
        }
    }
}

/// Whether numbers increase from one to the next.
spec fn increasing(v: Seq<int>) -> bool {
    forall|i: int, j: int| 0 <= i < j < v.len() ==> #[trigger] v[i] < #[trigger] v[j]
}

proof fn lemma_role_increases(s: Settings, tasks: Seq<Task>, role: Seq<char>, n: int)
    requires
        0 <= n <= tasks.len(),
    ensures
        increasing(in_role(s, tasks, role, n)),
    decreases n,
{
    if n > 0 {
        lemma_role_increases(s, tasks, role, n - 1);
        lemma_in_role(s, tasks, role, n - 1);
    }
}

proof fn lemma_places_increase(s: Settings, tasks: Seq<Task>, today: Seq<char>, n: int)
    requires
        0 <= n <= tasks.len(),
    ensures
        increasing(in_role(s, tasks, "in_progress"@, n)),
        increasing(due_places(s, tasks, today, n)),
        increasing(in_role(s, tasks, "reopen"@, n)),
        increasing(later_places(s, tasks, today, n)),
    decreases n,
{
    lemma_role_increases(s, tasks, "in_progress"@, n);
    lemma_role_increases(s, tasks, "reopen"@, n);
    if n > 0 {
        lemma_places_increase(s, tasks, today, n - 1);
        lemma_due_places(s, tasks, today, n - 1);
        lemma_later_places(s, tasks, today, n - 1);
    }
}

/// Places that tie keep their order when they are sorted by the day.
proof fn lemma_ties_increase(tasks: Seq<Task>, v: Seq<int>, j: int, k: int)
    requires
        increasing(v),
        0 <= j < k < v.len(),
        ({
            let w = stable_sorted(v, due_order(tasks));
            due_day(tasks[w[j]]) == due_day(tasks[w[k]])
        }),
    ensures
        ({
            let w = stable_sorted(v, due_order(tasks));
            w[j] < w[k]
        }),
    decreases v.len(),
{
    let lt = due_order(tasks);
    let w = stable_sorted(v, lt);
    let head = v.drop_last();
    let t = stable_sorted(head, lt);
    let x = v.last();
    lemma_sorted_same_places(head, lt);
    lemma_placed_inserts(t, x, lt);
    lemma_passed(t, x, lt);
    let at = t.len() - passed(t, x, lt);
    assert forall|i: int| 0 <= i < t.len() implies #[trigger] t[i] < x by {
        assert(t.contains(t[i]));
        assert(head.contains(t[i]));
        let m = head.index_of(t[i]);
        assert(head[m] == v[m]);
        assert(v[m] < v[v.len() - 1]);
    }
    lemma_before_irreflexive(due_day(tasks[x]));
    if k == at {
    } else if j == at {
        assert(lt(x, t[k - 1]));
    } else {
        lemma_ties_increase(
            tasks,
            head,
            if j < at { j } else { j - 1 },
            if k < at { k } else { k - 1 },
        );
    }
}

/// The queue goes by urgency: `in_progress`, then `todo` that is due with the earliest day first,
/// then `reopen`, then the rest of `todo`. Tasks of one kind, and of one day where they are due, go
/// as they were listed.
pub proof fn law_queue_by_urgency(s: Settings, tasks: Seq<Task>, today: Seq<char>, j: int, k: int)
    requires
        0 <= j < k < queue_of(s, tasks, today).len(),
    ensures
        ({
            let q = queue_of(s, tasks, today);
            let a = tasks[q[j]];
            let b = tasks[q[k]];
            &&& rank(s, a, today) <= rank(s, b, today)
            &&& rank(s, a, today) == 1 && rank(s, b, today) == 1 ==> !text_before(
                due_day(b),
                due_day(a),
            )
            &&& rank(s, a, today) == rank(s, b, today) && (rank(s, a, today) == 1 ==> due_day(a)
                == due_day(b)) ==> q[j] < q[k]
        }),
{
    lemma_queue_rank(s, tasks, today, j);
    lemma_queue_rank(s, tasks, today, k);
    lemma_places_increase(s, tasks, today, tasks.len() as int);
    let n = tasks.len() as int;
    let a = in_role(s, tasks, "in_progress"@, n);
    let b = due_queue(s, tasks, today);
    let c = in_role(s, tasks, "reopen"@, n);
    let e = later_places(s, tasks, today, n);
    let q = a + b + c + e;
    if a.len() <= j && k < a.len() + b.len() {
        lemma_due_order(tasks);
        law_sorted_in_order(due_places(s, tasks, today, n), due_order(tasks));
        assert(q[j] == b[j - a.len()]);
        assert(q[k] == b[k - a.len()]);
        let lt = due_order(tasks);
        assert(!lt(b[k - a.len()], b[j - a.len()]));
        if due_day(tasks[q[j]]) == due_day(tasks[q[k]]) {
            law_sorted_same_items(due_places(s, tasks, today, n), due_order(tasks));
            lemma_ties_increase(tasks, due_places(s, tasks, today, n), j - a.len(), k - a.len());
        }
    } else if k < a.len() {
        assert(a[j] < a[k]);
    } else if a.len() + b.len() <= j && k < a.len() + b.len() + c.len() {
        assert(c[j - a.len() - b.len()] < c[k - a.len() - b.len()]);
    } else if a.len() + b.len() + c.len() <= j {
        assert(e[j - a.len() - b.len() - c.len()] < e[k - a.len() - b.len() - c.len()]);
    }
}

/// Every task that can be taken from `in_progress`, `todo` or `reopen` stands in the queue; one in
/// `todo` that is not due may be left out only where the same gid is due.
pub proof fn law_queue_complete(s: Settings, tasks: Seq<Task>, today: Seq<char>, i: int)
    requires
        0 <= i < tasks.len(),
        runs_in(s, tasks[i], "in_progress"@) || runs_in(s, tasks[i], "todo"@) || runs_in(
            s,
            tasks[i],
            "reopen"@,
        ),
    ensures
        queue_of(s, tasks, today).contains(i) || (runs_in(s, tasks[i], "todo"@) && !is_due(
            tasks[i],
            today,
        ) && gid_due(s, tasks, today, tasks[i].gid@)),
{
    let n = tasks.len() as int;
    let a = in_role(s, tasks, "in_progress"@, n);
    let d = due_places(s, tasks, today, n);
    let b = due_queue(s, tasks, today);
    let c = in_role(s, tasks, "reopen"@, n);
    let e = later_places(s, tasks, today, n);
    lemma_in_role(s, tasks, "in_progress"@, n);
    lemma_in_role(s, tasks, "reopen"@, n);
    lemma_due_places(s, tasks, today, n);
    lemma_later_places(s, tasks, today, n);
    lemma_sorted_same_places(d, due_order(tasks));
    let q = a + b + c + e;
    if runs_in(s, tasks[i], "in_progress"@) {
        let k = a.index_of(i);
        assert(q[k] == i);
    } else if runs_in(s, tasks[i], "reopen"@) {
        let k = c.index_of(i);
        assert(q[a.len() + b.len() + k] == i);
    } else if is_due(tasks[i], today) {
        assert(d.contains(i));
        assert(b.contains(i));
        let k = b.index_of(i);
        assert(q[a.len() + k] == i);
    } else if !gid_due(s, tasks, today, tasks[i].gid@) {
        let k = e.index_of(i);
        assert(q[a.len() + b.len() + c.len() + k] == i);
    }
}

proof fn lemma_first_approved(s: Settings, ms: Seq<Membership>, i: int)
    requires
        0 <= i <= ms.len(),
    ensures
        first_approved_place(s, ms, i) matches Some(p) ==> p.role is Some && s.approves(
            p.role->0,
        ) && exists|j: int|
            i <= j < ms.len() && crate::client::approved_place(s, #[trigger] ms[j]) && place(
                s,
                ms[j],
            ) == Some(p),
    decreases ms.len() - i,
{
    if i < ms.len() {
        if crate::client::approved_place(s, ms[i]) {
            assert(place(s, ms[i]) == first_approved_place(s, ms, i));
        } else {
            lemma_first_approved(s, ms, i + 1);
        }
    }
}

/// A task is taken only out of one of its own sections, and only where the settings approve of the
/// role of that section.
pub proof fn law_taken_from_approved_section(s: Settings, task: Task)
    ensures
        verdict(s, task) matches VerdictView::Run(p) ==> p.role is Some && s.approves(p.role->0)
            && exists|j: int|
            0 <= j < task.memberships@.len() && place(s, #[trigger] task.memberships@[j]) == Some(
                p,
            ),
{
    lemma_first_approved(s, task.memberships@, 0);
}

/// A task that lies in `done`, and nowhere from where it is taken, is left alone.
pub proof fn law_done_left_alone(s: Settings, task: Task)
    requires
        working_place(s, task) is None,
        governing_place(s, task) is Some,
        governing_place(s, task)->0.role == Some("done"@),
    ensures
        verdict(s, task) == VerdictView::Skip,
        handback_text(s, verdict(s, task)) is None,
{
}

/// A task of somebody else, a closed task and a subtask are neither taken nor sent back.
pub proof fn law_foreign_tasks_left_alone(s: Settings, task: Task)
    requires
        task.completed || task.assignee_text() != Some(s.agent_gid@) || task.parent is Some,
    ensures
        verdict(s, task) == VerdictView::Skip,
        handback_text(s, verdict(s, task)) is None,
        !runnable(s, task),
{
}

/// The comment with which the agent blocks a task is found again as such.
pub proof fn law_own_block_is_found(s: Settings, story: Story)
    requires
        story.comment(),
        story.author_text() == s.agent_name@,
        story.text@ == s.manual_text(),
    ensures
        blocking(s, story),
{
    law_manual_comment_is_marked(s);
}

/// A task that the agent has just blocked stays blocked: what only the agent wrote, or what is not
/// later than the blocking comment, does not clear it.
pub proof fn law_block_stays_until_somebody_answers(s: Settings, stories: Seq<Story>, k: int)
    requires
        0 <= k < stories.len(),
        blocking(s, stories[k]),
        forall|i: int|
            0 <= i < stories.len() ==> (#[trigger] stories[i]).author_text() == s.agent_name@
                || !text_before(stories[k].created_at@, stories[i].created_at@),
    ensures
        !cleared(s, stories),
{
    assert forall|i: int| 0 <= i < stories.len() implies !clearing(s, stories, #[trigger] stories[i]) by {
        if stories[i].author_text() != s.agent_name@ {
            assert(blocking(s, stories[k]));
        }
    }
}

/// A task of the agent in a section with a role from which nothing is taken goes back to the
/// operator, with a comment that names the section.
pub proof fn law_other_known_section_goes_back(s: Settings, task: Task)
    requires
        own(s, task),
        working_place(s, task) is None,
        governing_place(s, task) is Some,
        governing_place(s, task)->0.role is Some,
        governing_place(s, task)->0.role->0 != "done"@,
    ensures
        handback_text(s, verdict(s, task)) == Some(
            s.not_approved_text(governing_place(s, task)->0.section_name),
        ),
{
}

/// A task of the agent on a board whose sections have no roles goes back to the operator.
pub proof fn law_mismatched_board_goes_back(s: Settings, task: Task)
    requires
        own(s, task),
        working_place(s, task) is None,
        governing_place(s, task) is Some,
        governing_place(s, task)->0.role is None,
    ensures
        handback_text(s, verdict(s, task)) == Some(s.mismatch_text()),
{
}

/// No task is both taken and sent back.
pub proof fn law_taken_or_sent_back(s: Settings, task: Task)
    ensures
        !(runnable(s, task) && handback_text(s, verdict(s, task)) is Some),
{
}

/// Whether a task is taken when its turn comes, given its history where that can be had: it does
/// not ask for manual work, or somebody dealt with it since it was blocked.
pub open spec fn free(s: Settings, task: Task, history: Option<Seq<Story>>) -> bool {
    !manual(s, task) || (history is Some && cleared(s, history->0))
}

/// The place of the task that is taken, from the queue from `at` on; the histories go by place.
pub open spec fn taken(
    s: Settings,
    tasks: Seq<Task>,
    queue: Seq<int>,
    histories: spec_fn(int) -> Option<Seq<Story>>,
    at: int,
) -> Option<int>
    decreases queue.len() - at,
{
    if at < 0 || at >= queue.len() {
        None
    } else if free(s, tasks[queue[at]], histories(queue[at])) {
        Some(queue[at])
    } else {
        taken(s, tasks, queue, histories, at + 1)
    }
}

/// The places of the tasks that are blocked on the way to the one that is taken, from the queue
/// from `at` on.
pub open spec fn passed_over(
    s: Settings,
    tasks: Seq<Task>,
    queue: Seq<int>,
    histories: spec_fn(int) -> Option<Seq<Story>>,
    at: int,
) -> Seq<int>
    decreases queue.len() - at,
{
    if at < 0 || at >= queue.len() || free(s, tasks[queue[at]], histories(queue[at])) {
        Seq::empty()
    } else {
        seq![queue[at]] + passed_over(s, tasks, queue, histories, at + 1)
    }
}

/// Where the search from `at` on ends: at the place in the queue of the task that is taken, else
/// behind the last one.
pub open spec fn search_end(
    s: Settings,
    tasks: Seq<Task>,
    queue: Seq<int>,
    histories: spec_fn(int) -> Option<Seq<Story>>,
    at: int,
) -> int
    decreases queue.len() - at,
{
    if at < 0 || at >= queue.len() || free(s, tasks[queue[at]], histories(queue[at])) {
        at
    } else {
        search_end(s, tasks, queue, histories, at + 1)
    }
}

/// What is blocked is exactly what stands in the queue before the task that is taken, or all of it
/// where none is: every such task asks for manual work and was not dealt with since. Nothing that
/// stands behind the task that is taken is blocked.
pub proof fn law_what_is_passed_over_is_blocked(
    s: Settings,
    tasks: Seq<Task>,
    queue: Seq<int>,
    histories: spec_fn(int) -> Option<Seq<Story>>,
    at: int,
)
    requires
        0 <= at <= queue.len(),
    ensures
        ({
            let end = search_end(s, tasks, queue, histories, at);
            &&& at <= end <= queue.len()
            &&& taken(s, tasks, queue, histories, at) == if end < queue.len() {
                Some(queue[end])
            } else {
                None
            }
            &&& passed_over(s, tasks, queue, histories, at) == queue.subrange(at, end)
            &&& forall|j: int|
                at <= j < end ==> manual(s, tasks[#[trigger] queue[j]]) && !free(
                    s,
                    tasks[queue[j]],
                    histories(queue[j]),
                )
        }),
    decreases queue.len() - at,
{
    let end = search_end(s, tasks, queue, histories, at);
    if at < queue.len() && !free(s, tasks[queue[at]], histories(queue[at])) {
        law_what_is_passed_over_is_blocked(s, tasks, queue, histories, at + 1);
        assert(queue.subrange(at, end) =~= seq![queue[at]] + queue.subrange(at + 1, end));
    } else {
        assert(queue.subrange(at, end) =~= Seq::empty());
    }
}

/// The task that is taken is the first one in the queue that is free; nothing is taken only where
/// none is.
pub proof fn law_first_free_task_is_taken(
    s: Settings,
    tasks: Seq<Task>,
    queue: Seq<int>,
    histories: spec_fn(int) -> Option<Seq<Story>>,
    at: int,
)
    requires
        0 <= at <= queue.len(),
    ensures
        match taken(s, tasks, queue, histories, at) {
            Some(i) => exists|k: int|
                at <= k < queue.len() && #[trigger] queue[k] == i && free(
                    s,
                    tasks[i],
                    histories(i),
                ) && forall|j: int|
                    at <= j < k ==> !free(s, tasks[#[trigger] queue[j]], histories(queue[j])),
            None => forall|j: int|
                at <= j < queue.len() ==> !free(
                    s,
                    tasks[#[trigger] queue[j]],
                    histories(queue[j]),
                ),
        },
    decreases queue.len() - at,
{
    if at < queue.len() {
        if free(s, tasks[queue[at]], histories(queue[at])) {
            assert(queue[at] == taken(s, tasks, queue, histories, at)->0);
        } else {
            law_first_free_task_is_taken(s, tasks, queue, histories, at + 1);
            if let Some(i) = taken(s, tasks, queue, histories, at + 1) {
                let k = choose|k: int|
                    at + 1 <= k < queue.len() && #[trigger] queue[k] == i && free(
                        s,
                        tasks[i],
                        histories(i),
                    ) && forall|j: int|
                        at + 1 <= j < k ==> !free(
                            s,
                            tasks[#[trigger] queue[j]],
                            histories(queue[j]),
                        );
                assert(queue[k] == i);
            }
        }
    }
}

/// Every keyword counts, at whatever place in the list it stands and wherever the description in
/// lower case holds it: the task then asks for manual work, and is not taken without a history that
/// clears it.
pub proof fn law_every_keyword_asks_for_manual_work(
    s: Settings,
    task: Task,
    i: int,
    a: Seq<char>,
    b: Seq<char>,
)
    requires
        0 <= i < s.manual_keywords@.len(),
        lowercase(task.notes@) == a + s.manual_keywords@[i]@ + b,
    ensures
        manual(s, task),
        !free(s, task, None),
{
    let word = s.manual_keywords@[i]@;
    assert(texts(s.manual_keywords@)[i] == word);
    law_has_text_is_a_middle_part(lowercase(task.notes@), word);
}

/// A task asks for manual work only where its description in lower case holds one of the keywords.
pub proof fn law_only_keywords_ask_for_manual_work(s: Settings, task: Task)
    requires
        manual(s, task),
    ensures
        exists|i: int, at: int|
            0 <= i < s.manual_keywords@.len() && 0 <= at && at + s.manual_keywords@[i]@.len()
                <= lowercase(task.notes@).len() && #[trigger] lowercase(task.notes@).subrange(
                at,
                at + s.manual_keywords@[i]@.len(),
            ) == s.manual_keywords@[i]@,
{
    let lowered = lowercase(task.notes@);
    let words = texts(s.manual_keywords@);
    let i = choose|i: int| 0 <= i < words.len() && has_text(lowered, #[trigger] words[i]);
    assert(words[i] == s.manual_keywords@[i]@);
    let at = choose|at: int| stands_at(lowered, words[i], at);
    assert(lowered.subrange(at, at + s.manual_keywords@[i]@.len()) == s.manual_keywords@[i]@);
}

/// A task whose description holds no keyword is free, and so is one that was cleared; one that asks
/// for manual work and was not cleared is not.
pub proof fn law_free_tasks(s: Settings, task: Task, history: Seq<Story>)
    ensures
        s.manual_keywords@.len() == 0 ==> free(s, task, None),
        !manual(s, task) ==> free(s, task, None) && free(s, task, Some(history)),
        manual(s, task) ==> !free(s, task, None),
        manual(s, task) ==> (free(s, task, Some(history)) <==> cleared(s, history)),
{
    if s.manual_keywords@.len() == 0 {
        assert(texts(s.manual_keywords@).len() == 0);
    }
}

/// An open task that is assigned to the agent and is no subtask is taken as soon as one of its
/// memberships, at any place, lies in a project and in a section of an approved role.
pub proof fn law_own_task_in_approved_section_is_taken(s: Settings, task: Task, k: int)
    requires
        !task.completed,
        task.assignee is Some,
        task.assignee->0.gid@ == s.agent_gid@,
        task.parent is None,
        0 <= k < task.memberships@.len(),
        task.memberships@[k].project is Some,
        task.memberships@[k].section is Some,
        s.role_of(task.memberships@[k].section->0.name@) is Some,
        s.approves(s.role_of(task.memberships@[k].section->0.name@)->0),
        forall|j: int|
            0 <= j < k ==> ({
                let m = #[trigger] task.memberships@[j];
                m.project is None || m.section is None || s.role_of(m.section->0.name@) is None
                    || !s.approves(s.role_of(m.section->0.name@)->0)
            }),
    ensures
        runnable(s, task),
        verdict(s, task) is Run,
        ({
            let p = verdict(s, task)->Run_0;
            &&& p.project_gid == task.memberships@[k].project->0.gid@
            &&& p.section_name == task.memberships@[k].section->0.name@
            &&& p.role == s.role_of(p.section_name)
        }),
        runs_in(s, task, s.role_of(task.memberships@[k].section->0.name@)->0),
{
    law_first_approved_section_is_worked_in(s, task, k);
}

/// A task can be taken from a section of one role only: that of the place from which it is taken.
pub proof fn law_task_runs_in_one_role(s: Settings, task: Task, role: Seq<char>)
    ensures
        runs_in(s, task, role) <==> verdict(s, task) is Run && verdict(s, task)->Run_0.role == Some(
            role,
        ),
{
}

/// A task in no project at all is left alone.
pub proof fn law_task_without_project_left_alone(s: Settings, task: Task)
    requires
        forall|j: int|
            0 <= j < task.memberships@.len() ==> (#[trigger] task.memberships@[j]).project is None,
    ensures
        verdict(s, task) == VerdictView::Skip,
{
    law_first_approved_section_is_worked_in(s, task, task.memberships@.len() as int);
    if task.memberships@.len() > 0 {
        law_first_role_governs(s, task, 0);
    }
}

/// A task is due on its day and on every later one, and not before; without a day it is never due.
pub proof fn law_due_from_its_day_on(task: Task, today: Seq<char>)
    ensures
        task.due_on is None ==> !is_due(task, today),
        task.due_on matches Some(d) ==> {
            &&& due_day(task) == d@
            &&& is_due(task, today) <==> d@ == today || text_before(d@, today)
        },
{
    if task.due_on is Some {
        let d = task.due_on->0@;
        lemma_before_total(d, today);
        lemma_before_irreflexive(d);
        if text_before(d, today) && text_before(today, d) {
            lemma_before_transitive(d, today, d);
        }
    }
}

/// A task stands in the queue by its role and its day: those of `todo` before the day stand behind
/// those of `reopen`, and only where no task of the same gid is due.
pub proof fn law_place_in_the_queue_by_role_and_day(
    s: Settings,
    tasks: Seq<Task>,
    today: Seq<char>,
    k: int,
)
    requires
        0 <= k < queue_of(s, tasks, today).len(),
    ensures
        ({
            let t = tasks[queue_of(s, tasks, today)[k]];
            &&& runs_in(s, t, "in_progress"@) <==> rank(s, t, today) == 0
            &&& runs_in(s, t, "reopen"@) <==> rank(s, t, today) == 2
            &&& runs_in(s, t, "todo"@) && is_due(t, today) <==> rank(s, t, today) == 1
            &&& runs_in(s, t, "todo"@) && !is_due(t, today) <==> rank(s, t, today) == 3
            &&& rank(s, t, today) == 3 ==> forall|i: int|
                0 <= i < tasks.len() && runs_in(s, #[trigger] tasks[i], "todo"@) && is_due(
                    tasks[i],
                    today,
                ) ==> tasks[i].gid@ != t.gid@
        }),
{
    lemma_queue_rank(s, tasks, today, k);
    lemma_roles_differ();
    let t = tasks[queue_of(s, tasks, today)[k]];
    law_queue_holds_runnable_tasks(s, tasks, today, k);
    if rank(s, t, today) == 3 {
        assert forall|i: int|
            0 <= i < tasks.len() && runs_in(s, #[trigger] tasks[i], "todo"@) && is_due(
                tasks[i],
                today,
            ) implies tasks[i].gid@ != t.gid@ by {
            if tasks[i].gid@ == t.gid@ {
                assert(gid_due(s, tasks, today, t.gid@));
            }
        }
    }
}

/// Exactly the tasks whose verdict says so go back to the operator, each once and in the order of
/// the list.
pub proof fn law_every_wrong_section_goes_back(s: Settings, tasks: Seq<Task>, n: int)
    requires
        0 <= n <= tasks.len(),
    ensures
        forall|i: int|
            0 <= i < n ==> (returned(s, tasks, n).contains(i) <==> (verdict(
                s,
                #[trigger] tasks[i],
            ) is NotApproved || verdict(s, tasks[i]) is Mismatch)),
        forall|k: int|
            0 <= k < returned(s, tasks, n).len() ==> 0 <= #[trigger] returned(s, tasks, n)[k] < n,
        forall|j: int, k: int|
            0 <= j < k < returned(s, tasks, n).len() ==> #[trigger] returned(s, tasks, n)[j]
                < #[trigger] returned(s, tasks, n)[k],
    decreases n,
{
    if n > 0 {
        law_every_wrong_section_goes_back(s, tasks, n - 1);
        let prior = returned(s, tasks, n - 1);
        let now = returned(s, tasks, n);
        assert forall|i: int| 0 <= i < n implies (now.contains(i) <==> (verdict(
            s,
            #[trigger] tasks[i],
        ) is NotApproved || verdict(s, tasks[i]) is Mismatch)) by {
            if handback_text(s, verdict(s, tasks[n - 1])) is Some {
                assert(now == prior.push(n - 1));
                if i < n - 1 {
                    if prior.contains(i) {
                        assert(now[prior.index_of(i)] == i);
                    }
                    if now.contains(i) {
                        assert(prior[now.index_of(i)] == i);
                    }
                } else {
                    assert(now[prior.len() as int] == i);
                }
            } else if i == n - 1 && now.contains(i) {
                assert(prior[prior.index_of(i)] < n - 1);
            }
        }
    }
}

/// A task goes back with two requests, letter for letter and in this order: the comment that its
/// verdict asks for, then the assignment to the operator.
pub proof fn law_returned_tasks_get_comment_and_operator(
    s: Settings,
    gid: Seq<char>,
    text: Seq<char>,
    p: PlacementView,
)
    ensures
        handback_text(s, VerdictView::NotApproved(p)) == Some(s.not_approved_text(p.section_name)),
        handback_text(s, VerdictView::Mismatch(p)) == Some(s.mismatch_text()),
        handback_text(s, VerdictView::Run(p)) is None,
        handback_text(s, VerdictView::Skip) is None,
        handback_requests(s, gid, text) == seq![
            ApiRequestView {
                method: "POST"@,
                url: "https://app.asana.com/api/1.0/tasks/"@ + gid + "/stories"@,
                body: Some("{\"data\":{\"text\":"@ + json_text(text) + "}}"@),
            },
            ApiRequestView {
                method: "PUT"@,
                url: "https://app.asana.com/api/1.0/tasks/"@ + gid,
                body: Some("{\"data\":{\"assignee\":"@ + json_text(s.operator_gid@) + "}}"@),
            },
        ],
{
    law_requests_as_they_are_sent(gid, "/stories"@, gid);
    law_requests_as_they_are_sent(gid, ""@, gid);
    reveal_strlit("");
    reveal_strlit("text");
    reveal_strlit("assignee");
    reveal_strlit("{\"data\":{\"");
    reveal_strlit("\":");
    reveal_strlit("{\"data\":{\"text\":");
    reveal_strlit("{\"data\":{\"assignee\":");
    let url = "https://app.asana.com/api/1.0/tasks/"@ + gid;
    assert(url + ""@ =~= url);
    assert("{\"data\":{\""@ + "text"@ + "\":"@ =~= "{\"data\":{\"text\":"@);
    assert("{\"data\":{\""@ + "assignee"@ + "\":"@ =~= "{\"data\":{\"assignee\":"@);
}

/// A task that needs manual work is blocked by the same two writes as a task that goes back, with
/// the comment on manual work, and by the move into the section of its own project for `blocked`.
pub proof fn law_blocked_task_goes_back_and_moves(client: Client, gid: Seq<char>, project: Seq<char>)
    ensures
        ({
            let w = blocking_writes(client, gid, project);
            let back = handback_requests(client.settings, gid, client.settings.manual_text());
            &&& w.len() == 3
            &&& w[0] == WriteView::Send(back[0])
            &&& w[1] == WriteView::Send(back[1])
            &&& w[2] == WriteView::Move(
                move_step(
                    gid,
                    crate::client::section_step(
                        client.settings,
                        client.section_cache@,
                        project,
                        "blocked"@,
                    ),
                ),
            )
        }),
{
}

/// The request for the history of a task, letter for letter.
pub proof fn law_history_is_asked_of_the_task(gid: Seq<char>)
    ensures
        stories_request(gid) == (ApiRequestView {
            method: "GET"@,
            url: "https://app.asana.com/api/1.0/tasks/"@ + gid
                + "/stories?limit=100&opt_fields=resource_subtype,text,created_at,created_by.name"@,
            body: None,
        }),
{
    law_requests_as_they_are_sent(
        gid,
        "/stories?limit=100&opt_fields=resource_subtype,text,created_at,created_by.name"@,
        gid,
    );
}

/// A task was cleared exactly where the agent commented that it needs manual work, and a story of
/// somebody else is later than the last such comment.
pub proof fn law_cleared_by_an_answer(s: Settings, stories: Seq<Story>, k: int, m: int)
    requires
        0 <= k < stories.len(),
        0 <= m < stories.len(),
        stories[k].resource_subtype@ == "comment_added"@,
        stories[k].author_text() == s.agent_name@,
        has_text(stories[k].text@, s.marker_text()),
        stories[m].author_text() != s.agent_name@,
        forall|i: int|
            0 <= i < stories.len() && (#[trigger] stories[i]).resource_subtype@
                == "comment_added"@ && stories[i].author_text() == s.agent_name@ && has_text(
                stories[i].text@,
                s.marker_text(),
            ) ==> text_before(stories[i].created_at@, stories[m].created_at@),
    ensures
        cleared(s, stories),
{
    assert(blocking(s, stories[k]));
    assert(clearing(s, stories, stories[m])) by {
        assert forall|i: int| 0 <= i < stories.len() && blocking(
            s,
            #[trigger] stories[i],
        ) implies text_before(stories[i].created_at@, stories[m].created_at@) by {
            assert(stories[i].resource_subtype@ == "comment_added"@);
        }
    }
}

/// A history without the agent's comment on manual work clears nothing.
pub proof fn law_nothing_cleared_that_was_not_blocked(s: Settings, stories: Seq<Story>)
    requires
        forall|i: int|
            0 <= i < stories.len() ==> (#[trigger] stories[i]).resource_subtype@
                != "comment_added"@ || stories[i].author_text() != s.agent_name@ || !has_text(
                stories[i].text@,
                s.marker_text(),
            ),
    ensures
        !cleared(s, stories),
{
    if cleared(s, stories) {
        let i = choose|i: int| 0 <= i < stories.len() && blocking(s, #[trigger] stories[i]);
        assert(stories[i].resource_subtype@ == "comment_added"@);
    }
}

/// A verdict stands for what it holds, a list of requests or writes for each of them in their order.
pub proof fn law_views_of_verdicts_and_writes(p: Placement, r: ApiRequest, m: MoveStep, v: Seq<ApiRequest>, w: Seq<Write>, q: Seq<usize>, i: int)
    ensures
        Verdict::Skip@ == VerdictView::Skip,
        Verdict::Run(p)@ == VerdictView::Run(p@),
        Verdict::NotApproved(p)@ == VerdictView::NotApproved(p@),
        Verdict::Mismatch(p)@ == VerdictView::Mismatch(p@),
        Write::Send(r)@ == WriteView::Send(r@),
        Write::Move(m)@ == WriteView::Move(m@),
        requests(v).len() == v.len() && (0 <= i < v.len() ==> requests(v)[i] == v[i]@),
        writes(w).len() == w.len() && (0 <= i < w.len() ==> writes(w)[i] == w[i]@),
        places(q).len() == q.len() && (0 <= i < q.len() ==> places(q)[i] == q[i]),
{
}

/// Every task of the agent that can be taken from `in_progress` or `reopen` stands in the queue, and
/// so does every one of `todo`: those that are due always, the others unless a task of the same gid
/// is due.
pub proof fn law_every_task_that_can_be_taken_is_queued(
    s: Settings,
    tasks: Seq<Task>,
    today: Seq<char>,
    i: int,
)
    requires
        0 <= i < tasks.len(),
        runs_in(s, tasks[i], "in_progress"@) || runs_in(s, tasks[i], "reopen"@) || (runs_in(
            s,
            tasks[i],
            "todo"@,
        ) && (is_due(tasks[i], today) || forall|j: int|
            0 <= j < tasks.len() && runs_in(s, #[trigger] tasks[j], "todo"@) && is_due(
                tasks[j],
                today,
            ) ==> tasks[j].gid@ != tasks[i].gid@)),
    ensures
        exists|k: int|
            0 <= k < queue_of(s, tasks, today).len() && #[trigger] queue_of(s, tasks, today)[k] == i,
{
    law_queue_complete(s, tasks, today, i);
    if !queue_of(s, tasks, today).contains(i) {
        lemma_roles_differ();
        let j = choose|j: int|
            0 <= j < tasks.len() && runs_in(s, #[trigger] tasks[j], "todo"@) && is_due(
                tasks[j],
                today,
            ) && tasks[j].gid@ == tasks[i].gid@;
        assert(tasks[j].gid@ == tasks[i].gid@);
    }
}

/// A task is sent back by exactly two requests, for that task and with the comment of its own
/// verdict.
pub proof fn law_task_is_sent_back_with_its_own_comment(s: Settings, task: Task, h: Vec<ApiRequest>)
    requires
        sends_back(s, task, h),
    ensures
        h@.len() == 2,
        ({
            let text = match verdict(s, task) {
                VerdictView::NotApproved(p) => s.not_approved_text(p.section_name),
                _ => s.mismatch_text(),
            };
            &&& verdict(s, task) is NotApproved || verdict(s, task) is Mismatch
            &&& h@[0]@ == handback_requests(s, task.gid@, text)[0]
            &&& h@[1]@ == handback_requests(s, task.gid@, text)[1]
        }),
{
    assert(requests(h@).len() == h@.len());
    assert(requests(h@)[0] == h@[0]@);
    assert(requests(h@)[1] == h@[1]@);
}

/// A task was cleared only where a story of somebody else is later than every comment of the agent on
/// manual work.
pub proof fn law_cleared_needs_a_later_answer(s: Settings, stories: Seq<Story>)
    requires
        cleared(s, stories),
    ensures
        exists|m: int|
            0 <= m < stories.len() && (#[trigger] stories[m]).author_text() != s.agent_name@ && (
            forall|i: int|
                0 <= i < stories.len() && (#[trigger] stories[i]).resource_subtype@
                    == "comment_added"@ && stories[i].author_text() == s.agent_name@ && has_text(
                    stories[i].text@,
                    s.marker_text(),
                ) ==> text_before(stories[i].created_at@, stories[m].created_at@)),
{
    let m = choose|i: int| 0 <= i < stories.len() && clearing(s, stories, #[trigger] stories[i]);
    assert(stories[m].author_text() != s.agent_name@);
    assert forall|i: int|
        0 <= i < stories.len() && (#[trigger] stories[i]).resource_subtype@ == "comment_added"@
            && stories[i].author_text() == s.agent_name@ && has_text(
            stories[i].text@,
            s.marker_text(),
        ) implies text_before(stories[i].created_at@, stories[m].created_at@) by {
        assert(blocking(s, stories[i]));
    }
}

} // verus!
