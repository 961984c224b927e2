//! The Asana client without its wire: which requests are made, what the replies mean, and where
//! a task lies.

use crate::decimal::{dec, dec_u64};
use crate::model::{opt_placement, ApiError, Membership, Placement, PlacementView, Ref, Task};
use crate::outside::{
    debug_list, debug_strings, json_read_error, json_read_fault, json_str, json_str_at, json_string,
    json_text, to_lowercase,
};
use crate::paths::{join, path_in};
use crate::settings::{law_named_section_has_the_role, names_apart, section_key, Settings};
use crate::text::{opt_text, text_eq, texts, trim};
use vstd::hash_map::StringHashMap;
use vstd::prelude::*;
use vstd::string::*;

verus! {

pub const BASE_URL: &'static str = "https://app.asana.com/api/1.0";

/// One request to Asana.
#[derive(Debug)]
pub struct ApiRequest {
    pub method: String,
    pub url: String,
    /// The body, as JSON.
    pub body: Option<String>,
}

/// A request as texts.
pub struct ApiRequestView {
    pub method: Seq<char>,
    pub url: Seq<char>,
    pub body: Option<Seq<char>>,
}

impl View for ApiRequest {
    type V = ApiRequestView;

    open spec fn view(&self) -> ApiRequestView {
        ApiRequestView { method: self.method@, url: self.url@, body: opt_text(self.body) }
    }
}

pub open spec fn fetching(url: Seq<char>) -> ApiRequestView {
    ApiRequestView { method: "GET"@, url, body: None }
}

pub open spec fn sending(method: Seq<char>, url: Seq<char>, body: Seq<char>) -> ApiRequestView {
    ApiRequestView { method, url, body: Some(body) }
}

fn get(url: String) -> (r: ApiRequest)
    ensures
        r@ == fetching(url@),
{
    ApiRequest { method: "GET".to_owned(), url, body: None }
}

fn send(method: &str, url: String, body: String) -> (r: ApiRequest)
    ensures
        r@ == sending(method@, url@, body@),
{
    ApiRequest { method: method.to_owned(), url, body: Some(body) }
}

/// The address of something that belongs to a resource with a gid.
pub open spec fn address(kind: Seq<char>, gid: Seq<char>, rest: Seq<char>) -> Seq<char> {
    BASE_URL@ + kind + gid + rest
}

fn address_of(kind: &str, gid: &str, rest: &str) -> (r: String)
    ensures
        r@ == address(kind@, gid@, rest@),
{
    let mut out = BASE_URL.to_owned();
    out.append(kind);
    out.append(gid);
    out.append(rest);
    out
}

/// `{"data":{"<field>":<value>}}`, with the value as JSON.
pub open spec fn data_body(field: Seq<char>, value: Seq<char>) -> Seq<char> {
    "{\"data\":{\""@ + field + "\":"@ + value + "}}"@
}

fn data_body_of(field: &str, value: &str) -> (r: String)
    ensures
        r@ == data_body(field@, value@),
{
    let mut out = "{\"data\":{\"".to_owned();
    out.append(field);
    out.append("\":");
    out.append(value);
    out.append("}}");
    out
}

/// The body that creates a subtask.
pub open spec fn subtask_body(
    name: Seq<char>,
    notes: Seq<char>,
    assignee: Option<Seq<char>>,
) -> Seq<char> {
    let head = match assignee {
        Some(a) => "{\"data\":{\"assignee\":"@ + json_text(a) + ",\"name\":"@,
        None => "{\"data\":{\"name\":"@,
    };
    head + json_text(name) + ",\"notes\":"@ + json_text(notes) + "}}"@
}

/// What came back for one attempt at a request.
#[derive(Debug)]
pub enum Reply {
    /// Success, with the body.
    Success(Vec<u8>),
    /// An HTTP status that stands for a failure, with the body.
    Status(u16, String),
    /// No HTTP reply at all.
    Network(String),
}

/// What to do after an attempt.
#[derive(Debug)]
pub enum RequestStep {
    /// Wait so many seconds, then try again.
    Retry(u64),
    /// The body of the reply, which is JSON.
    Done(Vec<u8>),
    Failed(ApiError),
}

/// A request is tried so many times.
pub const ATTEMPTS: u64 = 3;

/// The seconds to wait before attempt number `attempt`, counted from 0.
pub open spec fn pause_before(attempt: int) -> int {
    5 * attempt
}

/// Why an attempt failed; `None` where it did not.
pub open spec fn failure(url: Seq<char>, reply: Reply) -> Option<Seq<char>> {
    match reply {
        Reply::Success(body) => match json_read_fault(body@) {
            Some(e) => Some("bad json from "@ + url + ": Failed to read JSON: "@ + e),
            None => None,
        },
        Reply::Status(code, text) => Some(
            "HTTP "@ + dec(code as int) + " from "@ + url + ": "@ + text@,
        ),
        Reply::Network(e) => Some("network error for "@ + url + ": "@ + e@),
    }
}

/// Whether a failure may pass: the network, too many requests, or the server's own fault.
pub open spec fn transient(reply: Reply) -> bool {
    match reply {
        Reply::Success(_) => false,
        Reply::Status(code, _) => code == 429 || code >= 500,
        Reply::Network(_) => true,
    }
}

/// Whether a request is tried again after the reply to attempt number `attempt`, from 0.
pub open spec fn tried_again(attempt: int, reply: Reply) -> bool {
    transient(reply) && attempt + 1 < ATTEMPTS
}

/// Which sections a project has, as far as it is known.
#[derive(Debug)]
pub enum SectionsStep<'a> {
    Known(&'a Vec<Ref>),
    /// They have to be fetched, and stored with `store_sections`.
    Fetch(ApiRequest),
}

/// The gid of the section for a role, as far as it can be told.
#[derive(Debug)]
pub enum SectionStep {
    Found(String),
    Failed(ApiError),
    /// The sections of the project have to be fetched, and stored with `store_sections`.
    Fetch(ApiRequest),
}

/// The gid of the section for a role, as far as it can be told, as texts.
pub enum SectionStepView {
    Found(Seq<char>),
    Failed(Seq<char>),
    Fetch(ApiRequestView),
}

impl View for SectionStep {
    type V = SectionStepView;

    open spec fn view(&self) -> SectionStepView {
        match self {
            SectionStep::Found(gid) => SectionStepView::Found(gid@),
            SectionStep::Failed(e) => SectionStepView::Failed(e.0@),
            SectionStep::Fetch(request) => SectionStepView::Fetch(request@),
        }
    }
}

/// How a task gets into the section for a role.
#[derive(Debug)]
pub enum MoveStep {
    Send(ApiRequest),
    Failed(ApiError),
    /// The sections of the project have to be fetched, and stored with `store_sections`.
    Fetch(ApiRequest),
}

/// How a task gets into the section for a role, as texts.
pub enum MoveStepView {
    Send(ApiRequestView),
    Failed(Seq<char>),
    Fetch(ApiRequestView),
}

impl View for MoveStep {
    type V = MoveStepView;

    open spec fn view(&self) -> MoveStepView {
        match self {
            MoveStep::Send(request) => MoveStepView::Send(request@),
            MoveStep::Failed(e) => MoveStepView::Failed(e.0@),
            MoveStep::Fetch(request) => MoveStepView::Fetch(request@),
        }
    }
}

/// The request that puts a task into a section.
pub open spec fn move_request(task: Seq<char>, section: Seq<char>) -> ApiRequestView {
    sending(
        "POST"@,
        address("/sections/"@, section, "/addTask"@),
        data_body("task"@, json_text(task)),
    )
}

/// The request for the sections of a project.
pub open spec fn sections_request(project: Seq<char>) -> ApiRequestView {
    fetching(address("/projects/"@, project, "/sections?opt_fields=name&limit=100"@))
}

/// What is said where the settings do not describe a role.
pub open spec fn unknown_role(role: Seq<char>) -> Seq<char> {
    "роль '"@ + role + "' не описана в autopilot.yaml (sections)"@
}

/// What is said where a project has no section for a role.
pub open spec fn missing_section(project: Seq<char>, role: Seq<char>, names: Seq<Seq<char>>) -> Seq<
    char,
> {
    "в проекте "@ + project + " нет секции для роли '"@ + role + "' (искал имена: "@ + debug_list(
        names,
    ) + ")"@
}

/// The gid of the section for a role in a project, as far as it can be told from the sections that
/// are known.
pub open spec fn section_step(
    s: Settings,
    cache: Map<Seq<char>, Vec<Ref>>,
    project: Seq<char>,
    role: Seq<char>,
) -> SectionStepView {
    match s.names_of(role) {
        None => SectionStepView::Failed(unknown_role(role)),
        Some(names) => if !cache.contains_key(project) {
            SectionStepView::Fetch(sections_request(project))
        } else {
            match section_for(cache[project]@, names, 0) {
                Some(gid) => SectionStepView::Found(gid),
                None => SectionStepView::Failed(missing_section(project, role, names)),
            }
        },
    }
}

/// How a task gets into a section that was looked for.
pub open spec fn move_step(task: Seq<char>, section: SectionStepView) -> MoveStepView {
    match section {
        SectionStepView::Found(gid) => MoveStepView::Send(move_request(task, gid)),
        SectionStepView::Failed(e) => MoveStepView::Failed(e),
        SectionStepView::Fetch(request) => MoveStepView::Fetch(request),
    }
}

/// The gid of the first section, from `i` on, that is called `want`.
pub open spec fn named_section(secs: Seq<Ref>, want: Seq<char>, i: int) -> Option<Seq<char>>
    decreases secs.len() - i,
{
    if i < 0 || i >= secs.len() {
        None
    } else if section_key(secs[i].name@) == want {
        Some(secs[i].gid@)
    } else {
        named_section(secs, want, i + 1)
    }
}

/// The gid of the section with the first name, from `i` on, that a section has.
pub open spec fn section_for(secs: Seq<Ref>, names: Seq<Seq<char>>, i: int) -> Option<Seq<char>>
    decreases names.len() - i,
{
    if i < 0 || i >= names.len() {
        None
    } else if named_section(secs, names[i], 0) is Some {
        named_section(secs, names[i], 0)
    } else {
        section_for(secs, names, i + 1)
    }
}

/// Where a membership puts a task. A membership without a project puts it nowhere.
pub open spec fn place(s: Settings, m: Membership) -> Option<PlacementView> {
    match m.project {
        Some(project) => {
            let section = match m.section {
                Some(section) => section.name@,
                None => Seq::empty(),
            };
            Some(
                PlacementView {
                    project_gid: project.gid@,
                    project_name: project.name@,
                    section_name: section,
                    role: s.role_of(section),
                },
            )
        },
        None => None,
    }
}

/// The place of the first membership, from `i` on, with a project.
pub open spec fn first_place(s: Settings, ms: Seq<Membership>, i: int) -> Option<PlacementView>
    decreases ms.len() - i,
{
    if i < 0 || i >= ms.len() {
        None
    } else if place(s, ms[i]) is Some {
        place(s, ms[i])
    } else {
        first_place(s, ms, i + 1)
    }
}

/// The place of the first membership, from `i` on, whose section has a role.
pub open spec fn first_role_place(s: Settings, ms: Seq<Membership>, i: int) -> Option<PlacementView>
    decreases ms.len() - i,
{
    if i < 0 || i >= ms.len() {
        None
    } else if place(s, ms[i]) is Some && place(s, ms[i])->0.role is Some {
        place(s, ms[i])
    } else {
        first_role_place(s, ms, i + 1)
    }
}

/// Whether a membership puts a task into a section from which tasks are taken.
pub open spec fn approved_place(s: Settings, m: Membership) -> bool {
    &&& m.project is Some
    &&& m.section is Some
    &&& s.role_of(m.section->0.name@) is Some
    &&& s.approves(s.role_of(m.section->0.name@)->0)
}

/// The place of the first membership, from `i` on, in a section from which tasks are taken.
pub open spec fn first_approved_place(s: Settings, ms: Seq<Membership>, i: int) -> Option<
    PlacementView,
>
    decreases ms.len() - i,
{
    if i < 0 || i >= ms.len() {
        None
    } else if approved_place(s, ms[i]) {
        place(s, ms[i])
    } else {
        first_approved_place(s, ms, i + 1)
    }
}

/// The place that governs a task: one whose section has a role, else any.
pub open spec fn governing_place(s: Settings, task: Task) -> Option<PlacementView> {
    match first_role_place(s, task.memberships@, 0) {
        Some(p) => Some(p),
        None => first_place(s, task.memberships@, 0),
    }
}

/// The place from which a task is taken.
pub open spec fn working_place(s: Settings, task: Task) -> Option<PlacementView> {
    first_approved_place(s, task.memberships@, 0)
}

/// The section of a task in short: its role, else its name.
pub open spec fn section_label(s: Settings, task: Task) -> Seq<char> {
    match governing_place(s, task) {
        Some(p) => match p.role {
            Some(role) => role,
            None => if p.section_name.len() == 0 {
                "?"@
            } else {
                p.section_name
            },
        },
        None => "?"@,
    }
}

pub struct Client {
    pub settings: Settings,
    /// The sections of the projects seen so far, by the gid of the project.
    pub section_cache: StringHashMap<Vec<Ref>>,
}

impl Client {
    pub fn new(settings: Settings) -> (r: Client)
        ensures
            r.settings == settings,
            r.section_cache@ == Map::<Seq<char>, Vec<Ref>>::empty(),
    {
        Client { settings, section_cache: StringHashMap::new() }
    }

    /// The value of the header `Authorization`.
    pub fn authorization(&self) -> (r: String)
        ensures
            r@ == "Bearer "@ + self.settings.token@,
    {
        let mut out = "Bearer ".to_owned();
        out.append(self.settings.token.as_str());
        out
    }

    /// What follows from the reply to attempt number `attempt` (from 0) at a request.
    pub fn request(attempt: u64, url: &str, reply: Reply) -> (r: RequestStep)
        requires
            attempt < ATTEMPTS,
        ensures
            match failure(url@, reply) {
                None => reply matches Reply::Success(body) && r == RequestStep::Done(body),
                Some(why) => if tried_again(attempt as int, reply) {
                    r matches RequestStep::Retry(secs) && secs == pause_before(attempt + 1)
                } else {
                    r matches RequestStep::Failed(e) && e.0@ == why
                },
            },
    {
        let (again, msg) = match reply {
            Reply::Success(body) => {
                match json_read_error(body.as_slice()) {
                    None => {
                        return RequestStep::Done(body);
                    },
                    Some(e) => {
                        let mut msg = "bad json from ".to_owned();
                        msg.append(url);
                        msg.append(": Failed to read JSON: ");
                        msg.append(e.as_str());
                        (false, msg)
                    },
                }
            },
            Reply::Status(code, text) => {
                let mut msg = "HTTP ".to_owned();
                msg.append(dec_u64(code as u64).as_str());
                msg.append(" from ");
                msg.append(url);
                msg.append(": ");
                msg.append(text.as_str());
                (code == 429 || code >= 500, msg)
            },
            Reply::Network(e) => {
                let mut msg = "network error for ".to_owned();
                msg.append(url);
                msg.append(": ");
                msg.append(e.as_str());
                (true, msg)
            },
        };
        if again && attempt + 1 < ATTEMPTS {
            RequestStep::Retry(5 * (attempt + 1))
        } else {
            RequestStep::Failed(ApiError(msg))
        }
    }

    pub fn get_task(gid: &str) -> (r: ApiRequest)
        ensures
            r@ == fetching(
                address(
                    "/tasks/"@,
                    gid@,
                    "?opt_fields=name,notes,completed,assignee.gid,assignee.name,due_on,permalink_url,memberships.project.gid,memberships.project.name,memberships.section.gid,memberships.section.name"@,
                ),
            ),
    {
        get(
            address_of(
                "/tasks/",
                gid,
                "?opt_fields=name,notes,completed,assignee.gid,assignee.name,due_on,permalink_url,memberships.project.gid,memberships.project.name,memberships.section.gid,memberships.section.name",
            ),
        )
    }

    /// The first page of the open tasks that are assigned to the agent, in the whole workspace.
    pub fn get_assigned_tasks(&self) -> (r: ApiRequest)
        ensures
            r@ == fetching(
                BASE_URL@ + "/tasks?assignee="@ + self.settings.agent_gid@ + "&workspace="@
                    + self.settings.workspace@
                    + "&completed_since=now&limit=100&opt_fields=name,notes,completed,assignee.gid,due_on,permalink_url,parent.name,memberships.project.gid,memberships.project.name,memberships.section.gid,memberships.section.name"@,
            ),
    {
        let mut url = BASE_URL.to_owned();
        url.append("/tasks?assignee=");
        url.append(self.settings.agent_gid.as_str());
        url.append("&workspace=");
        url.append(self.settings.workspace.as_str());
        url.append(
            "&completed_since=now&limit=100&opt_fields=name,notes,completed,assignee.gid,due_on,permalink_url,parent.name,memberships.project.gid,memberships.project.name,memberships.section.gid,memberships.section.name",
        );
        get(url)
    }

    /// The next page, where a page says that there is one.
    pub fn next_page(page: &[u8]) -> (r: Option<ApiRequest>)
        ensures
            match (r, json_str(page@, "/next_page/uri"@)) {
                (Some(request), Some(uri)) => request@ == fetching(uri),
                (None, None) => true,
                _ => false,
            },
    {
        match json_str_at(page, "/next_page/uri") {
            Some(uri) => Some(get(uri)),
            None => None,
        }
    }

    pub fn get_subtasks(gid: &str) -> (r: ApiRequest)
        ensures
            r@ == fetching(
                address(
                    "/tasks/"@,
                    gid@,
                    "/subtasks?limit=100&opt_fields=name,notes,completed,assignee.gid,assignee.name,permalink_url"@,
                ),
            ),
    {
        get(
            address_of(
                "/tasks/",
                gid,
                "/subtasks?limit=100&opt_fields=name,notes,completed,assignee.gid,assignee.name,permalink_url",
            ),
        )
    }

    pub fn get_stories(gid: &str) -> (r: ApiRequest)
        ensures
            r@ == fetching(
                address(
                    "/tasks/"@,
                    gid@,
                    "/stories?limit=100&opt_fields=resource_subtype,text,created_at,created_by.name"@,
                ),
            ),
    {
        get(
            address_of(
                "/tasks/",
                gid,
                "/stories?limit=100&opt_fields=resource_subtype,text,created_at,created_by.name",
            ),
        )
    }

    pub fn add_comment(gid: &str, text: &str) -> (r: ApiRequest)
        ensures
            r@ == sending(
                "POST"@,
                address("/tasks/"@, gid@, "/stories"@),
                data_body("text"@, json_text(text@)),
            ),
    {
        let value = json_string(text);
        send("POST", address_of("/tasks/", gid, "/stories"), data_body_of("text", value.as_str()))
    }

    pub fn move_to_section(task_gid: &str, section_gid: &str) -> (r: ApiRequest)
        ensures
            r@ == move_request(task_gid@, section_gid@),
    {
        let value = json_string(task_gid);
        send(
            "POST",
            address_of("/sections/", section_gid, "/addTask"),
            data_body_of("task", value.as_str()),
        )
    }

    /// Assigns the task to an account, or to nobody.
    pub fn set_assignee(task_gid: &str, assignee: Option<&str>) -> (r: ApiRequest)
        ensures
            r@ == sending(
                "PUT"@,
                address("/tasks/"@, task_gid@, ""@),
                data_body(
                    "assignee"@,
                    match assignee {
                        Some(g) => json_text(g@),
                        None => "null"@,
                    },
                ),
            ),
    {
        let value = match assignee {
            Some(g) => json_string(g),
            None => "null".to_owned(),
        };
        send(
            "PUT",
            address_of("/tasks/", task_gid, ""),
            data_body_of("assignee", value.as_str()),
        )
    }

    pub fn set_completed(task_gid: &str, completed: bool) -> (r: ApiRequest)
        ensures
            r@ == sending(
                "PUT"@,
                address("/tasks/"@, task_gid@, ""@),
                data_body(
                    "completed"@,
                    if completed {
                        "true"@
                    } else {
                        "false"@
                    },
                ),
            ),
    {
        let value = if completed {
            "true"
        } else {
            "false"
        };
        send("PUT", address_of("/tasks/", task_gid, ""), data_body_of("completed", value))
    }

    pub fn get_attachments(task_gid: &str) -> (r: ApiRequest)
        ensures
            r@ == fetching(
                address(
                    "/tasks/"@,
                    task_gid@,
                    "/attachments?opt_fields=name,size,resource_subtype"@,
                ),
            ),
    {
        get(
            address_of(
                "/tasks/",
                task_gid,
                "/attachments?opt_fields=name,size,resource_subtype",
            ),
        )
    }

    /// Asks for the name of an attachment and for the address from which it can be fetched once.
    pub fn attachment_download_url(attachment_gid: &str) -> (r: ApiRequest)
        ensures
            r@ == fetching(
                address(
                    "/attachments/"@,
                    attachment_gid@,
                    "?opt_fields=name,download_url"@,
                ),
            ),
    {
        get(address_of("/attachments/", attachment_gid, "?opt_fields=name,download_url"))
    }

    /// The name and the address of an attachment, from the reply.
    pub fn attachment_source(reply: &[u8], attachment_gid: &str) -> (r: Result<
        (String, String),
        ApiError,
    >)
        ensures
            match (r, json_str(reply@, "/data/download_url"@)) {
                (Ok((name, url)), Some(found)) => url@ == found && name@ == (match json_str(
                    reply@,
                    "/data/name"@,
                ) {
                    Some(name) => name,
                    None => "attachment"@,
                }),
                (Err(e), None) => e.0@ == "attachment "@ + attachment_gid@
                    + " has no download_url"@,
                _ => false,
            },
    {
        let name = match json_str_at(reply, "/data/name") {
            Some(name) => name,
            None => "attachment".to_owned(),
        };
        match json_str_at(reply, "/data/download_url") {
            Some(url) => Ok((name, url)),
            None => {
                let mut msg = "attachment ".to_owned();
                msg.append(attachment_gid);
                msg.append(" has no download_url");
                Err(ApiError(msg))
            },
        }
    }

    /// The file into which an attachment is written.
    pub fn download_attachment(attachment_gid: &str, name: &str, dest_dir: &str) -> (r: String)
        ensures
            r@ == path_in(dest_dir@, attachment_gid@ + "-"@ + name@),
    {
        let mut file = attachment_gid.to_owned();
        file.append("-");
        file.append(name);
        join(dest_dir, file.as_str())
    }

    pub fn create_subtask(
        parent_gid: &str,
        name: &str,
        notes: &str,
        assignee: Option<&str>,
    ) -> (r: ApiRequest)
        ensures
            r@ == sending(
                "POST"@,
                address("/tasks/"@, parent_gid@, "/subtasks"@),
                subtask_body(
                    name@,
                    notes@,
                    match assignee {
                        Some(a) => Some(a@),
                        None => None,
                    },
                ),
            ),
    {
        let mut body = match assignee {
            Some(a) => {
                let mut head = "{\"data\":{\"assignee\":".to_owned();
                head.append(json_string(a).as_str());
                head.append(",\"name\":");
                head
            },
            None => "{\"data\":{\"name\":".to_owned(),
        };
        body.append(json_string(name).as_str());
        body.append(",\"notes\":");
        body.append(json_string(notes).as_str());
        body.append("}}");
        send("POST", address_of("/tasks/", parent_gid, "/subtasks"), body)
    }

    /// The gid of a subtask that was created, from the reply.
    pub fn created_gid(reply: &[u8]) -> (r: String)
        ensures
            r@ == (match json_str(reply@, "/data/gid"@) {
                Some(gid) => gid,
                None => Seq::empty(),
            }),
    {
        match json_str_at(reply, "/data/gid") {
            Some(gid) => gid,
            None => String::new(),
        }
    }

    /// The sections of a project: from the store, else by a request.
    pub fn project_sections(&self, project_gid: &str) -> (r: SectionsStep<'_>)
        ensures
            match r {
                SectionsStep::Known(secs) => self.section_cache@.contains_key(project_gid@)
                    && *secs == self.section_cache@[project_gid@],
                SectionsStep::Fetch(request) => !self.section_cache@.contains_key(project_gid@)
                    && request@ == sections_request(project_gid@),
            },
    {
        match self.section_cache.get(project_gid) {
            Some(secs) => SectionsStep::Known(secs),
            None => SectionsStep::Fetch(
                get(
                    address_of("/projects/", project_gid, "/sections?opt_fields=name&limit=100"),
                ),
            ),
        }
    }

    /// Keeps the sections of a project for as long as the client lives.
    pub fn store_sections(&mut self, project_gid: &str, secs: Vec<Ref>)
        ensures
            final(self).settings == old(self).settings,
            final(self).section_cache@ == old(self).section_cache@.insert(project_gid@, secs),
    {
        self.section_cache.insert(project_gid.to_owned(), secs);
    }

    /// The gid of the section for a role in a project, found by the names that the settings give.
    pub open spec fn section_step(&self, project: Seq<char>, role: Seq<char>) -> SectionStepView {
        section_step(self.settings, self.section_cache@, project, role)
    }

    /// The gid of the section for a role in a project, found by the names that the settings give.
    pub fn resolve_section_gid(&self, project_gid: &str, role: &str) -> (r: SectionStep)
        ensures
            r@ == self.section_step(project_gid@, role@),
    {
        let names = match self.settings.section_names(role) {
            Some(names) => names,
            None => {
                let mut msg = "роль '".to_owned();
                msg.append(role);
                msg.append("' не описана в autopilot.yaml (sections)");
                return SectionStep::Failed(ApiError(msg));
            },
        };
        let secs = match self.project_sections(project_gid) {
            SectionsStep::Known(secs) => secs,
            SectionsStep::Fetch(request) => {
                return SectionStep::Fetch(request);
            },
        };
        let mut i: usize = 0;
        while i < names.len()
            invariant
                i <= names@.len(),
                self.section_cache@.contains_key(project_gid@),
                *secs == self.section_cache@[project_gid@],
                self.settings.names_of(role@) == Some(texts(names@)),
                section_for(secs@, texts(names@), 0) == section_for(
                    secs@,
                    texts(names@),
                    i as int,
                ),
            decreases names@.len() - i,
        {
            let mut j: usize = 0;
            while j < secs.len()
                invariant
                    i < names@.len(),
                    j <= secs@.len(),
                    self.section_cache@.contains_key(project_gid@),
                    *secs == self.section_cache@[project_gid@],
                    self.settings.names_of(role@) == Some(texts(names@)),
                    section_for(secs@, texts(names@), 0) == section_for(
                        secs@,
                        texts(names@),
                        i as int,
                    ),
                    named_section(secs@, names@[i as int]@, 0) == named_section(
                        secs@,
                        names@[i as int]@,
                        j as int,
                    ),
                decreases secs@.len() - j,
            {
                let key = to_lowercase(trim(secs[j].name.as_str()));
                if text_eq(key.as_str(), names[i].as_str()) {
                    return SectionStep::Found(secs[j].gid.clone());
                }
                j += 1;
            }
            i += 1;
        }
        let mut msg = "в проекте ".to_owned();
        msg.append(project_gid);
        msg.append(" нет секции для роли '");
        msg.append(role);
        msg.append("' (искал имена: ");
        msg.append(debug_strings(names).as_str());
        msg.append(")");
        SectionStep::Failed(ApiError(msg))
    }

    /// Moves a task into the section for a role, in one of its projects.
    pub fn move_task_to_role(&self, task_gid: &str, project_gid: &str, role: &str) -> (r: MoveStep)
        ensures
            r@ == move_step(task_gid@, self.section_step(project_gid@, role@)),
    {
        match self.resolve_section_gid(project_gid, role) {
            SectionStep::Found(gid) => MoveStep::Send(
                Self::move_to_section(task_gid, gid.as_str()),
            ),
            SectionStep::Failed(e) => MoveStep::Failed(e),
            SectionStep::Fetch(request) => MoveStep::Fetch(request),
        }
    }

    fn place_of(&self, project: &Ref, section_name: &str) -> (r: Placement)
        ensures
            r@ == (PlacementView {
                project_gid: project.gid@,
                project_name: project.name@,
                section_name: section_name@,
                role: self.settings.role_of(section_name@),
            }),
    {
        let role = match self.settings.role_of_section_name(section_name) {
            Some(role) => Some(role.to_owned()),
            None => None,
        };
        Placement {
            project_gid: project.gid.clone(),
            project_name: project.name.clone(),
            section_name: section_name.to_owned(),
            role,
        }
    }

    /// The place that governs a task: the first whose section has a role, else the first in a
    /// project at all.
    pub fn placement(&self, task: &Task) -> (r: Option<Placement>)
        ensures
            opt_placement(r) == governing_place(self.settings, *task),
    {
        let mut fallback: Option<Placement> = None;
        let ghost ms = task.memberships@;
        let mut i: usize = 0;
        while i < task.memberships.len()
            invariant
                ms == task.memberships@,
                i <= ms.len(),
                first_role_place(self.settings, ms, 0) == first_role_place(
                    self.settings,
                    ms,
                    i as int,
                ),
                first_place(self.settings, ms, 0) == (match fallback {
                    Some(p) => Some(p@),
                    None => first_place(self.settings, ms, i as int),
                }),
            decreases ms.len() - i,
        {
            let m = &task.memberships[i];
            if let Some(project) = &m.project {
                let p = match &m.section {
                    Some(section) => self.place_of(project, section.name.as_str()),
                    None => self.place_of(project, String::new().as_str()),
                };
                if p.role.is_some() {
                    return Some(p);
                }
                if fallback.is_none() {
                    fallback = Some(p);
                }
            }
            i += 1;
        }
        fallback
    }

    /// The first place of a task from which tasks are taken.
    pub fn approved_placement(&self, task: &Task) -> (r: Option<Placement>)
        ensures
            opt_placement(r) == working_place(self.settings, *task),
    {
        let ghost ms = task.memberships@;
        let mut i: usize = 0;
        while i < task.memberships.len()
            invariant
                ms == task.memberships@,
                i <= ms.len(),
                working_place(self.settings, *task) == first_approved_place(
                    self.settings,
                    ms,
                    i as int,
                ),
            decreases ms.len() - i,
        {
            let m = &task.memberships[i];
            if let Some(project) = &m.project {
                if let Some(section) = &m.section {
                    if let Some(role) = self.settings.role_of_section_name(section.name.as_str()) {
                        if self.settings.is_approved(role) {
                            return Some(self.place_of(project, section.name.as_str()));
                        }
                    }
                }
            }
            i += 1;
        }
        None
    }

    /// The section of a task in short: its role, else its name.
    pub fn task_section_label(&self, task: &Task) -> (r: String)
        ensures
            r@ == section_label(self.settings, *task),
    {
        match self.placement(task) {
            Some(p) => match p.role {
                Some(role) => role,
                None => if p.section_name.as_str().is_empty() {
                    "?".to_owned()
                } else {
                    p.section_name
                },
            },
            None => "?".to_owned(),
        }
    }
}

/// A request is tried three times at most, and a reply that the client itself is to blame for is
/// final at once, but for too many requests.
pub proof fn law_requests_give_up(attempt: int, reply: Reply)
    ensures
        attempt >= 2 ==> !tried_again(attempt, reply),
        reply matches Reply::Status(code, _) && code < 500 && code != 429 ==> !tried_again(
            attempt,
            reply,
        ),
        reply is Success ==> !tried_again(attempt, reply),
{
}

/// Once the sections of a project are stored, the section for a role is told without a request.
pub proof fn law_stored_sections_need_no_request(
    s: Settings,
    cache: Map<Seq<char>, Vec<Ref>>,
    project: Seq<char>,
    secs: Vec<Ref>,
    role: Seq<char>,
)
    ensures
        !(section_step(s, cache.insert(project, secs), project, role) is Fetch),
{
}

proof fn lemma_named_section(secs: Seq<Ref>, want: Seq<char>, i: int)
    requires
        0 <= i <= secs.len(),
    ensures
        named_section(secs, want, i) matches Some(gid) ==> exists|j: int|
            i <= j < secs.len() && (#[trigger] secs[j]).gid@ == gid && section_key(secs[j].name@)
                == want,
        named_section(secs, want, i) is None ==> forall|j: int|
            i <= j < secs.len() ==> section_key((#[trigger] secs[j]).name@) != want,
    decreases secs.len() - i,
{
    if i < secs.len() {
        if section_key(secs[i].name@) == want {
            assert(secs[i].gid@ == named_section(secs, want, i)->0);
        } else {
            lemma_named_section(secs, want, i + 1);
        }
    }
}

proof fn lemma_section_for(secs: Seq<Ref>, names: Seq<Seq<char>>, i: int)
    requires
        0 <= i <= names.len(),
    ensures
        section_for(secs, names, i) matches Some(gid) ==> exists|j: int|
            0 <= j < secs.len() && (#[trigger] secs[j]).gid@ == gid && names.contains(
                section_key(secs[j].name@),
            ),
        section_for(secs, names, i) is None ==> forall|j: int, k: int|
            0 <= j < secs.len() && i <= k < names.len() ==> section_key((#[trigger] secs[j]).name@)
                != #[trigger] names[k],
    decreases names.len() - i,
{
    if i < names.len() {
        lemma_named_section(secs, names[i], 0);
        if named_section(secs, names[i], 0) is Some {
            assert(names.contains(names[i]));
        } else {
            lemma_section_for(secs, names, i + 1);
        }
    }
}

/// A task is moved only into a section of its project that bears one of the names of the role, and
/// the move fails only where there is none.
pub proof fn law_section_bears_a_name_of_the_role(secs: Seq<Ref>, names: Seq<Seq<char>>)
    ensures
        section_for(secs, names, 0) matches Some(gid) ==> exists|j: int|
            0 <= j < secs.len() && (#[trigger] secs[j]).gid@ == gid && names.contains(
                section_key(secs[j].name@),
            ),
        section_for(secs, names, 0) is None <==> forall|j: int|
            0 <= j < secs.len() ==> !names.contains(section_key((#[trigger] secs[j]).name@)),
{
    lemma_section_for(secs, names, 0);
    if section_for(secs, names, 0) is None {
        assert forall|j: int| 0 <= j < secs.len() implies !names.contains(
            section_key((#[trigger] secs[j]).name@),
        ) by {
            if names.contains(section_key(secs[j].name@)) {
                let k = names.index_of(section_key(secs[j].name@));
                assert(names[k] == section_key(secs[j].name@));
            }
        }
    }
}

/// A task that is moved for a role comes to lie in a section with that role, where no two roles
/// share a name.
pub proof fn law_moved_task_lies_in_the_role(
    s: Settings,
    cache: Map<Seq<char>, Vec<Ref>>,
    project: Seq<char>,
    role: Seq<char>,
)
    requires
        names_apart(s.sections@),
        section_step(s, cache, project, role) is Found,
    ensures
        exists|j: int|
            0 <= j < cache[project]@.len() && SectionStepView::Found(
                (#[trigger] cache[project]@[j]).gid@,
            ) == section_step(s, cache, project, role) && s.role_of(cache[project]@[j].name@)
                == Some(role),
{
    let secs = cache[project]@;
    let names = s.names_of(role)->0;
    law_section_bears_a_name_of_the_role(secs, names);
    let gid = section_for(secs, names, 0)->0;
    let j = choose|j: int|
        0 <= j < secs.len() && (#[trigger] secs[j]).gid@ == gid && names.contains(
            section_key(secs[j].name@),
        );
    law_named_section_has_the_role(s, role, secs[j].name@);
}

proof fn lemma_approved_has_role(s: Settings, ms: Seq<Membership>, i: int)
    requires
        0 <= i <= ms.len(),
        first_approved_place(s, ms, i) is Some,
    ensures
        first_role_place(s, ms, i) is Some,
        first_role_place(s, ms, i)->0.role is Some,
    decreases ms.len() - i,
{
    if i < ms.len() && !(place(s, ms[i]) is Some && place(s, ms[i])->0.role is Some) {
        assert(!approved_place(s, ms[i]));
        lemma_approved_has_role(s, ms, i + 1);
    }
}

/// A task that can be taken is shown under a role.
pub proof fn law_approved_task_has_a_role(s: Settings, task: Task)
    requires
        working_place(s, task) is Some,
    ensures
        governing_place(s, task) is Some,
        governing_place(s, task)->0.role is Some,
        section_label(s, task) == governing_place(s, task)->0.role->0,
{
    lemma_approved_has_role(s, task.memberships@, 0);
}

/// A failure that may pass is tried again after a pause that grows by five seconds each time.
pub proof fn law_passing_failures_are_tried_again(attempt: int, reply: Reply)
    ensures
        0 <= attempt < 2 && reply is Network ==> tried_again(attempt, reply),
        0 <= attempt < 2 && reply is Status && (reply->Status_0 == 429 || reply->Status_0 >= 500)
            ==> tried_again(attempt, reply),
        pause_before(0) == 0,
        pause_before(attempt + 1) == pause_before(attempt) + 5,
{
}

/// An attempt succeeds exactly where the reply is a success whose body is JSON; the error of any
/// other names the address and what went wrong.
pub proof fn law_failures_are_told(url: Seq<char>, reply: Reply)
    ensures
        failure(url, reply) is None <==> reply is Success && json_read_fault(reply->Success_0@)
            is None,
        reply matches Reply::Success(body) ==> (json_read_fault(body@) matches Some(e) ==> failure(
            url,
            reply,
        ) == Some("bad json from "@ + url + ": Failed to read JSON: "@ + e)),
        reply matches Reply::Status(code, text) ==> failure(url, reply) == Some(
            "HTTP "@ + dec(code as int) + " from "@ + url + ": "@ + text@,
        ),
        reply matches Reply::Network(e) ==> failure(url, reply) == Some(
            "network error for "@ + url + ": "@ + e@,
        ),
{
}

/// The requests that change a task, letter for letter.
pub proof fn law_requests_as_they_are_sent(task: Seq<char>, x: Seq<char>, y: Seq<char>)
    ensures
        address("/tasks/"@, task, x) == "https://app.asana.com/api/1.0/tasks/"@ + task + x,
        move_request(task, x) == (ApiRequestView {
            method: "POST"@,
            url: "https://app.asana.com/api/1.0/sections/"@ + x + "/addTask"@,
            body: Some("{\"data\":{\"task\":"@ + json_text(task) + "}}"@),
        }),
        sections_request(x) == (ApiRequestView {
            method: "GET"@,
            url: "https://app.asana.com/api/1.0/projects/"@ + x
                + "/sections?opt_fields=name&limit=100"@,
            body: None,
        }),
        data_body(x, y) == "{\"data\":{\""@ + x + "\":"@ + y + "}}"@,
        subtask_body(x, y, Some(task)) == "{\"data\":{\"assignee\":"@ + json_text(task)
            + ",\"name\":"@ + json_text(x) + ",\"notes\":"@ + json_text(y) + "}}"@,
        subtask_body(x, y, None) == "{\"data\":{\"name\":"@ + json_text(x) + ",\"notes\":"@
            + json_text(y) + "}}"@,
        fetching(x) == (ApiRequestView { method: "GET"@, url: x, body: None }),
        sending(x, y, task) == (ApiRequestView { method: x, url: y, body: Some(task) }),
{
    reveal_strlit("https://app.asana.com/api/1.0");
    reveal_strlit("/tasks/");
    reveal_strlit("https://app.asana.com/api/1.0/tasks/");
    reveal_strlit("/sections/");
    reveal_strlit("https://app.asana.com/api/1.0/sections/");
    reveal_strlit("/projects/");
    reveal_strlit("https://app.asana.com/api/1.0/projects/");
    reveal_strlit("task");
    reveal_strlit("{\"data\":{\"");
    reveal_strlit("\":");
    reveal_strlit("{\"data\":{\"task\":");
    assert(BASE_URL@ + "/tasks/"@ =~= "https://app.asana.com/api/1.0/tasks/"@);
    assert(BASE_URL@ + "/sections/"@ =~= "https://app.asana.com/api/1.0/sections/"@);
    assert(BASE_URL@ + "/projects/"@ =~= "https://app.asana.com/api/1.0/projects/"@);
    assert("{\"data\":{\""@ + "task"@ + "\":"@ =~= "{\"data\":{\"task\":"@);
}

proof fn lemma_first_named(secs: Seq<Ref>, want: Seq<char>, i: int, k: int)
    requires
        0 <= i <= k <= secs.len(),
        forall|j: int| i <= j < k ==> section_key((#[trigger] secs[j]).name@) != want,
    ensures
        k == secs.len() ==> named_section(secs, want, i) is None,
        k < secs.len() && section_key(secs[k].name@) == want ==> named_section(secs, want, i)
            == Some(secs[k].gid@),
    decreases k - i,
{
    if i < k {
        assert(section_key(secs[i].name@) != want);
        lemma_first_named(secs, want, i + 1, k);
    }
}

proof fn lemma_first_section(secs: Seq<Ref>, names: Seq<Seq<char>>, i: int, n: int, k: int)
    requires
        0 <= i <= n < names.len(),
        0 <= k < secs.len(),
        section_key(secs[k].name@) == names[n],
        forall|j: int| 0 <= j < k ==> section_key((#[trigger] secs[j]).name@) != names[n],
        forall|m: int, j: int|
            i <= m < n && 0 <= j < secs.len() ==> section_key((#[trigger] secs[j]).name@)
                != #[trigger] names[m],
    ensures
        section_for(secs, names, i) == Some(secs[k].gid@),
    decreases n - i,
{
    if i < n {
        lemma_first_named(secs, names[i], 0, secs.len() as int);
        lemma_first_section(secs, names, i + 1, n, k);
    } else {
        lemma_first_named(secs, names[n], 0, k);
    }
}

/// The section for a role is the first one that bears the first name, in the order of the settings,
/// which any section bears; it is looked for in the sections of that project, and asked for only
/// where these are not known.
pub proof fn law_section_by_the_first_name(
    s: Settings,
    cache: Map<Seq<char>, Vec<Ref>>,
    project: Seq<char>,
    role: Seq<char>,
    n: int,
    k: int,
)
    ensures
        s.names_of(role) is None ==> section_step(s, cache, project, role)
            == SectionStepView::Failed(
            "роль '"@ + role + "' не описана в autopilot.yaml (sections)"@,
        ),
        s.names_of(role) is Some && !cache.contains_key(project) ==> section_step(
            s,
            cache,
            project,
            role,
        ) == SectionStepView::Fetch(sections_request(project)),
        s.names_of(role) is Some && cache.contains_key(project) && ({
            let names = s.names_of(role)->0;
            let secs = cache[project]@;
            &&& 0 <= n < names.len()
            &&& 0 <= k < secs.len()
            &&& section_key(secs[k].name@) == names[n]
            &&& forall|j: int| 0 <= j < k ==> section_key((#[trigger] secs[j]).name@) != names[n]
            &&& forall|m: int, j: int|
                0 <= m < n && 0 <= j < secs.len() ==> section_key((#[trigger] secs[j]).name@)
                    != #[trigger] names[m]
        }) ==> section_step(s, cache, project, role) == SectionStepView::Found(
            cache[project]@[k].gid@,
        ),
        s.names_of(role) is Some && cache.contains_key(project) && (forall|m: int, j: int|
            0 <= m < s.names_of(role)->0.len() && 0 <= j < cache[project]@.len() ==> section_key(
                (#[trigger] cache[project]@[j]).name@,
            ) != #[trigger] s.names_of(role)->0[m]) ==> section_step(s, cache, project, role)
            == SectionStepView::Failed(
            "в проекте "@ + project + " нет секции для роли '"@ + role + "' (искал имена: "@
                + debug_list(s.names_of(role)->0) + ")"@,
        ),
{
    if s.names_of(role) is Some && cache.contains_key(project) {
        let names = s.names_of(role)->0;
        let secs = cache[project]@;
        lemma_section_for(secs, names, 0);
        if 0 <= n < names.len() && 0 <= k < secs.len() && section_key(secs[k].name@) == names[n]
            && (forall|j: int| 0 <= j < k ==> section_key((#[trigger] secs[j]).name@) != names[n])
            && (forall|m: int, j: int|
            0 <= m < n && 0 <= j < secs.len() ==> section_key((#[trigger] secs[j]).name@)
                != #[trigger] names[m]) {
            lemma_first_section(secs, names, 0, n, k);
        }
        if section_for(secs, names, 0) is Some {
            let gid = section_for(secs, names, 0)->0;
            let j = choose|j: int|
                0 <= j < secs.len() && (#[trigger] secs[j]).gid@ == gid && names.contains(
                    section_key(secs[j].name@),
                );
            let m = names.index_of(section_key(secs[j].name@));
            assert(names[m] == section_key(secs[j].name@));
        }
    }
}

/// A move goes into the section that was found, and is not made where none was.
pub proof fn law_move_into_the_section_found(task: Seq<char>, gid: Seq<char>, e: Seq<char>, r: ApiRequestView)
    ensures
        move_step(task, SectionStepView::Found(gid)) == MoveStepView::Send(move_request(task, gid)),
        move_step(task, SectionStepView::Failed(e)) == MoveStepView::Failed(e),
        move_step(task, SectionStepView::Fetch(r)) == MoveStepView::Fetch(r),
{
}

/// A membership puts a task into its project and its section, with the role of that section; one
/// without a project puts it nowhere.
pub proof fn law_membership_gives_a_place(s: Settings, m: Membership)
    ensures
        m.project is None ==> place(s, m) is None,
        m.project is Some ==> place(s, m) is Some && place(s, m)->0.project_gid
            == m.project->0.gid@ && place(s, m)->0.project_name == m.project->0.name@,
        m.project is Some && m.section is Some ==> place(s, m)->0.section_name
            == m.section->0.name@ && place(s, m)->0.role == s.role_of(m.section->0.name@),
        m.project is Some && m.section is None ==> place(s, m)->0.section_name.len() == 0,
{
}

/// Whether a membership lies in a section of a role.
pub open spec fn in_section_with_role(s: Settings, m: Membership) -> bool {
    place(s, m) is Some && place(s, m)->0.role is Some
}

proof fn lemma_first_places(s: Settings, ms: Seq<Membership>, i: int, k: int)
    requires
        0 <= i <= k <= ms.len(),
    ensures
        (forall|j: int| i <= j < k ==> (#[trigger] ms[j]).project is None) && k < ms.len()
            && ms[k].project is Some ==> first_place(s, ms, i) == place(s, ms[k]),
        (forall|j: int| i <= j < k ==> (#[trigger] ms[j]).project is None) && k == ms.len()
            ==> first_place(s, ms, i) is None,
        (forall|j: int| i <= j < k ==> !in_section_with_role(s, #[trigger] ms[j])) && k < ms.len()
            && in_section_with_role(s, ms[k]) ==> first_role_place(s, ms, i) == place(s, ms[k]),
        (forall|j: int| i <= j < k ==> !in_section_with_role(s, #[trigger] ms[j])) && k == ms.len()
            ==> first_role_place(s, ms, i) is None,
        (forall|j: int| i <= j < k ==> !approved_place(s, #[trigger] ms[j])) && k < ms.len()
            && approved_place(s, ms[k]) ==> first_approved_place(s, ms, i) == place(s, ms[k]),
        (forall|j: int| i <= j < k ==> !approved_place(s, #[trigger] ms[j])) && k == ms.len()
            ==> first_approved_place(s, ms, i) is None,
    decreases k - i,
{
    if i < k {
        lemma_first_places(s, ms, i + 1, k);
    }
}

/// A task is governed by the first of its memberships whose section has a role, and only where none
/// has one by the first in a project; without a project by none.
pub proof fn law_first_role_governs(s: Settings, task: Task, k: int)
    requires
        0 <= k < task.memberships@.len(),
    ensures
        in_section_with_role(s, task.memberships@[k]) && (forall|j: int|
            0 <= j < k ==> !in_section_with_role(s, #[trigger] task.memberships@[j]))
            ==> governing_place(s, task) == place(s, task.memberships@[k]),
        (forall|j: int|
            0 <= j < task.memberships@.len() ==> !in_section_with_role(
                s,
                #[trigger] task.memberships@[j],
            )) && task.memberships@[k].project is Some && (forall|j: int|
            0 <= j < k ==> (#[trigger] task.memberships@[j]).project is None) ==> governing_place(
            s,
            task,
        ) == place(s, task.memberships@[k]),
        (forall|j: int|
            0 <= j < task.memberships@.len() ==> (#[trigger] task.memberships@[j]).project is None)
            ==> governing_place(s, task) is None,
{
    let ms = task.memberships@;
    lemma_first_places(s, ms, 0, k);
    lemma_first_places(s, ms, 0, ms.len() as int);
    if forall|j: int| 0 <= j < ms.len() ==> (#[trigger] ms[j]).project is None {
        assert forall|j: int| 0 <= j < ms.len() implies !in_section_with_role(s, #[trigger] ms[j]) by {
            assert(ms[j].project is None);
        }
    }
}

/// A task is taken from the first of its memberships, at any place, that lies in a project and in a
/// section whose role is approved, and from none where there is no such membership.
pub proof fn law_first_approved_section_is_worked_in(s: Settings, task: Task, k: int)
    requires
        0 <= k <= task.memberships@.len(),
        forall|j: int|
            0 <= j < k ==> ({
                let m = #[trigger] task.memberships@[j];
                m.project is None || m.section is None || s.role_of(m.section->0.name@) is None
                    || !s.approves(s.role_of(m.section->0.name@)->0)
            }),
    ensures
        k == task.memberships@.len() ==> working_place(s, task) is None,
        k < task.memberships@.len() && ({
            let m = task.memberships@[k];
            m.project is Some && m.section is Some && s.role_of(m.section->0.name@) is Some
                && s.approves(s.role_of(m.section->0.name@)->0)
        }) ==> working_place(s, task) == place(s, task.memberships@[k]),
{
    lemma_first_places(s, task.memberships@, 0, k);
}

/// The section of a task in short is the role, else the name, else a question mark.
pub proof fn law_section_in_short(s: Settings, task: Task)
    ensures
        governing_place(s, task) is None ==> section_label(s, task) == "?"@,
        governing_place(s, task) matches Some(p) ==> {
            &&& p.role matches Some(role) ==> section_label(s, task) == role
            &&& p.role is None && p.section_name.len() > 0 ==> section_label(s, task)
                == p.section_name
            &&& p.role is None && p.section_name.len() == 0 ==> section_label(s, task) == "?"@
        },
{
}

/// A request stands for its method, its address and its body, and a step for what it holds.
pub proof fn law_views_of_requests(r: ApiRequest, gid: String, e: ApiError)
    ensures
        r@.method == r.method@,
        r@.url == r.url@,
        r@.body == opt_text(r.body),
        SectionStep::Found(gid)@ == SectionStepView::Found(gid@),
        SectionStep::Failed(e)@ == SectionStepView::Failed(e.0@),
        SectionStep::Fetch(r)@ == SectionStepView::Fetch(r@),
        MoveStep::Send(r)@ == MoveStepView::Send(r@),
        MoveStep::Failed(e)@ == MoveStepView::Failed(e.0@),
        MoveStep::Fetch(r)@ == MoveStepView::Fetch(r@),
{
}

} // verus!
