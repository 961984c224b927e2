//! What a project gets when it is put under control: settings, a prompt and a note in the memory
//! of the coding assistant.

use crate::assistant::Assistant;
use crate::decimal::{dec, dec_i64};
use crate::model::ApiError;
use crate::paths::{join, path_in};
use crate::registry::{GlobalConfig, ProjectEntry};
use crate::runner::{pairs, Poll, SessionPlan};
use crate::text::{
    contains, ends_with, has_text, replace, replaced, stands_at, texts, trim, trimmed,
};
use vstd::prelude::*;
use vstd::string::*;

verus! {

/// A name as it stands in a template.
pub open spec fn slot(name: Seq<char>) -> Seq<char> {
    "{{"@ + name + "}}"@
}

/// A template in which the first `n` names are replaced one after another.
pub open spec fn filled(
    template: Seq<char>,
    vars: Seq<(Seq<char>, Seq<char>)>,
    n: int,
) -> Seq<char>
    decreases n,
{
    if n <= 0 {
        template
    } else {
        replaced(filled(template, vars, n - 1), slot(vars[n - 1].0), vars[n - 1].1)
    }
}

/// A template with the names replaced by their values, one after another.
pub fn fill(template: &str, vars: &Vec<(String, String)>) -> (r: String)
    ensures
        r@ == filled(template@, pairs(vars@), vars@.len() as int),
{
    let mut out = template.to_owned();
    let ghost all = pairs(vars@);
    let mut i: usize = 0;
    while i < vars.len()
        invariant
            i <= vars@.len(),
            all == pairs(vars@),
            out@ == filled(template@, all, i as int),
        decreases vars@.len() - i,
    {
        let mut name = "{{".to_owned();
        name.append(vars[i].0.as_str());
        name.append("}}");
        proof {
            reveal_strlit("{{");
            assert(all[i as int] == (vars@[i as int].0@, vars@[i as int].1@));
        }
        out = replace(out.as_str(), name.as_str(), vars[i].1.as_str());
        i += 1;
    }
    out
}

/// A path as one name: `-` in place of each `/` and each `.`.
pub open spec fn munged(path: Seq<char>) -> Seq<char> {
    path.map_values(
        |c: char|
            if c == '/' || c == '.' {
                '-'
            } else {
                c
            },
    )
}

/// Where the coding assistant keeps its memory of a project.
pub open spec fn memory_path(a: Assistant, home: Seq<char>, project_dir: Seq<char>) -> Seq<char> {
    path_in(
        path_in(path_in(path_in(home, "."@ + a.program@), "projects"@), munged(project_dir)),
        "memory"@,
    )
}

/// Where the coding assistant keeps its memory of a project.
pub fn claude_memory_dir(a: &Assistant, home: &str, project_dir: &str) -> (r: String)
    ensures
        r@ == memory_path(*a, home@, project_dir@),
{
    let mut name = String::new();
    let ghost whole = munged(project_dir@);
    for c in it: project_dir.chars()
        invariant
            it.seq() == project_dir@,
            whole == munged(project_dir@),
            name@ == whole.take(it.index() as int),
    {
        if c == '/' || c == '.' {
            name.push('-');
        } else {
            name.push(c);
        }
    }
    assert(name@ =~= whole);
    let mut hidden = ".".to_owned();
    hidden.append(a.program.as_str());
    let base = join(join(home, hidden.as_str()).as_str(), "projects");
    join(join(base.as_str(), name.as_str()).as_str(), "memory")
}

/// A label, or what stands for it where it is empty.
pub open spec fn label_or(label: Seq<char>, default: Seq<char>) -> Seq<char> {
    if label.len() == 0 {
        default
    } else {
        label
    }
}

fn label_or_of(label: &str, default: &str) -> (r: String)
    ensures
        r@ == label_or(label@, default@),
{
    if label.is_empty() {
        default.to_owned()
    } else {
        label.to_owned()
    }
}

/// What the template of the settings is filled with.
pub open spec fn yaml_vars(
    a: Assistant,
    project: ProjectEntry,
    gcfg: GlobalConfig,
    workspace: Option<Seq<char>>,
) -> Seq<(Seq<char>, Seq<char>)> {
    let (op_gid, op_label) = match gcfg.defaults.operator {
        Some(o) => (o.gid@, label_or(o.label@, "operator"@)),
        None => ("FILL_ME"@, "operator"@),
    };
    let (ag_gid, ag_name, ag_label) = match gcfg.defaults.agent {
        Some(g) => (g.gid@, g.name@, label_or(g.label@, "agent"@)),
        None => ("FILL_ME"@, a.title@, "agent"@),
    };
    let space = match workspace {
        Some(w) => w,
        None => "FILL_ME"@,
    };
    seq![
        ("PROJECT_NAME"@, project.name@),
        ("TOKEN_ENV"@, gcfg.defaults.token_env@),
        ("WORKSPACE"@, space),
        ("OPERATOR_GID"@, op_gid),
        ("OPERATOR_LABEL"@, op_label),
        ("AGENT_GID"@, ag_gid),
        ("AGENT_NAME"@, ag_name),
        ("AGENT_LABEL"@, ag_label),
    ]
}


/// What the template of the settings is filled with: the defaults of the configuration, and
/// `FILL_ME` for what they lack.
pub fn settings_vars(
    a: &Assistant,
    project: &ProjectEntry,
    gcfg: &GlobalConfig,
    workspace: Option<&str>,
) -> (r: Vec<(String, String)>)
    ensures
        pairs(r@) == yaml_vars(
            *a,
            *project,
            *gcfg,
            match workspace {
                Some(w) => Some(w@),
                None => None,
            },
        ),
{
    let d = &gcfg.defaults;
    let (op_gid, op_label) = match &d.operator {
        Some(o) => (o.gid.clone(), label_or_of(o.label.as_str(), "operator")),
        None => ("FILL_ME".to_owned(), "operator".to_owned()),
    };
    let (ag_gid, ag_name, ag_label) = match &d.agent {
        Some(g) => (g.gid.clone(), g.name.clone(), label_or_of(g.label.as_str(), "agent")),
        None => ("FILL_ME".to_owned(), a.title.clone(), "agent".to_owned()),
    };
    let space = match workspace {
        Some(w) => w.to_owned(),
        None => "FILL_ME".to_owned(),
    };
    let mut vars: Vec<(String, String)> = Vec::new();
    vars.push(("PROJECT_NAME".to_owned(), project.name.clone()));
    vars.push(("TOKEN_ENV".to_owned(), d.token_env.clone()));
    vars.push(("WORKSPACE".to_owned(), space));
    vars.push(("OPERATOR_GID".to_owned(), op_gid));
    vars.push(("OPERATOR_LABEL".to_owned(), op_label));
    vars.push(("AGENT_GID".to_owned(), ag_gid));
    vars.push(("AGENT_NAME".to_owned(), ag_name));
    vars.push(("AGENT_LABEL".to_owned(), ag_label));
    assert(pairs(vars@) =~= yaml_vars(
        *a,
        *project,
        *gcfg,
        match workspace {
            Some(w) => Some(w@),
            None => None,
        },
    ));
    vars
}

/// A file to be written.
#[derive(Debug)]
pub struct NewFile {
    pub path: String,
    pub content: String,
}

/// Whether a new file has this path and this content.
pub open spec fn is_file(f: Option<NewFile>, path: Seq<char>, content: Seq<char>) -> bool {
    f is Some && f->0.path@ == path && f->0.content@ == content
}

/// The files that a project lacks.
#[derive(Debug)]
pub struct FilesPlan {
    pub settings: Option<NewFile>,
    pub prompt: Option<NewFile>,
}

pub open spec fn settings_file(project: ProjectEntry) -> Seq<char> {
    path_in(project.autopilot_path(), "autopilot.yaml"@)
}

pub open spec fn prompt_file(project: ProjectEntry) -> Seq<char> {
    path_in(project.autopilot_path(), "prompt.md"@)
}

/// The settings and the prompt of a project, each from its template, unless it is there. A file
/// that is there is never written again.
pub fn ensure_files(
    a: &Assistant,
    project: &ProjectEntry,
    gcfg: &GlobalConfig,
    workspace: Option<&str>,
    has_settings: bool,
    has_prompt: bool,
    settings_template: &str,
    prompt_template: &str,
) -> (r: FilesPlan)
    ensures
        if has_settings {
            r.settings is None
        } else {
            let vars = yaml_vars(
                *a,
                *project,
                *gcfg,
                match workspace {
                    Some(w) => Some(w@),
                    None => None,
                },
            );
            is_file(
                r.settings,
                settings_file(*project),
                filled(settings_template@, vars, vars.len() as int),
            )
        },
        if has_prompt {
            r.prompt is None
        } else {
            is_file(
                r.prompt,
                prompt_file(*project),
                replaced(prompt_template@, slot("PROJECT_NAME"@), project.name@),
            )
        },
{
    let apdir = project.autopilot_dir();
    let settings = if has_settings {
        None
    } else {
        let vars = settings_vars(a, project, gcfg, workspace);
        assert(pairs(vars@).len() == vars@.len());
        Some(
            NewFile {
                path: join(apdir.as_str(), "autopilot.yaml"),
                content: fill(settings_template, &vars),
            },
        )
    };
    let prompt = if has_prompt {
        None
    } else {
        let mut vars: Vec<(String, String)> = Vec::new();
        vars.push(("PROJECT_NAME".to_owned(), project.name.clone()));
        assert(pairs(vars@) =~= seq![("PROJECT_NAME"@, project.name@)]);
        reveal_with_fuel(filled, 2);
        Some(
            NewFile {
                path: join(apdir.as_str(), "prompt.md"),
                content: fill(prompt_template, &vars),
            },
        )
    };
    FilesPlan { settings, prompt }
}

/// The line by which the index of the memory names the note.
pub const INDEX_LINE: &'static str =
    "- [Asana autopilot](asana-autopilot.md) — проект под контролем глобального демона autopilot; конфиг в ./autopilot/, CLI `asana`\n";

/// The file of the note.
pub const NOTE_FILE: &'static str = "asana-autopilot.md";

/// The index with the line for the note behind it.
pub open spec fn indexed(index: Seq<char>) -> Seq<char> {
    let base = if trimmed(index).len() == 0 {
        "# Memory Index\n\n"@
    } else {
        index
    };
    let ended = if stands_at(base, "\n"@, base.len() - "\n"@.len()) {
        base
    } else {
        base + "\n"@
    };
    ended + INDEX_LINE@
}

/// The index of the memory after the note was added; `None` where it names the note already.
pub fn update_index(index: &str) -> (r: Option<String>)
    ensures
        match r {
            Some(new) => !has_text(index@, NOTE_FILE@) && new@ == indexed(index@),
            None => has_text(index@, NOTE_FILE@),
        },
{
    if contains(index, NOTE_FILE) {
        return None;
    }
    let mut out = if trim(index).is_empty() {
        "# Memory Index\n\n".to_owned()
    } else {
        index.to_owned()
    };
    if !ends_with(out.as_str(), "\n") {
        out.append("\n");
    }
    out.append(INDEX_LINE);
    Some(out)
}

/// An index that the note was added to names it, so that it is added once.
pub proof fn law_note_is_indexed_once(index: Seq<char>)
    ensures
        has_text(indexed(index), NOTE_FILE@),
{
    reveal_strlit(
        "- [Asana autopilot](asana-autopilot.md) — проект под контролем глобального демона autopilot; конфиг в ./autopilot/, CLI `asana`\n",
    );
    reveal_strlit("asana-autopilot.md");
    let whole = indexed(index);
    let at = whole.len() - INDEX_LINE@.len() + 20;
    assert(whole.subrange(at, at + NOTE_FILE@.len()) =~= NOTE_FILE@);
    assert(stands_at(whole, NOTE_FILE@, at));
}

/// The note and its place.
pub fn write_memory(a: &Assistant, project: &ProjectEntry, home: &str, template: &str) -> (r:
    NewFile)
    ensures
        r.path@ == path_in(memory_path(*a, home@, project.dir@), NOTE_FILE@),
        r.content@ == replaced(
            replaced(template@, slot("PROJECT_NAME"@), project.name@),
            slot("PROJECT_DIR"@),
            project.dir@,
        ),
{
    let dir = claude_memory_dir(a, home, project.dir.as_str());
    let mut vars: Vec<(String, String)> = Vec::new();
    vars.push(("PROJECT_NAME".to_owned(), project.name.clone()));
    vars.push(("PROJECT_DIR".to_owned(), project.dir.clone()));
    assert(pairs(vars@) =~= seq![
        ("PROJECT_NAME"@, project.name@),
        ("PROJECT_DIR"@, project.dir@),
    ]);
    reveal_with_fuel(filled, 3);
    NewFile { path: join(dir.as_str(), NOTE_FILE), content: fill(template, &vars) }
}

/// The log of the session that fills in the prompt.
pub fn init_log_path(project: &ProjectEntry, stamp: &str) -> (r: String)
    ensures
        r@ == path_in(project.logs_path(), "init-"@ + stamp@ + ".log"@),
{
    let mut name = "init-".to_owned();
    name.append(stamp);
    name.append(".log");
    join(project.logs_dir().as_str(), name.as_str())
}

/// How the session is started that fills in the prompt: one of the smaller model, with the
/// thinking of a medium effort.
pub fn refine_prompt_with_claude(project: &ProjectEntry, template: &str) -> (r: SessionPlan)
    ensures
        texts(r.args@) == seq![
            "-p"@,
            replaced(template@, slot("PROJECT_DIR"@), project.dir@),
            "--model"@,
            "sonnet"@,
            "--dangerously-skip-permissions"@,
        ],
        r.dir@ == project.dir@,
        pairs(r.env@) == seq![("MAX_THINKING_TOKENS"@, "10000"@)],
{
    let mut vars: Vec<(String, String)> = Vec::new();
    vars.push(("PROJECT_DIR".to_owned(), project.dir.clone()));
    assert(pairs(vars@) =~= seq![("PROJECT_DIR"@, project.dir@)]);
    reveal_with_fuel(filled, 2);
    let prompt = fill(template, &vars);
    let ghost text = prompt@;
    let mut args: Vec<String> = Vec::new();
    args.push("-p".to_owned());
    args.push(prompt);
    args.push("--model".to_owned());
    args.push("sonnet".to_owned());
    args.push("--dangerously-skip-permissions".to_owned());
    assert(texts(args@) =~= seq![
        "-p"@,
        text,
        "--model"@,
        "sonnet"@,
        "--dangerously-skip-permissions"@,
    ]);
    let mut env: Vec<(String, String)> = Vec::new();
    env.push(("MAX_THINKING_TOKENS".to_owned(), "10000".to_owned()));
    assert(pairs(env@) =~= seq![("MAX_THINKING_TOKENS"@, "10000"@)]);
    SessionPlan { args, dir: project.dir.clone(), env }
}

/// The seconds that the session may take that fills in the prompt.
pub const INIT_SECONDS: u64 = 900;

/// An exit code in the notation of `Debug`.
pub open spec fn code_text(code: Option<i32>) -> Seq<char> {
    match code {
        Some(n) => "Some("@ + dec(n as int) + ")"@,
        None => "None"@,
    }
}

pub fn show_code(code: Option<i32>) -> (r: String)
    ensures
        r@ == code_text(code),
{
    match code {
        Some(n) => {
            let mut out = "Some(".to_owned();
            out.append(dec_i64(n as i64).as_str());
            out.append(")");
            out
        },
        None => "None".to_owned(),
    }
}

/// What to do with the session that fills in the prompt.
#[derive(Debug)]
pub enum InitStep {
    Done,
    Failed(ApiError),
    /// It took too long: it is killed, and this is told.
    Kill(ApiError),
    /// Look again after so many seconds.
    Wait(u64),
}

/// What follows from a look at the session that fills in the prompt. `fault` says why it could not
/// be looked at.
pub fn watch_init(
    a: &Assistant,
    poll: Poll,
    past_deadline: bool,
    log_path: &str,
    fault: &str,
) -> (r: InitStep)
    ensures
        match poll {
            Poll::Exited(code) => if code == Some(0i32) {
                r is Done
            } else {
                r matches InitStep::Failed(e) && e.0@ == a.program@ + " завершился с ошибкой (код "@
                    + code_text(code) + "), см. "@ + log_path@
            },
            Poll::Running => if past_deadline {
                r matches InitStep::Kill(e) && e.0@
                    == "инициализация превысила 15 минут и была прервана, см. "@ + log_path@
            } else {
                r == InitStep::Wait(3)
            },
            Poll::Failed => r matches InitStep::Failed(e) && e.0@ == "try_wait: "@ + fault@,
        },
{
    match poll {
        Poll::Exited(code) => {
            let success = match code {
                Some(n) => n == 0,
                None => false,
            };
            if success {
                InitStep::Done
            } else {
                let mut msg = a.program.clone();
                msg.append(" завершился с ошибкой (код ");
                msg.append(show_code(code).as_str());
                msg.append("), см. ");
                msg.append(log_path);
                InitStep::Failed(ApiError(msg))
            }
        },
        Poll::Running => {
            if past_deadline {
                let mut msg = "инициализация превысила 15 минут и была прервана, см. ".to_owned();
                msg.append(log_path);
                InitStep::Kill(ApiError(msg))
            } else {
                InitStep::Wait(3)
            }
        },
        Poll::Failed => {
            let mut msg = "try_wait: ".to_owned();
            msg.append(fault);
            InitStep::Failed(ApiError(msg))
        },
    }
}

proof fn lemma_filled_by_front(
    template: Seq<char>,
    a: Seq<(Seq<char>, Seq<char>)>,
    b: Seq<(Seq<char>, Seq<char>)>,
    n: int,
)
    requires
        0 <= n <= a.len(),
        n <= b.len(),
        forall|i: int| 0 <= i < n ==> a[i] == b[i],
    ensures
        filled(template, a, n) == filled(template, b, n),
    decreases n,
{
    if n > 0 {
        lemma_filled_by_front(template, a, b, n - 1);
    }
}

/// A template is filled name by name, each between double braces; without names it stays as it is.
pub proof fn law_templates_are_filled_name_by_name(
    template: Seq<char>,
    vars: Seq<(Seq<char>, Seq<char>)>,
    name: Seq<char>,
    value: Seq<char>,
)
    ensures
        filled(template, vars, 0) == template,
        filled(template, vars.push((name, value)), vars.len() as int + 1) == replaced(
            filled(template, vars, vars.len() as int),
            "{{"@ + name + "}}"@,
            value,
        ),
{
    lemma_filled_by_front(template, vars.push((name, value)), vars, vars.len() as int);
}

/// The settings of a new project are filled with its name, the defaults of the configuration and the
/// workspace; what these lack is left to be filled in, and the labels and the name of the agent have
/// their own defaults.
pub proof fn law_settings_are_filled_with_the_defaults(
    a: Assistant,
    project: ProjectEntry,
    gcfg: GlobalConfig,
    workspace: Option<Seq<char>>,
)
    ensures
        ({
            let v = yaml_vars(a, project, gcfg, workspace);
            let d = gcfg.defaults;
            &&& v.len() == 8
            &&& v[0] == ("PROJECT_NAME"@, project.name@)
            &&& v[1] == ("TOKEN_ENV"@, d.token_env@)
            &&& v[2].0 == "WORKSPACE"@
            &&& v[3].0 == "OPERATOR_GID"@
            &&& v[4].0 == "OPERATOR_LABEL"@
            &&& v[5].0 == "AGENT_GID"@
            &&& v[6].0 == "AGENT_NAME"@
            &&& v[7].0 == "AGENT_LABEL"@
            &&& workspace is Some ==> v[2].1 == workspace->0
            &&& workspace is None ==> v[2].1 == "FILL_ME"@
            &&& d.operator matches Some(o) ==> v[3].1 == o.gid@ && (o.label@.len() > 0 ==> v[4].1
                == o.label@) && (o.label@.len() == 0 ==> v[4].1 == "operator"@)
            &&& d.operator is None ==> v[3].1 == "FILL_ME"@ && v[4].1 == "operator"@
            &&& d.agent matches Some(g) ==> v[5].1 == g.gid@ && v[6].1 == g.name@ && (g.label@.len()
                > 0 ==> v[7].1 == g.label@) && (g.label@.len() == 0 ==> v[7].1 == "agent"@)
            &&& d.agent is None ==> v[5].1 == "FILL_ME"@ && v[6].1 == a.title@ && v[7].1
                == "agent"@
        }),
        settings_file(project) == path_in(project.autopilot_path(), "autopilot.yaml"@),
        prompt_file(project) == path_in(project.autopilot_path(), "prompt.md"@),
{
}

/// The memory of a project lies under a name made of its path: of the same length, with a dash for
/// each slash and each dot and every other character as it is.
pub proof fn law_memory_lies_under_the_path(
    a: Assistant,
    home: Seq<char>,
    dir: Seq<char>,
    i: int,
)
    ensures
        munged(dir).len() == dir.len(),
        0 <= i < dir.len() && (dir[i] == '/' || dir[i] == '.') ==> munged(dir)[i] == '-',
        0 <= i < dir.len() && dir[i] != '/' && dir[i] != '.' ==> munged(dir)[i] == dir[i],
        memory_path(a, home, dir) == path_in(
            path_in(path_in(path_in(home, "."@ + a.program@), "projects"@), munged(dir)),
            "memory"@,
        ),
{
}

/// The index keeps what it held, and the line of the note stands behind it in a line of its own; an
/// index that holds nothing gets its heading first.
pub proof fn law_index_keeps_what_it_held(index: Seq<char>)
    ensures
        trimmed(index).len() == 0 ==> indexed(index) == "# Memory Index\n\n"@ + INDEX_LINE@,
        trimmed(index).len() > 0 && index.last() == '\n' ==> indexed(index) == index + INDEX_LINE@,
        trimmed(index).len() > 0 && index.last() != '\n' ==> indexed(index) == index + "\n"@
            + INDEX_LINE@,
{
    reveal_strlit("\n");
    reveal_strlit("# Memory Index\n\n");
    let head = "# Memory Index\n\n"@;
    assert("\n"@.len() == 1 && "\n"@[0] == '\n');
    assert(head.subrange(head.len() - 1, head.len() as int) =~= "\n"@);
    if trimmed(index).len() > 0 {
        assert(index.len() > 0) by {
            if index.len() == 0 {
                assert(trimmed(index) =~= index);
            }
        }
        let last = index.subrange(index.len() - 1, index.len() as int);
        assert(last[0] == index.last());
        if index.last() == '\n' {
            assert(last =~= "\n"@);
        }
    }
}

/// An exit code as it is told.
pub proof fn law_exit_codes_as_they_are_told(n: i32)
    ensures
        code_text(Some(n)) == "Some("@ + dec(n as int) + ")"@,
        code_text(None) == "None"@,
{
}

} // verus!
