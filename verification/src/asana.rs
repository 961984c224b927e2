//! The command line for Asana that a session uses.

use crate::client::{governing_place, Client};
use crate::model::{ApiError, Task};
use crate::outside::{lowercase, to_lowercase};
use crate::settings::Settings;
use crate::text::{opt_text, text_eq, texts, trim, trimmed};
use vstd::prelude::*;
use vstd::string::*;

verus! {

/// Whom a word stands for: `Some(None)` for nobody, `None` where it is not known.
pub open spec fn assignee(s: Settings, who: Seq<char>) -> Option<Option<Seq<char>>> {
    let w = lowercase(who);
    if w == "none"@ {
        Some(None)
    } else if w == "operator"@ || w == lowercase(s.operator_label@) {
        Some(Some(s.operator_gid@))
    } else if w == "agent"@ || w == lowercase(s.agent_label@) {
        Some(Some(s.agent_gid@))
    } else {
        None
    }
}

/// The view of an assignment.
pub open spec fn assignee_view(o: Option<Option<String>>) -> Option<Option<Seq<char>>> {
    match o {
        Some(x) => Some(opt_text(x)),
        None => None,
    }
}

/// Whom a word in lower case stands for, given the labels of the operator and of the agent in
/// lower case.
pub fn assignee_of(s: &Settings, who: &str, operator: &str, agent: &str) -> (r: Option<
    Option<String>,
>)
    ensures
        assignee_view(r) == (if who@ == "none"@ {
            Some(None)
        } else if who@ == "operator"@ || who@ == operator@ {
            Some(Some(s.operator_gid@))
        } else if who@ == "agent"@ || who@ == agent@ {
            Some(Some(s.agent_gid@))
        } else {
            None
        }),
{
    if text_eq(who, "none") {
        Some(None)
    } else if text_eq(who, "operator") || text_eq(who, operator) {
        Some(Some(s.operator_gid.clone()))
    } else if text_eq(who, "agent") || text_eq(who, agent) {
        Some(Some(s.agent_gid.clone()))
    } else {
        None
    }
}

/// Whom a word stands for: `operator`, `agent`, `none` or a label of the settings, in any case of
/// letters.
pub fn resolve_assignee(s: &Settings, who: &str) -> (r: Option<Option<String>>)
    ensures
        assignee_view(r) == assignee(*s, who@),
{
    let w = to_lowercase(who);
    let operator = to_lowercase(s.operator_label.as_str());
    let agent = to_lowercase(s.agent_label.as_str());
    assignee_of(s, w.as_str(), operator.as_str(), agent.as_str())
}

/// Whether an argument stands for the standard input.
pub fn from_stdin(arg: &str) -> (r: bool)
    ensures
        r == (arg@ == "-"@),
{
    text_eq(arg, "-")
}

/// The text that an argument stands for: the standard input without the white space around it, or
/// the argument itself.
pub fn read_text(arg: &str, stdin: &str) -> (r: String)
    ensures
        r@ == (if arg@ == "-"@ {
            trimmed(stdin@)
        } else {
            arg@
        }),
{
    if text_eq(arg, "-") {
        trim(stdin).to_owned()
    } else {
        arg.to_owned()
    }
}

/// The project in which a task is moved.
pub fn project_of(client: &Client, task: &Task, gid: &str) -> (r: Result<String, ApiError>)
    ensures
        match (r, governing_place(client.settings, *task)) {
            (Ok(project), Some(p)) => project@ == p.project_gid,
            (Err(e), None) => e.0@ == "задача "@ + gid@ + " не состоит ни в одном проекте"@,
            _ => false,
        },
{
    match client.placement(task) {
        Some(p) => Ok(p.project_gid),
        None => {
            let mut msg = "задача ".to_owned();
            msg.append(gid);
            msg.append(" не состоит ни в одном проекте");
            Err(ApiError(msg))
        },
    }
}

/// What the flags of `subtask` say: the values of `--notes` as they stand, and the gid of the
/// assignee.
#[derive(Debug)]
pub struct SubtaskFlags {
    pub notes: Vec<String>,
    pub assignee: Option<String>,
}

/// What the flags of `subtask` say, as texts.
pub struct SubtaskView {
    pub notes: Seq<Seq<char>>,
    pub assignee: Option<Seq<char>>,
}

impl View for SubtaskFlags {
    type V = SubtaskView;

    open spec fn view(&self) -> SubtaskView {
        SubtaskView { notes: texts(self.notes@), assignee: opt_text(self.assignee) }
    }
}

/// What the flags from place `i` on add to those before, or what is wrong.
pub open spec fn flags_from(s: Settings, args: Seq<Seq<char>>, i: int, so_far: SubtaskView) -> Result<
    SubtaskView,
    Seq<char>,
>
    decreases args.len() - i,
{
    if i < 0 || i >= args.len() {
        Ok(so_far)
    } else if args[i] == "--notes"@ {
        if i + 1 < args.len() {
            flags_from(
                s,
                args,
                i + 2,
                SubtaskView { notes: so_far.notes.push(args[i + 1]), ..so_far },
            )
        } else {
            Err("--notes needs a value"@)
        }
    } else if args[i] == "--assignee"@ {
        if i + 1 >= args.len() {
            Err("--assignee needs a value"@)
        } else {
            match assignee(s, args[i + 1]) {
                Some(Some(gid)) => flags_from(
                    s,
                    args,
                    i + 2,
                    SubtaskView { assignee: Some(gid), ..so_far },
                ),
                _ => Err("assignee must be operator|agent (или метка из конфига)"@),
            }
        }
    } else {
        Err("unknown flag "@ + args[i])
    }
}

/// What the flags from place `from` on say, or what is wrong.
pub fn subtask_flags(s: &Settings, args: &Vec<String>, from: usize) -> (r: Result<
    SubtaskFlags,
    String,
>)
    requires
        from <= args@.len(),
    ensures
        match (
            r,
            flags_from(
                *s,
                texts(args@),
                from as int,
                (SubtaskView { notes: Seq::empty(), assignee: None }),
            ),
        ) {
            (Ok(a), Ok(b)) => a@ == b,
            (Err(a), Err(b)) => a@ == b,
            _ => false,
        },
{
    let mut told = SubtaskFlags { notes: Vec::new(), assignee: None };
    let ghost all = texts(args@);
    let ghost start = told@;
    assert(start.notes =~= Seq::empty());
    let n: usize = args.len();
    let mut i: usize = from;
    while i < n
        invariant
            i <= n,
            n == args@.len(),
            all == texts(args@),
            start == (SubtaskView { notes: Seq::empty(), assignee: None }),
            flags_from(*s, all, from as int, start) == flags_from(*s, all, i as int, told@),
        decreases n - i,
    {
        let arg = args[i].as_str();
        assert(arg@ == all[i as int]);
        if text_eq(arg, "--notes") {
            if i + 1 >= n {
                return Err("--notes needs a value".to_owned());
            }
            assert(args@[i + 1]@ == all[i + 1]);
            let ghost before = told.notes@;
            told.notes.push(args[i + 1].clone());
            assert(texts(told.notes@) =~= texts(before).push(all[i + 1]));
            i += 2;
        } else if text_eq(arg, "--assignee") {
            if i + 1 >= n {
                return Err("--assignee needs a value".to_owned());
            }
            assert(args@[i + 1]@ == all[i + 1]);
            match resolve_assignee(s, args[i + 1].as_str()) {
                Some(Some(gid)) => {
                    told.assignee = Some(gid);
                },
                _ => {
                    return Err("assignee must be operator|agent (или метка из конфига)".to_owned());
                },
            }
            i += 2;
        } else {
            let mut msg = "unknown flag ".to_owned();
            msg.append(arg);
            return Err(msg);
        }
    }
    Ok(told)
}

/// The notes of a subtask: the last value counts; the standard input can be read once, and is
/// empty afterwards.
pub open spec fn notes_text(notes: Seq<Seq<char>>, stdin: Seq<char>) -> Seq<char> {
    if notes.len() == 0 {
        ""@
    } else if notes.last() != "-"@ {
        notes.last()
    } else if notes.drop_last().contains("-"@) {
        ""@
    } else {
        trimmed(stdin)
    }
}

pub fn subtask_notes(notes: &Vec<String>, stdin: &str) -> (r: String)
    ensures
        r@ == notes_text(texts(notes@), stdin@),
{
    let n: usize = notes.len();
    let ghost all = texts(notes@);
    assert(all.len() == n);
    if n == 0 {
        return "".to_owned();
    }
    assert(all.last() == notes@[n - 1]@);
    if !text_eq(notes[n - 1].as_str(), "-") {
        return notes[n - 1].clone();
    }
    let mut i: usize = 0;
    while i < n - 1
        invariant
            0 < n == notes@.len(),
            i <= n - 1,
            all == texts(notes@),
            all.last() == "-"@,
            forall|j: int| 0 <= j < i ==> all[j] != "-"@,
        decreases n - 1 - i,
    {
        assert(all[i as int] == notes@[i as int]@);
        if text_eq(notes[i].as_str(), "-") {
            assert(all.drop_last()[i as int] == "-"@);
            return "".to_owned();
        }
        i += 1;
    }
    trim(stdin).to_owned()
}

/// How a task is handed over.
#[derive(Debug, Clone, Copy, PartialEq, Eq, Structural)]
pub enum Handover {
    Qa,
    Done,
    Block,
}

impl Handover {
    pub open spec fn role_text(self) -> Seq<char> {
        match self {
            Handover::Qa => "qa"@,
            Handover::Done => "done"@,
            Handover::Block => "blocked"@,
        }
    }

    /// The role into whose section the task goes.
    pub fn role(self) -> (r: &'static str)
        ensures
            r@ == self.role_text(),
    {
        match self {
            Handover::Qa => "qa",
            Handover::Done => "done",
            Handover::Block => "blocked",
        }
    }

    /// The steps of a handover: a comment; then the move and the assignment to the operator, the
    /// other way round for a block.
    pub open spec fn plan(self) -> Seq<HandoverStep> {
        match self {
            Handover::Block => seq![HandoverStep::Comment, HandoverStep::Assign, HandoverStep::Move],
            _ => seq![HandoverStep::Comment, HandoverStep::Move, HandoverStep::Assign],
        }
    }

    pub fn steps(self) -> (r: Vec<HandoverStep>)
        ensures
            r@ == self.plan(),
    {
        let mut out: Vec<HandoverStep> = Vec::new();
        out.push(HandoverStep::Comment);
        match self {
            Handover::Block => {
                out.push(HandoverStep::Assign);
                out.push(HandoverStep::Move);
            },
            _ => {
                out.push(HandoverStep::Move);
                out.push(HandoverStep::Assign);
            },
        }
        assert(out@ =~= self.plan());
        out
    }
}

/// One step of a handover.
#[derive(Debug, Clone, Copy, PartialEq, Eq, Structural)]
pub enum HandoverStep {
    Comment,
    Move,
    Assign,
}

/// Every handover comments, moves and assigns, each once, the comment first.
pub proof fn law_handover_does_each_step_once(h: Handover)
    ensures
        h.plan().len() == 3,
        h.plan()[0] == HandoverStep::Comment,
        h.plan().contains(HandoverStep::Move),
        h.plan().contains(HandoverStep::Assign),
{
    assert(h.plan()[1] == HandoverStep::Move || h.plan()[2] == HandoverStep::Move);
    assert(h.plan()[1] == HandoverStep::Assign || h.plan()[2] == HandoverStep::Assign);
}

/// What the command line asks for. An argument that may stand for the standard input is given as
/// it stands.
#[derive(Debug)]
pub enum Request {
    Help,
    Task(String),
    Comment(String, String),
    Move(String, String),
    /// The task, the gid of the assignee, and the word for it.
    Assign(String, Option<String>, String),
    Complete(String),
    /// The parent, the name and the flags.
    Subtask(String, String, SubtaskFlags),
    /// The attachment and the directory.
    Download(String, String),
    /// How a task is handed over, the task and the comment.
    HandOver(Handover, String, String),
    /// There is no such command.
    Unknown(String),
    /// The arguments are wrong, and this is told.
    Wrong(String),
}

/// What the command line asks for, as texts.
pub enum RequestView {
    Help,
    Task(Seq<char>),
    Comment(Seq<char>, Seq<char>),
    Move(Seq<char>, Seq<char>),
    Assign(Seq<char>, Option<Seq<char>>, Seq<char>),
    Complete(Seq<char>),
    Subtask(Seq<char>, Seq<char>, SubtaskView),
    Download(Seq<char>, Seq<char>),
    HandOver(Handover, Seq<char>, Seq<char>),
    Unknown(Seq<char>),
    Wrong(Seq<char>),
}

impl View for Request {
    type V = RequestView;

    open spec fn view(&self) -> RequestView {
        match self {
            Request::Help => RequestView::Help,
            Request::Task(gid) => RequestView::Task(gid@),
            Request::Comment(gid, text) => RequestView::Comment(gid@, text@),
            Request::Move(gid, role) => RequestView::Move(gid@, role@),
            Request::Assign(gid, to, who) => RequestView::Assign(gid@, opt_text(*to), who@),
            Request::Complete(gid) => RequestView::Complete(gid@),
            Request::Subtask(parent, name, flags) => RequestView::Subtask(parent@, name@, flags@),
            Request::Download(gid, dir) => RequestView::Download(gid@, dir@),
            Request::HandOver(how, gid, text) => RequestView::HandOver(*how, gid@, text@),
            Request::Unknown(cmd) => RequestView::Unknown(cmd@),
            Request::Wrong(msg) => RequestView::Wrong(msg@),
        }
    }
}

/// A handover with its task and its comment, or what is missing.
pub open spec fn handover_in(how: Handover, args: Seq<Seq<char>>, usage: Seq<char>) -> RequestView {
    if args.len() <= 1 {
        RequestView::Wrong(usage)
    } else if args.len() <= 2 {
        RequestView::Wrong("comment required"@)
    } else {
        RequestView::HandOver(how, args[1], args[2])
    }
}

fn handover_of(how: Handover, args: &Vec<String>, usage: &str) -> (r: Request)
    ensures
        r@ == handover_in(how, texts(args@), usage@),
{
    let ghost all = texts(args@);
    assert(all.len() == args@.len());
    assert(forall|i: int| 0 <= i < args@.len() ==> (#[trigger] args@[i])@ == all[i]);
    if args.len() <= 1 {
        Request::Wrong(usage.to_owned())
    } else if args.len() <= 2 {
        Request::Wrong("comment required".to_owned())
    } else {
        Request::HandOver(how, args[1].clone(), args[2].clone())
    }
}

/// What the arguments of the program ask for.
pub open spec fn request_in(s: Settings, args: Seq<Seq<char>>) -> RequestView {
    let n = args.len();
    if n == 0 || args[0] == "help"@ || args[0] == "--help"@ {
        RequestView::Help
    } else if args[0] == "task"@ {
        if n > 1 {
            RequestView::Task(args[1])
        } else {
            RequestView::Wrong("usage: asana task <gid>"@)
        }
    } else if args[0] == "comment"@ {
        if n <= 1 {
            RequestView::Wrong("usage: asana comment <gid> <text|->"@)
        } else if n <= 2 {
            RequestView::Wrong("comment text required"@)
        } else {
            RequestView::Comment(args[1], args[2])
        }
    } else if args[0] == "move"@ {
        if n <= 1 {
            RequestView::Wrong("usage: asana move <gid> <role>"@)
        } else if n <= 2 {
            RequestView::Wrong("role required"@)
        } else {
            RequestView::Move(args[1], args[2])
        }
    } else if args[0] == "assign"@ {
        if n <= 1 {
            RequestView::Wrong("usage: asana assign <gid> <operator|agent|none>"@)
        } else if n <= 2 {
            RequestView::Wrong("assignee required"@)
        } else {
            match assignee(s, args[2]) {
                Some(to) => RequestView::Assign(args[1], to, args[2]),
                None => RequestView::Wrong(
                    "assignee must be operator|agent|none (или метка из конфига)"@,
                ),
            }
        }
    } else if args[0] == "complete"@ {
        if n > 1 {
            RequestView::Complete(args[1])
        } else {
            RequestView::Wrong("usage: asana complete <gid>"@)
        }
    } else if args[0] == "subtask"@ {
        if n <= 1 {
            RequestView::Wrong(
                "usage: asana subtask <parent_gid> <name> [--notes <text|->] [--assignee operator|agent]"@,
            )
        } else if n <= 2 {
            RequestView::Wrong("subtask name required"@)
        } else {
            match flags_from(s, args, 3, SubtaskView { notes: Seq::empty(), assignee: None }) {
                Ok(flags) => RequestView::Subtask(args[1], args[2], flags),
                Err(e) => RequestView::Wrong(e),
            }
        }
    } else if args[0] == "download"@ {
        if n <= 1 {
            RequestView::Wrong("usage: asana download <attachment_gid> [dir]"@)
        } else if n <= 2 {
            RequestView::Download(args[1], "."@)
        } else {
            RequestView::Download(args[1], args[2])
        }
    } else if args[0] == "qa"@ {
        handover_in(Handover::Qa, args, "usage: asana qa <gid> <comment|->"@)
    } else if args[0] == "done"@ {
        handover_in(Handover::Done, args, "usage: asana done <gid> <comment|->"@)
    } else if args[0] == "block"@ {
        handover_in(Handover::Block, args, "usage: asana block <gid> <comment|->"@)
    } else {
        RequestView::Unknown(args[0])
    }
}

/// Whether the arguments ask for the help, which needs no settings.
pub fn wants_help(args: &Vec<String>) -> (r: bool)
    ensures
        r == (args@.len() == 0 || args@[0]@ == "help"@ || args@[0]@ == "--help"@),
{
    args.len() == 0 || text_eq(args[0].as_str(), "help") || text_eq(args[0].as_str(), "--help")
}

/// What the arguments of the program ask for.
pub fn parse_request(s: &Settings, args: &Vec<String>) -> (r: Request)
    ensures
        r@ == request_in(*s, texts(args@)),
{
    let ghost all = texts(args@);
    assert(all.len() == args@.len());
    assert(forall|i: int| 0 <= i < args@.len() ==> (#[trigger] args@[i])@ == all[i]);
    let n: usize = args.len();
    if wants_help(args) {
        return Request::Help;
    }
    let cmd = args[0].as_str();
    if text_eq(cmd, "task") {
        if n > 1 {
            Request::Task(args[1].clone())
        } else {
            Request::Wrong("usage: asana task <gid>".to_owned())
        }
    } else if text_eq(cmd, "comment") {
        if n <= 1 {
            Request::Wrong("usage: asana comment <gid> <text|->".to_owned())
        } else if n <= 2 {
            Request::Wrong("comment text required".to_owned())
        } else {
            Request::Comment(args[1].clone(), args[2].clone())
        }
    } else if text_eq(cmd, "move") {
        if n <= 1 {
            Request::Wrong("usage: asana move <gid> <role>".to_owned())
        } else if n <= 2 {
            Request::Wrong("role required".to_owned())
        } else {
            Request::Move(args[1].clone(), args[2].clone())
        }
    } else if text_eq(cmd, "assign") {
        if n <= 1 {
            Request::Wrong("usage: asana assign <gid> <operator|agent|none>".to_owned())
        } else if n <= 2 {
            Request::Wrong("assignee required".to_owned())
        } else {
            match resolve_assignee(s, args[2].as_str()) {
                Some(to) => Request::Assign(args[1].clone(), to, args[2].clone()),
                None => Request::Wrong(
                    "assignee must be operator|agent|none (или метка из конфига)".to_owned(),
                ),
            }
        }
    } else if text_eq(cmd, "complete") {
        if n > 1 {
            Request::Complete(args[1].clone())
        } else {
            Request::Wrong("usage: asana complete <gid>".to_owned())
        }
    } else if text_eq(cmd, "subtask") {
        if n <= 1 {
            Request::Wrong(
                "usage: asana subtask <parent_gid> <name> [--notes <text|->] [--assignee operator|agent]".to_owned(),
            )
        } else if n <= 2 {
            Request::Wrong("subtask name required".to_owned())
        } else {
            match subtask_flags(s, args, 3) {
                Ok(flags) => Request::Subtask(args[1].clone(), args[2].clone(), flags),
                Err(e) => Request::Wrong(e),
            }
        }
    } else if text_eq(cmd, "download") {
        if n <= 1 {
            Request::Wrong("usage: asana download <attachment_gid> [dir]".to_owned())
        } else if n <= 2 {
            Request::Download(args[1].clone(), ".".to_owned())
        } else {
            Request::Download(args[1].clone(), args[2].clone())
        }
    } else if text_eq(cmd, "qa") {
        handover_of(Handover::Qa, args, "usage: asana qa <gid> <comment|->")
    } else if text_eq(cmd, "done") {
        handover_of(Handover::Done, args, "usage: asana done <gid> <comment|->")
    } else if text_eq(cmd, "block") {
        handover_of(Handover::Block, args, "usage: asana block <gid> <comment|->")
    } else {
        Request::Unknown(cmd.to_owned())
    }
}

proof fn lemma_command_words()
    ensures
        "help"@.len() == 4 && "help"@[0] == 'h',
        "--help"@.len() == 6 && "--help"@[0] == '-',
        "task"@.len() == 4 && "task"@[0] == 't',
        "comment"@.len() == 7 && "comment"@[0] == 'c',
        "move"@.len() == 4 && "move"@[0] == 'm',
        "assign"@.len() == 6 && "assign"@[0] == 'a',
        "complete"@.len() == 8 && "complete"@[0] == 'c',
        "subtask"@.len() == 7 && "subtask"@[0] == 's',
        "download"@.len() == 8 && "download"@[0] == 'd',
        "qa"@.len() == 2 && "qa"@[0] == 'q',
        "done"@.len() == 4 && "done"@[0] == 'd',
        "block"@.len() == 5 && "block"@[0] == 'b',
{
    reveal_strlit("help");
    reveal_strlit("--help");
    reveal_strlit("task");
    reveal_strlit("comment");
    reveal_strlit("move");
    reveal_strlit("assign");
    reveal_strlit("complete");
    reveal_strlit("subtask");
    reveal_strlit("download");
    reveal_strlit("qa");
    reveal_strlit("done");
    reveal_strlit("block");
}

/// A task is handed over by `qa`, `done` or `block` with the task first and the comment behind it;
/// what stands behind these counts for nothing.
pub proof fn law_handover_takes_task_then_comment(s: Settings, args: Seq<Seq<char>>)
    requires
        args.len() >= 3,
    ensures
        args[0] == "qa"@ ==> request_in(s, args) == RequestView::HandOver(
            Handover::Qa,
            args[1],
            args[2],
        ),
        args[0] == "done"@ ==> request_in(s, args) == RequestView::HandOver(
            Handover::Done,
            args[1],
            args[2],
        ),
        args[0] == "block"@ ==> request_in(s, args) == RequestView::HandOver(
            Handover::Block,
            args[1],
            args[2],
        ),
{
    lemma_command_words();
}

/// The other commands on a task take the task first, and behind it the comment, the role, the word
/// for the assignee, the name of the subtask or the directory.
pub proof fn law_commands_take_the_task_first(s: Settings, args: Seq<Seq<char>>)
    requires
        args.len() >= 2,
    ensures
        args[0] == "task"@ ==> request_in(s, args) == RequestView::Task(args[1]),
        args[0] == "complete"@ ==> request_in(s, args) == RequestView::Complete(args[1]),
        args[0] == "download"@ && args.len() == 2 ==> request_in(s, args) == RequestView::Download(
            args[1],
            "."@,
        ),
        args[0] == "download"@ && args.len() > 2 ==> request_in(s, args) == RequestView::Download(
            args[1],
            args[2],
        ),
        args[0] == "comment"@ && args.len() > 2 ==> request_in(s, args) == RequestView::Comment(
            args[1],
            args[2],
        ),
        args[0] == "move"@ && args.len() > 2 ==> request_in(s, args) == RequestView::Move(
            args[1],
            args[2],
        ),
        args[0] == "assign"@ && args.len() > 2 ==> (assignee(s, args[2]) matches Some(to)
            ==> request_in(s, args) == RequestView::Assign(args[1], to, args[2])),
        args[0] == "assign"@ && args.len() > 2 && assignee(s, args[2]) is None ==> request_in(
            s,
            args,
        ) is Wrong,
        args[0] == "subtask"@ && args.len() == 3 ==> request_in(s, args) == RequestView::Subtask(
            args[1],
            args[2],
            SubtaskView { notes: Seq::empty(), assignee: None },
        ),
{
    lemma_command_words();
}

/// A command that lacks an argument is refused, with what it needs.
pub proof fn law_lacking_arguments_are_told(s: Settings, args: Seq<Seq<char>>)
    ensures
        args.len() == 0 ==> request_in(s, args) == RequestView::Help,
        args.len() > 0 && (args[0] == "help"@ || args[0] == "--help"@) ==> request_in(s, args)
            == RequestView::Help,
        args.len() == 1 ==> {
            let r = request_in(s, args);
            &&& args[0] == "task"@ ==> r == RequestView::Wrong("usage: asana task <gid>"@)
            &&& args[0] == "comment"@ ==> r == RequestView::Wrong(
                "usage: asana comment <gid> <text|->"@,
            )
            &&& args[0] == "move"@ ==> r == RequestView::Wrong("usage: asana move <gid> <role>"@)
            &&& args[0] == "assign"@ ==> r == RequestView::Wrong(
                "usage: asana assign <gid> <operator|agent|none>"@,
            )
            &&& args[0] == "complete"@ ==> r == RequestView::Wrong("usage: asana complete <gid>"@)
            &&& args[0] == "subtask"@ ==> r == RequestView::Wrong(
                "usage: asana subtask <parent_gid> <name> [--notes <text|->] [--assignee operator|agent]"@,
            )
            &&& args[0] == "download"@ ==> r == RequestView::Wrong(
                "usage: asana download <attachment_gid> [dir]"@,
            )
            &&& args[0] == "qa"@ ==> r == RequestView::Wrong("usage: asana qa <gid> <comment|->"@)
            &&& args[0] == "done"@ ==> r == RequestView::Wrong(
                "usage: asana done <gid> <comment|->"@,
            )
            &&& args[0] == "block"@ ==> r == RequestView::Wrong(
                "usage: asana block <gid> <comment|->"@,
            )
        },
        args.len() == 2 ==> {
            let r = request_in(s, args);
            &&& args[0] == "comment"@ ==> r == RequestView::Wrong("comment text required"@)
            &&& args[0] == "move"@ ==> r == RequestView::Wrong("role required"@)
            &&& args[0] == "assign"@ ==> r == RequestView::Wrong("assignee required"@)
            &&& args[0] == "subtask"@ ==> r == RequestView::Wrong("subtask name required"@)
            &&& args[0] == "qa"@ || args[0] == "done"@ || args[0] == "block"@ ==> r
                == RequestView::Wrong("comment required"@)
        },
{
    lemma_command_words();
}

/// A word that is no command is told as unknown.
pub proof fn law_other_words_are_unknown(s: Settings, args: Seq<Seq<char>>)
    requires
        args.len() > 0,
        !seq!["help"@, "--help"@, "task"@, "comment"@, "move"@, "assign"@, "complete"@, "subtask"@, "download"@, "qa"@, "done"@, "block"@].contains(
            args[0],
        ),
    ensures
        request_in(s, args) == RequestView::Unknown(args[0]),
{
    let words = seq!["help"@, "--help"@, "task"@, "comment"@, "move"@, "assign"@, "complete"@, "subtask"@, "download"@, "qa"@, "done"@, "block"@];
    assert forall|i: int| 0 <= i < words.len() implies words[i] != args[0] by {
        if words[i] == args[0] {
            assert(words.contains(args[0]));
        }
    }
    assert(words[0] == "help"@);
    assert(words[1] == "--help"@);
    assert(words[2] == "task"@);
    assert(words[3] == "comment"@);
    assert(words[4] == "move"@);
    assert(words[5] == "assign"@);
    assert(words[6] == "complete"@);
    assert(words[7] == "subtask"@);
    assert(words[8] == "download"@);
    assert(words[9] == "qa"@);
    assert(words[10] == "done"@);
    assert(words[11] == "block"@);
}

proof fn lemma_flags_behind(
    s: Settings,
    args: Seq<Seq<char>>,
    i: int,
    so_far: SubtaskView,
    tail: Seq<Seq<char>>,
)
    requires
        0 <= i <= args.len(),
        flags_from(s, args, i, so_far) is Ok,
    ensures
        flags_from(s, args + tail, i, so_far) == flags_from(
            s,
            args + tail,
            args.len() as int,
            flags_from(s, args, i, so_far)->Ok_0,
        ),
    decreases args.len() - i,
{
    let more = args + tail;
    if i < args.len() {
        assert(more[i] == args[i]);
        if args[i] == "--notes"@ {
            assert(more[i + 1] == args[i + 1]);
            let told = SubtaskView { notes: so_far.notes.push(args[i + 1]), ..so_far };
            lemma_flags_behind(s, args, i + 2, told, tail);
        } else if args[i] == "--assignee"@ {
            assert(more[i + 1] == args[i + 1]);
            let told = SubtaskView { assignee: assignee(s, args[i + 1])->0, ..so_far };
            lemma_flags_behind(s, args, i + 2, told, tail);
        }
    }
}

/// The flags of a subtask are heard one by one: `--notes` adds its value to the notes, `--assignee`
/// names who executes it, the later one counts, and no other flag is accepted.
pub proof fn law_subtask_flags_one_by_one(
    s: Settings,
    args: Seq<Seq<char>>,
    flag: Seq<char>,
    value: Seq<char>,
)
    requires
        args.len() >= 3,
        args[0] == "subtask"@,
        request_in(s, args) is Subtask,
    ensures
        ({
            let told = request_in(s, args)->Subtask_2;
            let now = request_in(s, args + seq![flag, value]);
            &&& request_in(s, args) == RequestView::Subtask(args[1], args[2], told)
            &&& flag == "--notes"@ ==> now == RequestView::Subtask(
                args[1],
                args[2],
                SubtaskView { notes: told.notes.push(value), assignee: told.assignee },
            )
            &&& flag == "--assignee"@ && assignee(s, value) is Some && assignee(s, value)->0 is Some
                ==> now == RequestView::Subtask(
                args[1],
                args[2],
                SubtaskView { notes: told.notes, assignee: assignee(s, value)->0 },
            )
            &&& flag == "--assignee"@ && (assignee(s, value) is None || assignee(s, value)->0
                is None) ==> now == RequestView::Wrong(
                "assignee must be operator|agent (или метка из конфига)"@,
            )
            &&& flag != "--notes"@ && flag != "--assignee"@ ==> now == RequestView::Wrong(
                "unknown flag "@ + flag,
            )
        }),
{
    lemma_command_words();
    reveal_strlit("--notes");
    reveal_strlit("--assignee");
    assert("--notes"@.len() == 7 && "--assignee"@.len() == 10);
    let start = SubtaskView { notes: Seq::empty(), assignee: None };
    let more = args + seq![flag, value];
    assert(more[0] == args[0] && more[1] == args[1] && more[2] == args[2]);
    lemma_flags_behind(s, args, 3, start, seq![flag, value]);
    let n = args.len() as int;
    assert(more[n] == flag && more[n + 1] == value);
    let told = flags_from(s, args, 3, start)->Ok_0;
    if flag == "--notes"@ {
        let t = SubtaskView { notes: told.notes.push(value), ..told };
        assert(flags_from(s, more, n + 2, t) == Ok::<SubtaskView, Seq<char>>(t));
    } else if flag == "--assignee"@ && assignee(s, value) is Some && assignee(s, value)->0 is Some {
        let t = SubtaskView { assignee: assignee(s, value)->0, ..told };
        assert(flags_from(s, more, n + 2, t) == Ok::<SubtaskView, Seq<char>>(t));
    }
}

/// The last note counts; the standard input stands for a note once, and for nothing afterwards.
pub proof fn law_last_note_counts(notes: Seq<Seq<char>>, x: Seq<char>, stdin: Seq<char>)
    ensures
        notes_text(Seq::empty(), stdin) == Seq::<char>::empty(),
        x != "-"@ ==> notes_text(notes.push(x), stdin) == x,
        (forall|i: int| 0 <= i < notes.len() ==> #[trigger] notes[i] != "-"@) ==> notes_text(
            notes.push("-"@),
            stdin,
        ) == trimmed(stdin),
        (exists|i: int| 0 <= i < notes.len() && #[trigger] notes[i] == "-"@) ==> notes_text(
            notes.push("-"@),
            stdin,
        ) == Seq::<char>::empty(),
{
    reveal_strlit("");
    assert(""@ =~= Seq::<char>::empty());
    assert(notes.push("-"@).drop_last() =~= notes);
    assert(notes.push(x).drop_last() =~= notes);
    if exists|i: int| 0 <= i < notes.len() && #[trigger] notes[i] == "-"@ {
        let i = choose|i: int| 0 <= i < notes.len() && #[trigger] notes[i] == "-"@;
        assert(notes.contains("-"@));
    }
}

/// A word stands for nobody, for the operator or for the agent, in any case of letters: by itself
/// or by the label of the settings.
pub proof fn law_words_for_the_assignee(s: Settings, who: Seq<char>)
    ensures
        ({
            let w = lowercase(who);
            &&& w == "none"@ ==> assignee(s, who) == Some(None::<Seq<char>>)
            &&& w == "operator"@ ==> assignee(s, who) == Some(Some(s.operator_gid@))
            &&& w == lowercase(s.operator_label@) && w != "none"@ ==> assignee(s, who) == Some(
                Some(s.operator_gid@),
            )
            &&& w == "agent"@ && lowercase(s.operator_label@) != w ==> assignee(s, who) == Some(
                Some(s.agent_gid@),
            )
            &&& w == lowercase(s.agent_label@) && w != "none"@ && w != "operator"@ && w
                != lowercase(s.operator_label@) ==> assignee(s, who) == Some(Some(s.agent_gid@))
            &&& w != "none"@ && w != "operator"@ && w != "agent"@ && w != lowercase(
                s.operator_label@,
            ) && w != lowercase(s.agent_label@) ==> assignee(s, who) is None
        }),
{
    reveal_strlit("none");
    reveal_strlit("operator");
    reveal_strlit("agent");
    assert("none"@.len() == 4 && "operator"@.len() == 8 && "agent"@.len() == 5);
}

/// A task that is handed over goes into the role of the handover; only a block assigns before it
/// moves.
pub proof fn law_handover_order_and_role(h: Handover)
    ensures
        Handover::Qa.role_text() == "qa"@,
        Handover::Done.role_text() == "done"@,
        Handover::Block.role_text() == "blocked"@,
        h.plan().index_of(HandoverStep::Assign) < h.plan().index_of(HandoverStep::Move) <==> h
            == Handover::Block,
        h.plan().no_duplicates(),
{
    let p = h.plan();
    assert(p[1] == HandoverStep::Move || p[2] == HandoverStep::Move);
    assert(p[1] == HandoverStep::Assign || p[2] == HandoverStep::Assign);
    assert(p.contains(HandoverStep::Move));
    assert(p.contains(HandoverStep::Assign));
}

/// What the command line asks for stands for its own texts, each in its place.
pub proof fn law_views_of_asana_requests(a: String, b: String, to: Option<String>, flags: SubtaskFlags, h: Handover)
    ensures
        flags@.notes == texts(flags.notes@),
        flags@.assignee == opt_text(flags.assignee),
        Request::Help@ == RequestView::Help,
        Request::Task(a)@ == RequestView::Task(a@),
        Request::Comment(a, b)@ == RequestView::Comment(a@, b@),
        Request::Move(a, b)@ == RequestView::Move(a@, b@),
        Request::Assign(a, to, b)@ == RequestView::Assign(a@, opt_text(to), b@),
        Request::Complete(a)@ == RequestView::Complete(a@),
        Request::Subtask(a, b, flags)@ == RequestView::Subtask(a@, b@, flags@),
        Request::Download(a, b)@ == RequestView::Download(a@, b@),
        Request::HandOver(h, a, b)@ == RequestView::HandOver(h, a@, b@),
        Request::Unknown(a)@ == RequestView::Unknown(a@),
        Request::Wrong(a)@ == RequestView::Wrong(a@),
        assignee_view(Some(to)) == Some(opt_text(to)),
        assignee_view(None) is None,
{
}

/// A flag of a subtask that lacks its value is refused.
pub proof fn law_subtask_flags_need_a_value(s: Settings, args: Seq<Seq<char>>)
    requires
        args.len() >= 3,
        args[0] == "subtask"@,
        request_in(s, args) is Subtask,
    ensures
        request_in(s, args + seq!["--notes"@]) == RequestView::Wrong("--notes needs a value"@),
        request_in(s, args + seq!["--assignee"@]) == RequestView::Wrong("--assignee needs a value"@),
{
    lemma_command_words();
    reveal_strlit("--notes");
    reveal_strlit("--assignee");
    assert("--notes"@.len() == 7 && "--assignee"@.len() == 10);
    let start = SubtaskView { notes: Seq::empty(), assignee: None };
    let n = args.len() as int;
    let a = args + seq!["--notes"@];
    let b = args + seq!["--assignee"@];
    assert(a[0] == args[0] && b[0] == args[0]);
    assert(a[n] == "--notes"@ && b[n] == "--assignee"@);
    lemma_flags_behind(s, args, 3, start, seq!["--notes"@]);
    lemma_flags_behind(s, args, 3, start, seq!["--assignee"@]);
}

} // verus!
