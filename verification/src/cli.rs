//! The command line of the daemon: what its arguments ask for, and what it prints.

use crate::decimal::{dec, dec_i64, dec_u64, int_value, nat_value, parse_i64, parse_usize, within};
use crate::paths::{file_name, last_name};
use crate::registry::{entries, scanned, ProjectEntry, Registry};
use crate::text::{
    lines, lines_of, opt_text, stands_at, starts_with, tail_lines, tail_of, text_eq, texts,
};
use vstd::prelude::*;
use vstd::string::*;

verus! {

/// What `add` is told.
#[derive(Debug)]
pub struct AddArgs {
    pub dir: Option<String>,
    pub name: Option<String>,
    pub priority: i64,
    pub workspace: Option<String>,
    pub no_init: bool,
}

/// What `add` is told, as texts.
pub struct AddView {
    pub dir: Option<Seq<char>>,
    pub name: Option<Seq<char>>,
    pub priority: i64,
    pub workspace: Option<Seq<char>>,
    pub no_init: bool,
}

impl View for AddArgs {
    type V = AddView;

    open spec fn view(&self) -> AddView {
        AddView {
            dir: opt_text(self.dir),
            name: opt_text(self.name),
            priority: self.priority,
            workspace: opt_text(self.workspace),
            no_init: self.no_init,
        }
    }
}

/// A whole number in the range of a priority.
pub open spec fn priority_in(s: Seq<char>) -> Option<int> {
    within(int_value(s), i64::MIN as int, i64::MAX as int)
}

/// What the arguments from place `i` on add to what `add` was told before, or what is wrong.
pub open spec fn add_from(args: Seq<Seq<char>>, i: int, so_far: AddView) -> Result<
    AddView,
    Seq<char>,
>
    decreases args.len() - i,
{
    if i < 0 || i >= args.len() {
        Ok(so_far)
    } else if args[i] == "--name"@ {
        if i + 1 < args.len() {
            add_from(args, i + 2, AddView { name: Some(args[i + 1]), ..so_far })
        } else {
            Err("--name требует значение"@)
        }
    } else if args[i] == "--priority"@ {
        if i + 1 < args.len() && priority_in(args[i + 1]) is Some {
            add_from(
                args,
                i + 2,
                AddView { priority: priority_in(args[i + 1])->0 as i64, ..so_far },
            )
        } else {
            Err("--priority требует число"@)
        }
    } else if args[i] == "--workspace"@ {
        if i + 1 < args.len() {
            add_from(args, i + 2, AddView { workspace: Some(args[i + 1]), ..so_far })
        } else {
            Err("--workspace требует gid"@)
        }
    } else if args[i] == "--no-init"@ {
        add_from(args, i + 1, AddView { no_init: true, ..so_far })
    } else if so_far.dir is None && !stands_at(args[i], "--"@, 0) {
        add_from(args, i + 1, AddView { dir: Some(args[i]), ..so_far })
    } else {
        Err("неизвестный аргумент "@ + args[i])
    }
}

/// What the arguments from place `from` on tell `add`, or what is wrong. A directory is owed.
pub open spec fn add_args(args: Seq<Seq<char>>, from: int) -> Result<AddView, Seq<char>> {
    let start = AddView { dir: None, name: None, priority: 0, workspace: None, no_init: false };
    match add_from(args, from, start) {
        Ok(told) => if told.dir is Some {
            Ok(told)
        } else {
            Err(
                "usage: autopilot add <dir> [--name N] [--priority P] [--workspace GID] [--no-init]"@,
            )
        },
        Err(e) => Err(e),
    }
}

/// Whether the assistant is started to refine the prompt: where the prompt was created now, and
/// `--no-init` was not given.
pub fn refines(created: bool, no_init: bool) -> (r: bool)
    ensures
        r == refined(created, no_init),
{
    created && !no_init
}

pub open spec fn refined(created: bool, no_init: bool) -> bool {
    created && !no_init
}

/// The name of a project that is added: the one that was told, else the last name in the path of
/// its directory; `None` where there is none.
pub open spec fn name_to_add(told: AddView, dir: Seq<char>) -> Option<Seq<char>> {
    match told.name {
        Some(name) => Some(name),
        None => last_name(dir),
    }
}

pub fn project_name(told: &AddArgs, dir: &str) -> (r: Result<String, String>)
    ensures
        match r {
            Ok(name) => name_to_add(told@, dir@) == Some(name@),
            Err(e) => name_to_add(told@, dir@) is None && e@
                == "не могу вывести имя из пути, задай --name"@,
        },
{
    match &told.name {
        Some(name) => Ok(name.clone()),
        None => match file_name(dir) {
            Some(name) => Ok(name),
            None => Err("не могу вывести имя из пути, задай --name".to_owned()),
        },
    }
}

proof fn lemma_flags_differ()
    ensures
        "--no-init"@ != "--name"@,
        "--no-init"@ != "--priority"@,
        "--no-init"@ != "--workspace"@,
{
    reveal_strlit("--no-init");
    reveal_strlit("--name");
    reveal_strlit("--priority");
    reveal_strlit("--workspace");
    assert("--no-init"@.len() == 9 && "--name"@.len() == 6);
    assert("--priority"@.len() == 10 && "--workspace"@.len() == 11);
}

proof fn lemma_no_init_behind(args: Seq<Seq<char>>, i: int, so_far: AddView)
    requires
        0 <= i <= args.len(),
        add_from(args, i, so_far) is Ok,
    ensures
        add_from(args.push("--no-init"@), i, so_far) == Ok::<AddView, Seq<char>>(
            (AddView { no_init: true, ..add_from(args, i, so_far)->Ok_0 }),
        ),
    decreases args.len() - i,
{
    lemma_flags_differ();
    let more = args.push("--no-init"@);
    if i == args.len() {
        assert(more[i] == "--no-init"@);
        let told = AddView { no_init: true, ..so_far };
        assert(add_from(more, i + 1, told) == Ok::<AddView, Seq<char>>(told));
    } else if args[i] == "--name"@ {
        lemma_no_init_behind(args, i + 2, AddView { name: Some(args[i + 1]), ..so_far });
    } else if args[i] == "--priority"@ {
        lemma_no_init_behind(
            args,
            i + 2,
            AddView { priority: priority_in(args[i + 1])->0 as i64, ..so_far },
        );
    } else if args[i] == "--workspace"@ {
        lemma_no_init_behind(args, i + 2, AddView { workspace: Some(args[i + 1]), ..so_far });
    } else if args[i] == "--no-init"@ {
        lemma_no_init_behind(args, i + 1, AddView { no_init: true, ..so_far });
    } else {
        lemma_no_init_behind(args, i + 1, AddView { dir: Some(args[i]), ..so_far });
    }
}

/// `--no-init` behind arguments that `add` accepts changes nothing else of what it is told, and no
/// assistant is started, whether or not the prompt was created now.
pub proof fn law_no_init_starts_no_assistant(args: Seq<Seq<char>>, from: int, created: bool)
    requires
        0 <= from <= args.len(),
        add_args(args, from) is Ok,
    ensures
        add_args(args.push("--no-init"@), from) == Ok::<AddView, Seq<char>>(
            (AddView { no_init: true, ..add_args(args, from)->Ok_0 }),
        ),
        !refined(created, (add_args(args.push("--no-init"@), from)->Ok_0).no_init),
{
    let start = AddView { dir: None, name: None, priority: 0, workspace: None, no_init: false };
    lemma_no_init_behind(args, from, start);
}

/// Whether a result is what the contract says, as texts.
pub open spec fn same_add(r: Result<AddArgs, String>, told: Result<AddView, Seq<char>>) -> bool {
    match (r, told) {
        (Ok(a), Ok(b)) => a@ == b,
        (Err(a), Err(b)) => a@ == b,
        _ => false,
    }
}

/// What the arguments from place `from` on tell `add`.
pub fn parse_add(args: &Vec<String>, from: usize) -> (r: Result<AddArgs, String>)
    requires
        from <= args@.len(),
    ensures
        same_add(r, add_args(texts(args@), from as int)),
{
    let mut told = AddArgs { dir: None, name: None, priority: 0, workspace: None, no_init: false };
    let ghost all = texts(args@);
    let ghost start = told@;
    let n: usize = args.len();
    let mut i: usize = from;
    while i < n
        invariant
            i <= n,
            n == args@.len(),
            all == texts(args@),
            start == (AddView {
                dir: None,
                name: None,
                priority: 0,
                workspace: None,
                no_init: false,
            }),
            add_from(all, from as int, start) == add_from(all, i as int, told@),
        decreases n - i,
    {
        let arg = args[i].as_str();
        assert(arg@ == all[i as int]);
        if text_eq(arg, "--name") {
            if i + 1 >= n {
                return Err("--name требует значение".to_owned());
            }
            assert(args@[i + 1]@ == all[i + 1]);
            told.name = Some(args[i + 1].clone());
            i += 2;
        } else if text_eq(arg, "--priority") {
            if i + 1 >= n {
                return Err("--priority требует число".to_owned());
            }
            assert(args@[i + 1]@ == all[i + 1]);
            match parse_i64(args[i + 1].as_str()) {
                Some(p) => {
                    told.priority = p;
                },
                None => {
                    return Err("--priority требует число".to_owned());
                },
            }
            i += 2;
        } else if text_eq(arg, "--workspace") {
            if i + 1 >= n {
                return Err("--workspace требует gid".to_owned());
            }
            assert(args@[i + 1]@ == all[i + 1]);
            told.workspace = Some(args[i + 1].clone());
            i += 2;
        } else if text_eq(arg, "--no-init") {
            told.no_init = true;
            i += 1;
        } else if told.dir.is_none() && !starts_with(arg, "--") {
            told.dir = Some(arg.to_owned());
            i += 1;
        } else {
            let mut msg = "неизвестный аргумент ".to_owned();
            msg.append(arg);
            return Err(msg);
        }
    }
    if told.dir.is_some() {
        Ok(told)
    } else {
        Err(
            "usage: autopilot add <dir> [--name N] [--priority P] [--workspace GID] [--no-init]".to_owned(),
        )
    }
}

/// What `logs` is told: a project, else the daemon itself, and how many lines.
#[derive(Debug)]
pub struct LogsArgs {
    pub name: Option<String>,
    pub n: usize,
}

/// What `logs` is told, as texts.
pub struct LogsView {
    pub name: Option<Seq<char>>,
    pub n: usize,
}

impl View for LogsArgs {
    type V = LogsView;

    open spec fn view(&self) -> LogsView {
        LogsView { name: opt_text(self.name), n: self.n }
    }
}

/// A number of lines.
pub open spec fn count_in(s: Seq<char>) -> Option<int> {
    within(nat_value(s), 0, usize::MAX as int)
}

/// What the arguments from place `i` on add to what `logs` was told before, or what is wrong.
pub open spec fn logs_from(args: Seq<Seq<char>>, i: int, so_far: LogsView) -> Result<
    LogsView,
    Seq<char>,
>
    decreases args.len() - i,
{
    if i < 0 || i >= args.len() {
        Ok(so_far)
    } else if args[i] == "-n"@ {
        if i + 1 < args.len() && count_in(args[i + 1]) is Some {
            logs_from(args, i + 2, LogsView { n: count_in(args[i + 1])->0 as usize, ..so_far })
        } else {
            Err("-n требует число"@)
        }
    } else if so_far.name is None && !stands_at(args[i], "-"@, 0) {
        logs_from(args, i + 1, LogsView { name: Some(args[i]), ..so_far })
    } else {
        Err("неизвестный аргумент "@ + args[i])
    }
}

/// What the arguments from place `from` on tell `logs`, or what is wrong. Without a number it is
/// 40 lines.
pub open spec fn logs_args(args: Seq<Seq<char>>, from: int) -> Result<LogsView, Seq<char>> {
    logs_from(args, from, LogsView { name: None, n: 40 })
}

/// Whether a result is what the contract says, as texts.
pub open spec fn same_logs(r: Result<LogsArgs, String>, told: Result<LogsView, Seq<char>>) -> bool {
    match (r, told) {
        (Ok(a), Ok(b)) => a@ == b,
        (Err(a), Err(b)) => a@ == b,
        _ => false,
    }
}

/// What the arguments from place `from` on tell `logs`.
pub fn parse_logs(args: &Vec<String>, from: usize) -> (r: Result<LogsArgs, String>)
    requires
        from <= args@.len(),
    ensures
        same_logs(r, logs_args(texts(args@), from as int)),
{
    let mut told = LogsArgs { name: None, n: 40 };
    let ghost all = texts(args@);
    let ghost start = told@;
    let n: usize = args.len();
    let mut i: usize = from;
    while i < n
        invariant
            i <= n,
            n == args@.len(),
            all == texts(args@),
            start == (LogsView { name: None, n: 40 }),
            logs_from(all, from as int, start) == logs_from(all, i as int, told@),
        decreases n - i,
    {
        let arg = args[i].as_str();
        assert(arg@ == all[i as int]);
        if text_eq(arg, "-n") {
            if i + 1 >= n {
                return Err("-n требует число".to_owned());
            }
            assert(args@[i + 1]@ == all[i + 1]);
            match parse_usize(args[i + 1].as_str()) {
                Some(k) => {
                    told.n = k;
                },
                None => {
                    return Err("-n требует число".to_owned());
                },
            }
            i += 2;
        } else if told.name.is_none() && !starts_with(arg, "-") {
            told.name = Some(arg.to_owned());
            i += 1;
        } else {
            let mut msg = "неизвестный аргумент ".to_owned();
            msg.append(arg);
            return Err(msg);
        }
    }
    Ok(told)
}

/// What the command line asks for.
#[derive(Debug)]
pub enum Invocation {
    Help,
    /// Be the daemon.
    Daemon,
    Add(AddArgs),
    Remove(String),
    List,
    /// Pause a project, or resume it.
    Pause(String, bool),
    Priority(String, i64),
    Status,
    Logs(LogsArgs),
    Start,
    Stop,
    Restart,
    Run,
    /// There is no such command.
    Unknown(String),
    /// The arguments are wrong, and this is told.
    Wrong(String),
}

/// What the command line asks for, as texts.
pub enum InvocationView {
    Help,
    Daemon,
    Add(AddView),
    Remove(Seq<char>),
    List,
    Pause(Seq<char>, bool),
    Priority(Seq<char>, i64),
    Status,
    Logs(LogsView),
    Start,
    Stop,
    Restart,
    Run,
    Unknown(Seq<char>),
    Wrong(Seq<char>),
}

impl View for Invocation {
    type V = InvocationView;

    open spec fn view(&self) -> InvocationView {
        match self {
            Invocation::Help => InvocationView::Help,
            Invocation::Daemon => InvocationView::Daemon,
            Invocation::Add(a) => InvocationView::Add(a@),
            Invocation::Remove(name) => InvocationView::Remove(name@),
            Invocation::List => InvocationView::List,
            Invocation::Pause(name, paused) => InvocationView::Pause(name@, *paused),
            Invocation::Priority(name, pr) => InvocationView::Priority(name@, *pr),
            Invocation::Status => InvocationView::Status,
            Invocation::Logs(a) => InvocationView::Logs(a@),
            Invocation::Start => InvocationView::Start,
            Invocation::Stop => InvocationView::Stop,
            Invocation::Restart => InvocationView::Restart,
            Invocation::Run => InvocationView::Run,
            Invocation::Unknown(cmd) => InvocationView::Unknown(cmd@),
            Invocation::Wrong(msg) => InvocationView::Wrong(msg@),
        }
    }
}

/// What the arguments of the program ask for.
pub open spec fn invocation(args: Seq<Seq<char>>) -> InvocationView {
    let cmd = if args.len() > 0 {
        args[0]
    } else {
        ""@
    };
    let named = args.len() > 1;
    if cmd == ""@ || cmd == "help"@ || cmd == "--help"@ || cmd == "-h"@ {
        InvocationView::Help
    } else if cmd == "__daemon"@ {
        InvocationView::Daemon
    } else if cmd == "add"@ {
        match add_args(args, 1) {
            Ok(told) => InvocationView::Add(told),
            Err(e) => InvocationView::Wrong(e),
        }
    } else if cmd == "remove"@ || cmd == "rm"@ {
        if named {
            InvocationView::Remove(args[1])
        } else {
            InvocationView::Wrong("usage: autopilot remove <name>"@)
        }
    } else if cmd == "list"@ || cmd == "ls"@ {
        InvocationView::List
    } else if cmd == "pause"@ {
        if named {
            InvocationView::Pause(args[1], true)
        } else {
            InvocationView::Wrong("usage: autopilot pause <name>"@)
        }
    } else if cmd == "resume"@ {
        if named {
            InvocationView::Pause(args[1], false)
        } else {
            InvocationView::Wrong("usage: autopilot resume <name>"@)
        }
    } else if cmd == "priority"@ {
        if !named {
            InvocationView::Wrong("usage: autopilot priority <name> <P>"@)
        } else if args.len() > 2 && priority_in(args[2]) is Some {
            InvocationView::Priority(args[1], priority_in(args[2])->0 as i64)
        } else {
            InvocationView::Wrong("приоритет должен быть числом"@)
        }
    } else if cmd == "status"@ {
        InvocationView::Status
    } else if cmd == "logs"@ {
        match logs_args(args, 1) {
            Ok(told) => InvocationView::Logs(told),
            Err(e) => InvocationView::Wrong(e),
        }
    } else if cmd == "start"@ {
        InvocationView::Start
    } else if cmd == "stop"@ {
        InvocationView::Stop
    } else if cmd == "restart"@ {
        InvocationView::Restart
    } else if cmd == "run"@ {
        InvocationView::Run
    } else {
        InvocationView::Unknown(cmd)
    }
}

/// What the arguments of the program ask for.
pub fn parse_invocation(args: &Vec<String>) -> (r: Invocation)
    ensures
        r@ == invocation(texts(args@)),
{
    let ghost all = texts(args@);
    assert(all.len() == args@.len());
    assert(forall|i: int| 0 <= i < args@.len() ==> (#[trigger] args@[i])@ == all[i]);
    let n: usize = args.len();
    let cmd = if n > 0 {
        args[0].as_str()
    } else {
        ""
    };
    if text_eq(cmd, "") || text_eq(cmd, "help") || text_eq(cmd, "--help") || text_eq(cmd, "-h") {
        return Invocation::Help;
    }
    if text_eq(cmd, "__daemon") {
        Invocation::Daemon
    } else if text_eq(cmd, "add") {
        match parse_add(args, 1) {
            Ok(told) => Invocation::Add(told),
            Err(e) => Invocation::Wrong(e),
        }
    } else if text_eq(cmd, "remove") || text_eq(cmd, "rm") {
        if n > 1 {
            Invocation::Remove(args[1].clone())
        } else {
            Invocation::Wrong("usage: autopilot remove <name>".to_owned())
        }
    } else if text_eq(cmd, "list") || text_eq(cmd, "ls") {
        Invocation::List
    } else if text_eq(cmd, "pause") {
        if n > 1 {
            Invocation::Pause(args[1].clone(), true)
        } else {
            Invocation::Wrong("usage: autopilot pause <name>".to_owned())
        }
    } else if text_eq(cmd, "resume") {
        if n > 1 {
            Invocation::Pause(args[1].clone(), false)
        } else {
            Invocation::Wrong("usage: autopilot resume <name>".to_owned())
        }
    } else if text_eq(cmd, "priority") {
        if n <= 1 {
            return Invocation::Wrong("usage: autopilot priority <name> <P>".to_owned());
        }
        if n > 2 {
            if let Some(pr) = parse_i64(args[2].as_str()) {
                return Invocation::Priority(args[1].clone(), pr);
            }
        }
        Invocation::Wrong("приоритет должен быть числом".to_owned())
    } else if text_eq(cmd, "status") {
        Invocation::Status
    } else if text_eq(cmd, "logs") {
        match parse_logs(args, 1) {
            Ok(told) => Invocation::Logs(told),
            Err(e) => Invocation::Wrong(e),
        }
    } else if text_eq(cmd, "start") {
        Invocation::Start
    } else if text_eq(cmd, "stop") {
        Invocation::Stop
    } else if text_eq(cmd, "restart") {
        Invocation::Restart
    } else if text_eq(cmd, "run") {
        Invocation::Run
    } else {
        Invocation::Unknown(cmd.to_owned())
    }
}

/// So many spaces.
pub open spec fn spaces(n: int) -> Seq<char> {
    Seq::new(
        if n > 0 {
            n as nat
        } else {
            0
        },
        |i: int| ' ',
    )
}

fn spaces_of(n: usize) -> (r: String)
    ensures
        r@ == spaces(n as int),
{
    let mut out = String::new();
    let mut i: usize = 0;
    while i < n
        invariant
            i <= n,
            out@ == spaces(i as int),
        decreases n - i,
    {
        out.push(' ');
        assert(out@ =~= spaces(i + 1));
        i += 1;
    }
    out
}

/// A text in a column of a width, at its left edge.
pub open spec fn at_left(s: Seq<char>, width: int) -> Seq<char> {
    s + spaces(width - s.len())
}

/// A text in a column of a width, at its right edge.
pub open spec fn at_right(s: Seq<char>, width: int) -> Seq<char> {
    spaces(width - s.len()) + s
}

fn gap(s: &str, width: usize) -> (r: String)
    ensures
        r@ == spaces(width - s@.len()),
{
    let n: usize = s.unicode_len();
    if n < width {
        spaces_of(width - n)
    } else {
        spaces_of(0)
    }
}

fn left(s: &str, width: usize) -> (r: String)
    ensures
        r@ == at_left(s@, width as int),
{
    let mut out = s.to_owned();
    out.append(gap(s, width).as_str());
    out
}

fn right(s: &str, width: usize) -> (r: String)
    ensures
        r@ == at_right(s@, width as int),
{
    let mut out = gap(s, width);
    out.append(s);
    out
}

/// A row of the list of projects.
pub open spec fn row(name: Seq<char>, priority: Seq<char>, state: Seq<char>, dir: Seq<char>) -> Seq<
    char,
> {
    at_left(name, 16) + " "@ + at_right(priority, 9) + "  "@ + at_left(state, 10) + " "@ + dir
        + "\n"@
}

fn row_of(name: &str, priority: &str, state: &str, dir: &str) -> (r: String)
    ensures
        r@ == row(name@, priority@, state@, dir@),
{
    let mut out = left(name, 16);
    out.append(" ");
    out.append(right(priority, 9).as_str());
    out.append("  ");
    out.append(left(state, 10).as_str());
    out.append(" ");
    out.append(dir);
    out.append("\n");
    out
}

/// The row of a project.
pub open spec fn project_row(p: ProjectEntry) -> Seq<char> {
    row(
        p.name@,
        dec(p.priority as int),
        if p.paused {
            "пауза"@
        } else {
            "активен"@
        },
        p.dir@,
    )
}

/// The rows of the first `n` projects.
pub open spec fn rows(s: Seq<ProjectEntry>, n: int) -> Seq<char>
    decreases n,
{
    if n <= 0 {
        Seq::empty()
    } else {
        rows(s, n - 1) + project_row(s[n - 1])
    }
}

/// The list of projects.
pub open spec fn listing(projects: Seq<ProjectEntry>) -> Seq<char> {
    if projects.len() == 0 {
        "Реестр пуст. Добавь проект: autopilot add <dir>\n"@
    } else {
        row("ИМЯ"@, "ПРИОРИТЕТ"@, "СОСТОЯНИЕ"@, "КАТАЛОГ"@) + rows(
            scanned(projects),
            scanned(projects).len() as int,
        )
    }
}

/// The list of projects, in the order in which they are looked at.
pub fn list_text(reg: &Registry) -> (r: String)
    ensures
        r@ == listing(reg.projects@),
{
    if reg.projects.len() == 0 {
        return "Реестр пуст. Добавь проект: autopilot add <dir>\n".to_owned();
    }
    let all = reg.sorted_all();
    let ghost found = scanned(reg.projects@);
    assert(entries(all@).len() == all@.len());
    let mut body = String::new();
    let mut i: usize = 0;
    while i < all.len()
        invariant
            i <= all@.len(),
            entries(all@) == found,
            body@ == rows(found, i as int),
        decreases all@.len() - i,
    {
        let p: &ProjectEntry = all[i];
        assert(*p == entries(all@)[i as int]);
        let state = if p.paused {
            "пауза"
        } else {
            "активен"
        };
        let priority = dec_i64(p.priority);
        body.append(row_of(p.name.as_str(), priority.as_str(), state, p.dir.as_str()).as_str());
        i += 1;
    }
    let mut out = row_of("ИМЯ", "ПРИОРИТЕТ", "СОСТОЯНИЕ", "КАТАЛОГ");
    out.append(body.as_str());
    out
}

/// The first `n` lines, each behind a bar.
pub open spec fn barred(lines: Seq<Seq<char>>, n: int) -> Seq<char>
    decreases n,
{
    if n <= 0 {
        Seq::empty()
    } else {
        barred(lines, n - 1) + ("    | "@ + lines[n - 1] + "\n"@)
    }
}

/// The last session of a project: its log, and the last three lines of it.
pub fn last_session_text(project: &str, file: &str, content: &str) -> (r: String)
    ensures
        ({
            let tail = lines_of(tail_of(content@, 3));
            r@ == "\n["@ + project@ + "] последняя сессия: "@ + file@ + "\n"@ + barred(
                tail,
                tail.len() as int,
            )
        }),
{
    let tail = lines(tail_lines(content, 3).as_str());
    let ghost found = lines_of(tail_of(content@, 3));
    assert(found.len() == tail@.len());
    let mut body = String::new();
    let mut i: usize = 0;
    while i < tail.len()
        invariant
            i <= tail@.len(),
            texts(tail@) == found,
            body@ == barred(found, i as int),
        decreases tail@.len() - i,
    {
        assert(tail@[i as int]@ == found[i as int]);
        let mut line = "    | ".to_owned();
        line.append(tail[i].as_str());
        line.append("\n");
        body.append(line.as_str());
        i += 1;
    }
    let mut out = "\n[".to_owned();
    out.append(project);
    out.append("] последняя сессия: ");
    out.append(file);
    out.append("\n");
    out.append(body.as_str());
    out
}

/// Whom a signal goes to that ends the daemon: its whole process group where it leads one, else
/// the process alone.
pub fn kill_target(pid: u32, pgid: Option<u32>) -> (r: String)
    ensures
        r@ == (if pgid == Some(pid) {
            "-"@ + dec(pid as int)
        } else {
            dec(pid as int)
        }),
{
    let leads = match pgid {
        Some(g) => g == pid,
        None => false,
    };
    if leads {
        let mut out = "-".to_owned();
        out.append(dec_u64(pid as u64).as_str());
        out
    } else {
        dec_u64(pid as u64)
    }
}

/// What to do after the daemon was asked to end.
#[derive(Debug, Clone, Copy, PartialEq, Eq, Structural)]
pub enum StopStep {
    /// It has ended.
    Gone,
    /// Look again after a second.
    Wait,
    /// It did not end in time, and is killed.
    Kill,
}

/// How often it is waited for the end of the daemon, a second each time.
pub const STOP_WAITS: u64 = 5;

/// What to do after the daemon was asked to end and it was waited for `waits` times.
pub fn stop_step(waits: u64, alive: bool) -> (r: StopStep)
    ensures
        r == (if !alive {
            StopStep::Gone
        } else if waits < STOP_WAITS {
            StopStep::Wait
        } else {
            StopStep::Kill
        }),
{
    if !alive {
        StopStep::Gone
    } else if waits < STOP_WAITS {
        StopStep::Wait
    } else {
        StopStep::Kill
    }
}

proof fn lemma_command_words()
    ensures
        ""@.len() == 0,
        "help"@.len() == 4 && "help"@[0] == 'h' && "help"@[1] == 'e' && "help"@[2] == 'l',
        "--help"@.len() == 6 && "--help"@[0] == '-' && "--help"@[1] == '-' && "--help"@[2] == 'h',
        "-h"@.len() == 2 && "-h"@[0] == '-' && "-h"@[1] == 'h',
        "__daemon"@.len() == 8 && "__daemon"@[0] == '_' && "__daemon"@[1] == '_' && "__daemon"@[2] == 'd',
        "add"@.len() == 3 && "add"@[0] == 'a' && "add"@[1] == 'd' && "add"@[2] == 'd',
        "remove"@.len() == 6 && "remove"@[0] == 'r' && "remove"@[1] == 'e' && "remove"@[2] == 'm',
        "rm"@.len() == 2 && "rm"@[0] == 'r' && "rm"@[1] == 'm',
        "list"@.len() == 4 && "list"@[0] == 'l' && "list"@[1] == 'i' && "list"@[2] == 's',
        "ls"@.len() == 2 && "ls"@[0] == 'l' && "ls"@[1] == 's',
        "pause"@.len() == 5 && "pause"@[0] == 'p' && "pause"@[1] == 'a' && "pause"@[2] == 'u',
        "resume"@.len() == 6 && "resume"@[0] == 'r' && "resume"@[1] == 'e' && "resume"@[2] == 's',
        "priority"@.len() == 8 && "priority"@[0] == 'p' && "priority"@[1] == 'r' && "priority"@[2] == 'i',
        "status"@.len() == 6 && "status"@[0] == 's' && "status"@[1] == 't' && "status"@[2] == 'a',
        "logs"@.len() == 4 && "logs"@[0] == 'l' && "logs"@[1] == 'o' && "logs"@[2] == 'g',
        "start"@.len() == 5 && "start"@[0] == 's' && "start"@[1] == 't' && "start"@[2] == 'a',
        "stop"@.len() == 4 && "stop"@[0] == 's' && "stop"@[1] == 't' && "stop"@[2] == 'o',
        "restart"@.len() == 7 && "restart"@[0] == 'r' && "restart"@[1] == 'e' && "restart"@[2] == 's',
        "run"@.len() == 3 && "run"@[0] == 'r' && "run"@[1] == 'u' && "run"@[2] == 'n',
{
    reveal_strlit("");
    reveal_strlit("help");
    reveal_strlit("--help");
    reveal_strlit("-h");
    reveal_strlit("__daemon");
    reveal_strlit("add");
    reveal_strlit("remove");
    reveal_strlit("rm");
    reveal_strlit("list");
    reveal_strlit("ls");
    reveal_strlit("pause");
    reveal_strlit("resume");
    reveal_strlit("priority");
    reveal_strlit("status");
    reveal_strlit("logs");
    reveal_strlit("start");
    reveal_strlit("stop");
    reveal_strlit("restart");
    reveal_strlit("run");
}

/// Each command of the program is known by its word, and a command on a project takes its name
/// behind it: `pause` pauses, `resume` resumes, and `priority` takes the number behind the name.
pub proof fn law_invocations_are_known_by_their_word(args: Seq<Seq<char>>)
    requires
        args.len() > 0,
    ensures
        ({
            let cmd = args[0];
            let r = invocation(args);
            let named = args.len() > 1;
            &&& cmd.len() == 0 || cmd == "help"@ || cmd == "--help"@ || cmd == "-h"@ ==> r
                == InvocationView::Help
            &&& cmd == "__daemon"@ ==> r == InvocationView::Daemon
            &&& cmd == "list"@ || cmd == "ls"@ ==> r == InvocationView::List
            &&& cmd == "status"@ ==> r == InvocationView::Status
            &&& cmd == "start"@ ==> r == InvocationView::Start
            &&& cmd == "stop"@ ==> r == InvocationView::Stop
            &&& cmd == "restart"@ ==> r == InvocationView::Restart
            &&& cmd == "run"@ ==> r == InvocationView::Run
            &&& (cmd == "remove"@ || cmd == "rm"@) && named ==> r == InvocationView::Remove(args[1])
            &&& cmd == "pause"@ && named ==> r == InvocationView::Pause(args[1], true)
            &&& cmd == "resume"@ && named ==> r == InvocationView::Pause(args[1], false)
            &&& (cmd == "remove"@ || cmd == "rm"@) && !named ==> r == InvocationView::Wrong(
                "usage: autopilot remove <name>"@,
            )
            &&& cmd == "pause"@ && !named ==> r == InvocationView::Wrong(
                "usage: autopilot pause <name>"@,
            )
            &&& cmd == "resume"@ && !named ==> r == InvocationView::Wrong(
                "usage: autopilot resume <name>"@,
            )
            &&& cmd == "priority"@ && !named ==> r == InvocationView::Wrong(
                "usage: autopilot priority <name> <P>"@,
            )
            &&& cmd == "priority"@ && args.len() == 2 ==> r == InvocationView::Wrong(
                "приоритет должен быть числом"@,
            )
            &&& cmd == "priority"@ && args.len() > 2 && int_value(args[2]) is Some && i64::MIN
                <= int_value(args[2])->0 <= i64::MAX ==> r == InvocationView::Priority(
                args[1],
                int_value(args[2])->0 as i64,
            )
            &&& cmd == "priority"@ && args.len() > 2 && (int_value(args[2]) is None || !(i64::MIN
                <= int_value(args[2])->0 <= i64::MAX)) ==> r == InvocationView::Wrong(
                "приоритет должен быть числом"@,
            )
            &&& cmd == "add"@ && add_args(args, 1) is Ok ==> r == InvocationView::Add(
                add_args(args, 1)->Ok_0,
            )
            &&& cmd == "add"@ && add_args(args, 1) is Err ==> r == InvocationView::Wrong(
                add_args(args, 1)->Err_0,
            )
            &&& cmd == "logs"@ && logs_args(args, 1) is Ok ==> r == InvocationView::Logs(
                logs_args(args, 1)->Ok_0,
            )
            &&& cmd == "logs"@ && logs_args(args, 1) is Err ==> r == InvocationView::Wrong(
                logs_args(args, 1)->Err_0,
            )
        }),
{
    lemma_command_words();
    if args[0].len() == 0 {
        assert(args[0] =~= ""@);
    }
}

/// Without an argument the program shows its help; a word that is no command is told as unknown.
pub proof fn law_other_words_are_unknown(args: Seq<Seq<char>>)
    ensures
        args.len() == 0 ==> invocation(args) == InvocationView::Help,
        args.len() > 0 && args[0].len() > 0 && !seq!["help"@, "--help"@, "-h"@, "__daemon"@, "add"@, "remove"@, "rm"@, "list"@, "ls"@, "pause"@, "resume"@, "priority"@, "status"@, "logs"@, "start"@, "stop"@, "restart"@, "run"@].contains(args[0]) ==> invocation(
            args,
        ) == InvocationView::Unknown(args[0]),
{
    lemma_command_words();
    let words = seq!["help"@, "--help"@, "-h"@, "__daemon"@, "add"@, "remove"@, "rm"@, "list"@, "ls"@, "pause"@, "resume"@, "priority"@, "status"@, "logs"@, "start"@, "stop"@, "restart"@, "run"@];
    if args.len() > 0 && args[0].len() > 0 && !words.contains(args[0]) {
        assert forall|i: int| 0 <= i < words.len() implies words[i] != args[0] by {
            if words[i] == args[0] {
                assert(words.contains(args[0]));
            }
        }
        assert(words[0] == "help"@);
        assert(words[1] == "--help"@);
        assert(words[2] == "-h"@);
        assert(words[3] == "__daemon"@);
        assert(words[4] == "add"@);
        assert(words[5] == "remove"@);
        assert(words[6] == "rm"@);
        assert(words[7] == "list"@);
        assert(words[8] == "ls"@);
        assert(words[9] == "pause"@);
        assert(words[10] == "resume"@);
        assert(words[11] == "priority"@);
        assert(words[12] == "status"@);
        assert(words[13] == "logs"@);
        assert(words[14] == "start"@);
        assert(words[15] == "stop"@);
        assert(words[16] == "restart"@);
        assert(words[17] == "run"@);
    }
}

proof fn lemma_add_goes_on(args: Seq<Seq<char>>, more: Seq<Seq<char>>, i: int, so_far: AddView)
    requires
        0 <= i <= args.len(),
        add_from(args, i, so_far) is Ok,
    ensures
        add_from(args + more, i, so_far) == add_from(
            args + more,
            args.len() as int,
            add_from(args, i, so_far)->Ok_0,
        ),
    decreases args.len() - i,
{
    let all = args + more;
    if i < args.len() {
        assert(all[i] == args[i]);
        if args[i] == "--name"@ {
            assert(all[i + 1] == args[i + 1]);
            let told = AddView { name: Some(args[i + 1]), ..so_far };
            lemma_add_goes_on(args, more, i + 2, told);
        } else if args[i] == "--priority"@ {
            assert(all[i + 1] == args[i + 1]);
            let told = AddView { priority: priority_in(args[i + 1])->0 as i64, ..so_far };
            lemma_add_goes_on(args, more, i + 2, told);
        } else if args[i] == "--workspace"@ {
            assert(all[i + 1] == args[i + 1]);
            let told = AddView { workspace: Some(args[i + 1]), ..so_far };
            lemma_add_goes_on(args, more, i + 2, told);
        } else if args[i] == "--no-init"@ {
            lemma_add_goes_on(args, more, i + 1, AddView { no_init: true, ..so_far });
        } else {
            lemma_add_goes_on(args, more, i + 1, AddView { dir: Some(args[i]), ..so_far });
        }
    }
}

/// Whether a text begins with two dashes.
pub open spec fn dashed(x: Seq<char>) -> bool {
    x.len() >= 2 && x[0] == '-' && x[1] == '-'
}

proof fn lemma_dashed(x: Seq<char>)
    ensures
        stands_at(x, "--"@, 0) == dashed(x),
        dashed("--name"@) && dashed("--priority"@) && dashed("--workspace"@) && dashed(
            "--no-init"@,
        ),
        "--name"@.len() == 6 && "--priority"@.len() == 10 && "--workspace"@.len() == 11
            && "--no-init"@.len() == 9,
{
    reveal_strlit("--");
    reveal_strlit("--name");
    reveal_strlit("--priority");
    reveal_strlit("--workspace");
    reveal_strlit("--no-init");
    if x.len() >= 2 {
        let head = x.subrange(0, 2);
        assert(head[0] == x[0] && head[1] == x[1]);
        if dashed(x) {
            assert(head =~= "--"@);
        }
    }
}

/// What `add` is told, heard one by one: `--name` gives the name, `--priority` the priority,
/// `--workspace` the workspace, each with its value behind it and the later one counting;
/// `--no-init` switches the refinement off; the first other word without dashes is the directory,
/// and nothing else is accepted. Whatever is told keeps all that was told before.
pub proof fn law_add_is_told_one_by_one(
    args: Seq<Seq<char>>,
    from: int,
    so_far: AddView,
    x: Seq<char>,
)
    requires
        0 <= from <= args.len(),
        add_from(args, from, so_far) is Ok,
    ensures
        ({
            let told = add_from(args, from, so_far)->Ok_0;
            let named = add_from(args + seq!["--name"@, x], from, so_far);
            let ranked = add_from(args + seq!["--priority"@, x], from, so_far);
            let placed = add_from(args + seq!["--workspace"@, x], from, so_far);
            let plain = add_from(args + seq![x], from, so_far);
            let fits = int_value(x) is Some && i64::MIN <= int_value(x)->0 <= i64::MAX;
            &&& named == Ok::<AddView, Seq<char>>((AddView { name: Some(x), ..told }))
            &&& placed == Ok::<AddView, Seq<char>>((AddView { workspace: Some(x), ..told }))
            &&& fits ==> ranked == Ok::<AddView, Seq<char>>(
                (AddView { priority: int_value(x)->0 as i64, ..told }),
            )
            &&& !fits ==> ranked == Err::<AddView, Seq<char>>("--priority требует число"@)
            &&& x == "--no-init"@ ==> plain == Ok::<AddView, Seq<char>>(
                (AddView { no_init: true, ..told }),
            )
            &&& x == "--name"@ ==> plain == Err::<AddView, Seq<char>>("--name требует значение"@)
            &&& x == "--priority"@ ==> plain == Err::<AddView, Seq<char>>(
                "--priority требует число"@,
            )
            &&& x == "--workspace"@ ==> plain == Err::<AddView, Seq<char>>(
                "--workspace требует gid"@,
            )
            &&& !dashed(x) && told.dir is None ==> plain == Ok::<AddView, Seq<char>>(
                (AddView { dir: Some(x), ..told }),
            )
            &&& !dashed(x) && told.dir is Some ==> plain == Err::<AddView, Seq<char>>(
                "неизвестный аргумент "@ + x,
            )
            &&& dashed(x) && x != "--name"@ && x != "--priority"@ && x != "--workspace"@ && x
                != "--no-init"@ ==> plain == Err::<AddView, Seq<char>>(
                "неизвестный аргумент "@ + x,
            )
        }),
{
    lemma_dashed(x);
    let told = add_from(args, from, so_far)->Ok_0;
    let n = args.len() as int;
    let named = args + seq!["--name"@, x];
    lemma_add_goes_on(args, seq!["--name"@, x], from, so_far);
    assert(named[n] == "--name"@ && named[n + 1] == x);
    let t = AddView { name: Some(x), ..told };
    assert(add_from(named, n + 2, t) == Ok::<AddView, Seq<char>>(t));
    let ranked = args + seq!["--priority"@, x];
    lemma_add_goes_on(args, seq!["--priority"@, x], from, so_far);
    assert(ranked[n] == "--priority"@ && ranked[n + 1] == x);
    let t = AddView { priority: priority_in(x)->0 as i64, ..told };
    assert(add_from(ranked, n + 2, t) == Ok::<AddView, Seq<char>>(t));
    let placed = args + seq!["--workspace"@, x];
    lemma_add_goes_on(args, seq!["--workspace"@, x], from, so_far);
    assert(placed[n] == "--workspace"@ && placed[n + 1] == x);
    let t = AddView { workspace: Some(x), ..told };
    assert(add_from(placed, n + 2, t) == Ok::<AddView, Seq<char>>(t));
    let plain = args + seq![x];
    lemma_add_goes_on(args, seq![x], from, so_far);
    assert(plain[n] == x);
    let t = AddView { no_init: true, ..told };
    assert(add_from(plain, n + 1, t) == Ok::<AddView, Seq<char>>(t));
    let t = AddView { dir: Some(x), ..told };
    assert(add_from(plain, n + 1, t) == Ok::<AddView, Seq<char>>(t));
}

/// `add` begins with nothing told, and a directory is owed.
pub proof fn law_add_owes_a_directory(args: Seq<Seq<char>>, from: int)
    ensures
        ({
            let start = AddView {
                dir: None,
                name: None,
                priority: 0,
                workspace: None,
                no_init: false,
            };
            let told = add_from(args, from, start);
            &&& from >= args.len() ==> told == Ok::<AddView, Seq<char>>(start)
            &&& told is Ok && told->Ok_0.dir is Some ==> add_args(args, from) == told
            &&& told is Err ==> add_args(args, from) == told
            &&& told is Ok && told->Ok_0.dir is None ==> add_args(args, from) == Err::<
                AddView,
                Seq<char>,
            >(
                "usage: autopilot add <dir> [--name N] [--priority P] [--workspace GID] [--no-init]"@,
            )
        }),
{
}

/// A project is called as it was told, else after its directory; the prompt is refined where it is
/// new and that was not switched off.
pub proof fn law_name_and_refinement_of_an_added_project(
    told: AddView,
    dir: Seq<char>,
    created: bool,
    no_init: bool,
)
    ensures
        told.name is Some ==> name_to_add(told, dir) == told.name,
        told.name is None ==> name_to_add(told, dir) == last_name(dir),
        refined(created, no_init) <==> created && !no_init,
{
}

proof fn lemma_logs_go_on(args: Seq<Seq<char>>, more: Seq<Seq<char>>, i: int, so_far: LogsView)
    requires
        0 <= i <= args.len(),
        logs_from(args, i, so_far) is Ok,
    ensures
        logs_from(args + more, i, so_far) == logs_from(
            args + more,
            args.len() as int,
            logs_from(args, i, so_far)->Ok_0,
        ),
    decreases args.len() - i,
{
    let all = args + more;
    if i < args.len() {
        assert(all[i] == args[i]);
        if args[i] == "-n"@ {
            assert(all[i + 1] == args[i + 1]);
            let told = LogsView { n: count_in(args[i + 1])->0 as usize, ..so_far };
            lemma_logs_go_on(args, more, i + 2, told);
        } else {
            lemma_logs_go_on(args, more, i + 1, LogsView { name: Some(args[i]), ..so_far });
        }
    }
}

/// What `logs` is told, heard one by one: `-n` gives the number of lines, the first word that does
/// not begin with a dash the project, and nothing else is accepted. Without a number it is 40 lines.
pub proof fn law_logs_are_told_one_by_one(args: Seq<Seq<char>>, from: int, x: Seq<char>)
    requires
        0 <= from <= args.len(),
        logs_args(args, from) is Ok,
    ensures
        logs_args(args, args.len() as int) == Ok::<LogsView, Seq<char>>(
            (LogsView { name: None, n: 40 }),
        ),
        ({
            let told = logs_args(args, from)->Ok_0;
            let counted = logs_args(args + seq!["-n"@, x], from);
            let plain = logs_args(args + seq![x], from);
            let fits = nat_value(x) is Some && nat_value(x)->0 <= usize::MAX;
            let dash = x.len() > 0 && x[0] == '-';
            &&& fits ==> counted == Ok::<LogsView, Seq<char>>(
                (LogsView { name: told.name, n: nat_value(x)->0 as usize }),
            )
            &&& !fits ==> counted == Err::<LogsView, Seq<char>>("-n требует число"@)
            &&& x == "-n"@ ==> plain == Err::<LogsView, Seq<char>>("-n требует число"@)
            &&& !dash && told.name is None ==> plain == Ok::<LogsView, Seq<char>>(
                (LogsView { name: Some(x), n: told.n }),
            )
            &&& !dash && told.name is Some ==> plain == Err::<LogsView, Seq<char>>(
                "неизвестный аргумент "@ + x,
            )
            &&& dash && x != "-n"@ ==> plain == Err::<LogsView, Seq<char>>(
                "неизвестный аргумент "@ + x,
            )
        }),
{
    reveal_strlit("-");
    reveal_strlit("-n");
    assert("-n"@[0] == '-' && "-n"@.len() == 2);
    if x.len() > 0 {
        assert(x.subrange(0, 1)[0] == x[0]);
        if x[0] == '-' {
            assert(x.subrange(0, 1) =~= "-"@);
        }
    }
    let start = LogsView { name: None, n: 40 };
    let told = logs_args(args, from)->Ok_0;
    let n = args.len() as int;
    let counted = args + seq!["-n"@, x];
    lemma_logs_go_on(args, seq!["-n"@, x], from, start);
    assert(counted[n] == "-n"@ && counted[n + 1] == x);
    let t = LogsView { n: count_in(x)->0 as usize, ..told };
    assert(logs_from(counted, n + 2, t) == Ok::<LogsView, Seq<char>>(t));
    let plain = args + seq![x];
    lemma_logs_go_on(args, seq![x], from, start);
    assert(plain[n] == x);
    let t = LogsView { name: Some(x), ..told };
    assert(logs_from(plain, n + 1, t) == Ok::<LogsView, Seq<char>>(t));
}

/// A text in a column stands at its edge, with spaces up to the width of the column; one that is
/// wider stands there whole.
pub proof fn law_columns(s: Seq<char>, width: int, i: int)
    ensures
        s.len() >= width ==> at_left(s, width) == s && at_right(s, width) == s,
        s.len() <= width ==> at_left(s, width).len() == width && at_right(s, width).len() == width,
        0 <= i < s.len() ==> at_left(s, width)[i] == s[i],
        s.len() <= i < width ==> at_left(s, width)[i] == ' ',
        s.len() <= width && 0 <= i < s.len() ==> at_right(s, width)[width - s.len() + i] == s[i],
        0 <= i < width - s.len() ==> at_right(s, width)[i] == ' ',
{
    if s.len() >= width {
        assert(at_left(s, width) =~= s);
        assert(at_right(s, width) =~= s);
    }
}

proof fn lemma_rows_by_front(a: Seq<ProjectEntry>, b: Seq<ProjectEntry>, n: int)
    requires
        0 <= n <= a.len(),
        n <= b.len(),
        forall|i: int| 0 <= i < n ==> a[i] == b[i],
    ensures
        rows(a, n) == rows(b, n),
    decreases n,
{
    if n > 0 {
        lemma_rows_by_front(a, b, n - 1);
    }
}

/// The list has a row for every project, in the order in which the projects are looked at, under a
/// heading: the name, the priority, the state and the directory.
pub proof fn law_list_has_a_row_for_every_project(
    projects: Seq<ProjectEntry>,
    s: Seq<ProjectEntry>,
    p: ProjectEntry,
)
    ensures
        rows(s, 0) == Seq::<char>::empty(),
        rows(s.push(p), s.len() as int + 1) == rows(s, s.len() as int) + project_row(p),
        p.paused ==> project_row(p) == at_left(p.name@, 16) + " "@ + at_right(
            dec(p.priority as int),
            9,
        ) + "  "@ + at_left("пауза"@, 10) + " "@ + p.dir@ + "\n"@,
        !p.paused ==> project_row(p) == at_left(p.name@, 16) + " "@ + at_right(
            dec(p.priority as int),
            9,
        ) + "  "@ + at_left("активен"@, 10) + " "@ + p.dir@ + "\n"@,
        projects.len() == 0 ==> listing(projects)
            == "Реестр пуст. Добавь проект: autopilot add <dir>\n"@,
        projects.len() > 0 ==> listing(projects) == at_left("ИМЯ"@, 16) + " "@ + at_right(
            "ПРИОРИТЕТ"@,
            9,
        ) + "  "@ + at_left("СОСТОЯНИЕ"@, 10) + " "@ + "КАТАЛОГ"@ + "\n"@ + rows(
            scanned(projects),
            scanned(projects).len() as int,
        ),
{
    lemma_rows_by_front(s.push(p), s, s.len() as int);
}

proof fn lemma_barred_by_front(a: Seq<Seq<char>>, b: Seq<Seq<char>>, n: int)
    requires
        0 <= n <= a.len(),
        n <= b.len(),
        forall|i: int| 0 <= i < n ==> a[i] == b[i],
    ensures
        barred(a, n) == barred(b, n),
    decreases n,
{
    if n > 0 {
        lemma_barred_by_front(a, b, n - 1);
    }
}

/// The last lines of a session stand one by one behind a bar.
pub proof fn law_lines_behind_a_bar(lines: Seq<Seq<char>>, line: Seq<char>)
    ensures
        barred(lines, 0) == Seq::<char>::empty(),
        barred(lines.push(line), lines.len() as int + 1) == barred(lines, lines.len() as int) + (
        "    | "@ + line + "\n"@),
{
    lemma_barred_by_front(lines.push(line), lines, lines.len() as int);
}

/// What the command line asks for stands for its own texts and numbers, each in its place.
pub proof fn law_views_of_invocations(s: String, paused: bool, pr: i64, a: AddArgs, l: LogsArgs)
    ensures
        a@.dir == opt_text(a.dir) && a@.name == opt_text(a.name) && a@.workspace == opt_text(
            a.workspace,
        ),
        a@.priority == a.priority && a@.no_init == a.no_init,
        l@.name == opt_text(l.name) && l@.n == l.n,
        Invocation::Help@ == InvocationView::Help,
        Invocation::Daemon@ == InvocationView::Daemon,
        Invocation::Add(a)@ == InvocationView::Add(a@),
        Invocation::Remove(s)@ == InvocationView::Remove(s@),
        Invocation::List@ == InvocationView::List,
        Invocation::Pause(s, paused)@ == InvocationView::Pause(s@, paused),
        Invocation::Priority(s, pr)@ == InvocationView::Priority(s@, pr),
        Invocation::Status@ == InvocationView::Status,
        Invocation::Logs(l)@ == InvocationView::Logs(l@),
        Invocation::Start@ == InvocationView::Start,
        Invocation::Stop@ == InvocationView::Stop,
        Invocation::Restart@ == InvocationView::Restart,
        Invocation::Run@ == InvocationView::Run,
        Invocation::Unknown(s)@ == InvocationView::Unknown(s@),
        Invocation::Wrong(s)@ == InvocationView::Wrong(s@),
{
}

/// Two results agree where both are told alike, or both refused alike.
pub proof fn law_results_agree_as_texts(a: AddArgs, l: LogsArgs, e: String, x: AddView, y: LogsView, f: Seq<char>)
    ensures
        same_add(Ok(a), Ok(x)) <==> a@ == x,
        same_add(Err(e), Err(f)) <==> e@ == f,
        !same_add(Ok(a), Err(f)) && !same_add(Err(e), Ok(x)),
        same_logs(Ok(l), Ok(y)) <==> l@ == y,
        same_logs(Err(e), Err(f)) <==> e@ == f,
        !same_logs(Ok(l), Err(f)) && !same_logs(Err(e), Ok(y)),
{
}

} // verus!
