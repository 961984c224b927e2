//! What the command-line tool of the coding assistant says: who is logged in, how much of the
//! limits is used, and how a login goes.

use crate::assistant::Assistant;
use crate::initproj::{code_text, show_code};
use crate::outside::{
    json_bool, json_bool_at, json_error, json_fault, json_str, json_str_at,
};
use crate::text::{
    chars_of, find_from, find_index, has_text, lemma_find, opt_text, stands_at, texts, trim, trimmed,
};
use vstd::prelude::*;
use vstd::string::*;

verus! {

/// Who is logged in.
#[derive(Debug, Default)]
pub struct AuthStatus {
    pub logged_in: bool,
    pub email: Option<String>,
    pub org_name: Option<String>,
    pub subscription: Option<String>,
    pub auth_method: Option<String>,
}

/// Whether a boolean stands there and is true.
pub open spec fn set_to_true(o: Option<bool>) -> bool {
    o == Some(true)
}

fn is_true(o: Option<bool>) -> (r: bool)
    ensures
        r == set_to_true(o),
{
    match o {
        Some(b) => b,
        None => false,
    }
}

/// Who is logged in, from what the tool prints for `auth status --json`.
pub fn auth_status(a: &Assistant, stdout: &[u8]) -> (r: Result<AuthStatus, String>)
    ensures
        match (r, json_fault(stdout@)) {
            (Ok(s), None) => {
                &&& s.logged_in == set_to_true(json_bool(stdout@, "/loggedIn"@))
                &&& opt_text(s.email) == json_str(stdout@, "/email"@)
                &&& opt_text(s.org_name) == json_str(stdout@, "/orgName"@)
                &&& opt_text(s.subscription) == json_str(stdout@, "/subscriptionType"@)
                &&& opt_text(s.auth_method) == json_str(stdout@, "/authMethod"@)
            },
            (Err(msg), Some(e)) => msg@ == "не удалось разобрать вывод `"@ + a.program@
                + " auth status`: "@ + e,
            _ => false,
        },
{
    if let Some(e) = json_error(stdout) {
        let mut msg = "не удалось разобрать вывод `".to_owned();
        msg.append(a.program.as_str());
        msg.append(" auth status`: ");
        msg.append(e.as_str());
        return Err(msg);
    }
    Ok(
        AuthStatus {
            logged_in: is_true(json_bool_at(stdout, "/loggedIn")),
            email: json_str_at(stdout, "/email"),
            org_name: json_str_at(stdout, "/orgName"),
            subscription: json_str_at(stdout, "/subscriptionType"),
            auth_method: json_str_at(stdout, "/authMethod"),
        },
    )
}

/// The text of a report on the limits, or what is wrong with it.
pub open spec fn usage_text(a: Assistant, failed: bool, result: Option<Seq<char>>) -> Result<
    Seq<char>,
    Seq<char>,
> {
    let text = match result {
        Some(s) => trimmed(s),
        None => trimmed(""@),
    };
    if failed {
        Err(
            a.program@ + " вернул ошибку: "@ + match result {
                Some(s) => s,
                None => "?"@,
            },
        )
    } else if text.len() == 0 {
        Err("пустой вывод /usage"@)
    } else {
        Ok(text)
    }
}

/// The text of a report on the limits, given whether it tells of an error and what it says.
pub fn usage_of(a: &Assistant, failed: bool, result: Option<String>) -> (r: Result<String, String>)
    ensures
        match (r, usage_text(*a, failed, opt_text(result))) {
            (Ok(x), Ok(y)) => x@ == y,
            (Err(x), Err(y)) => x@ == y,
            _ => false,
        },
{
    if failed {
        let mut msg = a.program.clone();
        msg.append(" вернул ошибку: ");
        match &result {
            Some(s) => {
                msg.append(s.as_str());
            },
            None => {
                msg.append("?");
            },
        }
        return Err(msg);
    }
    let text = match &result {
        Some(s) => trim(s.as_str()).to_owned(),
        None => trim("").to_owned(),
    };
    if text.as_str().is_empty() {
        Err("пустой вывод /usage".to_owned())
    } else {
        Ok(text)
    }
}

/// The text of a report on the limits, from what the tool prints for
/// `-p /usage --output-format json`.
pub fn usage(a: &Assistant, stdout: &[u8]) -> (r: Result<String, String>)
    ensures
        match json_fault(stdout@) {
            Some(e) => r matches Err(msg) && msg@ == "не удалось разобрать вывод `/usage`: "@ + e,
            None => match (
                r,
                usage_text(
                    *a,
                    set_to_true(json_bool(stdout@, "/is_error"@)),
                    json_str(stdout@, "/result"@),
                ),
            ) {
                (Ok(x), Ok(y)) => x@ == y,
                (Err(x), Err(y)) => x@ == y,
                _ => false,
            },
        },
{
    if let Some(e) = json_error(stdout) {
        let mut msg = "не удалось разобрать вывод `/usage`: ".to_owned();
        msg.append(e.as_str());
        return Err(msg);
    }
    usage_of(a, is_true(json_bool_at(stdout, "/is_error")), json_str_at(stdout, "/result"))
}

/// What was read of the output of a login.
#[derive(Debug)]
pub enum LoginRead {
    Line(String),
    End,
    Fault(String),
}

/// How a login goes on.
#[derive(Debug)]
pub enum LoginStep {
    /// The address at which the code is given out.
    Url(String),
    /// Another line has to be read.
    More,
    /// There will be no address: the process is killed, and this is told.
    Failed(String),
    /// The output cannot be read: this is told, and the process is left alone.
    Broken(String),
}

/// So many lines are read in search of the address.
pub const LOGIN_LINES: u64 = 10;

/// The address in a line, to its end.
pub open spec fn url_in(line: Seq<char>) -> Option<Seq<char>> {
    match find_from(line, "https://"@, 0) {
        Some(i) => Some(trimmed(line.subrange(i, line.len() as int))),
        None => None,
    }
}

fn url_of(line: &str) -> (r: Option<String>)
    ensures
        opt_text(r) == url_in(line@),
{
    let v = chars_of(line);
    let p = chars_of("https://");
    proof {
        lemma_find(line@, "https://"@, 0);
    }
    match find_index(&v, &p, 0) {
        Some(i) => Some(trim(line.substring_char(i, v.len())).to_owned()),
        None => None,
    }
}

/// What is said where the output of a login holds no address.
pub open spec fn no_url(a: Assistant) -> Seq<char> {
    "не удалось получить ссылку авторизации из вывода "@ + a.program@
}

fn no_url_text(a: &Assistant) -> (r: String)
    ensures
        r@ == no_url(*a),
{
    let mut msg = "не удалось получить ссылку авторизации из вывода ".to_owned();
    msg.append(a.program.as_str());
    msg
}

/// What follows from line number `n`, counted from 0, of the output of a login.
pub fn login_start(a: &Assistant, n: u64, read: LoginRead) -> (r: LoginStep)
    requires
        n < LOGIN_LINES,
    ensures
        match read {
            LoginRead::Line(line) => match url_in(line@) {
                Some(url) => r matches LoginStep::Url(found) && found@ == url,
                None => if n + 1 < LOGIN_LINES {
                    r is More
                } else {
                    r matches LoginStep::Failed(e) && e@ == no_url(*a)
                },
            },
            LoginRead::End => r matches LoginStep::Failed(e) && e@ == no_url(*a),
            LoginRead::Fault(why) => r matches LoginStep::Broken(e) && e@ == "чтение вывода "@
                + a.program@ + ": "@ + why@,
        },
{
    match read {
        LoginRead::Line(line) => match url_of(line.as_str()) {
            Some(url) => LoginStep::Url(url),
            None => if n + 1 < LOGIN_LINES {
                LoginStep::More
            } else {
                LoginStep::Failed(no_url_text(a))
            },
        },
        LoginRead::End => LoginStep::Failed(no_url_text(a)),
        LoginRead::Fault(why) => {
            let mut msg = "чтение вывода ".to_owned();
            msg.append(a.program.as_str());
            msg.append(": ");
            msg.append(why.as_str());
            LoginStep::Broken(msg)
        },
    }
}

/// The line by which a code is handed to a login.
pub fn code_line(code: &str) -> (r: String)
    ensures
        r@ == trimmed(code@) + "\n"@,
{
    let mut out = trim(code).to_owned();
    out.append("\n");
    out
}

/// The first `n` lines, each trimmed and ended.
pub open spec fn trimmed_lines(lines: Seq<Seq<char>>, n: int) -> Seq<char>
    decreases n,
{
    if n <= 0 {
        Seq::empty()
    } else {
        trimmed_lines(lines, n - 1) + trimmed(lines[n - 1]) + "\n"@
    }
}

/// The rest of the output of a login.
pub open spec fn login_rest(lines: Seq<Seq<char>>) -> Seq<char> {
    trimmed(trimmed_lines(lines, lines.len() as int))
}

/// How a login ended: the rest of its output, or what is wrong.
pub fn login_finish(a: &Assistant, lines: &Vec<String>, code: Option<i32>) -> (r: Result<String, String>)
    ensures
        if code == Some(0i32) {
            r matches Ok(rest) && rest@ == login_rest(texts(lines@))
        } else {
            let rest = login_rest(texts(lines@));
            r matches Err(msg) && msg@ == "`"@ + a.program@
                + " auth login` завершился с ошибкой (код "@ + code_text(code) + "). Вывод:\n"@ + (if rest.len() == 0 {
                "—"@
            } else {
                rest
            })
        },
{
    let mut all = String::new();
    let ghost found = texts(lines@);
    let mut i: usize = 0;
    while i < lines.len()
        invariant
            i <= lines@.len(),
            found == texts(lines@),
            all@ == trimmed_lines(found, i as int),
        decreases lines@.len() - i,
    {
        assert(found[i as int] == lines@[i as int]@);
        all.append(trim(lines[i].as_str()));
        all.append("\n");
        i += 1;
    }
    let rest = trim(all.as_str());
    let success = match code {
        Some(n) => n == 0,
        None => false,
    };
    if success {
        Ok(rest.to_owned())
    } else {
        let mut msg = "`".to_owned();
        msg.append(a.program.as_str());
        msg.append(" auth login` завершился с ошибкой (код ");
        msg.append(show_code(code).as_str());
        msg.append("). Вывод:\n");
        if rest.is_empty() {
            msg.append("—");
        } else {
            msg.append(rest);
        }
        Err(msg)
    }
}

/// A report on the limits is told where it is no error and says something; an error is told as it
/// stands.
pub proof fn law_usage_is_told_or_refused(a: Assistant, text: Seq<char>)
    ensures
        trimmed(text).len() > 0 ==> usage_text(a, false, Some(text)) == Ok::<Seq<char>, Seq<char>>(
            trimmed(text),
        ),
        trimmed(text).len() == 0 ==> usage_text(a, false, Some(text)) == Err::<
            Seq<char>,
            Seq<char>,
        >("пустой вывод /usage"@),
        usage_text(a, false, None) == Err::<Seq<char>, Seq<char>>("пустой вывод /usage"@),
        usage_text(a, true, Some(text)) == Err::<Seq<char>, Seq<char>>(
            a.program@ + " вернул ошибку: "@ + text,
        ),
        usage_text(a, true, None) == Err::<Seq<char>, Seq<char>>(
            a.program@ + " вернул ошибку: "@ + "?"@,
        ),
        set_to_true(Some(true)) && !set_to_true(Some(false)) && !set_to_true(None),
{
    reveal_strlit("");
    assert(""@.len() == 0);
}

/// The address in a line goes from the first `https://` to the end of the line, without white space
/// around it; a line without it holds none.
pub proof fn law_address_in_a_line(front: Seq<char>, rest: Seq<char>, line: Seq<char>)
    ensures
        line == front + "https://"@ + rest && (forall|j: int|
            0 <= j < front.len() ==> !stands_at(line, "https://"@, j)) ==> url_in(line) == Some(
            trimmed("https://"@ + rest),
        ),
        !has_text(line, "https://"@) ==> url_in(line) is None,
{
    let p = "https://"@;
    lemma_find(line, p, 0);
    if line == front + p + rest && (forall|j: int| 0 <= j < front.len() ==> !stands_at(line, p, j)) {
        let n = front.len() as int;
        assert(line.subrange(n, n + p.len()) =~= p);
        assert(stands_at(line, p, n));
        assert(find_from(line, p, 0) == Some(n));
        assert(line.subrange(n, line.len() as int) =~= p + rest);
    }
    if !has_text(line, p) {
        if let Some(i) = find_from(line, p, 0) {
            assert(stands_at(line, p, i));
        }
    }
}

proof fn lemma_trimmed_by_front(a: Seq<Seq<char>>, b: Seq<Seq<char>>, n: int)
    requires
        0 <= n <= a.len(),
        n <= b.len(),
        forall|i: int| 0 <= i < n ==> a[i] == b[i],
    ensures
        trimmed_lines(a, n) == trimmed_lines(b, n),
    decreases n,
{
    if n > 0 {
        lemma_trimmed_by_front(a, b, n - 1);
    }
}

/// The rest of the output of a login holds every line, one by one and without outer white space.
pub proof fn law_rest_of_a_login_line_by_line(a: Assistant, lines: Seq<Seq<char>>, line: Seq<char>)
    ensures
        trimmed_lines(lines, 0) == Seq::<char>::empty(),
        trimmed_lines(lines.push(line), lines.len() as int + 1) == trimmed_lines(
            lines,
            lines.len() as int,
        ) + trimmed(line) + "\n"@,
        login_rest(lines) == trimmed(trimmed_lines(lines, lines.len() as int)),
        no_url(a) == "не удалось получить ссылку авторизации из вывода "@ + a.program@,
{
    lemma_trimmed_by_front(lines.push(line), lines, lines.len() as int);
}

} // verus!
