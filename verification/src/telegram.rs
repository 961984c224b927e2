//! The bot by which the daemon is controlled: what it understands and what it answers.
//!
//! Only the chats that the configuration names may control it. Another chat is told its own id, so
//! that it can be put into the configuration.

use crate::assistant::Assistant;
use crate::claudecli::AuthStatus;
use crate::decimal::{dec, dec_i64, dec_u64, int_value, parse_i64, within};
use crate::model::ApiError;
use crate::outside::{
    json_count, json_read_error, json_read_fault, json_i64_at, json_int, json_len_at, json_null, json_null_at,
    json_str, json_str_at, json_string, json_text,
};
use crate::registry::{
    entries, lemma_place, lemma_place_by_names, not_found, place_from, scanned, toggled, ProjectEntry,
    Registry, TelegramCfg,
};
use crate::text::{
    before, before_char, first_chars, halves, has_text, keep_first, keep_last, last_chars,
    law_split_at_the_first_mark, opt_text, split_once, stands_at, starts_with, tail_lines, tail_of, text_eq, texts, trim, trimmed, words,
    words_of,
};
use vstd::prelude::*;
use vstd::string::*;

verus! {

/// The address of the bot.
pub fn base_url(token: &str) -> (r: String)
    ensures
        r@ == "https://api.telegram.org/bot"@ + token@,
{
    let mut out = "https://api.telegram.org/bot".to_owned();
    out.append(token);
    out
}

/// The body of a message, with the keyboard as JSON where it has one.
pub open spec fn message_body(chat_id: int, text: Seq<char>, keyboard: Option<Seq<char>>) -> Seq<
    char,
> {
    "{\"chat_id\":"@ + dec(chat_id) + markup(keyboard) + ",\"text\":"@ + json_text(text) + "}"@
}

/// The keyboard as a field.
pub open spec fn markup(keyboard: Option<Seq<char>>) -> Seq<char> {
    match keyboard {
        Some(kb) => ",\"reply_markup\":"@ + kb,
        None => ""@,
    }
}

fn markup_of(keyboard: Option<&str>) -> (r: String)
    ensures
        r@ == markup(
            match keyboard {
                Some(kb) => Some(kb@),
                None => None,
            },
        ),
{
    match keyboard {
        Some(kb) => {
            let mut out = ",\"reply_markup\":".to_owned();
            out.append(kb);
            out
        },
        None => "".to_owned(),
    }
}

/// The body of the call `sendMessage`.
pub fn send_body(chat_id: i64, text: &str, keyboard: Option<&str>) -> (r: String)
    ensures
        r@ == message_body(
            chat_id as int,
            text@,
            match keyboard {
                Some(kb) => Some(kb@),
                None => None,
            },
        ),
{
    let mut out = "{\"chat_id\":".to_owned();
    out.append(dec_i64(chat_id).as_str());
    out.append(markup_of(keyboard).as_str());
    out.append(",\"text\":");
    out.append(json_string(text).as_str());
    out.append("}");
    out
}

/// The body of the call `editMessageText`.
pub fn edit_body(chat_id: i64, message_id: i64, text: &str, keyboard: Option<&str>) -> (r: String)
    ensures
        r@ == "{\"chat_id\":"@ + dec(chat_id as int) + ",\"message_id\":"@ + dec(
            message_id as int,
        ) + markup(
            match keyboard {
                Some(kb) => Some(kb@),
                None => None,
            },
        ) + ",\"text\":"@ + json_text(text@) + "}"@,
{
    let mut out = "{\"chat_id\":".to_owned();
    out.append(dec_i64(chat_id).as_str());
    out.append(",\"message_id\":");
    out.append(dec_i64(message_id).as_str());
    out.append(markup_of(keyboard).as_str());
    out.append(",\"text\":");
    out.append(json_string(text).as_str());
    out.append("}");
    out
}

/// The body of the call `answerCallbackQuery`.
pub fn answer_body(id: &str, text: &str) -> (r: String)
    ensures
        r@ == "{\"callback_query_id\":"@ + json_text(id@) + ",\"text\":"@ + json_text(text@)
            + "}"@,
{
    let mut out = "{\"callback_query_id\":".to_owned();
    out.append(json_string(id).as_str());
    out.append(",\"text\":");
    out.append(json_string(text).as_str());
    out.append("}");
    out
}

/// The body of the call `getUpdates`.
pub fn poll_body(offset: i64) -> (r: String)
    ensures
        r@ == "{\"allowed_updates\":[\"message\",\"callback_query\"],\"offset\":"@ + dec(
            offset as int,
        ) + ",\"timeout\":50}"@,
{
    let mut out = "{\"allowed_updates\":[\"message\",\"callback_query\"],\"offset\":".to_owned();
    out.append(dec_i64(offset).as_str());
    out.append(",\"timeout\":50}");
    out
}

/// The offset that a file holds; 0 where it holds none.
pub fn stored_offset(content: Option<&str>) -> (r: i64)
    ensures
        r == (match content {
            Some(text) => match within(
                int_value(trimmed(text@)),
                i64::MIN as int,
                i64::MAX as int,
            ) {
                Some(n) => n,
                None => 0,
            },
            None => 0,
        }),
{
    match content {
        Some(text) => match parse_i64(trim(text)) {
            Some(n) => n,
            None => 0,
        },
        None => 0,
    }
}

/// The offset behind an update.
pub fn next_offset(update_id: i64) -> (r: i64)
    requires
        update_id < i64::MAX,
    ensures
        r == update_id + 1,
{
    update_id + 1
}

/// A message to the bot.
#[derive(Debug)]
pub struct Message {
    pub chat_id: i64,
    pub text: String,
}

/// A button that was pressed.
#[derive(Debug)]
pub struct Callback {
    pub id: String,
    pub chat_id: i64,
    pub message_id: i64,
    pub data: String,
}

/// One update.
#[derive(Debug)]
pub struct Update {
    pub update_id: Option<i64>,
    pub message: Option<Message>,
    pub callback: Option<Callback>,
}

/// The number of updates in a reply.
pub fn update_count(reply: &[u8]) -> (r: usize)
    ensures
        r == (match json_count(reply@, "/result"@) {
            Some(n) => n,
            None => 0,
        }),
{
    match json_len_at(reply, "/result") {
        Some(n) => n,
        None => 0,
    }
}

/// The pointer to a part of update number `i`.
pub open spec fn update_pointer(i: int, rest: Seq<char>) -> Seq<char> {
    "/result/"@ + dec(i) + rest
}

fn pointer_to(i: usize, rest: &str) -> (r: String)
    ensures
        r@ == update_pointer(i as int, rest@),
{
    let mut out = "/result/".to_owned();
    out.append(dec_u64(i as u64).as_str());
    out.append(rest);
    out
}

/// The number at a pointer; 0 where there is none.
pub open spec fn int_or_zero(reply: Seq<u8>, pointer: Seq<char>) -> i64 {
    match json_int(reply, pointer) {
        Some(n) => n,
        None => 0,
    }
}

fn int_at(reply: &[u8], pointer: &str) -> (r: i64)
    ensures
        r == int_or_zero(reply@, pointer@),
{
    match json_i64_at(reply, pointer) {
        Some(n) => n,
        None => 0,
    }
}

/// The text at a pointer; empty where there is none.
pub open spec fn text_or_empty(reply: Seq<u8>, pointer: Seq<char>) -> Seq<char> {
    match json_str(reply, pointer) {
        Some(s) => s,
        None => ""@,
    }
}

fn text_at(reply: &[u8], pointer: &str) -> (r: String)
    ensures
        r@ == text_or_empty(reply@, pointer@),
{
    match json_str_at(reply, pointer) {
        Some(s) => s,
        None => "".to_owned(),
    }
}

/// Whether something other than null stands at a pointer.
pub open spec fn stands(reply: Seq<u8>, pointer: Seq<char>) -> bool {
    json_null(reply, pointer) == Some(false)
}

fn stands_at_pointer(reply: &[u8], pointer: &str) -> (r: bool)
    ensures
        r == stands(reply@, pointer@),
{
    match json_null_at(reply, pointer) {
        Some(null) => !null,
        None => false,
    }
}

/// Whether a reply is JSON. After one that is not, the bot rests before it asks again.
pub fn reply_is_json(reply: &[u8]) -> (r: bool)
    ensures
        r == (json_read_fault(reply@) is None),
{
    json_read_error(reply).is_none()
}

/// The seconds for which the bot rests when it got no updates.
pub const POLL_REST: u64 = 10;

/// Update number `i` of a reply.
pub fn read_update(reply: &[u8], i: usize) -> (r: Update)
    ensures
        r.update_id == json_int(reply@, update_pointer(i as int, "/update_id"@)),
        match r.message {
            Some(m) => {
                &&& stands(reply@, update_pointer(i as int, "/message"@))
                &&& m.chat_id == int_or_zero(
                    reply@,
                    update_pointer(i as int, "/message/chat/id"@),
                )
                &&& m.text@ == trimmed(
                    text_or_empty(reply@, update_pointer(i as int, "/message/text"@)),
                )
            },
            None => !stands(reply@, update_pointer(i as int, "/message"@)),
        },
        match r.callback {
            Some(c) => {
                &&& stands(reply@, update_pointer(i as int, "/callback_query"@))
                &&& c.id@ == text_or_empty(
                    reply@,
                    update_pointer(i as int, "/callback_query/id"@),
                )
                &&& c.chat_id == int_or_zero(
                    reply@,
                    update_pointer(i as int, "/callback_query/message/chat/id"@),
                )
                &&& c.message_id == int_or_zero(
                    reply@,
                    update_pointer(i as int, "/callback_query/message/message_id"@),
                )
                &&& c.data@ == text_or_empty(
                    reply@,
                    update_pointer(i as int, "/callback_query/data"@),
                )
            },
            None => !stands(reply@, update_pointer(i as int, "/callback_query"@)),
        },
{
    let update_id = json_i64_at(reply, pointer_to(i, "/update_id").as_str());
    let has_message = stands_at_pointer(reply, pointer_to(i, "/message").as_str());
    let message = if has_message {
        let raw = text_at(reply, pointer_to(i, "/message/text").as_str());
        Some(
            Message {
                chat_id: int_at(reply, pointer_to(i, "/message/chat/id").as_str()),
                text: trim(raw.as_str()).to_owned(),
            },
        )
    } else {
        None
    };
    let has_callback = stands_at_pointer(reply, pointer_to(i, "/callback_query").as_str());
    let callback = if has_callback {
        Some(
            Callback {
                id: text_at(reply, pointer_to(i, "/callback_query/id").as_str()),
                chat_id: int_at(
                    reply,
                    pointer_to(i, "/callback_query/message/chat/id").as_str(),
                ),
                message_id: int_at(
                    reply,
                    pointer_to(i, "/callback_query/message/message_id").as_str(),
                ),
                data: text_at(reply, pointer_to(i, "/callback_query/data").as_str()),
            },
        )
    } else {
        None
    };
    Update { update_id, message, callback }
}

/// Whether a chat may control the bot.
pub open spec fn may_control(cfg: TelegramCfg, chat_id: i64) -> bool {
    cfg.allowed_chats@.contains(chat_id)
}

pub fn allowed(cfg: &TelegramCfg, chat_id: i64) -> (r: bool)
    ensures
        r == may_control(*cfg, chat_id),
{
    let mut i: usize = 0;
    while i < cfg.allowed_chats.len()
        invariant
            i <= cfg.allowed_chats@.len(),
            forall|j: int| 0 <= j < i ==> cfg.allowed_chats@[j] != chat_id,
        decreases cfg.allowed_chats@.len() - i,
    {
        if cfg.allowed_chats[i] == chat_id {
            assert(cfg.allowed_chats@[i as int] == chat_id);
            return true;
        }
        i += 1;
    }
    false
}

/// What a text asks the bot to do.
#[derive(Debug)]
pub enum Command {
    /// The help, with the main menu.
    Help,
    /// The status, with the keyboard of the projects.
    Status,
    Account,
    Usage,
    /// Ask whether to log in.
    Login,
    /// Give up a login.
    Cancel,
    /// The last log of a project.
    Logs(String),
    /// Pause a project, or resume it.
    SetPaused(String, bool),
    SetPriority(String, i64),
    /// Only say something: how a command is used, or that it is not understood.
    Say(String),
}

/// A command as texts.
pub enum CommandView {
    Help,
    Status,
    Account,
    Usage,
    Login,
    Cancel,
    Logs(Seq<char>),
    SetPaused(Seq<char>, bool),
    SetPriority(Seq<char>, i64),
    Say(Seq<char>),
}

impl View for Command {
    type V = CommandView;

    open spec fn view(&self) -> CommandView {
        match self {
            Command::Help => CommandView::Help,
            Command::Status => CommandView::Status,
            Command::Account => CommandView::Account,
            Command::Usage => CommandView::Usage,
            Command::Login => CommandView::Login,
            Command::Cancel => CommandView::Cancel,
            Command::Logs(name) => CommandView::Logs(name@),
            Command::SetPaused(name, paused) => CommandView::SetPaused(name@, *paused),
            Command::SetPriority(name, pr) => CommandView::SetPriority(name@, *pr),
            Command::Say(text) => CommandView::Say(text@),
        }
    }
}

/// What the words of a text ask for. A command may carry the name of the bot behind an `@`.
pub open spec fn command_in(words: Seq<Seq<char>>) -> CommandView {
    let cmd = if words.len() > 0 {
        before(words[0], '@')
    } else {
        ""@
    };
    if cmd == "/start"@ || cmd == "/help"@ || cmd == "/menu"@ {
        CommandView::Help
    } else if cmd == "/status"@ {
        CommandView::Status
    } else if cmd == "/whoami"@ || cmd == "/account"@ {
        CommandView::Account
    } else if cmd == "/usage"@ {
        CommandView::Usage
    } else if cmd == "/login"@ {
        CommandView::Login
    } else if cmd == "/cancel"@ {
        CommandView::Cancel
    } else if cmd == "/logs"@ {
        if words.len() > 1 {
            CommandView::Logs(words[1])
        } else {
            CommandView::Say("Использование: /logs <проект>"@)
        }
    } else if cmd == "/pause"@ || cmd == "/resume"@ {
        if words.len() > 1 {
            CommandView::SetPaused(words[1], cmd == "/pause"@)
        } else {
            CommandView::Say("Использование: "@ + cmd + " <проект>"@)
        }
    } else if cmd == "/priority"@ {
        if words.len() > 2 {
            match within(int_value(words[2]), i64::MIN as int, i64::MAX as int) {
                Some(n) => CommandView::SetPriority(words[1], n as i64),
                None => CommandView::Say("Приоритет должен быть числом"@),
            }
        } else {
            CommandView::Say("Использование: /priority <проект> <число>"@)
        }
    } else {
        CommandView::Say("Не понял. /help — список команд."@)
    }
}

/// What a text asks the bot to do.
pub fn handle_command(text: &str) -> (r: Command)
    ensures
        r@ == command_in(words_of(text@)),
{
    let parts = words(text);
    let ghost all = words_of(text@);
    assert(parts@.len() == all.len());
    assert(forall|i: int| 0 <= i < parts@.len() ==> (#[trigger] parts@[i])@ == all[i]);
    let cmd = if parts.len() > 0 {
        before_char(parts[0].as_str(), '@')
    } else {
        ""
    };
    if text_eq(cmd, "/start") || text_eq(cmd, "/help") || text_eq(cmd, "/menu") {
        Command::Help
    } else if text_eq(cmd, "/status") {
        Command::Status
    } else if text_eq(cmd, "/whoami") || text_eq(cmd, "/account") {
        Command::Account
    } else if text_eq(cmd, "/usage") {
        Command::Usage
    } else if text_eq(cmd, "/login") {
        Command::Login
    } else if text_eq(cmd, "/cancel") {
        Command::Cancel
    } else if text_eq(cmd, "/logs") {
        if parts.len() > 1 {
            Command::Logs(parts[1].clone())
        } else {
            Command::Say("Использование: /logs <проект>".to_owned())
        }
    } else if text_eq(cmd, "/pause") || text_eq(cmd, "/resume") {
        if parts.len() > 1 {
            Command::SetPaused(parts[1].clone(), text_eq(cmd, "/pause"))
        } else {
            let mut say = "Использование: ".to_owned();
            say.append(cmd);
            say.append(" <проект>");
            Command::Say(say)
        }
    } else if text_eq(cmd, "/priority") {
        if parts.len() > 2 {
            match parse_i64(parts[2].as_str()) {
                Some(n) => Command::SetPriority(parts[1].clone(), n),
                None => Command::Say("Приоритет должен быть числом".to_owned()),
            }
        } else {
            Command::Say("Использование: /priority <проект> <число>".to_owned())
        }
    } else {
        Command::Say("Не понял. /help — список команд.".to_owned())
    }
}

/// A login that waits for its code: the chat that began it, and the nanoseconds since.
#[derive(Debug, Clone, Copy)]
pub struct PendingLogin {
    pub chat_id: i64,
    pub elapsed: u128,
}

/// A login is given up after so many nanoseconds: ten minutes.
pub const LOGIN_TTL: u128 = 600_000_000_000;

/// What becomes of a login that waits for its code, when a chat writes.
#[derive(Debug, Clone, Copy, PartialEq, Eq, Structural)]
pub enum Claim {
    /// There is none, or it waits for another chat.
    Leave,
    /// It waited too long, and is given up.
    Abort,
    /// What the chat wrote is the code.
    Take,
}

/// What becomes of a login when a chat writes.
pub open spec fn claim(pending: Option<PendingLogin>, chat_id: i64) -> Claim {
    match pending {
        Some(p) => if p.elapsed > LOGIN_TTL {
            Claim::Abort
        } else if p.chat_id == chat_id {
            Claim::Take
        } else {
            Claim::Leave
        },
        None => Claim::Leave,
    }
}

pub fn take_pending_login_for(pending: Option<PendingLogin>, chat_id: i64) -> (r: Claim)
    ensures
        r == claim(pending, chat_id),
{
    match pending {
        Some(p) => if p.elapsed > LOGIN_TTL {
            Claim::Abort
        } else if p.chat_id == chat_id {
            Claim::Take
        } else {
            Claim::Leave
        },
        None => Claim::Leave,
    }
}

/// What the bot does about a message.
#[derive(Debug)]
pub enum Reaction {
    Nothing,
    /// The chat may not control the bot, and is told this.
    Refuse(String),
    /// The text is the code for the login that waits.
    Code,
    /// The text is a command; whether a login that waited too long is given up first.
    Obey(Command, bool),
}

/// What the bot does about a message, as texts.
pub enum ReactionView {
    Nothing,
    Refuse(Seq<char>),
    Code,
    Obey(CommandView, bool),
}

impl View for Reaction {
    type V = ReactionView;

    open spec fn view(&self) -> ReactionView {
        match self {
            Reaction::Nothing => ReactionView::Nothing,
            Reaction::Refuse(text) => ReactionView::Refuse(text@),
            Reaction::Code => ReactionView::Code,
            Reaction::Obey(cmd, abort) => ReactionView::Obey(cmd@, *abort),
        }
    }
}

/// What a chat is told that may not control the bot.
pub open spec fn refusal(chat_id: int) -> Seq<char> {
    "⛔ Не авторизован. Ваш chat id: "@ + dec(chat_id)
        + "\nДобавьте его в ~/.autopilot/config.yaml → telegram.allowed_chats и перезапустите демон (autopilot restart)."@
}

/// What the bot does about a message. A text that is no command is the code for a login, where one
/// waits for this chat.
pub open spec fn reaction(
    cfg: TelegramCfg,
    chat_id: i64,
    text: Seq<char>,
    pending: Option<PendingLogin>,
) -> ReactionView {
    let claimed = if stands_at(text, "/"@, 0) {
        Claim::Leave
    } else {
        claim(pending, chat_id)
    };
    if chat_id == 0 || text.len() == 0 {
        ReactionView::Nothing
    } else if !may_control(cfg, chat_id) {
        ReactionView::Refuse(refusal(chat_id as int))
    } else if claimed == Claim::Take {
        ReactionView::Code
    } else {
        ReactionView::Obey(command_in(words_of(text)), claimed == Claim::Abort)
    }
}

pub fn handle_message(cfg: &TelegramCfg, m: &Message, pending: Option<PendingLogin>) -> (r:
    Reaction)
    ensures
        r@ == reaction(*cfg, m.chat_id, m.text@, pending),
{
    if m.chat_id == 0 || m.text.as_str().is_empty() {
        return Reaction::Nothing;
    }
    if !allowed(cfg, m.chat_id) {
        let mut text = "⛔ Не авторизован. Ваш chat id: ".to_owned();
        text.append(dec_i64(m.chat_id).as_str());
        text.append(
            "\nДобавьте его в ~/.autopilot/config.yaml → telegram.allowed_chats и перезапустите демон (autopilot restart).",
        );
        return Reaction::Refuse(text);
    }
    let claimed = if starts_with(m.text.as_str(), "/") {
        Claim::Leave
    } else {
        take_pending_login_for(pending, m.chat_id)
    };
    match claimed {
        Claim::Take => Reaction::Code,
        Claim::Abort => Reaction::Obey(handle_command(m.text.as_str()), true),
        Claim::Leave => Reaction::Obey(handle_command(m.text.as_str()), false),
    }
}

/// What a button asks for.
#[derive(Debug)]
pub enum Button {
    Status,
    Account,
    Usage,
    Login,
    /// Begin the login.
    LoginGo,
    /// Give up the login.
    LoginCancel,
    /// Pause a project that runs, resume one that is paused.
    Toggle(String),
    /// Add to the priority of a project.
    Bump(String, i64),
    /// The last log of a project.
    Logs(String),
    /// Only draw the status anew, with a word on why.
    Redraw(String),
}

/// A button as texts.
pub enum ButtonView {
    Status,
    Account,
    Usage,
    Login,
    LoginGo,
    LoginCancel,
    Toggle(Seq<char>),
    Bump(Seq<char>, int),
    Logs(Seq<char>),
    Redraw(Seq<char>),
}

impl View for Button {
    type V = ButtonView;

    open spec fn view(&self) -> ButtonView {
        match self {
            Button::Status => ButtonView::Status,
            Button::Account => ButtonView::Account,
            Button::Usage => ButtonView::Usage,
            Button::Login => ButtonView::Login,
            Button::LoginGo => ButtonView::LoginGo,
            Button::LoginCancel => ButtonView::LoginCancel,
            Button::Toggle(name) => ButtonView::Toggle(name@),
            Button::Bump(name, delta) => ButtonView::Bump(name@, *delta as int),
            Button::Logs(name) => ButtonView::Logs(name@),
            Button::Redraw(note) => ButtonView::Redraw(note@),
        }
    }
}

/// What the data of a button stands for: a word of the menus, or a letter, a bar and the name of a
/// project.
pub open spec fn button_in(data: Seq<char>) -> ButtonView {
    let (op, name) = match halves(data, '|') {
        Some((a, b)) => (a, b),
        None => (data, ""@),
    };
    if data == "m_status"@ {
        ButtonView::Status
    } else if data == "m_account"@ {
        ButtonView::Account
    } else if data == "m_usage"@ {
        ButtonView::Usage
    } else if data == "m_login"@ {
        ButtonView::Login
    } else if data == "login_go"@ {
        ButtonView::LoginGo
    } else if data == "login_cancel"@ {
        ButtonView::LoginCancel
    } else if op == "t"@ {
        ButtonView::Toggle(name)
    } else if op == "u"@ {
        ButtonView::Bump(name, 1)
    } else if op == "d"@ {
        ButtonView::Bump(name, -1)
    } else if op == "l"@ {
        ButtonView::Logs(name)
    } else if op == "r"@ {
        ButtonView::Redraw("Обновлено"@)
    } else {
        ButtonView::Redraw("Неизвестная кнопка"@)
    }
}

/// What the data of a button stands for.
pub fn handle_callback(data: &str) -> (r: Button)
    ensures
        r@ == button_in(data@),
{
    let (op, name) = match split_once(data, '|') {
        Some((a, b)) => (a, b),
        None => (data, ""),
    };
    if text_eq(data, "m_status") {
        Button::Status
    } else if text_eq(data, "m_account") {
        Button::Account
    } else if text_eq(data, "m_usage") {
        Button::Usage
    } else if text_eq(data, "m_login") {
        Button::Login
    } else if text_eq(data, "login_go") {
        Button::LoginGo
    } else if text_eq(data, "login_cancel") {
        Button::LoginCancel
    } else if text_eq(op, "t") {
        Button::Toggle(name.to_owned())
    } else if text_eq(op, "u") {
        Button::Bump(name.to_owned(), 1)
    } else if text_eq(op, "d") {
        Button::Bump(name.to_owned(), -1)
    } else if text_eq(op, "l") {
        Button::Logs(name.to_owned())
    } else if text_eq(op, "r") {
        Button::Redraw("Обновлено".to_owned())
    } else {
        Button::Redraw("Неизвестная кнопка".to_owned())
    }
}

/// The word by which a press on a button of the menus is acknowledged; a change to a project is
/// acknowledged by its result.
pub open spec fn acknowledgement(b: ButtonView) -> Option<Seq<char>> {
    match b {
        ButtonView::Status => Some("Статус"@),
        ButtonView::Account => Some("Аккаунт"@),
        ButtonView::Usage => Some("Usage…"@),
        ButtonView::Login => Some("Вход"@),
        ButtonView::LoginGo => Some("Запускаю…"@),
        ButtonView::LoginCancel => Some("Отменено"@),
        ButtonView::Logs(_) => Some("Логи…"@),
        ButtonView::Redraw(note) => Some(note),
        ButtonView::Toggle(_) => None,
        ButtonView::Bump(_, _) => None,
    }
}

pub fn acknowledge(b: &Button) -> (r: Option<String>)
    ensures
        opt_text(r) == acknowledgement(b@),
{
    match b {
        Button::Status => Some("Статус".to_owned()),
        Button::Account => Some("Аккаунт".to_owned()),
        Button::Usage => Some("Usage…".to_owned()),
        Button::Login => Some("Вход".to_owned()),
        Button::LoginGo => Some("Запускаю…".to_owned()),
        Button::LoginCancel => Some("Отменено".to_owned()),
        Button::Logs(_) => Some("Логи…".to_owned()),
        Button::Redraw(note) => Some(note.clone()),
        Button::Toggle(_) => None,
        Button::Bump(_, _) => None,
    }
}

/// What the bot does about a press on a button.
#[derive(Debug)]
pub enum Press {
    /// The chat may not control the bot, and is told this.
    Refuse(String),
    Obey(Button),
}

/// What the bot does about a press on a button, as texts.
pub enum PressView {
    Refuse(Seq<char>),
    Obey(ButtonView),
}

impl View for Press {
    type V = PressView;

    open spec fn view(&self) -> PressView {
        match self {
            Press::Refuse(text) => PressView::Refuse(text@),
            Press::Obey(b) => PressView::Obey(b@),
        }
    }
}

/// What the bot does about a press on a button.
pub open spec fn press(cfg: TelegramCfg, chat_id: i64, data: Seq<char>) -> PressView {
    if may_control(cfg, chat_id) {
        PressView::Obey(button_in(data))
    } else {
        PressView::Refuse(press_refusal())
    }
}

/// What answers a press in a chat that may not control the bot.
pub open spec fn press_refusal() -> Seq<char> {
    "Не авторизован"@
}

pub fn refused_press_text() -> (r: String)
    ensures
        r@ == press_refusal(),
{
    "Не авторизован".to_owned()
}

pub fn handle_press(cfg: &TelegramCfg, c: &Callback) -> (r: Press)
    ensures
        r@ == press(*cfg, c.chat_id, c.data@),
{
    if allowed(cfg, c.chat_id) {
        Press::Obey(handle_callback(c.data.as_str()))
    } else {
        Press::Refuse(refused_press_text())
    }
}

/// What the bot does about an update: first about its message, then about its button. A message
/// that is ignored or refused ends it.
pub fn handle_update(cfg: &TelegramCfg, u: &Update, pending: Option<PendingLogin>) -> (r: (
    Option<Reaction>,
    Option<Press>,
))
    ensures
        match (u.message, r.0) {
            (Some(m), Some(x)) => x@ == reaction(*cfg, m.chat_id, m.text@, pending),
            (None, None) => true,
            _ => false,
        },
        ({
            let ended = r.0 matches Some(x) && (x@ is Nothing || x@ is Refuse);
            match (u.callback, r.1) {
                (Some(c), Some(x)) => !ended && x@ == press(*cfg, c.chat_id, c.data@),
                (Some(_), None) => ended,
                (None, None) => true,
                (None, Some(_)) => false,
            }
        }),
{
    let first = match &u.message {
        Some(m) => Some(handle_message(cfg, m, pending)),
        None => None,
    };
    let ended = match &first {
        Some(Reaction::Nothing) => true,
        Some(Reaction::Refuse(_)) => true,
        _ => false,
    };
    let second = match &u.callback {
        Some(c) => if ended {
            None
        } else {
            Some(handle_press(cfg, c))
        },
        None => None,
    };
    (first, second)
}

/// A chat that the configuration does not name gets nothing done: what it writes is ignored or
/// answered with its own id, and its presses are answered with a refusal.
pub proof fn law_only_named_chats_control(
    cfg: TelegramCfg,
    chat_id: i64,
    text: Seq<char>,
    data: Seq<char>,
    pending: Option<PendingLogin>,
)
    requires
        !may_control(cfg, chat_id),
    ensures
        reaction(cfg, chat_id, text, pending) == ReactionView::Nothing || reaction(
            cfg,
            chat_id,
            text,
            pending,
        ) == ReactionView::Refuse(refusal(chat_id as int)),
        chat_id != 0 && text.len() > 0 ==> reaction(cfg, chat_id, text, pending)
            == ReactionView::Refuse(refusal(chat_id as int)),
        has_text(refusal(chat_id as int), dec(chat_id as int)),
        press(cfg, chat_id, data) == PressView::Refuse(press_refusal()),
{
    let id = dec(chat_id as int);
    let head = "⛔ Не авторизован. Ваш chat id: "@;
    let whole = refusal(chat_id as int);
    assert(whole.subrange(head.len() as int, (head.len() + id.len()) as int) =~= id);
    assert(stands_at(whole, id, head.len() as int));
}

/// Without a configuration no chat controls the bot.
pub proof fn law_nobody_controls_by_default(cfg: TelegramCfg, chat_id: i64)
    requires
        cfg.unset(),
    ensures
        !may_control(cfg, chat_id),
{
}

/// A text is taken for a code only in the chat that began the login, only in time, and never where
/// it is a command.
pub proof fn law_code_only_from_the_chat_that_asked(
    cfg: TelegramCfg,
    chat_id: i64,
    text: Seq<char>,
    pending: Option<PendingLogin>,
)
    requires
        reaction(cfg, chat_id, text, pending) is Code,
    ensures
        pending is Some,
        pending->0.chat_id == chat_id,
        pending->0.elapsed <= LOGIN_TTL,
        may_control(cfg, chat_id),
        !stands_at(text, "/"@, 0),
{
}

/// The buttons of the keyboard mean what they were made for.
pub proof fn law_keyboard_buttons_are_understood(name: Seq<char>)
    ensures
        button_in("t|"@ + name) == ButtonView::Toggle(name),
        button_in("u|"@ + name) == ButtonView::Bump(name, 1),
        button_in("d|"@ + name) == ButtonView::Bump(name, -1),
        button_in("l|"@ + name) == ButtonView::Logs(name),
{
    lemma_button("t|"@, 't', name);
    lemma_button("u|"@, 'u', name);
    lemma_button("d|"@, 'd', name);
    lemma_button("l|"@, 'l', name);
    reveal_strlit("t");
    reveal_strlit("u");
    reveal_strlit("d");
    reveal_strlit("l");
    assert(seq!['t'] =~= "t"@);
    assert(seq!['u'] =~= "u"@);
    assert(seq!['d'] =~= "d"@);
    assert(seq!['l'] =~= "l"@);
    assert("t"@[0] == 't' && "u"@[0] == 'u' && "d"@[0] == 'd' && "l"@[0] == 'l');
}

proof fn lemma_button(prefix: Seq<char>, op: char, name: Seq<char>)
    requires
        (prefix == "t|"@ && op == 't') || (prefix == "u|"@ && op == 'u') || (prefix == "d|"@ && op
            == 'd') || (prefix == "l|"@ && op == 'l'),
    ensures
        halves(prefix + name, '|') == Some((seq![op], name)),
        prefix + name != "m_status"@,
        prefix + name != "m_account"@,
        prefix + name != "m_usage"@,
        prefix + name != "m_login"@,
        prefix + name != "login_go"@,
        prefix + name != "login_cancel"@,
{
    reveal_strlit("t|");
    reveal_strlit("u|");
    reveal_strlit("d|");
    reveal_strlit("l|");
    reveal_strlit("m_status");
    reveal_strlit("m_account");
    reveal_strlit("m_usage");
    reveal_strlit("m_login");
    reveal_strlit("login_go");
    reveal_strlit("login_cancel");
    let data = prefix + name;
    assert(data[0] == op && data[1] == '|');
    assert(crate::text::cut(data, '|', 1) == 1);
    assert(crate::text::cut(data, '|', 0) == 1);
    assert(data.subrange(0, 1) =~= seq![op]);
    assert(data.subrange(2, data.len() as int) =~= name);
    assert("m_status"@[1] == '_' && "m_account"@[1] == '_' && "m_usage"@[1] == '_'
        && "m_login"@[1] == '_' && "login_go"@[1] == 'o' && "login_cancel"@[1] == 'o');
}

/// One button as JSON.
pub open spec fn button_json(data: Seq<char>, text: Seq<char>) -> Seq<char> {
    "{\"callback_data\":"@ + json_text(data) + ",\"text\":"@ + json_text(text) + "}"@
}

fn button_json_of(data: &str, text: &str) -> (r: String)
    ensures
        r@ == button_json(data@, text@),
{
    let mut out = "{\"callback_data\":".to_owned();
    out.append(json_string(data).as_str());
    out.append(",\"text\":");
    out.append(json_string(text).as_str());
    out.append("}");
    out
}

/// The row of buttons for a project.
pub open spec fn project_row(p: ProjectEntry) -> Seq<char> {
    let toggle = if p.paused {
        "▶️ "@ + p.name@
    } else {
        "⏸ "@ + p.name@
    };
    "["@ + button_json("t|"@ + p.name@, toggle) + ","@ + button_json("u|"@ + p.name@, "🔼"@) + ","@
        + button_json("d|"@ + p.name@, "🔽"@) + ","@ + button_json("l|"@ + p.name@, "📜"@) + "]"@
}

fn joined_name(prefix: &str, name: &str) -> (r: String)
    ensures
        r@ == prefix@ + name@,
{
    let mut out = prefix.to_owned();
    out.append(name);
    out
}

fn project_row_of(p: &ProjectEntry) -> (r: String)
    ensures
        r@ == project_row(*p),
{
    let name = p.name.as_str();
    let toggle = if p.paused {
        joined_name("▶️ ", name)
    } else {
        joined_name("⏸ ", name)
    };
    let mut out = "[".to_owned();
    out.append(button_json_of(joined_name("t|", name).as_str(), toggle.as_str()).as_str());
    out.append(",");
    out.append(button_json_of(joined_name("u|", name).as_str(), "🔼").as_str());
    out.append(",");
    out.append(button_json_of(joined_name("d|", name).as_str(), "🔽").as_str());
    out.append(",");
    out.append(button_json_of(joined_name("l|", name).as_str(), "📜").as_str());
    out.append("]");
    out
}

/// The rows of the first `n` projects, each with a comma behind it.
pub open spec fn project_rows(s: Seq<ProjectEntry>, n: int) -> Seq<char>
    decreases n,
{
    if n <= 0 {
        Seq::empty()
    } else {
        project_rows(s, n - 1) + project_row(s[n - 1]) + ","@
    }
}

/// The keyboard: a row for each project in the order in which they are looked at, then one to draw
/// the status anew.
pub open spec fn keyboard_json(projects: Seq<ProjectEntry>) -> Seq<char> {
    "{\"inline_keyboard\":["@ + project_rows(scanned(projects), scanned(projects).len() as int)
        + "["@ + button_json("r|"@, "🔄 Обновить"@) + "]]}"@
}

pub fn keyboard(reg: &Registry) -> (r: String)
    ensures
        r@ == keyboard_json(reg.projects@),
{
    let all = reg.sorted_all();
    let ghost found = scanned(reg.projects@);
    assert(entries(all@).len() == all@.len());
    let mut rows = String::new();
    let mut i: usize = 0;
    while i < all.len()
        invariant
            i <= all@.len(),
            entries(all@) == found,
            rows@ == project_rows(found, i as int),
        decreases all@.len() - i,
    {
        assert(*all@[i as int] == entries(all@)[i as int]);
        rows.append(project_row_of(all[i]).as_str());
        rows.append(",");
        i += 1;
    }
    let mut out = "{\"inline_keyboard\":[".to_owned();
    out.append(rows.as_str());
    out.append("[");
    out.append(button_json_of("r|", "🔄 Обновить").as_str());
    out.append("]]}");
    out
}

/// The main menu, as JSON.
pub open spec fn menu_json() -> Seq<char> {
    "{\"inline_keyboard\":[["@ + button_json("m_status"@, "📊 Статус"@) + ","@ + button_json(
        "m_account"@,
        "👤 Аккаунт"@,
    ) + "],["@ + button_json("m_usage"@, "📈 Usage"@) + ","@ + button_json("m_login"@, "🔐 Войти"@)
        + "]]}"@
}

pub fn main_menu() -> (r: String)
    ensures
        r@ == menu_json(),
{
    let mut out = "{\"inline_keyboard\":[[".to_owned();
    out.append(button_json_of("m_status", "📊 Статус").as_str());
    out.append(",");
    out.append(button_json_of("m_account", "👤 Аккаунт").as_str());
    out.append("],[");
    out.append(button_json_of("m_usage", "📈 Usage").as_str());
    out.append(",");
    out.append(button_json_of("m_login", "🔐 Войти").as_str());
    out.append("]]}");
    out
}

/// The keyboard under the question whether to log in, as JSON.
pub open spec fn confirm_json() -> Seq<char> {
    "{\"inline_keyboard\":[["@ + button_json("login_go"@, "✅ Да, войти"@) + ","@ + button_json(
        "login_cancel"@,
        "Отмена"@,
    ) + "]]}"@
}

pub fn confirm_keyboard() -> (r: String)
    ensures
        r@ == confirm_json(),
{
    let mut out = "{\"inline_keyboard\":[[".to_owned();
    out.append(button_json_of("login_go", "✅ Да, войти").as_str());
    out.append(",");
    out.append(button_json_of("login_cancel", "Отмена").as_str());
    out.append("]]}");
    out
}

/// The question whether to log in.
pub fn confirm_text(a: &Assistant) -> (r: String)
    ensures
        r@ == "⚠️ Это перелогинит аккаунт "@ + a.name@
            + ", которым работает демон (влияет на лимиты и биллинг всех сессий). Продолжить?"@,
{
    let mut out = "⚠️ Это перелогинит аккаунт ".to_owned();
    out.append(a.name.as_str());
    out.append(", которым работает демон (влияет на лимиты и биллинг всех сессий). Продолжить?");
    out
}

/// A command in the list that the bot registers, as JSON.
pub open spec fn command_json(command: Seq<char>, description: Seq<char>) -> Seq<char> {
    "{\"command\":"@ + json_text(command) + ",\"description\":"@ + json_text(description) + "}"@
}

fn command_json_of(command: &str, description: &str) -> (r: String)
    ensures
        r@ == command_json(command@, description@),
{
    let mut out = "{\"command\":".to_owned();
    out.append(json_string(command).as_str());
    out.append(",\"description\":");
    out.append(json_string(description).as_str());
    out.append("}");
    out
}

/// The body of the call `setMyCommands`.
pub fn register_commands(a: &Assistant) -> (r: String)
    ensures
        r@ == "{\"commands\":["@ + command_json("status"@, "Статус демона и проектов"@) + ","@
            + command_json("menu"@, "Главное меню"@) + ","@ + command_json(
            "account"@,
            "Аккаунт "@ + a.title@,
        ) + ","@ + command_json("usage"@, "Лимиты "@ + a.name@ + " (%)"@) + ","@ + command_json(
            "login"@,
            "Войти в аккаунт "@ + a.name@,
        ) + ","@ + command_json("logs"@, "Лог последней сессии проекта"@) + ","@ + command_json(
            "pause"@,
            "Приостановить проект"@,
        ) + ","@ + command_json("resume"@, "Возобновить проект"@) + ","@ + command_json(
            "priority"@,
            "Задать приоритет проекта"@,
        ) + "]}"@,
{
    let mut out = "{\"commands\":[".to_owned();
    out.append(command_json_of("status", "Статус демона и проектов").as_str());
    out.append(",");
    out.append(command_json_of("menu", "Главное меню").as_str());
    out.append(",");
    out.append(command_json_of("account", joined_name("Аккаунт ", a.title.as_str()).as_str()).as_str());
    out.append(",");
    let mut usage = joined_name("Лимиты ", a.name.as_str());
    usage.append(" (%)");
    out.append(command_json_of("usage", usage.as_str()).as_str());
    out.append(",");
    out.append(command_json_of("login", joined_name("Войти в аккаунт ", a.name.as_str()).as_str()).as_str());
    out.append(",");
    out.append(command_json_of("logs", "Лог последней сессии проекта").as_str());
    out.append(",");
    out.append(command_json_of("pause", "Приостановить проект").as_str());
    out.append(",");
    out.append(command_json_of("resume", "Возобновить проект").as_str());
    out.append(",");
    out.append(command_json_of("priority", "Задать приоритет проекта").as_str());
    out.append("]}");
    out
}

/// The help.
pub open spec fn help(a: Assistant) -> Seq<char> {
    "Автопилот — управление с телефона.\n\nКнопки меню ниже или команды:\n/status — статус демона и проектов (с кнопками)\n/account — аккаунт "@
        + a.title@
        + " (кто залогинен, подписка)\n/usage — лимиты "@ + a.name@
        + " в процентах\n/login — войти в аккаунт "@ + a.name@
        + " (пришлёт ссылку)\n/logs <проект> — хвост последнего лога сессии\n/pause <проект> | /resume <проект>\n/priority <проект> <число>\nКнопки проектов: ⏯ пауза, 🔼/🔽 приоритет, 📜 логи."@
}

pub fn help_text(a: &Assistant) -> (r: String)
    ensures
        r@ == help(*a),
{
    let mut out =
        "Автопилот — управление с телефона.\n\nКнопки меню ниже или команды:\n/status — статус демона и проектов (с кнопками)\n/account — аккаунт ".to_owned();
    out.append(a.title.as_str());
    out.append(" (кто залогинен, подписка)\n/usage — лимиты ");
    out.append(a.name.as_str());
    out.append(" в процентах\n/login — войти в аккаунт ");
    out.append(a.name.as_str());
    out.append(
        " (пришлёт ссылку)\n/logs <проект> — хвост последнего лога сессии\n/pause <проект> | /resume <проект>\n/priority <проект> <число>\nКнопки проектов: ⏯ пауза, 🔼/🔽 приоритет, 📜 логи.",
    );
    out
}

/// What is said when a project was paused or resumed by a command.
pub open spec fn paused_reply(name: Seq<char>, paused: bool) -> Seq<char> {
    (if paused {
        "⏸ Приостановлен"@
    } else {
        "▶️ Возобновлён"@
    }) + " "@ + name
}

pub fn paused_text(name: &str, paused: bool) -> (r: String)
    ensures
        r@ == paused_reply(name@, paused),
{
    let mut out = if paused {
        "⏸ Приостановлен".to_owned()
    } else {
        "▶️ Возобновлён".to_owned()
    };
    out.append(" ");
    out.append(name);
    out
}

/// What is said when a project was paused or resumed by a button.
pub open spec fn toggled_reply(name: Seq<char>, paused: bool) -> Seq<char> {
    if paused {
        "⏸ "@ + name + " на паузе"@
    } else {
        "▶️ "@ + name + " возобновлён"@
    }
}

pub fn toggled_text(name: &str, paused: bool) -> (r: String)
    ensures
        r@ == toggled_reply(name@, paused),
{
    if paused {
        let mut out = "⏸ ".to_owned();
        out.append(name);
        out.append(" на паузе");
        out
    } else {
        let mut out = "▶️ ".to_owned();
        out.append(name);
        out.append(" возобновлён");
        out
    }
}

/// What is said when the priority of a project was changed.
pub open spec fn priority_reply(name: Seq<char>, pr: int) -> Seq<char> {
    "Приоритет "@ + name + " = "@ + dec(pr)
}

pub fn priority_text(name: &str, pr: i64) -> (r: String)
    ensures
        r@ == priority_reply(name@, pr as int),
{
    let mut out = "Приоритет ".to_owned();
    out.append(name);
    out.append(" = ");
    out.append(dec_i64(pr).as_str());
    out
}

/// What is said when a change failed.
pub open spec fn error_reply(e: Seq<char>) -> Seq<char> {
    "Ошибка: "@ + e
}

pub fn error_text(e: &ApiError) -> (r: String)
    ensures
        r@ == error_reply(e.0@),
{
    let mut out = "Ошибка: ".to_owned();
    out.append(e.0.as_str());
    out
}

/// What a press or a command is answered, and whether the registry was changed: then it is saved
/// before the answer is given.
pub struct Answer {
    pub text: String,
    pub save: bool,
}

pub open spec fn answer_text(a: Option<Answer>) -> Option<Seq<char>> {
    match a {
        Some(a) => Some(a.text@),
        None => None,
    }
}

pub open spec fn to_save(a: Option<Answer>) -> bool {
    a matches Some(a) && a.save
}

/// The answer to a change.
fn answer_to(done: Result<(), ApiError>, text: String) -> (r: Answer)
    ensures
        r.save == (done is Ok),
        r.text@ == (match done {
            Ok(()) => text@,
            Err(e) => error_reply(e.0@),
        }),
{
    match done {
        Ok(()) => Answer { text, save: true },
        Err(e) => Answer { text: error_text(&e), save: false },
    }
}

/// The projects after a press on a button.
pub open spec fn projects_after_button(projects: Seq<ProjectEntry>, b: ButtonView) -> Seq<
    ProjectEntry,
> {
    match b {
        ButtonView::Toggle(name) => toggled(projects, name),
        ButtonView::Bump(name, delta) => match place_from(projects, name, 0) {
            Some(k) => with_priority(projects, k, projects[k].priority + delta),
            None => projects,
        },
        _ => projects,
    }
}

/// The projects with the one at place `k` given a priority.
pub open spec fn with_priority(projects: Seq<ProjectEntry>, k: int, priority: int) -> Seq<
    ProjectEntry,
> {
    projects.update(k, ProjectEntry { priority: priority as i64, ..projects[k] })
}

/// What answers a press on a button that changes a project; `None` for another button, which
/// `acknowledgement` answers.
pub open spec fn change_answer(projects: Seq<ProjectEntry>, b: ButtonView) -> Option<Seq<char>> {
    match b {
        ButtonView::Toggle(name) => Some(
            match place_from(projects, name, 0) {
                Some(k) => toggled_reply(name, !projects[k].paused),
                None => error_reply(not_found(name)),
            },
        ),
        ButtonView::Bump(name, delta) => Some(
            match place_from(projects, name, 0) {
                Some(k) => priority_reply(name, projects[k].priority + delta),
                None => error_reply(not_found(name)),
            },
        ),
        _ => None,
    }
}

/// Whether a press on a button changes a project.
pub open spec fn button_changes(projects: Seq<ProjectEntry>, b: ButtonView) -> bool {
    match b {
        ButtonView::Toggle(name) => place_from(projects, name, 0) is Some,
        ButtonView::Bump(name, _) => place_from(projects, name, 0) is Some,
        _ => false,
    }
}

/// Whether a button stays within the range of the priorities.
pub open spec fn button_in_range(reg: Registry, b: ButtonView) -> bool {
    match b {
        ButtonView::Bump(name, delta) => reg.bump_in_range(name, delta),
        _ => true,
    }
}

pub fn can_apply(reg: &Registry, b: &Button) -> (r: bool)
    ensures
        r == button_in_range(*reg, b@),
{
    match b {
        Button::Bump(name, delta) => reg.can_bump(name.as_str(), *delta),
        _ => true,
    }
}

/// Changes the registry as a button asks, and gives the answer; `None` for a button that changes
/// no project.
pub fn apply_button(reg: &mut Registry, b: &Button) -> (r: Option<Answer>)
    requires
        button_in_range(*old(reg), b@),
    ensures
        final(reg).projects@ == projects_after_button(old(reg).projects@, b@),
        answer_text(r) == change_answer(old(reg).projects@, b@),
        to_save(r) == button_changes(old(reg).projects@, b@),
{
    match b {
        Button::Toggle(name) => {
            let done = reg.toggle_paused(name.as_str());
            match done {
                Ok(paused) => Some(
                    Answer { text: toggled_text(name.as_str(), paused), save: true },
                ),
                Err(e) => Some(Answer { text: error_text(&e), save: false }),
            }
        },
        Button::Bump(name, delta) => {
            let done = reg.bump_priority(name.as_str(), *delta);
            match done {
                Ok(now) => Some(Answer { text: priority_text(name.as_str(), now), save: true }),
                Err(e) => Some(Answer { text: error_text(&e), save: false }),
            }
        },
        _ => None,
    }
}

/// Whether the message with the status is drawn anew after a press: where a project was changed,
/// and where only that was asked for.
pub open spec fn redrawn(b: ButtonView) -> bool {
    b is Toggle || b is Bump || b is Redraw
}

pub fn redraws(b: &Button) -> (r: bool)
    ensures
        r == redrawn(b@),
{
    match b {
        Button::Toggle(_) => true,
        Button::Bump(_, _) => true,
        Button::Redraw(_) => true,
        _ => false,
    }
}

/// What the message under which a login was asked for becomes when it is begun or given up.
pub open spec fn replaced_by(b: ButtonView) -> Option<Seq<char>> {
    match b {
        ButtonView::LoginGo => Some("🔐 Запускаю вход…"@),
        ButtonView::LoginCancel => Some("Вход отменён."@),
        _ => None,
    }
}

pub fn replacement(b: &Button) -> (r: Option<String>)
    ensures
        opt_text(r) == replaced_by(b@),
{
    match b {
        Button::LoginGo => Some("🔐 Запускаю вход…".to_owned()),
        Button::LoginCancel => Some("Вход отменён.".to_owned()),
        _ => None,
    }
}

/// Every press is answered once: with a word of its own, or with what came of the change.
pub proof fn law_every_press_is_answered_once(projects: Seq<ProjectEntry>, b: ButtonView)
    ensures
        acknowledgement(b) is Some <==> change_answer(projects, b) is None,
{
}

/// A press on a button that changes no project leaves the registry as it is, and one that changes
/// a project leaves every other project as it is.
pub proof fn law_button_changes_one_project(projects: Seq<ProjectEntry>, b: ButtonView, j: int)
    requires
        0 <= j < projects.len(),
    ensures
        ({
            let after = projects_after_button(projects, b);
            let name = match b {
                ButtonView::Toggle(name) => Some(name),
                ButtonView::Bump(name, _) => Some(name),
                _ => None,
            };
            &&& after.len() == projects.len()
            &&& after[j] != projects[j] ==> name == Some(projects[j].name@)
            &&& after[j].name == projects[j].name && after[j].dir == projects[j].dir
            &&& !button_changes(projects, b) ==> after == projects
        }),
{
    match b {
        ButtonView::Toggle(name) => {
            lemma_place(projects, name, 0);
        },
        ButtonView::Bump(name, _) => {
            lemma_place(projects, name, 0);
        },
        _ => {},
    }
}

/// The projects after a command.
pub open spec fn projects_after_command(projects: Seq<ProjectEntry>, c: CommandView) -> Seq<
    ProjectEntry,
> {
    match c {
        CommandView::SetPaused(name, paused) => match place_from(projects, name, 0) {
            Some(k) => projects.update(k, ProjectEntry { paused, ..projects[k] }),
            None => projects,
        },
        CommandView::SetPriority(name, pr) => match place_from(projects, name, 0) {
            Some(k) => with_priority(projects, k, pr as int),
            None => projects,
        },
        _ => projects,
    }
}

/// What a command is answered that changes a project, gives up a login or only says something;
/// `waiting` tells whether a login waits for its code. `None` for a command that shows something.
pub open spec fn command_reply(
    projects: Seq<ProjectEntry>,
    c: CommandView,
    waiting: bool,
) -> Option<Seq<char>> {
    match c {
        CommandView::SetPaused(name, paused) => Some(
            match place_from(projects, name, 0) {
                Some(_) => paused_reply(name, paused),
                None => error_reply(not_found(name)),
            },
        ),
        CommandView::SetPriority(name, pr) => Some(
            match place_from(projects, name, 0) {
                Some(_) => priority_reply(name, pr as int),
                None => error_reply(not_found(name)),
            },
        ),
        CommandView::Cancel => Some(
            if waiting {
                "Вход отменён."@
            } else {
                "Отменять нечего."@
            },
        ),
        CommandView::Say(text) => Some(text),
        _ => None,
    }
}

/// Whether a command changes a project.
pub open spec fn command_changes(projects: Seq<ProjectEntry>, c: CommandView) -> bool {
    match c {
        CommandView::SetPaused(name, _) => place_from(projects, name, 0) is Some,
        CommandView::SetPriority(name, _) => place_from(projects, name, 0) is Some,
        _ => false,
    }
}

/// Changes the registry as a command asks, and gives the answer; `None` for a command that shows
/// something.
pub fn apply_command(reg: &mut Registry, c: &Command, waiting: bool) -> (r: Option<Answer>)
    ensures
        final(reg).projects@ == projects_after_command(old(reg).projects@, c@),
        answer_text(r) == command_reply(old(reg).projects@, c@, waiting),
        to_save(r) == command_changes(old(reg).projects@, c@),
{
    match c {
        Command::SetPaused(name, paused) => {
            let done = reg.set_paused(name.as_str(), *paused);
            Some(answer_to(done, paused_text(name.as_str(), *paused)))
        },
        Command::SetPriority(name, pr) => {
            let done = reg.set_priority(name.as_str(), *pr);
            Some(answer_to(done, priority_text(name.as_str(), *pr)))
        },
        Command::Cancel => if waiting {
            Some(Answer { text: "Вход отменён.".to_owned(), save: false })
        } else {
            Some(Answer { text: "Отменять нечего.".to_owned(), save: false })
        },
        Command::Say(text) => Some(Answer { text: text.clone(), save: false }),
        _ => None,
    }
}

/// Whether a command needs the registry to be read and written.
pub fn changes_registry(c: &Command) -> (r: bool)
    ensures
        r == (c@ is SetPaused || c@ is SetPriority),
        !r ==> forall|projects: Seq<ProjectEntry>| #[trigger]
            projects_after_command(projects, c@) == projects,
{
    match c {
        Command::SetPaused(_, _) => true,
        Command::SetPriority(_, _) => true,
        _ => false,
    }
}

/// Whether a button needs the registry to be read and written.
pub fn button_changes_registry(b: &Button) -> (r: bool)
    ensures
        r == (b@ is Toggle || b@ is Bump),
        !r ==> forall|projects: Seq<ProjectEntry>| #[trigger]
            projects_after_button(projects, b@) == projects,
{
    match b {
        Button::Toggle(_) => true,
        Button::Bump(_, _) => true,
        _ => false,
    }
}

/// A command that changes no project leaves the registry as it is, and one that changes a project
/// leaves every other project as it is.
pub proof fn law_command_changes_one_project(projects: Seq<ProjectEntry>, c: CommandView, j: int)
    requires
        0 <= j < projects.len(),
    ensures
        ({
            let after = projects_after_command(projects, c);
            let name = match c {
                CommandView::SetPaused(name, _) => Some(name),
                CommandView::SetPriority(name, _) => Some(name),
                _ => None,
            };
            &&& after.len() == projects.len()
            &&& after[j] != projects[j] ==> name == Some(projects[j].name@)
            &&& after[j].name == projects[j].name && after[j].dir == projects[j].dir
            &&& !command_changes(projects, c) ==> after == projects
        }),
{
    match c {
        CommandView::SetPaused(name, _) => {
            lemma_place(projects, name, 0);
        },
        CommandView::SetPriority(name, _) => {
            lemma_place(projects, name, 0);
        },
        _ => {},
    }
}

/// The button that lowers a priority undoes the one that raises it, and the other way round.
pub proof fn law_raising_and_lowering_undo_each_other(
    projects: Seq<ProjectEntry>,
    name: Seq<char>,
    delta: int,
)
    requires
        place_from(projects, name, 0) matches Some(k) ==> i64::MIN <= projects[k].priority + delta
            <= i64::MAX,
    ensures
        projects_after_button(
            projects_after_button(projects, ButtonView::Bump(name, delta)),
            ButtonView::Bump(name, -delta),
        ) == projects,
{
    let bumped = projects_after_button(projects, ButtonView::Bump(name, delta));
    lemma_place(projects, name, 0);
    lemma_place_by_names(projects, bumped, name, 0);
}

/// What is said while a code is checked.
pub fn checking_text() -> (r: String)
    ensures
        r@ == "⏳ Проверяю код…"@,
{
    "⏳ Проверяю код…".to_owned()
}

/// The last log of a project, as it is asked for.
#[derive(Debug)]
pub enum LogLookup {
    /// There is no such project.
    NoProject,
    /// The project has no log yet.
    NoLog,
    /// The name of the log and what it holds.
    Found(String, String),
}

/// What is said about the last log of a project: its last 30 lines, cut to their last 3500
/// characters.
pub fn logs_text(name: &str, log: &LogLookup) -> (r: String)
    ensures
        r@ == (match log {
            LogLookup::NoProject => "Проект «"@ + name@ + "» не найден"@,
            LogLookup::NoLog => "У «"@ + name@ + "» ещё нет логов сессий"@,
            LogLookup::Found(file, content) => "📜 "@ + name@ + " — "@ + file@ + ":\n\n"@
                + last_chars(tail_of(content@, 30), 3500),
        }),
{
    match log {
        LogLookup::NoProject => {
            let mut out = "Проект «".to_owned();
            out.append(name);
            out.append("» не найден");
            out
        },
        LogLookup::NoLog => {
            let mut out = "У «".to_owned();
            out.append(name);
            out.append("» ещё нет логов сессий");
            out
        },
        LogLookup::Found(file, content) => {
            let mut out = "📜 ".to_owned();
            out.append(name);
            out.append(" — ");
            out.append(file.as_str());
            out.append(":\n\n");
            let tail = tail_lines(content.as_str(), 30);
            out.append(keep_last(tail.as_str(), 3500).as_str());
            out
        },
    }
}

/// A text that may be missing, a dash where it is.
pub open spec fn or_dash(o: Option<String>) -> Seq<char> {
    match o {
        Some(s) => s@,
        None => "—"@,
    }
}

fn or_dash_of(o: &Option<String>) -> (r: &str)
    ensures
        r@ == or_dash(*o),
{
    match o {
        Some(s) => s.as_str(),
        None => "—",
    }
}

/// What is said about the account.
pub fn account_text(a: &Assistant, status: &Result<AuthStatus, String>) -> (r: String)
    ensures
        r@ == (match status {
            Ok(s) => if s.logged_in {
                "👤 Аккаунт "@ + a.title@ + "\nEmail: "@ + or_dash(s.email) + "\nОрганизация: "@
                    + or_dash(s.org_name) + "\nПодписка: "@ + or_dash(s.subscription)
                    + "\nМетод входа: "@ + or_dash(s.auth_method)
            } else {
                "❌ Не залогинен. Нажми «🔐 Войти» или пришли /login."@
            },
            Err(e) => "Ошибка `"@ + a.program@ + " auth status`: "@ + e@,
        }),
{
    match status {
        Ok(s) => {
            if s.logged_in {
                let mut out = "👤 Аккаунт ".to_owned();
                out.append(a.title.as_str());
                out.append("\nEmail: ");
                out.append(or_dash_of(&s.email));
                out.append("\nОрганизация: ");
                out.append(or_dash_of(&s.org_name));
                out.append("\nПодписка: ");
                out.append(or_dash_of(&s.subscription));
                out.append("\nМетод входа: ");
                out.append(or_dash_of(&s.auth_method));
                out
            } else {
                "❌ Не залогинен. Нажми «🔐 Войти» или пришли /login.".to_owned()
            }
        },
        Err(e) => {
            let mut out = "Ошибка `".to_owned();
            out.append(a.program.as_str());
            out.append(" auth status`: ");
            out.append(e.as_str());
            out
        },
    }
}

/// What is said about the limits, cut to 3800 characters.
pub fn usage_message(a: &Assistant, usage: &Result<String, String>) -> (r: String)
    ensures
        r@ == (match usage {
            Ok(text) => "📈 Лимиты "@ + a.name@ + "\n\n"@ + first_chars(text@, 3800),
            Err(e) => "Не удалось получить usage: "@ + e@,
        }),
{
    match usage {
        Ok(text) => {
            let mut out = "📈 Лимиты ".to_owned();
            out.append(a.name.as_str());
            out.append("\n\n");
            out.append(keep_first(text.as_str(), 3800).as_str());
            out
        },
        Err(e) => {
            let mut out = "Не удалось получить usage: ".to_owned();
            out.append(e.as_str());
            out
        },
    }
}

/// What is said when a login was begun.
pub fn login_started_text(start: &Result<String, String>) -> (r: String)
    ensures
        r@ == (match start {
            Ok(url) =>
                "🔗 Открой ссылку, авторизуйся и пришли мне код ответным сообщением (или /cancel):\n\n"@
                + url@,
            Err(e) => "Не удалось начать вход: "@ + e@,
        }),
{
    match start {
        Ok(url) => {
            let mut out =
                "🔗 Открой ссылку, авторизуйся и пришли мне код ответным сообщением (или /cancel):\n\n".to_owned();
            out.append(url.as_str());
            out
        },
        Err(e) => {
            let mut out = "Не удалось начать вход: ".to_owned();
            out.append(e.as_str());
            out
        },
    }
}

/// Who is logged in now, in a line of its own; nothing where it is not known.
pub open spec fn logged_in_as(status: Result<AuthStatus, String>) -> Seq<char> {
    match status {
        Ok(s) => match s.email {
            Some(email) => if s.logged_in {
                "\nТеперь залогинен как: "@ + email@
            } else {
                ""@
            },
            None => ""@,
        },
        Err(_) => ""@,
    }
}

/// What is said when a login ended.
pub fn login_finished_text(
    finish: &Result<String, String>,
    status: &Result<AuthStatus, String>,
) -> (r: String)
    ensures
        r@ == (match finish {
            Ok(rest) => "✅ Вход выполнен."@ + logged_in_as(*status) + (if rest@.len() == 0 {
                ""@
            } else {
                "\n\n"@ + rest@
            }),
            Err(e) => "❌ Вход не удался: "@ + e@,
        }),
{
    match finish {
        Ok(rest) => {
            let mut who = "".to_owned();
            if let Ok(s) = status {
                if s.logged_in {
                    if let Some(email) = &s.email {
                        who = "\nТеперь залогинен как: ".to_owned();
                        who.append(email.as_str());
                    }
                }
            }
            let mut out = "✅ Вход выполнен.".to_owned();
            out.append(who.as_str());
            if rest.as_str().is_empty() {
                out.append("");
            } else {
                let mut tail = "\n\n".to_owned();
                tail.append(rest.as_str());
                out.append(tail.as_str());
            }
            out
        },
        Err(e) => {
            let mut out = "❌ Вход не удался: ".to_owned();
            out.append(e.as_str());
            out
        },
    }
}

proof fn lemma_command_words()
    ensures
        "/start"@.len() == 6 && "/start"@[1] == 's',
        "/help"@.len() == 5 && "/help"@[1] == 'h',
        "/menu"@.len() == 5 && "/menu"@[1] == 'm',
        "/status"@.len() == 7 && "/status"@[1] == 's',
        "/whoami"@.len() == 7 && "/whoami"@[1] == 'w',
        "/account"@.len() == 8 && "/account"@[1] == 'a',
        "/usage"@.len() == 6 && "/usage"@[1] == 'u',
        "/login"@.len() == 6 && "/login"@[1] == 'l',
        "/cancel"@.len() == 7 && "/cancel"@[1] == 'c',
        "/logs"@.len() == 5 && "/logs"@[1] == 'l',
        "/pause"@.len() == 6 && "/pause"@[1] == 'p',
        "/resume"@.len() == 7 && "/resume"@[1] == 'r',
        "/priority"@.len() == 9 && "/priority"@[1] == 'p',
{
    reveal_strlit("/start");
    reveal_strlit("/help");
    reveal_strlit("/menu");
    reveal_strlit("/status");
    reveal_strlit("/whoami");
    reveal_strlit("/account");
    reveal_strlit("/usage");
    reveal_strlit("/login");
    reveal_strlit("/cancel");
    reveal_strlit("/logs");
    reveal_strlit("/pause");
    reveal_strlit("/resume");
    reveal_strlit("/priority");
}

/// A command is known by its first word, with or without the name of the bot behind an `@`.
pub proof fn law_commands_are_known_by_their_word(words: Seq<Seq<char>>)
    requires
        words.len() > 0,
    ensures
        ({
            let cmd = before(words[0], '@');
            let c = command_in(words);
            &&& cmd == "/start"@ || cmd == "/help"@ || cmd == "/menu"@ ==> c == CommandView::Help
            &&& cmd == "/status"@ ==> c == CommandView::Status
            &&& cmd == "/whoami"@ || cmd == "/account"@ ==> c == CommandView::Account
            &&& cmd == "/usage"@ ==> c == CommandView::Usage
            &&& cmd == "/login"@ ==> c == CommandView::Login
            &&& cmd == "/cancel"@ ==> c == CommandView::Cancel
        }),
{
    lemma_command_words();
}

/// A command on a project takes its name as the second word, and `/priority` the number as the
/// third; `/pause` pauses, `/resume` resumes, and without the words that it needs a command only
/// tells how it is used.
pub proof fn law_commands_take_the_project_behind_them(words: Seq<Seq<char>>)
    requires
        words.len() > 0,
    ensures
        ({
            let cmd = before(words[0], '@');
            let c = command_in(words);
            &&& cmd == "/logs"@ && words.len() > 1 ==> c == CommandView::Logs(words[1])
            &&& cmd == "/logs"@ && words.len() == 1 ==> c == CommandView::Say(
                "Использование: /logs <проект>"@,
            )
            &&& cmd == "/pause"@ && words.len() > 1 ==> c == CommandView::SetPaused(words[1], true)
            &&& cmd == "/resume"@ && words.len() > 1 ==> c == CommandView::SetPaused(
                words[1],
                false,
            )
            &&& (cmd == "/pause"@ || cmd == "/resume"@) && words.len() == 1 ==> c
                == CommandView::Say("Использование: "@ + cmd + " <проект>"@)
            &&& cmd == "/priority"@ && words.len() <= 2 ==> c == CommandView::Say(
                "Использование: /priority <проект> <число>"@,
            )
            &&& cmd == "/priority"@ && words.len() > 2 ==> (int_value(words[2]) matches Some(n)
                ==> (if i64::MIN <= n <= i64::MAX {
                c == CommandView::SetPriority(words[1], n as i64)
            } else {
                c == CommandView::Say("Приоритет должен быть числом"@)
            }))
            &&& cmd == "/priority"@ && words.len() > 2 && int_value(words[2]) is None ==> c
                == CommandView::Say("Приоритет должен быть числом"@)
        }),
{
    lemma_command_words();
}

/// What is no command is told not to be understood.
pub proof fn law_other_texts_are_not_understood(words: Seq<Seq<char>>)
    requires
        words.len() == 0 || !seq!["/start"@, "/help"@, "/menu"@, "/status"@, "/whoami"@, "/account"@, "/usage"@, "/login"@, "/cancel"@, "/logs"@, "/pause"@, "/resume"@, "/priority"@].contains(
            before(words[0], '@'),
        ),
    ensures
        command_in(words) == CommandView::Say("Не понял. /help — список команд."@),
{
    lemma_command_words();
    let known = seq!["/start"@, "/help"@, "/menu"@, "/status"@, "/whoami"@, "/account"@, "/usage"@, "/login"@, "/cancel"@, "/logs"@, "/pause"@, "/resume"@, "/priority"@];
    if words.len() > 0 {
        let cmd = before(words[0], '@');
        assert forall|i: int| 0 <= i < known.len() implies known[i] != cmd by {
            if known[i] == cmd {
                assert(known.contains(cmd));
            }
        }
        assert(known[0] == "/start"@);
        assert(known[1] == "/help"@);
        assert(known[2] == "/menu"@);
        assert(known[3] == "/status"@);
        assert(known[4] == "/whoami"@);
        assert(known[5] == "/account"@);
        assert(known[6] == "/usage"@);
        assert(known[7] == "/login"@);
        assert(known[8] == "/cancel"@);
        assert(known[9] == "/logs"@);
        assert(known[10] == "/pause"@);
        assert(known[11] == "/resume"@);
        assert(known[12] == "/priority"@);
    } else {
        reveal_strlit("");
        assert(""@.len() == 0);
    }
}

/// A chat controls the bot exactly where the configuration names it, at any place in the list.
pub proof fn law_named_chats_control(cfg: TelegramCfg, chat_id: i64, data: Seq<char>)
    ensures
        may_control(cfg, chat_id) <==> exists|i: int|
            0 <= i < cfg.allowed_chats@.len() && #[trigger] cfg.allowed_chats@[i] == chat_id,
        may_control(cfg, chat_id) ==> press(cfg, chat_id, data) == PressView::Obey(button_in(data)),
{
}

/// What a chat that controls the bot writes is obeyed as the command that its words make, unless it
/// is the code for a login: that is what the chat which began the login writes within ten minutes,
/// where it does not begin with a slash. A login that waited longer is given up first.
pub proof fn law_named_chat_is_obeyed(
    cfg: TelegramCfg,
    chat_id: i64,
    text: Seq<char>,
    pending: Option<PendingLogin>,
)
    requires
        may_control(cfg, chat_id),
        chat_id != 0,
        text.len() > 0,
    ensures
        ({
            let r = reaction(cfg, chat_id, text, pending);
            let c = command_in(words_of(text));
            let late = pending is Some && pending->0.elapsed > 600_000_000_000;
            &&& text[0] == '/' || pending is None ==> r == ReactionView::Obey(c, false)
            &&& text[0] != '/' && late ==> r == ReactionView::Obey(c, true)
            &&& text[0] != '/' && pending is Some && !late && pending->0.chat_id == chat_id ==> r
                == ReactionView::Code
            &&& text[0] != '/' && pending is Some && !late && pending->0.chat_id != chat_id ==> r
                == ReactionView::Obey(c, false)
        }),
{
    reveal_strlit("/");
    assert("/"@.len() == 1 && "/"@[0] == '/');
    if text[0] == '/' {
        assert(text.subrange(0, 1) =~= "/"@);
    } else {
        assert(text.subrange(0, 1)[0] != '/');
    }
}

/// What a chat is told that may not control the bot: its own id, and where to put it.
pub proof fn law_refusal_tells_the_id(chat_id: int)
    ensures
        refusal(chat_id) == "⛔ Не авторизован. Ваш chat id: "@ + dec(chat_id)
            + "\nДобавьте его в ~/.autopilot/config.yaml → telegram.allowed_chats и перезапустите демон (autopilot restart)."@,
        press_refusal() == "Не авторизован"@,
{
}

proof fn lemma_menu_words()
    ensures
        "m_status"@.len() == 8 && "m_status"@[0] == 'm' && "m_status"@[2] == 's',
        "m_account"@.len() == 9 && "m_account"@[0] == 'm' && "m_account"@[2] == 'a',
        "m_usage"@.len() == 7 && "m_usage"@[0] == 'm' && "m_usage"@[2] == 'u',
        "m_login"@.len() == 7 && "m_login"@[0] == 'm' && "m_login"@[2] == 'l',
        "login_go"@.len() == 8 && "login_go"@[0] == 'l' && "login_go"@[2] == 'g',
        "login_cancel"@.len() == 12 && "login_cancel"@[0] == 'l' && "login_cancel"@[2] == 'g',
{
    reveal_strlit("m_status");
    reveal_strlit("m_account");
    reveal_strlit("m_usage");
    reveal_strlit("m_login");
    reveal_strlit("login_go");
    reveal_strlit("login_cancel");
}

/// The buttons of the menus mean what their data says.
pub proof fn law_menu_buttons_are_understood()
    ensures
        button_in("m_status"@) == ButtonView::Status,
        button_in("m_account"@) == ButtonView::Account,
        button_in("m_usage"@) == ButtonView::Usage,
        button_in("m_login"@) == ButtonView::Login,
        button_in("login_go"@) == ButtonView::LoginGo,
        button_in("login_cancel"@) == ButtonView::LoginCancel,
        button_in("r|"@) == ButtonView::Redraw("Обновлено"@),
{
    lemma_menu_words();
    reveal_strlit("r|");
    reveal_strlit("r");
    reveal_strlit("t");
    reveal_strlit("u");
    reveal_strlit("d");
    reveal_strlit("l");
    let data = "r|"@;
    assert("t"@[0] == 't' && "u"@[0] == 'u' && "d"@[0] == 'd' && "l"@[0] == 'l' && "r"@[0] == 'r');
    assert(data =~= seq!['r'] + seq!['|'] + Seq::<char>::empty());
    assert(!seq!['r'].contains('|'));
    law_split_at_the_first_mark(seq!['r'], '|', Seq::empty());
    assert(seq!['r'] =~= "r"@);
}

/// Each button of the row of a project does what its sign shows: ⏸ and ▶️ toggle the project, 🔼
/// raises its priority by one, 🔽 lowers it by one, 📜 shows its log. The data of the four buttons
/// is returned.
pub proof fn law_row_buttons_do_what_they_show(p: ProjectEntry) -> (data: (
    Seq<char>,
    Seq<char>,
    Seq<char>,
    Seq<char>,
))
    ensures
        project_row(p) == "["@ + button_json(
            data.0,
            if p.paused {
                "▶️ "@ + p.name@
            } else {
                "⏸ "@ + p.name@
            },
        ) + ","@ + button_json(data.1, "🔼"@) + ","@ + button_json(data.2, "🔽"@) + ","@
            + button_json(data.3, "📜"@) + "]"@,
        button_in(data.0) == ButtonView::Toggle(p.name@),
        button_in(data.1) == ButtonView::Bump(p.name@, 1),
        button_in(data.2) == ButtonView::Bump(p.name@, -1),
        button_in(data.3) == ButtonView::Logs(p.name@),
{
    law_keyboard_buttons_are_understood(p.name@);
    ("t|"@ + p.name@, "u|"@ + p.name@, "d|"@ + p.name@, "l|"@ + p.name@)
}

/// A press changes the first project of that name and no other: a toggle turns its pause round, a
/// bump adds to its priority, and the answer tells the state that the project has then. Where no
/// project has the name, nothing changes, and that is the answer.
pub proof fn law_press_changes_the_named_project(
    projects: Seq<ProjectEntry>,
    name: Seq<char>,
    delta: int,
    k: int,
)
    requires
        0 <= k <= projects.len(),
        forall|j: int| 0 <= j < k ==> (#[trigger] projects[j]).name@ != name,
        k < projects.len() ==> projects[k].name@ == name && i64::MIN <= projects[k].priority + delta
            <= i64::MAX,
    ensures
        ({
            let toggle = ButtonView::Toggle(name);
            let bump = ButtonView::Bump(name, delta);
            let t = projects_after_button(projects, toggle);
            let b = projects_after_button(projects, bump);
            if k < projects.len() {
                &&& t == projects.update(
                    k,
                    ProjectEntry { paused: !projects[k].paused, ..projects[k] },
                )
                &&& b.len() == projects.len()
                &&& b[k].priority == projects[k].priority + delta
                &&& b[k].paused == projects[k].paused
                &&& b[k].name == projects[k].name && b[k].dir == projects[k].dir
                &&& forall|j: int| 0 <= j < projects.len() && j != k ==> #[trigger] b[j]
                    == projects[j]
                &&& t[k].paused ==> change_answer(projects, toggle) == Some(
                    "⏸ "@ + name + " на паузе"@,
                )
                &&& !t[k].paused ==> change_answer(projects, toggle) == Some(
                    "▶️ "@ + name + " возобновлён"@,
                )
                &&& change_answer(projects, bump) == Some(
                    "Приоритет "@ + name + " = "@ + dec(b[k].priority as int),
                )
                &&& button_changes(projects, toggle) && button_changes(projects, bump)
            } else {
                &&& t == projects && b == projects
                &&& change_answer(projects, toggle) == Some("Ошибка: "@ + not_found(name))
                &&& change_answer(projects, bump) == Some("Ошибка: "@ + not_found(name))
                &&& !button_changes(projects, toggle) && !button_changes(projects, bump)
            }
        }),
{
    lemma_place(projects, name, 0);
    if let Some(m) = place_from(projects, name, 0) {
        assert(projects[m].name@ == name);
    }
    if k < projects.len() {
        assert(projects[k].name@ == name);
        assert(place_from(projects, name, 0) == Some(k));
    }
}

/// A command changes the first project of that name and no other: it is then paused or not as the
/// command says, or has the priority that it gives, and the answer tells that. Where no project has
/// the name, nothing changes, and that is the answer.
pub proof fn law_command_changes_the_named_project(
    projects: Seq<ProjectEntry>,
    name: Seq<char>,
    paused: bool,
    pr: i64,
    waiting: bool,
    k: int,
)
    requires
        0 <= k <= projects.len(),
        forall|j: int| 0 <= j < k ==> (#[trigger] projects[j]).name@ != name,
        k < projects.len() ==> projects[k].name@ == name,
    ensures
        ({
            let pause = CommandView::SetPaused(name, paused);
            let rank = CommandView::SetPriority(name, pr);
            let a = projects_after_command(projects, pause);
            let b = projects_after_command(projects, rank);
            if k < projects.len() {
                &&& a == projects.update(k, ProjectEntry { paused, ..projects[k] })
                &&& b == projects.update(k, ProjectEntry { priority: pr, ..projects[k] })
                &&& paused ==> command_reply(projects, pause, waiting) == Some(
                    "⏸ Приостановлен"@ + " "@ + name,
                )
                &&& !paused ==> command_reply(projects, pause, waiting) == Some(
                    "▶️ Возобновлён"@ + " "@ + name,
                )
                &&& command_reply(projects, rank, waiting) == Some(
                    "Приоритет "@ + name + " = "@ + dec(pr as int),
                )
                &&& command_changes(projects, pause) && command_changes(projects, rank)
            } else {
                &&& a == projects && b == projects
                &&& command_reply(projects, pause, waiting) == Some("Ошибка: "@ + not_found(name))
                &&& command_reply(projects, rank, waiting) == Some("Ошибка: "@ + not_found(name))
                &&& !command_changes(projects, pause) && !command_changes(projects, rank)
            }
        }),
{
    lemma_place(projects, name, 0);
    if let Some(m) = place_from(projects, name, 0) {
        assert(projects[m].name@ == name);
    }
    if k < projects.len() {
        assert(projects[k].name@ == name);
        assert(place_from(projects, name, 0) == Some(k));
    }
}

/// Every other command and every other button leaves the projects as they are; what they answer.
pub proof fn law_other_answers(projects: Seq<ProjectEntry>, text: Seq<char>, name: Seq<char>)
    ensures
        command_reply(projects, CommandView::Cancel, true) == Some("Вход отменён."@),
        command_reply(projects, CommandView::Cancel, false) == Some("Отменять нечего."@),
        command_reply(projects, CommandView::Say(text), true) == Some(text),
        command_reply(projects, CommandView::Say(text), false) == Some(text),
        projects_after_command(projects, CommandView::Cancel) == projects,
        projects_after_command(projects, CommandView::Say(text)) == projects,
        projects_after_command(projects, CommandView::Status) == projects,
        projects_after_command(projects, CommandView::Help) == projects,
        projects_after_command(projects, CommandView::Logs(name)) == projects,
        projects_after_button(projects, ButtonView::Status) == projects,
        projects_after_button(projects, ButtonView::Redraw(text)) == projects,
        projects_after_button(projects, ButtonView::Logs(name)) == projects,
        projects_after_button(projects, ButtonView::LoginGo) == projects,
        projects_after_button(projects, ButtonView::LoginCancel) == projects,
        acknowledgement(ButtonView::Status) == Some("Статус"@),
        acknowledgement(ButtonView::Account) == Some("Аккаунт"@),
        acknowledgement(ButtonView::Usage) == Some("Usage…"@),
        acknowledgement(ButtonView::Login) == Some("Вход"@),
        acknowledgement(ButtonView::LoginGo) == Some("Запускаю…"@),
        acknowledgement(ButtonView::LoginCancel) == Some("Отменено"@),
        acknowledgement(ButtonView::Logs(name)) == Some("Логи…"@),
        acknowledgement(ButtonView::Redraw(text)) == Some(text),
        replaced_by(ButtonView::LoginGo) == Some("🔐 Запускаю вход…"@),
        replaced_by(ButtonView::LoginCancel) == Some("Вход отменён."@),
        replaced_by(ButtonView::Status) is None,
        replaced_by(ButtonView::Toggle(name)) is None,
        replaced_by(ButtonView::Redraw(text)) is None,
        redrawn(ButtonView::Redraw(text)),
        redrawn(ButtonView::Toggle(name)),
        redrawn(ButtonView::Bump(name, 1)) && redrawn(ButtonView::Bump(name, -1)),
        !redrawn(ButtonView::Status) && !redrawn(ButtonView::Account) && !redrawn(
            ButtonView::Usage,
        ) && !redrawn(ButtonView::Login) && !redrawn(ButtonView::LoginGo) && !redrawn(
            ButtonView::LoginCancel,
        ) && !redrawn(ButtonView::Logs(name)),
{
}

proof fn lemma_rows_by_front(a: Seq<ProjectEntry>, b: Seq<ProjectEntry>, n: int)
    requires
        0 <= n <= a.len(),
        n <= b.len(),
        forall|i: int| 0 <= i < n ==> a[i] == b[i],
    ensures
        project_rows(a, n) == project_rows(b, n),
    decreases n,
{
    if n > 0 {
        lemma_rows_by_front(a, b, n - 1);
    }
}

/// The keyboard has a row for every project, in the order in which the projects are looked at, and
/// a last one to draw the status anew.
pub proof fn law_keyboard_has_a_row_for_every_project(
    projects: Seq<ProjectEntry>,
    s: Seq<ProjectEntry>,
    p: ProjectEntry,
)
    ensures
        project_rows(s, 0) == Seq::<char>::empty(),
        project_rows(s.push(p), s.len() as int + 1) == project_rows(s, s.len() as int)
            + project_row(p) + ","@,
        keyboard_json(projects) == "{\"inline_keyboard\":["@ + project_rows(
            scanned(projects),
            scanned(projects).len() as int,
        ) + "["@ + button_json("r|"@, "🔄 Обновить"@) + "]]}"@,
{
    lemma_rows_by_front(s.push(p), s, s.len() as int);
}

/// A button carries its data and shows its text; the buttons of the two menus with what they show.
pub proof fn law_menus_show_their_buttons(data: Seq<char>, text: Seq<char>)
    ensures
        button_json(data, text) == "{\"callback_data\":"@ + json_text(data) + ",\"text\":"@
            + json_text(text) + "}"@,
        menu_json() == "{\"inline_keyboard\":[["@ + button_json("m_status"@, "📊 Статус"@) + ","@
            + button_json("m_account"@, "👤 Аккаунт"@) + "],["@ + button_json(
            "m_usage"@,
            "📈 Usage"@,
        ) + ","@ + button_json("m_login"@, "🔐 Войти"@) + "]]}"@,
        confirm_json() == "{\"inline_keyboard\":[["@ + button_json(
            "login_go"@,
            "✅ Да, войти"@,
        ) + ","@ + button_json("login_cancel"@, "Отмена"@) + "]]}"@,
        command_json(data, text) == "{\"command\":"@ + json_text(data) + ",\"description\":"@
            + json_text(text) + "}"@,
{
}

/// A message goes to its chat with its text, and with a keyboard exactly where it has one.
pub proof fn law_messages_as_they_are_sent(chat_id: int, text: Seq<char>, kb: Seq<char>)
    ensures
        message_body(chat_id, text, None) == "{\"chat_id\":"@ + dec(chat_id) + ",\"text\":"@
            + json_text(text) + "}"@,
        message_body(chat_id, text, Some(kb)) == "{\"chat_id\":"@ + dec(chat_id)
            + ",\"reply_markup\":"@ + kb + ",\"text\":"@ + json_text(text) + "}"@,
        markup(None) == Seq::<char>::empty(),
        markup(Some(kb)) == ",\"reply_markup\":"@ + kb,
{
    reveal_strlit("");
    assert(""@ =~= Seq::<char>::empty());
    let head = "{\"chat_id\":"@ + dec(chat_id);
    assert(head + ""@ =~= head);
    assert(head + (",\"reply_markup\":"@ + kb) =~= head + ",\"reply_markup\":"@ + kb);
}

/// An update is read by its own place in the reply; what is missing there counts as zero, as an
/// empty text, or as not there.
pub proof fn law_updates_are_read_at_their_place(i: int, rest: Seq<char>, reply: Seq<u8>, p: Seq<char>)
    ensures
        update_pointer(i, rest) == "/result/"@ + dec(i) + rest,
        json_int(reply, p) matches Some(n) ==> int_or_zero(reply, p) == n,
        json_int(reply, p) is None ==> int_or_zero(reply, p) == 0,
        json_str(reply, p) matches Some(t) ==> text_or_empty(reply, p) == t,
        json_str(reply, p) is None ==> text_or_empty(reply, p).len() == 0,
        stands(reply, p) <==> json_null(reply, p) is Some && !json_null(reply, p)->0,
{
    reveal_strlit("");
    assert(""@.len() == 0);
}

/// What is not known of an account is shown as a dash; who is logged in is told only where somebody
/// is and has an address.
pub proof fn law_account_as_far_as_known(o: Option<String>, status: Result<AuthStatus, String>)
    ensures
        o matches Some(t) ==> or_dash(o) == t@,
        o is None ==> or_dash(o) == "—"@,
        status matches Ok(s) ==> (s.logged_in && s.email is Some ==> logged_in_as(status)
            == "\nТеперь залогинен как: "@ + s.email->0@),
        status matches Ok(s) ==> (!s.logged_in || s.email is None ==> logged_in_as(status)
            == Seq::<char>::empty()),
        status is Err ==> logged_in_as(status) == Seq::<char>::empty(),
{
    reveal_strlit("");
    assert(""@ =~= Seq::<char>::empty());
}

/// The help names the assistant and every command.
pub proof fn law_help_names_the_assistant(a: Assistant)
    ensures
        help(a)
            == "Автопилот — управление с телефона.\n\nКнопки меню ниже или команды:\n/status — статус демона и проектов (с кнопками)\n/account — аккаунт "@
            + a.title@ + " (кто залогинен, подписка)\n/usage — лимиты "@ + a.name@
            + " в процентах\n/login — войти в аккаунт "@ + a.name@
            + " (пришлёт ссылку)\n/logs <проект> — хвост последнего лога сессии\n/pause <проект> | /resume <проект>\n/priority <проект> <число>\nКнопки проектов: ⏯ пауза, 🔼/🔽 приоритет, 📜 логи."@,
{
}

/// Commands, buttons, reactions and answers stand for their own texts and numbers.
pub proof fn law_views_of_what_the_bot_does(s: String, paused: bool, n: i64, c: Command, b: Button, a: Answer)
    ensures
        Command::Help@ == CommandView::Help,
        Command::Status@ == CommandView::Status,
        Command::Account@ == CommandView::Account,
        Command::Usage@ == CommandView::Usage,
        Command::Login@ == CommandView::Login,
        Command::Cancel@ == CommandView::Cancel,
        Command::Logs(s)@ == CommandView::Logs(s@),
        Command::SetPaused(s, paused)@ == CommandView::SetPaused(s@, paused),
        Command::SetPriority(s, n)@ == CommandView::SetPriority(s@, n),
        Command::Say(s)@ == CommandView::Say(s@),
        Button::Status@ == ButtonView::Status,
        Button::Account@ == ButtonView::Account,
        Button::Usage@ == ButtonView::Usage,
        Button::Login@ == ButtonView::Login,
        Button::LoginGo@ == ButtonView::LoginGo,
        Button::LoginCancel@ == ButtonView::LoginCancel,
        Button::Toggle(s)@ == ButtonView::Toggle(s@),
        Button::Bump(s, n)@ == ButtonView::Bump(s@, n as int),
        Button::Logs(s)@ == ButtonView::Logs(s@),
        Button::Redraw(s)@ == ButtonView::Redraw(s@),
        Reaction::Nothing@ == ReactionView::Nothing,
        Reaction::Refuse(s)@ == ReactionView::Refuse(s@),
        Reaction::Code@ == ReactionView::Code,
        Reaction::Obey(c, paused)@ == ReactionView::Obey(c@, paused),
        Press::Refuse(s)@ == PressView::Refuse(s@),
        Press::Obey(b)@ == PressView::Obey(b@),
        answer_text(Some(a)) == Some(a.text@) && answer_text(None) is None,
        to_save(Some(a)) == a.save && !to_save(None),
{
}

/// A button stays within range exactly where the priority that it would give does.
pub proof fn law_buttons_within_range(reg: Registry, name: Seq<char>, delta: int, b: ButtonView)
    ensures
        !(b is Bump) ==> button_in_range(reg, b),
        place_from(reg.projects@, name, 0) is None ==> button_in_range(
            reg,
            ButtonView::Bump(name, delta),
        ),
        place_from(reg.projects@, name, 0) matches Some(k) ==> (button_in_range(
            reg,
            ButtonView::Bump(name, delta),
        ) <==> i64::MIN <= reg.projects@[k].priority + delta <= i64::MAX),
        replaced_by(b) is Some <==> b is LoginGo || b is LoginCancel,
        redrawn(b) <==> b is Toggle || b is Bump || b is Redraw,
{
}

/// A message without a chat or without a text is ignored, whoever sent it.
pub proof fn law_empty_messages_are_ignored(
    cfg: TelegramCfg,
    chat_id: i64,
    text: Seq<char>,
    pending: Option<PendingLogin>,
)
    requires
        chat_id == 0 || text.len() == 0,
    ensures
        reaction(cfg, chat_id, text, pending) == ReactionView::Nothing,
{
}

/// A login waits for its code for ten minutes, and for the chat that began it alone.
pub proof fn law_login_waits_for_its_chat(p: PendingLogin, chat_id: i64)
    ensures
        claim(None, chat_id) == Claim::Leave,
        p.elapsed > 600_000_000_000 ==> claim(Some(p), chat_id) == Claim::Abort,
        p.elapsed <= 600_000_000_000 && p.chat_id == chat_id ==> claim(Some(p), chat_id)
            == Claim::Take,
        p.elapsed <= 600_000_000_000 && p.chat_id != chat_id ==> claim(Some(p), chat_id)
            == Claim::Leave,
{
}

/// A button whose data is of no kind that is known only draws the status anew, and says so.
pub proof fn law_unknown_buttons_only_redraw(op: char, name: Seq<char>)
    requires
        op != '|',
        op != 't' && op != 'u' && op != 'd' && op != 'l' && op != 'r',
    ensures
        button_in(seq![op] + seq!['|'] + name) == ButtonView::Redraw("Неизвестная кнопка"@),
{
    lemma_menu_words();
    reveal_strlit("m_status");
    reveal_strlit("m_account");
    reveal_strlit("m_usage");
    reveal_strlit("m_login");
    reveal_strlit("login_go");
    reveal_strlit("login_cancel");
    reveal_strlit("t");
    reveal_strlit("u");
    reveal_strlit("d");
    reveal_strlit("l");
    reveal_strlit("r");
    let data = seq![op] + seq!['|'] + name;
    assert(data[1] == '|');
    assert("m_status"@[1] == '_' && "m_account"@[1] == '_' && "m_usage"@[1] == '_'
        && "m_login"@[1] == '_' && "login_go"@[1] == 'o' && "login_cancel"@[1] == 'o');
    assert("t"@[0] == 't' && "u"@[0] == 'u' && "d"@[0] == 'd' && "l"@[0] == 'l' && "r"@[0] == 'r');
    assert(!seq![op].contains('|'));
    law_split_at_the_first_mark(seq![op], '|', name);
    assert(seq![op][0] == op);
}

} // verus!
