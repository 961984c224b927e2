//! The settings of one project: accounts, section names, messages.

use crate::model::ApiError;
use crate::outside::{lowercase, to_lowercase};
use crate::paths::{join, path_in};
use crate::text::{
    ascii_lower, ascii_lowered, eq_ignore_ascii_case, has_text, list_has, opt_text, stands_at,
    text_eq, texts, trim, trimmed, white_space,
};
use vstd::prelude::*;
use vstd::string::*;

verus! {

/// `autopilot.yaml` as it is written.
#[derive(Debug)]
pub struct RawSettings {
    pub asana: RawAsana,
    pub roles: RawRoles,
    /// A role and the names of its section.
    pub sections: Vec<(String, RawNames)>,
    pub approved: Vec<String>,
    pub heuristics: RawHeuristics,
    pub prompt_file: String,
    pub mismatch_comment: Option<String>,
}

#[derive(Debug)]
pub struct RawAsana {
    pub token_env: String,
    pub workspace: String,
}

#[derive(Debug)]
pub struct RawRoles {
    pub operator: RawOperator,
    pub agent: RawAgent,
}

#[derive(Debug)]
pub struct RawOperator {
    pub gid: String,
    pub label: String,
}

#[derive(Debug)]
pub struct RawAgent {
    pub gid: String,
    /// The name under which Asana shows the account.
    pub name: String,
    pub label: String,
}

#[derive(Debug)]
pub struct RawHeuristics {
    pub manual_keywords: Vec<String>,
    pub comment_language: String,
}

/// One name of a section, or several.
#[derive(Debug)]
pub enum RawNames {
    One(String),
    Many(Vec<String>),
}

impl RawNames {
    pub open spec fn names(&self) -> Seq<Seq<char>> {
        match self {
            RawNames::One(s) => seq![s@],
            RawNames::Many(v) => texts(v@),
        }
    }
}

pub fn default_token_env() -> (r: String)
    ensures
        r@ == "ASANA_ACCESS_TOKEN"@,
{
    "ASANA_ACCESS_TOKEN".to_owned()
}

pub fn default_operator_label() -> (r: String)
    ensures
        r@ == "operator"@,
{
    "operator".to_owned()
}

pub fn default_agent_label() -> (r: String)
    ensures
        r@ == "agent"@,
{
    "agent".to_owned()
}

pub fn default_language() -> (r: String)
    ensures
        r@ == "en"@,
{
    "en".to_owned()
}

pub fn default_prompt_file() -> (r: String)
    ensures
        r@ == "prompt.md"@,
{
    "prompt.md".to_owned()
}

/// The settings of one project, ready for use.
#[derive(Debug, Clone)]
pub struct Settings {
    pub token: String,
    pub workspace: String,
    pub operator_gid: String,
    pub operator_label: String,
    pub agent_gid: String,
    pub agent_name: String,
    pub agent_label: String,
    /// A role and the names of its section, in lower case.
    pub sections: Vec<(String, Vec<String>)>,
    /// The roles from whose sections tasks are taken.
    pub approved: Vec<String>,
    pub manual_keywords: Vec<String>,
    pub comment_language: String,
    pub prompt_file: String,
    pub mismatch_comment: Option<String>,
}

/// A directory on the way up from the current one, and whether the settings lie in it: in its
/// subdirectory `autopilot`, or in itself.
#[derive(Debug)]
pub struct DirProbe {
    pub dir: String,
    pub nested: bool,
    pub flat: bool,
}

/// The name of a section as it is compared: without outer white space, in lower case.
pub open spec fn section_key(name: Seq<char>) -> Seq<char> {
    lowercase(trimmed(name))
}

pub open spec fn section_keys(names: Seq<Seq<char>>) -> Seq<Seq<char>> {
    names.map_values(|n: Seq<char>| section_key(n))
}

pub open spec fn lowered(words: Seq<Seq<char>>) -> Seq<Seq<char>> {
    words.map_values(|w: Seq<char>| lowercase(w))
}

/// The role of the first entry, from `i` on, that holds the section name `key`.
pub open spec fn role_from(sections: Seq<(String, Vec<String>)>, key: Seq<char>, i: int) -> Option<
    Seq<char>,
>
    decreases sections.len() - i,
{
    if i < 0 || i >= sections.len() {
        None
    } else if texts(sections[i].1@).contains(key) {
        Some(sections[i].0@)
    } else {
        role_from(sections, key, i + 1)
    }
}

/// The section names of the first entry, from `i` on, for the role.
pub open spec fn names_from(sections: Seq<(String, Vec<String>)>, role: Seq<char>, i: int) -> Option<
    Seq<Seq<char>>,
>
    decreases sections.len() - i,
{
    if i < 0 || i >= sections.len() {
        None
    } else if sections[i].0@ == role {
        Some(texts(sections[i].1@))
    } else {
        names_from(sections, role, i + 1)
    }
}

/// The directory of the first probe, from `i` on, that has settings.
pub open spec fn settings_dir(probes: Seq<DirProbe>, i: int) -> Option<Seq<char>>
    decreases probes.len() - i,
{
    if i < 0 || i >= probes.len() {
        None
    } else if probes[i].nested {
        Some(path_in(probes[i].dir@, "autopilot"@))
    } else if probes[i].flat {
        Some(probes[i].dir@)
    } else {
        settings_dir(probes, i + 1)
    }
}

fn section_key_of(name: &str) -> (r: String)
    ensures
        r@ == section_key(name@),
{
    to_lowercase(trim(name))
}

fn section_keys_of(list: &Vec<String>) -> (r: Vec<String>)
    ensures
        texts(r@) == section_keys(texts(list@)),
{
    let mut out: Vec<String> = Vec::new();
    let mut i: usize = 0;
    while i < list.len()
        invariant
            i <= list@.len(),
            texts(out@) == section_keys(texts(list@)).take(i as int),
        decreases list@.len() - i,
    {
        let ghost before = texts(out@);
        out.push(section_key_of(list[i].as_str()));
        assert(texts(out@) =~= before.push(section_key(list@[i as int]@)));
        i += 1;
    }
    assert(texts(out@) =~= section_keys(texts(list@)));
    out
}

fn lowered_words(list: &Vec<String>) -> (r: Vec<String>)
    ensures
        texts(r@) == lowered(texts(list@)),
{
    let mut out: Vec<String> = Vec::new();
    let mut i: usize = 0;
    while i < list.len()
        invariant
            i <= list@.len(),
            texts(out@) == lowered(texts(list@)).take(i as int),
        decreases list@.len() - i,
    {
        let ghost before = texts(out@);
        out.push(to_lowercase(list[i].as_str()));
        assert(texts(out@) =~= before.push(lowercase(list@[i as int]@)));
        i += 1;
    }
    assert(texts(out@) =~= lowered(texts(list@)));
    out
}

/// Whether an entry of the settings stands for an entry of the file: the same role, the names as
/// they are compared.
pub open spec fn same_section(entry: (String, Vec<String>), raw: (String, RawNames)) -> bool {
    entry.0@ == raw.0@ && texts(entry.1@) == section_keys(raw.1.names())
}

/// Whether no role has two entries.
pub open spec fn roles_once<T>(sections: Seq<(String, T)>) -> bool {
    forall|i: int, j: int|
        0 <= i < j < sections.len() ==> (#[trigger] sections[i]).0@ != (#[trigger] sections[j]).0@
}

impl Settings {
    /// Where the settings lie: the directory that the environment names, else the first of the
    /// current directory and its parents that has them.
    pub fn find_dir(env_dir: Option<String>, probes: &Vec<DirProbe>) -> (r: Result<
        String,
        ApiError,
    >)
        ensures
            match r {
                Ok(dir) => match env_dir {
                    Some(d) => dir@ == d@,
                    None => settings_dir(probes@, 0) == Some(dir@),
                },
                Err(e) => env_dir is None && settings_dir(probes@, 0) is None && e.0@
                    == "autopilot.yaml не найден: запусти команду из каталога проекта (где есть autopilot/autopilot.yaml) или задай AUTOPILOT_DIR"@,
            },
    {
        if let Some(d) = env_dir {
            return Ok(d);
        }
        let mut i: usize = 0;
        while i < probes.len()
            invariant
                i <= probes@.len(),
                env_dir is None,
                settings_dir(probes@, 0) == settings_dir(probes@, i as int),
            decreases probes@.len() - i,
        {
            let probe = &probes[i];
            if probe.nested {
                return Ok(join(probe.dir.as_str(), "autopilot"));
            }
            if probe.flat {
                return Ok(probe.dir.clone());
            }
            i += 1;
        }
        Err(
            ApiError(
                "autopilot.yaml не найден: запусти команду из каталога проекта (где есть autopilot/autopilot.yaml) или задай AUTOPILOT_DIR".to_owned(),
            ),
        )
    }

    /// The settings that a parsed file and the token from the environment make. Without the token
    /// there are none.
    pub fn load_from(rs: RawSettings, token: Option<String>) -> (r: Result<Settings, ApiError>)
        ensures
            match (r, token) {
                (Ok(s), Some(t)) => {
                    &&& s.token@ == t@
                    &&& s.workspace@ == rs.asana.workspace@
                    &&& s.operator_gid@ == rs.roles.operator.gid@
                    &&& s.operator_label@ == rs.roles.operator.label@
                    &&& s.agent_gid@ == rs.roles.agent.gid@
                    &&& s.agent_name@ == rs.roles.agent.name@
                    &&& s.agent_label@ == rs.roles.agent.label@
                    &&& s.sections@.len() == rs.sections@.len()
                    &&& forall|i: int|
                        0 <= i < s.sections@.len() ==> #[trigger] same_section(
                            s.sections@[i],
                            rs.sections@[i],
                        )
                    &&& roles_once(rs.sections@) ==> roles_once(s.sections@)
                    &&& texts(s.approved@) == texts(rs.approved@)
                    &&& texts(s.manual_keywords@) == lowered(texts(rs.heuristics.manual_keywords@))
                    &&& s.comment_language@ == rs.heuristics.comment_language@
                    &&& s.prompt_file@ == rs.prompt_file@
                    &&& opt_text(s.mismatch_comment) == opt_text(rs.mismatch_comment)
                },
                (Err(e), None) => e.0@ == "переменная окружения "@ + rs.asana.token_env@
                    + " не задана (Asana-токен)"@,
                _ => false,
            },
    {
        let token = match token {
            Some(t) => t,
            None => {
                let mut msg = "переменная окружения ".to_owned();
                msg.append(rs.asana.token_env.as_str());
                msg.append(" не задана (Asana-токен)");
                return Err(ApiError(msg));
            },
        };
        let mut sections: Vec<(String, Vec<String>)> = Vec::new();
        let mut i: usize = 0;
        while i < rs.sections.len()
            invariant
                i <= rs.sections@.len(),
                sections@.len() == i,
                forall|j: int|
                    0 <= j < i ==> #[trigger] same_section(sections@[j], rs.sections@[j]),
            decreases rs.sections@.len() - i,
        {
            let (role, names) = &rs.sections[i];
            let keys = match names {
                RawNames::One(s) => {
                    let mut v: Vec<String> = Vec::new();
                    v.push(section_key_of(s.as_str()));
                    assert(texts(v@) =~= section_keys(seq![s@]));
                    v
                },
                RawNames::Many(list) => section_keys_of(list),
            };
            sections.push((role.clone(), keys));
            assert(same_section(sections@[i as int], rs.sections@[i as int]));
            i += 1;
        }
        proof {
            if roles_once(rs.sections@) {
                assert forall|a: int, b: int| 0 <= a < b < sections@.len() implies (
                #[trigger] sections@[a]).0@ != (#[trigger] sections@[b]).0@ by {
                    assert(same_section(sections@[a], rs.sections@[a]));
                    assert(same_section(sections@[b], rs.sections@[b]));
                }
            }
        }
        let manual_keywords = lowered_words(&rs.heuristics.manual_keywords);
        Ok(
            Settings {
                token,
                workspace: rs.asana.workspace,
                operator_gid: rs.roles.operator.gid,
                operator_label: rs.roles.operator.label,
                agent_gid: rs.roles.agent.gid,
                agent_name: rs.roles.agent.name,
                agent_label: rs.roles.agent.label,
                sections,
                approved: rs.approved,
                manual_keywords,
                comment_language: rs.heuristics.comment_language,
                prompt_file: rs.prompt_file,
                mismatch_comment: rs.mismatch_comment,
            },
        )
    }

    /// The role of a section, by its name.
    pub open spec fn role_of(&self, name: Seq<char>) -> Option<Seq<char>> {
        role_from(self.sections@, section_key(name), 0)
    }

    /// The role of a section, by its name in any case.
    pub fn role_of_section_name(&self, name: &str) -> (r: Option<&str>)
        ensures
            match r {
                Some(role) => self.role_of(name@) == Some(role@),
                None => self.role_of(name@) is None,
            },
    {
        let key = section_key_of(name);
        let mut i: usize = 0;
        while i < self.sections.len()
            invariant
                i <= self.sections@.len(),
                key@ == section_key(name@),
                self.role_of(name@) == role_from(self.sections@, key@, i as int),
            decreases self.sections@.len() - i,
        {
            let (role, names) = &self.sections[i];
            if list_has(names, key.as_str()) {
                return Some(role.as_str());
            }
            i += 1;
        }
        None
    }

    /// The names that the section of a role may have.
    pub open spec fn names_of(&self, role: Seq<char>) -> Option<Seq<Seq<char>>> {
        names_from(self.sections@, role, 0)
    }

    /// The names that the section of a role may have.
    pub fn section_names(&self, role: &str) -> (r: Option<&Vec<String>>)
        ensures
            match r {
                Some(names) => self.names_of(role@) == Some(texts(names@)),
                None => self.names_of(role@) is None,
            },
    {
        let mut i: usize = 0;
        while i < self.sections.len()
            invariant
                i <= self.sections@.len(),
                self.names_of(role@) == names_from(self.sections@, role@, i as int),
            decreases self.sections@.len() - i,
        {
            let (r, names) = &self.sections[i];
            if text_eq(r.as_str(), role) {
                return Some(names);
            }
            i += 1;
        }
        None
    }

    pub open spec fn approves(&self, role: Seq<char>) -> bool {
        texts(self.approved@).contains(role)
    }

    /// Whether tasks are taken from sections of this role.
    pub fn is_approved(&self, role: &str) -> (r: bool)
        ensures
            r == self.approves(role@),
    {
        list_has(&self.approved, role)
    }

    pub open spec fn russian(&self) -> bool {
        ascii_lowered(self.comment_language@) == ascii_lowered("ru"@)
    }

    /// Whether comments are written in Russian.
    pub fn is_russian(&self) -> (r: bool)
        ensures
            r == self.russian(),
    {
        eq_ignore_ascii_case(self.comment_language.as_str(), "ru")
    }

    pub open spec fn manual_text(&self) -> Seq<char> {
        if self.russian() {
            "Автопилот: в описании упомянуты ручные действия (доступы/оплата/аккаунт/устройства), перевожу в blocked до вмешательства оператора."@
        } else {
            "Autopilot: the description mentions manual actions (access/payment/account/devices); moving to blocked until the operator steps in."@
        }
    }

    /// The comment on a task that seems to ask for manual actions.
    pub fn msg_manual(&self) -> (r: &'static str)
        ensures
            r@ == self.manual_text(),
    {
        if self.is_russian() {
            "Автопилот: в описании упомянуты ручные действия (доступы/оплата/аккаунт/устройства), перевожу в blocked до вмешательства оператора."
        } else {
            "Autopilot: the description mentions manual actions (access/payment/account/devices); moving to blocked until the operator steps in."
        }
    }

    pub open spec fn marker_text(&self) -> Seq<char> {
        if self.russian() {
            "упомянуты ручные действия"@
        } else {
            "mentions manual actions"@
        }
    }

    /// The part of the comment on manual actions by which it is found again.
    pub fn manual_marker(&self) -> (r: &'static str)
        ensures
            r@ == self.marker_text(),
    {
        if self.is_russian() {
            "упомянуты ручные действия"
        } else {
            "mentions manual actions"
        }
    }

    pub open spec fn not_approved_text(&self, section: Seq<char>) -> Seq<char> {
        if self.russian() {
            "Не беру задачи из секции "@ + section
                + ", переместите её в одну из рабочих секций."@
        } else {
            "I do not take tasks from the "@ + section
                + " section, please move it to a working section."@
        }
    }

    /// The comment on a task in a known section from which tasks are not taken.
    pub fn msg_not_approved(&self, section: &str) -> (r: String)
        ensures
            r@ == self.not_approved_text(section@),
    {
        if self.is_russian() {
            let mut out = "Не беру задачи из секции ".to_owned();
            out.append(section);
            out.append(", переместите её в одну из рабочих секций.");
            out
        } else {
            let mut out = "I do not take tasks from the ".to_owned();
            out.append(section);
            out.append(" section, please move it to a working section.");
            out
        }
    }

    pub open spec fn mismatch_text(&self) -> Seq<char> {
        match self.mismatch_comment {
            Some(c) => c@,
            None => if self.russian() {
                "Секции в текущем проекте не соответствуют процессу, задача не может быть выполнена."@
            } else {
                "The sections in this project do not match the process; the task cannot be handled."@
            },
        }
    }

    /// The comment on a task whose section has no role.
    pub fn msg_mismatch(&self) -> (r: String)
        ensures
            r@ == self.mismatch_text(),
    {
        if let Some(c) = &self.mismatch_comment {
            return c.clone();
        }
        if self.is_russian() {
            "Секции в текущем проекте не соответствуют процессу, задача не может быть выполнена.".to_owned()
        } else {
            "The sections in this project do not match the process; the task cannot be handled.".to_owned()
        }
    }
}

/// The comment on manual actions holds the mark by which it is found again.
pub proof fn law_manual_comment_is_marked(s: Settings)
    ensures
        has_text(s.manual_text(), s.marker_text()),
{
    if s.russian() {
        reveal_strlit(
            "Автопилот: в описании упомянуты ручные действия (доступы/оплата/аккаунт/устройства), перевожу в blocked до вмешательства оператора.",
        );
        reveal_strlit("упомянуты ручные действия");
        assert(s.manual_text().subrange(22, 22int + s.marker_text().len()) =~= s.marker_text());
        assert(stands_at(s.manual_text(), s.marker_text(), 22));
    } else {
        reveal_strlit(
            "Autopilot: the description mentions manual actions (access/payment/account/devices); moving to blocked until the operator steps in.",
        );
        reveal_strlit("mentions manual actions");
        assert(s.manual_text().subrange(27, 27int + s.marker_text().len()) =~= s.marker_text());
        assert(stands_at(s.manual_text(), s.marker_text(), 27));
    }
}

/// Whether no two roles share the name of a section.
pub open spec fn names_apart(sections: Seq<(String, Vec<String>)>) -> bool {
    forall|i: int, j: int, key: Seq<char>|
        0 <= i < sections.len() && 0 <= j < sections.len() && #[trigger] texts(
            sections[i].1@,
        ).contains(key) && #[trigger] texts(sections[j].1@).contains(key) ==> sections[i].0@
            == sections[j].0@
}

proof fn lemma_names_from(sections: Seq<(String, Vec<String>)>, role: Seq<char>, i: int)
    requires
        0 <= i <= sections.len(),
    ensures
        names_from(sections, role, i) matches Some(names) ==> exists|j: int|
            i <= j < sections.len() && (#[trigger] sections[j]).0@ == role && texts(
                sections[j].1@,
            ) == names,
    decreases sections.len() - i,
{
    if i < sections.len() {
        if sections[i].0@ == role {
            assert(texts(sections[i].1@) == names_from(sections, role, i)->0);
        } else {
            lemma_names_from(sections, role, i + 1);
        }
    }
}

proof fn lemma_role_from(sections: Seq<(String, Vec<String>)>, key: Seq<char>, i: int, k: int)
    requires
        names_apart(sections),
        0 <= i <= k < sections.len(),
        texts(sections[k].1@).contains(key),
    ensures
        role_from(sections, key, i) == Some(sections[k].0@),
    decreases k - i,
{
    if !texts(sections[i].1@).contains(key) {
        lemma_role_from(sections, key, i + 1, k);
    }
}

/// A section that bears one of the names of a role has that role, where no two roles share a name.
pub proof fn law_named_section_has_the_role(s: Settings, role: Seq<char>, name: Seq<char>)
    requires
        names_apart(s.sections@),
        s.names_of(role) is Some,
        s.names_of(role)->0.contains(section_key(name)),
    ensures
        s.role_of(name) == Some(role),
{
    let sections = s.sections@;
    lemma_names_from(sections, role, 0);
    let k = choose|j: int|
        0 <= j < sections.len() && (#[trigger] sections[j]).0@ == role && texts(sections[j].1@)
            == s.names_of(role)->0;
    lemma_role_from(sections, section_key(name), 0, k);
}

proof fn lemma_own_names(sections: Seq<(String, Vec<String>)>, i: int, k: int)
    requires
        roles_once(sections),
        0 <= i <= k < sections.len(),
    ensures
        names_from(sections, sections[k].0@, i) == Some(texts(sections[k].1@)),
    decreases k - i,
{
    if i < k {
        lemma_own_names(sections, i + 1, k);
    }
}

/// Where no role has two entries, a role has the names of its entry, wherever that stands.
pub proof fn law_role_has_the_names_of_its_entry(s: Settings, k: int)
    requires
        roles_once(s.sections@),
        0 <= k < s.sections@.len(),
    ensures
        s.names_of(s.sections@[k].0@) == Some(texts(s.sections@[k].1@)),
{
    lemma_own_names(s.sections@, 0, k);
}

/// Section names are compared without outer white space and in lower case.
pub proof fn law_section_names_are_compared_loosely(name: Seq<char>, c: char, names: Seq<Seq<char>>, i: int)
    ensures
        section_key(name) == lowercase(trimmed(name)),
        white_space(c) ==> section_key(seq![c] + name) == section_key(name),
        section_keys(names).len() == names.len(),
        0 <= i < names.len() ==> section_keys(names)[i] == section_key(names[i]),
        lowered(names).len() == names.len(),
        0 <= i < names.len() ==> lowered(names)[i] == lowercase(names[i]),
{
    assert((seq![c] + name).drop_first() =~= name);
}

/// An entry of the file keeps its role, and all of its names in their order.
pub proof fn law_entry_keeps_its_names(entry: (String, Vec<String>), raw: (String, RawNames), i: int)
    requires
        same_section(entry, raw),
    ensures
        entry.0@ == raw.0@,
        raw.1 matches RawNames::One(name) ==> entry.1@.len() == 1 && entry.1@[0]@ == section_key(
            name@,
        ),
        raw.1 matches RawNames::Many(names) ==> entry.1@.len() == names@.len() && (0 <= i
            < names@.len() ==> entry.1@[i]@ == section_key(names@[i]@)),
{
    let kept = texts(entry.1@);
    assert(kept.len() == entry.1@.len());
    match raw.1 {
        RawNames::One(name) => {
            assert(kept[0] == entry.1@[0]@);
        },
        RawNames::Many(names) => {
            if 0 <= i < names@.len() {
                assert(kept[i] == entry.1@[i]@);
                assert(texts(names@)[i] == names@[i]@);
            }
        },
    }
}

proof fn lemma_first_role(sections: Seq<(String, Vec<String>)>, key: Seq<char>, i: int, k: int)
    requires
        0 <= i <= k <= sections.len(),
        forall|j: int, m: int|
            i <= j < k && 0 <= m < sections[j].1@.len() ==> (#[trigger] sections[j].1@[m])@ != key,
    ensures
        k == sections.len() ==> role_from(sections, key, i) is None,
        k < sections.len() && (exists|m: int|
            0 <= m < sections[k].1@.len() && (#[trigger] sections[k].1@[m])@ == key) ==> role_from(
            sections,
            key,
            i,
        ) == Some(sections[k].0@),
    decreases k - i,
{
    if i < k {
        let names = texts(sections[i].1@);
        if names.contains(key) {
            let m = names.index_of(key);
            assert(sections[i].1@[m]@ == key);
        }
        lemma_first_role(sections, key, i + 1, k);
    } else if k < sections.len() && (exists|m: int|
        0 <= m < sections[k].1@.len() && (#[trigger] sections[k].1@[m])@ == key) {
        let m = choose|m: int|
            0 <= m < sections[k].1@.len() && (#[trigger] sections[k].1@[m])@ == key;
        assert(texts(sections[k].1@)[m] == key);
    }
}

/// A section has the role of the first entry that bears its name, be it the first name of the entry
/// or a later one; a section whose name no entry bears has no role.
pub proof fn law_role_of_the_first_entry_with_the_name(s: Settings, name: Seq<char>, k: int)
    requires
        0 <= k <= s.sections@.len(),
        forall|j: int, m: int|
            0 <= j < k && 0 <= m < s.sections@[j].1@.len() ==> (#[trigger] s.sections@[j].1@[m])@
                != section_key(name),
    ensures
        k == s.sections@.len() ==> s.role_of(name) is None,
        k < s.sections@.len() && (exists|m: int|
            0 <= m < s.sections@[k].1@.len() && (#[trigger] s.sections@[k].1@[m])@ == section_key(
                name,
            )) ==> s.role_of(name) == Some(s.sections@[k].0@),
{
    lemma_first_role(s.sections@, section_key(name), 0, k);
}

proof fn lemma_first_names(sections: Seq<(String, Vec<String>)>, role: Seq<char>, i: int, k: int)
    requires
        0 <= i <= k <= sections.len(),
        forall|j: int| i <= j < k ==> (#[trigger] sections[j]).0@ != role,
    ensures
        k == sections.len() ==> names_from(sections, role, i) is None,
        k < sections.len() && sections[k].0@ == role ==> names_from(sections, role, i) == Some(
            texts(sections[k].1@),
        ),
    decreases k - i,
{
    if i < k {
        assert(sections[i].0@ != role);
        lemma_first_names(sections, role, i + 1, k);
    }
}

/// A role has the names of the first entry for it, and none where there is no entry.
pub proof fn law_names_of_the_first_entry_for_the_role(s: Settings, role: Seq<char>, k: int)
    requires
        0 <= k <= s.sections@.len(),
        forall|j: int| 0 <= j < k ==> (#[trigger] s.sections@[j]).0@ != role,
    ensures
        k == s.sections@.len() ==> s.names_of(role) is None,
        k < s.sections@.len() && s.sections@[k].0@ == role ==> s.names_of(role) == Some(
            texts(s.sections@[k].1@),
        ),
{
    lemma_first_names(s.sections@, role, 0, k);
}

/// The settings lie in the nearest directory that has them: in its subdirectory `autopilot`, else
/// in itself; a directory further up counts only where no nearer one has them.
pub proof fn law_nearest_settings_count(probes: Seq<DirProbe>, i: int, k: int)
    requires
        0 <= i <= k <= probes.len(),
        forall|j: int| i <= j < k ==> !(#[trigger] probes[j]).nested && !probes[j].flat,
    ensures
        k == probes.len() ==> settings_dir(probes, i) is None,
        k < probes.len() && probes[k].nested ==> settings_dir(probes, i) == Some(
            path_in(probes[k].dir@, "autopilot"@),
        ),
        k < probes.len() && !probes[k].nested && probes[k].flat ==> settings_dir(probes, i) == Some(
            probes[k].dir@,
        ),
    decreases k - i,
{
    if i < k {
        assert(!probes[i].nested && !probes[i].flat);
        law_nearest_settings_count(probes, i + 1, k);
    }
}

/// A role is approved exactly where it stands in the list, at any place.
pub proof fn law_approved_roles_are_listed(s: Settings, role: Seq<char>)
    ensures
        s.approves(role) <==> exists|i: int|
            0 <= i < s.approved@.len() && (#[trigger] s.approved@[i])@ == role,
{
    if s.approves(role) {
        let i = texts(s.approved@).index_of(role);
        assert(s.approved@[i]@ == role);
    }
    if exists|i: int| 0 <= i < s.approved@.len() && (#[trigger] s.approved@[i])@ == role {
        let i = choose|i: int| 0 <= i < s.approved@.len() && (#[trigger] s.approved@[i])@ == role;
        assert(texts(s.approved@)[i] == role);
    }
}

/// Comments are in Russian exactly where the language is `ru` in any case.
pub proof fn law_russian_by_the_language(s: Settings)
    ensures
        s.russian() <==> s.comment_language@.len() == 2 && (s.comment_language@[0] == 'r'
            || s.comment_language@[0] == 'R') && (s.comment_language@[1] == 'u'
            || s.comment_language@[1] == 'U'),
{
    reveal_strlit("ru");
    let l = s.comment_language@;
    let ru = ascii_lowered("ru"@);
    assert(ru.len() == 2 && ru[0] == 'r' && ru[1] == 'u');
    if s.russian() {
        assert(ascii_lowered(l).len() == l.len());
        assert(ascii_lowered(l)[0] == ascii_lower(l[0]));
        assert(ascii_lowered(l)[1] == ascii_lower(l[1]));
    }
    if l.len() == 2 && (l[0] == 'r' || l[0] == 'R') && (l[1] == 'u' || l[1] == 'U') {
        assert(ascii_lowered(l) =~= ru);
    }
}

/// What is commented on a task that goes back: the section is named in either language, and the
/// comment of the settings, where they have one, takes the place of the own one.
pub proof fn law_comments_on_returned_tasks(s: Settings, section: Seq<char>)
    ensures
        s.russian() ==> s.not_approved_text(section) == "Не беру задачи из секции "@ + section
            + ", переместите её в одну из рабочих секций."@,
        !s.russian() ==> s.not_approved_text(section) == "I do not take tasks from the "@ + section
            + " section, please move it to a working section."@,
        s.mismatch_comment matches Some(c) ==> s.mismatch_text() == c@,
        s.mismatch_comment is None && s.russian() ==> s.mismatch_text()
            == "Секции в текущем проекте не соответствуют процессу, задача не может быть выполнена."@,
        s.mismatch_comment is None && !s.russian() ==> s.mismatch_text()
            == "The sections in this project do not match the process; the task cannot be handled."@,
{
}

/// The comment on manual work, and the mark by which it is found again, in either language.
pub proof fn law_comment_on_manual_work(s: Settings)
    ensures
        s.russian() ==> s.manual_text()
            == "Автопилот: в описании упомянуты ручные действия (доступы/оплата/аккаунт/устройства), перевожу в blocked до вмешательства оператора."@
            && s.marker_text() == "упомянуты ручные действия"@,
        !s.russian() ==> s.manual_text()
            == "Autopilot: the description mentions manual actions (access/payment/account/devices); moving to blocked until the operator steps in."@
            && s.marker_text() == "mentions manual actions"@,
{
}

/// Where no role has two entries, any two entries have different roles.
pub proof fn law_entries_have_different_roles(sections: Seq<(String, Vec<String>)>, i: int, j: int)
    requires
        0 <= i < sections.len(),
        0 <= j < sections.len(),
        i != j,
    ensures
        roles_once(sections) ==> sections[i].0@ != sections[j].0@,
{
}

} // verus!
